use sealed_infra::cache::{combine, hash_read, path_as_bytes, CryptoHash, CACHE_VERSION};

#[test]
fn hash_str_pure() {
    assert_eq!("foo".crypto_hash(), "foo".crypto_hash());
}

#[test]
fn hash_str_not_constant() {
    assert_ne!("foo".crypto_hash(), "bar".crypto_hash());
}

#[test]
fn hash_path_pure() {
    assert_eq!("foo".to_owned().crypto_hash(), "foo".to_owned().crypto_hash());
}

#[test]
fn hash_path_not_constant() {
    assert_ne!("foo".to_owned().crypto_hash(), "bar".to_owned().crypto_hash());
}

#[test]
fn hash_unix_path_pure() {
    assert_eq!("foo".to_owned().crypto_hash(), "foo".to_owned().crypto_hash());
}

#[test]
fn hash_unix_path_not_constant() {
    assert_ne!("foo".to_owned().crypto_hash(), "bar".to_owned().crypto_hash());
}

#[test]
fn combine_pure() {
    assert_eq!(combine("foo", "bar"), combine("foo", "bar"));
}

#[test]
fn combine_first_different() {
    assert_ne!(combine("foo", "bar"), combine("foo", "baz"));
}

#[test]
fn combine_second_different() {
    assert_ne!(combine("foo", "bar"), combine("baz", "bar"));
}

#[test]
fn combine_concat() {
    assert_ne!(combine("foo", "bar"), combine("foob", "ar"));
}

#[test]
fn hash_read_pure() {
    let mut str1 = b"foo" as &[u8];
    let mut str2 = b"foo" as &[u8];
    assert_eq!(hash_read(&mut str1).unwrap(), hash_read(&mut str2).unwrap());
}

#[test]
fn hash_read_not_constant() {
    let mut str1 = b"foo" as &[u8];
    let mut str2 = b"bar" as &[u8];
    assert_ne!(hash_read(&mut str1).unwrap(), hash_read(&mut str2).unwrap());
}

#[test]
fn hash_of_known_text() {
    assert_eq!(
        "foo".crypto_hash(),
        "2c26b46b68ffc68ff99b453c1d30413413422d706483bfa0f98a5e886266e7ae"
    );
    assert_eq!(
        "".crypto_hash(),
        "e3b0c44298fc1c149afbf4c8996fb92427ae41e4649b934ca495991b7852b855"
    );
}

#[test]
fn hash_read_consumes_input_and_matches_text_hash() {
    let mut input = b"foo" as &[u8];
    let hash = hash_read(&mut input).unwrap();
    assert!(input.is_empty());
    assert_eq!(hash, "foo".crypto_hash());
    assert_eq!(hash.len(), 64);
}

#[test]
fn combine_is_hash_of_concatenated_hashes() {
    let joined = format!("{}{}", "foo".crypto_hash(), "bar".crypto_hash());
    assert_eq!(combine("foo", "bar"), joined.crypto_hash());
}

#[test]
fn path_bytes_are_utf8() {
    assert_eq!(path_as_bytes("/a/é"), "/a/é".as_bytes().to_vec());
    assert_eq!(CACHE_VERSION, 0);
}
