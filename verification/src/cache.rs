use vstd::prelude::*;
use vstd::string::*;
use vstd::utf8::*;

use crate::error::SealedError;
use sha2::{Digest, Sha256};

verus! {

/// Bump this to invalidate all existing caches.
pub const CACHE_VERSION: usize = 0;

/// The SHA-256 digest of `data`.
pub uninterp spec fn sha256(data: Seq<u8>) -> [u8; 32];

/// `sha2::Sha256::digest`: the SHA-256 digest of `data`. Claimed: the 32 bytes returned are a
/// function of `data` alone, named `sha256`.
#[verifier::external_body]
fn sha256_digest(data: &[u8]) -> (d: [u8; 32])
    ensures
        d == sha256(data@),
{
    Sha256::digest(data).into()
}

/// The lowercase hexadecimal digit for `n < 16`.
pub open spec fn hex_digit(n: u8) -> char {
    if n == 0 { '0' } else if n == 1 { '1' } else if n == 2 { '2' } else if n == 3 { '3' }
    else if n == 4 { '4' } else if n == 5 { '5' } else if n == 6 { '6' } else if n == 7 { '7' }
    else if n == 8 { '8' } else if n == 9 { '9' } else if n == 10 { 'a' } else if n == 11 { 'b' }
    else if n == 12 { 'c' } else if n == 13 { 'd' } else if n == 14 { 'e' } else { 'f' }
}

/// Each byte as two lowercase hexadecimal digits, the high one first.
pub open spec fn hex_text(bytes: Seq<u8>) -> Seq<char>
    decreases bytes.len(),
{
    if bytes.len() == 0 {
        Seq::empty()
    } else {
        hex_text(bytes.drop_last()) + seq![
            hex_digit(bytes.last() / 16),
            hex_digit(bytes.last() % 16),
        ]
    }
}

/// `hex::encode`: the bytes as lowercase hexadecimal. Claimed: each byte becomes two digits
/// from `0123456789abcdef`, the high half first, in the order of the bytes.
#[verifier::external_body]
fn hex_encode(bytes: &[u8]) -> (s: String)
    ensures
        s@ == hex_text(bytes@),
{
    hex::encode(bytes)
}

/// The hash of some bytes, as lowercase hexadecimal text.
pub open spec fn hash_text(bytes: Seq<u8>) -> Seq<char> {
    hex_text(sha256(bytes)@)
}

/// The bytes that `combine` hashes: the UTF-8 encoding of the two hashes, one after the other.
pub open spec fn combine_input(x: Seq<u8>, y: Seq<u8>) -> Seq<u8> {
    encode_utf8(hash_text(x) + hash_text(y))
}

/// The combined hash of two hashed inputs.
pub open spec fn combine_text(x: Seq<u8>, y: Seq<u8>) -> Seq<char> {
    hash_text(combine_input(x, y))
}

/// Two different inputs with the same SHA-256 digest.
pub open spec fn sha256_collision(a: Seq<u8>, b: Seq<u8>) -> bool {
    a != b && sha256(a) == sha256(b)
}

/// The hexadecimal text of `bytes`.
fn hash_hex(bytes: &[u8]) -> (r: String)
    ensures
        r@ == hash_text(bytes@),
{
    let d = sha256_digest(bytes);
    hex_encode(&d)
}

/// Things whose cryptographic hash can be taken, such as strings and paths: the hash of the
/// bytes that represent them.
pub trait CryptoHash {
    /// The bytes that are hashed.
    spec fn hash_input(&self) -> Seq<u8>;

    /// The SHA-256 hash of the bytes, as lowercase hexadecimal text.
    fn crypto_hash(&self) -> (r: String)
        ensures
            r@ == hash_text(self.hash_input()),
    ;
}

impl CryptoHash for str {
    open spec fn hash_input(&self) -> Seq<u8> {
        encode_utf8(self@)
    }

    fn crypto_hash(&self) -> (r: String) {
        hash_hex(self.as_bytes())
    }
}

impl CryptoHash for String {
    open spec fn hash_input(&self) -> Seq<u8> {
        encode_utf8(self@)
    }

    fn crypto_hash(&self) -> (r: String) {
        hash_hex(self.as_str().as_bytes())
    }
}

/// The bytes of a path given as text: its UTF-8 encoding, which is how a Unix system stores it.
pub fn path_as_bytes(path: &str) -> (r: Vec<u8>)
    ensures
        r@ == encode_utf8(path@),
{
    let b = path.as_bytes();
    let mut r: Vec<u8> = Vec::new();
    let mut i: usize = 0;
    while i < b.len()
        invariant
            b@ == encode_utf8(path@),
            i <= b@.len(),
            r@ == b@.take(i as int),
        decreases b@.len() - i,
    {
        r.push(b[i]);
        i = i + 1;
        assert(r@ =~= b@.take(i as int));
    }
    assert(b@.take(b@.len() as int) =~= b@);
    r
}

/// Combines two hashable things into one hash: the hash of the text of their two hashes.
pub fn combine<X: CryptoHash + ?Sized, Y: CryptoHash + ?Sized>(x: &X, y: &Y) -> (r: String)
    ensures
        r@ == combine_text(x.hash_input(), y.hash_input()),
{
    let mut joined = x.crypto_hash();
    let hy = y.crypto_hash();
    joined.append(hy.as_str());
    joined.crypto_hash()
}

/// The hash of all the bytes that can be read from `input`, which is left empty.
pub fn hash_read(input: &mut &[u8]) -> (r: Result<String, SealedError>)
    ensures
        r matches Ok(h) && h@ == hash_text(old(input)@),
        final(input)@.len() == 0,
{
    let data: &[u8] = *input;
    let h = hash_hex(data);
    *input = empty_bytes();
    Ok(h)
}

fn empty_bytes<'a>() -> (r: &'a [u8])
    ensures
        r@.len() == 0,
{
    let e: &'a [u8] = &[];
    e
}

proof fn lemma_hex_len(bytes: Seq<u8>)
    ensures
        hex_text(bytes).len() == 2 * bytes.len(),
    decreases bytes.len(),
{
    if bytes.len() > 0 {
        lemma_hex_len(bytes.drop_last());
    }
}

proof fn lemma_hex_injective(a: Seq<u8>, b: Seq<u8>)
    requires
        a.len() == b.len(),
        hex_text(a) == hex_text(b),
    ensures
        a == b,
    decreases a.len(),
{
    if a.len() > 0 {
        let ha = hex_text(a);
        let hb = hex_text(b);
        lemma_hex_len(a.drop_last());
        lemma_hex_len(b.drop_last());
        let n = 2 * (a.len() - 1);
        assert(ha[n] == hex_digit(a.last() / 16));
        assert(hb[n] == hex_digit(b.last() / 16));
        assert(ha[n + 1] == hex_digit(a.last() % 16));
        assert(hb[n + 1] == hex_digit(b.last() % 16));
        assert(a.last() / 16 == b.last() / 16);
        assert(a.last() % 16 == b.last() % 16);
        assert(a.last() == b.last());
        assert(hex_text(a.drop_last()) =~= ha.subrange(0, n));
        assert(hex_text(b.drop_last()) =~= hb.subrange(0, n));
        lemma_hex_injective(a.drop_last(), b.drop_last());
        assert(a =~= a.drop_last().push(a.last()));
        assert(b =~= b.drop_last().push(b.last()));
    }
}

/// A hash is 64 characters long.
pub proof fn lemma_hash_text_len(bytes: Seq<u8>)
    ensures
        hash_text(bytes).len() == 64,
{
    lemma_hex_len(sha256(bytes)@);
}

/// Whether every character is a lowercase hexadecimal digit.
pub open spec fn is_lower_hex(s: Seq<char>) -> bool {
    forall|i: int| 0 <= i < s.len() ==> ('0' <= #[trigger] s[i] <= '9' || 'a' <= s[i] <= 'f')
}

proof fn lemma_hex_digits(bytes: Seq<u8>)
    ensures
        is_lower_hex(hex_text(bytes)),
    decreases bytes.len(),
{
    if bytes.len() > 0 {
        lemma_hex_digits(bytes.drop_last());
        lemma_hex_len(bytes.drop_last());
        let prev = hex_text(bytes.drop_last());
        let h = hex_text(bytes);
        assert forall|i: int| 0 <= i < h.len() implies ('0' <= #[trigger] h[i] <= '9' || 'a' <= h[i]
            <= 'f') by {
            if i < prev.len() {
                assert(h[i] == prev[i]);
            }
        }
    }
}

/// A hash is 64 lowercase hexadecimal digits.
pub proof fn lemma_hash_text_digits(bytes: Seq<u8>)
    ensures
        hash_text(bytes).len() == 64,
        is_lower_hex(hash_text(bytes)),
{
    lemma_hash_text_len(bytes);
    lemma_hex_digits(sha256(bytes)@);
}

/// Equal hashes come from equal inputs, unless the inputs collide under SHA-256.
pub proof fn law_hash_separates(a: Seq<u8>, b: Seq<u8>)
    ensures
        hash_text(a) == hash_text(b) ==> a == b || sha256_collision(a, b),
{
    if hash_text(a) == hash_text(b) {
        lemma_hex_injective(sha256(a)@, sha256(b)@);
        assert(sha256(a) == sha256(b));
    }
}

/// Equal hashes of two texts come from equal texts, unless their UTF-8 encodings collide under
/// SHA-256.
pub proof fn law_text_hash_separates(a: Seq<char>, b: Seq<char>)
    ensures
        hash_text(encode_utf8(a)) == hash_text(encode_utf8(b)) ==> a == b || sha256_collision(
            encode_utf8(a),
            encode_utf8(b),
        ),
{
    law_hash_separates(encode_utf8(a), encode_utf8(b));
    if encode_utf8(a) == encode_utf8(b) {
        encode_utf8_decode_utf8(a);
        encode_utf8_decode_utf8(b);
    }
}

/// `combine` separates its arguments: two combined hashes are equal only when both first and
/// both second inputs are equal, unless SHA-256 has a collision among the inputs involved.
pub proof fn law_combine_separates(x1: Seq<u8>, y1: Seq<u8>, x2: Seq<u8>, y2: Seq<u8>)
    ensures
        combine_text(x1, y1) == combine_text(x2, y2) ==> (x1 == x2 && y1 == y2) || sha256_collision(
            x1,
            x2,
        ) || sha256_collision(y1, y2) || sha256_collision(
            combine_input(x1, y1),
            combine_input(x2, y2),
        ),
{
    if combine_text(x1, y1) == combine_text(x2, y2) {
        law_hash_separates(combine_input(x1, y1), combine_input(x2, y2));
        if combine_input(x1, y1) == combine_input(x2, y2) {
            let s1 = hash_text(x1) + hash_text(y1);
            let s2 = hash_text(x2) + hash_text(y2);
            encode_utf8_decode_utf8(s1);
            encode_utf8_decode_utf8(s2);
            assert(s1 == s2);
            lemma_hash_text_len(x1);
            lemma_hash_text_len(x2);
            lemma_hash_text_len(y1);
            lemma_hash_text_len(y2);
            assert(hash_text(x1) =~= s1.subrange(0, 64));
            assert(hash_text(x2) =~= s2.subrange(0, 64));
            assert(hash_text(y1) =~= s1.subrange(64, 128));
            assert(hash_text(y2) =~= s2.subrange(64, 128));
            law_hash_separates(x1, x2);
            law_hash_separates(y1, y2);
        }
    }
}

/// Whether SHA-256 maps two different inputs to the same digest.
pub open spec fn sha256_has_collision() -> bool {
    exists|a: Seq<u8>, b: Seq<u8>| #[trigger] sha256_collision(a, b)
}

/// Combining a text into a running hash separates both: equal results come from equal running
/// hashes and equal texts, unless SHA-256 has a collision.
pub proof fn law_text_combine_separates(k1: Seq<char>, t1: Seq<char>, k2: Seq<char>, t2: Seq<char>)
    ensures
        combine_text(encode_utf8(k1), encode_utf8(t1)) == combine_text(encode_utf8(k2), encode_utf8(t2))
            ==> (k1 == k2 && t1 == t2) || sha256_has_collision(),
{
    let (x1, y1, x2, y2) = (encode_utf8(k1), encode_utf8(t1), encode_utf8(k2), encode_utf8(t2));
    law_combine_separates(x1, y1, x2, y2);
    if combine_text(x1, y1) == combine_text(x2, y2) {
        if sha256_collision(x1, x2) {
            assert(sha256_has_collision());
        } else if sha256_collision(y1, y2) {
            assert(sha256_has_collision());
        } else if sha256_collision(combine_input(x1, y1), combine_input(x2, y2)) {
            assert(sha256_has_collision());
        } else {
            encode_utf8_decode_utf8(k1);
            encode_utf8_decode_utf8(k2);
            encode_utf8_decode_utf8(t1);
            encode_utf8_decode_utf8(t2);
        }
    }
}

} // verus!
