use vstd::prelude::*;

verus! {

/// A map from string keys to values that remembers the order in which keys were first
/// inserted. No key occurs twice.
#[derive(Debug, PartialEq, Eq)]
pub struct StrMap<T> {
    entries: Vec<(String, T)>,
}

/// The keys of a sequence of entries, in order.
pub open spec fn entry_keys<T>(entries: Seq<(Seq<char>, T)>) -> Seq<Seq<char>> {
    entries.map_values(|e: (Seq<char>, T)| e.0)
}

/// No key occurs twice among `entries`.
pub open spec fn keys_distinct<T>(entries: Seq<(Seq<char>, T)>) -> bool {
    forall|i: int, j: int|
        0 <= i < entries.len() && 0 <= j < entries.len() && i != j ==> entries[i].0 != entries[j].0
}

/// The position of `key` among `entries`, if it occurs.
pub open spec fn find_key<T>(entries: Seq<(Seq<char>, T)>, key: Seq<char>) -> Option<int> {
    if exists|i: int| 0 <= i < entries.len() && entries[i].0 == key {
        Some(choose|i: int| 0 <= i < entries.len() && entries[i].0 == key)
    } else {
        None
    }
}

impl<T> View for StrMap<T> {
    type V = Seq<(Seq<char>, T)>;

    closed spec fn view(&self) -> Seq<(Seq<char>, T)> {
        self.entries@.map_values(|e: (String, T)| (e.0@, e.1))
    }
}

impl<T> StrMap<T> {
    #[verifier::type_invariant]
    spec fn inv(&self) -> bool {
        keys_distinct(self@)
    }

    /// Whether `key` is one of the keys.
    pub open spec fn has_key(&self, key: Seq<char>) -> bool {
        exists|i: int| 0 <= i < self@.len() && self@[i].0 == key
    }

    /// The value stored under `key`, if any.
    pub open spec fn spec_get(&self, key: Seq<char>) -> Option<T> {
        match find_key(self@, key) {
            Some(i) => Some(self@[i].1),
            None => None,
        }
    }

    /// The keys are pairwise distinct.
    pub fn lemma_distinct(&self)
        ensures
            keys_distinct(self@),
    {
        proof {
            use_type_invariant(self);
        }
    }

    /// An empty map.
    pub fn new() -> (m: Self)
        ensures
            m@ == Seq::<(Seq<char>, T)>::empty(),
    {
        let m = StrMap { entries: Vec::new() };
        assert(m@ =~= Seq::<(Seq<char>, T)>::empty());
        m
    }

    /// The number of entries.
    pub fn len(&self) -> (n: usize)
        ensures
            n == self@.len(),
    {
        self.entries.len()
    }

    /// Whether the map has no entries.
    pub fn is_empty(&self) -> (b: bool)
        ensures
            b == (self@.len() == 0),
    {
        self.entries.len() == 0
    }

    /// The key of the `i`-th entry.
    pub fn key_at(&self, i: usize) -> (k: &String)
        requires
            i < self@.len(),
        ensures
            k@ == self@[i as int].0,
    {
        &self.entries[i].0
    }

    /// The value of the `i`-th entry.
    pub fn value_at(&self, i: usize) -> (v: &T)
        requires
            i < self@.len(),
        ensures
            *v == self@[i as int].1,
    {
        &self.entries[i].1
    }

    /// The position of `key`, if it is one of the keys.
    pub fn position(&self, key: &str) -> (r: Option<usize>)
        ensures
            match r {
                Some(i) => i < self@.len() && self@[i as int].0 == key@,
                None => !self.has_key(key@),
            },
            r is Some <==> self.has_key(key@),
            r is Some ==> find_key(self@, key@) == Some(r->0 as int),
    {
        proof {
            use_type_invariant(self);
        }
        let mut i: usize = 0;
        while i < self.entries.len()
            invariant
                i <= self.entries@.len(),
                self@.len() == self.entries@.len(),
                keys_distinct(self@),
                forall|j: int| 0 <= j < i ==> self@[j].0 != key@,
            decreases self.entries.len() - i,
        {
            if str_eq(self.entries[i].0.as_str(), key) {
                assert(self@[i as int].0 == key@);
                proof {
                    let c = choose|j: int| 0 <= j < self@.len() && self@[j].0 == key@;
                    assert(c == i);
                }
                return Some(i);
            }
            i = i + 1;
        }
        None
    }

    /// Whether `key` is one of the keys.
    pub fn contains_key(&self, key: &str) -> (b: bool)
        ensures
            b == self.has_key(key@),
    {
        self.position(key).is_some()
    }

    /// The value stored under `key`, if any.
    pub fn get(&self, key: &str) -> (r: Option<&T>)
        ensures
            r is Some <==> self.has_key(key@),
            r is Some ==> Some(*r->0) == self.spec_get(key@),
    {
        match self.position(key) {
            Some(i) => Some(&self.entries[i].1),
            None => None,
        }
    }

    /// Stores `value` under `key`. An existing entry keeps its position and has its value
    /// replaced; a new key is added at the end. The previous value is returned.
    pub fn insert(&mut self, key: String, value: T) -> (old_value: Option<T>)
        ensures
            match find_key(old(self)@, key@) {
                Some(i) => {
                    &&& final(self)@ == old(self)@.update(i, (key@, value))
                    &&& old_value == Some(old(self)@[i].1)
                },
                None => {
                    &&& final(self)@ == old(self)@.push((key@, value))
                    &&& old_value is None
                },
            },
    {
        proof {
            use_type_invariant(&*self);
        }
        let pos = self.position(key.as_str());
        let ghost prev = self@;
        let mut entries: Vec<(String, T)> = Vec::new();
        std::mem::swap(&mut entries, &mut self.entries);
        assert(entries@.map_values(|e: (String, T)| (e.0@, e.1)) == prev);
        match pos {
            Some(i) => {
                let (_k, v) = entries.remove(i);
                entries.insert(i, (key, value));
                assert(entries@.map_values(|e: (String, T)| (e.0@, e.1)) =~= prev.update(
                    i as int,
                    (key@, value),
                ));
                self.entries = entries;
                Some(v)
            },
            None => {
                entries.push((key, value));
                assert(entries@.map_values(|e: (String, T)| (e.0@, e.1)) =~= prev.push(
                    (key@, value),
                ));
                self.entries = entries;
                None
            },
        }
    }
}

impl<T: Clone> Clone for StrMap<T> {
    /// A copy with the same keys in the same order; each value is cloned.
    fn clone(&self) -> (r: Self)
        ensures
            entry_keys(r@) == entry_keys(self@),
    {
        proof {
            use_type_invariant(self);
        }
        let mut entries: Vec<(String, T)> = Vec::new();
        let mut i: usize = 0;
        while i < self.entries.len()
            invariant
                i <= self.entries@.len(),
                self@.len() == self.entries@.len(),
                keys_distinct(self@),
                entries@.len() == i,
                forall|j: int| 0 <= j < i ==> #[trigger] entries@[j].0@ == self@[j].0,
            decreases self.entries.len() - i,
        {
            let k = self.entries[i].0.clone();
            let v = self.entries[i].1.clone();
            entries.push((k, v));
            i = i + 1;
        }
        let r = StrMap { entries };
        assert(entry_keys(r@) =~= entry_keys(self@));
        r
    }
}

/// Whether two strings hold the same characters.
pub(crate) fn str_eq(a: &str, b: &str) -> (r: bool)
    ensures
        r == (a@ == b@),
{
    let n = a.unicode_len();
    if n != b.unicode_len() {
        return false;
    }
    let mut i: usize = 0;
    while i < n
        invariant
            n == a@.len(),
            n == b@.len(),
            i <= n,
            forall|j: int| 0 <= j < i ==> a@[j] == b@[j],
        decreases n - i,
    {
        if a.get_char(i) != b.get_char(i) {
            return false;
        }
        i = i + 1;
    }
    assert(a@ =~= b@);
    true
}

} // verus!
