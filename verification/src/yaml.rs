use vstd::prelude::*;

use crate::str_map::str_eq;
use crate::text::views;

verus! {

/// A YAML value, as a configuration file is read: null, a boolean, a number (kept as its
/// text), a string, a sequence, a mapping (its entries in order), or a tagged value.
#[derive(Debug)]
pub enum YamlValue {
    Null,
    Bool(bool),
    Number(String),
    Str(String),
    Sequence(Vec<YamlValue>),
    Mapping(Vec<(YamlValue, YamlValue)>),
    Tagged(String, Box<YamlValue>),
}

/// The value under any tags.
pub open spec fn untagged(v: YamlValue) -> YamlValue
    decreases v,
{
    match v {
        YamlValue::Tagged(_, inner) => untagged(*inner),
        _ => v,
    }
}

/// The entries of `v` when it is a mapping (under any tags).
pub open spec fn mapping_of(v: YamlValue) -> Option<Seq<(YamlValue, YamlValue)>> {
    match untagged(v) {
        YamlValue::Mapping(m) => Some(m@),
        _ => None,
    }
}

/// The text of `v` when it is a string (under any tags).
pub open spec fn str_of(v: YamlValue) -> Option<Seq<char>> {
    match untagged(v) {
        YamlValue::Str(s) => Some(s@),
        _ => None,
    }
}

/// The boolean `v` when it is one (under any tags).
pub open spec fn bool_of(v: YamlValue) -> Option<bool> {
    match untagged(v) {
        YamlValue::Bool(b) => Some(b),
        _ => None,
    }
}

/// The items of `v` when it is a sequence (under any tags).
pub open spec fn sequence_of(v: YamlValue) -> Option<Seq<YamlValue>> {
    match untagged(v) {
        YamlValue::Sequence(items) => Some(items@),
        _ => None,
    }
}

/// The entry of `m` whose key is the (untagged) string `key`, if any: the first one.
pub open spec fn entry_index(m: Seq<(YamlValue, YamlValue)>, key: Seq<char>) -> Option<int> {
    if exists|i: int| is_first_key(m, key, i) {
        Some(choose|i: int| is_first_key(m, key, i))
    } else {
        None
    }
}

/// The `i`-th entry is the first whose key is the string `key`.
pub open spec fn is_first_key(m: Seq<(YamlValue, YamlValue)>, key: Seq<char>, i: int) -> bool {
    &&& 0 <= i < m.len()
    &&& key_is(m[i].0, key)
    &&& forall|j: int| 0 <= j < i ==> !key_is(#[trigger] m[j].0, key)
}

/// `k` is the string `key`, without tags.
pub open spec fn key_is(k: YamlValue, key: Seq<char>) -> bool {
    k matches YamlValue::Str(s) && s@ == key
}

/// The value stored under `key` in the mapping `m`, if any.
pub open spec fn lookup(m: Seq<(YamlValue, YamlValue)>, key: Seq<char>) -> Option<YamlValue> {
    match entry_index(m, key) {
        Some(i) => Some(m[i].1),
        None => None,
    }
}

/// The value stored under `key` when `v` is a mapping (under any tags).
pub open spec fn value_get(v: YamlValue, key: Seq<char>) -> Option<YamlValue> {
    match mapping_of(v) {
        Some(m) => lookup(m, key),
        None => None,
    }
}

/// The text stored under `key` in `m`, when there is a string there.
pub open spec fn str_value(m: Seq<(YamlValue, YamlValue)>, key: Seq<char>) -> Option<Seq<char>> {
    match lookup(m, key) {
        Some(v) => str_of(v),
        None => None,
    }
}

/// The boolean stored under `key` in `m`, when there is one.
pub open spec fn bool_value(m: Seq<(YamlValue, YamlValue)>, key: Seq<char>) -> Option<bool> {
    match lookup(m, key) {
        Some(v) => bool_of(v),
        None => None,
    }
}

/// The strings among `items`, in order; other items are left out.
pub open spec fn strings_among(items: Seq<YamlValue>) -> Seq<Seq<char>>
    decreases items.len(),
{
    if items.len() == 0 {
        Seq::empty()
    } else {
        let prev = strings_among(items.drop_last());
        match str_of(items.last()) {
            Some(s) => prev.push(s),
            None => prev,
        }
    }
}

/// The strings of the sequence stored under `key` in `m`, when there is a sequence there.
pub open spec fn str_sequence(m: Seq<(YamlValue, YamlValue)>, key: Seq<char>) -> Option<
    Seq<Seq<char>>,
> {
    match lookup(m, key) {
        Some(v) => match sequence_of(v) {
            Some(items) => Some(strings_among(items)),
            None => None,
        },
        None => None,
    }
}

impl YamlValue {
    /// The value under any tags.
    pub fn untag_ref(&self) -> (r: &YamlValue)
        ensures
            *r == untagged(*self),
            !(r is Tagged),
        decreases self,
    {
        match self {
            YamlValue::Tagged(_, inner) => inner.untag_ref(),
            _ => self,
        }
    }

    /// The entries when this is a mapping.
    pub fn as_mapping(&self) -> (r: Option<&Vec<(YamlValue, YamlValue)>>)
        ensures
            match r {
                Some(m) => mapping_of(*self) == Some(m@),
                None => mapping_of(*self) is None,
            },
    {
        match self.untag_ref() {
            YamlValue::Mapping(m) => Some(m),
            _ => None,
        }
    }

    /// The text when this is a string.
    pub fn as_str(&self) -> (r: Option<&String>)
        ensures
            match r {
                Some(s) => str_of(*self) == Some(s@),
                None => str_of(*self) is None,
            },
    {
        match self.untag_ref() {
            YamlValue::Str(s) => Some(s),
            _ => None,
        }
    }

    /// The boolean when this is one.
    pub fn as_bool(&self) -> (r: Option<bool>)
        ensures
            r == bool_of(*self),
    {
        match self.untag_ref() {
            YamlValue::Bool(b) => Some(*b),
            _ => None,
        }
    }

    /// The items when this is a sequence.
    pub fn as_sequence(&self) -> (r: Option<&Vec<YamlValue>>)
        ensures
            match r {
                Some(items) => sequence_of(*self) == Some(items@),
                None => sequence_of(*self) is None,
            },
    {
        match self.untag_ref() {
            YamlValue::Sequence(items) => Some(items),
            _ => None,
        }
    }

    /// The value stored under `key` when this is a mapping.
    pub fn get(&self, key: &str) -> (r: Option<&YamlValue>)
        ensures
            match r {
                Some(v) => value_get(*self, key@) == Some(*v),
                None => value_get(*self, key@) is None,
            },
    {
        match self.as_mapping() {
            Some(m) => mapping_get(m, key),
            None => None,
        }
    }
}

/// The value stored under the string `key` in the mapping `m`.
pub fn mapping_get<'a>(m: &'a Vec<(YamlValue, YamlValue)>, key: &str) -> (r: Option<&'a YamlValue>)
    ensures
        match r {
            Some(v) => lookup(m@, key@) == Some(*v),
            None => lookup(m@, key@) is None,
        },
{
    let mut i: usize = 0;
    while i < m.len()
        invariant
            i <= m@.len(),
            forall|j: int| 0 <= j < i ==> !key_is(#[trigger] m@[j].0, key@),
        decreases m.len() - i,
    {
        let matched = match &m[i].0 {
            YamlValue::Str(s) => str_eq(s.as_str(), key),
            _ => false,
        };
        if matched {
            proof {
                assert(is_first_key(m@, key@, i as int));
                let c = choose|c: int| is_first_key(m@, key@, c);
                if c < i {
                    assert(!key_is(m@[c].0, key@));
                } else if c > i {
                    assert(!key_is(m@[i as int].0, key@));
                }
            }
            return Some(&m[i].1);
        }
        i = i + 1;
    }
    proof {
        assert forall|c: int| !is_first_key(m@, key@, c) by {
            if 0 <= c < m@.len() {
                assert(!key_is(m@[c].0, key@));
            }
        }
    }
    None
}

/// The text stored under `key`, when there is a string there.
pub fn get_str_value(config: &Vec<(YamlValue, YamlValue)>, key: &str) -> (r: Option<String>)
    ensures
        match r {
            Some(s) => str_value(config@, key@) == Some(s@),
            None => str_value(config@, key@) is None,
        },
{
    match mapping_get(config, key) {
        Some(v) => match v.as_str() {
            Some(s) => Some(s.clone()),
            None => None,
        },
        None => None,
    }
}

/// The strings of the sequence stored under `key`, when there is a sequence there.
pub fn get_str_sequence(config: &Vec<(YamlValue, YamlValue)>, key: &str) -> (r: Option<Vec<String>>)
    ensures
        match r {
            Some(items) => str_sequence(config@, key@) == Some(views(items@)),
            None => str_sequence(config@, key@) is None,
        },
{
    match mapping_get(config, key) {
        Some(v) => match v.as_sequence() {
            Some(items) => {
                let mut r: Vec<String> = Vec::new();
                let mut i: usize = 0;
                while i < items.len()
                    invariant
                        i <= items@.len(),
                        views(r@) == strings_among(items@.take(i as int)),
                    decreases items.len() - i,
                {
                    let ghost before = r@;
                    proof {
                        assert(items@.take(i + 1).drop_last() =~= items@.take(i as int));
                        assert(items@.take(i + 1).last() == items@[i as int]);
                    }
                    if let Some(s) = items[i].as_str() {
                        r.push(s.clone());
                        assert(views(r@) =~= views(before).push(s@));
                    }
                    i = i + 1;
                }
                assert(items@.take(items@.len() as int) =~= items@);
                Some(r)
            },
            None => None,
        },
        None => None,
    }
}

/// The boolean stored under `key`, when there is one.
pub fn get_bool_value(config: &Vec<(YamlValue, YamlValue)>, key: &str) -> (r: Option<bool>)
    ensures
        r == bool_value(config@, key@),
{
    match mapping_get(config, key) {
        Some(v) => v.as_bool(),
        None => None,
    }
}

} // verus!
