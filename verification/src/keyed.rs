//! Lists of named entries, looked up by name: the first entry with a name
//! answers for it, and in a list with unique names (`unique_keys`) that is the
//! only one.
use vstd::prelude::*;
use crate::text::{chars_eq, chars_of};

verus! {


/// The first index at or after `i` whose key is `key`.
pub open spec fn key_index_from<V>(entries: Seq<(String, V)>, key: Seq<char>, i: int) -> Option<int>
    decreases entries.len() - i,
{
    if i < 0 || i >= entries.len() {
        None
    } else if entries[i].0@ == key {
        Some(i)
    } else {
        key_index_from(entries, key, i + 1)
    }
}

/// The value of the first entry whose key is `key`.
pub open spec fn lookup<V>(entries: Seq<(String, V)>, key: Seq<char>) -> Option<V> {
    match key_index_from(entries, key, 0) {
        Some(i) => Some(entries[i].1),
        None => None,
    }
}

/// No key occurs twice.
pub open spec fn unique_keys<V>(entries: Seq<(String, V)>) -> bool {
    forall|i: int, j: int| 0 <= i < j < entries.len() ==> entries[i].0@ != entries[j].0@
}

/// An index found by `key_index_from` holds the key and is in range.
pub proof fn lemma_key_index<V>(entries: Seq<(String, V)>, key: Seq<char>, i: int)
    requires
        0 <= i,
    ensures
        key_index_from(entries, key, i) matches Some(j) ==> i <= j < entries.len() && entries[j].0@ == key,
        key_index_from(entries, key, i) is None ==> forall|j: int| i <= j < entries.len() ==> #[trigger] entries[j].0@ != key,
    decreases entries.len() - i,
{
    if i >= entries.len() {
    } else if entries[i].0@ == key {
    } else {
        lemma_key_index(entries, key, i + 1);
    }
}

/// The index of the first entry whose key is `key`.
pub fn find_key<V>(entries: &Vec<(String, V)>, key: &str) -> (r: Option<usize>)
    ensures
        match r {
            Some(i) => key_index_from(entries@, key@, 0) == Some(i as int),
            None => key_index_from(entries@, key@, 0) is None,
        },
{
    let k = chars_of(key);
    let mut i: usize = 0;
    while i < entries.len()
        invariant
            i <= entries.len(),
            k@ == key@,
            key_index_from(entries@, key@, 0) == key_index_from(entries@, key@, i as int),
        decreases entries.len() - i,
    {
        let name = chars_of(entries[i].0.as_str());
        if chars_eq(&name, &k) {
            return Some(i);
        }
        i = i + 1;
    }
    None
}

} // verus!
