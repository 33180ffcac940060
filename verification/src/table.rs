//! Tables keyed by text: a vector of `(key, value)` pairs read like a map,
//! where the first pair with a key gives its value.
use vstd::prelude::*;
use crate::lines::texts;
use crate::text::str_eq;

verus! {

/// Index of the first pair whose key is `key`, or the number of pairs.
pub open spec fn key_index<V>(entries: Seq<(String, V)>, key: Seq<char>) -> int
    decreases entries.len(),
{
    if entries.len() == 0 {
        0
    } else if entries[0].0@ == key {
        0
    } else {
        1 + key_index(entries.drop_first(), key)
    }
}

/// The value of the first pair whose key is `key`.
pub open spec fn lookup<V>(entries: Seq<(String, V)>, key: Seq<char>) -> Option<V> {
    let i = key_index(entries, key);
    if 0 <= i < entries.len() {
        Some(entries[i].1)
    } else {
        None
    }
}

/// `key_index` is `k` when pair `k` is the first with the key.
pub proof fn lemma_key_index<V>(entries: Seq<(String, V)>, key: Seq<char>, k: int)
    requires
        0 <= k <= entries.len(),
        forall|j: int| 0 <= j < k ==> entries[j].0@ != key,
        k == entries.len() || entries[k].0@ == key,
    ensures
        key_index(entries, key) == k,
    decreases k,
{
    if k > 0 {
        lemma_key_index(entries.drop_first(), key, k - 1);
    }
}

/// Where the first pair with the key stands, or the number of pairs.
pub fn find_key<V>(entries: &[(String, V)], key: &str) -> (r: usize)
    ensures
        r == key_index(entries@, key@),
        r <= entries@.len(),
        r < entries@.len() ==> entries@[r as int].0@ == key@,
        forall|j: int| 0 <= j < r ==> entries@[j].0@ != key@,
{
    let mut k: usize = 0;
    while k < entries.len() && !str_eq(entries[k].0.as_str(), key)
        invariant
            k <= entries@.len(),
            forall|j: int| 0 <= j < k ==> entries@[j].0@ != key@,
        decreases entries@.len() - k,
    {
        k = k + 1;
    }
    proof {
        lemma_key_index(entries@, key@, k as int);
    }
    k
}

/// Whether one of the strings is `item`.
pub fn has_text(list: &[String], item: &str) -> (r: bool)
    ensures
        r == texts(list@).contains(item@),
{
    let mut k: usize = 0;
    while k < list.len()
        invariant
            k <= list@.len(),
            forall|j: int| 0 <= j < k ==> list@[j]@ != item@,
        decreases list@.len() - k,
    {
        if str_eq(list[k].as_str(), item) {
            assert(texts(list@)[k as int] == item@);
            return true;
        }
        k = k + 1;
    }
    assert forall|j: int| 0 <= j < texts(list@).len() implies texts(list@)[j] != item@ by {
        assert(texts(list@)[j] == list@[j]@);
    }
    false
}

/// The text of each key and value.
pub open spec fn pair_texts(entries: Seq<(String, String)>) -> Seq<(Seq<char>, Seq<char>)> {
    entries.map_values(|e: (String, String)| (e.0@, e.1@))
}

/// Index of the first pair whose key is `key`, or the number of pairs.
pub open spec fn text_key_index(entries: Seq<(Seq<char>, Seq<char>)>, key: Seq<char>) -> int
    decreases entries.len(),
{
    if entries.len() == 0 {
        0
    } else if entries[0].0 == key {
        0
    } else {
        1 + text_key_index(entries.drop_first(), key)
    }
}

/// The value of the first pair whose key is `key`.
pub open spec fn text_lookup(entries: Seq<(Seq<char>, Seq<char>)>, key: Seq<char>) -> Option<Seq<char>> {
    let i = text_key_index(entries, key);
    if 0 <= i < entries.len() {
        Some(entries[i].1)
    } else {
        None
    }
}

/// `text_key_index` is `k` when pair `k` is the first with the key.
pub proof fn lemma_text_key_index(entries: Seq<(Seq<char>, Seq<char>)>, key: Seq<char>, k: int)
    requires
        0 <= k <= entries.len(),
        forall|j: int| 0 <= j < k ==> entries[j].0 != key,
        k == entries.len() || entries[k].0 == key,
    ensures
        text_key_index(entries, key) == k,
    decreases k,
{
    if k > 0 {
        lemma_text_key_index(entries.drop_first(), key, k - 1);
    }
}

/// The value of the first pair whose key is `key`.
pub fn get_text<'a>(entries: &'a [(String, String)], key: &str) -> (r: Option<&'a String>)
    ensures
        match text_lookup(pair_texts(entries@), key@) {
            Some(v) => r matches Some(x) && x@ == v,
            None => r is None,
        },
{
    let ghost t = pair_texts(entries@);
    let mut k: usize = 0;
    while k < entries.len() && !str_eq(entries[k].0.as_str(), key)
        invariant
            k <= entries@.len(),
            t == pair_texts(entries@),
            forall|j: int| 0 <= j < k ==> t[j].0 != key@,
        decreases entries@.len() - k,
    {
        k = k + 1;
    }
    proof {
        lemma_text_key_index(t, key@, k as int);
    }
    if k < entries.len() {
        Some(&entries[k].1)
    } else {
        None
    }
}

} // verus!
