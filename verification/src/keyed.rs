//! Small maps from names to values, kept as a vector of (name, value)
//! entries in which every name occurs at most once.
use vstd::prelude::*;

use crate::text::{chars_eq, chars_of};

verus! {

/// The value stored under `k`: that of the last entry with that name.
pub open spec fn lookup<V: View>(e: Seq<(String, V)>, k: Seq<char>) -> Option<V::V>
    decreases e.len(),
{
    if e.len() == 0 {
        None
    } else if e.last().0@ == k {
        Some(e.last().1@)
    } else {
        lookup(e.drop_last(), k)
    }
}

/// How many entries carry the name `k`.
pub open spec fn key_count<V>(e: Seq<(String, V)>, k: Seq<char>) -> nat
    decreases e.len(),
{
    if e.len() == 0 {
        0
    } else {
        key_count(e.drop_last(), k) + if e.last().0@ == k {
            1nat
        } else {
            0nat
        }
    }
}

/// No name occurs twice.
pub open spec fn keys_unique<V>(e: Seq<(String, V)>) -> bool {
    forall|k: Seq<char>| #[trigger] key_count(e, k) <= 1
}

/// The map from names to the views of their values.
pub open spec fn keyed_map<V: View>(e: Seq<(String, V)>) -> Map<Seq<char>, V::V> {
    Map::new(|k: Seq<char>| lookup(e, k) is Some, |k: Seq<char>| lookup(e, k)->0)
}

pub proof fn lemma_lookup_none<V: View>(e: Seq<(String, V)>, k: Seq<char>)
    requires
        key_count(e, k) == 0,
    ensures
        lookup(e, k) is None,
    decreases e.len(),
{
    if e.len() > 0 {
        lemma_lookup_none(e.drop_last(), k);
    }
}

pub proof fn lemma_key_count_pos<V>(e: Seq<(String, V)>, i: int)
    requires
        0 <= i < e.len(),
    ensures
        key_count(e, e[i].0@) >= 1,
    decreases e.len(),
{
    if i < e.len() - 1 {
        lemma_key_count_pos(e.drop_last(), i);
    }
}

pub proof fn lemma_lookup_index<V: View>(e: Seq<(String, V)>, i: int)
    requires
        0 <= i < e.len(),
        key_count(e, e[i].0@) <= 1,
    ensures
        lookup(e, e[i].0@) == Some(e[i].1@),
    decreases e.len(),
{
    if i < e.len() - 1 {
        let d = e.drop_last();
        lemma_key_count_pos(d, i);
        lemma_lookup_index(d, i);
    }
}

pub proof fn lemma_key_count_witness<V>(e: Seq<(String, V)>, k: Seq<char>)
    requires
        key_count(e, k) > 0,
    ensures
        exists|i: int| 0 <= i < e.len() && #[trigger] e[i].0@ == k,
    decreases e.len(),
{
    if e.last().0@ == k {
        assert(e[e.len() - 1].0@ == k);
    } else {
        let d = e.drop_last();
        lemma_key_count_witness(d, k);
        let i = choose|i: int| 0 <= i < d.len() && #[trigger] d[i].0@ == k;
        assert(e[i] == d[i]);
    }
}

/// Replacing an entry by one with the same name changes only that name's value.
pub proof fn lemma_update_same_key<V: View>(e: Seq<(String, V)>, i: int, x: (String, V), q: Seq<char>)
    requires
        0 <= i < e.len(),
        x.0@ == e[i].0@,
        key_count(e, e[i].0@) <= 1,
    ensures
        lookup(e.update(i, x), q) == if q == x.0@ {
            Some(x.1@)
        } else {
            lookup(e, q)
        },
        key_count(e.update(i, x), q) == key_count(e, q),
    decreases e.len(),
{
    let u = e.update(i, x);
    if i == e.len() - 1 {
        assert(u.drop_last() =~= e.drop_last());
    } else {
        let d = e.drop_last();
        assert(u.drop_last() =~= d.update(i, x));
        lemma_key_count_pos(d, i);
        lemma_update_same_key(d, i, x, q);
        assert(u.last() == e.last());
    }
}

/// With unique names, the map has one key per entry.
pub proof fn lemma_unique_dom_len<V: View>(e: Seq<(String, V)>)
    requires
        keys_unique(e),
    ensures
        keyed_map(e).dom().finite(),
        keyed_map(e).dom().len() == e.len(),
    decreases e.len(),
{
    if e.len() == 0 {
        assert(keyed_map(e).dom() =~= Set::<Seq<char>>::empty());
    } else {
        let d = e.drop_last();
        let k = e.last().0@;
        assert forall|q: Seq<char>| #[trigger] key_count(d, q) <= 1 by {
            assert(key_count(e, q) <= 1);
        }
        lemma_unique_dom_len(d);
        assert(key_count(e, k) <= 1);
        lemma_lookup_none(d, k);
        assert(keyed_map(e).dom() =~= keyed_map(d).dom().insert(k));
    }
}

/// Position of the entry named `name`, if any.
pub fn find_key<V: View>(entries: &Vec<(String, V)>, name: &str) -> (r: Option<usize>)
    requires
        keys_unique(entries@),
    ensures
        match r {
            Some(i) => i < entries@.len() && entries@[i as int].0@ == name@ && keyed_map(entries@).contains_key(
                name@,
            ) && keyed_map(entries@)[name@] == entries@[i as int].1@,
            None => !keyed_map(entries@).contains_key(name@) && key_count(entries@, name@) == 0,
        },
{
    let key = chars_of(name);
    let mut i: usize = 0;
    while i < entries.len()
        invariant
            i <= entries@.len(),
            keys_unique(entries@),
            key@ == name@,
            forall|j: int| 0 <= j < i ==> #[trigger] entries@[j].0@ != name@,
        decreases entries@.len() - i,
    {
        if chars_eq(&chars_of(entries[i].0.as_str()), &key) {
            proof {
                assert(key_count(entries@, entries@[i as int].0@) <= 1);
                lemma_lookup_index(entries@, i as int);
            }
            return Some(i);
        }
        i += 1;
    }
    proof {
        if key_count(entries@, name@) > 0 {
            lemma_key_count_witness(entries@, name@);
        }
        lemma_lookup_none(entries@, name@);
    }
    None
}

/// Stores `value` under `name`, replacing the value stored there before.
pub fn insert_entry<V: View>(entries: &mut Vec<(String, V)>, name: String, value: V)
    requires
        keys_unique(old(entries)@),
    ensures
        keys_unique(final(entries)@),
        keyed_map(final(entries)@) == keyed_map(old(entries)@).insert(name@, value@),
{
    let ghost k = name@;
    let ghost h = value@;
    let ghost e = entries@;
    match find_key(entries, name.as_str()) {
        Some(i) => {
            let ghost x = (name, value);
            proof {
                assert forall|q: Seq<char>| #[trigger] key_count(e.update(i as int, x), q) <= 1 by {
                    lemma_update_same_key(e, i as int, x, q);
                }
                assert forall|q: Seq<char>| #[trigger]
                    lookup(e.update(i as int, x), q) == (if q == k {
                        Some(h)
                    } else {
                        lookup(e, q)
                    }) by {
                    lemma_update_same_key(e, i as int, x, q);
                }
            }
            entries.set(i, (name, value));
            proof {
                assert(entries@ == e.update(i as int, x));
            }
        },
        None => {
            entries.push((name, value));
            proof {
                assert(entries@.drop_last() =~= e);
                assert forall|q: Seq<char>| #[trigger] key_count(entries@, q) <= 1 by {
                    assert(key_count(e, q) <= 1);
                }
            }
        },
    }
    assert(keyed_map(entries@) =~= keyed_map(e).insert(k, h));
}

} // verus!
