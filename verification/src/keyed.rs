//! Text-keyed tables kept as vectors sorted by key, as a `BTreeMap` of
//! strings would iterate them.
use vstd::prelude::*;

use crate::text::{lemma_seq_less_irreflexive, lemma_seq_less_total, lemma_seq_less_transitive, seq_less, text_less};

verus! {

/// Ascending by key, so no key appears twice.
pub open spec fn keyed_sorted<V>(c: Seq<(Seq<char>, V)>) -> bool {
    forall|i: int, j: int| 0 <= i < j < c.len() ==> seq_less(#[trigger] c[i].0, #[trigger] c[j].0)
}

/// The value under `key`: the last entry with that key.
pub open spec fn keyed_get<V>(c: Seq<(Seq<char>, V)>, key: Seq<char>) -> Option<V>
    decreases c.len(),
{
    if c.len() == 0 {
        None
    } else if c.last().0 == key {
        Some(c.last().1)
    } else {
        keyed_get(c.drop_last(), key)
    }
}

pub proof fn lemma_keyed_get_sorted<V>(c: Seq<(Seq<char>, V)>, i: int)
    requires
        keyed_sorted(c),
        0 <= i < c.len(),
    ensures
        keyed_get(c, c[i].0) == Some(c[i].1),
    decreases c.len(),
{
    if i < c.len() - 1 {
        lemma_seq_less_irreflexive(c[i].0);
        assert(seq_less(c[i].0, c.last().0));
        assert(c.drop_last()[i] == c[i]);
        lemma_keyed_get_sorted(c.drop_last(), i);
    }
}

pub proof fn lemma_keyed_get_absent<V>(c: Seq<(Seq<char>, V)>, key: Seq<char>)
    requires
        forall|i: int| 0 <= i < c.len() ==> (#[trigger] c[i]).0 != key,
    ensures
        keyed_get(c, key) is None,
    decreases c.len(),
{
    if c.len() > 0 {
        assert forall|i: int| 0 <= i < c.drop_last().len() implies (#[trigger] c.drop_last()[i]).0 != key by {
            assert(c.drop_last()[i] == c[i]);
        }
        lemma_keyed_get_absent(c.drop_last(), key);
    }
}

pub proof fn lemma_keyed_get_found<V>(c: Seq<(Seq<char>, V)>, key: Seq<char>)
    requires
        keyed_sorted(c),
    ensures
        keyed_get(c, key) matches Some(x) ==> exists|i: int|
            0 <= i < c.len() && (#[trigger] c[i]).0 == key && c[i].1 == x,
        keyed_get(c, key) is None ==> forall|i: int| 0 <= i < c.len() ==> (#[trigger] c[i]).0 != key,
{
    if exists|i: int| 0 <= i < c.len() && (#[trigger] c[i]).0 == key {
        let i = choose|i: int| 0 <= i < c.len() && (#[trigger] c[i]).0 == key;
        lemma_keyed_get_sorted(c, i);
    } else {
        lemma_keyed_get_absent(c, key);
    }
}

/// String pairs read as character sequences.
pub open spec fn text_pairs(v: Seq<(String, String)>) -> Seq<(Seq<char>, Seq<char>)> {
    v.map_values(|p: (String, String)| (p.0@, p.1@))
}

/// Where `key` is, or where it would go.
fn find_key(table: &Vec<(String, String)>, key: &str) -> (r: Result<usize, usize>)
    requires
        keyed_sorted(text_pairs(table@)),
    ensures
        match r {
            Ok(i) => i < table@.len() && table@[i as int].0@ == key@,
            Err(i) => i <= table@.len() && (forall|j: int|
                0 <= j < i ==> seq_less(#[trigger] table@[j].0@, key@)) && (forall|j: int|
                i <= j < table@.len() ==> seq_less(key@, #[trigger] table@[j].0@)),
        },
{
    let ghost tv = text_pairs(table@);
    let mut i: usize = 0;
    while i < table.len() && text_less(table[i].0.as_str(), key)
        invariant
            i <= table@.len(),
            tv == text_pairs(table@),
            keyed_sorted(tv),
            forall|j: int| 0 <= j < i ==> seq_less(#[trigger] table@[j].0@, key@),
        decreases table@.len() - i,
    {
        i = i + 1;
    }
    if i < table.len() && crate::text::str_eq(table[i].0.as_str(), key) {
        return Ok(i);
    }
    proof {
        if i < table@.len() {
            lemma_seq_less_total(table@[i as int].0@, key@);
            assert(tv[i as int].0 == table@[i as int].0@);
            assert(seq_less(key@, table@[i as int].0@));
            assert forall|j: int| i <= j < table@.len() implies seq_less(key@, #[trigger] table@[j].0@) by {
                if j > i {
                    assert(seq_less(tv[i as int].0, tv[j].0));
                    lemma_seq_less_transitive(key@, table@[i as int].0@, table@[j].0@);
                }
            }
        }
    }
    Err(i)
}

/// Puts `value` under `key`, replacing what was there and keeping the table
/// sorted.
pub fn put_text(table: &mut Vec<(String, String)>, key: String, value: String)
    requires
        keyed_sorted(text_pairs(old(table)@)),
    ensures
        keyed_sorted(text_pairs(final(table)@)),
        forall|k: Seq<char>| #[trigger] keyed_get(text_pairs(final(table)@), k) == if k == key@ {
            Some(value@)
        } else {
            keyed_get(text_pairs(old(table)@), k)
        },
{
    let ghost before = text_pairs(table@);
    let ghost k0 = key@;
    let ghost v0 = value@;
    match find_key(table, key.as_str()) {
        Ok(i) => {
            table.set(i, (key, value));
            let ghost after = text_pairs(table@);
            assert(after =~= before.update(i as int, (k0, v0)));
            proof {
                assert forall|a: int, b: int| 0 <= a < b < after.len() implies seq_less(#[trigger] after[a].0, #[trigger] after[b].0) by {
                    assert(after[a].0 == before[a].0 && after[b].0 == before[b].0);
                }
                assert forall|k: Seq<char>| #[trigger] keyed_get(after, k) == if k == k0 { Some(v0) } else { keyed_get(before, k) } by {
                    lemma_keyed_get_found(before, k);
                    lemma_keyed_get_found(after, k);
                    lemma_keyed_get_sorted(after, i as int);
                    if k != k0 {
                        if keyed_get(before, k) is Some {
                            let j = choose|j: int| 0 <= j < before.len() && (#[trigger] before[j]).0 == k && before[j].1 == keyed_get(before, k)->0;
                            lemma_keyed_get_sorted(after, j);
                        } else if keyed_get(after, k) is Some {
                            let j = choose|j: int| 0 <= j < after.len() && (#[trigger] after[j]).0 == k && after[j].1 == keyed_get(after, k)->0;
                            assert(before[j].0 == k);
                        }
                    }
                }
            }
        },
        Err(i) => {
            table.insert(i, (key, value));
            let ghost after = text_pairs(table@);
            assert(after =~= before.insert(i as int, (k0, v0)));
            proof {
                assert forall|a: int| 0 <= a < after.len() implies #[trigger] after[a] == (if a < i { before[a] } else if a == i { (k0, v0) } else { before[a - 1] }) by {}
                assert forall|a: int, b: int| 0 <= a < b < after.len() implies seq_less(#[trigger] after[a].0, #[trigger] after[b].0) by {
                    if a < i && b < i {
                    } else if a < i && b == i {
                    } else if a < i {
                        assert(seq_less(before[a].0, before[b - 1].0));
                    } else if a == i {
                        assert(seq_less(k0, before[b - 1].0));
                    } else {
                        assert(seq_less(before[a - 1].0, before[b - 1].0));
                    }
                }
                assert forall|k: Seq<char>| #[trigger] keyed_get(after, k) == if k == k0 { Some(v0) } else { keyed_get(before, k) } by {
                    lemma_keyed_get_found(before, k);
                    lemma_keyed_get_found(after, k);
                    lemma_keyed_get_sorted(after, i as int);
                    if k != k0 {
                        if keyed_get(before, k) is Some {
                            let j = choose|j: int| 0 <= j < before.len() && (#[trigger] before[j]).0 == k && before[j].1 == keyed_get(before, k)->0;
                            if j < i {
                                lemma_keyed_get_sorted(after, j);
                            } else {
                                lemma_keyed_get_sorted(after, j + 1);
                            }
                        } else if keyed_get(after, k) is Some {
                            let j = choose|j: int| 0 <= j < after.len() && (#[trigger] after[j]).0 == k && after[j].1 == keyed_get(after, k)->0;
                            if j < i {
                                assert(before[j].0 == k);
                            } else if j > i {
                                assert(before[j - 1].0 == k);
                            }
                        }
                    }
                }
            }
        },
    }
}


/// Keys strictly ascending.
pub open spec fn keys_ascending<V>(t: Seq<(String, V)>) -> bool {
    forall|i: int, j: int| 0 <= i < j < t.len() ==> seq_less(#[trigger] t[i].0@, #[trigger] t[j].0@)
}

/// Where `key` is in a table with ascending keys, or where it would go.
pub fn find_text_key<V>(table: &Vec<(String, V)>, key: &str) -> (r: Result<usize, usize>)
    requires
        keys_ascending(table@),
    ensures
        match r {
            Ok(i) => i < table@.len() && table@[i as int].0@ == key@,
            Err(i) => i <= table@.len() && (forall|j: int|
                0 <= j < i ==> seq_less(#[trigger] table@[j].0@, key@)) && (forall|j: int|
                i <= j < table@.len() ==> seq_less(key@, #[trigger] table@[j].0@)),
        },
{
    let mut i: usize = 0;
    while i < table.len() && text_less(table[i].0.as_str(), key)
        invariant
            i <= table@.len(),
            keys_ascending(table@),
            forall|j: int| 0 <= j < i ==> seq_less(#[trigger] table@[j].0@, key@),
        decreases table@.len() - i,
    {
        i = i + 1;
    }
    if i < table.len() && crate::text::str_eq(table[i].0.as_str(), key) {
        return Ok(i);
    }
    proof {
        if i < table@.len() {
            lemma_seq_less_total(table@[i as int].0@, key@);
            assert forall|j: int| i <= j < table@.len() implies seq_less(key@, #[trigger] table@[j].0@) by {
                if j > i {
                    lemma_seq_less_transitive(key@, table@[i as int].0@, table@[j].0@);
                }
            }
        }
    }
    Err(i)
}

} // verus!
