//! Laws of the array operations.
use vstd::prelude::*;
use crate::value::{ArrayV, KeyV, ValueV, find_key_from, key_index, array_get, array_insert, array_push, array_wf, insert_fits};

verus! {

proof fn lemma_find_found(es: Seq<(KeyV, ValueV)>, k: KeyV, s: int, i: int)
    requires
        0 <= s <= i < es.len(),
        es[i].0 == k,
        forall|j: int| s <= j < i ==> es[j].0 != k,
    ensures
        find_key_from(es, k, s) == i,
    decreases i - s,
{
    if s < i {
        lemma_find_found(es, k, s + 1, i);
    }
}

proof fn lemma_find_absent(es: Seq<(KeyV, ValueV)>, k: KeyV, s: int)
    requires
        0 <= s,
        forall|j: int| s <= j < es.len() ==> es[j].0 != k,
    ensures
        find_key_from(es, k, s) == -1,
    decreases es.len() - s,
{
    if s < es.len() {
        lemma_find_absent(es, k, s + 1);
    }
}

proof fn lemma_find_result(es: Seq<(KeyV, ValueV)>, k: KeyV, s: int)
    requires
        0 <= s,
    ensures
        find_key_from(es, k, s) == -1 ==> forall|j: int| s <= j < es.len() ==> es[j].0 != k,
        find_key_from(es, k, s) != -1 ==> {
            let i = find_key_from(es, k, s);
            &&& s <= i < es.len()
            &&& es[i].0 == k
            &&& forall|j: int| s <= j < i ==> es[j].0 != k
        },
    decreases es.len() - s,
{
    if s < es.len() {
        lemma_find_result(es, k, s + 1);
    }
}

/// Reading a key right after storing under it gives back the stored value.
pub proof fn law_insert_then_get(a: ArrayV, k: KeyV, v: ValueV)
    ensures
        array_get(array_insert(a, k, v), k) == Some(v),
{
    let es = a.entries;
    let b = array_insert(a, k, v);
    lemma_find_result(es, k, 0);
    let i = key_index(es, k);
    if i < 0 {
        lemma_find_found(b.entries, k, 0, es.len() as int);
    } else {
        lemma_find_found(b.entries, k, 0, i);
    }
}

/// Storing under one key leaves what every other key reads unchanged.
pub proof fn law_insert_keeps_other_keys(a: ArrayV, k: KeyV, v: ValueV, other: KeyV)
    requires
        other != k,
    ensures
        array_get(array_insert(a, k, v), other) == array_get(a, other),
{
    let es = a.entries;
    let b = array_insert(a, k, v);
    lemma_find_result(es, k, 0);
    lemma_find_result(es, other, 0);
    lemma_find_result(b.entries, other, 0);
    let j = key_index(es, other);
    if j < 0 {
        lemma_find_absent(b.entries, other, 0);
    } else {
        lemma_find_found(b.entries, other, 0, j);
    }
}

/// In a well-formed array, reading the key that appending returned gives back the appended value.
pub proof fn law_push_then_get(a: ArrayV, v: ValueV)
    requires
        array_wf(a),
    ensures
        array_get(array_push(a, v), KeyV::Int(a.next_index)) == Some(v),
{
    let b = array_push(a, v);
    let k = KeyV::Int(a.next_index);
    assert forall|j: int| 0 <= j < a.entries.len() implies b.entries[j].0 != k by {
        assert(a.entries[j].0 matches KeyV::Int(n) ==> n < a.next_index);
    }
    lemma_find_found(b.entries, k, 0, a.entries.len() as int);
}

/// Storing keeps an array well formed.
pub proof fn law_insert_keeps_wf(a: ArrayV, k: KeyV, v: ValueV)
    requires
        array_wf(a),
        insert_fits(a, k),
    ensures
        array_wf(array_insert(a, k, v)),
{
    let es = a.entries;
    let b = array_insert(a, k, v);
    lemma_find_result(es, k, 0);
    assert forall|i: int| 0 <= i < b.entries.len() implies (#[trigger] b.entries[i].0 matches KeyV::Int(n) ==> n < b.next_index) by {
        if i < es.len() && es[i].0 != b.entries[i].0 {
        }
    }
}

/// Appending keeps an array well formed while the next index stays within `i64`.
pub proof fn law_push_keeps_wf(a: ArrayV, v: ValueV)
    requires
        array_wf(a),
        a.next_index < i64::MAX,
    ensures
        array_wf(array_push(a, v)),
{
    let b = array_push(a, v);
    assert forall|j: int| 0 <= j < a.entries.len() implies b.entries[j].0 != KeyV::Int(a.next_index) by {
        assert(a.entries[j].0 matches KeyV::Int(n) ==> n < a.next_index);
    }
}

} // verus!
