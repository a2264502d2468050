//! Association lists keyed by text, and the finite map each one stands for.
//!
//! The registries of this crate keep their entries in a `Vec`; their
//! contracts speak of a `Map`. This module holds the bridge between the two.

use vstd::prelude::*;

verus! {

/// The keys of an association list, in order.
pub open spec fn keys<V>(entries: Seq<(Seq<char>, V)>) -> Seq<Seq<char>> {
    entries.map_values(|e: (Seq<char>, V)| e.0)
}

/// No key occurs twice.
pub open spec fn distinct<V>(entries: Seq<(Seq<char>, V)>) -> bool {
    keys(entries).no_duplicates()
}

/// The finite map that an association list stands for.
pub open spec fn as_map<V>(entries: Seq<(Seq<char>, V)>) -> Map<Seq<char>, V> {
    Map::new(
        |k: Seq<char>| keys(entries).contains(k),
        |k: Seq<char>| entries[keys(entries).index_of(k)].1,
    )
}

/// Each entry of a list without repeated keys is what the map holds at its key.
pub proof fn lemma_entry<V>(entries: Seq<(Seq<char>, V)>, i: int)
    requires
        distinct(entries),
        0 <= i < entries.len(),
    ensures
        as_map(entries).contains_key(entries[i].0),
        as_map(entries)[entries[i].0] == entries[i].1,
        keys(entries).index_of(entries[i].0) == i,
{
    let ks = keys(entries);
    assert(ks[i] == entries[i].0);
    let j = ks.index_of(entries[i].0);
    assert(0 <= j < ks.len() && ks[j] == entries[i].0);
}

/// A key of the map is the key of some entry.
pub proof fn lemma_position<V>(entries: Seq<(Seq<char>, V)>, k: Seq<char>) -> (i: int)
    requires
        as_map(entries).contains_key(k),
    ensures
        0 <= i < entries.len(),
        entries[i].0 == k,
        as_map(entries)[k] == entries[i].1,
        i == keys(entries).index_of(k),
{
    let ks = keys(entries);
    let i = ks.index_of(k);
    assert(0 <= i < ks.len() && ks[i] == k);
    i
}

/// The map of a list has as many keys as the list has entries, and no more
/// than finitely many.
pub proof fn lemma_finite<V>(entries: Seq<(Seq<char>, V)>)
    ensures
        as_map(entries).dom().finite(),
        distinct(entries) ==> as_map(entries).dom().len() == entries.len(),
{
    let ks = keys(entries);
    assert(as_map(entries).dom() =~= ks.to_set());
    vstd::seq_lib::seq_to_set_is_finite(ks);
    if distinct(entries) {
        ks.unique_seq_to_set();
    }
}

/// Appending an entry under a fresh key inserts it into the map.
pub proof fn lemma_push<V>(entries: Seq<(Seq<char>, V)>, k: Seq<char>, v: V)
    requires
        distinct(entries),
        !as_map(entries).contains_key(k),
    ensures
        distinct(entries.push((k, v))),
        as_map(entries.push((k, v))) == as_map(entries).insert(k, v),
{
    let after = entries.push((k, v));
    let ks = keys(entries);
    let ks2 = keys(after);
    assert(ks2 =~= ks.push(k));
    assert forall|i: int, j: int| 0 <= i < ks2.len() && 0 <= j < ks2.len() && i != j implies ks2[i]
        != ks2[j] by {
        if i < ks.len() {
            assert(ks.contains(ks[i]));
        }
        if j < ks.len() {
            assert(ks.contains(ks[j]));
        }
    }
    assert forall|q: Seq<char>| as_map(after).contains_key(q) <==> as_map(entries).insert(
        k,
        v,
    ).contains_key(q) by {
        if as_map(after).contains_key(q) {
            let i = lemma_position(after, q);
            if i < ks.len() {
                assert(ks[i] == q);
            }
        }
        if as_map(entries).contains_key(q) {
            let i = lemma_position(entries, q);
            assert(ks2[i] == q);
        }
        if q == k {
            assert(ks2[ks.len() as int] == k);
        }
    }
    assert forall|q: Seq<char>| as_map(after).contains_key(q) implies as_map(after)[q]
        == as_map(entries).insert(k, v)[q] by {
        let i = lemma_position(after, q);
        if i < ks.len() {
            assert(ks[i] == q);
            lemma_entry(entries, i);
        }
    }
    assert(as_map(after) =~= as_map(entries).insert(k, v));
}

/// Dropping an entry removes its key from the map.
pub proof fn lemma_remove<V>(entries: Seq<(Seq<char>, V)>, i: int)
    requires
        distinct(entries),
        0 <= i < entries.len(),
    ensures
        distinct(entries.remove(i)),
        as_map(entries.remove(i)) == as_map(entries).remove(entries[i].0),
{
    let after = entries.remove(i);
    let ks = keys(entries);
    let ks2 = keys(after);
    assert(ks2 =~= ks.remove(i));
    assert forall|a: int, b: int| 0 <= a < ks2.len() && 0 <= b < ks2.len() && a != b implies ks2[a]
        != ks2[b] by {
        let a1 = if a < i { a } else { a + 1 };
        let b1 = if b < i { b } else { b + 1 };
        assert(ks2[a] == ks[a1] && ks2[b] == ks[b1]);
    }
    let gone = entries[i].0;
    assert(ks[i] == gone);
    assert forall|q: Seq<char>| as_map(after).contains_key(q) <==> as_map(entries).remove(
        gone,
    ).contains_key(q) by {
        if as_map(after).contains_key(q) {
            let a = lemma_position(after, q);
            let a1 = if a < i { a } else { a + 1 };
            assert(ks[a1] == q);
        }
        if as_map(entries).contains_key(q) && q != gone {
            let a = lemma_position(entries, q);
            let a2 = if a < i { a } else { a - 1 };
            assert(ks2[a2] == q);
        }
    }
    assert forall|q: Seq<char>| as_map(after).contains_key(q) implies as_map(after)[q]
        == as_map(entries).remove(gone)[q] by {
        let a = lemma_position(after, q);
        let a1 = if a < i { a } else { a + 1 };
        assert(ks[a1] == q);
        lemma_entry(entries, a1);
    }
    assert(as_map(after) =~= as_map(entries).remove(gone));
}

} // verus!
