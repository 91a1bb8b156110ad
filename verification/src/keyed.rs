//! Sequences of key/value pairs read as maps: a later pair overrides an
//! earlier one with the same key. Vectors of pairs with distinct keys stand
//! for the maps of the server's state.

use vstd::prelude::*;

verus! {

/// The map that a sequence of pairs builds, a later pair overriding an
/// earlier one with the same key.
pub open spec fn keyed_map<K, V>(ps: Seq<(K, V)>) -> Map<K, V>
    decreases ps.len(),
{
    if ps.len() == 0 {
        Map::empty()
    } else {
        keyed_map(ps.drop_last()).insert(ps.last().0, ps.last().1)
    }
}

/// No two pairs share a key.
pub open spec fn distinct_keys<K, V>(ps: Seq<(K, V)>) -> bool {
    forall|i: int, j: int| 0 <= i < j < ps.len() ==> ps[i].0 != ps[j].0
}

/// Appending a pair inserts it into the map.
pub proof fn lemma_keyed_map_push<K, V>(ps: Seq<(K, V)>, kv: (K, V))
    ensures
        keyed_map(ps.push(kv)) == keyed_map(ps).insert(kv.0, kv.1),
{
    assert(ps.push(kv).drop_last() =~= ps);
}

/// Replacing the value of a pair replaces the value in the map.
pub proof fn lemma_keyed_map_update<K, V>(ps: Seq<(K, V)>, j: int, v: V)
    requires
        distinct_keys(ps),
        0 <= j < ps.len(),
    ensures
        keyed_map(ps.update(j, (ps[j].0, v))) == keyed_map(ps).insert(ps[j].0, v),
    decreases ps.len(),
{
    let k = ps[j].0;
    let qs = ps.update(j, (k, v));
    if j == ps.len() - 1 {
        assert(qs.drop_last() =~= ps.drop_last());
        assert(keyed_map(qs) =~= keyed_map(ps).insert(k, v));
    } else {
        let init = ps.drop_last();
        assert(distinct_keys(init));
        lemma_keyed_map_update(init, j, v);
        assert(qs.drop_last() =~= init.update(j, (k, v)));
        assert(ps.last().0 != k);
        assert(keyed_map(qs) =~= keyed_map(ps).insert(k, v));
    }
}

/// A key that no pair has is not in the map.
pub proof fn lemma_keyed_map_absent<K, V>(ps: Seq<(K, V)>, k: K)
    requires
        forall|i: int| 0 <= i < ps.len() ==> ps[i].0 != k,
    ensures
        !keyed_map(ps).contains_key(k),
    decreases ps.len(),
{
    if ps.len() > 0 {
        lemma_keyed_map_absent(ps.drop_last(), k);
    }
}

/// With distinct keys, each pair's key maps to its value.
pub proof fn lemma_keyed_map_index<K, V>(ps: Seq<(K, V)>, j: int)
    requires
        distinct_keys(ps),
        0 <= j < ps.len(),
    ensures
        keyed_map(ps).contains_key(ps[j].0),
        keyed_map(ps)[ps[j].0] == ps[j].1,
    decreases ps.len(),
{
    if j < ps.len() - 1 {
        let init = ps.drop_last();
        assert(distinct_keys(init));
        lemma_keyed_map_index(init, j);
        assert(ps.last().0 != ps[j].0);
    }
}

/// Removing a pair removes its key from the map.
pub proof fn lemma_keyed_map_remove<K, V>(ps: Seq<(K, V)>, j: int)
    requires
        distinct_keys(ps),
        0 <= j < ps.len(),
    ensures
        keyed_map(ps.remove(j)) == keyed_map(ps).remove(ps[j].0),
        distinct_keys(ps.remove(j)),
    decreases ps.len(),
{
    let k = ps[j].0;
    let qs = ps.remove(j);
    if j == ps.len() - 1 {
        assert(qs =~= ps.drop_last());
        assert forall|i: int| 0 <= i < qs.len() implies qs[i].0 != k by {
            assert(qs[i] == ps[i]);
        }
        lemma_keyed_map_absent(qs, k);
        assert(keyed_map(qs) =~= keyed_map(ps).remove(k));
    } else {
        let init = ps.drop_last();
        assert(distinct_keys(init));
        lemma_keyed_map_remove(init, j);
        assert(qs.drop_last() =~= init.remove(j));
        assert(qs.last() == ps.last());
        assert(ps.last().0 != k);
        assert(keyed_map(qs) =~= keyed_map(ps).remove(k));
    }
    assert forall|a: int, b: int| 0 <= a < b < qs.len() implies qs[a].0 != qs[b].0 by {
        let a2 = if a < j {
            a
        } else {
            a + 1
        };
        let b2 = if b < j {
            b
        } else {
            b + 1
        };
        assert(qs[a] == ps[a2]);
        assert(qs[b] == ps[b2]);
    }
}

} // verus!
