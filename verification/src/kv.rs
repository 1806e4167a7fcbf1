//! Association-list model shared by the configuration state and the
//! profile store: a sequence of `(key, value)` pairs, read as a map in
//! which a later pair for the same key overrides an earlier one.

use vstd::prelude::*;

verus! {

/// The map described by an association list: pairs are inserted in
/// order, so on a duplicate key the last pair wins.
pub open spec fn kv_map<V>(s: Seq<(Seq<char>, V)>) -> Map<Seq<char>, V>
    decreases s.len(),
{
    if s.len() == 0 {
        Map::empty()
    } else {
        kv_map(s.drop_last()).insert(s.last().0, s.last().1)
    }
}

/// No two pairs of the list share a key.
pub open spec fn kv_unique<V>(s: Seq<(Seq<char>, V)>) -> bool {
    forall|i: int, j: int| 0 <= i < j < s.len() ==> s[i].0 != s[j].0
}

/// The keys of the map are exactly the keys of the list.
pub proof fn lemma_kv_contains<V>(s: Seq<(Seq<char>, V)>, k: Seq<char>)
    ensures
        kv_map(s).contains_key(k) <==> exists|i: int| 0 <= i < s.len() && s[i].0 == k,
    decreases s.len(),
{
    if s.len() > 0 {
        lemma_kv_contains(s.drop_last(), k);
        if s.last().0 == k {
            assert(s[s.len() - 1].0 == k);
        } else if kv_map(s).contains_key(k) {
            let i = choose|i: int| 0 <= i < s.drop_last().len() && s.drop_last()[i].0 == k;
            assert(s[i].0 == k);
        } else if exists|i: int| 0 <= i < s.len() && s[i].0 == k {
            let i = choose|i: int| 0 <= i < s.len() && s[i].0 == k;
            assert(s.drop_last()[i].0 == k);
        }
    }
}

/// Under unique keys, the map sends each listed key to its listed value.
pub proof fn lemma_kv_index<V>(s: Seq<(Seq<char>, V)>, i: int)
    requires
        kv_unique(s),
        0 <= i < s.len(),
    ensures
        kv_map(s).contains_key(s[i].0),
        kv_map(s)[s[i].0] == s[i].1,
    decreases s.len(),
{
    if i == s.len() - 1 {
        assert(kv_map(s) == kv_map(s.drop_last()).insert(s.last().0, s.last().1));
    } else {
        lemma_kv_index(s.drop_last(), i);
        assert(s.drop_last()[i] == s[i]);
        assert(s[i].0 != s.last().0);
    }
}

/// Replacing the pair at a key's unique position updates the map as an
/// insert at that key.
pub proof fn lemma_kv_update<V>(s: Seq<(Seq<char>, V)>, i: int, p: (Seq<char>, V))
    requires
        kv_unique(s),
        0 <= i < s.len(),
        p.0 == s[i].0,
    ensures
        kv_map(s.update(i, p)) =~= kv_map(s).insert(p.0, p.1),
    decreases s.len(),
{
    let t = s.update(i, p);
    assert(t.len() == s.len());
    if i == s.len() - 1 {
        assert(t.drop_last() =~= s.drop_last());
    } else {
        assert(t.drop_last() =~= s.drop_last().update(i, p));
        assert(t.last() == s.last());
        lemma_kv_update(s.drop_last(), i, p);
        assert(p.0 != s.last().0);
    }
}

/// Appending a pair updates the map as an insert at the pair's key.
pub proof fn lemma_kv_push<V>(s: Seq<(Seq<char>, V)>, p: (Seq<char>, V))
    ensures
        kv_map(s.push(p)) =~= kv_map(s).insert(p.0, p.1),
{
    assert(s.push(p).drop_last() =~= s);
    assert(s.push(p).last() == p);
}

/// Under unique keys, the list and the map have the same size.
pub proof fn lemma_kv_len<V>(s: Seq<(Seq<char>, V)>)
    requires
        kv_unique(s),
    ensures
        kv_map(s).dom().finite(),
        kv_map(s).dom().len() == s.len(),
    decreases s.len(),
{
    broadcast use vstd::set::group_set_axioms;

    if s.len() > 0 {
        lemma_kv_len(s.drop_last());
        lemma_kv_contains(s.drop_last(), s.last().0);
        assert(forall|i: int|
            0 <= i < s.drop_last().len() ==> s.drop_last()[i] == s[i]);
        assert(!kv_map(s.drop_last()).contains_key(s.last().0));
        assert(kv_map(s).dom() =~= kv_map(s.drop_last()).dom().insert(s.last().0));
    }
}

} // verus!
