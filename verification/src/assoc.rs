//! Association lists: a sequence of `(key, value)` entries read as a map in
//! which later entries win. The stores of the library keep their entries this
//! way and state their contracts over the map.
use vstd::prelude::*;

verus! {

/// The map that a list of `(key, value)` entries stands for: later entries win.
pub open spec fn assoc_view<K, V>(s: Seq<(K, V)>) -> Map<K, V>
    decreases s.len(),
{
    if s.len() == 0 {
        Map::empty()
    } else {
        assoc_view(s.drop_last()).insert(s.last().0, s.last().1)
    }
}

/// Appending an entry sets its key.
pub proof fn lemma_assoc_push<K, V>(s: Seq<(K, V)>, e: (K, V))
    ensures
        assoc_view(s.push(e)) == assoc_view(s).insert(e.0, e.1),
{
    assert(s.push(e).drop_last() == s);
}

/// The value of a key is that of its last entry; a key with no entry is absent.
pub proof fn lemma_assoc_lookup<K, V>(s: Seq<(K, V)>, k: K, i: int)
    requires
        -1 <= i < s.len(),
        i >= 0 ==> s[i].0 == k,
        forall|j: int| i < j < s.len() ==> s[j].0 != k,
    ensures
        i >= 0 ==> assoc_view(s).contains_key(k) && assoc_view(s)[k] == s[i].1,
        i < 0 ==> !assoc_view(s).contains_key(k),
    decreases s.len(),
{
    if s.len() > 0 && i < s.len() - 1 {
        lemma_assoc_lookup(s.drop_last(), k, i);
    }
}

/// Overwriting the last entry of a key sets that key.
pub proof fn lemma_assoc_update<K, V>(s: Seq<(K, V)>, i: int, v: V)
    requires
        0 <= i < s.len(),
        forall|j: int| i < j < s.len() ==> s[j].0 != s[i].0,
    ensures
        assoc_view(s.update(i, (s[i].0, v))) == assoc_view(s).insert(s[i].0, v),
    decreases s.len(),
{
    let t = s.update(i, (s[i].0, v));
    if i == s.len() - 1 {
        assert(t.drop_last() == s.drop_last());
    } else {
        lemma_assoc_update(s.drop_last(), i, v);
        assert(t.drop_last() == s.drop_last().update(i, (s[i].0, v)));
        assert(assoc_view(s).insert(s[i].0, v) =~= assoc_view(s.drop_last()).insert(s[i].0, v).insert(
            s.last().0,
            s.last().1,
        ));
    }
}

} // verus!
