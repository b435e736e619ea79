//! Association lists: a sequence of key/value pairs read as a map in which a
//! later pair overrides an earlier one with the same key.
use vstd::prelude::*;

verus! {

/// The map that a list of pairs denotes: the last pair for a key wins.
pub open spec fn assoc_view<K, V>(s: Seq<(K, V)>) -> Map<K, V>
    decreases s.len(),
{
    if s.len() == 0 {
        Map::empty()
    } else {
        assoc_view(s.drop_last()).insert(s.last().0, s.last().1)
    }
}

/// No key occurs twice in the list.
pub open spec fn keys_unique<K, V>(s: Seq<(K, V)>) -> bool {
    forall|i: int, j: int| 0 <= i < j < s.len() ==> s[i].0 != s[j].0
}

/// A key is in the denoted map exactly when some pair carries it.
pub proof fn lemma_assoc_domain<K, V>(s: Seq<(K, V)>, k: K)
    ensures
        assoc_view(s).contains_key(k) <==> exists|i: int| 0 <= i < s.len() && s[i].0 == k,
    decreases s.len(),
{
    if s.len() > 0 {
        lemma_assoc_domain(s.drop_last(), k);
        if assoc_view(s.drop_last()).contains_key(k) {
            let i = choose|i: int| 0 <= i < s.drop_last().len() && s.drop_last()[i].0 == k;
            assert(s[i].0 == k);
        }
        if s.last().0 == k {
            assert(s[s.len() - 1].0 == k);
        }
        if exists|i: int| 0 <= i < s.len() && s[i].0 == k {
            let i = choose|i: int| 0 <= i < s.len() && s[i].0 == k;
            if i < s.len() - 1 {
                assert(s.drop_last()[i].0 == k);
            }
        }
    }
}

/// With unique keys, the pair at a position gives the denoted value of its key.
pub proof fn lemma_assoc_index<K, V>(s: Seq<(K, V)>, i: int)
    requires
        keys_unique(s),
        0 <= i < s.len(),
    ensures
        assoc_view(s).contains_key(s[i].0),
        assoc_view(s)[s[i].0] == s[i].1,
    decreases s.len(),
{
    if i < s.len() - 1 {
        let t = s.drop_last();
        assert(t[i] == s[i]);
        assert(keys_unique(t));
        lemma_assoc_index(t, i);
        assert(s.last().0 != s[i].0);
    }
}

/// Replacing the value of the pair at a position updates that key alone.
pub proof fn lemma_assoc_update<K, V>(s: Seq<(K, V)>, i: int, v: V)
    requires
        keys_unique(s),
        0 <= i < s.len(),
    ensures
        keys_unique(s.update(i, (s[i].0, v))),
        assoc_view(s.update(i, (s[i].0, v))) == assoc_view(s).insert(s[i].0, v),
    decreases s.len(),
{
    let u = s.update(i, (s[i].0, v));
    assert(keys_unique(u));
    if i == s.len() - 1 {
        assert(u.drop_last() == s.drop_last());
    } else {
        let t = s.drop_last();
        assert(keys_unique(t));
        lemma_assoc_update(t, i, v);
        assert(u.drop_last() == t.update(i, (t[i].0, v)));
        assert(s.last().0 != s[i].0);
        assert(assoc_view(u) =~= assoc_view(s).insert(s[i].0, v));
    }
}

/// Appending a pair whose key is new keeps the keys unique.
pub proof fn lemma_assoc_push_unique<K, V>(s: Seq<(K, V)>, k: K, v: V)
    requires
        keys_unique(s),
        forall|i: int| 0 <= i < s.len() ==> s[i].0 != k,
    ensures
        keys_unique(s.push((k, v))),
        assoc_view(s.push((k, v))) == assoc_view(s).insert(k, v),
{
    assert(s.push((k, v)).drop_last() == s);
}

} // verus!
