//! Association lists: sequences of key/value pairs read as finite maps.
use vstd::prelude::*;

verus! {

/// No two pairs of `s` carry keys with the same view.
pub open spec fn keys_unique<K: View, V>(s: Seq<(K, V)>) -> bool {
    forall|i: int, j: int|
        0 <= i < s.len() && 0 <= j < s.len() && i != j ==> (#[trigger] s[i]).0@ != (#[trigger] s[j]).0@
}

/// The map that a sequence of pairs denotes; a later pair shadows an earlier one.
pub open spec fn pairs_map<K: View, V: View>(s: Seq<(K, V)>) -> Map<K::V, V::V>
    decreases s.len(),
{
    if s.len() == 0 {
        Map::empty()
    } else {
        pairs_map(s.drop_last()).insert(s.last().0@, s.last().1@)
    }
}

/// A key that no pair carries is not in the map.
pub proof fn lemma_pairs_map_absent<K: View, V: View>(s: Seq<(K, V)>, k: K::V)
    requires
        forall|i: int| 0 <= i < s.len() ==> (#[trigger] s[i]).0@ != k,
    ensures
        !pairs_map(s).contains_key(k),
    decreases s.len(),
{
    if s.len() > 0 {
        let t = s.drop_last();
        assert forall|i: int| 0 <= i < t.len() implies (#[trigger] t[i]).0@ != k by {
            assert(t[i] == s[i]);
        }
        lemma_pairs_map_absent(t, k);
    }
}

/// With unique keys, every pair is found in the map under its own key.
pub proof fn lemma_pairs_map_index<K: View, V: View>(s: Seq<(K, V)>, i: int)
    requires
        keys_unique(s),
        0 <= i < s.len(),
    ensures
        pairs_map(s).contains_key(s[i].0@),
        pairs_map(s)[s[i].0@] == s[i].1@,
    decreases s.len(),
{
    let t = s.drop_last();
    if i < s.len() - 1 {
        assert(t[i] == s[i]);
        assert forall|a: int, b: int|
            0 <= a < t.len() && 0 <= b < t.len() && a != b implies (#[trigger] t[a]).0@
            != (#[trigger] t[b]).0@ by {
            assert(t[a] == s[a]);
            assert(t[b] == s[b]);
        }
        lemma_pairs_map_index(t, i);
        assert(s[s.len() - 1].0@ != s[i].0@);
    }
}

/// A key is in the map exactly when some pair carries it.
pub proof fn lemma_pairs_map_domain<K: View, V: View>(s: Seq<(K, V)>, k: K::V)
    requires
        keys_unique(s),
    ensures
        pairs_map(s).contains_key(k) <==> exists|i: int| 0 <= i < s.len() && (#[trigger] s[i]).0@ == k,
{
    if exists|i: int| 0 <= i < s.len() && (#[trigger] s[i]).0@ == k {
        let i = choose|i: int| 0 <= i < s.len() && (#[trigger] s[i]).0@ == k;
        lemma_pairs_map_index(s, i);
    } else {
        lemma_pairs_map_absent(s, k);
    }
}

/// Appending a pair with a fresh key keeps keys unique and inserts it into the map.
pub proof fn lemma_pairs_map_push<K: View, V: View>(s: Seq<(K, V)>, p: (K, V))
    requires
        keys_unique(s),
        !pairs_map(s).contains_key(p.0@),
    ensures
        keys_unique(s.push(p)),
        pairs_map(s.push(p)) == pairs_map(s).insert(p.0@, p.1@),
{
    let t = s.push(p);
    assert(t.drop_last() =~= s);
    assert forall|i: int| 0 <= i < s.len() implies (#[trigger] s[i]).0@ != p.0@ by {
        lemma_pairs_map_index(s, i);
    }
    assert forall|a: int, b: int|
        0 <= a < t.len() && 0 <= b < t.len() && a != b implies (#[trigger] t[a]).0@
        != (#[trigger] t[b]).0@ by {
        if a < s.len() {
            assert(t[a] == s[a]);
        }
        if b < s.len() {
            assert(t[b] == s[b]);
        }
    }
}

/// Replacing the value of one pair updates that key in the map.
pub proof fn lemma_pairs_map_update<K: View, V: View>(s: Seq<(K, V)>, i: int, p: (K, V))
    requires
        keys_unique(s),
        0 <= i < s.len(),
        p.0@ == s[i].0@,
    ensures
        keys_unique(s.update(i, p)),
        pairs_map(s.update(i, p)) == pairs_map(s).insert(p.0@, p.1@),
{
    let v = p.1;
    let t = s.update(i, p);
    assert forall|a: int, b: int|
        0 <= a < t.len() && 0 <= b < t.len() && a != b implies (#[trigger] t[a]).0@
        != (#[trigger] t[b]).0@ by {
        assert(t[a].0@ == s[a].0@);
        assert(t[b].0@ == s[b].0@);
    }
    let m = pairs_map(s).insert(s[i].0@, v@);
    assert forall|k: K::V| #[trigger] m.contains_key(k) implies pairs_map(t).contains_key(k)
        && pairs_map(t)[k] == m[k] by {
        if k == s[i].0@ {
            lemma_pairs_map_index(t, i);
        } else {
            lemma_pairs_map_domain(s, k);
            let j = choose|j: int| 0 <= j < s.len() && (#[trigger] s[j]).0@ == k;
            lemma_pairs_map_index(s, j);
            lemma_pairs_map_index(t, j);
        }
    }
    assert forall|k: K::V| #[trigger] pairs_map(t).contains_key(k) implies m.contains_key(k) by {
        lemma_pairs_map_domain(t, k);
        let j = choose|j: int| 0 <= j < t.len() && (#[trigger] t[j]).0@ == k;
        if j != i {
            lemma_pairs_map_index(s, j);
        }
    }
    assert(pairs_map(t) =~= m);
}

/// Removing one pair removes its key from the map.
pub proof fn lemma_pairs_map_remove<K: View, V: View>(s: Seq<(K, V)>, i: int)
    requires
        keys_unique(s),
        0 <= i < s.len(),
    ensures
        keys_unique(s.remove(i)),
        pairs_map(s.remove(i)) == pairs_map(s).remove(s[i].0@),
{
    let t = s.remove(i);
    assert forall|a: int| 0 <= a < t.len() implies #[trigger] t[a] == s[if a < i { a } else { a + 1 }] by {}
    assert forall|a: int, b: int|
        0 <= a < t.len() && 0 <= b < t.len() && a != b implies (#[trigger] t[a]).0@
        != (#[trigger] t[b]).0@ by {
        let a1 = if a < i { a } else { a + 1 };
        let b1 = if b < i { b } else { b + 1 };
        assert(t[a] == s[a1]);
        assert(t[b] == s[b1]);
    }
    let m = pairs_map(s).remove(s[i].0@);
    assert forall|k: K::V| #[trigger] m.contains_key(k) implies pairs_map(t).contains_key(k)
        && pairs_map(t)[k] == m[k] by {
        lemma_pairs_map_domain(s, k);
        let j = choose|j: int| 0 <= j < s.len() && (#[trigger] s[j]).0@ == k;
        lemma_pairs_map_index(s, j);
        let j1 = if j < i { j } else { j - 1 };
        assert(t[j1] == s[j]);
        lemma_pairs_map_index(t, j1);
    }
    assert forall|k: K::V| #[trigger] pairs_map(t).contains_key(k) implies m.contains_key(k) by {
        lemma_pairs_map_domain(t, k);
        let j = choose|j: int| 0 <= j < t.len() && (#[trigger] t[j]).0@ == k;
        let j1 = if j < i { j } else { j + 1 };
        assert(t[j] == s[j1]);
        lemma_pairs_map_index(s, j1);
    }
    assert(pairs_map(t) =~= m);
}

/// With unique keys the map has one entry per pair.
pub proof fn lemma_pairs_map_len<K: View, V: View>(s: Seq<(K, V)>)
    requires
        keys_unique(s),
    ensures
        pairs_map(s).dom().finite(),
        pairs_map(s).len() == s.len(),
    decreases s.len(),
{
    if s.len() > 0 {
        let t = s.drop_last();
        assert forall|a: int, b: int|
            0 <= a < t.len() && 0 <= b < t.len() && a != b implies (#[trigger] t[a]).0@
            != (#[trigger] t[b]).0@ by {
            assert(t[a] == s[a]);
            assert(t[b] == s[b]);
        }
        lemma_pairs_map_len(t);
        assert forall|i: int| 0 <= i < t.len() implies (#[trigger] t[i]).0@ != s.last().0@ by {
            assert(t[i] == s[i]);
        }
        lemma_pairs_map_absent(t, s.last().0@);
    }
}

} // verus!
