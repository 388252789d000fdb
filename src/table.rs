//! Association lists read as maps: a later entry for a key hides an earlier one.

use vstd::prelude::*;

verus! {

/// The map that a list of key/value pairs stands for.
pub open spec fn to_map<K, V>(s: Seq<(K, V)>) -> Map<K, V>
    decreases s.len(),
{
    if s.len() == 0 {
        Map::empty()
    } else {
        to_map(s.drop_last()).insert(s.last().0, s.last().1)
    }
}

/// `i` is the last position of `s` whose key is `k`.
pub open spec fn last_match<K, V>(s: Seq<(K, V)>, k: K, i: int) -> bool {
    0 <= i < s.len() && s[i].0 == k && forall|j: int| i < j < s.len() ==> s[j].0 != k
}

/// No entry of `s` has the key `k`.
pub open spec fn no_match<K, V>(s: Seq<(K, V)>, k: K) -> bool {
    forall|j: int| 0 <= j < s.len() ==> s[j].0 != k
}

/// Appending a pair binds its key.
pub proof fn lemma_push<K, V>(s: Seq<(K, V)>, p: (K, V))
    ensures
        to_map(s.push(p)) == to_map(s).insert(p.0, p.1),
{
    assert(s.push(p).drop_last() =~= s);
}

/// The map binds a key to the value of its last entry.
pub proof fn lemma_lookup<K, V>(s: Seq<(K, V)>, k: K, i: int)
    requires
        last_match(s, k, i),
    ensures
        to_map(s).contains_key(k),
        to_map(s)[k] == s[i].1,
    decreases s.len(),
{
    if i < s.len() - 1 {
        lemma_lookup(s.drop_last(), k, i);
    }
}

/// A key without entries is not bound.
pub proof fn lemma_absent<K, V>(s: Seq<(K, V)>, k: K)
    requires
        no_match(s, k),
    ensures
        !to_map(s).contains_key(k),
    decreases s.len(),
{
    if s.len() > 0 {
        lemma_absent(s.drop_last(), k);
    }
}

/// Overwriting the last entry of a key rebinds that key.
pub proof fn lemma_update<K, V>(s: Seq<(K, V)>, k: K, i: int, v: V)
    requires
        last_match(s, k, i),
    ensures
        to_map(s.update(i, (k, v))) == to_map(s).insert(k, v),
    decreases s.len(),
{
    let t = s.update(i, (k, v));
    if i == s.len() - 1 {
        assert(t.drop_last() =~= s.drop_last());
        assert(to_map(t) =~= to_map(s).insert(k, v));
    } else {
        assert(t.drop_last() =~= s.drop_last().update(i, (k, v)));
        lemma_update(s.drop_last(), k, i, v);
        assert(to_map(t) =~= to_map(s).insert(k, v));
    }
}

/// The map keeps the keys that satisfy `keep`, with their values.
pub open spec fn restrict<K, V>(m: Map<K, V>, keep: spec_fn(K) -> bool) -> Map<K, V> {
    Map::new(|k: K| m.contains_key(k) && keep(k), |k: K| m[k])
}

/// The first `i` entries, plus the next one.
pub proof fn lemma_take_next<K, V>(s: Seq<(K, V)>, i: int)
    requires
        0 <= i < s.len(),
    ensures
        to_map(s.take(i + 1)) == to_map(s.take(i)).insert(s[i].0, s[i].1),
{
    assert(s.take(i + 1).drop_last() =~= s.take(i));
}

/// Keeping or dropping the next entry extends a restricted map step by step.
pub proof fn lemma_restrict_step<K, V>(
    s: Seq<(K, V)>,
    i: int,
    kept: Seq<(K, V)>,
    keep: spec_fn(K) -> bool,
)
    requires
        0 <= i < s.len(),
        to_map(kept) == restrict(to_map(s.take(i)), keep),
    ensures
        keep(s[i].0) ==> to_map(kept.push(s[i])) == restrict(to_map(s.take(i + 1)), keep),
        !keep(s[i].0) ==> to_map(kept) == restrict(to_map(s.take(i + 1)), keep),
{
    lemma_take_next(s, i);
    lemma_push(kept, s[i]);
    assert(keep(s[i].0) ==> to_map(kept.push(s[i])) =~= restrict(to_map(s.take(i + 1)), keep));
    assert(!keep(s[i].0) ==> to_map(kept) =~= restrict(to_map(s.take(i + 1)), keep));
}

} // verus!
