use vstd::prelude::*;

verus! {

// Sequences of (key, value) pairs used as small insertion-ordered maps.

/// Some entry of `s` has key `k`.
pub open spec fn holds_key<K, V>(s: Seq<(K, V)>, k: K) -> bool {
    exists|i: int| 0 <= i < s.len() && #[trigger] s[i].0 == k
}

/// No two entries of `s` share a key.
pub open spec fn keys_unique<K, V>(s: Seq<(K, V)>) -> bool {
    forall|i: int, j: int| 0 <= i < j < s.len() ==> #[trigger] s[i].0 != #[trigger] s[j].0
}

/// The position of the entry with key `k` (meaningful when `holds_key(s, k)`).
pub open spec fn key_index<K, V>(s: Seq<(K, V)>, k: K) -> int {
    choose|i: int| 0 <= i < s.len() && #[trigger] s[i].0 == k
}

/// The value stored under `k`.
pub open spec fn value_of<K, V>(s: Seq<(K, V)>, k: K) -> V {
    s[key_index(s, k)].1
}

/// `s` where the value under `k` is replaced by `v` in place, or, if no entry
/// has key `k`, where `(k, v)` is added at the end.
pub open spec fn with_entry<K, V>(s: Seq<(K, V)>, k: K, v: V) -> Seq<(K, V)> {
    if holds_key(s, k) {
        s.update(key_index(s, k), (k, v))
    } else {
        s.push((k, v))
    }
}

/// The list of values under `k` (empty when `k` has no entry).
pub open spec fn list_of<K, V>(s: Seq<(K, Seq<V>)>, k: K) -> Seq<V> {
    if holds_key(s, k) {
        value_of(s, k)
    } else {
        Seq::empty()
    }
}

/// `s` where `v` is appended to the list under `k`; a missing key gets a new
/// entry at the end holding `v` alone.
pub open spec fn with_appended<K, V>(s: Seq<(K, Seq<V>)>, k: K, v: V) -> Seq<(K, Seq<V>)> {
    with_entry(s, k, list_of(s, k).push(v))
}

/// With unique keys, the entry found by `key_index` is the only one with its key.
pub proof fn lemma_key_index_unique<K, V>(s: Seq<(K, V)>, k: K, i: int)
    requires
        keys_unique(s),
        0 <= i < s.len(),
        s[i].0 == k,
    ensures
        holds_key(s, k),
        key_index(s, k) == i,
{
    assert(holds_key(s, k));
    let j = key_index(s, k);
    if j < i {
        assert(s[j].0 != s[i].0);
    } else if i < j {
        assert(s[i].0 != s[j].0);
    }
}

/// Replacing or adding one entry keeps the keys unique, and afterwards `k` is held
/// with value `v`.
pub proof fn lemma_with_entry<K, V>(s: Seq<(K, V)>, k: K, v: V)
    requires
        keys_unique(s),
    ensures
        keys_unique(with_entry(s, k, v)),
        holds_key(with_entry(s, k, v), k),
        value_of(with_entry(s, k, v), k) == v,
        with_entry(s, k, v).len() == if holds_key(s, k) { s.len() } else { s.len() + 1 },
{
    let r = with_entry(s, k, v);
    if holds_key(s, k) {
        let i = key_index(s, k);
        assert forall|a: int, b: int| 0 <= a < b < r.len() implies #[trigger] r[a].0
            != #[trigger] r[b].0 by {
            if a == i {
                assert(s[a].0 == k);
                assert(s[a].0 != s[b].0);
            } else if b == i {
                assert(s[b].0 == k);
                assert(s[a].0 != s[b].0);
            } else {
                assert(s[a].0 != s[b].0);
            }
        }
        lemma_key_index_unique(r, k, i);
    } else {
        let n = s.len() as int;
        assert forall|a: int, b: int| 0 <= a < b < r.len() implies #[trigger] r[a].0
            != #[trigger] r[b].0 by {
            if b == n {
                assert(r[a].0 == s[a].0);
                if s[a].0 == k {
                    assert(holds_key(s, k));
                }
            } else {
                assert(s[a].0 != s[b].0);
            }
        }
        assert(r[n].0 == k);
        lemma_key_index_unique(r, k, n);
    }
}

} // verus!
