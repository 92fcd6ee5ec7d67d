use vstd::prelude::*;

use crate::keyed::{
    holds_key, key_index, keys_unique, lemma_key_index_unique, lemma_with_entry, list_of,
    with_entry,
};
use crate::watcher::bytes_equal;

verus! {

broadcast use vstd::seq_lib::group_to_multiset_ensures, vstd::multiset::group_multiset_axioms;

/// An interface as read: its name and the addresses found for it, in order.
pub type Entry<T> = (Vec<u8>, Vec<T>);

/// The mathematical form of an entry.
pub type EntryView<T> = (Seq<u8>, Seq<T>);

pub open spec fn entry_view<T>(e: Entry<T>) -> EntryView<T> {
    (e.0@, e.1@)
}

pub open spec fn entries_view<T>(v: Seq<Entry<T>>) -> Seq<EntryView<T>> {
    v.map_values(|e: Entry<T>| entry_view(e))
}

/// `a` and `b` agree on their first `k` bytes.
pub open spec fn common_prefix(a: Seq<u8>, b: Seq<u8>, k: int) -> bool {
    0 <= k <= a.len() && k <= b.len() && forall|j: int| 0 <= j < k ==> a[j] == b[j]
}

/// `a` comes strictly before `b` in lexicographic byte order, the order of names.
pub open spec fn bytes_lt(a: Seq<u8>, b: Seq<u8>) -> bool {
    exists|k: int|
        #[trigger] common_prefix(a, b, k) && ((k < a.len() && k < b.len() && a[k] < b[k]) || (k
            == a.len() && k < b.len()))
}

/// The entries merged by name: each name keeps the place of its first entry,
/// and its addresses are those of all its entries, in order.
pub open spec fn merged<T>(s: Seq<EntryView<T>>) -> Seq<EntryView<T>>
    decreases s.len(),
{
    if s.len() == 0 {
        Seq::empty()
    } else {
        let m = merged(s.drop_last());
        let e = s.last();
        with_entry(m, e.0, list_of(m, e.0) + e.1)
    }
}

/// Names strictly ascend along `s`.
pub open spec fn names_ascending<T>(s: Seq<EntryView<T>>) -> bool {
    forall|i: int, j: int| 0 <= i < j < s.len() ==> bytes_lt(#[trigger] s[i].0, #[trigger] s[j].0)
}

proof fn lemma_bytes_lt_irreflexive(a: Seq<u8>)
    ensures
        !bytes_lt(a, a),
{
}

proof fn first_mismatch(a: Seq<u8>, b: Seq<u8>, k: int, n: int) -> (m: int)
    requires
        0 <= k <= n,
        n <= a.len(),
        n <= b.len(),
        forall|j: int| 0 <= j < k ==> a[j] == b[j],
    ensures
        k <= m <= n,
        forall|j: int| 0 <= j < m ==> a[j] == b[j],
        m < n ==> a[m] != b[m],
    decreases n - k,
{
    if k == n {
        n
    } else if a[k] != b[k] {
        k
    } else {
        first_mismatch(a, b, k + 1, n)
    }
}

proof fn lemma_bytes_lt_total(a: Seq<u8>, b: Seq<u8>)
    requires
        a != b,
    ensures
        bytes_lt(a, b) || bytes_lt(b, a),
{
    let n = if a.len() < b.len() {
        a.len() as int
    } else {
        b.len() as int
    };
    let m = first_mismatch(a, b, 0, n);
    assert(common_prefix(a, b, m));
    assert(common_prefix(b, a, m));
    if m == n && a.len() == b.len() {
        assert(a =~= b);
    }
}

proof fn lemma_bytes_lt_transitive(a: Seq<u8>, b: Seq<u8>, c: Seq<u8>)
    requires
        bytes_lt(a, b),
        bytes_lt(b, c),
    ensures
        bytes_lt(a, c),
{
    let k1 = choose|k: int|
        #[trigger] common_prefix(a, b, k) && ((k < a.len() && k < b.len() && a[k] < b[k]) || (k
            == a.len() && k < b.len()));
    let k2 = choose|k: int|
        #[trigger] common_prefix(b, c, k) && ((k < b.len() && k < c.len() && b[k] < c[k]) || (k
            == b.len() && k < c.len()));
    if k1 < k2 {
        assert(common_prefix(a, c, k1));
    } else if k2 < k1 {
        assert(common_prefix(a, c, k2));
    } else {
        assert(common_prefix(a, c, k1));
    }
}

/// Whether `a` comes strictly before `b` in lexicographic byte order.
pub fn bytes_less(a: &Vec<u8>, b: &Vec<u8>) -> (r: bool)
    ensures
        r == bytes_lt(a@, b@),
{
    let mut k: usize = 0;
    while k < a.len() && k < b.len() && a[k] == b[k]
        invariant
            common_prefix(a@, b@, k as int),
        decreases a@.len() - k,
    {
        k = k + 1;
    }
    let r = if k < a.len() && k < b.len() {
        a[k] < b[k]
    } else {
        k == a.len() && k < b.len()
    };
    proof {
        assert(common_prefix(a@, b@, k as int));
        if !r && bytes_lt(a@, b@) {
            let k2 = choose|k2: int|
                #[trigger] common_prefix(a@, b@, k2) && ((k2 < a@.len() && k2 < b@.len() && a@[k2]
                    < b@[k2]) || (k2 == a@.len() && k2 < b@.len()));
            assert(k2 != k);
        }
    }
    r
}

/// The position of the entry named `name`, if there is one.
fn find_name<T>(entries: &Vec<Entry<T>>, name: &Vec<u8>) -> (r: Option<usize>)
    requires
        keys_unique(entries_view(entries@)),
    ensures
        match r {
            Some(i) => i < entries@.len() && entries@[i as int].0@ == name@ && key_index(
                entries_view(entries@),
                name@,
            ) == i,
            None => !holds_key(entries_view(entries@), name@),
        },
{
    let ghost v = entries_view(entries@);
    let mut i: usize = 0;
    while i < entries.len()
        invariant
            i <= entries@.len(),
            v == entries_view(entries@),
            v.len() == entries@.len(),
            keys_unique(v),
            forall|j: int| 0 <= j < i ==> v[j].0 != name@,
        decreases entries@.len() - i,
    {
        assert(v[i as int].0 == entries@[i as int].0@);
        if bytes_equal(&entries[i].0, name) {
            proof {
                lemma_key_index_unique(v, name@, i as int);
            }
            return Some(i);
        }
        i = i + 1;
    }
    None
}

/// Merges entries that share a name: each name keeps the place of its first
/// entry, and collects the addresses of all its entries, in order.
pub fn normalize<T>(interfaces: Vec<Entry<T>>) -> (r: Vec<Entry<T>>)
    ensures
        entries_view(r@) == merged(entries_view(interfaces@)),
        keys_unique(entries_view(r@)),
{
    let ghost input = entries_view(interfaces@);
    let ghost n = interfaces.len() as int;
    let mut out: Vec<Entry<T>> = Vec::new();
    let mut rest = interfaces;
    let mut k: usize = 0;
    assert(entries_view(out@) =~= merged(input.subrange(0, 0)));
    while rest.len() > 0
        invariant
            k as int + rest@.len() == n,
            n <= usize::MAX,
            input.len() == n,
            forall|j: int| 0 <= j < rest@.len() ==> entry_view(#[trigger] rest@[j]) == input[k + j],
            entries_view(out@) == merged(input.subrange(0, k as int)),
            keys_unique(entries_view(out@)),
        decreases rest@.len(),
    {
        let ghost before = entries_view(out@);
        let ghost rest_before = rest@;
        let (name, mut addresses) = rest.remove(0);
        let ghost entry = (name@, addresses@);
        proof {
            assert(entry_view(rest_before[0]) == entry);
            assert(entry == input[k as int]);
            assert forall|j: int| 0 <= j < rest@.len() implies entry_view(#[trigger] rest@[j])
                == input[k + 1 + j] by {
                assert(rest@[j] == rest_before[j + 1]);
            }
            let s = input.subrange(0, k as int + 1);
            assert(s.drop_last() =~= input.subrange(0, k as int));
            assert(s.last() == entry);
            lemma_with_entry(before, name@, list_of(before, name@) + addresses@);
        }
        match find_name(&out, &name) {
            Some(i) => {
                let ghost old_out = out@;
                let (stored, mut collected) = out.remove(i);
                collected.append(&mut addresses);
                let ghost new_entry = (stored@, collected@);
                out.insert(i, (stored, collected));
                proof {
                    assert(before[i as int].0 == name@);
                    assert(holds_key(before, name@));
                    assert(out@ =~= old_out.update(i as int, out@[i as int]));
                    assert(entry_view(out@[i as int]) == new_entry);
                    assert(new_entry == (name@, list_of(before, name@) + entry.1));
                }
                assert(entries_view(out@) =~= with_entry(
                    before,
                    name@,
                    list_of(before, name@) + entry.1,
                ));
            },
            None => {
                out.push((name, addresses));
                assert(list_of(before, entry.0) + entry.1 =~= entry.1);
                assert(entries_view(out@) =~= with_entry(
                    before,
                    entry.0,
                    list_of(before, entry.0) + entry.1,
                ));
            },
        }
        k = k + 1;
    }
    assert(input.subrange(0, k as int) =~= input);
    out
}

/// No name along `s` comes strictly before an earlier one.
pub open spec fn names_non_descending<T>(s: Seq<EntryView<T>>) -> bool {
    forall|i: int, j: int| 0 <= i < j < s.len() ==> !bytes_lt(#[trigger] s[j].0, #[trigger] s[i].0)
}

proof fn lemma_insert_sorted<T>(s: Seq<EntryView<T>>, p: int, x: EntryView<T>)
    requires
        0 <= p <= s.len(),
        names_non_descending(s),
        forall|q: int| 0 <= q < p ==> !bytes_lt(x.0, #[trigger] s[q].0),
        p < s.len() ==> bytes_lt(x.0, s[p].0),
    ensures
        names_non_descending(s.insert(p, x)),
        names_ascending(s) && (forall|q: int| 0 <= q < s.len() ==> x.0 != #[trigger] s[q].0)
            ==> names_ascending(s.insert(p, x)),
{
    let t = s.insert(p, x);
    assert forall|a: int, b: int| 0 <= a < b < t.len() implies !bytes_lt(
        #[trigger] t[b].0,
        #[trigger] t[a].0,
    ) by {
        if a == p {
            assert(t[b] == s[b - 1]);
            if bytes_lt(s[b - 1].0, x.0) {
                lemma_bytes_lt_transitive(s[b - 1].0, x.0, s[p].0);
                if b - 1 == p {
                    lemma_bytes_lt_irreflexive(s[p].0);
                }
            }
        } else if b == p {
            assert(t[a] == s[a]);
        } else if b < p {
            assert(t[a] == s[a] && t[b] == s[b]);
        } else if a < p {
            assert(t[a] == s[a] && t[b] == s[b - 1]);
        } else {
            assert(t[a] == s[a - 1] && t[b] == s[b - 1]);
        }
    }
    if names_ascending(s) && (forall|q: int| 0 <= q < s.len() ==> x.0 != #[trigger] s[q].0) {
        assert forall|a: int, b: int| 0 <= a < b < t.len() implies bytes_lt(
            #[trigger] t[a].0,
            #[trigger] t[b].0,
        ) by {
            if a == p {
                assert(t[b] == s[b - 1]);
                if b - 1 > p {
                    lemma_bytes_lt_transitive(x.0, s[p].0, s[b - 1].0);
                }
            } else if b == p {
                assert(t[a] == s[a]);
                lemma_bytes_lt_total(s[a].0, x.0);
            } else if b < p {
                assert(t[a] == s[a] && t[b] == s[b]);
            } else if a < p {
                assert(t[a] == s[a] && t[b] == s[b - 1]);
            } else {
                assert(t[a] == s[a - 1] && t[b] == s[b - 1]);
            }
        }
    }
}

/// Orders entries by name, lexicographically by bytes, keeping every entry.
/// Entries whose names are distinct end up with strictly ascending names.
pub fn sort<T>(entries: Vec<Entry<T>>) -> (r: Vec<Entry<T>>)
    ensures
        entries_view(r@).to_multiset() == entries_view(entries@).to_multiset(),
        names_non_descending(entries_view(r@)),
        keys_unique(entries_view(entries@)) ==> names_ascending(entries_view(r@)),
{
    let ghost input = entries_view(entries@);
    let ghost n = entries.len() as int;
    let mut out: Vec<Entry<T>> = Vec::new();
    let mut rest = entries;
    let mut k: usize = 0;
    assert(entries_view(out@) =~= Seq::<EntryView<T>>::empty());
    assert(input.subrange(0, 0) =~= Seq::<EntryView<T>>::empty());
    while rest.len() > 0
        invariant
            k as int + rest@.len() == n,
            n <= usize::MAX,
            input.len() == n,
            forall|j: int| 0 <= j < rest@.len() ==> entry_view(#[trigger] rest@[j]) == input[k + j],
            entries_view(out@).to_multiset() == input.subrange(0, k as int).to_multiset(),
            names_non_descending(entries_view(out@)),
            keys_unique(input) ==> names_ascending(entries_view(out@)),
        decreases rest@.len(),
    {
        let ghost before = entries_view(out@);
        let ghost rest_before = rest@;
        let entry = rest.remove(0);
        let ghost x = entry_view(entry);
        proof {
            assert(entry_view(rest_before[0]) == x);
            assert(x == input[k as int]);
            assert forall|j: int| 0 <= j < rest@.len() implies entry_view(#[trigger] rest@[j])
                == input[k + 1 + j] by {
                assert(rest@[j] == rest_before[j + 1]);
            }
            assert(input.subrange(0, k as int + 1) =~= input.subrange(0, k as int).push(x));
        }
        let mut p: usize = 0;
        while p < out.len() && !bytes_less(&entry.0, &out[p].0)
            invariant
                p <= out@.len(),
                before == entries_view(out@),
                x == entry_view(entry),
                forall|q: int| 0 <= q < p ==> !bytes_lt(x.0, #[trigger] before[q].0),
            decreases out@.len() - p,
        {
            p = p + 1;
        }
        proof {
            lemma_insert_sorted(before, p as int, x);
            if keys_unique(input) {
                assert forall|q: int| 0 <= q < before.len() implies x.0 != #[trigger] before[q].0 by {
                    assert(before.to_multiset().count(before[q]) > 0);
                    assert(input.subrange(0, k as int).contains(before[q]));
                    let idx = choose|idx: int|
                        0 <= idx < k && #[trigger] input.subrange(0, k as int)[idx] == before[q];
                    assert(input[idx] == before[q]);
                    assert(input[idx].0 != input[k as int].0);
                }
            }
        }
        out.insert(p, entry);
        assert(entries_view(out@) =~= before.insert(p as int, x));
        k = k + 1;
    }
    assert(input.subrange(0, k as int) =~= input);
    out
}

/// Merges entries by name, then orders them by name: the form in which
/// interfaces are reported.
pub fn normalize_and_sort<T>(interfaces: Vec<Entry<T>>) -> (r: Vec<Entry<T>>)
    ensures
        entries_view(r@).to_multiset() == merged(entries_view(interfaces@)).to_multiset(),
        names_ascending(entries_view(r@)),
{
    sort(normalize(interfaces))
}

} // verus!
