//! Association lists keyed by strings: sequences of (key, value) entries
//! with unique keys, and the mapping they describe.

use vstd::prelude::*;

verus! {

/// Whether `s` holds an entry with key `k`.
pub open spec fn has_key<V>(s: Seq<(Seq<char>, V)>, k: Seq<char>) -> bool {
    exists|i: int| 0 <= i < s.len() && (#[trigger] s[i]).0 == k
}

/// The index of an entry of `s` with key `k`.
pub open spec fn key_index<V>(s: Seq<(Seq<char>, V)>, k: Seq<char>) -> int {
    choose|i: int| 0 <= i < s.len() && (#[trigger] s[i]).0 == k
}

/// No two entries of `s` share a key.
pub open spec fn keys_unique<V>(s: Seq<(Seq<char>, V)>) -> bool {
    forall|i: int, j: int| 0 <= i < s.len() && 0 <= j < s.len() && i != j ==> (#[trigger] s[i]).0 != (#[trigger] s[j]).0
}

/// The mapping that the entries `s` describe.
pub open spec fn entries_map<V>(s: Seq<(Seq<char>, V)>) -> Map<Seq<char>, V> {
    Map::new(|k: Seq<char>| has_key(s, k), |k: Seq<char>| s[key_index(s, k)].1)
}

/// `s` with `(k, v)` stored: the entry of key `k` replaced in place, or
/// appended when there is none.
pub open spec fn store_entry<V>(s: Seq<(Seq<char>, V)>, k: Seq<char>, v: V) -> Seq<(Seq<char>, V)> {
    if has_key(s, k) {
        s.update(key_index(s, k), (k, v))
    } else {
        s.push((k, v))
    }
}

/// In entries with unique keys, `key_index` finds the entry of its key.
pub proof fn lemma_key_index<V>(s: Seq<(Seq<char>, V)>, i: int)
    requires
        keys_unique(s),
        0 <= i < s.len(),
    ensures
        has_key(s, s[i].0),
        key_index(s, s[i].0) == i,
        entries_map(s).contains_key(s[i].0),
        entries_map(s)[s[i].0] == s[i].1,
{
    assert(has_key(s, s[i].0));
}

/// Storing an entry keeps keys unique and stores into the mapping.
pub proof fn lemma_store_entry<V>(s: Seq<(Seq<char>, V)>, k: Seq<char>, v: V)
    requires
        keys_unique(s),
    ensures
        keys_unique(store_entry(s, k, v)),
        entries_map(store_entry(s, k, v)) == entries_map(s).insert(k, v),
{
    let t = store_entry(s, k, v);
    if has_key(s, k) {
        let i = key_index(s, k);
        lemma_key_index(s, i);
    }
    assert(keys_unique(t));
    assert forall|q: Seq<char>| #[trigger] has_key(t, q) == (has_key(s, q) || q == k) by {
        if has_key(s, q) {
            let j = key_index(s, q);
            assert(t[j].0 == q);
        }
        if q == k {
            if has_key(s, k) {
                assert(t[key_index(s, k)].0 == k);
            } else {
                assert(t[s.len() as int].0 == k);
            }
        }
    }
    assert forall|q: Seq<char>| has_key(t, q) implies #[trigger] t[key_index(t, q)].1 == entries_map(
        s,
    ).insert(k, v)[q] by {
        let j = key_index(t, q);
        lemma_key_index(t, j);
        if q != k {
            let i0 = key_index(s, q);
            lemma_key_index(s, i0);
            assert(t[i0].0 == q);
            lemma_key_index(t, i0);
        }
    }
    assert(entries_map(t) =~= entries_map(s).insert(k, v));
}

/// Removing the entry at `i` keeps keys unique and removes its key from the
/// mapping.
pub proof fn lemma_remove_entry<V>(s: Seq<(Seq<char>, V)>, i: int)
    requires
        keys_unique(s),
        0 <= i < s.len(),
    ensures
        keys_unique(s.remove(i)),
        entries_map(s.remove(i)) == entries_map(s).remove(s[i].0),
{
    let t = s.remove(i);
    let k = s[i].0;
    assert forall|a: int, b: int| 0 <= a < t.len() && 0 <= b < t.len() && a != b implies (
    #[trigger] t[a]).0 != (#[trigger] t[b]).0 by {
        let a0 = if a < i { a } else { a + 1 };
        let b0 = if b < i { b } else { b + 1 };
        assert(t[a] == s[a0] && t[b] == s[b0]);
    }
    assert forall|q: Seq<char>| #[trigger] has_key(t, q) == (has_key(s, q) && q != k) by {
        if has_key(t, q) {
            let j = key_index(t, q);
            let j0 = if j < i { j } else { j + 1 };
            assert(s[j0].0 == q);
            assert(j0 != i);
        }
        if has_key(s, q) && q != k {
            let j0 = key_index(s, q);
            let j = if j0 < i { j0 } else { j0 - 1 };
            assert(t[j].0 == q);
        }
    }
    assert forall|q: Seq<char>| has_key(t, q) implies #[trigger] t[key_index(t, q)].1 == entries_map(
        s,
    )[q] by {
        let j = key_index(t, q);
        let j0 = if j < i { j } else { j + 1 };
        assert(t[j] == s[j0]);
        lemma_key_index(s, j0);
    }
    assert(entries_map(t) =~= entries_map(s).remove(k));
}

/// Entries with unique keys describe a finite mapping with one key per
/// entry.
pub proof fn lemma_entries_len<V>(s: Seq<(Seq<char>, V)>)
    requires
        keys_unique(s),
    ensures
        entries_map(s).dom().finite(),
        entries_map(s).dom().len() == s.len(),
    decreases s.len(),
{
    if s.len() == 0 {
        assert(entries_map(s).dom() =~= Set::<Seq<char>>::empty());
    } else {
        let p = s.drop_last();
        let k = s.last().0;
        assert(keys_unique(p)) by {
            assert forall|i: int, j: int| 0 <= i < p.len() && 0 <= j < p.len() && i != j implies (
            #[trigger] p[i]).0 != (#[trigger] p[j]).0 by {
                assert(p[i] == s[i] && p[j] == s[j]);
            }
        }
        lemma_entries_len(p);
        assert forall|q: Seq<char>| #[trigger] has_key(s, q) == (has_key(p, q) || q == k) by {
            if has_key(s, q) {
                let j = key_index(s, q);
                if j < p.len() {
                    assert(p[j] == s[j]);
                }
            }
            if has_key(p, q) {
                let j = key_index(p, q);
                assert(s[j] == p[j]);
            }
            if q == k {
                assert(s[s.len() - 1].0 == k);
            }
        }
        assert(!has_key(p, k)) by {
            if has_key(p, k) {
                let j = key_index(p, k);
                assert(s[j] == p[j]);
                assert(s[s.len() - 1].0 == k);
            }
        }
        assert(entries_map(s).dom() =~= entries_map(p).dom().insert(k));
    }
}

} // verus!
