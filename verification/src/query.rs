//! Query parameters as an ordered map: decoded key/value pairs are folded
//! into a sequence of entries with strictly ascending keys, and a later
//! occurrence of a key overwrites an earlier one.

use crate::text::{
    lemma_lex_less_irreflexive, lemma_lex_less_total, lemma_lex_less_transitive, lex_less,
    str_equal, str_less,
};
use vstd::prelude::*;

verus! {

/// A decoded key/value pair.
pub type Pair = (Seq<char>, Seq<char>);

/// The pairs held by a vector of strings, as character sequences.
pub open spec fn pairs_view(v: Seq<(String, String)>) -> Seq<Pair> {
    Seq::new(v.len(), |i: int| (v[i].0@, v[i].1@))
}

/// Keys ascend strictly from one entry to the next; in particular no key
/// occurs twice.
pub open spec fn strictly_sorted(s: Seq<Pair>) -> bool {
    forall|i: int, j: int| 0 <= i < j < s.len() ==> lex_less(#[trigger] s[i].0, #[trigger] s[j].0)
}

/// The value that `s` holds for `key`: that of its last occurrence.
pub open spec fn lookup(s: Seq<Pair>, key: Seq<char>) -> Option<Seq<char>>
    decreases s.len(),
{
    if s.len() == 0 {
        None
    } else if s.last().0 == key {
        Some(s.last().1)
    } else {
        lookup(s.drop_last(), key)
    }
}

/// The number of leading entries whose key comes before `key`.
pub open spec fn lower_bound(s: Seq<Pair>, key: Seq<char>) -> int
    decreases s.len(),
{
    if s.len() == 0 || !lex_less(s[0].0, key) {
        0
    } else {
        1 + lower_bound(s.drop_first(), key)
    }
}

/// `s` with `key` bound to `value`: an entry with that key is overwritten in
/// place, otherwise the new entry goes where the order puts it.
pub open spec fn upsert(s: Seq<Pair>, key: Seq<char>, value: Seq<char>) -> Seq<Pair> {
    let i = lower_bound(s, key);
    if i < s.len() && s[i].0 == key {
        s.update(i, (key, value))
    } else {
        s.insert(i, (key, value))
    }
}

/// The pairs folded from first to last into an ordered map.
pub open spec fn folded(pairs: Seq<Pair>) -> Seq<Pair>
    decreases pairs.len(),
{
    if pairs.len() == 0 {
        Seq::empty()
    } else {
        upsert(folded(pairs.drop_last()), pairs.last().0, pairs.last().1)
    }
}

/// Where `lower_bound` points: everything before it has a smaller key, and
/// the entry at it, if any, has not.
pub proof fn lemma_lower_bound(s: Seq<Pair>, key: Seq<char>)
    ensures
        0 <= lower_bound(s, key) <= s.len(),
        forall|j: int| 0 <= j < lower_bound(s, key) ==> lex_less(#[trigger] s[j].0, key),
        lower_bound(s, key) < s.len() ==> !lex_less(s[lower_bound(s, key)].0, key),
    decreases s.len(),
{
    if s.len() == 0 || !lex_less(s[0].0, key) {
    } else {
        let t = s.drop_first();
        lemma_lower_bound(t, key);
        assert forall|j: int| 0 <= j < lower_bound(s, key) implies lex_less(
            #[trigger] s[j].0,
            key,
        ) by {
            if j > 0 {
                assert(s[j] == t[j - 1]);
            }
        }
        if lower_bound(s, key) < s.len() {
            assert(s[lower_bound(s, key)] == t[lower_bound(t, key)]);
        }
    }
}

/// In a strictly sorted sequence an entry is found under its key.
pub proof fn lemma_lookup_found(s: Seq<Pair>, j: int)
    requires
        strictly_sorted(s),
        0 <= j < s.len(),
    ensures
        lookup(s, s[j].0) == Some(s[j].1),
    decreases s.len(),
{
    if j == s.len() - 1 {
    } else {
        let last = s.len() - 1;
        assert(lex_less(s[j].0, s[last].0));
        lemma_lex_less_irreflexive(s[j].0);
        let t = s.drop_last();
        assert forall|a: int, b: int| 0 <= a < b < t.len() implies lex_less(
            #[trigger] t[a].0,
            #[trigger] t[b].0,
        ) by {
            assert(t[a] == s[a] && t[b] == s[b]);
        }
        lemma_lookup_found(t, j);
    }
}

/// A key that no entry has is not found.
pub proof fn lemma_lookup_missing(s: Seq<Pair>, key: Seq<char>)
    requires
        forall|j: int| 0 <= j < s.len() ==> (#[trigger] s[j]).0 != key,
    ensures
        lookup(s, key) is None,
    decreases s.len(),
{
    if s.len() > 0 {
        let t = s.drop_last();
        assert(s[s.len() - 1].0 != key);
        assert forall|j: int| 0 <= j < t.len() implies (#[trigger] t[j]).0 != key by {
            assert(t[j] == s[j]);
        }
        lemma_lookup_missing(t, key);
    }
}

/// Binding a key keeps the entries strictly sorted.
pub proof fn lemma_upsert_sorted(s: Seq<Pair>, key: Seq<char>, value: Seq<char>)
    requires
        strictly_sorted(s),
    ensures
        strictly_sorted(upsert(s, key, value)),
{
    let i = lower_bound(s, key);
    let r = upsert(s, key, value);
    lemma_lower_bound(s, key);
    if i < s.len() && s[i].0 == key {
        assert forall|a: int, b: int| 0 <= a < b < r.len() implies lex_less(
            #[trigger] r[a].0,
            #[trigger] r[b].0,
        ) by {
            assert(r[a].0 == s[a].0 && r[b].0 == s[b].0);
        }
    } else {
        assert forall|b: int| i <= b < s.len() implies lex_less(key, #[trigger] s[b].0) by {
            lemma_lex_less_total(key, s[i].0);
            if b > i {
                assert(lex_less(s[i].0, s[b].0));
                lemma_lex_less_transitive(key, s[i].0, s[b].0);
            }
        }
        assert forall|a: int, b: int| 0 <= a < b < r.len() implies lex_less(
            #[trigger] r[a].0,
            #[trigger] r[b].0,
        ) by {
            if b < i {
                assert(r[a] == s[a] && r[b] == s[b]);
            } else if b == i {
                assert(r[a] == s[a]);
            } else if a < i {
                assert(r[a] == s[a] && r[b] == s[b - 1]);
                assert(lex_less(s[a].0, key));
                assert(lex_less(key, s[b - 1].0));
                lemma_lex_less_transitive(s[a].0, key, s[b - 1].0);
            } else if a == i {
                assert(r[b] == s[b - 1]);
            } else {
                assert(r[a] == s[a - 1] && r[b] == s[b - 1]);
            }
        }
    }
}

/// Binding a key changes what is found under that key, and nothing else.
pub proof fn lemma_upsert_lookup(s: Seq<Pair>, key: Seq<char>, value: Seq<char>, q: Seq<char>)
    requires
        strictly_sorted(s),
    ensures
        lookup(upsert(s, key, value), q) == if q == key {
            Some(value)
        } else {
            lookup(s, q)
        },
{
    let i = lower_bound(s, key);
    let r = upsert(s, key, value);
    let replaced = i < s.len() && s[i].0 == key;
    lemma_lower_bound(s, key);
    lemma_upsert_sorted(s, key, value);
    assert(r[i] == (key, value));
    if q == key {
        lemma_lookup_found(r, i);
    } else if exists|j: int| 0 <= j < s.len() && (#[trigger] s[j]).0 == q {
        let j = choose|j: int| 0 <= j < s.len() && (#[trigger] s[j]).0 == q;
        lemma_lookup_found(s, j);
        let k = if replaced || j < i {
            j
        } else {
            j + 1
        };
        assert(r[k] == s[j]);
        lemma_lookup_found(r, k);
    } else {
        lemma_lookup_missing(s, q);
        assert forall|k: int| 0 <= k < r.len() implies (#[trigger] r[k]).0 != q by {
            if k != i {
                let j = if replaced || k < i {
                    k
                } else {
                    k - 1
                };
                assert(r[k] == s[j]);
            }
        }
        lemma_lookup_missing(r, q);
    }
}

/// Folded pairs are strictly sorted by key.
pub proof fn lemma_folded_sorted(pairs: Seq<Pair>)
    ensures
        strictly_sorted(folded(pairs)),
    decreases pairs.len(),
{
    if pairs.len() > 0 {
        lemma_folded_sorted(pairs.drop_last());
        lemma_upsert_sorted(folded(pairs.drop_last()), pairs.last().0, pairs.last().1);
    }
}

/// Folding keeps, for every key, the value of its last occurrence: the map
/// holds a key exactly when the pairs do.
pub proof fn lemma_folded_last_wins(pairs: Seq<Pair>, key: Seq<char>)
    ensures
        lookup(folded(pairs), key) == lookup(pairs, key),
    decreases pairs.len(),
{
    if pairs.len() > 0 {
        lemma_folded_sorted(pairs.drop_last());
        lemma_folded_last_wins(pairs.drop_last(), key);
        lemma_upsert_lookup(folded(pairs.drop_last()), pairs.last().0, pairs.last().1, key);
    }
}

/// Folding yields no entry exactly when there is no pair.
pub proof fn lemma_folded_empty(pairs: Seq<Pair>)
    ensures
        folded(pairs).len() == 0 <==> pairs.len() == 0,
{
    if pairs.len() > 0 {
        lemma_lower_bound(folded(pairs.drop_last()), pairs.last().0);
    }
}

/// Folding entries that are strictly sorted already gives them back: each
/// one goes to the end.
pub proof fn lemma_folded_of_sorted(s: Seq<Pair>)
    requires
        strictly_sorted(s),
    ensures
        folded(s) == s,
    decreases s.len(),
{
    if s.len() == 0 {
        assert(folded(s) =~= s);
    } else {
        let t = s.drop_last();
        let last = s.last();
        assert forall|a: int, b: int| 0 <= a < b < t.len() implies lex_less(
            #[trigger] t[a].0,
            #[trigger] t[b].0,
        ) by {
            assert(t[a] == s[a] && t[b] == s[b]);
        }
        lemma_folded_of_sorted(t);
        lemma_lower_bound(t, last.0);
        let i = lower_bound(t, last.0);
        if i < t.len() {
            assert(t[i] == s[i]);
            assert(lex_less(s[i].0, s[s.len() - 1].0));
        }
        assert(t.insert(t.len() as int, last) =~= s);
    }
}

/// Binds `key` to `value` in `entries`.
pub fn insert_pair(entries: &mut Vec<(String, String)>, key: String, value: String)
    ensures
        pairs_view(final(entries)@) == upsert(pairs_view(old(entries)@), key@, value@),
{
    let ghost s = pairs_view(entries@);
    let mut i: usize = 0;
    assert(s.skip(0) =~= s);
    while i < entries.len() && str_less(entries[i].0.as_str(), key.as_str())
        invariant
            i <= entries.len(),
            s == pairs_view(entries@),
            entries@ == old(entries)@,
            lower_bound(s, key@) == i + lower_bound(s.skip(i as int), key@),
        decreases entries.len() - i,
    {
        assert(s.skip(i as int)[0] == s[i as int]);
        assert(s.skip(i as int).drop_first() =~= s.skip(i as int + 1));
        i = i + 1;
    }
    proof {
        if i < entries.len() {
            assert(s.skip(i as int)[0] == s[i as int]);
        }
    }
    assert(lower_bound(s, key@) == i);
    if i < entries.len() && str_equal(entries[i].0.as_str(), key.as_str()) {
        entries.set(i, (key, value));
        assert(pairs_view(entries@) =~= s.update(i as int, (key@, value@)));
    } else {
        entries.insert(i, (key, value));
        assert(pairs_view(entries@) =~= s.insert(i as int, (key@, value@)));
    }
}

/// Folds decoded pairs, first to last, into entries sorted by key.
pub fn fold_pairs(pairs: &Vec<(String, String)>) -> (entries: Vec<(String, String)>)
    ensures
        pairs_view(entries@) == folded(pairs_view(pairs@)),
{
    let ghost all = pairs_view(pairs@);
    let mut entries: Vec<(String, String)> = Vec::new();
    let mut i: usize = 0;
    assert(pairs_view(entries@) =~= folded(all.take(0)));
    while i < pairs.len()
        invariant
            i <= pairs.len(),
            all == pairs_view(pairs@),
            pairs_view(entries@) == folded(all.take(i as int)),
        decreases pairs.len() - i,
    {
        let key = pairs[i].0.clone();
        let value = pairs[i].1.clone();
        assert(all.take(i as int + 1).drop_last() =~= all.take(i as int));
        assert(all.take(i as int + 1).last() == (key@, value@));
        insert_pair(&mut entries, key, value);
        i = i + 1;
    }
    assert(all.take(i as int) =~= all);
    entries
}

} // verus!
