//! Filtered, paginated listing: items are filtered by inclusive bounds on
//! their creation time, ordered newest first with ties broken by the larger
//! identifier, then an offset is skipped and a limit of items is taken.

use crate::models::{at_or_before, ContentItem, ContentItemView, Timestamp};
use vstd::prelude::*;

verus! {

/// The page size when none is asked for.
pub const DEFAULT_LIMIT: u32 = 50;

/// The largest page size; a larger request is clamped to it.
pub const MAX_LIMIT: u32 = 1000;

/// What a listing is asked for.
#[derive(Debug, Clone, Copy, PartialEq, Eq)]
pub struct ListContentParams {
    /// The page size; positive when present.
    pub limit: Option<u32>,
    /// How many items to skip.
    pub offset: Option<u32>,
    /// Inclusive lower bound on the creation time.
    pub since: Option<Timestamp>,
    /// Inclusive upper bound on the creation time.
    pub until: Option<Timestamp>,
}

/// One page of a listing.
#[derive(Debug, Clone, PartialEq, Eq)]
pub struct ListContentResult {
    /// The items of the page, newest first.
    pub items: Vec<ContentItem>,
    /// How many items match the bounds, whatever the page.
    pub total: u64,
}

/// The items of a vector over character sequences.
pub open spec fn items_view(v: Seq<ContentItem>) -> Seq<ContentItemView> {
    Seq::new(v.len(), |i: int| v[i]@)
}

/// The page size in effect: the default when none is given, and never more
/// than the maximum.
pub open spec fn effective_limit(limit: Option<u32>) -> nat {
    match limit {
        Some(n) => if n > MAX_LIMIT {
            MAX_LIMIT as nat
        } else {
            n as nat
        },
        None => DEFAULT_LIMIT as nat,
    }
}

/// The offset in effect: zero when none is given.
pub open spec fn effective_offset(offset: Option<u32>) -> nat {
    match offset {
        Some(n) => n as nat,
        None => 0,
    }
}

/// Whether an instant lies within the inclusive bounds that are given.
pub open spec fn in_range(t: Timestamp, since: Option<Timestamp>, until: Option<Timestamp>) -> bool {
    &&& since matches Some(lo) ==> at_or_before(lo, t)
    &&& until matches Some(hi) ==> at_or_before(t, hi)
}

/// The rows whose creation time lies within the bounds, in their order.
pub open spec fn matching(
    rows: Seq<ContentItemView>,
    since: Option<Timestamp>,
    until: Option<Timestamp>,
) -> Seq<ContentItemView>
    decreases rows.len(),
{
    if rows.len() == 0 {
        Seq::empty()
    } else {
        let rest = matching(rows.drop_last(), since, until);
        if in_range(rows.last().created_at, since, until) {
            rest.push(rows.last())
        } else {
            rest
        }
    }
}

/// Whether `a` is listed before `b`: it was created later, or at the same
/// instant and has the larger identifier.
pub open spec fn newer(a: ContentItemView, b: ContentItemView) -> bool {
    !at_or_before(a.created_at, b.created_at) || (a.created_at == b.created_at && a.id > b.id)
}

/// The position of the item to list first: the first one that no other item
/// is newer than. Meant for a non-empty sequence.
pub open spec fn newest_index(s: Seq<ContentItemView>) -> int
    decreases s.len(),
{
    if s.len() <= 1 {
        0
    } else {
        let j = newest_index(s.drop_last());
        if newer(s.last(), s[j]) {
            s.len() - 1
        } else {
            j
        }
    }
}

/// The items in listing order: newest first.
pub open spec fn ranked(s: Seq<ContentItemView>) -> Seq<ContentItemView>
    decreases s.len(),
{
    if s.len() == 0 {
        Seq::empty()
    } else {
        let i = newest_index(s);
        proof {
            lemma_newest_index(s);
        }
        seq![s[i]] + ranked(s.remove(i))
    }
}

/// The part of an ordered listing that a page holds: `offset` items are
/// skipped, then at most `limit` are taken.
pub open spec fn page(full: Seq<ContentItemView>, offset: nat, limit: nat) -> Seq<ContentItemView> {
    let start = if offset < full.len() {
        offset as int
    } else {
        full.len() as int
    };
    let end = if offset + limit < full.len() {
        (offset + limit) as int
    } else {
        full.len() as int
    };
    full.subrange(start, end)
}

/// The items that a listing of `rows` returns for `params`.
pub open spec fn listed(rows: Seq<ContentItemView>, params: ListContentParams) -> Seq<
    ContentItemView,
> {
    page(
        ranked(matching(rows, params.since, params.until)),
        effective_offset(params.offset),
        effective_limit(params.limit),
    )
}

/// No two items have the same identifier.
pub open spec fn distinct_ids(s: Seq<ContentItemView>) -> bool {
    forall|i: int, j: int| 0 <= i < j < s.len() ==> (#[trigger] s[i]).id != (#[trigger] s[j]).id
}

/// No two items were created at the same instant.
pub open spec fn distinct_instants(s: Seq<ContentItemView>) -> bool {
    forall|i: int, j: int|
        0 <= i < j < s.len() ==> (#[trigger] s[i]).created_at != (#[trigger] s[j]).created_at
}

/// `newest_index` points into the sequence, at an item that none is newer
/// than.
pub proof fn lemma_newest_index(s: Seq<ContentItemView>)
    requires
        s.len() > 0,
    ensures
        0 <= newest_index(s) < s.len(),
        forall|k: int| 0 <= k < s.len() ==> !newer(#[trigger] s[k], s[newest_index(s)]),
    decreases s.len(),
{
    if s.len() > 1 {
        let t = s.drop_last();
        lemma_newest_index(t);
        let j = newest_index(t);
        assert(t[j] == s[j]);
        assert forall|k: int| 0 <= k < s.len() implies !newer(
            #[trigger] s[k],
            s[newest_index(s)],
        ) by {
            if k < s.len() - 1 {
                assert(t[k] == s[k]);
                assert(!newer(t[k], t[j]));
            }
        }
    }
}

/// Filtering keeps exactly the rows within the bounds: an item is among the
/// matching ones if and only if it is a row whose creation time lies within
/// the inclusive bounds.
pub proof fn lemma_matching_contains(
    rows: Seq<ContentItemView>,
    since: Option<Timestamp>,
    until: Option<Timestamp>,
    x: ContentItemView,
)
    ensures
        matching(rows, since, until).contains(x) <==> rows.contains(x) && in_range(
            x.created_at,
            since,
            until,
        ),
    decreases rows.len(),
{
    let m = matching(rows, since, until);
    if rows.len() > 0 {
        let init = rows.drop_last();
        let rest = matching(init, since, until);
        lemma_matching_contains(init, since, until, x);
        if rows.contains(x) {
            let k = choose|k: int| 0 <= k < rows.len() && rows[k] == x;
            if k < rows.len() - 1 {
                assert(init[k] == x);
            }
        }
        if init.contains(x) {
            let k = choose|k: int| 0 <= k < init.len() && init[k] == x;
            assert(rows[k] == x);
        }
        if in_range(rows.last().created_at, since, until) {
            if m.contains(x) {
                let k = choose|k: int| 0 <= k < m.len() && m[k] == x;
                if k < rest.len() {
                    assert(rest[k] == x);
                }
            }
            if rest.contains(x) {
                let k = choose|k: int| 0 <= k < rest.len() && rest[k] == x;
                assert(m[k] == x);
            }
            if x == rows.last() {
                assert(m[m.len() - 1] == x);
                assert(rows[rows.len() - 1] == x);
            }
        }
    }
}

/// Ordering neither adds nor drops an item.
pub proof fn lemma_ranked_len(s: Seq<ContentItemView>)
    ensures
        ranked(s).len() == s.len(),
    decreases s.len(),
{
    if s.len() > 0 {
        lemma_newest_index(s);
        lemma_ranked_len(s.remove(newest_index(s)));
    }
}

/// Ordering keeps exactly the items it is given.
pub proof fn lemma_ranked_contains(s: Seq<ContentItemView>, x: ContentItemView)
    ensures
        ranked(s).contains(x) <==> s.contains(x),
    decreases s.len(),
{
    if s.len() > 0 {
        lemma_newest_index(s);
        let i = newest_index(s);
        let t = s.remove(i);
        let r = ranked(s);
        let rt = ranked(t);
        lemma_ranked_contains(t, x);
        if r.contains(x) {
            let k = choose|k: int| 0 <= k < r.len() && r[k] == x;
            if k == 0 {
                assert(s[i] == x);
            } else {
                assert(rt[k - 1] == x);
                let m = choose|m: int| 0 <= m < t.len() && t[m] == x;
                if m < i {
                    assert(s[m] == x);
                } else {
                    assert(s[m + 1] == x);
                }
            }
        }
        if s.contains(x) {
            let k = choose|k: int| 0 <= k < s.len() && s[k] == x;
            if k == i {
                assert(r[0] == x);
            } else {
                if k < i {
                    assert(t[k] == x);
                } else {
                    assert(t[k - 1] == x);
                }
                let m = choose|m: int| 0 <= m < rt.len() && rt[m] == x;
                assert(r[m + 1] == x);
            }
        }
    }
}

/// A listing is in order: no item is newer than one listed before it.
pub proof fn lemma_ranked_descending(s: Seq<ContentItemView>, i: int, j: int)
    requires
        0 <= i < j < ranked(s).len(),
    ensures
        !newer(ranked(s)[j], ranked(s)[i]),
    decreases s.len(),
{
    lemma_ranked_len(s);
    lemma_newest_index(s);
    let m = newest_index(s);
    let t = s.remove(m);
    let r = ranked(s);
    let rt = ranked(t);
    lemma_ranked_len(t);
    assert(r[j] == rt[j - 1]);
    if i == 0 {
        assert(r[0] == s[m]);
        lemma_ranked_contains(t, rt[j - 1]);
        assert(rt.contains(rt[j - 1]));
        let k = choose|k: int| 0 <= k < t.len() && t[k] == rt[j - 1];
        if k < m {
            assert(s[k] == r[j]);
        } else {
            assert(s[k + 1] == r[j]);
        }
    } else {
        assert(r[i] == rt[i - 1]);
        lemma_ranked_descending(t, i - 1, j - 1);
    }
}

/// Removing an item leaves the others as distinct as they were.
proof fn lemma_remove_keeps_distinct(s: Seq<ContentItemView>, m: int)
    requires
        0 <= m < s.len(),
    ensures
        distinct_ids(s) ==> distinct_ids(s.remove(m)),
        distinct_instants(s) ==> distinct_instants(s.remove(m)),
{
    let t = s.remove(m);
    if distinct_ids(s) {
        assert forall|i: int, j: int| 0 <= i < j < t.len() implies (#[trigger] t[i]).id != (
        #[trigger] t[j]).id by {
            let a = if i < m {
                i
            } else {
                i + 1
            };
            let b = if j < m {
                j
            } else {
                j + 1
            };
            assert(t[i] == s[a] && t[j] == s[b]);
        }
    }
    if distinct_instants(s) {
        assert forall|i: int, j: int| 0 <= i < j < t.len() implies (#[trigger] t[i]).created_at != (
        #[trigger] t[j]).created_at by {
            let a = if i < m {
                i
            } else {
                i + 1
            };
            let b = if j < m {
                j
            } else {
                j + 1
            };
            assert(t[i] == s[a] && t[j] == s[b]);
        }
    }
}

/// Ordering keeps identifiers distinct.
pub proof fn lemma_ranked_distinct_ids(s: Seq<ContentItemView>)
    requires
        distinct_ids(s),
    ensures
        distinct_ids(ranked(s)),
    decreases s.len(),
{
    if s.len() > 0 {
        lemma_newest_index(s);
        let m = newest_index(s);
        let t = s.remove(m);
        let r = ranked(s);
        let rt = ranked(t);
        lemma_remove_keeps_distinct(s, m);
        lemma_ranked_distinct_ids(t);
        lemma_ranked_len(t);
        assert forall|i: int, j: int| 0 <= i < j < r.len() implies (#[trigger] r[i]).id != (
        #[trigger] r[j]).id by {
            assert(r[j] == rt[j - 1]);
            if i == 0 {
                lemma_ranked_contains(t, rt[j - 1]);
                assert(rt.contains(rt[j - 1]));
                let k = choose|k: int| 0 <= k < t.len() && t[k] == rt[j - 1];
                let a = if k < m {
                    k
                } else {
                    k + 1
                };
                assert(s[a] == r[j]);
                assert(r[0] == s[m]);
                if a < m {
                    assert(s[a].id != s[m].id);
                } else {
                    assert(s[m].id != s[a].id);
                }
            } else {
                assert(r[i] == rt[i - 1]);
            }
        }
    }
}

/// Filtering keeps identifiers and instants distinct.
pub proof fn lemma_matching_distinct(
    rows: Seq<ContentItemView>,
    since: Option<Timestamp>,
    until: Option<Timestamp>,
)
    ensures
        distinct_ids(rows) ==> distinct_ids(matching(rows, since, until)),
        distinct_instants(rows) ==> distinct_instants(matching(rows, since, until)),
    decreases rows.len(),
{
    if rows.len() > 0 {
        let init = rows.drop_last();
        let rest = matching(init, since, until);
        let m = matching(rows, since, until);
        lemma_matching_distinct(init, since, until);
        if distinct_ids(rows) {
            assert forall|i: int, j: int| 0 <= i < j < init.len() implies (#[trigger] init[i]).id
                != (#[trigger] init[j]).id by {
                assert(init[i] == rows[i] && init[j] == rows[j]);
            }
            assert forall|i: int, j: int| 0 <= i < j < m.len() implies (#[trigger] m[i]).id != (
            #[trigger] m[j]).id by {
                if j < rest.len() {
                    assert(m[i] == rest[i] && m[j] == rest[j]);
                } else {
                    assert(m[i] == rest[i]);
                    lemma_matching_contains(init, since, until, rest[i]);
                    assert(rest.contains(rest[i]));
                    let k = choose|k: int| 0 <= k < init.len() && init[k] == rest[i];
                    assert(rows[k] == rest[i]);
                    assert(rows[rows.len() - 1] == m[j]);
                }
            }
        }
        if distinct_instants(rows) {
            assert forall|i: int, j: int| 0 <= i < j < init.len() implies (
            #[trigger] init[i]).created_at != (#[trigger] init[j]).created_at by {
                assert(init[i] == rows[i] && init[j] == rows[j]);
            }
            assert forall|i: int, j: int| 0 <= i < j < m.len() implies (#[trigger] m[i]).created_at
                != (#[trigger] m[j]).created_at by {
                if j < rest.len() {
                    assert(m[i] == rest[i] && m[j] == rest[j]);
                } else {
                    assert(m[i] == rest[i]);
                    lemma_matching_contains(init, since, until, rest[i]);
                    assert(rest.contains(rest[i]));
                    let k = choose|k: int| 0 <= k < init.len() && init[k] == rest[i];
                    assert(rows[k] == rest[i]);
                    assert(rows[rows.len() - 1] == m[j]);
                }
            }
        }
    }
}

/// Ordering keeps instants distinct.
pub proof fn lemma_ranked_distinct_instants(s: Seq<ContentItemView>)
    requires
        distinct_instants(s),
    ensures
        distinct_instants(ranked(s)),
    decreases s.len(),
{
    if s.len() > 0 {
        lemma_newest_index(s);
        let m = newest_index(s);
        let t = s.remove(m);
        let r = ranked(s);
        let rt = ranked(t);
        lemma_remove_keeps_distinct(s, m);
        lemma_ranked_distinct_instants(t);
        lemma_ranked_len(t);
        assert forall|i: int, j: int| 0 <= i < j < r.len() implies (#[trigger] r[i]).created_at
            != (#[trigger] r[j]).created_at by {
            assert(r[j] == rt[j - 1]);
            if i == 0 {
                lemma_ranked_contains(t, rt[j - 1]);
                assert(rt.contains(rt[j - 1]));
                let k = choose|k: int| 0 <= k < t.len() && t[k] == rt[j - 1];
                let a = if k < m {
                    k
                } else {
                    k + 1
                };
                assert(s[a] == r[j]);
                assert(r[0] == s[m]);
                if a < m {
                    assert(s[a].created_at != s[m].created_at);
                } else {
                    assert(s[m].created_at != s[a].created_at);
                }
            } else {
                assert(r[i] == rt[i - 1]);
            }
        }
    }
}

/// Listing order: when the items were created at distinct instants, a
/// listing without bounds returns them in strictly descending order of
/// creation time.
pub proof fn lemma_listing_strictly_descending(
    rows: Seq<ContentItemView>,
    limit: Option<u32>,
    offset: Option<u32>,
    i: int,
    j: int,
)
    requires
        distinct_instants(rows),
        0 <= i < j < listed(
            rows,
            (ListContentParams { limit, offset, since: None, until: None }),
        ).len(),
    ensures
        ({
            let items = listed(
                rows,
                (ListContentParams { limit, offset, since: None, until: None }),
            );
            !at_or_before(items[i].created_at, items[j].created_at)
        }),
{
    let m = matching(rows, None, None);
    let full = ranked(m);
    let off = effective_offset(offset);
    let start = if off < full.len() {
        off as int
    } else {
        full.len() as int
    };
    let items = page(full, off, effective_limit(limit));
    assert(items[i] == full[start + i]);
    assert(items[j] == full[start + j]);
    lemma_ranked_descending(m, start + i, start + j);
    lemma_matching_distinct(rows, None, None);
    lemma_ranked_distinct_instants(m);
    assert(full[start + i].created_at != full[start + j].created_at);
}

/// Pagination non-overlap: over rows with distinct identifiers, the page at
/// offset 0 and the page at offset `limit` share no identifier.
pub proof fn lemma_pages_disjoint(
    rows: Seq<ContentItemView>,
    limit: u32,
    since: Option<Timestamp>,
    until: Option<Timestamp>,
    i: int,
    j: int,
)
    requires
        distinct_ids(rows),
        0 <= i < listed(
            rows,
            (ListContentParams { limit: Some(limit), offset: Some(0), since, until }),
        ).len(),
        0 <= j < listed(
            rows,
            (ListContentParams { limit: Some(limit), offset: Some(limit), since, until }),
        ).len(),
    ensures
        listed(
            rows,
            (ListContentParams { limit: Some(limit), offset: Some(0), since, until }),
        )[i].id != listed(
            rows,
            (ListContentParams { limit: Some(limit), offset: Some(limit), since, until }),
        )[j].id,
{
    let m = matching(rows, since, until);
    let full = ranked(m);
    lemma_matching_distinct(rows, since, until);
    lemma_ranked_distinct_ids(m);
    let first = page(full, 0, limit as nat);
    let second = page(full, limit as nat, limit as nat);
    assert(first[i] == full[i]);
    assert(second[j] == full[limit + j]);
    assert(i < limit + j);
    assert(full[i].id != full[limit + j].id);
}

/// Range filter correctness: with a page that takes everything, the listing
/// holds exactly the rows whose creation time lies within the inclusive
/// bounds.
pub proof fn lemma_listing_is_range(
    rows: Seq<ContentItemView>,
    since: Option<Timestamp>,
    until: Option<Timestamp>,
    x: ContentItemView,
)
    ensures
        ranked(matching(rows, since, until)).contains(x) <==> rows.contains(x) && in_range(
            x.created_at,
            since,
            until,
        ),
        ranked(matching(rows, since, until)).len() == matching(rows, since, until).len(),
{
    lemma_ranked_contains(matching(rows, since, until), x);
    lemma_matching_contains(rows, since, until, x);
    lemma_ranked_len(matching(rows, since, until));
}

/// Every item of a page lies within the bounds and is one of the rows;
/// pagination changes which slice is returned, never what matches.
pub proof fn lemma_listed_within_range(
    rows: Seq<ContentItemView>,
    params: ListContentParams,
    i: int,
)
    requires
        0 <= i < listed(rows, params).len(),
    ensures
        rows.contains(listed(rows, params)[i]),
        in_range(listed(rows, params)[i].created_at, params.since, params.until),
{
    let full = ranked(matching(rows, params.since, params.until));
    let off = effective_offset(params.offset);
    let start = if off < full.len() {
        off as int
    } else {
        full.len() as int
    };
    let x = listed(rows, params)[i];
    assert(full[start + i] == x);
    assert(full.contains(x));
    lemma_listing_is_range(rows, params.since, params.until, x);
}

impl ListContentParams {
    /// The page size in effect.
    pub fn effective_limit(&self) -> (n: u32)
        ensures
            n == effective_limit(self.limit),
    {
        match self.limit {
            Some(n) => if n > MAX_LIMIT {
                MAX_LIMIT
            } else {
                n
            },
            None => DEFAULT_LIMIT,
        }
    }

    /// The offset in effect.
    pub fn effective_offset(&self) -> (n: u32)
        ensures
            n == effective_offset(self.offset),
    {
        match self.offset {
            Some(n) => n,
            None => 0,
        }
    }
}

/// Whether an instant lies within the inclusive bounds that are given.
pub fn within(t: &Timestamp, since: &Option<Timestamp>, until: &Option<Timestamp>) -> (r: bool)
    ensures
        r == in_range(*t, *since, *until),
{
    let after = match since {
        Some(lo) => lo.at_or_before(t),
        None => true,
    };
    let before = match until {
        Some(hi) => t.at_or_before(hi),
        None => true,
    };
    after && before
}

/// The rows whose creation time lies within the bounds, in their order.
pub fn filter_rows(
    rows: &Vec<ContentItem>,
    since: &Option<Timestamp>,
    until: &Option<Timestamp>,
) -> (kept: Vec<ContentItem>)
    ensures
        items_view(kept@) == matching(items_view(rows@), *since, *until),
{
    let ghost all = items_view(rows@);
    let mut kept: Vec<ContentItem> = Vec::new();
    let mut i: usize = 0;
    assert(items_view(kept@) =~= matching(all.take(0), *since, *until));
    while i < rows.len()
        invariant
            i <= rows.len(),
            all == items_view(rows@),
            items_view(kept@) == matching(all.take(i as int), *since, *until),
        decreases rows.len() - i,
    {
        let ghost before = items_view(kept@);
        assert(all.take(i as int + 1).drop_last() =~= all.take(i as int));
        assert(all.take(i as int + 1).last() == rows@[i as int]@);
        if within(&rows[i].created_at, since, until) {
            let item = rows[i].clone();
            kept.push(item);
            assert(items_view(kept@) =~= before.push(rows@[i as int]@));
        }
        i = i + 1;
    }
    assert(all.take(i as int) =~= all);
    kept
}

/// Whether `a` is listed before `b`.
pub fn is_newer(a: &ContentItem, b: &ContentItem) -> (r: bool)
    ensures
        r == newer(a@, b@),
{
    !a.created_at.at_or_before(&b.created_at) || (a.created_at == b.created_at && a.id > b.id)
}

/// The position of the item to list first.
pub fn find_newest(items: &Vec<ContentItem>) -> (best: usize)
    requires
        items.len() > 0,
    ensures
        best == newest_index(items_view(items@)),
        best < items.len(),
{
    let ghost all = items_view(items@);
    let mut best: usize = 0;
    let mut i: usize = 1;
    assert(all.take(1).len() == 1);
    while i < items.len()
        invariant
            1 <= i <= items.len(),
            best < i,
            all == items_view(items@),
            best == newest_index(all.take(i as int)),
        decreases items.len() - i,
    {
        assert(all.take(i as int + 1).drop_last() =~= all.take(i as int));
        assert(all.take(i as int + 1).last() == items@[i as int]@);
        assert(all.take(i as int + 1)[best as int] == items@[best as int]@);
        if is_newer(&items[i], &items[best]) {
            best = i;
        }
        i = i + 1;
    }
    assert(all.take(i as int) =~= all);
    best
}

/// Puts the items in listing order: newest first, ties broken by the larger
/// identifier.
pub fn rank_items(items: Vec<ContentItem>) -> (out: Vec<ContentItem>)
    ensures
        items_view(out@) == ranked(items_view(items@)),
{
    let ghost all = items_view(items@);
    let mut work = items;
    let mut out: Vec<ContentItem> = Vec::new();
    assert(items_view(out@) + ranked(items_view(work@)) =~= ranked(all));
    while work.len() > 0
        invariant
            items_view(out@) + ranked(items_view(work@)) == ranked(all),
        decreases work.len(),
    {
        let ghost done = items_view(out@);
        let ghost left = items_view(work@);
        let i = find_newest(&work);
        let item = work.remove(i);
        out.push(item);
        assert(items_view(work@) =~= left.remove(i as int));
        assert(items_view(out@) =~= done.push(left[i as int]));
        assert(items_view(out@) + ranked(items_view(work@)) =~= done + ranked(left));
    }
    assert(ranked(items_view(work@)) =~= Seq::<ContentItemView>::empty());
    assert(items_view(out@) =~= ranked(all));
    out
}

/// Cuts a page out of an ordered listing.
pub fn take_page(full: Vec<ContentItem>, offset: u32, limit: u32) -> (items: Vec<ContentItem>)
    ensures
        items_view(items@) == page(items_view(full@), offset as nat, limit as nat),
{
    let ghost all = items_view(full@);
    let mut head = full;
    let start = if (offset as usize) < head.len() {
        offset as usize
    } else {
        head.len()
    };
    let mut items = head.split_off(start);
    items.truncate(limit as usize);
    assert(items_view(items@) =~= page(all, offset as nat, limit as nat));
    items
}

/// Lists `rows`: filters by the bounds, orders newest first, skips the
/// offset and takes the limit. The total counts what matches the bounds,
/// whatever the page.
pub fn select_page(rows: &Vec<ContentItem>, params: &ListContentParams) -> (result:
    ListContentResult)
    ensures
        items_view(result.items@) == listed(items_view(rows@), *params),
        result.total == matching(items_view(rows@), params.since, params.until).len(),
{
    let kept = filter_rows(rows, &params.since, &params.until);
    let total = kept.len() as u64;
    let full = rank_items(kept);
    let items = take_page(full, params.effective_offset(), params.effective_limit());
    ListContentResult { items, total }
}

} // verus!
