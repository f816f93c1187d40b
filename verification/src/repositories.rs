//! The content store: lookup by canonical URL, insert, lookup by
//! identifier and filtered, paginated listing, with an in-memory store that
//! enforces the uniqueness of canonical URLs and assigns ascending
//! identifiers.

use crate::listing::{
    distinct_ids, items_view, listed, matching, select_page, ListContentParams,
    ListContentResult,
};
use crate::models::{
    copy_text, ContentItem, ContentItemView, NewContentItem, NewContentItemView, Timestamp,
};
use crate::text::str_equal;
use vstd::prelude::*;

verus! {

/// Why the store refused an insert.
#[derive(Debug, Clone, Copy, PartialEq, Eq, Structural)]
pub enum StoreError {
    /// An item with the same canonical URL is stored already.
    UniqueViolation,
    /// No identifier is left to assign.
    Exhausted,
}

/// The row with the given canonical URL: the first one, if any.
pub open spec fn found_by_url(rows: Seq<ContentItemView>, url: Seq<char>) -> Option<
    ContentItemView,
>
    decreases rows.len(),
{
    if rows.len() == 0 {
        None
    } else if rows[0].url == url {
        Some(rows[0])
    } else {
        found_by_url(rows.drop_first(), url)
    }
}

/// The row with the given identifier: the first one, if any.
pub open spec fn found_by_id(rows: Seq<ContentItemView>, id: i32) -> Option<ContentItemView>
    decreases rows.len(),
{
    if rows.len() == 0 {
        None
    } else if rows[0].id == id {
        Some(rows[0])
    } else {
        found_by_id(rows.drop_first(), id)
    }
}

/// What a store with `next_id` as its next identifier may hold: identifiers
/// are positive, below the next one and ascend in insertion order, and no
/// canonical URL occurs twice.
pub open spec fn valid_rows(rows: Seq<ContentItemView>, next_id: int) -> bool {
    &&& 1 <= next_id <= i32::MAX
    &&& forall|i: int| 0 <= i < rows.len() ==> 0 < (#[trigger] rows[i]).id < next_id
    &&& forall|i: int, j: int|
        0 <= i < j < rows.len() ==> (#[trigger] rows[i]).id < (#[trigger] rows[j]).id
    &&& forall|i: int, j: int|
        0 <= i < j < rows.len() ==> (#[trigger] rows[i]).url != (#[trigger] rows[j]).url
}

/// The row that an insert stores.
pub open spec fn stored(new: NewContentItemView, id: i32, created_at: Timestamp) -> ContentItemView {
    ContentItemView {
        id,
        url: new.url,
        title: new.title,
        author: new.author,
        created_at,
        body: new.body,
    }
}

/// A row is found under its URL exactly when some row has that URL, and
/// what is found has the URL.
pub proof fn lemma_found_by_url(rows: Seq<ContentItemView>, url: Seq<char>)
    ensures
        match found_by_url(rows, url) {
            Some(item) => item.url == url && rows.contains(item),
            None => forall|i: int| 0 <= i < rows.len() ==> (#[trigger] rows[i]).url != url,
        },
    decreases rows.len(),
{
    if rows.len() > 0 {
        if rows[0].url == url {
            assert(rows[0] == rows[0]);
        } else {
            let t = rows.drop_first();
            lemma_found_by_url(t, url);
            match found_by_url(t, url) {
                Some(item) => {
                    let k = choose|k: int| 0 <= k < t.len() && t[k] == item;
                    assert(rows[k + 1] == item);
                },
                None => {
                    assert forall|i: int| 0 <= i < rows.len() implies (#[trigger] rows[i]).url
                        != url by {
                        if i > 0 {
                            assert(t[i - 1] == rows[i]);
                        }
                    }
                },
            }
        }
    }
}

/// Lookup after an insert: the new row is found under its URL if no row had
/// that URL before, and every other lookup finds what it found before.
pub proof fn lemma_found_after_push(rows: Seq<ContentItemView>, x: ContentItemView, url: Seq<char>)
    ensures
        found_by_url(rows.push(x), url) == if found_by_url(rows, url) is Some {
            found_by_url(rows, url)
        } else if x.url == url {
            Some(x)
        } else {
            None
        },
    decreases rows.len(),
{
    let r = rows.push(x);
    if rows.len() == 0 {
        assert(r.drop_first() =~= Seq::<ContentItemView>::empty());
    } else {
        assert(r[0] == rows[0]);
        assert(r.drop_first() =~= rows.drop_first().push(x));
        lemma_found_after_push(rows.drop_first(), x, url);
    }
}

/// An insert of a new URL with the next identifier keeps the rows valid.
pub proof fn lemma_push_valid(rows: Seq<ContentItemView>, next_id: int, x: ContentItemView)
    requires
        valid_rows(rows, next_id),
        next_id < i32::MAX,
        x.id == next_id,
        found_by_url(rows, x.url) is None,
    ensures
        valid_rows(rows.push(x), next_id + 1),
{
    let r = rows.push(x);
    lemma_found_by_url(rows, x.url);
    assert forall|i: int| 0 <= i < r.len() implies 0 < (#[trigger] r[i]).id < next_id + 1 by {
        if i < rows.len() {
            assert(r[i] == rows[i]);
        }
    }
    assert forall|i: int, j: int| 0 <= i < j < r.len() implies (#[trigger] r[i]).id < (
    #[trigger] r[j]).id by {
        assert(r[i] == rows[i]);
        if j < rows.len() {
            assert(r[j] == rows[j]);
        }
    }
    assert forall|i: int, j: int| 0 <= i < j < r.len() implies (#[trigger] r[i]).url != (
    #[trigger] r[j]).url by {
        assert(r[i] == rows[i]);
        if j < rows.len() {
            assert(r[j] == rows[j]);
        }
    }
}

/// The rows of a store have distinct identifiers, so that consecutive pages
/// of its listings share none.
pub proof fn lemma_valid_rows_distinct_ids(rows: Seq<ContentItemView>, next_id: int)
    requires
        valid_rows(rows, next_id),
    ensures
        distinct_ids(rows),
{
}

/// An in-memory content store.
#[derive(Debug)]
pub struct MemoryContentRepository {
    items: Vec<ContentItem>,
    next_id: i32,
}

impl MemoryContentRepository {
    /// The stored rows, in insertion order.
    pub closed spec fn rows(&self) -> Seq<ContentItemView> {
        items_view(self.items@)
    }

    /// The identifier that the next insert assigns.
    pub closed spec fn next_id_of(&self) -> int {
        self.next_id as int
    }

    /// The store's invariant.
    pub open spec fn wf(&self) -> bool {
        valid_rows(self.rows(), self.next_id_of())
    }

    /// An empty store, whose first identifier is 1.
    pub fn new() -> (repo: Self)
        ensures
            repo.wf(),
            repo.rows() == Seq::<ContentItemView>::empty(),
            repo.next_id_of() == 1,
    {
        let repo = MemoryContentRepository { items: Vec::new(), next_id: 1 };
        assert(repo.rows() =~= Seq::<ContentItemView>::empty());
        repo
    }

    /// The number of stored rows.
    pub fn len(&self) -> (n: usize)
        ensures
            n == self.rows().len(),
    {
        self.items.len()
    }

    /// Looks an item up by its canonical URL.
    pub fn find_by_url(&self, url: &str) -> (r: Option<ContentItem>)
        ensures
            match r {
                Some(item) => found_by_url(self.rows(), url@) == Some(item@),
                None => found_by_url(self.rows(), url@) is None,
            },
    {
        let ghost all = self.rows();
        let mut i: usize = 0;
        assert(all.skip(0) =~= all);
        while i < self.items.len()
            invariant
                i <= self.items.len(),
                all == items_view(self.items@),
                found_by_url(all, url@) == found_by_url(all.skip(i as int), url@),
            decreases self.items.len() - i,
        {
            assert(all.skip(i as int)[0] == self.items@[i as int]@);
            if str_equal(self.items[i].url.as_str(), url) {
                return Some(self.items[i].clone());
            }
            assert(all.skip(i as int).drop_first() =~= all.skip(i as int + 1));
            i = i + 1;
        }
        None
    }

    /// Looks an item up by its identifier.
    pub fn find_by_id(&self, id: i32) -> (r: Option<ContentItem>)
        ensures
            match r {
                Some(item) => found_by_id(self.rows(), id) == Some(item@),
                None => found_by_id(self.rows(), id) is None,
            },
    {
        let ghost all = self.rows();
        let mut i: usize = 0;
        assert(all.skip(0) =~= all);
        while i < self.items.len()
            invariant
                i <= self.items.len(),
                all == items_view(self.items@),
                found_by_id(all, id) == found_by_id(all.skip(i as int), id),
            decreases self.items.len() - i,
        {
            assert(all.skip(i as int)[0] == self.items@[i as int]@);
            if self.items[i].id == id {
                return Some(self.items[i].clone());
            }
            assert(all.skip(i as int).drop_first() =~= all.skip(i as int + 1));
            i = i + 1;
        }
        None
    }

    /// Inserts a new item with the next identifier and the given creation
    /// time. An item whose canonical URL is stored already is refused, and
    /// the store stays as it is.
    pub fn create(&mut self, content: &NewContentItem, created_at: Timestamp) -> (r: Result<
        ContentItem,
        StoreError,
    >)
        requires
            old(self).wf(),
        ensures
            final(self).wf(),
            match r {
                Ok(item) => {
                    &&& found_by_url(old(self).rows(), content@.url) is None
                    &&& old(self).next_id_of() < i32::MAX
                    &&& item@ == stored(content@, old(self).next_id_of() as i32, created_at)
                    &&& final(self).rows() == old(self).rows().push(item@)
                    &&& final(self).next_id_of() == old(self).next_id_of() + 1
                },
                Err(e) => {
                    &&& final(self).rows() == old(self).rows()
                    &&& final(self).next_id_of() == old(self).next_id_of()
                    &&& e == if found_by_url(old(self).rows(), content@.url) is Some {
                        StoreError::UniqueViolation
                    } else {
                        StoreError::Exhausted
                    }
                    &&& e == StoreError::Exhausted ==> old(self).next_id_of() == i32::MAX
                },
            },
    {
        if self.find_by_url(content.url.as_str()).is_some() {
            return Err(StoreError::UniqueViolation);
        }
        if self.next_id == i32::MAX {
            return Err(StoreError::Exhausted);
        }
        let item = ContentItem {
            id: self.next_id,
            url: content.url.clone(),
            title: copy_text(&content.title),
            author: copy_text(&content.author),
            created_at,
            body: copy_text(&content.body),
        };
        let copy = item.clone();
        proof {
            lemma_push_valid(self.rows(), self.next_id as int, item@);
        }
        let ghost before = self.rows();
        self.items.push(item);
        self.next_id = self.next_id + 1;
        assert(self.rows() =~= before.push(copy@));
        Ok(copy)
    }

    /// Lists the stored items: filtered by the bounds, newest first, one
    /// page, with the count of all items that match the bounds.
    pub fn list(&self, params: &ListContentParams) -> (result: ListContentResult)
        ensures
            items_view(result.items@) == listed(self.rows(), *params),
            result.total == matching(self.rows(), params.since, params.until).len(),
    {
        select_page(&self.items, params)
    }
}

} // verus!
