//! The idempotent-or-conflicting create protocol: a submission is reduced to
//! its canonical form, looked up by canonical URL, and then either inserted,
//! answered with the identifier of the identical stored item, or refused as
//! a conflict. The store's replies drive the protocol step by step, so that a
//! lost race on insert is resolved by fetching the winner and comparing.

use crate::errors::{ApiError, ApiErrorView};
use crate::models::{
    reduced, same_text, ContentItem, ContentItemView, NewContentItem, NewContentItemView,
    Timestamp,
};
use crate::repositories::{
    found_by_url, lemma_found_after_push, lemma_found_by_url, lemma_push_valid, stored,
    valid_rows, MemoryContentRepository, StoreError,
};
use crate::text::text_of;
use vstd::prelude::*;

verus! {

/// Which reply of the store the protocol is waiting for.
#[derive(Debug, Clone, Copy, PartialEq, Eq, Structural)]
pub enum IngestState {
    /// The lookup by canonical URL before any insert.
    Lookup,
    /// The insert of the new item.
    Insert,
    /// The lookup after the store refused the insert as a duplicate.
    Refetch,
}

/// What the store replied.
#[derive(Debug, Clone, PartialEq, Eq)]
pub enum StoreReply {
    /// A lookup found this item.
    Found(ContentItem),
    /// A lookup found nothing.
    Missing,
    /// The insert stored this item.
    Created(ContentItem),
    /// The insert was refused: the canonical URL is stored already.
    UniqueViolation,
    /// The store failed; holds the detail.
    Fault(String),
}

/// `StoreReply` over character sequences.
pub enum StoreReplyView {
    Found(ContentItemView),
    Missing,
    Created(ContentItemView),
    UniqueViolation,
    Fault(Seq<char>),
}

impl View for StoreReply {
    type V = StoreReplyView;

    open spec fn view(&self) -> StoreReplyView {
        match self {
            StoreReply::Found(item) => StoreReplyView::Found(item@),
            StoreReply::Missing => StoreReplyView::Missing,
            StoreReply::Created(item) => StoreReplyView::Created(item@),
            StoreReply::UniqueViolation => StoreReplyView::UniqueViolation,
            StoreReply::Fault(detail) => StoreReplyView::Fault(detail@),
        }
    }
}

/// What the protocol does next.
#[derive(Debug, PartialEq, Eq)]
pub enum IngestAction {
    /// Insert the new item, then wait for the reply in `IngestState::Insert`.
    Create,
    /// Look the canonical URL up again, then wait in `IngestState::Refetch`.
    Refetch,
    /// Answer the submission: the identifier, or the failure.
    Respond(Result<i32, ApiError>),
}

/// An answer over character sequences.
pub open spec fn answer_view(r: Result<i32, ApiError>) -> Result<i32, ApiErrorView> {
    match r {
        Ok(id) => Ok(id),
        Err(e) => Err(e@),
    }
}

/// `IngestAction` over character sequences.
pub enum IngestActionView {
    Create,
    Refetch,
    Respond(Result<i32, ApiErrorView>),
}

impl View for IngestAction {
    type V = IngestActionView;

    open spec fn view(&self) -> IngestActionView {
        match self {
            IngestAction::Create => IngestActionView::Create,
            IngestAction::Refetch => IngestActionView::Refetch,
            IngestAction::Respond(r) => IngestActionView::Respond(answer_view(*r)),
        }
    }
}

/// Whether a stored item has exactly the metadata of a submission: title,
/// author and body are compared field by field, absent equal to absent.
pub open spec fn same_metadata(existing: ContentItemView, new: NewContentItemView) -> bool {
    existing.title == new.title && existing.author == new.author && existing.body == new.body
}

/// The answer when the canonical URL is stored already: the stored
/// identifier if the metadata is identical, else a conflict.
pub open spec fn compared(existing: ContentItemView, new: NewContentItemView) -> Result<
    i32,
    ApiErrorView,
> {
    if same_metadata(existing, new) {
        Ok(existing.id)
    } else {
        Err(ApiErrorView::DuplicateUrlDifferentMetadata)
    }
}

/// The step that follows a reply of the store. A reply that does not fit the
/// state is answered as an internal error.
pub open spec fn action_for(
    state: IngestState,
    new: NewContentItemView,
    reply: StoreReplyView,
) -> IngestActionView {
    match reply {
        StoreReplyView::Fault(detail) => IngestActionView::Respond(
            Err(ApiErrorView::DatabaseError(detail)),
        ),
        StoreReplyView::Found(item) => if state is Insert {
            IngestActionView::Respond(Err(ApiErrorView::InternalError))
        } else {
            IngestActionView::Respond(compared(item, new))
        },
        StoreReplyView::Missing => if state is Lookup {
            IngestActionView::Create
        } else {
            IngestActionView::Respond(Err(ApiErrorView::InternalError))
        },
        StoreReplyView::Created(item) => if state is Insert {
            IngestActionView::Respond(Ok(item.id))
        } else {
            IngestActionView::Respond(Err(ApiErrorView::InternalError))
        },
        StoreReplyView::UniqueViolation => if state is Insert {
            IngestActionView::Refetch
        } else {
            IngestActionView::Respond(Err(ApiErrorView::InternalError))
        },
    }
}

/// Compares a stored item with a submission of the same canonical URL.
pub fn compare_metadata(existing: &ContentItem, new: &NewContentItem) -> (r: Result<i32, ApiError>)
    ensures
        answer_view(r) == compared(existing@, new@),
{
    if !same_text(&existing.title, &new.title) {
        return Err(ApiError::DuplicateUrlDifferentMetadata);
    }
    if !same_text(&existing.author, &new.author) {
        return Err(ApiError::DuplicateUrlDifferentMetadata);
    }
    if !same_text(&existing.body, &new.body) {
        return Err(ApiError::DuplicateUrlDifferentMetadata);
    }
    Ok(existing.id)
}

/// Decides the next step of the protocol from the state it waits in and the
/// reply of the store.
pub fn next_action(state: IngestState, new: &NewContentItem, reply: StoreReply) -> (action:
    IngestAction)
    ensures
        action@ == action_for(state, new@, reply@),
{
    match reply {
        StoreReply::Fault(detail) => IngestAction::Respond(Err(ApiError::DatabaseError(detail))),
        StoreReply::Found(item) => match state {
            IngestState::Insert => IngestAction::Respond(Err(ApiError::InternalError)),
            _ => IngestAction::Respond(compare_metadata(&item, new)),
        },
        StoreReply::Missing => match state {
            IngestState::Lookup => IngestAction::Create,
            _ => IngestAction::Respond(Err(ApiError::InternalError)),
        },
        StoreReply::Created(item) => match state {
            IngestState::Insert => IngestAction::Respond(Ok(item.id)),
            _ => IngestAction::Respond(Err(ApiError::InternalError)),
        },
        StoreReply::UniqueViolation => match state {
            IngestState::Insert => IngestAction::Refetch,
            _ => IngestAction::Respond(Err(ApiError::InternalError)),
        },
    }
}

/// What a submission leaves behind: the answer, the rows of the store and
/// the store's next identifier.
pub struct Outcome {
    pub answer: Result<i32, ApiErrorView>,
    pub rows: Seq<ContentItemView>,
    pub next_id: int,
}

/// The detail of the fault that an insert into a full store gives.
pub open spec fn exhausted_detail() -> Seq<char> {
    "no identifier left to assign"@
}

/// What submitting a reduced item to a store leaves behind.
pub open spec fn submitted(
    rows: Seq<ContentItemView>,
    next_id: int,
    new: NewContentItemView,
    created_at: Timestamp,
) -> Outcome {
    match found_by_url(rows, new.url) {
        Some(existing) => Outcome { answer: compared(existing, new), rows, next_id },
        None => if next_id < i32::MAX {
            Outcome {
                answer: Ok(next_id as i32),
                rows: rows.push(stored(new, next_id as i32, created_at)),
                next_id: next_id + 1,
            }
        } else {
            Outcome { answer: Err(ApiErrorView::DatabaseError(exhausted_detail())), rows, next_id }
        },
    }
}

/// What ingesting a raw submission leaves behind.
pub open spec fn ingested(
    rows: Seq<ContentItemView>,
    next_id: int,
    url: Seq<char>,
    title: Option<Seq<char>>,
    author: Option<Seq<char>>,
    body: Option<Seq<char>>,
    created_at: Timestamp,
) -> Outcome {
    match reduced(url, title, author, body) {
        Ok(new) => submitted(rows, next_id, new, created_at),
        Err(e) => Outcome { answer: Err(ApiErrorView::ValidationError(e)), rows, next_id },
    }
}

/// A submission keeps the store valid.
pub proof fn lemma_submitted_valid(
    rows: Seq<ContentItemView>,
    next_id: int,
    new: NewContentItemView,
    created_at: Timestamp,
)
    requires
        valid_rows(rows, next_id),
    ensures
        valid_rows(
            submitted(rows, next_id, new, created_at).rows,
            submitted(rows, next_id, new, created_at).next_id,
        ),
{
    if found_by_url(rows, new.url) is None && next_id < i32::MAX {
        lemma_push_valid(rows, next_id, stored(new, next_id as i32, created_at));
    }
}

/// The identifier that a submission is answered with is positive.
pub proof fn lemma_submitted_id_positive(
    rows: Seq<ContentItemView>,
    next_id: int,
    new: NewContentItemView,
    created_at: Timestamp,
)
    requires
        valid_rows(rows, next_id),
    ensures
        submitted(rows, next_id, new, created_at).answer matches Ok(id) ==> id > 0,
{
    lemma_found_by_url(rows, new.url);
    match found_by_url(rows, new.url) {
        Some(existing) => {
            let k = choose|k: int| 0 <= k < rows.len() && rows[k] == existing;
            assert(rows[k].id > 0);
        },
        None => {},
    }
}

/// After a successful submission the item is stored under its canonical URL
/// with exactly the submitted metadata and the identifier that was answered.
pub proof fn lemma_submitted_is_stored(
    rows: Seq<ContentItemView>,
    next_id: int,
    new: NewContentItemView,
    created_at: Timestamp,
)
    requires
        valid_rows(rows, next_id),
        submitted(rows, next_id, new, created_at).answer is Ok,
    ensures
        ({
            let first = submitted(rows, next_id, new, created_at);
            &&& found_by_url(first.rows, new.url) matches Some(item)
            &&& item.id == first.answer->Ok_0
            &&& item.url == new.url
            &&& same_metadata(item, new)
        }),
{
    lemma_found_by_url(rows, new.url);
    if found_by_url(rows, new.url) is None {
        lemma_found_after_push(rows, stored(new, next_id as i32, created_at), new.url);
    }
}

/// Idempotent ingestion: submitting the same reduced item a second time
/// answers the same identifier and leaves the store as the first submission
/// left it, with one row for the canonical URL.
pub proof fn lemma_submit_twice(
    rows: Seq<ContentItemView>,
    next_id: int,
    new: NewContentItemView,
    first_at: Timestamp,
    second_at: Timestamp,
)
    requires
        valid_rows(rows, next_id),
        submitted(rows, next_id, new, first_at).answer is Ok,
    ensures
        ({
            let first = submitted(rows, next_id, new, first_at);
            let second = submitted(first.rows, first.next_id, new, second_at);
            &&& second.answer == first.answer
            &&& second.rows == first.rows
            &&& second.next_id == first.next_id
            &&& valid_rows(first.rows, first.next_id)
        }),
{
    lemma_submitted_is_stored(rows, next_id, new, first_at);
    lemma_submitted_valid(rows, next_id, new, first_at);
}

/// Conflict detection: after a successful submission, a submission of the
/// same canonical URL whose title, author or body differs is refused as a
/// conflict, and the store stays exactly as it was.
pub proof fn lemma_submit_conflict(
    rows: Seq<ContentItemView>,
    next_id: int,
    new: NewContentItemView,
    other: NewContentItemView,
    first_at: Timestamp,
    second_at: Timestamp,
)
    requires
        valid_rows(rows, next_id),
        submitted(rows, next_id, new, first_at).answer is Ok,
        other.url == new.url,
        other.title != new.title || other.author != new.author || other.body != new.body,
    ensures
        ({
            let first = submitted(rows, next_id, new, first_at);
            let second = submitted(first.rows, first.next_id, other, second_at);
            &&& second.answer == Err::<i32, ApiErrorView>(
                ApiErrorView::DuplicateUrlDifferentMetadata,
            )
            &&& second.rows == first.rows
            &&& second.next_id == first.next_id
        }),
{
    lemma_submitted_is_stored(rows, next_id, new, first_at);
}

/// Idempotent ingestion, from raw submissions: two submissions that reduce
/// to the same canonical URL and the same stored metadata get the same
/// identifier, and the second changes nothing.
pub proof fn lemma_ingest_twice(
    rows: Seq<ContentItemView>,
    next_id: int,
    first_url: Seq<char>,
    second_url: Seq<char>,
    title: Option<Seq<char>>,
    author: Option<Seq<char>>,
    body: Option<Seq<char>>,
    first_at: Timestamp,
    second_at: Timestamp,
)
    requires
        valid_rows(rows, next_id),
        reduced(first_url, title, author, body) == reduced(second_url, title, author, body),
        ingested(rows, next_id, first_url, title, author, body, first_at).answer is Ok,
    ensures
        ({
            let first = ingested(rows, next_id, first_url, title, author, body, first_at);
            let second = ingested(
                first.rows,
                first.next_id,
                second_url,
                title,
                author,
                body,
                second_at,
            );
            &&& second.answer == first.answer
            &&& second.rows == first.rows
            &&& second.next_id == first.next_id
        }),
{
    let new = reduced(first_url, title, author, body)->Ok_0;
    lemma_submit_twice(rows, next_id, new, first_at, second_at);
}

/// Ingests a submission into the store: validation failures are passed on,
/// an unknown canonical URL is inserted with the next identifier and the
/// given creation time, a known one is answered with the stored identifier
/// if the metadata is identical and refused as a conflict otherwise.
pub fn ingest(
    repo: &mut MemoryContentRepository,
    url: String,
    title: Option<String>,
    author: Option<String>,
    body: Option<String>,
    created_at: Timestamp,
) -> (r: Result<i32, ApiError>)
    requires
        old(repo).wf(),
    ensures
        final(repo).wf(),
        ({
            let outcome = ingested(
                old(repo).rows(),
                old(repo).next_id_of(),
                url@,
                text_of(title),
                text_of(author),
                text_of(body),
                created_at,
            );
            &&& answer_view(r) == outcome.answer
            &&& final(repo).rows() == outcome.rows
            &&& final(repo).next_id_of() == outcome.next_id
        }),
{
    let new = match NewContentItem::new(url, title, author, body) {
        Ok(new) => new,
        Err(e) => {
            return Err(ApiError::ValidationError(e));
        },
    };
    let reply = match repo.find_by_url(new.url.as_str()) {
        Some(item) => StoreReply::Found(item),
        None => StoreReply::Missing,
    };
    match next_action(IngestState::Lookup, &new, reply) {
        IngestAction::Respond(answer) => answer,
        IngestAction::Refetch => Err(ApiError::InternalError),
        IngestAction::Create => {
            let reply = match repo.create(&new, created_at) {
                Ok(item) => StoreReply::Created(item),
                Err(StoreError::UniqueViolation) => StoreReply::UniqueViolation,
                Err(StoreError::Exhausted) => StoreReply::Fault(
                    String::from_str("no identifier left to assign"),
                ),
            };
            match next_action(IngestState::Insert, &new, reply) {
                IngestAction::Respond(answer) => answer,
                IngestAction::Create => Err(ApiError::InternalError),
                IngestAction::Refetch => {
                    let reply = match repo.find_by_url(new.url.as_str()) {
                        Some(item) => StoreReply::Found(item),
                        None => StoreReply::Missing,
                    };
                    match next_action(IngestState::Refetch, &new, reply) {
                        IngestAction::Respond(answer) => answer,
                        _ => Err(ApiError::InternalError),
                    }
                },
            }
        },
    }
}

} // verus!
