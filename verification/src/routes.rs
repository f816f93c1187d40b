//! The request handlers of the content API, from plain values to plain
//! values: query parameters are validated, the store is asked, and the
//! response is assembled.

use crate::errors::{ApiError, ApiErrorView};
use crate::ingest::{ingest, ingested, lemma_submitted_id_positive};
use crate::listing::{
    items_view, listed, matching, ListContentParams, ListContentResult, DEFAULT_LIMIT,
};
use crate::models::{copy_text, reduced, ContentItem, ContentItemView, Timestamp};
use crate::repositories::{found_by_id, MemoryContentRepository};
use crate::text::{chars_of, text_of};
use chrono::DateTime;
use vstd::prelude::*;

verus! {

/// The body of a submission.
#[derive(Debug, Clone, PartialEq, Eq)]
pub struct AddContentRequest {
    pub url: String,
    pub title: Option<String>,
    pub author: Option<String>,
    pub body: Option<String>,
}

/// The answer to a submission that was stored or matched.
#[derive(Debug, Clone, Copy, PartialEq, Eq, Structural)]
pub struct ContentResponse {
    pub id: u32,
}

/// The query parameters of a listing, as they were written.
#[derive(Debug, Clone, PartialEq, Eq)]
pub struct ListContentQuery {
    pub limit: Option<String>,
    pub offset: Option<String>,
    /// RFC 3339 date-time.
    pub since: Option<String>,
    /// RFC 3339 date-time.
    pub until: Option<String>,
}

/// `ListContentQuery` over character sequences.
pub struct ListContentQueryView {
    pub limit: Option<Seq<char>>,
    pub offset: Option<Seq<char>>,
    pub since: Option<Seq<char>>,
    pub until: Option<Seq<char>>,
}

impl View for ListContentQuery {
    type V = ListContentQueryView;

    open spec fn view(&self) -> ListContentQueryView {
        ListContentQueryView {
            limit: text_of(self.limit),
            offset: text_of(self.offset),
            since: text_of(self.since),
            until: text_of(self.until),
        }
    }
}

/// One item of a listing: the item without its body.
#[derive(Debug, Clone, PartialEq, Eq)]
pub struct ContentSummary {
    pub id: i32,
    pub url: String,
    pub title: Option<String>,
    pub author: Option<String>,
    pub created_at: Timestamp,
}

/// `ContentSummary` over character sequences.
pub struct ContentSummaryView {
    pub id: i32,
    pub url: Seq<char>,
    pub title: Option<Seq<char>>,
    pub author: Option<Seq<char>>,
    pub created_at: Timestamp,
}

impl View for ContentSummary {
    type V = ContentSummaryView;

    open spec fn view(&self) -> ContentSummaryView {
        ContentSummaryView {
            id: self.id,
            url: self.url@,
            title: text_of(self.title),
            author: text_of(self.author),
            created_at: self.created_at,
        }
    }
}

/// The answer to a listing.
#[derive(Debug, Clone, PartialEq, Eq)]
pub struct ListContentResponse {
    pub items: Vec<ContentSummary>,
    /// How many items match the bounds, whatever the page.
    pub total: u64,
    /// The page size that was asked for, or the default.
    pub limit: u32,
}

/// The value of a decimal digit.
pub open spec fn digit_value(c: char) -> Option<nat> {
    if c == '0' {
        Some(0)
    } else if c == '1' {
        Some(1)
    } else if c == '2' {
        Some(2)
    } else if c == '3' {
        Some(3)
    } else if c == '4' {
        Some(4)
    } else if c == '5' {
        Some(5)
    } else if c == '6' {
        Some(6)
    } else if c == '7' {
        Some(7)
    } else if c == '8' {
        Some(8)
    } else if c == '9' {
        Some(9)
    } else {
        None
    }
}

/// The number that a non-empty run of decimal digits writes.
pub open spec fn decimal_value(s: Seq<char>) -> Option<nat>
    decreases s.len(),
{
    if s.len() == 0 {
        None
    } else {
        match digit_value(s.last()) {
            None => None,
            Some(d) => if s.len() == 1 {
                Some(d)
            } else {
                match decimal_value(s.drop_last()) {
                    Some(v) => Some(v * 10 + d),
                    None => None,
                }
            },
        }
    }
}

/// The unsigned number that a parameter writes: decimal digits, with an
/// optional `+` in front, of a value that fits 32 bits. Anything else, a sign
/// or a blank among it, is no number.
pub open spec fn parsed_u32(s: Seq<char>) -> Option<u32> {
    let digits = if s.len() > 0 && s[0] == '+' {
        s.skip(1)
    } else {
        s
    };
    match decimal_value(digits) {
        Some(v) => if v <= u32::MAX {
            Some(v as u32)
        } else {
            None
        },
        None => None,
    }
}

/// The value of a decimal digit.
pub fn digit_of(c: char) -> (r: Option<u32>)
    ensures
        match r {
            Some(d) => digit_value(c) == Some(d as nat) && d < 10,
            None => digit_value(c) is None,
        },
{
    if c == '0' {
        Some(0)
    } else if c == '1' {
        Some(1)
    } else if c == '2' {
        Some(2)
    } else if c == '3' {
        Some(3)
    } else if c == '4' {
        Some(4)
    } else if c == '5' {
        Some(5)
    } else if c == '6' {
        Some(6)
    } else if c == '7' {
        Some(7)
    } else if c == '8' {
        Some(8)
    } else if c == '9' {
        Some(9)
    } else {
        None
    }
}

/// Reads an unsigned 32-bit number from a parameter.
pub fn parse_u32(text: &str) -> (r: Option<u32>)
    ensures
        r == parsed_u32(text@),
{
    let chars = chars_of(text);
    let start: usize = if chars.len() > 0 && chars[0] == '+' {
        1
    } else {
        0
    };
    let ghost digits = chars@.skip(start as int);
    assert(chars@.skip(0) =~= chars@);
    assert(digits == if text@.len() > 0 && text@[0] == '+' {
        text@.skip(1)
    } else {
        text@
    });
    if start == chars.len() {
        return None;
    }
    let mut value: u64 = 0;
    let mut too_large = false;
    let ghost mut exact: nat = 0;
    let mut i: usize = start;
    while i < chars.len()
        invariant
            start <= i <= chars.len(),
            start < chars.len(),
            digits == chars@.skip(start as int),
            digits == if text@.len() > 0 && text@[0] == '+' {
                text@.skip(1)
            } else {
                text@
            },
            i > start ==> decimal_value(digits.take(i - start)) == Some(exact),
            i == start ==> exact == 0,
            too_large <==> exact > u32::MAX,
            !too_large ==> value == exact,
        decreases chars.len() - i,
    {
        let d = match digit_of(chars[i]) {
            Some(d) => d,
            None => {
                proof {
                    lemma_not_decimal(digits, i - start);
                }
                return None;
            },
        };
        proof {
            let prefix = digits.take(i - start + 1);
            assert(prefix.last() == chars@[i as int]);
            assert(prefix.drop_last() =~= digits.take(i - start));
            exact = exact * 10 + d as nat;
        }
        if !too_large {
            value = value * 10 + d as u64;
            if value > u32::MAX as u64 {
                too_large = true;
            }
        }
        i = i + 1;
    }
    assert(digits.take(i - start) =~= digits);
    if too_large {
        None
    } else {
        Some(value as u32)
    }
}

/// A sequence with something other than a digit in it writes no number.
pub proof fn lemma_not_decimal(s: Seq<char>, k: int)
    requires
        0 <= k < s.len(),
        digit_value(s[k]) is None,
    ensures
        decimal_value(s) is None,
    decreases s.len(),
{
    if k < s.len() - 1 {
        lemma_not_decimal(s.drop_last(), k);
    }
}

/// The instant that an RFC 3339 date-time names, if the text is one.
pub uninterp spec fn rfc3339_instant(text: Seq<char>) -> Option<Timestamp>;

/// `chrono::DateTime::parse_from_rfc3339`, with the instant read as UTC
/// seconds (`timestamp`) and nanoseconds (`timestamp_subsec_nanos`). The
/// parser is a function of its input: the same text always names the same
/// instant, or is always refused.
#[verifier::external_body]
fn parse_rfc3339(text: &str) -> (r: Option<Timestamp>)
    ensures
        r == rfc3339_instant(text@),
{
    match DateTime::parse_from_rfc3339(text) {
        Ok(d) => Some(Timestamp { secs: d.timestamp(), nanos: d.timestamp_subsec_nanos() }),
        Err(_) => None,
    }
}

/// Why the `limit` parameter is no number.
pub open spec fn invalid_limit() -> Seq<char> {
    "Invalid 'limit' parameter. Use a positive integer."@
}

/// Why the `offset` parameter is no number.
pub open spec fn invalid_offset() -> Seq<char> {
    "Invalid 'offset' parameter. Use a non-negative integer."@
}

/// Why the `since` parameter is no date-time.
pub open spec fn invalid_since() -> Seq<char> {
    "Invalid 'since' datetime format. Use RFC3339 format."@
}

/// Why the `until` parameter is no date-time.
pub open spec fn invalid_until() -> Seq<char> {
    "Invalid 'until' datetime format. Use RFC3339 format."@
}

/// Why a `limit` of zero is refused.
pub open spec fn zero_limit() -> Seq<char> {
    "Limit must be greater than 0"@
}

/// What a listing is asked for, or the first reason why the query is
/// refused, given what the two bounds were read as: a parameter that is
/// absent stays absent; `limit` and `offset` must be unsigned numbers, a
/// bound that is present must have been read as an instant, and `limit` must
/// not be zero.
pub open spec fn checked_params(
    q: ListContentQueryView,
    since: Option<Timestamp>,
    until: Option<Timestamp>,
) -> Result<ListContentParams, ApiErrorView> {
    if q.limit matches Some(t) && parsed_u32(t) is None {
        Err(ApiErrorView::BadRequest(invalid_limit()))
    } else if q.offset matches Some(t) && parsed_u32(t) is None {
        Err(ApiErrorView::BadRequest(invalid_offset()))
    } else if q.since is Some && since is None {
        Err(ApiErrorView::BadRequest(invalid_since()))
    } else if q.until is Some && until is None {
        Err(ApiErrorView::BadRequest(invalid_until()))
    } else if q.limit matches Some(t) && parsed_u32(t) == Some(0u32) {
        Err(ApiErrorView::BadRequest(zero_limit()))
    } else {
        Ok(
            ListContentParams {
                limit: match q.limit {
                    Some(t) => parsed_u32(t),
                    None => None,
                },
                offset: match q.offset {
                    Some(t) => parsed_u32(t),
                    None => None,
                },
                since: if q.since is Some {
                    since
                } else {
                    None
                },
                until: if q.until is Some {
                    until
                } else {
                    None
                },
            },
        )
    }
}

/// The instant that a bound names, if the bound is present and an RFC 3339
/// date-time.
pub open spec fn bound_read(text: Option<Seq<char>>) -> Option<Timestamp> {
    match text {
        Some(t) => rfc3339_instant(t),
        None => None,
    }
}

/// What a listing is asked for, or the first reason why the query is
/// refused: `since` and `until` must be RFC 3339 date-times.
pub open spec fn list_params(q: ListContentQueryView) -> Result<ListContentParams, ApiErrorView> {
    checked_params(q, bound_read(q.since), bound_read(q.until))
}

/// A result of parameter validation over character sequences.
pub open spec fn params_view(r: Result<ListContentParams, ApiError>) -> Result<
    ListContentParams,
    ApiErrorView,
> {
    match r {
        Ok(p) => Ok(p),
        Err(e) => Err(e@),
    }
}

/// Validates the parameters of a listing, given the instants that the two
/// bounds were read as: `None` for a bound that is no date-time.
pub fn check_list_query(
    query: &ListContentQuery,
    since: Option<Timestamp>,
    until: Option<Timestamp>,
) -> (r: Result<ListContentParams, ApiError>)
    ensures
        params_view(r) == checked_params(query@, since, until),
{
    let limit = match &query.limit {
        Some(t) => match parse_u32(t.as_str()) {
            Some(n) => Some(n),
            None => {
                return Err(
                    ApiError::BadRequest(
                        String::from_str("Invalid 'limit' parameter. Use a positive integer."),
                    ),
                );
            },
        },
        None => None,
    };
    let offset = match &query.offset {
        Some(t) => match parse_u32(t.as_str()) {
            Some(n) => Some(n),
            None => {
                return Err(
                    ApiError::BadRequest(
                        String::from_str("Invalid 'offset' parameter. Use a non-negative integer."),
                    ),
                );
            },
        },
        None => None,
    };
    let since = if query.since.is_some() {
        if since.is_none() {
            return Err(
                ApiError::BadRequest(
                    String::from_str("Invalid 'since' datetime format. Use RFC3339 format."),
                ),
            );
        }
        since
    } else {
        None
    };
    let until = if query.until.is_some() {
        if until.is_none() {
            return Err(
                ApiError::BadRequest(
                    String::from_str("Invalid 'until' datetime format. Use RFC3339 format."),
                ),
            );
        }
        until
    } else {
        None
    };
    match limit {
        Some(n) => {
            if n == 0 {
                return Err(ApiError::BadRequest(String::from_str("Limit must be greater than 0")));
            }
        },
        None => {},
    }
    Ok(ListContentParams { limit, offset, since, until })
}

/// Validates the parameters of a listing.
pub fn parse_list_query(query: &ListContentQuery) -> (r: Result<ListContentParams, ApiError>)
    ensures
        params_view(r) == list_params(query@),
{
    let since = match &query.since {
        Some(t) => parse_rfc3339(t.as_str()),
        None => None,
    };
    let until = match &query.until {
        Some(t) => parse_rfc3339(t.as_str()),
        None => None,
    };
    check_list_query(query, since, until)
}

/// An item without its body.
pub open spec fn summary_of(item: ContentItemView) -> ContentSummaryView {
    ContentSummaryView {
        id: item.id,
        url: item.url,
        title: item.title,
        author: item.author,
        created_at: item.created_at,
    }
}

/// The summaries of a vector over character sequences.
pub open spec fn summaries_view(v: Seq<ContentSummary>) -> Seq<ContentSummaryView> {
    Seq::new(v.len(), |i: int| v[i]@)
}

/// The page size that a response reports: what was asked for, or the
/// default.
pub open spec fn reported_limit(limit: Option<u32>) -> u32 {
    match limit {
        Some(n) => n,
        None => DEFAULT_LIMIT,
    }
}

/// Assembles the answer to a listing from one page of the store.
pub fn list_response(result: &ListContentResult, params: &ListContentParams) -> (response:
    ListContentResponse)
    ensures
        summaries_view(response.items@) == items_view(result.items@).map_values(
            |item: ContentItemView| summary_of(item),
        ),
        response.total == result.total,
        response.limit == reported_limit(params.limit),
{
    let mut items: Vec<ContentSummary> = Vec::new();
    let mut i: usize = 0;
    while i < result.items.len()
        invariant
            i <= result.items.len(),
            items.len() == i,
            forall|k: int| 0 <= k < i ==> (#[trigger] items@[k])@ == summary_of(result.items@[k]@),
        decreases result.items.len() - i,
    {
        let item = &result.items[i];
        items.push(
            ContentSummary {
                id: item.id,
                url: item.url.clone(),
                title: copy_text(&item.title),
                author: copy_text(&item.author),
                created_at: item.created_at,
            },
        );
        i = i + 1;
    }
    assert(summaries_view(items@) =~= items_view(result.items@).map_values(
        |item: ContentItemView| summary_of(item),
    ));
    let limit = match params.limit {
        Some(n) => n,
        None => DEFAULT_LIMIT,
    };
    ListContentResponse { items, total: result.total, limit }
}

/// The answer to a lookup by identifier: the item, or not found.
pub fn found_or_missing(found: Option<ContentItem>) -> (r: Result<ContentItem, ApiError>)
    ensures
        match found {
            Some(item) => r == Ok::<ContentItem, ApiError>(item),
            None => r == Err::<ContentItem, ApiError>(ApiError::NotFound),
        },
{
    match found {
        Some(item) => Ok(item),
        None => Err(ApiError::NotFound),
    }
}

/// Handles a submission against the store.
pub fn add_content(
    repo: &mut MemoryContentRepository,
    payload: AddContentRequest,
    created_at: Timestamp,
) -> (r: Result<ContentResponse, ApiError>)
    requires
        old(repo).wf(),
    ensures
        final(repo).wf(),
        ({
            let outcome = ingested(
                old(repo).rows(),
                old(repo).next_id_of(),
                payload.url@,
                text_of(payload.title),
                text_of(payload.author),
                text_of(payload.body),
                created_at,
            );
            &&& final(repo).rows() == outcome.rows
            &&& final(repo).next_id_of() == outcome.next_id
            &&& match r {
                Ok(response) => outcome.answer == Ok::<i32, ApiErrorView>(response.id as i32)
                    && response.id <= i32::MAX,
                Err(e) => outcome.answer == Err::<i32, ApiErrorView>(e@),
            }
        }),
{
    let AddContentRequest { url, title, author, body } = payload;
    proof {
        match reduced(url@, text_of(title), text_of(author), text_of(body)) {
            Ok(new) => {
                lemma_submitted_id_positive(repo.rows(), repo.next_id_of(), new, created_at);
            },
            Err(_) => {},
        }
    }
    match ingest(repo, url, title, author, body, created_at) {
        Ok(id) => Ok(ContentResponse { id: id as u32 }),
        Err(e) => Err(e),
    }
}

/// Handles a listing against the store.
pub fn list_content(repo: &MemoryContentRepository, query: &ListContentQuery) -> (r: Result<
    ListContentResponse,
    ApiError,
>)
    ensures
        match r {
            Ok(response) => {
                &&& list_params(query@) matches Ok(params)
                &&& summaries_view(response.items@) == listed(repo.rows(), params).map_values(
                    |item: ContentItemView| summary_of(item),
                )
                &&& response.total == matching(repo.rows(), params.since, params.until).len()
                &&& response.limit == reported_limit(params.limit)
            },
            Err(e) => list_params(query@) == Err::<ListContentParams, ApiErrorView>(e@),
        },
{
    let params = match parse_list_query(query) {
        Ok(params) => params,
        Err(e) => {
            return Err(e);
        },
    };
    let result = repo.list(&params);
    Ok(list_response(&result, &params))
}

/// Handles a lookup by identifier against the store.
pub fn get_content_by_id(repo: &MemoryContentRepository, id: i32) -> (r: Result<
    ContentItem,
    ApiError,
>)
    ensures
        match r {
            Ok(item) => found_by_id(repo.rows(), id) == Some(item@),
            Err(e) => found_by_id(repo.rows(), id) is None && e == ApiError::NotFound,
        },
{
    found_or_missing(repo.find_by_id(id))
}

} // verus!
