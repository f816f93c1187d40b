//! The persisted entity and the value a submission is reduced to before it
//! is stored.

use crate::text::{is_blank, str_is_blank, text_of};
use crate::validation::{normalize_url, normalized_text, ValidationError, ValidationErrorView};
use vstd::prelude::*;

verus! {

/// An instant: whole seconds since the Unix epoch (UTC) and the nanoseconds
/// within the second. Instants are ordered by seconds, then nanoseconds.
#[derive(Clone, Copy, Debug, PartialEq, Eq, Structural)]
pub struct Timestamp {
    pub secs: i64,
    pub nanos: u32,
}

/// Whether `a` is at or before `b`.
pub open spec fn at_or_before(a: Timestamp, b: Timestamp) -> bool {
    a.secs < b.secs || (a.secs == b.secs && a.nanos <= b.nanos)
}

impl Timestamp {
    /// An instant from its seconds and nanoseconds.
    pub fn new(secs: i64, nanos: u32) -> (t: Self)
        ensures
            t.secs == secs,
            t.nanos == nanos,
    {
        Timestamp { secs, nanos }
    }

    /// Whether this instant is at or before `other`.
    pub fn at_or_before(&self, other: &Timestamp) -> (b: bool)
        ensures
            b == at_or_before(*self, *other),
    {
        self.secs < other.secs || (self.secs == other.secs && self.nanos <= other.nanos)
    }
}

/// Copies an optional string.
pub fn copy_text(s: &Option<String>) -> (c: Option<String>)
    ensures
        text_of(c) == text_of(*s),
{
    match s {
        Some(t) => Some(t.clone()),
        None => None,
    }
}

/// Whether two optional strings are equal: both absent, or both present with
/// the same characters.
pub fn same_text(a: &Option<String>, b: &Option<String>) -> (r: bool)
    ensures
        r == (text_of(*a) == text_of(*b)),
{
    match (a, b) {
        (Some(x), Some(y)) => *x == *y,
        (None, None) => true,
        _ => false,
    }
}

/// An optional field as it is stored: absent when the input is absent, empty
/// or white space only.
pub open spec fn stored_text(s: Option<Seq<char>>) -> Option<Seq<char>> {
    match s {
        Some(t) => if is_blank(t) {
            None
        } else {
            Some(t)
        },
        None => None,
    }
}

/// Treats an empty or white-space-only field as absent.
pub fn absent_if_blank(s: Option<String>) -> (r: Option<String>)
    ensures
        text_of(r) == stored_text(text_of(s)),
{
    match s {
        Some(t) => if str_is_blank(t.as_str()) {
            None
        } else {
            Some(t)
        },
        None => None,
    }
}

/// The persisted entity.
#[derive(Debug, PartialEq, Eq)]
pub struct ContentItem {
    /// Assigned by the store on insert.
    pub id: i32,
    /// The canonical URL.
    pub url: String,
    pub title: Option<String>,
    pub author: Option<String>,
    /// Assigned at insert time; the sort key of listings.
    pub created_at: Timestamp,
    pub body: Option<String>,
}

/// `ContentItem` over character sequences.
pub struct ContentItemView {
    pub id: i32,
    pub url: Seq<char>,
    pub title: Option<Seq<char>>,
    pub author: Option<Seq<char>>,
    pub created_at: Timestamp,
    pub body: Option<Seq<char>>,
}

impl View for ContentItem {
    type V = ContentItemView;

    open spec fn view(&self) -> ContentItemView {
        ContentItemView {
            id: self.id,
            url: self.url@,
            title: text_of(self.title),
            author: text_of(self.author),
            created_at: self.created_at,
            body: text_of(self.body),
        }
    }
}

impl Clone for ContentItem {
    fn clone(&self) -> (c: Self)
        ensures
            c@ == self@,
    {
        ContentItem {
            id: self.id,
            url: self.url.clone(),
            title: copy_text(&self.title),
            author: copy_text(&self.author),
            created_at: self.created_at,
            body: copy_text(&self.body),
        }
    }
}

/// A submission reduced to what is stored: the canonical URL and the three
/// optional fields.
#[derive(Debug, PartialEq, Eq)]
pub struct NewContentItem {
    pub url: String,
    pub title: Option<String>,
    pub author: Option<String>,
    pub body: Option<String>,
}

/// `NewContentItem` over character sequences.
pub struct NewContentItemView {
    pub url: Seq<char>,
    pub title: Option<Seq<char>>,
    pub author: Option<Seq<char>>,
    pub body: Option<Seq<char>>,
}

impl View for NewContentItem {
    type V = NewContentItemView;

    open spec fn view(&self) -> NewContentItemView {
        NewContentItemView {
            url: self.url@,
            title: text_of(self.title),
            author: text_of(self.author),
            body: text_of(self.body),
        }
    }
}

impl Clone for NewContentItem {
    fn clone(&self) -> (c: Self)
        ensures
            c@ == self@,
    {
        NewContentItem {
            url: self.url.clone(),
            title: copy_text(&self.title),
            author: copy_text(&self.author),
            body: copy_text(&self.body),
        }
    }
}

/// What a submission is reduced to, or why its URL is rejected.
pub open spec fn reduced(
    url: Seq<char>,
    title: Option<Seq<char>>,
    author: Option<Seq<char>>,
    body: Option<Seq<char>>,
) -> Result<NewContentItemView, ValidationErrorView> {
    match normalized_text(url) {
        Ok(canonical) => Ok(
            NewContentItemView {
                url: canonical,
                title: stored_text(title),
                author: stored_text(author),
                body: stored_text(body),
            },
        ),
        Err(e) => Err(e),
    }
}

impl NewContentItem {
    /// Reduces a submission: the URL is canonicalized, and a field that is
    /// empty or white space only becomes absent.
    pub fn new(
        url: String,
        title: Option<String>,
        author: Option<String>,
        body: Option<String>,
    ) -> (r: Result<Self, ValidationError>)
        ensures
            match r {
                Ok(item) => reduced(url@, text_of(title), text_of(author), text_of(body)) == Ok::<
                    NewContentItemView,
                    ValidationErrorView,
                >(item@),
                Err(e) => reduced(url@, text_of(title), text_of(author), text_of(body)) == Err::<
                    NewContentItemView,
                    ValidationErrorView,
                >(e@),
            },
    {
        match normalize_url(url.as_str()) {
            Ok(normalized_url) => Ok(
                NewContentItem {
                    url: normalized_url,
                    title: absent_if_blank(title),
                    author: absent_if_blank(author),
                    body: absent_if_blank(body),
                },
            ),
            Err(e) => Err(e),
        }
    }
}

} // verus!
