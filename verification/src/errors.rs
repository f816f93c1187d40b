//! The outcomes a request can fail with, and how each is shown to the
//! caller: validation failures and conflicts are part of the normal control
//! flow, store faults are answered without internal detail.

use crate::validation::{error_text, ValidationError, ValidationErrorView};
use vstd::prelude::*;
use vstd::std_specs::convert::FromSpecImpl;

verus! {

/// Status of a validation failure.
pub const BAD_REQUEST: u16 = 400;

/// Status of a lookup that found nothing.
pub const NOT_FOUND: u16 = 404;

/// Status of a submission that conflicts with the stored item.
pub const CONFLICT: u16 = 409;

/// Status of a store fault or an unexpected failure.
pub const INTERNAL_SERVER_ERROR: u16 = 500;

/// Why a request failed.
#[derive(Debug, Clone, PartialEq, Eq)]
pub enum ApiError {
    /// The submitted URL was rejected.
    ValidationError(ValidationError),
    /// The store failed; holds the detail, which is never shown to the caller.
    DatabaseError(String),
    /// The URL is stored already, with other metadata.
    DuplicateUrlDifferentMetadata,
    /// Something unexpected happened.
    InternalError,
    /// No item has the requested identifier.
    NotFound,
    /// A query parameter was rejected; holds the reason.
    BadRequest(String),
}

/// `ApiError` over character sequences.
pub enum ApiErrorView {
    ValidationError(ValidationErrorView),
    DatabaseError(Seq<char>),
    DuplicateUrlDifferentMetadata,
    InternalError,
    NotFound,
    BadRequest(Seq<char>),
}

impl View for ApiError {
    type V = ApiErrorView;

    open spec fn view(&self) -> ApiErrorView {
        match self {
            ApiError::ValidationError(e) => ApiErrorView::ValidationError(e@),
            ApiError::DatabaseError(s) => ApiErrorView::DatabaseError(s@),
            ApiError::DuplicateUrlDifferentMetadata => ApiErrorView::DuplicateUrlDifferentMetadata,
            ApiError::InternalError => ApiErrorView::InternalError,
            ApiError::NotFound => ApiErrorView::NotFound,
            ApiError::BadRequest(s) => ApiErrorView::BadRequest(s@),
        }
    }
}

impl From<ValidationError> for ApiError {
    fn from(e: ValidationError) -> (r: ApiError) {
        ApiError::ValidationError(e)
    }
}

impl FromSpecImpl<ValidationError> for ApiError {
    open spec fn obeys_from_spec() -> bool {
        true
    }

    open spec fn from_spec(e: ValidationError) -> ApiError {
        ApiError::ValidationError(e)
    }
}

/// The status that an error is answered with.
pub open spec fn status_of(e: ApiErrorView) -> u16 {
    match e {
        ApiErrorView::ValidationError(_) => BAD_REQUEST,
        ApiErrorView::BadRequest(_) => BAD_REQUEST,
        ApiErrorView::NotFound => NOT_FOUND,
        ApiErrorView::DuplicateUrlDifferentMetadata => CONFLICT,
        ApiErrorView::DatabaseError(_) => INTERNAL_SERVER_ERROR,
        ApiErrorView::InternalError => INTERNAL_SERVER_ERROR,
    }
}

/// The full description of an error, for the server's own use.
pub open spec fn description_of(e: ApiErrorView) -> Seq<char> {
    match e {
        ApiErrorView::ValidationError(v) => "URL validation failed: "@ + error_text(v),
        ApiErrorView::DatabaseError(s) => "Database error: "@ + s,
        ApiErrorView::DuplicateUrlDifferentMetadata => "URL already exists with different metadata"@,
        ApiErrorView::InternalError => "Internal server error"@,
        ApiErrorView::NotFound => "Content not found"@,
        ApiErrorView::BadRequest(s) => "Bad request: "@ + s,
    }
}

/// The message that the caller is shown. A validation failure gives its
/// reason; a store fault gives nothing of its detail.
pub open spec fn message_of(e: ApiErrorView) -> Seq<char> {
    match e {
        ApiErrorView::ValidationError(v) => error_text(v),
        ApiErrorView::DatabaseError(_) => "Internal server error"@,
        ApiErrorView::DuplicateUrlDifferentMetadata => "URL already exists with different metadata"@,
        ApiErrorView::InternalError => "Internal server error"@,
        ApiErrorView::NotFound => "Content not found"@,
        ApiErrorView::BadRequest(s) => s,
    }
}

/// What the caller receives for an error: the status and the message that
/// goes into the `error` field of the body.
#[derive(Debug, Clone, PartialEq, Eq)]
pub struct ErrorResponse {
    pub status: u16,
    pub error: String,
}

impl ApiError {
    /// The status that the error is answered with.
    pub fn status_code(&self) -> (status: u16)
        ensures
            status == status_of(self@),
    {
        match self {
            ApiError::ValidationError(_) => BAD_REQUEST,
            ApiError::BadRequest(_) => BAD_REQUEST,
            ApiError::NotFound => NOT_FOUND,
            ApiError::DuplicateUrlDifferentMetadata => CONFLICT,
            ApiError::DatabaseError(_) => INTERNAL_SERVER_ERROR,
            ApiError::InternalError => INTERNAL_SERVER_ERROR,
        }
    }

    /// The full description of the error, detail included.
    pub fn to_string(&self) -> (s: String)
        ensures
            s@ == description_of(self@),
    {
        match self {
            ApiError::ValidationError(e) => {
                let reason = e.to_string();
                String::from_str("URL validation failed: ").concat(reason.as_str())
            },
            ApiError::DatabaseError(detail) => {
                String::from_str("Database error: ").concat(detail.as_str())
            },
            ApiError::DuplicateUrlDifferentMetadata => {
                String::from_str("URL already exists with different metadata")
            },
            ApiError::InternalError => String::from_str("Internal server error"),
            ApiError::NotFound => String::from_str("Content not found"),
            ApiError::BadRequest(reason) => {
                String::from_str("Bad request: ").concat(reason.as_str())
            },
        }
    }

    /// The answer to the caller: the status and the message to show.
    pub fn into_response(self) -> (response: ErrorResponse)
        ensures
            response.status == status_of(self@),
            response.error@ == message_of(self@),
    {
        let status = self.status_code();
        let error = match self {
            ApiError::ValidationError(e) => e.to_string(),
            ApiError::DatabaseError(_) => String::from_str("Internal server error"),
            ApiError::DuplicateUrlDifferentMetadata => {
                String::from_str("URL already exists with different metadata")
            },
            ApiError::InternalError => String::from_str("Internal server error"),
            ApiError::NotFound => String::from_str("Content not found"),
            ApiError::BadRequest(reason) => reason,
        };
        ErrorResponse { status, error }
    }
}

} // verus!
