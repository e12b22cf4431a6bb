//! What can go wrong while a feed is followed.

use vstd::prelude::*;

verus! {

/// `reqwest::Error`, taken as it is: this library carries such an error
/// and never looks inside.
#[verifier::external_type_specification]
#[verifier::external_body]
pub struct ExRequestError(reqwest::Error);

/// `reqwest::StatusCode`, taken as it is: this library carries a status
/// and never looks inside.
#[verifier::external_type_specification]
#[verifier::external_body]
pub struct ExStatusCode(reqwest::StatusCode);

/// A failure to open the feed, or to read one of its records.
///
/// Only the last kind comes from this library: it opens no connection. The
/// first two are for the code that does, so that it can report its failures
/// in the same type.
#[derive(Debug)]
pub enum StreamError {
    /// The request for the feed could not be made or was not answered.
    RequestFailed(reqwest::Error),
    /// The database answered the request with a status that is no success.
    InvalidStatus(reqwest::StatusCode),
    /// A record is no JSON, or no event: the parser's complaint, and the
    /// record as text (empty where the record is no UTF-8).
    ParsingFailed(serde_json::Error, String),
}

/// What a [`StreamError`] holds: the errors of others as they are, the
/// record as its characters.
pub enum StreamErrorView {
    RequestFailed(reqwest::Error),
    InvalidStatus(reqwest::StatusCode),
    ParsingFailed(serde_json::Error, Seq<char>),
}

impl View for StreamError {
    type V = StreamErrorView;

    open spec fn view(&self) -> StreamErrorView {
        match self {
            StreamError::RequestFailed(cause) => StreamErrorView::RequestFailed(*cause),
            StreamError::InvalidStatus(status) => StreamErrorView::InvalidStatus(*status),
            StreamError::ParsingFailed(cause, raw) => StreamErrorView::ParsingFailed(*cause, raw@),
        }
    }
}

} // verus!
