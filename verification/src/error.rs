//! Error kinds of the engine, and their rendering for diagnostics.
//!
//! A response body embedded in an error message is truncated to its first
//! 100 and last 50 characters so that a huge payload never floods a log.

use vstd::prelude::*;

use crate::strutil::{spec_decimal, substr_string, u64_to_string};

verus! {

/// Returned when the remote endpoint answers with an HTTP error status;
/// carries enough context to tell why the call was rejected.
#[derive(Debug)]
pub struct APIError {
    pub url: String,
    pub body: Vec<u8>,
    pub status_code: u32,
}

/// The various errors that may come out of an API operation, ranging from
/// network failures to improper use of the API, through decoding errors.
/// A transport or JSON error carries the rendered message of the underlying
/// library error.
#[derive(Debug)]
pub enum Error {
    /// Network error or invalid query
    CurlError(String),
    /// JSON parsing error
    SerdeError(String),
    /// The remote endpoint returned an HTTP error code
    ApiError(APIError),
    /// A value expected in a response was missing or of the wrong shape
    UnwrappingError,
    /// The zone version specified is invalid or nonexistent
    InvalidVersion,
    /// The currently active zone cannot be modified
    ActiveZoneForbidden,
    /// Occurs when a POST is made without any argument
    InvalidPost,
    /// No matching record found
    NoRecord,
}

/// What `String::from_utf8_lossy` makes of a byte sequence; the result
/// depends on the bytes alone.
pub uninterp spec fn lossy_decoded(data: Seq<u8>) -> Seq<char>;

/// Relies on `String::from_utf8_lossy`: decodes bytes as UTF-8, replacing
/// invalid sequences with the replacement character; a pure function of the
/// bytes, and empty exactly on empty input.
#[verifier::external_body]
pub fn bytes_to_text(data: &[u8]) -> (r: String)
    ensures
        r@ == lossy_decoded(data@),
        data@.len() == 0 ==> r@.len() == 0,
{
    String::from_utf8_lossy(data).into_owned()
}

/// `body` shortened for diagnostics: over 150 characters, only the first 100
/// and the last 50 are kept, around a marker.
pub open spec fn spec_truncated(body: Seq<char>) -> Seq<char> {
    if body.len() > 150 {
        body.take(100) + "...OUTPUT TRUNCATED..."@ + body.skip(body.len() - 50)
    } else {
        body
    }
}

/// Shortens a response body for diagnostics.
pub fn truncate_body(s: &str) -> (r: String)
    ensures
        r@ == spec_truncated(s@),
{
    let len = s.unicode_len();
    if len > 150 {
        let mut r = substr_string(s, 0, 100);
        r.append("...OUTPUT TRUNCATED...");
        let tail = substr_string(s, len - 50, len);
        r.append(tail.as_str());
        r
    } else {
        s.to_owned()
    }
}

/// The rendering of an [`APIError`], with the body decoded and truncated.
pub open spec fn spec_api_error_text(url: Seq<char>, status_code: u32, body: Seq<u8>) -> Seq<char> {
    "API Error(url = '"@ + url + "', status_code = '"@ + spec_decimal(status_code as nat)
        + "', body = '"@ + spec_truncated(lossy_decoded(body)) + "')"@
}

impl APIError {
    /// One-line description of the failed call, with the response body
    /// truncated.
    pub fn describe(&self) -> (r: String)
        ensures
            r@ == spec_api_error_text(self.url@, self.status_code, self.body@),
    {
        let mut r = "API Error(url = '".to_owned();
        r.append(self.url.as_str());
        r.append("', status_code = '");
        let code = u64_to_string(self.status_code as u64);
        r.append(code.as_str());
        r.append("', body = '");
        let text = bytes_to_text(self.body.as_slice());
        let shortened = truncate_body(text.as_str());
        r.append(shortened.as_str());
        r.append("')");
        r
    }
}

/// The rendering of each error variant.
pub open spec fn spec_error_text(e: Error) -> Seq<char> {
    match e {
        Error::CurlError(s) => "HTTP Query Error("@ + s@ + ")"@,
        Error::SerdeError(s) => "Parsing Error("@ + s@ + ")"@,
        Error::ApiError(a) => spec_api_error_text(a.url@, a.status_code, a.body@),
        Error::UnwrappingError => "Err... Tried to unwrap some None there ;("@,
        Error::InvalidVersion => "Invalid Zone Version Requested"@,
        Error::ActiveZoneForbidden => "Mutation of the currently active Zone is Forbidden"@,
        Error::InvalidPost => "You tried to submit a POST with no argument"@,
        Error::NoRecord => "Couldn't find a matching record"@,
    }
}

impl Error {
    /// One-line description of the error.
    pub fn describe(&self) -> (r: String)
        ensures
            r@ == spec_error_text(*self),
    {
        match self {
            Error::CurlError(s) => {
                let mut r = "HTTP Query Error(".to_owned();
                r.append(s.as_str());
                r.append(")");
                r
            },
            Error::SerdeError(s) => {
                let mut r = "Parsing Error(".to_owned();
                r.append(s.as_str());
                r.append(")");
                r
            },
            Error::ApiError(e) => e.describe(),
            Error::UnwrappingError => "Err... Tried to unwrap some None there ;(".to_owned(),
            Error::InvalidVersion => "Invalid Zone Version Requested".to_owned(),
            Error::ActiveZoneForbidden => {
                "Mutation of the currently active Zone is Forbidden".to_owned()
            },
            Error::InvalidPost => "You tried to submit a POST with no argument".to_owned(),
            Error::NoRecord => "Couldn't find a matching record".to_owned(),
        }
    }
}

} // verus!
