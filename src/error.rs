//! Failures while reading or handling a request, and the response each one
//! is reported with.

use vstd::prelude::*;
use vstd::string::{StringExecFns, StrSliceExecFns};
use vstd::utf8::encode_utf8;
use crate::headers::{HeaderMap, HeaderPair};
use crate::response::HttpResponse;
use crate::status::{HttpStatus, decimal3};

verus! {

/// `std::io::Error`, carried through unopened inside `HttpError::IoError`.
#[verifier::external_type_specification]
#[verifier::external_body]
pub struct ExIoError(std::io::Error);

/// Relies on `std::io::Error`'s `Display` impl, through `ToString`, for the
/// text of an I/O failure; that text depends on the platform, so nothing is
/// stated of it.
#[verifier::external_body]
fn io_error_text(e: &std::io::Error) -> (r: String) {
    e.to_string()
}

/// A failure, classified by how it is reported to the client.
#[derive(Debug)]
pub enum HttpError {
    /// A transport or file-system failure, with optional context.
    IoError { inner: std::io::Error, context: String },
    /// A malformed request, with the reason.
    InvalidRequest(String),
    /// The named resource does not exist.
    NotFound(String),
    /// The method or resource is recognised but not served.
    NotImplemented,
}

/// The message that reports `e`, where `io_text` is the text of the wrapped
/// I/O failure, if any.
pub open spec fn message_of(e: &HttpError, io_text: Seq<char>) -> Seq<char> {
    let code = decimal3(e.spec_status().spec_code()) + ": "@;
    match e {
        HttpError::IoError { context, .. } => if context@.len() == 0 {
            code + io_text
        } else {
            code + context@ + ":\r\n"@ + io_text
        },
        HttpError::InvalidRequest(context) => code + context@,
        HttpError::NotFound(uri) => code + uri@ + " not found"@,
        HttpError::NotImplemented => code + "resource or method not implemented"@,
    }
}

impl HttpError {
    pub open spec fn spec_status(&self) -> HttpStatus {
        match self {
            HttpError::IoError { .. } => HttpStatus::InternalError,
            HttpError::InvalidRequest(_) => HttpStatus::BadRequest,
            HttpError::NotFound(_) => HttpStatus::NotFound,
            HttpError::NotImplemented => HttpStatus::NotImplemented,
        }
    }

    /// The status this failure is reported with.
    pub fn status(&self) -> (r: HttpStatus)
        ensures
            r == self.spec_status(),
    {
        match self {
            HttpError::IoError { .. } => HttpStatus::InternalError,
            HttpError::InvalidRequest(_) => HttpStatus::BadRequest,
            HttpError::NotFound(_) => HttpStatus::NotFound,
            HttpError::NotImplemented => HttpStatus::NotImplemented,
        }
    }

    /// An I/O failure with no context.
    pub fn from_io(inner: std::io::Error) -> (r: HttpError)
        ensures
            r matches HttpError::IoError { inner: i, context } && i == inner && context@.len() == 0,
    {
        HttpError::IoError { inner, context: String::new() }
    }

    /// The message for this failure, given the text of its I/O failure
    /// (ignored unless it is one).
    pub fn render_message(&self, io_text: &str) -> (r: String)
        ensures
            r@ == message_of(self, io_text@),
    {
        let code = String::from_str(self.status().code_text());
        let code = code.concat(": ");
        match self {
            HttpError::IoError { context, .. } => {
                if context.as_str().unicode_len() == 0 {
                    code.concat(io_text)
                } else {
                    code.concat(context.as_str()).concat(":\r\n").concat(io_text)
                }
            },
            HttpError::InvalidRequest(context) => code.concat(context.as_str()),
            HttpError::NotFound(uri) => code.concat(uri.as_str()).concat(" not found"),
            HttpError::NotImplemented => code.concat("resource or method not implemented"),
        }
    }

    /// The message that reports this failure to the client.
    pub fn message(&self) -> (r: String)
        ensures
            exists|t: Seq<char>| r@ == message_of(self, t),
            !(self is IoError) ==> r@ == message_of(self, Seq::empty()),
    {
        match self {
            HttpError::IoError { inner, .. } => {
                let text = io_error_text(inner);
                self.render_message(text.as_str())
            },
            _ => self.render_message(""),
        }
    }

    /// The response that reports this failure: its status, no header fields,
    /// and its message as the body.
    pub fn into_response(self) -> (r: HttpResponse)
        ensures
            r.status == self.spec_status(),
            r.headers@ == Map::<Seq<char>, Seq<char>>::empty(),
            r.headers.pairs() == Seq::<HeaderPair>::empty(),
            exists|t: Seq<char>| r.body@ == encode_utf8(message_of(&self, t)),
            !(self is IoError) ==> r.body@ == encode_utf8(message_of(&self, Seq::empty())),
    {
        let msg = self.message();
        let body = msg.as_str().as_bytes_vec();
        HttpResponse { status: self.status(), headers: HeaderMap::new(), body }
    }
}

} // verus!
