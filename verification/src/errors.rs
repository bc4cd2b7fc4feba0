//! Error types used by codecs and connectors.

use vstd::prelude::*;

verus! {

/// Errors that may occur when connecting or communicating with external
/// resources.
#[derive(Debug, Clone, Copy, PartialEq, Eq, Structural)]
pub enum ConnectionError {
    /// An HTTP response arrived with a failure status code.
    Http { code: u16 },
    /// An input/output error below the HTTP layer.
    Io,
    /// The connection timed out.
    TimedOut,
    /// The redirect limit was reached or a cyclic redirect was detected.
    Redirect,
    /// A message was received that could not be processed at the link layer.
    Process,
}

/// An error raised while decoding received bytes.
#[derive(Debug, Clone, Copy, PartialEq, Eq, Structural)]
pub struct DecodeError;

/// An error raised while encoding outgoing records.
#[derive(Debug, Clone, Copy, PartialEq, Eq, Structural)]
pub struct EncodeError;

/// Errors that may occur when fetching entries.
#[derive(Debug, Clone, Copy, PartialEq, Eq, Structural)]
pub enum FetchError {
    /// The response arrived but could not be decoded.
    Decode(DecodeError),
    /// The query could not be serialized to the backend's request form.
    InvalidQuery,
    /// The connection itself failed.
    Connection(ConnectionError),
}

/// Errors that may occur when fetching a single entry.
#[derive(Debug, Clone, Copy, PartialEq, Eq, Structural)]
pub enum FetchOneError {
    /// The fetch itself failed.
    Fetch(FetchError),
    /// No entry matched the query.
    NoSuchEntry,
}

/// Errors that may occur when sending entries.
#[derive(Debug, Clone, Copy, PartialEq, Eq, Structural)]
pub enum SendError {
    /// The outgoing records could not be encoded.
    Encode(EncodeError),
    /// The sink accepted the request but refused the content.
    Rejected,
    /// The connection itself failed.
    Connection(ConnectionError),
}

/// Errors that may occur when decoding data from a stream of chunks.
#[derive(Debug, Clone, Copy, PartialEq, Eq, Structural)]
pub enum DecodeStreamError {
    /// The bytes arrived but could not be decoded.
    Decode(DecodeError),
    /// The connection failed before all data was received.
    Connection(ConnectionError),
}

/// Errors that may occur when decoding a single entry.
#[derive(Debug, Clone, Copy, PartialEq, Eq, Structural)]
pub enum DecodeOneError {
    /// The bytes could not be decoded.
    Decode(DecodeError),
    /// No bytes were given, or they represent an empty collection.
    Empty,
}

impl From<DecodeError> for FetchError {
    /// A decode failure surfaces as a fetch failure.
    fn from(value: DecodeError) -> (r: Self) {
        FetchError::Decode(value)
    }
}

impl vstd::std_specs::convert::FromSpecImpl<DecodeError> for FetchError {
    open spec fn obeys_from_spec() -> bool {
        true
    }

    open spec fn from_spec(value: DecodeError) -> Self {
        FetchError::Decode(value)
    }
}

impl From<ConnectionError> for FetchError {
    /// A connection failure surfaces as a fetch failure.
    fn from(value: ConnectionError) -> (r: Self) {
        FetchError::Connection(value)
    }
}

impl vstd::std_specs::convert::FromSpecImpl<ConnectionError> for FetchError {
    open spec fn obeys_from_spec() -> bool {
        true
    }

    open spec fn from_spec(value: ConnectionError) -> Self {
        FetchError::Connection(value)
    }
}

impl From<FetchError> for FetchOneError {
    /// A fetch failure surfaces unchanged when one entry was asked for.
    fn from(value: FetchError) -> (r: Self) {
        FetchOneError::Fetch(value)
    }
}

impl vstd::std_specs::convert::FromSpecImpl<FetchError> for FetchOneError {
    open spec fn obeys_from_spec() -> bool {
        true
    }

    open spec fn from_spec(value: FetchError) -> Self {
        FetchOneError::Fetch(value)
    }
}

impl From<EncodeError> for SendError {
    /// An encode failure surfaces as a send failure.
    fn from(value: EncodeError) -> (r: Self) {
        SendError::Encode(value)
    }
}

impl vstd::std_specs::convert::FromSpecImpl<EncodeError> for SendError {
    open spec fn obeys_from_spec() -> bool {
        true
    }

    open spec fn from_spec(value: EncodeError) -> Self {
        SendError::Encode(value)
    }
}

impl From<ConnectionError> for SendError {
    /// A connection failure surfaces as a send failure.
    fn from(value: ConnectionError) -> (r: Self) {
        SendError::Connection(value)
    }
}

impl vstd::std_specs::convert::FromSpecImpl<ConnectionError> for SendError {
    open spec fn obeys_from_spec() -> bool {
        true
    }

    open spec fn from_spec(value: ConnectionError) -> Self {
        SendError::Connection(value)
    }
}

impl From<DecodeError> for DecodeStreamError {
    /// A decode failure surfaces unchanged on the stream path.
    fn from(value: DecodeError) -> (r: Self) {
        DecodeStreamError::Decode(value)
    }
}

impl vstd::std_specs::convert::FromSpecImpl<DecodeError> for DecodeStreamError {
    open spec fn obeys_from_spec() -> bool {
        true
    }

    open spec fn from_spec(value: DecodeError) -> Self {
        DecodeStreamError::Decode(value)
    }
}

impl From<DecodeError> for DecodeOneError {
    /// A decode failure surfaces unchanged when one entry was asked for.
    fn from(value: DecodeError) -> (r: Self) {
        DecodeOneError::Decode(value)
    }
}

impl vstd::std_specs::convert::FromSpecImpl<DecodeError> for DecodeOneError {
    open spec fn obeys_from_spec() -> bool {
        true
    }

    open spec fn from_spec(value: DecodeError) -> Self {
        DecodeOneError::Decode(value)
    }
}

impl From<DecodeStreamError> for FetchError {
    /// A stream-decode failure keeps its classification: decode failures
    /// stay decode failures, connection failures stay connection failures.
    fn from(value: DecodeStreamError) -> (r: Self)
        ensures
            r == match value {
                DecodeStreamError::Decode(e) => FetchError::Decode(e),
                DecodeStreamError::Connection(e) => FetchError::Connection(e),
            },
    {
        match value {
            DecodeStreamError::Decode(e) => FetchError::Decode(e),
            DecodeStreamError::Connection(e) => FetchError::Connection(e),
        }
    }
}

impl vstd::std_specs::convert::FromSpecImpl<DecodeStreamError> for FetchError {
    open spec fn obeys_from_spec() -> bool {
        true
    }

    open spec fn from_spec(value: DecodeStreamError) -> Self {
        match value {
            DecodeStreamError::Decode(e) => FetchError::Decode(e),
            DecodeStreamError::Connection(e) => FetchError::Connection(e),
        }
    }
}

impl From<DecodeOneError> for FetchOneError {
    /// A one-entry decode failure maps to the one-entry fetch taxonomy: a
    /// decode failure stays a decode failure, and an empty result means
    /// there was no such entry.
    fn from(value: DecodeOneError) -> (r: Self)
        ensures
            r == match value {
                DecodeOneError::Decode(e) => FetchOneError::Fetch(FetchError::Decode(e)),
                DecodeOneError::Empty => FetchOneError::NoSuchEntry,
            },
    {
        match value {
            DecodeOneError::Decode(e) => FetchOneError::Fetch(FetchError::Decode(e)),
            DecodeOneError::Empty => FetchOneError::NoSuchEntry,
        }
    }
}

impl vstd::std_specs::convert::FromSpecImpl<DecodeOneError> for FetchOneError {
    open spec fn obeys_from_spec() -> bool {
        true
    }

    open spec fn from_spec(value: DecodeOneError) -> Self {
        match value {
            DecodeOneError::Decode(e) => FetchOneError::Fetch(FetchError::Decode(e)),
            DecodeOneError::Empty => FetchOneError::NoSuchEntry,
        }
    }
}

#[verifier::external_type_specification]
#[verifier::external_body]
pub struct ExReqwestError(reqwest::Error);

/// Relies on `reqwest::Error::status` and `http::StatusCode::as_u16`: the
/// status code of the response this error was generated from, if any.
#[verifier::external_body]
fn transport_status(err: &reqwest::Error) -> (r: Option<u16>) {
    err.status().map(|code| code.as_u16())
}

/// Relies on `reqwest::Error::is_redirect`: whether the error came from a
/// redirect policy.
#[verifier::external_body]
fn transport_is_redirect(err: &reqwest::Error) -> (r: bool) {
    err.is_redirect()
}

/// Relies on `reqwest::Error::is_timeout`: whether the error is related to a
/// timeout.
#[verifier::external_body]
fn transport_is_timeout(err: &reqwest::Error) -> (r: bool) {
    err.is_timeout()
}

/// Relies on `reqwest::Error::is_body`: whether the error is related to the
/// request or response body.
#[verifier::external_body]
fn transport_is_body(err: &reqwest::Error) -> (r: bool) {
    err.is_body()
}

/// Relies on `reqwest::Error::is_decode`: whether the error is related to
/// decoding the response's body.
#[verifier::external_body]
fn transport_is_decode(err: &reqwest::Error) -> (r: bool) {
    err.is_decode()
}

/// How a transport failure is classified from its observable features, by
/// decreasing specificity: a response status code makes it an HTTP failure
/// with that code; a redirect-policy failure a redirect failure; a timeout a
/// timeout; a body or decoding problem an unprocessable message; anything
/// else an input/output failure.
pub open spec fn classify_transport_spec(
    status: Option<u16>,
    redirect: bool,
    timed_out: bool,
    body: bool,
    decode: bool,
) -> ConnectionError {
    match status {
        Some(code) => ConnectionError::Http { code },
        None => if redirect {
            ConnectionError::Redirect
        } else if timed_out {
            ConnectionError::TimedOut
        } else if body || decode {
            ConnectionError::Process
        } else {
            ConnectionError::Io
        },
    }
}

/// Classify a transport failure from its observable features.
pub fn classify_transport(
    status: Option<u16>,
    redirect: bool,
    timed_out: bool,
    body: bool,
    decode: bool,
) -> (r: ConnectionError)
    ensures
        r == classify_transport_spec(status, redirect, timed_out, body, decode),
{
    match status {
        Some(code) => ConnectionError::Http { code },
        None => {
            if redirect {
                ConnectionError::Redirect
            } else if timed_out {
                ConnectionError::TimedOut
            } else if body || decode {
                ConnectionError::Process
            } else {
                ConnectionError::Io
            }
        },
    }
}

impl ConnectionError {
    /// Classify an error of the HTTP client. The client raises one error
    /// type for everything; this reads its observable features and maps them
    /// to the taxonomy here, through [`classify_transport`].
    pub fn from_reqwest(err: &reqwest::Error) -> (r: ConnectionError) {
        let status = transport_status(err);
        let redirect = transport_is_redirect(err);
        let timed_out = transport_is_timeout(err);
        let body = transport_is_body(err);
        let decode = transport_is_decode(err);
        classify_transport(status, redirect, timed_out, body, decode)
    }
}

} // verus!
