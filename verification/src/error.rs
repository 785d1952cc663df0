//! The error taxonomy: local validation, transport, serialization, parse,
//! API-signalled, and local file errors.
use vstd::prelude::*;

use crate::model::ErrorCode;

verus! {

#[derive(Clone, Debug, PartialEq, Eq)]
pub enum Error {
    /// A key that is not 3 to 12 characters from `[a-zA-Z0-9_-]`.
    BadKey,
    /// A well-formed response that signals a business rejection.
    ApiError(ErrorCode, String),
    /// The request could not be built or sent; the message describes why.
    BadRequest(String),
    /// An HTTP status other than 200 or 400, with the raw response body.
    RequestFailed(u16, String),
    /// A base URL that could not be parsed.
    BadUrl(String),
    /// A network-level failure, with the transport's message.
    Reqwest(String),
    /// Text that does not decode as the expected JSON shape.
    Parse(String),
    /// A value that could not be encoded to JSON.
    Serialize(String),
    /// The history file could not be read.
    ReadError(String),
    /// The history file could not be written.
    WriteError(String),
}

} // verus!
