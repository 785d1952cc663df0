//! The request and response shapes of the six remote operations, the
//! success/error envelope, and the locally stored record.
use vstd::prelude::*;

use crate::error::Error;
use crate::json::joined;

verus! {

/// The four business error codes the service can signal.
#[derive(Clone, Copy, Debug, PartialEq, Eq, Structural)]
pub enum ErrorCode {
    BadRequest,
    KeyDuplicated,
    NotAuthorized,
    RecordNotFound,
}

/// The number that stands for a code on the wire.
pub open spec fn code_of(e: ErrorCode) -> int {
    match e {
        ErrorCode::BadRequest => 101,
        ErrorCode::KeyDuplicated => 102,
        ErrorCode::NotAuthorized => 103,
        ErrorCode::RecordNotFound => 104,
    }
}

pub open spec fn code_from_spec(n: int) -> Option<ErrorCode> {
    if n == 101 { Some(ErrorCode::BadRequest) }
    else if n == 102 { Some(ErrorCode::KeyDuplicated) }
    else if n == 103 { Some(ErrorCode::NotAuthorized) }
    else if n == 104 { Some(ErrorCode::RecordNotFound) }
    else { None }
}

impl ErrorCode {
    pub fn code(&self) -> (r: u16)
        ensures
            r as int == code_of(*self),
    {
        match self {
            ErrorCode::BadRequest => 101,
            ErrorCode::KeyDuplicated => 102,
            ErrorCode::NotAuthorized => 103,
            ErrorCode::RecordNotFound => 104,
        }
    }

    pub fn from_code(n: u64) -> (r: Option<ErrorCode>)
        ensures
            r == code_from_spec(n as int),
    {
        if n == 101 { Some(ErrorCode::BadRequest) }
        else if n == 102 { Some(ErrorCode::KeyDuplicated) }
        else if n == 103 { Some(ErrorCode::NotAuthorized) }
        else if n == 104 { Some(ErrorCode::RecordNotFound) }
        else { None }
    }
}

/// Each wire code names exactly one error code, and back.
pub proof fn lemma_code_round_trip(e: ErrorCode, n: int)
    ensures
        code_from_spec(code_of(e)) == Some(e),
        code_from_spec(n) is Some ==> 101 <= n <= 104,
        101 <= n <= 104 ==> code_of(code_from_spec(n)->Some_0) == n,
{
}

/// The success/error envelope every response arrives in.
#[derive(Clone, Debug, PartialEq, Eq)]
pub enum Response<T> {
    Error { ok: bool, error_code: ErrorCode, error_text: String, reason: Vec<String> },
    Success { ok: bool, result: T },
}

/// The envelope, field views taken.
pub enum RespV<V> {
    Error { ok: bool, error_code: ErrorCode, error_text: Seq<char>, reason: Seq<Seq<char>> },
    Success { ok: bool, result: V },
}

impl<T: View> View for Response<T> {
    type V = RespV<T::V>;

    open spec fn view(&self) -> RespV<T::V> {
        match self {
            Response::Error { ok, error_code, error_text, reason } => RespV::Error {
                ok: *ok,
                error_code: *error_code,
                error_text: error_text@,
                reason: reason.deep_view(),
            },
            Response::Success { ok, result } => RespV::Success { ok: *ok, result: result@ },
        }
    }
}

impl<T> Response<T> {
    /// Unwrap the envelope: a success yields its result, an error yields
    /// the API error with the reasons joined by commas.
    pub fn handled(self) -> (r: Result<T, Error>)
        ensures
            self matches Response::Success { result, .. } ==> r matches Ok(t) && t == result,
            self matches Response::Error { error_code, reason, .. } ==> r matches Err(e)
                && e matches Error::ApiError(c, m) && c == error_code && m@ == joined(
                reason.deep_view(),
                ", "@,
            ),
    {
        match self {
            Response::Error { error_code, reason, .. } => {
                let m = crate::json::join_strings(&reason, ", ");
                Err(Error::ApiError(error_code, m))
            },
            Response::Success { result, .. } => Ok(result),
        }
    }
}

/// A record as the service reports it.
#[derive(Clone, Debug, PartialEq, Eq)]
pub struct URLRecord {
    pub key: String,
    pub value: String,
    pub expire: Option<u64>,
}

pub struct URLRecordV {
    pub key: Seq<char>,
    pub value: Seq<char>,
    pub expire: Option<u64>,
}

impl View for URLRecord {
    type V = URLRecordV;

    open spec fn view(&self) -> URLRecordV {
        URLRecordV { key: self.key@, value: self.value@, expire: self.expire }
    }
}

/* Requests */

#[derive(Clone, Debug, PartialEq, Eq)]
pub struct GetRequest {
    pub key: String,
}

#[derive(Clone, Debug, PartialEq, Eq)]
pub struct PostRequest {
    pub key: String,
    pub value: String,
    pub ttl: Option<u64>,
}

#[derive(Clone, Debug, PartialEq, Eq)]
pub struct PutRequest {
    pub key: String,
    pub value: String,
    pub token: String,
    pub ttl: Option<u64>,
}

#[derive(Clone, Debug, PartialEq, Eq)]
pub struct DelRequest {
    pub key: String,
    pub token: String,
}

#[derive(Clone, Debug, PartialEq, Eq)]
pub struct ListRequest {
    pub cursor: Option<String>,
}

#[derive(Clone, Debug, PartialEq, Eq)]
pub struct VerifySingle {
    pub key: String,
    pub token: String,
    pub value: String,
}

#[derive(Clone, Debug, PartialEq, Eq)]
pub struct VerifyRequest {
    pub values: Vec<VerifySingle>,
}

/* Responses */

pub type GetResponse = URLRecord;

#[derive(Clone, Debug, PartialEq, Eq)]
pub struct PostResponse {
    pub token: String,
    pub key: String,
    pub value: String,
    pub expire: Option<u64>,
}

pub struct PostResponseV {
    pub token: Seq<char>,
    pub key: Seq<char>,
    pub value: Seq<char>,
    pub expire: Option<u64>,
}

impl View for PostResponse {
    type V = PostResponseV;

    open spec fn view(&self) -> PostResponseV {
        PostResponseV {
            token: self.token@,
            key: self.key@,
            value: self.value@,
            expire: self.expire,
        }
    }
}

/// The local cache entry for a record this client created.
#[derive(Clone, Debug, PartialEq, Eq)]
pub struct UrlStored {
    pub key: String,
    pub value: String,
    pub token: String,
    pub expire: Option<u64>,
}

pub struct UrlStoredV {
    pub key: Seq<char>,
    pub value: Seq<char>,
    pub token: Seq<char>,
    pub expire: Option<u64>,
}

impl View for UrlStored {
    type V = UrlStoredV;

    open spec fn view(&self) -> UrlStoredV {
        UrlStoredV {
            key: self.key@,
            value: self.value@,
            token: self.token@,
            expire: self.expire,
        }
    }
}

pub type PutResponse = PostResponse;

pub type DelResponse = URLRecord;

#[derive(Clone, Debug, PartialEq, Eq)]
pub struct ListResponse {
    pub keys: Vec<String>,
    pub list_complete: bool,
    pub cursor: String,
}

pub struct ListResponseV {
    pub keys: Seq<Seq<char>>,
    pub list_complete: bool,
    pub cursor: Seq<char>,
}

impl View for ListResponse {
    type V = ListResponseV;

    open spec fn view(&self) -> ListResponseV {
        ListResponseV {
            keys: self.keys.deep_view(),
            list_complete: self.list_complete,
            cursor: self.cursor@,
        }
    }
}

#[derive(Clone, Debug, PartialEq, Eq)]
pub struct VerifyResponse {
    pub matched: Vec<String>,
    pub unmatched: Vec<String>,
    pub missing: Vec<String>,
}

pub struct VerifyResponseV {
    pub matched: Seq<Seq<char>>,
    pub unmatched: Seq<Seq<char>>,
    pub missing: Seq<Seq<char>>,
}

impl View for VerifyResponse {
    type V = VerifyResponseV;

    open spec fn view(&self) -> VerifyResponseV {
        VerifyResponseV {
            matched: self.matched.deep_view(),
            unmatched: self.unmatched.deep_view(),
            missing: self.missing.deep_view(),
        }
    }
}

/// The stored record a successful creation leaves behind.
pub fn record_of(resp: PostResponse) -> (r: UrlStored)
    ensures
        r@.key == resp@.key,
        r@.value == resp@.value,
        r@.token == resp@.token,
        r@.expire == resp@.expire,
{
    UrlStored { key: resp.key, value: resp.value, token: resp.token, expire: resp.expire }
}

} // verus!
