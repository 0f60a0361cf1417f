//! The HTTP API's response envelope and errors.
use vstd::prelude::*;
use vstd::std_specs::convert::FromSpecImpl;
use vstd::std_specs::convert::FromSpec;
use crate::decimal::{decimal, u32_to_string};
use crate::error_codes::ErrorCode;

verus! {

/// `anyhow::Error`, held opaque.
#[verifier::external_type_specification]
#[verifier::external_body]
pub struct ExAnyhowError(anyhow::Error);

/// The JSON envelope of every answer: a status (`0` on success), an error
/// message on failure and the data on success.
pub struct ApiResponse<T> {
    pub status: u32,
    pub err_msg: Option<String>,
    pub data: Option<T>,
}

impl<T> ApiResponse<T> {
    /// The successful answer carrying `data`.
    pub fn ok(data: T) -> (res: Result<ApiResponse<T>, ApiError>)
        ensures
            res matches Ok(r) && r.status == 0 && r.err_msg is None && r.data == Some(data),
    {
        Ok(ApiResponse { status: 0, err_msg: None, data: Some(data) })
    }
}

/// An error of the API: an internal failure, or a business error with its
/// code and message.
#[derive(Debug)]
pub enum ApiError {
    Internal { source: anyhow::Error },
    BusinessError(u32, String),
}

/// The status of an answer to an error: `1` for an internal failure, the
/// business error's own code otherwise.
pub open spec fn spec_code(e: &ApiError) -> u32 {
    match e {
        ApiError::Internal { .. } => 1,
        ApiError::BusinessError(code, _) => *code,
    }
}

/// The text of an internal failure starts so.
pub open spec fn internal_prefix() -> Seq<char> {
    "[debug only] server internal err: "@
}

/// The text of a business error.
pub open spec fn business_message(code: u32, msg: Seq<char>) -> Seq<char> {
    "bad requeset. code = "@ + decimal(code as nat) + ", err = "@ + msg
}

/// Formats an `anyhow::Error` with its `Debug` impl in the alternate form
/// (`{:#?}`). What that prints depends on the error's cause and on how it was
/// built, and the error is opaque here, so nothing is stated of the text.
#[verifier::external_body]
fn pretty_debug(e: &anyhow::Error) -> String {
    format!("{:#?}", e)
}

/// The text of an internal failure whose source, formatted with `{:#?}`,
/// reads `debug_text`.
pub fn internal_message(debug_text: &str) -> (res: String)
    ensures
        res@ == internal_prefix() + debug_text@,
{
    let mut s = "[debug only] server internal err: ".to_owned();
    s.append(debug_text);
    s
}

impl ApiError {
    /// The status that an answer to this error carries.
    pub fn code(&self) -> (res: u32)
        ensures
            res == spec_code(self),
    {
        match self {
            ApiError::Internal { .. } => 1,
            ApiError::BusinessError(code, _) => *code,
        }
    }

    /// The HTTP status of an answer to any error: 400 (Bad Request).
    pub fn status_code(&self) -> (res: u16)
        ensures
            res == 400,
    {
        400
    }

    /// The error's text, as its `Display` writes it.
    pub fn message(&self) -> (res: String)
        ensures
            match self {
                ApiError::Internal { .. } => res@.len() >= internal_prefix().len() && res@.subrange(
                    0,
                    internal_prefix().len() as int,
                ) == internal_prefix(),
                ApiError::BusinessError(code, msg) => res@ == business_message(*code, msg@),
            },
    {
        match self {
            ApiError::Internal { source } => {
                let s = internal_message(pretty_debug(source).as_str());
                assert(s@.subrange(0, internal_prefix().len() as int) =~= internal_prefix());
                s
            },
            ApiError::BusinessError(code, msg) => {
                let mut s = "bad requeset. code = ".to_owned();
                s.append(u32_to_string(*code).as_str());
                s.append(", err = ");
                s.append(msg.as_str());
                s
            },
        }
    }

    /// The body of the answer to this error, given the error's text: the
    /// error's code as status and that text as message, with no data.
    pub fn error_body_with(&self, message: String) -> (res: ApiResponse<()>)
        ensures
            res.status == spec_code(self),
            res.err_msg == Some(message),
            res.data is None,
    {
        ApiResponse { status: self.code(), err_msg: Some(message), data: None }
    }

    /// The body of the answer to this error: the error's code as status and
    /// its text as message, with no data.
    pub fn error_body(&self) -> (res: ApiResponse<()>)
        ensures
            res.status == spec_code(self),
            res.data is None,
            res.err_msg is Some,
            match self {
                ApiError::Internal { .. } => res.err_msg->0@.len() >= internal_prefix().len()
                    && res.err_msg->0@.subrange(0, internal_prefix().len() as int) == internal_prefix(),
                ApiError::BusinessError(code, msg) => res.err_msg->0@ == business_message(
                    *code,
                    msg@,
                ),
            },
    {
        self.error_body_with(self.message())
    }
}

impl From<ErrorCode> for ApiError {
    fn from(value: ErrorCode) -> (res: ApiError) {
        ApiError::BusinessError(value.code, value.msg)
    }
}

impl FromSpecImpl<ErrorCode> for ApiError {
    open spec fn obeys_from_spec() -> bool {
        true
    }

    open spec fn from_spec(v: ErrorCode) -> ApiError {
        ApiError::BusinessError(v.code, v.msg)
    }
}

impl From<anyhow::Error> for ApiError {
    fn from(value: anyhow::Error) -> (res: ApiError) {
        ApiError::Internal { source: value }
    }
}

impl FromSpecImpl<anyhow::Error> for ApiError {
    open spec fn obeys_from_spec() -> bool {
        true
    }

    open spec fn from_spec(v: anyhow::Error) -> ApiError {
        ApiError::Internal { source: v }
    }
}

/// A business error answers with its own code: converting an error of the
/// catalogue into an `ApiError` keeps its number as the answer's status.
pub proof fn lemma_business_error_keeps_code(e: ErrorCode)
    ensures
        spec_code(&<ApiError as FromSpec<ErrorCode>>::from_spec(e)) == e.code,
{
}

} // verus!
