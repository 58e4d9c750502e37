//! Application errors and their rendering for response envelopes: the
//! error-code capability, and the request-level error taxonomy that
//! wraps a service's own errors.

use vstd::prelude::*;
use vstd::string::StringExecFns;

verus! {

/// The capability of an application error: it reports a numeric code
/// and renders a human-readable message.
pub trait Error {
    /// The error's numeric code.  A verified implementation overrides
    /// this with the codes it reports; the default, for
    /// implementations living outside the verifier, claims nothing
    /// useful.
    open spec fn spec_code(&self) -> int {
        0
    }

    /// The error's message text, overridden the same way.
    open spec fn spec_message(&self) -> Seq<char> {
        Seq::empty()
    }

    /// Report the error code.
    fn error_code(&self) -> (c: u16)
        ensures
            c as int == self.spec_code(),
    ;

    /// Render the message.
    fn message(&self) -> (m: String)
        ensures
            m@ == self.spec_message(),
    ;
}

/// A plain integer-code capability, for errors that carry a wider code
/// and nothing else.
pub trait ErrorCode {
    /// Report the error code.
    fn error_code(&self) -> i32;
}

/// The error half of a response envelope: the code and message taken
/// from an application error, with the error itself kept alongside.
pub struct ApiError<E: Error> {
    code: u16,
    message: String,
    inner: E,
}

impl<E: Error> ApiError<E> {
    /// The recorded code.
    pub closed spec fn spec_code(&self) -> int {
        self.code as int
    }

    /// The recorded message.
    pub closed spec fn spec_message(&self) -> Seq<char> {
        self.message@
    }

    /// The wrapped error.
    pub closed spec fn spec_inner(&self) -> &E {
        &self.inner
    }

    /// Record an application error with its code and message.
    pub fn new(err: E) -> (r: ApiError<E>)
        ensures
            r.spec_code() == err.spec_code(),
            r.spec_message() == err.spec_message(),
            r.spec_inner() == err,
    {
        let code = err.error_code();
        let message = err.message();
        ApiError { code, message, inner: err }
    }

    /// The recorded code.
    pub fn code(&self) -> (c: u16)
        ensures
            c as int == self.spec_code(),
    {
        self.code
    }

    /// The recorded message.
    pub fn message(&self) -> (m: &String)
        ensures
            m@ == self.spec_message(),
    {
        &self.message
    }
}

/// The status of a response envelope.
#[derive(Clone, Copy, Debug, PartialEq, Eq, Structural)]
pub enum ApiResponseStatus {
    /// The request was handled.
    Success,
    /// The request failed; the envelope carries the error.
    Failed,
}

impl ApiResponseStatus {
    /// The status line as it is rendered.
    pub fn text(&self) -> (r: &'static str)
        ensures
            self is Success ==> r@ == "success"@,
            self is Failed ==> r@ == "failed"@,
    {
        match self {
            ApiResponseStatus::Success => "success",
            ApiResponseStatus::Failed => "failed",
        }
    }
}

/// A response envelope: the status, the data of a success, or the
/// error of a failure — never both.
pub struct ApiResponse<V, E: Error> {
    /// Whether the request succeeded.
    pub status: ApiResponseStatus,
    /// The data returned on success.
    pub data: Option<V>,
    /// The error recorded on failure.
    pub error: Option<ApiError<E>>,
}

impl<V, E: Error> ApiResponse<V, E> {
    /// A failed envelope, recording the error's code and message.
    pub fn error(err: E) -> (r: ApiResponse<V, E>)
        ensures
            r.status is Failed,
            r.data is None,
            r.error matches Some(ae) && ae.spec_code() == err.spec_code() && ae.spec_message()
                == err.spec_message(),
    {
        ApiResponse { status: ApiResponseStatus::Failed, data: None, error: Some(ApiError::new(err)) }
    }

    /// A successful envelope carrying its data.
    pub fn success(data: V) -> (r: ApiResponse<V, E>)
        ensures
            r.status is Success,
            r.data == Some(data),
            r.error is None,
    {
        ApiResponse { status: ApiResponseStatus::Success, data: Some(data), error: None }
    }
}

/// Everything that can go wrong with a request: the fixed request
/// failures, and the wrapped errors of the service that handled it.
/// Variants without a code of their own report the default code 200.
pub enum RequestError<E: Error> {
    /// The caller is not authenticated.
    Unauthorized,
    /// The request itself is ill-formed; the message names the reason.
    BadRequest(String),
    /// The server failed; the message is kept, not rendered.
    InternalServerError(String),
    /// The service refused the request with its own error.
    ServiceError(E),
}

impl<E: Error> Error for RequestError<E> {
    open spec fn spec_code(&self) -> int {
        match self {
            RequestError::Unauthorized => 401,
            RequestError::BadRequest(_) => 400,
            RequestError::InternalServerError(_) => 500,
            RequestError::ServiceError(_) => 200,
        }
    }

    open spec fn spec_message(&self) -> Seq<char> {
        match self {
            RequestError::Unauthorized => "Unauthorized"@,
            RequestError::BadRequest(m) => "BadRequest:"@ + m@,
            RequestError::InternalServerError(_) => "InternalServerError"@,
            RequestError::ServiceError(e) => e.spec_message(),
        }
    }

    fn error_code(&self) -> (c: u16) {
        match self {
            RequestError::Unauthorized => 401,
            RequestError::BadRequest(_) => 400,
            RequestError::InternalServerError(_) => 500,
            RequestError::ServiceError(_) => 200,
        }
    }

    fn message(&self) -> (m: String) {
        match self {
            RequestError::Unauthorized => String::from_str("Unauthorized"),
            RequestError::BadRequest(reason) => {
                let mut m = String::from_str("BadRequest:");
                m.append(reason.as_str());
                m
            },
            RequestError::InternalServerError(_) => String::from_str("InternalServerError"),
            RequestError::ServiceError(e) => e.message(),
        }
    }
}

} // verus!
