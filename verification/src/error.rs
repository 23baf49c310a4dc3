use vstd::prelude::*;

verus! {

/// The HTTP-level class of a refused request.
#[derive(Clone, Copy, Debug, PartialEq, Eq, Structural)]
pub enum ErrorKind {
    BadRequest,
    Unauthorized,
    Forbidden,
    Internal,
}

/// An error answered to an API caller: its class and its message.
#[derive(Debug)]
pub struct ApiError {
    pub kind: ErrorKind,
    pub message: String,
}

pub type ApiResult<T> = Result<T, ApiError>;

/// Holds when `e` is a bad-request error whose message is `msg`.
pub open spec fn is_bad_request(e: ApiError, msg: Seq<char>) -> bool {
    e.kind == ErrorKind::BadRequest && e.message@ == msg
}

/// Holds when `e` is an error of class `kind` whose message is `msg`.
pub open spec fn is_error(e: ApiError, kind: ErrorKind, msg: Seq<char>) -> bool {
    e.kind == kind && e.message@ == msg
}

impl ApiError {
    /// An error of class `kind` with the message `message`.
    pub fn new(kind: ErrorKind, message: &str) -> (e: ApiError)
        ensures
            is_error(e, kind, message@),
    {
        ApiError { kind, message: String::from_str(message) }
    }

    /// A bad-request error with the message `message`.
    pub fn bad_request(message: &str) -> (e: ApiError)
        ensures
            is_bad_request(e, message@),
    {
        ApiError::new(ErrorKind::BadRequest, message)
    }

    /// An unauthorized error with the message `message`.
    pub fn unauthorized(message: &str) -> (e: ApiError)
        ensures
            is_error(e, ErrorKind::Unauthorized, message@),
    {
        ApiError::new(ErrorKind::Unauthorized, message)
    }

    /// A forbidden error with the message `message`.
    pub fn forbidden(message: &str) -> (e: ApiError)
        ensures
            is_error(e, ErrorKind::Forbidden, message@),
    {
        ApiError::new(ErrorKind::Forbidden, message)
    }

    /// An internal error with the message `message`.
    pub fn internal(message: &str) -> (e: ApiError)
        ensures
            is_error(e, ErrorKind::Internal, message@),
    {
        ApiError::new(ErrorKind::Internal, message)
    }

    /// A bad-request error whose message is `field` followed by `suffix`
    /// (for messages such as "name is required").
    pub fn bad_request_field(field: &str, suffix: &str) -> (e: ApiError)
        ensures
            is_bad_request(e, field@ + suffix@),
    {
        let message = String::from_str(field).concat(suffix);
        ApiError { kind: ErrorKind::BadRequest, message }
    }

    /// A bad-request error carrying an already composed message.
    pub fn bad_request_text(message: String) -> (e: ApiError)
        ensures
            is_bad_request(e, message@),
    {
        ApiError { kind: ErrorKind::BadRequest, message }
    }

    /// The message text of this error.
    pub fn message(&self) -> (m: String)
        ensures
            m@ == self.message@,
    {
        self.message.clone()
    }
}

} // verus!
