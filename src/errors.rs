use vstd::prelude::*;

verus! {

/// The kinds of failure that the service reports at its interfaces.
#[derive(Debug, Clone, Copy, PartialEq, Eq, Structural)]
pub enum ErrorCode {
    BadRequest,
    NotFound,
    DependencyFailed,
    InternalServerError,
}

/// The HTTP status code that stands for each error kind.
pub open spec fn status_of(code: ErrorCode) -> u16 {
    match code {
        ErrorCode::BadRequest => 400,
        ErrorCode::NotFound => 404,
        ErrorCode::DependencyFailed => 424,
        ErrorCode::InternalServerError => 500,
    }
}

impl ErrorCode {
    /// The HTTP status under which an error of this kind is answered.
    pub fn http_status(&self) -> (r: u16)
        ensures
            r == status_of(*self),
    {
        match self {
            ErrorCode::BadRequest => 400,
            ErrorCode::NotFound => 404,
            ErrorCode::DependencyFailed => 424,
            ErrorCode::InternalServerError => 500,
        }
    }
}

/// A typed failure with the message shown to the user.
#[derive(Debug)]
pub struct Error {
    pub error_code: ErrorCode,
    pub user_feedback: &'static str,
}

impl Error {
    pub fn new(error_code: ErrorCode, user_feedback: &'static str) -> (r: Self)
        ensures
            r.error_code == error_code,
            r.user_feedback == user_feedback,
    {
        Self { error_code, user_feedback }
    }

    /// The HTTP status under which this error is answered.
    pub fn http_status(&self) -> (r: u16)
        ensures
            r == status_of(self.error_code),
    {
        self.error_code.http_status()
    }
}

/// The failure of an HTTP handler whose cause is not shown to the client:
/// it is always answered as an internal server error.
pub struct AppError();

impl AppError {
    pub fn http_status(&self) -> (r: u16)
        ensures
            r == 500,
    {
        500
    }
}

} // verus!
