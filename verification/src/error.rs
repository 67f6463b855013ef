use vstd::prelude::*;

verus! {

/// The HTTP status class of a refused request.
#[derive(Debug, Clone, Copy, PartialEq, Eq, Structural)]
pub enum ErrorStatus {
    BadRequest,
    Unauthorized,
    Forbidden,
    NotFound,
    TooManyRequests,
    Internal,
}

impl ErrorStatus {
    /// The numeric HTTP status code.
    pub fn code(self) -> (c: u16)
        ensures
            c == self.spec_code(),
    {
        match self {
            ErrorStatus::BadRequest => 400,
            ErrorStatus::Unauthorized => 401,
            ErrorStatus::Forbidden => 403,
            ErrorStatus::NotFound => 404,
            ErrorStatus::TooManyRequests => 429,
            ErrorStatus::Internal => 500,
        }
    }

    pub open spec fn spec_code(self) -> u16 {
        match self {
            ErrorStatus::BadRequest => 400,
            ErrorStatus::Unauthorized => 401,
            ErrorStatus::Forbidden => 403,
            ErrorStatus::NotFound => 404,
            ErrorStatus::TooManyRequests => 429,
            ErrorStatus::Internal => 500,
        }
    }
}

/// An error answered to a client: a status and a message.
#[derive(Debug)]
pub struct AppError {
    pub status: ErrorStatus,
    pub message: String,
}

impl AppError {
    pub fn bad_request(message: &str) -> (e: AppError)
        ensures
            e.status == ErrorStatus::BadRequest,
            e.message@ == message@,
    {
        AppError { status: ErrorStatus::BadRequest, message: message.to_owned() }
    }

    pub fn unauthorized(message: &str) -> (e: AppError)
        ensures
            e.status == ErrorStatus::Unauthorized,
            e.message@ == message@,
    {
        AppError { status: ErrorStatus::Unauthorized, message: message.to_owned() }
    }

    pub fn forbidden(message: &str) -> (e: AppError)
        ensures
            e.status == ErrorStatus::Forbidden,
            e.message@ == message@,
    {
        AppError { status: ErrorStatus::Forbidden, message: message.to_owned() }
    }

    pub fn not_found(message: &str) -> (e: AppError)
        ensures
            e.status == ErrorStatus::NotFound,
            e.message@ == message@,
    {
        AppError { status: ErrorStatus::NotFound, message: message.to_owned() }
    }

    pub fn too_many_requests(message: &str) -> (e: AppError)
        ensures
            e.status == ErrorStatus::TooManyRequests,
            e.message@ == message@,
    {
        AppError { status: ErrorStatus::TooManyRequests, message: message.to_owned() }
    }

    pub fn internal(message: &str) -> (e: AppError)
        ensures
            e.status == ErrorStatus::Internal,
            e.message@ == message@,
    {
        AppError { status: ErrorStatus::Internal, message: message.to_owned() }
    }
}

} // verus!
