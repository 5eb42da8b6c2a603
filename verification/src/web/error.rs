//! Errors of the web interface.
use crate::text;
use vstd::prelude::*;

verus! {

/// The kinds of errors that a caller can tell apart.
#[derive(Debug, Clone, Copy, PartialEq, Eq, Structural)]
pub enum ErrorStatus {
    BadRequest,
    Conflict,
    Internal,
}

/// A refused request.
#[derive(Debug)]
pub struct AppError {
    pub status: ErrorStatus,
    pub message: String,
}

/// A refused request.
#[verifier::ext_equal]
pub struct AppErrorModel {
    pub status: ErrorStatus,
    pub message: Seq<char>,
}

impl DeepView for AppError {
    type V = AppErrorModel;

    open spec fn deep_view(&self) -> AppErrorModel {
        AppErrorModel { status: self.status, message: self.message@ }
    }
}

/// A request that does not fit the present state.
pub open spec fn conflict_error(message: Seq<char>) -> AppErrorModel {
    AppErrorModel { status: ErrorStatus::Conflict, message }
}

/// A request that makes no sense.
pub open spec fn bad_request_error(message: Seq<char>) -> AppErrorModel {
    AppErrorModel { status: ErrorStatus::BadRequest, message }
}

impl AppError {
    /// A request that makes no sense.
    pub fn bad_request(message: &str) -> (r: AppError)
        ensures
            r.deep_view() == bad_request_error(message@),
    {
        AppError { status: ErrorStatus::BadRequest, message: text::owned(message) }
    }

    /// A request that does not fit the present state.
    pub fn conflict(message: &str) -> (r: AppError)
        ensures
            r.deep_view() == conflict_error(message@),
    {
        AppError { status: ErrorStatus::Conflict, message: text::owned(message) }
    }

    /// A failure that is not the caller's.
    pub fn internal(message: &str) -> (r: AppError)
        ensures
            r.deep_view() == (AppErrorModel { status: ErrorStatus::Internal, message: message@ }),
    {
        AppError { status: ErrorStatus::Internal, message: text::owned(message) }
    }
}

} // verus!
