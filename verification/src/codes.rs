//! Status codes: the ones an RPC answers with, and the service-wide
//! `ErrorCodes` that every error of this crate reports.

use vstd::prelude::*;

verus! {

/// The status code carried by a failed RPC (the gRPC code set).
#[derive(Clone, Copy, Debug, PartialEq, Eq, Structural)]
pub enum GrpcCode {
    Succeeded,
    Cancelled,
    Unknown,
    InvalidArgument,
    DeadlineExceeded,
    NotFound,
    AlreadyExists,
    PermissionDenied,
    ResourceExhausted,
    FailedPrecondition,
    Aborted,
    OutOfRange,
    Unimplemented,
    Internal,
    Unavailable,
    DataLoss,
    Unauthenticated,
}

/// The error codes that every error of the service reports.
#[derive(Clone, Copy, Debug, PartialEq, Eq, Structural)]
pub enum ErrorCodes {
    Success,
    Cancelled,
    Unknown,
    InvalidArgument,
    DeadlineExceeded,
    NotFound,
    AlreadyExists,
    PermissionDenied,
    ResourceExhausted,
    FailedPrecondition,
    Aborted,
    OutOfRange,
    Unimplemented,
    Internal,
    Unavailable,
    DataLoss,
    Unauthenticated,
}

/// The failure of an RPC: its code and the message the server sent.
#[derive(Clone, Debug)]
pub struct GrpcStatus {
    pub code: GrpcCode,
    pub message: String,
}

/// How an RPC status code reads as a service error code: code for code, with
/// `Ok` read as `Success`.
pub open spec fn error_code_of(code: GrpcCode) -> ErrorCodes {
    match code {
        GrpcCode::Succeeded => ErrorCodes::Success,
        GrpcCode::Cancelled => ErrorCodes::Cancelled,
        GrpcCode::Unknown => ErrorCodes::Unknown,
        GrpcCode::InvalidArgument => ErrorCodes::InvalidArgument,
        GrpcCode::DeadlineExceeded => ErrorCodes::DeadlineExceeded,
        GrpcCode::NotFound => ErrorCodes::NotFound,
        GrpcCode::AlreadyExists => ErrorCodes::AlreadyExists,
        GrpcCode::PermissionDenied => ErrorCodes::PermissionDenied,
        GrpcCode::ResourceExhausted => ErrorCodes::ResourceExhausted,
        GrpcCode::FailedPrecondition => ErrorCodes::FailedPrecondition,
        GrpcCode::Aborted => ErrorCodes::Aborted,
        GrpcCode::OutOfRange => ErrorCodes::OutOfRange,
        GrpcCode::Unimplemented => ErrorCodes::Unimplemented,
        GrpcCode::Internal => ErrorCodes::Internal,
        GrpcCode::Unavailable => ErrorCodes::Unavailable,
        GrpcCode::DataLoss => ErrorCodes::DataLoss,
        GrpcCode::Unauthenticated => ErrorCodes::Unauthenticated,
    }
}

/// Each RPC status code reads as the service error code of the same name
/// (`Succeeded` as `Success`): the reading is code for code.
pub proof fn lemma_error_code_same_name()
    ensures
        error_code_of(GrpcCode::Succeeded) == ErrorCodes::Success,
        error_code_of(GrpcCode::Cancelled) == ErrorCodes::Cancelled,
        error_code_of(GrpcCode::Unknown) == ErrorCodes::Unknown,
        error_code_of(GrpcCode::InvalidArgument) == ErrorCodes::InvalidArgument,
        error_code_of(GrpcCode::DeadlineExceeded) == ErrorCodes::DeadlineExceeded,
        error_code_of(GrpcCode::NotFound) == ErrorCodes::NotFound,
        error_code_of(GrpcCode::AlreadyExists) == ErrorCodes::AlreadyExists,
        error_code_of(GrpcCode::PermissionDenied) == ErrorCodes::PermissionDenied,
        error_code_of(GrpcCode::ResourceExhausted) == ErrorCodes::ResourceExhausted,
        error_code_of(GrpcCode::FailedPrecondition) == ErrorCodes::FailedPrecondition,
        error_code_of(GrpcCode::Aborted) == ErrorCodes::Aborted,
        error_code_of(GrpcCode::OutOfRange) == ErrorCodes::OutOfRange,
        error_code_of(GrpcCode::Unimplemented) == ErrorCodes::Unimplemented,
        error_code_of(GrpcCode::Internal) == ErrorCodes::Internal,
        error_code_of(GrpcCode::Unavailable) == ErrorCodes::Unavailable,
        error_code_of(GrpcCode::DataLoss) == ErrorCodes::DataLoss,
        error_code_of(GrpcCode::Unauthenticated) == ErrorCodes::Unauthenticated,
{
}

/// Distinct RPC status codes read as distinct service error codes, and
/// every service error code is the reading of some status code.
pub proof fn lemma_error_code_bijective(a: GrpcCode, b: GrpcCode, e: ErrorCodes)
    ensures
        error_code_of(a) == error_code_of(b) ==> a == b,
        exists|c: GrpcCode| error_code_of(c) == e,
{
    lemma_error_code_same_name();
    match e {
        ErrorCodes::Success => assert(error_code_of(GrpcCode::Succeeded) == e),
        ErrorCodes::Cancelled => assert(error_code_of(GrpcCode::Cancelled) == e),
        ErrorCodes::Unknown => assert(error_code_of(GrpcCode::Unknown) == e),
        ErrorCodes::InvalidArgument => assert(error_code_of(GrpcCode::InvalidArgument) == e),
        ErrorCodes::DeadlineExceeded => assert(error_code_of(GrpcCode::DeadlineExceeded) == e),
        ErrorCodes::NotFound => assert(error_code_of(GrpcCode::NotFound) == e),
        ErrorCodes::AlreadyExists => assert(error_code_of(GrpcCode::AlreadyExists) == e),
        ErrorCodes::PermissionDenied => assert(error_code_of(GrpcCode::PermissionDenied) == e),
        ErrorCodes::ResourceExhausted => assert(error_code_of(GrpcCode::ResourceExhausted) == e),
        ErrorCodes::FailedPrecondition => assert(error_code_of(GrpcCode::FailedPrecondition) == e),
        ErrorCodes::Aborted => assert(error_code_of(GrpcCode::Aborted) == e),
        ErrorCodes::OutOfRange => assert(error_code_of(GrpcCode::OutOfRange) == e),
        ErrorCodes::Unimplemented => assert(error_code_of(GrpcCode::Unimplemented) == e),
        ErrorCodes::Internal => assert(error_code_of(GrpcCode::Internal) == e),
        ErrorCodes::Unavailable => assert(error_code_of(GrpcCode::Unavailable) == e),
        ErrorCodes::DataLoss => assert(error_code_of(GrpcCode::DataLoss) == e),
        ErrorCodes::Unauthenticated => assert(error_code_of(GrpcCode::Unauthenticated) == e),
    }
}

/// Reads an RPC status code as a service error code.
pub fn error_code_from_grpc(code: GrpcCode) -> (r: ErrorCodes)
    ensures
        r == error_code_of(code),
{
    match code {
        GrpcCode::Succeeded => ErrorCodes::Success,
        GrpcCode::Cancelled => ErrorCodes::Cancelled,
        GrpcCode::Unknown => ErrorCodes::Unknown,
        GrpcCode::InvalidArgument => ErrorCodes::InvalidArgument,
        GrpcCode::DeadlineExceeded => ErrorCodes::DeadlineExceeded,
        GrpcCode::NotFound => ErrorCodes::NotFound,
        GrpcCode::AlreadyExists => ErrorCodes::AlreadyExists,
        GrpcCode::PermissionDenied => ErrorCodes::PermissionDenied,
        GrpcCode::ResourceExhausted => ErrorCodes::ResourceExhausted,
        GrpcCode::FailedPrecondition => ErrorCodes::FailedPrecondition,
        GrpcCode::Aborted => ErrorCodes::Aborted,
        GrpcCode::OutOfRange => ErrorCodes::OutOfRange,
        GrpcCode::Unimplemented => ErrorCodes::Unimplemented,
        GrpcCode::Internal => ErrorCodes::Internal,
        GrpcCode::Unavailable => ErrorCodes::Unavailable,
        GrpcCode::DataLoss => ErrorCodes::DataLoss,
        GrpcCode::Unauthenticated => ErrorCodes::Unauthenticated,
    }
}

impl GrpcStatus {
    /// The service error code of this status.
    pub fn error_code(&self) -> (r: ErrorCodes)
        ensures
            r == error_code_of(self.code),
    {
        error_code_from_grpc(self.code)
    }
}

} // verus!
