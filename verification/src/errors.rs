//! The errors of each log operation, and the service error code each one
//! reports.

use vstd::prelude::*;
use crate::codes::{ErrorCodes, GrpcStatus, error_code_of, error_code_from_grpc};

verus! {

/// A log record could not be converted between its wire form and its
/// in-memory form.
#[derive(Clone, Debug)]
pub struct RecordConversionError {
    pub message: String,
}

/// The transport to the log service could not be set up.
#[derive(Clone, Debug)]
pub struct TransportError {
    pub message: String,
}

/// The assignment policy could not place a key on the members it knows.
#[derive(Clone, Debug)]
pub struct AssignmentError {
    pub message: String,
    pub code: ErrorCodes,
}

/// The alternative log's client assigner could not hand out a client.
#[derive(Clone, Debug)]
pub enum ClientAssignmentError {
    NoClientFound(String),
    CouldNotAssign(AssignmentError),
}

/// The code a client assignment error reports.
pub open spec fn assignment_error_code(e: ClientAssignmentError) -> ErrorCodes {
    match e {
        ClientAssignmentError::NoClientFound(_) => ErrorCodes::Internal,
        ClientAssignmentError::CouldNotAssign(a) => a.code,
    }
}

impl ClientAssignmentError {
    /// The service error code of this error.
    pub fn code(&self) -> (r: ErrorCodes)
        ensures
            r == assignment_error_code(*self),
    {
        match self {
            ClientAssignmentError::NoClientFound(_) => ErrorCodes::Internal,
            ClientAssignmentError::CouldNotAssign(a) => a.code,
        }
    }
}

/// Reading from the log failed.
#[derive(Clone, Debug)]
pub enum GrpcPullLogsError {
    Backoff,
    FailedToPullLogs(GrpcStatus),
    FailedToScoutLogs(GrpcStatus),
    ConversionError(RecordConversionError),
    ClientAssignerError(ClientAssignmentError),
}

impl GrpcPullLogsError {
    /// The service error code of this error.
    pub fn code(&self) -> (r: ErrorCodes)
        ensures
            r == (match *self {
                GrpcPullLogsError::Backoff => ErrorCodes::Unavailable,
                GrpcPullLogsError::FailedToPullLogs(s) => error_code_of(s.code),
                GrpcPullLogsError::FailedToScoutLogs(s) => error_code_of(s.code),
                GrpcPullLogsError::ConversionError(_) => ErrorCodes::Internal,
                GrpcPullLogsError::ClientAssignerError(e) => assignment_error_code(e),
            }),
    {
        match self {
            GrpcPullLogsError::Backoff => ErrorCodes::Unavailable,
            GrpcPullLogsError::FailedToPullLogs(s) => error_code_from_grpc(s.code),
            GrpcPullLogsError::FailedToScoutLogs(s) => error_code_from_grpc(s.code),
            GrpcPullLogsError::ConversionError(_) => ErrorCodes::Internal,
            GrpcPullLogsError::ClientAssignerError(e) => e.code(),
        }
    }
}

/// Appending to the log failed.
#[derive(Clone, Debug)]
pub enum GrpcPushLogsError {
    Backoff,
    BackoffCompaction,
    Sealed,
    FailedToPushLogs(GrpcStatus),
    ConversionError(RecordConversionError),
    ClientAssignerError(ClientAssignmentError),
}

impl GrpcPushLogsError {
    /// The service error code of this error.
    pub fn code(&self) -> (r: ErrorCodes)
        ensures
            r == (match *self {
                GrpcPushLogsError::Backoff => ErrorCodes::AlreadyExists,
                GrpcPushLogsError::BackoffCompaction => ErrorCodes::AlreadyExists,
                GrpcPushLogsError::Sealed => ErrorCodes::FailedPrecondition,
                GrpcPushLogsError::FailedToPushLogs(_) => ErrorCodes::Internal,
                GrpcPushLogsError::ConversionError(_) => ErrorCodes::Internal,
                GrpcPushLogsError::ClientAssignerError(e) => assignment_error_code(e),
            }),
    {
        match self {
            GrpcPushLogsError::Backoff => ErrorCodes::AlreadyExists,
            GrpcPushLogsError::BackoffCompaction => ErrorCodes::AlreadyExists,
            GrpcPushLogsError::FailedToPushLogs(_) => ErrorCodes::Internal,
            GrpcPushLogsError::ConversionError(_) => ErrorCodes::Internal,
            GrpcPushLogsError::Sealed => ErrorCodes::FailedPrecondition,
            GrpcPushLogsError::ClientAssignerError(e) => e.code(),
        }
    }
}

/// Forking a log failed.
#[derive(Clone, Debug)]
pub enum GrpcForkLogsError {
    Backoff,
    FailedToForkLogs(GrpcStatus),
    ClientAssignerError(ClientAssignmentError),
}

impl GrpcForkLogsError {
    /// The service error code of this error.
    pub fn code(&self) -> (r: ErrorCodes)
        ensures
            r == (match *self {
                GrpcForkLogsError::Backoff => ErrorCodes::Unavailable,
                GrpcForkLogsError::FailedToForkLogs(_) => ErrorCodes::Internal,
                GrpcForkLogsError::ClientAssignerError(e) => assignment_error_code(e),
            }),
    {
        match self {
            GrpcForkLogsError::Backoff => ErrorCodes::Unavailable,
            GrpcForkLogsError::FailedToForkLogs(_) => ErrorCodes::Internal,
            GrpcForkLogsError::ClientAssignerError(e) => e.code(),
        }
    }
}

/// Asking which collections need compaction failed.
#[derive(Clone, Debug)]
pub enum GrpcGetCollectionsWithNewDataError {
    FailedGetCollectionsWithNewData(GrpcStatus),
}

impl GrpcGetCollectionsWithNewDataError {
    /// The service error code of this error: always `Internal`.
    pub fn code(&self) -> (r: ErrorCodes)
        ensures
            r == ErrorCodes::Internal,
    {
        match self {
            GrpcGetCollectionsWithNewDataError::FailedGetCollectionsWithNewData(_) => {
                ErrorCodes::Internal
            },
        }
    }
}

/// Recording a collection's compaction offset failed.
#[derive(Clone, Debug)]
pub enum GrpcUpdateCollectionLogOffsetError {
    FailedToUpdateCollectionLogOffset(GrpcStatus),
    ClientAssignerError(ClientAssignmentError),
}

impl GrpcUpdateCollectionLogOffsetError {
    /// The service error code of this error.
    pub fn code(&self) -> (r: ErrorCodes)
        ensures
            r == (match *self {
                GrpcUpdateCollectionLogOffsetError::FailedToUpdateCollectionLogOffset(
                    _,
                ) => ErrorCodes::Internal,
                GrpcUpdateCollectionLogOffsetError::ClientAssignerError(e) => assignment_error_code(
                    e,
                ),
            }),
    {
        match self {
            GrpcUpdateCollectionLogOffsetError::FailedToUpdateCollectionLogOffset(_) => {
                ErrorCodes::Internal
            },
            GrpcUpdateCollectionLogOffsetError::ClientAssignerError(e) => e.code(),
        }
    }
}

/// Purging the dirty log of collections failed.
#[derive(Clone, Debug)]
pub enum GrpcPurgeDirtyForCollectionError {
    FailedToPurgeDirty(GrpcStatus),
}

impl GrpcPurgeDirtyForCollectionError {
    /// The service error code of this error: always `Internal`.
    pub fn code(&self) -> (r: ErrorCodes)
        ensures
            r == ErrorCodes::Internal,
    {
        match self {
            GrpcPurgeDirtyForCollectionError::FailedToPurgeDirty(_) => ErrorCodes::Internal,
        }
    }
}

/// Sealing a collection's log failed.
#[derive(Clone, Debug)]
pub enum GrpcSealLogError {
    FailedToSeal(GrpcStatus),
    ClientAssignerError(ClientAssignmentError),
}

impl GrpcSealLogError {
    /// The service error code of this error.
    pub fn code(&self) -> (r: ErrorCodes)
        ensures
            r == (match *self {
                GrpcSealLogError::FailedToSeal(_) => ErrorCodes::Internal,
                GrpcSealLogError::ClientAssignerError(e) => assignment_error_code(e),
            }),
    {
        match self {
            GrpcSealLogError::FailedToSeal(_) => ErrorCodes::Internal,
            GrpcSealLogError::ClientAssignerError(e) => e.code(),
        }
    }
}

/// Migrating a collection's log failed.
#[derive(Clone, Debug)]
pub enum GrpcMigrateLogError {
    FailedToMigrate(GrpcStatus),
    ClientAssignerError(ClientAssignmentError),
    NotSupported,
}

impl GrpcMigrateLogError {
    /// The service error code of this error.
    pub fn code(&self) -> (r: ErrorCodes)
        ensures
            r == (match *self {
                GrpcMigrateLogError::FailedToMigrate(s) => error_code_of(s.code),
                GrpcMigrateLogError::ClientAssignerError(e) => assignment_error_code(e),
                GrpcMigrateLogError::NotSupported => ErrorCodes::Unimplemented,
            }),
    {
        match self {
            GrpcMigrateLogError::FailedToMigrate(status) => error_code_from_grpc(status.code),
            GrpcMigrateLogError::ClientAssignerError(e) => e.code(),
            GrpcMigrateLogError::NotSupported => ErrorCodes::Unimplemented,
        }
    }
}

/// Connecting to the log service failed.
#[derive(Clone, Debug)]
pub enum GrpcLogError {
    FailedToConnect(TransportError),
}

impl GrpcLogError {
    /// The service error code of this error: always `Internal`.
    pub fn code(&self) -> (r: ErrorCodes)
        ensures
            r == ErrorCodes::Internal,
    {
        match self {
            GrpcLogError::FailedToConnect(_) => ErrorCodes::Internal,
        }
    }
}

/// Garbage collection of a log failed, or is not available.
#[derive(Clone, Debug)]
pub enum GarbageCollectError {
    NotEnabled,
    Resolution(String),
    Status(GrpcStatus),
    ClientAssignerError(ClientAssignmentError),
}

} // verus!
