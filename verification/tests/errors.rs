use chroma_log::codes::{error_code_from_grpc, ErrorCodes, GrpcCode, GrpcStatus};
use chroma_log::errors::{
    AssignmentError, ClientAssignmentError, GrpcForkLogsError, GrpcGetCollectionsWithNewDataError,
    GrpcLogError, GrpcMigrateLogError, GrpcPullLogsError, GrpcPurgeDirtyForCollectionError,
    GrpcPushLogsError, GrpcSealLogError, GrpcUpdateCollectionLogOffsetError,
    RecordConversionError, TransportError,
};

fn status(code: GrpcCode) -> GrpcStatus {
    GrpcStatus {
        code,
        message: "boom".to_string(),
    }
}

fn conversion() -> RecordConversionError {
    RecordConversionError {
        message: "bad record".to_string(),
    }
}

fn no_client() -> ClientAssignmentError {
    ClientAssignmentError::NoClientFound("none".to_string())
}

fn could_not_assign() -> ClientAssignmentError {
    ClientAssignmentError::CouldNotAssign(AssignmentError {
        message: "no members".to_string(),
        code: ErrorCodes::ResourceExhausted,
    })
}

#[test]
fn grpc_codes_map_one_to_one() {
    assert_eq!(error_code_from_grpc(GrpcCode::Succeeded), ErrorCodes::Success);
    assert_eq!(error_code_from_grpc(GrpcCode::NotFound), ErrorCodes::NotFound);
    assert_eq!(error_code_from_grpc(GrpcCode::Unavailable), ErrorCodes::Unavailable);
    assert_eq!(error_code_from_grpc(GrpcCode::Unauthenticated), ErrorCodes::Unauthenticated);
    assert_eq!(error_code_from_grpc(GrpcCode::DataLoss), ErrorCodes::DataLoss);
    assert_eq!(status(GrpcCode::Aborted).error_code(), ErrorCodes::Aborted);
}

#[test]
fn client_assignment_codes() {
    assert_eq!(no_client().code(), ErrorCodes::Internal);
    assert_eq!(could_not_assign().code(), ErrorCodes::ResourceExhausted);
}

#[test]
fn pull_logs_error_codes() {
    assert_eq!(GrpcPullLogsError::Backoff.code(), ErrorCodes::Unavailable);
    assert_eq!(
        GrpcPullLogsError::FailedToPullLogs(status(GrpcCode::NotFound)).code(),
        ErrorCodes::NotFound
    );
    assert_eq!(
        GrpcPullLogsError::FailedToScoutLogs(status(GrpcCode::PermissionDenied)).code(),
        ErrorCodes::PermissionDenied
    );
    assert_eq!(GrpcPullLogsError::ConversionError(conversion()).code(), ErrorCodes::Internal);
    assert_eq!(
        GrpcPullLogsError::ClientAssignerError(could_not_assign()).code(),
        ErrorCodes::ResourceExhausted
    );
}

#[test]
fn push_logs_error_codes() {
    assert_eq!(GrpcPushLogsError::Backoff.code(), ErrorCodes::AlreadyExists);
    assert_eq!(GrpcPushLogsError::BackoffCompaction.code(), ErrorCodes::AlreadyExists);
    assert_eq!(GrpcPushLogsError::Sealed.code(), ErrorCodes::FailedPrecondition);
    assert_eq!(
        GrpcPushLogsError::FailedToPushLogs(status(GrpcCode::NotFound)).code(),
        ErrorCodes::Internal
    );
    assert_eq!(GrpcPushLogsError::ConversionError(conversion()).code(), ErrorCodes::Internal);
    assert_eq!(GrpcPushLogsError::ClientAssignerError(no_client()).code(), ErrorCodes::Internal);
}

#[test]
fn fork_logs_error_codes() {
    assert_eq!(GrpcForkLogsError::Backoff.code(), ErrorCodes::Unavailable);
    assert_eq!(
        GrpcForkLogsError::FailedToForkLogs(status(GrpcCode::Unavailable)).code(),
        ErrorCodes::Internal
    );
    assert_eq!(
        GrpcForkLogsError::ClientAssignerError(could_not_assign()).code(),
        ErrorCodes::ResourceExhausted
    );
}

#[test]
fn single_code_errors() {
    assert_eq!(
        GrpcGetCollectionsWithNewDataError::FailedGetCollectionsWithNewData(status(
            GrpcCode::NotFound
        ))
        .code(),
        ErrorCodes::Internal
    );
    assert_eq!(
        GrpcPurgeDirtyForCollectionError::FailedToPurgeDirty(status(GrpcCode::NotFound)).code(),
        ErrorCodes::Internal
    );
    assert_eq!(
        GrpcLogError::FailedToConnect(TransportError {
            message: "refused".to_string()
        })
        .code(),
        ErrorCodes::Internal
    );
}

#[test]
fn update_offset_and_seal_error_codes() {
    assert_eq!(
        GrpcUpdateCollectionLogOffsetError::FailedToUpdateCollectionLogOffset(status(
            GrpcCode::NotFound
        ))
        .code(),
        ErrorCodes::Internal
    );
    assert_eq!(
        GrpcUpdateCollectionLogOffsetError::ClientAssignerError(could_not_assign()).code(),
        ErrorCodes::ResourceExhausted
    );
    assert_eq!(
        GrpcSealLogError::FailedToSeal(status(GrpcCode::NotFound)).code(),
        ErrorCodes::Internal
    );
    assert_eq!(
        GrpcSealLogError::ClientAssignerError(no_client()).code(),
        ErrorCodes::Internal
    );
}

#[test]
fn migrate_log_error_codes() {
    assert_eq!(
        GrpcMigrateLogError::FailedToMigrate(status(GrpcCode::NotFound)).code(),
        ErrorCodes::NotFound
    );
    assert_eq!(
        GrpcMigrateLogError::ClientAssignerError(could_not_assign()).code(),
        ErrorCodes::ResourceExhausted
    );
    assert_eq!(GrpcMigrateLogError::NotSupported.code(), ErrorCodes::Unimplemented);
}
