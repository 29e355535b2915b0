use chroma_log::codes::{GrpcCode, GrpcStatus};
use chroma_log::collection_id::CollectionUuid;
use chroma_log::config::GrpcLogConfig;
use chroma_log::errors::{
    ClientAssignmentError, GarbageCollectError, GrpcForkLogsError, GrpcMigrateLogError,
    GrpcPullLogsError, GrpcPushLogsError, GrpcSealLogError, GrpcUpdateCollectionLogOffsetError,
    RecordConversionError,
};
use chroma_log::rpc::{
    connection_string, dirty_log_connect_error, dirty_log_endpoint,
    dirty_log_garbage_collect_request, dirty_log_name, fork_logs_request, fork_logs_response,
    garbage_collect_client, garbage_collect_phase2_request, garbage_collect_response,
    get_all_collection_info_to_compact_request, migrate_log_client, migrate_log_request,
    migrate_log_response, pull_logs_request, purge_dirty_for_collection_request,
    push_logs_request, push_logs_response, read_response, scout_logs_request,
    scout_logs_response, seal_log_request, seal_log_response,
    update_collection_log_offset_request, update_collection_log_offset_response, ForkLogsResponse,
    LogToCollect,
};
use chroma_log::endpoint::{dirty_log_endpoint_checked, primary_endpoint};
use chroma_log::errors::GrpcLogError;
use chroma_log::text::decimal_string;

const ID: &str = "12345678-1234-1234-1234-123456789abc";

fn id() -> CollectionUuid {
    CollectionUuid::parse(ID).unwrap()
}

fn status(code: GrpcCode) -> GrpcStatus {
    GrpcStatus {
        code,
        message: "boom".to_string(),
    }
}

fn bad(message: &str) -> RecordConversionError {
    RecordConversionError {
        message: message.to_string(),
    }
}

#[test]
fn collection_id_text_round_trip() {
    let c = id();
    assert_eq!(c.0, 0x12345678_1234_1234_1234_123456789abc_u128);
    assert_eq!(c.to_string(), ID);
    assert_eq!(CollectionUuid::parse(&c.to_string()), Some(c));
    assert_eq!(c.high_bits(), 0x12345678_1234_1234_u64);
    assert_eq!(
        CollectionUuid(0xA1A2A3A4B1B2C1C2D1D2D3D4D5D6D7D8).to_string(),
        "a1a2a3a4-b1b2-c1c2-d1d2-d3d4d5d6d7d8"
    );
    assert_eq!(CollectionUuid::parse("12345678123412341234123456789abc"), Some(c));
    assert_eq!(CollectionUuid::parse("12345678-1234"), None);
}

#[test]
fn decimal_text_of_numbers() {
    assert_eq!(decimal_string(0), "0");
    assert_eq!(decimal_string(7), "7");
    assert_eq!(decimal_string(50051), "50051");
    assert_eq!(decimal_string(u64::MAX), "18446744073709551615");
}

#[test]
fn scout_request_and_response() {
    assert_eq!(scout_logs_request(id(), 0).collection_id, ID);
    assert_eq!(scout_logs_request(id(), 99).collection_id, ID);
    assert_eq!(scout_logs_response(Ok(42)).unwrap(), 42);
    assert_eq!(scout_logs_response(Ok(-1)).unwrap(), u64::MAX);
    match scout_logs_response(Err(status(GrpcCode::Unavailable))) {
        Err(GrpcPullLogsError::FailedToScoutLogs(s)) => assert_eq!(s.code, GrpcCode::Unavailable),
        _ => panic!("expected FailedToScoutLogs"),
    }
}

#[test]
fn pull_request_defaults_end_timestamp() {
    let req = pull_logs_request(id(), 10, 100, None);
    assert_eq!(req.collection_id, ID);
    assert_eq!(req.start_from_offset, 10);
    assert_eq!(req.batch_size, 100);
    assert_eq!(req.end_timestamp, i64::MAX);
    assert_eq!(pull_logs_request(id(), 10, 100, Some(5)).end_timestamp, 5);
}

#[test]
fn read_response_outcomes() {
    let ok: Result<Vec<Result<u32, RecordConversionError>>, GrpcStatus> = Ok(vec![Ok(1), Ok(2)]);
    assert_eq!(read_response(ok).unwrap(), vec![1, 2]);
    let conv: Result<Vec<Result<u32, RecordConversionError>>, GrpcStatus> =
        Ok(vec![Ok(1), Err(bad("first")), Err(bad("second"))]);
    match read_response(conv) {
        Err(GrpcPullLogsError::ConversionError(e)) => assert_eq!(e.message, "first"),
        _ => panic!("expected ConversionError"),
    }
    let unavailable: Result<Vec<Result<u32, RecordConversionError>>, GrpcStatus> =
        Err(status(GrpcCode::Unavailable));
    assert!(matches!(read_response(unavailable), Err(GrpcPullLogsError::Backoff)));
    let not_found: Result<Vec<Result<u32, RecordConversionError>>, GrpcStatus> =
        Err(status(GrpcCode::NotFound));
    assert!(matches!(
        read_response(not_found),
        Err(GrpcPullLogsError::FailedToPullLogs(_))
    ));
}

#[test]
fn push_request_converts_records() {
    let req = push_logs_request(id(), vec![Ok(1u8), Ok(2u8)]).unwrap();
    assert_eq!(req.collection_id, ID);
    assert_eq!(req.records, vec![1, 2]);
    match push_logs_request(id(), vec![Ok(1u8), Err(bad("x")), Err(bad("y"))]) {
        Err(GrpcPushLogsError::ConversionError(e)) => assert_eq!(e.message, "x"),
        _ => panic!("expected ConversionError"),
    }
}

#[test]
fn push_response_outcomes() {
    assert!(push_logs_response(Ok(false)).is_ok());
    assert!(matches!(push_logs_response(Ok(true)), Err(GrpcPushLogsError::Sealed)));
    assert!(matches!(
        push_logs_response(Err(status(GrpcCode::Unavailable))),
        Err(GrpcPushLogsError::Backoff)
    ));
    assert!(matches!(
        push_logs_response(Err(status(GrpcCode::AlreadyExists))),
        Err(GrpcPushLogsError::Backoff)
    ));
    assert!(matches!(
        push_logs_response(Err(status(GrpcCode::ResourceExhausted))),
        Err(GrpcPushLogsError::BackoffCompaction)
    ));
    assert!(matches!(
        push_logs_response(Err(status(GrpcCode::Internal))),
        Err(GrpcPushLogsError::FailedToPushLogs(_))
    ));
}

#[test]
fn fork_request_and_response() {
    let other = CollectionUuid::parse("00000000-0000-0000-0000-000000000001").unwrap();
    let req = fork_logs_request(id(), other);
    assert_eq!(req.source_collection_id, ID);
    assert_eq!(req.target_collection_id, "00000000-0000-0000-0000-000000000001");
    let resp = ForkLogsResponse {
        compaction_offset: 3,
        enumeration_offset: 9,
    };
    assert_eq!(fork_logs_response(Ok(resp)).unwrap(), resp);
    assert!(matches!(
        fork_logs_response(Err(status(GrpcCode::Unavailable))),
        Err(GrpcForkLogsError::Backoff)
    ));
    assert!(matches!(
        fork_logs_response(Err(status(GrpcCode::Aborted))),
        Err(GrpcForkLogsError::FailedToForkLogs(_))
    ));
}

#[test]
fn small_requests() {
    assert_eq!(get_all_collection_info_to_compact_request(100).min_compaction_size, 100);
    let update = update_collection_log_offset_request(id(), 77);
    assert_eq!(update.collection_id, ID);
    assert_eq!(update.log_offset, 77);
    assert!(update_collection_log_offset_response(Ok(())).is_ok());
    assert!(matches!(
        update_collection_log_offset_response(Err(status(GrpcCode::NotFound))),
        Err(GrpcUpdateCollectionLogOffsetError::FailedToUpdateCollectionLogOffset(_))
    ));
    assert_eq!(seal_log_request(id()).collection_id, ID);
    assert!(seal_log_response(Ok(())).is_ok());
    assert!(matches!(
        seal_log_response(Err(status(GrpcCode::NotFound))),
        Err(GrpcSealLogError::FailedToSeal(_))
    ));
    let purge = purge_dirty_for_collection_request(&vec![
        id(),
        CollectionUuid::parse("00000000-0000-0000-0000-000000000001").unwrap(),
    ]);
    assert_eq!(
        purge.collection_ids,
        vec![ID.to_string(), "00000000-0000-0000-0000-000000000001".to_string()]
    );
}

#[test]
fn migrate_needs_alt_assigner() {
    assert_eq!(migrate_log_request(id()).collection_id, ID);
    assert!(matches!(
        migrate_log_client::<u8>(None),
        Err(GrpcMigrateLogError::NotSupported)
    ));
    assert_eq!(migrate_log_client(Some(Ok(vec![4u8, 5u8]))).unwrap(), 4);
    assert!(matches!(
        migrate_log_client::<u8>(Some(Ok(vec![]))),
        Err(GrpcMigrateLogError::ClientAssignerError(
            ClientAssignmentError::NoClientFound(_)
        ))
    ));
    assert!(migrate_log_response(Ok(())).is_ok());
    assert!(matches!(
        migrate_log_response(Err(status(GrpcCode::NotFound))),
        Err(GrpcMigrateLogError::FailedToMigrate(_))
    ));
}

#[test]
fn garbage_collection_needs_alt_assigner() {
    assert!(matches!(
        garbage_collect_client::<u8>(None),
        Err(GarbageCollectError::NotEnabled)
    ));
    assert_eq!(garbage_collect_client(Some(Ok(vec![9u8]))).unwrap(), 9);
    assert!(matches!(
        garbage_collect_client::<u8>(Some(Err(ClientAssignmentError::NoClientFound(
            "x".to_string()
        )))),
        Err(GarbageCollectError::ClientAssignerError(_))
    ));
    match garbage_collect_phase2_request(id()).log_to_collect {
        Some(LogToCollect::CollectionId(t)) => assert_eq!(t, ID),
        _ => panic!("expected a collection id"),
    }
    assert!(garbage_collect_response(Ok(())).is_ok());
    assert!(matches!(
        garbage_collect_response(Err(status(GrpcCode::NotFound))),
        Err(GarbageCollectError::Status(_))
    ));
}

#[test]
fn dirty_log_addresses() {
    assert_eq!(dirty_log_name(3), "rust-log-service-3");
    assert_eq!(
        dirty_log_endpoint(3),
        "grpc://rust-log-service-3.rust-log-service:50051"
    );
    match dirty_log_garbage_collect_request(12).log_to_collect {
        Some(LogToCollect::DirtyLog(t)) => assert_eq!(t, "rust-log-service-12"),
        _ => panic!("expected a dirty log"),
    }
    match dirty_log_connect_error(0, "refused") {
        GarbageCollectError::Resolution(m) => {
            assert_eq!(m, "could not connect to rust-log-service-0:50051: refused")
        }
        _ => panic!("expected Resolution"),
    }
}

#[test]
fn primary_connection_string() {
    let cfg = GrpcLogConfig {
        host: "logservice.chroma".to_string(),
        port: 50051,
        connect_timeout_ms: 1,
        request_timeout_ms: 1,
        max_encoding_message_size: 1,
        max_decoding_message_size: 1,
        alt_host_threshold: None,
        use_alt_for_tenants: vec![],
        use_alt_for_collections: vec![],
    };
    assert_eq!(connection_string(&cfg), "http://logservice.chroma:50051");
}

fn config_with_host(host: &str) -> GrpcLogConfig {
    GrpcLogConfig {
        host: host.to_string(),
        port: 50051,
        connect_timeout_ms: 100,
        request_timeout_ms: 200,
        max_encoding_message_size: 1,
        max_decoding_message_size: 1,
        alt_host_threshold: None,
        use_alt_for_tenants: vec![],
        use_alt_for_collections: vec![],
    }
}

#[test]
fn primary_endpoint_parses_the_address() {
    let endpoint = primary_endpoint(&config_with_host("logservice.chroma")).unwrap();
    assert_eq!(endpoint.endpoint().uri().to_string(), "http://logservice.chroma:50051/");
    assert!(matches!(
        primary_endpoint(&config_with_host("bad host")),
        Err(GrpcLogError::FailedToConnect(_))
    ));
}

#[test]
fn dirty_log_endpoint_parses_the_address() {
    let endpoint = dirty_log_endpoint_checked(4, &config_with_host("unused")).unwrap();
    assert_eq!(
        endpoint.endpoint().uri().to_string(),
        "grpc://rust-log-service-4.rust-log-service:50051/"
    );
}

#[test]
fn primary_client_settings_carry_the_limits() {
    let mut cfg = config_with_host("logservice.chroma");
    cfg.max_encoding_message_size = 1234;
    cfg.max_decoding_message_size = 5678;
    let settings = chroma_log::grpc_log::GrpcLog::primary_client_from_config(&cfg).unwrap();
    assert_eq!(settings.max_encoding_message_size, 1234);
    assert_eq!(settings.max_decoding_message_size, 5678);
    assert_eq!(
        settings.endpoint.endpoint().uri().to_string(),
        "http://logservice.chroma:50051/"
    );
    assert!(matches!(
        chroma_log::grpc_log::GrpcLog::primary_client_from_config(&config_with_host("bad host")),
        Err(GrpcLogError::FailedToConnect(_))
    ));
}
