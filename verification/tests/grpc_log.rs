use chroma_log::collection_id::CollectionUuid;
use chroma_log::collections::{GetAllCollectionInfoToCompactResponse, ProtoCollectionInfo};
use chroma_log::grpc_log::GrpcLog;

fn id(text: &str) -> CollectionUuid {
    CollectionUuid::parse(text).unwrap()
}

#[test]
fn client_is_on_alt_log() {
    assert!(!GrpcLog::client_is_on_alt_log(
        id("fffdb379-d592-41d1-8de6-412abc6e0b35"),
        None
    ));
    assert!(!GrpcLog::client_is_on_alt_log(
        id("fffdb379-d592-41d1-8de6-412abc6e0b35"),
        Some("00088272-cfc4-419d-997a-baebfb25034a"),
    ));
    assert!(GrpcLog::client_is_on_alt_log(
        id("00088272-cfc4-419d-997a-baebfb25034a"),
        Some("fffdb379-d592-41d1-8de6-412abc6e0b35"),
    ));
    assert!(GrpcLog::client_is_on_alt_log(
        id("fffdb379-d592-41d1-8de6-412abc6e0b35"),
        Some("fffdb379-d592-41d1-8de6-412abc6e0b35"),
    ));
    assert!(GrpcLog::client_is_on_alt_log(
        id("fffdb379-d592-41d1-8de6-412abc6e0b35"),
        Some("ffffffff-ffff-ffff-ffff-ffffffffffff"),
    ));
}

#[test]
fn post_process_get_all_returns_smaller_first_log_offset() {
    let collection_id = "12345678-1234-1234-1234-123456789abc";

    let response1 = GetAllCollectionInfoToCompactResponse {
        all_collection_info: vec![ProtoCollectionInfo {
            collection_id: collection_id.to_string(),
            first_log_offset: 100,
            first_log_ts: 1000,
        }],
    };

    let response2 = GetAllCollectionInfoToCompactResponse {
        all_collection_info: vec![ProtoCollectionInfo {
            collection_id: collection_id.to_string(),
            first_log_offset: 50,
            first_log_ts: 2000,
        }],
    };

    let combined_response = vec![response1, response2];
    let result = GrpcLog::post_process_get_all(combined_response).unwrap();

    assert_eq!(result.len(), 1);
    assert_eq!(result[0].first_log_offset, 50);
    assert_eq!(result[0].collection_id.to_string(), collection_id);
}

use chroma_log::config::GrpcLogConfig;
use chroma_log::errors::ClientAssignmentError;
use chroma_log::grpc_log::{first_assigned_client, ClientRoute};

fn config() -> GrpcLogConfig {
    GrpcLogConfig {
        host: "localhost".to_string(),
        port: 50051,
        connect_timeout_ms: 5000,
        request_timeout_ms: 5000,
        max_encoding_message_size: 32_000_000,
        max_decoding_message_size: 32_000_000,
        alt_host_threshold: None,
        use_alt_for_tenants: vec![],
        use_alt_for_collections: vec![],
    }
}

#[test]
fn client_is_on_alt_log_with_unparsable_threshold() {
    assert!(!GrpcLog::client_is_on_alt_log(
        id("00000000-0000-0000-0000-000000000000"),
        Some("not-a-uuid"),
    ));
}

#[test]
fn client_is_on_alt_log_compares_only_high_bits() {
    // Same 64 most significant bits, larger low bits: still on the alt log.
    assert!(GrpcLog::client_is_on_alt_log(
        id("00088272-cfc4-419d-ffff-ffffffffffff"),
        Some("00088272-cfc4-419d-0000-000000000000"),
    ));
    assert!(!GrpcLog::client_is_on_alt_log(
        id("00088272-cfc4-419e-0000-000000000000"),
        Some("00088272-cfc4-419d-ffff-ffffffffffff"),
    ));
}

#[test]
fn routes_to_primary_without_assigner() {
    let mut cfg = config();
    cfg.use_alt_for_tenants = vec!["tenant".to_string()];
    cfg.alt_host_threshold = Some("ffffffff-ffff-ffff-ffff-ffffffffffff".to_string());
    let log: GrpcLog<&str, &str> = GrpcLog::new(cfg, "primary", None);
    assert_eq!(
        log.client_route("tenant", id("12345678-1234-1234-1234-123456789abc")),
        ClientRoute::Primary
    );
}

#[test]
fn routes_listed_tenant_to_alt() {
    let mut cfg = config();
    cfg.use_alt_for_tenants = vec!["other".to_string(), "tenant".to_string()];
    let log: GrpcLog<&str, &str> = GrpcLog::new(cfg, "primary", Some("assigner"));
    assert_eq!(
        log.client_route("tenant", id("12345678-1234-1234-1234-123456789abc")),
        ClientRoute::Alt
    );
    assert_eq!(
        log.client_route("tenant2", id("12345678-1234-1234-1234-123456789abc")),
        ClientRoute::Primary
    );
}

#[test]
fn routes_listed_collection_to_alt() {
    let mut cfg = config();
    cfg.use_alt_for_collections = vec!["12345678-1234-1234-1234-123456789abc".to_string()];
    let log: GrpcLog<&str, &str> = GrpcLog::new(cfg, "primary", Some("assigner"));
    assert_eq!(
        log.client_route("tenant", id("12345678-1234-1234-1234-123456789abc")),
        ClientRoute::Alt
    );
    assert_eq!(
        log.client_route("tenant", id("12345678-1234-1234-1234-123456789abd")),
        ClientRoute::Primary
    );
}

#[test]
fn routes_below_threshold_to_alt() {
    let mut cfg = config();
    cfg.alt_host_threshold = Some("80000000-0000-0000-0000-000000000000".to_string());
    let log: GrpcLog<&str, &str> = GrpcLog::new(cfg, "primary", Some("assigner"));
    assert_eq!(
        log.client_route("tenant", id("7fffffff-ffff-ffff-ffff-ffffffffffff")),
        ClientRoute::Alt
    );
    assert_eq!(
        log.client_route("tenant", id("80000000-0000-0001-0000-000000000000")),
        ClientRoute::Primary
    );
}

#[test]
fn new_keeps_its_parts() {
    let log: GrpcLog<&str, &str> = GrpcLog::new(config(), "primary", Some("assigner"));
    assert_eq!(*log.client(), "primary");
    assert_eq!(*log.alt_client_assigner(), Some("assigner"));
    assert_eq!(log.config().port, 50051);
}

#[test]
fn is_ready_depends_on_assigner() {
    let without: GrpcLog<&str, &str> = GrpcLog::new(config(), "primary", None);
    assert!(without.is_ready(true));
    assert!(without.is_ready(false));
    let with: GrpcLog<&str, &str> = GrpcLog::new(config(), "primary", Some("assigner"));
    assert!(!with.is_ready(true));
    assert!(with.is_ready(false));
}

#[test]
fn queries_alt_log_when_configured() {
    let plain: GrpcLog<&str, &str> = GrpcLog::new(config(), "primary", None);
    assert!(!plain.queries_alt_log());
    let mut cfg = config();
    cfg.use_alt_for_collections = vec!["x".to_string()];
    let by_collection: GrpcLog<&str, &str> = GrpcLog::new(cfg, "primary", None);
    assert!(by_collection.queries_alt_log());
    let mut cfg = config();
    cfg.alt_host_threshold = Some("garbage".to_string());
    let by_threshold: GrpcLog<&str, &str> = GrpcLog::new(cfg, "primary", None);
    assert!(by_threshold.queries_alt_log());
    let mut cfg = config();
    cfg.use_alt_for_tenants = vec!["t".to_string()];
    let by_tenant: GrpcLog<&str, &str> = GrpcLog::new(cfg, "primary", None);
    assert!(by_tenant.queries_alt_log());
}

#[test]
fn first_assigned_client_takes_the_first() {
    assert_eq!(first_assigned_client(Ok(vec![7, 8, 9])).unwrap(), 7);
    match first_assigned_client::<u32>(Ok(vec![])) {
        Err(ClientAssignmentError::NoClientFound(m)) => {
            assert_eq!(m, "Impossible state: no client found for collection")
        }
        _ => panic!("expected NoClientFound"),
    }
    match first_assigned_client::<u32>(Err(ClientAssignmentError::NoClientFound("x".to_string()))) {
        Err(ClientAssignmentError::NoClientFound(m)) => assert_eq!(m, "x"),
        _ => panic!("expected the assigner's error"),
    }
}

use chroma_log::codes::{GrpcCode, GrpcStatus};
use chroma_log::errors::GrpcPurgeDirtyForCollectionError;

fn failed(message: &str) -> Result<(), GrpcStatus> {
    Err(GrpcStatus {
        code: GrpcCode::Unavailable,
        message: message.to_string(),
    })
}

#[test]
fn purge_outcome_without_assigner_succeeds() {
    let log: GrpcLog<&str, &str> = GrpcLog::new(config(), "primary", None);
    assert!(log.purge_dirty_for_collection_outcome(vec![]).is_ok());
    assert!(log.purge_dirty_for_collection_outcome(vec![failed("x")]).is_ok());
}

#[test]
fn purge_outcome_needs_every_answer() {
    let log: GrpcLog<&str, &str> = GrpcLog::new(config(), "primary", Some("assigner"));
    assert!(log.purge_dirty_for_collection_outcome(vec![]).is_ok());
    assert!(log.purge_dirty_for_collection_outcome(vec![Ok(()), Ok(())]).is_ok());
    match log.purge_dirty_for_collection_outcome(vec![Ok(()), failed("first"), failed("second")]) {
        Err(GrpcPurgeDirtyForCollectionError::FailedToPurgeDirty(s)) => assert_eq!(s.message, "first"),
        _ => panic!("expected the first failure"),
    }
}
