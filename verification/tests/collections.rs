use chroma_log::codes::{GrpcCode, GrpcStatus};
use chroma_log::collection_id::CollectionUuid;
use chroma_log::collections::{
    compact_collections, CollectionInfo, GetAllCollectionInfoToCompactResponse,
    ProtoCollectionInfo,
};
use chroma_log::errors::GrpcGetCollectionsWithNewDataError;
use chroma_log::grpc_log::GrpcLog;

fn proto(id: &str, offset: i64, ts: i64) -> ProtoCollectionInfo {
    ProtoCollectionInfo {
        collection_id: id.to_string(),
        first_log_offset: offset,
        first_log_ts: ts,
    }
}

fn info(id: &str, offset: i64, ts: i64) -> CollectionInfo {
    CollectionInfo {
        collection_id: CollectionUuid::parse(id).unwrap(),
        first_log_offset: offset,
        first_log_ts: ts,
    }
}

const A: &str = "00000000-0000-0000-0000-00000000000a";
const B: &str = "00000000-0000-0000-0000-00000000000b";
const C: &str = "c0000000-0000-0000-0000-000000000000";

#[test]
fn post_process_sorts_by_collection_and_skips_bad_ids() {
    let response = GetAllCollectionInfoToCompactResponse {
        all_collection_info: vec![
            proto(C, 5, 1),
            proto("not a uuid", 1, 1),
            proto(A, 9, 2),
            proto(B, 3, 3),
        ],
    };
    let result = GrpcLog::post_process_get_all(vec![response]).unwrap();
    assert_eq!(result, vec![info(A, 9, 2), info(B, 3, 3), info(C, 5, 1)]);
}

#[test]
fn post_process_keeps_first_of_equal_offsets() {
    let response = GetAllCollectionInfoToCompactResponse {
        all_collection_info: vec![proto(A, 7, 100), proto(A, 7, 200), proto(A, 8, 300)],
    };
    let result = GrpcLog::post_process_get_all(vec![response]).unwrap();
    assert_eq!(result, vec![info(A, 7, 100)]);
}

#[test]
fn post_process_of_nothing_is_empty() {
    assert!(GrpcLog::post_process_get_all(vec![]).unwrap().is_empty());
}

fn failure(code: GrpcCode, message: &str) -> GrpcStatus {
    GrpcStatus {
        code,
        message: message.to_string(),
    }
}

#[test]
fn gather_fails_only_when_every_server_failed() {
    let result = GrpcLog::gather_collections_with_new_data(vec![
        Err(failure(GrpcCode::Unavailable, "first")),
        Err(failure(GrpcCode::Internal, "second")),
    ]);
    match result {
        Err(GrpcGetCollectionsWithNewDataError::FailedGetCollectionsWithNewData(s)) => {
            assert_eq!(s.message, "first");
            assert_eq!(s.code, GrpcCode::Unavailable);
        }
        _ => panic!("expected the first failure"),
    }
    let result = GrpcLog::gather_collections_with_new_data(vec![
        Err(failure(GrpcCode::Unavailable, "first")),
        Ok(GetAllCollectionInfoToCompactResponse {
            all_collection_info: vec![proto(B, 4, 4), proto(A, 2, 2)],
        }),
    ])
    .unwrap();
    assert_eq!(result, vec![info(A, 2, 2), info(B, 4, 4)]);
}

#[test]
fn gather_of_no_server_is_empty() {
    assert!(GrpcLog::gather_collections_with_new_data(vec![])
        .unwrap()
        .is_empty());
}

#[test]
fn merge_takes_oldest_offset_across_logs() {
    let primary: Result<Vec<CollectionInfo>, ()> = Ok(vec![info(A, 10, 1), info(B, 5, 1)]);
    let alt: Option<Result<Vec<CollectionInfo>, ()>> = Some(Ok(vec![info(A, 4, 2), info(C, 1, 2)]));
    let merged = GrpcLog::merge_collections_with_new_data(primary, alt).unwrap();
    assert_eq!(merged, vec![info(A, 4, 2), info(B, 5, 1), info(C, 1, 2)]);
}

#[test]
fn merge_treats_failures_as_empty() {
    let primary: Result<Vec<CollectionInfo>, &str> = Err("down");
    let alt = Some(Ok(vec![info(B, 1, 1)]));
    assert_eq!(
        GrpcLog::merge_collections_with_new_data(primary, alt).unwrap(),
        vec![info(B, 1, 1)]
    );
    let primary: Result<Vec<CollectionInfo>, &str> = Ok(vec![info(A, 1, 1)]);
    assert_eq!(
        GrpcLog::merge_collections_with_new_data(primary, Some(Err("down"))).unwrap(),
        vec![info(A, 1, 1)]
    );
    let primary: Result<Vec<CollectionInfo>, &str> = Ok(vec![info(A, 1, 1)]);
    assert_eq!(
        GrpcLog::merge_collections_with_new_data(primary, None).unwrap(),
        vec![info(A, 1, 1)]
    );
}

#[test]
fn merge_of_compactions_matches_one_compaction() {
    let a = vec![info(B, 3, 1), info(A, 6, 2), info(A, 5, 3)];
    let b = vec![info(A, 5, 4), info(C, 2, 5), info(B, 3, 6)];
    let mut all = a.clone();
    all.extend(b.clone());
    let once = compact_collections(&all);
    let twice = GrpcLog::merge_collections_with_new_data::<()>(
        Ok(compact_collections(&a)),
        Some(Ok(compact_collections(&b))),
    )
    .unwrap();
    assert_eq!(once, twice);
    assert_eq!(once, vec![info(A, 5, 3), info(B, 3, 1), info(C, 2, 5)]);
    assert_eq!(compact_collections(&once), once);
}

#[test]
fn post_process_ignores_order_and_grouping_of_reports() {
    let grouped = vec![
        GetAllCollectionInfoToCompactResponse {
            all_collection_info: vec![proto(A, 9, 1), proto(B, 3, 2)],
        },
        GetAllCollectionInfoToCompactResponse {
            all_collection_info: vec![proto(A, 4, 3), proto(C, 7, 4)],
        },
    ];
    let regrouped = vec![
        GetAllCollectionInfoToCompactResponse {
            all_collection_info: vec![proto(C, 7, 4)],
        },
        GetAllCollectionInfoToCompactResponse {
            all_collection_info: vec![proto(A, 4, 3), proto(B, 3, 2), proto(A, 9, 1)],
        },
    ];
    assert_eq!(
        GrpcLog::post_process_get_all(grouped).unwrap(),
        GrpcLog::post_process_get_all(regrouped).unwrap()
    );
}
