//! The requests the log client sends, and how it reads their answers: which
//! failures mean "back off", which are errors, and what a success yields.

use vstd::prelude::*;
use crate::codes::{GrpcCode, GrpcStatus};
use crate::collection_id::{CollectionUuid, hyphenated_text};
use crate::config::GrpcLogConfig;
use crate::errors::{
    ClientAssignmentError, GarbageCollectError, GrpcForkLogsError, GrpcMigrateLogError,
    GrpcPullLogsError, GrpcPushLogsError, GrpcSealLogError, GrpcUpdateCollectionLogOffsetError,
    RecordConversionError,
};
use crate::grpc_log::{first_assigned_client, no_client_message};
use crate::text::{decimal_text, push_decimal};

verus! {

/// Asks for the offset of the next record to be inserted into a log.
pub struct ScoutLogsRequest {
    pub collection_id: String,
}

/// Asks for up to `batch_size` records from `start_from_offset` on, written
/// no later than `end_timestamp`.
pub struct PullLogsRequest {
    pub collection_id: String,
    pub start_from_offset: i64,
    pub batch_size: i32,
    pub end_timestamp: i64,
}

/// Appends records to a log.
pub struct PushLogsRequest<P> {
    pub collection_id: String,
    pub records: Vec<P>,
}

/// Forks the log of one collection into another.
pub struct ForkLogsRequest {
    pub source_collection_id: String,
    pub target_collection_id: String,
}

/// Where a forked log stands.
#[derive(Clone, Copy, Debug, PartialEq, Eq, Structural)]
pub struct ForkLogsResponse {
    pub compaction_offset: u64,
    pub enumeration_offset: u64,
}

/// Asks which collections have at least `min_compaction_size` records to
/// compact.
pub struct GetAllCollectionInfoToCompactRequest {
    pub min_compaction_size: u64,
}

/// Records how far a collection's log has been compacted.
pub struct UpdateCollectionLogOffsetRequest {
    pub collection_id: String,
    pub log_offset: i64,
}

/// Drops collections from the dirty log.
pub struct PurgeDirtyForCollectionRequest {
    pub collection_ids: Vec<String>,
}

/// Seals a collection's log against writes.
pub struct SealLogRequest {
    pub collection_id: String,
}

/// Migrates a collection's log to the alternative log.
pub struct MigrateLogRequest {
    pub collection_id: String,
}

/// What a second garbage-collection phase collects.
pub enum LogToCollect {
    CollectionId(String),
    DirtyLog(String),
}

/// Runs the second garbage-collection phase on a log.
pub struct GarbageCollectPhase2Request {
    pub log_to_collect: Option<LogToCollect>,
}

fn text_of(s: &str) -> (r: String)
    ensures
        r@ == s@,
{
    String::from_str(s)
}

/// The request for the next offset of a collection's log. The offset to
/// start from is not sent: the request is the same whatever it is.
pub fn scout_logs_request(collection_id: CollectionUuid, _start_from: u64) -> (r: ScoutLogsRequest)
    ensures
        r.collection_id@ == hyphenated_text(collection_id.0),
{
    ScoutLogsRequest { collection_id: collection_id.to_string() }
}

/// Reads the answer to a scout request: the offset, reinterpreted as
/// unsigned (a negative offset wraps around), or `FailedToScoutLogs`.
pub fn scout_logs_response(response: Result<i64, GrpcStatus>) -> (r: Result<u64, GrpcPullLogsError>)
    ensures
        match response {
            Ok(offset) => r matches Ok(v) && v as int == (if offset >= 0 {
                offset as int
            } else {
                offset as int + 0x1_0000_0000_0000_0000
            }),
            Err(s) => r == Err::<u64, GrpcPullLogsError>(GrpcPullLogsError::FailedToScoutLogs(s)),
        },
{
    match response {
        Ok(first_uninserted_record_offset) => {
            let offset = first_uninserted_record_offset as u64;
            assert((first_uninserted_record_offset as u64) as int == (if first_uninserted_record_offset >= 0 {
                first_uninserted_record_offset as int
            } else {
                first_uninserted_record_offset as int + 0x1_0000_0000_0000_0000
            })) by (bit_vector);
            Ok(offset)
        },
        Err(err) => Err(GrpcPullLogsError::FailedToScoutLogs(err)),
    }
}

/// The request for records of a collection's log; without an end timestamp
/// the read is unbounded in time (`i64::MAX`).
pub fn pull_logs_request(
    collection_id: CollectionUuid,
    offset: i64,
    batch_size: i32,
    end_timestamp: Option<i64>,
) -> (r: PullLogsRequest)
    ensures
        r.collection_id@ == hyphenated_text(collection_id.0),
        r.start_from_offset == offset,
        r.batch_size == batch_size,
        r.end_timestamp == (match end_timestamp {
            Some(t) => t,
            None => i64::MAX,
        }),
{
    let end_timestamp = match end_timestamp {
        Some(end_timestamp) => end_timestamp,
        None => i64::MAX,
    };
    PullLogsRequest {
        collection_id: collection_id.to_string(),
        start_from_offset: offset,
        batch_size,
        end_timestamp,
    }
}

/// All converted values, or the first conversion failure.
pub open spec fn all_converted<R>(rs: Seq<Result<R, RecordConversionError>>) -> Result<
    Seq<R>,
    RecordConversionError,
>
    decreases rs.len(),
{
    if rs.len() == 0 {
        Ok(seq![])
    } else {
        match rs[0] {
            Err(e) => Err(e),
            Ok(x) => match all_converted(rs.drop_first()) {
                Ok(xs) => Ok(seq![x] + xs),
                Err(e) => Err(e),
            },
        }
    }
}

/// The conversion of a batch succeeds exactly when every record converted,
/// and then holds the converted values in order, one for each record; when
/// some record failed, the failure reported is that of the first failing
/// record.
pub proof fn lemma_all_converted<R>(rs: Seq<Result<R, RecordConversionError>>)
    ensures
        all_converted(rs) is Ok <==> forall|i: int| 0 <= i < rs.len() ==> #[trigger] rs[i] is Ok,
        all_converted(rs) matches Ok(xs) ==> xs.len() == rs.len() && forall|i: int|
            0 <= i < rs.len() ==> #[trigger] rs[i] == Ok::<R, RecordConversionError>(xs[i]),
        forall|i: int|
            0 <= i < rs.len() && #[trigger] rs[i] is Err && (forall|j: int|
                0 <= j < i ==> rs[j] is Ok) ==> all_converted(rs) == Err::<
                Seq<R>,
                RecordConversionError,
            >(rs[i]->Err_0),
    decreases rs.len(),
{
    if rs.len() > 0 {
        let tail = rs.drop_first();
        lemma_all_converted(tail);
        assert forall|i: int| 1 <= i < rs.len() implies #[trigger] rs[i] == tail[i - 1] by {}
        match rs[0] {
            Err(e) => {
                assert forall|i: int|
                    0 <= i < rs.len() && #[trigger] rs[i] is Err && (forall|j: int|
                        0 <= j < i ==> rs[j] is Ok) implies i == 0 by {
                    if i > 0 {
                        assert(rs[0] is Ok);
                    }
                }
            },
            Ok(x) => {
                if forall|i: int| 0 <= i < tail.len() ==> #[trigger] tail[i] is Ok {
                    assert forall|i: int| 0 <= i < rs.len() implies #[trigger] rs[i] is Ok by {
                        if i > 0 {
                            assert(tail[i - 1] is Ok);
                        }
                    }
                } else {
                    let k = choose|k: int| 0 <= k < tail.len() && !(#[trigger] tail[k] is Ok);
                    assert(!(rs[k + 1] is Ok));
                }
                match all_converted(tail) {
                    Ok(xs) => {
                        let ys = seq![x] + xs;
                        assert forall|i: int| 0 <= i < rs.len() implies #[trigger] rs[i]
                            == Ok::<R, RecordConversionError>(ys[i]) by {
                            if i > 0 {
                                assert(tail[i - 1] == Ok::<R, RecordConversionError>(xs[i - 1]));
                            }
                        }
                    },
                    Err(_) => {},
                }
                assert forall|i: int|
                    0 <= i < rs.len() && #[trigger] rs[i] is Err && (forall|j: int|
                        0 <= j < i ==> rs[j] is Ok) implies all_converted(rs) == Err::<
                    Seq<R>,
                    RecordConversionError,
                >(rs[i]->Err_0) by {
                    assert(i > 0);
                    assert(tail[i - 1] is Err);
                    assert forall|j: int| 0 <= j < i - 1 implies tail[j] is Ok by {
                        assert(rs[j + 1] is Ok);
                    }
                }
            },
        }
    }
}

/// Takes the converted records in order, stopping at the first failure.
fn collect_converted<R>(records: Vec<Result<R, RecordConversionError>>) -> (r: Result<
    Vec<R>,
    RecordConversionError,
>)
    ensures
        match all_converted(records@) {
            Ok(xs) => r matches Ok(v) && v@ == xs,
            Err(e) => r == Err::<Vec<R>, RecordConversionError>(e),
        },
        (forall|i: int| 0 <= i < records@.len() ==> #[trigger] records@[i] is Ok) ==> (r matches Ok(
            v,
        ) && v@.len() == records@.len() && forall|i: int|
            0 <= i < records@.len() ==> #[trigger] records@[i] == Ok::<R, RecordConversionError>(
                v@[i],
            )),
        forall|i: int|
            0 <= i < records@.len() && #[trigger] records@[i] is Err && (forall|j: int|
                0 <= j < i ==> records@[j] is Ok) ==> r == Err::<Vec<R>, RecordConversionError>(
                records@[i]->Err_0,
            ),
{
    let ghost rs = records@;
    proof {
        lemma_all_converted(rs);
    }
    let mut rest = records;
    let mut out: Vec<R> = Vec::new();
    while rest.len() > 0
        invariant
            rs == records@,
            all_converted(rs) == (match all_converted(rest@) {
                Ok(xs) => Ok(out@ + xs),
                Err(e) => Err(e),
            }),
        decreases rest@.len(),
    {
        let ghost before = rest@;
        let item = rest.remove(0);
        proof {
            assert(rest@ =~= before.drop_first());
        }
        proof {
            assert(before[0] == item);
        }
        match item {
            Ok(x) => {
                let ghost old_out = out@;
                out.push(x);
                proof {
                    match all_converted(rest@) {
                        Ok(xs) => {
                            assert(old_out + (seq![x] + xs) =~= out@ + xs);
                        },
                        Err(_) => {},
                    }
                }
            },
            Err(e) => {
                proof {
                    lemma_all_converted(rs);
                }
                return Err(e);
            },
        }
    }
    proof {
        assert(out@ + Seq::<R>::empty() =~= out@);
        lemma_all_converted(rs);
    }
    Ok(out)
}

/// Reads the answer to a pull request. A failure with code `Unavailable`
/// asks the caller to back off; any other failure is `FailedToPullLogs`. A
/// success yields the converted records in order, unless one of them failed
/// to convert: then the first such failure.
pub fn read_response<R>(response: Result<Vec<Result<R, RecordConversionError>>, GrpcStatus>) -> (r:
    Result<Vec<R>, GrpcPullLogsError>)
    ensures
        match response {
            Err(s) => r == Err::<Vec<R>, GrpcPullLogsError>(
                if s.code == GrpcCode::Unavailable {
                    GrpcPullLogsError::Backoff
                } else {
                    GrpcPullLogsError::FailedToPullLogs(s)
                },
            ),
            Ok(records) => match all_converted(records@) {
                Ok(xs) => r matches Ok(v) && v@ == xs,
                Err(e) => r == Err::<Vec<R>, GrpcPullLogsError>(
                    GrpcPullLogsError::ConversionError(e),
                ),
            },
        },
        response matches Ok(records) ==> ((forall|i: int|
            0 <= i < records@.len() ==> #[trigger] records@[i] is Ok) ==> (r matches Ok(v)
            && v@.len() == records@.len() && forall|i: int|
            0 <= i < records@.len() ==> #[trigger] records@[i] == Ok::<R, RecordConversionError>(
                v@[i],
            ))),
        response matches Ok(records) ==> forall|i: int|
            0 <= i < records@.len() && #[trigger] records@[i] is Err && (forall|j: int|
                0 <= j < i ==> records@[j] is Ok) ==> r == Err::<Vec<R>, GrpcPullLogsError>(
                GrpcPullLogsError::ConversionError(records@[i]->Err_0),
            ),
{
    match response {
        Ok(records) => match collect_converted(records) {
            Ok(result) => Ok(result),
            Err(err) => Err(GrpcPullLogsError::ConversionError(err)),
        },
        Err(e) => {
            if e.code == GrpcCode::Unavailable {
                Err(GrpcPullLogsError::Backoff)
            } else {
                Err(GrpcPullLogsError::FailedToPullLogs(e))
            }
        },
    }
}

/// The request that appends the converted records to a collection's log, or
/// the first record that failed to convert.
pub fn push_logs_request<P>(
    collection_id: CollectionUuid,
    records: Vec<Result<P, RecordConversionError>>,
) -> (r: Result<PushLogsRequest<P>, GrpcPushLogsError>)
    ensures
        match all_converted(records@) {
            Ok(xs) => r matches Ok(req) && req.records@ == xs && req.collection_id@
                == hyphenated_text(collection_id.0),
            Err(e) => r matches Err(GrpcPushLogsError::ConversionError(f)) && f == e,
        },
        (forall|i: int| 0 <= i < records@.len() ==> #[trigger] records@[i] is Ok) ==> (r matches Ok(
            req,
        ) && req.records@.len() == records@.len() && forall|i: int|
            0 <= i < records@.len() ==> #[trigger] records@[i] == Ok::<P, RecordConversionError>(
                req.records@[i],
            )),
        forall|i: int|
            0 <= i < records@.len() && #[trigger] records@[i] is Err && (forall|j: int|
                0 <= j < i ==> records@[j] is Ok) ==> (r matches Err(
                GrpcPushLogsError::ConversionError(f),
            ) && f == records@[i]->Err_0),
{
    match collect_converted(records) {
        Ok(records) => Ok(PushLogsRequest { collection_id: collection_id.to_string(), records }),
        Err(e) => Err(GrpcPushLogsError::ConversionError(e)),
    }
}

/// Reads the answer to a push request. Failures with code `Unavailable` or
/// `AlreadyExists` ask the caller to back off, `ResourceExhausted` to back
/// off until the log is compacted; others are `FailedToPushLogs`. A success
/// whose log turned out sealed is `Sealed`.
pub fn push_logs_response(response: Result<bool, GrpcStatus>) -> (r: Result<(), GrpcPushLogsError>)
    ensures
        match response {
            Err(s) => r == Err::<(), GrpcPushLogsError>(
                if s.code == GrpcCode::Unavailable || s.code == GrpcCode::AlreadyExists {
                    GrpcPushLogsError::Backoff
                } else if s.code == GrpcCode::ResourceExhausted {
                    GrpcPushLogsError::BackoffCompaction
                } else {
                    GrpcPushLogsError::FailedToPushLogs(s)
                },
            ),
            Ok(log_is_sealed) => r == (if log_is_sealed {
                Err::<(), GrpcPushLogsError>(GrpcPushLogsError::Sealed)
            } else {
                Ok::<(), GrpcPushLogsError>(())
            }),
        },
{
    match response {
        Err(err) => {
            if err.code == GrpcCode::Unavailable || err.code == GrpcCode::AlreadyExists {
                Err(GrpcPushLogsError::Backoff)
            } else if err.code == GrpcCode::ResourceExhausted {
                Err(GrpcPushLogsError::BackoffCompaction)
            } else {
                Err(GrpcPushLogsError::FailedToPushLogs(err))
            }
        },
        Ok(log_is_sealed) => {
            if log_is_sealed {
                Err(GrpcPushLogsError::Sealed)
            } else {
                Ok(())
            }
        },
    }
}

/// The request that forks the source collection's log into the target's.
pub fn fork_logs_request(
    source_collection_id: CollectionUuid,
    target_collection_id: CollectionUuid,
) -> (r: ForkLogsRequest)
    ensures
        r.source_collection_id@ == hyphenated_text(source_collection_id.0),
        r.target_collection_id@ == hyphenated_text(target_collection_id.0),
{
    ForkLogsRequest {
        source_collection_id: source_collection_id.to_string(),
        target_collection_id: target_collection_id.to_string(),
    }
}

/// Reads the answer to a fork request: `Unavailable` asks the caller to back
/// off, other failures are `FailedToForkLogs`; a success is passed on.
pub fn fork_logs_response(response: Result<ForkLogsResponse, GrpcStatus>) -> (r: Result<
    ForkLogsResponse,
    GrpcForkLogsError,
>)
    ensures
        match response {
            Err(s) => r == Err::<ForkLogsResponse, GrpcForkLogsError>(
                if s.code == GrpcCode::Unavailable {
                    GrpcForkLogsError::Backoff
                } else {
                    GrpcForkLogsError::FailedToForkLogs(s)
                },
            ),
            Ok(f) => r == Ok::<ForkLogsResponse, GrpcForkLogsError>(f),
        },
{
    match response {
        Ok(response) => Ok(
            ForkLogsResponse {
                compaction_offset: response.compaction_offset,
                enumeration_offset: response.enumeration_offset,
            },
        ),
        Err(err) => {
            if err.code == GrpcCode::Unavailable {
                Err(GrpcForkLogsError::Backoff)
            } else {
                Err(GrpcForkLogsError::FailedToForkLogs(err))
            }
        },
    }
}

/// The request for the collections that need compaction.
pub fn get_all_collection_info_to_compact_request(min_compaction_size: u64) -> (r:
    GetAllCollectionInfoToCompactRequest)
    ensures
        r.min_compaction_size == min_compaction_size,
{
    GetAllCollectionInfoToCompactRequest { min_compaction_size }
}

/// The request that records a collection's new compaction offset.
pub fn update_collection_log_offset_request(collection_id: CollectionUuid, new_offset: i64) -> (r:
    UpdateCollectionLogOffsetRequest)
    ensures
        r.collection_id@ == hyphenated_text(collection_id.0),
        r.log_offset == new_offset,
{
    UpdateCollectionLogOffsetRequest { collection_id: collection_id.to_string(), log_offset: new_offset }
}

/// Reads the answer to an offset update: any failure is
/// `FailedToUpdateCollectionLogOffset`.
pub fn update_collection_log_offset_response(response: Result<(), GrpcStatus>) -> (r: Result<
    (),
    GrpcUpdateCollectionLogOffsetError,
>)
    ensures
        match response {
            Ok(_) => r is Ok,
            Err(s) => r == Err::<(), GrpcUpdateCollectionLogOffsetError>(
                GrpcUpdateCollectionLogOffsetError::FailedToUpdateCollectionLogOffset(s),
            ),
        },
{
    match response {
        Ok(_) => Ok(()),
        Err(e) => Err(GrpcUpdateCollectionLogOffsetError::FailedToUpdateCollectionLogOffset(e)),
    }
}

/// The request that purges the given collections from the dirty log, their
/// identifiers as text, in order.
pub fn purge_dirty_for_collection_request(collection_ids: &Vec<CollectionUuid>) -> (r:
    PurgeDirtyForCollectionRequest)
    ensures
        r.collection_ids@.len() == collection_ids@.len(),
        forall|i: int|
            0 <= i < collection_ids@.len() ==> #[trigger] r.collection_ids@[i]@ == hyphenated_text(
                collection_ids@[i].0,
            ),
{
    let mut ids: Vec<String> = Vec::new();
    let mut i: usize = 0;
    while i < collection_ids.len()
        invariant
            i <= collection_ids@.len(),
            ids@.len() == i,
            forall|k: int| 0 <= k < i ==> #[trigger] ids@[k]@ == hyphenated_text(collection_ids@[k].0),
        decreases collection_ids@.len() - i,
    {
        ids.push(collection_ids[i].to_string());
        i = i + 1;
    }
    PurgeDirtyForCollectionRequest { collection_ids: ids }
}

/// The request that seals a collection's log.
pub fn seal_log_request(collection_id: CollectionUuid) -> (r: SealLogRequest)
    ensures
        r.collection_id@ == hyphenated_text(collection_id.0),
{
    SealLogRequest { collection_id: collection_id.to_string() }
}

/// Reads the answer to a seal request: any failure is `FailedToSeal`.
pub fn seal_log_response(response: Result<(), GrpcStatus>) -> (r: Result<(), GrpcSealLogError>)
    ensures
        match response {
            Ok(_) => r is Ok,
            Err(s) => r == Err::<(), GrpcSealLogError>(GrpcSealLogError::FailedToSeal(s)),
        },
{
    match response {
        Ok(_) => Ok(()),
        Err(e) => Err(GrpcSealLogError::FailedToSeal(e)),
    }
}

/// The request that migrates a collection's log.
pub fn migrate_log_request(collection_id: CollectionUuid) -> (r: MigrateLogRequest)
    ensures
        r.collection_id@ == hyphenated_text(collection_id.0),
{
    MigrateLogRequest { collection_id: collection_id.to_string() }
}

/// The client a migration goes to: migration needs the alternative log, so
/// without an assigner (`None`) it is `NotSupported`; otherwise the first
/// client the assigner handed out, its failure wrapped as
/// `ClientAssignerError`.
pub fn migrate_log_client<C>(assigned: Option<Result<Vec<C>, ClientAssignmentError>>) -> (r: Result<
    C,
    GrpcMigrateLogError,
>)
    ensures
        match assigned {
            None => r matches Err(GrpcMigrateLogError::NotSupported),
            Some(Err(e)) => r matches Err(GrpcMigrateLogError::ClientAssignerError(f)) && f == e,
            Some(Ok(v)) => if v@.len() > 0 {
                r == Ok::<C, GrpcMigrateLogError>(v@[0])
            } else {
                r matches Err(
                    GrpcMigrateLogError::ClientAssignerError(
                        ClientAssignmentError::NoClientFound(m),
                    ),
                ) && m@ == no_client_message()
            },
        },
{
    match assigned {
        None => Err(GrpcMigrateLogError::NotSupported),
        Some(assigned) => match first_assigned_client(assigned) {
            Ok(client) => Ok(client),
            Err(e) => Err(GrpcMigrateLogError::ClientAssignerError(e)),
        },
    }
}

/// Reads the answer to a migration: any failure is `FailedToMigrate`.
pub fn migrate_log_response(response: Result<(), GrpcStatus>) -> (r: Result<(), GrpcMigrateLogError>)
    ensures
        match response {
            Ok(_) => r is Ok,
            Err(s) => r == Err::<(), GrpcMigrateLogError>(GrpcMigrateLogError::FailedToMigrate(s)),
        },
{
    match response {
        Ok(_) => Ok(()),
        Err(e) => Err(GrpcMigrateLogError::FailedToMigrate(e)),
    }
}

/// The request that runs the second garbage-collection phase on a
/// collection's log.
pub fn garbage_collect_phase2_request(collection_id: CollectionUuid) -> (r:
    GarbageCollectPhase2Request)
    ensures
        r.log_to_collect matches Some(LogToCollect::CollectionId(t)) && t@ == hyphenated_text(
            collection_id.0,
        ),
{
    GarbageCollectPhase2Request {
        log_to_collect: Some(LogToCollect::CollectionId(collection_id.to_string())),
    }
}

/// The client a garbage collection goes to: without an assigner (`None`)
/// garbage collection is `NotEnabled`; otherwise the first client the
/// assigner handed out, its failure wrapped as `ClientAssignerError`.
pub fn garbage_collect_client<C>(assigned: Option<Result<Vec<C>, ClientAssignmentError>>) -> (r:
    Result<C, GarbageCollectError>)
    ensures
        match assigned {
            None => r matches Err(GarbageCollectError::NotEnabled),
            Some(Err(e)) => r matches Err(GarbageCollectError::ClientAssignerError(f)) && f == e,
            Some(Ok(v)) => if v@.len() > 0 {
                r == Ok::<C, GarbageCollectError>(v@[0])
            } else {
                r matches Err(
                    GarbageCollectError::ClientAssignerError(
                        ClientAssignmentError::NoClientFound(m),
                    ),
                ) && m@ == no_client_message()
            },
        },
{
    match assigned {
        None => Err(GarbageCollectError::NotEnabled),
        Some(assigned) => match first_assigned_client(assigned) {
            Ok(client) => Ok(client),
            Err(e) => Err(GarbageCollectError::ClientAssignerError(e)),
        },
    }
}

/// Reads the answer to a garbage collection: a failure is passed on as
/// `Status`.
pub fn garbage_collect_response(response: Result<(), GrpcStatus>) -> (r: Result<(), GarbageCollectError>)
    ensures
        match response {
            Ok(_) => r is Ok,
            Err(s) => r == Err::<(), GarbageCollectError>(GarbageCollectError::Status(s)),
        },
{
    match response {
        Ok(_) => Ok(()),
        Err(e) => Err(GarbageCollectError::Status(e)),
    }
}

/// The name of the stateful-set member `ordinal` of the log service:
/// `rust-log-service-<ordinal>`.
pub open spec fn log_member_name(ordinal: u64) -> Seq<char> {
    "rust-log-service-"@ + decimal_text(ordinal as nat)
}

/// The name of the dirty log of the log-service member `ordinal`.
pub fn dirty_log_name(ordinal: u64) -> (r: String)
    ensures
        r@ == log_member_name(ordinal),
{
    let mut s = text_of("rust-log-service-");
    push_decimal(&mut s, ordinal);
    s
}

/// The address of the log-service member `ordinal`:
/// `grpc://rust-log-service-<ordinal>.rust-log-service:50051`.
pub fn dirty_log_endpoint(ordinal: u64) -> (r: String)
    ensures
        r@ == "grpc://"@ + log_member_name(ordinal) + ".rust-log-service:50051"@,
{
    let mut s = text_of("grpc://");
    let name = dirty_log_name(ordinal);
    s.append(name.as_str());
    s.append(".rust-log-service:50051");
    s
}

/// The request that runs the second garbage-collection phase on the dirty
/// log of the log-service member `ordinal`.
pub fn dirty_log_garbage_collect_request(ordinal: u64) -> (r: GarbageCollectPhase2Request)
    ensures
        r.log_to_collect matches Some(LogToCollect::DirtyLog(t)) && t@ == log_member_name(ordinal),
{
    GarbageCollectPhase2Request { log_to_collect: Some(LogToCollect::DirtyLog(dirty_log_name(ordinal))) }
}

/// The error for a log-service member that could not be reached, with the
/// transport's explanation:
/// `could not connect to rust-log-service-<ordinal>:50051: <detail>`.
pub fn dirty_log_connect_error(ordinal: u64, detail: &str) -> (r: GarbageCollectError)
    ensures
        r matches GarbageCollectError::Resolution(m) && m@ == "could not connect to "@
            + log_member_name(ordinal) + ":50051: "@ + detail@,
{
    let mut s = text_of("could not connect to ");
    let name = dirty_log_name(ordinal);
    s.append(name.as_str());
    s.append(":50051: ");
    s.append(detail);
    GarbageCollectError::Resolution(s)
}

/// The address of the primary log service: `http://<host>:<port>`.
pub fn connection_string(config: &GrpcLogConfig) -> (r: String)
    ensures
        r@ == "http://"@ + config.host@ + ":"@ + decimal_text(config.port as nat),
{
    let mut s = text_of("http://");
    s.append(config.host.as_str());
    s.append(":");
    push_decimal(&mut s, config.port as u64);
    s
}

} // verus!
