//! The log client: which server a request for a collection goes to, and how
//! the answers about collections that need compaction are combined.

use vstd::prelude::*;
use crate::codes::GrpcStatus;
use crate::collection_id::{CollectionUuid, uuid_parse, high_bits, hyphenated_text, parsed_collection_id};
use crate::collections::{
    CollectionInfo, GetAllCollectionInfoToCompactResponse, compact_collections, is_compaction_of,
    is_kept, kept_entry, lemma_compaction_covers, lemma_response_infos_cover,
    lemma_response_infos_from_reports, parsed_info, parsed_infos, response_infos,
};
use crate::config::{GrpcLogConfig, contains_text, texts_contain};
use crate::errors::{
    ClientAssignmentError, GrpcGetCollectionsWithNewDataError, GrpcPurgeDirtyForCollectionError,
};

verus! {

/// Which client serves a request.
#[derive(Clone, Copy, Debug, PartialEq, Eq, Structural)]
pub enum ClientRoute {
    /// The client of the primary log service.
    Primary,
    /// A client that the alternative log's assigner hands out.
    Alt,
}

/// A log client: its configuration, the client of the primary log service,
/// and, where the alternative log is in use, the assigner of its clients.
#[derive(Clone, Debug)]
pub struct GrpcLog<C = (), A = ()> {
    config: GrpcLogConfig,
    client: C,
    alt_client_assigner: Option<A>,
}

/// Whether a collection goes to the alternative log by the threshold: the
/// threshold must be given and parse as a UUID, and the collection's 64 most
/// significant bits must be at most the threshold's.
pub open spec fn on_alt_log(to_evaluate: CollectionUuid, alt_host_threshold: Option<Seq<char>>) -> bool {
    match alt_host_threshold {
        None => false,
        Some(t) => match uuid_parse(t) {
            None => false,
            Some(threshold) => high_bits(to_evaluate.0) <= high_bits(threshold),
        },
    }
}

/// A collection whose 64 most significant bits are at most those of a
/// collection on the alternative log is on the alternative log too.
pub proof fn lemma_on_alt_log_monotone(a: CollectionUuid, b: CollectionUuid, threshold: Seq<char>)
    requires
        on_alt_log(a, Some(threshold)),
        high_bits(b.0) <= high_bits(a.0),
    ensures
        on_alt_log(b, Some(threshold)),
{
}

/// A collection is on the alternative log when the threshold names the
/// collection itself.
pub proof fn lemma_on_alt_log_at_own_threshold(c: CollectionUuid, threshold: Seq<char>)
    requires
        parsed_collection_id(threshold) == Some(c),
    ensures
        on_alt_log(c, Some(threshold)),
{
}

/// Every collection is on the alternative log when the threshold is the
/// largest UUID.
pub proof fn lemma_on_alt_log_at_largest_threshold(c: CollectionUuid, threshold: Seq<char>)
    requires
        uuid_parse(threshold) == Some(u128::MAX),
    ensures
        on_alt_log(c, Some(threshold)),
{
    assert(c.0 <= u128::MAX);
    assert(high_bits(c.0) <= high_bits(u128::MAX)) by (nonlinear_arith)
        requires c.0 <= u128::MAX;
}

/// The threshold text of a configuration, if any.
pub open spec fn threshold_text(config: GrpcLogConfig) -> Option<Seq<char>> {
    match config.alt_host_threshold {
        Some(t) => Some(t@),
        None => None,
    }
}

/// Whether the configuration sends the tenant's or collection's requests to
/// the alternative log.
pub open spec fn configured_for_alt(
    config: GrpcLogConfig,
    tenant: Seq<char>,
    collection_id: CollectionUuid,
) -> bool {
    ||| texts_contain(config.use_alt_for_tenants@, tenant)
    ||| texts_contain(config.use_alt_for_collections@, hyphenated_text(collection_id.0))
    ||| on_alt_log(collection_id, threshold_text(config))
}

/// A tenant or collection goes to the alternative log exactly when the
/// tenant is listed, or the collection's identifier text is listed, or the
/// threshold is set, parses as a UUID, and the collection's 64 most
/// significant bits are at most the threshold's; any one of the three
/// suffices, whatever the others say.
pub proof fn lemma_configured_for_alt_cases(
    config: GrpcLogConfig,
    tenant: Seq<char>,
    collection_id: CollectionUuid,
)
    ensures
        configured_for_alt(config, tenant, collection_id) <==> {
            ||| exists|i: int|
                0 <= i < config.use_alt_for_tenants@.len()
                    && #[trigger] config.use_alt_for_tenants@[i]@ == tenant
            ||| exists|i: int|
                0 <= i < config.use_alt_for_collections@.len()
                    && #[trigger] config.use_alt_for_collections@[i]@ == hyphenated_text(
                    collection_id.0,
                )
            ||| (config.alt_host_threshold matches Some(t) && uuid_parse(t@) matches Some(th)
                && collection_id.0 as int / 0x1_0000_0000_0000_0000 <= th as int
                / 0x1_0000_0000_0000_0000)
        },
{
}

/// The message of the error for an assigner that handed out no client.
pub open spec fn no_client_message() -> Seq<char> {
    "Impossible state: no client found for collection"@
}

/// The first of the clients that the assigner handed out (the log is not
/// replicated, so that is the one), or its error; an assigner that handed out
/// none yields `NoClientFound`.
pub fn first_assigned_client<C>(assigned: Result<Vec<C>, ClientAssignmentError>) -> (r: Result<
    C,
    ClientAssignmentError,
>)
    ensures
        match assigned {
            Err(e) => r == Err::<C, ClientAssignmentError>(e),
            Ok(v) => if v@.len() > 0 {
                r == Ok::<C, ClientAssignmentError>(v@[0])
            } else {
                r matches Err(ClientAssignmentError::NoClientFound(m)) && m@ == no_client_message()
            },
        },
{
    match assigned {
        Err(e) => Err(e),
        Ok(mut v) => {
            if v.len() > 0 {
                Ok(v.remove(0))
            } else {
                proof {
                    reveal_strlit("Impossible state: no client found for collection");
                }
                Err(
                    ClientAssignmentError::NoClientFound(
                        String::from_str("Impossible state: no client found for collection"),
                    ),
                )
            }
        },
    }
}

impl<C, A> GrpcLog<C, A> {
    /// The configuration.
    pub closed spec fn config_spec(&self) -> GrpcLogConfig {
        self.config
    }

    /// The client of the primary log service.
    pub closed spec fn client_spec(&self) -> C {
        self.client
    }

    /// The assigner of alternative-log clients, if the alternative log is in use.
    pub closed spec fn alt_client_assigner_spec(&self) -> Option<A> {
        self.alt_client_assigner
    }

    /// A log client from its parts.
    pub fn new(config: GrpcLogConfig, client: C, alt_client_assigner: Option<A>) -> (r: Self)
        ensures
            r.config_spec() == config,
            r.client_spec() == client,
            r.alt_client_assigner_spec() == alt_client_assigner,
    {
        GrpcLog { config, client, alt_client_assigner }
    }

    /// The configuration.
    pub fn config(&self) -> (r: &GrpcLogConfig)
        ensures
            *r == self.config_spec(),
    {
        &self.config
    }

    /// The client of the primary log service.
    pub fn client(&self) -> (r: &C)
        ensures
            *r == self.client_spec(),
    {
        &self.client
    }

    /// The assigner of alternative-log clients.
    pub fn alt_client_assigner(&self) -> (r: &Option<A>)
        ensures
            *r == self.alt_client_assigner_spec(),
    {
        &self.alt_client_assigner
    }

    /// The assigner of alternative-log clients, to ask it for clients.
    pub fn alt_client_assigner_mut(&mut self) -> (r: &mut Option<A>)
        ensures
            *r == old(self).alt_client_assigner_spec(),
            final(self).config_spec() == old(self).config_spec(),
            final(self).client_spec() == old(self).client_spec(),
            final(self).alt_client_assigner_spec() == *final(r),
    {
        &mut self.alt_client_assigner
    }

    /// Which client serves requests of `tenant` for `collection_id`: an
    /// alternative-log client where an assigner is present and the tenant or
    /// the collection is configured for the alternative log, or the
    /// collection falls under the threshold; otherwise the primary client.
    pub fn client_route(&self, tenant: &str, collection_id: CollectionUuid) -> (r: ClientRoute)
        ensures
            r == (if self.alt_client_assigner_spec() is Some && configured_for_alt(
                self.config_spec(),
                tenant@,
                collection_id,
            ) {
                ClientRoute::Alt
            } else {
                ClientRoute::Primary
            }),
            self.alt_client_assigner_spec() is None ==> r == ClientRoute::Primary,
            (self.alt_client_assigner_spec() is Some && exists|i: int|
                0 <= i < self.config_spec().use_alt_for_tenants@.len()
                    && #[trigger] self.config_spec().use_alt_for_tenants@[i]@ == tenant@) ==> r
                == ClientRoute::Alt,
            (self.alt_client_assigner_spec() is Some && exists|i: int|
                0 <= i < self.config_spec().use_alt_for_collections@.len()
                    && #[trigger] self.config_spec().use_alt_for_collections@[i]@
                    == hyphenated_text(collection_id.0)) ==> r == ClientRoute::Alt,
            (self.config_spec().alt_host_threshold matches Some(t) && uuid_parse(t@) matches Some(th)
                && self.alt_client_assigner_spec() is Some && collection_id.0 as int
                / 0x1_0000_0000_0000_0000 <= th as int / 0x1_0000_0000_0000_0000) ==> r
                == ClientRoute::Alt,
            r == ClientRoute::Alt ==> self.alt_client_assigner_spec() is Some && {
                ||| exists|i: int|
                    0 <= i < self.config_spec().use_alt_for_tenants@.len()
                        && #[trigger] self.config_spec().use_alt_for_tenants@[i]@ == tenant@
                ||| exists|i: int|
                    0 <= i < self.config_spec().use_alt_for_collections@.len()
                        && #[trigger] self.config_spec().use_alt_for_collections@[i]@
                        == hyphenated_text(collection_id.0)
                ||| (self.config_spec().alt_host_threshold matches Some(t) && uuid_parse(t@) matches Some(
                    th,
                ) && collection_id.0 as int / 0x1_0000_0000_0000_0000 <= th as int
                    / 0x1_0000_0000_0000_0000)
            },
    {
        proof {
            lemma_configured_for_alt_cases(self.config, tenant@, collection_id);
        }
        if self.alt_client_assigner.is_some() {
            let threshold: Option<&str> = match &self.config.alt_host_threshold {
                Some(t) => Some(t.as_str()),
                None => None,
            };
            if contains_text(&self.config.use_alt_for_tenants, tenant) || contains_text(
                &self.config.use_alt_for_collections,
                collection_id.to_string().as_str(),
            ) || GrpcLog::client_is_on_alt_log(collection_id, threshold) {
                return ClientRoute::Alt;
            }
        }
        ClientRoute::Primary
    }

    /// Whether the client can serve requests: without an assigner it always
    /// can; with one, only once the assigner knows some client
    /// (`alt_assigner_is_empty` is what the assigner answers).
    pub fn is_ready(&self, alt_assigner_is_empty: bool) -> (r: bool)
        ensures
            r == (self.alt_client_assigner_spec() is None || !alt_assigner_is_empty),
    {
        if self.alt_client_assigner.is_some() {
            !alt_assigner_is_empty
        } else {
            true
        }
    }

    /// Whether the alternative log is asked too for collections that need
    /// compaction: when any collection can be routed to it by configuration.
    pub fn queries_alt_log(&self) -> (r: bool)
        ensures
            r == (self.config_spec().alt_host_threshold is Some
                || self.config_spec().use_alt_for_tenants@.len() > 0
                || self.config_spec().use_alt_for_collections@.len() > 0),
    {
        self.config.alt_host_threshold.is_some() || self.config.use_alt_for_tenants.len() > 0
            || self.config.use_alt_for_collections.len() > 0
    }
}

impl GrpcLog {
    /// Whether a collection goes to the alternative log by the threshold.
    pub fn client_is_on_alt_log(
        to_evaluate: CollectionUuid,
        alt_host_threshold: Option<&str>,
    ) -> (r: bool)
        ensures
            r == on_alt_log(
                to_evaluate,
                match alt_host_threshold {
                    Some(t) => Some(t@),
                    None => None,
                },
            ),
    {
        if let Some(alt_host_threshold) = alt_host_threshold {
            let Some(threshold) = CollectionUuid::parse(alt_host_threshold) else {
                return false;
            };
            let to_evaluate = to_evaluate.high_bits();
            let alt_host_threshold = threshold.high_bits();
            to_evaluate <= alt_host_threshold
        } else {
            false
        }
    }
}

/// The answers among `rs`, in order.
pub open spec fn answered(
    rs: Seq<Result<GetAllCollectionInfoToCompactResponse, GrpcStatus>>,
) -> Seq<GetAllCollectionInfoToCompactResponse>
    decreases rs.len(),
{
    if rs.len() == 0 {
        seq![]
    } else {
        match rs[0] {
            Ok(a) => seq![a] + answered(rs.drop_first()),
            Err(_) => answered(rs.drop_first()),
        }
    }
}

/// The first failure among `rs`, if any.
pub open spec fn first_failure(
    rs: Seq<Result<GetAllCollectionInfoToCompactResponse, GrpcStatus>>,
) -> Option<GrpcStatus>
    decreases rs.len(),
{
    if rs.len() == 0 {
        None
    } else {
        match rs[0] {
            Err(s) => Some(s),
            Ok(_) => first_failure(rs.drop_first()),
        }
    }
}

/// No answer came exactly when every server failed; each answer that came is
/// among the answers, and nothing else is; when every server failed, the
/// first failure is that of the first server.
pub proof fn lemma_answered(rs: Seq<Result<GetAllCollectionInfoToCompactResponse, GrpcStatus>>)
    ensures
        answered(rs).len() == 0 <==> forall|i: int| 0 <= i < rs.len() ==> #[trigger] rs[i] is Err,
        forall|i: int|
            0 <= i < rs.len() && #[trigger] rs[i] is Ok ==> answered(rs).contains(rs[i]->Ok_0),
        forall|k: int|
            0 <= k < answered(rs).len() ==> exists|i: int|
                0 <= i < rs.len() && #[trigger] rs[i] == Ok::<
                    GetAllCollectionInfoToCompactResponse,
                    GrpcStatus,
                >(#[trigger] answered(rs)[k]),
        (rs.len() > 0 && forall|i: int| 0 <= i < rs.len() ==> #[trigger] rs[i] is Err)
            ==> first_failure(rs) == Some(rs[0]->Err_0),
    decreases rs.len(),
{
    if rs.len() > 0 {
        let tail = rs.drop_first();
        lemma_answered(tail);
        assert forall|i: int| 1 <= i < rs.len() implies #[trigger] rs[i] == tail[i - 1] by {}
        let ans = answered(rs);
        let tans = answered(tail);
        match rs[0] {
            Ok(a) => {
                assert(ans == seq![a] + tans);
                assert(ans[0] == a);
                assert forall|i: int|
                    0 <= i < rs.len() && #[trigger] rs[i] is Ok implies ans.contains(rs[i]->Ok_0) by {
                    if i > 0 {
                        assert(tail[i - 1] is Ok);
                        let j = choose|j: int| 0 <= j < tans.len() && tans[j] == tail[i - 1]->Ok_0;
                        assert(ans[j + 1] == tans[j]);
                    }
                }
                assert forall|k: int| 0 <= k < ans.len() implies exists|i: int|
                    0 <= i < rs.len() && #[trigger] rs[i] == Ok::<
                        GetAllCollectionInfoToCompactResponse,
                        GrpcStatus,
                    >(#[trigger] ans[k]) by {
                    if k == 0 {
                        assert(rs[0] == Ok::<GetAllCollectionInfoToCompactResponse, GrpcStatus>(ans[0]));
                    } else {
                        assert(ans[k] == tans[k - 1]);
                        let i = choose|i: int|
                            0 <= i < tail.len() && #[trigger] tail[i] == Ok::<
                                GetAllCollectionInfoToCompactResponse,
                                GrpcStatus,
                            >(tans[k - 1]);
                        assert(rs[i + 1] == tail[i]);
                    }
                }
            },
            Err(e) => {
                assert(ans == tans);
                assert forall|i: int|
                    0 <= i < rs.len() && #[trigger] rs[i] is Ok implies ans.contains(rs[i]->Ok_0) by {
                    assert(i > 0);
                    assert(tail[i - 1] is Ok);
                }
                assert forall|k: int| 0 <= k < ans.len() implies exists|i: int|
                    0 <= i < rs.len() && #[trigger] rs[i] == Ok::<
                        GetAllCollectionInfoToCompactResponse,
                        GrpcStatus,
                    >(#[trigger] ans[k]) by {
                    let i = choose|i: int|
                        0 <= i < tail.len() && #[trigger] tail[i] == Ok::<
                            GetAllCollectionInfoToCompactResponse,
                            GrpcStatus,
                        >(tans[k]);
                    assert(rs[i + 1] == tail[i]);
                }
                if forall|i: int| 0 <= i < tail.len() ==> #[trigger] tail[i] is Err {
                    assert forall|i: int| 0 <= i < rs.len() implies #[trigger] rs[i] is Err by {
                        if i > 0 {
                            assert(tail[i - 1] is Err);
                        }
                    }
                } else {
                    let i = choose|i: int| 0 <= i < tail.len() && !(#[trigger] tail[i] is Err);
                    assert(!(rs[i + 1] is Err));
                }
            },
        }
    }
}

/// The answers that came are the successful results, in the order of the
/// servers.
pub proof fn lemma_answered_in_order(
    rs: Seq<Result<GetAllCollectionInfoToCompactResponse, GrpcStatus>>,
)
    ensures
        answered(rs) == rs.filter(
            |x: Result<GetAllCollectionInfoToCompactResponse, GrpcStatus>| x is Ok,
        ).map_values(|x: Result<GetAllCollectionInfoToCompactResponse, GrpcStatus>| x->Ok_0),
    decreases rs.len(),
{
    let pred = |x: Result<GetAllCollectionInfoToCompactResponse, GrpcStatus>| x is Ok;
    let f = |x: Result<GetAllCollectionInfoToCompactResponse, GrpcStatus>| x->Ok_0;
    if rs.len() == 0 {
        reveal_with_fuel(Seq::filter, 1);
        assert(rs.filter(pred).map_values(f) =~= seq![]);
    } else {
        let head = seq![rs[0]];
        let tail = rs.drop_first();
        lemma_answered_in_order(tail);
        assert(rs =~= head + tail);
        Seq::filter_distributes_over_add(head, tail, pred);
        reveal_with_fuel(Seq::filter, 2);
        assert(head.drop_last() =~= Seq::<Result<GetAllCollectionInfoToCompactResponse, GrpcStatus>>::empty());
        assert((head.filter(pred) + tail.filter(pred)).map_values(f) =~= head.filter(pred).map_values(
            f,
        ) + tail.filter(pred).map_values(f));
        if rs[0] is Ok {
            assert(head.filter(pred).map_values(f) =~= seq![rs[0]->Ok_0]);
        } else {
            assert(head.filter(pred).map_values(f) =~= seq![]);
        }
    }
}

/// The collections of a result, none for a failure.
pub open spec fn collections_of<E>(r: Result<Vec<CollectionInfo>, E>) -> Seq<CollectionInfo> {
    match r {
        Ok(v) => v@,
        Err(_) => seq![],
    }
}

impl GrpcLog {
    /// The collections that need compaction according to the given answers:
    /// reported identifiers that do not parse are skipped; each collection
    /// comes once, in increasing order of identifier, with the smallest
    /// offset reported for it (of equal ones, the first reported).
    pub fn post_process_get_all(
        combined_response: Vec<GetAllCollectionInfoToCompactResponse>,
    ) -> (r: Result<Vec<CollectionInfo>, GrpcGetCollectionsWithNewDataError>)
        ensures
            r matches Ok(v) && is_compaction_of(v@, response_infos(combined_response@)),
            forall|k: int, m: int|
                0 <= k < combined_response@.len() && 0 <= m
                    < combined_response@[k].all_collection_info@.len() && parsed_info(
                    #[trigger] combined_response@[k].all_collection_info@[m],
                ) is Some ==> (r matches Ok(v) && exists|j: int|
                    0 <= j < v@.len() && #[trigger] v@[j].collection_id == parsed_info(
                        combined_response@[k].all_collection_info@[m],
                    )->Some_0.collection_id && v@[j].first_log_offset <= parsed_info(
                        combined_response@[k].all_collection_info@[m],
                    )->Some_0.first_log_offset),
            r matches Ok(v) ==> forall|j: int|
                0 <= j < v@.len() ==> exists|k: int, m: int|
                    0 <= k < combined_response@.len() && 0 <= m
                        < combined_response@[k].all_collection_info@.len() && parsed_info(
                        #[trigger] combined_response@[k].all_collection_info@[m],
                    ) == Some(#[trigger] v@[j]),
    {
        let ghost rs = combined_response@;
        let mut all_collections: Vec<CollectionInfo> = Vec::new();
        let mut i: usize = 0;
        while i < combined_response.len()
            invariant
                rs == combined_response@,
                i <= rs.len(),
                all_collections@ == response_infos(rs.take(i as int)),
            decreases rs.len() - i,
        {
            let collections = &combined_response[i].all_collection_info;
            let ghost ps = collections@;
            let ghost before = all_collections@;
            let mut j: usize = 0;
            while j < collections.len()
                invariant
                    ps == collections@,
                    j <= ps.len(),
                    all_collections@ == before + parsed_infos(ps.take(j as int)),
                decreases ps.len() - j,
            {
                let collection = &collections[j];
                let parsed = CollectionUuid::parse(collection.collection_id.as_str());
                proof {
                    assert(ps.take(j + 1).drop_last() =~= ps.take(j as int));
                    assert(ps.take(j + 1).last() == ps[j as int]);
                }
                match parsed {
                    Some(collection_id) => {
                        all_collections.push(
                            CollectionInfo {
                                collection_id,
                                first_log_offset: collection.first_log_offset,
                                first_log_ts: collection.first_log_ts,
                            },
                        );
                        proof {
                            assert(parsed_info(ps[j as int]) == Some(all_collections@.last()));
                            assert(all_collections@ =~= before + parsed_infos(ps.take(j + 1)));
                        }
                    },
                    None => {
                        proof {
                            assert(parsed_info(ps[j as int]) is None);
                        }
                    },
                }
                j = j + 1;
            }
            proof {
                assert(ps.take(ps.len() as int) =~= ps);
                assert(rs.take(i + 1).drop_last() =~= rs.take(i as int));
                assert(rs.take(i + 1).last() == rs[i as int]);
            }
            i = i + 1;
        }
        proof {
            assert(rs.take(rs.len() as int) =~= rs);
        }
        let compacted = compact_collections(&all_collections);
        proof {
            assert forall|k: int, m: int|
                0 <= k < rs.len() && 0 <= m < rs[k].all_collection_info@.len() && parsed_info(
                    #[trigger] rs[k].all_collection_info@[m],
                ) is Some implies exists|j: int|
                0 <= j < compacted@.len() && #[trigger] compacted@[j].collection_id == parsed_info(
                    rs[k].all_collection_info@[m],
                )->Some_0.collection_id && compacted@[j].first_log_offset <= parsed_info(
                    rs[k].all_collection_info@[m],
                )->Some_0.first_log_offset by {
                lemma_response_infos_cover(rs, k, m);
                lemma_compaction_covers(
                    compacted@,
                    response_infos(rs),
                    parsed_info(rs[k].all_collection_info@[m])->Some_0,
                );
            }
            assert forall|j: int| 0 <= j < compacted@.len() implies exists|k: int, m: int|
                0 <= k < rs.len() && 0 <= m < rs[k].all_collection_info@.len() && parsed_info(
                    #[trigger] rs[k].all_collection_info@[m],
                ) == Some(#[trigger] compacted@[j]) by {
                let infos = response_infos(rs);
                assert(kept_entry(infos, compacted@[j]));
                let jj = choose|jj: int| is_kept(infos, jj) && #[trigger] infos[jj] == compacted@[j];
                assert(infos.contains(compacted@[j]));
                lemma_response_infos_from_reports(rs, compacted@[j]);
            }
        }
        Ok(compacted)
    }

    /// The collections that need compaction according to the servers asked:
    /// if every server failed (and at least one was asked), the first
    /// failure; otherwise the answers that came, combined as
    /// `post_process_get_all` does. No server asked means no collection.
    pub fn gather_collections_with_new_data(
        responses: Vec<Result<GetAllCollectionInfoToCompactResponse, GrpcStatus>>,
    ) -> (r: Result<Vec<CollectionInfo>, GrpcGetCollectionsWithNewDataError>)
        ensures
            (first_failure(responses@) is Some && answered(responses@).len() == 0) ==> r
                == Err::<Vec<CollectionInfo>, GrpcGetCollectionsWithNewDataError>(
                GrpcGetCollectionsWithNewDataError::FailedGetCollectionsWithNewData(
                    first_failure(responses@)->0,
                ),
            ),
            !(first_failure(responses@) is Some && answered(responses@).len() == 0) ==> (r matches Ok(
                v,
            ) && is_compaction_of(v@, response_infos(answered(responses@)))),
            (exists|i: int| 0 <= i < responses@.len() && #[trigger] responses@[i] is Ok) ==> r is Ok,
            (responses@.len() > 0 && forall|i: int|
                0 <= i < responses@.len() ==> #[trigger] responses@[i] is Err) ==> r == Err::<
                Vec<CollectionInfo>,
                GrpcGetCollectionsWithNewDataError,
            >(
                GrpcGetCollectionsWithNewDataError::FailedGetCollectionsWithNewData(
                    responses@[0]->Err_0,
                ),
            ),
            responses@.len() == 0 ==> (r matches Ok(v) && v@.len() == 0),
            forall|i: int, k: int|
                0 <= i < responses@.len() && responses@[i] is Ok && 0 <= k
                    < responses@[i]->Ok_0.all_collection_info@.len() && parsed_info(
                    #[trigger] responses@[i]->Ok_0.all_collection_info@[k],
                ) is Some ==> (r matches Ok(v) && exists|j: int|
                    0 <= j < v@.len() && #[trigger] v@[j].collection_id == parsed_info(
                        responses@[i]->Ok_0.all_collection_info@[k],
                    )->Some_0.collection_id && v@[j].first_log_offset <= parsed_info(
                        responses@[i]->Ok_0.all_collection_info@[k],
                    )->Some_0.first_log_offset),
            r matches Ok(v) ==> forall|j: int|
                0 <= j < v@.len() ==> exists|i: int, k: int|
                    0 <= i < responses@.len() && responses@[i] is Ok && 0 <= k
                        < responses@[i]->Ok_0.all_collection_info@.len() && parsed_info(
                        #[trigger] responses@[i]->Ok_0.all_collection_info@[k],
                    ) == Some(#[trigger] v@[j]),
    {
        proof {
            lemma_answered(responses@);
        }
        let ghost rs = responses@;
        let mut rest = responses;
        let mut combined: Vec<GetAllCollectionInfoToCompactResponse> = Vec::new();
        let mut error: Option<GrpcStatus> = None;
        while rest.len() > 0
            invariant
                answered(rs) == combined@ + answered(rest@),
                first_failure(rs) == (match error {
                    Some(s) => Some(s),
                    None => first_failure(rest@),
                }),
            decreases rest@.len(),
        {
            let ghost before = rest@;
            let item = rest.remove(0);
            proof {
                assert(rest@ =~= before.drop_first());
            }
            match item {
                Ok(response) => {
                    combined.push(response);
                    proof {
                        assert(combined@ + answered(rest@) =~= (combined@.drop_last() + seq![
                            combined@.last(),
                        ]) + answered(rest@));
                    }
                },
                Err(status) => {
                    if error.is_none() {
                        error = Some(status);
                    }
                },
            }
        }
        proof {
            assert(combined@ + answered(rest@) =~= combined@);
        }
        if let Some(status) = error {
            if combined.len() == 0 {
                return Err(GrpcGetCollectionsWithNewDataError::FailedGetCollectionsWithNewData(status));
            }
        }
        let result = GrpcLog::post_process_get_all(combined);
        proof {
            let qs = answered(rs);
            if rs.len() == 0 {
                let v = result->Ok_0;
                assert(response_infos(qs).len() == 0);
                if v@.len() > 0 {
                    assert(kept_entry(response_infos(qs), v@[0]));
                }
            }
            assert forall|i: int, k: int|
                0 <= i < rs.len() && rs[i] is Ok && 0 <= k < rs[i]->Ok_0.all_collection_info@.len()
                    && parsed_info(#[trigger] rs[i]->Ok_0.all_collection_info@[k]) is Some implies (
            result matches Ok(v) && exists|j: int|
                0 <= j < v@.len() && #[trigger] v@[j].collection_id == parsed_info(
                    rs[i]->Ok_0.all_collection_info@[k],
                )->Some_0.collection_id && v@[j].first_log_offset <= parsed_info(
                    rs[i]->Ok_0.all_collection_info@[k],
                )->Some_0.first_log_offset) by {
                let a = rs[i]->Ok_0;
                assert(qs.contains(a));
                let n = choose|n: int| 0 <= n < qs.len() && qs[n] == a;
                lemma_response_infos_cover(qs, n, k);
                let c = parsed_info(a.all_collection_info@[k])->Some_0;
                lemma_compaction_covers(result->Ok_0@, response_infos(qs), c);
            }
            let v = result->Ok_0;
            assert forall|j: int| 0 <= j < v@.len() implies exists|i: int, k: int|
                0 <= i < rs.len() && rs[i] is Ok && 0 <= k < rs[i]->Ok_0.all_collection_info@.len()
                    && parsed_info(#[trigger] rs[i]->Ok_0.all_collection_info@[k]) == Some(
                    #[trigger] v@[j],
                ) by {
                let (n, k) = choose|n: int, k: int|
                    0 <= n < qs.len() && 0 <= k < qs[n].all_collection_info@.len() && parsed_info(
                        #[trigger] qs[n].all_collection_info@[k],
                    ) == Some(v@[j]);
                let i = choose|i: int|
                    0 <= i < rs.len() && #[trigger] rs[i] == Ok::<
                        GetAllCollectionInfoToCompactResponse,
                        GrpcStatus,
                    >(qs[n]);
                assert(rs[i]->Ok_0 == qs[n]);
            }
        }
        result
    }

    /// The collections that need compaction according to the primary log and,
    /// if it was asked, the alternative log: a failed answer counts as no
    /// collection; the two lists are combined as `post_process_get_all`
    /// combines reports. It never fails.
    pub fn merge_collections_with_new_data<E>(
        primary: Result<Vec<CollectionInfo>, E>,
        alt: Option<Result<Vec<CollectionInfo>, E>>,
    ) -> (r: Result<Vec<CollectionInfo>, GrpcGetCollectionsWithNewDataError>)
        ensures
            r matches Ok(v) && is_compaction_of(
                v@,
                collections_of(primary) + match alt {
                    Some(a) => collections_of(a),
                    None => Seq::<CollectionInfo>::empty(),
                },
            ),
    {
        let mut norm = match primary {
            Ok(colls) => colls,
            Err(_) => Vec::new(),
        };
        let ghost first = norm@;
        match alt {
            Some(Ok(mut colls)) => {
                norm.append(&mut colls);
            },
            _ => {
                assert(norm@ =~= first + Seq::<CollectionInfo>::empty());
            },
        }
        Ok(compact_collections(&norm))
    }
}

/// The first failed answer among `answers`, if any.
pub open spec fn first_failed_answer(answers: Seq<Result<(), GrpcStatus>>) -> Option<GrpcStatus>
    decreases answers.len(),
{
    if answers.len() == 0 {
        None
    } else {
        match answers[0] {
            Err(s) => Some(s),
            Ok(_) => first_failed_answer(answers.drop_first()),
        }
    }
}

/// The first failed answer is `None` exactly when every answer succeeded,
/// and otherwise the failure of the lowest-index failed answer.
pub proof fn lemma_first_failed_answer(answers: Seq<Result<(), GrpcStatus>>)
    ensures
        first_failed_answer(answers) is None <==> forall|i: int|
            0 <= i < answers.len() ==> #[trigger] answers[i] is Ok,
        first_failed_answer(answers) matches Some(s) ==> exists|i: int|
            0 <= i < answers.len() && answers[i] == Err::<(), GrpcStatus>(s) && forall|j: int|
                0 <= j < i ==> #[trigger] answers[j] is Ok,
    decreases answers.len(),
{
    if answers.len() > 0 {
        let rest = answers.drop_first();
        lemma_first_failed_answer(rest);
        match answers[0] {
            Err(s) => {
                assert(answers[0] == Err::<(), GrpcStatus>(s));
            },
            Ok(_) => {
                if first_failed_answer(rest) is None {
                    assert forall|i: int| 0 <= i < answers.len() implies #[trigger] answers[i] is Ok by {
                        if i > 0 {
                            assert(answers[i] == rest[i - 1]);
                        }
                    }
                } else {
                    let s = first_failed_answer(rest)->0;
                    let i = choose|i: int|
                        0 <= i < rest.len() && rest[i] == Err::<(), GrpcStatus>(s) && forall|j: int|
                            0 <= j < i ==> #[trigger] rest[j] is Ok;
                    assert(answers[i + 1] == rest[i]);
                    assert forall|j: int| 0 <= j < i + 1 implies #[trigger] answers[j] is Ok by {
                        if j > 0 {
                            assert(answers[j] == rest[j - 1]);
                        }
                    }
                    assert(!(answers[i + 1] is Ok));
                }
            },
        }
    }
}

impl<C, A> GrpcLog<C, A> {
    /// The outcome of purging collections from the dirty log, given each
    /// alternative-log server's answer: without an assigner there is nothing
    /// to purge and it succeeds; otherwise it succeeds only if every server
    /// did, and fails with `FailedToPurgeDirty` of the first failed answer.
    pub fn purge_dirty_for_collection_outcome(&self, answers: Vec<Result<(), GrpcStatus>>) -> (r:
        Result<(), GrpcPurgeDirtyForCollectionError>)
        ensures
            self.alt_client_assigner_spec() is None ==> r is Ok,
            self.alt_client_assigner_spec() is Some ==> match first_failed_answer(answers@) {
                None => r is Ok,
                Some(s) => r == Err::<(), GrpcPurgeDirtyForCollectionError>(
                    GrpcPurgeDirtyForCollectionError::FailedToPurgeDirty(s),
                ),
            },
            self.alt_client_assigner_spec() is Some ==> (r is Ok <==> forall|i: int|
                0 <= i < answers@.len() ==> #[trigger] answers@[i] is Ok),
            r matches Err(GrpcPurgeDirtyForCollectionError::FailedToPurgeDirty(s)) ==> exists|i: int|
                0 <= i < answers@.len() && answers@[i] == Err::<(), GrpcStatus>(s) && forall|j: int|
                    0 <= j < i ==> #[trigger] answers@[j] is Ok,
    {
        proof {
            lemma_first_failed_answer(answers@);
        }
        if self.alt_client_assigner.is_none() {
            return Ok(());
        }
        let ghost all = answers@;
        let mut rest = answers;
        while rest.len() > 0
            invariant
                all == answers@,
                self.alt_client_assigner_spec() is Some,
                first_failed_answer(all) == first_failed_answer(rest@),
            decreases rest@.len(),
        {
            let ghost before = rest@;
            let answer = rest.remove(0);
            proof {
                assert(rest@ =~= before.drop_first());
                assert(before[0] == answer);
            }
            match answer {
                Ok(_) => {},
                Err(status) => {
                    proof {
                        assert(first_failed_answer(before) == Some(status));
                        lemma_first_failed_answer(all);
                    }
                    return Err(GrpcPurgeDirtyForCollectionError::FailedToPurgeDirty(status));
                },
            }
        }
        Ok(())
    }
}

} // verus!
