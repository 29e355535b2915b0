//! The collections that have log entries waiting for compaction, as the log
//! service reports them, and how the reports are merged: each collection
//! once, ordered by identifier, at the oldest offset reported for it.

use vstd::prelude::*;
use crate::collection_id::{CollectionUuid, parsed_collection_id};

verus! {

/// A collection with log entries that are not compacted yet.
#[derive(Clone, Copy, Debug, PartialEq, Eq, Structural)]
pub struct CollectionInfo {
    pub collection_id: CollectionUuid,
    pub first_log_offset: i64,
    pub first_log_ts: i64,
}

/// One collection as the service reports it: its identifier is still text.
#[derive(Clone, Debug)]
pub struct ProtoCollectionInfo {
    pub collection_id: String,
    pub first_log_offset: i64,
    pub first_log_ts: i64,
}

/// One server's answer to the question which collections need compaction.
#[derive(Clone, Debug)]
pub struct GetAllCollectionInfoToCompactResponse {
    pub all_collection_info: Vec<ProtoCollectionInfo>,
}

/// The entry at index `j` is the one kept for its collection among the first
/// `n` entries of `s`: no entry of the same collection among them has a
/// smaller offset, and none before it has the same offset.
pub open spec fn kept_among(s: Seq<CollectionInfo>, n: int, j: int) -> bool {
    &&& 0 <= j < n
    &&& forall|i: int|
        #![trigger s[i]]
        0 <= i < n && s[i].collection_id == s[j].collection_id ==> {
            &&& s[j].first_log_offset <= s[i].first_log_offset
            &&& (i < j ==> s[j].first_log_offset < s[i].first_log_offset)
        }
}

/// The entry at index `j` of `s` is the one kept for its collection.
pub open spec fn is_kept(s: Seq<CollectionInfo>, j: int) -> bool {
    kept_among(s, s.len() as int, j)
}

/// The identifiers of `r` strictly increase.
pub open spec fn strictly_sorted(r: Seq<CollectionInfo>) -> bool {
    forall|a: int, b: int|
        0 <= a < b < r.len() ==> r[a].collection_id.0 < r[b].collection_id.0
}

/// `r` is `s` sorted by (identifier, offset) with only the first entry of
/// each collection left: each collection of `s` once, in increasing order of
/// identifier, as the entry of the smallest offset (the earliest such entry
/// of `s`).
pub open spec fn is_compaction_of(r: Seq<CollectionInfo>, s: Seq<CollectionInfo>) -> bool {
    &&& strictly_sorted(r)
    &&& forall|k: int| 0 <= k < r.len() ==> kept_entry(s, #[trigger] r[k])
    &&& forall|j: int| 0 <= j < s.len() ==> has_collection(r, #[trigger] s[j].collection_id)
}

/// `e` is the entry of `s` kept for its collection.
pub open spec fn kept_entry(s: Seq<CollectionInfo>, e: CollectionInfo) -> bool {
    exists|j: int| is_kept(s, j) && #[trigger] s[j] == e
}

/// Some entry of `r` belongs to collection `id`.
pub open spec fn has_collection(r: Seq<CollectionInfo>, id: CollectionUuid) -> bool {
    exists|k: int| 0 <= k < r.len() && #[trigger] r[k].collection_id == id
}

/// The entry a reported collection becomes, if its identifier parses.
pub open spec fn parsed_info(p: ProtoCollectionInfo) -> Option<CollectionInfo> {
    match parsed_collection_id(p.collection_id@) {
        Some(id) => Some(
            CollectionInfo {
                collection_id: id,
                first_log_offset: p.first_log_offset,
                first_log_ts: p.first_log_ts,
            },
        ),
        None => None,
    }
}

/// The entries of the reported collections whose identifiers parse, in order.
pub open spec fn parsed_infos(ps: Seq<ProtoCollectionInfo>) -> Seq<CollectionInfo>
    decreases ps.len(),
{
    if ps.len() == 0 {
        seq![]
    } else {
        let rest = parsed_infos(ps.drop_last());
        match parsed_info(ps.last()) {
            Some(c) => rest.push(c),
            None => rest,
        }
    }
}

/// The entries of all answers, answer after answer.
pub open spec fn response_infos(rs: Seq<GetAllCollectionInfoToCompactResponse>) -> Seq<CollectionInfo>
    decreases rs.len(),
{
    if rs.len() == 0 {
        seq![]
    } else {
        response_infos(rs.drop_last()) + parsed_infos(rs.last().all_collection_info@)
    }
}

proof fn lemma_kept_extend_other(s: Seq<CollectionInfo>, n: int, j: int)
    requires
        kept_among(s, n, j),
        n < s.len(),
        s[n].collection_id != s[j].collection_id,
    ensures
        kept_among(s, n + 1, j),
{
}

proof fn lemma_compaction_from_sources(s: Seq<CollectionInfo>, r: Seq<CollectionInfo>, src: Seq<int>)
    requires
        strictly_sorted(r),
        src.len() == r.len(),
        forall|k: int|
            0 <= k < r.len() ==> kept_among(s, s.len() as int, #[trigger] src[k]) && s[src[k]]
                == r[k],
        forall|j: int| 0 <= j < s.len() ==> has_collection(r, #[trigger] s[j].collection_id),
    ensures
        is_compaction_of(r, s),
{
    assert forall|k: int| 0 <= k < r.len() implies kept_entry(s, #[trigger] r[k]) by {
        assert(kept_among(s, s.len() as int, src[k]));
        assert(is_kept(s, src[k]) && s[src[k]] == r[k]);
    }
}

/// Two entries kept for the same collection are the same entry.
proof fn lemma_kept_unique(s: Seq<CollectionInfo>, j1: int, j2: int)
    requires
        is_kept(s, j1),
        is_kept(s, j2),
        s[j1].collection_id == s[j2].collection_id,
    ensures
        j1 == j2,
{
    assert(s[j1].first_log_offset <= s[j2].first_log_offset);
    assert(s[j2].first_log_offset <= s[j1].first_log_offset);
}

/// A collection of an entry of a compaction also has an entry in every other
/// compaction of the same list.
proof fn lemma_compaction_has_collection(r1: Seq<CollectionInfo>, r2: Seq<CollectionInfo>, s: Seq<CollectionInfo>, k: int)
    requires
        is_compaction_of(r1, s),
        is_compaction_of(r2, s),
        0 <= k < r1.len(),
    ensures
        has_collection(r2, r1[k].collection_id),
{
    assert(kept_entry(s, r1[k]));
    let j = choose|j: int| is_kept(s, j) && #[trigger] s[j] == r1[k];
    assert(has_collection(r2, s[j].collection_id));
}

proof fn lemma_compaction_ids_agree(r1: Seq<CollectionInfo>, r2: Seq<CollectionInfo>, s: Seq<CollectionInfo>, k: int)
    requires
        is_compaction_of(r1, s),
        is_compaction_of(r2, s),
        0 <= k < r1.len(),
        k < r2.len(),
    ensures
        forall|i: int| 0 <= i <= k ==> #[trigger] r1[i].collection_id == r2[i].collection_id,
    decreases k,
{
    if k > 0 {
        lemma_compaction_ids_agree(r1, r2, s, k - 1);
    }
    let x = r1[k].collection_id;
    let y = r2[k].collection_id;
    if x != y {
        lemma_compaction_has_collection(r1, r2, s, k);
        lemma_compaction_has_collection(r2, r1, s, k);
        let k2 = choose|i: int| 0 <= i < r2.len() && #[trigger] r2[i].collection_id == x;
        let k1 = choose|i: int| 0 <= i < r1.len() && #[trigger] r1[i].collection_id == y;
        if k2 < k {
            assert(r1[k2].collection_id == r2[k2].collection_id);
            assert(r1[k2].collection_id.0 < r1[k].collection_id.0);
        } else if k1 < k {
            assert(r1[k1].collection_id == r2[k1].collection_id);
            assert(r2[k1].collection_id.0 < r2[k].collection_id.0);
        } else {
            assert(k2 > k && k1 > k);
            assert(r2[k].collection_id.0 < r2[k2].collection_id.0);
            assert(r1[k].collection_id.0 < r1[k1].collection_id.0);
        }
    }
}

/// A list has one compaction only: two lists that are both compactions of
/// the same entries are equal.
pub proof fn lemma_compaction_unique(r1: Seq<CollectionInfo>, r2: Seq<CollectionInfo>, s: Seq<CollectionInfo>)
    requires
        is_compaction_of(r1, s),
        is_compaction_of(r2, s),
    ensures
        r1 == r2,
{
    if r1.len() > 0 && r2.len() > 0 {
        let m = if r1.len() < r2.len() { r1.len() as int } else { r2.len() as int };
        lemma_compaction_ids_agree(r1, r2, s, m - 1);
    }
    if r1.len() > r2.len() {
        let k = r2.len() as int;
        lemma_compaction_has_collection(r1, r2, s, k);
        let k2 = choose|i: int| 0 <= i < r2.len() && #[trigger] r2[i].collection_id == r1[k].collection_id;
        assert(r1[k2].collection_id == r2[k2].collection_id);
        assert(r1[k2].collection_id.0 < r1[k].collection_id.0);
    }
    if r2.len() > r1.len() {
        let k = r1.len() as int;
        lemma_compaction_has_collection(r2, r1, s, k);
        let k1 = choose|i: int| 0 <= i < r1.len() && #[trigger] r1[i].collection_id == r2[k].collection_id;
        assert(r1[k1].collection_id == r2[k1].collection_id);
        assert(r2[k1].collection_id.0 < r2[k].collection_id.0);
    }
    assert forall|k: int| 0 <= k < r1.len() implies r1[k] == r2[k] by {
        assert(r1[k].collection_id == r2[k].collection_id);
        assert(kept_entry(s, r1[k]));
        assert(kept_entry(s, r2[k]));
        let j1 = choose|j: int| is_kept(s, j) && #[trigger] s[j] == r1[k];
        let j2 = choose|j: int| is_kept(s, j) && #[trigger] s[j] == r2[k];
        lemma_kept_unique(s, j1, j2);
    }
    assert(r1 =~= r2);
}

/// Compacting a compacted list changes nothing.
pub proof fn lemma_compaction_idempotent(r: Seq<CollectionInfo>, s: Seq<CollectionInfo>, q: Seq<CollectionInfo>)
    requires
        is_compaction_of(r, s),
        is_compaction_of(q, r),
    ensures
        q == r,
{
    assert forall|k: int| 0 <= k < r.len() implies kept_entry(r, #[trigger] r[k]) by {
        assert forall|i: int| 0 <= i < r.len() && #[trigger] r[i].collection_id == r[k].collection_id implies i == k by {
            if i < k {
                assert(r[i].collection_id.0 < r[k].collection_id.0);
            } else if i > k {
                assert(r[k].collection_id.0 < r[i].collection_id.0);
            }
        }
        assert(is_kept(r, k));
    }
    assert forall|j: int| 0 <= j < r.len() implies has_collection(r, #[trigger] r[j].collection_id) by {
        assert(r[j].collection_id == r[j].collection_id);
    }
    assert(is_compaction_of(r, r));
    lemma_compaction_unique(q, r, r);
}

/// Compacting each server's reports and then compacting the two compacted
/// lists together gives the compaction of all reports at once.
pub proof fn lemma_merge_of_compactions(
    a: Seq<CollectionInfo>,
    b: Seq<CollectionInfo>,
    ra: Seq<CollectionInfo>,
    rb: Seq<CollectionInfo>,
    r: Seq<CollectionInfo>,
)
    requires
        is_compaction_of(ra, a),
        is_compaction_of(rb, b),
        is_compaction_of(r, ra + rb),
    ensures
        is_compaction_of(r, a + b),
{
    let s = a + b;
    let t = ra + rb;
    assert forall|k: int| 0 <= k < r.len() implies kept_entry(s, #[trigger] r[k]) by {
        assert(kept_entry(t, r[k]));
        let j = choose|j: int| is_kept(t, j) && #[trigger] t[j] == r[k];
        if j < ra.len() {
            assert(t[j] == ra[j]);
            assert(kept_entry(a, ra[j]));
            let ja = choose|ja: int| is_kept(a, ja) && #[trigger] a[ja] == ra[j];
            assert(s[ja] == a[ja]);
            assert forall|i: int|
                0 <= i < s.len() && #[trigger] s[i].collection_id == s[ja].collection_id implies {
                &&& s[ja].first_log_offset <= s[i].first_log_offset
                &&& (i < ja ==> s[ja].first_log_offset < s[i].first_log_offset)
            } by {
                if i < a.len() {
                    assert(s[i] == a[i]);
                } else {
                    let ib = i - a.len();
                    assert(s[i] == b[ib]);
                    assert(has_collection(rb, b[ib].collection_id));
                    let kb = choose|kb: int|
                        0 <= kb < rb.len() && #[trigger] rb[kb].collection_id == b[ib].collection_id;
                    assert(kept_entry(b, rb[kb]));
                    let jb = choose|jb: int| is_kept(b, jb) && #[trigger] b[jb] == rb[kb];
                    assert(b[jb].first_log_offset <= b[ib].first_log_offset);
                    assert(t[ra.len() + kb] == rb[kb]);
                    assert(t[j].first_log_offset <= t[ra.len() + kb].first_log_offset);
                }
            }
            assert(is_kept(s, ja));
        } else {
            let jr = j - ra.len();
            assert(t[j] == rb[jr]);
            assert(kept_entry(b, rb[jr]));
            let jb = choose|jb: int| is_kept(b, jb) && #[trigger] b[jb] == rb[jr];
            let js = a.len() + jb;
            assert(s[js] == b[jb]);
            assert forall|i: int|
                0 <= i < s.len() && #[trigger] s[i].collection_id == s[js].collection_id implies {
                &&& s[js].first_log_offset <= s[i].first_log_offset
                &&& (i < js ==> s[js].first_log_offset < s[i].first_log_offset)
            } by {
                if i < a.len() {
                    assert(s[i] == a[i]);
                    assert(has_collection(ra, a[i].collection_id));
                    let ka = choose|ka: int|
                        0 <= ka < ra.len() && #[trigger] ra[ka].collection_id == a[i].collection_id;
                    assert(kept_entry(a, ra[ka]));
                    let ja = choose|ja: int| is_kept(a, ja) && #[trigger] a[ja] == ra[ka];
                    assert(a[ja].first_log_offset <= a[i].first_log_offset);
                    assert(t[ka] == ra[ka]);
                    assert(t[j].first_log_offset < t[ka].first_log_offset);
                } else {
                    let ib = i - a.len();
                    assert(s[i] == b[ib]);
                }
            }
            assert(is_kept(s, js));
        }
    }
    assert forall|i: int| 0 <= i < s.len() implies has_collection(r, #[trigger] s[i].collection_id) by {
        if i < a.len() {
            assert(s[i] == a[i]);
            assert(has_collection(ra, a[i].collection_id));
            let ka = choose|ka: int|
                0 <= ka < ra.len() && #[trigger] ra[ka].collection_id == a[i].collection_id;
            assert(t[ka] == ra[ka]);
            assert(has_collection(r, t[ka].collection_id));
        } else {
            let ib = i - a.len();
            assert(s[i] == b[ib]);
            assert(has_collection(rb, b[ib].collection_id));
            let kb = choose|kb: int|
                0 <= kb < rb.len() && #[trigger] rb[kb].collection_id == b[ib].collection_id;
            assert(t[ra.len() + kb] == rb[kb]);
            assert(has_collection(r, t[ra.len() + kb].collection_id));
        }
    }
}

/// No two entries of `s` belong to the same collection at the same offset.
pub open spec fn no_ties(s: Seq<CollectionInfo>) -> bool {
    forall|i: int, j: int|
        0 <= i < s.len() && 0 <= j < s.len() && i != j && #[trigger] s[i].collection_id
            == #[trigger] s[j].collection_id ==> s[i].first_log_offset != s[j].first_log_offset
}

/// `e` is an entry of `s` and no entry of its collection has a smaller offset.
pub open spec fn is_min_entry(s: Seq<CollectionInfo>, e: CollectionInfo) -> bool {
    &&& s.contains(e)
    &&& forall|x: CollectionInfo|
        s.contains(x) && x.collection_id == e.collection_id ==> e.first_log_offset
            <= #[trigger] x.first_log_offset
}

proof fn lemma_kept_entry_is_min_entry(s: Seq<CollectionInfo>, e: CollectionInfo)
    requires
        no_ties(s),
    ensures
        kept_entry(s, e) <==> is_min_entry(s, e),
{
    if kept_entry(s, e) {
        let j = choose|j: int| is_kept(s, j) && #[trigger] s[j] == e;
        assert(s.contains(e));
        assert forall|x: CollectionInfo|
            s.contains(x) && x.collection_id == e.collection_id implies e.first_log_offset
            <= #[trigger] x.first_log_offset by {
            let i = choose|i: int| 0 <= i < s.len() && s[i] == x;
            assert(s[i].collection_id == s[j].collection_id);
        }
    }
    if is_min_entry(s, e) {
        let j = choose|j: int| 0 <= j < s.len() && s[j] == e;
        assert forall|i: int|
            0 <= i < s.len() && #[trigger] s[i].collection_id == s[j].collection_id implies {
            &&& s[j].first_log_offset <= s[i].first_log_offset
            &&& (i < j ==> s[j].first_log_offset < s[i].first_log_offset)
        } by {
            assert(s.contains(s[i]));
            if i != j {
                assert(s[i].first_log_offset != s[j].first_log_offset);
            }
        }
        assert(is_kept(s, j));
        assert(kept_entry(s, e));
    }
}

/// Without ties, whether `r` is the compaction of a list depends only on
/// which entries the list holds, not on their order.
proof fn lemma_compaction_by_contents(s1: Seq<CollectionInfo>, s2: Seq<CollectionInfo>, r: Seq<CollectionInfo>)
    requires
        forall|x: CollectionInfo| s1.contains(x) <==> s2.contains(x),
        no_ties(s1),
        no_ties(s2),
        is_compaction_of(r, s1),
    ensures
        is_compaction_of(r, s2),
{
    assert forall|k: int| 0 <= k < r.len() implies kept_entry(s2, #[trigger] r[k]) by {
        lemma_kept_entry_is_min_entry(s1, r[k]);
        lemma_kept_entry_is_min_entry(s2, r[k]);
        assert(is_min_entry(s1, r[k]));
        assert forall|x: CollectionInfo|
            s2.contains(x) && x.collection_id == r[k].collection_id implies r[k].first_log_offset
            <= #[trigger] x.first_log_offset by {
            assert(s1.contains(x));
        }
        assert(is_min_entry(s2, r[k]));
    }
    assert forall|j: int| 0 <= j < s2.len() implies has_collection(r, #[trigger] s2[j].collection_id) by {
        assert(s2.contains(s2[j]));
        assert(s1.contains(s2[j]));
        let i = choose|i: int| 0 <= i < s1.len() && s1[i] == s2[j];
        assert(has_collection(r, s1[i].collection_id));
    }
}

proof fn lemma_no_ties_no_duplicates(s: Seq<CollectionInfo>)
    requires
        no_ties(s),
    ensures
        s.no_duplicates(),
{
    assert forall|i: int, j: int| 0 <= i < s.len() && 0 <= j < s.len() && i != j implies s[i]
        != s[j] by {
        if s[i] == s[j] {
            assert(s[i].collection_id == s[j].collection_id);
        }
    }
}

/// When no two entries belong to the same collection at the same offset, the
/// compaction of a list depends only on the multiset of its entries: any
/// reordering of the entries has the same compaction.
pub proof fn lemma_compaction_ignores_order(s1: Seq<CollectionInfo>, s2: Seq<CollectionInfo>, r: Seq<CollectionInfo>)
    requires
        s1.to_multiset() == s2.to_multiset(),
        no_ties(s1),
        is_compaction_of(r, s1),
    ensures
        is_compaction_of(r, s2),
{
    broadcast use vstd::seq_lib::group_to_multiset_ensures;

    assert forall|x: CollectionInfo| s1.contains(x) <==> s2.contains(x) by {
        assert(s1.contains(x) <==> s1.to_multiset().count(x) > 0);
        assert(s2.contains(x) <==> s2.to_multiset().count(x) > 0);
    }
    lemma_no_ties_no_duplicates(s1);
    s1.lemma_multiset_has_no_duplicates();
    s2.lemma_multiset_has_no_duplicates_conv();
    assert forall|i: int, j: int|
        0 <= i < s2.len() && 0 <= j < s2.len() && i != j && #[trigger] s2[i].collection_id
            == #[trigger] s2[j].collection_id implies s2[i].first_log_offset
        != s2[j].first_log_offset by {
        assert(s2[i] != s2[j]);
        assert(s2.contains(s2[i]));
        assert(s2.contains(s2[j]));
        let a = choose|a: int| 0 <= a < s1.len() && s1[a] == s2[i];
        let b = choose|b: int| 0 <= b < s1.len() && s1[b] == s2[j];
        assert(s1[a].collection_id == s1[b].collection_id);
    }
    lemma_compaction_by_contents(s1, s2, r);
}

/// All reported collections of all answers, answer after answer.
pub open spec fn all_entries(rs: Seq<GetAllCollectionInfoToCompactResponse>) -> Seq<ProtoCollectionInfo>
    decreases rs.len(),
{
    if rs.len() == 0 {
        seq![]
    } else {
        all_entries(rs.drop_last()) + rs.last().all_collection_info@
    }
}

proof fn lemma_parsed_infos_concat(a: Seq<ProtoCollectionInfo>, b: Seq<ProtoCollectionInfo>)
    ensures
        parsed_infos(a + b) == parsed_infos(a) + parsed_infos(b),
    decreases b.len(),
{
    if b.len() == 0 {
        assert(a + b =~= a);
        assert(parsed_infos(a) + parsed_infos(b) =~= parsed_infos(a));
    } else {
        lemma_parsed_infos_concat(a, b.drop_last());
        assert((a + b).drop_last() =~= a + b.drop_last());
        assert((a + b).last() == b.last());
        match parsed_info(b.last()) {
            Some(c) => {
                assert(parsed_infos(a) + parsed_infos(b) =~= (parsed_infos(a) + parsed_infos(
                    b.drop_last(),
                )).push(c));
            },
            None => {},
        }
    }
}

proof fn lemma_response_infos_of_entries(rs: Seq<GetAllCollectionInfoToCompactResponse>)
    ensures
        response_infos(rs) == parsed_infos(all_entries(rs)),
    decreases rs.len(),
{
    if rs.len() > 0 {
        lemma_response_infos_of_entries(rs.drop_last());
        lemma_parsed_infos_concat(all_entries(rs.drop_last()), rs.last().all_collection_info@);
    }
}

proof fn lemma_parsed_infos_contains(ps: Seq<ProtoCollectionInfo>, e: CollectionInfo)
    ensures
        parsed_infos(ps).contains(e) <==> exists|i: int|
            0 <= i < ps.len() && #[trigger] parsed_info(ps[i]) == Some(e),
    decreases ps.len(),
{
    if ps.len() > 0 {
        let rest = ps.drop_last();
        lemma_parsed_infos_contains(rest, e);
        if parsed_infos(ps).contains(e) {
            if parsed_infos(rest).contains(e) {
                let i = choose|i: int| 0 <= i < rest.len() && #[trigger] parsed_info(rest[i]) == Some(e);
                assert(ps[i] == rest[i]);
            } else {
                let n = ps.len() - 1;
                let k = choose|k: int| 0 <= k < parsed_infos(ps).len() && parsed_infos(ps)[k] == e;
                assert(parsed_info(ps[n]) == Some(e));
            }
        }
        if exists|i: int| 0 <= i < ps.len() && #[trigger] parsed_info(ps[i]) == Some(e) {
            let i = choose|i: int| 0 <= i < ps.len() && #[trigger] parsed_info(ps[i]) == Some(e);
            if i < ps.len() - 1 {
                assert(rest[i] == ps[i]);
                let k = choose|k: int| 0 <= k < parsed_infos(rest).len() && parsed_infos(rest)[k] == e;
                assert(parsed_infos(ps)[k] == e);
            } else {
                assert(parsed_infos(ps) == parsed_infos(rest).push(e));
                assert(parsed_infos(ps)[parsed_infos(rest).len() as int] == e);
            }
        }
    }
}

/// Every entry of the answers is a reported collection whose identifier
/// parses.
pub proof fn lemma_response_infos_from_reports(
    qs: Seq<GetAllCollectionInfoToCompactResponse>,
    e: CollectionInfo,
)
    requires
        response_infos(qs).contains(e),
    ensures
        exists|k: int, m: int|
            0 <= k < qs.len() && 0 <= m < qs[k].all_collection_info@.len() && parsed_info(
                #[trigger] qs[k].all_collection_info@[m],
            ) == Some(e),
    decreases qs.len(),
{
    let init = response_infos(qs.drop_last());
    let last = parsed_infos(qs.last().all_collection_info@);
    let j = choose|j: int| 0 <= j < (init + last).len() && (init + last)[j] == e;
    if j < init.len() {
        assert(init[j] == e);
        lemma_response_infos_from_reports(qs.drop_last(), e);
        let (k, m) = choose|k: int, m: int|
            0 <= k < qs.drop_last().len() && 0 <= m < qs.drop_last()[k].all_collection_info@.len()
                && parsed_info(#[trigger] qs.drop_last()[k].all_collection_info@[m]) == Some(e);
        assert(qs[k] == qs.drop_last()[k]);
        assert(parsed_info(qs[k].all_collection_info@[m]) == Some(e));
    } else {
        assert(last[j - init.len()] == e);
        lemma_parsed_infos_contains(qs.last().all_collection_info@, e);
        let m = choose|m: int|
            0 <= m < qs.last().all_collection_info@.len() && #[trigger] parsed_info(
                qs.last().all_collection_info@[m],
            ) == Some(e);
        let k = qs.len() - 1;
        assert(parsed_info(qs[k].all_collection_info@[m]) == Some(e));
    }
}

/// Each collection of the merged entries has an entry in their compaction, at
/// an offset no larger than any entry of that collection.
pub proof fn lemma_compaction_covers(r: Seq<CollectionInfo>, s: Seq<CollectionInfo>, c: CollectionInfo)
    requires
        is_compaction_of(r, s),
        s.contains(c),
    ensures
        exists|j: int|
            0 <= j < r.len() && #[trigger] r[j].collection_id == c.collection_id
                && r[j].first_log_offset <= c.first_log_offset,
{
    let m = choose|m: int| 0 <= m < s.len() && s[m] == c;
    assert(has_collection(r, s[m].collection_id));
    let j = choose|j: int| 0 <= j < r.len() && #[trigger] r[j].collection_id == s[m].collection_id;
    assert(kept_entry(s, r[j]));
    let jj = choose|jj: int| is_kept(s, jj) && #[trigger] s[jj] == r[j];
    assert(s[jj].first_log_offset <= s[m].first_log_offset);
}

/// Every reported collection whose identifier parses is among the entries of
/// the answers.
pub proof fn lemma_response_infos_cover(
    qs: Seq<GetAllCollectionInfoToCompactResponse>,
    k: int,
    m: int,
)
    requires
        0 <= k < qs.len(),
        0 <= m < qs[k].all_collection_info@.len(),
        parsed_info(qs[k].all_collection_info@[m]) is Some,
    ensures
        response_infos(qs).contains(parsed_info(qs[k].all_collection_info@[m])->Some_0),
    decreases qs.len(),
{
    let c = parsed_info(qs[k].all_collection_info@[m])->Some_0;
    let init = response_infos(qs.drop_last());
    let last = parsed_infos(qs.last().all_collection_info@);
    if k == qs.len() - 1 {
        lemma_parsed_infos_contains(qs.last().all_collection_info@, c);
        let j = choose|j: int| 0 <= j < last.len() && last[j] == c;
        assert((init + last)[init.len() + j] == c);
    } else {
        assert(qs.drop_last()[k] == qs[k]);
        lemma_response_infos_cover(qs.drop_last(), k, m);
        let j = choose|j: int| 0 <= j < init.len() && init[j] == c;
        assert((init + last)[j] == c);
    }
}

/// When no two parseable reported collections share an identifier and an
/// offset, what `post_process_get_all` answers does not depend on which
/// server reported a collection, nor in which order: answers holding the
/// same multiset of reported collections give the same list.
pub proof fn lemma_post_process_ignores_order_and_grouping(
    rs1: Seq<GetAllCollectionInfoToCompactResponse>,
    rs2: Seq<GetAllCollectionInfoToCompactResponse>,
    v1: Seq<CollectionInfo>,
    v2: Seq<CollectionInfo>,
)
    requires
        all_entries(rs1).to_multiset() == all_entries(rs2).to_multiset(),
        no_ties(response_infos(rs1)),
        no_ties(response_infos(rs2)),
        is_compaction_of(v1, response_infos(rs1)),
        is_compaction_of(v2, response_infos(rs2)),
    ensures
        v1 == v2,
{
    broadcast use vstd::seq_lib::group_to_multiset_ensures;

    let e1 = all_entries(rs1);
    let e2 = all_entries(rs2);
    lemma_response_infos_of_entries(rs1);
    lemma_response_infos_of_entries(rs2);
    let s1 = response_infos(rs1);
    let s2 = response_infos(rs2);
    assert forall|p: ProtoCollectionInfo| e1.contains(p) <==> e2.contains(p) by {
        assert(e1.contains(p) <==> e1.to_multiset().count(p) > 0);
        assert(e2.contains(p) <==> e2.to_multiset().count(p) > 0);
    }
    assert forall|x: CollectionInfo| s1.contains(x) <==> s2.contains(x) by {
        lemma_parsed_infos_contains(e1, x);
        lemma_parsed_infos_contains(e2, x);
        if s1.contains(x) {
            let i = choose|i: int| 0 <= i < e1.len() && #[trigger] parsed_info(e1[i]) == Some(x);
            assert(e1.contains(e1[i]));
            let j = choose|j: int| 0 <= j < e2.len() && e2[j] == e1[i];
            assert(parsed_info(e2[j]) == Some(x));
        }
        if s2.contains(x) {
            let i = choose|i: int| 0 <= i < e2.len() && #[trigger] parsed_info(e2[i]) == Some(x);
            assert(e2.contains(e2[i]));
            let j = choose|j: int| 0 <= j < e1.len() && e1[j] == e2[i];
            assert(parsed_info(e1[j]) == Some(x));
        }
    }
    lemma_compaction_by_contents(s1, s2, v1);
    lemma_compaction_unique(v1, v2, s2);
}

/// Sorts `infos` by (identifier, offset) and keeps the first entry of each
/// collection.
pub fn compact_collections(infos: &Vec<CollectionInfo>) -> (r: Vec<CollectionInfo>)
    ensures
        is_compaction_of(r@, infos@),
{
    let ghost s = infos@;
    let mut r: Vec<CollectionInfo> = Vec::new();
    let ghost mut src: Seq<int> = seq![];
    let mut n: usize = 0;
    while n < infos.len()
        invariant
            s == infos@,
            n <= s.len(),
            strictly_sorted(r@),
            src.len() == r@.len(),
            forall|k: int|
                0 <= k < r@.len() ==> kept_among(s, n as int, #[trigger] src[k]) && s[src[k]]
                    == r@[k],
            forall|j: int| 0 <= j < n ==> has_collection(r@, #[trigger] s[j].collection_id),
        decreases s.len() - n,
    {
        let e = infos[n];
        let mut pos: usize = 0;
        while pos < r.len() && r[pos].collection_id.0 < e.collection_id.0
            invariant
                pos <= r@.len(),
                forall|k: int| 0 <= k < pos ==> r@[k].collection_id.0 < e.collection_id.0,
            decreases r@.len() - pos,
        {
            pos = pos + 1;
        }
        let ghost old_r = r@;
        let ghost old_src = src;
        if pos < r.len() && r[pos].collection_id.0 == e.collection_id.0 {
            proof {
                assert forall|k: int|
                    0 <= k < old_r.len() && k != pos implies #[trigger] old_r[k].collection_id
                    != e.collection_id by {
                    if k > pos {
                        assert(old_r[pos as int].collection_id.0 < old_r[k].collection_id.0);
                    }
                }
            }
            if e.first_log_offset < r[pos].first_log_offset {
                r.set(pos, e);
                proof {
                    src = src.update(pos as int, n as int);
                }
            }
            proof {
                let n1 = n as int + 1;
                assert forall|k: int|
                    0 <= k < r@.len() implies kept_among(s, n1, #[trigger] src[k]) && s[src[k]]
                    == r@[k] by {
                    if k != pos {
                        assert(kept_among(s, n as int, old_src[k]));
                        lemma_kept_extend_other(s, n as int, old_src[k]);
                    } else if src[k] == n as int {
                        let jo = old_src[k];
                        assert(kept_among(s, n as int, jo));
                        assert forall|i: int|
                            0 <= i < n1 && s[i].collection_id == s[n as int].collection_id implies {
                            &&& s[n as int].first_log_offset <= #[trigger] s[i].first_log_offset
                            &&& (i < n as int ==> s[n as int].first_log_offset
                                < s[i].first_log_offset)
                        } by {
                            if i < n as int {
                                assert(s[jo].first_log_offset <= s[i].first_log_offset);
                            }
                        }
                    } else {
                        let jo = old_src[k];
                        assert(kept_among(s, n as int, jo));
                    }
                }
                assert forall|j: int| 0 <= j < n1 implies has_collection(
                    r@,
                    #[trigger] s[j].collection_id,
                ) by {
                    if j < n as int {
                        let k0 = choose|k: int|
                            0 <= k < old_r.len() && #[trigger] old_r[k].collection_id
                                == s[j].collection_id;
                        assert(r@[k0].collection_id == old_r[k0].collection_id);
                    } else {
                        assert(r@[pos as int].collection_id == s[j].collection_id);
                    }
                }
            }
        } else {
            r.insert(pos, e);
            proof {
                src = src.insert(pos as int, n as int);
                let n1 = n as int + 1;
                // No entry seen so far belongs to the collection of `e`.
                assert forall|i: int|
                    0 <= i < n as int implies #[trigger] s[i].collection_id
                    != e.collection_id by {
                    if s[i].collection_id == e.collection_id {
                        let k0 = choose|k: int|
                            0 <= k < old_r.len() && #[trigger] old_r[k].collection_id
                                == s[i].collection_id;
                        if k0 >= pos {
                            if k0 > pos {
                                assert(old_r[pos as int].collection_id.0
                                    < old_r[k0].collection_id.0);
                            }
                        }
                    }
                }
                assert forall|a: int, b: int|
                    0 <= a < b < r@.len() implies r@[a].collection_id.0
                    < r@[b].collection_id.0 by {
                    if a < pos && b > pos {
                        assert(old_r[a].collection_id.0 < e.collection_id.0);
                    }
                    if a == pos as int && b > pos {
                        assert(r@[b] == old_r[b - 1]);
                    }
                }
                assert forall|k: int|
                    0 <= k < r@.len() implies kept_among(s, n1, #[trigger] src[k]) && s[src[k]]
                    == r@[k] by {
                    if k < pos {
                        assert(src[k] == old_src[k]);
                        assert(kept_among(s, n as int, old_src[k]));
                        lemma_kept_extend_other(s, n as int, old_src[k]);
                    } else if k > pos {
                        assert(src[k] == old_src[k - 1]);
                        assert(kept_among(s, n as int, old_src[k - 1]));
                        lemma_kept_extend_other(s, n as int, old_src[k - 1]);
                    } else {
                        assert(src[k] == n as int);
                    }
                }
                assert forall|j: int| 0 <= j < n1 implies has_collection(
                    r@,
                    #[trigger] s[j].collection_id,
                ) by {
                    if j < n as int {
                        let k0 = choose|k: int|
                            0 <= k < old_r.len() && #[trigger] old_r[k].collection_id
                                == s[j].collection_id;
                        if k0 < pos {
                            assert(r@[k0] == old_r[k0]);
                        } else {
                            assert(r@[k0 + 1] == old_r[k0]);
                        }
                    } else {
                        assert(r@[pos as int].collection_id == s[j].collection_id);
                    }
                }
            }
        }
        n = n + 1;
    }
    proof {
        lemma_compaction_from_sources(s, r@, src);
    }
    r
}

} // verus!
