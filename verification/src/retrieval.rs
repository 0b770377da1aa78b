//! The steps of retrieval around the fan-out: the planner's request, the order
//! of fused hits, the overlay of a transaction's own writes, and the cut at a
//! score cliff.
use vstd::prelude::*;

use std::collections::HashMap;

use crate::bytes::{copy_list, has_u128};
use crate::error::{fails, ErrorView, OpError};
use crate::events::MemoryKind;
use crate::membership::at_most;
use crate::projection::{
    answered, answered_rows, filters_pass, first_text_failure, is_projected, passes_filters,
    project_memory_results, text_error, Contribution, FusedItem, RankedItemId,
};
use crate::query::{PlanError, PlannerQueryRequest, RetrieverSelection};
use crate::ranking::{rank, ranked_by, scored_by, take_items};
use crate::recall::{
    decisions, is_decision, returns_decision, GraphEnrichment, Lane, MemoryResult, RecallRequest, RECALL_CANDIDATE_POOL,
};
use crate::scope::RowScope;
use crate::single::{Double, Single};
use crate::text::{join2, same_text};

verus! {

/// Whether only the graph lane found a hit.
pub open spec fn graph_only(c: Seq<Contribution>) -> bool {
    c.len() > 0 && forall|k: int|
        #![trigger c[k]]
        0 <= k < c.len() ==> c[k].retriever == Lane::Graph
}

/// Whether only the graph lane found a hit: then its score is scaled by its
/// relevance to the cue.
pub fn is_graph_only(c: &Vec<Contribution>) -> (r: bool)
    ensures
        r == graph_only(c@),
{
    if c.len() == 0 {
        return false;
    }
    for k in 0..c.len()
        invariant
            forall|j: int| #![trigger c@[j]] 0 <= j < k ==> c@[j].retriever == Lane::Graph,
    {
        if c[k].retriever != Lane::Graph {
            return false;
        }
    }
    true
}

/// The key of a fused score.
pub open spec fn fused_key() -> spec_fn(FusedItem) -> int {
    |x: FusedItem| x.fused_score.key()
}

/// Orders hits by fused score, highest first; equal scores keep their order.
pub fn order_by_fused_score(items: Vec<FusedItem>) -> (r: Vec<FusedItem>)
    ensures
        r@ == ranked_by(items@, fused_key()),
{
    let ghost all = items@;
    let ghost key = fused_key();
    let mut scored: Vec<(i128, FusedItem)> = Vec::new();
    for x in it: items
        invariant
            it.seq() == all,
            key == fused_key(),
            scored@ == scored_by(all.take(it.index()), key),
    {
        let ghost n = it.index();
        let k: i128 = x.fused_score.order_key();
        scored.push((k, x));
        assert(scored_by(all.take(n + 1), key) =~= scored_by(all.take(n), key).push((k, x)));
    }
    assert(all.take(all.len() as int) =~= all);
    take_items(rank(scored))
}

/// Whether a hit is a memory that only the graph lane found.
pub open spec fn structural_hit(x: FusedItem) -> bool {
    x.id is Memory && graph_only(x.contributing@)
}

/// Whether a hit is another with its scores taken from `scale`, where only the
/// graph lane found it, and else unchanged.
pub open spec fn is_conditioned<F: Fn(u128, Double) -> (Double, Single)>(
    y: FusedItem,
    x: FusedItem,
    scale: F,
) -> bool {
    &&& y.id == x.id
    &&& y.contributing == x.contributing
    &&& y.rerank_score == x.rerank_score
    &&& y.statement == x.statement
    &&& y.row == x.row
    &&& y.edges == x.edges
    &&& if structural_hit(x) {
        call_ensures(scale, (x.id->Memory_0, x.fused_score), (y.fused_score, y.shown_score))
    } else {
        y.fused_score == x.fused_score && y.shown_score == x.shown_score
    }
}

/// Whether hits are others, conditioned one for one.
pub open spec fn are_conditioned<F: Fn(u128, Double) -> (Double, Single)>(
    out: Seq<FusedItem>,
    items: Seq<FusedItem>,
    scale: F,
) -> bool {
    out.len() == items.len() && forall|k: int|
        #![trigger out[k]]
        0 <= k < out.len() ==> is_conditioned(out[k], items[k], scale)
}

/// Conditions hits on the cue: a memory that only the graph lane found has its
/// score scaled by its relevance, and all are ordered anew. `scale` gives the
/// scaled score of a memory, in double and in single precision.
pub fn condition_on_cue<F: Fn(u128, Double) -> (Double, Single)>(
    items: Vec<FusedItem>,
    scale: &F,
) -> (r: Vec<FusedItem>)
    requires
        forall|id: u128, s: Double| #[trigger] call_requires(*scale, (id, s)),
    ensures
        exists|out: Seq<FusedItem>| #[trigger]
            are_conditioned(out, items@, *scale) && r@ == ranked_by(out, fused_key()),
{
    let ghost all = items@;
    let mut out: Vec<FusedItem> = Vec::new();
    for x in it: items
        invariant
            it.seq() == all,
            all == items@,
            forall|id: u128, s: Double| #[trigger] call_requires(*scale, (id, s)),
            out@.len() == it.index(),
            forall|k: int|
                #![trigger out@[k]]
                0 <= k < it.index() ==> is_conditioned(out@[k], all[k], *scale),
    {
        let mut y = x;
        match y.id {
            RankedItemId::Memory(id) => {
                if is_graph_only(&y.contributing) {
                    let (fused, shown) = scale(id, y.fused_score);
                    y.fused_score = fused;
                    y.shown_score = shown;
                }
            },
            _ => {},
        }
        out.push(y);
    }
    assert(are_conditioned(out@, all, *scale));
    order_by_fused_score(out)
}

/// A write that a transaction has buffered, with the cosine of its vector and
/// the cue.
#[derive(Debug)]
pub struct BufferedEncode {
    pub memory_id: u128,
    pub text: String,
    pub kind: MemoryKind,
    pub space_id: [u8; 16],
    pub session_id: u64,
    pub salience_initial: Single,
    pub created_at_unix_nanos: u64,
    pub occurred_at_unix_nanos: Option<u64>,
    pub score: Single,
}

/// Whether a buffered write is answered.
pub open spec fn pending_passes(p: BufferedEncode, tombstoned: Seq<u128>, req: RecallRequest) -> bool {
    &&& !tombstoned.contains(p.memory_id)
    &&& filters_pass(req, p.kind, p.session_id, p.salience_initial, p.created_at_unix_nanos)
    &&& !p.score.below(req.confidence_threshold)
}

/// The test for buffered writes that are answered.
pub open spec fn pending_test(tombstoned: Seq<u128>, req: RecallRequest) -> spec_fn(
    BufferedEncode,
) -> bool {
    |p: BufferedEncode| pending_passes(p, tombstoned, req)
}

/// A buffered write as it is answered: no lane found it, and it is not yet
/// logged.
pub open spec fn is_pending(m: MemoryResult, p: BufferedEncode, req: RecallRequest) -> bool {
    &&& m.memory_id == p.memory_id
    &&& m.text@ == (if req.include_text {
        p.text@
    } else {
        Seq::empty()
    })
    &&& m.similarity_score == p.score
    &&& m.confidence == p.score
    &&& m.fused_score == p.score
    &&& m.salience == p.salience_initial
    &&& m.salience_initial == p.salience_initial
    &&& m.kind == p.kind
    &&& m.space_id == p.space_id
    &&& m.session_id == p.session_id
    &&& m.created_at_unix_nanos == p.created_at_unix_nanos
    &&& m.last_accessed_at_unix_nanos == p.created_at_unix_nanos
    &&& req.include_edges ==> (m.edges matches Some(e) && e@.len() == 0)
    &&& !req.include_edges ==> m.edges is None
    &&& m.graph is None
    &&& m.contributing_retrievers@.len() == 0
    &&& m.rerank_score is None
    &&& m.access_count == 0
    &&& m.lsn == 0
    &&& m.flags == 0
    &&& m.consolidated_at_unix_nanos is None
    &&& m.occurred_at_unix_nanos == p.occurred_at_unix_nanos
    &&& m.edges_out_count == 0
    &&& m.edges_in_count == 0
}

/// A buffered write as it is answered.
pub fn pending_to_memory_result(p: BufferedEncode, req: &RecallRequest) -> (r: MemoryResult)
    ensures
        is_pending(r, p, *req),
{
    let edges = if req.include_edges {
        Some(Vec::new())
    } else {
        None
    };
    MemoryResult {
        memory_id: p.memory_id,
        text: if req.include_text {
            p.text
        } else {
            String::new()
        },
        similarity_score: p.score,
        confidence: p.score,
        salience: p.salience_initial,
        kind: p.kind,
        space_id: p.space_id,
        session_id: p.session_id,
        created_at_unix_nanos: p.created_at_unix_nanos,
        last_accessed_at_unix_nanos: p.created_at_unix_nanos,
        edges,
        graph: None,
        contributing_retrievers: Vec::new(),
        fused_score: p.score,
        rerank_score: None,
        salience_initial: p.salience_initial,
        access_count: 0,
        lsn: 0,
        flags: 0,
        consolidated_at_unix_nanos: None,
        occurred_at_unix_nanos: p.occurred_at_unix_nanos,
        edges_out_count: 0,
        edges_in_count: 0,
    }
}

/// The test for committed memories that the transaction did not delete.
pub open spec fn not_in(tombstoned: Seq<u128>) -> spec_fn(MemoryResult) -> bool {
    |m: MemoryResult| !tombstoned.contains(m.memory_id)
}

/// The key of a similarity score.
pub open spec fn similarity_key() -> spec_fn(MemoryResult) -> int {
    |m: MemoryResult| m.similarity_score.key()
}

/// Whether some memories are the answered buffered writes, one for one.
pub open spec fn are_pending(
    added: Seq<MemoryResult>,
    pending: Seq<BufferedEncode>,
    tombstoned: Seq<u128>,
    req: RecallRequest,
) -> bool {
    let writes = pending.filter(pending_test(tombstoned, req));
    &&& added.len() == writes.len()
    &&& forall|k: int|
        #![trigger added[k]]
        0 <= k < added.len() ==> is_pending(added[k], writes[k], req)
}

/// Whether a list is the overlay of a transaction's buffer on committed
/// memories.
pub open spec fn is_overlay(
    r: Seq<MemoryResult>,
    committed: Seq<MemoryResult>,
    pending: Seq<BufferedEncode>,
    tombstoned: Seq<u128>,
    req: RecallRequest,
) -> bool {
    let kept = committed.filter(not_in(tombstoned));
    if pending.len() == 0 {
        r == at_most(kept, RECALL_CANDIDATE_POOL as nat)
    } else {
        exists|added: Seq<MemoryResult>| #[trigger]
            are_pending(added, pending, tombstoned, req) && r == at_most(
                ranked_by(kept + added, similarity_key()),
                RECALL_CANDIDATE_POOL as nat,
            )
    }
}

/// Overlays a transaction's own writes on the committed memories: what it
/// deleted is dropped, what it wrote and passes the filters is added, and all
/// is ordered by similarity.
pub fn overlay_txn_buffer(
    committed: Vec<MemoryResult>,
    pending: Vec<BufferedEncode>,
    tombstoned: &Vec<u128>,
    req: &RecallRequest,
) -> (r: Vec<MemoryResult>)
    ensures
        is_overlay(r@, committed@, pending@, tombstoned@, *req),
{
    let ghost all = committed@;
    let ghost writes = pending@;
    let ghost keep = not_in(tombstoned@);
    let mut merged: Vec<MemoryResult> = Vec::new();
    assert(all.take(0).filter(keep) =~= Seq::empty()) by {
        reveal(Seq::filter);
    }
    for m in it: committed
        invariant
            it.seq() == all,
            keep == not_in(tombstoned@),
            merged@ == all.take(it.index()).filter(keep),
    {
        let ghost n = it.index();
        proof {
            assert(all.take(n + 1).drop_last() =~= all.take(n));
            assert(all.take(n + 1).last() == m);
            reveal(Seq::filter);
        }
        if !has_u128(tombstoned, m.memory_id) {
            merged.push(m);
        }
    }
    assert(all.take(all.len() as int) =~= all);
    if pending.len() == 0 {
        let ghost kept = merged@;
        merged.truncate(RECALL_CANDIDATE_POOL as usize);
        assert(merged@ =~= at_most(kept, RECALL_CANDIDATE_POOL as nat));
        return merged;
    }
    let ghost kept = merged@;
    let ghost test = pending_test(tombstoned@, *req);
    let ghost mut added: Seq<MemoryResult> = Seq::empty();
    assert(writes.take(0).filter(test) =~= Seq::empty()) by {
        reveal(Seq::filter);
    }
    assert(merged@ =~= kept + added);
    for p in it: pending
        invariant
            it.seq() == writes,
            test == pending_test(tombstoned@, *req),
            merged@ == kept + added,
            added.len() == writes.take(it.index()).filter(test).len(),
            forall|k: int|
                #![trigger added[k]]
                0 <= k < added.len() ==> is_pending(
                    added[k],
                    writes.take(it.index()).filter(test)[k],
                    *req,
                ),
    {
        let ghost n = it.index();
        proof {
            assert(writes.take(n + 1).drop_last() =~= writes.take(n));
            assert(writes.take(n + 1).last() == p);
            reveal(Seq::filter);
        }
        if !has_u128(tombstoned, p.memory_id) && passes_filters(
            req,
            p.kind,
            p.session_id,
            p.salience_initial,
            p.created_at_unix_nanos,
        ) && !p.score.is_below(req.confidence_threshold) {
            let m = pending_to_memory_result(p, req);
            merged.push(m);
            proof {
                assert(kept + added.push(m) =~= (kept + added).push(m));
                added = added.push(m);
            }
        }
    }
    assert(writes.take(writes.len() as int) =~= writes);
    assert(are_pending(added, writes, tombstoned@, *req));
    let ghost union = merged@;
    let ghost key = similarity_key();
    let mut scored: Vec<(i128, MemoryResult)> = Vec::new();
    for m in it: merged
        invariant
            it.seq() == union,
            key == similarity_key(),
            scored@ == scored_by(union.take(it.index()), key),
    {
        let ghost n = it.index();
        let k: i128 = m.similarity_score.order_key() as i128;
        scored.push((k, m));
        assert(scored_by(union.take(n + 1), key) =~= scored_by(union.take(n), key).push((k, m)));
    }
    assert(union.take(union.len() as int) =~= union);
    let mut out = take_items(rank(scored));
    let ghost ordered = out@;
    out.truncate(RECALL_CANDIDATE_POOL as usize);
    assert(out@ =~= at_most(ordered, RECALL_CANDIDATE_POOL as nat));
    out
}

/// Hits that a cut always keeps.
pub const AUTOCUT_MIN_KEEP: usize = 1;

/// Whether the scores before and at `i` are positive and ordered.
pub open spec fn falls_before(results: Seq<MemoryResult>, i: int) -> bool {
    let zero = Single { bits: 0 };
    let prev = results[i - 1].fused_score;
    let cur = results[i].fused_score;
    !prev.at_most(zero) && !cur.at_most(zero) && !prev.below(cur)
}

/// Whether a score cliff lies before the hit at `i`: both scores are positive
/// and ordered, and the drop is sharp.
pub open spec fn cliff_before(
    results: Seq<MemoryResult>,
    i: int,
    sharp: spec_fn(Single, Single) -> bool,
) -> bool {
    falls_before(results, i) && sharp(results[i - 1].fused_score, results[i].fused_score)
}

/// Whether a closure was asked about the drop before every hit up to the first
/// cliff, where both scores are positive and ordered.
pub open spec fn drops_were_asked<F: Fn(Single, Single) -> bool>(
    sharp: F,
    results: Seq<MemoryResult>,
) -> bool {
    forall|i: int|
        AUTOCUT_MIN_KEEP <= i < results.len() && #[trigger] falls_before(results, i) && (forall|j: int|
            AUTOCUT_MIN_KEEP <= j < i ==> !(#[trigger] cliff_before(results, j, decisions(sharp))))
            ==> returns_decision(sharp, results[i - 1].fused_score, results[i].fused_score)
}

/// The hits up to the first cliff.
pub open spec fn before_cliff(
    results: Seq<MemoryResult>,
    sharp: spec_fn(Single, Single) -> bool,
    from: nat,
) -> Seq<MemoryResult>
    decreases results.len() - from,
{
    if from >= results.len() {
        results
    } else if cliff_before(results, from as int, sharp) {
        results.take(from as int)
    } else {
        before_cliff(results, sharp, from + 1)
    }
}

/// Cuts ranked hits at the first sharp drop of the fused score. `sharp` says
/// whether a score is at most the cliff ratio of the one before it.
pub fn apply_autocut<F: Fn(Single, Single) -> bool>(results: Vec<MemoryResult>, sharp: &F) -> (r:
    Vec<MemoryResult>)
    requires
        is_decision(*sharp),
    ensures
        r@ == before_cliff(results@, decisions(*sharp), AUTOCUT_MIN_KEEP as nat),
        drops_were_asked(*sharp, results@),
{
    let ghost cuts = decisions(*sharp);
    let zero = Single { bits: 0 };
    let mut out = results;
    let ghost all = out@;
    let mut i: usize = AUTOCUT_MIN_KEEP;
    while i < out.len()
        invariant
            is_decision(*sharp),
            cuts == decisions(*sharp),
            forall|j: int|
                1 <= j < i && #[trigger] falls_before(all, j) ==> returns_decision(
                    *sharp,
                    all[j - 1].fused_score,
                    all[j].fused_score,
                ),
            all == out@,
            all == results@,
            zero == (Single { bits: 0 }),
            1 <= i <= all.len() || i == 1,
            before_cliff(all, cuts, 1) == before_cliff(all, cuts, i as nat),
        decreases out@.len() - i,
    {
        let prev = out[i - 1].fused_score;
        let cur = out[i].fused_score;
        if !prev.is_at_most(zero) && !cur.is_at_most(zero) && !prev.is_below(cur) {
            let cut = sharp(prev, cur);
            assert(returns_decision(*sharp, prev, cur));
            if cut {
                out.truncate(i);
                assert(cliff_before(all, i as int, cuts));
                assert(out@ =~= all.take(i as int));
                return out;
            }
        }
        assert(falls_before(all, i as int) ==> returns_decision(
            *sharp,
            all[i - 1].fused_score,
            all[i as int].fused_score,
        ));
        i = i + 1;
    }
    out
}

/// A cut keeps a head of the list, and never the empty one.
pub proof fn autocut_keeps_a_head(
    results: Seq<MemoryResult>,
    sharp: spec_fn(Single, Single) -> bool,
    from: nat,
)
    requires
        0 < from,
    ensures
        before_cliff(results, sharp, from).len() <= results.len(),
        results.len() > 0 ==> before_cliff(results, sharp, from).len() > 0,
        before_cliff(results, sharp, from) == results.take(
            before_cliff(results, sharp, from).len() as int,
        ),
    decreases results.len() - from,
{
    if from < results.len() && !cliff_before(results, from as int, sharp) {
        autocut_keeps_a_head(results, sharp, from + 1);
    }
    assert(results.take(results.len() as int) =~= results);
}

/// Whether a setting switches the cut on.
pub open spec fn is_on(s: Seq<char>) -> bool {
    s == "1"@ || s == "true"@ || s == "TRUE"@ || s == "on"@ || s == "ON"@
}

/// Whether a setting switches the cut on.
pub open spec fn switches_autocut(
    r: bool,
    setting: Option<&str>,
) -> bool {
    r == (setting matches Some(s) && is_on(s@))
}

/// Whether a setting switches the cut on; without one it is off.
pub fn autocut_enabled(setting: Option<&str>) -> (r: bool)
    ensures
        switches_autocut(r, setting),
{
    match setting {
        Some(s) => same_text(s, "1") || same_text(s, "true") || same_text(s, "TRUE") || same_text(
            s,
            "on",
        ) || same_text(s, "ON"),
        None => false,
    }
}

/// What a transaction has buffered: its writes and the memories it deleted.
#[derive(Debug)]
pub struct TxnBuffer {
    pub pending: Vec<BufferedEncode>,
    pub tombstoned: Vec<u128>,
}

/// Whether memories are those that fused hits answer with.
pub open spec fn are_projected(
    out: Seq<MemoryResult>,
    items: Seq<FusedItem>,
    req: RecallRequest,
    graphs: Map<u128, GraphEnrichment>,
    caller: RowScope,
) -> bool {
    let picks = answered(items, req, caller, items.len());
    out.len() == picks.len() && forall|k: int|
        #![trigger out[k]]
        0 <= k < out.len() ==> is_projected(out[k], items[picks[k] as int], req, graphs)
}

/// Whether a list is another with the transaction's buffer over it, where there
/// is one.
pub open spec fn is_overlaid(
    out: Seq<MemoryResult>,
    committed: Seq<MemoryResult>,
    buffer: Option<TxnBuffer>,
    req: RecallRequest,
) -> bool {
    match buffer {
        Some(b) => is_overlay(out, committed, b.pending@, b.tombstoned@, req),
        None => out == committed,
    }
}

/// What a recall retrieves: its hits projected, laid over by the transaction,
/// and cut before the first sharp drop where the cut is on.
pub open spec fn retrieves<F: Fn(Single, Single) -> bool>(
    r: Result<Vec<MemoryResult>, OpError>,
    items: Seq<FusedItem>,
    graphs: Map<u128, GraphEnrichment>,
    req: RecallRequest,
    caller: RowScope,
    buffer: Option<TxnBuffer>,
    autocut: bool,
    sharp: F,
) -> bool {
    let picks = answered(items, req, caller, items.len());
    let rows = answered_rows(items, picks);
    match first_text_failure(rows, req, rows.len()) {
        Some(i) => fails(r, text_error(rows[i]->0)),
        None => r matches Ok(out) && exists|
            projected: Seq<MemoryResult>,
            overlaid: Seq<MemoryResult>,
        |
            #![trigger are_projected(projected, items, req, graphs, caller), is_overlaid(overlaid, projected, buffer, req)]
            are_projected(projected, items, req, graphs, caller) && is_overlaid(
                overlaid,
                projected,
                buffer,
                req,
            ) && (if autocut {
                out@ == before_cliff(overlaid, decisions(sharp), AUTOCUT_MIN_KEEP as nat)
                    && drops_were_asked(sharp, overlaid)
            } else {
                out@ == overlaid
            }),
    }
}

/// The memories that fused hits answer with: projected, with the transaction's
/// own writes over them, and cut at the score cliff where that is on.
pub fn retrieved_memories<F: Fn(Single, Single) -> bool>(
    items: Vec<FusedItem>,
    graphs: HashMap<u128, GraphEnrichment>,
    req: &RecallRequest,
    caller: &RowScope,
    buffer: Option<TxnBuffer>,
    autocut: bool,
    sharp: &F,
) -> (r: Result<Vec<MemoryResult>, OpError>)
    requires
        is_decision(*sharp),
    ensures
        retrieves(r, items@, graphs@, *req, *caller, buffer, autocut, *sharp),
{
    let ghost all = items@;
    let ghost given = graphs@;
    let ghost buffered = buffer;
    let memories = match project_memory_results(items, graphs, req, caller) {
        Ok(m) => m,
        Err(e) => {
            return Err(e);
        },
    };
    let ghost projected = memories@;
    assert(are_projected(projected, all, *req, given, *caller));
    let memories = match buffer {
        Some(b) => overlay_txn_buffer(memories, b.pending, &b.tombstoned, req),
        None => memories,
    };
    assert(is_overlaid(memories@, projected, buffered, *req));
    if autocut {
        Ok(apply_autocut(memories, sharp))
    } else {
        Ok(memories)
    }
}

/// Whether a planner request is that of a recall.
pub open spec fn plans_recall(
    r: PlannerQueryRequest,
    req: RecallRequest,
    caller_space: [u8; 16],
    entity_anchor: Option<[u8; 16]>,
) -> bool {
    &&& r.text == Some(req.cue_text)
    &&& r.entity_anchor == entity_anchor
    &&& r.kind_filter@.len() == 0
    &&& r.predicate_filter@.len() == 0
    &&& r.time_filter is None
    &&& r.session_filter@ == (match req.session_filter {
        Some(v) => v@,
        None => Seq::empty(),
    })
    &&& r.space_filter@ == seq![caller_space]
    &&& r.confidence_min == (if (Single { bits: 0 }).below(req.confidence_threshold) {
        Some(req.confidence_threshold)
    } else {
        None
    })
    &&& !r.include_tombstoned
    &&& !r.include_superseded
    &&& r.as_of_record_time_unix_nanos == req.as_of_record_time_unix_nanos
    &&& r.limit == RECALL_CANDIDATE_POOL
    &&& r.retrievers is Auto
    &&& r.fusion_config is None
}

/// The planner's request for a recall: the whole pool, of the caller's space
/// alone.
pub fn build_planner_request(
    req: &RecallRequest,
    caller_space: [u8; 16],
    entity_anchor: Option<[u8; 16]>,
) -> (r: PlannerQueryRequest)
    ensures
        plans_recall(r, *req, caller_space, entity_anchor),
{
    let mut space_filter: Vec<[u8; 16]> = Vec::new();
    space_filter.push(caller_space);
    assert(space_filter@ =~= seq![caller_space]);
    let confidence_min = if (Single { bits: 0 }).is_below(req.confidence_threshold) {
        Some(req.confidence_threshold)
    } else {
        None
    };
    PlannerQueryRequest {
        text: Some(req.cue_text.clone()),
        entity_anchor,
        kind_filter: Vec::new(),
        predicate_filter: Vec::new(),
        time_filter: None,
        session_filter: match &req.session_filter {
            Some(v) => copy_list(v),
            None => Vec::new(),
        },
        space_filter,
        confidence_min,
        include_tombstoned: false,
        include_superseded: false,
        as_of_record_time_unix_nanos: req.as_of_record_time_unix_nanos,
        limit: RECALL_CANDIDATE_POOL,
        retrievers: RetrieverSelection::Auto,
        fusion_config: None,
    }
}

/// What running a retrieval plan reports.
#[derive(Debug)]
pub enum ExecutionError {
    Filter(String),
    Recency(String),
}

/// The error that a recall without signal becomes.
pub open spec fn maps_recall_plan_error(
    r: OpError,
    e: PlanError,
) -> bool {
    r@ == ErrorView::InvalidRequest("recall: cue produced no retrievable signal"@)
}

/// A recall whose cue has no signal.
pub fn map_recall_plan_error(e: PlanError) -> (r: OpError)
    ensures
        maps_recall_plan_error(r, e),
{
    match e {
        PlanError::NoSignal => OpError::InvalidRequest(
            "recall: cue produced no retrievable signal".to_owned(),
        ),
    }
}

/// The error that a failed execution of a recall becomes.
pub open spec fn maps_execution_error(
    r: OpError,
    e: ExecutionError,
) -> bool {
    r@ == ErrorView::Internal(
        match e {
            ExecutionError::Filter(m) => "retrieval filter: "@ + m@,
            ExecutionError::Recency(m) => "recency ranking: "@ + m@,
        },
    )
}

/// A recall whose retrieval failed.
pub fn map_execution_error(e: ExecutionError) -> (r: OpError)
    ensures
        maps_execution_error(r, e),
{
    match e {
        ExecutionError::Filter(m) => OpError::Internal(join2("retrieval filter: ", &m)),
        ExecutionError::Recency(m) => OpError::Internal(join2("recency ranking: ", &m)),
    }
}

} // verus!
