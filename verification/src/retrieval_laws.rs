//! What a recall retrieves, within a transaction and without.
use vstd::prelude::*;

use crate::answer_laws::{transactions_hide_their_deletions, transactions_read_their_writes};
use crate::error::OpError;
use crate::membership::at_most;
use crate::projection::FusedItem;
use crate::ranking::{filter_keeps_what_passes, ranked_by, ranked_by_keeps_items};
use crate::recall::{GraphEnrichment, MemoryResult, RecallRequest};
use crate::retrieval::{
    are_conditioned, before_cliff, cliff_before, fused_key, is_conditioned, is_overlaid, is_overlay,
    is_pending, pending_passes, retrieves, BufferedEncode,
};
use crate::scope::RowScope;
use crate::single::{Double, Single};

verus! {

// Cuts.

proof fn cliffs_are_found(
    results: Seq<MemoryResult>,
    sharp: spec_fn(Single, Single) -> bool,
    from: nat,
    i: int,
)
    requires
        1 <= from,
    ensures
        from <= i < before_cliff(results, sharp, from).len() ==> !cliff_before(results, i, sharp),
        before_cliff(results, sharp, from).len() < results.len() ==> cliff_before(
            results,
            before_cliff(results, sharp, from).len() as int,
            sharp,
        ),
    decreases results.len() - from,
{
    if from < results.len() {
        if !cliff_before(results, from as int, sharp) {
            cliffs_are_found(results, sharp, from + 1, i);
        }
    }
}

/// Whether the score drops sharply before an index: both scores are above
/// nothing, the later is not the higher, and the drop is judged sharp.
pub open spec fn drops_sharply(
    results: Seq<MemoryResult>,
    i: int,
    sharp: spec_fn(Single, Single) -> bool,
) -> bool {
    let (a, b) = (results[i - 1].fused_score, results[i].fused_score);
    &&& a.nan() || a.key() > 0
    &&& b.nan() || b.key() > 0
    &&& a.nan() || b.nan() || a.key() >= b.key()
    &&& sharp(a, b)
}

/// The cut keeps everything before the first sharp drop, at least one result,
/// and drops nothing where there is no such drop.
pub proof fn cuts_stand_at_the_first_sharp_drop(
    results: Seq<MemoryResult>,
    sharp: spec_fn(Single, Single) -> bool,
    i: int,
)
    ensures
        ({
            let kept = before_cliff(results, sharp, 1);
            &&& kept == results.take(kept.len() as int) && kept.len() <= results.len()
            &&& results.len() > 0 ==> kept.len() > 0
            &&& 1 <= i < kept.len() ==> !drops_sharply(results, i, sharp)
            &&& kept.len() < results.len() ==> drops_sharply(results, kept.len() as int, sharp)
        }),
{
    crate::retrieval::autocut_keeps_a_head(results, sharp, 1);
    cliffs_are_found(results, sharp, 1, i);
}

// Transactions.

/// Whether a buffered write shows in a recall of its transaction: it was not
/// deleted there, it is of a listed session and kind, it is salient and recent
/// enough, and similar enough.
pub open spec fn shows_buffered(p: BufferedEncode, tombstoned: Seq<u128>, req: RecallRequest) -> bool {
    &&& !tombstoned.contains(p.memory_id)
    &&& req.session_filter matches Some(l) ==> l@.contains(p.session_id)
    &&& req.kind_filter matches Some(l) ==> l@.contains(p.kind)
    &&& !(!p.salience_initial.nan() && !req.salience_floor.nan() && p.salience_initial.key()
        < req.salience_floor.key())
    &&& req.age_bound_unix_nanos matches Some(t) ==> p.created_at_unix_nanos >= t
    &&& !(!p.score.nan() && !req.confidence_threshold.nan() && p.score.key()
        < req.confidence_threshold.key())
}

/// Whether a result tells a buffered write: its own text, score, kind, session
/// and times, with nothing that only a stored memory has.
pub open spec fn tells_buffered(m: MemoryResult, p: BufferedEncode, req: RecallRequest) -> bool {
    &&& (m.memory_id, m.kind, m.space_id, m.session_id) == (
        p.memory_id,
        p.kind,
        p.space_id,
        p.session_id,
    )
    &&& req.include_text ==> m.text@ == p.text@
    &&& !req.include_text ==> m.text@.len() == 0
    &&& (m.similarity_score, m.confidence, m.fused_score) == (p.score, p.score, p.score)
    &&& (m.salience, m.salience_initial) == (p.salience_initial, p.salience_initial)
    &&& (m.created_at_unix_nanos, m.last_accessed_at_unix_nanos, m.occurred_at_unix_nanos) == (
        p.created_at_unix_nanos,
        p.created_at_unix_nanos,
        p.occurred_at_unix_nanos,
    )
    &&& m.graph is None && m.rerank_score is None && m.consolidated_at_unix_nanos is None
    &&& m.contributing_retrievers@.len() == 0
    &&& (m.access_count, m.flags, m.edges_out_count, m.edges_in_count) == (0u32, 0u32, 0u32, 0u32)
    &&& m.lsn == 0
    &&& m.edges is Some <==> req.include_edges
    &&& m.edges matches Some(e) ==> e@.len() == 0
}

/// A recall in a transaction answers with what the transaction wrote and
/// without what it deleted; what was committed before stays, as far as a
/// thousand candidates reach.
pub proof fn transactions_see_themselves(
    r: Seq<MemoryResult>,
    committed: Seq<MemoryResult>,
    pending: Seq<BufferedEncode>,
    tombstoned: Seq<u128>,
    req: RecallRequest,
    i: int,
    k: int,
    m: MemoryResult,
)
    requires
        is_overlay(r, committed, pending, tombstoned, req),
    ensures
        r.len() <= 1000,
        0 <= i < pending.len() && shows_buffered(pending[i], tombstoned, req) && committed.len()
            + pending.len() <= 1000 ==> exists|j: int|
            #![trigger r[j]]
            0 <= j < r.len() && tells_buffered(r[j], pending[i], req),
        0 <= k < r.len() ==> !tombstoned.contains(r[k].memory_id),
        pending.len() == 0 && committed.len() <= 1000 && committed.contains(m)
            && !tombstoned.contains(m.memory_id) ==> r.contains(m),
        pending.len() > 0 && committed.len() + pending.len() <= 1000 && committed.contains(m)
            && !tombstoned.contains(m.memory_id) ==> r.contains(m),
{
    broadcast use vstd::seq_lib::group_to_multiset_ensures;

    if 0 <= i < pending.len() && shows_buffered(pending[i], tombstoned, req) && committed.len()
        + pending.len() <= 1000 {
        assert(pending_passes(pending[i], tombstoned, req));
        transactions_read_their_writes(r, committed, pending, tombstoned, req, i);
        let j = choose|j: int| 0 <= j < r.len() && is_pending(#[trigger] r[j], pending[i], req);
        assert(tells_buffered(r[j], pending[i], req));
    }
    if 0 <= k < r.len() {
        transactions_hide_their_deletions(r, committed, pending, tombstoned, req, k);
    }
    let test = crate::retrieval::not_in(tombstoned);
    let kept = committed.filter(test);
    filter_keeps_what_passes(committed, test, m);
    committed.lemma_filter_len(test);
    if pending.len() == 0 {
        if committed.len() <= 1000 {
            assert(r == kept);
        }
    } else {
        let writes = pending.filter(crate::retrieval::pending_test(tombstoned, req));
        pending.lemma_filter_len(crate::retrieval::pending_test(tombstoned, req));
        let added = choose|added: Seq<MemoryResult>| #[trigger]
            crate::retrieval::are_pending(added, pending, tombstoned, req) && r == at_most(
                ranked_by(kept + added, crate::retrieval::similarity_key()),
                crate::recall::RECALL_CANDIDATE_POOL as nat,
            );
        let whole = kept + added;
        ranked_by_keeps_items(whole, crate::retrieval::similarity_key());
        if kept.contains(m) {
            let x = choose|x: int| 0 <= x < kept.len() && kept[x] == m;
            assert(whole[x] == m);
            assert(whole.contains(m));
            let ordered = ranked_by(whole, crate::retrieval::similarity_key());
            assert(whole.to_multiset().count(m) > 0);
            assert(ordered.to_multiset().count(m) > 0);
            assert(ordered.contains(m));
            if committed.len() + pending.len() <= 1000 {
                assert(ordered.len() <= 1000);
                assert(r == ordered);
            }
        }
    }
}

/// A buffered write shows exactly if the filters of the recall let it.
pub proof fn filters_hold_for_buffered_writes(
    p: BufferedEncode,
    tombstoned: Seq<u128>,
    req: RecallRequest,
    m: MemoryResult,
)
    ensures
        pending_passes(p, tombstoned, req) <==> shows_buffered(p, tombstoned, req),
        is_pending(m, p, req) ==> tells_buffered(m, p, req),
{
}

/// Without a transaction and without the cut, a recall retrieves its projected
/// hits, all of them and nothing else.
pub proof fn plain_recalls_retrieve_their_hits<F: Fn(Single, Single) -> bool>(
    r: Result<Vec<MemoryResult>, OpError>,
    items: Seq<FusedItem>,
    graphs: Map<u128, GraphEnrichment>,
    req: RecallRequest,
    caller: RowScope,
    sharp: F,
)
    requires
        retrieves(r, items, graphs, req, caller, None, false, sharp),
    ensures
        r matches Ok(out) ==> crate::retrieval::are_projected(out@, items, req, graphs, caller),
{
    if let Ok(out) = r {
        let (projected, overlaid) = choose|
            projected: Seq<MemoryResult>,
            overlaid: Seq<MemoryResult>,
        |
            #![trigger crate::retrieval::are_projected(projected, items, req, graphs, caller), is_overlaid(overlaid, projected, None, req)]
            crate::retrieval::are_projected(projected, items, req, graphs, caller) && is_overlaid(
                overlaid,
                projected,
                None,
                req,
            ) && out@ == overlaid;
        assert(out@ == projected);
    }
}

/// The cut only ever shortens a retrieval, and leaves its head in place.
pub proof fn cut_recalls_retrieve_a_head<F: Fn(Single, Single) -> bool>(
    r: Result<Vec<MemoryResult>, OpError>,
    items: Seq<FusedItem>,
    graphs: Map<u128, GraphEnrichment>,
    req: RecallRequest,
    caller: RowScope,
    sharp: F,
)
    requires
        retrieves(r, items, graphs, req, caller, None, true, sharp),
    ensures
        r matches Ok(out) ==> exists|whole: Seq<MemoryResult>| #[trigger]
            crate::retrieval::are_projected(whole, items, req, graphs, caller) && out@.len()
                <= whole.len() && out@ == whole.take(out@.len() as int) && (whole.len() > 0
                ==> out@.len() > 0),
{
    if let Ok(out) = r {
        let (projected, overlaid) = choose|
            projected: Seq<MemoryResult>,
            overlaid: Seq<MemoryResult>,
        |
            #![trigger crate::retrieval::are_projected(projected, items, req, graphs, caller), is_overlaid(overlaid, projected, None, req)]
            crate::retrieval::are_projected(projected, items, req, graphs, caller) && is_overlaid(
                overlaid,
                projected,
                None,
                req,
            ) && out@ == before_cliff(
                overlaid,
                crate::recall::decisions(sharp),
                crate::retrieval::AUTOCUT_MIN_KEEP as nat,
            );
        crate::retrieval::autocut_keeps_a_head(overlaid, crate::recall::decisions(sharp), 1);
        assert(crate::retrieval::are_projected(projected, items, req, graphs, caller));
    }
}

// Conditioning.

/// Only memories that nothing but the graph found are conditioned on the cue;
/// the others keep their score, and all keep what they are.
pub proof fn only_structural_hits_are_conditioned<F: Fn(u128, Double) -> (Double, Single)>(
    out: Seq<FusedItem>,
    items: Seq<FusedItem>,
    scale: F,
    k: int,
)
    requires
        are_conditioned(out, items, scale),
        0 <= k < items.len(),
    ensures
        out.len() == items.len(),
        out[k].id == items[k].id && out[k].contributing@ == items[k].contributing@ && out[k].row
            == items[k].row && out[k].edges == items[k].edges && out[k].statement
            == items[k].statement && out[k].rerank_score == items[k].rerank_score,
        items[k].id !is Memory || items[k].contributing@.len() == 0 || (exists|j: int|
            #![trigger items[k].contributing@[j]]
            0 <= j < items[k].contributing@.len() && items[k].contributing@[j].retriever !is Graph)
            ==> out[k].fused_score == items[k].fused_score && out[k].shown_score
            == items[k].shown_score,
        items[k].id is Memory && items[k].contributing@.len() > 0 && (forall|j: int|
            #![trigger items[k].contributing@[j]]
            0 <= j < items[k].contributing@.len() ==> items[k].contributing@[j].retriever is Graph)
            ==> call_ensures(
            scale,
            (items[k].id->Memory_0, items[k].fused_score),
            (out[k].fused_score, out[k].shown_score),
        ),
{
    assert(is_conditioned(out[k], items[k], scale));
}

/// Fused hits are ordered by their score, highest first.
pub proof fn fused_hits_fall(items: Seq<FusedItem>, i: int, j: int)
    requires
        0 <= i <= j < items.len(),
    ensures
        ranked_by(items, fused_key()).len() == items.len(),
        ranked_by(items, fused_key()).to_multiset() == items.to_multiset(),
        ranked_by(items, fused_key())[i].fused_score.key() >= ranked_by(
            items,
            fused_key(),
        )[j].fused_score.key(),
{
    let key = fused_key();
    ranked_by_keeps_items(items, key);
    assert forall|x: FusedItem| i128::MIN <= #[trigger] key(x) <= i128::MAX by {}
    crate::choice_laws::ranked_lists_fall(items, key, i, j);
}

} // verus!
