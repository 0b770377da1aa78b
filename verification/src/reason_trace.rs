//! The trace of a reasoning: every memory that was considered, and why it was
//! kept or dropped.
use std::collections::HashMap;

use vstd::prelude::*;

use crate::events::EdgeKind;
use crate::recall::{count_u32, wire_count};
use crate::recall_trace::{distinct_ids, text_for, trace_text};
use crate::single::Single;

verus! {

/// A memory near the claim. `text` is `None` where it was not read yet.
#[derive(Debug)]
pub struct BaseCandidate {
    pub memory_id: u128,
    pub text: Option<String>,
    pub score: Single,
}

/// A memory that an edge leads to.
#[derive(Clone, Copy, Debug)]
pub struct EdgeCandidate {
    pub memory_id: u128,
    pub edge_kind: EdgeKind,
    pub depth: usize,
    pub from_memory_id: u128,
    pub raw_score: Single,
}

/// The walk outward in one direction.
#[derive(Debug)]
pub struct WalkTrace {
    pub considered: Vec<EdgeCandidate>,
    pub dropped_by_edge_kind: Vec<EdgeCandidate>,
    pub dropped_by_tombstone: Vec<EdgeCandidate>,
    pub dropped_by_visited: Vec<EdgeCandidate>,
}

/// The trim of one direction: the memories dropped, with their scores.
#[derive(Debug)]
pub struct TrimTrace {
    pub dropped_by_confidence: Vec<(u128, Single)>,
    pub dropped_by_trim_cap: Vec<(u128, Single)>,
}

/// How a memory's score came about.
#[derive(Clone, Copy, Debug)]
pub struct ScoreParts {
    pub memory_id: u128,
    pub base_similarity: Single,
    pub decay: Single,
    pub weight_product: Single,
    pub alignment: Single,
    pub analogical_fit: Single,
    pub final_score: Single,
}

/// Whether a centroid was computed, and if not, why.
#[derive(Debug)]
pub struct ReasonTraceCentroid {
    pub computed: bool,
    pub skipped_reason: Option<String>,
}

/// What the executor did, for and against the claim.
#[derive(Debug)]
pub struct InternalReasonTrace {
    pub base: Vec<BaseCandidate>,
    pub supports_walk: WalkTrace,
    pub contradicts_walk: WalkTrace,
    pub supports_trim: TrimTrace,
    pub contradicts_trim: TrimTrace,
    pub scoring: Vec<ScoreParts>,
    pub centroid: ReasonTraceCentroid,
}

#[derive(Debug)]
pub struct ReasonTraceCandidate {
    pub memory_id: u128,
    pub text: String,
    pub score: Single,
}

#[derive(Debug)]
pub struct ReasonTraceEdgeCandidate {
    pub memory_id: u128,
    pub text: String,
    pub edge_kind: EdgeKind,
    pub depth: u32,
    pub from_memory_id: u128,
    pub raw_score: Single,
}

#[derive(Debug)]
pub struct ReasonTraceIdWithText {
    pub memory_id: u128,
    pub text: String,
}

#[derive(Debug)]
pub struct ReasonTraceScoredId {
    pub memory_id: u128,
    pub text: String,
    pub score: Single,
}

#[derive(Debug)]
pub struct ReasonTraceScoreBreakdown {
    pub memory_id: u128,
    pub text: String,
    pub base_similarity: Single,
    pub decay: Single,
    pub weight_product: Single,
    pub alignment: Single,
    pub analogical_fit: Single,
    pub final_score: Single,
}

/// Both directions of the walk in one: the edge kind tells them apart.
#[derive(Debug)]
pub struct ReasonTraceWalk {
    pub considered: Vec<ReasonTraceEdgeCandidate>,
    pub dropped_by_edge_kind: Vec<ReasonTraceEdgeCandidate>,
    pub dropped_by_tombstone: Vec<ReasonTraceIdWithText>,
    pub dropped_by_visited: Vec<ReasonTraceIdWithText>,
    pub dropped_by_confidence: Vec<ReasonTraceScoredId>,
    pub dropped_by_max_supporting: Vec<ReasonTraceIdWithText>,
    pub dropped_by_max_contradicting: Vec<ReasonTraceIdWithText>,
}

#[derive(Debug)]
pub struct ReasonTrace {
    pub base: Vec<ReasonTraceCandidate>,
    pub walk: ReasonTraceWalk,
    pub scoring: Vec<ReasonTraceScoreBreakdown>,
    pub centroid: ReasonTraceCentroid,
}

// The memories of a trace.

/// The memories of edges.
pub open spec fn edge_ids(v: Seq<EdgeCandidate>) -> Seq<u128> {
    v.map_values(|e: EdgeCandidate| e.memory_id)
}

/// The memories of scored ids.
pub open spec fn pair_ids(v: Seq<(u128, Single)>) -> Seq<u128> {
    v.map_values(|p: (u128, Single)| p.0)
}

/// The memories of a walk.
pub open spec fn walk_ids(w: WalkTrace) -> Seq<u128> {
    edge_ids(w.considered@) + edge_ids(w.dropped_by_edge_kind@) + edge_ids(
        w.dropped_by_tombstone@,
    ) + edge_ids(w.dropped_by_visited@)
}

/// Every memory of a trace.
pub open spec fn reason_trace_ids(t: InternalReasonTrace) -> Seq<u128> {
    t.base@.map_values(|c: BaseCandidate| c.memory_id) + walk_ids(t.supports_walk) + walk_ids(
        t.contradicts_walk,
    ) + pair_ids(t.supports_trim.dropped_by_confidence@) + pair_ids(
        t.supports_trim.dropped_by_trim_cap@,
    ) + pair_ids(t.contradicts_trim.dropped_by_confidence@) + pair_ids(
        t.contradicts_trim.dropped_by_trim_cap@,
    ) + t.scoring@.map_values(|s: ScoreParts| s.memory_id)
}

fn put_edge_ids(out: &mut Vec<u128>, v: &Vec<EdgeCandidate>)
    ensures
        final(out)@ == old(out)@ + edge_ids(v@),
{
    let ghost before = out@;
    for i in 0..v.len()
        invariant
            out@ == before + edge_ids(v@).take(i as int),
    {
        out.push(v[i].memory_id);
        assert(out@ =~= before + edge_ids(v@).take(i + 1));
    }
    assert(edge_ids(v@).take(v@.len() as int) =~= edge_ids(v@));
}

fn put_pair_ids(out: &mut Vec<u128>, v: &Vec<(u128, Single)>)
    ensures
        final(out)@ == old(out)@ + pair_ids(v@),
{
    let ghost before = out@;
    for i in 0..v.len()
        invariant
            out@ == before + pair_ids(v@).take(i as int),
    {
        out.push(v[i].0);
        assert(out@ =~= before + pair_ids(v@).take(i + 1));
    }
    assert(pair_ids(v@).take(v@.len() as int) =~= pair_ids(v@));
}

/// Appends the memories of a walk.
pub fn collect_walk_ids(walk: &WalkTrace, ids: &mut Vec<u128>)
    ensures
        final(ids)@ == old(ids)@ + walk_ids(*walk),
{
    put_edge_ids(ids, &walk.considered);
    put_edge_ids(ids, &walk.dropped_by_edge_kind);
    put_edge_ids(ids, &walk.dropped_by_tombstone);
    put_edge_ids(ids, &walk.dropped_by_visited);
    assert(ids@ =~= old(ids)@ + walk_ids(*walk));
}

/// Whether the ids are those that a trace names.
pub open spec fn collects_reason_ids(
    r: Vec<u128>,
    t: InternalReasonTrace,
) -> bool {
    &&& r@.no_duplicates()
    &&& (forall|id: u128| r@.contains(id) <==> reason_trace_ids(t).contains(id))
}

/// The memories whose texts a trace needs, each once.
pub fn reason_text_ids(t: &InternalReasonTrace) -> (r: Vec<u128>)
    ensures
        collects_reason_ids(r, *t),
{
    let mut out: Vec<u128> = Vec::new();
    let ghost base = t.base@.map_values(|c: BaseCandidate| c.memory_id);
    for i in 0..t.base.len()
        invariant
            base == t.base@.map_values(|c: BaseCandidate| c.memory_id),
            out@ == base.take(i as int),
    {
        out.push(t.base[i].memory_id);
        assert(out@ =~= base.take(i + 1));
    }
    assert(base.take(base.len() as int) =~= base);
    collect_walk_ids(&t.supports_walk, &mut out);
    collect_walk_ids(&t.contradicts_walk, &mut out);
    put_pair_ids(&mut out, &t.supports_trim.dropped_by_confidence);
    put_pair_ids(&mut out, &t.supports_trim.dropped_by_trim_cap);
    put_pair_ids(&mut out, &t.contradicts_trim.dropped_by_confidence);
    put_pair_ids(&mut out, &t.contradicts_trim.dropped_by_trim_cap);
    let ghost before = out@;
    let ghost scores = t.scoring@.map_values(|s: ScoreParts| s.memory_id);
    for i in 0..t.scoring.len()
        invariant
            scores == t.scoring@.map_values(|s: ScoreParts| s.memory_id),
            out@ == before + scores.take(i as int),
    {
        out.push(t.scoring[i].memory_id);
        assert(out@ =~= before + scores.take(i + 1));
    }
    assert(scores.take(scores.len() as int) =~= scores);
    assert(out@ =~= reason_trace_ids(*t));
    distinct_ids(&out)
}

// Showing.

/// Whether a shown edge is one with its memory's text.
pub open spec fn shows_edge(
    w: ReasonTraceEdgeCandidate,
    e: EdgeCandidate,
    texts: Map<u128, String>,
) -> bool {
    &&& w.memory_id == e.memory_id
    &&& w.text@ == trace_text(texts, e.memory_id)
    &&& w.edge_kind == e.edge_kind
    &&& w.depth == wire_count(e.depth as nat)
    &&& w.from_memory_id == e.from_memory_id
    &&& w.raw_score == e.raw_score
}

pub fn edge_to_wire(e: &EdgeCandidate, texts: &HashMap<u128, String>) -> (r:
    ReasonTraceEdgeCandidate)
    ensures
        shows_edge(r, *e, texts@),
{
    ReasonTraceEdgeCandidate {
        memory_id: e.memory_id,
        text: text_for(texts, e.memory_id),
        edge_kind: e.edge_kind,
        depth: count_u32(e.depth),
        from_memory_id: e.from_memory_id,
        raw_score: e.raw_score,
    }
}

/// Whether a shown id is one with its text.
pub open spec fn shows_id(w: ReasonTraceIdWithText, id: u128, texts: Map<u128, String>) -> bool {
    w.memory_id == id && w.text@ == trace_text(texts, id)
}

pub fn id_with_text(id: u128, texts: &HashMap<u128, String>) -> (r: ReasonTraceIdWithText)
    ensures
        shows_id(r, id, texts@),
{
    ReasonTraceIdWithText { memory_id: id, text: text_for(texts, id) }
}

/// Whether a shown id is one with its text and score.
pub open spec fn shows_scored(
    w: ReasonTraceScoredId,
    p: (u128, Single),
    texts: Map<u128, String>,
) -> bool {
    w.memory_id == p.0 && w.text@ == trace_text(texts, p.0) && w.score == p.1
}

pub fn scored_id(id: u128, score: Single, texts: &HashMap<u128, String>) -> (r:
    ReasonTraceScoredId)
    ensures
        shows_scored(r, (id, score), texts@),
{
    ReasonTraceScoredId { memory_id: id, text: text_for(texts, id), score }
}

/// Whether shown edges are these, one for one.
pub open spec fn shows_edges(
    w: Seq<ReasonTraceEdgeCandidate>,
    v: Seq<EdgeCandidate>,
    texts: Map<u128, String>,
) -> bool {
    w.len() == v.len() && forall|i: int|
        0 <= i < w.len() ==> shows_edge(#[trigger] w[i], v[i], texts)
}

/// Whether shown ids are these, one for one.
pub open spec fn shows_ids(
    w: Seq<ReasonTraceIdWithText>,
    v: Seq<u128>,
    texts: Map<u128, String>,
) -> bool {
    w.len() == v.len() && forall|i: int| 0 <= i < w.len() ==> shows_id(#[trigger] w[i], v[i], texts)
}

/// Whether shown scored ids are these, one for one.
pub open spec fn shows_all_scored(
    w: Seq<ReasonTraceScoredId>,
    v: Seq<(u128, Single)>,
    texts: Map<u128, String>,
) -> bool {
    w.len() == v.len() && forall|i: int|
        0 <= i < w.len() ==> shows_scored(#[trigger] w[i], v[i], texts)
}

fn edges_to_wire(
    a: &Vec<EdgeCandidate>,
    b: &Vec<EdgeCandidate>,
    texts: &HashMap<u128, String>,
) -> (r: Vec<ReasonTraceEdgeCandidate>)
    ensures
        shows_edges(r@, a@ + b@, texts@),
{
    let mut out: Vec<ReasonTraceEdgeCandidate> = Vec::new();
    let ghost both = a@ + b@;
    for i in 0..a.len()
        invariant
            both == a@ + b@,
            shows_edges(out@, both.take(i as int), texts@),
    {
        out.push(edge_to_wire(&a[i], texts));
    }
    for i in 0..b.len()
        invariant
            both == a@ + b@,
            shows_edges(out@, both.take(a@.len() + i), texts@),
    {
        out.push(edge_to_wire(&b[i], texts));
    }
    assert(both.take(both.len() as int) =~= both);
    out
}

fn edge_ids_to_wire(
    a: &Vec<EdgeCandidate>,
    b: &Vec<EdgeCandidate>,
    texts: &HashMap<u128, String>,
) -> (r: Vec<ReasonTraceIdWithText>)
    ensures
        shows_ids(r@, edge_ids(a@) + edge_ids(b@), texts@),
{
    let mut out: Vec<ReasonTraceIdWithText> = Vec::new();
    let ghost both = edge_ids(a@) + edge_ids(b@);
    for i in 0..a.len()
        invariant
            both == edge_ids(a@) + edge_ids(b@),
            shows_ids(out@, both.take(i as int), texts@),
    {
        out.push(id_with_text(a[i].memory_id, texts));
    }
    for i in 0..b.len()
        invariant
            both == edge_ids(a@) + edge_ids(b@),
            shows_ids(out@, both.take(a@.len() + i), texts@),
    {
        out.push(id_with_text(b[i].memory_id, texts));
    }
    assert(both.take(both.len() as int) =~= both);
    out
}

fn pair_ids_to_wire(a: &Vec<(u128, Single)>, texts: &HashMap<u128, String>) -> (r: Vec<
    ReasonTraceIdWithText,
>)
    ensures
        shows_ids(r@, pair_ids(a@), texts@),
{
    let mut out: Vec<ReasonTraceIdWithText> = Vec::new();
    for i in 0..a.len()
        invariant
            shows_ids(out@, pair_ids(a@).take(i as int), texts@),
    {
        out.push(id_with_text(a[i].0, texts));
    }
    assert(pair_ids(a@).take(a@.len() as int) =~= pair_ids(a@));
    out
}

fn scored_to_wire(
    a: &Vec<(u128, Single)>,
    b: &Vec<(u128, Single)>,
    texts: &HashMap<u128, String>,
) -> (r: Vec<ReasonTraceScoredId>)
    ensures
        shows_all_scored(r@, a@ + b@, texts@),
{
    let mut out: Vec<ReasonTraceScoredId> = Vec::new();
    let ghost both = a@ + b@;
    for i in 0..a.len()
        invariant
            both == a@ + b@,
            shows_all_scored(out@, both.take(i as int), texts@),
    {
        out.push(scored_id(a[i].0, a[i].1, texts));
    }
    for i in 0..b.len()
        invariant
            both == a@ + b@,
            shows_all_scored(out@, both.take(a@.len() + i), texts@),
    {
        out.push(scored_id(b[i].0, b[i].1, texts));
    }
    assert(both.take(both.len() as int) =~= both);
    out
}

/// Whether a shown candidate is one, with its own text or the one that was
/// read.
pub open spec fn shows_candidate(
    w: ReasonTraceCandidate,
    c: BaseCandidate,
    texts: Map<u128, String>,
) -> bool {
    &&& w.memory_id == c.memory_id
    &&& w.text@ == (match c.text {
        Some(t) => t@,
        None => trace_text(texts, c.memory_id),
    })
    &&& w.score == c.score
}

/// Whether a shown score is one with its memory's text.
pub open spec fn shows_score(
    w: ReasonTraceScoreBreakdown,
    s: ScoreParts,
    texts: Map<u128, String>,
) -> bool {
    &&& w.memory_id == s.memory_id
    &&& w.text@ == trace_text(texts, s.memory_id)
    &&& w.base_similarity == s.base_similarity
    &&& w.decay == s.decay
    &&& w.weight_product == s.weight_product
    &&& w.alignment == s.alignment
    &&& w.analogical_fit == s.analogical_fit
    &&& w.final_score == s.final_score
}

/// Whether a shown walk holds both directions, supporting first.
pub open spec fn shows_walk(
    w: ReasonTraceWalk,
    t: InternalReasonTrace,
    texts: Map<u128, String>,
) -> bool {
    let a = t.supports_walk;
    let b = t.contradicts_walk;
    &&& shows_edges(w.considered@, a.considered@ + b.considered@, texts)
    &&& shows_edges(
        w.dropped_by_edge_kind@,
        a.dropped_by_edge_kind@ + b.dropped_by_edge_kind@,
        texts,
    )
    &&& shows_ids(
        w.dropped_by_tombstone@,
        edge_ids(a.dropped_by_tombstone@) + edge_ids(b.dropped_by_tombstone@),
        texts,
    )
    &&& shows_ids(
        w.dropped_by_visited@,
        edge_ids(a.dropped_by_visited@) + edge_ids(b.dropped_by_visited@),
        texts,
    )
    &&& shows_all_scored(
        w.dropped_by_confidence@,
        t.supports_trim.dropped_by_confidence@ + t.contradicts_trim.dropped_by_confidence@,
        texts,
    )
    &&& shows_ids(
        w.dropped_by_max_supporting@,
        pair_ids(t.supports_trim.dropped_by_trim_cap@),
        texts,
    )
    &&& shows_ids(
        w.dropped_by_max_contradicting@,
        pair_ids(t.contradicts_trim.dropped_by_trim_cap@),
        texts,
    )
}

/// Whether a trace shows a run.
pub open spec fn shows_reason_trace(
    r: ReasonTrace,
    trace: InternalReasonTrace,
    texts: HashMap<u128, String>,
) -> bool {
    &&& r.base@.len() == trace.base@.len()
    &&& (forall|i: int|
        0 <= i < r.base@.len() ==> shows_candidate(
            #[trigger] r.base@[i],
            trace.base@[i],
            texts@,
        ))
    &&& shows_walk(r.walk, trace, texts@)
    &&& r.scoring@.len() == trace.scoring@.len()
    &&& (forall|i: int|
        0 <= i < r.scoring@.len() ==> shows_score(
            #[trigger] r.scoring@[i],
            trace.scoring@[i],
            texts@,
        ))
    &&& r.centroid == trace.centroid
}

/// Shows what the executor did, with the texts that were read.
pub fn build_reason_trace(trace: InternalReasonTrace, texts: &HashMap<u128, String>) -> (r:
    ReasonTrace)
    ensures
        shows_reason_trace(r, trace, *texts),
{
    let mut base: Vec<ReasonTraceCandidate> = Vec::new();
    for i in 0..trace.base.len()
        invariant
            base@.len() == i,
            forall|k: int|
                0 <= k < i ==> shows_candidate(#[trigger] base@[k], trace.base@[k], texts@),
    {
        let c = &trace.base[i];
        let text = match &c.text {
            Some(t) => t.clone(),
            None => text_for(texts, c.memory_id),
        };
        base.push(ReasonTraceCandidate { memory_id: c.memory_id, text, score: c.score });
    }
    let walk = ReasonTraceWalk {
        considered: edges_to_wire(
            &trace.supports_walk.considered,
            &trace.contradicts_walk.considered,
            texts,
        ),
        dropped_by_edge_kind: edges_to_wire(
            &trace.supports_walk.dropped_by_edge_kind,
            &trace.contradicts_walk.dropped_by_edge_kind,
            texts,
        ),
        dropped_by_tombstone: edge_ids_to_wire(
            &trace.supports_walk.dropped_by_tombstone,
            &trace.contradicts_walk.dropped_by_tombstone,
            texts,
        ),
        dropped_by_visited: edge_ids_to_wire(
            &trace.supports_walk.dropped_by_visited,
            &trace.contradicts_walk.dropped_by_visited,
            texts,
        ),
        dropped_by_confidence: scored_to_wire(
            &trace.supports_trim.dropped_by_confidence,
            &trace.contradicts_trim.dropped_by_confidence,
            texts,
        ),
        dropped_by_max_supporting: pair_ids_to_wire(
            &trace.supports_trim.dropped_by_trim_cap,
            texts,
        ),
        dropped_by_max_contradicting: pair_ids_to_wire(
            &trace.contradicts_trim.dropped_by_trim_cap,
            texts,
        ),
    };
    let mut scoring: Vec<ReasonTraceScoreBreakdown> = Vec::new();
    for i in 0..trace.scoring.len()
        invariant
            scoring@.len() == i,
            forall|k: int|
                0 <= k < i ==> shows_score(#[trigger] scoring@[k], trace.scoring@[k], texts@),
    {
        let s = &trace.scoring[i];
        scoring.push(
            ReasonTraceScoreBreakdown {
                memory_id: s.memory_id,
                text: text_for(texts, s.memory_id),
                base_similarity: s.base_similarity,
                decay: s.decay,
                weight_product: s.weight_product,
                alignment: s.alignment,
                analogical_fit: s.analogical_fit,
                final_score: s.final_score,
            },
        );
    }
    ReasonTrace { base, walk, scoring, centroid: trace.centroid }
}

} // verus!
