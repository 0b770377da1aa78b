//! What plans and inferences show of the memories that they went through.
use vstd::prelude::*;

use std::collections::HashMap;

use crate::events::EdgeKind;
use crate::plan::{
    collects_plan_ids, frames_plan, is_path_frame, is_step, plan_trace_ids, shows_meeting,
    shows_node, shows_path, shows_plan_trace, Path, PlanExecutionMetadata, PlanResponseFrame,
    PlanStatus, PlanStep, PlanTrace, Transition,
};
use crate::reason::{
    frames_reasoning, frames_step, shows_step, InferenceStep, ObservationInput, ReasonResponseFrame,
    ReasonStatus,
};
use crate::reason_trace::{
    collects_reason_ids, edge_ids, pair_ids, reason_trace_ids, shows_candidate, shows_edge,
    shows_id, shows_reason_trace, shows_score, shows_scored, walk_ids, InternalReasonTrace,
    ReasonTrace, WalkTrace,
};

verus! {

// Plans.

/// Whether a step tells how it was reached: the first is where the path starts,
/// and every other came over the edge before it.
pub open spec fn tells_transition(t: Transition, edge: Option<EdgeKind>) -> bool {
    match edge {
        None => t is Initial,
        Some(k) => {
            &&& k is Caused <==> t is Causal
            &&& k is FollowedBy <==> t is Temporal
            &&& k is SimilarTo <==> t is Similarity
            &&& k is DerivedFrom ==> t == Transition::Other("DerivedFrom"@)
            &&& k is Contradicts ==> t == Transition::Other("Contradicts"@)
            &&& k is Supports ==> t == Transition::Other("Supports"@)
            &&& k is References ==> t == Transition::Other("References"@)
            &&& k is PartOf ==> t == Transition::Other("PartOf"@)
            &&& t !is Initial
        },
    }
}

/// Whether a step is the one at an index of a path.
pub open spec fn tells_step(s: PlanStep, path: Path, i: int) -> bool {
    &&& s.memory_id == path.nodes@[i]
    &&& i <= u32::MAX ==> s.step_index == i
    &&& i < path.node_text@.len() ==> s.text@ == path.node_text@[i]@
    &&& i >= path.node_text@.len() ==> s.text@.len() == 0
    &&& tells_transition(
        s.transition_kind@,
        if i == 0 {
            None
        } else {
            Some(path.edges@[i - 1])
        },
    )
    &&& s.confidence == path.score
    &&& s.steps_to_goal + i + 1 == path.nodes@.len()
}

/// The steps of a plan are the nodes of its path, in order, each reached over
/// the edge before it.
pub proof fn steps_follow_their_path(r: Vec<PlanStep>, path: Path, i: int)
    requires
        shows_path(r, path),
        0 <= i < path.nodes@.len(),
    ensures
        r@.len() == path.nodes@.len(),
        tells_step(r@[i], path, i),
{
    assert(is_step(r@[i], path, i));
}

/// A plan is answered with one frame for each path, in order, and one final
/// frame with the status and the trace. A plan that ran out of time ran out of
/// budget.
pub proof fn plans_show_their_paths(
    r: Vec<PlanResponseFrame>,
    paths: Vec<Path>,
    status: PlanStatus,
    trace: Option<PlanTrace>,
    p: int,
    i: int,
)
    requires
        frames_plan(r, paths, status, trace),
    ensures
        r@.len() == paths@.len() + 1,
        0 <= p < paths@.len() ==> {
            &&& r@[p].is_final == false && r@[p].plan_status is None && r@[p].trace is None
            &&& r@[p].steps@.len() == paths@[p].nodes@.len()
            &&& 0 <= i < paths@[p].nodes@.len() ==> tells_step(r@[p].steps@[i], paths@[p], i)
        },
        r@.last().is_final && r@.last().steps@.len() == 0 && r@.last().trace == trace,
        r@.last().plan_status matches Some(s) && (s is GoalReached <==> status is GoalReached) && (
        s is NoPathFound <==> status is NoPathFound) && (s is BudgetExhausted <==> status
            is BudgetExhausted || status is Timeout),
{
    if 0 <= p < paths@.len() {
        assert(is_path_frame(r@[p], paths@[p]));
        if 0 <= i < paths@[p].nodes@.len() {
            assert(is_step(r@[p].steps@[i], paths@[p], i));
        }
    }
}

/// Whether a shown text is the one that was read for a memory, if any was.
pub open spec fn tells_text_of(text: Seq<char>, texts: Map<u128, String>, id: u128) -> bool {
    &&& texts.dom().contains(id) ==> text == texts[id]@
    &&& !texts.dom().contains(id) ==> text.len() == 0
}

/// The trace of a plan shows every explored node and every meeting point, in
/// order, each with the text that was read for it.
pub proof fn plan_traces_show_what_was_explored(
    r: PlanTrace,
    meta: PlanExecutionMetadata,
    texts: HashMap<u128, String>,
    i: int,
)
    requires
        shows_plan_trace(r, meta, texts),
    ensures
        r.explored@.len() == meta.explored@.len(),
        r.meeting_points@.len() == meta.meeting_points@.len(),
        0 <= i < meta.explored@.len() ==> {
            let (w, n) = (r.explored@[i], meta.explored@[i]);
            &&& (w.memory_id, w.direction, w.parent_edge, w.alignment_score) == (
                n.memory_id,
                n.direction,
                n.parent_id,
                n.alignment_score,
            )
            &&& n.depth <= u32::MAX ==> w.depth == n.depth
            &&& tells_text_of(w.text@, texts@, n.memory_id)
        },
        0 <= i < meta.meeting_points@.len() ==> {
            let (w, m) = (r.meeting_points@[i], meta.meeting_points@[i]);
            &&& (w.memory_id, w.included_in_result) == (m.memory_id, m.included_in_result)
            &&& tells_text_of(w.text@, texts@, m.memory_id)
        },
{
    if 0 <= i < meta.explored@.len() {
        assert(shows_node(r.explored@[i], meta.explored@[i], texts@));
    }
    if 0 <= i < meta.meeting_points@.len() {
        assert(shows_meeting(r.meeting_points@[i], meta.meeting_points@[i], texts@));
    }
}

/// The texts of every memory in the trace of a plan are read, each once.
pub proof fn plan_texts_are_read(r: Vec<u128>, meta: PlanExecutionMetadata, i: int)
    requires
        collects_plan_ids(r, meta),
    ensures
        r@.no_duplicates(),
        0 <= i < meta.explored@.len() ==> r@.contains(meta.explored@[i].memory_id),
        0 <= i < meta.meeting_points@.len() ==> r@.contains(meta.meeting_points@[i].memory_id),
{
    let ids = plan_trace_ids(meta);
    if 0 <= i < meta.explored@.len() {
        assert(ids[i] == meta.explored@[i].memory_id);
        assert(ids.contains(meta.explored@[i].memory_id));
    }
    if 0 <= i < meta.meeting_points@.len() {
        assert(ids[meta.explored@.len() + i] == meta.meeting_points@[i].memory_id);
        assert(ids.contains(meta.meeting_points@[i].memory_id));
    }
}

// Inferences.

/// Reasoning is answered with one frame for each inference, in order, over the
/// observed claim, and one final frame with the status and the trace.
pub proof fn inferences_show_their_evidence(
    r: Vec<ReasonResponseFrame>,
    observation: ObservationInput,
    steps: Vec<InferenceStep>,
    status: ReasonStatus,
    trace: Option<crate::reason_trace::ReasonTrace>,
    i: int,
)
    requires
        frames_reasoning(r, observation, steps, status, trace),
    ensures
        r@.len() == steps@.len() + 1,
        0 <= i < steps@.len() ==> {
            let (f, s) = (r@[i], steps@[i]);
            &&& f.is_final == false && f.reason_status is None && f.trace is None
            &&& f.inferences@.len() == 1
            &&& f.inferences@[0].step_index == s.step_index
            &&& f.inferences@[0].confidence == s.confidence
            &&& f.inferences@[0].supporting_memories@ == s.supporting@
            &&& f.inferences@[0].contradicting_memories@ == s.contradicting@
            &&& observation matches ObservationInput::ByText(t) ==> f.inferences@[0].claim@ == t@
            &&& observation is ByMemoryId ==> f.inferences@[0].claim@.len() == 0
            &&& s.inference_kind is CausalExplanation <==> f.inferences@[0].inference_kind
                is CausalExplanation
            &&& s.inference_kind is EvidenceAccumulation <==> f.inferences@[0].inference_kind
                is EvidenceAccumulation
            &&& s.inference_kind is AnalogicalInference <==> f.inferences@[0].inference_kind
                is AnalogicalInference
        },
        r@.last().is_final && r@.last().inferences@.len() == 0 && r@.last().trace == trace,
        r@.last().reason_status matches Some(s) && (s is Complete <==> status is Complete) && (
        s is BudgetExhausted <==> status is BudgetExhausted) && (s is DepthLimitReached <==> status
            is DepthLimitReached) && (s is Cancelled <==> status is Cancelled),
{
    if 0 <= i < steps@.len() {
        assert(shows_step(
            r@[i].inferences@[0],
            steps@[i],
            crate::reason::claim_text(observation),
        ));
    }
}

/// The trace of a run shows its candidates and scores in order, what both walks
/// considered and dropped, the supporting one before the contradicting one, and
/// what was cut off each of them.
pub proof fn reason_traces_show_the_run(
    r: ReasonTrace,
    t: InternalReasonTrace,
    texts: HashMap<u128, String>,
    i: int,
)
    requires
        shows_reason_trace(r, t, texts),
    ensures
        r.base@.len() == t.base@.len(),
        r.scoring@.len() == t.scoring@.len(),
        r.centroid == t.centroid,
        0 <= i < t.base@.len() ==> {
            &&& r.base@[i].memory_id == t.base@[i].memory_id && r.base@[i].score == t.base@[i].score
            &&& t.base@[i].text matches Some(x) ==> r.base@[i].text@ == x@
            &&& t.base@[i].text is None ==> tells_text_of(
                r.base@[i].text@,
                texts@,
                t.base@[i].memory_id,
            )
        },
        0 <= i < t.scoring@.len() ==> {
            let (w, s) = (r.scoring@[i], t.scoring@[i]);
            &&& (w.memory_id, w.base_similarity, w.decay, w.weight_product) == (
                s.memory_id,
                s.base_similarity,
                s.decay,
                s.weight_product,
            )
            &&& (w.alignment, w.analogical_fit, w.final_score) == (
                s.alignment,
                s.analogical_fit,
                s.final_score,
            )
            &&& tells_text_of(w.text@, texts@, s.memory_id)
        },
        r.walk.considered@.len() == t.supports_walk.considered@.len()
            + t.contradicts_walk.considered@.len(),
        0 <= i < t.supports_walk.considered@.len() ==> {
            let (w, e) = (r.walk.considered@[i], t.supports_walk.considered@[i]);
            &&& (w.memory_id, w.edge_kind, w.from_memory_id, w.raw_score) == (
                e.memory_id,
                e.edge_kind,
                e.from_memory_id,
                e.raw_score,
            )
            &&& e.depth <= u32::MAX ==> w.depth == e.depth
            &&& tells_text_of(w.text@, texts@, e.memory_id)
        },
        0 <= i < t.contradicts_walk.considered@.len() ==> r.walk.considered@[
        t.supports_walk.considered@.len() + i].memory_id
            == t.contradicts_walk.considered@[i].memory_id,
        r.walk.dropped_by_edge_kind@.len() == t.supports_walk.dropped_by_edge_kind@.len()
            + t.contradicts_walk.dropped_by_edge_kind@.len(),
        r.walk.dropped_by_tombstone@.len() == t.supports_walk.dropped_by_tombstone@.len()
            + t.contradicts_walk.dropped_by_tombstone@.len(),
        r.walk.dropped_by_visited@.len() == t.supports_walk.dropped_by_visited@.len()
            + t.contradicts_walk.dropped_by_visited@.len(),
        r.walk.dropped_by_confidence@.len() == t.supports_trim.dropped_by_confidence@.len()
            + t.contradicts_trim.dropped_by_confidence@.len(),
        0 <= i < t.supports_walk.dropped_by_tombstone@.len() ==> r.walk.dropped_by_tombstone@[
        i].memory_id == t.supports_walk.dropped_by_tombstone@[i].memory_id,
        0 <= i < t.supports_walk.dropped_by_visited@.len() ==> r.walk.dropped_by_visited@[
        i].memory_id == t.supports_walk.dropped_by_visited@[i].memory_id,
        0 <= i < t.supports_walk.dropped_by_edge_kind@.len() ==> r.walk.dropped_by_edge_kind@[
        i].memory_id == t.supports_walk.dropped_by_edge_kind@[i].memory_id,
        0 <= i < t.supports_trim.dropped_by_confidence@.len() ==> (
            r.walk.dropped_by_confidence@[i].memory_id,
            r.walk.dropped_by_confidence@[i].score,
        ) == t.supports_trim.dropped_by_confidence@[i],
        r.walk.dropped_by_max_supporting@.len() == t.supports_trim.dropped_by_trim_cap@.len(),
        0 <= i < t.supports_trim.dropped_by_trim_cap@.len()
            ==> r.walk.dropped_by_max_supporting@[i].memory_id
            == t.supports_trim.dropped_by_trim_cap@[i].0,
        r.walk.dropped_by_max_contradicting@.len() == t.contradicts_trim.dropped_by_trim_cap@.len(),
        0 <= i < t.contradicts_trim.dropped_by_trim_cap@.len()
            ==> r.walk.dropped_by_max_contradicting@[i].memory_id
            == t.contradicts_trim.dropped_by_trim_cap@[i].0,
{
    let (w, a, b) = (r.walk, t.supports_walk, t.contradicts_walk);
    if 0 <= i < t.base@.len() {
        assert(shows_candidate(r.base@[i], t.base@[i], texts@));
    }
    if 0 <= i < t.scoring@.len() {
        assert(shows_score(r.scoring@[i], t.scoring@[i], texts@));
    }
    if 0 <= i < a.considered@.len() {
        assert(shows_edge(w.considered@[i], (a.considered@ + b.considered@)[i], texts@));
    }
    if 0 <= i < b.considered@.len() {
        let k = a.considered@.len() + i;
        assert(shows_edge(w.considered@[k], (a.considered@ + b.considered@)[k], texts@));
    }
    if 0 <= i < a.dropped_by_tombstone@.len() {
        let v = edge_ids(a.dropped_by_tombstone@) + edge_ids(b.dropped_by_tombstone@);
        assert(shows_id(w.dropped_by_tombstone@[i], v[i], texts@));
    }
    if 0 <= i < a.dropped_by_visited@.len() {
        let v = edge_ids(a.dropped_by_visited@) + edge_ids(b.dropped_by_visited@);
        assert(shows_id(w.dropped_by_visited@[i], v[i], texts@));
    }
    if 0 <= i < a.dropped_by_edge_kind@.len() {
        let v = a.dropped_by_edge_kind@ + b.dropped_by_edge_kind@;
        assert(shows_edge(w.dropped_by_edge_kind@[i], v[i], texts@));
    }
    if 0 <= i < t.supports_trim.dropped_by_confidence@.len() {
        let v = t.supports_trim.dropped_by_confidence@ + t.contradicts_trim.dropped_by_confidence@;
        assert(shows_scored(w.dropped_by_confidence@[i], v[i], texts@));
    }
    if 0 <= i < t.supports_trim.dropped_by_trim_cap@.len() {
        let v = pair_ids(t.supports_trim.dropped_by_trim_cap@);
        assert(shows_id(w.dropped_by_max_supporting@[i], v[i], texts@));
    }
    if 0 <= i < t.contradicts_trim.dropped_by_trim_cap@.len() {
        let v = pair_ids(t.contradicts_trim.dropped_by_trim_cap@);
        assert(shows_id(w.dropped_by_max_contradicting@[i], v[i], texts@));
    }
}

proof fn walks_name_their_edges(w: WalkTrace, i: int)
    ensures
        0 <= i < w.considered@.len() ==> walk_ids(w).contains(w.considered@[i].memory_id),
        0 <= i < w.dropped_by_edge_kind@.len() ==> walk_ids(w).contains(
            w.dropped_by_edge_kind@[i].memory_id,
        ),
        0 <= i < w.dropped_by_tombstone@.len() ==> walk_ids(w).contains(
            w.dropped_by_tombstone@[i].memory_id,
        ),
        0 <= i < w.dropped_by_visited@.len() ==> walk_ids(w).contains(
            w.dropped_by_visited@[i].memory_id,
        ),
{
    let ids = walk_ids(w);
    let a = w.considered@.len() as int;
    let b = a + w.dropped_by_edge_kind@.len();
    let c = b + w.dropped_by_tombstone@.len();
    if 0 <= i < w.considered@.len() {
        assert(ids[i] == w.considered@[i].memory_id);
    }
    if 0 <= i < w.dropped_by_edge_kind@.len() {
        assert(ids[a + i] == w.dropped_by_edge_kind@[i].memory_id);
    }
    if 0 <= i < w.dropped_by_tombstone@.len() {
        assert(ids[b + i] == w.dropped_by_tombstone@[i].memory_id);
    }
    if 0 <= i < w.dropped_by_visited@.len() {
        assert(ids[c + i] == w.dropped_by_visited@[i].memory_id);
    }
}

proof fn parts_are_in_the_whole(a: Seq<u128>, b: Seq<u128>, id: u128)
    ensures
        (a + b).contains(id) <==> a.contains(id) || b.contains(id),
{
    let s = a + b;
    if a.contains(id) {
        let k = choose|k: int| 0 <= k < a.len() && a[k] == id;
        assert(s[k] == id);
    }
    if b.contains(id) {
        let k = choose|k: int| 0 <= k < b.len() && b[k] == id;
        assert(s[a.len() + k] == id);
    }
    if s.contains(id) {
        let k = choose|k: int| 0 <= k < s.len() && s[k] == id;
        if k < a.len() {
            assert(a[k] == id);
        } else {
            assert(b[k - a.len()] == id);
        }
    }
}

/// The texts of every memory in the trace of a run are read, each once.
pub proof fn reason_texts_are_read(r: Vec<u128>, t: InternalReasonTrace, i: int)
    requires
        collects_reason_ids(r, t),
    ensures
        r@.no_duplicates(),
        0 <= i < t.base@.len() ==> r@.contains(t.base@[i].memory_id),
        0 <= i < t.scoring@.len() ==> r@.contains(t.scoring@[i].memory_id),
        0 <= i < t.supports_walk.considered@.len() ==> r@.contains(
            t.supports_walk.considered@[i].memory_id,
        ),
        0 <= i < t.contradicts_walk.considered@.len() ==> r@.contains(
            t.contradicts_walk.considered@[i].memory_id,
        ),
        0 <= i < t.supports_trim.dropped_by_confidence@.len() ==> r@.contains(
            t.supports_trim.dropped_by_confidence@[i].0,
        ),
        0 <= i < t.supports_trim.dropped_by_trim_cap@.len() ==> r@.contains(
            t.supports_trim.dropped_by_trim_cap@[i].0,
        ),
        0 <= i < t.contradicts_trim.dropped_by_confidence@.len() ==> r@.contains(
            t.contradicts_trim.dropped_by_confidence@[i].0,
        ),
        0 <= i < t.contradicts_trim.dropped_by_trim_cap@.len() ==> r@.contains(
            t.contradicts_trim.dropped_by_trim_cap@[i].0,
        ),
{
    let base = t.base@.map_values(|c: crate::reason_trace::BaseCandidate| c.memory_id);
    let (a, b) = (walk_ids(t.supports_walk), walk_ids(t.contradicts_walk));
    let c = pair_ids(t.supports_trim.dropped_by_confidence@);
    let d = pair_ids(t.supports_trim.dropped_by_trim_cap@);
    let e = pair_ids(t.contradicts_trim.dropped_by_confidence@);
    let f = pair_ids(t.contradicts_trim.dropped_by_trim_cap@);
    let g = t.scoring@.map_values(|s: crate::reason_trace::ScoreParts| s.memory_id);
    let ids = reason_trace_ids(t);
    assert(ids =~= base + a + b + c + d + e + f + g);
    assert forall|id: u128|
        base.contains(id) || a.contains(id) || b.contains(id) || c.contains(id) || d.contains(id)
            || e.contains(id) || f.contains(id) || g.contains(id) implies #[trigger] ids.contains(
        id,
    ) by {
        parts_are_in_the_whole(base, a, id);
        parts_are_in_the_whole(base + a, b, id);
        parts_are_in_the_whole(base + a + b, c, id);
        parts_are_in_the_whole(base + a + b + c, d, id);
        parts_are_in_the_whole(base + a + b + c + d, e, id);
        parts_are_in_the_whole(base + a + b + c + d + e, f, id);
        parts_are_in_the_whole(base + a + b + c + d + e + f, g, id);
    }
    if 0 <= i < t.base@.len() {
        assert(base[i] == t.base@[i].memory_id);
        assert(ids.contains(t.base@[i].memory_id));
    }
    if 0 <= i < t.scoring@.len() {
        assert(g[i] == t.scoring@[i].memory_id);
        assert(ids.contains(t.scoring@[i].memory_id));
    }
    walks_name_their_edges(t.supports_walk, i);
    walks_name_their_edges(t.contradicts_walk, i);
    if 0 <= i < t.supports_walk.considered@.len() {
        assert(ids.contains(t.supports_walk.considered@[i].memory_id));
    }
    if 0 <= i < t.contradicts_walk.considered@.len() {
        assert(ids.contains(t.contradicts_walk.considered@[i].memory_id));
    }
    if 0 <= i < t.supports_trim.dropped_by_confidence@.len() {
        assert(c[i] == t.supports_trim.dropped_by_confidence@[i].0);
        assert(ids.contains(t.supports_trim.dropped_by_confidence@[i].0));
    }
    if 0 <= i < t.supports_trim.dropped_by_trim_cap@.len() {
        assert(d[i] == t.supports_trim.dropped_by_trim_cap@[i].0);
        assert(ids.contains(t.supports_trim.dropped_by_trim_cap@[i].0));
    }
    if 0 <= i < t.contradicts_trim.dropped_by_confidence@.len() {
        assert(e[i] == t.contradicts_trim.dropped_by_confidence@[i].0);
        assert(ids.contains(t.contradicts_trim.dropped_by_confidence@[i].0));
    }
    if 0 <= i < t.contradicts_trim.dropped_by_trim_cap@.len() {
        assert(f[i] == t.contradicts_trim.dropped_by_trim_cap@[i].0);
        assert(ids.contains(t.contradicts_trim.dropped_by_trim_cap@[i].0));
    }
}

/// One inference is shown in one frame that is not the last.
pub proof fn steps_are_shown_alone(r: ReasonResponseFrame, step: InferenceStep, claim: Seq<char>)
    requires
        frames_step(r, step, claim),
    ensures
        r.inferences@.len() == 1 && !r.is_final && r.reason_status is None && r.trace is None,
        r.inferences@[0].claim@ == claim && r.inferences@[0].step_index == step.step_index,
        r.inferences@[0].supporting_memories@ == step.supporting@
            && r.inferences@[0].contradicting_memories@ == step.contradicting@,
{
}

} // verus!
