//! Plans: paths between memories, as frames and as a trace.
use std::collections::HashMap;

use vstd::prelude::*;

use crate::events::EdgeKind;
use crate::recall::{count_u32, wire_count};
use crate::recall_trace::{distinct_ids, text_for, trace_text};
use crate::single::Single;

verus! {

/// How one memory of a path follows the one before.
#[derive(Debug)]
pub enum TransitionKind {
    Initial,
    Causal,
    Temporal,
    Similarity,
    Other(String),
}

/// A transition as characters.
pub enum Transition {
    Initial,
    Causal,
    Temporal,
    Similarity,
    Other(Seq<char>),
}

impl View for TransitionKind {
    type V = Transition;

    open spec fn view(&self) -> Transition {
        match *self {
            TransitionKind::Initial => Transition::Initial,
            TransitionKind::Causal => Transition::Causal,
            TransitionKind::Temporal => Transition::Temporal,
            TransitionKind::Similarity => Transition::Similarity,
            TransitionKind::Other(s) => Transition::Other(s@),
        }
    }
}

/// The transition along an edge; a kind without one of its own goes by its
/// name.
pub open spec fn transition(kind: EdgeKind) -> Transition {
    match kind {
        EdgeKind::Caused => Transition::Causal,
        EdgeKind::FollowedBy => Transition::Temporal,
        EdgeKind::SimilarTo => Transition::Similarity,
        EdgeKind::DerivedFrom => Transition::Other("DerivedFrom"@),
        EdgeKind::Contradicts => Transition::Other("Contradicts"@),
        EdgeKind::Supports => Transition::Other("Supports"@),
        EdgeKind::References => Transition::Other("References"@),
        EdgeKind::PartOf => Transition::Other("PartOf"@),
    }
}

pub fn edge_to_transition(kind: EdgeKind) -> (r: TransitionKind)
    ensures
        r@ == transition(kind),
{
    match kind {
        EdgeKind::Caused => TransitionKind::Causal,
        EdgeKind::FollowedBy => TransitionKind::Temporal,
        EdgeKind::SimilarTo => TransitionKind::Similarity,
        EdgeKind::DerivedFrom => TransitionKind::Other("DerivedFrom".to_owned()),
        EdgeKind::Contradicts => TransitionKind::Other("Contradicts".to_owned()),
        EdgeKind::Supports => TransitionKind::Other("Supports".to_owned()),
        EdgeKind::References => TransitionKind::Other("References".to_owned()),
        EdgeKind::PartOf => TransitionKind::Other("PartOf".to_owned()),
    }
}

/// A path: memories, the edges between them, and their texts as far as they
/// are known.
#[derive(Debug)]
pub struct Path {
    pub nodes: Vec<u128>,
    pub edges: Vec<EdgeKind>,
    pub node_text: Vec<String>,
    pub score: Single,
}

/// One memory of a path. `steps_to_goal` counts the memories that follow.
#[derive(Debug)]
pub struct PlanStep {
    pub step_index: u32,
    pub memory_id: u128,
    pub text: String,
    pub transition_kind: TransitionKind,
    pub confidence: Single,
    pub steps_to_goal: usize,
}

/// Whether a step shows the `i`-th memory of a path.
pub open spec fn is_step(s: PlanStep, path: Path, i: int) -> bool {
    &&& s.step_index == wire_count(i as nat)
    &&& s.memory_id == path.nodes@[i]
    &&& s.text@ == (if i < path.node_text@.len() {
        path.node_text@[i]@
    } else {
        Seq::<char>::empty()
    })
    &&& s.transition_kind@ == (if i == 0 {
        Transition::Initial
    } else {
        transition(path.edges@[i - 1])
    })
    &&& s.confidence == path.score
    &&& s.steps_to_goal == path.nodes@.len() - 1 - i
}

/// Whether the steps are those of a path.
pub open spec fn shows_path(
    r: Vec<PlanStep>,
    path: Path,
) -> bool {
    &&& r@.len() == path.nodes@.len()
    &&& (forall|i: int| 0 <= i < r@.len() ==> is_step(#[trigger] r@[i], path, i))
}

/// The steps of a path, which has an edge to each memory but the first.
pub fn path_to_steps(path: &Path) -> (r: Vec<PlanStep>)
    requires
        path.nodes@.len() <= path.edges@.len() + 1,
    ensures
        shows_path(r, *path),
{
    let n: usize = path.nodes.len();
    let mut out: Vec<PlanStep> = Vec::new();
    for i in 0..n
        invariant
            n == path.nodes@.len(),
            n <= path.edges@.len() + 1,
            out@.len() == i,
            forall|k: int| 0 <= k < i ==> is_step(#[trigger] out@[k], *path, k),
    {
        let transition_kind = if i == 0 {
            TransitionKind::Initial
        } else {
            edge_to_transition(path.edges[i - 1])
        };
        let text = if i < path.node_text.len() {
            path.node_text[i].clone()
        } else {
            let none = String::new();
            assert(none@ =~= Seq::empty());
            none
        };
        out.push(
            PlanStep {
                step_index: count_u32(i),
                memory_id: path.nodes[i],
                text,
                transition_kind,
                confidence: path.score,
                steps_to_goal: n - 1 - i,
            },
        );
    }
    out
}

/// How a search for paths ended.
#[derive(Clone, Copy, Debug, PartialEq, Eq, Structural)]
pub enum PlanStatus {
    GoalReached,
    BudgetExhausted,
    NoPathFound,
    Timeout,
}

/// The status as clients see it.
#[derive(Clone, Copy, Debug, PartialEq, Eq, Structural)]
pub enum WirePlanStatus {
    GoalReached,
    BudgetExhausted,
    NoPathFound,
}

/// The status as clients see it: a stop by the clock is an exhausted budget.
pub open spec fn shown_status(s: PlanStatus) -> WirePlanStatus {
    match s {
        PlanStatus::GoalReached => WirePlanStatus::GoalReached,
        PlanStatus::BudgetExhausted => WirePlanStatus::BudgetExhausted,
        PlanStatus::NoPathFound => WirePlanStatus::NoPathFound,
        PlanStatus::Timeout => WirePlanStatus::BudgetExhausted,
    }
}

pub fn to_wire_status(s: PlanStatus) -> (r: WirePlanStatus)
    ensures
        r == shown_status(s),
{
    match s {
        PlanStatus::GoalReached => WirePlanStatus::GoalReached,
        PlanStatus::BudgetExhausted => WirePlanStatus::BudgetExhausted,
        PlanStatus::NoPathFound => WirePlanStatus::NoPathFound,
        PlanStatus::Timeout => WirePlanStatus::BudgetExhausted,
    }
}

#[derive(Debug)]
pub struct PlanResponseFrame {
    pub steps: Vec<PlanStep>,
    pub is_final: bool,
    pub plan_status: Option<WirePlanStatus>,
    pub trace: Option<PlanTrace>,
}

/// Whether a frame shows a path.
pub open spec fn is_path_frame(f: PlanResponseFrame, path: Path) -> bool {
    &&& f.steps@.len() == path.nodes@.len()
    &&& forall|i: int| 0 <= i < f.steps@.len() ==> is_step(#[trigger] f.steps@[i], path, i)
    &&& !f.is_final
    &&& f.plan_status is None
    &&& f.trace is None
}

/// The frame of a path.
pub fn path_frame_to_wire(path: &Path) -> (r: PlanResponseFrame)
    requires
        path.nodes@.len() <= path.edges@.len() + 1,
    ensures
        is_path_frame(r, *path),
{
    PlanResponseFrame {
        steps: path_to_steps(path),
        is_final: false,
        plan_status: None,
        trace: None,
    }
}

/// Whether the frames answer a plan.
pub open spec fn frames_plan(
    r: Vec<PlanResponseFrame>,
    paths: Vec<Path>,
    status: PlanStatus,
    trace: Option<PlanTrace>,
) -> bool {
    &&& r@.len() == paths@.len() + 1
    &&& (forall|i: int| 0 <= i < paths@.len() ==> is_path_frame(#[trigger] r@[i], paths@[i]))
    &&& ({
        let last = r@[paths@.len() as int];
        &&& last.steps@.len() == 0
        &&& last.is_final
        &&& last.plan_status == Some(shown_status(status))
        &&& last.trace == trace
    })
}

/// The frames of a plan: one for each path, then a last one with the status
/// and the trace. The last one is there even where no path is.
pub fn plan_frames(paths: &Vec<Path>, status: PlanStatus, trace: Option<PlanTrace>) -> (r: Vec<
    PlanResponseFrame,
>)
    requires
        forall|i: int|
            0 <= i < paths@.len() ==> (#[trigger] paths@[i]).nodes@.len() <= paths@[i].edges@.len()
                + 1,
    ensures
        frames_plan(r, *paths, status, trace),
{
    let mut frames: Vec<PlanResponseFrame> = Vec::new();
    for i in 0..paths.len()
        invariant
            forall|k: int|
                0 <= k < paths@.len() ==> (#[trigger] paths@[k]).nodes@.len()
                    <= paths@[k].edges@.len() + 1,
            frames@.len() == i,
            forall|k: int| 0 <= k < i ==> is_path_frame(#[trigger] frames@[k], paths@[k]),
    {
        frames.push(path_frame_to_wire(&paths[i]));
    }
    frames.push(
        PlanResponseFrame {
            steps: Vec::new(),
            is_final: true,
            plan_status: Some(to_wire_status(status)),
            trace,
        },
    );
    frames
}

// The trace.

#[derive(Clone, Copy, Debug, PartialEq, Eq, Structural)]
pub enum PlanTraceDirection {
    Forward,
    Backward,
}

/// A memory that the search reached, from which side, and how.
#[derive(Clone, Copy, Debug)]
pub struct ExploredNode {
    pub memory_id: u128,
    pub direction: PlanTraceDirection,
    pub depth: usize,
    pub parent_id: Option<u128>,
    pub alignment_score: Single,
}

/// A memory where both sides met.
#[derive(Clone, Copy, Debug)]
pub struct MeetingPoint {
    pub memory_id: u128,
    pub included_in_result: bool,
}

/// What a search did.
#[derive(Debug)]
pub struct PlanExecutionMetadata {
    pub explored: Vec<ExploredNode>,
    pub meeting_points: Vec<MeetingPoint>,
}

/// An explored memory as clients see it; `parent_edge` is the id of the memory
/// it was reached from.
#[derive(Debug)]
pub struct PlanTraceNode {
    pub memory_id: u128,
    pub text: String,
    pub direction: PlanTraceDirection,
    pub depth: u32,
    pub parent_edge: Option<u128>,
    pub alignment_score: Single,
}

#[derive(Debug)]
pub struct PlanTraceMeetingPoint {
    pub memory_id: u128,
    pub text: String,
    pub included_in_result: bool,
}

#[derive(Debug)]
pub struct PlanTrace {
    pub explored: Vec<PlanTraceNode>,
    pub meeting_points: Vec<PlanTraceMeetingPoint>,
}

/// Whether a shown node is an explored one with its text.
pub open spec fn shows_node(w: PlanTraceNode, n: ExploredNode, texts: Map<u128, String>) -> bool {
    &&& w.memory_id == n.memory_id
    &&& w.text@ == trace_text(texts, n.memory_id)
    &&& w.direction == n.direction
    &&& w.depth == wire_count(n.depth as nat)
    &&& w.parent_edge == n.parent_id
    &&& w.alignment_score == n.alignment_score
}

pub fn node_to_wire(n: &ExploredNode, texts: &HashMap<u128, String>) -> (r: PlanTraceNode)
    ensures
        shows_node(r, *n, texts@),
{
    PlanTraceNode {
        memory_id: n.memory_id,
        text: text_for(texts, n.memory_id),
        direction: n.direction,
        depth: count_u32(n.depth),
        parent_edge: n.parent_id,
        alignment_score: n.alignment_score,
    }
}

/// Whether a shown meeting point is one with its text.
pub open spec fn shows_meeting(
    w: PlanTraceMeetingPoint,
    m: MeetingPoint,
    texts: Map<u128, String>,
) -> bool {
    &&& w.memory_id == m.memory_id
    &&& w.text@ == trace_text(texts, m.memory_id)
    &&& w.included_in_result == m.included_in_result
}

pub fn meeting_point_to_wire(m: &MeetingPoint, texts: &HashMap<u128, String>) -> (r:
    PlanTraceMeetingPoint)
    ensures
        shows_meeting(r, *m, texts@),
{
    PlanTraceMeetingPoint {
        memory_id: m.memory_id,
        text: text_for(texts, m.memory_id),
        included_in_result: m.included_in_result,
    }
}

/// Every memory that a search's trace shows.
pub open spec fn plan_trace_ids(meta: PlanExecutionMetadata) -> Seq<u128> {
    meta.explored@.map_values(|n: ExploredNode| n.memory_id) + meta.meeting_points@.map_values(
        |m: MeetingPoint| m.memory_id,
    )
}

/// Whether the ids are those that a trace names.
pub open spec fn collects_plan_ids(
    r: Vec<u128>,
    meta: PlanExecutionMetadata,
) -> bool {
    &&& r@.no_duplicates()
    &&& (forall|id: u128| r@.contains(id) <==> plan_trace_ids(meta).contains(id))
}

/// The memories whose texts a trace needs, each once.
pub fn plan_text_ids(meta: &PlanExecutionMetadata) -> (r: Vec<u128>)
    ensures
        collects_plan_ids(r, *meta),
{
    let mut out: Vec<u128> = Vec::new();
    let ghost a = meta.explored@.map_values(|n: ExploredNode| n.memory_id);
    let ghost b = meta.meeting_points@.map_values(|m: MeetingPoint| m.memory_id);
    for i in 0..meta.explored.len()
        invariant
            a == meta.explored@.map_values(|n: ExploredNode| n.memory_id),
            out@ == a.take(i as int),
    {
        out.push(meta.explored[i].memory_id);
        assert(out@ =~= a.take(i + 1));
    }
    assert(a.take(a.len() as int) =~= a);
    for i in 0..meta.meeting_points.len()
        invariant
            b == meta.meeting_points@.map_values(|m: MeetingPoint| m.memory_id),
            out@ == a + b.take(i as int),
    {
        out.push(meta.meeting_points[i].memory_id);
        assert(out@ =~= a + b.take(i + 1));
    }
    assert(b.take(b.len() as int) =~= b);
    distinct_ids(&out)
}

/// Whether a trace shows an execution.
pub open spec fn shows_plan_trace(
    r: PlanTrace,
    meta: PlanExecutionMetadata,
    texts: HashMap<u128, String>,
) -> bool {
    &&& r.explored@.len() == meta.explored@.len()
    &&& (forall|i: int|
        0 <= i < r.explored@.len() ==> shows_node(
            #[trigger] r.explored@[i],
            meta.explored@[i],
            texts@,
        ))
    &&& r.meeting_points@.len() == meta.meeting_points@.len()
    &&& (forall|i: int|
        0 <= i < r.meeting_points@.len() ==> shows_meeting(
            #[trigger] r.meeting_points@[i],
            meta.meeting_points@[i],
            texts@,
        ))
}

/// Shows what a search did, with the texts that were read.
pub fn build_plan_trace(meta: &PlanExecutionMetadata, texts: &HashMap<u128, String>) -> (r:
    PlanTrace)
    ensures
        shows_plan_trace(r, *meta, *texts),
{
    let mut explored: Vec<PlanTraceNode> = Vec::new();
    for i in 0..meta.explored.len()
        invariant
            explored@.len() == i,
            forall|k: int|
                0 <= k < i ==> shows_node(#[trigger] explored@[k], meta.explored@[k], texts@),
    {
        explored.push(node_to_wire(&meta.explored[i], texts));
    }
    let mut meeting_points: Vec<PlanTraceMeetingPoint> = Vec::new();
    for i in 0..meta.meeting_points.len()
        invariant
            meeting_points@.len() == i,
            forall|k: int|
                0 <= k < i ==> shows_meeting(
                    #[trigger] meeting_points@[k],
                    meta.meeting_points@[k],
                    texts@,
                ),
    {
        meeting_points.push(meeting_point_to_wire(&meta.meeting_points[i], texts));
    }
    PlanTrace { explored, meeting_points }
}

/// Clients see exactly one final frame, and it is the last, however many paths
/// were found.
pub proof fn plans_end_once(frames: Seq<PlanResponseFrame>, paths: Seq<Path>)
    requires
        frames.len() == paths.len() + 1,
        forall|i: int| 0 <= i < paths.len() ==> is_path_frame(#[trigger] frames[i], paths[i]),
        frames[paths.len() as int].is_final,
    ensures
        forall|i: int|
            0 <= i < frames.len() ==> ((#[trigger] frames[i]).is_final <==> i == frames.len() - 1),
{
    assert forall|i: int| 0 <= i < frames.len() implies ((#[trigger] frames[i]).is_final <==> i
        == frames.len() - 1) by {
        if i < paths.len() {
            assert(is_path_frame(frames[i], paths[i]));
        }
    }
}

} // verus!
