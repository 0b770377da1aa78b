//! Reasoning: evidence for and against a claim, as frames and as a trace.
use vstd::prelude::*;

use crate::reason_trace::ReasonTrace;
use crate::single::Single;

verus! {

/// What is reasoned about: a text or a memory.
#[derive(Debug)]
pub enum ObservationInput {
    ByText(String),
    ByMemoryId(u128),
}

/// The claim of an observation; a memory makes none.
pub open spec fn claim_text(o: ObservationInput) -> Seq<char> {
    match o {
        ObservationInput::ByText(t) => t@,
        ObservationInput::ByMemoryId(_) => Seq::empty(),
    }
}

/// The claim of an observation.
pub fn claim_of(o: &ObservationInput) -> (r: String)
    ensures
        r@ == claim_text(*o),
{
    match o {
        ObservationInput::ByText(t) => t.clone(),
        ObservationInput::ByMemoryId(_) => {
            let none = String::new();
            assert(none@ =~= Seq::empty());
            none
        },
    }
}

/// How the executor inferred.
#[derive(Clone, Copy, Debug, PartialEq, Eq, Structural)]
pub enum InternalInferenceKind {
    CausalExplanation,
    EvidenceAccumulation,
    AnalogicalInference,
}

/// How a claim was inferred, as clients see it.
#[derive(Clone, Copy, Debug, PartialEq, Eq, Structural)]
pub enum InferenceKind {
    CausalExplanation,
    EvidenceAccumulation,
    AnalogicalInference,
}

/// The kind as clients see it.
pub open spec fn shown_kind(k: InternalInferenceKind) -> InferenceKind {
    match k {
        InternalInferenceKind::CausalExplanation => InferenceKind::CausalExplanation,
        InternalInferenceKind::EvidenceAccumulation => InferenceKind::EvidenceAccumulation,
        InternalInferenceKind::AnalogicalInference => InferenceKind::AnalogicalInference,
    }
}

pub fn inference_kind_to_wire(k: InternalInferenceKind) -> (r: InferenceKind)
    ensures
        r == shown_kind(k),
{
    match k {
        InternalInferenceKind::CausalExplanation => InferenceKind::CausalExplanation,
        InternalInferenceKind::EvidenceAccumulation => InferenceKind::EvidenceAccumulation,
        InternalInferenceKind::AnalogicalInference => InferenceKind::AnalogicalInference,
    }
}

/// How the executor stopped.
#[derive(Clone, Copy, Debug, PartialEq, Eq, Structural)]
pub enum ReasonStatus {
    Complete,
    BudgetExhausted,
    DepthLimitReached,
    Cancelled,
}

/// How reasoning stopped, as clients see it.
#[derive(Clone, Copy, Debug, PartialEq, Eq, Structural)]
pub enum WireReasonStatus {
    Complete,
    BudgetExhausted,
    DepthLimitReached,
    Cancelled,
}

/// The status as clients see it.
pub open spec fn shown_status(s: ReasonStatus) -> WireReasonStatus {
    match s {
        ReasonStatus::Complete => WireReasonStatus::Complete,
        ReasonStatus::BudgetExhausted => WireReasonStatus::BudgetExhausted,
        ReasonStatus::DepthLimitReached => WireReasonStatus::DepthLimitReached,
        ReasonStatus::Cancelled => WireReasonStatus::Cancelled,
    }
}

pub fn to_wire_status(s: ReasonStatus) -> (r: WireReasonStatus)
    ensures
        r == shown_status(s),
{
    match s {
        ReasonStatus::Complete => WireReasonStatus::Complete,
        ReasonStatus::BudgetExhausted => WireReasonStatus::BudgetExhausted,
        ReasonStatus::DepthLimitReached => WireReasonStatus::DepthLimitReached,
        ReasonStatus::Cancelled => WireReasonStatus::Cancelled,
    }
}

/// One inference of the executor: the memories for and against the claim.
#[derive(Debug)]
pub struct InferenceStep {
    pub step_index: u32,
    pub supporting: Vec<u128>,
    pub contradicting: Vec<u128>,
    pub confidence: Single,
    pub inference_kind: InternalInferenceKind,
}

/// One inference, as clients see it.
#[derive(Debug)]
pub struct WireInferenceStep {
    pub step_index: u32,
    pub claim: String,
    pub supporting_memories: Vec<u128>,
    pub contradicting_memories: Vec<u128>,
    pub confidence: Single,
    pub inference_kind: InferenceKind,
}

#[derive(Debug)]
pub struct ReasonResponseFrame {
    pub inferences: Vec<WireInferenceStep>,
    pub is_final: bool,
    pub reason_status: Option<WireReasonStatus>,
    pub trace: Option<ReasonTrace>,
}

/// Whether a frame holds one inference and is not the last.
pub open spec fn is_inference_frame(f: ReasonResponseFrame) -> bool {
    f.inferences@.len() == 1 && !f.is_final && f.reason_status is None && f.trace is None
}

/// Whether an inference shows a step of the executor.
pub open spec fn shows_step(w: WireInferenceStep, s: InferenceStep, claim: Seq<char>) -> bool {
    &&& w.step_index == s.step_index
    &&& w.claim@ == claim
    &&& w.supporting_memories == s.supporting
    &&& w.contradicting_memories == s.contradicting
    &&& w.confidence == s.confidence
    &&& w.inference_kind == shown_kind(s.inference_kind)
}

/// Whether a frame shows one step.
pub open spec fn frames_step(
    r: ReasonResponseFrame,
    step: InferenceStep,
    claim: Seq<char>,
) -> bool {
    &&& is_inference_frame(r)
    &&& shows_step(r.inferences@[0], step, claim)
}

/// The frame of a step.
pub fn step_to_wire(step: InferenceStep, claim: &str) -> (r: ReasonResponseFrame)
    ensures
        frames_step(r, step, claim@),
{
    let mut inferences: Vec<WireInferenceStep> = Vec::new();
    inferences.push(
        WireInferenceStep {
            step_index: step.step_index,
            claim: claim.to_owned(),
            supporting_memories: step.supporting,
            contradicting_memories: step.contradicting,
            confidence: step.confidence,
            inference_kind: inference_kind_to_wire(step.inference_kind),
        },
    );
    ReasonResponseFrame { inferences, is_final: false, reason_status: None, trace: None }
}

/// Whether frames show the steps of the executor: one frame each, then the
/// last one. Without steps the last frame stands alone.
pub open spec fn shows_reasoning(
    frames: Seq<ReasonResponseFrame>,
    steps: Seq<InferenceStep>,
    claim: Seq<char>,
    status: ReasonStatus,
    trace: Option<ReasonTrace>,
) -> bool {
    let n = steps.len() as int;
    &&& frames.len() == n + 1
    &&& forall|i: int| 0 <= i < n ==> is_inference_frame(#[trigger] frames[i])
    &&& forall|i: int|
        0 <= i < n ==> shows_step((#[trigger] frames[i]).inferences@[0], steps[i], claim)
    &&& frames[n].inferences@.len() == 0
    &&& frames[n].is_final
    &&& frames[n].reason_status == Some(shown_status(status))
    &&& frames[n].trace == trace
}

/// Whether the frames answer an observation.
pub open spec fn frames_reasoning(
    r: Vec<ReasonResponseFrame>,
    observation: ObservationInput,
    steps: Vec<InferenceStep>,
    status: ReasonStatus,
    trace: Option<ReasonTrace>,
) -> bool {
    shows_reasoning(r@, steps@, claim_text(observation), status, trace)
}

/// The frames of a reasoning. `status` is that of the whole.
pub fn reason_frames(
    observation: &ObservationInput,
    steps: Vec<InferenceStep>,
    status: ReasonStatus,
    trace: Option<ReasonTrace>,
) -> (r: Vec<ReasonResponseFrame>)
    ensures
        frames_reasoning(r, *observation, steps, status, trace),
{
    let claim = claim_of(observation);
    let ghost all = steps@;
    let mut frames: Vec<ReasonResponseFrame> = Vec::new();
    for step in it: steps
        invariant
            it.seq() == all,
            claim@ == claim_text(*observation),
            frames@.len() == it.index(),
            forall|i: int| 0 <= i < it.index() ==> is_inference_frame(#[trigger] frames@[i]),
            forall|i: int|
                0 <= i < it.index() ==> shows_step(
                    (#[trigger] frames@[i]).inferences@[0],
                    all[i],
                    claim@,
                ),
    {
        frames.push(step_to_wire(step, &claim));
    }
    frames.push(
        ReasonResponseFrame {
            inferences: Vec::new(),
            is_final: true,
            reason_status: Some(to_wire_status(status)),
            trace,
        },
    );
    frames
}

/// Clients see exactly one final frame, the last, and every frame before it
/// holds one inference about the claim; without inferences the final frame is
/// the only one.
pub proof fn reasoning_ends_once(
    frames: Seq<ReasonResponseFrame>,
    steps: Seq<InferenceStep>,
    claim: Seq<char>,
    status: ReasonStatus,
    trace: Option<ReasonTrace>,
)
    requires
        shows_reasoning(frames, steps, claim, status, trace),
    ensures
        steps.len() == 0 ==> frames.len() == 1,
        forall|i: int|
            0 <= i < frames.len() ==> ((#[trigger] frames[i]).is_final <==> i == frames.len() - 1),
        forall|i: int|
            0 <= i < frames.len() - 1 ==> (#[trigger] frames[i]).inferences@.len() == 1
                && frames[i].inferences@[0].claim@ == claim,
{
    assert forall|i: int| 0 <= i < frames.len() - 1 implies is_inference_frame(
        #[trigger] frames[i],
    ) && shows_step(frames[i].inferences@[0], steps[i], claim) by {}
}

} // verus!
