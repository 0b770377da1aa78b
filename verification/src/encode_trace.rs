//! The trace of a write: its stages, in order, with what each produced.
use vstd::prelude::*;

use crate::bytes::{length_u32, low32};
use crate::encode_graph::{EncodeStageGraph, EncodeTraceArtifacts, EncodeTraceStageStatus};
use crate::events::{memory_id_bytes, EventType, StageKind, StageOutcome, StagePayload};
use crate::single::Single;
use crate::subscribe::EventEnvelope;
use crate::text::{decimal, push_decimal, push_wide_decimal, same_text};

verus! {

/// The name of an asynchronous stage.
pub open spec fn stage_name(kind: StageKind) -> Seq<char> {
    match kind {
        StageKind::AutoEdge => "auto_edge"@,
        StageKind::TemporalEdge => "temporal_edge"@,
        StageKind::Extractor => "extractor"@,
        StageKind::Hype => "hype"@,
    }
}

pub fn stage_kind_name(kind: StageKind) -> (r: &'static str)
    ensures
        r@ == stage_name(kind),
{
    match kind {
        StageKind::AutoEdge => "auto_edge",
        StageKind::TemporalEdge => "temporal_edge",
        StageKind::Extractor => "extractor",
        StageKind::Hype => "hype",
    }
}

/// The durable row that a write made.
#[derive(Clone, Copy, Debug, PartialEq, Eq)]
pub struct EncodeStageRecord {
    pub memory_id: [u8; 16],
    pub kind: u8,
    pub salience: Single,
    pub created_at_unix_nanos: u64,
    pub occurred_at_unix_nanos: u64,
    pub vector_dim: u32,
    pub text_len: u32,
    pub lsn: u64,
}

/// What a stage produced.
#[derive(Debug)]
pub struct EncodeStageArtifact {
    pub vector: Vec<Single>,
    pub record: Option<EncodeStageRecord>,
    pub graph: Option<EncodeStageGraph>,
    pub keyword_fields: Vec<String>,
    pub hype_questions: Vec<String>,
}

#[derive(Debug)]
pub struct EncodeTraceStage {
    pub name: String,
    pub status: EncodeTraceStageStatus,
    pub latency_us: u64,
    pub detail: String,
    pub artifact: Option<EncodeStageArtifact>,
}

#[derive(Debug)]
pub struct EncodeTrace {
    pub stages: Vec<EncodeTraceStage>,
    pub artifacts: EncodeTraceArtifacts,
    pub total_latency_us: u64,
}

/// Whether a stage reads so, whatever it produced.
pub open spec fn reads(
    s: EncodeTraceStage,
    name: Seq<char>,
    status: EncodeTraceStageStatus,
    latency_us: u64,
    detail: Seq<char>,
) -> bool {
    &&& s.name@ == name
    &&& s.status == status
    &&& s.latency_us == latency_us
    &&& s.detail@ == detail
}

/// Whether an artifact holds nothing.
pub open spec fn is_empty_artifact(a: EncodeStageArtifact) -> bool {
    &&& a.vector@.len() == 0
    &&& a.record is None
    &&& a.graph is None
    &&& a.keyword_fields@.len() == 0
    &&& a.hype_questions@.len() == 0
}

/// An artifact that holds nothing.
pub fn empty_artifact() -> (r: EncodeStageArtifact)
    ensures
        is_empty_artifact(r),
{
    EncodeStageArtifact {
        vector: Vec::new(),
        record: None,
        graph: None,
        keyword_fields: Vec::new(),
        hype_questions: Vec::new(),
    }
}

fn stage(
    name: &str,
    status: EncodeTraceStageStatus,
    latency_us: u64,
    detail: String,
    artifact: Option<EncodeStageArtifact>,
) -> (r: EncodeTraceStage)
    ensures
        reads(r, name@, status, latency_us, detail@),
        r.artifact == artifact,
{
    EncodeTraceStage { name: name.to_owned(), status, latency_us, detail, artifact }
}

// The synchronous stages.

/// Whether a stage tells a validation.
pub open spec fn traces_validation(
    r: EncodeTraceStage,
    latency_us: u64,
) -> bool {
    &&& reads(r, "validate"@, EncodeTraceStageStatus::Done, latency_us, Seq::empty())
    &&& r.artifact is None
}

/// The stage of input validation.
pub fn validate_stage(latency_us: u64) -> (r: EncodeTraceStage)
    ensures
        traces_validation(r, latency_us),
{
    let detail = String::new();
    assert(detail@ =~= Seq::empty());
    stage("validate", EncodeTraceStageStatus::Done, latency_us, detail, None)
}

/// Whether a stage tells an embedding.
pub open spec fn traces_embedding(
    r: EncodeTraceStage,
    vector: Vec<Single>,
    latency_us: u64,
) -> bool {
    &&& reads(
        r,
        "embed"@,
        EncodeTraceStageStatus::Done,
        latency_us,
        "dim="@ + decimal(vector@.len()),
    )
    &&& r.artifact matches Some(a) && a.vector == vector && a.record is None && a.graph is None
        && a.keyword_fields@.len() == 0 && a.hype_questions@.len() == 0
}

/// The stage of embedding, with the vector it made.
pub fn embed_stage(vector: Vec<Single>, latency_us: u64) -> (r: EncodeTraceStage)
    ensures
        traces_embedding(r, vector, latency_us),
{
    let mut detail = "dim=".to_owned();
    push_decimal(&mut detail, vector.len() as u64);
    let mut a = empty_artifact();
    a.vector = vector;
    stage("embed", EncodeTraceStageStatus::Done, latency_us, detail, Some(a))
}

/// Whether a stage tells a reservation.
pub open spec fn traces_reservation(
    r: EncodeTraceStage,
    memory_id: u128,
    latency_us: u64,
) -> bool {
    &&& reads(
        r,
        "reserve"@,
        EncodeTraceStageStatus::Done,
        latency_us,
        "memory_id="@ + decimal(memory_id as nat),
    )
    &&& r.artifact is None
}

/// The stage of reserving an id.
pub fn reserve_stage(memory_id: u128, latency_us: u64) -> (r: EncodeTraceStage)
    ensures
        traces_reservation(r, memory_id, latency_us),
{
    let mut detail = "memory_id=".to_owned();
    push_wide_decimal(&mut detail, memory_id);
    stage("reserve", EncodeTraceStageStatus::Done, latency_us, detail, None)
}

/// What a durable row holds.
#[derive(Clone, Copy, Debug)]
pub struct PersistedRow {
    pub memory_id: u128,
    pub salience: Single,
    pub created_at_unix_nanos: u64,
    pub occurred_at_unix_nanos: Option<u64>,
    pub vector_dim: usize,
    pub text_len: usize,
    pub lsn: u64,
}

/// Whether a stage tells a stored row.
pub open spec fn traces_persistence(
    r: EncodeTraceStage,
    row: PersistedRow,
    latency_us: u64,
) -> bool {
    &&& reads(
        r,
        "persist"@,
        EncodeTraceStageStatus::Done,
        latency_us,
        "lsn="@ + decimal(row.lsn as nat),
    )
    &&& r.artifact matches Some(a) && a.vector@.len() == 0 && a.graph is None
        && a.keyword_fields@.len() == 0 && a.hype_questions@.len() == 0 && (a.record matches Some(rec)
        && {
        &&& rec.memory_id@ == crate::bytes::be_bytes(row.memory_id as nat, 16)
        &&& rec.kind == 0
        &&& rec.salience == row.salience
        &&& rec.created_at_unix_nanos == row.created_at_unix_nanos
        &&& rec.occurred_at_unix_nanos == (match row.occurred_at_unix_nanos {
            Some(t) => t,
            None => 0,
        })
        &&& rec.vector_dim == low32(row.vector_dim as nat)
        &&& rec.text_len == low32(row.text_len as nat)
        &&& rec.lsn == row.lsn
    })
}

/// The stage of persisting, with the row it made. Every remembered text is
/// episodic, which is kind 0.
pub fn persist_stage(row: &PersistedRow, latency_us: u64) -> (r: EncodeTraceStage)
    ensures
        traces_persistence(r, *row, latency_us),
{
    let mut detail = "lsn=".to_owned();
    push_decimal(&mut detail, row.lsn);
    let mut a = empty_artifact();
    a.record = Some(
        EncodeStageRecord {
            memory_id: memory_id_bytes(row.memory_id),
            kind: 0,
            salience: row.salience,
            created_at_unix_nanos: row.created_at_unix_nanos,
            occurred_at_unix_nanos: match row.occurred_at_unix_nanos {
                Some(t) => t,
                None => 0,
            },
            vector_dim: length_u32(row.vector_dim),
            text_len: length_u32(row.text_len),
            lsn: row.lsn,
        },
    );
    stage("persist", EncodeTraceStageStatus::Done, latency_us, detail, Some(a))
}

// The asynchronous stages.

/// The status of a drained stage: one that ran and made nothing is done.
pub open spec fn drained_status(outcome: Option<StageOutcome>) -> EncodeTraceStageStatus {
    if outcome == Some(StageOutcome::Failed) {
        EncodeTraceStageStatus::Failed
    } else {
        EncodeTraceStageStatus::Done
    }
}

pub fn stage_status_from_env(env: &EventEnvelope) -> (r: EncodeTraceStageStatus)
    ensures
        r == drained_status(env.stage_outcome),
{
    match env.stage_outcome {
        Some(StageOutcome::Failed) => EncodeTraceStageStatus::Failed,
        _ => EncodeTraceStageStatus::Done,
    }
}

/// What a drained stage made, in words.
pub open spec fn drained_detail(payload: Option<StagePayload>) -> Seq<char> {
    match payload {
        Some(StagePayload::Extractor(p)) => {
            let counts = "entities="@ + decimal(p.entity_count as nat) + " statements="@ + decimal(
                p.statement_count as nat,
            ) + " relations="@ + decimal(p.relation_count as nat) + " audit="@ + p.audit_status@;
            if p.error_message@.len() == 0 {
                counts
            } else {
                counts + " error="@ + p.error_message@
            }
        },
        Some(StagePayload::AutoEdge { edges_written }) => "edges="@ + decimal(
            edges_written as nat,
        ),
        Some(StagePayload::TemporalEdge { edges_written }) => "edges="@ + decimal(
            edges_written as nat,
        ),
        Some(StagePayload::Hype { questions_written }) => "questions="@ + decimal(
            questions_written as nat,
        ),
        None => Seq::empty(),
    }
}

fn counted(what: &str, n: u32) -> (r: String)
    ensures
        r@ == what@ + decimal(n as nat),
{
    let mut out = what.to_owned();
    push_decimal(&mut out, n as u64);
    out
}

pub fn stage_detail_from_env(env: &EventEnvelope) -> (r: String)
    ensures
        r@ == drained_detail(env.stage_payload),
{
    match &env.stage_payload {
        Some(StagePayload::Extractor(p)) => {
            let mut s = counted("entities=", p.entity_count);
            s.push_str(" statements=");
            push_decimal(&mut s, p.statement_count as u64);
            s.push_str(" relations=");
            push_decimal(&mut s, p.relation_count as u64);
            s.push_str(" audit=");
            s.push_str(&p.audit_status);
            if !p.error_message.as_str().is_empty() {
                s.push_str(" error=");
                s.push_str(&p.error_message);
            }
            s
        },
        Some(StagePayload::AutoEdge { edges_written }) => counted("edges=", *edges_written),
        Some(StagePayload::TemporalEdge { edges_written }) => counted("edges=", *edges_written),
        Some(StagePayload::Hype { questions_written }) => counted(
            "questions=",
            *questions_written,
        ),
        None => {
            let none = String::new();
            assert(none@ =~= Seq::empty());
            none
        },
    }
}

/// The stage that an event completes for a memory, if it does.
pub open spec fn completed_stage(env: EventEnvelope, memory_id: u128) -> Option<StageKind> {
    if env.event_type == EventType::StageCompleted && env.memory_id == memory_id {
        env.stage_kind
    } else {
        None
    }
}

/// The place of the first stage of a kind; the length where there is none.
pub open spec fn first_place(stages: Seq<StageKind>, kind: StageKind) -> int
    decreases stages.len(),
{
    if stages.len() == 0 || stages[0] == kind {
        0
    } else {
        1 + first_place(stages.skip(1), kind)
    }
}

/// The stages that are still waited for after an event: the first of the kind
/// that it completes is gone, and the others keep their order.
pub open spec fn left_after(remaining: Seq<StageKind>, memory_id: u128, env: EventEnvelope) -> Seq<
    StageKind,
> {
    match completed_stage(env, memory_id) {
        Some(kind) if remaining.contains(kind) => remaining.remove(first_place(remaining, kind)),
        _ => remaining,
    }
}

/// Whether a record is what an event adds to the trace while stages are waited
/// for.
pub open spec fn records(
    r: Option<EncodeTraceStage>,
    remaining: Seq<StageKind>,
    memory_id: u128,
    env: EventEnvelope,
    latency_us: u64,
) -> bool {
    match completed_stage(env, memory_id) {
        Some(kind) if remaining.contains(kind) => r matches Some(s) && reads(
            s,
            stage_name(kind),
            drained_status(env.stage_outcome),
            latency_us,
            drained_detail(env.stage_payload),
        ) && s.artifact is None,
        _ => r is None,
    }
}

/// Takes an event while a write waits for its stages: one that completes a
/// remaining stage of this memory is recorded and no longer waited for;
/// anything else is passed over.
pub fn drain_stage(
    remaining: &mut Vec<StageKind>,
    memory_id: u128,
    env: &EventEnvelope,
    latency_us: u64,
) -> (r: Option<EncodeTraceStage>)
    ensures
        records(r, old(remaining)@, memory_id, *env, latency_us),
        final(remaining)@ == left_after(old(remaining)@, memory_id, *env),
{
    if env.event_type != EventType::StageCompleted || env.memory_id != memory_id {
        return None;
    }
    let kind = match env.stage_kind {
        Some(k) => k,
        None => {
            return None;
        },
    };
    let n: usize = remaining.len();
    let mut at: usize = 0;
    assert(remaining@.skip(0) =~= remaining@);
    while at < n && remaining[at] != kind
        invariant
            n == remaining@.len(),
            at <= n,
            remaining@ == old(remaining)@,
            forall|k: int| 0 <= k < at ==> remaining@[k] != kind,
            first_place(remaining@, kind) == at + first_place(remaining@.skip(at as int), kind),
        decreases n - at,
    {
        assert(remaining@.skip(at as int).skip(1) =~= remaining@.skip(at + 1));
        at = at + 1;
    }
    if at == n {
        assert(!remaining@.contains(kind));
        return None;
    }
    assert(remaining@[at as int] == kind);
    assert(first_place(remaining@, kind) == at);
    remaining.remove(at);
    let detail = stage_detail_from_env(env);
    Some(stage(stage_kind_name(kind), stage_status_from_env(env), latency_us, detail, None))
}

/// An event takes at most one stage off the wait, of the kind that it
/// completes, so no stage is reported twice and none is lost.
pub proof fn events_complete_one_stage(
    remaining: Seq<StageKind>,
    memory_id: u128,
    env: EventEnvelope,
)
    ensures
        left_after(remaining, memory_id, env).to_multiset() == (match completed_stage(
            env,
            memory_id,
        ) {
            Some(kind) => remaining.to_multiset().remove(kind),
            None => remaining.to_multiset(),
        }),
{
    broadcast use vstd::seq_lib::group_to_multiset_ensures;

    if let Some(kind) = completed_stage(env, memory_id) {
        if remaining.contains(kind) {
            first_place_holds(remaining, kind);
        } else {
            assert(remaining.to_multiset().remove(kind) =~= remaining.to_multiset());
        }
    }
}

proof fn first_place_holds(stages: Seq<StageKind>, kind: StageKind)
    requires
        stages.contains(kind),
    ensures
        0 <= first_place(stages, kind) < stages.len(),
        stages[first_place(stages, kind)] == kind,
    decreases stages.len(),
{
    if stages[0] != kind {
        let k = choose|k: int| 0 <= k < stages.len() && stages[k] == kind;
        assert(stages.skip(1)[k - 1] == kind);
        first_place_holds(stages.skip(1), kind);
    }
}

/// Whether a stage says that it was not waited for.
pub open spec fn timed_out(s: EncodeTraceStage, kind: StageKind) -> bool {
    reads(
        s,
        stage_name(kind),
        EncodeTraceStageStatus::Timeout,
        0,
        "stage did not complete within the trace wait window"@,
    ) && s.artifact is None
}

/// Records the stages that were still open when the wait ended.
pub fn open_stages(remaining: &Vec<StageKind>) -> (r: Vec<EncodeTraceStage>)
    ensures
        are_open(r@, remaining@),
{
    let mut out: Vec<EncodeTraceStage> = Vec::new();
    for i in 0..remaining.len()
        invariant
            out@.len() == i,
            forall|k: int| 0 <= k < i ==> timed_out(#[trigger] out@[k], remaining@[k]),
    {
        out.push(
            stage(
                stage_kind_name(remaining[i]),
                EncodeTraceStageStatus::Timeout,
                0,
                "stage did not complete within the trace wait window".to_owned(),
                None,
            ),
        );
    }
    out
}

/// What a write that waits for its stages is woken by.
#[derive(Debug)]
pub enum DrainEvent {
    Received(EventEnvelope),
    Lagged,
    Closed,
    TimedOut,
}

/// Whether a write waits on, and what is added to its trace.
#[derive(Debug)]
pub enum DrainStep {
    Wait(Option<EncodeTraceStage>),
    Done(Vec<EncodeTraceStage>),
}

/// Whether stages are recorded as still open, in order.
pub open spec fn are_open(stages: Seq<EncodeTraceStage>, remaining: Seq<StageKind>) -> bool {
    stages.len() == remaining.len() && forall|i: int|
        0 <= i < stages.len() ==> timed_out(#[trigger] stages[i], remaining[i])
}

/// Whether a step waits for stages, without anything to add, if there are any.
pub open spec fn starts(r: DrainStep, remaining: Seq<StageKind>) -> bool {
    if remaining.len() == 0 {
        r matches DrainStep::Done(s) && s@.len() == 0
    } else {
        r == DrainStep::Wait(None)
    }
}

/// Starts the wait for stages: it is over at once where there are none.
pub fn drain_start(pending: &Vec<StageKind>) -> (r: DrainStep)
    ensures
        starts(r, pending@),
{
    if pending.len() == 0 {
        DrainStep::Done(Vec::new())
    } else {
        DrainStep::Wait(None)
    }
}

/// What one event does to the stages that are waited for.
pub open spec fn drains(
    before: Seq<StageKind>,
    after: Seq<StageKind>,
    memory_id: u128,
    event: DrainEvent,
    latency_us: u64,
    r: DrainStep,
) -> bool {
    match event {
        DrainEvent::Received(env) => {
            let left = left_after(before, memory_id, env);
            &&& after == left
            &&& left.len() > 0 ==> (r matches DrainStep::Wait(s) && records(
                s,
                before,
                memory_id,
                env,
                latency_us,
            ))
            &&& left.len() == 0 ==> (r matches DrainStep::Done(s) && s@.len() <= 1 && records(
                if s@.len() == 1 {
                    Some(s@[0])
                } else {
                    None
                },
                before,
                memory_id,
                env,
                latency_us,
            ))
        },
        DrainEvent::Lagged => after == before && starts(
            r,
            before,
        ),
        DrainEvent::Closed => after == before && (r matches DrainStep::Done(
            s,
        ) && are_open(s@, before)),
        DrainEvent::TimedOut => after == before && (
        r matches DrainStep::Done(s) && are_open(s@, before)),
    }
}

/// One step of the wait for stages. The wait is over as soon as the last stage
/// completes, when the bus closes, and when the window is over; the stages that
/// are open then are recorded as such. A lag is waited past.
pub fn drain_next(
    remaining: &mut Vec<StageKind>,
    memory_id: u128,
    event: DrainEvent,
    latency_us: u64,
) -> (r: DrainStep)
    ensures
        drains(old(remaining)@, final(remaining)@, memory_id, event, latency_us, r),
{
    match event {
        DrainEvent::Received(env) => {
            let done = drain_stage(remaining, memory_id, &env, latency_us);
            if remaining.len() > 0 {
                return DrainStep::Wait(done);
            }
            let mut last: Vec<EncodeTraceStage> = Vec::new();
            if let Some(s) = done {
                last.push(s);
            }
            DrainStep::Done(last)
        },
        DrainEvent::Lagged => drain_start(remaining),
        DrainEvent::Closed => DrainStep::Done(open_stages(remaining)),
        DrainEvent::TimedOut => DrainStep::Done(open_stages(remaining)),
    }
}

// Attaching what was derived.

/// The first stage of a name.
pub open spec fn is_first(stages: Seq<EncodeTraceStage>, name: Seq<char>, i: int) -> bool {
    &&& 0 <= i < stages.len()
    &&& stages[i].name@ == name
    &&& forall|k: int| 0 <= k < i ==> (#[trigger] stages[k]).name@ != name
}

/// Whether an index is that of a named stage.
pub open spec fn finds_stage(
    r: Option<usize>,
    stages: Vec<EncodeTraceStage>,
    name: Seq<char>,
) -> bool {
    match r {
        Some(i) => is_first(stages@, name, i as int),
        None => forall|k: int| 0 <= k < stages@.len() ==> (#[trigger] stages@[k]).name@ != name,
    }
}

/// Finds the first stage of a name.
pub fn find_stage(stages: &Vec<EncodeTraceStage>, name: &str) -> (r: Option<usize>)
    ensures
        finds_stage(r, *stages, name@),
{
    for i in 0..stages.len()
        invariant
            forall|k: int| 0 <= k < i ==> (#[trigger] stages@[k]).name@ != name@,
    {
        if same_text(&stages[i].name, name) {
            return Some(i);
        }
    }
    None
}

/// Whether two stages read alike.
pub open spec fn same_head(a: EncodeTraceStage, b: EncodeTraceStage) -> bool {
    a.name == b.name && a.status == b.status && a.latency_us == b.latency_us && a.detail
        == b.detail
}

/// Whether an artifact holds a graph and nothing else.
pub open spec fn holds_graph(a: Option<EncodeStageArtifact>, g: EncodeStageGraph) -> bool {
    a matches Some(x) && x.graph == Some(g) && x.vector@.len() == 0 && x.record is None
        && x.keyword_fields@.len() == 0 && x.hype_questions@.len() == 0
}

/// Whether an artifact holds questions and nothing else.
pub open spec fn holds_questions(a: Option<EncodeStageArtifact>, q: Vec<String>) -> bool {
    a matches Some(x) && x.hype_questions == q && x.graph is None && x.vector@.len() == 0
        && x.record is None && x.keyword_fields@.len() == 0
}

/// Whether an artifact holds keywords beside what it held before.
pub open spec fn gains_keywords(
    a: Option<EncodeStageArtifact>,
    before: Option<EncodeStageArtifact>,
    kw: Vec<String>,
) -> bool {
    a matches Some(x) && x.keyword_fields == kw && match before {
        Some(b) => x == (EncodeStageArtifact { keyword_fields: kw, ..b }),
        None => x.vector@.len() == 0 && x.record is None && x.graph is None
            && x.hype_questions@.len() == 0,
    }
}

/// What attaching does to a stage: the first extractor stage gets the graph,
/// the first persist stage the keywords, the first hype stage the questions;
/// empty lists change nothing.
pub open spec fn attached(
    before: Seq<EncodeTraceStage>,
    after: Seq<EncodeTraceStage>,
    i: int,
    graph: EncodeStageGraph,
    keywords: Vec<String>,
    questions: Vec<String>,
) -> bool {
    &&& same_head(after[i], before[i])
    &&& if is_first(before, "extractor"@, i) {
        holds_graph(after[i].artifact, graph)
    } else if is_first(before, "persist"@, i) && keywords@.len() > 0 {
        gains_keywords(after[i].artifact, before[i].artifact, keywords)
    } else if is_first(before, "hype"@, i) && questions@.len() > 0 {
        holds_questions(after[i].artifact, questions)
    } else {
        after[i].artifact == before[i].artifact
    }
}

proof fn names_differ()
    ensures
        "extractor"@ != "persist"@,
        "extractor"@ != "hype"@,
        "persist"@ != "hype"@,
{
    reveal_strlit("extractor");
    reveal_strlit("persist");
    reveal_strlit("hype");
    assert("extractor"@.len() == 9);
    assert("persist"@.len() == 7);
    assert("hype"@.len() == 4);
}

/// Whether the stages carry their artifacts.
pub open spec fn attaches_artifacts(
    r: Vec<EncodeTraceStage>,
    stages: Vec<EncodeTraceStage>,
    graph: EncodeStageGraph,
    keyword_fields: Vec<String>,
    hype_questions: Vec<String>,
) -> bool {
    &&& r@.len() == stages@.len()
    &&& (forall|i: int|
        0 <= i < r@.len() ==> #[trigger] attached(
            stages@,
            r@,
            i,
            graph,
            keyword_fields,
            hype_questions,
        ))
}

/// Attaches what a write derived to the stages that derived it.
pub fn attach_artifacts(
    stages: Vec<EncodeTraceStage>,
    graph: EncodeStageGraph,
    keyword_fields: Vec<String>,
    hype_questions: Vec<String>,
) -> (r: Vec<EncodeTraceStage>)
    ensures
        attaches_artifacts(r, stages, graph, keyword_fields, hype_questions),
{
    proof {
        names_differ();
    }
    let extractor = find_stage(&stages, "extractor");
    let persist = if keyword_fields.len() > 0 {
        find_stage(&stages, "persist")
    } else {
        None
    };
    let hype = if hype_questions.len() > 0 {
        find_stage(&stages, "hype")
    } else {
        None
    };
    let ghost before = stages@;
    let mut out = stages;
    match extractor {
        Some(i) => {
            let mut a = empty_artifact();
            a.graph = Some(graph);
            out[i].artifact = Some(a);
        },
        None => {},
    }
    match persist {
        Some(i) => {
            let mut a = match out[i].artifact.take() {
                Some(x) => x,
                None => empty_artifact(),
            };
            a.keyword_fields = keyword_fields;
            out[i].artifact = Some(a);
        },
        None => {},
    }
    match hype {
        Some(i) => {
            let mut a = empty_artifact();
            a.hype_questions = hype_questions;
            out[i].artifact = Some(a);
        },
        None => {},
    }
    proof {
        assert forall|i: int| 0 <= i < out@.len() implies #[trigger] attached(
            before,
            out@,
            i,
            graph,
            keyword_fields,
            hype_questions,
        ) by {
            if extractor is Some {
                assert(is_first(before, "extractor"@, i) ==> i == extractor->0);
            }
            if persist is Some {
                assert(is_first(before, "persist"@, i) ==> i == persist->0);
            }
            if hype is Some {
                assert(is_first(before, "hype"@, i) ==> i == hype->0);
            }
        }
    }
    out
}

} // verus!
