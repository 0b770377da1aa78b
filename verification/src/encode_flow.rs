//! The course of remembering a text: what is needed next, given what came back.
use vstd::prelude::*;

use crate::bytes::{copy_list, low32};
use crate::encode::{
    acked_memory, buffer_encode, buffered_response, content_hash, deduplicated_response,
    deduplicates, encode_response, is_memory_write, own_stages, pending_stages_of, plan_encode,
    reconstruct_encode_response, replay_conflict, replay_in_txn, replayed_memory, reports,
    BufferedEncode, BufferedRequest, CacheLookup, EncodePlace, EncodeRequest, EncodeResponse,
    WaitMode, WriteAck, DEFAULT_SALIENCE_BITS,
};
use crate::encode_graph::{
    edge_views, encode_artifacts_to_graph, graph_edges, graph_nodes, mints, node_views,
    EncodeStageGraph, EncodeTraceArtifacts, EncodeTraceStageStatus, LiteralId,
};
use crate::encode_trace::{
    attach_artifacts, attached, embed_stage, persist_stage, reads, reserve_stage, validate_stage,
    EncodeStageRecord, EncodeTrace, EncodeTraceStage, PersistedRow,
};
use crate::error::{writer_err, ErrorView, ExecError, OpError, WriterError};
use crate::events::{MemoryKind, StageKind};
use crate::hash::blake3_digest;
use crate::scope::RowScope;
use crate::single::Single;
use crate::text::{decimal, hex};
use crate::write::Write;

verus! {

/// What is fixed for one call. `request_hash` is the digest of the request.
#[derive(Debug)]
pub struct EncodeCall {
    pub req: EncodeRequest,
    pub place: EncodePlace,
    pub caller: RowScope,
    pub space_string: Option<String>,
    pub request_hash: [u8; 32],
}

impl EncodeCall {
    /// Whether the caller waits for everything that is derived, and so gets a
    /// trace.
    pub open spec fn traced(self) -> bool {
        self.req.wait == WaitMode::Derived
    }

    pub fn is_traced(&self) -> (r: bool)
        ensures
            r == self.traced(),
    {
        match self.req.wait {
            WaitMode::Derived => true,
            WaitMode::Acked => false,
        }
    }
}

/// How far a call has come: the stages it passed, where it is traced, and what
/// they made.
#[derive(Debug)]
pub struct EncodeRun {
    pub stages: Vec<EncodeTraceStage>,
    pub vector: Vec<Single>,
    pub memory_id: u128,
    pub created_at_unix_nanos: u64,
}

impl EncodeRun {
    /// A call that has not begun.
    pub fn new() -> (r: EncodeRun)
        ensures
            r.stages@.len() == 0,
            r.vector@.len() == 0,
            r.memory_id == 0,
            r.created_at_unix_nanos == 0,
    {
        EncodeRun {
            stages: Vec::new(),
            vector: Vec::new(),
            memory_id: 0,
            created_at_unix_nanos: 0,
        }
    }
}

/// What a call needs next.
#[derive(Debug)]
pub enum EncodeNeed {
    /// To go on inside a transaction.
    Transaction([u8; 16]),
    /// The planner's check of the request.
    Validation,
    /// What is remembered of the request id.
    Remembered,
    /// When the memory of a replay was made.
    Created { ack: WriteAck, memory_id: u128 },
    /// The embedding of the text.
    Embedding,
    /// The memory that holds the same text, if any.
    Duplicate { content_hash: [u8; 32] },
    /// A fresh memory id with its slot.
    Reservation,
    /// The write to be submitted.
    Submission(Write),
    /// The stages of the write to finish, and what they derived.
    Derivation { ack: WriteAck, pending: Vec<StageKind> },
    /// Nothing: the answer.
    Answer(Result<EncodeResponse, OpError>),
}

/// What came back.
#[derive(Debug)]
pub enum EncodeRead {
    Validation(Result<(), OpError>),
    Remembered(CacheLookup),
    Created { ack: WriteAck, created_at: Result<Option<u64>, OpError> },
    Embedding(Result<Vec<Single>, String>),
    Duplicate(Result<Option<u128>, OpError>),
    Reservation(Result<(u128, u64), WriterError>),
    Submission(Result<WriteAck, WriterError>),
}

/// What an encode asks for first.
pub open spec fn starts_encode(
    r: EncodeNeed,
    req: EncodeRequest,
) -> bool {
    r == (match req.txn_id {
        Some(txn) => EncodeNeed::Transaction(txn),
        None => EncodeNeed::Validation,
    })
}

/// The first need of a call.
pub fn encode_start(req: &EncodeRequest) -> (r: EncodeNeed)
    ensures
        starts_encode(r, *req),
{
    match req.txn_id {
        Some(txn) => EncodeNeed::Transaction(txn),
        None => EncodeNeed::Validation,
    }
}

/// Whether a call that is traced gained a stage, and one that is not gained
/// none.
pub open spec fn passes_stage(
    before: Seq<EncodeTraceStage>,
    after: Seq<EncodeTraceStage>,
    traced: bool,
    name: Seq<char>,
    latency_us: u64,
    detail: Seq<char>,
) -> bool {
    if traced {
        &&& after.len() == before.len() + 1
        &&& after.drop_last() == before
        &&& reads(after.last(), name, EncodeTraceStageStatus::Done, latency_us, detail)
    } else {
        after == before
    }
}

/// Whether only the stages of a call changed.
pub open spec fn keeps_rest(before: EncodeRun, after: EncodeRun) -> bool {
    &&& after.vector == before.vector
    &&& after.memory_id == before.memory_id
    &&& after.created_at_unix_nanos == before.created_at_unix_nanos
}

/// Whether a need is the answer with an error.
pub open spec fn refuses(need: EncodeNeed, e: ErrorView) -> bool {
    need matches EncodeNeed::Answer(Err(x)) && x@ == e
}

/// The row that a traced write reports.
pub open spec fn is_persisted(
    rec: EncodeStageRecord,
    call: EncodeCall,
    run: EncodeRun,
    ack: WriteAck,
) -> bool {
    &&& rec.memory_id@ == crate::bytes::be_bytes(run.memory_id as nat, 16)
    &&& rec.kind == 0
    &&& rec.salience == (Single { bits: DEFAULT_SALIENCE_BITS })
    &&& rec.created_at_unix_nanos == run.created_at_unix_nanos
    &&& rec.occurred_at_unix_nanos == (match call.req.occurred_at_unix_nanos {
        Some(t) => t,
        None => 0,
    })
    &&& rec.vector_dim == low32(run.vector@.len())
    &&& rec.text_len == low32(vstd::utf8::encode_utf8(call.req.text@).len())
    &&& rec.lsn == ack.lsn_first
}

/// What follows the planner's check.
pub open spec fn after_validation(
    call: EncodeCall,
    before: EncodeRun,
    checked: Result<(), OpError>,
    latency_us: u64,
    after: EncodeRun,
    need: EncodeNeed,
) -> bool {
    match checked {
        Err(e) => after == before && need == EncodeNeed::Answer(Err(e)),
        Ok(()) => {
            &&& need == EncodeNeed::Remembered
            &&& keeps_rest(before, after)
            &&& passes_stage(
                before.stages@,
                after.stages@,
                call.traced(),
                "validate"@,
                latency_us,
                Seq::empty(),
            )
            &&& call.traced() ==> after.stages@.last().artifact is None
        },
    }
}

/// What follows the lookup of the request id: a replay is never embedded.
pub open spec fn after_lookup(call: EncodeCall, found: CacheLookup, need: EncodeNeed) -> bool {
    match found {
        CacheLookup::Miss => need == EncodeNeed::Embedding,
        CacheLookup::Conflict => refuses(
            need,
            ErrorView::Conflict(
                "encode request_id replay with different params: request_id="@ + hex(
                    call.req.request_id@.take(4),
                ),
            ),
        ),
        CacheLookup::Hit(ack) => match acked_memory(ack) {
            Some(id) => need == (EncodeNeed::Created { ack, memory_id: id }),
            None => refuses(
                need,
                ErrorView::Internal(
                    "idempotency cache hit but phase_acks[0] is not UpsertedMemory"@,
                ),
            ),
        },
    }
}

/// What follows the embedding.
pub open spec fn after_embedding(
    call: EncodeCall,
    before: EncodeRun,
    embedded: Result<Vec<Single>, String>,
    latency_us: u64,
    after: EncodeRun,
    need: EncodeNeed,
) -> bool {
    match embedded {
        Err(e) => after == before && need == EncodeNeed::Answer(
            Err(OpError::ExecError(ExecError::EmbedFailed(e))),
        ),
        Ok(v) => {
            &&& after.vector@ == v@
            &&& after.memory_id == before.memory_id
            &&& after.created_at_unix_nanos == before.created_at_unix_nanos
            &&& passes_stage(
                before.stages@,
                after.stages@,
                call.traced(),
                "embed"@,
                latency_us,
                "dim="@ + decimal(v@.len()),
            )
            &&& call.traced() ==> (after.stages@.last().artifact matches Some(a) && a.vector@ == v@
                && a.record is None && a.graph is None && a.keyword_fields@.len() == 0
                && a.hype_questions@.len() == 0)
            &&& if deduplicates(call.req) {
                need matches EncodeNeed::Duplicate { content_hash } && content_hash@
                    == blake3_digest(vstd::utf8::encode_utf8(call.req.text@))
            } else {
                need == EncodeNeed::Reservation
            }
        },
    }
}

/// What follows the search for the same text.
pub open spec fn after_duplicate(
    call: EncodeCall,
    found: Result<Option<u128>, OpError>,
    need: EncodeNeed,
) -> bool {
    match found {
        Err(e) => need == EncodeNeed::Answer(Err(e)),
        Ok(None) => need == EncodeNeed::Reservation,
        Ok(Some(existing)) => need matches EncodeNeed::Answer(Ok(out)) && out.trace is None
            && reports(out, call.req, call.place, existing, true, 0, 0, 0, Seq::empty()),
    }
}

/// What follows the reservation.
pub open spec fn after_reservation(
    call: EncodeCall,
    before: EncodeRun,
    reserved: Result<(u128, u64), WriterError>,
    latency_us: u64,
    now: u64,
    after: EncodeRun,
    need: EncodeNeed,
) -> bool {
    match reserved {
        Err(e) => after == before && need == EncodeNeed::Answer(
            Err(OpError::ExecError(ExecError::WriterFailed(e))),
        ),
        Ok((id, slot)) => {
            &&& after.memory_id == id
            &&& after.created_at_unix_nanos == now
            &&& after.vector == before.vector
            &&& passes_stage(
                before.stages@,
                after.stages@,
                call.traced(),
                "reserve"@,
                latency_us,
                "memory_id="@ + decimal(id as nat),
            )
            &&& call.traced() ==> after.stages@.last().artifact is None
            &&& need matches EncodeNeed::Submission(w) && is_memory_write(
                w,
                call.req,
                call.place,
                call.caller,
                call.space_string,
                call.request_hash,
                id,
                slot,
                before.vector@,
                now,
            )
        },
    }
}

/// What follows the submission.
pub open spec fn after_submission(
    call: EncodeCall,
    before: EncodeRun,
    submitted: Result<WriteAck, WriterError>,
    latency_us: u64,
    after: EncodeRun,
    need: EncodeNeed,
) -> bool {
    match submitted {
        Err(e) => after == before && need == EncodeNeed::Answer(
            Err(OpError::ExecError(ExecError::WriterFailed(e))),
        ),
        Ok(ack) => {
            &&& keeps_rest(before, after)
            &&& passes_stage(
                before.stages@,
                after.stages@,
                call.traced(),
                "persist"@,
                latency_us,
                "lsn="@ + decimal(ack.lsn_first as nat),
            )
            &&& if call.traced() {
                &&& after.stages@.last().artifact matches Some(a) && a.vector@.len() == 0
                    && a.graph is None && a.keyword_fields@.len() == 0 && a.hype_questions@.len()
                    == 0 && (a.record matches Some(rec) && is_persisted(
                    rec,
                    call,
                    before,
                    ack,
                ))
                &&& need matches EncodeNeed::Derivation { ack: kept, pending } && kept == ack
                    && pending@ == own_stages(ack.pending_stages@, before.memory_id)
            } else {
                need matches EncodeNeed::Answer(Ok(out)) && out.trace is None && reports(
                    out,
                    call.req,
                    call.place,
                    before.memory_id,
                    false,
                    0,
                    ack.lsn_first,
                    before.created_at_unix_nanos,
                    own_stages(ack.pending_stages@, before.memory_id),
                )
            }
        },
    }
}

/// What a call needs after something came back. `latency_us` is how long that
/// took.
pub open spec fn encode_follows(
    call: EncodeCall,
    before: EncodeRun,
    read: EncodeRead,
    latency_us: u64,
    now: u64,
    after: EncodeRun,
    need: EncodeNeed,
) -> bool {
    match read {
        EncodeRead::Validation(c) => after_validation(call, before, c, latency_us, after, need),
        EncodeRead::Remembered(f) => after == before && after_lookup(call, f, need),
        EncodeRead::Created { ack, created_at } => {
            &&& after == before
            &&& match acked_memory(ack) {
                Some(id) => match created_at {
                    Err(e) => need == EncodeNeed::Answer(Err(e)),
                    Ok(at) => need matches EncodeNeed::Answer(Ok(out)) && out.trace is None
                        && reports(
                        out,
                        call.req,
                        call.place,
                        id,
                        false,
                        low32(crate::encode::linked(ack.phase_acks@)),
                        ack.lsn_first,
                        match at {
                            Some(t) => t,
                            None => 0,
                        },
                        own_stages(ack.pending_stages@, id),
                    ),
                },
                None => refuses(
                    need,
                    ErrorView::Internal(
                        "idempotency cache hit but phase_acks[0] is not UpsertedMemory"@,
                    ),
                ),
            }
        },
        EncodeRead::Embedding(v) => after_embedding(call, before, v, latency_us, after, need),
        EncodeRead::Duplicate(f) => after == before && after_duplicate(call, f, need),
        EncodeRead::Reservation(s) => after_reservation(
            call,
            before,
            s,
            latency_us,
            now,
            after,
            need,
        ),
        EncodeRead::Submission(a) => after_submission(call, before, a, latency_us, after, need),
    }
}

/// Takes what came back and says what is needed next.
pub fn encode_next(
    call: &EncodeCall,
    run: &mut EncodeRun,
    read: EncodeRead,
    latency_us: u64,
    now: u64,
) -> (r: EncodeNeed)
    ensures
        encode_follows(*call, *old(run), read, latency_us, now, *final(run), r),
{
    let traced = call.is_traced();
    match read {
        EncodeRead::Validation(checked) => match checked {
            Err(e) => EncodeNeed::Answer(Err(e)),
            Ok(()) => {
                if traced {
                    run.stages.push(validate_stage(latency_us));
                    assert(run.stages@.drop_last() =~= old(run).stages@);
                }
                EncodeNeed::Remembered
            },
        },
        EncodeRead::Remembered(found) => match found {
            CacheLookup::Miss => EncodeNeed::Embedding,
            CacheLookup::Conflict => EncodeNeed::Answer(Err(replay_conflict(&call.req))),
            CacheLookup::Hit(ack) => match replayed_memory(&ack) {
                Some(memory_id) => EncodeNeed::Created { ack, memory_id },
                None => EncodeNeed::Answer(
                    reconstruct_encode_response(&call.req, &ack, None, &call.place),
                ),
            },
        },
        EncodeRead::Created { ack, created_at } => {
            let at = match created_at {
                Ok(at) => at,
                Err(e) => {
                    if replayed_memory(&ack).is_some() {
                        return EncodeNeed::Answer(Err(e));
                    }
                    None
                },
            };
            EncodeNeed::Answer(reconstruct_encode_response(&call.req, &ack, at, &call.place))
        },
        EncodeRead::Embedding(embedded) => match embedded {
            Err(e) => EncodeNeed::Answer(Err(OpError::ExecError(ExecError::EmbedFailed(e)))),
            Ok(vector) => {
                if traced {
                    run.stages.push(embed_stage(copy_list(&vector), latency_us));
                    assert(run.stages@.drop_last() =~= old(run).stages@);
                }
                run.vector = vector;
                if call.req.allow_duplicates {
                    EncodeNeed::Reservation
                } else {
                    EncodeNeed::Duplicate { content_hash: content_hash(&call.req.text) }
                }
            },
        },
        EncodeRead::Duplicate(found) => match found {
            Err(e) => EncodeNeed::Answer(Err(e)),
            Ok(None) => EncodeNeed::Reservation,
            Ok(Some(existing)) => EncodeNeed::Answer(
                Ok(deduplicated_response(&call.req, existing, &call.place)),
            ),
        },
        EncodeRead::Reservation(reserved) => match reserved {
            Err(e) => EncodeNeed::Answer(Err(writer_err(e))),
            Ok((memory_id, slot)) => {
                if traced {
                    run.stages.push(reserve_stage(memory_id, latency_us));
                    assert(run.stages@.drop_last() =~= old(run).stages@);
                }
                run.memory_id = memory_id;
                run.created_at_unix_nanos = now;
                let vector = copy_list(&run.vector);
                let space_string = match &call.space_string {
                    Some(s) => Some(s.clone()),
                    None => None,
                };
                EncodeNeed::Submission(
                    plan_encode(
                        &call.req,
                        &call.place,
                        &call.caller,
                        space_string,
                        call.request_hash,
                        memory_id,
                        slot,
                        vector,
                        now,
                    ),
                )
            },
        },
        EncodeRead::Submission(submitted) => match submitted {
            Err(e) => EncodeNeed::Answer(Err(writer_err(e))),
            Ok(ack) => {
                if traced {
                    let row = PersistedRow {
                        memory_id: run.memory_id,
                        salience: Single { bits: DEFAULT_SALIENCE_BITS },
                        created_at_unix_nanos: run.created_at_unix_nanos,
                        occurred_at_unix_nanos: call.req.occurred_at_unix_nanos,
                        vector_dim: run.vector.len(),
                        text_len: call.req.text.as_str().as_bytes().len(),
                        lsn: ack.lsn_first,
                    };
                    run.stages.push(persist_stage(&row, latency_us));
                    assert(run.stages@.drop_last() =~= old(run).stages@);
                    let pending = pending_stages_of(&ack.pending_stages, run.memory_id);
                    EncodeNeed::Derivation { ack, pending }
                } else {
                    EncodeNeed::Answer(
                        Ok(
                            encode_response(
                                &call.req,
                                &ack,
                                run.memory_id,
                                run.created_at_unix_nanos,
                                &call.place,
                                None,
                            ),
                        ),
                    )
                }
            },
        },
    }
}

/// What was derived from a write: the stages that finished or timed out, and
/// the artifacts they left.
#[derive(Debug)]
pub struct Derived {
    pub stages: Vec<EncodeTraceStage>,
    pub artifacts: EncodeTraceArtifacts,
    pub keyword_fields: Vec<String>,
    pub hype_questions: Vec<String>,
    pub total_latency_us: u64,
}

/// Whether a trace is made of a call's own stages and what was derived, with
/// `graph` as the derived graph.
pub open spec fn is_encode_trace(
    t: EncodeTrace,
    own: Seq<EncodeTraceStage>,
    derived: Derived,
    graph: EncodeStageGraph,
) -> bool {
    let stages = own + derived.stages@;
    &&& t.stages@.len() == stages.len()
    &&& forall|i: int|
        0 <= i < t.stages@.len() ==> #[trigger] attached(
            stages,
            t.stages@,
            i,
            graph,
            derived.keyword_fields,
            derived.hype_questions,
        )
    &&& t.artifacts == derived.artifacts
    &&& t.total_latency_us == derived.total_latency_us
}

/// Answers a traced call once its derivation is done. `literal_node_id` mints
/// the ids of literal nodes in the derived graph.
pub fn encode_traced<F: Fn([u8; 16], &str, &str) -> [u8; 16]>(
    call: &EncodeCall,
    run: EncodeRun,
    ack: &WriteAck,
    derived: Derived,
    literal_node_id: &F,
) -> (r: EncodeResponse)
    requires
        forall|s: [u8; 16], p: &str, o: &str| #[trigger]
            call_requires(*literal_node_id, (s, p, o)),
    ensures
        reports(
            r,
            call.req,
            call.place,
            run.memory_id,
            false,
            0,
            ack.lsn_first,
            run.created_at_unix_nanos,
            own_stages(ack.pending_stages@, run.memory_id),
        ),
        r.trace matches Some(t) && exists|graph: EncodeStageGraph|
            {
                &&& #[trigger] is_encode_trace(t, run.stages@, derived, graph)
                &&& forall|lit: LiteralId| #[trigger]
                    mints(*literal_node_id, lit) ==> node_views(graph.nodes@) == graph_nodes(
                        derived.artifacts,
                        lit,
                    ) && edge_views(graph.edges@) == graph_edges(derived.artifacts, lit)
            },
{
    let ghost given = derived;
    let graph = encode_artifacts_to_graph(&derived.artifacts, literal_node_id);
    let ghost drawn = graph;
    let ghost own = run.stages@;
    let mut stages = run.stages;
    let mut drained = derived.stages;
    stages.append(&mut drained);
    assert(stages@ =~= own + given.stages@);
    let attached_stages = attach_artifacts(
        stages,
        graph,
        derived.keyword_fields,
        derived.hype_questions,
    );
    let trace = EncodeTrace {
        stages: attached_stages,
        artifacts: derived.artifacts,
        total_latency_us: derived.total_latency_us,
    };
    assert(is_encode_trace(trace, own, given, drawn));
    encode_response(
        &call.req,
        ack,
        run.memory_id,
        run.created_at_unix_nanos,
        &call.place,
        Some(trace),
    )
}

/// A write is submitted only under a reserved id: never for a replay, a
/// duplicate or a refused request.
pub proof fn only_reserved_memories_are_written(
    call: EncodeCall,
    before: EncodeRun,
    read: EncodeRead,
    latency_us: u64,
    now: u64,
    after: EncodeRun,
    need: EncodeNeed,
)
    requires
        encode_follows(call, before, read, latency_us, now, after, need),
        need is Submission,
    ensures
        read matches EncodeRead::Reservation(Ok((id, _))) && after.memory_id == id,
{
}

/// A call that is not traced records nothing and waits for nothing derived.
pub proof fn untraced_calls_record_nothing(
    call: EncodeCall,
    before: EncodeRun,
    read: EncodeRead,
    latency_us: u64,
    now: u64,
    after: EncodeRun,
    need: EncodeNeed,
)
    requires
        encode_follows(call, before, read, latency_us, now, after, need),
        !call.traced(),
    ensures
        after.stages@ == before.stages@,
        need !is Derivation,
{
}

// Inside a transaction.

/// What a call inside a transaction needs next.
#[derive(Debug)]
pub enum TxnNeed {
    /// That the transaction is active.
    Active,
    /// What the transaction remembers of the request id.
    Prior,
    /// That the buffer has room.
    Capacity,
    Embedding,
    Reservation,
    /// The memory to be buffered.
    Buffer(BufferedEncode),
    Answer(Result<EncodeResponse, OpError>),
}

/// What came back inside a transaction.
#[derive(Debug)]
pub enum TxnRead {
    Validation(Result<(), OpError>),
    Active(Result<(), OpError>),
    Prior(Result<Option<BufferedRequest>, OpError>),
    Capacity(Result<(), OpError>),
    Embedding(Result<Vec<Single>, String>),
    Reservation(Result<u128, WriterError>),
    Buffered(Result<(), OpError>),
}

/// What a call inside a transaction needs after a check: the answer where it
/// failed.
pub open spec fn after_check(checked: Result<(), OpError>, then_needs: TxnNeed, need: TxnNeed) -> bool {
    match checked {
        Err(e) => need == TxnNeed::Answer(Err(e)),
        Ok(()) => need == then_needs,
    }
}

/// What a call inside a transaction needs after something came back. A replay
/// is answered from the buffer, whether or not that is full.
pub open spec fn txn_follows(
    call: EncodeCall,
    txn_id: [u8; 16],
    before: EncodeRun,
    read: TxnRead,
    now: u64,
    after: EncodeRun,
    need: TxnNeed,
) -> bool {
    match read {
        TxnRead::Validation(c) => after == before && after_check(c, TxnNeed::Active, need),
        TxnRead::Active(c) => after == before && after_check(c, TxnNeed::Prior, need),
        TxnRead::Prior(prior) => {
            &&& after == before
            &&& match prior {
                Err(e) => need == TxnNeed::Answer(Err(e)),
                Ok(None) => need == TxnNeed::Capacity,
                Ok(Some(p)) => if p.request_hash@ != call.request_hash@ {
                    need matches TxnNeed::Answer(Err(x)) && x@ == ErrorView::Conflict(
                        "encode in-txn request_id replay with different params: txn="@ + hex(
                            txn_id@.take(4),
                        ),
                    )
                } else {
                    match p.memory_id {
                        Some(id) => need matches TxnNeed::Answer(Ok(out)) && out.trace is None
                            && reports(
                            out,
                            call.req,
                            call.place,
                            id,
                            false,
                            0,
                            0,
                            0,
                            Seq::empty(),
                        ),
                        None => need == TxnNeed::Capacity,
                    }
                },
            }
        },
        TxnRead::Capacity(c) => after == before && after_check(c, TxnNeed::Embedding, need),
        TxnRead::Embedding(embedded) => match embedded {
            Err(e) => after == before && need == TxnNeed::Answer(
                Err(OpError::ExecError(ExecError::EmbedFailed(e))),
            ),
            Ok(v) => {
                &&& after == (EncodeRun { vector: v, ..before })
                &&& need == TxnNeed::Reservation
            },
        },
        TxnRead::Reservation(reserved) => match reserved {
            Err(e) => after == before && need == TxnNeed::Answer(
                Err(OpError::ExecError(ExecError::WriterFailed(e))),
            ),
            Ok(id) => {
                &&& after == (EncodeRun { memory_id: id, created_at_unix_nanos: now, ..before })
                &&& need matches TxnNeed::Buffer(b) && is_buffered(b, call, id, before.vector@, now)
            },
        },
        TxnRead::Buffered(c) => {
            &&& after == before
            &&& match c {
                Err(e) => need == TxnNeed::Answer(Err(e)),
                Ok(()) => need matches TxnNeed::Answer(Ok(out)) && out.trace is None && reports(
                    out,
                    call.req,
                    call.place,
                    before.memory_id,
                    false,
                    0,
                    0,
                    before.created_at_unix_nanos,
                    Seq::empty(),
                ),
            }
        },
    }
}

/// Whether a buffered memory is a call's own.
pub open spec fn is_buffered(
    b: BufferedEncode,
    call: EncodeCall,
    memory_id: u128,
    vector: Seq<Single>,
    now: u64,
) -> bool {
    &&& b.memory_id == memory_id
    &&& b.namespace_id == call.caller.namespace_id
    &&& b.text == call.req.text
    &&& b.text_len == low32(vstd::utf8::encode_utf8(call.req.text@).len())
    &&& b.vector@ == vector
    &&& b.kind == MemoryKind::Episodic
    &&& b.salience_initial == (Single { bits: DEFAULT_SALIENCE_BITS })
    &&& b.session_id == call.req.session_id
    &&& b.request_id == call.req.request_id
    &&& b.request_hash == call.request_hash
    &&& b.created_at_unix_nanos == now
    &&& b.occurred_at_unix_nanos == call.req.occurred_at_unix_nanos
    &&& b.space_id == call.place.space_id
    &&& b.fingerprint == call.place.embedding_model_fp
}

fn check_then(checked: Result<(), OpError>, then_needs: TxnNeed) -> (r: TxnNeed)
    ensures
        after_check(checked, then_needs, r),
{
    match checked {
        Err(e) => TxnNeed::Answer(Err(e)),
        Ok(()) => then_needs,
    }
}

/// Takes what came back inside a transaction and says what is needed next. The
/// first need is the planner's check.
pub fn encode_txn_next(
    call: &EncodeCall,
    txn_id: &[u8; 16],
    run: &mut EncodeRun,
    read: TxnRead,
    now: u64,
) -> (r: TxnNeed)
    ensures
        txn_follows(*call, *txn_id, *old(run), read, now, *final(run), r),
{
    match read {
        TxnRead::Validation(c) => check_then(c, TxnNeed::Active),
        TxnRead::Active(c) => check_then(c, TxnNeed::Prior),
        TxnRead::Prior(read) => {
            let prior = match read {
                Ok(p) => p,
                Err(e) => {
                    return TxnNeed::Answer(Err(e));
                },
            };
            match replay_in_txn(prior.as_ref(), &call.request_hash, txn_id) {
                Err(e) => TxnNeed::Answer(Err(e)),
                Ok(None) => TxnNeed::Capacity,
                Ok(Some(id)) => TxnNeed::Answer(
                    Ok(buffered_response(&call.req, id, 0, &call.place)),
                ),
            }
        },
        TxnRead::Capacity(c) => check_then(c, TxnNeed::Embedding),
        TxnRead::Embedding(embedded) => match embedded {
            Err(e) => TxnNeed::Answer(Err(OpError::ExecError(ExecError::EmbedFailed(e)))),
            Ok(vector) => {
                run.vector = vector;
                TxnNeed::Reservation
            },
        },
        TxnRead::Reservation(reserved) => match reserved {
            Err(e) => TxnNeed::Answer(Err(writer_err(e))),
            Ok(id) => {
                run.memory_id = id;
                run.created_at_unix_nanos = now;
                let vector = copy_list(&run.vector);
                TxnNeed::Buffer(
                    buffer_encode(
                        &call.req,
                        &call.place,
                        call.caller.namespace_id,
                        call.request_hash,
                        id,
                        vector,
                        now,
                    ),
                )
            },
        },
        TxnRead::Buffered(c) => match c {
            Err(e) => TxnNeed::Answer(Err(e)),
            Ok(()) => TxnNeed::Answer(
                Ok(
                    buffered_response(
                        &call.req,
                        run.memory_id,
                        run.created_at_unix_nanos,
                        &call.place,
                    ),
                ),
            ),
        },
    }
}

} // verus!
