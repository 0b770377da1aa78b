//! Remembering a text: the decisions of the write router, and the trace of a
//! write.
use vstd::prelude::*;

use crate::bytes::{eq_bytes, length_u32, low32};
use crate::encode_trace::EncodeTrace;
use crate::error::{fails, ErrorView, OpError};
use crate::events::{MemoryKind, StageKind, WalEdge};
use crate::hash::{blake3_digest, blake3_hash};
use crate::scope::RowScope;
use crate::single::Single;
use crate::text::{hex, hex_text, join2};
use crate::write::{Phase, PhaseAck, Write, WriteId};

verus! {

/// The salience of every remembered text: 0.5.
pub const DEFAULT_SALIENCE_BITS: u32 = 0x3F00_0000;

/// How a caller waits: for the durable acknowledgement, or for everything that
/// is derived as well.
#[derive(Clone, Copy, Debug, PartialEq, Eq, Structural)]
pub enum WaitMode {
    Acked,
    Derived,
}

#[derive(Debug)]
pub struct EncodeRequest {
    pub text: String,
    pub session_id: u64,
    pub request_id: [u8; 16],
    pub txn_id: Option<[u8; 16]>,
    pub occurred_at_unix_nanos: Option<u64>,
    pub allow_duplicates: bool,
    pub wait: WaitMode,
}

// Clocks.

/// `std::time::SystemTime::elapsed` on `UNIX_EPOCH`: the nanoseconds since
/// then, or none where the clock stands before it. The clock decides, so
/// nothing is promised of the number.
#[verifier::external_body]
fn since_unix_epoch() -> (r: Option<u128>) {
    std::time::SystemTime::UNIX_EPOCH.elapsed().ok().map(|d| d.as_nanos())
}

/// The stamp of a time since the epoch.
pub open spec fn stamps(
    r: u64,
    since_epoch: Option<u128>,
) -> bool {
    r as int == (match since_epoch {
        None => 0,
        Some(n) => if n > u64::MAX {
            u64::MAX as int
        } else {
            n as int
        },
    })
}

/// A count of nanoseconds as a time stamp: 0 where the clock stands before the
/// epoch, and never past the end of time.
pub fn stamp_of(since_epoch: Option<u128>) -> (r: u64)
    ensures
        stamps(r, since_epoch),
{
    match since_epoch {
        Some(n) => if n > u64::MAX as u128 {
            u64::MAX
        } else {
            n as u64
        },
        None => 0,
    }
}

/// The time, in nanoseconds since the epoch.
pub fn now_unix_nanos() -> (r: u64) {
    stamp_of(since_unix_epoch())
}

/// The microseconds that a trace shows.
pub open spec fn counts_micros(
    r: u64,
    micros: u128,
) -> bool {
    r as int == (if micros > u64::MAX {
        u64::MAX as int
    } else {
        micros as int
    })
}

/// A duration in microseconds, at most what the trace can hold.
pub fn elapsed_us(micros: u128) -> (r: u64)
    ensures
        counts_micros(r, micros),
{
    if micros > u64::MAX as u128 {
        u64::MAX
    } else {
        micros as u64
    }
}

// Texts.

/// The first four bytes of an id, in hex.
pub fn hex_short(bytes: &[u8; 16]) -> (r: String)
    ensures
        r@ == hex(bytes@.take(4)),
{
    let mut head: Vec<u8> = Vec::new();
    for i in 0..4usize
        invariant
            head@ == bytes@.take(i as int),
    {
        head.push(bytes[i]);
        assert(bytes@.take(i + 1) =~= bytes@.take(i as int).push(bytes@[i as int]));
    }
    hex_text(head.as_slice())
}

/// The digest of a text's bytes: what duplicates are told by.
pub fn content_hash(text: &str) -> (r: [u8; 32])
    ensures
        r@ == blake3_digest(vstd::utf8::encode_utf8(text@)),
{
    blake3_hash(text.as_bytes())
}

// The response.

/// A stage that is still to run for a memory.
#[derive(Clone, Copy, Debug, PartialEq, Eq)]
pub struct PendingStage {
    pub memory_id: u128,
    pub stage_kind: StageKind,
}

/// Which pending stages are a memory's own.
pub open spec fn own_stage(memory_id: u128) -> spec_fn(PendingStage) -> bool {
    |s: PendingStage| s.memory_id == memory_id
}

/// The pending stages of a memory, in order.
pub open spec fn own_stages(pending: Seq<PendingStage>, memory_id: u128) -> Seq<StageKind> {
    pending.filter(own_stage(memory_id)).map_values(|s: PendingStage| s.stage_kind)
}

/// The pending stages of a memory, in order.
pub fn pending_stages_of(pending: &Vec<PendingStage>, memory_id: u128) -> (r: Vec<StageKind>)
    ensures
        r@ == own_stages(pending@, memory_id),
{
    let mut out: Vec<StageKind> = Vec::new();
    let ghost keep = own_stage(memory_id);
    let ghost kind = |s: PendingStage| s.stage_kind;
    assert(pending@.take(0).filter(keep) =~= Seq::empty()) by {
        reveal(Seq::filter);
    }
    for i in 0..pending.len()
        invariant
            keep == own_stage(memory_id),
            kind == (|s: PendingStage| s.stage_kind),
            out@ == pending@.take(i as int).filter(keep).map_values(kind),
    {
        let s = pending[i];
        let ghost before = pending@.take(i as int).filter(keep);
        proof {
            assert(pending@.take(i + 1).drop_last() =~= pending@.take(i as int));
            assert(pending@.take(i + 1).filter(keep) == if keep(s) {
                before.push(s)
            } else {
                before
            }) by {
                reveal(Seq::filter);
            }
        }
        if s.memory_id == memory_id {
            out.push(s.stage_kind);
            assert(before.push(s).map_values(kind) =~= before.map_values(kind).push(s.stage_kind));
        }
    }
    assert(pending@.take(pending@.len() as int) =~= pending@);
    out
}

#[derive(Debug)]
pub struct EncodeResponse {
    pub memory_id: u128,
    pub was_deduplicated: bool,
    pub salience: Single,
    pub auto_edges_added: u32,
    pub lsn: u64,
    pub space_id: [u8; 16],
    pub session_id: u64,
    pub kind: MemoryKind,
    pub created_at_unix_nanos: u64,
    pub edges_out_count: u32,
    pub embedding_model_fp: [u8; 16],
    pub pending_stages: Vec<StageKind>,
    pub has_active_schema: bool,
    pub trace: Option<EncodeTrace>,
}

/// Where a write belongs: the caller's space and the embedding model.
#[derive(Clone, Copy, Debug)]
pub struct EncodePlace {
    pub space_id: [u8; 16],
    pub embedding_model_fp: [u8; 16],
}

/// Whether a response reports a memory. What the router decides is the same
/// for every memory: episodic, of the default salience.
pub open spec fn reports(
    r: EncodeResponse,
    req: EncodeRequest,
    place: EncodePlace,
    memory_id: u128,
    was_deduplicated: bool,
    edges: u32,
    lsn: u64,
    created_at: u64,
    pending: Seq<StageKind>,
) -> bool {
    &&& r.memory_id == memory_id
    &&& r.was_deduplicated == was_deduplicated
    &&& r.salience == (Single { bits: DEFAULT_SALIENCE_BITS })
    &&& r.auto_edges_added == edges
    &&& r.lsn == lsn
    &&& r.space_id == place.space_id
    &&& r.session_id == req.session_id
    &&& r.kind == MemoryKind::Episodic
    &&& r.created_at_unix_nanos == created_at
    &&& r.edges_out_count == edges
    &&& r.embedding_model_fp == place.embedding_model_fp
    &&& r.pending_stages@ == pending
    &&& r.has_active_schema
}

fn report(
    req: &EncodeRequest,
    place: &EncodePlace,
    memory_id: u128,
    was_deduplicated: bool,
    edges: u32,
    lsn: u64,
    created_at: u64,
    pending_stages: Vec<StageKind>,
    trace: Option<EncodeTrace>,
) -> (r: EncodeResponse)
    ensures
        reports(
            r,
            *req,
            *place,
            memory_id,
            was_deduplicated,
            edges,
            lsn,
            created_at,
            pending_stages@,
        ),
        r.trace == trace,
{
    EncodeResponse {
        memory_id,
        was_deduplicated,
        salience: Single { bits: DEFAULT_SALIENCE_BITS },
        auto_edges_added: edges,
        lsn,
        space_id: place.space_id,
        session_id: req.session_id,
        kind: MemoryKind::Episodic,
        created_at_unix_nanos: created_at,
        edges_out_count: edges,
        embedding_model_fp: place.embedding_model_fp,
        pending_stages,
        has_active_schema: true,
        trace,
    }
}

// The operation whose digest tells requests apart.

/// The numbers of an embedding.
pub const VECTOR_DIM: usize = 384;

/// A remembered text as an operation. Its digest tells a replay from a request
/// that reuses the id for something else.
#[derive(Debug)]
pub struct EncodeOp {
    pub request_id: [u8; 16],
    pub session_id: u64,
    pub kind: MemoryKind,
    pub text: String,
    pub vector: Vec<Single>,
    pub salience_initial: Single,
    pub fingerprint: [u8; 16],
    pub edges: Vec<WalEdge>,
    pub deduplicate: bool,
    pub content_hash: [u8; 32],
    pub space_id: [u8; 16],
}

/// Whether an operation is the one that a request hashes to.
pub open spec fn hashes_request(
    r: EncodeOp,
    req: EncodeRequest,
    place: EncodePlace,
) -> bool {
    &&& r.request_id == req.request_id
    &&& r.session_id == req.session_id
    &&& r.kind == MemoryKind::Episodic
    &&& r.text@ == req.text@
    &&& r.vector@ == Seq::new(VECTOR_DIM as nat, |i: int| Single { bits: 0 })
    &&& r.salience_initial == (Single { bits: DEFAULT_SALIENCE_BITS })
    &&& r.fingerprint == place.embedding_model_fp
    &&& r.edges@.len() == 0
    &&& r.deduplicate == !req.allow_duplicates
    &&& r.content_hash@ == blake3_digest(vstd::utf8::encode_utf8(req.text@))
    &&& r.space_id == place.space_id
}

/// The operation of a request, as it is digested before anything is embedded:
/// the router's own decisions are the same for every request, and the vector
/// is all zeros.
pub fn hashed_operation(req: &EncodeRequest, place: &EncodePlace) -> (r: EncodeOp)
    ensures
        hashes_request(r, *req, *place),
{
    let mut vector: Vec<Single> = Vec::new();
    for i in 0..VECTOR_DIM
        invariant
            vector@ == Seq::new(i as nat, |j: int| Single { bits: 0 }),
    {
        vector.push(Single { bits: 0 });
        assert(vector@ =~= Seq::new((i + 1) as nat, |j: int| Single { bits: 0 }));
    }
    EncodeOp {
        request_id: req.request_id,
        session_id: req.session_id,
        kind: MemoryKind::Episodic,
        text: req.text.clone(),
        vector,
        salience_initial: Single { bits: DEFAULT_SALIENCE_BITS },
        fingerprint: place.embedding_model_fp,
        edges: Vec::new(),
        deduplicate: !req.allow_duplicates,
        content_hash: content_hash(&req.text),
        space_id: place.space_id,
    }
}

// Replays.

/// An acknowledged write, as it is remembered.
#[derive(Debug)]
pub struct WriteAck {
    pub phase_acks: Vec<PhaseAck>,
    pub lsn_first: u64,
    pub pending_stages: Vec<PendingStage>,
}

/// What is remembered of a request id: nothing, the acknowledgement of the
/// same request, or another request.
#[derive(Debug)]
pub enum CacheLookup {
    Hit(WriteAck),
    Conflict,
    Miss,
}

/// The memory that an acknowledged write made, if it made one.
pub open spec fn acked_memory(ack: WriteAck) -> Option<u128> {
    if ack.phase_acks@.len() > 0 {
        match ack.phase_acks@[0] {
            PhaseAck::UpsertedMemory(id) => Some(id),
            _ => None,
        }
    } else {
        None
    }
}

/// How many edges a write made.
pub open spec fn linked(acks: Seq<PhaseAck>) -> nat
    decreases acks.len(),
{
    if acks.len() == 0 {
        0
    } else {
        linked(acks.drop_last()) + (if acks.last() is Linked {
            1nat
        } else {
            0nat
        })
    }
}

fn count_linked(acks: &Vec<PhaseAck>) -> (r: u32)
    ensures
        r == low32(linked(acks@)),
{
    let mut n: usize = 0;
    for i in 0..acks.len()
        invariant
            n == linked(acks@.take(i as int)),
            n <= i,
    {
        assert(acks@.take(i + 1).drop_last() =~= acks@.take(i as int));
        match &acks[i] {
            PhaseAck::Linked => {
                n = n + 1;
            },
            _ => {},
        }
    }
    assert(acks@.take(acks@.len() as int) =~= acks@);
    length_u32(n)
}

/// The memory to read for a replay: where the row is found it tells when the
/// memory was made.
pub fn replayed_memory(ack: &WriteAck) -> (r: Option<u128>)
    ensures
        r == acked_memory(*ack),
{
    if ack.phase_acks.len() > 0 {
        match &ack.phase_acks[0] {
            PhaseAck::UpsertedMemory(id) => Some(*id),
            _ => None,
        }
    } else {
        None
    }
}

/// What a remembered write is answered.
pub open spec fn reconstructs(
    r: Result<EncodeResponse, OpError>,
    req: EncodeRequest,
    cached: WriteAck,
    created_at: Option<u64>,
    place: EncodePlace,
) -> bool {
    match acked_memory(cached) {
        Some(id) => r matches Ok(out) && out.trace is None && reports(
            out,
            req,
            place,
            id,
            false,
            low32(linked(cached.phase_acks@)),
            cached.lsn_first,
            match created_at {
                Some(t) => t,
                None => 0,
            },
            own_stages(cached.pending_stages@, id),
        ),
        None => fails(
            r,
            ErrorView::Internal(
                "idempotency cache hit but phase_acks[0] is not UpsertedMemory"@,
            ),
        ),
    }
}

/// Answers a replay as the first call was answered. `created_at` is what the
/// memory's row says, where it is found.
pub fn reconstruct_encode_response(
    req: &EncodeRequest,
    cached: &WriteAck,
    created_at: Option<u64>,
    place: &EncodePlace,
) -> (r: Result<EncodeResponse, OpError>)
    ensures
        reconstructs(r, *req, *cached, created_at, *place),
{
    let memory_id: u128 = match replayed_memory(cached) {
        Some(id) => id,
        None => {
            return Err(
                OpError::Internal(
                    "idempotency cache hit but phase_acks[0] is not UpsertedMemory".to_owned(),
                ),
            );
        },
    };
    let edges: u32 = count_linked(&cached.phase_acks);
    let pending = pending_stages_of(&cached.pending_stages, memory_id);
    let at: u64 = match created_at {
        Some(t) => t,
        None => 0,
    };
    Ok(report(req, place, memory_id, false, edges, cached.lsn_first, at, pending, None))
}

/// The error of a request id that comes back with other parameters.
pub open spec fn refuses_replay(
    r: OpError,
    req: EncodeRequest,
) -> bool {
    r@ == ErrorView::Conflict(
        "encode request_id replay with different params: request_id="@ + hex(
            req.request_id@.take(4),
        ),
    )
}

/// The error for a request id that was used for another request.
pub fn replay_conflict(req: &EncodeRequest) -> (r: OpError)
    ensures
        refuses_replay(r, *req),
{
    let id = hex_short(&req.request_id);
    OpError::Conflict(
        join2("encode request_id replay with different params: request_id=", &id),
    )
}

/// Answers a text that is already remembered with the memory that holds it.
pub fn deduplicated_response(req: &EncodeRequest, existing: u128, place: &EncodePlace) -> (r:
    EncodeResponse)
    ensures
        reports(r, *req, *place, existing, true, 0, 0, 0, Seq::empty()),
        r.trace is None,
{
    let none: Vec<StageKind> = Vec::new();
    assert(none@ =~= Seq::empty());
    report(req, place, existing, true, 0, 0, 0, none, None)
}

// The write.

/// Whether a text is checked against what is remembered.
pub open spec fn deduplicates(req: EncodeRequest) -> bool {
    !req.allow_duplicates
}

/// Whether a write stores a memory: with its content hash only where duplicates
/// are told by it.
pub open spec fn is_memory_write(
    w: Write,
    req: EncodeRequest,
    place: EncodePlace,
    caller: RowScope,
    name_of_space: Option<String>,
    request_digest: [u8; 32],
    memory_id: u128,
    slot: u64,
    values: Seq<Single>,
    now: u64,
) -> bool {
    &&& w.write_id == (WriteId::Request {
        request_id: req.request_id,
        space_id: caller.space_id_bytes,
    })
    &&& w.space_id == caller.space_id_bytes
    &&& w.namespace_id == Some(caller.namespace_id)
    &&& w.space_string == name_of_space
    &&& w.request_hash == Some(request_digest)
    &&& w.phase matches Phase::UpsertMemory {
        id,
        text,
        vector,
        kind,
        salience,
        session_id,
        created_at_unix_nanos,
        occurred_at_unix_nanos,
        arena_slot,
        embedding_model_fp,
        content_hash,
        deduplicate,
    } && {
        &&& id == memory_id
        &&& text == req.text
        &&& vector@ == values
        &&& kind == MemoryKind::Episodic
        &&& salience == (Single { bits: DEFAULT_SALIENCE_BITS })
        &&& session_id == req.session_id
        &&& created_at_unix_nanos == now
        &&& occurred_at_unix_nanos == req.occurred_at_unix_nanos
        &&& arena_slot == slot
        &&& embedding_model_fp == place.embedding_model_fp
        &&& deduplicate == deduplicates(req)
        &&& content_hash is Some <==> deduplicates(req)
        &&& content_hash matches Some(h) ==> h@ == blake3_digest(
            vstd::utf8::encode_utf8(req.text@),
        )
    }
}

/// Plans the write of a memory: the text and its embedding under a reserved id
/// and slot.
pub fn plan_encode(
    req: &EncodeRequest,
    place: &EncodePlace,
    caller: &RowScope,
    space_string: Option<String>,
    request_hash: [u8; 32],
    memory_id: u128,
    arena_slot: u64,
    vector: Vec<Single>,
    now: u64,
) -> (r: Write)
    ensures
        is_memory_write(
            r,
            *req,
            *place,
            *caller,
            space_string,
            request_hash,
            memory_id,
            arena_slot,
            vector@,
            now,
        ),
{
    let content = if req.allow_duplicates {
        None
    } else {
        Some(content_hash(&req.text))
    };
    Write {
        write_id: WriteId::Request {
            request_id: req.request_id,
            space_id: caller.space_id_bytes,
        },
        space_id: caller.space_id_bytes,
        namespace_id: Some(caller.namespace_id),
        space_string,
        request_hash: Some(request_hash),
        phase: Phase::UpsertMemory {
            id: memory_id,
            text: req.text.clone(),
            vector,
            kind: MemoryKind::Episodic,
            salience: Single { bits: DEFAULT_SALIENCE_BITS },
            session_id: req.session_id,
            created_at_unix_nanos: now,
            occurred_at_unix_nanos: req.occurred_at_unix_nanos,
            arena_slot,
            embedding_model_fp: place.embedding_model_fp,
            content_hash: content,
            deduplicate: !req.allow_duplicates,
        },
    }
}

/// Answers a write that was acknowledged: durable at its log position, with
/// the stages that are still to run.
pub fn encode_response(
    req: &EncodeRequest,
    ack: &WriteAck,
    memory_id: u128,
    now: u64,
    place: &EncodePlace,
    trace: Option<EncodeTrace>,
) -> (r: EncodeResponse)
    ensures
        reports(
            r,
            *req,
            *place,
            memory_id,
            false,
            0,
            ack.lsn_first,
            now,
            own_stages(ack.pending_stages@, memory_id),
        ),
        r.trace == trace,
{
    let pending = pending_stages_of(&ack.pending_stages, memory_id);
    report(req, place, memory_id, false, 0, ack.lsn_first, now, pending, trace)
}

// Inside a transaction.

/// What a transaction remembers of a request id: the digest of the request,
/// and the memory that was buffered for it.
#[derive(Clone, Copy, Debug)]
pub struct BufferedRequest {
    pub request_hash: [u8; 32],
    pub memory_id: Option<u128>,
}

/// What a transaction remembers of a request.
pub open spec fn replays_in_txn(
    r: Result<Option<u128>, OpError>,
    prior: Option<&BufferedRequest>,
    request_hash: [u8; 32],
    txn_id: [u8; 16],
) -> bool {
    match prior {
        None => r == Ok::<Option<u128>, OpError>(None),
        Some(p) => if p.request_hash@ == request_hash@ {
            r == Ok::<Option<u128>, OpError>(p.memory_id)
        } else {
            fails(
                r,
                ErrorView::Conflict(
                    "encode in-txn request_id replay with different params: txn="@ + hex(
                        txn_id@.take(4),
                    ),
                ),
            )
        },
    }
}

/// Checks a request against the transaction: the buffered memory where the
/// same request came before, nothing where none did, or an error where another
/// request used its id.
pub fn replay_in_txn(
    prior: Option<&BufferedRequest>,
    request_hash: &[u8; 32],
    txn_id: &[u8; 16],
) -> (r: Result<Option<u128>, OpError>)
    ensures
        replays_in_txn(r, prior, *request_hash, *txn_id),
{
    match prior {
        None => Ok(None),
        Some(p) => {
            if !eq_bytes(p.request_hash.as_slice(), request_hash.as_slice()) {
                let id = hex_short(txn_id);
                return Err(
                    OpError::Conflict(
                        join2(
                            "encode in-txn request_id replay with different params: txn=",
                            &id,
                        ),
                    ),
                );
            }
            Ok(p.memory_id)
        },
    }
}

/// A memory buffered until its transaction commits.
#[derive(Debug)]
pub struct BufferedEncode {
    pub memory_id: u128,
    pub namespace_id: u32,
    pub text: String,
    pub text_len: u32,
    pub vector: Vec<Single>,
    pub kind: MemoryKind,
    pub session_id: u64,
    pub salience_initial: Single,
    pub fingerprint: [u8; 16],
    pub request_id: [u8; 16],
    pub request_hash: [u8; 32],
    pub created_at_unix_nanos: u64,
    pub occurred_at_unix_nanos: Option<u64>,
    pub space_id: [u8; 16],
}

/// Whether a buffered memory is that of a request.
pub open spec fn buffers(
    r: BufferedEncode,
    req: EncodeRequest,
    place: EncodePlace,
    namespace_id: u32,
    request_hash: [u8; 32],
    memory_id: u128,
    vector: Vec<Single>,
    now: u64,
) -> bool {
    &&& r.memory_id == memory_id
    &&& r.namespace_id == namespace_id
    &&& r.text == req.text
    &&& r.text_len == low32(vstd::utf8::encode_utf8(req.text@).len())
    &&& r.vector == vector
    &&& r.kind == MemoryKind::Episodic
    &&& r.session_id == req.session_id
    &&& r.salience_initial == (Single { bits: DEFAULT_SALIENCE_BITS })
    &&& r.fingerprint == place.embedding_model_fp
    &&& r.request_id == req.request_id
    &&& r.request_hash == request_hash
    &&& r.created_at_unix_nanos == now
    &&& r.occurred_at_unix_nanos == req.occurred_at_unix_nanos
    &&& r.space_id == place.space_id
}

/// Buffers a memory.
pub fn buffer_encode(
    req: &EncodeRequest,
    place: &EncodePlace,
    namespace_id: u32,
    request_hash: [u8; 32],
    memory_id: u128,
    vector: Vec<Single>,
    now: u64,
) -> (r: BufferedEncode)
    ensures
        buffers(r, *req, *place, namespace_id, request_hash, memory_id, vector, now),
{
    BufferedEncode {
        memory_id,
        namespace_id,
        text: req.text.clone(),
        text_len: length_u32(req.text.as_str().as_bytes().len()),
        vector,
        kind: MemoryKind::Episodic,
        session_id: req.session_id,
        salience_initial: Single { bits: DEFAULT_SALIENCE_BITS },
        fingerprint: place.embedding_model_fp,
        request_id: req.request_id,
        request_hash,
        created_at_unix_nanos: now,
        occurred_at_unix_nanos: req.occurred_at_unix_nanos,
        space_id: place.space_id,
    }
}

/// Answers a buffered memory: nothing is durable or queued before the commit.
/// `created_at` is 0 for a replay.
pub fn buffered_response(req: &EncodeRequest, memory_id: u128, created_at: u64, place: &EncodePlace) -> (r:
    EncodeResponse)
    ensures
        reports(r, *req, *place, memory_id, false, 0, 0, created_at, Seq::empty()),
        r.trace is None,
{
    let none: Vec<StageKind> = Vec::new();
    assert(none@ =~= Seq::empty());
    report(req, place, memory_id, false, 0, 0, created_at, none, None)
}

/// A replay is answered with the memory, the log position and the stages of
/// the first answer.
pub proof fn replays_answer_as_before(
    req: EncodeRequest,
    place: EncodePlace,
    ack: WriteAck,
    id: u128,
    now: u64,
    first: EncodeResponse,
    again: EncodeResponse,
)
    requires
        acked_memory(ack) == Some(id),
        linked(ack.phase_acks@) == 0,
        reports(
            first,
            req,
            place,
            id,
            false,
            0,
            ack.lsn_first,
            now,
            own_stages(ack.pending_stages@, id),
        ),
        reports(
            again,
            req,
            place,
            id,
            false,
            low32(linked(ack.phase_acks@)),
            ack.lsn_first,
            now,
            own_stages(ack.pending_stages@, id),
        ),
    ensures
        again.memory_id == first.memory_id,
        again.lsn == first.lsn,
        again.was_deduplicated == first.was_deduplicated,
        again.auto_edges_added == first.auto_edges_added,
        again.created_at_unix_nanos == first.created_at_unix_nanos,
        again.pending_stages@ == first.pending_stages@,
{
}

} // verus!
