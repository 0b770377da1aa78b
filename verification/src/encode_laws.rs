//! What remembering a text stores, and what it answers.
use vstd::prelude::*;

use crate::encode::{
    acked_memory, buffers, counts_micros, hashes_request, is_memory_write, linked, own_stage,
    own_stages, reconstructs, refuses_replay, replays_in_txn, reports, stamps, BufferedEncode,
    BufferedRequest, CacheLookup, EncodeOp, EncodePlace, EncodeRequest, EncodeResponse,
    PendingStage, WriteAck,
};
use crate::encode_flow::{
    encode_follows, is_encode_trace, starts_encode, txn_follows, Derived, EncodeCall, EncodeNeed, EncodeRead, EncodeRun,
    TxnNeed, TxnRead,
};
use crate::encode_graph::EncodeStageGraph;
use crate::encode_trace::{attached, EncodeTrace, EncodeTraceStage};
use crate::error::{ExecError, OpError};
use crate::events::{MemoryKind, StageKind};
use crate::hash::blake3_digest;
use crate::ranking::filter_keeps_what_passes;
use crate::scope::RowScope;
use crate::single::Single;
use crate::write::{Phase, PhaseAck, Write, WriteId};

verus! {

/// Whether a write stores the memory that a call asks for: the text, the session
/// and the time of the request, in the caller's own space and namespace, under
/// the request id and its digest.
pub open spec fn stores_request(w: Write, call: EncodeCall, memory_id: u128) -> bool {
    &&& w.phase matches Phase::UpsertMemory {
        id,
        text,
        session_id,
        occurred_at_unix_nanos,
        embedding_model_fp,
        deduplicate,
        content_hash,
        kind,
        ..
    } && (id, text@, session_id) == (memory_id, call.req.text@, call.req.session_id)
        && occurred_at_unix_nanos == call.req.occurred_at_unix_nanos && embedding_model_fp
        == call.place.embedding_model_fp && deduplicate != call.req.allow_duplicates && (
    content_hash is None <==> call.req.allow_duplicates) && (content_hash is Some
        ==> content_hash->0@ == blake3_digest(vstd::utf8::encode_utf8(call.req.text@))) && kind
        == MemoryKind::Episodic
    &&& (w.space_id, w.namespace_id) == (
        call.caller.space_id_bytes,
        Some(call.caller.namespace_id),
    )
    &&& w.write_id == (WriteId::Request {
        request_id: call.req.request_id,
        space_id: call.caller.space_id_bytes,
    })
    &&& (w.request_hash, w.space_string) == (Some(call.request_hash), call.space_string)
}

/// A memory is stored under the reserved id and slot, with the text and in the
/// session that the request names, with the embedding that came back for the
/// text, as made at the time of the reservation.
pub proof fn writes_store_the_request(
    call: EncodeCall,
    begun: EncodeRun,
    vector: Vec<Single>,
    embed_us: u64,
    embed_now: u64,
    before: EncodeRun,
    asked: EncodeNeed,
    id: u128,
    slot: u64,
    latency_us: u64,
    now: u64,
    after: EncodeRun,
    need: EncodeNeed,
)
    requires
        encode_follows(
            call,
            begun,
            EncodeRead::Embedding(Ok(vector)),
            embed_us,
            embed_now,
            before,
            asked,
        ),
        encode_follows(
            call,
            before,
            EncodeRead::Reservation(Ok((id, slot))),
            latency_us,
            now,
            after,
            need,
        ),
    ensures
        need matches EncodeNeed::Submission(w) && {
            &&& stores_request(w, call, id)
            &&& w.phase matches Phase::UpsertMemory {
                vector: stored,
                arena_slot,
                created_at_unix_nanos,
                salience,
                ..
            } && stored@ == vector@ && arena_slot == slot && created_at_unix_nanos == now
                && salience.bits == 0x3F00_0000
        },
        after.memory_id == id,
{
}

/// What is answered is what was stored: the response to an acknowledged write
/// names the memory, the session, the kind, the salience and the time of the
/// memory phase that was submitted, and the position at which it is durable.
pub proof fn responses_tell_what_was_stored(
    call: EncodeCall,
    before: EncodeRun,
    id: u128,
    slot: u64,
    reserve_us: u64,
    now: u64,
    reserved: EncodeRun,
    submitted: EncodeNeed,
    ack: WriteAck,
    latency_us: u64,
    later: u64,
    after: EncodeRun,
    need: EncodeNeed,
)
    requires
        encode_follows(
            call,
            before,
            EncodeRead::Reservation(Ok((id, slot))),
            reserve_us,
            now,
            reserved,
            submitted,
        ),
        encode_follows(
            call,
            reserved,
            EncodeRead::Submission(Ok(ack)),
            latency_us,
            later,
            after,
            need,
        ),
        !call.traced(),
    ensures
        submitted matches EncodeNeed::Submission(w) && need matches EncodeNeed::Answer(Ok(out))
            && w.phase matches Phase::UpsertMemory {
            id: stored,
            session_id,
            kind,
            salience,
            created_at_unix_nanos,
            embedding_model_fp,
            ..
        } && {
            &&& (out.memory_id, out.session_id) == (stored, session_id)
            &&& out.session_id == call.req.session_id
            &&& (out.kind, out.salience) == (kind, salience)
            &&& (out.created_at_unix_nanos, out.embedding_model_fp) == (
                created_at_unix_nanos,
                embedding_model_fp,
            )
            &&& out.lsn == ack.lsn_first
            &&& out.space_id == call.place.space_id
            &&& !out.was_deduplicated && out.edges_out_count == out.auto_edges_added
                && out.edges_out_count == 0
            &&& out.trace is None
        },
{
}

/// The stages that a response lists are those that the acknowledgement queued
/// for this memory: each is listed, and none of another memory is.
pub proof fn listed_stages_are_the_memorys_own(pending: Seq<PendingStage>, id: u128, kind: StageKind)
    ensures
        own_stages(pending, id).contains(kind) <==> exists|i: int|
            0 <= i < pending.len() && (#[trigger] pending[i]).memory_id == id
                && pending[i].stage_kind == kind,
        own_stages(pending, id).len() <= pending.len(),
{
    let test = own_stage(id);
    let kept = pending.filter(test);
    assert forall|x: PendingStage| #[trigger] kept.contains(x) <==> pending.contains(x)
        && test(x) by {
        filter_keeps_what_passes(pending, test, x);
    }
    if pending.len() > 0 {
        filter_keeps_what_passes(pending, test, pending[0]);
    } else {
        assert(kept.len() == 0) by {
            reveal(Seq::filter);
        }
    }
    let listed = own_stages(pending, id);
    if listed.contains(kind) {
        let k = choose|k: int| 0 <= k < listed.len() && listed[k] == kind;
        assert(kept[k].stage_kind == kind);
        assert(kept.contains(kept[k]));
        assert(pending.contains(kept[k]));
        let i = choose|i: int| 0 <= i < pending.len() && pending[i] == kept[k];
        assert(pending[i].memory_id == id);
    }
    if exists|i: int|
        0 <= i < pending.len() && (#[trigger] pending[i]).memory_id == id && pending[i].stage_kind
            == kind {
        let i = choose|i: int|
            0 <= i < pending.len() && (#[trigger] pending[i]).memory_id == id
                && pending[i].stage_kind == kind;
        assert(test(pending[i]));
        assert(kept.contains(pending[i]));
        let k = choose|k: int| 0 <= k < kept.len() && kept[k] == pending[i];
        assert(listed[k] == kind);
    }
}

/// The steps come in order: a request that passes the check is looked up, one
/// that is not remembered is embedded, its text is searched for unless
/// duplicates are allowed, and only then is a memory reserved. Inside a
/// transaction none of this happens.
pub proof fn calls_go_step_by_step(
    call: EncodeCall,
    before: EncodeRun,
    read: EncodeRead,
    latency_us: u64,
    now: u64,
    after: EncodeRun,
    need: EncodeNeed,
)
    requires
        encode_follows(call, before, read, latency_us, now, after, need),
    ensures
        read matches EncodeRead::Validation(Ok(_)) ==> need is Remembered,
        read matches EncodeRead::Remembered(CacheLookup::Miss) ==> need is Embedding,
        read matches EncodeRead::Embedding(Ok(v)) ==> after.vector@ == v@ && (need is Reservation
            <==> call.req.allow_duplicates) && (need is Duplicate <==> !call.req.allow_duplicates)
            && after.memory_id == before.memory_id && after.created_at_unix_nanos
            == before.created_at_unix_nanos,
        need matches EncodeNeed::Duplicate { content_hash } ==> content_hash@ == blake3_digest(
            vstd::utf8::encode_utf8(call.req.text@),
        ),
        read matches EncodeRead::Duplicate(Ok(None)) ==> need is Reservation,
        need is Reservation ==> read is Embedding || read is Duplicate,
        need is Submission <==> read matches EncodeRead::Reservation(Ok(_)),
        need is Derivation <==> (read matches EncodeRead::Submission(Ok(_))) && call.traced(),
        need !is Transaction && need !is Validation,
{
}

/// What fails ends the call with that failure, and nothing changes.
pub proof fn failures_are_answered(
    call: EncodeCall,
    before: EncodeRun,
    read: EncodeRead,
    latency_us: u64,
    now: u64,
    after: EncodeRun,
    need: EncodeNeed,
)
    requires
        encode_follows(call, before, read, latency_us, now, after, need),
    ensures
        read matches EncodeRead::Validation(Err(e)) ==> need == EncodeNeed::Answer(Err(e)) && after
            == before,
        read matches EncodeRead::Duplicate(Err(e)) ==> need == EncodeNeed::Answer(Err(e)) && after
            == before,
        read matches EncodeRead::Embedding(Err(e)) ==> need == EncodeNeed::Answer(
            Err(OpError::ExecError(ExecError::EmbedFailed(e))),
        ) && after == before,
        read matches EncodeRead::Reservation(Err(e)) ==> need == EncodeNeed::Answer(
            Err(OpError::ExecError(ExecError::WriterFailed(e))),
        ) && after == before,
        read matches EncodeRead::Submission(Err(e)) ==> need == EncodeNeed::Answer(
            Err(OpError::ExecError(ExecError::WriterFailed(e))),
        ) && after == before,
        read matches EncodeRead::Remembered(CacheLookup::Conflict) ==> (
        need matches EncodeNeed::Answer(Err(OpError::Conflict(_)))),
{
}

/// A text that is already remembered is answered with the memory that holds it:
/// nothing is written, and the answer says so, in the session of the request.
pub proof fn known_texts_are_answered_with_their_memory(
    call: EncodeCall,
    before: EncodeRun,
    existing: u128,
    latency_us: u64,
    now: u64,
    after: EncodeRun,
    need: EncodeNeed,
)
    requires
        encode_follows(
            call,
            before,
            EncodeRead::Duplicate(Ok(Some(existing))),
            latency_us,
            now,
            after,
            need,
        ),
    ensures
        need matches EncodeNeed::Answer(Ok(out)) && {
            &&& out.was_deduplicated && out.memory_id == existing
            &&& (out.session_id, out.space_id) == (call.req.session_id, call.place.space_id)
            &&& (out.lsn, out.created_at_unix_nanos) == (0u64, 0u64)
            &&& out.pending_stages@.len() == 0 && out.trace is None
            &&& out.kind == MemoryKind::Episodic && out.salience.bits == 0x3F00_0000
        },
{
}

/// A replay is answered with the memory and the position of the first write: it
/// is neither embedded nor written again.
pub proof fn replays_are_answered_from_the_first_write(
    call: EncodeCall,
    before: EncodeRun,
    ack: WriteAck,
    id: u128,
    latency_us: u64,
    now: u64,
    looked_up: EncodeRun,
    asked: EncodeNeed,
    created_at: Option<u64>,
    after: EncodeRun,
    need: EncodeNeed,
)
    requires
        ack.phase_acks@.len() > 0,
        ack.phase_acks@[0] == PhaseAck::UpsertedMemory(id),
        encode_follows(
            call,
            before,
            EncodeRead::Remembered(CacheLookup::Hit(ack)),
            latency_us,
            now,
            looked_up,
            asked,
        ),
        encode_follows(
            call,
            looked_up,
            EncodeRead::Created { ack, created_at: Ok(created_at) },
            latency_us,
            now,
            after,
            need,
        ),
    ensures
        asked == (EncodeNeed::Created { ack, memory_id: id }),
        need matches EncodeNeed::Answer(Ok(out)) && {
            &&& (out.memory_id, out.lsn) == (id, ack.lsn_first)
            &&& created_at matches Some(t) ==> out.created_at_unix_nanos == t
            &&& (out.session_id, out.space_id) == (call.req.session_id, call.place.space_id)
            &&& !out.was_deduplicated && out.trace is None
            &&& out.pending_stages@ == own_stages(ack.pending_stages@, id)
        },
        after == before,
{
}

/// A remembered write that made no memory cannot be replayed.
pub proof fn only_memories_are_replayed(ack: WriteAck)
    ensures
        acked_memory(ack) is Some <==> ack.phase_acks@.len() > 0 && ack.phase_acks@[0]
            is UpsertedMemory,
        acked_memory(ack) matches Some(id) ==> ack.phase_acks@[0] == PhaseAck::UpsertedMemory(id),
{
}

/// The edges that a replay reports are those that the write acknowledged.
pub proof fn acknowledged_edges_are_counted(acks: Seq<PhaseAck>, more: PhaseAck)
    ensures
        linked(acks.push(more)) == linked(acks) + (if more is Linked {
            1int
        } else {
            0int
        }),
        linked(Seq::empty()) == 0,
{
    assert(acks.push(more).drop_last() =~= acks);
}

// Inside a transaction.

/// Inside a transaction the memory is buffered as it was asked for, and the
/// answer names what was buffered: nothing is durable yet.
pub proof fn buffered_memories_hold_the_request(
    call: EncodeCall,
    txn_id: [u8; 16],
    begun: EncodeRun,
    vector: Vec<Single>,
    embed_now: u64,
    before: EncodeRun,
    asked: TxnNeed,
    id: u128,
    now: u64,
    reserved: EncodeRun,
    buffer: TxnNeed,
    later: u64,
    after: EncodeRun,
    need: TxnNeed,
)
    requires
        txn_follows(
            call,
            txn_id,
            begun,
            TxnRead::Embedding(Ok(vector)),
            embed_now,
            before,
            asked,
        ),
        txn_follows(call, txn_id, before, TxnRead::Reservation(Ok(id)), now, reserved, buffer),
        txn_follows(call, txn_id, reserved, TxnRead::Buffered(Ok(())), later, after, need),
    ensures
        asked is Reservation,
        buffer matches TxnNeed::Buffer(b) && need matches TxnNeed::Answer(Ok(out)) && {
            &&& (b.memory_id, b.text@, b.vector@) == (id, call.req.text@, vector@)
            &&& (b.session_id, b.request_id) == (call.req.session_id, call.req.request_id)
            &&& (b.namespace_id, b.space_id) == (call.caller.namespace_id, call.place.space_id)
            &&& (b.created_at_unix_nanos, b.occurred_at_unix_nanos) == (
                now,
                call.req.occurred_at_unix_nanos,
            )
            &&& (b.request_hash, b.fingerprint) == (
                call.request_hash,
                call.place.embedding_model_fp,
            )
            &&& b.kind == MemoryKind::Episodic && b.salience_initial.bits == 0x3F00_0000
            &&& vstd::utf8::encode_utf8(call.req.text@).len() <= u32::MAX ==> b.text_len
                == vstd::utf8::encode_utf8(call.req.text@).len()
            &&& (out.memory_id, out.session_id, out.kind, out.salience) == (
                b.memory_id,
                b.session_id,
                b.kind,
                b.salience_initial,
            )
            &&& (out.created_at_unix_nanos, out.space_id, out.embedding_model_fp) == (
                b.created_at_unix_nanos,
                b.space_id,
                b.fingerprint,
            )
            &&& out.lsn == 0 && out.pending_stages@.len() == 0 && !out.was_deduplicated
        },
{
}

/// Inside a transaction a request is checked, replayed, made room for and only
/// then embedded and buffered; the same request again is answered with the
/// memory that is buffered for it, and another request under its id is refused.
pub proof fn transactions_remember_their_requests(
    call: EncodeCall,
    txn_id: [u8; 16],
    before: EncodeRun,
    read: TxnRead,
    now: u64,
    after: EncodeRun,
    need: TxnNeed,
)
    requires
        txn_follows(call, txn_id, before, read, now, after, need),
    ensures
        read matches TxnRead::Prior(Ok(Some(p))) ==> {
            &&& p.request_hash@ != call.request_hash@ ==> (need matches TxnNeed::Answer(
                Err(OpError::Conflict(_)),
            ))
            &&& p.request_hash@ == call.request_hash@ ==> (p.memory_id matches Some(id) ==> (
            need matches TxnNeed::Answer(Ok(out)) && out.memory_id == id && out.session_id
                == call.req.session_id && out.created_at_unix_nanos == 0 && out.lsn == 0))
        },
        read matches TxnRead::Prior(Ok(None)) ==> need is Capacity,
        read matches TxnRead::Validation(Ok(_)) ==> need is Active,
        read matches TxnRead::Active(Ok(_)) ==> need is Prior,
        read matches TxnRead::Capacity(Ok(_)) ==> need is Embedding,
        read matches TxnRead::Embedding(Ok(_)) ==> need is Reservation,
        read matches TxnRead::Reservation(Ok(_)) ==> need is Buffer,
        read matches TxnRead::Validation(Err(e)) ==> need == TxnNeed::Answer(Err(e)),
        read matches TxnRead::Active(Err(e)) ==> need == TxnNeed::Answer(Err(e)),
        read matches TxnRead::Prior(Err(e)) ==> need == TxnNeed::Answer(Err(e)),
        read matches TxnRead::Capacity(Err(e)) ==> need == TxnNeed::Answer(Err(e)),
        read matches TxnRead::Buffered(Err(e)) ==> need == TxnNeed::Answer(Err(e)),
        read matches TxnRead::Embedding(Err(e)) ==> need == TxnNeed::Answer(
            Err(OpError::ExecError(ExecError::EmbedFailed(e))),
        ),
        read matches TxnRead::Reservation(Err(e)) ==> need == TxnNeed::Answer(
            Err(OpError::ExecError(ExecError::WriterFailed(e))),
        ),
        need is Buffer ==> read is Reservation,
{
}

/// A write and the answer to it agree with the request and with each other: on
/// the session, the space, the memory and its time.
pub proof fn writes_and_answers_agree(
    w: Write,
    r: EncodeResponse,
    req: EncodeRequest,
    place: EncodePlace,
    caller: RowScope,
    name_of_space: Option<String>,
    request_hash: [u8; 32],
    memory_id: u128,
    slot: u64,
    vector: Seq<Single>,
    now: u64,
    lsn: u64,
    stages: Seq<StageKind>,
)
    requires
        is_memory_write(
            w,
            req,
            place,
            caller,
            name_of_space,
            request_hash,
            memory_id,
            slot,
            vector,
            now,
        ),
        reports(r, req, place, memory_id, false, 0, lsn, now, stages),
    ensures
        (w.space_id, w.namespace_id) == (caller.space_id_bytes, Some(caller.namespace_id)),
        w.write_id == (WriteId::Request {
            request_id: req.request_id,
            space_id: caller.space_id_bytes,
        }),
        w.request_hash == Some(request_hash) && w.space_string == name_of_space,
        w.phase matches Phase::UpsertMemory {
            id,
            text,
            vector: stored,
            kind,
            salience,
            session_id,
            created_at_unix_nanos,
            occurred_at_unix_nanos,
            arena_slot,
            embedding_model_fp,
            content_hash: _,
            deduplicate,
        } && session_id == req.session_id && text@ == req.text@ && stored@ == vector && arena_slot
            == slot && occurred_at_unix_nanos == req.occurred_at_unix_nanos && deduplicate
            == !req.allow_duplicates && (
            r.memory_id,
            r.kind,
            r.salience,
            r.session_id,
            r.created_at_unix_nanos,
            r.embedding_model_fp,
        ) == (id, kind, salience, session_id, created_at_unix_nanos, embedding_model_fp),
        r.lsn == lsn && r.pending_stages@ == stages && !r.was_deduplicated,
        r.space_id == place.space_id,
{
}

/// An encode in a transaction is buffered there; any other is checked first.
pub proof fn encodes_start_where_they_belong(need: EncodeNeed, req: EncodeRequest)
    requires
        starts_encode(need, req),
    ensures
        req.txn_id matches Some(t) ==> need == EncodeNeed::Transaction(t),
        req.txn_id is None ==> need is Validation,
{
}

/// A time is stamped as it is as far as it fits, and one before the epoch as
/// the epoch.
pub proof fn times_are_stamped(r: u64, since_epoch: Option<u128>, us: u64, micros: u128)
    requires
        stamps(r, since_epoch),
        counts_micros(us, micros),
    ensures
        since_epoch is None ==> r == 0,
        since_epoch matches Some(n) ==> (n <= u64::MAX ==> r == n) && (n > u64::MAX ==> r
            == u64::MAX),
        micros <= u64::MAX ==> us == micros,
        micros > u64::MAX ==> us == u64::MAX,
{
}

/// What a request hashes to is its own text, session and space, without its
/// vector: two requests hash alike only where these agree.
pub proof fn requests_hash_to_what_they_say(
    r: EncodeOp,
    req: EncodeRequest,
    place: EncodePlace,
    i: int,
)
    requires
        hashes_request(r, req, place),
    ensures
        (r.request_id, r.session_id, r.space_id) == (
            req.request_id,
            req.session_id,
            place.space_id,
        ),
        r.text@ == req.text@ && r.kind == MemoryKind::Episodic,
        r.vector@.len() == 384 && (0 <= i < 384 ==> r.vector@[i].bits == 0),
        r.salience_initial.bits == 0x3F00_0000 && r.fingerprint == place.embedding_model_fp,
        r.edges@.len() == 0 && (r.deduplicate <==> !req.allow_duplicates),
        r.content_hash@ == blake3_digest(vstd::utf8::encode_utf8(req.text@)),
{
}

/// A request that a transaction remembers is answered with its memory; the same
/// id with other parameters is a conflict.
pub proof fn transactions_answer_repeated_requests(
    r: Result<Option<u128>, OpError>,
    prior: Option<&BufferedRequest>,
    request_hash: [u8; 32],
    txn_id: [u8; 16],
)
    requires
        replays_in_txn(r, prior, request_hash, txn_id),
    ensures
        prior is None ==> (r matches Ok(x) && x is None),
        prior matches Some(p) ==> {
            &&& p.request_hash@ == request_hash@ ==> (r matches Ok(x) && x == p.memory_id)
            &&& p.request_hash@ != request_hash@ ==> (r matches Err(e) && e is Conflict)
        },
{
}

/// A request id that comes back with other parameters is a conflict.
pub proof fn changed_requests_conflict(e: OpError, req: EncodeRequest)
    requires
        refuses_replay(e, req),
    ensures
        e is Conflict,
{
}

/// A buffered memory is the request's, for its caller, from the time it was
/// buffered.
pub proof fn buffers_hold_the_request(
    b: BufferedEncode,
    req: EncodeRequest,
    place: EncodePlace,
    namespace_id: u32,
    request_hash: [u8; 32],
    memory_id: u128,
    vector: Vec<Single>,
    now: u64,
)
    requires
        buffers(b, req, place, namespace_id, request_hash, memory_id, vector, now),
    ensures
        (b.memory_id, b.namespace_id, b.session_id, b.space_id) == (
            memory_id,
            namespace_id,
            req.session_id,
            place.space_id,
        ),
        b.text@ == req.text@ && b.vector@ == vector@ && b.kind == MemoryKind::Episodic,
        (b.request_id, b.request_hash, b.fingerprint) == (
            req.request_id,
            request_hash,
            place.embedding_model_fp,
        ),
        (b.created_at_unix_nanos, b.occurred_at_unix_nanos) == (now, req.occurred_at_unix_nanos),
        b.salience_initial.bits == 0x3F00_0000,
        vstd::utf8::encode_utf8(req.text@).len() <= u32::MAX ==> b.text_len
            == vstd::utf8::encode_utf8(req.text@).len(),
{
}

/// A remembered write is answered with its memory, its number and its time.
pub proof fn remembered_writes_are_answered(
    r: Result<EncodeResponse, OpError>,
    req: EncodeRequest,
    cached: WriteAck,
    created_at: Option<u64>,
    place: EncodePlace,
    id: u128,
)
    requires
        reconstructs(r, req, cached, created_at, place),
    ensures
        r is Ok <==> cached.phase_acks@.len() > 0 && cached.phase_acks@[0] is UpsertedMemory,
        cached.phase_acks@.len() > 0 && cached.phase_acks@[0] == PhaseAck::UpsertedMemory(id) ==> (
        r matches Ok(out) && (out.memory_id, out.session_id, out.space_id, out.lsn) == (
            id,
            req.session_id,
            place.space_id,
            cached.lsn_first,
        ) && !out.was_deduplicated && out.trace is None && (created_at matches Some(t)
            ==> out.created_at_unix_nanos == t)),
{
}

/// A traced call records every step that went well, in order, under its name and
/// with its time; a call that is not traced records nothing.
pub proof fn traced_calls_record_their_stages(
    call: EncodeCall,
    before: EncodeRun,
    read: EncodeRead,
    latency_us: u64,
    now: u64,
    after: EncodeRun,
    need: EncodeNeed,
)
    requires
        encode_follows(call, before, read, latency_us, now, after, need),
    ensures
        !call.traced() ==> after.stages@ == before.stages@,
        call.traced() ==> {
            let last = after.stages@.last();
            &&& read matches EncodeRead::Validation(Ok(_)) ==> after.stages@.len()
                == before.stages@.len() + 1 && last.name@ == "validate"@ && last.latency_us
                == latency_us && last.status is Done
            &&& read matches EncodeRead::Embedding(Ok(v)) ==> after.stages@.len()
                == before.stages@.len() + 1 && last.name@ == "embed"@ && last.latency_us
                == latency_us && last.status is Done && (last.artifact matches Some(a) && a.vector@
                == v@)
            &&& read matches EncodeRead::Reservation(Ok((id, _))) ==> after.stages@.len()
                == before.stages@.len() + 1 && last.name@ == "reserve"@ && last.latency_us
                == latency_us && last.status is Done && after.memory_id == id
            &&& read matches EncodeRead::Submission(Ok(ack)) ==> after.stages@.len()
                == before.stages@.len() + 1 && last.name@ == "persist"@ && last.latency_us
                == latency_us && last.status is Done && (last.artifact matches Some(a) && (
            a.record matches Some(rec) && rec.lsn == ack.lsn_first && rec.created_at_unix_nanos
                == before.created_at_unix_nanos && crate::bytes::be_value(rec.memory_id@)
                == before.memory_id && rec.salience.bits == 0x3F00_0000 && (
            call.req.occurred_at_unix_nanos matches Some(t) ==> rec.occurred_at_unix_nanos == t) && (
            call.req.occurred_at_unix_nanos is None ==> rec.occurred_at_unix_nanos == 0) && (
            before.vector@.len() <= u32::MAX ==> rec.vector_dim == before.vector@.len()) && (
            vstd::utf8::encode_utf8(call.req.text@).len() <= u32::MAX ==> rec.text_len
                == vstd::utf8::encode_utf8(call.req.text@).len())))
            &&& after.stages@.len() > before.stages@.len() ==> after.stages@.drop_last()
                == before.stages@
        },
{
    crate::bytes::pow256_values();
    crate::bytes::be_round_trip(before.memory_id as nat, 16);
}

/// The trace of an encode shows its own stages and then the derived ones, each
/// as it was, with the artifacts and the whole time.
pub proof fn encode_traces_show_every_stage(
    t: EncodeTrace,
    own: Seq<EncodeTraceStage>,
    derived: Derived,
    graph: EncodeStageGraph,
    i: int,
)
    requires
        is_encode_trace(t, own, derived, graph),
    ensures
        t.stages@.len() == own.len() + derived.stages@.len(),
        0 <= i < own.len() ==> t.stages@[i].name@ == own[i].name@ && t.stages@[i].status
            == own[i].status && t.stages@[i].latency_us == own[i].latency_us,
        0 <= i < derived.stages@.len() ==> t.stages@[own.len() + i].name@
            == derived.stages@[i].name@ && t.stages@[own.len() + i].status
            == derived.stages@[i].status && t.stages@[own.len() + i].latency_us
            == derived.stages@[i].latency_us,
        t.artifacts == derived.artifacts && t.total_latency_us == derived.total_latency_us,
{
    let stages = own + derived.stages@;
    if 0 <= i < own.len() {
        assert(attached(
            stages,
            t.stages@,
            i,
            graph,
            derived.keyword_fields,
            derived.hype_questions,
        ));
    }
    if 0 <= i < derived.stages@.len() {
        assert(attached(
            stages,
            t.stages@,
            own.len() + i,
            graph,
            derived.keyword_fields,
            derived.hype_questions,
        ));
    }
}

} // verus!
