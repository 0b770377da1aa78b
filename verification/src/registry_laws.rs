//! What the sessions, spaces and memories of a tenant go through.
use vstd::prelude::*;

use crate::bytes::be_value;
use crate::entity_laws::filed_for;
use crate::error::{ErrorView, OpError};
use crate::extractor_admin::{
    extractor_error, shows_extractors, ExtractorListResponseFrame, ExtractorOpError, ExtractorRow,
};
use crate::registry_cascade::{
    bounds_timeline, cascade_memories, forgets_memories, forgets_memory, key_memory, key_session,
};
use crate::restore::{
    answers_restore, plans_restore, AdminRestoreOutcome, ForgottenRow, RestoreStep,
};
use crate::scope::RowScope;
use crate::session::{
    admits_session_delete, answers_session, answers_session_delete, plans_session,
    plans_session_delete, shows_sessions, SessionCreateRequest, SessionCreateResponse,
    SessionDeleteRequest, SessionDeleteResponse, SessionListResponse, SessionRow,
};
use crate::space::{
    answers_space, answers_space_delete, plans_space, plans_space_delete, shows_spaces,
    SpaceCreateRequest, SpaceCreateResponse, SpaceDeleteResponse, SpaceListResponse, SpaceRow,
};
use crate::write::{Ack, Phase, PhaseAck, TombstoneTarget, Write};

verus! {

// Sessions.

/// A session is created as the request names it, for its caller, and answered
/// from the stored row; without one it is new and empty.
pub proof fn sessions_hold_the_request(
    w: Write,
    r: SessionCreateResponse,
    req: SessionCreateRequest,
    ack: Ack,
    row: Option<SessionRow>,
    caller: RowScope,
    now: u64,
)
    requires
        plans_session(w, req, caller, now),
        answers_session(r, req, ack, row, caller, now),
    ensures
        filed_for(w, req.request_id, caller),
        w.phase matches Phase::SessionCreate { session_id, title, created_at_unix_nanos }
            && session_id == req.session_id && title@ == req.title@ && created_at_unix_nanos == now,
        r.session_id == w.phase->SessionCreate_session_id && r.space_id == w.space_id,
        r.created <==> (ack.phase matches PhaseAck::SessionCreated { created } && created),
        row is None ==> (r.created_at_unix_nanos, r.last_active_unix_nanos, r.memory_count) == (
            now,
            now,
            0u64,
        ),
        row matches Some(m) ==> (
            r.created_at_unix_nanos,
            r.last_active_unix_nanos,
            r.memory_count,
        ) == (m.created_at_unix_nanos, m.last_active_unix_nanos, m.memory_count),
{
}

/// Any session but the default one can be deleted, softly or for good, by its
/// owner.
pub proof fn sessions_end_as_asked(
    admitted: Result<(), OpError>,
    planned: Result<Write, OpError>,
    r: SessionDeleteResponse,
    req: SessionDeleteRequest,
    ack: Ack,
    memories_forgotten: u64,
    caller: RowScope,
    now: u64,
)
    requires
        admits_session_delete(admitted, req),
        plans_session_delete(planned, req, caller, now),
        answers_session_delete(r, req, ack, memories_forgotten, caller),
    ensures
        admitted is Ok <==> req.session_id > 0,
        planned is Ok <==> req.session_id > 0,
        planned matches Err(e) ==> e is InvalidRequest,
        planned matches Ok(w) ==> filed_for(w, req.request_id, caller) && w.phase == (
        Phase::SessionDelete { session_id: req.session_id, hard: req.hard, at_unix_nanos: now })
            && r.space_id == w.space_id,
        r.session_id == req.session_id && r.memories_forgotten == memories_forgotten,
        r.existed <==> (ack.phase matches PhaseAck::SessionDeleted { existed } && existed),
{
}

/// A list of sessions shows every row, in order.
pub proof fn session_lists_show_their_rows(
    r: SessionListResponse,
    rows: Vec<SessionRow>,
    caller: RowScope,
    i: int,
)
    requires
        shows_sessions(r, rows, caller),
        0 <= i < rows@.len(),
    ensures
        r.space_id == caller.space_id_bytes,
        r.sessions@.len() == rows@.len(),
        ({
            let (v, row) = (r.sessions@[i], rows@[i]);
            &&& (v.session_id, v.memory_count) == (row.session_id, row.memory_count)
            &&& (v.created_at_unix_nanos, v.last_active_unix_nanos) == (
                row.created_at_unix_nanos,
                row.last_active_unix_nanos,
            )
            &&& v.title@ == row.title@
        }),
{
}

// Spaces.

/// A space is created for its caller with the metadata of the request, and
/// answered from the stored row.
pub proof fn spaces_hold_the_request(
    w: Write,
    r: SpaceCreateResponse,
    req: SpaceCreateRequest,
    ack: Ack,
    row: Option<SpaceRow>,
    caller: RowScope,
    now: u64,
)
    requires
        plans_space(w, req, caller, now),
        answers_space(r, ack, row, caller, now),
    ensures
        filed_for(w, req.request_id, caller),
        w.phase matches Phase::SpaceCreate { created_at_unix_nanos, metadata }
            && created_at_unix_nanos == now && metadata@ == req.metadata@,
        r.space_id == w.space_id,
        r.created <==> (ack.phase matches PhaseAck::SpaceCreated { created } && created),
        row is None ==> (r.created_at_unix_nanos, r.last_active_unix_nanos) == (now, now)
            && r.memory_count == 0 && r.session_count == 0,
        row matches Some(m) ==> (r.created_at_unix_nanos, r.last_active_unix_nanos) == (
            m.created_at_unix_nanos,
            m.last_active_unix_nanos,
        ) && (r.memory_count, r.session_count) == (m.memory_count, m.session_count),
{
}

/// A space ends for its caller, who is told whether it was there and how many
/// memories went with it.
pub proof fn spaces_end_for_their_caller(
    w: Write,
    r: SpaceDeleteResponse,
    request_id: [u8; 16],
    ack: Ack,
    memories_forgotten: u64,
    caller: RowScope,
    now: u64,
)
    requires
        plans_space_delete(w, request_id, caller, now),
        answers_space_delete(r, ack, memories_forgotten, caller),
    ensures
        filed_for(w, request_id, caller),
        w.phase == (Phase::SpaceDelete { at_unix_nanos: now }),
        r.space_id == w.space_id && r.memories_forgotten == memories_forgotten,
        r.existed <==> (ack.phase matches PhaseAck::SpaceDeleted { existed } && existed),
{
}

/// A list of spaces shows every row of this shard, in order, and does not claim
/// to be complete.
pub proof fn space_lists_show_their_rows(r: SpaceListResponse, rows: Vec<SpaceRow>, i: int)
    requires
        shows_spaces(r, rows),
        0 <= i < rows@.len(),
    ensures
        r.spaces@.len() == rows@.len(),
        ({
            let (v, row) = (r.spaces@[i], rows@[i]);
            &&& (v.space_id, v.memory_count, v.session_count) == (
                row.space_id,
                row.memory_count,
                row.session_count,
            )
            &&& (v.created_at_unix_nanos, v.last_active_unix_nanos) == (
                row.created_at_unix_nanos,
                row.last_active_unix_nanos,
            )
        }),
        r.cross_shard_complete == false,
{
}

// Cascades.

/// The bounds of a timeline enclose every key under its prefix.
pub proof fn timelines_are_enclosed(r: ([u8; 52], [u8; 52]), prefix: [u8; 20], i: int)
    requires
        bounds_timeline(r, prefix),
    ensures
        0 <= i < 20 ==> r.0@[i] == prefix@[i] && r.1@[i] == prefix@[i],
        20 <= i < 52 ==> r.0@[i] == 0 && r.1@[i] == 255,
{
    if 0 <= i < 20 {
        assert(r.0@.take(20)[i] == prefix@[i]);
        assert(r.1@.take(20)[i] == prefix@[i]);
    }
}

proof fn cascades_hold_every_memory(keys: Seq<[u8; 52]>, session: Option<u64>, i: int)
    requires
        0 <= i < keys.len(),
        session matches Some(want) ==> key_session(keys[i]) == want,
    ensures
        cascade_memories(keys, session).contains(key_memory(keys[i]) as u128),
    decreases keys.len(),
{
    let front = keys.drop_last();
    let all = cascade_memories(keys, session);
    let before = cascade_memories(front, session);
    if i < front.len() {
        assert(front[i] == keys[i]);
        cascades_hold_every_memory(front, session, i);
        let k = choose|k: int| 0 <= k < before.len() && before[k] == key_memory(keys[i]) as u128;
        assert(all[k] == before[k]);
    } else {
        assert(all[before.len() as int] == key_memory(keys[i]) as u128);
    }
}

/// Whether one of the writes forgets a memory.
pub open spec fn one_forgets(writes: Seq<Write>, id: u128, hard: bool) -> bool {
    exists|k: int|
        0 <= k < writes.len() && ((#[trigger] writes[k]).phase matches Phase::Tombstone {
            target,
            reason: _,
            at_unix_nanos: _,
        } && target == (TombstoneTarget::Memory { id, hard }))
}

/// Ending a space or a session forgets every memory in its timeline, for its
/// owner alone, and leaves the memories of other sessions alone. A key names
/// its session in the bytes from the twenty-eighth and its memory in the last
/// sixteen.
pub proof fn cascades_forget_what_they_enclose(
    r: Vec<Write>,
    keys: Vec<[u8; 52]>,
    hard: bool,
    session: Option<u64>,
    caller: RowScope,
    now: u64,
    i: int,
    k: int,
)
    requires
        forgets_memories(r, keys, hard, session, caller, now),
        0 <= i < keys@.len(),
        0 <= k < r@.len(),
    ensures
        (session matches Some(want) ==> be_value(keys@[i]@.subrange(28, 36)) == want) ==> one_forgets(
            r@,
            be_value(keys@[i]@.subrange(36, 52)) as u128,
            hard,
        ),
        ({
            let w = r@[k];
            &&& w.write_id is Fresh && w.request_hash is None
            &&& w.space_id == caller.space_id_bytes && w.namespace_id == Some(caller.namespace_id)
            &&& w.phase matches Phase::Tombstone { target, reason, at_unix_nanos } && reason == 1
                && at_unix_nanos == now && (target matches TombstoneTarget::Memory { id, hard: h }
                && h == hard && exists|j: int|
                0 <= j < keys@.len() && be_value((#[trigger] keys@[j])@.subrange(36, 52)) as u128
                    == id && (session matches Some(want) ==> be_value(
                    keys@[j]@.subrange(28, 36),
                ) == want))
        }),
{
    let ids = cascade_memories(keys@, session);
    if session matches Some(want) ==> key_session(keys@[i]) == want {
        cascades_hold_every_memory(keys@, session, i);
        let id = key_memory(keys@[i]) as u128;
        let n = choose|n: int| 0 <= n < ids.len() && ids[n] == id;
        assert(r@[n].phase is Tombstone);
    }
    let id = ids[k];
    assert(ids.contains(id));
    crate::registry_cascade::cascades_stay_in_their_session(keys@, session, id);
    assert(r@[k].phase is Tombstone);
}

/// A cascade forgets a memory as its owner would.
pub proof fn single_cascades_forget_their_memory(
    w: Write,
    id: u128,
    hard: bool,
    caller: RowScope,
    now: u64,
)
    requires
        forgets_memory(w, id, hard, caller, now),
    ensures
        w.space_id == caller.space_id_bytes && w.namespace_id == Some(caller.namespace_id),
        w.phase == (Phase::Tombstone {
            target: TombstoneTarget::Memory { id, hard },
            reason: 1,
            at_unix_nanos: now,
        }),
        w.write_id is Fresh && w.request_hash is None,
{
}

// Restoring.

/// A memory comes back only in its own namespace, only where it was forgotten
/// softly, and only until its grace has passed; it comes back under its id, in
/// its own space.
pub proof fn memories_come_back_within_grace(
    r: RestoreStep,
    memory_id: u128,
    namespace: Option<u32>,
    row: Option<ForgottenRow>,
    grace_nanos: u64,
    now: u64,
)
    requires
        plans_restore(r, memory_id, namespace, row, grace_nanos, now),
    ensures
        r is Submit <==> (row matches Some(m) && namespace == Some(m.namespace_id)
            && !m.hard_forgotten && !m.active && (m.tombstoned_at_unix_nanos matches Some(t) && (t
            + grace_nanos >= now))),
        r matches RestoreStep::Submit(w) ==> (row matches Some(m) && w.space_id == m.space_id)
            && w.namespace_id == namespace && w.phase == (Phase::RestoreMemory {
            id: memory_id,
            at_unix_nanos: now,
        }) && w.write_id is Fresh && w.request_hash is None,
        row is None || namespace is None || row->0.namespace_id != namespace->0 ==> r
            == RestoreStep::Answer(AdminRestoreOutcome::NotFound),
        row matches Some(m) ==> namespace == Some(m.namespace_id) ==> {
            &&& m.hard_forgotten ==> r == RestoreStep::Answer(AdminRestoreOutcome::HardForgotten)
            &&& !m.hard_forgotten && m.active ==> r == RestoreStep::Answer(
                AdminRestoreOutcome::AlreadyActive,
            )
            &&& !m.hard_forgotten && !m.active && r !is Submit ==> r == RestoreStep::Answer(
                AdminRestoreOutcome::PastGrace,
            )
        },
{
}

/// A restoration is answered as it was acknowledged.
pub proof fn restorations_are_answered(r: Result<AdminRestoreOutcome, OpError>, ack: Ack)
    requires
        answers_restore(r, ack),
    ensures
        r is Ok <==> ack.phase is MemoryRestored,
        ack.phase == (PhaseAck::MemoryRestored { already_active: false }) ==> r == Ok::<
            AdminRestoreOutcome,
            OpError,
        >(AdminRestoreOutcome::Restored),
        ack.phase == (PhaseAck::MemoryRestored { already_active: true }) ==> r == Ok::<
            AdminRestoreOutcome,
            OpError,
        >(AdminRestoreOutcome::AlreadyActive),
{
}

// Extractors.

/// A list of extractors shows every row, in order, and counts them.
pub proof fn extractor_lists_show_their_rows(
    r: ExtractorListResponseFrame,
    rows: Vec<ExtractorRow>,
    i: int,
)
    requires
        shows_extractors(r, rows),
        0 <= i < rows@.len() <= u32::MAX,
    ensures
        r.total == r.items@.len() && r.items@.len() == rows@.len() && r.is_final,
        ({
            let (v, row) = (r.items@[i], rows@[i]);
            &&& (v.extractor_id, v.kind, v.schema_version, v.created_at_unix_nanos) == (
                row.extractor_id,
                row.kind,
                row.schema_version,
                row.created_at_unix_nanos,
            )
            &&& v.namespace@ == row.namespace@ && v.name@ == row.name@
        }),
{
}

/// A failure of the extractor store becomes the error of its kind.
pub proof fn extractor_failures_keep_their_kind(e: ExtractorOpError)
    ensures
        e is NotFound <==> extractor_error(e) is NotFound,
        e is AlreadyExists <==> extractor_error(e) is Conflict,
        e matches ExtractorOpError::InvalidIdentifier { reason } ==> extractor_error(e)
            == ErrorView::InvalidRequest(reason@),
        e matches ExtractorOpError::Other(m) ==> extractor_error(e) == ErrorView::Internal(m@),
{
}

} // verus!
