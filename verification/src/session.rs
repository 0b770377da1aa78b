//! Sessions of a space.
use vstd::prelude::*;

use crate::error::{fails, invalid, ErrorView, OpError};
use crate::registry_cascade::{build_write, registry_fields};
use crate::scope::RowScope;
use crate::write::{is_request_write, Ack, Phase, PhaseAck, Write};

verus! {

/// The session of memories without one. It is never deleted.
pub const DEFAULT_SESSION: u64 = 0;

#[derive(Debug)]
pub struct SessionCreateRequest {
    pub session_id: u64,
    pub title: String,
    pub request_id: [u8; 16],
}

#[derive(Clone, Copy, Debug, PartialEq, Eq)]
pub struct SessionDeleteRequest {
    pub session_id: u64,
    pub hard: bool,
    pub request_id: [u8; 16],
}

/// A stored session.
#[derive(Debug)]
pub struct SessionRow {
    pub session_id: u64,
    pub created_at_unix_nanos: u64,
    pub last_active_unix_nanos: u64,
    pub title: String,
    pub memory_count: u64,
}

#[derive(Clone, Copy, Debug, PartialEq, Eq)]
pub struct SessionCreateResponse {
    pub space_id: [u8; 16],
    pub session_id: u64,
    pub created: bool,
    pub created_at_unix_nanos: u64,
    pub last_active_unix_nanos: u64,
    pub memory_count: u64,
}

/// Whether a write creates a session.
pub open spec fn plans_session(
    r: Write,
    req: SessionCreateRequest,
    caller: RowScope,
    now: u64,
) -> bool {
    &&& is_request_write(
        r,
        req.request_id,
        caller,
        registry_fields("session_create"@, req.request_id, caller.space_id_bytes),
    )
    &&& r.phase == (Phase::SessionCreate {
        session_id: req.session_id,
        title: req.title,
        created_at_unix_nanos: now,
    })
}

/// Plans a new session.
pub fn plan_session_create(req: &SessionCreateRequest, caller: &RowScope, now: u64) -> (r: Write)
    ensures
        plans_session(r, *req, *caller, now),
{
    let phase = Phase::SessionCreate {
        session_id: req.session_id,
        title: req.title.clone(),
        created_at_unix_nanos: now,
    };
    build_write(req.request_id, caller, phase, "session_create")
}

/// What a created session is answered.
pub open spec fn answers_session(
    r: SessionCreateResponse,
    req: SessionCreateRequest,
    ack: Ack,
    row: Option<SessionRow>,
    caller: RowScope,
    now: u64,
) -> bool {
    &&& r.space_id == caller.space_id_bytes
    &&& r.session_id == req.session_id
    &&& r.created == (ack.phase == PhaseAck::SessionCreated { created: true })
    &&& match row {
        Some(m) => r.created_at_unix_nanos == m.created_at_unix_nanos
            && r.last_active_unix_nanos == m.last_active_unix_nanos && r.memory_count
            == m.memory_count,
        None => r.created_at_unix_nanos == now && r.last_active_unix_nanos == now
            && r.memory_count == 0,
    }
}

/// Answers a create with the stored row, or with the current time where it is
/// not there yet.
pub fn finish_session_create(
    req: &SessionCreateRequest,
    ack: &Ack,
    row: &Option<SessionRow>,
    caller: &RowScope,
    now: u64,
) -> (r: SessionCreateResponse)
    ensures
        answers_session(r, *req, *ack, *row, *caller, now),
{
    let created = match &ack.phase {
        PhaseAck::SessionCreated { created } => *created,
        _ => false,
    };
    let (created_at_unix_nanos, last_active_unix_nanos, memory_count) = match row {
        Some(m) => (m.created_at_unix_nanos, m.last_active_unix_nanos, m.memory_count),
        None => (now, now, 0u64),
    };
    SessionCreateResponse {
        space_id: caller.space_id_bytes,
        session_id: req.session_id,
        created,
        created_at_unix_nanos,
        last_active_unix_nanos,
        memory_count,
    }
}

#[derive(Debug)]
pub struct SessionView {
    pub session_id: u64,
    pub created_at_unix_nanos: u64,
    pub last_active_unix_nanos: u64,
    pub title: String,
    pub memory_count: u64,
}

#[derive(Debug)]
pub struct SessionListResponse {
    pub space_id: [u8; 16],
    pub sessions: Vec<SessionView>,
}

/// Whether a view shows a session.
pub open spec fn shows_session(v: SessionView, row: SessionRow) -> bool {
    &&& v.session_id == row.session_id
    &&& v.created_at_unix_nanos == row.created_at_unix_nanos
    &&& v.last_active_unix_nanos == row.last_active_unix_nanos
    &&& v.title == row.title
    &&& v.memory_count == row.memory_count
}

/// Whether an answer lists sessions.
pub open spec fn shows_sessions(
    r: SessionListResponse,
    rows: Vec<SessionRow>,
    caller: RowScope,
) -> bool {
    &&& r.space_id == caller.space_id_bytes
    &&& r.sessions@.len() == rows@.len()
    &&& (forall|i: int|
        0 <= i < rows@.len() ==> shows_session(#[trigger] r.sessions@[i], rows@[i]))
}

/// Lists the sessions that were read, in their order.
pub fn session_list_response(rows: Vec<SessionRow>, caller: &RowScope) -> (r: SessionListResponse)
    ensures
        shows_sessions(r, rows, *caller),
{
    let ghost all = rows@;
    let mut sessions: Vec<SessionView> = Vec::new();
    for e in it: rows
        invariant
            it.seq() == all,
            sessions@.len() == it.index(),
            forall|k: int| 0 <= k < it.index() ==> shows_session(#[trigger] sessions@[k], all[k]),
    {
        sessions.push(
            SessionView {
                session_id: e.session_id,
                created_at_unix_nanos: e.created_at_unix_nanos,
                last_active_unix_nanos: e.last_active_unix_nanos,
                title: e.title,
                memory_count: e.memory_count,
            },
        );
    }
    SessionListResponse { space_id: caller.space_id_bytes, sessions }
}

/// Which sessions can be deleted.
pub open spec fn admits_session_delete(
    r: Result<(), OpError>,
    req: SessionDeleteRequest,
) -> bool {
    &&& (req.session_id == DEFAULT_SESSION ==> fails(
        r,
        ErrorView::InvalidRequest("the default session (session_id = 0) is non-deletable"@),
    ))
    &&& (req.session_id != DEFAULT_SESSION ==> r is Ok)
}

/// Admits a delete: never of the default session. Asked before the session's
/// memories are forgotten.
pub fn admit_session_delete(req: &SessionDeleteRequest) -> (r: Result<(), OpError>)
    ensures
        admits_session_delete(r, *req),
{
    if req.session_id == DEFAULT_SESSION {
        return Err(invalid("the default session (session_id = 0) is non-deletable"));
    }
    Ok(())
}

/// What planning the end of a session comes to.
pub open spec fn plans_session_delete(
    r: Result<Write, OpError>,
    req: SessionDeleteRequest,
    caller: RowScope,
    now: u64,
) -> bool {
    &&& (req.session_id == DEFAULT_SESSION ==> fails(
        r,
        ErrorView::InvalidRequest("the default session (session_id = 0) is non-deletable"@),
    ))
    &&& (req.session_id != DEFAULT_SESSION ==> (r matches Ok(w) && is_request_write(
        w,
        req.request_id,
        caller,
        registry_fields("session_delete"@, req.request_id, caller.space_id_bytes),
    ) && w.phase == (Phase::SessionDelete {
        session_id: req.session_id,
        hard: req.hard,
        at_unix_nanos: now,
    })))
}

/// Plans the delete of a session's row.
pub fn plan_session_delete(req: &SessionDeleteRequest, caller: &RowScope, now: u64) -> (r: Result<
    Write,
    OpError,
>)
    ensures
        plans_session_delete(r, *req, *caller, now),
{
    match admit_session_delete(req) {
        Ok(()) => {},
        Err(e) => {
            return Err(e);
        },
    }
    let phase = Phase::SessionDelete {
        session_id: req.session_id,
        hard: req.hard,
        at_unix_nanos: now,
    };
    Ok(build_write(req.request_id, caller, phase, "session_delete"))
}

#[derive(Clone, Copy, Debug, PartialEq, Eq)]
pub struct SessionDeleteResponse {
    pub space_id: [u8; 16],
    pub session_id: u64,
    pub existed: bool,
    pub memories_forgotten: u64,
}

/// What the end of a session is answered.
pub open spec fn answers_session_delete(
    r: SessionDeleteResponse,
    req: SessionDeleteRequest,
    ack: Ack,
    memories_forgotten: u64,
    caller: RowScope,
) -> bool {
    r == (SessionDeleteResponse {
        space_id: caller.space_id_bytes,
        session_id: req.session_id,
        existed: ack.phase == PhaseAck::SessionDeleted { existed: true },
        memories_forgotten,
    })
}

/// Answers a delete.
pub fn finish_session_delete(
    req: &SessionDeleteRequest,
    ack: &Ack,
    memories_forgotten: u64,
    caller: &RowScope,
) -> (r: SessionDeleteResponse)
    ensures
        answers_session_delete(r, *req, *ack, memories_forgotten, *caller),
{
    let existed = match &ack.phase {
        PhaseAck::SessionDeleted { existed } => *existed,
        _ => false,
    };
    SessionDeleteResponse {
        space_id: caller.space_id_bytes,
        session_id: req.session_id,
        existed,
        memories_forgotten,
    }
}

} // verus!
