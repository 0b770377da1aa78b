//! Spaces of a namespace.
use vstd::prelude::*;

use crate::bytes::copy_bytes;
use crate::registry_cascade::{build_write, registry_fields};
use crate::scope::RowScope;
use crate::write::{is_request_write, Ack, Phase, PhaseAck, Write};

verus! {

#[derive(Debug)]
pub struct SpaceCreateRequest {
    pub metadata: Vec<u8>,
    pub request_id: [u8; 16],
}

/// A stored space.
#[derive(Clone, Copy, Debug, PartialEq, Eq)]
pub struct SpaceRow {
    pub space_id: [u8; 16],
    pub created_at_unix_nanos: u64,
    pub last_active_unix_nanos: u64,
    pub memory_count: u64,
    pub session_count: u64,
}

#[derive(Clone, Copy, Debug, PartialEq, Eq)]
pub struct SpaceCreateResponse {
    pub space_id: [u8; 16],
    pub created: bool,
    pub created_at_unix_nanos: u64,
    pub last_active_unix_nanos: u64,
    pub memory_count: u64,
    pub session_count: u64,
}

/// Whether a write creates a space.
pub open spec fn plans_space(
    r: Write,
    req: SpaceCreateRequest,
    caller: RowScope,
    now: u64,
) -> bool {
    &&& is_request_write(
        r,
        req.request_id,
        caller,
        registry_fields("space_create"@, req.request_id, caller.space_id_bytes),
    )
    &&& r.phase matches Phase::SpaceCreate { created_at_unix_nanos, metadata }
        && created_at_unix_nanos == now && metadata@ == req.metadata@
}

/// Plans a new space: the caller's own.
pub fn plan_space_create(req: &SpaceCreateRequest, caller: &RowScope, now: u64) -> (r: Write)
    ensures
        plans_space(r, *req, *caller, now),
{
    let phase = Phase::SpaceCreate {
        created_at_unix_nanos: now,
        metadata: copy_bytes(req.metadata.as_slice()),
    };
    build_write(req.request_id, caller, phase, "space_create")
}

/// What a created space is answered.
pub open spec fn answers_space(
    r: SpaceCreateResponse,
    ack: Ack,
    row: Option<SpaceRow>,
    caller: RowScope,
    now: u64,
) -> bool {
    &&& r.space_id == caller.space_id_bytes
    &&& r.created == (ack.phase == PhaseAck::SpaceCreated { created: true })
    &&& match row {
        Some(m) => r.created_at_unix_nanos == m.created_at_unix_nanos
            && r.last_active_unix_nanos == m.last_active_unix_nanos && r.memory_count
            == m.memory_count && r.session_count == m.session_count,
        None => r.created_at_unix_nanos == now && r.last_active_unix_nanos == now
            && r.memory_count == 0 && r.session_count == 0,
    }
}

/// Answers a create with the stored row, or with the current time where it is
/// not there yet.
pub fn finish_space_create(ack: &Ack, row: Option<SpaceRow>, caller: &RowScope, now: u64) -> (r:
    SpaceCreateResponse)
    ensures
        answers_space(r, *ack, row, *caller, now),
{
    let created = match &ack.phase {
        PhaseAck::SpaceCreated { created } => *created,
        _ => false,
    };
    let (created_at_unix_nanos, last_active_unix_nanos, memory_count, session_count) = match row {
        Some(m) => (
            m.created_at_unix_nanos,
            m.last_active_unix_nanos,
            m.memory_count,
            m.session_count,
        ),
        None => (now, now, 0u64, 0u64),
    };
    SpaceCreateResponse {
        space_id: caller.space_id_bytes,
        created,
        created_at_unix_nanos,
        last_active_unix_nanos,
        memory_count,
        session_count,
    }
}

#[derive(Clone, Copy, Debug, PartialEq, Eq)]
pub struct SpaceView {
    pub space_id: [u8; 16],
    pub created_at_unix_nanos: u64,
    pub last_active_unix_nanos: u64,
    pub memory_count: u64,
    pub session_count: u64,
}

/// A space as clients see it.
pub open spec fn space_view(row: SpaceRow) -> SpaceView {
    SpaceView {
        space_id: row.space_id,
        created_at_unix_nanos: row.created_at_unix_nanos,
        last_active_unix_nanos: row.last_active_unix_nanos,
        memory_count: row.memory_count,
        session_count: row.session_count,
    }
}

#[derive(Debug)]
pub struct SpaceListResponse {
    pub spaces: Vec<SpaceView>,
    pub cross_shard_complete: bool,
}

/// Whether an answer lists spaces.
pub open spec fn shows_spaces(
    r: SpaceListResponse,
    rows: Vec<SpaceRow>,
) -> bool {
    &&& r.spaces@ == rows@.map_values(|row: SpaceRow| space_view(row))
    &&& !r.cross_shard_complete
}

/// Lists the spaces that were read, in their order. Only those of one shard
/// are, so the list may be incomplete.
pub fn space_list_response(rows: &Vec<SpaceRow>) -> (r: SpaceListResponse)
    ensures
        shows_spaces(r, *rows),
{
    let mut spaces: Vec<SpaceView> = Vec::new();
    for i in 0..rows.len()
        invariant
            spaces@.len() == i,
            forall|k: int| 0 <= k < i ==> spaces@[k] == space_view(rows@[k]),
    {
        let e = &rows[i];
        spaces.push(
            SpaceView {
                space_id: e.space_id,
                created_at_unix_nanos: e.created_at_unix_nanos,
                last_active_unix_nanos: e.last_active_unix_nanos,
                memory_count: e.memory_count,
                session_count: e.session_count,
            },
        );
    }
    assert(spaces@ =~= rows@.map_values(|row: SpaceRow| space_view(row)));
    SpaceListResponse { spaces, cross_shard_complete: false }
}

/// Whether a write ends a space.
pub open spec fn plans_space_delete(
    r: Write,
    request_id: [u8; 16],
    caller: RowScope,
    now: u64,
) -> bool {
    &&& is_request_write(
        r,
        request_id,
        caller,
        registry_fields("space_delete"@, request_id, caller.space_id_bytes),
    )
    &&& r.phase == (Phase::SpaceDelete { at_unix_nanos: now })
}

/// Plans the delete of a space's row, after its memories are forgotten for
/// good.
pub fn plan_space_delete(request_id: [u8; 16], caller: &RowScope, now: u64) -> (r: Write)
    ensures
        plans_space_delete(r, request_id, *caller, now),
{
    build_write(request_id, caller, Phase::SpaceDelete { at_unix_nanos: now }, "space_delete")
}

#[derive(Clone, Copy, Debug, PartialEq, Eq)]
pub struct SpaceDeleteResponse {
    pub space_id: [u8; 16],
    pub existed: bool,
    pub memories_forgotten: u64,
}

/// What the end of a space is answered.
pub open spec fn answers_space_delete(
    r: SpaceDeleteResponse,
    ack: Ack,
    memories_forgotten: u64,
    caller: RowScope,
) -> bool {
    r == (SpaceDeleteResponse {
        space_id: caller.space_id_bytes,
        existed: ack.phase == PhaseAck::SpaceDeleted { existed: true },
        memories_forgotten,
    })
}

/// Answers a delete.
pub fn finish_space_delete(ack: &Ack, memories_forgotten: u64, caller: &RowScope) -> (r:
    SpaceDeleteResponse)
    ensures
        answers_space_delete(r, *ack, memories_forgotten, *caller),
{
    let existed = match &ack.phase {
        PhaseAck::SpaceDeleted { existed } => *existed,
        _ => false,
    };
    SpaceDeleteResponse { space_id: caller.space_id_bytes, existed, memories_forgotten }
}

} // verus!
