//! Writes handed to the write path, and what it acknowledges.
use vstd::prelude::*;

use crate::hash::blake3_digest;
use crate::scope::RowScope;
use crate::single::Single;
use crate::entity::Entity;
use crate::events::MemoryKind;
use crate::statement::{EvidenceRefWire, Statement, StatementKind, StatementObject, SubjectRef};
use crate::text::join2;
use crate::error::{ErrorView, OpError};

verus! {

/// The key under which a write is remembered: the request and the space it
/// acts for, or none for a write that is never replayed.
#[derive(Clone, Copy, Debug, PartialEq, Eq)]
pub enum WriteId {
    Request { request_id: [u8; 16], space_id: [u8; 16] },
    Fresh,
}

/// What a tombstone takes away.
#[derive(Clone, Copy, Debug, PartialEq, Eq)]
pub enum TombstoneTarget {
    Memory { id: u128, hard: bool },
    Statement([u8; 16]),
    Entity([u8; 16]),
}

/// One step of a write.
#[allow(inconsistent_fields)]
#[derive(Debug)]
pub enum Phase {
    UpsertMemory {
        id: u128,
        text: String,
        vector: Vec<Single>,
        kind: MemoryKind,
        salience: Single,
        session_id: u64,
        created_at_unix_nanos: u64,
        occurred_at_unix_nanos: Option<u64>,
        arena_slot: u64,
        embedding_model_fp: [u8; 16],
        content_hash: Option<[u8; 32]>,
        deduplicate: bool,
    },
    UpsertEntity {
        id: [u8; 16],
        ty: u32,
        session: u64,
        canonical: String,
        normalized: String,
        aliases: Vec<String>,
        attributes: Vec<u8>,
        created_at_unix_nanos: u64,
    },
    UpdateEntity {
        id: [u8; 16],
        canonical_name: String,
        aliases: Vec<String>,
        attributes_blob: Vec<u8>,
        at_unix_nanos: u64,
    },
    RenameEntity { id: [u8; 16], new_canonical_name: String, at_unix_nanos: u64 },
    MergeEntities {
        source: [u8; 16],
        target: [u8; 16],
        retain_aliases: bool,
        retain_attributes: bool,
        at_unix_nanos: u64,
        confidence: Single,
        reason: String,
        actor_space: [u8; 16],
        grace_seconds: u64,
    },
    UnmergeEntities { merged: [u8; 16], actor_space: [u8; 16], at_unix_nanos: u64 },
    Tombstone { target: TombstoneTarget, reason: u8, at_unix_nanos: u64 },
    UpsertStatement {
        id: [u8; 16],
        kind: StatementKind,
        session: u64,
        subject: SubjectRef,
        predicate: u32,
        object: StatementObject,
        confidence: Single,
        evidence: EvidenceRefWire,
        valid_from_unix_nanos: Option<u64>,
        extractor: u32,
        extracted_at_unix_nanos: u64,
        schema_version: u32,
        predicate_intern_hint: Option<(String, String)>,
    },
    SupersedeStatement { old: [u8; 16], replacement: Statement, at_unix_nanos: u64 },
    UpsertSchema {
        namespace: String,
        version: u32,
        blob: Vec<u8>,
        created_at_unix_nanos: u64,
        replace_all: bool,
    },
    SessionCreate { session_id: u64, title: String, created_at_unix_nanos: u64 },
    SessionDelete { session_id: u64, hard: bool, at_unix_nanos: u64 },
    SpaceCreate { created_at_unix_nanos: u64, metadata: Vec<u8> },
    SpaceDelete { at_unix_nanos: u64 },
    RestoreMemory { id: u128, at_unix_nanos: u64 },
}

/// A single-phase write.
#[derive(Debug)]
pub struct Write {
    pub write_id: WriteId,
    pub space_id: [u8; 16],
    pub namespace_id: Option<u32>,
    pub space_string: Option<String>,
    pub request_hash: Option<[u8; 32]>,
    pub phase: Phase,
}

/// Whether a write is filed under its request.
pub open spec fn files_request(
    r: Write,
    request_id: [u8; 16],
    caller: RowScope,
    request_hash: [u8; 32],
    phase: Phase,
) -> bool {
    r == (Write {
        write_id: WriteId::Request { request_id, space_id: caller.space_id_bytes },
        space_id: caller.space_id_bytes,
        namespace_id: Some(caller.namespace_id),
        space_string: None,
        request_hash: Some(request_hash),
        phase,
    })
}

/// A write for the caller, remembered under the request id.
pub fn request_write(
    request_id: [u8; 16],
    caller: &RowScope,
    request_hash: [u8; 32],
    phase: Phase,
) -> (r: Write)
    ensures
        files_request(r, request_id, *caller, request_hash, phase),
{
    Write {
        write_id: WriteId::Request { request_id, space_id: caller.space_id_bytes },
        space_id: caller.space_id_bytes,
        namespace_id: Some(caller.namespace_id),
        space_string: None,
        request_hash: Some(request_hash),
        phase,
    }
}

/// Whether a write is the caller's, remembered under a request id with the
/// digest of the request's fields.
pub open spec fn is_request_write(
    w: Write,
    request_id: [u8; 16],
    caller: RowScope,
    fields: Seq<u8>,
) -> bool {
    &&& w.write_id == (WriteId::Request { request_id, space_id: caller.space_id_bytes })
    &&& w.space_id == caller.space_id_bytes
    &&& w.namespace_id == Some(caller.namespace_id)
    &&& w.space_string is None
    &&& w.request_hash matches Some(h) && h@ == blake3_digest(fields)
}

/// What the write path acknowledges of one phase.
#[derive(Debug)]
pub enum PhaseAck {
    UpsertedMemory(u128),
    Linked,
    UpsertedEntity([u8; 16]),
    EntityUpdated { snapshot: Entity },
    EntityRenamed { old_canonical_name: String, snapshot: Entity },
    EntityMerged { audit_id: [u8; 16], statements_rerouted: u32, relations_rerouted: u32 },
    EntitiesUnmerged { survivor: [u8; 16] },
    Tombstoned { tombstoned_at_unix_nanos: u64 },
    UpsertedStatement([u8; 16]),
    SupersededStatement([u8; 16]),
    UpsertedSchema { version: u32, dropped: u32 },
    SessionCreated { created: bool },
    SessionDeleted { existed: bool },
    SpaceCreated { created: bool },
    SpaceDeleted { existed: bool },
    MemoryRestored { already_active: bool },
    Other,
}

/// An acknowledged phase, and how it prints.
#[derive(Debug)]
pub struct Ack {
    pub phase: PhaseAck,
    pub shown: String,
}

/// The error for an acknowledgement of another phase.
pub open spec fn unexpected_ack(prefix: Seq<char>, shown: Seq<char>) -> ErrorView {
    ErrorView::Internal(prefix + shown)
}

/// The error for an acknowledgement of another phase.
pub fn unexpected(prefix: &str, shown: &str) -> (r: OpError)
    ensures
        r@ == unexpected_ack(prefix@, shown@),
{
    OpError::Internal(join2(prefix, shown))
}

} // verus!
