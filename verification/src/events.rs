//! Change-feed events: their payloads, and the records they come from.
use vstd::prelude::*;

use crate::bytes::{be_bytes, be_round_trip, put_be, take16};
use crate::single::Single;

verus! {

/// What a subscription event reports.
#[derive(Clone, Copy, Debug, PartialEq, Eq, Structural)]
pub enum EventType {
    Encoded,
    Forgotten,
    EdgeAdded,
    EdgeRemoved,
    EdgeSuperseded,
    StageCompleted,
    EntityCreated,
    EntityUpdated,
    EntityRenamed,
    EntityMerged,
    EntityUnmerged,
    EntityTombstoned,
    StatementCreated,
    StatementSuperseded,
    StatementTombstoned,
    RelationCreated,
    RelationSuperseded,
    RelationTombstoned,
    SchemaUpdated,
}

/// The kinds of memory.
#[derive(Clone, Copy, Debug, PartialEq, Eq, Structural)]
pub enum MemoryKind {
    Episodic,
    Semantic,
    Consolidated,
}

/// Whether a list has a kind.
pub fn has_kind(list: &Vec<MemoryKind>, kind: MemoryKind) -> (r: bool)
    ensures
        r == list@.contains(kind),
{
    for i in 0..list.len()
        invariant
            forall|j: int| 0 <= j < i ==> list@[j] != kind,
    {
        if list[i] == kind {
            return true;
        }
    }
    false
}

/// The built-in edge kinds between memories.
#[derive(Clone, Copy, Debug, PartialEq, Eq, Structural)]
pub enum EdgeKind {
    Caused,
    FollowedBy,
    DerivedFrom,
    SimilarTo,
    Contradicts,
    Supports,
    References,
    PartOf,
}

impl EdgeKind {
    /// The storage byte of a built-in kind.
    pub open spec fn byte(self) -> u8 {
        match self {
            EdgeKind::Caused => 0,
            EdgeKind::FollowedBy => 1,
            EdgeKind::DerivedFrom => 2,
            EdgeKind::SimilarTo => 3,
            EdgeKind::Contradicts => 4,
            EdgeKind::Supports => 5,
            EdgeKind::References => 6,
            EdgeKind::PartOf => 7,
        }
    }

    pub fn as_u8(self) -> (r: u8)
        ensures
            r == self.byte(),
    {
        match self {
            EdgeKind::Caused => 0,
            EdgeKind::FollowedBy => 1,
            EdgeKind::DerivedFrom => 2,
            EdgeKind::SimilarTo => 3,
            EdgeKind::Contradicts => 4,
            EdgeKind::Supports => 5,
            EdgeKind::References => 6,
            EdgeKind::PartOf => 7,
        }
    }
}

/// An endpoint of an edge.
#[derive(Clone, Copy, Debug, PartialEq, Eq)]
pub enum NodeRef {
    Memory(u128),
    Entity([u8; 16]),
}

/// The kind of an edge: built in, a mention, or a declared relation type.
#[derive(Clone, Copy, Debug, PartialEq, Eq, Structural)]
pub enum EdgeKindRef {
    Builtin(EdgeKind),
    Mentions,
    Typed(u32),
}

/// The asynchronous stages of a write.
#[derive(Clone, Copy, Debug, PartialEq, Eq, Structural)]
pub enum StageKind {
    AutoEdge,
    TemporalEdge,
    Extractor,
    Hype,
}

/// How a stage ended.
#[derive(Clone, Copy, Debug, PartialEq, Eq, Structural)]
pub enum StageOutcome {
    Written,
    Empty,
    Failed,
}

/// What the extractor stage wrote. `audit_status` is the audit verdict as it
/// prints; `error_message` is empty where nothing failed.
#[derive(Clone, Debug)]
pub struct ExtractorStage {
    pub entity_count: u32,
    pub statement_count: u32,
    pub relation_count: u32,
    pub audit_status: String,
    pub error_message: String,
}

/// What a stage wrote.
#[derive(Clone, Debug)]
pub enum StagePayload {
    AutoEdge { edges_written: u32 },
    TemporalEdge { edges_written: u32 },
    Extractor(ExtractorStage),
    Hype { questions_written: u32 },
}

#[derive(Clone, Debug)]
pub struct EntityCreatedEvent {
    pub entity_id: [u8; 16],
    pub entity_type_id: u32,
    pub canonical_name: String,
}

#[derive(Clone, Debug)]
pub struct EntityUpdatedEvent {
    pub entity_id: [u8; 16],
    pub entity_type_id: u32,
    pub canonical_name: String,
    pub embedding_version_changed: bool,
}

#[derive(Clone, Debug)]
pub struct EntityRenamedEvent {
    pub entity_id: [u8; 16],
    pub old_canonical_name: String,
    pub new_canonical_name: String,
    pub old_moved_to_alias: bool,
}

#[derive(Clone, Debug)]
pub struct EntityMergedEvent {
    pub survivor: [u8; 16],
    pub merged: [u8; 16],
    pub audit_id: [u8; 16],
    pub confidence: Single,
    pub statements_rerouted: u32,
    pub relations_rerouted: u32,
}

#[derive(Clone, Debug)]
pub struct EntityUnmergedEvent {
    pub restored_entity_id: [u8; 16],
    pub from_survivor: [u8; 16],
    pub audit_id: [u8; 16],
}

#[derive(Clone, Debug)]
pub struct EntityTombstonedEvent {
    pub entity_id: [u8; 16],
    pub reason: String,
}

#[derive(Clone, Debug)]
pub struct StatementCreatedEvent {
    pub statement_id: [u8; 16],
    pub kind: u8,
    pub subject: [u8; 16],
    pub predicate: String,
    pub confidence: Single,
}

#[derive(Clone, Debug)]
pub struct StatementSupersededEvent {
    pub old_statement_id: [u8; 16],
    pub new_statement_id: [u8; 16],
    pub chain_root: [u8; 16],
}

#[derive(Clone, Debug)]
pub struct StatementTombstonedEvent {
    pub statement_id: [u8; 16],
    pub reason: String,
}

/// A relation event: the relation and, for a supersession, the one it
/// replaced.
#[derive(Clone, Debug)]
pub struct RelationEvent {
    pub relation_id: [u8; 16],
    pub superseded_relation_id: Option<[u8; 16]>,
}

#[derive(Clone, Debug)]
pub struct SchemaUpdatedEvent {
    pub namespace: String,
    pub from_version: u32,
    pub to_version: u32,
    pub backward_compatible: bool,
}

/// The body of a typed-graph event.
#[derive(Clone, Debug)]
pub enum GraphEventPayload {
    EntityCreated(EntityCreatedEvent),
    EntityUpdated(EntityUpdatedEvent),
    EntityRenamed(EntityRenamedEvent),
    EntityMerged(EntityMergedEvent),
    EntityUnmerged(EntityUnmergedEvent),
    EntityTombstoned(EntityTombstonedEvent),
    StatementCreated(StatementCreatedEvent),
    StatementSuperseded(StatementSupersededEvent),
    StatementTombstoned(StatementTombstonedEvent),
    RelationCreated(RelationEvent),
    RelationSuperseded(RelationEvent),
    RelationTombstoned(RelationEvent),
    SchemaUpdated(SchemaUpdatedEvent),
}

impl GraphEventPayload {
    /// The event type that a body belongs to.
    pub open spec fn event_type(self) -> EventType {
        match self {
            GraphEventPayload::EntityCreated(_) => EventType::EntityCreated,
            GraphEventPayload::EntityUpdated(_) => EventType::EntityUpdated,
            GraphEventPayload::EntityRenamed(_) => EventType::EntityRenamed,
            GraphEventPayload::EntityMerged(_) => EventType::EntityMerged,
            GraphEventPayload::EntityUnmerged(_) => EventType::EntityUnmerged,
            GraphEventPayload::EntityTombstoned(_) => EventType::EntityTombstoned,
            GraphEventPayload::StatementCreated(_) => EventType::StatementCreated,
            GraphEventPayload::StatementSuperseded(_) => EventType::StatementSuperseded,
            GraphEventPayload::StatementTombstoned(_) => EventType::StatementTombstoned,
            GraphEventPayload::RelationCreated(_) => EventType::RelationCreated,
            GraphEventPayload::RelationSuperseded(_) => EventType::RelationSuperseded,
            GraphEventPayload::RelationTombstoned(_) => EventType::RelationTombstoned,
            GraphEventPayload::SchemaUpdated(_) => EventType::SchemaUpdated,
        }
    }

    pub fn type_of(&self) -> (r: EventType)
        ensures
            r == self.event_type(),
    {
        match self {
            GraphEventPayload::EntityCreated(_) => EventType::EntityCreated,
            GraphEventPayload::EntityUpdated(_) => EventType::EntityUpdated,
            GraphEventPayload::EntityRenamed(_) => EventType::EntityRenamed,
            GraphEventPayload::EntityMerged(_) => EventType::EntityMerged,
            GraphEventPayload::EntityUnmerged(_) => EventType::EntityUnmerged,
            GraphEventPayload::EntityTombstoned(_) => EventType::EntityTombstoned,
            GraphEventPayload::StatementCreated(_) => EventType::StatementCreated,
            GraphEventPayload::StatementSuperseded(_) => EventType::StatementSuperseded,
            GraphEventPayload::StatementTombstoned(_) => EventType::StatementTombstoned,
            GraphEventPayload::RelationCreated(_) => EventType::RelationCreated,
            GraphEventPayload::RelationSuperseded(_) => EventType::RelationSuperseded,
            GraphEventPayload::RelationTombstoned(_) => EventType::RelationTombstoned,
            GraphEventPayload::SchemaUpdated(_) => EventType::SchemaUpdated,
        }
    }
}

/// The body of an edge event.
#[derive(Clone, Copy, Debug, PartialEq, Eq)]
pub struct EdgeEventPayload {
    pub from_kind: u8,
    pub from_id: [u8; 16],
    pub to_kind: u8,
    pub to_id: [u8; 16],
    pub edge_kind_tag: u8,
    pub edge_kind_byte: u8,
    pub relation_type_id: Option<u32>,
    pub weight: Single,
    pub relation_id: Option<[u8; 16]>,
    pub superseded_relation_id: Option<[u8; 16]>,
    pub origin: u8,
}

impl NodeRef {
    /// The tag byte of an endpoint.
    pub open spec fn tag_byte(self) -> u8 {
        match self {
            NodeRef::Memory(_) => 0,
            NodeRef::Entity(_) => 1,
        }
    }

    /// The id of an endpoint, as bytes.
    pub open spec fn id_seq(self) -> Seq<u8> {
        match self {
            NodeRef::Memory(id) => be_bytes(id as nat, 16),
            NodeRef::Entity(id) => id@,
        }
    }

    pub fn tag(&self) -> (r: u8)
        ensures
            r == self.tag_byte(),
    {
        match self {
            NodeRef::Memory(_) => 0,
            NodeRef::Entity(_) => 1,
        }
    }

    pub fn id_bytes(&self) -> (r: [u8; 16])
        ensures
            r@ == self.id_seq(),
    {
        match self {
            NodeRef::Memory(id) => memory_id_bytes(*id),
            NodeRef::Entity(id) => *id,
        }
    }
}

/// A memory id as sixteen big-endian bytes.
pub fn memory_id_bytes(id: u128) -> (r: [u8; 16])
    ensures
        r@ == be_bytes(id as nat, 16),
{
    let mut out: Vec<u8> = Vec::new();
    put_be(&mut out, id, 16);
    proof {
        be_round_trip(id as nat, 16);
        assert(out@ =~= be_bytes(id as nat, 16));
        assert(out@.subrange(0, 16) =~= out@);
    }
    take16(out.as_slice(), 0)
}

/// An edge attached to an encode record.
#[derive(Clone, Copy, Debug)]
pub struct WalEdge {
    pub source: NodeRef,
    pub target: NodeRef,
    pub kind: EdgeKindRef,
    pub weight: Single,
}

#[derive(Debug)]
pub struct EncodeRecord {
    pub memory_id: u128,
    pub space_id: [u8; 16],
    pub session_id: u64,
    pub kind: MemoryKind,
    pub salience_initial: Single,
    pub text: String,
    pub edges: Vec<WalEdge>,
}

#[derive(Clone, Copy, Debug)]
pub struct RelationRecord {
    pub relation_id: [u8; 16],
    pub relation_type_id: u32,
    pub from: NodeRef,
    pub to: NodeRef,
    pub session_id: u64,
    pub space_id: [u8; 16],
}

/// The body of a stage notification.
#[derive(Debug)]
pub struct StageCompletedEventBody {
    pub memory_id: u128,
    pub stage_kind: StageKind,
    pub stage_outcome: StageOutcome,
    pub stage_payload: StagePayload,
}

/// The body of a notification record; `None` where the bytes do not decode.
#[derive(Debug)]
pub enum NotificationBody {
    Stage(Option<StageCompletedEventBody>),
    Graph(Option<GraphEventPayload>),
}

/// What a durable record carries.
#[derive(Debug)]
pub enum WalPayload {
    Encode(EncodeRecord),
    Forget { memory_id: u128 },
    Link { source: NodeRef, target: NodeRef, edge_kind: EdgeKindRef, weight: Single },
    Unlink { source: NodeRef, target: NodeRef, edge_kind: EdgeKindRef },
    RelationLink(RelationRecord),
    RelationSupersede { old_relation_id: [u8; 16], new: RelationRecord },
    RelationTombstone { relation_id: [u8; 16], space_id: [u8; 16] },
    PhaseBody { space_id: [u8; 16], body: NotificationBody },
    /// Transaction brackets, checkpoints, salience updates, reclaims,
    /// consolidations and migrations.
    DurableOnly,
}

/// A durable record; `payload` is `None` where the bytes do not decode.
#[derive(Debug)]
pub struct WalRecord {
    pub lsn: u64,
    pub timestamp_ns: u64,
    pub is_subscribe_event: bool,
    pub payload: Option<WalPayload>,
}

} // verus!
