//! Subscriptions: sequence numbers, event projection, filters and the
//! registry of live streams.
use vstd::prelude::*;

use std::collections::HashMap;

use crate::bytes::{copy_list, has16, has_u128, has_u64, nil_id, zero_id};
use crate::error::{fails, invalid, ErrorView, OpError};
use crate::events::{
    has_kind, EdgeEventPayload, EdgeKindRef, EventType, GraphEventPayload, MemoryKind, NodeRef,
    NotificationBody, StageKind, StageOutcome, StagePayload, WalEdge, WalPayload, WalRecord,
};
use crate::single::{Single, MINUS_ONE_BITS, ONE_BITS};
use crate::text::{decimal, join2, push_decimal};

verus! {

/// Default broadcast channel capacity.
pub const DEFAULT_EVENT_CHANNEL_CAPACITY: usize = 1024;

/// Upper bound on the entries of one filter list.
pub const MAX_SUBSCRIBE_FILTER_ENTRIES: usize = 1024;

/// The origin byte of an edge that a client asked for.
pub const ORIGIN_EXPLICIT: u8 = 0;

/// Strictly increasing sequence numbers of one shard.
#[derive(Debug)]
pub struct LsnAllocator {
    highest: u64,
}

impl View for LsnAllocator {
    type V = u64;

    closed spec fn view(&self) -> u64 {
        self.highest
    }
}

/// Whether a number is the next one.
pub open spec fn takes_next(before: u64, after: u64, r: u64) -> bool {
    r == before + 1 && after == r
}

/// Whether numbers go on from at least a floor.
pub open spec fn advances(before: u64, after: u64, floor: u64) -> bool {
    after == (if floor > before {
        floor
    } else {
        before
    })
}

impl Default for LsnAllocator {
    fn default() -> (r: LsnAllocator)
        ensures
            r@ == 0,
    {
        LsnAllocator { highest: 0 }
    }
}

impl LsnAllocator {
    /// Reserves the next number: greater than any given before.
    pub fn next_lsn(&mut self) -> (r: u64)
        requires
            old(self)@ < u64::MAX,
        ensures
            takes_next(old(self)@, final(self)@, r),
    {
        self.highest = self.highest + 1;
        self.highest
    }

    /// The highest number given, without taking one.
    pub fn current(&self) -> (r: u64)
        ensures
            r == self@,
    {
        self.highest
    }

    /// Advances to at least `floor`; never goes back.
    pub fn bump_to(&mut self, floor: u64)
        ensures
            advances(old(self)@, final(self)@, floor),
    {
        if floor > self.highest {
            self.highest = floor;
        }
    }
}

/// An event on its way to subscribers.
#[derive(Clone, Debug)]
pub struct EventEnvelope {
    pub lsn: u64,
    pub event_type: EventType,
    pub memory_id: u128,
    pub session_id: u64,
    pub kind: MemoryKind,
    pub salience: Single,
    pub timestamp_unix_nanos: u64,
    pub text: Option<String>,
    pub graph_payload: Option<GraphEventPayload>,
    pub edge_payload: Option<EdgeEventPayload>,
    pub stage_kind: Option<StageKind>,
    pub stage_outcome: Option<StageOutcome>,
    pub stage_payload: Option<StagePayload>,
    pub space_id: [u8; 16],
    pub vector: Option<Vec<Single>>,
}

/// An event as clients see it.
#[derive(Debug)]
pub struct SubscriptionEvent {
    pub event_type: EventType,
    pub memory_id: u128,
    pub session_id: u64,
    pub text: String,
    pub kind: MemoryKind,
    pub salience: Single,
    pub timestamp_unix_nanos: u64,
    pub lsn: u64,
    pub graph_payload: Option<GraphEventPayload>,
    pub edge_payload: Option<EdgeEventPayload>,
    pub stage_kind: Option<StageKind>,
    pub stage_outcome: Option<StageOutcome>,
    pub stage_payload: Option<StagePayload>,
}

/// An event that names no memory, session or space and has no body.
pub open spec fn bare_event(lsn: u64, at: u64, event_type: EventType) -> EventEnvelope {
    EventEnvelope {
        lsn,
        event_type,
        memory_id: 0,
        session_id: 0,
        kind: MemoryKind::Episodic,
        salience: Single { bits: 0 },
        timestamp_unix_nanos: at,
        text: None,
        graph_payload: None,
        edge_payload: None,
        stage_kind: None,
        stage_outcome: None,
        stage_payload: None,
        space_id: zero_id(),
        vector: None,
    }
}

fn bare(lsn: u64, at: u64, event_type: EventType) -> (r: EventEnvelope)
    ensures
        r == bare_event(lsn, at, event_type),
{
    EventEnvelope {
        lsn,
        event_type,
        memory_id: 0,
        session_id: 0,
        kind: MemoryKind::Episodic,
        salience: Single { bits: 0 },
        timestamp_unix_nanos: at,
        text: None,
        graph_payload: None,
        edge_payload: None,
        stage_kind: None,
        stage_outcome: None,
        stage_payload: None,
        space_id: nil_id(),
        vector: None,
    }
}

/// The tag, the low byte and the relation type of an edge kind.
pub open spec fn edge_kind_parts(kind: EdgeKindRef) -> (u8, u8, Option<u32>) {
    match kind {
        EdgeKindRef::Builtin(k) => (0u8, k.byte(), None),
        EdgeKindRef::Mentions => (1u8, 0u8, None),
        EdgeKindRef::Typed(raw) => (2u8, (raw % 256) as u8, Some(raw)),
    }
}

/// The body of the event about an edge that a client asked for.
pub open spec fn is_edge_event(
    p: EdgeEventPayload,
    from: NodeRef,
    to: NodeRef,
    kind: EdgeKindRef,
    weight: Single,
    relation_id: Option<[u8; 16]>,
    superseded: Option<[u8; 16]>,
    origin: u8,
) -> bool {
    &&& p.from_kind == from.tag_byte()
    &&& p.from_id@ == from.id_seq()
    &&& p.to_kind == to.tag_byte()
    &&& p.to_id@ == to.id_seq()
    &&& (p.edge_kind_tag, p.edge_kind_byte, p.relation_type_id) == edge_kind_parts(kind)
    &&& p.weight == weight
    &&& p.relation_id == relation_id
    &&& p.superseded_relation_id == superseded
    &&& p.origin == origin
}

/// Projects an edge and its optional relation ids into an event body.
pub fn edge_payload_to_event(
    from: NodeRef,
    to: NodeRef,
    kind: EdgeKindRef,
    weight: Single,
    relation_id: Option<[u8; 16]>,
    superseded: Option<[u8; 16]>,
    origin: u8,
) -> (r: EdgeEventPayload)
    ensures
        is_edge_event(r, from, to, kind, weight, relation_id, superseded, origin),
{
    let (edge_kind_tag, edge_kind_byte, relation_type_id) = match kind {
        EdgeKindRef::Builtin(k) => (0u8, k.as_u8(), None),
        EdgeKindRef::Mentions => (1u8, 0u8, None),
        EdgeKindRef::Typed(raw) => (2u8, (raw % 256) as u8, Some(raw)),
    };
    EdgeEventPayload {
        from_kind: from.tag(),
        from_id: from.id_bytes(),
        to_kind: to.tag(),
        to_id: to.id_bytes(),
        edge_kind_tag,
        edge_kind_byte,
        relation_type_id,
        weight,
        relation_id,
        superseded_relation_id: superseded,
        origin,
    }
}

/// The event about an explicit edge: bare but for the edge, the session and
/// the space.
pub open spec fn is_edge_envelope(
    e: EventEnvelope,
    lsn: u64,
    at: u64,
    event_type: EventType,
    session_id: u64,
    space_id: [u8; 16],
    from: NodeRef,
    to: NodeRef,
    kind: EdgeKindRef,
    weight: Single,
    relation_id: Option<[u8; 16]>,
    superseded: Option<[u8; 16]>,
) -> bool {
    &&& e.edge_payload matches Some(p) && is_edge_event(
        p,
        from,
        to,
        kind,
        weight,
        relation_id,
        superseded,
        ORIGIN_EXPLICIT,
    )
    &&& e == EventEnvelope {
        edge_payload: e.edge_payload,
        session_id,
        space_id,
        ..bare_event(lsn, at, event_type)
    }
}

fn edge_envelope(
    lsn: u64,
    at: u64,
    event_type: EventType,
    session_id: u64,
    space_id: [u8; 16],
    from: NodeRef,
    to: NodeRef,
    kind: EdgeKindRef,
    weight: Single,
    relation_id: Option<[u8; 16]>,
    superseded: Option<[u8; 16]>,
) -> (r: EventEnvelope)
    ensures
        is_edge_envelope(
            r,
            lsn,
            at,
            event_type,
            session_id,
            space_id,
            from,
            to,
            kind,
            weight,
            relation_id,
            superseded,
        ),
{
    let body = edge_payload_to_event(
        from,
        to,
        kind,
        weight,
        relation_id,
        superseded,
        ORIGIN_EXPLICIT,
    );
    let mut e = bare(lsn, at, event_type);
    e.edge_payload = Some(body);
    e.session_id = session_id;
    e.space_id = space_id;
    e
}

/// The events that a durable record stands for.
pub open spec fn projects(record: WalRecord, out: Seq<EventEnvelope>) -> bool {
    let lsn = record.lsn;
    let at = record.timestamp_ns;
    let one = Single { bits: ONE_BITS };
    let zero = Single { bits: 0 };
    match record.payload {
        Some(WalPayload::Encode(p)) => {
            &&& out.len() == 1 + p.edges@.len()
            &&& out[0] == EventEnvelope {
                memory_id: p.memory_id,
                session_id: p.session_id,
                kind: p.kind,
                salience: p.salience_initial,
                text: Some(p.text),
                space_id: p.space_id,
                ..bare_event(lsn, at, EventType::Encoded)
            }
            &&& forall|i: int|
                #![trigger p.edges@[i]]
                0 <= i < p.edges@.len() ==> is_edge_envelope(
                    out[i + 1],
                    lsn,
                    at,
                    EventType::EdgeAdded,
                    p.session_id,
                    p.space_id,
                    p.edges@[i].source,
                    p.edges@[i].target,
                    p.edges@[i].kind,
                    p.edges@[i].weight,
                    None,
                    None,
                )
        },
        Some(WalPayload::Forget { memory_id }) => out == seq![
            EventEnvelope { memory_id, ..bare_event(lsn, at, EventType::Forgotten) },
        ],
        Some(WalPayload::Link { source, target, edge_kind, weight }) => out.len() == 1
            && is_edge_envelope(
            out[0],
            lsn,
            at,
            EventType::EdgeAdded,
            0,
            zero_id(),
            source,
            target,
            edge_kind,
            weight,
            None,
            None,
        ),
        Some(WalPayload::Unlink { source, target, edge_kind }) => out.len() == 1
            && is_edge_envelope(
            out[0],
            lsn,
            at,
            EventType::EdgeRemoved,
            0,
            zero_id(),
            source,
            target,
            edge_kind,
            zero,
            None,
            None,
        ),
        Some(WalPayload::RelationLink(p)) => out.len() == 1 && is_edge_envelope(
            out[0],
            lsn,
            at,
            EventType::EdgeAdded,
            p.session_id,
            p.space_id,
            p.from,
            p.to,
            EdgeKindRef::Typed(p.relation_type_id),
            one,
            Some(p.relation_id),
            None,
        ),
        Some(WalPayload::RelationSupersede { old_relation_id, new }) => out.len() == 1
            && is_edge_envelope(
            out[0],
            lsn,
            at,
            EventType::EdgeSuperseded,
            new.session_id,
            new.space_id,
            new.from,
            new.to,
            EdgeKindRef::Typed(new.relation_type_id),
            one,
            Some(new.relation_id),
            Some(old_relation_id),
        ),
        Some(WalPayload::RelationTombstone { relation_id, space_id }) => out == seq![
            EventEnvelope {
                edge_payload: Some(
                    EdgeEventPayload {
                        from_kind: 0,
                        from_id: zero_id(),
                        to_kind: 0,
                        to_id: zero_id(),
                        edge_kind_tag: 2,
                        edge_kind_byte: 0,
                        relation_type_id: None,
                        weight: zero,
                        relation_id: Some(relation_id),
                        superseded_relation_id: None,
                        origin: ORIGIN_EXPLICIT,
                    },
                ),
                space_id,
                ..bare_event(lsn, at, EventType::EdgeRemoved)
            },
        ],
        Some(WalPayload::PhaseBody { space_id, body }) => if !record.is_subscribe_event {
            out.len() == 0
        } else {
            match body {
                NotificationBody::Stage(Some(b)) => out == seq![
                    EventEnvelope {
                        memory_id: b.memory_id,
                        stage_kind: Some(b.stage_kind),
                        stage_outcome: Some(b.stage_outcome),
                        stage_payload: Some(b.stage_payload),
                        space_id,
                        ..bare_event(lsn, at, EventType::StageCompleted)
                    },
                ],
                NotificationBody::Graph(Some(g)) => out == seq![
                    EventEnvelope {
                        graph_payload: Some(g),
                        ..bare_event(lsn, at, g.event_type())
                    },
                ],
                _ => out.len() == 0,
            }
        },
        Some(WalPayload::DurableOnly) => out.len() == 0,
        None => out.len() == 0,
    }
}

impl EventEnvelope {
    /// Projects a durable record into the events it stands for.
    #[must_use]
    pub fn from_wal_record(record: WalRecord) -> (r: Vec<EventEnvelope>)
        ensures
            projects(record, r@),
    {
        let lsn: u64 = record.lsn;
        let at: u64 = record.timestamp_ns;
        let flagged = record.is_subscribe_event;
        let one = Single { bits: ONE_BITS };
        let zero = Single { bits: 0 };
        let mut out: Vec<EventEnvelope> = Vec::new();
        let payload = match record.payload {
            Some(p) => p,
            None => {
                return out;
            },
        };
        match payload {
            WalPayload::Encode(p) => {
                let mut first = bare(lsn, at, EventType::Encoded);
                first.memory_id = p.memory_id;
                first.session_id = p.session_id;
                first.kind = p.kind;
                first.salience = p.salience_initial;
                first.text = Some(p.text);
                first.space_id = p.space_id;
                let ghost head = first;
                out.push(first);
                for i in 0..p.edges.len()
                    invariant
                        out@.len() == 1 + i,
                        out@[0] == head,
                        forall|j: int|
                            #![trigger p.edges@[j]]
                            0 <= j < i ==> is_edge_envelope(
                                out@[j + 1],
                                lsn,
                                at,
                                EventType::EdgeAdded,
                                p.session_id,
                                p.space_id,
                                p.edges@[j].source,
                                p.edges@[j].target,
                                p.edges@[j].kind,
                                p.edges@[j].weight,
                                None,
                                None,
                            ),
                {
                    let e: WalEdge = p.edges[i];
                    let next = edge_envelope(
                        lsn,
                        at,
                        EventType::EdgeAdded,
                        p.session_id,
                        p.space_id,
                        e.source,
                        e.target,
                        e.kind,
                        e.weight,
                        None,
                        None,
                    );
                    out.push(next);
                }
            },
            WalPayload::Forget { memory_id } => {
                let mut e = bare(lsn, at, EventType::Forgotten);
                e.memory_id = memory_id;
                out.push(e);
            },
            WalPayload::Link { source, target, edge_kind, weight } => {
                let e = edge_envelope(
                    lsn,
                    at,
                    EventType::EdgeAdded,
                    0,
                    nil_id(),
                    source,
                    target,
                    edge_kind,
                    weight,
                    None,
                    None,
                );
                out.push(e);
            },
            WalPayload::Unlink { source, target, edge_kind } => {
                let e = edge_envelope(
                    lsn,
                    at,
                    EventType::EdgeRemoved,
                    0,
                    nil_id(),
                    source,
                    target,
                    edge_kind,
                    zero,
                    None,
                    None,
                );
                out.push(e);
            },
            WalPayload::RelationLink(p) => {
                let e = edge_envelope(
                    lsn,
                    at,
                    EventType::EdgeAdded,
                    p.session_id,
                    p.space_id,
                    p.from,
                    p.to,
                    EdgeKindRef::Typed(p.relation_type_id),
                    one,
                    Some(p.relation_id),
                    None,
                );
                out.push(e);
            },
            WalPayload::RelationSupersede { old_relation_id, new } => {
                let e = edge_envelope(
                    lsn,
                    at,
                    EventType::EdgeSuperseded,
                    new.session_id,
                    new.space_id,
                    new.from,
                    new.to,
                    EdgeKindRef::Typed(new.relation_type_id),
                    one,
                    Some(new.relation_id),
                    Some(old_relation_id),
                );
                out.push(e);
            },
            WalPayload::RelationTombstone { relation_id, space_id } => {
                let mut e = bare(lsn, at, EventType::EdgeRemoved);
                e.edge_payload = Some(
                    EdgeEventPayload {
                        from_kind: 0,
                        from_id: nil_id(),
                        to_kind: 0,
                        to_id: nil_id(),
                        edge_kind_tag: 2,
                        edge_kind_byte: 0,
                        relation_type_id: None,
                        weight: zero,
                        relation_id: Some(relation_id),
                        superseded_relation_id: None,
                        origin: ORIGIN_EXPLICIT,
                    },
                );
                e.space_id = space_id;
                out.push(e);
            },
            WalPayload::PhaseBody { space_id, body } => {
                if flagged {
                    match body {
                        NotificationBody::Stage(Some(b)) => {
                            let mut e = bare(lsn, at, EventType::StageCompleted);
                            e.memory_id = b.memory_id;
                            e.stage_kind = Some(b.stage_kind);
                            e.stage_outcome = Some(b.stage_outcome);
                            e.stage_payload = Some(b.stage_payload);
                            e.space_id = space_id;
                            out.push(e);
                        },
                        NotificationBody::Graph(Some(g)) => {
                            let mut e = bare(lsn, at, g.type_of());
                            e.graph_payload = Some(g);
                            out.push(e);
                        },
                        _ => {},
                    }
                }
            },
            WalPayload::DurableOnly => {},
        }
        out
    }
}

/// Every event of a record carries the record's sequence number and time.
pub proof fn events_keep_their_lsn(record: WalRecord, out: Seq<EventEnvelope>, i: int)
    requires
        projects(record, out),
        0 <= i < out.len(),
    ensures
        out[i].lsn == record.lsn,
        out[i].timestamp_unix_nanos == record.timestamp_ns,
        out[i].vector is None,
{
    match record.payload {
        Some(WalPayload::Encode(p)) => {
            if i > 0 {
                let e = p.edges@[i - 1];
                assert(out[(i - 1) + 1] == out[i]);
            }
        },
        _ => {},
    }
}

/// Whether what goes over the wire tells an event.
pub open spec fn tells_event(r: SubscriptionEvent, env: EventEnvelope) -> bool {
    &&& r.event_type == env.event_type
    &&& r.memory_id == env.memory_id
    &&& r.session_id == env.session_id
    &&& env.text matches Some(t) ==> r.text == t
    &&& env.text is None ==> r.text@ == Seq::<char>::empty()
    &&& r.kind == env.kind
    &&& r.salience == env.salience
    &&& r.timestamp_unix_nanos == env.timestamp_unix_nanos
    &&& r.lsn == env.lsn
    &&& r.graph_payload == env.graph_payload
    &&& r.edge_payload == env.edge_payload
    &&& r.stage_kind == env.stage_kind
    &&& r.stage_outcome == env.stage_outcome
    &&& r.stage_payload == env.stage_payload
}

impl EventEnvelope {
    /// The event as clients see it; an absent text is empty.
    #[must_use]
    pub fn to_wire(self) -> (r: SubscriptionEvent)
        ensures
            tells_event(r, self),
    {
        SubscriptionEvent {
            event_type: self.event_type,
            memory_id: self.memory_id,
            session_id: self.session_id,
            text: match self.text {
                Some(t) => t,
                None => String::new(),
            },
            kind: self.kind,
            salience: self.salience,
            timestamp_unix_nanos: self.timestamp_unix_nanos,
            lsn: self.lsn,
            graph_payload: self.graph_payload,
            edge_payload: self.edge_payload,
            stage_kind: self.stage_kind,
            stage_outcome: self.stage_outcome,
            stage_payload: self.stage_payload,
        }
    }
}

/// A similarity test: the reference memory and the least cosine.
/// `threshold_text` is the threshold as it prints.
#[derive(Debug)]
pub struct SimilarityFilter {
    pub reference_memory_id: u128,
    pub threshold: Single,
    pub threshold_text: String,
}

/// What a client wants to hear about.
#[derive(Debug)]
pub struct SubscriptionFilter {
    pub session_filter: Option<Vec<u64>>,
    pub kinds: Option<Vec<MemoryKind>>,
    pub similar_to: Option<SimilarityFilter>,
    pub spaces: Option<Vec<[u8; 16]>>,
    pub memory_ids: Option<Vec<u128>>,
}

#[derive(Debug)]
pub struct SubscribeRequest {
    pub filter: SubscriptionFilter,
    pub include_history: bool,
    pub from_lsn: Option<u64>,
    pub max_inflight: u32,
    pub act_as: Option<[u8; 16]>,
}

#[derive(Debug)]
pub struct UnsubscribeRequest {
    pub target_stream_id: u32,
}

#[derive(Debug, PartialEq, Eq)]
pub struct UnsubscribeResponse {
    pub target_stream_id: u32,
    pub final_lsn: u64,
}

/// A resolved similarity test: the reference vector and the least cosine.
#[derive(Debug)]
pub struct SimilarityMatch {
    pub reference: Vec<Single>,
    pub threshold: Single,
}

/// A filter ready for matching. Each list is an allow-list; `None` allows all.
#[derive(Debug)]
pub struct ParsedFilter {
    pub session_filter: Option<Vec<u64>>,
    pub kinds: Option<Vec<MemoryKind>>,
    pub spaces: Option<Vec<[u8; 16]>>,
    pub memory_ids: Option<Vec<u128>>,
    pub min_salience: Option<Single>,
    pub similar_to: Option<SimilarityMatch>,
}

impl Default for ParsedFilter {
    /// The filter that lets every event through.
    fn default() -> (r: ParsedFilter)
        ensures
            r.session_filter is None,
            r.kinds is None,
            r.spaces is None,
            r.memory_ids is None,
            r.min_salience is None,
            r.similar_to is None,
    {
        ParsedFilter {
            session_filter: None,
            kinds: None,
            spaces: None,
            memory_ids: None,
            min_salience: None,
            similar_to: None,
        }
    }
}

/// Whether a filter is another one with a reference to be similar to.
pub open spec fn gains_reference(
    after: ParsedFilter,
    before: ParsedFilter,
    reference: Vec<Single>,
    threshold: Single,
) -> bool {
    after == (ParsedFilter {
        similar_to: Some(SimilarityMatch { reference, threshold }),
        ..before
    })
}

/// Whether an event passes a filter. `cosine` is the cosine of the event's
/// vector with the reference; it decides only where both vectors are there.
pub open spec fn passes(f: ParsedFilter, e: EventEnvelope, cosine: Single) -> bool {
    &&& f.spaces matches Some(l) ==> l@.contains(e.space_id)
    &&& f.session_filter matches Some(l) ==> e.session_id == 0 || l@.contains(e.session_id)
    &&& f.kinds matches Some(l) ==> l@.contains(e.kind)
    &&& f.memory_ids matches Some(l) ==> l@.contains(e.memory_id)
    &&& f.min_salience matches Some(t) ==> !e.salience.below(t)
    &&& f.similar_to matches Some(s) ==> e.vector is Some && s.threshold.at_most(cosine)
}

impl ParsedFilter {
    /// Installs the resolved reference vector of a similarity subscription.
    pub fn set_similarity_reference(&mut self, reference: Vec<Single>, threshold: Single)
        ensures
            gains_reference(*final(self), *old(self), reference, threshold),
    {
        self.similar_to = Some(SimilarityMatch { reference, threshold });
    }

    /// Whether an event passes. An event of the unscoped session 0 passes any
    /// session list; an event without a vector passes no similarity test.
    #[must_use]
    pub fn matches(&self, env: &EventEnvelope, cosine: Single) -> (r: bool)
        ensures
            r == passes(*self, *env, cosine),
    {
        if let Some(spaces) = &self.spaces {
            if !has16(spaces, &env.space_id) {
                return false;
            }
        }
        if let Some(sessions) = &self.session_filter {
            if env.session_id != 0 && !has_u64(sessions, env.session_id) {
                return false;
            }
        }
        if let Some(ks) = &self.kinds {
            if !has_kind(ks, env.kind) {
                return false;
            }
        }
        if let Some(ids) = &self.memory_ids {
            if !has_u128(ids, env.memory_id) {
                return false;
            }
        }
        if let Some(t) = &self.min_salience {
            if env.salience.is_below(*t) {
                return false;
            }
        }
        if let Some(sim) = &self.similar_to {
            match &env.vector {
                Some(_) => {
                    if !sim.threshold.is_at_most(cosine) {
                        return false;
                    }
                },
                None => {
                    return false;
                },
            }
        }
        true
    }
}

/// Whether a similarity threshold is a finite cosine.
pub open spec fn is_cosine(t: Single) -> bool {
    (Single { bits: MINUS_ONE_BITS }).at_most(t) && t.at_most(Single { bits: ONE_BITS })
}

/// Whether an optional list is over the entry bound.
pub open spec fn over_bound<T>(list: Option<Vec<T>>) -> bool {
    list matches Some(v) && v@.len() > MAX_SUBSCRIBE_FILTER_ENTRIES
}

/// The first thing wrong with a filter, if anything is.
pub open spec fn filter_error(f: SubscriptionFilter) -> Option<ErrorView> {
    if f.similar_to matches Some(s) && !is_cosine(s.threshold) {
        Some(
            ErrorView::InvalidRequest(
                "subscribe: filter.similar_to.threshold must be a finite cosine in [-1.0, 1.0], got "@
                    + f.similar_to->0.threshold_text@,
            ),
        )
    } else if over_bound(f.session_filter) {
        Some(
            ErrorView::InvalidRequest(
                "subscribe: filter.session_filter must have <= 1024 entries"@,
            ),
        )
    } else if over_bound(f.kinds) {
        Some(ErrorView::InvalidRequest("subscribe: filter.kinds must have <= 1024 entries"@))
    } else if over_bound(f.spaces) {
        Some(ErrorView::InvalidRequest("subscribe: filter.spaces must have <= 1024 entries"@))
    } else if over_bound(f.memory_ids) {
        Some(ErrorView::InvalidRequest("subscribe: filter.memory_ids must have <= 1024 entries"@))
    } else {
        None
    }
}

/// An optional list as a sequence.
pub open spec fn listed<T>(list: Option<Vec<T>>) -> Option<Seq<T>> {
    match list {
        Some(v) => Some(v@),
        None => None,
    }
}

/// An optional list where an empty one means "no filter".
pub open spec fn listed_unless_empty<T>(list: Option<Vec<T>>) -> Option<Seq<T>> {
    match list {
        Some(v) if v@.len() > 0 => Some(v@),
        _ => None,
    }
}

/// Whether a parsed filter is the one that a request asks for.
pub open spec fn parsed_from(p: ParsedFilter, f: SubscriptionFilter) -> bool {
    &&& listed(p.session_filter) == listed(f.session_filter)
    &&& listed(p.kinds) == listed(f.kinds)
    &&& listed(p.spaces) == listed_unless_empty(f.spaces)
    &&& listed(p.memory_ids) == listed_unless_empty(f.memory_ids)
    &&& p.min_salience is None
    &&& p.similar_to is None
}

fn is_over<T>(list: &Option<Vec<T>>) -> (r: bool)
    ensures
        r == over_bound(*list),
{
    match list {
        Some(v) => v.len() > MAX_SUBSCRIBE_FILTER_ENTRIES,
        None => false,
    }
}

/// What reading the filter of a subscription comes to.
pub open spec fn parses_filter(
    r: Result<ParsedFilter, OpError>,
    req: SubscribeRequest,
) -> bool {
    match filter_error(req.filter) {
        Some(e) => fails(r, e),
        None => r matches Ok(p) && parsed_from(p, req.filter),
    }
}

/// Parses a request's filter. The similarity threshold is checked here; its
/// reference vector is resolved later, so the similarity test stays unset.
pub fn parse_filter(req: &SubscribeRequest) -> (r: Result<ParsedFilter, OpError>)
    ensures
        parses_filter(r, *req),
{
    if let Some(sim) = &req.filter.similar_to {
        if !sim.threshold.is_within(
            Single { bits: MINUS_ONE_BITS },
            Single { bits: ONE_BITS },
        ) {
            return Err(
                OpError::InvalidRequest(
                    join2(
                        "subscribe: filter.similar_to.threshold must be a finite cosine in [-1.0, 1.0], got ",
                        &sim.threshold_text,
                    ),
                ),
            );
        }
    }
    if is_over(&req.filter.session_filter) {
        return Err(invalid("subscribe: filter.session_filter must have <= 1024 entries"));
    }
    if is_over(&req.filter.kinds) {
        return Err(invalid("subscribe: filter.kinds must have <= 1024 entries"));
    }
    if is_over(&req.filter.spaces) {
        return Err(invalid("subscribe: filter.spaces must have <= 1024 entries"));
    }
    if is_over(&req.filter.memory_ids) {
        return Err(invalid("subscribe: filter.memory_ids must have <= 1024 entries"));
    }
    let session_filter = match &req.filter.session_filter {
        Some(v) => Some(copy_list(v)),
        None => None,
    };
    let kinds = match &req.filter.kinds {
        Some(v) => Some(copy_list(v)),
        None => None,
    };
    let spaces = match &req.filter.spaces {
        Some(v) => if v.len() == 0 {
            None
        } else {
            Some(copy_list(v))
        },
        None => None,
    };
    let memory_ids = match &req.filter.memory_ids {
        Some(v) => if v.len() == 0 {
            None
        } else {
            Some(copy_list(v))
        },
        None => None,
    };
    Ok(
        ParsedFilter {
            session_filter,
            kinds,
            spaces,
            memory_ids,
            min_salience: None,
            similar_to: None,
        },
    )
}

/// A live stream: its filter, and the numbers it started and ended at.
#[derive(Debug)]
pub struct SubEntry {
    pub filter: ParsedFilter,
    pub started_at_lsn: u64,
    pub final_lsn: u64,
}

/// The live streams of a shard.
#[derive(Debug)]
pub struct SubscriptionRegistry {
    next_stream_id: u32,
    streams: HashMap<u32, SubEntry>,
}

/// What a caller gets for a new stream.
#[derive(Debug)]
pub struct SubscriptionHandle {
    pub target_stream_id: u32,
    pub started_at_lsn: u64,
    pub filter: ParsedFilter,
}

impl View for SubscriptionRegistry {
    type V = Map<u32, SubEntry>;

    closed spec fn view(&self) -> Map<u32, SubEntry> {
        self.streams@
    }
}

impl SubscriptionRegistry {
    /// The id that the next stream gets.
    pub closed spec fn next_id(&self) -> u32 {
        self.next_stream_id
    }

    /// Ids start at 1, and every live one is below the next.
    pub open spec fn wf(&self) -> bool {
        &&& self.next_id() >= 1
        &&& self@.dom().finite()
        &&& forall|id: u32| #[trigger] self@.dom().contains(id) ==> 1 <= id < self.next_id()
    }

    #[must_use]
    pub fn new() -> (r: SubscriptionRegistry)
        ensures
            r.wf(),
            r@ == Map::<u32, SubEntry>::empty(),
            r.next_id() == 1,
    {
        broadcast use vstd::std_specs::hash::group_hash_axioms;
        let streams: HashMap<u32, SubEntry> = HashMap::new();
        SubscriptionRegistry { next_stream_id: 1, streams }
    }

    /// Checks the request, takes a stream id and installs the entry. The
    /// caller has subscribed to the bus before it read `started_at_lsn`.
    pub fn register(&mut self, req: &SubscribeRequest, started_at_lsn: u64) -> (r: Result<
        SubscriptionHandle,
        OpError,
    >)
        requires
            old(self).wf(),
        ensures
            final(self).wf(),
            registers(
                *old(self),
                *final(self),
                *req,
                started_at_lsn,
                r,
                registration_error(*req, old(self).next_id()),
            ),
    {
        broadcast use vstd::std_specs::hash::group_hash_axioms;
        if req.from_lsn.is_some() || req.include_history {
            return Err(
                OpError::NotFound {
                    what: "wal_segment",
                    detail: "subscribe: historical replay (from_lsn / include_history) is not yet supported on this path. Omit both to subscribe to the live tail.".to_owned(),
                },
            );
        }
        let filter = match parse_filter(req) {
            Ok(f) => f,
            Err(e) => {
                return Err(e);
            },
        };
        let kept = match parse_filter(req) {
            Ok(f) => f,
            Err(e) => {
                return Err(e);
            },
        };
        let stream_id: u32 = self.next_stream_id;
        if stream_id == u32::MAX {
            return Err(OpError::Overloaded("subscribe: out of stream ids".to_owned()));
        }
        self.next_stream_id = stream_id + 1;
        self.streams.insert(
            stream_id,
            SubEntry { filter: kept, started_at_lsn, final_lsn: started_at_lsn },
        );
        Ok(SubscriptionHandle { target_stream_id: stream_id, started_at_lsn, filter })
    }

    /// Drops a stream and gives the last number it delivered.
    pub fn unregister(&mut self, stream_id: u32) -> (r: Result<u64, OpError>)
        requires
            old(self).wf(),
        ensures
            final(self).wf(),
            final(self)@ == old(self)@.remove(stream_id),
            final(self).next_id() == old(self).next_id(),
            old(self)@.dom().contains(stream_id) ==> r == Ok::<u64, OpError>(
                old(self)@[stream_id].final_lsn,
            ),
            !old(self)@.dom().contains(stream_id) ==> fails(
                r,
                ErrorView::NotFound {
                    what: "subscription"@,
                    detail: "stream_id="@ + decimal(stream_id as nat),
                },
            ),
    {
        broadcast use vstd::std_specs::hash::group_hash_axioms;
        match self.streams.remove(&stream_id) {
            Some(entry) => Ok(entry.final_lsn),
            None => {
                assert(self@ =~= old(self)@.remove(stream_id));
                let mut detail = "stream_id=".to_owned();
                push_decimal(&mut detail, stream_id as u64);
                Err(OpError::NotFound { what: "subscription", detail })
            },
        }
    }

    /// Records the last number that a stream delivered; an unknown stream is
    /// left alone.
    pub fn update_final_lsn(&mut self, stream_id: u32, lsn: u64)
        requires
            old(self).wf(),
        ensures
            final(self).wf(),
            final(self).next_id() == old(self).next_id(),
            final(self)@ == (if old(self)@.dom().contains(stream_id) {
                old(self)@.insert(
                    stream_id,
                    SubEntry { final_lsn: lsn, ..old(self)@[stream_id] },
                )
            } else {
                old(self)@
            }),
    {
        broadcast use vstd::std_specs::hash::group_hash_axioms;
        match self.streams.remove(&stream_id) {
            Some(entry) => {
                let updated = SubEntry {
                    filter: entry.filter,
                    started_at_lsn: entry.started_at_lsn,
                    final_lsn: lsn,
                };
                self.streams.insert(stream_id, updated);
                assert(self@ =~= old(self)@.insert(stream_id, updated));
            },
            None => {
                assert(self@ =~= old(self)@);
            },
        }
    }

    /// The number of live streams.
    pub fn active_count(&self) -> (r: usize)
        ensures
            r == self@.len(),
    {
        broadcast use vstd::std_specs::hash::group_hash_axioms;
        self.streams.len()
    }

    /// The last number that a stream delivered.
    pub fn final_lsn(&self, stream_id: u32) -> (r: Option<u64>)
        ensures
            tells_last(r, self@, stream_id),
    {
        broadcast use vstd::std_specs::hash::group_hash_axioms;
        match self.streams.get(&stream_id) {
            Some(entry) => Some(entry.final_lsn),
            None => None,
        }
    }
}

/// The number that a stream last delivered, where there is such a stream.
pub open spec fn tells_last(r: Option<u64>, streams: Map<u32, SubEntry>, stream_id: u32) -> bool {
    r == (if streams.dom().contains(stream_id) {
        Some(streams[stream_id].final_lsn)
    } else {
        None
    })
}

/// Why a registration is refused, if it is.
pub open spec fn registration_error(req: SubscribeRequest, next_id: u32) -> Option<ErrorView> {
    if req.from_lsn is Some || req.include_history {
        Some(
            ErrorView::NotFound {
                what: "wal_segment"@,
                detail: "subscribe: historical replay (from_lsn / include_history) is not yet supported on this path. Omit both to subscribe to the live tail."@,
            },
        )
    } else if filter_error(req.filter) is Some {
        filter_error(req.filter)
    } else if next_id == u32::MAX {
        Some(ErrorView::Overloaded("subscribe: out of stream ids"@))
    } else {
        None
    }
}

/// What a registration does: with an error it fails and leaves the registry
/// alone, else it installs one stream under the next id.
pub open spec fn registers(
    before: SubscriptionRegistry,
    after: SubscriptionRegistry,
    req: SubscribeRequest,
    started_at_lsn: u64,
    r: Result<SubscriptionHandle, OpError>,
    error: Option<ErrorView>,
) -> bool {
    match error {
        Some(e) => fails(r, e) && after@ == before@ && after.next_id() == before.next_id(),
        None => {
            &&& r matches Ok(h) && h.target_stream_id == before.next_id() && h.started_at_lsn
                == started_at_lsn && parsed_from(h.filter, req.filter)
            &&& after.next_id() == before.next_id() + 1
            &&& after@.dom() == before@.dom().insert(before.next_id())
            &&& forall|id: u32| #[trigger]
                before@.dom().contains(id) ==> after@[id] == before@[id]
            &&& after@[before.next_id()].started_at_lsn == started_at_lsn
            &&& after@[before.next_id()].final_lsn == started_at_lsn
            &&& parsed_from(after@[before.next_id()].filter, req.filter)
        },
    }
}

/// The answer to a one-shot poll that asks for similarity.
pub const NO_SIMILARITY: &'static str = "subscribe: filter.similar_to is not supported on this path";

/// Why a one-shot poll is refused, if it is: history first, then similarity,
/// then what a registration refuses.
pub open spec fn poll_error(req: SubscribeRequest, next_id: u32) -> Option<ErrorView> {
    if req.from_lsn is None && !req.include_history && req.filter.similar_to is Some {
        Some(ErrorView::NotYetImplemented(NO_SIMILARITY@))
    } else {
        registration_error(req, next_id)
    }
}

/// Registers a one-shot poll. It looks no vectors up, so a request that
/// filters by similarity is refused; the filter would have no effect.
pub fn open_poll(
    registry: &mut SubscriptionRegistry,
    req: &SubscribeRequest,
    started_at_lsn: u64,
) -> (r: Result<SubscriptionHandle, OpError>)
    requires
        old(registry).wf(),
    ensures
        final(registry).wf(),
        registers(
            *old(registry),
            *final(registry),
            *req,
            started_at_lsn,
            r,
            poll_error(*req, old(registry).next_id()),
        ),
{
    if req.from_lsn.is_none() && !req.include_history && req.filter.similar_to.is_some() {
        return Err(OpError::NotYetImplemented(NO_SIMILARITY.to_owned()));
    }
    registry.register(req, started_at_lsn)
}

/// What the one-shot poller sees while it waits.
#[derive(Debug)]
pub enum PollEvent {
    /// An event, with the cosine of its vector and the reference.
    Received(EventEnvelope, Single),
    /// The receiver fell behind.
    Lagged,
    /// The bus is gone.
    Closed,
    /// The poll window is over.
    TimedOut,
}

/// What the one-shot poller does next.
#[derive(Debug)]
pub enum PollStep {
    Wait,
    Done(Result<SubscriptionEvent, OpError>),
}

/// Whether a step ends the poll with exactly the given error.
pub open spec fn step_fails(step: PollStep, e: ErrorView) -> bool {
    step matches PollStep::Done(r) && fails(r, e)
}

/// What one event does to a poll and to the streams.
pub open spec fn polls(
    before: Map<u32, SubEntry>,
    after: Map<u32, SubEntry>,
    stream_id: u32,
    filter: ParsedFilter,
    event: PollEvent,
    r: PollStep,
) -> bool {
    match event {
        PollEvent::Received(env, cosine) => if passes(filter, env, cosine) {
            &&& r matches PollStep::Done(Ok(e)) && tells_event(e, env)
            &&& after == (if before.dom().contains(stream_id) {
                before.insert(
                    stream_id,
                    SubEntry { final_lsn: env.lsn, ..before[stream_id] },
                )
            } else {
                before
            })
        } else {
            r is Wait && after == before
        },
        PollEvent::Lagged => after == before && step_fails(
            r,
            ErrorView::Overloaded(LAGGED@),
        ),
        PollEvent::Closed => after == before && step_fails(
            r,
            ErrorView::Internal("subscribe: event bus closed"@),
        ),
        PollEvent::TimedOut => after == before && step_fails(
            r,
            ErrorView::Overloaded(NO_EVENT@),
        ),
    }
}

/// One step of the one-shot poller: an event that passes is recorded and
/// answered, any other event is waited past, and the rest are errors.
pub fn poll_step(
    registry: &mut SubscriptionRegistry,
    stream_id: u32,
    filter: &ParsedFilter,
    event: PollEvent,
) -> (r: PollStep)
    requires
        old(registry).wf(),
    ensures
        final(registry).wf(),
        final(registry).next_id() == old(registry).next_id(),
        polls(old(registry)@, final(registry)@, stream_id, *filter, event, r),
{
    match event {
        PollEvent::Received(env, cosine) => {
            if filter.matches(&env, cosine) {
                registry.update_final_lsn(stream_id, env.lsn);
                PollStep::Done(Ok(env.to_wire()))
            } else {
                PollStep::Wait
            }
        },
        PollEvent::Lagged => PollStep::Done(Err(OpError::Overloaded(LAGGED.to_owned()))),
        PollEvent::Closed => PollStep::Done(
            Err(OpError::Internal("subscribe: event bus closed".to_owned())),
        ),
        PollEvent::TimedOut => PollStep::Done(Err(OpError::Overloaded(NO_EVENT.to_owned()))),
    }
}

/// The answer to a poller that fell behind.
pub const LAGGED: &'static str = "subscribe: subscriber lagged — Phase 9's long-lived stream tolerates lag without dropping the subscription";

/// The answer to a poller whose window closed.
pub const NO_EVENT: &'static str = "subscribe: no matching event within poll window — Phase 9 enables long-lived streaming";

/// What dropping a stream does to the streams, and what it answers.
pub open spec fn unsubscribes(
    before: Map<u32, SubEntry>,
    after: Map<u32, SubEntry>,
    req: UnsubscribeRequest,
    r: Result<UnsubscribeResponse, OpError>,
) -> bool {
    &&& after == before.remove(req.target_stream_id)
    &&& before.dom().contains(req.target_stream_id) ==> r == Ok::<UnsubscribeResponse, OpError>(
        UnsubscribeResponse {
            target_stream_id: req.target_stream_id,
            final_lsn: before[req.target_stream_id].final_lsn,
        },
    )
    &&& !before.dom().contains(req.target_stream_id) ==> fails(
        r,
        ErrorView::NotFound {
            what: "subscription"@,
            detail: "stream_id="@ + decimal(req.target_stream_id as nat),
        },
    )
}

/// Drops a stream and answers with its last delivered number.
pub fn unsubscribe(registry: &mut SubscriptionRegistry, req: &UnsubscribeRequest) -> (r: Result<
    UnsubscribeResponse,
    OpError,
>)
    requires
        old(registry).wf(),
    ensures
        final(registry).wf(),
        final(registry).next_id() == old(registry).next_id(),
        unsubscribes(old(registry)@, final(registry)@, *req, r),
{
    match registry.unregister(req.target_stream_id) {
        Ok(final_lsn) => Ok(
            UnsubscribeResponse { target_stream_id: req.target_stream_id, final_lsn },
        ),
        Err(e) => Err(e),
    }
}

/// Whether an event carries the next number, and is otherwise the same.
pub open spec fn stamps_event(r: EventEnvelope, env: EventEnvelope, before: u64, after: u64) -> bool {
    &&& r == (EventEnvelope { lsn: (before + 1) as u64, ..env })
    &&& after == before + 1
}

/// Whether numbers go on above that of an event.
pub open spec fn notes_event(env: EventEnvelope, before: u64, after: u64) -> bool {
    &&& after >= before
    &&& after >= env.lsn
    &&& after == (if env.lsn == u64::MAX {
        u64::MAX as int
    } else if env.lsn + 1 > before {
        env.lsn + 1
    } else {
        before as int
    })
}

/// Stamps a fresh sequence number on an event about to be published.
pub fn stamp(lsn: &mut LsnAllocator, env: EventEnvelope) -> (r: EventEnvelope)
    requires
        old(lsn)@ < u64::MAX,
    ensures
        stamps_event(r, env, old(lsn)@, final(lsn)@),
{
    let mut out = env;
    out.lsn = lsn.next_lsn();
    out
}

/// Takes note of an event that already carries a durable number, so that
/// numbers given later stay above it.
pub fn note_prestamped(lsn: &mut LsnAllocator, env: &EventEnvelope)
    ensures
        notes_event(*env, old(lsn)@, final(lsn)@),
{
    lsn.bump_to(env.lsn.saturating_add(1));
}

/// What can happen to an allocator.
pub enum LsnStep {
    Take,
    Note(u64),
}

/// The highest number after a run of steps.
pub open spec fn after_steps(start: int, steps: Seq<LsnStep>) -> int
    decreases steps.len(),
{
    if steps.len() == 0 {
        start
    } else {
        let before = after_steps(start, steps.drop_last());
        match steps.last() {
            LsnStep::Take => before + 1,
            LsnStep::Note(floor) => if floor > before {
                floor as int
            } else {
                before
            },
        }
    }
}

/// Numbers rise: whatever happens after a number was given, the next one
/// given is greater.
pub proof fn later_numbers_are_greater(given: int, steps: Seq<LsnStep>)
    ensures
        after_steps(given, steps.push(LsnStep::Take)) > given,
    decreases steps.len(),
{
    assert(steps.push(LsnStep::Take).drop_last() =~= steps);
    numbers_never_fall(given, steps);
}

proof fn numbers_never_fall(given: int, steps: Seq<LsnStep>)
    ensures
        after_steps(given, steps) >= given,
    decreases steps.len(),
{
    if steps.len() > 0 {
        numbers_never_fall(given, steps.drop_last());
    }
}

/// A session list never drops an event of the unscoped session.
pub proof fn unscoped_session_passes_session_lists(
    f: ParsedFilter,
    e: EventEnvelope,
    cosine: Single,
)
    requires
        e.session_id == 0,
    ensures
        passes(f, e, cosine) == passes(ParsedFilter { session_filter: None, ..f }, e, cosine),
{
}

/// An event without a vector passes no similarity test, whatever the
/// threshold.
pub proof fn vectorless_events_never_similar(f: ParsedFilter, e: EventEnvelope, cosine: Single)
    requires
        f.similar_to is Some,
        e.vector is None,
    ensures
        !passes(f, e, cosine),
{
}

} // verus!
