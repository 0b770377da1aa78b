//! What subscribers see, and what they never see.
use vstd::prelude::*;

use crate::bytes::zero_id_is_zero;
use crate::error::OpError;
use crate::events::{
    EdgeEventPayload, EdgeKindRef, EncodeRecord, EventType, MemoryKind, NodeRef, NotificationBody,
    RelationRecord, WalPayload, WalRecord,
};
use crate::single::Single;
use crate::subscribe::{
    gains_reference, is_edge_envelope, notes_event, stamps_event, tells_last, parses_filter, passes,
    poll_error, polls, projects, registers, unsubscribes, EventEnvelope, ParsedFilter, PollEvent,
    PollStep, SimilarityMatch, SubEntry, SubscribeRequest, SubscriptionFilter, SubscriptionHandle,
    SubscriptionRegistry, UnsubscribeRequest, UnsubscribeResponse,
};

verus! {

// Filters.

/// An event of a space that the filter does not list never passes, whatever
/// else the filter says, and a poll waits on, with nothing delivered.
pub proof fn foreign_spaces_never_pass(
    f: ParsedFilter,
    list: Vec<[u8; 16]>,
    e: EventEnvelope,
    cosine: Single,
    before: Map<u32, SubEntry>,
    after: Map<u32, SubEntry>,
    stream_id: u32,
    r: PollStep,
)
    requires
        f.spaces == Some(list),
        !list@.contains(e.space_id),
        polls(before, after, stream_id, f, PollEvent::Received(e, cosine), r),
    ensures
        !passes(f, e, cosine),
        r is Wait,
        after == before,
{
}

/// An event of a session that the filter does not list never passes, unless it
/// belongs to no session.
pub proof fn foreign_sessions_never_pass(
    f: ParsedFilter,
    list: Vec<u64>,
    e: EventEnvelope,
    cosine: Single,
    before: Map<u32, SubEntry>,
    after: Map<u32, SubEntry>,
    stream_id: u32,
    r: PollStep,
)
    requires
        f.session_filter == Some(list),
        e.session_id != 0,
        !list@.contains(e.session_id),
        polls(before, after, stream_id, f, PollEvent::Received(e, cosine), r),
    ensures
        !passes(f, e, cosine),
        r is Wait,
        after == before,
{
}

/// An event of a kind or of a memory that the filter does not list never
/// passes.
pub proof fn unlisted_memories_never_pass(
    f: ParsedFilter,
    e: EventEnvelope,
    cosine: Single,
    before: Map<u32, SubEntry>,
    after: Map<u32, SubEntry>,
    stream_id: u32,
    r: PollStep,
)
    requires
        (f.kinds matches Some(kinds) && !kinds@.contains(e.kind)) || (f.memory_ids matches Some(ids)
            && !ids@.contains(e.memory_id)),
        polls(before, after, stream_id, f, PollEvent::Received(e, cosine), r),
    ensures
        !passes(f, e, cosine),
        r is Wait,
        after == before,
{
}

/// An event less salient than the filter's floor, or less similar than its
/// threshold, never passes.
pub proof fn weak_events_never_pass(
    f: ParsedFilter,
    e: EventEnvelope,
    cosine: Single,
    before: Map<u32, SubEntry>,
    after: Map<u32, SubEntry>,
    stream_id: u32,
    r: PollStep,
)
    requires
        (f.min_salience matches Some(t) && !t.nan() && !e.salience.nan() && e.salience.key()
            < t.key()) || (f.similar_to matches Some(s) && (cosine.nan() || s.threshold.nan()
            || cosine.key() < s.threshold.key() || e.vector is None)),
        polls(before, after, stream_id, f, PollEvent::Received(e, cosine), r),
    ensures
        !passes(f, e, cosine),
        r is Wait,
        after == before,
{
}

/// Adding a list that holds what the event has never changes whether the event
/// passes.
pub proof fn lists_admit_what_they_hold(
    f: ParsedFilter,
    e: EventEnvelope,
    cosine: Single,
    spaces: Vec<[u8; 16]>,
    sessions: Vec<u64>,
    kinds: Vec<MemoryKind>,
    ids: Vec<u128>,
    similar_to: SimilarityMatch,
)
    ensures
        spaces@.contains(e.space_id) ==> passes(
            ParsedFilter { spaces: Some(spaces), ..f },
            e,
            cosine,
        ) == passes(ParsedFilter { spaces: None, ..f }, e, cosine),
        sessions@.contains(e.session_id) ==> passes(
            ParsedFilter { session_filter: Some(sessions), ..f },
            e,
            cosine,
        ) == passes(ParsedFilter { session_filter: None, ..f }, e, cosine),
        kinds@.contains(e.kind) ==> passes(ParsedFilter { kinds: Some(kinds), ..f }, e, cosine)
            == passes(ParsedFilter { kinds: None, ..f }, e, cosine),
        ids@.contains(e.memory_id) ==> passes(ParsedFilter { memory_ids: Some(ids), ..f }, e, cosine)
            == passes(ParsedFilter { memory_ids: None, ..f }, e, cosine),
        e.vector is Some && !cosine.nan() && !similar_to.threshold.nan()
            && similar_to.threshold.key() <= cosine.key() ==> passes(
            ParsedFilter { similar_to: Some(similar_to), ..f },
            e,
            cosine,
        ) == passes(ParsedFilter { similar_to: None, ..f }, e, cosine),
{
}

/// A filter without any restriction passes every event.
pub proof fn empty_filters_pass_everything(e: EventEnvelope, cosine: Single)
    ensures
        passes(
            ParsedFilter {
                session_filter: None,
                kinds: None,
                spaces: None,
                memory_ids: None,
                min_salience: None,
                similar_to: None,
            },
            e,
            cosine,
        ),
{
}

/// Whether a filter, as the subscriber wrote it, asks for an event. An empty
/// list of spaces or of memories restricts nothing.
pub open spec fn asks_for(f: SubscriptionFilter, e: EventEnvelope) -> bool {
    &&& f.session_filter matches Some(l) ==> e.session_id == 0 || l@.contains(e.session_id)
    &&& f.kinds matches Some(l) ==> l@.contains(e.kind)
    &&& f.spaces matches Some(l) ==> l@.len() == 0 || l@.contains(e.space_id)
    &&& f.memory_ids matches Some(l) ==> l@.len() == 0 || l@.contains(e.memory_id)
}

/// The filter of a stream passes exactly the events that the subscriber asked
/// for. No list is longer than 1024 entries, and a similarity is a cosine.
pub proof fn streams_pass_what_was_asked_for(
    r: Result<ParsedFilter, OpError>,
    req: SubscribeRequest,
    e: EventEnvelope,
    cosine: Single,
)
    requires
        parses_filter(r, req),
    ensures
        r matches Ok(f) ==> passes(f, e, cosine) == asks_for(req.filter, e),
        r is Ok <==> {
            &&& req.filter.similar_to matches Some(s) ==> !s.threshold.nan() && -0x3F80_0000
                <= s.threshold.key() <= 0x3F80_0000
            &&& req.filter.session_filter matches Some(l) ==> l@.len() <= 1024
            &&& req.filter.kinds matches Some(l) ==> l@.len() <= 1024
            &&& req.filter.spaces matches Some(l) ==> l@.len() <= 1024
            &&& req.filter.memory_ids matches Some(l) ==> l@.len() <= 1024
        },
        r matches Err(x) ==> x is InvalidRequest,
{
}

// Streams.

/// An event that passes is delivered whole, and the stream remembers its
/// number; every other stream stays as it is.
pub proof fn passing_events_are_delivered(
    before: Map<u32, SubEntry>,
    after: Map<u32, SubEntry>,
    stream_id: u32,
    other: u32,
    f: ParsedFilter,
    e: EventEnvelope,
    cosine: Single,
    r: PollStep,
)
    requires
        polls(before, after, stream_id, f, PollEvent::Received(e, cosine), r),
        passes(f, e, cosine),
    ensures
        r matches PollStep::Done(Ok(w)) && {
            &&& (w.lsn, w.event_type, w.memory_id, w.session_id) == (
                e.lsn,
                e.event_type,
                e.memory_id,
                e.session_id,
            )
            &&& (w.kind, w.salience, w.timestamp_unix_nanos) == (
                e.kind,
                e.salience,
                e.timestamp_unix_nanos,
            )
            &&& w.text@ == (match e.text {
                Some(t) => t@,
                None => Seq::<char>::empty(),
            })
            &&& w.graph_payload == e.graph_payload && w.edge_payload == e.edge_payload
            &&& (w.stage_kind, w.stage_outcome) == (e.stage_kind, e.stage_outcome)
            &&& w.stage_payload == e.stage_payload
        },
        before.dom().contains(stream_id) ==> after.dom().contains(stream_id)
            && after[stream_id].final_lsn == e.lsn && after[stream_id].filter
            == before[stream_id].filter && after[stream_id].started_at_lsn
            == before[stream_id].started_at_lsn,
        after.dom() == before.dom(),
        other != stream_id && before.dom().contains(other) ==> after[other] == before[other],
{
    assert(after.dom() =~= before.dom());
}

/// A poll that gets no event fails and leaves the streams alone.
pub proof fn polls_without_events_fail(
    before: Map<u32, SubEntry>,
    after: Map<u32, SubEntry>,
    stream_id: u32,
    f: ParsedFilter,
    event: PollEvent,
    r: PollStep,
)
    requires
        polls(before, after, stream_id, f, event, r),
        event !is Received,
    ensures
        after == before,
        event is Lagged || event is TimedOut ==> (r matches PollStep::Done(Err(x))
            && x is Overloaded),
        event is Closed ==> (r matches PollStep::Done(Err(x)) && x is Internal),
{
}

/// A new stream gets an id that no stream has, starts at the number given to
/// it, passes what was asked for, and changes no other stream; a refused one
/// changes nothing.
pub proof fn subscriptions_open_one_stream(
    before: SubscriptionRegistry,
    after: SubscriptionRegistry,
    req: SubscribeRequest,
    started_at_lsn: u64,
    r: Result<SubscriptionHandle, OpError>,
    e: EventEnvelope,
    cosine: Single,
    other: u32,
)
    requires
        before.wf(),
        registers(before, after, req, started_at_lsn, r, poll_error(req, before.next_id())),
    ensures
        r matches Ok(h) ==> {
            &&& !before@.dom().contains(h.target_stream_id)
            &&& after@.dom().contains(h.target_stream_id)
            &&& h.started_at_lsn == started_at_lsn
            &&& after@[h.target_stream_id].started_at_lsn == started_at_lsn
            &&& after@[h.target_stream_id].final_lsn == started_at_lsn
            &&& passes(h.filter, e, cosine) == asks_for(req.filter, e)
            &&& passes(after@[h.target_stream_id].filter, e, cosine) == asks_for(req.filter, e)
            &&& other != h.target_stream_id ==> (after@.dom().contains(other)
                <==> before@.dom().contains(other))
            &&& before@.dom().contains(other) ==> after@[other] == before@[other]
        },
        r is Err ==> after@ == before@,
        r is Ok ==> req.from_lsn is None && !req.include_history && req.filter.similar_to is None,
        r is Err && req.from_lsn is None && !req.include_history && req.filter.similar_to is None
            && before.next_id() < u32::MAX ==> {
            ||| req.filter.session_filter matches Some(l) && l@.len() > 1024
            ||| req.filter.kinds matches Some(l) && l@.len() > 1024
            ||| req.filter.spaces matches Some(l) && l@.len() > 1024
            ||| req.filter.memory_ids matches Some(l) && l@.len() > 1024
        },
{
}

/// Dropping a stream answers with the number it last delivered, and drops that
/// stream alone; a stream that is not there is not found.
pub proof fn unsubscribing_drops_one_stream(
    before: Map<u32, SubEntry>,
    after: Map<u32, SubEntry>,
    req: UnsubscribeRequest,
    r: Result<UnsubscribeResponse, OpError>,
    other: u32,
)
    requires
        unsubscribes(before, after, req, r),
    ensures
        r is Ok <==> before.dom().contains(req.target_stream_id),
        r matches Ok(a) ==> a.target_stream_id == req.target_stream_id && a.final_lsn
            == before[req.target_stream_id].final_lsn,
        r matches Err(x) ==> x is NotFound,
        !after.dom().contains(req.target_stream_id),
        other != req.target_stream_id ==> (after.dom().contains(other)
            <==> before.dom().contains(other)),
        other != req.target_stream_id && before.dom().contains(other) ==> after[other]
            == before[other],
{
}

/// A stream tells the number that it delivered last, once it has delivered one.
pub proof fn streams_tell_their_last_number(
    before: Map<u32, SubEntry>,
    after: Map<u32, SubEntry>,
    stream_id: u32,
    f: ParsedFilter,
    e: EventEnvelope,
    cosine: Single,
    step: PollStep,
    told: Option<u64>,
)
    requires
        before.dom().contains(stream_id),
        passes(f, e, cosine),
        polls(before, after, stream_id, f, PollEvent::Received(e, cosine), step),
        tells_last(told, after, stream_id),
    ensures
        told == Some(e.lsn),
{
}

/// A stream that is not there tells no number.
pub proof fn absent_streams_tell_nothing(
    streams: Map<u32, SubEntry>,
    stream_id: u32,
    told: Option<u64>,
)
    requires
        tells_last(told, streams, stream_id),
    ensures
        told is Some <==> streams.dom().contains(stream_id),
        told matches Some(n) ==> n == streams[stream_id].final_lsn,
{
}

/// A filter with a reference passes only events that are near it, and else what
/// it passed before.
pub proof fn references_only_narrow(
    after: ParsedFilter,
    before: ParsedFilter,
    reference: Vec<Single>,
    threshold: Single,
    e: EventEnvelope,
    cosine: Single,
)
    requires
        gains_reference(after, before, reference, threshold),
        before.similar_to is None,
    ensures
        passes(after, e, cosine) <==> passes(before, e, cosine) && e.vector is Some
            && !cosine.nan() && !threshold.nan() && threshold.key() <= cosine.key(),
        after.similar_to matches Some(s) && s.reference@ == reference@,
{
}

/// A stamped event is the same event under the next number, and numbers given
/// later are above every number that was noted.
pub proof fn stamps_rise(
    r: EventEnvelope,
    env: EventEnvelope,
    before: u64,
    after: u64,
    noted: EventEnvelope,
    later: u64,
)
    requires
        before < u64::MAX,
        stamps_event(r, env, before, after),
        notes_event(noted, after, later),
    ensures
        r.lsn == before + 1 && after == r.lsn,
        r.event_type == env.event_type && r.memory_id == env.memory_id && r.session_id
            == env.session_id && r.space_id == env.space_id && r.text == env.text && r.kind
            == env.kind && r.vector == env.vector && r.graph_payload == env.graph_payload
            && r.edge_payload == env.edge_payload,
        later >= r.lsn && (noted.lsn < u64::MAX ==> later > noted.lsn),
{
}

// Events.

/// Whether an edge event names the two ends and the kind of an edge.
pub open spec fn names_edge(p: EdgeEventPayload, from: NodeRef, to: NodeRef, kind: EdgeKindRef) -> bool {
    &&& p.from_kind == (if from is Memory {
        0u8
    } else {
        1
    })
    &&& p.to_kind == (if to is Memory {
        0u8
    } else {
        1
    })
    &&& from matches NodeRef::Entity(id) ==> p.from_id@ == id@
    &&& to matches NodeRef::Entity(id) ==> p.to_id@ == id@
    &&& from matches NodeRef::Memory(id) ==> crate::bytes::be_value(p.from_id@) == id
    &&& to matches NodeRef::Memory(id) ==> crate::bytes::be_value(p.to_id@) == id
    &&& kind matches EdgeKindRef::Builtin(k) ==> p.edge_kind_tag == 0 && p.edge_kind_byte
        == k.byte() && p.relation_type_id is None
    &&& kind is Mentions ==> p.edge_kind_tag == 1 && p.edge_kind_byte == 0 && p.relation_type_id
        is None
    &&& kind matches EdgeKindRef::Typed(t) ==> p.edge_kind_tag == 2 && p.relation_type_id == Some(t)
        && p.edge_kind_byte == t % 256
}

proof fn edge_envelopes_name_their_edge(
    e: EventEnvelope,
    lsn: u64,
    at: u64,
    event_type: EventType,
    session_id: u64,
    space_id: [u8; 16],
    from: NodeRef,
    to: NodeRef,
    kind: EdgeKindRef,
    weight: Single,
    relation_id: Option<[u8; 16]>,
    superseded: Option<[u8; 16]>,
)
    requires
        is_edge_envelope(
            e,
            lsn,
            at,
            event_type,
            session_id,
            space_id,
            from,
            to,
            kind,
            weight,
            relation_id,
            superseded,
        ),
    ensures
        e.edge_payload matches Some(p) && names_edge(p, from, to, kind) && p.weight == weight
            && p.relation_id == relation_id && p.superseded_relation_id == superseded && p.origin
            == 0,
        (e.lsn, e.timestamp_unix_nanos, e.event_type, e.session_id, e.space_id) == (
            lsn,
            at,
            event_type,
            session_id,
            space_id,
        ),
        e.graph_payload is None && e.stage_kind is None && e.text is None && e.memory_id == 0,
{
    crate::bytes::pow256_values();
    if let NodeRef::Memory(id) = from {
        crate::bytes::be_round_trip(id as nat, 16);
    }
    if let NodeRef::Memory(id) = to {
        crate::bytes::be_round_trip(id as nat, 16);
    }
}

/// A stored memory is announced once, as it was stored, and each of its edges
/// once after it, in the memory's session and space.
pub proof fn encodings_are_announced(
    record: WalRecord,
    p: EncodeRecord,
    out: Seq<EventEnvelope>,
    i: int,
)
    requires
        projects(record, out),
        record.payload == Some(WalPayload::Encode(p)),
        0 <= i < p.edges@.len(),
    ensures
        out.len() == p.edges@.len() + 1,
        out[0].event_type is Encoded,
        (out[0].memory_id, out[0].session_id, out[0].kind, out[0].salience, out[0].space_id) == (
            p.memory_id,
            p.session_id,
            p.kind,
            p.salience_initial,
            p.space_id,
        ),
        out[0].text == Some(p.text),
        (out[0].lsn, out[0].timestamp_unix_nanos) == (record.lsn, record.timestamp_ns),
        out[0].edge_payload is None && out[0].graph_payload is None && out[0].stage_kind is None,
        out[i + 1].event_type is EdgeAdded,
        (out[i + 1].session_id, out[i + 1].space_id, out[i + 1].lsn) == (
            p.session_id,
            p.space_id,
            record.lsn,
        ),
        out[i + 1].edge_payload matches Some(x) && names_edge(
            x,
            p.edges@[i].source,
            p.edges@[i].target,
            p.edges@[i].kind,
        ) && x.weight == p.edges@[i].weight && x.relation_id is None,
{
    let w = p.edges@[i];
    edge_envelopes_name_their_edge(
        out[i + 1],
        record.lsn,
        record.timestamp_ns,
        EventType::EdgeAdded,
        p.session_id,
        p.space_id,
        w.source,
        w.target,
        w.kind,
        w.weight,
        None,
        None,
    );
}

/// A memory that is forgotten is announced under its id.
pub proof fn forgettings_are_announced(
    record: WalRecord,
    memory_id: u128,
    out: Seq<EventEnvelope>,
)
    requires
        projects(record, out),
        record.payload == Some(WalPayload::Forget { memory_id }),
    ensures
        out.len() == 1 && out[0].event_type is Forgotten && out[0].memory_id == memory_id
            && out[0].lsn == record.lsn && out[0].timestamp_unix_nanos == record.timestamp_ns,
{
}

/// Linking two nodes announces the edge with its weight, and unlinking them
/// announces its removal, with none.
pub proof fn links_are_announced(
    record: WalRecord,
    source: NodeRef,
    target: NodeRef,
    edge_kind: EdgeKindRef,
    weight: Single,
    out: Seq<EventEnvelope>,
    removed: WalRecord,
    removals: Seq<EventEnvelope>,
)
    requires
        projects(record, out),
        record.payload == Some(WalPayload::Link { source, target, edge_kind, weight }),
        projects(removed, removals),
        removed.payload == Some(WalPayload::Unlink { source, target, edge_kind }),
    ensures
        out.len() == 1 && out[0].event_type is EdgeAdded && (out[0].edge_payload matches Some(p)
            && names_edge(p, source, target, edge_kind) && p.weight == weight),
        removals.len() == 1 && removals[0].event_type is EdgeRemoved && (
        removals[0].edge_payload matches Some(p) && names_edge(p, source, target, edge_kind)
            && p.weight.bits == 0),
{
    zero_id_is_zero();
    edge_envelopes_name_their_edge(
        out[0],
        record.lsn,
        record.timestamp_ns,
        EventType::EdgeAdded,
        0,
        crate::bytes::zero_id(),
        source,
        target,
        edge_kind,
        weight,
        None,
        None,
    );
    edge_envelopes_name_their_edge(
        removals[0],
        removed.lsn,
        removed.timestamp_ns,
        EventType::EdgeRemoved,
        0,
        crate::bytes::zero_id(),
        source,
        target,
        edge_kind,
        Single { bits: 0 },
        None,
        None,
    );
}

/// A relation is announced between its ends, under its type and id, in its
/// session and space; one that replaces another names that one too.
pub proof fn relations_are_announced(
    record: WalRecord,
    p: RelationRecord,
    out: Seq<EventEnvelope>,
    superseding: WalRecord,
    old_relation_id: [u8; 16],
    successors: Seq<EventEnvelope>,
)
    requires
        projects(record, out),
        record.payload == Some(WalPayload::RelationLink(p)),
        projects(superseding, successors),
        superseding.payload == Some(WalPayload::RelationSupersede { old_relation_id, new: p }),
    ensures
        out.len() == 1 && out[0].event_type is EdgeAdded && successors.len() == 1
            && successors[0].event_type is EdgeSuperseded,
        (out[0].session_id, out[0].space_id) == (p.session_id, p.space_id),
        (successors[0].session_id, successors[0].space_id) == (p.session_id, p.space_id),
        out[0].edge_payload matches Some(x) && names_edge(
            x,
            p.from,
            p.to,
            EdgeKindRef::Typed(p.relation_type_id),
        ) && x.relation_id == Some(p.relation_id) && x.superseded_relation_id is None
            && x.weight.bits == 0x3F80_0000,
        successors[0].edge_payload matches Some(x) && names_edge(
            x,
            p.from,
            p.to,
            EdgeKindRef::Typed(p.relation_type_id),
        ) && x.relation_id == Some(p.relation_id) && x.superseded_relation_id == Some(
            old_relation_id,
        ) && x.weight.bits == 0x3F80_0000,
{
    let kind = EdgeKindRef::Typed(p.relation_type_id);
    let one = Single { bits: crate::single::ONE_BITS };
    edge_envelopes_name_their_edge(
        out[0],
        record.lsn,
        record.timestamp_ns,
        EventType::EdgeAdded,
        p.session_id,
        p.space_id,
        p.from,
        p.to,
        kind,
        one,
        Some(p.relation_id),
        None,
    );
    edge_envelopes_name_their_edge(
        successors[0],
        superseding.lsn,
        superseding.timestamp_ns,
        EventType::EdgeSuperseded,
        p.session_id,
        p.space_id,
        p.from,
        p.to,
        kind,
        one,
        Some(p.relation_id),
        Some(old_relation_id),
    );
}

/// A relation that is removed is announced under its id, in its space.
pub proof fn relation_removals_are_announced(
    record: WalRecord,
    relation_id: [u8; 16],
    space_id: [u8; 16],
    out: Seq<EventEnvelope>,
)
    requires
        projects(record, out),
        record.payload == Some(WalPayload::RelationTombstone { relation_id, space_id }),
    ensures
        out.len() == 1 && out[0].event_type is EdgeRemoved && out[0].space_id == space_id && (
        out[0].edge_payload matches Some(p) && p.relation_id == Some(relation_id)
            && p.edge_kind_tag == 2),
{
}

/// A notification is announced as its body says: a stage under its memory and
/// in its space, a change of the graph under the type of that change. What
/// does not decode, or is not for subscribers, is not announced.
pub proof fn notifications_are_announced(
    record: WalRecord,
    space_id: [u8; 16],
    body: NotificationBody,
    out: Seq<EventEnvelope>,
)
    requires
        projects(record, out),
        record.payload == Some(WalPayload::PhaseBody { space_id, body }),
    ensures
        !record.is_subscribe_event ==> out.len() == 0,
        body matches NotificationBody::Stage(None) ==> out.len() == 0,
        body matches NotificationBody::Graph(None) ==> out.len() == 0,
        record.is_subscribe_event ==> (body matches NotificationBody::Stage(Some(b)) ==> out.len()
            == 1 && out[0].event_type is StageCompleted && out[0].space_id == space_id
            && out[0].memory_id == b.memory_id && out[0].stage_kind == Some(b.stage_kind)
            && out[0].stage_outcome == Some(b.stage_outcome) && out[0].stage_payload == Some(
            b.stage_payload,
        )),
        record.is_subscribe_event ==> (body matches NotificationBody::Graph(Some(g)) ==> out.len()
            == 1 && out[0].graph_payload == Some(g) && out[0].stage_kind is None && (
        out[0].event_type is EntityCreated <==> g is EntityCreated) && (
        out[0].event_type is EntityUpdated <==> g is EntityUpdated) && (
        out[0].event_type is EntityRenamed <==> g is EntityRenamed) && (
        out[0].event_type is EntityMerged <==> g is EntityMerged) && (
        out[0].event_type is EntityUnmerged <==> g is EntityUnmerged) && (
        out[0].event_type is EntityTombstoned <==> g is EntityTombstoned) && (
        out[0].event_type is StatementCreated <==> g is StatementCreated) && (
        out[0].event_type is StatementSuperseded <==> g is StatementSuperseded) && (
        out[0].event_type is StatementTombstoned <==> g is StatementTombstoned) && (
        out[0].event_type is RelationCreated <==> g is RelationCreated) && (
        out[0].event_type is RelationSuperseded <==> g is RelationSuperseded) && (
        out[0].event_type is RelationTombstoned <==> g is RelationTombstoned) && (
        out[0].event_type is SchemaUpdated <==> g is SchemaUpdated)),
{
}

/// What is kept for durability alone, and what does not decode, is not
/// announced.
pub proof fn durable_only_records_are_silent(record: WalRecord, out: Seq<EventEnvelope>)
    requires
        projects(record, out),
        record.payload is None || record.payload == Some(WalPayload::DurableOnly),
    ensures
        out.len() == 0,
{
}

} // verus!
