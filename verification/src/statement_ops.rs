//! The steps of the statement operations: what is submitted, and what is
//! answered and announced once it is acknowledged.
use vstd::prelude::*;

use vstd::utf8::encode_utf8;

use crate::bytes::{has_u32, le_bytes, nil_id, put_bytes, put_le, put_text, zero_id};
use crate::error::{fails, internal, invalid, ErrorView, OpError};
use crate::events::{StatementCreatedEvent, StatementSupersededEvent, StatementTombstonedEvent};
use crate::evidence::{evidence_ids, evidence_of};
use crate::hash::{blake3_digest, blake3_hash, byte_of, flag_byte};
use crate::membership::at_most;
use crate::scope::{in_caller_scope, RowScope};
use crate::single::{Single, ONE_BITS};
use crate::statement::{
    copy_object, qname_error, same_object, split_qname, splits_into, validate_predicate_qname,
    EvidenceRef, EvidenceRefWire, EvidenceView, Statement, StatementCreateRequest, StatementKind,
    StatementObject, StatementSupersedeRequest, StatementTombstoneRequest, StatementValue,
    SubjectRef, INLINE_EVIDENCE_CAP, REASON_MESSAGE_MAX, RETRACT_GRACE_NANOS, RETRACT_REASON,
};
use crate::text::{decimal, join2, push_decimal};
use crate::write::{
    is_request_write, request_write, unexpected, unexpected_ack, Ack, Phase, PhaseAck,
    TombstoneTarget, Write,
};

verus! {

// Request digests.

/// The bytes that stand for an object in a digest.
pub open spec fn object_bytes(o: StatementObject) -> Seq<u8> {
    match o {
        StatementObject::EntityRef(id) => seq![0u8] + encode_utf8("e"@) + id@,
        StatementObject::Value(v) => seq![1u8] + (match v {
            StatementValue::Text(s) => encode_utf8("vT"@) + encode_utf8(s@),
            StatementValue::Integer(i) => encode_utf8("vI"@) + le_bytes(i as u64 as nat, 8),
            StatementValue::Float { bits, shown: _ } => encode_utf8("vF"@) + le_bytes(
                bits as nat,
                8,
            ),
            StatementValue::Bool(b) => encode_utf8("vB"@) + seq![flag_byte(b)],
            StatementValue::UnixNanos(t) => encode_utf8("vN"@) + le_bytes(t as nat, 8),
            StatementValue::Blob(b) => encode_utf8("vL"@) + le_bytes(
                b@.len() % 0x1_0000_0000,
                4,
            ) + b@,
        }),
        StatementObject::MemoryRef(m) => seq![2u8] + encode_utf8("m"@) + m@,
        StatementObject::StatementRef(s) => seq![3u8] + encode_utf8("s"@) + s@,
    }
}

/// Appends the bytes that stand for an object in a digest.
pub fn hash_statement_object(h: &mut Vec<u8>, o: &StatementObject)
    ensures
        final(h)@ == old(h)@ + object_bytes(*o),
{
    match o {
        StatementObject::EntityRef(id) => {
            h.push(0);
            put_text(h, "e");
            put_bytes(h, id.as_slice());
        },
        StatementObject::Value(v) => {
            h.push(1);
            match v {
                StatementValue::Text(s) => {
                    put_text(h, "vT");
                    put_text(h, s);
                },
                StatementValue::Integer(i) => {
                    put_text(h, "vI");
                    put_le(h, *i as u64 as u128, 8);
                },
                StatementValue::Float { bits, shown: _ } => {
                    put_text(h, "vF");
                    put_le(h, *bits as u128, 8);
                },
                StatementValue::Bool(b) => {
                    put_text(h, "vB");
                    h.push(byte_of(*b));
                },
                StatementValue::UnixNanos(t) => {
                    put_text(h, "vN");
                    put_le(h, *t as u128, 8);
                },
                StatementValue::Blob(b) => {
                    put_text(h, "vL");
                    put_le(h, (b.len() as u64 % 0x1_0000_0000) as u128, 4);
                    put_bytes(h, b.as_slice());
                },
            }
        },
        StatementObject::MemoryRef(m) => {
            h.push(2);
            put_text(h, "m");
            put_bytes(h, m.as_slice());
        },
        StatementObject::StatementRef(s) => {
            h.push(3);
            put_text(h, "s");
            put_bytes(h, s.as_slice());
        },
    }
    assert(h@ =~= old(h)@ + object_bytes(*o));
}

/// Ids one after the other.
pub open spec fn joined_ids(ids: Seq<[u8; 16]>) -> Seq<u8>
    decreases ids.len(),
{
    if ids.len() == 0 {
        Seq::empty()
    } else {
        joined_ids(ids.drop_last()) + ids.last()@
    }
}

/// The bytes that stand for evidence in a digest.
pub open spec fn evidence_bytes(e: EvidenceView) -> Seq<u8> {
    match e {
        EvidenceView::Inline(ids) => encode_utf8("I"@) + le_bytes(ids.len() % 0x1_0000_0000, 4)
            + joined_ids(ids),
        EvidenceView::Overflow(id) => encode_utf8("O"@) + id@,
    }
}

/// Appends the bytes that stand for evidence in a digest.
pub fn hash_evidence_ref(h: &mut Vec<u8>, e: &EvidenceRefWire)
    ensures
        final(h)@ == old(h)@ + evidence_bytes(e@),
{
    match e {
        EvidenceRefWire::Inline(ids) => {
            put_text(h, "I");
            put_le(h, (ids.len() as u64 % 0x1_0000_0000) as u128, 4);
            let ghost start = h@;
            for i in 0..ids.len()
                invariant
                    h@ == start + joined_ids(ids@.take(i as int)),
            {
                put_bytes(h, ids[i].as_slice());
                assert(ids@.take(i + 1).drop_last() =~= ids@.take(i as int));
                assert(h@ =~= start + joined_ids(ids@.take(i + 1)));
            }
            assert(ids@.take(ids@.len() as int) =~= ids@);
            assert(h@ =~= old(h)@ + evidence_bytes(e@));
        },
        EvidenceRefWire::Overflow(id) => {
            put_text(h, "O");
            put_bytes(h, id.as_slice());
            assert(h@ =~= old(h)@ + evidence_bytes(e@));
        },
    }
}

/// The bytes whose digest stands for a create request: every field but the
/// request id and the acting space.
pub open spec fn create_preimage(req: StatementCreateRequest) -> Seq<u8> {
    encode_utf8("statement_create:"@) + seq![req.kind.byte(), 0u8] + req.subject@ + seq![0u8]
        + encode_utf8(req.predicate@) + seq![0u8] + object_bytes(req.object) + seq![0u8] + le_bytes(
        req.confidence.bits as nat,
        4,
    ) + seq![0u8] + le_bytes(req.extractor_id as nat, 4) + seq![0u8] + le_bytes(
        req.valid_from_unix_nanos as nat,
        8,
    ) + le_bytes(req.valid_to_unix_nanos as nat, 8) + le_bytes(req.event_at_unix_nanos as nat, 8)
        + le_bytes(req.schema_version as nat, 4) + le_bytes(req.session_id as nat, 8) + seq![0u8]
        + evidence_bytes(req.evidence@)
}

/// The digest of a create request.
pub fn hash_statement_create_request(req: &StatementCreateRequest) -> (r: [u8; 32])
    ensures
        r@ == blake3_digest(create_preimage(*req)),
{
    let mut h: Vec<u8> = Vec::new();
    put_text(&mut h, "statement_create:");
    h.push(req.kind.as_u8());
    h.push(0);
    put_bytes(&mut h, req.subject.as_slice());
    h.push(0);
    put_text(&mut h, &req.predicate);
    h.push(0);
    hash_statement_object(&mut h, &req.object);
    h.push(0);
    put_le(&mut h, req.confidence.bits as u128, 4);
    h.push(0);
    put_le(&mut h, req.extractor_id as u128, 4);
    h.push(0);
    put_le(&mut h, req.valid_from_unix_nanos as u128, 8);
    put_le(&mut h, req.valid_to_unix_nanos as u128, 8);
    put_le(&mut h, req.event_at_unix_nanos as u128, 8);
    put_le(&mut h, req.schema_version as u128, 4);
    put_le(&mut h, req.session_id as u128, 8);
    h.push(0);
    hash_evidence_ref(&mut h, &req.evidence);
    assert(h@ =~= create_preimage(*req));
    blake3_hash(h.as_slice())
}

/// The bytes whose digest stands for a supersede request.
pub open spec fn supersede_preimage(req: StatementSupersedeRequest) -> Seq<u8> {
    encode_utf8("statement_supersede:"@) + req.old_statement_id@ + seq![0u8] + blake3_digest(
        create_preimage(req.new_statement),
    )
}

/// The digest of a supersede request.
pub fn hash_statement_supersede_request(req: &StatementSupersedeRequest) -> (r: [u8; 32])
    ensures
        r@ == blake3_digest(supersede_preimage(*req)),
{
    let mut h: Vec<u8> = Vec::new();
    put_text(&mut h, "statement_supersede:");
    put_bytes(&mut h, req.old_statement_id.as_slice());
    h.push(0);
    let new_hash = hash_statement_create_request(&req.new_statement);
    put_bytes(&mut h, new_hash.as_slice());
    assert(h@ =~= supersede_preimage(*req));
    blake3_hash(h.as_slice())
}

/// The bytes whose digest stands for a tombstone or a retraction.
pub open spec fn removal_preimage(domain: Seq<char>, req: StatementTombstoneRequest) -> Seq<u8> {
    encode_utf8(domain) + req.statement_id@ + seq![0u8, req.reason, 0u8] + encode_utf8(
        req.reason_message@,
    )
}

fn hash_removal(domain: &str, req: &StatementTombstoneRequest) -> (r: [u8; 32])
    ensures
        r@ == blake3_digest(removal_preimage(domain@, *req)),
{
    let mut h: Vec<u8> = Vec::new();
    put_text(&mut h, domain);
    put_bytes(&mut h, req.statement_id.as_slice());
    h.push(0);
    h.push(req.reason);
    h.push(0);
    put_text(&mut h, &req.reason_message);
    assert(h@ =~= removal_preimage(domain@, *req));
    blake3_hash(h.as_slice())
}

/// The digest of a tombstone request.
pub fn hash_statement_tombstone_request(req: &StatementTombstoneRequest) -> (r: [u8; 32])
    ensures
        r@ == blake3_digest(removal_preimage("statement_tombstone:"@, *req)),
{
    hash_removal("statement_tombstone:", req)
}

/// The digest of a retract request.
pub fn hash_statement_retract_request(req: &StatementTombstoneRequest) -> (r: [u8; 32])
    ensures
        r@ == blake3_digest(removal_preimage("statement_retract:"@, *req)),
{
    hash_removal("statement_retract:", req)
}

/// A digest does not depend on the request id: a retry has the digest of the
/// first try.
pub proof fn digests_ignore_request_ids(
    req: StatementCreateRequest,
    removal: StatementTombstoneRequest,
    other: [u8; 16],
    domain: Seq<char>,
)
    ensures
        create_preimage(StatementCreateRequest { request_id: other, ..req }) == create_preimage(req),
        removal_preimage(domain, StatementTombstoneRequest { request_id: other, ..removal })
            == removal_preimage(domain, removal),
{
}

// Building a statement.

/// Whether a confidence is a number from 0 to 1.
pub open spec fn is_confidence(c: Single) -> bool {
    (Single { bits: 0 }).at_most(c) && c.at_most(Single { bits: ONE_BITS })
}

/// A time that is set, or none for 0.
pub open spec fn set_time(t: u64) -> Option<u64> {
    if t == 0 {
        None
    } else {
        Some(t)
    }
}

fn time_of(t: u64) -> (r: Option<u64>)
    ensures
        r == set_time(t),
{
    if t == 0 {
        None
    } else {
        Some(t)
    }
}

/// What is wrong with the shape of a new statement, if anything is: only an
/// event has an event time, an event has no validity, and inline evidence has
/// a bound.
pub open spec fn shape_error(req: StatementCreateRequest, kind: StatementKind) -> Option<
    ErrorView,
> {
    if kind != StatementKind::Event && req.event_at_unix_nanos != 0 {
        Some(ErrorView::InvalidRequest("only Event kind may set event_at_unix_nanos"@))
    } else if kind == StatementKind::Event && (req.valid_from_unix_nanos != 0
        || req.valid_to_unix_nanos != 0) {
        Some(
            ErrorView::InvalidRequest(
                "Event kind must not set valid_from_unix_nanos / valid_to_unix_nanos"@,
            ),
        )
    } else if req.evidence matches EvidenceRefWire::Inline(ids) && ids@.len()
        > INLINE_EVIDENCE_CAP {
        Some(
            ErrorView::InvalidRequest(
                "inline evidence list exceeds cap of 8; got "@ + decimal(
                    req.evidence->Inline_0@.len(),
                ),
            ),
        )
    } else {
        None
    }
}

/// A new statement: a root of its own chain, extracted when it arrived, with
/// the validity or the event time that the request gives.
pub open spec fn is_new_statement(
    s: Statement,
    req: StatementCreateRequest,
    predicate: u32,
    now: u64,
    kind: StatementKind,
    id: [u8; 16],
) -> bool {
    &&& s.id == id
    &&& s.kind == kind
    &&& s.subject == SubjectRef::Entity(req.subject)
    &&& s.predicate == predicate
    &&& same_object(s.object, req.object)
    &&& s.confidence == req.confidence
    &&& s.evidence@ == req.evidence@
    &&& s.extractor_id == req.extractor_id
    &&& s.extracted_at_unix_nanos == now
    &&& s.schema_version == (if req.schema_version == 0 {
        1u32
    } else {
        req.schema_version
    })
    &&& s.valid_from_unix_nanos == set_time(req.valid_from_unix_nanos)
    &&& s.valid_to_unix_nanos == set_time(req.valid_to_unix_nanos)
    &&& s.event_at_unix_nanos == set_time(req.event_at_unix_nanos)
    &&& s.chain_root == id
    &&& s.version == 1
    &&& s.supersedes is None
    &&& s.superseded_by is None
    &&& !s.tombstoned
}

/// What building a statement comes to.
pub open spec fn builds_statement(
    r: Result<Statement, OpError>,
    req: StatementCreateRequest,
    predicate: u32,
    now: u64,
    kind: StatementKind,
    id: [u8; 16],
) -> bool {
    match shape_error(req, kind) {
        Some(e) => fails(r, e),
        None => r matches Ok(s) && is_new_statement(s, req, predicate, now, kind, id),
    }
}

/// Builds a statement from a request, a resolved predicate and a fresh id.
pub fn build_statement_from_create(
    req: &StatementCreateRequest,
    predicate: u32,
    now: u64,
    kind: StatementKind,
    id: [u8; 16],
) -> (r: Result<Statement, OpError>)
    ensures
        builds_statement(r, *req, predicate, now, kind, id),
{
    if kind != StatementKind::Event && req.event_at_unix_nanos != 0 {
        return Err(invalid("only Event kind may set event_at_unix_nanos"));
    }
    if kind == StatementKind::Event && (req.valid_from_unix_nanos != 0 || req.valid_to_unix_nanos
        != 0) {
        return Err(
            invalid("Event kind must not set valid_from_unix_nanos / valid_to_unix_nanos"),
        );
    }
    let evidence = match &req.evidence {
        EvidenceRefWire::Inline(ids) => {
            if ids.len() > INLINE_EVIDENCE_CAP {
                let mut message = "inline evidence list exceeds cap of 8; got ".to_owned();
                push_decimal(&mut message, ids.len() as u64);
                return Err(OpError::InvalidRequest(message));
            }
            EvidenceRef::Inline(evidence_of(ids))
        },
        EvidenceRefWire::Overflow(id) => EvidenceRef::Overflow(*id),
    };
    Ok(
        Statement {
            id,
            kind,
            subject: SubjectRef::Entity(req.subject),
            predicate,
            object: copy_object(&req.object),
            confidence: req.confidence,
            evidence,
            extractor_id: req.extractor_id,
            extracted_at_unix_nanos: now,
            schema_version: if req.schema_version == 0 {
                1
            } else {
                req.schema_version
            },
            valid_from_unix_nanos: time_of(req.valid_from_unix_nanos),
            valid_to_unix_nanos: time_of(req.valid_to_unix_nanos),
            event_at_unix_nanos: time_of(req.event_at_unix_nanos),
            chain_root: id,
            version: 1,
            supersedes: None,
            superseded_by: None,
            tombstoned: false,
        },
    )
}

/// An event never has a validity, and nothing else has an event time.
pub proof fn events_are_points_in_time(
    s: Statement,
    req: StatementCreateRequest,
    predicate: u32,
    now: u64,
    kind: StatementKind,
    id: [u8; 16],
)
    requires
        shape_error(req, kind) is None,
        is_new_statement(s, req, predicate, now, kind, id),
    ensures
        kind == StatementKind::Event ==> s.valid_from_unix_nanos is None
            && s.valid_to_unix_nanos is None,
        kind != StatementKind::Event ==> s.event_at_unix_nanos is None,
        s.extracted_at_unix_nanos == now,
{
}

/// Whether a phase carries a statement.
pub open spec fn is_upsert_phase(
    p: Phase,
    s: Statement,
    hint: Option<(String, String)>,
    session_id: u64,
) -> bool {
    p matches Phase::UpsertStatement {
        id,
        kind,
        session,
        subject,
        predicate,
        object,
        confidence,
        evidence,
        valid_from_unix_nanos,
        extractor,
        extracted_at_unix_nanos,
        schema_version,
        predicate_intern_hint,
    } && {
        &&& id == s.id
        &&& kind == s.kind
        &&& session == session_id
        &&& subject == s.subject
        &&& predicate == s.predicate
        &&& object == s.object
        &&& confidence == s.confidence
        &&& evidence@ == s.evidence@
        &&& valid_from_unix_nanos == s.valid_from_unix_nanos
        &&& extractor == s.extractor_id
        &&& extracted_at_unix_nanos == s.extracted_at_unix_nanos
        &&& schema_version == s.schema_version
        &&& predicate_intern_hint == hint
    }
}

/// The phase that stores a statement.
pub fn build_upsert_statement_phase(
    s: Statement,
    predicate_intern_hint: Option<(String, String)>,
    session: u64,
) -> (r: Phase)
    ensures
        is_upsert_phase(r, s, predicate_intern_hint, session),
{
    let evidence = match s.evidence {
        EvidenceRef::Inline(l) => EvidenceRefWire::Inline(evidence_ids(l)),
        EvidenceRef::Overflow(id) => EvidenceRefWire::Overflow(id),
    };
    Phase::UpsertStatement {
        id: s.id,
        kind: s.kind,
        session,
        subject: s.subject,
        predicate: s.predicate,
        object: s.object,
        confidence: s.confidence,
        evidence,
        valid_from_unix_nanos: s.valid_from_unix_nanos,
        extractor: s.extractor_id,
        extracted_at_unix_nanos: s.extracted_at_unix_nanos,
        schema_version: s.schema_version,
        predicate_intern_hint,
    }
}

// Predicates.

/// What was read about a predicate: the active schema version of its
/// namespace, the predicate of that name, and the predicates that the active
/// version declares.
#[derive(Debug)]
pub struct PredicateLookup {
    pub active_version: Option<u32>,
    pub found: Option<u32>,
    pub declared: Vec<u32>,
}

/// Whether a write may use a predicate: without an active schema any may be
/// used, with one only a declared one.
pub open spec fn predicate_allowed(l: PredicateLookup) -> bool {
    l.active_version is Some ==> (l.found matches Some(id) && l.declared@.contains(id))
}

/// The error for a predicate outside the active schema.
pub open spec fn not_in_schema(predicate: Seq<char>, namespace: Seq<char>, version: u32) -> ErrorView {
    ErrorView::PredicateNotInSchema { predicate, namespace, version }
}

/// What looking a predicate up comes to.
pub open spec fn resolves_predicate(
    r: Result<Option<u32>, OpError>,
    predicate: Seq<char>,
    namespace: Seq<char>,
    l: PredicateLookup,
) -> bool {
    &&& (predicate_allowed(l) ==> r == Ok::<Option<u32>, OpError>(l.found))
    &&& (!predicate_allowed(l) ==> fails(
        r,
        not_in_schema(predicate, namespace, l.active_version->0),
    ))
}

/// Resolves a predicate for a write: its id where it is known, nothing where
/// a write without a schema introduces it.
pub fn resolve_predicate(predicate: &str, namespace: &str, l: &PredicateLookup) -> (r: Result<
    Option<u32>,
    OpError,
>)
    ensures
        resolves_predicate(r, predicate@, namespace@, *l),
{
    match l.active_version {
        Some(version) => {
            let declared = match l.found {
                Some(id) => has_u32(&l.declared, id),
                None => false,
            };
            if !declared {
                return Err(
                    OpError::PredicateNotInSchema {
                        predicate: predicate.to_owned(),
                        namespace: namespace.to_owned(),
                        version,
                    },
                );
            }
            Ok(l.found)
        },
        None => Ok(l.found),
    }
}

/// What is wrong with a new statement before anything is looked up.
pub open spec fn statement_request_error(req: StatementCreateRequest) -> Option<ErrorView> {
    if qname_error(req.predicate@) is Some {
        qname_error(req.predicate@)
    } else if !is_confidence(req.confidence) {
        Some(ErrorView::InvalidRequest("confidence must be in [0, 1] and not NaN"@))
    } else {
        None
    }
}

/// Checks a new statement and splits its predicate, so that it can be looked
/// up.
pub fn check_statement_request<'a>(req: &'a StatementCreateRequest) -> (r: Result<
    (&'a str, &'a str),
    OpError,
>)
    ensures
        match statement_request_error(*req) {
            Some(e) => fails(r, e),
            None => r matches Ok(p) && splits_into(req.predicate@, p.0@, p.1@),
        },
{
    match validate_predicate_qname(&req.predicate) {
        Ok(()) => {},
        Err(e) => {
            return Err(e);
        },
    }
    if !req.confidence.is_within(Single { bits: 0 }, Single { bits: ONE_BITS }) {
        return Err(invalid("confidence must be in [0, 1] and not NaN"));
    }
    split_qname(&req.predicate)
}

/// Why a create is refused, if it is.
pub open spec fn create_error(req: StatementCreateRequest, l: PredicateLookup, ns: Seq<char>) -> Option<
    ErrorView,
> {
    if statement_request_error(req) is Some {
        statement_request_error(req)
    } else if !predicate_allowed(l) {
        Some(not_in_schema(req.predicate@, ns, l.active_version->0))
    } else {
        shape_error(req, req.kind)
    }
}

/// Whether a write creates a statement: remembered under the request id, with
/// the request's digest, and carrying the predicate's name where it is still
/// to be introduced.
pub open spec fn is_create_write(
    w: Write,
    req: StatementCreateRequest,
    l: PredicateLookup,
    ns: Seq<char>,
    name: Seq<char>,
    caller: RowScope,
    now: u64,
    id: [u8; 16],
) -> bool {
    &&& is_request_write(w, req.request_id, caller, create_preimage(req))
    &&& exists|s: Statement, hint: Option<(String, String)>| #[trigger]
        is_upsert_phase(w.phase, s, hint, req.session_id) && is_new_statement(
            s,
            req,
            match l.found {
                Some(p) => p,
                None => 0,
            },
            now,
            req.kind,
            id,
        ) && (l.found is Some ==> hint is None) && (l.found is None ==> (hint matches Some(h)
            && h.0@ == ns && h.1@ == name))
}

/// What planning a new statement comes to.
pub open spec fn plans_create(
    r: Result<Write, OpError>,
    req: StatementCreateRequest,
    l: PredicateLookup,
    caller: RowScope,
    now: u64,
    id: [u8; 16],
) -> bool {
    &&& (statement_request_error(req) matches Some(e) ==> fails(r, e))
    &&& (statement_request_error(req) is None ==> forall|ns: Seq<char>, name: Seq<char>| #[trigger]
        splits_into(req.predicate@, ns, name) ==> match create_error(req, l, ns) {
            Some(e) => fails(r, e),
            None => r matches Ok(w) && is_create_write(
                w,
                req,
                l,
                ns,
                name,
                caller,
                now,
                id,
            ),
        })
}

/// Plans a create: what to submit, once the predicate was looked up.
pub fn plan_statement_create(
    req: &StatementCreateRequest,
    l: &PredicateLookup,
    caller: &RowScope,
    now: u64,
    id: [u8; 16],
) -> (r: Result<Write, OpError>)
    ensures
        plans_create(r, *req, *l, *caller, now, id),
{
    let (ns, name) = match check_statement_request(req) {
        Ok(p) => p,
        Err(e) => {
            return Err(e);
        },
    };
    proof {
        assert forall|a: Seq<char>, b: Seq<char>| #[trigger]
            splits_into(req.predicate@, a, b) implies a == ns@ && b == name@ by {
            crate::statement::split_is_unique(req.predicate@, a, b, ns@, name@);
        }
    }
    let found = match resolve_predicate(&req.predicate, ns, l) {
        Ok(f) => f,
        Err(e) => {
            return Err(e);
        },
    };
    let (predicate, hint) = match found {
        Some(p) => (p, None),
        None => (0u32, Some((ns.to_owned(), name.to_owned()))),
    };
    let statement = match build_statement_from_create(req, predicate, now, req.kind, id) {
        Ok(s) => s,
        Err(e) => {
            return Err(e);
        },
    };
    let hash = hash_statement_create_request(req);
    let phase = build_upsert_statement_phase(statement, hint, req.session_id);
    assert(is_upsert_phase(phase, statement, hint, req.session_id));
    Ok(request_write(req.request_id, caller, hash, phase))
}

/// A change to the statement text index.
#[derive(Clone, Copy, Debug, PartialEq, Eq)]
pub enum StatementTextOp {
    Delete([u8; 16]),
    Upsert([u8; 16]),
}

#[derive(Clone, Copy, Debug, PartialEq, Eq)]
pub struct StatementCreateResponse {
    pub statement_id: [u8; 16],
    pub auto_superseded: [u8; 16],
    pub chain_root: [u8; 16],
}

/// What follows an acknowledged create: the answer, the events to announce
/// and the changes to the text index.
#[derive(Debug)]
pub struct StatementCreated {
    pub response: StatementCreateResponse,
    pub created: StatementCreatedEvent,
    pub superseded: Option<StatementSupersededEvent>,
    pub text_ops: Vec<StatementTextOp>,
}

/// Whether an outcome answers a create whose stored row is `row`: an
/// automatic supersession is reported, announced, and its old text removed
/// before the new is added.
pub open spec fn is_created(
    out: StatementCreated,
    req: StatementCreateRequest,
    id: [u8; 16],
    chain_root: [u8; 16],
    supersedes: Option<[u8; 16]>,
) -> bool {
    &&& out.response.statement_id == id
    &&& out.response.chain_root == chain_root
    &&& out.response.auto_superseded == (match supersedes {
        Some(old_id) => old_id,
        None => zero_id(),
    })
    &&& out.created.statement_id == id
    &&& out.created.kind == req.kind.byte()
    &&& out.created.subject == req.subject
    &&& out.created.predicate == req.predicate
    &&& out.created.confidence == req.confidence
    &&& match supersedes {
        Some(old_id) => {
            &&& out.superseded matches Some(e) && e.old_statement_id == old_id
                && e.new_statement_id == id && e.chain_root == chain_root
            &&& out.text_ops@ == seq![StatementTextOp::Delete(old_id), StatementTextOp::Upsert(id)]
        },
        None => out.superseded is None && out.text_ops@ == seq![StatementTextOp::Upsert(id)],
    }
}

/// What the acknowledgement of a creation says.
pub open spec fn reads_created(
    r: Result<[u8; 16], OpError>,
    ack: Ack,
) -> bool {
    match ack.phase {
        PhaseAck::UpsertedStatement(id) => r == Ok::<[u8; 16], OpError>(id),
        _ => fails(
            r,
            unexpected_ack("unexpected phase ack for STATEMENT_CREATE: "@, ack.shown@),
        ),
    }
}

/// The id of the created statement: that of the acknowledgement, so that a
/// replay answers with what the first call wrote.
pub fn created_statement_id(ack: &Ack) -> (r: Result<[u8; 16], OpError>)
    ensures
        reads_created(r, *ack),
{
    match &ack.phase {
        PhaseAck::UpsertedStatement(id) => Ok(*id),
        _ => Err(unexpected("unexpected phase ack for STATEMENT_CREATE: ", &ack.shown)),
    }
}

/// What an acknowledged creation is answered with.
pub open spec fn answers_create(
    r: Result<StatementCreated, OpError>,
    req: StatementCreateRequest,
    id: [u8; 16],
    row: Option<&Statement>,
) -> bool {
    match row {
        Some(s) => r matches Ok(out) && is_created(out, req, id, s.chain_root, s.supersedes),
        None => fails(r, ErrorView::Internal("created statement missing post-commit"@)),
    }
}

/// Answers a create from the row that was stored.
pub fn finish_statement_create(
    req: &StatementCreateRequest,
    id: [u8; 16],
    row: Option<&Statement>,
) -> (r: Result<StatementCreated, OpError>)
    ensures
        answers_create(r, *req, id, row),
{
    let (chain_root, supersedes) = match row {
        Some(s) => (s.chain_root, s.supersedes),
        None => {
            return Err(OpError::Internal("created statement missing post-commit".to_owned()));
        },
    };
    let mut text_ops: Vec<StatementTextOp> = Vec::new();
    let (auto_superseded, superseded) = match supersedes {
        Some(old_id) => {
            text_ops.push(StatementTextOp::Delete(old_id));
            (
                old_id,
                Some(
                    StatementSupersededEvent {
                        old_statement_id: old_id,
                        new_statement_id: id,
                        chain_root,
                    },
                ),
            )
        },
        None => (nil_id(), None),
    };
    text_ops.push(StatementTextOp::Upsert(id));
    assert(supersedes matches Some(o) ==> text_ops@ =~= seq![
        StatementTextOp::Delete(o),
        StatementTextOp::Upsert(id),
    ]);
    assert(supersedes is None ==> text_ops@ =~= seq![StatementTextOp::Upsert(id)]);
    Ok(
        StatementCreated {
            response: StatementCreateResponse { statement_id: id, auto_superseded, chain_root },
            created: StatementCreatedEvent {
                statement_id: id,
                kind: req.kind.as_u8(),
                subject: req.subject,
                predicate: req.predicate.clone(),
                confidence: req.confidence,
            },
            superseded,
            text_ops,
        },
    )
}

// Superseding.

/// The error for a statement that is not there or not the caller's.
pub open spec fn no_statement(shown: Seq<char>) -> ErrorView {
    ErrorView::NotFound { what: "statement"@, detail: shown }
}

/// The error for a statement that is not there or not the caller's.
pub fn statement_not_found(shown: &str) -> (r: OpError)
    ensures
        r@ == no_statement(shown@),
{
    OpError::NotFound { what: "statement", detail: shown.to_owned() }
}

/// What admitting a supersession comes to.
pub open spec fn admits_supersede(
    r: Result<(&'_ str, &'_ str), OpError>,
    req: StatementSupersedeRequest,
    owner: Option<RowScope>,
    caller: RowScope,
    shown: Seq<char>,
) -> bool {
    match statement_request_error(req.new_statement) {
        Some(e) => fails(r, e),
        None => if owner == Some(caller) {
            r matches Ok(p) && splits_into(req.new_statement.predicate@, p.0@, p.1@)
        } else {
            fails(r, no_statement(shown))
        },
    }
}

/// Admits a supersession: the new statement is well formed and the old one is
/// the caller's. Gives the parts of the predicate, so that it can be looked
/// up. `owner` is the scope of the old row, where there is one.
pub fn admit_supersede<'a>(
    req: &'a StatementSupersedeRequest,
    owner: Option<RowScope>,
    caller: &RowScope,
    shown: &str,
) -> (r: Result<(&'a str, &'a str), OpError>)
    ensures
        admits_supersede(r, *req, owner, *caller, shown@),
{
    let parts = match check_statement_request(&req.new_statement) {
        Ok(p) => p,
        Err(e) => {
            return Err(e);
        },
    };
    if !in_caller_scope(owner, caller) {
        return Err(statement_not_found(shown));
    }
    Ok(parts)
}

/// Whether a write replaces a statement by a new one.
pub open spec fn is_supersede_write(
    w: Write,
    req: StatementSupersedeRequest,
    predicate: u32,
    caller: RowScope,
    now: u64,
    id: [u8; 16],
) -> bool {
    &&& is_request_write(w, req.request_id, caller, supersede_preimage(req))
    &&& w.phase matches Phase::SupersedeStatement { old: target, replacement, at_unix_nanos }
        && target == req.old_statement_id && at_unix_nanos == now && is_new_statement(
        replacement,
        req.new_statement,
        predicate,
        now,
        req.new_statement.kind,
        id,
    )
}

/// What planning a supersession comes to.
pub open spec fn plans_supersede(
    r: Result<Write, OpError>,
    req: StatementSupersedeRequest,
    predicate: u32,
    caller: RowScope,
    now: u64,
    id: [u8; 16],
) -> bool {
    match shape_error(req.new_statement, req.new_statement.kind) {
        Some(e) => fails(r, e),
        None => r matches Ok(w) && is_supersede_write(w, req, predicate, caller, now, id),
    }
}

/// Plans a supersession under a resolved predicate.
pub fn plan_statement_supersede(
    req: &StatementSupersedeRequest,
    predicate: u32,
    caller: &RowScope,
    now: u64,
    id: [u8; 16],
) -> (r: Result<Write, OpError>)
    ensures
        plans_supersede(r, *req, predicate, *caller, now, id),
{
    let replacement = match build_statement_from_create(
        &req.new_statement,
        predicate,
        now,
        req.new_statement.kind,
        id,
    ) {
        Ok(s) => s,
        Err(e) => {
            return Err(e);
        },
    };
    let hash = hash_statement_supersede_request(req);
    let phase = Phase::SupersedeStatement {
        old: req.old_statement_id,
        replacement,
        at_unix_nanos: now,
    };
    Ok(request_write(req.request_id, caller, hash, phase))
}

/// What the acknowledgement of a supersession says.
pub open spec fn reads_superseding(
    r: Result<[u8; 16], OpError>,
    ack: Ack,
) -> bool {
    match ack.phase {
        PhaseAck::SupersededStatement(id) => r == Ok::<[u8; 16], OpError>(id),
        _ => fails(
            r,
            unexpected_ack("unexpected phase ack for STATEMENT_SUPERSEDE: "@, ack.shown@),
        ),
    }
}

/// The id of the new statement: that of the acknowledgement, so that a replay
/// answers with what the first call wrote.
pub fn superseding_statement_id(ack: &Ack) -> (r: Result<[u8; 16], OpError>)
    ensures
        reads_superseding(r, *ack),
{
    match &ack.phase {
        PhaseAck::SupersededStatement(id) => Ok(*id),
        _ => Err(unexpected("unexpected phase ack for STATEMENT_SUPERSEDE: ", &ack.shown)),
    }
}

#[derive(Clone, Copy, Debug, PartialEq, Eq)]
pub struct StatementSupersedeResponse {
    pub new_statement_id: [u8; 16],
    pub chain_root: [u8; 16],
    pub version: u32,
}

/// What follows an acknowledged supersession.
#[derive(Debug)]
pub struct StatementSuperseded {
    pub response: StatementSupersedeResponse,
    pub superseded: StatementSupersededEvent,
    pub text_ops: Vec<StatementTextOp>,
}

/// What an acknowledged supersession is answered with.
pub open spec fn answers_supersede(
    r: Result<StatementSuperseded, OpError>,
    req: StatementSupersedeRequest,
    new_id: [u8; 16],
    row: Option<&Statement>,
) -> bool {
    match row {
        Some(s) => r matches Ok(out) && {
            &&& out.response == (StatementSupersedeResponse {
                new_statement_id: new_id,
                chain_root: s.chain_root,
                version: s.version,
            })
            &&& out.superseded == (StatementSupersededEvent {
                old_statement_id: req.old_statement_id,
                new_statement_id: new_id,
                chain_root: s.chain_root,
            })
            &&& out.text_ops@ == seq![
                StatementTextOp::Delete(req.old_statement_id),
                StatementTextOp::Upsert(new_id),
            ]
        },
        None => fails(r, ErrorView::Internal("new statement missing post-supersede"@)),
    }
}

/// Answers a supersession from the row that was stored: its place in the
/// chain, the event, and the old text removed before the new is added.
pub fn finish_statement_supersede(
    req: &StatementSupersedeRequest,
    new_id: [u8; 16],
    row: Option<&Statement>,
) -> (r: Result<StatementSuperseded, OpError>)
    ensures
        answers_supersede(r, *req, new_id, row),
{
    let (chain_root, version) = match row {
        Some(s) => (s.chain_root, s.version),
        None => {
            return Err(internal("new statement missing post-supersede"));
        },
    };
    let mut text_ops: Vec<StatementTextOp> = Vec::new();
    text_ops.push(StatementTextOp::Delete(req.old_statement_id));
    text_ops.push(StatementTextOp::Upsert(new_id));
    assert(text_ops@ =~= seq![
        StatementTextOp::Delete(req.old_statement_id),
        StatementTextOp::Upsert(new_id),
    ]);
    Ok(
        StatementSuperseded {
            response: StatementSupersedeResponse { new_statement_id: new_id, chain_root, version },
            superseded: StatementSupersededEvent {
                old_statement_id: req.old_statement_id,
                new_statement_id: new_id,
                chain_root,
            },
            text_ops,
        },
    )
}

// Tombstones and retractions.

/// The error for a reason byte that no client may give.
pub open spec fn unknown_reason(byte: u8) -> ErrorView {
    ErrorView::InvalidRequest(
        "unknown tombstone_reason byte "@ + decimal(byte as nat) + "; expected 1..=4"@,
    )
}

/// What a reason byte comes to.
pub open spec fn decodes_reason(
    r: Result<u8, OpError>,
    byte: u8,
) -> bool {
    &&& (1 <= byte <= 4 ==> r == Ok::<u8, OpError>(byte))
    &&& (!(1 <= byte <= 4) ==> fails(r, unknown_reason(byte)))
}

/// The reason that a byte stands for: 1 to 4.
pub fn decode_tombstone_reason(byte: u8) -> (r: Result<u8, OpError>)
    ensures
        decodes_reason(r, byte),
{
    if 1 <= byte && byte <= 4 {
        Ok(byte)
    } else {
        let mut message = "unknown tombstone_reason byte ".to_owned();
        push_decimal(&mut message, byte as u64);
        message.push_str("; expected 1..=4");
        Err(OpError::InvalidRequest(message))
    }
}

/// Why a removal is refused, if it is.
pub open spec fn removal_error(
    req: StatementTombstoneRequest,
    owner: Option<RowScope>,
    caller: RowScope,
    shown: Seq<char>,
) -> Option<ErrorView> {
    if encode_utf8(req.reason_message@).len() > REASON_MESSAGE_MAX {
        Some(ErrorView::InvalidRequest("reason_message exceeds 4 KiB"@))
    } else if !(1 <= req.reason <= 4) {
        Some(unknown_reason(req.reason))
    } else if owner != Some(caller) {
        Some(no_statement(shown))
    } else {
        None
    }
}

/// Whether a write removes a statement with a reason byte.
pub open spec fn is_removal_write(
    w: Write,
    req: StatementTombstoneRequest,
    domain: Seq<char>,
    reason_byte: u8,
    caller: RowScope,
    now: u64,
) -> bool {
    &&& is_request_write(w, req.request_id, caller, removal_preimage(domain, req))
    &&& w.phase == (Phase::Tombstone {
        target: TombstoneTarget::Statement(req.statement_id),
        reason: reason_byte,
        at_unix_nanos: now,
    })
}

/// Checks a removal.
fn admit_removal(
    req: &StatementTombstoneRequest,
    owner: Option<RowScope>,
    caller: &RowScope,
    shown: &str,
) -> (r: Result<u8, OpError>)
    ensures
        match removal_error(*req, owner, *caller, shown@) {
            Some(e) => fails(r, e),
            None => r == Ok::<u8, OpError>(req.reason),
        },
{
    if req.reason_message.as_str().as_bytes().len() > REASON_MESSAGE_MAX {
        return Err(invalid("reason_message exceeds 4 KiB"));
    }
    let reason: u8 = match decode_tombstone_reason(req.reason) {
        Ok(b) => b,
        Err(e) => {
            return Err(e);
        },
    };
    if !in_caller_scope(owner, caller) {
        return Err(statement_not_found(shown));
    }
    Ok(reason)
}

/// What planning a tombstone comes to.
pub open spec fn plans_tombstone(
    r: Result<Write, OpError>,
    req: StatementTombstoneRequest,
    owner: Option<RowScope>,
    caller: RowScope,
    shown: Seq<char>,
    now: u64,
) -> bool {
    match removal_error(req, owner, caller, shown) {
        Some(e) => fails(r, e),
        None => r matches Ok(w) && is_removal_write(
            w,
            req,
            "statement_tombstone:"@,
            req.reason,
            caller,
            now,
        ),
    }
}

/// Plans a tombstone with the client's reason.
pub fn plan_statement_tombstone(
    req: &StatementTombstoneRequest,
    owner: Option<RowScope>,
    caller: &RowScope,
    shown: &str,
    now: u64,
) -> (r: Result<Write, OpError>)
    ensures
        plans_tombstone(r, *req, owner, *caller, shown@, now),
{
    let reason: u8 = match admit_removal(req, owner, caller, shown) {
        Ok(b) => b,
        Err(e) => {
            return Err(e);
        },
    };
    let phase = Phase::Tombstone {
        target: TombstoneTarget::Statement(req.statement_id),
        reason,
        at_unix_nanos: now,
    };
    let hash = hash_statement_tombstone_request(req);
    Ok(request_write(req.request_id, caller, hash, phase))
}

/// What planning a retraction comes to.
pub open spec fn plans_retract(
    r: Result<Write, OpError>,
    req: StatementTombstoneRequest,
    owner: Option<RowScope>,
    caller: RowScope,
    shown: Seq<char>,
    now: u64,
) -> bool {
    match removal_error(req, owner, caller, shown) {
        Some(e) => fails(r, e),
        None => r matches Ok(w) && is_removal_write(
            w,
            req,
            "statement_retract:"@,
            RETRACT_REASON,
            caller,
            now,
        ),
    }
}

/// Plans a retraction: checked like a tombstone, but always stamped with the
/// retract reason, so that only retracted rows are ever reclaimed.
pub fn plan_statement_retract(
    req: &StatementTombstoneRequest,
    owner: Option<RowScope>,
    caller: &RowScope,
    shown: &str,
    now: u64,
) -> (r: Result<Write, OpError>)
    ensures
        plans_retract(r, *req, owner, *caller, shown@, now),
{
    match admit_removal(req, owner, caller, shown) {
        Ok(_) => {},
        Err(e) => {
            return Err(e);
        },
    }
    let phase = Phase::Tombstone {
        target: TombstoneTarget::Statement(req.statement_id),
        reason: RETRACT_REASON,
        at_unix_nanos: now,
    };
    let hash = hash_statement_retract_request(req);
    Ok(request_write(req.request_id, caller, hash, phase))
}

/// A client's tombstone never carries the reason byte of a retraction, so it
/// is never reclaimed as one.
pub proof fn tombstones_are_not_retractions(
    req: StatementTombstoneRequest,
    owner: Option<RowScope>,
    caller: RowScope,
    shown: Seq<char>,
    now: u64,
    tombstone: Write,
    retraction: Write,
)
    requires
        removal_error(req, owner, caller, shown) is None,
        is_removal_write(tombstone, req, "statement_tombstone:"@, req.reason, caller, now),
        is_removal_write(retraction, req, "statement_retract:"@, RETRACT_REASON, caller, now),
    ensures
        tombstone.phase->Tombstone_reason != retraction.phase->Tombstone_reason,
        tombstone.phase->Tombstone_target == retraction.phase->Tombstone_target,
{
}

/// What follows an acknowledged removal: when it was stamped, the event, and
/// the text to remove.
#[derive(Debug)]
pub struct StatementRemoved {
    pub at_unix_nanos: u64,
    pub removed: StatementTombstonedEvent,
    pub text_op: StatementTextOp,
}

/// What an acknowledged tombstone is answered with.
pub open spec fn answers_tombstone(
    r: Result<StatementRemoved, OpError>,
    req: StatementTombstoneRequest,
    ack: Ack,
) -> bool {
    match ack.phase {
        PhaseAck::Tombstoned { tombstoned_at_unix_nanos } => r matches Ok(out) && {
            &&& out.at_unix_nanos == tombstoned_at_unix_nanos
            &&& out.removed.statement_id == req.statement_id
            &&& out.removed.reason@ == req.reason_message@
            &&& out.text_op == StatementTextOp::Delete(req.statement_id)
        },
        _ => fails(
            r,
            unexpected_ack("unexpected phase ack for STATEMENT_TOMBSTONE: "@, ack.shown@),
        ),
    }
}

/// Answers a tombstone with the stamp of the acknowledgement, so that a replay
/// answers with the stored time.
pub fn finish_statement_tombstone(req: &StatementTombstoneRequest, ack: &Ack) -> (r: Result<
    StatementRemoved,
    OpError,
>)
    ensures
        answers_tombstone(r, *req, *ack),
{
    match &ack.phase {
        PhaseAck::Tombstoned { tombstoned_at_unix_nanos } => Ok(
            StatementRemoved {
                at_unix_nanos: *tombstoned_at_unix_nanos,
                removed: StatementTombstonedEvent {
                    statement_id: req.statement_id,
                    reason: req.reason_message.clone(),
                },
                text_op: StatementTextOp::Delete(req.statement_id),
            },
        ),
        _ => Err(unexpected("unexpected phase ack for STATEMENT_TOMBSTONE: ", &ack.shown)),
    }
}

#[derive(Clone, Copy, Debug, PartialEq, Eq)]
pub struct StatementRetractResponse {
    pub retracted_at_unix_nanos: u64,
    pub will_zero_at_unix_nanos: u64,
}

/// When the data of a retracted statement is zeroed: a grace period after the
/// retraction, at most the end of time.
pub open spec fn zeroed_at(retracted: u64) -> u64 {
    if retracted + RETRACT_GRACE_NANOS > u64::MAX {
        u64::MAX
    } else {
        (retracted + RETRACT_GRACE_NANOS) as u64
    }
}

/// What an acknowledged retraction is answered with.
pub open spec fn answers_retract(
    r: Result<(StatementRetractResponse, StatementRemoved), OpError>,
    req: StatementTombstoneRequest,
    ack: Ack,
) -> bool {
    match ack.phase {
        PhaseAck::Tombstoned { tombstoned_at_unix_nanos } => r matches Ok(out) && {
            &&& out.0 == (StatementRetractResponse {
                retracted_at_unix_nanos: tombstoned_at_unix_nanos,
                will_zero_at_unix_nanos: zeroed_at(tombstoned_at_unix_nanos),
            })
            &&& out.1.at_unix_nanos == tombstoned_at_unix_nanos
            &&& out.1.removed.statement_id == req.statement_id
            &&& out.1.removed.reason@ == "retract: "@ + req.reason_message@
            &&& out.1.text_op == StatementTextOp::Delete(req.statement_id)
        },
        _ => fails(
            r,
            unexpected_ack("unexpected phase ack for STATEMENT_RETRACT: "@, ack.shown@),
        ),
    }
}

/// Answers a retraction: like a tombstone, with the time of zeroing, and
/// announced with a marked reason.
pub fn finish_statement_retract(req: &StatementTombstoneRequest, ack: &Ack) -> (r: Result<
    (StatementRetractResponse, StatementRemoved),
    OpError,
>)
    ensures
        answers_retract(r, *req, *ack),
{
    match &ack.phase {
        PhaseAck::Tombstoned { tombstoned_at_unix_nanos } => {
            let at: u64 = *tombstoned_at_unix_nanos;
            Ok(
                (
                    StatementRetractResponse {
                        retracted_at_unix_nanos: at,
                        will_zero_at_unix_nanos: at.saturating_add(RETRACT_GRACE_NANOS),
                    },
                    StatementRemoved {
                        at_unix_nanos: at,
                        removed: StatementTombstonedEvent {
                            statement_id: req.statement_id,
                            reason: join2("retract: ", &req.reason_message),
                        },
                        text_op: StatementTextOp::Delete(req.statement_id),
                    },
                ),
            )
        },
        _ => Err(unexpected("unexpected phase ack for STATEMENT_RETRACT: ", &ack.shown)),
    }
}

} // verus!
