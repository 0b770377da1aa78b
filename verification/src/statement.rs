//! Statements: validation, cursors, request digests and the steps of the
//! statement operations.
use vstd::prelude::*;

use vstd::utf8::encode_utf8;

use crate::bytes::{
    copy_bytes, le_bytes, le_round_trip, le_value, pow256_values, put_bytes, put_le, read_le,
    take16,
};
use crate::cursor::{owned_by, put_scope, scope_bytes, scope_bytes_injective, scope_matches};
use crate::evidence::{evidence_entries, InlineEvidence};
use crate::error::{fails, invalid, ErrorView, OpError};
use crate::hash::{blake3_digest, blake3_hash, byte_of, first8, flag_byte};
use crate::scope::RowScope;
use crate::single::Single;
use crate::text::chars_of;

verus! {

/// How long a retracted statement stays before its data is zeroed: 30 days.
pub const RETRACT_GRACE_NANOS: u64 = 2_592_000_000_000_000;

/// Longest reason text, in bytes.
pub const REASON_MESSAGE_MAX: usize = 4096;

/// Longest qualified predicate name, in bytes.
pub const PREDICATE_QNAME_MAX: usize = 96;

/// Largest page of a list read.
pub const LIST_LIMIT_MAX: u32 = 1000;

/// Most evidence entries that a statement holds inline.
pub const INLINE_EVIDENCE_CAP: usize = 8;

/// The reason byte of a retraction.
pub const RETRACT_REASON: u8 = 5;

/// The kinds of statement.
#[derive(Clone, Copy, Debug, PartialEq, Eq, Structural)]
pub enum StatementKind {
    Fact,
    Preference,
    Event,
    Attribute,
    Relation,
    Directive,
    Custom(u8),
}

impl StatementKind {
    /// The kind that a storage byte stands for; every byte is a kind.
    pub open spec fn of_byte(b: u8) -> StatementKind {
        if b == 0 {
            StatementKind::Fact
        } else if b == 1 {
            StatementKind::Preference
        } else if b == 2 {
            StatementKind::Event
        } else if b == 3 {
            StatementKind::Attribute
        } else if b == 4 {
            StatementKind::Relation
        } else if b == 5 {
            StatementKind::Directive
        } else {
            StatementKind::Custom(b)
        }
    }

    /// The storage byte of a kind.
    pub open spec fn byte(self) -> u8 {
        match self {
            StatementKind::Fact => 0,
            StatementKind::Preference => 1,
            StatementKind::Event => 2,
            StatementKind::Attribute => 3,
            StatementKind::Relation => 4,
            StatementKind::Directive => 5,
            StatementKind::Custom(b) => b,
        }
    }

    pub fn from_u8(b: u8) -> (r: StatementKind)
        ensures
            r == StatementKind::of_byte(b),
            r.byte() == b,
    {
        if b == 0 {
            StatementKind::Fact
        } else if b == 1 {
            StatementKind::Preference
        } else if b == 2 {
            StatementKind::Event
        } else if b == 3 {
            StatementKind::Attribute
        } else if b == 4 {
            StatementKind::Relation
        } else if b == 5 {
            StatementKind::Directive
        } else {
            StatementKind::Custom(b)
        }
    }

    pub fn as_u8(self) -> (r: u8)
        ensures
            r == self.byte(),
    {
        match self {
            StatementKind::Fact => 0,
            StatementKind::Preference => 1,
            StatementKind::Event => 2,
            StatementKind::Attribute => 3,
            StatementKind::Relation => 4,
            StatementKind::Directive => 5,
            StatementKind::Custom(b) => b,
        }
    }
}

/// A literal value. `Float` holds the bit pattern of a double and the way it
/// prints.
#[derive(Debug)]
pub enum StatementValue {
    Text(String),
    Integer(i64),
    Float { bits: u64, shown: String },
    Bool(bool),
    UnixNanos(u64),
    Blob(Vec<u8>),
}

/// What a statement says of its subject.
#[derive(Debug)]
pub enum StatementObject {
    EntityRef([u8; 16]),
    Value(StatementValue),
    MemoryRef([u8; 16]),
    StatementRef([u8; 16]),
}

/// The memories that a client says a statement rests on.
#[derive(Debug)]
pub enum EvidenceRefWire {
    Inline(Vec<[u8; 16]>),
    Overflow([u8; 16]),
}

/// The memories that a stored statement rests on: a short list, or a
/// reference to a longer one.
#[derive(Debug)]
pub enum EvidenceRef {
    Inline(InlineEvidence),
    Overflow([u8; 16]),
}

/// An evidence reference as plain values.
pub enum EvidenceView {
    Inline(Seq<[u8; 16]>),
    Overflow([u8; 16]),
}

impl View for EvidenceRef {
    type V = EvidenceView;

    open spec fn view(&self) -> EvidenceView {
        match *self {
            EvidenceRef::Inline(l) => EvidenceView::Inline(evidence_entries(l)),
            EvidenceRef::Overflow(id) => EvidenceView::Overflow(id),
        }
    }
}

impl View for EvidenceRefWire {
    type V = EvidenceView;

    open spec fn view(&self) -> EvidenceView {
        match *self {
            EvidenceRefWire::Inline(l) => EvidenceView::Inline(l@),
            EvidenceRefWire::Overflow(id) => EvidenceView::Overflow(id),
        }
    }
}

/// Whether two values hold the same thing.
pub open spec fn same_value(a: StatementValue, b: StatementValue) -> bool {
    match (a, b) {
        (StatementValue::Blob(x), StatementValue::Blob(y)) => x@ == y@,
        _ => a == b,
    }
}

/// Whether two objects hold the same thing.
pub open spec fn same_object(a: StatementObject, b: StatementObject) -> bool {
    match (a, b) {
        (StatementObject::Value(x), StatementObject::Value(y)) => same_value(x, y),
        _ => a == b,
    }
}

/// A copy of an object.
pub fn copy_object(o: &StatementObject) -> (r: StatementObject)
    ensures
        same_object(r, *o),
{
    match o {
        StatementObject::EntityRef(id) => StatementObject::EntityRef(*id),
        StatementObject::Value(v) => StatementObject::Value(copy_value(v)),
        StatementObject::MemoryRef(id) => StatementObject::MemoryRef(*id),
        StatementObject::StatementRef(id) => StatementObject::StatementRef(*id),
    }
}

/// A copy of a value.
pub fn copy_value(v: &StatementValue) -> (r: StatementValue)
    ensures
        same_value(r, *v),
{
    match v {
        StatementValue::Text(s) => StatementValue::Text(s.clone()),
        StatementValue::Integer(n) => StatementValue::Integer(*n),
        StatementValue::Float { bits, shown } => StatementValue::Float {
            bits: *bits,
            shown: shown.clone(),
        },
        StatementValue::Bool(b) => StatementValue::Bool(*b),
        StatementValue::UnixNanos(t) => StatementValue::UnixNanos(*t),
        StatementValue::Blob(b) => StatementValue::Blob(copy_bytes(b.as_slice())),
    }
}

/// A stored statement.
#[derive(Debug)]
pub struct Statement {
    pub id: [u8; 16],
    pub kind: StatementKind,
    pub subject: SubjectRef,
    pub predicate: u32,
    pub object: StatementObject,
    pub confidence: Single,
    pub evidence: EvidenceRef,
    pub extractor_id: u32,
    pub extracted_at_unix_nanos: u64,
    pub schema_version: u32,
    pub valid_from_unix_nanos: Option<u64>,
    pub valid_to_unix_nanos: Option<u64>,
    pub event_at_unix_nanos: Option<u64>,
    pub chain_root: [u8; 16],
    pub version: u32,
    pub supersedes: Option<[u8; 16]>,
    pub superseded_by: Option<[u8; 16]>,
    pub tombstoned: bool,
}

/// What a statement is about.
#[derive(Clone, Copy, Debug, PartialEq, Eq)]
pub enum SubjectRef {
    Entity([u8; 16]),
    Memory(u128),
    /// A subject that is not resolved yet.
    Pending([u8; 16]),
}

#[derive(Debug)]
pub struct StatementCreateRequest {
    pub kind: StatementKind,
    pub subject: [u8; 16],
    pub predicate: String,
    pub object: StatementObject,
    pub confidence: Single,
    pub evidence: EvidenceRefWire,
    pub extractor_id: u32,
    pub valid_from_unix_nanos: u64,
    pub valid_to_unix_nanos: u64,
    pub event_at_unix_nanos: u64,
    pub schema_version: u32,
    pub session_id: u64,
    pub request_id: [u8; 16],
    pub act_as: Option<[u8; 16]>,
}

#[derive(Debug)]
pub struct StatementSupersedeRequest {
    pub old_statement_id: [u8; 16],
    pub new_statement: StatementCreateRequest,
    pub request_id: [u8; 16],
}

/// The fields of a tombstone or a retraction.
#[derive(Debug)]
pub struct StatementTombstoneRequest {
    pub statement_id: [u8; 16],
    pub reason: u8,
    pub reason_message: String,
    pub request_id: [u8; 16],
}

#[derive(Debug)]
pub struct StatementListRequest {
    pub subject: [u8; 16],
    pub predicate: String,
    pub kind: u8,
    pub only_current: bool,
    pub include_tombstoned: bool,
    pub min_confidence: Single,
    pub time_range_start_unix_nanos: u64,
    pub time_range_end_unix_nanos: u64,
    pub limit: u32,
    pub cursor: Vec<u8>,
}

// Qualified names.

/// What is wrong with a qualified predicate name, if anything is.
pub open spec fn qname_error(q: Seq<char>) -> Option<ErrorView> {
    if q.len() == 0 {
        Some(ErrorView::InvalidRequest("predicate must be non-empty"@))
    } else if encode_utf8(q).len() > PREDICATE_QNAME_MAX {
        Some(ErrorView::InvalidRequest("predicate qname exceeds 96 bytes"@))
    } else if !q.contains(':') {
        Some(ErrorView::InvalidRequest("predicate must use \"namespace:name\" form"@))
    } else {
        None
    }
}

/// Whether an index is that of the first colon.
pub open spec fn finds_colon(
    r: Option<usize>,
    q: Seq<char>,
) -> bool {
    match r {
        Some(i) => i < q.len() && q[i as int] == ':' && !q.take(i as int).contains(':'),
        None => !q.contains(':'),
    }
}

/// The first colon of a string, if it has one.
pub fn first_colon(q: &str) -> (r: Option<usize>)
    ensures
        finds_colon(r, q@),
{
    let v = chars_of(q);
    for i in 0..v.len()
        invariant
            v@ == q@,
            forall|k: int| 0 <= k < i ==> q@[k] != ':',
    {
        if v[i] == ':' {
            return Some(i);
        }
    }
    None
}

/// What checking the name of a predicate comes to.
pub open spec fn admits_qname(
    r: Result<(), OpError>,
    q: Seq<char>,
) -> bool {
    match qname_error(q) {
        Some(e) => fails(r, e),
        None => r is Ok,
    }
}

/// Checks the form of a qualified predicate name.
pub fn validate_predicate_qname(q: &str) -> (r: Result<(), OpError>)
    ensures
        admits_qname(r, q@),
{
    if q.is_empty() {
        return Err(invalid("predicate must be non-empty"));
    }
    if q.as_bytes().len() > PREDICATE_QNAME_MAX {
        return Err(invalid("predicate qname exceeds 96 bytes"));
    }
    if first_colon(q).is_none() {
        return Err(invalid("predicate must use \"namespace:name\" form"));
    }
    Ok(())
}

/// Whether a name splits at its first colon into the two parts.
pub open spec fn splits_into(q: Seq<char>, ns: Seq<char>, name: Seq<char>) -> bool {
    q == ns.push(':') + name && !ns.contains(':')
}

/// What splitting the name of a predicate comes to.
pub open spec fn splits_qname(
    r: Result<(&'_ str, &'_ str), OpError>,
    q: Seq<char>,
) -> bool {
    &&& (!q.contains(':') ==> fails(
        r,
        ErrorView::InvalidRequest("predicate missing ':' separator"@),
    ))
    &&& (q.contains(':') ==> (r matches Ok(p) && splits_into(q, p.0@, p.1@)))
}

/// Splits a qualified name at its first colon.
pub fn split_qname<'a>(q: &'a str) -> (r: Result<(&'a str, &'a str), OpError>)
    ensures
        splits_qname(r, q@),
{
    match first_colon(q) {
        Some(i) => {
            let n: usize = q.unicode_len();
            let ns = q.substring_char(0, i);
            let name = q.substring_char(i + 1, n);
            assert(q@ =~= ns@.push(':') + name@);
            assert(ns@ =~= q@.take(i as int));
            Ok((ns, name))
        },
        None => Err(invalid("predicate missing ':' separator")),
    }
}

/// A name splits in one way.
pub proof fn split_is_unique(
    q: Seq<char>,
    ns: Seq<char>,
    name: Seq<char>,
    ns2: Seq<char>,
    name2: Seq<char>,
)
    requires
        splits_into(q, ns, name),
        splits_into(q, ns2, name2),
    ensures
        ns == ns2,
        name == name2,
{
    if ns.len() < ns2.len() {
        assert(ns2[ns.len() as int] == q[ns.len() as int]);
        assert(ns2.contains(':'));
    } else if ns2.len() < ns.len() {
        assert(ns[ns2.len() as int] == q[ns2.len() as int]);
        assert(ns.contains(':'));
    }
    assert(ns =~= q.take(ns.len() as int));
    assert(ns2 =~= q.take(ns.len() as int));
    assert(name =~= q.skip((ns.len() + 1) as int));
    assert(name2 =~= q.skip((ns.len() + 1) as int));
}

// The history cursor.

/// The history cursor's layout version.
pub const HISTORY_CURSOR_VERSION: u8 = 1;

/// `version(1) + namespace(4) + space(16) + toggle(1) + root(16) + version(4)`.
pub const HISTORY_CURSOR_LEN: usize = 42;

/// The bytes of a history cursor.
pub open spec fn history_cursor_bytes(
    scope: RowScope,
    include_tombstoned: bool,
    chain_root: Seq<u8>,
    last_version: u32,
) -> Seq<u8> {
    seq![HISTORY_CURSOR_VERSION] + scope_bytes(scope) + seq![flag_byte(include_tombstoned)]
        + chain_root + le_bytes(last_version as nat, 4)
}

pub fn encode_history_cursor(
    scope: RowScope,
    include_tombstoned: bool,
    chain_root: [u8; 16],
    last_version: u32,
) -> (r: Vec<u8>)
    ensures
        r@ == history_cursor_bytes(scope, include_tombstoned, chain_root@, last_version),
{
    let mut out: Vec<u8> = Vec::new();
    out.push(HISTORY_CURSOR_VERSION);
    put_scope(&mut out, &scope);
    out.push(byte_of(include_tombstoned));
    put_bytes(&mut out, chain_root.as_slice());
    put_le(&mut out, last_version as u128, 4);
    assert(out@ =~= history_cursor_bytes(scope, include_tombstoned, chain_root@, last_version));
    out
}

/// What is wrong with a non-empty history cursor, if anything is.
pub open spec fn history_cursor_error(
    cursor: Seq<u8>,
    scope: RowScope,
    include_tombstoned: bool,
) -> Option<ErrorView> {
    if cursor.len() != HISTORY_CURSOR_LEN || cursor[0] != HISTORY_CURSOR_VERSION {
        Some(ErrorView::InvalidRequest("malformed cursor"@))
    } else if !owned_by(cursor, scope) {
        Some(ErrorView::InvalidRequest("cursor does not belong to the caller's tenant"@))
    } else if cursor[21] != flag_byte(include_tombstoned) {
        Some(
            ErrorView::InvalidRequest("stale_cursor: include_tombstoned changed between pages"@),
        )
    } else {
        None
    }
}

/// What reading back the cursor of a history comes to.
pub open spec fn reads_history_cursor(
    r: Result<Option<([u8; 16], u32)>, OpError>,
    cursor: Seq<u8>,
    scope: RowScope,
    include_tombstoned: bool,
) -> bool {
    &&& (cursor.len() == 0 ==> r == Ok::<Option<([u8; 16], u32)>, OpError>(None))
    &&& (cursor.len() > 0 ==> match history_cursor_error(cursor, scope, include_tombstoned) {
        Some(e) => fails(r, e),
        None => r matches Ok(Some(p)) && p.0@ == cursor.subrange(22, 38) && p.1 as nat
            == le_value(cursor.subrange(38, 42)),
    })
}

/// Decodes a history cursor to the chain and the last version shown. An empty
/// one asks for the first page.
pub fn decode_history_cursor(cursor: &[u8], scope: RowScope, include_tombstoned: bool) -> (r:
    Result<Option<([u8; 16], u32)>, OpError>)
    ensures
        reads_history_cursor(r, cursor@, scope, include_tombstoned),
{
    if cursor.len() == 0 {
        return Ok(None);
    }
    if cursor.len() != HISTORY_CURSOR_LEN || cursor[0] != HISTORY_CURSOR_VERSION {
        return Err(invalid("malformed cursor"));
    }
    if !scope_matches(cursor, &scope) {
        return Err(invalid("cursor does not belong to the caller's tenant"));
    }
    if cursor[21] != byte_of(include_tombstoned) {
        return Err(invalid("stale_cursor: include_tombstoned changed between pages"));
    }
    let root = take16(cursor, 22);
    let ver = read_le(cursor, 38, 4);
    proof {
        pow256_values();
    }
    Ok(Some((root, ver as u32)))
}

/// A history cursor reads back, for its own tenant and toggle, as the chain
/// and version it was minted with; another tenant or toggle refuses it.
pub proof fn history_cursor_round_trip(
    minted: RowScope,
    include_tombstoned: bool,
    chain_root: [u8; 16],
    last_version: u32,
    caller: RowScope,
    asked: bool,
)
    ensures
        ({
            let c = history_cursor_bytes(minted, include_tombstoned, chain_root@, last_version);
            &&& c.len() > 0
            &&& history_cursor_error(c, caller, asked) is None <==> (minted == caller
                && include_tombstoned == asked)
            &&& c.subrange(22, 38) == chain_root@
            &&& le_value(c.subrange(38, 42)) == last_version
        }),
{
    let c = history_cursor_bytes(minted, include_tombstoned, chain_root@, last_version);
    scope_bytes_injective(minted, caller);
    scope_bytes_injective(caller, minted);
    le_round_trip(last_version as nat, 4);
    pow256_values();
    assert(c.subrange(1, 21) =~= scope_bytes(minted));
    assert(c.subrange(22, 38) =~= chain_root@);
    assert(c.subrange(38, 42) =~= le_bytes(last_version as nat, 4));
}

// The list cursor.

/// The list cursor's layout version.
pub const STATEMENT_CURSOR_VERSION: u8 = 3;

/// `version(1) + namespace(4) + space(16) + filter signature(8) + id(16)`.
pub const STATEMENT_CURSOR_LEN: usize = 45;

/// The bytes whose digest stands for the filters of a list request.
pub open spec fn list_filter_preimage(req: StatementListRequest) -> Seq<u8> {
    req.subject@ + le_bytes(encode_utf8(req.predicate@).len() % 0x1_0000_0000, 4) + encode_utf8(
        req.predicate@,
    ) + seq![req.kind, flag_byte(req.only_current), flag_byte(req.include_tombstoned)] + le_bytes(
        req.min_confidence.bits as nat,
        4,
    ) + le_bytes(req.time_range_start_unix_nanos as nat, 8) + le_bytes(
        req.time_range_end_unix_nanos as nat,
        8,
    )
}

/// The signature of a list request's filters.
pub open spec fn list_filter_signature(req: StatementListRequest) -> Seq<u8> {
    blake3_digest(list_filter_preimage(req)).take(8)
}

/// The signature of a list request's filters: a changed filter changes it, so
/// a cursor minted under other filters is refused.
pub fn statement_list_filter_signature(req: &StatementListRequest) -> (r: [u8; 8])
    ensures
        r@ == list_filter_signature(*req),
{
    let mut h: Vec<u8> = Vec::new();
    let text = req.predicate.as_str().as_bytes();
    put_bytes(&mut h, req.subject.as_slice());
    put_le(&mut h, (text.len() as u64 % 0x1_0000_0000) as u128, 4);
    put_bytes(&mut h, text);
    h.push(req.kind);
    h.push(byte_of(req.only_current));
    h.push(byte_of(req.include_tombstoned));
    put_le(&mut h, req.min_confidence.bits as u128, 4);
    put_le(&mut h, req.time_range_start_unix_nanos as u128, 8);
    put_le(&mut h, req.time_range_end_unix_nanos as u128, 8);
    assert(h@ =~= list_filter_preimage(*req));
    let full = blake3_hash(h.as_slice());
    first8(&full)
}

/// The bytes of a list cursor.
pub open spec fn statement_cursor_bytes(scope: RowScope, sig: Seq<u8>, id: Seq<u8>) -> Seq<u8> {
    seq![STATEMENT_CURSOR_VERSION] + scope_bytes(scope) + sig + id
}

/// A resume point of the statement list.
#[derive(Clone, Copy, Debug, PartialEq, Eq)]
pub struct StatementListCursor {
    pub id: [u8; 16],
}

pub fn encode_statement_cursor(scope: RowScope, sig: &[u8; 8], c: &StatementListCursor) -> (r: Vec<
    u8,
>)
    ensures
        r@ == statement_cursor_bytes(scope, sig@, c.id@),
{
    let mut out: Vec<u8> = Vec::new();
    out.push(STATEMENT_CURSOR_VERSION);
    put_scope(&mut out, &scope);
    put_bytes(&mut out, sig.as_slice());
    put_bytes(&mut out, c.id.as_slice());
    assert(out@ =~= statement_cursor_bytes(scope, sig@, c.id@));
    out
}

/// What is wrong with a non-empty list cursor, if anything is.
pub open spec fn statement_cursor_error(cursor: Seq<u8>, scope: RowScope, sig: Seq<u8>) -> Option<
    ErrorView,
> {
    if cursor.len() != STATEMENT_CURSOR_LEN || cursor[0] != STATEMENT_CURSOR_VERSION {
        Some(ErrorView::InvalidRequest("malformed cursor"@))
    } else if !owned_by(cursor, scope) {
        Some(ErrorView::InvalidRequest("cursor does not belong to the caller's tenant"@))
    } else if cursor.subrange(21, 29) != sig {
        Some(ErrorView::InvalidRequest("stale_cursor: filters changed between pages"@))
    } else {
        None
    }
}

/// Whether the eight bytes at `at` are those of a signature.
pub fn eq8_at(b: &[u8], at: usize, sig: &[u8; 8]) -> (r: bool)
    requires
        at + 8 <= b@.len(),
    ensures
        r == (b@.subrange(at as int, at + 8) == sig@),
{
    let total: usize = b.len();
    for i in 0..8usize
        invariant
            at + 8 <= b@.len() == total,
            forall|j: int| 0 <= j < i ==> b@[at + j] == sig@[j],
    {
        if b[at + i] != sig[i] {
            assert(b@.subrange(at as int, at + 8)[i as int] != sig@[i as int]);
            return false;
        }
    }
    assert(b@.subrange(at as int, at + 8) =~= sig@);
    true
}

/// What reading back the cursor of a list comes to.
pub open spec fn reads_statement_cursor(
    r: Result<Option<StatementListCursor>, OpError>,
    cursor: Seq<u8>,
    scope: RowScope,
    sig: [u8; 8],
) -> bool {
    &&& (cursor.len() == 0 ==> r == Ok::<Option<StatementListCursor>, OpError>(None))
    &&& (cursor.len() > 0 ==> match statement_cursor_error(cursor, scope, sig@) {
        Some(e) => fails(r, e),
        None => r matches Ok(Some(c)) && c.id@ == cursor.subrange(29, 45),
    })
}

pub fn decode_statement_cursor(cursor: &[u8], scope: RowScope, sig: &[u8; 8]) -> (r: Result<
    Option<StatementListCursor>,
    OpError,
>)
    ensures
        reads_statement_cursor(r, cursor@, scope, *sig),
{
    if cursor.len() == 0 {
        return Ok(None);
    }
    if cursor.len() != STATEMENT_CURSOR_LEN || cursor[0] != STATEMENT_CURSOR_VERSION {
        return Err(invalid("malformed cursor"));
    }
    if !scope_matches(cursor, &scope) {
        return Err(invalid("cursor does not belong to the caller's tenant"));
    }
    if !eq8_at(cursor, 21, sig) {
        return Err(invalid("stale_cursor: filters changed between pages"));
    }
    Ok(Some(StatementListCursor { id: take16(cursor, 29) }))
}

/// A list cursor reads back, for its own tenant and filter signature, as the
/// id it was minted with; another tenant or signature refuses it.
pub proof fn statement_cursor_round_trip(
    minted: RowScope,
    sig: [u8; 8],
    id: [u8; 16],
    caller: RowScope,
    asked: [u8; 8],
)
    ensures
        ({
            let c = statement_cursor_bytes(minted, sig@, id@);
            &&& c.len() > 0
            &&& statement_cursor_error(c, caller, asked@) is None <==> (minted == caller && sig@
                == asked@)
            &&& c.subrange(29, 45) == id@
        }),
{
    let c = statement_cursor_bytes(minted, sig@, id@);
    scope_bytes_injective(minted, caller);
    scope_bytes_injective(caller, minted);
    assert(c.subrange(1, 21) =~= scope_bytes(minted));
    assert(c.subrange(21, 29) =~= sig@);
    assert(c.subrange(29, 45) =~= id@);
}

} // verus!
