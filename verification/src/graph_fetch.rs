//! Exporting the typed graph page by page: requests, keys and cursors.
use vstd::prelude::*;

use crate::bytes::{
    be_bytes, be_round_trip, be_value_round_trip, eq16, pow256_values, put_be, put_bytes, read_be,
    take16,
};
use crate::error::{fails, invalid, ErrorView, OpError};
use crate::events::EdgeKind;
use crate::scope::RowScope;
use crate::text::take_chars;

verus! {

/// The layout version of a cursor.
pub const GRAPH_CURSOR_VERSION: u8 = 1;

/// `namespace(4) + space(16) + subject(16) + kind(1) + predicate(4) +
/// is_current(1) + statement(16)`.
pub const STMT_KEY_LEN: usize = 58;

/// `version(1) + flags(1) + key(58)`.
pub const GRAPH_CURSOR_LEN: usize = 60;

/// Most statements on one page.
pub const GRAPH_LIMIT_MAX: u32 = 500;

pub const FLAG_STATEMENTS: u8 = 1;

pub const FLAG_MEMORIES: u8 = 2;

pub const FLAG_TOMBSTONED: u8 = 4;

pub const FLAG_MEMORY_EDGES: u8 = 8;

pub const NODE_ENTITY: u8 = 0;

pub const NODE_STATEMENT: u8 = 1;

pub const NODE_MEMORY: u8 = 2;

pub const EDGE_RELATION: u8 = 0;

pub const EDGE_FACT: u8 = 1;

pub const EDGE_HAS_STATEMENT: u8 = 2;

pub const EDGE_MENTIONS: u8 = 3;

#[derive(Debug)]
pub struct GraphFetchRequest {
    pub limit: u32,
    pub cursor: Vec<u8>,
    pub include_statements: bool,
    pub include_memories: bool,
    pub include_memory_edges: bool,
    pub include_tombstoned: bool,
    pub act_as: Option<[u8; 16]>,
}

/// A key of the statement index: namespace, space, subject, kind, predicate,
/// whether the statement is current, and the statement.
pub type StmtKey = (u32, [u8; 16], [u8; 16], u8, u32, u8, [u8; 16]);

/// The bytes of a key, in key order.
pub open spec fn key_seq(k: StmtKey) -> Seq<u8> {
    be_bytes(k.0 as nat, 4) + k.1@ + k.2@ + seq![k.3] + be_bytes(k.4 as nat, 4) + seq![k.5] + k.6@
}

/// The bytes of a key.
pub fn key_to_bytes(k: &StmtKey) -> (r: [u8; 58])
    ensures
        r@ == key_seq(*k),
{
    let (ns, space, subject, kind, predicate, is_current, statement) = k;
    let mut v: Vec<u8> = Vec::new();
    put_be(&mut v, *ns as u128, 4);
    put_bytes(&mut v, space.as_slice());
    put_bytes(&mut v, subject.as_slice());
    v.push(*kind);
    put_be(&mut v, *predicate as u128, 4);
    v.push(*is_current);
    put_bytes(&mut v, statement.as_slice());
    proof {
        be_round_trip(k.0 as nat, 4);
        be_round_trip(k.4 as nat, 4);
        assert(v@ =~= key_seq(*k));
    }
    let mut out: [u8; 58] = [0u8;58];
    for i in 0..58usize
        invariant
            v@.len() == 58,
            forall|j: int| 0 <= j < i ==> out@[j] == v@[j],
    {
        out[i] = v[i];
    }
    assert(out@ =~= v@);
    out
}

/// What reading a key back comes to.
pub open spec fn reads_key(
    r: Option<StmtKey>,
    b: Seq<u8>,
) -> bool {
    &&& (b.len() != STMT_KEY_LEN ==> r is None)
    &&& (b.len() == STMT_KEY_LEN ==> (r matches Some(k) && key_seq(k) == b))
}

/// Reads a key back from its bytes.
pub fn bytes_to_key(b: &[u8]) -> (r: Option<StmtKey>)
    ensures
        reads_key(r, b@),
{
    if b.len() != STMT_KEY_LEN {
        return None;
    }
    let ns = read_be(b, 0, 4);
    let space = take16(b, 4);
    let subject = take16(b, 20);
    let kind: u8 = b[36];
    let predicate = read_be(b, 37, 4);
    let is_current: u8 = b[41];
    let statement = take16(b, 42);
    proof {
        pow256_values();
        be_value_round_trip(b@.subrange(0, 4));
        be_value_round_trip(b@.subrange(37, 41));
        let k = (ns as u32, space, subject, kind, predicate as u32, is_current, statement);
        assert(be_bytes(k.0 as nat, 4) == b@.subrange(0, 4));
        assert(be_bytes(k.4 as nat, 4) == b@.subrange(37, 41));
        assert(key_seq(k) =~= b@);
    }
    Some((ns as u32, space, subject, kind, predicate as u32, is_current, statement))
}

/// A key is told by its bytes, so reading the bytes of a key gives the key.
pub proof fn key_bytes_are_unique(a: StmtKey, b: StmtKey)
    ensures
        key_seq(a).len() == STMT_KEY_LEN,
        key_seq(a) == key_seq(b) ==> a == b,
{
    pow256_values();
    be_round_trip(a.0 as nat, 4);
    be_round_trip(b.0 as nat, 4);
    be_round_trip(a.4 as nat, 4);
    be_round_trip(b.4 as nat, 4);
    let s = key_seq(a);
    let t = key_seq(b);
    if s == t {
        assert(s.subrange(0, 4) =~= be_bytes(a.0 as nat, 4));
        assert(t.subrange(0, 4) =~= be_bytes(b.0 as nat, 4));
        assert(s.subrange(4, 20) =~= a.1@);
        assert(t.subrange(4, 20) =~= b.1@);
        assert(s.subrange(20, 36) =~= a.2@);
        assert(t.subrange(20, 36) =~= b.2@);
        assert(s[36] == a.3 && t[36] == b.3);
        assert(s.subrange(37, 41) =~= be_bytes(a.4 as nat, 4));
        assert(t.subrange(37, 41) =~= be_bytes(b.4 as nat, 4));
        assert(s[41] == a.5 && t[41] == b.5);
        assert(s.subrange(42, 58) =~= a.6@);
        assert(t.subrange(42, 58) =~= b.6@);
        assert(a.1 =~= b.1);
        assert(a.2 =~= b.2);
        assert(a.6 =~= b.6);
    }
}

/// The bytes of a cursor.
pub open spec fn graph_cursor(flags: u8, k: StmtKey) -> Seq<u8> {
    seq![GRAPH_CURSOR_VERSION, flags] + key_seq(k)
}

/// A cursor that resumes after a key, under the layers it was minted for.
pub fn encode_cursor(flags: u8, key: &StmtKey) -> (r: Vec<u8>)
    ensures
        r@ == graph_cursor(flags, *key),
{
    let mut out: Vec<u8> = Vec::new();
    out.push(GRAPH_CURSOR_VERSION);
    out.push(flags);
    let k = key_to_bytes(key);
    put_bytes(&mut out, k.as_slice());
    assert(out@ =~= graph_cursor(flags, *key));
    out
}

/// The error for a cursor that no longer fits.
pub open spec fn stale_layers() -> ErrorView {
    ErrorView::InvalidRequest("stale_cursor: layer toggles changed"@)
}

/// Whether a cursor fits a request's layers.
pub open spec fn cursor_fits(cursor: Seq<u8>, flags: u8) -> bool {
    cursor.len() == GRAPH_CURSOR_LEN && cursor[0] == GRAPH_CURSOR_VERSION && cursor[1] == flags
}

/// What reading a cursor back comes to.
pub open spec fn reads_graph_cursor(
    r: Result<StmtKey, OpError>,
    cursor: Seq<u8>,
    flags: u8,
) -> bool {
    &&& (!cursor_fits(cursor, flags) ==> fails(r, stale_layers()))
    &&& (cursor_fits(cursor, flags) ==> (r matches Ok(k) && graph_cursor(flags, k) == cursor))
}

/// Reads a cursor back; one minted for other layers is refused.
pub fn decode_cursor(cursor: &[u8], flags: u8) -> (r: Result<StmtKey, OpError>)
    ensures
        reads_graph_cursor(r, cursor@, flags),
{
    if cursor.len() != GRAPH_CURSOR_LEN || cursor[0] != GRAPH_CURSOR_VERSION || cursor[1]
        != flags {
        return Err(invalid("stale_cursor: layer toggles changed"));
    }
    let rest = vstd::slice::slice_subrange(cursor, 2, cursor.len());
    match bytes_to_key(rest) {
        Some(k) => {
            assert(graph_cursor(flags, k) =~= cursor@);
            Ok(k)
        },
        None => Err(invalid("stale_cursor: layer toggles changed")),
    }
}

/// A cursor reads back as its key under its own layers, and under no others.
pub proof fn graph_cursor_round_trip(flags: u8, key: StmtKey, asked: u8, read: StmtKey)
    ensures
        cursor_fits(graph_cursor(flags, key), asked) <==> asked == flags,
        graph_cursor(flags, read) == graph_cursor(flags, key) ==> read == key,
{
    key_bytes_are_unique(read, key);
    key_bytes_are_unique(key, read);
    let a = graph_cursor(flags, read);
    let b = graph_cursor(flags, key);
    assert(a.skip(2) =~= key_seq(read));
    assert(b.skip(2) =~= key_seq(key));
}

// The request.

/// The weight of a toggle.
pub open spec fn toggle(on: bool, flag: u8) -> int {
    if on {
        flag as int
    } else {
        0
    }
}

/// The layers that a request asks for, as bits.
pub open spec fn flags_of(req: GraphFetchRequest) -> int {
    toggle(req.include_statements, FLAG_STATEMENTS) + toggle(req.include_memories, FLAG_MEMORIES)
        + toggle(req.include_tombstoned, FLAG_TOMBSTONED) + toggle(
        req.include_memory_edges,
        FLAG_MEMORY_EDGES,
    )
}

fn weigh(on: bool, flag: u8) -> (r: u8)
    ensures
        r as int == toggle(on, flag),
{
    if on {
        flag
    } else {
        0
    }
}

pub fn req_flags(req: &GraphFetchRequest) -> (r: u8)
    ensures
        r as int == flags_of(*req),
{
    weigh(req.include_statements, FLAG_STATEMENTS) + weigh(req.include_memories, FLAG_MEMORIES)
        + weigh(req.include_tombstoned, FLAG_TOMBSTONED) + weigh(
        req.include_memory_edges,
        FLAG_MEMORY_EDGES,
    )
}

/// Requests have the same flags only where they ask for the same layers.
pub proof fn flags_tell_the_layers(a: GraphFetchRequest, b: GraphFetchRequest)
    ensures
        flags_of(a) == flags_of(b) <==> (a.include_statements == b.include_statements
            && a.include_memories == b.include_memories && a.include_tombstoned
            == b.include_tombstoned && a.include_memory_edges == b.include_memory_edges),
{
}

/// Whether two keys enclose the statements of a tenant.
pub open spec fn spans_spine(
    r: (StmtKey, StmtKey),
    scope: RowScope,
) -> bool {
    ({
        let (lo, hi) = r;
        &&& lo.0 == scope.namespace_id && hi.0 == scope.namespace_id
        &&& lo.1 == scope.space_id_bytes && hi.1 == scope.space_id_bytes
        &&& lo.2@ == Seq::new(16, |i: int| 0u8) && hi.2@ == Seq::new(16, |i: int| 255u8)
        &&& lo.3 == 0 && hi.3 == u8::MAX
        &&& lo.4 == 0 && hi.4 == u32::MAX
        &&& lo.5 == 0 && hi.5 == u8::MAX
        &&& lo.6@ == Seq::new(16, |i: int| 0u8) && hi.6@ == Seq::new(16, |i: int| 255u8)
    })
}

/// The first and the last key of a scope in the statement index.
pub fn spine_range(scope: &RowScope) -> (r: (StmtKey, StmtKey))
    ensures
        spans_spine(r, *scope),
{
    let low: [u8; 16] = [0u8;16];
    let high: [u8; 16] = [255u8;16];
    assert(low@ =~= Seq::new(16, |i: int| 0u8));
    assert(high@ =~= Seq::new(16, |i: int| 255u8));
    let ns: u32 = scope.namespace_id;
    let space = scope.space_id_bytes;
    ((ns, space, low, 0, 0, 0, low), (ns, space, high, u8::MAX, u32::MAX, u8::MAX, high))
}

/// Whether a key is one of a scope.
pub open spec fn key_in_scope(k: StmtKey, caller: RowScope) -> bool {
    k.0 == caller.namespace_id && k.1 == caller.space_id_bytes
}

/// Whether a key is one of a scope.
pub fn is_key_of(k: &StmtKey, caller: &RowScope) -> (r: bool)
    ensures
        r == key_in_scope(*k, *caller),
{
    k.0 == caller.namespace_id && eq16(&k.1, &caller.space_id_bytes)
}

/// The bytes that the keys of a scope begin with.
pub open spec fn scope_prefix(caller: RowScope) -> Seq<u8> {
    be_bytes(caller.namespace_id as nat, 4) + caller.space_id_bytes@
}

/// The error for a cursor of another scope.
pub open spec fn foreign_cursor() -> ErrorView {
    ErrorView::InvalidRequest("cursor does not belong to the caller's tenant"@)
}

/// The key that a cursor resumes after is of a scope exactly where its bytes
/// begin with those of the scope.
pub proof fn prefix_tells_the_scope(flags: u8, key: StmtKey, caller: RowScope)
    ensures
        graph_cursor(flags, key).subrange(2, 22) == scope_prefix(caller) <==> key_in_scope(
            key,
            caller,
        ),
{
    pow256_values();
    be_round_trip(key.0 as nat, 4);
    be_round_trip(caller.namespace_id as nat, 4);
    let s = graph_cursor(flags, key).subrange(2, 22);
    assert(s =~= be_bytes(key.0 as nat, 4) + key.1@);
    assert(s.subrange(0, 4) =~= be_bytes(key.0 as nat, 4));
    assert(s.subrange(4, 20) =~= key.1@);
    if s == scope_prefix(caller) {
        assert(s.subrange(0, 4) =~= be_bytes(caller.namespace_id as nat, 4));
        assert(s.subrange(4, 20) =~= caller.space_id_bytes@);
        assert(key.1 =~= caller.space_id_bytes);
    }
}

/// Why a request is refused, if it is. Memory edges need the layer that emits
/// memories; a cursor must fit the layers and resume in the caller's scope.
pub open spec fn graph_request_error(req: GraphFetchRequest, caller: RowScope) -> Option<
    ErrorView,
> {
    if req.limit == 0 || req.limit > GRAPH_LIMIT_MAX {
        Some(ErrorView::InvalidRequest("limit must be in 1..=500"@))
    } else if req.include_memory_edges && !req.include_memories {
        Some(ErrorView::InvalidRequest("include_memory_edges requires include_memories"@))
    } else if req.cursor@.len() > 0 && !cursor_fits(req.cursor@, flags_of(req) as u8) {
        Some(stale_layers())
    } else if req.cursor@.len() > 0 && req.cursor@.subrange(2, 22) != scope_prefix(caller) {
        Some(foreign_cursor())
    } else {
        None
    }
}

/// What admitting a fetch comes to.
pub open spec fn admits_graph(
    r: Result<Option<StmtKey>, OpError>,
    req: GraphFetchRequest,
    caller: RowScope,
) -> bool {
    match graph_request_error(req, caller) {
        Some(e) => fails(r, e),
        None => r matches Ok(k) && (k is None <==> req.cursor@.len() == 0) && (
        k matches Some(key) ==> graph_cursor(flags_of(req) as u8, key) == req.cursor@
            && key_in_scope(key, caller)),
    }
}

/// Admits a request and gives the key to resume after, if any: always one of
/// the caller's scope.
pub fn admit_graph_fetch(req: &GraphFetchRequest, caller: &RowScope) -> (r: Result<
    Option<StmtKey>,
    OpError,
>)
    ensures
        admits_graph(r, *req, *caller),
{
    if req.limit == 0 || req.limit > GRAPH_LIMIT_MAX {
        return Err(invalid("limit must be in 1..=500"));
    }
    if req.include_memory_edges && !req.include_memories {
        return Err(invalid("include_memory_edges requires include_memories"));
    }
    let flags: u8 = req_flags(req);
    if req.cursor.len() == 0 {
        return Ok(None);
    }
    match decode_cursor(req.cursor.as_slice(), flags) {
        Ok(k) => {
            proof {
                prefix_tells_the_scope(flags, k, *caller);
            }
            if !is_key_of(&k, caller) {
                return Err(invalid("cursor does not belong to the caller's tenant"));
            }
            Ok(Some(k))
        },
        Err(e) => Err(e),
    }
}

// Edges and labels.

/// Whether an edge kind has no direction.
pub open spec fn symmetric(kind: EdgeKind) -> bool {
    kind == EdgeKind::SimilarTo || kind == EdgeKind::Contradicts
}

pub fn is_symmetric(kind: EdgeKind) -> (r: bool)
    ensures
        r == symmetric(kind),
{
    match kind {
        EdgeKind::SimilarTo => true,
        EdgeKind::Contradicts => true,
        _ => false,
    }
}

/// The ends of a memory edge: in stored direction, or in id order for a kind
/// without direction.
pub open spec fn edge_ends(kind: EdgeKind, anchor: u128, other: u128, outgoing: bool) -> (
    u128,
    u128,
) {
    if symmetric(kind) {
        if anchor <= other {
            (anchor, other)
        } else {
            (other, anchor)
        }
    } else if outgoing {
        (anchor, other)
    } else {
        (other, anchor)
    }
}

pub fn memory_edge_endpoints(kind: EdgeKind, anchor: u128, other: u128, outgoing: bool) -> (r: (
    u128,
    u128,
))
    ensures
        r == edge_ends(kind, anchor, other, outgoing),
{
    if is_symmetric(kind) {
        if anchor <= other {
            (anchor, other)
        } else {
            (other, anchor)
        }
    } else if outgoing {
        (anchor, other)
    } else {
        (other, anchor)
    }
}

/// Both stored rows of an edge without direction give one edge, from whichever
/// end and in whichever direction it is reached.
pub proof fn symmetric_edges_have_one_form(
    kind: EdgeKind,
    a: u128,
    b: u128,
    out1: bool,
    out2: bool,
)
    requires
        symmetric(kind),
    ensures
        edge_ends(kind, a, b, out1) == edge_ends(kind, b, a, out2),
        edge_ends(kind, a, b, out1) == edge_ends(kind, a, b, out2),
{
}

/// The name of a memory edge.
pub open spec fn edge_name(kind: EdgeKind) -> Seq<char> {
    match kind {
        EdgeKind::Caused => "caused"@,
        EdgeKind::FollowedBy => "followed_by"@,
        EdgeKind::DerivedFrom => "derived_from"@,
        EdgeKind::SimilarTo => "similar_to"@,
        EdgeKind::Contradicts => "contradicts"@,
        EdgeKind::Supports => "supports"@,
        EdgeKind::References => "references"@,
        EdgeKind::PartOf => "part_of"@,
    }
}

pub fn builtin_edge_label(kind: EdgeKind) -> (r: &'static str)
    ensures
        r@ == edge_name(kind),
{
    match kind {
        EdgeKind::Caused => "caused",
        EdgeKind::FollowedBy => "followed_by",
        EdgeKind::DerivedFrom => "derived_from",
        EdgeKind::SimilarTo => "similar_to",
        EdgeKind::Contradicts => "contradicts",
        EdgeKind::Supports => "supports",
        EdgeKind::References => "references",
        EdgeKind::PartOf => "part_of",
    }
}

/// The edge byte of a memory edge: after those of the typed graph.
pub open spec fn memory_edge_kind(kind: EdgeKind) -> u8 {
    (4 + kind.byte()) as u8
}

pub fn memory_edge_byte(kind: EdgeKind) -> (r: u8)
    ensures
        r == memory_edge_kind(kind),
{
    4 + kind.as_u8()
}

/// Every memory edge kind has a byte of its own, and none is a byte of the
/// typed graph.
pub proof fn memory_edge_bytes_are_distinct(a: EdgeKind, b: EdgeKind)
    ensures
        memory_edge_kind(a) == memory_edge_kind(b) ==> a == b,
        memory_edge_kind(a) > EDGE_MENTIONS,
{
}

/// Longest label of a memory, in characters.
pub const SNIPPET_CHARS: usize = 80;

/// The head of a text, with an ellipsis where more follows.
pub open spec fn snipped(text: Seq<char>) -> Seq<char> {
    if text.len() <= SNIPPET_CHARS {
        text
    } else {
        text.take(SNIPPET_CHARS as int).push('\u{2026}')
    }
}

pub fn snippet(text: &str) -> (r: String)
    ensures
        r@ == snipped(text@),
{
    let n: usize = text.unicode_len();
    if n <= SNIPPET_CHARS {
        return text.to_owned();
    }
    let mut out = take_chars(text, SNIPPET_CHARS);
    out.push('\u{2026}');
    out
}

} // verus!
