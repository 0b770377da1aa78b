//! Listing the memories of a space, page by page.
use vstd::prelude::*;

use vstd::utf8::encode_utf8;

use crate::bytes::{
    le_bytes, le_round_trip, length_u32, low32, nil_id, pow256_values, put_bytes, put_le, put_text,
    zero_id,
};
use crate::error::{fails, invalid, ErrorView, OpError};
use crate::events::{has_kind, MemoryKind};
use crate::hash::{blake3_digest, blake3_hash, byte_of, first8, flag_byte};
use crate::recall::{count_u32, wire_count};
use crate::single::Single;
use crate::statement::eq8_at;

verus! {

/// The layout version of a cursor.
pub const LIST_CURSOR_VERSION: u8 = 1;

/// `version(1) + sort(1) + direction(1) + filter signature(8) + key(52)`.
pub const LIST_CURSOR_LEN: usize = 63;

/// Largest page.
pub const MEMORY_LIST_LIMIT: u32 = 100;

#[derive(Clone, Copy, Debug, PartialEq, Eq, Structural)]
pub enum MemoryListSortWire {
    Created,
    Salience,
    Occurred,
    LastAccessed,
}

#[derive(Clone, Copy, Debug, PartialEq, Eq, Structural)]
pub enum MemoryListDirWire {
    Desc,
    Asc,
}

#[derive(Clone, Copy, Debug, PartialEq, Eq, Structural)]
pub enum MemoryListTimeAxisWire {
    Created,
    Occurred,
}

impl MemoryListSortWire {
    /// The byte of a sort order.
    pub open spec fn byte(self) -> u8 {
        match self {
            MemoryListSortWire::Created => 0,
            MemoryListSortWire::Salience => 1,
            MemoryListSortWire::Occurred => 2,
            MemoryListSortWire::LastAccessed => 3,
        }
    }

    pub fn as_u8(self) -> (r: u8)
        ensures
            r == self.byte(),
    {
        match self {
            MemoryListSortWire::Created => 0,
            MemoryListSortWire::Salience => 1,
            MemoryListSortWire::Occurred => 2,
            MemoryListSortWire::LastAccessed => 3,
        }
    }
}

impl MemoryListDirWire {
    /// The byte of a direction.
    pub open spec fn byte(self) -> u8 {
        match self {
            MemoryListDirWire::Desc => 0,
            MemoryListDirWire::Asc => 1,
        }
    }

    pub fn as_u8(self) -> (r: u8)
        ensures
            r == self.byte(),
    {
        match self {
            MemoryListDirWire::Desc => 0,
            MemoryListDirWire::Asc => 1,
        }
    }
}

impl MemoryListTimeAxisWire {
    /// The byte of a time axis.
    pub open spec fn byte(self) -> u8 {
        match self {
            MemoryListTimeAxisWire::Created => 0,
            MemoryListTimeAxisWire::Occurred => 1,
        }
    }

    pub fn as_u8(self) -> (r: u8)
        ensures
            r == self.byte(),
    {
        match self {
            MemoryListTimeAxisWire::Created => 0,
            MemoryListTimeAxisWire::Occurred => 1,
        }
    }
}

/// The stored byte of a kind of memory.
pub open spec fn kind_byte(k: MemoryKind) -> u8 {
    match k {
        MemoryKind::Episodic => 0,
        MemoryKind::Semantic => 1,
        MemoryKind::Consolidated => 2,
    }
}

fn kind_to_byte(k: MemoryKind) -> (r: u8)
    ensures
        r == kind_byte(k),
{
    match k {
        MemoryKind::Episodic => 0,
        MemoryKind::Semantic => 1,
        MemoryKind::Consolidated => 2,
    }
}

#[derive(Debug)]
pub struct MemoryListRequest {
    pub sort: MemoryListSortWire,
    pub dir: MemoryListDirWire,
    pub time_axis: MemoryListTimeAxisWire,
    pub kinds: Vec<MemoryKind>,
    pub include_tombstoned: bool,
    pub from_unix_nanos: u64,
    pub to_unix_nanos: u64,
    pub salience_min: Single,
    pub salience_max: Single,
    pub text_contains: String,
    pub limit: u32,
    pub cursor: Vec<u8>,
}

/// Why a list is refused before its cursor is read, if it is. Only the order
/// and the time axis of creation are offered, and no text filter.
pub open spec fn list_error(req: MemoryListRequest) -> Option<ErrorView> {
    if req.limit == 0 || req.limit > MEMORY_LIST_LIMIT {
        Some(ErrorView::InvalidRequest("limit must be in 1..=100"@))
    } else if req.sort != MemoryListSortWire::Created {
        Some(ErrorView::InvalidRequest("sort not yet supported; use created"@))
    } else if req.time_axis == MemoryListTimeAxisWire::Occurred {
        Some(ErrorView::InvalidRequest("occurred_at time axis not yet supported; use created"@))
    } else if req.text_contains@.len() > 0 {
        Some(ErrorView::InvalidRequest("text filter not yet supported"@))
    } else if req.salience_max.below(req.salience_min) {
        Some(ErrorView::InvalidRequest("salience_min must be <= salience_max"@))
    } else if req.from_unix_nanos != 0 && req.to_unix_nanos != 0 && req.from_unix_nanos
        > req.to_unix_nanos {
        Some(ErrorView::InvalidRequest("from_unix_nanos must be <= to_unix_nanos"@))
    } else {
        None
    }
}

/// What checking a list request comes to.
pub open spec fn checks_list(
    r: Result<(), OpError>,
    req: MemoryListRequest,
) -> bool {
    match list_error(req) {
        Some(e) => fails(r, e),
        None => r is Ok,
    }
}

/// Checks a list request.
pub fn check_memory_list(req: &MemoryListRequest) -> (r: Result<(), OpError>)
    ensures
        checks_list(r, *req),
{
    if req.limit == 0 || req.limit > MEMORY_LIST_LIMIT {
        return Err(invalid("limit must be in 1..=100"));
    }
    if req.sort != MemoryListSortWire::Created {
        return Err(invalid("sort not yet supported; use created"));
    }
    if req.time_axis == MemoryListTimeAxisWire::Occurred {
        return Err(invalid("occurred_at time axis not yet supported; use created"));
    }
    if !req.text_contains.as_str().is_empty() {
        return Err(invalid("text filter not yet supported"));
    }
    if req.salience_max.is_below(req.salience_min) {
        return Err(invalid("salience_min must be <= salience_max"));
    }
    if req.from_unix_nanos != 0 && req.to_unix_nanos != 0 && req.from_unix_nanos
        > req.to_unix_nanos {
        return Err(invalid("from_unix_nanos must be <= to_unix_nanos"));
    }
    Ok(())
}

// Filters.

/// The filter of the timeline walk.
#[derive(Debug)]
pub struct MemoryTimelineFilter {
    pub kinds: Vec<u8>,
    pub include_tombstoned: bool,
    pub created_from: Option<u64>,
    pub created_to: Option<u64>,
    pub salience_min: Single,
    pub salience_max: Single,
}

/// The bytes of kinds.
pub open spec fn kind_bytes(kinds: Seq<MemoryKind>) -> Seq<u8> {
    kinds.map_values(|k: MemoryKind| kind_byte(k))
}

fn put_kinds(out: &mut Vec<u8>, kinds: &Vec<MemoryKind>)
    ensures
        final(out)@ == old(out)@ + kind_bytes(kinds@),
{
    let ghost before = out@;
    for i in 0..kinds.len()
        invariant
            out@ == before + kind_bytes(kinds@).take(i as int),
    {
        out.push(kind_to_byte(kinds[i]));
        assert(out@ =~= before + kind_bytes(kinds@).take(i + 1));
    }
    assert(kind_bytes(kinds@).take(kinds@.len() as int) =~= kind_bytes(kinds@));
}

/// A kind alone where a list has it, else nothing.
pub open spec fn kept_kind(kinds: Seq<MemoryKind>, k: MemoryKind) -> Seq<MemoryKind> {
    if kinds.contains(k) {
        seq![k]
    } else {
        Seq::empty()
    }
}

/// The kinds of a list, each once and in byte order.
pub open spec fn distinct_kinds(kinds: Seq<MemoryKind>) -> Seq<MemoryKind> {
    kept_kind(kinds, MemoryKind::Episodic) + kept_kind(kinds, MemoryKind::Semantic) + kept_kind(
        kinds,
        MemoryKind::Consolidated,
    )
}

fn sorted_kinds(kinds: &Vec<MemoryKind>) -> (r: Vec<MemoryKind>)
    ensures
        r@ == distinct_kinds(kinds@),
{
    let mut out: Vec<MemoryKind> = Vec::new();
    if has_kind(kinds, MemoryKind::Episodic) {
        out.push(MemoryKind::Episodic);
    }
    if has_kind(kinds, MemoryKind::Semantic) {
        out.push(MemoryKind::Semantic);
    }
    if has_kind(kinds, MemoryKind::Consolidated) {
        out.push(MemoryKind::Consolidated);
    }
    assert(out@ =~= distinct_kinds(kinds@));
    out
}

/// Whether two lists have the same kinds, in whatever order and number.
pub open spec fn same_kinds(a: Seq<MemoryKind>, b: Seq<MemoryKind>) -> bool {
    forall|k: MemoryKind| #[trigger] a.contains(k) <==> b.contains(k)
}

proof fn distinct_kinds_tell_the_kinds(a: Seq<MemoryKind>, b: Seq<MemoryKind>)
    ensures
        same_kinds(a, b) <==> distinct_kinds(a) == distinct_kinds(b),
{
    kinds_are_kept(a);
    kinds_are_kept(b);
    if distinct_kinds(a) == distinct_kinds(b) {
        assert forall|k: MemoryKind| #[trigger] a.contains(k) <==> b.contains(k) by {
            assert(distinct_kinds(a).contains(k) <==> distinct_kinds(b).contains(k));
        }
    }
    if same_kinds(a, b) {
        assert(a.contains(MemoryKind::Episodic) <==> b.contains(MemoryKind::Episodic));
        assert(a.contains(MemoryKind::Semantic) <==> b.contains(MemoryKind::Semantic));
        assert(a.contains(MemoryKind::Consolidated) <==> b.contains(MemoryKind::Consolidated));
    }
}

proof fn kinds_are_kept(a: Seq<MemoryKind>)
    ensures
        forall|k: MemoryKind| #[trigger] distinct_kinds(a).contains(k) <==> a.contains(k),
{
    let d = distinct_kinds(a);
    let one = kept_kind(a, MemoryKind::Episodic);
    let two = one + kept_kind(a, MemoryKind::Semantic);
    assert forall|k: MemoryKind| #[trigger] d.contains(k) <==> a.contains(k) by {
        if a.contains(k) {
            match k {
                MemoryKind::Episodic => {
                    assert(d[0] == k);
                },
                MemoryKind::Semantic => {
                    assert(d[one.len() as int] == k);
                },
                MemoryKind::Consolidated => {
                    assert(d[two.len() as int] == k);
                },
            }
        }
    }
}

/// A bound that is set, or none for 0.
pub open spec fn bound_of(t: u64) -> Option<u64> {
    if t == 0 {
        None
    } else {
        Some(t)
    }
}

/// Whether a timeline filter is that of a list request.
pub open spec fn filters_list(
    r: MemoryTimelineFilter,
    req: MemoryListRequest,
) -> bool {
    &&& r.kinds@ == kind_bytes(req.kinds@)
    &&& r.include_tombstoned == req.include_tombstoned
    &&& r.created_from == bound_of(req.from_unix_nanos)
    &&& r.created_to == bound_of(req.to_unix_nanos)
    &&& r.salience_min == req.salience_min
    &&& r.salience_max == req.salience_max
}

/// The filter that a request asks for.
pub fn build_filter(req: &MemoryListRequest) -> (r: MemoryTimelineFilter)
    ensures
        filters_list(r, *req),
{
    let mut kinds: Vec<u8> = Vec::new();
    put_kinds(&mut kinds, &req.kinds);
    assert(kinds@ =~= kind_bytes(req.kinds@));
    MemoryTimelineFilter {
        kinds,
        include_tombstoned: req.include_tombstoned,
        created_from: if req.from_unix_nanos != 0 {
            Some(req.from_unix_nanos)
        } else {
            None
        },
        created_to: if req.to_unix_nanos != 0 {
            Some(req.to_unix_nanos)
        } else {
            None
        },
        salience_min: req.salience_min,
        salience_max: req.salience_max,
    }
}

/// The bytes whose digest stands for the filters of a request: everything but
/// the page size and the cursor. The order of the kinds does not matter.
pub open spec fn memory_list_fields(req: MemoryListRequest) -> Seq<u8> {
    seq![req.sort.byte(), req.dir.byte(), req.time_axis.byte()] + seq![
        flag_byte(req.include_tombstoned),
    ] + kind_bytes(distinct_kinds(req.kinds@)) + le_bytes(
        low32(distinct_kinds(req.kinds@).len()) as nat,
        4,
    ) + le_bytes(req.from_unix_nanos as nat, 8) + le_bytes(req.to_unix_nanos as nat, 8) + le_bytes(req.salience_min.bits as nat, 4)
        + le_bytes(req.salience_max.bits as nat, 4) + encode_utf8(req.text_contains@)
}

/// The signature of a request's filters.
pub open spec fn memory_list_signature(req: MemoryListRequest) -> Seq<u8> {
    blake3_digest(memory_list_fields(req)).take(8)
}

/// The signature of a request's filters: it is over every one of them, so a
/// cursor minted under other filters is refused.
pub fn filter_signature(req: &MemoryListRequest) -> (r: [u8; 8])
    ensures
        r@ == memory_list_signature(*req),
{
    let mut h: Vec<u8> = Vec::new();
    h.push(req.sort.as_u8());
    h.push(req.dir.as_u8());
    h.push(req.time_axis.as_u8());
    h.push(byte_of(req.include_tombstoned));
    let kinds = sorted_kinds(&req.kinds);
    put_kinds(&mut h, &kinds);
    put_le(&mut h, length_u32(kinds.len()) as u128, 4);
    put_le(&mut h, req.from_unix_nanos as u128, 8);
    put_le(&mut h, req.to_unix_nanos as u128, 8);
    put_le(&mut h, req.salience_min.bits as u128, 4);
    put_le(&mut h, req.salience_max.bits as u128, 4);
    put_text(&mut h, &req.text_contains);
    assert(h@ =~= memory_list_fields(*req));
    let full = blake3_hash(h.as_slice());
    first8(&full)
}

// The cursor.

/// The bytes of a cursor.
pub open spec fn list_cursor(req: MemoryListRequest, sig: Seq<u8>, key: Seq<u8>) -> Seq<u8> {
    seq![LIST_CURSOR_VERSION, req.sort.byte(), req.dir.byte()] + sig + key
}

/// A cursor that resumes after a timeline key.
pub fn encode_cursor(req: &MemoryListRequest, sig: &[u8; 8], key: &[u8; 52]) -> (r: Vec<u8>)
    ensures
        r@ == list_cursor(*req, sig@, key@),
{
    let mut out: Vec<u8> = Vec::new();
    out.push(LIST_CURSOR_VERSION);
    out.push(req.sort.as_u8());
    out.push(req.dir.as_u8());
    put_bytes(&mut out, sig.as_slice());
    put_bytes(&mut out, key.as_slice());
    assert(out@ =~= list_cursor(*req, sig@, key@));
    out
}

/// The error for a cursor that no longer fits.
pub open spec fn stale_filters() -> ErrorView {
    ErrorView::InvalidRequest("stale_cursor: filters changed"@)
}

/// Whether a cursor fits a request's order and filters.
pub open spec fn list_cursor_fits(cursor: Seq<u8>, req: MemoryListRequest, sig: Seq<u8>) -> bool {
    &&& cursor.len() == LIST_CURSOR_LEN
    &&& cursor[0] == LIST_CURSOR_VERSION
    &&& cursor[1] == req.sort.byte()
    &&& cursor[2] == req.dir.byte()
    &&& cursor.subrange(3, 11) == sig
}

/// What reading back a cursor comes to.
pub open spec fn reads_list_cursor(
    r: Result<[u8; 52], OpError>,
    cursor: Seq<u8>,
    req: MemoryListRequest,
    sig: [u8; 8],
) -> bool {
    &&& (!list_cursor_fits(cursor, req, sig@) ==> fails(r, stale_filters()))
    &&& (list_cursor_fits(cursor, req, sig@) ==> (r matches Ok(k) && k@ == cursor.subrange(
        11,
        63,
    )))
}

/// Reads a cursor back; one minted for another order or other filters is
/// refused.
pub fn decode_cursor(cursor: &[u8], req: &MemoryListRequest, sig: &[u8; 8]) -> (r: Result<
    [u8; 52],
    OpError,
>)
    ensures
        reads_list_cursor(r, cursor@, *req, *sig),
{
    if cursor.len() != LIST_CURSOR_LEN || cursor[0] != LIST_CURSOR_VERSION {
        return Err(invalid("stale_cursor: filters changed"));
    }
    if cursor[1] != req.sort.as_u8() || cursor[2] != req.dir.as_u8() {
        return Err(invalid("stale_cursor: filters changed"));
    }
    if !eq8_at(cursor, 3, sig) {
        return Err(invalid("stale_cursor: filters changed"));
    }
    let mut key: [u8; 52] = [0u8;52];
    for i in 0..52usize
        invariant
            cursor@.len() == 63,
            forall|j: int| 0 <= j < i ==> key@[j] == cursor@[11 + j],
    {
        key[i] = cursor[11 + i];
    }
    assert(key@ =~= cursor@.subrange(11, 63));
    Ok(key)
}

/// A cursor reads back as its key for the same order and signature, and for no
/// others.
pub proof fn list_cursor_round_trip(
    minted: MemoryListRequest,
    sig: [u8; 8],
    key: [u8; 52],
    asked: MemoryListRequest,
    other: [u8; 8],
)
    ensures
        list_cursor_fits(list_cursor(minted, sig@, key@), asked, other@) <==> (minted.sort
            == asked.sort && minted.dir == asked.dir && sig@ == other@),
        list_cursor(minted, sig@, key@).subrange(11, 63) == key@,
{
    let c = list_cursor(minted, sig@, key@);
    assert(c.subrange(3, 11) =~= sig@);
    assert(c.subrange(11, 63) =~= key@);
}

/// Where each filter of a request without a text filter lies in its bytes.
spec fn fields_lie_apart(r: MemoryListRequest) -> bool {
    let f = memory_list_fields(r);
    let kinds = distinct_kinds(r.kinds@);
    let n = kinds.len() as int;
    let at = n + 8;
    &&& f.len() == n + 32
    &&& f[0] == r.sort.byte() && f[1] == r.dir.byte() && f[2] == r.time_axis.byte()
    &&& f[3] == flag_byte(r.include_tombstoned)
    &&& f.subrange(4, 4 + n) == kind_bytes(kinds)
    &&& f.subrange(at, at + 8) == le_bytes(r.from_unix_nanos as nat, 8)
    &&& f.subrange(at + 8, at + 16) == le_bytes(r.to_unix_nanos as nat, 8)
    &&& f.subrange(at + 16, at + 20) == le_bytes(r.salience_min.bits as nat, 4)
    &&& f.subrange(at + 20, at + 24) == le_bytes(r.salience_max.bits as nat, 4)
}

proof fn fields_are_laid_out(r: MemoryListRequest)
    requires
        r.text_contains@.len() == 0,
    ensures
        fields_lie_apart(r),
{
    let f = memory_list_fields(r);
    let kinds = distinct_kinds(r.kinds@);
    let n = kinds.len() as int;
    let at = n + 8;
    assert(r.text_contains@ =~= Seq::empty());
    assert(encode_utf8(Seq::empty()).len() == 0);
    le_round_trip(r.from_unix_nanos as nat, 8);
    le_round_trip(r.to_unix_nanos as nat, 8);
    le_round_trip(r.salience_min.bits as nat, 4);
    le_round_trip(r.salience_max.bits as nat, 4);
    le_round_trip(low32(kinds.len()) as nat, 4);
    assert(f.subrange(4, 4 + n) =~= kind_bytes(kinds));
    assert(f.subrange(at, at + 8) =~= le_bytes(r.from_unix_nanos as nat, 8));
    assert(f.subrange(at + 8, at + 16) =~= le_bytes(r.to_unix_nanos as nat, 8));
    assert(f.subrange(at + 16, at + 20) =~= le_bytes(r.salience_min.bits as nat, 4));
    assert(f.subrange(at + 20, at + 24) =~= le_bytes(r.salience_max.bits as nat, 4));
}

proof fn kind_bytes_tell_the_list(a: Seq<MemoryKind>, b: Seq<MemoryKind>)
    requires
        kind_bytes(a) == kind_bytes(b),
    ensures
        a == b,
{
    assert(kind_bytes(a).len() == a.len() && kind_bytes(b).len() == b.len());
    assert forall|i: int| 0 <= i < a.len() implies a[i] == b[i] by {
        assert(kind_bytes(a)[i] == kind_byte(a[i]));
        assert(kind_bytes(b)[i] == kind_byte(b[i]));
    }
    assert(a =~= b);
}

/// Requests without a text filter digest the same bytes only if all their
/// filters agree, so a cursor is bound to every one of them.
pub proof fn filters_have_distinct_fields(a: MemoryListRequest, b: MemoryListRequest)
    requires
        a.text_contains@.len() == 0,
        b.text_contains@.len() == 0,
        memory_list_fields(a) == memory_list_fields(b),
    ensures
        a.sort == b.sort,
        a.dir == b.dir,
        a.time_axis == b.time_axis,
        a.include_tombstoned == b.include_tombstoned,
        same_kinds(a.kinds@, b.kinds@),
        a.from_unix_nanos == b.from_unix_nanos,
        a.to_unix_nanos == b.to_unix_nanos,
        a.salience_min == b.salience_min,
        a.salience_max == b.salience_max,
{
    fields_are_laid_out(a);
    fields_are_laid_out(b);
    kind_bytes_tell_the_list(distinct_kinds(a.kinds@), distinct_kinds(b.kinds@));
    distinct_kinds_tell_the_kinds(a.kinds@, b.kinds@);
    pow256_values();
    le_round_trip(a.from_unix_nanos as nat, 8);
    le_round_trip(b.from_unix_nanos as nat, 8);
    le_round_trip(a.to_unix_nanos as nat, 8);
    le_round_trip(b.to_unix_nanos as nat, 8);
    le_round_trip(a.salience_min.bits as nat, 4);
    le_round_trip(b.salience_min.bits as nat, 4);
    le_round_trip(a.salience_max.bits as nat, 4);
    le_round_trip(b.salience_max.bits as nat, 4);
}

/// Requests that differ only in page size, in cursor, and in the order or
/// number of the kinds share their signature, so a cursor minted under one
/// resumes under the other.
pub proof fn same_filters_share_the_signature(
    a: MemoryListRequest,
    b: MemoryListRequest,
    sig: [u8; 8],
    key: [u8; 52],
)
    requires
        a.sort == b.sort,
        a.dir == b.dir,
        a.time_axis == b.time_axis,
        a.include_tombstoned == b.include_tombstoned,
        same_kinds(a.kinds@, b.kinds@),
        a.from_unix_nanos == b.from_unix_nanos,
        a.to_unix_nanos == b.to_unix_nanos,
        a.salience_min == b.salience_min,
        a.salience_max == b.salience_max,
        a.text_contains@ == b.text_contains@,
    ensures
        memory_list_fields(a) == memory_list_fields(b),
        memory_list_signature(a) == memory_list_signature(b),
        sig@ == memory_list_signature(a) ==> list_cursor_fits(
            list_cursor(a, sig@, key@),
            b,
            memory_list_signature(b),
        ),
{
    distinct_kinds_tell_the_kinds(a.kinds@, b.kinds@);
    assert(list_cursor(a, sig@, key@).subrange(3, 11) =~= sig@);
}

/// An admitted list: the walk's filter, direction and resume point.
#[derive(Debug)]
pub struct MemoryListPlan {
    pub filter: MemoryTimelineFilter,
    pub signature: [u8; 8],
    pub descending: bool,
    pub after_key: Option<[u8; 52]>,
    pub limit: u32,
}

/// What planning a list comes to.
pub open spec fn plans_memory_list(
    r: Result<MemoryListPlan, OpError>,
    req: MemoryListRequest,
) -> bool {
    match list_error(req) {
        Some(e) => fails(r, e),
        None => if req.cursor@.len() > 0 && !list_cursor_fits(
            req.cursor@,
            req,
            memory_list_signature(req),
        ) {
            fails(r, stale_filters())
        } else {
            r matches Ok(p) && {
                &&& p.filter.kinds@ == kind_bytes(req.kinds@)
                &&& p.filter.include_tombstoned == req.include_tombstoned
                &&& p.filter.created_from == bound_of(req.from_unix_nanos)
                &&& p.filter.created_to == bound_of(req.to_unix_nanos)
                &&& p.filter.salience_min == req.salience_min
                &&& p.filter.salience_max == req.salience_max
                &&& p.signature@ == memory_list_signature(req)
                &&& p.descending == (req.dir == MemoryListDirWire::Desc)
                &&& p.limit == req.limit
                &&& p.after_key is None <==> req.cursor@.len() == 0
                &&& p.after_key matches Some(k) ==> k@ == req.cursor@.subrange(11, 63)
            }
        },
    }
}

/// Plans a list.
pub fn plan_memory_list(req: &MemoryListRequest) -> (r: Result<MemoryListPlan, OpError>)
    ensures
        plans_memory_list(r, *req),
{
    match check_memory_list(req) {
        Ok(()) => {},
        Err(e) => {
            return Err(e);
        },
    }
    let filter = build_filter(req);
    let signature = filter_signature(req);
    let after_key = if req.cursor.len() == 0 {
        None
    } else {
        match decode_cursor(req.cursor.as_slice(), req, &signature) {
            Ok(k) => Some(k),
            Err(e) => {
                return Err(e);
            },
        }
    };
    let descending = match req.dir {
        MemoryListDirWire::Desc => true,
        MemoryListDirWire::Asc => false,
    };
    Ok(MemoryListPlan { filter, signature, descending, after_key, limit: req.limit })
}

// The page.

/// A memory's row.
#[derive(Clone, Copy, Debug)]
pub struct MemoryMetadata {
    pub memory_id_bytes: [u8; 16],
    pub space_id_bytes: [u8; 16],
    pub session_id: u64,
    pub kind: u8,
    pub active: bool,
    pub created_at_unix_nanos: u64,
    pub occurred_at_unix_nanos: Option<u64>,
    pub last_accessed_at_unix_nanos: u64,
    pub salience: Single,
    pub access_count: u32,
}

#[derive(Debug)]
pub struct MemoryListItem {
    pub memory_id: [u8; 16],
    pub space_id: [u8; 16],
    pub session_id: u64,
    pub text: String,
    pub kind: u8,
    pub state: u8,
    pub created_at_unix_nanos: u64,
    pub occurred_at_unix_nanos: u64,
    pub last_accessed_at_unix_nanos: u64,
    pub salience: Single,
    pub access_count: u32,
    pub source_request_id: [u8; 16],
    pub statement_count: u32,
    pub entity_count: u32,
    pub relation_count: u32,
}

/// Whether an item shows a row: state 0 is active, 1 is not.
pub open spec fn shows_row(i: MemoryListItem, row: MemoryMetadata, text: Seq<char>) -> bool {
    &&& i.memory_id == row.memory_id_bytes
    &&& i.space_id == row.space_id_bytes
    &&& i.session_id == row.session_id
    &&& i.text@ == text
    &&& i.kind == row.kind
    &&& i.state == (if row.active {
        0u8
    } else {
        1u8
    })
    &&& i.created_at_unix_nanos == row.created_at_unix_nanos
    &&& i.occurred_at_unix_nanos == (match row.occurred_at_unix_nanos {
        Some(t) => t,
        None => 0,
    })
    &&& i.last_accessed_at_unix_nanos == row.last_accessed_at_unix_nanos
    &&& i.salience == row.salience
    &&& i.access_count == row.access_count
    &&& i.source_request_id == zero_id()
}

/// Whether an item shows a row, with nothing counted yet.
pub open spec fn shows_bare_row(
    r: MemoryListItem,
    row: MemoryMetadata,
    text: String,
) -> bool {
    &&& shows_row(r, row, text@)
    &&& r.statement_count == 0
    &&& r.entity_count == 0
    &&& r.relation_count == 0
}

/// Shows a row; its graph counts are still 0.
pub fn row_to_item(row: &MemoryMetadata, text: String) -> (r: MemoryListItem)
    ensures
        shows_bare_row(r, *row, text),
{
    MemoryListItem {
        memory_id: row.memory_id_bytes,
        space_id: row.space_id_bytes,
        session_id: row.session_id,
        text,
        kind: row.kind,
        state: if row.active {
            0
        } else {
            1
        },
        created_at_unix_nanos: row.created_at_unix_nanos,
        occurred_at_unix_nanos: match row.occurred_at_unix_nanos {
            Some(t) => t,
            None => 0,
        },
        last_accessed_at_unix_nanos: row.last_accessed_at_unix_nanos,
        salience: row.salience,
        access_count: row.access_count,
        source_request_id: nil_id(),
        statement_count: 0,
        entity_count: 0,
        relation_count: 0,
    }
}

/// What was read for a row: its text where it has a readable one, and how many
/// statements, entities and relations the graph has of it.
#[derive(Debug)]
pub struct MemoryListRow {
    pub row: MemoryMetadata,
    pub text: Option<String>,
    pub statements: usize,
    pub entities: usize,
    pub relations: usize,
}

/// The graph counts of a memory, at most what the wire can hold.
pub fn graph_counts(statements: usize, entities: usize, relations: usize) -> (r: (u32, u32, u32))
    ensures
        r.0 == wire_count(statements as nat),
        r.1 == wire_count(entities as nat),
        r.2 == wire_count(relations as nat),
{
    (count_u32(statements), count_u32(entities), count_u32(relations))
}

/// A page of the timeline, as it was read.
#[derive(Debug)]
pub struct MemoryListPage {
    pub rows: Vec<MemoryListRow>,
    pub has_more: bool,
    pub last_key: Option<[u8; 52]>,
}

#[derive(Debug)]
pub struct MemoryListResponseFrame {
    pub items: Vec<MemoryListItem>,
    pub next_cursor: Vec<u8>,
    pub cumulative_count: u32,
    pub is_final: bool,
}

/// Whether an item shows a row with its text and counts.
pub open spec fn shows_list_row(i: MemoryListItem, m: MemoryListRow) -> bool {
    &&& shows_row(
        i,
        m.row,
        match m.text {
            Some(t) => t@,
            None => Seq::empty(),
        },
    )
    &&& i.statement_count == wire_count(m.statements as nat)
    &&& i.entity_count == wire_count(m.entities as nat)
    &&& i.relation_count == wire_count(m.relations as nat)
}

/// Whether a frame shows a page of memories.
pub open spec fn shows_memory_page(
    r: MemoryListResponseFrame,
    req: MemoryListRequest,
    sig: [u8; 8],
    page: MemoryListPage,
) -> bool {
    &&& r.items@.len() == page.rows@.len()
    &&& (forall|i: int|
        0 <= i < page.rows@.len() ==> shows_list_row(#[trigger] r.items@[i], page.rows@[i]))
    &&& r.cumulative_count == low32(page.rows@.len())
    &&& r.is_final
    &&& r.next_cursor@ == (if page.has_more && page.last_key is Some {
        list_cursor(req, sig@, page.last_key->0@)
    } else {
        Seq::<u8>::empty()
    })
}

/// Shows a page, with a cursor for the next where there is more.
pub fn memory_list_frame(req: &MemoryListRequest, sig: &[u8; 8], page: &MemoryListPage) -> (r:
    MemoryListResponseFrame)
    ensures
        shows_memory_page(r, *req, *sig, *page),
{
    let mut items: Vec<MemoryListItem> = Vec::new();
    for i in 0..page.rows.len()
        invariant
            items@.len() == i,
            forall|k: int| 0 <= k < i ==> shows_list_row(#[trigger] items@[k], page.rows@[k]),
    {
        let m = &page.rows[i];
        let text = match &m.text {
            Some(t) => t.clone(),
            None => {
                let none = String::new();
                assert(none@ =~= Seq::empty());
                none
            },
        };
        let (statement_count, entity_count, relation_count) = graph_counts(
            m.statements,
            m.entities,
            m.relations,
        );
        let mut item = row_to_item(&m.row, text);
        item.statement_count = statement_count;
        item.entity_count = entity_count;
        item.relation_count = relation_count;
        items.push(item);
    }
    let next_cursor = match page.last_key {
        Some(key) if page.has_more => encode_cursor(req, sig, &key),
        _ => Vec::new(),
    };
    let cumulative_count: u32 = length_u32(items.len());
    MemoryListResponseFrame { items, next_cursor, cumulative_count, is_final: true }
}

/// The cursor that a page hands out resumes after the page's last key, for the
/// same order and filters.
pub proof fn memory_pages_resume(
    req: MemoryListRequest,
    next: MemoryListRequest,
    key: [u8; 52],
    sig: [u8; 8],
)
    requires
        sig@ == memory_list_signature(req),
        memory_list_fields(next) == memory_list_fields(req),
        next.sort == req.sort,
        next.dir == req.dir,
        next.cursor@ == list_cursor(req, sig@, key@),
    ensures
        next.cursor@.len() > 0,
        list_cursor_fits(next.cursor@, next, memory_list_signature(next)),
        next.cursor@.subrange(11, 63) == key@,
{
    list_cursor_round_trip(req, sig, key, next, sig);
}

} // verus!
