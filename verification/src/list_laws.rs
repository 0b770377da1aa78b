//! What listing and inspecting memories shows.
use vstd::prelude::*;

use crate::bytes::{zero16, zero_id_is_zero};
use crate::encode_trace::EncodeStageArtifact;
use crate::error::OpError;
use crate::events::MemoryKind;
use crate::memory_inspect::{inspects_memory, MemoryInspectResponse};
use crate::memory_list::{
    checks_list, filters_list, kind_byte, list_cursor, plans_memory_list, reads_list_cursor,
    shows_bare_row, shows_list_row, shows_memory_page, MemoryListItem, MemoryMetadata, MemoryListPage, MemoryListPlan, MemoryListRequest,
    MemoryListResponseFrame, MemoryTimelineFilter,
};
use crate::scope::RowScope;

verus! {

/// Whether a list can be had: one to a hundred memories a page, by creation,
/// without a text, over ranges that are not empty.
pub open spec fn can_be_listed(req: MemoryListRequest) -> bool {
    &&& 1 <= req.limit <= 100
    &&& req.sort is Created && req.time_axis is Created
    &&& req.text_contains@.len() == 0
    &&& !req.salience_min.nan() && !req.salience_max.nan() ==> req.salience_min.key()
        <= req.salience_max.key()
    &&& req.from_unix_nanos == 0 || req.to_unix_nanos == 0 || req.from_unix_nanos
        <= req.to_unix_nanos
}

/// The byte of a kind of memory.
pub open spec fn stored_as(k: MemoryKind, b: u8) -> bool {
    &&& k is Episodic <==> b == 0
    &&& k is Semantic <==> b == 1
    &&& k is Consolidated <==> b == 2
}

/// Whether a filter takes what a list asks for.
pub open spec fn takes_asked(f: MemoryTimelineFilter, req: MemoryListRequest) -> bool {
    &&& f.kinds@.len() == req.kinds@.len()
    &&& forall|i: int| 0 <= i < req.kinds@.len() ==> stored_as(#[trigger] req.kinds@[i], f.kinds@[i])
    &&& f.include_tombstoned == req.include_tombstoned
    &&& f.created_from is None <==> req.from_unix_nanos == 0
    &&& f.created_from matches Some(t) ==> t == req.from_unix_nanos
    &&& f.created_to is None <==> req.to_unix_nanos == 0
    &&& f.created_to matches Some(t) ==> t == req.to_unix_nanos
    &&& (f.salience_min, f.salience_max) == (req.salience_min, req.salience_max)
}

/// A list takes the kinds, the times and the saliences of its request.
pub proof fn list_filters_take_what_is_asked(f: MemoryTimelineFilter, req: MemoryListRequest)
    requires
        filters_list(f, req),
    ensures
        takes_asked(f, req),
{
    assert forall|i: int| 0 <= i < req.kinds@.len() implies stored_as(
        #[trigger] req.kinds@[i],
        f.kinds@[i],
    ) by {
        assert(f.kinds@[i] == kind_byte(req.kinds@[i]));
    }
}

/// A list walks what its request asks for, in its order, up to its limit: from
/// the first memory without a cursor, and after the key of its cursor with one.
pub proof fn memory_lists_walk_what_is_asked(
    checked: Result<(), OpError>,
    r: Result<MemoryListPlan, OpError>,
    req: MemoryListRequest,
)
    requires
        checks_list(checked, req),
        plans_memory_list(r, req),
    ensures
        checked is Ok <==> can_be_listed(req),
        !can_be_listed(req) ==> r is Err,
        r matches Err(e) ==> e is InvalidRequest,
        can_be_listed(req) && req.cursor@.len() == 0 ==> (r matches Ok(p) && p.after_key is None),
        r matches Ok(p) ==> {
            &&& takes_asked(p.filter, req)
            &&& p.limit == req.limit
            &&& p.descending <==> req.dir is Desc
            &&& p.after_key is Some <==> req.cursor@.len() > 0
        },
        forall|sig: [u8; 8], key: [u8; 52]| #[trigger]
            list_cursor(req, sig@, key@) == req.cursor@ && can_be_listed(req) && sig@
                == crate::memory_list::memory_list_signature(req) ==> (r matches Ok(p)
                && p.after_key == Some(key)),
{
    if let Ok(p) = r {
        list_filters_take_what_is_asked(p.filter, req);
    }
    assert forall|sig: [u8; 8], key: [u8; 52]| #[trigger]
        list_cursor(req, sig@, key@) == req.cursor@ && can_be_listed(req) && sig@
            == crate::memory_list::memory_list_signature(req) implies r matches Ok(p) && p.after_key
        == Some(key) by {
        crate::memory_list::list_cursor_round_trip(req, sig, key, req, sig);
        let back = r->Ok_0.after_key->0;
        assert(back@ == key@);
        assert(back =~= key);
    }
}

/// A cursor gives back the key it was minted with to the same list, and
/// nothing to a list of another order or other filters.
pub proof fn list_cursors_are_their_own(
    r: Result<[u8; 52], OpError>,
    minted: MemoryListRequest,
    asked: MemoryListRequest,
    sig: [u8; 8],
    other: [u8; 8],
    key: [u8; 52],
)
    requires
        reads_list_cursor(r, list_cursor(minted, sig@, key@), asked, other),
    ensures
        r is Ok <==> minted.sort == asked.sort && minted.dir == asked.dir && sig == other,
        r matches Ok(k) ==> k == key,
{
    crate::memory_list::list_cursor_round_trip(minted, sig, key, asked, other);
    if sig@ == other@ {
        assert(sig =~= other);
    }
    if let Ok(k) = r {
        assert(k@ == key@);
        assert(k =~= key);
    }
}

/// A page of a list shows every row that was read, in order, as it is stored;
/// where there is more its cursor names the last key.
pub proof fn memory_pages_show_their_rows(
    r: MemoryListResponseFrame,
    req: MemoryListRequest,
    sig: [u8; 8],
    page: MemoryListPage,
    i: int,
)
    requires
        shows_memory_page(r, req, sig, page),
        0 <= i < page.rows@.len() <= u32::MAX,
    ensures
        r.items@.len() == page.rows@.len() && r.cumulative_count == page.rows@.len() && r.is_final,
        ({
            let (v, m) = (r.items@[i], page.rows@[i]);
            &&& (v.memory_id, v.space_id, v.session_id, v.kind) == (
                m.row.memory_id_bytes,
                m.row.space_id_bytes,
                m.row.session_id,
                m.row.kind,
            )
            &&& (v.created_at_unix_nanos, v.last_accessed_at_unix_nanos) == (
                m.row.created_at_unix_nanos,
                m.row.last_accessed_at_unix_nanos,
            )
            &&& (v.salience, v.access_count) == (m.row.salience, m.row.access_count)
            &&& v.state == 0 <==> m.row.active
            &&& v.state <= 1
            &&& m.row.occurred_at_unix_nanos matches Some(t) ==> v.occurred_at_unix_nanos == t
            &&& m.row.occurred_at_unix_nanos is None ==> v.occurred_at_unix_nanos == 0
            &&& m.text matches Some(t) ==> v.text@ == t@
            &&& m.text is None ==> v.text@.len() == 0
            &&& v.source_request_id@ == zero16()
            &&& m.statements <= u32::MAX ==> v.statement_count == m.statements
            &&& m.entities <= u32::MAX ==> v.entity_count == m.entities
            &&& m.relations <= u32::MAX ==> v.relation_count == m.relations
        }),
        r.next_cursor@.len() > 0 <==> page.has_more && page.last_key is Some,
        page.has_more ==> (page.last_key matches Some(k) ==> r.next_cursor@ == list_cursor(
            req,
            sig@,
            k@,
        )),
{
    zero_id_is_zero();
    assert(shows_list_row(r.items@[i], page.rows@[i]));
}

/// An inspection shows a memory to its owner, and nothing of it to anyone else.
pub proof fn inspections_are_for_the_owner(
    r: MemoryInspectResponse,
    memory_id: [u8; 16],
    owner: Option<RowScope>,
    caller: RowScope,
    text: Option<String>,
    artifact: Option<EncodeStageArtifact>,
)
    requires
        inspects_memory(r, memory_id, owner, caller, text, artifact),
    ensures
        r.memory_id == memory_id,
        r.found <==> owner == Some(caller),
        owner == Some(caller) ==> {
            &&& text matches Some(t) ==> r.text@ == t@
            &&& artifact matches Some(a) ==> r.artifact == a
        },
        owner != Some(caller) ==> r.text@.len() == 0 && r.artifact.vector@.len() == 0
            && r.artifact.record is None && r.artifact.graph is None
            && r.artifact.keyword_fields@.len() == 0 && r.artifact.hype_questions@.len() == 0,
{
}

/// A row is shown as it is stored, with nothing counted yet.
pub proof fn bare_rows_are_shown(i: MemoryListItem, row: MemoryMetadata, text: String)
    requires
        shows_bare_row(i, row, text),
    ensures
        i.memory_id == row.memory_id_bytes && i.text@ == text@ && i.session_id == row.session_id,
        (i.statement_count, i.entity_count, i.relation_count) == (0u32, 0u32, 0u32),
{
}

} // verus!
