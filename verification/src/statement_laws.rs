//! What the statement operations store, read and list.
use vstd::prelude::*;

use vstd::utf8::encode_utf8;

use crate::bytes::{zero16, zero_id_is_zero};
use crate::cursor::owned_by;
use crate::entity_laws::filed_for;
use crate::error::OpError;
use crate::evidence::evidence_entries;
use crate::ranking::filter_keeps_what_passes;
use crate::scope::RowScope;
use crate::single::Single;
use crate::statement::{
    reads_statement_cursor, StatementListCursor,
    history_cursor_bytes, list_filter_signature, splits_into, statement_cursor_bytes,
    statement_cursor_error, EvidenceRef, EvidenceRefWire, EvidenceView, Statement,
    StatementCreateRequest, StatementKind, StatementListRequest, StatementObject,
    StatementSupersedeRequest, StatementTombstoneRequest, StatementValue, SubjectRef,
};
use crate::statement_ops::{
    admits_supersede, answers_create, answers_retract, answers_supersede, answers_tombstone,
    builds_statement, decodes_reason,
    is_new_statement, is_upsert_phase, plans_create, plans_retract, plans_supersede,
    plans_tombstone, reads_created, reads_superseding, resolves_predicate, PredicateLookup,
    StatementCreated, StatementRemoved, StatementRetractResponse, StatementSuperseded,
    StatementTextOp,
};
use crate::statement_reads::{
    admits_history, admits_list, admits_read, answers_read, arrives, first_view_error, kept_row,
    plans_list, shows, shows_history, shows_list, starts_walk, view_error, ChainWalk, HistoryPage,
    ListAdmission, ListPredicate, StatementGetResponse, StatementHistoryRequest,
    StatementHistoryResponseFrame, StatementListResponseFrame, StatementPage, StatementRow,
    StatementView, StatementWalk,
};
use crate::write::{Ack, Phase, PhaseAck, TombstoneTarget, Write};

verus! {

// Writing.

/// Whether two objects are the same thing: the same reference, or the same
/// value.
pub open spec fn is_same_thing(a: StatementObject, b: StatementObject) -> bool {
    match b {
        StatementObject::Value(StatementValue::Blob(y)) => (
        a matches StatementObject::Value(StatementValue::Blob(x)) && x@ == y@),
        StatementObject::Value(StatementValue::Text(y)) => (
        a matches StatementObject::Value(StatementValue::Text(x)) && x@ == y@),
        _ => a == b,
    }
}

/// Whether a confidence is a number from 0 to 1.
pub open spec fn is_share(c: Single) -> bool {
    !c.nan() && 0 <= c.key() <= 0x3F80_0000
}

/// Whether a statement may have the times and the evidence that a request gives
/// it: only an event happens at a time, an event is not valid from or to one,
/// and eight memories of evidence fit inline.
pub open spec fn is_well_shaped(req: StatementCreateRequest) -> bool {
    &&& req.kind is Event ==> req.valid_from_unix_nanos == 0 && req.valid_to_unix_nanos == 0
    &&& req.kind !is Event ==> req.event_at_unix_nanos == 0
    &&& req.evidence matches EvidenceRefWire::Inline(ids) ==> ids@.len() <= 8
}

/// Whether the schema admits a predicate: there is none, or it declares it.
pub open spec fn schema_admits(l: PredicateLookup) -> bool {
    l.active_version is None || (l.found is Some && l.declared@.contains(l.found->0))
}

/// A time of 0 is no time.
pub open spec fn tells_time(stored: Option<u64>, asked: u64) -> bool {
    &&& stored is None <==> asked == 0
    &&& stored matches Some(t) ==> t == asked
}

/// Whether a statement is the first version of what a request asks for.
pub open spec fn states_request(
    s: Statement,
    req: StatementCreateRequest,
    predicate: u32,
    now: u64,
    id: [u8; 16],
) -> bool {
    &&& (s.id, s.kind, s.predicate) == (id, req.kind, predicate)
    &&& s.subject == SubjectRef::Entity(req.subject)
    &&& is_same_thing(s.object, req.object)
    &&& (s.confidence, s.extractor_id, s.extracted_at_unix_nanos) == (
        req.confidence,
        req.extractor_id,
        now,
    )
    &&& s.evidence@ == req.evidence@
    &&& tells_time(s.valid_from_unix_nanos, req.valid_from_unix_nanos)
    &&& tells_time(s.valid_to_unix_nanos, req.valid_to_unix_nanos)
    &&& tells_time(s.event_at_unix_nanos, req.event_at_unix_nanos)
    &&& req.schema_version != 0 ==> s.schema_version == req.schema_version
    &&& req.schema_version == 0 ==> s.schema_version == 1
    &&& (s.chain_root, s.version) == (id, 1u32)
    &&& s.supersedes is None && s.superseded_by is None && s.tombstoned == false
}

proof fn new_statements_state_the_request(
    s: Statement,
    req: StatementCreateRequest,
    predicate: u32,
    now: u64,
    id: [u8; 16],
)
    requires
        is_new_statement(s, req, predicate, now, req.kind, id),
    ensures
        states_request(s, req, predicate, now, id),
{
}

/// A new statement is stored as the request states it: about its subject, with
/// its predicate, object, confidence and evidence, in its session. A predicate
/// that is not known yet is interned under its name; what the schema does not
/// declare is refused.
pub proof fn new_statements_hold_the_request(
    r: Result<Write, OpError>,
    req: StatementCreateRequest,
    l: PredicateLookup,
    caller: RowScope,
    now: u64,
    id: [u8; 16],
    ns: Seq<char>,
    name: Seq<char>,
)
    requires
        plans_create(r, req, l, caller, now, id),
        splits_into(req.predicate@, ns, name),
    ensures
        r is Ok <==> encode_utf8(req.predicate@).len() <= 96 && is_share(req.confidence)
            && schema_admits(l) && is_well_shaped(req),
        r matches Ok(w) ==> filed_for(w, req.request_id, caller) && (
        w.phase matches Phase::UpsertStatement {
            id: stored,
            kind,
            session,
            subject,
            predicate,
            object,
            confidence,
            evidence,
            valid_from_unix_nanos,
            extractor,
            extracted_at_unix_nanos,
            schema_version,
            predicate_intern_hint,
        } && {
            &&& (stored, kind, session) == (id, req.kind, req.session_id)
            &&& subject == SubjectRef::Entity(req.subject)
            &&& is_same_thing(object, req.object)
            &&& (confidence, extractor, extracted_at_unix_nanos) == (
                req.confidence,
                req.extractor_id,
                now,
            )
            &&& evidence@ == req.evidence@
            &&& tells_time(valid_from_unix_nanos, req.valid_from_unix_nanos)
            &&& schema_version == (if req.schema_version == 0 {
                1
            } else {
                req.schema_version
            })
            &&& l.found matches Some(p) ==> predicate == p && predicate_intern_hint is None
            &&& l.found is None ==> (predicate_intern_hint matches Some((a, b)) && a@ == ns && b@
                == name)
        }),
{
    assert(req.predicate@[ns.len() as int] == ':');
    assert(req.predicate@.contains(':'));
    let k = Single { bits: 0 };
    if r is Ok {
        let w = r->Ok_0;
        let (s, hint) = choose|s: Statement, hint: Option<(String, String)>| #[trigger]
            is_upsert_phase(w.phase, s, hint, req.session_id) && is_new_statement(
                s,
                req,
                match l.found {
                    Some(p) => p,
                    None => 0,
                },
                now,
                req.kind,
                id,
            ) && (l.found is Some ==> hint is None) && (l.found is None ==> (hint matches Some(h)
                && h.0@ == ns && h.1@ == name));
        assert(is_upsert_phase(w.phase, s, hint, req.session_id));
    }
}

/// A statement is built from a request exactly if the request is well shaped.
pub proof fn well_shaped_requests_are_built(
    r: Result<Statement, OpError>,
    req: StatementCreateRequest,
    predicate: u32,
    now: u64,
    id: [u8; 16],
)
    requires
        builds_statement(r, req, predicate, now, req.kind, id),
    ensures
        r is Ok <==> is_well_shaped(req),
        r matches Ok(s) ==> states_request(s, req, predicate, now, id),
        r matches Err(e) ==> e is InvalidRequest,
{
    if let Ok(s) = r {
        new_statements_state_the_request(s, req, predicate, now, id);
    }
}

/// A predicate that no schema restricts is what the lookup found; one that a
/// schema does not declare is refused as such.
pub proof fn schemas_restrict_predicates(
    r: Result<Option<u32>, OpError>,
    predicate: Seq<char>,
    namespace: Seq<char>,
    l: PredicateLookup,
)
    requires
        resolves_predicate(r, predicate, namespace, l),
    ensures
        r is Ok <==> schema_admits(l),
        r matches Ok(found) ==> found == l.found,
        r matches Err(e) ==> e is PredicateNotInSchema,
{
}

/// A creation is answered with the acknowledged id and the chain of the stored
/// row, announced as the request states it, and indexed; where the row replaced
/// another, that one is named, announced and taken out of the index.
pub proof fn creations_answer_the_stored_row(
    acked: Result<[u8; 16], OpError>,
    ack: Ack,
    r: Result<StatementCreated, OpError>,
    req: StatementCreateRequest,
    id: [u8; 16],
    row: Option<&Statement>,
)
    requires
        reads_created(acked, ack),
        answers_create(r, req, id, row),
    ensures
        acked is Ok <==> ack.phase is UpsertedStatement,
        acked matches Ok(x) ==> ack.phase == PhaseAck::UpsertedStatement(x),
        r is Ok <==> row is Some,
        r matches Ok(out) ==> (row matches Some(s) && {
            &&& (out.response.statement_id, out.response.chain_root) == (id, s.chain_root)
            &&& (out.created.statement_id, out.created.subject) == (id, req.subject)
            &&& out.created.kind == req.kind.byte() && out.created.predicate@ == req.predicate@
                && out.created.confidence == req.confidence
            &&& s.supersedes is None ==> out.superseded is None && out.response.auto_superseded@
                == zero16()
            &&& s.supersedes matches Some(old_id) ==> out.response.auto_superseded == old_id && (
            out.superseded matches Some(e) && (
                e.old_statement_id,
                e.new_statement_id,
                e.chain_root,
            ) == (old_id, id, s.chain_root)) && out.text_ops@.len() == 2 && out.text_ops@[0]
                == StatementTextOp::Delete(old_id)
            &&& out.text_ops@.len() > 0 && out.text_ops@.last() == StatementTextOp::Upsert(id)
            &&& s.supersedes is None ==> out.text_ops@.len() == 1
        }),
{
    zero_id_is_zero();
}

/// A supersession replaces the statement that it names by what the request
/// states, for the owner alone.
pub proof fn supersessions_hold_the_request(
    admitted: Result<(&str, &str), OpError>,
    r: Result<Write, OpError>,
    req: StatementSupersedeRequest,
    owner: Option<RowScope>,
    predicate: u32,
    caller: RowScope,
    shown: Seq<char>,
    now: u64,
    id: [u8; 16],
)
    requires
        admits_supersede(admitted, req, owner, caller, shown),
        plans_supersede(r, req, predicate, caller, now, id),
    ensures
        admitted is Ok ==> owner == Some(caller) && is_share(req.new_statement.confidence),
        r is Ok <==> is_well_shaped(req.new_statement),
        r matches Ok(w) ==> filed_for(w, req.request_id, caller) && (
        w.phase matches Phase::SupersedeStatement { old: target, replacement, at_unix_nanos } && (
            target,
            at_unix_nanos,
        ) == (req.old_statement_id, now) && states_request(
            replacement,
            req.new_statement,
            predicate,
            now,
            id,
        )),
{
    if r is Ok {
        let w = r->Ok_0;
        if let Phase::SupersedeStatement { old: _, replacement, at_unix_nanos: _ } = w.phase {
            new_statements_state_the_request(replacement, req.new_statement, predicate, now, id);
        }
    }
}

/// A supersession is answered with the new statement in the chain of the stored
/// row; the old one leaves the index and the new one enters it.
pub proof fn supersessions_answer_the_stored_row(
    acked: Result<[u8; 16], OpError>,
    ack: Ack,
    r: Result<StatementSuperseded, OpError>,
    req: StatementSupersedeRequest,
    new_id: [u8; 16],
    row: Option<&Statement>,
)
    requires
        reads_superseding(acked, ack),
        answers_supersede(r, req, new_id, row),
    ensures
        acked is Ok <==> ack.phase is SupersededStatement,
        acked matches Ok(x) ==> ack.phase == PhaseAck::SupersededStatement(x),
        r is Ok <==> row is Some,
        r matches Ok(out) ==> (row matches Some(s) && {
            &&& (
                out.response.new_statement_id,
                out.response.chain_root,
                out.response.version,
            ) == (new_id, s.chain_root, s.version)
            &&& (
                out.superseded.old_statement_id,
                out.superseded.new_statement_id,
                out.superseded.chain_root,
            ) == (req.old_statement_id, new_id, s.chain_root)
            &&& out.text_ops@.len() == 2
            &&& out.text_ops@[0] == StatementTextOp::Delete(req.old_statement_id)
            &&& out.text_ops@[1] == StatementTextOp::Upsert(new_id)
        }),
{
}

/// A tombstone takes the statement it names, for the reason it gives; a
/// retraction takes it as retracted, whatever the reason. Both are for the
/// owner alone.
pub proof fn removals_hold_the_request(
    tombstone: Result<Write, OpError>,
    retraction: Result<Write, OpError>,
    req: StatementTombstoneRequest,
    owner: Option<RowScope>,
    caller: RowScope,
    shown: Seq<char>,
    now: u64,
)
    requires
        plans_tombstone(tombstone, req, owner, caller, shown, now),
        plans_retract(retraction, req, owner, caller, shown, now),
    ensures
        tombstone is Ok <==> encode_utf8(req.reason_message@).len() <= 4096 && req.reason >= 1
            && req.reason <= 4 && owner == Some(caller),
        retraction is Ok <==> tombstone is Ok,
        tombstone matches Ok(w) ==> filed_for(w, req.request_id, caller) && w.phase == (
        Phase::Tombstone {
            target: TombstoneTarget::Statement(req.statement_id),
            reason: req.reason,
            at_unix_nanos: now,
        }),
        retraction matches Ok(w) ==> filed_for(w, req.request_id, caller) && w.phase == (
        Phase::Tombstone {
            target: TombstoneTarget::Statement(req.statement_id),
            reason: 5,
            at_unix_nanos: now,
        }),
{
}

/// A removal is answered with the acknowledged stamp and takes the statement
/// out of the index; a retracted one is zeroed thirty days later.
pub proof fn removals_answer_the_stamp(
    tombstone: Result<StatementRemoved, OpError>,
    retraction: Result<(StatementRetractResponse, StatementRemoved), OpError>,
    req: StatementTombstoneRequest,
    ack: Ack,
)
    requires
        answers_tombstone(tombstone, req, ack),
        answers_retract(retraction, req, ack),
    ensures
        tombstone is Ok <==> ack.phase is Tombstoned,
        retraction is Ok <==> ack.phase is Tombstoned,
        tombstone matches Ok(out) ==> ack.phase == (PhaseAck::Tombstoned {
            tombstoned_at_unix_nanos: out.at_unix_nanos,
        }) && out.removed.statement_id == req.statement_id && out.removed.reason@
            == req.reason_message@ && out.text_op == StatementTextOp::Delete(req.statement_id),
        retraction matches Ok(out) ==> {
            &&& ack.phase == (PhaseAck::Tombstoned {
                tombstoned_at_unix_nanos: out.0.retracted_at_unix_nanos,
            })
            &&& out.1.at_unix_nanos == out.0.retracted_at_unix_nanos
            &&& out.0.will_zero_at_unix_nanos >= out.0.retracted_at_unix_nanos
            &&& out.0.will_zero_at_unix_nanos < u64::MAX ==> out.0.will_zero_at_unix_nanos
                - out.0.retracted_at_unix_nanos == 30 * 24 * 3600 * 1_000_000_000
            &&& out.1.removed.statement_id == req.statement_id && out.1.text_op
                == StatementTextOp::Delete(req.statement_id)
            &&& out.1.removed.reason@.len() >= req.reason_message@.len()
        },
{
}

// Reading.

/// A statement is read by its own tenant alone, under its predicate's full
/// name, with its evidence inline.
pub proof fn views_show_their_statement(v: StatementView, row: StatementRow)
    requires
        shows(v, row),
    ensures
        row.predicate is Some,
        v.predicate@ == row.predicate->0.namespace@.push(':') + row.predicate->0.name@,
        ({
            let (a, b) = (v.statement, row.statement);
            &&& (a.id, a.kind, a.subject, a.predicate) == (b.id, b.kind, b.subject, b.predicate)
            &&& a.object == b.object && a.confidence == b.confidence
            &&& (a.chain_root, a.version, a.supersedes, a.superseded_by) == (
                b.chain_root,
                b.version,
                b.supersedes,
                b.superseded_by,
            )
            &&& (a.valid_from_unix_nanos, a.valid_to_unix_nanos, a.event_at_unix_nanos) == (
                b.valid_from_unix_nanos,
                b.valid_to_unix_nanos,
                b.event_at_unix_nanos,
            )
            &&& (a.extractor_id, a.extracted_at_unix_nanos, a.schema_version, a.tombstoned) == (
                b.extractor_id,
                b.extracted_at_unix_nanos,
                b.schema_version,
                b.tombstoned,
            )
        }),
        row.statement.evidence matches EvidenceRef::Inline(l) ==> v.statement.evidence@
            == EvidenceView::Inline(evidence_entries(l)),
        row.statement.evidence is Overflow ==> (row.overflow matches Some(ids) && (
        v.statement.evidence@ matches EvidenceView::Inline(shown) && shown.len() <= ids@.len()
            && shown.len() <= 8 && (shown.len() < ids@.len() ==> shown.len() == 8) && shown
            == ids@.take(shown.len() as int))),
{
    reveal_strlit(":");
    let p = row.predicate->0;
    assert(p.namespace@ + ":"@ + p.name@ =~= p.namespace@.push(':') + p.name@);
    if row.overflow is Some {
        let ids = row.overflow->0@;
        assert(ids.take(ids.len() as int) =~= ids);
    }
}

/// Reading needs the statement and its owner; the answer is the row, and says
/// whether a newer version was followed.
pub proof fn statements_are_read_by_their_owner(
    admitted: Result<(), OpError>,
    found: bool,
    owner: Option<RowScope>,
    caller: RowScope,
    shown: Seq<char>,
    r: Result<StatementGetResponse, OpError>,
    row: StatementRow,
    moved: bool,
)
    requires
        admits_read(admitted, found, owner, caller, shown),
        answers_read(r, row, moved),
    ensures
        admitted is Ok <==> found && owner == Some(caller),
        admitted matches Err(e) ==> e is NotFound,
        r is Ok <==> row.predicate is Some && (row.statement.evidence is Overflow ==> row.overflow
            is Some),
        r matches Ok(out) ==> shows(out.statement, row) && out.returned_via_supersession == moved,
{
}

/// A read that follows its chain goes from each version to the one that
/// superseded it; one that does not stays where it is.
pub proof fn chains_are_followed_forward(w: ChainWalk)
    ensures
        w.follow ==> w.wanted_id() == w.current.superseded_by,
        !w.follow ==> w.wanted_id() is None,
{
}

/// A walk starts at the statement asked for, and moves to each version that was
/// read; one that is missing is told as such.
pub proof fn walks_move_to_what_was_read(
    begun: ChainWalk,
    s: Statement,
    follow: bool,
    before: ChainWalk,
    r: Result<ChainWalk, OpError>,
    row: Option<Statement>,
    successor: Seq<char>,
    asked: Seq<char>,
)
    requires
        starts_walk(begun, s, follow),
        arrives(r, before, row, successor, asked),
    ensures
        begun.current == s && begun.follow == follow && begun.moved == false,
        r is Ok <==> row is Some,
        r matches Ok(w) ==> Some(w.current) == row && w.follow == before.follow && w.moved,
        r matches Err(e) ==> e is Internal,
{
}

proof fn no_error_means_none(rows: Seq<StatementRow>)
    ensures
        first_view_error(rows) is None <==> forall|i: int|
            0 <= i < rows.len() ==> view_error(#[trigger] rows[i]) is None,
    decreases rows.len(),
{
    if rows.len() > 0 {
        let front = rows.drop_last();
        no_error_means_none(front);
        assert forall|i: int| 0 <= i < front.len() implies front[i] == #[trigger] rows[i] by {}
        if first_view_error(rows) is None {
            assert forall|i: int| 0 <= i < rows.len() implies view_error(
                #[trigger] rows[i],
            ) is None by {
                if i < front.len() {
                    assert(view_error(front[i]) is None);
                }
            }
        }
        if forall|i: int| 0 <= i < rows.len() ==> view_error(#[trigger] rows[i]) is None {
            assert forall|i: int| 0 <= i < front.len() implies view_error(
                #[trigger] front[i],
            ) is None by {
                assert(view_error(rows[i]) is None);
            }
            assert(view_error(rows[rows.len() - 1]) is None);
        }
    }
}

/// Whether a list of views holds a view of a row.
pub open spec fn holds_view_of(items: Seq<StatementView>, row: StatementRow) -> bool {
    exists|k: int| 0 <= k < items.len() && shows(#[trigger] items[k], row)
}

/// A history shows every version that was read, but tombstoned ones only where
/// they are asked for, in order, in the chain that the cursor names; where
/// there is more its token resumes that chain after the last version.
pub proof fn histories_show_their_versions(
    r: Result<StatementHistoryResponseFrame, OpError>,
    req: StatementHistoryRequest,
    resume: Option<([u8; 16], u32)>,
    page: HistoryPage,
    caller: RowScope,
    shown: Seq<char>,
    row: StatementRow,
)
    requires
        shows_history(r, req, resume, page, caller, shown),
        page.rows@.contains(row),
    ensures
        r matches Ok(f) ==> {
            &&& (req.include_tombstoned || row.statement.tombstoned == false) ==> holds_view_of(
                f.items@,
                row,
            )
            &&& f.items@.len() <= page.rows@.len()
            &&& req.include_tombstoned == false ==> forall|k: int|
                0 <= k < f.items@.len() ==> !(#[trigger] f.items@[k]).statement.tombstoned
            &&& (f.total_versions, f.chain_root) == (page.total, page.chain_root)
            &&& f.is_final
            &&& resume matches Some((root, _)) ==> root == page.chain_root
            &&& f.next_cursor@.len() > 0 <==> page.has_more && page.last_version is Some
            &&& f.next_cursor@.len() > 0 ==> f.next_cursor@ == history_cursor_bytes(
                caller,
                req.include_tombstoned,
                page.chain_root@,
                page.last_version->0,
            )
        },
        resume matches Some((root, _)) && root != page.chain_root ==> r is Err,
{
    let test = kept_row(req.include_tombstoned);
    let kept = page.rows@.filter(test);
    filter_keeps_what_passes(page.rows@, test, row);
    crate::bytes::le_round_trip(0, 4);
    if r is Ok {
        let items = r->Ok_0.items@;
        if kept.contains(row) {
            let k = choose|k: int| 0 <= k < kept.len() && kept[k] == row;
            assert(shows(items[k], kept[k]));
        }
        assert forall|k: int|
            !req.include_tombstoned && 0 <= k < items.len() implies !(
        #[trigger] items[k]).statement.tombstoned by {
            assert(shows(items[k], kept[k]));
            filter_keeps_what_passes(page.rows@, test, kept[k]);
            assert(kept.contains(kept[k]));
        }
    }
}

/// A history is read by the owner of the statement, from the start without a
/// cursor, and after the version that its cursor names with one.
pub proof fn histories_are_read_by_their_owner(
    r: Result<Option<([u8; 16], u32)>, OpError>,
    req: StatementHistoryRequest,
    owner: Option<RowScope>,
    caller: RowScope,
    shown: Seq<char>,
)
    requires
        admits_history(r, req, owner, caller, shown),
    ensures
        r is Ok ==> 1 <= req.limit <= 1000 && owner == Some(caller),
        1 <= req.limit <= 1000 && owner == Some(caller) && req.cursor@.len() == 0 ==> r == Ok::<
            Option<([u8; 16], u32)>,
            OpError,
        >(None),
        forall|root: [u8; 16], version: u32|
            1 <= req.limit <= 1000 && owner == Some(caller) && req.cursor@
                == #[trigger] history_cursor_bytes(
                caller,
                req.include_tombstoned,
                root@,
                version,
            ) ==> r == Ok::<Option<([u8; 16], u32)>, OpError>(Some((root, version))),
        forall|minted: RowScope, asked: bool, root: [u8; 16], version: u32|
            req.cursor@ == #[trigger] history_cursor_bytes(minted, asked, root@, version) && (minted
                != caller || asked != req.include_tombstoned) ==> r is Err,
{
    assert forall|minted: RowScope, asked: bool, root: [u8; 16], version: u32|
        req.cursor@ == #[trigger] history_cursor_bytes(minted, asked, root@, version) && (minted
            != caller || asked != req.include_tombstoned) implies r is Err by {
        crate::statement::history_cursor_round_trip(
            minted,
            asked,
            root,
            version,
            caller,
            req.include_tombstoned,
        );
    }
    assert forall|root: [u8; 16], version: u32|
        1 <= req.limit <= 1000 && owner == Some(caller) && req.cursor@
            == #[trigger] history_cursor_bytes(
            caller,
            req.include_tombstoned,
            root@,
            version,
        ) implies r == Ok::<Option<([u8; 16], u32)>, OpError>(Some((root, version))) by {
        crate::statement::history_cursor_round_trip(
            caller,
            req.include_tombstoned,
            root,
            version,
            caller,
            req.include_tombstoned,
        );
        assert(req.cursor@.len() == 42);
        let back = r->Ok_0->0;
        assert(back.0@ == root@);
        assert(back.0 =~= root);
    }
}

// Listing.

/// A list is bound to the subject that it names: a subject that is not all
/// zeros is the subject of the walk, so two lists of different subjects walk
/// differently; only an all-zero subject leaves the walk unbound.
pub proof fn lists_are_bound_to_their_subject(
    r: Result<Option<StatementWalk>, OpError>,
    req: StatementListRequest,
    admission: ListAdmission<'_>,
    lookup: ListPredicate,
    other: Result<Option<StatementWalk>, OpError>,
    subject: [u8; 16],
)
    requires
        plans_list(r, req, admission, lookup),
        plans_list(other, StatementListRequest { subject, ..req }, admission, lookup),
    ensures
        r matches Ok(Some(w)) ==> (w.subject is None <==> req.subject@ == Seq::new(16, |i: int| 0u8))
            && (w.subject matches Some(s) ==> s == req.subject),
        r matches Ok(Some(a)) ==> other matches Ok(Some(b)) ==> (req.subject@ != subject@
            ==> a.subject != b.subject) && (req.subject@ == subject@ ==> a == b),
{
    zero_id_is_zero();
    assert(zero16() =~= Seq::new(16, |i: int| 0u8));
    if req.subject@ == subject@ {
        assert(req.subject =~= subject);
    }
}

/// Whether a time is in the range that a list asks for: not before its start,
/// and not after its end where it has one.
pub open spec fn is_asked_for(req: StatementListRequest, t: u64) -> bool {
    t >= req.time_range_start_unix_nanos && (req.time_range_end_unix_nanos == 0 || t
        <= req.time_range_end_unix_nanos)
}

/// Whether a walk takes a time.
pub open spec fn takes_time(w: StatementWalk, t: u64) -> bool {
    w.time_range matches Some((lo, hi)) ==> lo <= t && t <= hi
}

/// A list walks what the request asks for and nothing wider: its predicate, its
/// kind, its times, its confidence and its versions, from where its cursor
/// stands and up to its limit. A predicate that nothing knows has no
/// statements, and one that the schema does not declare is refused.
pub proof fn lists_walk_what_is_asked(
    r: Result<Option<StatementWalk>, OpError>,
    req: StatementListRequest,
    admission: ListAdmission<'_>,
    lookup: ListPredicate,
)
    requires
        plans_list(r, req, admission, lookup),
    ensures
        admission.predicate is None ==> (r matches Ok(Some(w)) && w.predicate is None),
        admission.predicate is Some ==> {
            &&& lookup.found matches Some(p) ==> (r matches Ok(Some(w)) && w.predicate == Some(p))
            &&& lookup.found is None && lookup.active_version is None ==> r == Ok::<
                Option<StatementWalk>,
                OpError,
            >(None)
            &&& lookup.found is None && lookup.active_version is Some ==> (r matches Err(e)
                && e is PredicateNotInSchema)
        },
        r matches Ok(Some(w)) ==> {
            &&& (w.limit, w.current_only, w.include_tombstoned) == (
                req.limit,
                req.only_current,
                req.include_tombstoned,
            )
            &&& w.kind is None <==> req.kind == 0
            &&& w.kind matches Some(k) ==> k.byte() + 1 == req.kind
            &&& w.min_confidence matches Some(c) ==> c == req.min_confidence
            &&& w.min_confidence is Some <==> !req.min_confidence.nan()
                && req.min_confidence.key() > 0
            &&& forall|t: u64| #[trigger] takes_time(w, t) <==> is_asked_for(req, t)
            &&& w.resume_after == admission.resume_after
        },
{
    if let Ok(Some(w)) = r {
        assert forall|t: u64| #[trigger] takes_time(w, t) <==> is_asked_for(req, t) by {}
    }
}

/// A list is admitted with a limit from 1 to 1000 and a full predicate name or
/// none. It starts at the first row without a cursor; the token of a page of
/// the same list resumes strictly after that page, and the token of another
/// list or another tenant is refused.
pub proof fn lists_resume_their_own_pages(
    r: Result<ListAdmission<'_>, OpError>,
    req: StatementListRequest,
    caller: RowScope,
)
    requires
        admits_list(r, req, caller),
    ensures
        r is Ok ==> 1 <= req.limit <= 1000,
        r matches Ok(a) ==> (a.predicate is None <==> req.predicate@.len() == 0) && (
        a.predicate matches Some((ns, name)) ==> req.predicate@ == ns@.push(':') + name@
            && !ns@.contains(':')),
        1 <= req.limit <= 1000 && req.cursor@.len() == 0 && req.predicate@.len() == 0 ==> (
        r matches Ok(a) && a.resume_after is None),
        forall|sig: [u8; 8], id: [u8; 16]|
            1 <= req.limit <= 1000 && req.predicate@.len() == 0 && req.cursor@
                == #[trigger] statement_cursor_bytes(caller, sig@, id@) ==> if sig@
                == list_filter_signature(req) {
                r matches Ok(a) && a.resume_after matches Some(c) && c.id == id
            } else {
                r is Err
            },
        forall|minted: RowScope, sig: [u8; 8], id: [u8; 16]|
            req.cursor@ == #[trigger] statement_cursor_bytes(minted, sig@, id@) && minted != caller
                ==> r is Err,
{
    assert forall|minted: RowScope, sig: [u8; 8], id: [u8; 16]|
        req.cursor@ == #[trigger] statement_cursor_bytes(minted, sig@, id@) implies req.cursor@.len()
        == 45 && req.cursor@[0] == 3 && (owned_by(req.cursor@, caller) <==> minted == caller)
        && req.cursor@.subrange(21, 29) == sig@ && req.cursor@.subrange(29, 45) == id@ by {
        crate::cursor::scope_bytes_injective(minted, caller);
        crate::cursor::scope_bytes_injective(caller, minted);
        let c = req.cursor@;
        assert(c.subrange(1, 21) =~= crate::cursor::scope_bytes(minted));
        assert(c.subrange(21, 29) =~= sig@);
        assert(c.subrange(29, 45) =~= id@);
    }
    assert forall|sig: [u8; 8], id: [u8; 16]|
        1 <= req.limit <= 1000 && req.predicate@.len() == 0 && req.cursor@
            == #[trigger] statement_cursor_bytes(caller, sig@, id@) implies if sig@
        == list_filter_signature(req) {
        r matches Ok(a) && a.resume_after matches Some(c) && c.id == id
    } else {
        r is Err
    } by {
        if sig@ == list_filter_signature(req) {
            assert(statement_cursor_error(req.cursor@, caller, sig@) is None);
            let back = r->Ok_0.resume_after->0.id;
            assert(back@ == id@);
            assert(back =~= id);
        }
    }
}

/// A page of a list shows every row that was read, in order, and where there is
/// more its token names the row it ended on.
pub proof fn list_pages_show_their_rows(
    r: Result<StatementListResponseFrame, OpError>,
    page: StatementPage,
    signature: [u8; 8],
    caller: RowScope,
)
    requires
        shows_list(r, page, signature, caller),
    ensures
        r matches Ok(f) ==> {
            &&& f.items@.len() == page.rows@.len()
            &&& forall|i: int|
                0 <= i < page.rows@.len() ==> (#[trigger] f.items@[i]).statement.id
                    == page.rows@[i].statement.id
            &&& page.rows@.len() <= u32::MAX ==> f.cumulative_count == page.rows@.len()
            &&& f.is_final
            &&& page.has_more && page.last is Some ==> f.next_cursor@ == statement_cursor_bytes(
                caller,
                signature@,
                page.last->0.id@,
            )
            &&& !page.has_more || page.last is None ==> f.next_cursor@.len() == 0
        },
        (forall|i: int| 0 <= i < page.rows@.len() ==> view_error(#[trigger] page.rows@[i]) is None)
            ==> r is Ok,
{
    no_error_means_none(page.rows@);
    if r is Ok {
        let f = r->Ok_0;
        assert forall|i: int| 0 <= i < page.rows@.len() implies (
        #[trigger] f.items@[i]).statement.id == page.rows@[i].statement.id by {
            assert(shows(f.items@[i], page.rows@[i]));
        }
    }
}

/// The bytes of the kinds.
pub proof fn kinds_have_their_bytes(b: u8)
    ensures
        StatementKind::of_byte(b).byte() == b,
        StatementKind::of_byte(b) is Fact <==> b == 0,
        StatementKind::of_byte(b) is Preference <==> b == 1,
        StatementKind::of_byte(b) is Event <==> b == 2,
        StatementKind::of_byte(b) is Attribute <==> b == 3,
        StatementKind::of_byte(b) is Relation <==> b == 4,
        StatementKind::of_byte(b) is Directive <==> b == 5,
        StatementKind::of_byte(b) is Custom <==> b > 5,
{
}

/// A tombstone has one of four reasons.
pub proof fn reasons_are_one_to_four(r: Result<u8, OpError>, byte: u8)
    requires
        decodes_reason(r, byte),
    ensures
        r is Ok <==> 1 <= byte <= 4,
        r matches Ok(b) ==> b == byte,
        r matches Err(e) ==> e is InvalidRequest,
{
}

/// The cursor of a list gives back its id to the same list and tenant alone,
/// and that of a history its chain and version.
pub proof fn statement_cursors_give_back_their_place(
    r: Result<Option<StatementListCursor>, OpError>,
    minted: RowScope,
    sig: [u8; 8],
    id: [u8; 16],
    caller: RowScope,
    asked: [u8; 8],
)
    requires
        reads_statement_cursor(r, statement_cursor_bytes(minted, sig@, id@), caller, asked),
    ensures
        r is Ok <==> minted == caller && sig@ == asked@,
        r matches Ok(c) ==> (c matches Some(x) && x.id == id),
{
    let c = statement_cursor_bytes(minted, sig@, id@);
    crate::cursor::scope_bytes_injective(minted, caller);
    crate::cursor::scope_bytes_injective(caller, minted);
    assert(c.subrange(1, 21) =~= crate::cursor::scope_bytes(minted));
    assert(c.subrange(21, 29) =~= sig@);
    assert(c.subrange(29, 45) =~= id@);
    if let Ok(Some(x)) = r {
        assert(x.id@ == id@);
        assert(x.id =~= id);
    }
}

/// A list without a cursor starts at its first statement, for every caller and
/// every filter; bytes that are no cursor of that list start none.
pub proof fn lists_without_a_cursor_start_anew(
    r: Result<Option<StatementListCursor>, OpError>,
    cursor: Seq<u8>,
    caller: RowScope,
    asked: [u8; 8],
)
    requires
        reads_statement_cursor(r, cursor, caller, asked),
    ensures
        r == Ok::<Option<StatementListCursor>, OpError>(None) <==> cursor.len() == 0,
        r is Ok && cursor.len() > 0 ==> cursor.len() == 45 && cursor[0] == 3,
        r matches Ok(c) ==> (c matches Some(x) ==> cursor == statement_cursor_bytes(
            caller,
            asked@,
            x.id@,
        )),
{
    if let Ok(Some(x)) = r {
        assert(cursor =~= cursor.subrange(0, 1) + cursor.subrange(1, 21) + cursor.subrange(21, 29)
            + cursor.subrange(29, 45));
        assert(cursor =~= statement_cursor_bytes(caller, asked@, x.id@));
    }
}

} // verus!
