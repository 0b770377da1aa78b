//! The statement reads: one statement, its history, and the list.
use vstd::prelude::*;

use crate::bytes::{eq16, is_zero16, length_u32, low32, zero_id};
use crate::error::{fails, invalid, ErrorView, OpError};
use crate::evidence::{evidence_entries, evidence_of};
use crate::membership::at_most;
use crate::scope::{in_caller_scope, RowScope};
use crate::single::Single;
use crate::statement::{
    decode_history_cursor, decode_statement_cursor, encode_history_cursor, encode_statement_cursor,
    history_cursor_bytes, history_cursor_error, list_filter_signature, qname_error, split_qname,
    splits_into, statement_cursor_bytes, statement_cursor_error, statement_list_filter_signature,
    validate_predicate_qname, EvidenceRef, EvidenceView, Statement, StatementKind,
    StatementListCursor, StatementListRequest, INLINE_EVIDENCE_CAP, LIST_LIMIT_MAX,
};
use crate::statement_ops::{no_statement, not_in_schema, statement_not_found};
use crate::text::{join2, join3};

verus! {

/// The two parts of a predicate's name.
#[derive(Debug)]
pub struct PredicateName {
    pub namespace: String,
    pub name: String,
}

/// How the ids of a statement row print.
#[derive(Debug)]
pub struct RowText {
    pub id: String,
    pub predicate: String,
    pub overflow: String,
}

/// A statement row with what was looked up for it: its predicate, and the
/// entries of its overflow row where its evidence is in one.
#[derive(Debug)]
pub struct StatementRow {
    pub statement: Statement,
    pub predicate: Option<PredicateName>,
    pub overflow: Option<Vec<[u8; 16]>>,
    pub shown: RowText,
}

/// A statement as clients see it: its predicate by name, its evidence inline.
#[derive(Debug)]
pub struct StatementView {
    pub statement: Statement,
    pub predicate: String,
}

/// Why a row cannot be shown, if it cannot.
pub open spec fn view_error(row: StatementRow) -> Option<ErrorView> {
    if row.predicate is None {
        Some(
            ErrorView::Internal(
                "statement "@ + row.shown.id@ + " references missing predicate "@
                    + row.shown.predicate@,
            ),
        )
    } else if row.statement.evidence is Overflow && row.overflow is None {
        Some(
            ErrorView::Internal(
                "statement "@ + row.shown.id@ + " references missing overflow row "@
                    + row.shown.overflow@,
            ),
        )
    } else {
        None
    }
}

/// Whether a view shows a row: the row itself, under its predicate's name,
/// with overflow evidence cut to what fits inline.
pub open spec fn shows(v: StatementView, row: StatementRow) -> bool {
    &&& row.predicate matches Some(p) && v.predicate@ == p.namespace@ + ":"@ + p.name@
    &&& v.statement == (Statement { evidence: v.statement.evidence, ..row.statement })
    &&& match row.statement.evidence {
        EvidenceRef::Inline(l) => v.statement.evidence@ == EvidenceView::Inline(
            evidence_entries(l),
        ),
        EvidenceRef::Overflow(_) => row.overflow matches Some(ids) && v.statement.evidence@
            == EvidenceView::Inline(at_most(ids@, INLINE_EVIDENCE_CAP as nat)),
    }
}

fn dangling(id: &str, what: &str, other: &str) -> (r: OpError)
    ensures
        r@ == ErrorView::Internal("statement "@ + id@ + what@ + other@),
{
    let head = join3("statement ", id, what);
    OpError::Internal(join2(&head, other))
}

/// Shows a row.
pub fn project_view(row: StatementRow) -> (r: Result<StatementView, OpError>)
    ensures
        match view_error(row) {
            Some(e) => fails(r, e),
            None => r matches Ok(v) && shows(v, row),
        },
{
    let predicate = match &row.predicate {
        Some(p) => join3(&p.namespace, ":", &p.name),
        None => {
            return Err(
                dangling(&row.shown.id, " references missing predicate ", &row.shown.predicate),
            );
        },
    };
    let mut statement = row.statement;
    let inline = match &statement.evidence {
        EvidenceRef::Inline(_) => None,
        EvidenceRef::Overflow(_) => match &row.overflow {
            Some(ids) => {
                let mut first: Vec<[u8; 16]> = Vec::new();
                for i in 0..ids.len()
                    invariant
                        first@ == at_most(ids@.take(i as int), INLINE_EVIDENCE_CAP as nat),
                {
                    if first.len() < INLINE_EVIDENCE_CAP {
                        first.push(ids[i]);
                    }
                    assert(at_most(ids@.take(i + 1), INLINE_EVIDENCE_CAP as nat) =~= first@);
                }
                assert(ids@.take(ids@.len() as int) =~= ids@);
                Some(evidence_of(&first))
            },
            None => {
                return Err(
                    dangling(
                        &row.shown.id,
                        " references missing overflow row ",
                        &row.shown.overflow,
                    ),
                );
            },
        },
    };
    match inline {
        Some(l) => {
            statement.evidence = EvidenceRef::Inline(l);
        },
        None => {},
    }
    Ok(StatementView { statement, predicate })
}

/// A shown statement never refers to another row for its evidence, and shows
/// no more entries than fit inline where it did.
pub proof fn shown_evidence_is_inline(v: StatementView, row: StatementRow)
    requires
        shows(v, row),
    ensures
        v.statement.evidence@ is Inline,
        row.statement.evidence is Overflow ==> v.statement.evidence@->Inline_0.len()
            <= INLINE_EVIDENCE_CAP,
{
}

/// Which rows a read keeps.
pub open spec fn kept_row(include_tombstoned: bool) -> spec_fn(StatementRow) -> bool {
    |row: StatementRow| include_tombstoned || !row.statement.tombstoned
}

/// The first error among rows, if one cannot be shown.
pub open spec fn first_view_error(rows: Seq<StatementRow>) -> Option<ErrorView>
    decreases rows.len(),
{
    if rows.len() == 0 {
        None
    } else {
        match first_view_error(rows.drop_last()) {
            Some(e) => Some(e),
            None => view_error(rows.last()),
        }
    }
}

/// Whether views show rows, one for one.
pub open spec fn shows_all(items: Seq<StatementView>, rows: Seq<StatementRow>) -> bool {
    items.len() == rows.len() && forall|i: int|
        0 <= i < items.len() ==> shows(#[trigger] items[i], rows[i])
}

proof fn error_is_first(rows: Seq<StatementRow>, n: int)
    requires
        0 <= n <= rows.len(),
        first_view_error(rows.take(n)) is Some,
    ensures
        first_view_error(rows) == first_view_error(rows.take(n)),
    decreases rows.len(),
{
    if n < rows.len() {
        assert(rows.drop_last().take(n) =~= rows.take(n));
        error_is_first(rows.drop_last(), n);
    } else {
        assert(rows.take(n) =~= rows);
    }
}

/// What projecting rows comes to.
pub open spec fn shows_kept_rows(
    r: Result<Vec<StatementView>, OpError>,
    rows: Vec<StatementRow>,
    include_tombstoned: bool,
) -> bool {
    ({
        let kept = rows@.filter(kept_row(include_tombstoned));
        match first_view_error(kept) {
            Some(e) => fails(r, e),
            None => r matches Ok(items) && shows_all(items@, kept),
        }
    })
}

/// Shows the kept rows, in order, or fails with the first that cannot be
/// shown.
pub fn project_rows(rows: Vec<StatementRow>, include_tombstoned: bool) -> (r: Result<
    Vec<StatementView>,
    OpError,
>)
    ensures
        shows_kept_rows(r, rows, include_tombstoned),
{
    let ghost all = rows@;
    let ghost keep = kept_row(include_tombstoned);
    let mut items: Vec<StatementView> = Vec::new();
    assert(all.take(0).filter(keep) =~= Seq::empty()) by {
        reveal(Seq::filter);
    }
    for row in it: rows
        invariant
            it.seq() == all,
            all == rows@,
            keep == kept_row(include_tombstoned),
            first_view_error(all.take(it.index()).filter(keep)) is None,
            shows_all(items@, all.take(it.index()).filter(keep)),
    {
        let ghost i = it.index();
        let ghost so_far = all.take(i).filter(keep);
        proof {
            assert(all.take(i + 1).drop_last() =~= all.take(i));
            assert(all.take(i + 1).filter(keep) == if keep(all[i]) {
                so_far.push(all[i])
            } else {
                so_far
            }) by {
                reveal(Seq::filter);
            }
        }
        if include_tombstoned || !row.statement.tombstoned {
            let ghost before = items@;
            match project_view(row) {
                Ok(v) => {
                    items.push(v);
                },
                Err(e) => {
                    proof {
                        let kept = all.filter(keep);
                        let step = all.take(i + 1).filter(keep);
                        assert(step.drop_last() =~= so_far);
                        prefix_of_filter(all, i + 1, keep);
                        assert(kept.take(step.len() as int) == step);
                        error_is_first(kept, step.len() as int);
                    }
                    return Err(e);
                },
            }
            proof {
                let step = all.take(i + 1).filter(keep);
                assert(step.drop_last() =~= so_far);
                assert forall|k: int| 0 <= k < items@.len() implies shows(
                    #[trigger] items@[k],
                    step[k],
                ) by {
                    if k < before.len() {
                        assert(shows(before[k], so_far[k]));
                    }
                }
            }
        }
    }
    assert(all.take(all.len() as int) =~= all);
    Ok(items)
}

/// Filtering a head of a list gives a head of the filtered list.
pub proof fn prefix_of_filter<T>(s: Seq<T>, n: int, keep: spec_fn(T) -> bool)
    requires
        0 <= n <= s.len(),
    ensures
        s.take(n).filter(keep).len() <= s.filter(keep).len(),
        s.filter(keep).take(s.take(n).filter(keep).len() as int) == s.take(n).filter(keep),
    decreases s.len(),
{
    reveal(Seq::filter);
    if n == s.len() {
        assert(s.take(n) =~= s);
        assert(s.filter(keep).take(s.filter(keep).len() as int) =~= s.filter(keep));
    } else {
        prefix_of_filter(s.drop_last(), n, keep);
        assert(s.drop_last().take(n) =~= s.take(n));
        let head = s.take(n).filter(keep);
        assert(s.filter(keep).take(head.len() as int) =~= s.drop_last().filter(keep).take(
            head.len() as int,
        ));
    }
}

// One statement.

/// Whether a statement is read: it is there, and the caller's.
pub open spec fn admits_read(
    r: Result<(), OpError>,
    found: bool,
    owner: Option<RowScope>,
    caller: RowScope,
    shown: Seq<char>,
) -> bool {
    &&& (found && owner == Some(caller) ==> r is Ok)
    &&& (!(found && owner == Some(caller)) ==> fails(r, no_statement(shown)))
}

/// Admits a read of one statement: the row is there and is the caller's.
pub fn admit_statement_get(
    found: bool,
    owner: Option<RowScope>,
    caller: &RowScope,
    shown: &str,
) -> (r: Result<(), OpError>)
    ensures
        admits_read(r, found, owner, *caller, shown@),
{
    if !found || !in_caller_scope(owner, caller) {
        return Err(statement_not_found(shown));
    }
    Ok(())
}

/// A walk along a supersession chain towards its newest statement.
#[derive(Debug)]
pub struct ChainWalk {
    pub current: Statement,
    pub follow: bool,
    pub moved: bool,
}

/// Whether a walk stands at its first statement.
pub open spec fn starts_walk(r: ChainWalk, current: Statement, follow: bool) -> bool {
    r == (ChainWalk { current, follow, moved: false })
}

/// What a walk comes to once the next statement was read.
pub open spec fn arrives(
    r: Result<ChainWalk, OpError>,
    before: ChainWalk,
    row: Option<Statement>,
    successor: Seq<char>,
    asked: Seq<char>,
) -> bool {
    match row {
        Some(s) => r == Ok::<ChainWalk, OpError>(
            ChainWalk { current: s, follow: before.follow, moved: true },
        ),
        None => fails(
            r,
            ErrorView::Internal("chain dangling at "@ + successor + " from "@ + asked),
        ),
    }
}

impl ChainWalk {
    /// The statement that the walk needs next.
    pub open spec fn wanted_id(self) -> Option<[u8; 16]> {
        if self.follow {
            self.current.superseded_by
        } else {
            None
        }
    }

    /// A walk that starts at a statement.
    pub fn start(current: Statement, follow: bool) -> (r: ChainWalk)
        ensures
            starts_walk(r, current, follow),
    {
        ChainWalk { current, follow, moved: false }
    }

    /// The statement to read next; none where the walk is over.
    pub fn wanted(&self) -> (r: Option<[u8; 16]>)
        ensures
            r == self.wanted_id(),
    {
        if self.follow {
            self.current.superseded_by
        } else {
            None
        }
    }

    /// Moves to the statement that was read for `wanted`.
    pub fn arrive(self, row: Option<Statement>, successor: &str, asked: &str) -> (r: Result<
        ChainWalk,
        OpError,
    >)
        ensures
            arrives(r, self, row, successor@, asked@),
    {
        match row {
            Some(current) => Ok(ChainWalk { current, follow: self.follow, moved: true }),
            None => {
                let head = join3("chain dangling at ", successor, " from ");
                Err(OpError::Internal(join2(&head, asked)))
            },
        }
    }
}

/// A walk that follows supersessions is over only at a statement that nothing
/// supersedes; one that does not follow is over where it starts.
pub proof fn walks_end_at_the_newest(w: ChainWalk)
    requires
        w.wanted_id() is None,
    ensures
        w.follow ==> w.current.superseded_by is None,
{
}

#[derive(Debug)]
pub struct StatementGetResponse {
    pub statement: StatementView,
    pub returned_via_supersession: bool,
}

/// What reading a statement is answered with.
pub open spec fn answers_read(
    r: Result<StatementGetResponse, OpError>,
    row: StatementRow,
    moved: bool,
) -> bool {
    match view_error(row) {
        Some(e) => fails(r, e),
        None => r matches Ok(out) && shows(out.statement, row)
            && out.returned_via_supersession == moved,
    }
}

/// Answers a read of one statement with the row where the walk ended.
pub fn statement_get_response(row: StatementRow, moved: bool) -> (r: Result<
    StatementGetResponse,
    OpError,
>)
    ensures
        answers_read(r, row, moved),
{
    match project_view(row) {
        Ok(statement) => Ok(StatementGetResponse { statement, returned_via_supersession: moved }),
        Err(e) => Err(e),
    }
}

// History.

#[derive(Debug)]
pub struct StatementHistoryRequest {
    pub anchor_id: [u8; 16],
    pub include_tombstoned: bool,
    pub limit: u32,
    pub cursor: Vec<u8>,
}

/// The error for a page size out of range.
pub open spec fn limit_error(limit: u32) -> Option<ErrorView> {
    if limit == 0 || limit > LIST_LIMIT_MAX {
        Some(ErrorView::InvalidRequest("limit must be in 1..=1000"@))
    } else {
        None
    }
}

/// What checking a limit comes to.
pub open spec fn admits_limit(
    r: Result<(), OpError>,
    limit: u32,
) -> bool {
    match limit_error(limit) {
        Some(e) => fails(r, e),
        None => r is Ok,
    }
}

/// Checks a page size.
pub fn check_limit(limit: u32) -> (r: Result<(), OpError>)
    ensures
        admits_limit(r, limit),
{
    if limit == 0 || limit > LIST_LIMIT_MAX {
        return Err(invalid("limit must be in 1..=1000"));
    }
    Ok(())
}

/// Why a history read is refused before the chain is read, if it is.
pub open spec fn history_error(
    req: StatementHistoryRequest,
    owner: Option<RowScope>,
    caller: RowScope,
    shown: Seq<char>,
) -> Option<ErrorView> {
    if limit_error(req.limit) is Some {
        limit_error(req.limit)
    } else if req.cursor@.len() > 0 && history_cursor_error(
        req.cursor@,
        caller,
        req.include_tombstoned,
    ) is Some {
        history_cursor_error(req.cursor@, caller, req.include_tombstoned)
    } else if owner != Some(caller) {
        Some(no_statement(shown))
    } else {
        None
    }
}

/// What admitting a history read comes to.
pub open spec fn admits_history(
    r: Result<Option<([u8; 16], u32)>, OpError>,
    req: StatementHistoryRequest,
    owner: Option<RowScope>,
    caller: RowScope,
    shown: Seq<char>,
) -> bool {
    match history_error(req, owner, caller, shown) {
        Some(e) => fails(r, e),
        None => r matches Ok(p) && (p is None <==> req.cursor@.len() == 0) && (
        p matches Some(at) ==> at.0@ == req.cursor@.subrange(22, 38) && at.1 as nat
            == crate::bytes::le_value(req.cursor@.subrange(38, 42))),
    }
}

/// Admits a history read and gives its resume point: the chain and the last
/// version shown, or none for the first page.
pub fn admit_history(
    req: &StatementHistoryRequest,
    owner: Option<RowScope>,
    caller: &RowScope,
    shown: &str,
) -> (r: Result<Option<([u8; 16], u32)>, OpError>)
    ensures
        admits_history(r, *req, owner, *caller, shown@),
{
    match check_limit(req.limit) {
        Ok(()) => {},
        Err(e) => {
            return Err(e);
        },
    }
    let resume = match decode_history_cursor(
        req.cursor.as_slice(),
        *caller,
        req.include_tombstoned,
    ) {
        Ok(p) => p,
        Err(e) => {
            return Err(e);
        },
    };
    if !in_caller_scope(owner, caller) {
        return Err(statement_not_found(shown));
    }
    Ok(resume)
}

/// A page of a chain, as it was read.
#[derive(Debug)]
pub struct HistoryPage {
    pub rows: Vec<StatementRow>,
    pub chain_root: [u8; 16],
    pub total: u32,
    pub has_more: bool,
    pub last_version: Option<u32>,
}

#[derive(Debug)]
pub struct StatementHistoryResponseFrame {
    pub total_versions: u32,
    pub items: Vec<StatementView>,
    pub chain_root: [u8; 16],
    pub next_cursor: Vec<u8>,
    pub is_final: bool,
}

/// Why a chain page is not shown, if it is not: the cursor names another
/// chain, the first page finds nothing, or a row cannot be shown.
pub open spec fn history_page_error(
    req: StatementHistoryRequest,
    resume: Option<([u8; 16], u32)>,
    page: HistoryPage,
    shown: Seq<char>,
) -> Option<ErrorView> {
    if resume matches Some((root, _)) && root != page.chain_root {
        Some(ErrorView::InvalidRequest("stale_cursor: anchor changed between pages"@))
    } else if resume is None && page.total == 0 {
        Some(no_statement(shown))
    } else {
        first_view_error(page.rows@.filter(kept_row(req.include_tombstoned)))
    }
}

/// What a page of a history shows.
pub open spec fn shows_history(
    r: Result<StatementHistoryResponseFrame, OpError>,
    req: StatementHistoryRequest,
    resume: Option<([u8; 16], u32)>,
    page: HistoryPage,
    caller: RowScope,
    shown: Seq<char>,
) -> bool {
    match history_page_error(req, resume, page, shown) {
        Some(e) => fails(r, e),
        None => r matches Ok(f) && {
            &&& shows_all(f.items@, page.rows@.filter(kept_row(req.include_tombstoned)))
            &&& f.total_versions == page.total
            &&& f.chain_root == page.chain_root
            &&& f.is_final
            &&& f.next_cursor@ == (if page.has_more && page.last_version is Some {
                history_cursor_bytes(
                    caller,
                    req.include_tombstoned,
                    page.chain_root@,
                    page.last_version->0,
                )
            } else {
                Seq::<u8>::empty()
            })
        },
    }
}

/// Shows a page of a chain, with a cursor for the next where there is more.
pub fn history_frame(
    req: &StatementHistoryRequest,
    resume: Option<([u8; 16], u32)>,
    page: HistoryPage,
    caller: &RowScope,
    shown: &str,
) -> (r: Result<StatementHistoryResponseFrame, OpError>)
    ensures
        shows_history(r, *req, resume, page, *caller, shown@),
{
    match resume {
        Some((root, _)) => {
            if !eq16(&root, &page.chain_root) {
                return Err(invalid("stale_cursor: anchor changed between pages"));
            }
        },
        None => {
            if page.total == 0 {
                return Err(statement_not_found(shown));
            }
        },
    }
    let items = match project_rows(page.rows, req.include_tombstoned) {
        Ok(v) => v,
        Err(e) => {
            return Err(e);
        },
    };
    let next_cursor = match page.last_version {
        Some(v) if page.has_more => encode_history_cursor(
            *caller,
            req.include_tombstoned,
            page.chain_root,
            v,
        ),
        _ => Vec::new(),
    };
    Ok(
        StatementHistoryResponseFrame {
            total_versions: page.total,
            items,
            chain_root: page.chain_root,
            next_cursor,
            is_final: true,
        },
    )
}

/// The cursor that a page hands out resumes the same chain after the page's
/// last version, for the same caller and toggle.
pub proof fn history_pages_resume(
    req: StatementHistoryRequest,
    page: HistoryPage,
    caller: RowScope,
    next: StatementHistoryRequest,
)
    requires
        page.has_more,
        page.last_version is Some,
        next.include_tombstoned == req.include_tombstoned,
        next.cursor@ == history_cursor_bytes(
            caller,
            req.include_tombstoned,
            page.chain_root@,
            page.last_version->0,
        ),
    ensures
        next.cursor@.len() > 0,
        history_cursor_error(next.cursor@, caller, next.include_tombstoned) is None,
        next.cursor@.subrange(22, 38) == page.chain_root@,
        crate::bytes::le_value(next.cursor@.subrange(38, 42)) == page.last_version->0,
{
    crate::statement::history_cursor_round_trip(
        caller,
        req.include_tombstoned,
        page.chain_root,
        page.last_version->0,
        caller,
        next.include_tombstoned,
    );
}

// The list.

/// What was read about the predicate of a list: the active schema version of
/// its namespace and the predicate of that name.
#[derive(Clone, Copy, Debug)]
pub struct ListPredicate {
    pub active_version: Option<u32>,
    pub found: Option<u32>,
}

/// The walk that a list asks the store for.
#[derive(Clone, Copy, Debug)]
pub struct StatementWalk {
    pub subject: Option<[u8; 16]>,
    pub predicate: Option<u32>,
    pub kind: Option<StatementKind>,
    pub current_only: bool,
    pub min_confidence: Option<Single>,
    pub include_tombstoned: bool,
    pub time_range: Option<(u64, u64)>,
    pub resume_after: Option<StatementListCursor>,
    pub limit: u32,
}

/// Why a list is refused before its predicate is looked up, if it is.
pub open spec fn list_request_error(req: StatementListRequest, caller: RowScope) -> Option<
    ErrorView,
> {
    if limit_error(req.limit) is Some {
        limit_error(req.limit)
    } else if req.cursor@.len() > 0 && statement_cursor_error(
        req.cursor@,
        caller,
        list_filter_signature(req),
    ) is Some {
        statement_cursor_error(req.cursor@, caller, list_filter_signature(req))
    } else if req.predicate@.len() > 0 {
        qname_error(req.predicate@)
    } else {
        None
    }
}

/// An admitted list: where to resume, the filters' signature, and the parts of
/// the predicate to look up.
#[derive(Debug)]
pub struct ListAdmission<'a> {
    pub resume_after: Option<StatementListCursor>,
    pub signature: [u8; 8],
    pub predicate: Option<(&'a str, &'a str)>,
}

/// What admitting a list comes to.
pub open spec fn admits_list(
    r: Result<ListAdmission<'_>, OpError>,
    req: StatementListRequest,
    caller: RowScope,
) -> bool {
    match list_request_error(req, caller) {
        Some(e) => fails(r, e),
        None => r matches Ok(a) && {
            &&& a.signature@ == list_filter_signature(req)
            &&& a.resume_after is None <==> req.cursor@.len() == 0
            &&& a.resume_after matches Some(c) ==> c.id@ == req.cursor@.subrange(29, 45)
            &&& a.predicate is None <==> req.predicate@.len() == 0
            &&& a.predicate matches Some(p) ==> splits_into(req.predicate@, p.0@, p.1@)
        },
    }
}

/// Admits a list.
pub fn admit_statement_list<'a>(req: &'a StatementListRequest, caller: &RowScope) -> (r: Result<
    ListAdmission<'a>,
    OpError,
>)
    ensures
        admits_list(r, *req, *caller),
{
    match check_limit(req.limit) {
        Ok(()) => {},
        Err(e) => {
            return Err(e);
        },
    }
    let signature = statement_list_filter_signature(req);
    let resume_after = match decode_statement_cursor(req.cursor.as_slice(), *caller, &signature) {
        Ok(c) => c,
        Err(e) => {
            return Err(e);
        },
    };
    let predicate = if req.predicate.as_str().is_empty() {
        None
    } else {
        match validate_predicate_qname(&req.predicate) {
            Ok(()) => {},
            Err(e) => {
                return Err(e);
            },
        }
        match split_qname(&req.predicate) {
            Ok(p) => Some(p),
            Err(e) => {
                return Err(e);
            },
        }
    };
    Ok(ListAdmission { resume_after, signature, predicate })
}

/// The kind that a filter byte asks for: 0 for any, else the kind's byte plus
/// one.
pub open spec fn kind_filter(b: u8) -> Option<StatementKind> {
    if b == 0 {
        None
    } else {
        Some(StatementKind::of_byte((b - 1) as u8))
    }
}

/// The time range that a list asks for; an open end reaches to the end of
/// time, and no bound at all asks for every time.
pub open spec fn time_filter(lo: u64, hi: u64) -> Option<(u64, u64)> {
    if lo == 0 && hi == 0 {
        None
    } else if hi == 0 {
        Some((lo, u64::MAX))
    } else {
        Some((lo, hi))
    }
}

/// The walk for an admitted list.
pub open spec fn list_walk(
    req: StatementListRequest,
    predicate: Option<u32>,
    resume_after: Option<StatementListCursor>,
) -> StatementWalk {
    StatementWalk {
        subject: if req.subject == zero_id() {
            None
        } else {
            Some(req.subject)
        },
        predicate,
        kind: kind_filter(req.kind),
        current_only: req.only_current,
        min_confidence: if (Single { bits: 0 }).below(req.min_confidence) {
            Some(req.min_confidence)
        } else {
            None
        },
        include_tombstoned: req.include_tombstoned,
        time_range: time_filter(req.time_range_start_unix_nanos, req.time_range_end_unix_nanos),
        resume_after,
        limit: req.limit,
    }
}

/// What planning a list comes to.
pub open spec fn plans_list(
    r: Result<Option<StatementWalk>, OpError>,
    req: StatementListRequest,
    admission: ListAdmission<'_>,
    lookup: ListPredicate,
) -> bool {
    match admission.predicate {
        None => r == Ok::<Option<StatementWalk>, OpError>(
            Some(list_walk(req, None, admission.resume_after)),
        ),
        Some(p) => match (lookup.found, lookup.active_version) {
            (Some(id), _) => r == Ok::<Option<StatementWalk>, OpError>(
                Some(list_walk(req, Some(id), admission.resume_after)),
            ),
            (None, Some(version)) => fails(r, not_in_schema(req.predicate@, p.0@, version)),
            (None, None) => r == Ok::<Option<StatementWalk>, OpError>(None),
        },
    }
}

/// Plans a list once its predicate was looked up. An unknown predicate is an
/// error under a schema; without one no row can match, so there is nothing to
/// walk.
pub fn plan_statement_list(
    req: &StatementListRequest,
    admission: &ListAdmission<'_>,
    lookup: ListPredicate,
) -> (r: Result<Option<StatementWalk>, OpError>)
    ensures
        plans_list(r, *req, *admission, lookup),
{
    let predicate = match admission.predicate {
        None => None,
        Some((ns, _)) => match lookup.found {
            Some(id) => Some(id),
            None => match lookup.active_version {
                Some(version) => {
                    return Err(
                        OpError::PredicateNotInSchema {
                            predicate: req.predicate.clone(),
                            namespace: ns.to_owned(),
                            version,
                        },
                    );
                },
                None => {
                    return Ok(None);
                },
            },
        },
    };
    let kind = if req.kind == 0 {
        None
    } else {
        Some(StatementKind::from_u8(req.kind - 1))
    };
    let subject = if is_zero16(&req.subject) {
        None
    } else {
        Some(req.subject)
    };
    let min_confidence = if (Single { bits: 0 }).is_below(req.min_confidence) {
        Some(req.min_confidence)
    } else {
        None
    };
    let lo: u64 = req.time_range_start_unix_nanos;
    let hi: u64 = req.time_range_end_unix_nanos;
    let time_range = if lo != 0 || hi != 0 {
        Some((
            lo,
            if hi == 0 {
                u64::MAX
            } else {
                hi
            },
        ))
    } else {
        None
    };
    Ok(
        Some(
            StatementWalk {
                subject,
                predicate,
                kind,
                current_only: req.only_current,
                min_confidence,
                include_tombstoned: req.include_tombstoned,
                time_range,
                resume_after: admission.resume_after,
                limit: req.limit,
            },
        ),
    )
}

/// A page of the list, as it was read.
#[derive(Debug)]
pub struct StatementPage {
    pub rows: Vec<StatementRow>,
    pub has_more: bool,
    pub last: Option<StatementListCursor>,
}

#[derive(Debug)]
pub struct StatementListResponseFrame {
    pub items: Vec<StatementView>,
    pub next_cursor: Vec<u8>,
    pub cumulative_count: u32,
    pub is_final: bool,
}

/// Whether a frame lists no statement.
pub open spec fn shows_nothing(
    r: StatementListResponseFrame,
) -> bool {
    &&& r.items@.len() == 0
    &&& r.next_cursor@.len() == 0
    &&& r.cumulative_count == 0
    &&& r.is_final
}

/// The frame for a list that cannot match anything.
pub fn empty_statement_list() -> (r: StatementListResponseFrame)
    ensures
        shows_nothing(r),
{
    StatementListResponseFrame {
        items: Vec::new(),
        next_cursor: Vec::new(),
        cumulative_count: 0,
        is_final: true,
    }
}

proof fn keeping_all_keeps(rows: Seq<StatementRow>)
    ensures
        rows.filter(kept_row(true)) == rows,
    decreases rows.len(),
{
    reveal(Seq::filter);
    if rows.len() > 0 {
        keeping_all_keeps(rows.drop_last());
        assert(rows.drop_last().push(rows.last()) =~= rows);
    } else {
        assert(rows.filter(kept_row(true)) =~= rows);
    }
}

/// What a page of a list shows.
pub open spec fn shows_list(
    r: Result<StatementListResponseFrame, OpError>,
    page: StatementPage,
    signature: [u8; 8],
    caller: RowScope,
) -> bool {
    match first_view_error(page.rows@) {
        Some(e) => fails(r, e),
        None => r matches Ok(f) && {
            &&& shows_all(f.items@, page.rows@)
            &&& f.cumulative_count == low32(page.rows@.len())
            &&& f.is_final
            &&& f.next_cursor@ == (if page.has_more && page.last is Some {
                statement_cursor_bytes(caller, signature@, page.last->0.id@)
            } else {
                Seq::<u8>::empty()
            })
        },
    }
}

/// Shows a page of the list, with a cursor for the next where there is more.
pub fn statement_list_frame(
    page: StatementPage,
    signature: &[u8; 8],
    caller: &RowScope,
) -> (r: Result<StatementListResponseFrame, OpError>)
    ensures
        shows_list(r, page, *signature, *caller),
{
    proof {
        keeping_all_keeps(page.rows@);
    }
    let items = match project_rows(page.rows, true) {
        Ok(v) => v,
        Err(e) => {
            return Err(e);
        },
    };
    let next_cursor = match page.last {
        Some(c) if page.has_more => encode_statement_cursor(*caller, signature, &c),
        _ => Vec::new(),
    };
    let cumulative_count: u32 = length_u32(items.len());
    Ok(StatementListResponseFrame { items, next_cursor, cumulative_count, is_final: true })
}

} // verus!
