//! From stored rows and fused hits to remembered memories.
use vstd::prelude::*;

use std::collections::HashMap;

use crate::bytes::{has_u128, has_u64};
use crate::error::{fails, ErrorView, OpError};
use crate::events::{has_kind, EdgeKindRef, MemoryKind, NodeRef};
use crate::ranking::{gather, gathered, is_selection};
use crate::recall::{
    EdgeView, GraphEnrichment, Lane, MemoryResult, RecallRequest, RECALL_CANDIDATE_POOL,
};
use crate::scope::{same_scope, RowScope};
use crate::single::{Double, Single, ONE_BITS};

verus! {

/// The text of a row as it was read: absent, text, or bytes that are no text,
/// with the message to answer then.
#[derive(Debug)]
pub enum TextRead {
    Absent,
    Text(String),
    Unreadable(String),
}

/// A stored memory. `kind` is `None` where the stored byte is no kind.
#[derive(Debug)]
pub struct MemoryRow {
    pub memory_id: u128,
    pub namespace_id: u32,
    pub space_id_bytes: [u8; 16],
    pub kind: Option<MemoryKind>,
    pub session_id: u64,
    pub tombstoned: bool,
    pub salience: Single,
    pub salience_initial: Single,
    pub created_at_unix_nanos: u64,
    pub last_accessed_at_unix_nanos: u64,
    pub access_count: u32,
    pub encoded_at_lsn: u64,
    pub flags: u32,
    pub consolidated_at_unix_nanos: Option<u64>,
    pub occurred_at_unix_nanos: Option<u64>,
    pub edges_out_count: u32,
    pub edges_in_count: u32,
    pub text: TextRead,
}

/// Whether the filters of a request let a memory of this kind, session,
/// salience and age through.
pub open spec fn filters_pass(
    req: RecallRequest,
    kind: MemoryKind,
    session_id: u64,
    salience: Single,
    created_at: u64,
) -> bool {
    &&& req.kind_filter matches Some(l) ==> l@.contains(kind)
    &&& req.session_filter matches Some(l) ==> l@.contains(session_id)
    &&& !salience.below(req.salience_floor)
    &&& req.age_bound_unix_nanos matches Some(bound) ==> created_at >= bound
}

/// Whether a row is live, in the caller's own namespace and space, of a known
/// kind, and passes the filters.
pub open spec fn row_passes(row: MemoryRow, req: RecallRequest, caller: RowScope) -> bool {
    &&& !row.tombstoned
    &&& row.namespace_id == caller.namespace_id
    &&& row.space_id_bytes == caller.space_id_bytes
    &&& row.kind matches Some(kind) && filters_pass(
        req,
        kind,
        row.session_id,
        row.salience,
        row.created_at_unix_nanos,
    )
}

pub fn passes_filters(
    req: &RecallRequest,
    kind: MemoryKind,
    session_id: u64,
    salience: Single,
    created_at: u64,
) -> (r: bool)
    ensures
        r == filters_pass(*req, kind, session_id, salience, created_at),
{
    if let Some(l) = &req.kind_filter {
        if !has_kind(l, kind) {
            return false;
        }
    }
    if let Some(l) = &req.session_filter {
        if !has_u64(l, session_id) {
            return false;
        }
    }
    if salience.is_below(req.salience_floor) {
        return false;
    }
    if let Some(bound) = &req.age_bound_unix_nanos {
        if created_at < *bound {
            return false;
        }
    }
    true
}

fn passes_row(row: &MemoryRow, req: &RecallRequest, caller: &RowScope) -> (r: bool)
    ensures
        r == row_passes(*row, *req, *caller),
{
    let here = RowScope { namespace_id: row.namespace_id, space_id_bytes: row.space_id_bytes };
    if row.tombstoned || !same_scope(&here, caller) {
        return false;
    }
    match row.kind {
        Some(kind) => passes_filters(
            req,
            kind,
            row.session_id,
            row.salience,
            row.created_at_unix_nanos,
        ),
        None => false,
    }
}

/// The fields of a memory that come from its row alone.
pub open spec fn carries_row(m: MemoryResult, row: MemoryRow) -> bool {
    &&& m.salience == row.salience
    &&& Some(m.kind) == row.kind
    &&& m.space_id == row.space_id_bytes
    &&& m.session_id == row.session_id
    &&& m.created_at_unix_nanos == row.created_at_unix_nanos
    &&& m.last_accessed_at_unix_nanos == row.last_accessed_at_unix_nanos
    &&& m.salience_initial == row.salience_initial
    &&& m.access_count == row.access_count
    &&& m.lsn == row.encoded_at_lsn
    &&& m.flags == row.flags
    &&& m.consolidated_at_unix_nanos == row.consolidated_at_unix_nanos
    &&& m.occurred_at_unix_nanos == row.occurred_at_unix_nanos
    &&& m.edges_out_count == row.edges_out_count
    &&& m.edges_in_count == row.edges_in_count
}

/// Whether reading the text of a row fails a request.
pub open spec fn text_fails(row: MemoryRow, req: RecallRequest) -> bool {
    req.include_text && row.text is Unreadable
}

/// The text that a request shows of a row.
pub open spec fn shown_text(row: MemoryRow, req: RecallRequest) -> Seq<char> {
    match row.text {
        TextRead::Text(t) if req.include_text => t@,
        _ => Seq::empty(),
    }
}

// Rows by id.

/// Whether a stored row may be answered.
pub open spec fn row_visible(
    row: Option<MemoryRow>,
    req: RecallRequest,
    caller: RowScope,
) -> bool {
    row matches Some(r) && row_passes(r, req, caller)
}

/// The test for visible rows.
pub open spec fn visible_test(req: RecallRequest, caller: RowScope) -> spec_fn(
    Option<MemoryRow>,
) -> bool {
    |row: Option<MemoryRow>| row_visible(row, req, caller)
}

/// The visible rows, in order.
pub open spec fn visible_rows(
    rows: Seq<Option<MemoryRow>>,
    req: RecallRequest,
    caller: RowScope,
) -> Seq<Option<MemoryRow>> {
    rows.filter(visible_test(req, caller))
}

/// A row answered on its own: an exact stored match in the graph lane.
pub open spec fn is_hydrated(m: MemoryResult, row: MemoryRow, req: RecallRequest) -> bool {
    let one = Single { bits: ONE_BITS };
    &&& carries_row(m, row)
    &&& m.memory_id == row.memory_id
    &&& m.text@ == shown_text(row, req)
    &&& m.similarity_score == one
    &&& m.confidence == one
    &&& m.fused_score == one
    &&& m.rerank_score is None
    &&& m.graph is None
    &&& m.contributing_retrievers@ == seq![Lane::Graph]
    &&& req.include_edges ==> (m.edges matches Some(e) && e@.len() == 0)
    &&& !req.include_edges ==> m.edges is None
}

/// The position of the first visible row whose text fails the request.
pub open spec fn first_text_failure(
    rows: Seq<Option<MemoryRow>>,
    req: RecallRequest,
    n: nat,
) -> Option<int>
    decreases n,
{
    if n == 0 {
        None
    } else {
        match first_text_failure(rows, req, (n - 1) as nat) {
            Some(i) => Some(i),
            None => if rows[n - 1] matches Some(r) && text_fails(r, req) {
                Some(n - 1)
            } else {
                None
            },
        }
    }
}

/// The message of a row whose text is unreadable.
pub open spec fn text_error(row: MemoryRow) -> ErrorView {
    match row.text {
        TextRead::Unreadable(m) => ErrorView::Internal(m@),
        _ => ErrorView::Internal(Seq::empty()),
    }
}

/// Answers stored rows, in the order they were asked for. Rows that are
/// missing, dead, foreign or filtered are left out.
pub fn hydrate_memories_by_id(
    rows: Vec<Option<MemoryRow>>,
    req: &RecallRequest,
    caller: &RowScope,
) -> (r: Result<Vec<MemoryResult>, OpError>)
    ensures
        ({
            let visible = visible_rows(rows@, *req, *caller);
            match first_text_failure(visible, *req, visible.len()) {
                Some(i) => fails(r, text_error(visible[i]->0)),
                None => r matches Ok(out) && out@.len() == visible.len() && forall|k: int|
                    #![trigger out@[k]]
                    0 <= k < out@.len() ==> is_hydrated(out@[k], visible[k]->0, *req),
            }
        }),
{
    let ghost all = rows@;
    let ghost test = visible_test(*req, *caller);
    let ghost visible = visible_rows(all, *req, *caller);
    let mut out: Vec<MemoryResult> = Vec::new();
    assert(all.take(0).filter(test) =~= Seq::empty()) by {
        reveal(Seq::filter);
    }
    for slot in it: rows
        invariant
            it.seq() == all,
            test == visible_test(*req, *caller),
            visible == all.filter(test),
            out@.len() == all.take(it.index()).filter(test).len(),
            first_text_failure(
                all.take(it.index()).filter(test),
                *req,
                all.take(it.index()).filter(test).len(),
            ) is None,
            forall|k: int|
                #![trigger out@[k]]
                0 <= k < out@.len() ==> is_hydrated(
                    out@[k],
                    all.take(it.index()).filter(test)[k]->0,
                    *req,
                ),
    {
        let ghost n = it.index();
        let ghost before = all.take(n).filter(test);
        proof {
            assert(all.take(n + 1).drop_last() =~= all.take(n));
            assert(all.take(n + 1).last() == slot);
            reveal(Seq::filter);
        }
        if let Some(row) = slot {
            if passes_row(&row, req, caller) {
                let ghost after = all.take(n + 1).filter(test);
                assert(after == before.push(Some(row)));
                let ghost whole_row = row;
                proof {
                    failure_agrees(after, before, *req, before.len());
                    assert((after.len() - 1) as nat == before.len());
                    assert(after[before.len() as int] == Some(whole_row));
                    assert(first_text_failure(after, *req, after.len()) == (if text_fails(
                        whole_row,
                        *req,
                    ) {
                        Some(before.len() as int)
                    } else {
                        None
                    }));
                    filter_prefix(all, test, n + 1);
                    failure_prefix(visible, after, *req);
                }
                let kind = match row.kind {
                    Some(k) => k,
                    None => MemoryKind::Episodic,
                };
                let text = if req.include_text {
                    match row.text {
                        TextRead::Text(t) => t,
                        TextRead::Absent => String::new(),
                        TextRead::Unreadable(m) => {
                            return Err(OpError::Internal(m));
                        },
                    }
                } else {
                    String::new()
                };
                let one = Single { bits: ONE_BITS };
                let mut lanes: Vec<Lane> = Vec::new();
                lanes.push(Lane::Graph);
                assert(lanes@ =~= seq![Lane::Graph]);
                let edges = if req.include_edges {
                    Some(Vec::new())
                } else {
                    None
                };
                out.push(
                    MemoryResult {
                        memory_id: row.memory_id,
                        text,
                        similarity_score: one,
                        confidence: one,
                        salience: row.salience,
                        kind,
                        space_id: row.space_id_bytes,
                        session_id: row.session_id,
                        created_at_unix_nanos: row.created_at_unix_nanos,
                        last_accessed_at_unix_nanos: row.last_accessed_at_unix_nanos,
                        edges,
                        graph: None,
                        contributing_retrievers: lanes,
                        fused_score: one,
                        rerank_score: None,
                        salience_initial: row.salience_initial,
                        access_count: row.access_count,
                        lsn: row.encoded_at_lsn,
                        flags: row.flags,
                        consolidated_at_unix_nanos: row.consolidated_at_unix_nanos,
                        occurred_at_unix_nanos: row.occurred_at_unix_nanos,
                        edges_out_count: row.edges_out_count,
                        edges_in_count: row.edges_in_count,
                    },
                );
            }
        }
    }
    assert(all.take(all.len() as int) =~= all);
    Ok(out)
}

proof fn failure_prefix(whole: Seq<Option<MemoryRow>>, part: Seq<Option<MemoryRow>>, req: RecallRequest)
    requires
        part.len() <= whole.len(),
        forall|k: int| 0 <= k < part.len() ==> whole[k] == part[k],
    ensures
        forall|n: nat| n <= part.len() ==> #[trigger] first_text_failure(whole, req, n)
            == first_text_failure(part, req, n),
        first_text_failure(part, req, part.len()) matches Some(i) ==> first_text_failure(
            whole,
            req,
            whole.len(),
        ) == Some(i),
{
    assert forall|n: nat| n <= part.len() implies #[trigger] first_text_failure(whole, req, n)
        == first_text_failure(part, req, n) by {
        failure_agrees(whole, part, req, n);
    }
    if let Some(i) = first_text_failure(part, req, part.len()) {
        failure_persists(whole, req, part.len(), whole.len(), i);
    }
}

proof fn failure_agrees(
    whole: Seq<Option<MemoryRow>>,
    part: Seq<Option<MemoryRow>>,
    req: RecallRequest,
    n: nat,
)
    requires
        n <= part.len() <= whole.len(),
        forall|k: int| 0 <= k < part.len() ==> whole[k] == part[k],
    ensures
        first_text_failure(whole, req, n) == first_text_failure(part, req, n),
    decreases n,
{
    if n > 0 {
        failure_agrees(whole, part, req, (n - 1) as nat);
    }
}

proof fn failure_persists(
    rows: Seq<Option<MemoryRow>>,
    req: RecallRequest,
    n: nat,
    m: nat,
    i: int,
)
    requires
        n <= m,
        first_text_failure(rows, req, n) == Some(i),
    ensures
        first_text_failure(rows, req, m) == Some(i),
    decreases m,
{
    if n < m {
        failure_persists(rows, req, n, (m - 1) as nat, i);
    }
}

proof fn filter_prefix<T>(s: Seq<T>, test: spec_fn(T) -> bool, n: int)
    requires
        0 <= n <= s.len(),
    ensures
        s.take(n).filter(test).len() <= s.filter(test).len(),
        forall|k: int|
            0 <= k < s.take(n).filter(test).len() ==> s.filter(test)[k] == s.take(n).filter(test)[k],
    decreases s.len() - n,
{
    if n < s.len() {
        filter_prefix(s, test, n + 1);
        reveal(Seq::filter);
        assert(s.take(n + 1).drop_last() =~= s.take(n));
    } else {
        assert(s.take(n) =~= s);
    }
}

/// No answered row is foreign, dead or filtered out.
pub proof fn hydration_never_leaks(
    rows: Seq<Option<MemoryRow>>,
    req: RecallRequest,
    caller: RowScope,
    k: int,
)
    requires
        0 <= k < visible_rows(rows, req, caller).len(),
    ensures
        visible_rows(rows, req, caller)[k] matches Some(r) && r.namespace_id == caller.namespace_id
            && r.space_id_bytes == caller.space_id_bytes && !r.tombstoned,
{
    broadcast use vstd::seq_lib::group_filter_ensures;

    let test = visible_test(req, caller);
    assert(test(rows.filter(test)[k]));
}

// Fused hits.

/// What a ranked hit is about.
#[derive(Clone, Copy, Debug, PartialEq, Eq)]
pub enum RankedItemId {
    Memory(u128),
    Statement([u8; 16]),
    Entity([u8; 16]),
    Relation([u8; 16]),
}

/// A lane's share in a fused hit.
#[derive(Clone, Copy, Debug)]
pub struct Contribution {
    pub retriever: Lane,
    pub raw_score: Single,
}

/// The inline evidence of a statement, or a reference to more.
#[derive(Debug)]
pub enum EvidenceMemories {
    Inline(Vec<u128>),
    Overflow,
}

/// What a statement hit needs of its statement.
#[derive(Debug)]
pub struct StatementEvidence {
    pub tombstoned: bool,
    pub evidence: EvidenceMemories,
}

/// An edge out of a memory, as stored.
#[derive(Clone, Copy, Debug)]
pub struct EdgeRow {
    pub kind: EdgeKindRef,
    pub to: NodeRef,
    pub weight: Single,
}

/// A fused hit, with what was read about it. `fused_score` orders hits;
/// `shown_score` is the same score in single precision.
#[derive(Debug)]
pub struct FusedItem {
    pub id: RankedItemId,
    pub contributing: Vec<Contribution>,
    pub fused_score: Double,
    pub shown_score: Single,
    pub rerank_score: Option<Single>,
    pub statement: Option<StatementEvidence>,
    pub row: Option<MemoryRow>,
    pub edges: Vec<EdgeRow>,
}

/// The memory that a statement rests on: the first inline evidence of a live
/// statement.
pub open spec fn evidence_memory(s: Option<StatementEvidence>) -> Option<u128> {
    match s {
        Some(e) if !e.tombstoned => match e.evidence {
            EvidenceMemories::Inline(v) if v@.len() > 0 => Some(v@[0]),
            _ => None,
        },
        _ => None,
    }
}

/// The memory that a statement rests on.
pub fn statement_evidence_memory(s: &Option<StatementEvidence>) -> (r: Option<u128>)
    ensures
        r == evidence_memory(*s),
{
    match s {
        Some(e) => {
            if e.tombstoned {
                return None;
            }
            match &e.evidence {
                EvidenceMemories::Inline(v) => if v.len() > 0 {
                    Some(v[0])
                } else {
                    None
                },
                EvidenceMemories::Overflow => None,
            }
        },
        None => None,
    }
}

/// The memory that a hit answers with: itself, or what a statement rests on.
pub open spec fn hit_memory(item: FusedItem) -> Option<u128> {
    match item.id {
        RankedItemId::Memory(id) => Some(id),
        RankedItemId::Statement(_) => evidence_memory(item.statement),
        _ => None,
    }
}

fn memory_of(item: &FusedItem) -> (r: Option<u128>)
    ensures
        r == hit_memory(*item),
{
    match item.id {
        RankedItemId::Memory(id) => Some(id),
        RankedItemId::Statement(_) => statement_evidence_memory(&item.statement),
        _ => None,
    }
}

/// The memories that hits name themselves.
pub open spec fn named_memories(items: Seq<FusedItem>) -> Seq<u128>
    decreases items.len(),
{
    if items.len() == 0 {
        Seq::empty()
    } else {
        let before = named_memories(items.drop_last());
        match items.last().id {
            RankedItemId::Memory(id) => before.push(id),
            _ => before,
        }
    }
}

/// The memories whose graphs are read: those that hits name themselves.
pub fn graph_ids(items: &Vec<FusedItem>) -> (r: Vec<u128>)
    ensures
        r@ == named_memories(items@),
{
    let mut out: Vec<u128> = Vec::new();
    for i in 0..items.len()
        invariant
            out@ == named_memories(items@.take(i as int)),
    {
        assert(items@.take(i + 1).drop_last() =~= items@.take(i as int));
        if let RankedItemId::Memory(id) = items[i].id {
            out.push(id);
        }
    }
    assert(items@.take(items@.len() as int) =~= items@);
    out
}

/// Whether no earlier hit answers with the same memory.
pub open spec fn first_mention(items: Seq<FusedItem>, i: int) -> bool {
    hit_memory(items[i]) matches Some(id) && forall|j: int|
        #![trigger items[j]]
        0 <= j < i ==> hit_memory(items[j]) != Some(id)
}

/// Whether a hit is answered: it is the first with its memory, and the row
/// passes.
pub open spec fn hit_answers(
    items: Seq<FusedItem>,
    i: int,
    req: RecallRequest,
    caller: RowScope,
) -> bool {
    &&& first_mention(items, i)
    &&& items[i].row matches Some(row) && row_passes(row, req, caller)
}

/// The hits that are answered, of the first `n`, up to the pool size.
pub open spec fn answered(
    items: Seq<FusedItem>,
    req: RecallRequest,
    caller: RowScope,
    n: nat,
) -> Seq<usize>
    decreases n,
{
    if n == 0 {
        Seq::empty()
    } else {
        let before = answered(items, req, caller, (n - 1) as nat);
        if before.len() < RECALL_CANDIDATE_POOL && hit_answers(items, n - 1, req, caller) {
            before.push((n - 1) as usize)
        } else {
            before
        }
    }
}

/// The score of the semantic lane, 0 where it did not contribute.
pub open spec fn semantic_score(c: Seq<Contribution>) -> Single
    decreases c.len(),
{
    if c.len() == 0 {
        Single { bits: 0 }
    } else if c[0].retriever == Lane::Semantic {
        c[0].raw_score
    } else {
        semantic_score(c.skip(1))
    }
}

/// The built-in edges to memories.
pub open spec fn edge_views(rows: Seq<EdgeRow>) -> Seq<EdgeView>
    decreases rows.len(),
{
    if rows.len() == 0 {
        Seq::empty()
    } else {
        let before = edge_views(rows.drop_last());
        match (rows.last().kind, rows.last().to) {
            (EdgeKindRef::Builtin(kind), NodeRef::Memory(target)) => before.push(
                EdgeView { target, kind, weight: rows.last().weight },
            ),
            _ => before,
        }
    }
}

/// The lanes of a hit.
pub open spec fn lanes_of(c: Seq<Contribution>) -> Seq<Lane> {
    c.map_values(|x: Contribution| x.retriever)
}

/// A hit answered with its memory.
pub open spec fn is_projected(
    m: MemoryResult,
    item: FusedItem,
    req: RecallRequest,
    graphs: Map<u128, GraphEnrichment>,
) -> bool {
    let row = item.row->0;
    let id = hit_memory(item)->0;
    let score = semantic_score(item.contributing@);
    &&& carries_row(m, row)
    &&& m.memory_id == id
    &&& m.text@ == shown_text(row, req)
    &&& m.similarity_score == score
    &&& m.confidence == score
    &&& m.fused_score == item.shown_score
    &&& m.rerank_score == item.rerank_score
    &&& m.contributing_retrievers@ == lanes_of(item.contributing@)
    &&& req.include_edges ==> (m.edges matches Some(e) && e@ == edge_views(item.edges@))
    &&& !req.include_edges ==> m.edges is None
    &&& m.graph == (if graphs.dom().contains(id) {
        Some(graphs[id])
    } else {
        None
    })
}

/// The rows of the answered hits.
pub open spec fn answered_rows(items: Seq<FusedItem>, picks: Seq<usize>) -> Seq<
    Option<MemoryRow>,
> {
    picks.map_values(|i: usize| items[i as int].row)
}

fn semantic_of(c: &Vec<Contribution>) -> (r: Single)
    ensures
        r == semantic_score(c@),
{
    let mut i: usize = 0;
    assert(c@.skip(0) =~= c@);
    while i < c.len()
        invariant
            i <= c@.len(),
            semantic_score(c@) == semantic_score(c@.skip(i as int)),
        decreases c@.len() - i,
    {
        if c[i].retriever == Lane::Semantic {
            return c[i].raw_score;
        }
        assert(c@.skip(i as int).skip(1) =~= c@.skip(i + 1));
        i = i + 1;
    }
    Single { bits: 0 }
}

fn lane_list(c: &Vec<Contribution>) -> (r: Vec<Lane>)
    ensures
        r@ == lanes_of(c@),
{
    let mut out: Vec<Lane> = Vec::new();
    for i in 0..c.len()
        invariant
            out@ == lanes_of(c@.take(i as int)),
    {
        out.push(c[i].retriever);
        assert(lanes_of(c@.take(i + 1)) =~= lanes_of(c@.take(i as int)).push(
            c@[i as int].retriever,
        ));
    }
    assert(c@.take(c@.len() as int) =~= c@);
    out
}

fn view_edges(rows: &Vec<EdgeRow>) -> (r: Vec<EdgeView>)
    ensures
        r@ == edge_views(rows@),
{
    let mut out: Vec<EdgeView> = Vec::new();
    for i in 0..rows.len()
        invariant
            out@ == edge_views(rows@.take(i as int)),
    {
        assert(rows@.take(i + 1).drop_last() =~= rows@.take(i as int));
        let row = rows[i];
        if let EdgeKindRef::Builtin(kind) = row.kind {
            if let NodeRef::Memory(target) = row.to {
                out.push(EdgeView { target, kind, weight: row.weight });
            }
        }
    }
    assert(rows@.take(rows@.len() as int) =~= rows@);
    out
}

fn pick_answered(items: &Vec<FusedItem>, req: &RecallRequest, caller: &RowScope) -> (r: Vec<usize>)
    ensures
        r@ == answered(items@, *req, *caller, items@.len()),
        is_selection(r@, items@.len()),
        forall|k: int|
            #![trigger r@[k]]
            0 <= k < r@.len() ==> hit_answers(items@, r@[k] as int, *req, *caller),
{
    let mut seen: Vec<u128> = Vec::new();
    let mut out: Vec<usize> = Vec::new();
    for i in 0..items.len()
        invariant
            out@ == answered(items@, *req, *caller, i as nat),
            is_selection(out@, i as nat),
            forall|k: int|
                #![trigger out@[k]]
                0 <= k < out@.len() ==> hit_answers(items@, out@[k] as int, *req, *caller),
            forall|id: u128| #[trigger]
                seen@.contains(id) <==> exists|j: int|
                    #![trigger items@[j]]
                    0 <= j < i && hit_memory(items@[j]) == Some(id),
    {
        if let Some(id) = memory_of(&items[i]) {
            let fresh = !has_u128(&seen, id);
            proof {
                if !fresh {
                    let j = choose|j: int|
                        #![trigger items@[j]]
                        0 <= j < i && hit_memory(items@[j]) == Some(id);
                    assert(!first_mention(items@, i as int));
                } else {
                    assert(first_mention(items@, i as int));
                }
            }
            let ghost before = seen@;
            seen.push(id);
            proof {
                assert forall|x: u128| #[trigger] seen@.contains(x) <==> exists|j: int|
                    #![trigger items@[j]]
                    0 <= j < i + 1 && hit_memory(items@[j]) == Some(x) by {
                    if seen@.contains(x) {
                        let k = choose|k: int| 0 <= k < seen@.len() && seen@[k] == x;
                        if k < before.len() {
                            assert(before[k] == x);
                            assert(before.contains(x));
                            let j = choose|j: int|
                                #![trigger items@[j]]
                                0 <= j < i && hit_memory(items@[j]) == Some(x);
                            assert(hit_memory(items@[j]) == Some(x));
                        } else {
                            assert(hit_memory(items@[i as int]) == Some(x));
                        }
                    }
                    if exists|j: int|
                        #![trigger items@[j]]
                        0 <= j < i + 1 && hit_memory(items@[j]) == Some(x) {
                        let j = choose|j: int|
                            #![trigger items@[j]]
                            0 <= j < i + 1 && hit_memory(items@[j]) == Some(x);
                        if j < i {
                            assert(before.contains(x));
                            let k = choose|k: int| 0 <= k < before.len() && before[k] == x;
                            assert(seen@[k] == x);
                        } else {
                            assert(seen@[before.len() as int] == x);
                        }
                    }
                }
            }
            if fresh && out.len() < RECALL_CANDIDATE_POOL as usize {
                if let Some(row) = &items[i].row {
                    if passes_row(row, req, caller) {
                        out.push(i);
                    }
                }
            }
        }
    }
    out
}

fn project_item(item: FusedItem, req: &RecallRequest, id: u128, graph: Option<GraphEnrichment>) -> (r:
    Result<MemoryResult, OpError>)
    requires
        hit_memory(item) == Some(id),
        item.row matches Some(row) && row.kind is Some,
    ensures
        text_fails(item.row->0, *req) ==> fails(r, text_error(item.row->0)),
        !text_fails(item.row->0, *req) ==> (r matches Ok(m) && m.graph == graph && is_projected(
            m,
            item,
            *req,
            match graph {
                Some(g) => Map::empty().insert(id, g),
                None => Map::empty(),
            },
        )),
{
    let score = semantic_of(&item.contributing);
    let lanes = lane_list(&item.contributing);
    let edges = if req.include_edges {
        Some(view_edges(&item.edges))
    } else {
        None
    };
    let row = match item.row {
        Some(row) => row,
        None => {
            return Err(OpError::Internal(String::new()));
        },
    };
    let kind = match row.kind {
        Some(k) => k,
        None => MemoryKind::Episodic,
    };
    let text = if req.include_text {
        match row.text {
            TextRead::Text(t) => t,
            TextRead::Absent => String::new(),
            TextRead::Unreadable(m) => {
                return Err(OpError::Internal(m));
            },
        }
    } else {
        String::new()
    };
    Ok(
        MemoryResult {
            memory_id: id,
            text,
            similarity_score: score,
            confidence: score,
            salience: row.salience,
            kind,
            space_id: row.space_id_bytes,
            session_id: row.session_id,
            created_at_unix_nanos: row.created_at_unix_nanos,
            last_accessed_at_unix_nanos: row.last_accessed_at_unix_nanos,
            edges,
            graph,
            contributing_retrievers: lanes,
            fused_score: item.shown_score,
            rerank_score: item.rerank_score,
            salience_initial: row.salience_initial,
            access_count: row.access_count,
            lsn: row.encoded_at_lsn,
            flags: row.flags,
            consolidated_at_unix_nanos: row.consolidated_at_unix_nanos,
            occurred_at_unix_nanos: row.occurred_at_unix_nanos,
            edges_out_count: row.edges_out_count,
            edges_in_count: row.edges_in_count,
        },
    )
}

/// Answers fused hits with memories. A statement hit answers with the memory
/// it rests on; a memory is answered once, where it ranks first; rows that
/// are missing, dead, foreign or filtered are left out. `graphs` holds the
/// enrichment of the memory hits, where the request asked for it.
pub fn project_memory_results(
    items: Vec<FusedItem>,
    graphs: HashMap<u128, GraphEnrichment>,
    req: &RecallRequest,
    caller: &RowScope,
) -> (r: Result<Vec<MemoryResult>, OpError>)
    ensures
        ({
            let picks = answered(items@, *req, *caller, items@.len());
            let rows = answered_rows(items@, picks);
            match first_text_failure(rows, *req, rows.len()) {
                Some(i) => fails(r, text_error(rows[i]->0)),
                None => r matches Ok(out) && out@.len() == picks.len() && forall|k: int|
                    #![trigger out@[k]]
                    0 <= k < out@.len() ==> is_projected(
                        out@[k],
                        items@[picks[k] as int],
                        *req,
                        graphs@,
                    ),
            }
        }),
{
    broadcast use vstd::std_specs::hash::group_hash_axioms;

    let ghost all = items@;
    let ghost given = graphs@;
    let picks = pick_answered(&items, req, caller);
    let ghost rows = answered_rows(all, picks@);
    let mut graphs = graphs;
    let chosen = gather(items, &picks);
    let ghost list = chosen@;
    let mut out: Vec<MemoryResult> = Vec::new();
    for item in it: chosen
        invariant
            all == items@,
            it.seq() == list,
            list == gathered(all, picks@),
            rows == answered_rows(all, picks@),
            picks@ == answered(all, *req, *caller, all.len()),
            is_selection(picks@, all.len()),
            forall|k: int|
                #![trigger picks@[k]]
                0 <= k < picks@.len() ==> hit_answers(all, picks@[k] as int, *req, *caller),
            out@.len() == it.index(),
            first_text_failure(rows, *req, it.index() as nat) is None,
            forall|k: int|
                #![trigger out@[k]]
                0 <= k < out@.len() ==> is_projected(
                    out@[k],
                    all[picks@[k] as int],
                    *req,
                    given,
                ),
            forall|id: u128|
                #![trigger graphs@.dom().contains(id)]
                #![trigger given.dom().contains(id)]
                (forall|k: int|
                    #![trigger picks@[k]]
                    0 <= k < it.index() ==> hit_memory(all[picks@[k] as int]) != Some(id)) ==> (
                graphs@.dom().contains(id) == given.dom().contains(id) && graphs@[id]
                    == given[id]),
    {
        let ghost n = it.index();
        assert(item == all[picks@[n] as int]);
        assert(hit_answers(all, picks@[n] as int, *req, *caller));
        if let Some(id) = memory_of(&item) {
            proof {
                assert forall|k: int| #![trigger picks@[k]] 0 <= k < n implies hit_memory(
                    all[picks@[k] as int],
                ) != Some(id) by {
                    let a = picks@[k] as int;
                    let b = picks@[n] as int;
                    if hit_memory(all[a]) == Some(id) {
                        if a < b {
                            assert(first_mention(all, b));
                        } else if b < a {
                            assert(first_mention(all, a));
                            assert(hit_memory(all[b]) == Some(id));
                        }
                    }
                }
                assert(graphs@.dom().contains(id) == given.dom().contains(id));
            }
            let ghost had = graphs@;
            let graph = graphs.remove(&id);
            assert(rows[n] == item.row);
            let ghost whole = item;
            match project_item(item, req, id, graph) {
                Ok(m) => {
                    out.push(m);
                    proof {
                        assert((n + 1 - 1) as nat == n as nat);
                        assert(first_text_failure(rows, *req, (n + 1) as nat) is None);
                        assert forall|x: u128|
                            #![trigger graphs@.dom().contains(x)]
                            (forall|k: int|
                                #![trigger picks@[k]]
                                0 <= k < n + 1 ==> hit_memory(all[picks@[k] as int]) != Some(x)) implies (
                        graphs@.dom().contains(x) == given.dom().contains(x) && graphs@[x]
                            == given[x]) by {
                            assert(hit_memory(all[picks@[n] as int]) != Some(x));
                            assert(had.dom().contains(x) == given.dom().contains(x));
                        }
                    }
                },
                Err(e) => {
                    proof {
                        assert(rows[n] == whole.row);
                        assert(text_fails(whole.row->0, *req));
                        assert(e@ == text_error(whole.row->0));
                        assert((n + 1 - 1) as nat == n as nat);
                        assert(first_text_failure(rows, *req, (n + 1) as nat) == Some(n as int));
                        failure_persists(rows, *req, (n + 1) as nat, rows.len(), n as int);
                    }
                    return Err(e);
                },
            }
        }
    }
    Ok(out)
}

proof fn answered_facts(
    items: Seq<FusedItem>,
    req: RecallRequest,
    caller: RowScope,
    n: nat,
    k: int,
)
    requires
        n <= items.len() <= usize::MAX,
        0 <= k < answered(items, req, caller, n).len(),
    ensures
        answered(items, req, caller, n)[k] < n,
        hit_answers(items, answered(items, req, caller, n)[k] as int, req, caller),
    decreases n,
{
    let before = answered(items, req, caller, (n - 1) as nat);
    if k < before.len() {
        answered_facts(items, req, caller, (n - 1) as nat, k);
    }
}

/// No memory of another namespace or space is ever answered, whichever lane
/// found it.
pub proof fn projection_never_leaves_the_scope(
    items: Seq<FusedItem>,
    req: RecallRequest,
    caller: RowScope,
    k: int,
)
    requires
        items.len() <= usize::MAX,
        0 <= k < answered(items, req, caller, items.len()).len(),
    ensures
        items[answered(items, req, caller, items.len())[k] as int].row matches Some(row)
            && row.namespace_id == caller.namespace_id && row.space_id_bytes
            == caller.space_id_bytes && !row.tombstoned,
{
    answered_facts(items, req, caller, items.len(), k);
}

} // verus!
