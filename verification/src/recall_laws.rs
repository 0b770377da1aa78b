//! What a recall answers, of what is stored, for what is asked.
use vstd::prelude::*;

use crate::events::MemoryKind;
use crate::projection::{
    answered, edge_views, filters_pass, first_mention, hit_answers, hit_memory, is_hydrated,
    is_projected, lanes_of, named_memories, row_passes, semantic_score, text_fails, visible_rows,
    visible_test, Contribution, EdgeRow, EvidenceMemories, FusedItem, MemoryRow, RankedItemId,
    TextRead,
};
use crate::recall::{
    EdgeView, GraphEnrichment, Lane, MemoryResult, RecallRequest, RECALL_CANDIDATE_POOL,
};
use crate::scope::RowScope;
use crate::single::Single;

verus! {

// The filters.

/// A session list narrows a recall to its sessions and does nothing else: a
/// memory of a listed session is answered exactly where it is answered without
/// the list, and a memory of any other session never is.
pub proof fn session_lists_admit_their_sessions(
    req: RecallRequest,
    sessions: Vec<u64>,
    kind: MemoryKind,
    session_id: u64,
    salience: Single,
    created_at: u64,
)
    requires
        req.session_filter is None,
    ensures
        ({
            let listed = RecallRequest { session_filter: Some(sessions), ..req };
            &&& sessions@.contains(session_id) ==> filters_pass(
                listed,
                kind,
                session_id,
                salience,
                created_at,
            ) == filters_pass(req, kind, session_id, salience, created_at)
            &&& !sessions@.contains(session_id) ==> !filters_pass(
                listed,
                kind,
                session_id,
                salience,
                created_at,
            )
        }),
{
}

/// A kind list narrows a recall to its kinds and does nothing else.
pub proof fn kind_lists_admit_their_kinds(
    req: RecallRequest,
    kinds: Vec<MemoryKind>,
    kind: MemoryKind,
    session_id: u64,
    salience: Single,
    created_at: u64,
)
    requires
        req.kind_filter is None,
    ensures
        ({
            let listed = RecallRequest { kind_filter: Some(kinds), ..req };
            &&& kinds@.contains(kind) ==> filters_pass(
                listed,
                kind,
                session_id,
                salience,
                created_at,
            ) == filters_pass(req, kind, session_id, salience, created_at)
            &&& !kinds@.contains(kind) ==> !filters_pass(
                listed,
                kind,
                session_id,
                salience,
                created_at,
            )
        }),
{
}

/// An age bound drops what was created before it and nothing else.
pub proof fn age_bounds_drop_what_is_older(
    req: RecallRequest,
    bound: u64,
    kind: MemoryKind,
    session_id: u64,
    salience: Single,
    created_at: u64,
)
    requires
        req.age_bound_unix_nanos is None,
    ensures
        ({
            let bounded = RecallRequest { age_bound_unix_nanos: Some(bound), ..req };
            &&& created_at >= bound ==> filters_pass(
                bounded,
                kind,
                session_id,
                salience,
                created_at,
            ) == filters_pass(req, kind, session_id, salience, created_at)
            &&& created_at < bound ==> !filters_pass(
                bounded,
                kind,
                session_id,
                salience,
                created_at,
            )
        }),
{
}

/// A salience floor drops what lies below it and nothing else: what passes at
/// one floor passes at every lower one, and without lists and bounds a memory
/// at or above the floor passes.
pub proof fn salience_floors_drop_what_is_below(
    req: RecallRequest,
    kind: MemoryKind,
    session_id: u64,
    salience: Single,
    created_at: u64,
)
    requires
        !salience.nan(),
        !req.salience_floor.nan(),
    ensures
        salience.key() < req.salience_floor.key() ==> !filters_pass(
            req,
            kind,
            session_id,
            salience,
            created_at,
        ),
        forall|lower: Single|
            !lower.nan() && lower.key() <= req.salience_floor.key() && filters_pass(
                req,
                kind,
                session_id,
                salience,
                created_at,
            ) ==> filters_pass(
                #[trigger] with_floor(req, lower),
                kind,
                session_id,
                salience,
                created_at,
            ),
        req.salience_floor.key() <= salience.key() && req.session_filter is None
            && req.kind_filter is None && req.age_bound_unix_nanos is None ==> filters_pass(
            req,
            kind,
            session_id,
            salience,
            created_at,
        ),
{
}

/// A request with another salience floor.
pub open spec fn with_floor(req: RecallRequest, floor: Single) -> RecallRequest {
    RecallRequest { salience_floor: floor, ..req }
}

// Rows by id.

/// Whether a row is the caller's own, live and of a known kind.
pub open spec fn is_live_and_own(row: MemoryRow, caller: RowScope) -> bool {
    &&& row.tombstoned == false
    &&& (RowScope { namespace_id: row.namespace_id, space_id_bytes: row.space_id_bytes }) == caller
    &&& row.kind != None::<MemoryKind>
}

/// Every live row of the caller's own that the filters let through is answered,
/// whatever stands around it, and no row but those is.
pub proof fn own_rows_are_answered(
    rows: Seq<Option<MemoryRow>>,
    req: RecallRequest,
    caller: RowScope,
    row: MemoryRow,
)
    requires
        rows.contains(Some(row)),
    ensures
        visible_rows(rows, req, caller).contains(Some(row)) <==> is_live_and_own(row, caller)
            && filters_pass(
            req,
            row.kind->0,
            row.session_id,
            row.salience,
            row.created_at_unix_nanos,
        ),
        visible_rows(rows, req, caller).len() <= rows.len(),
{
    broadcast use vstd::seq_lib::group_filter_ensures;

    let test = visible_test(req, caller);
    let i = choose|i: int| 0 <= i < rows.len() && rows[i] == Some(row);
    if test(rows[i]) {
        assert(rows.filter(test).contains(rows[i]));
    }
    let shown = rows.filter(test);
    if shown.contains(Some(row)) {
        let k = choose|k: int| 0 <= k < shown.len() && shown[k] == Some(row);
        assert(test(shown[k]));
    }
}

/// A memory that is answered from its row tells the row: its id, when it was
/// made, where it belongs and what it says, with the score of an exact match.
pub proof fn hydrated_memories_tell_their_rows(m: MemoryResult, row: MemoryRow, req: RecallRequest)
    requires
        is_hydrated(m, row, req),
    ensures
        m.memory_id == row.memory_id,
        tells_row(m, row),
        tells_text(m, row, req),
        m.confidence.bits == 0x3F80_0000 && m.similarity_score.bits == 0x3F80_0000
            && m.fused_score.bits == 0x3F80_0000,
        m.contributing_retrievers@.len() == 1 && m.contributing_retrievers@[0] == Lane::Graph,
        m.edges is Some <==> req.include_edges,
        m.graph is None && m.rerank_score is None,
{
}

/// What a memory tells of its row.
pub open spec fn tells_row(m: MemoryResult, row: MemoryRow) -> bool {
    &&& (m.session_id, m.space_id) == (row.session_id, row.space_id_bytes)
    &&& row.kind == Some(m.kind)
    &&& (m.salience, m.salience_initial) == (row.salience, row.salience_initial)
    &&& (m.created_at_unix_nanos, m.occurred_at_unix_nanos) == (
        row.created_at_unix_nanos,
        row.occurred_at_unix_nanos,
    )
    &&& (m.last_accessed_at_unix_nanos, m.access_count) == (
        row.last_accessed_at_unix_nanos,
        row.access_count,
    )
    &&& (m.lsn, m.flags, m.consolidated_at_unix_nanos) == (
        row.encoded_at_lsn,
        row.flags,
        row.consolidated_at_unix_nanos,
    )
    &&& (m.edges_out_count, m.edges_in_count) == (row.edges_out_count, row.edges_in_count)
}

/// What a memory says of its row: the stored text where text is asked for, and
/// nothing where it is not.
pub open spec fn tells_text(m: MemoryResult, row: MemoryRow, req: RecallRequest) -> bool {
    &&& !req.include_text ==> m.text@.len() == 0
    &&& req.include_text ==> (row.text matches TextRead::Text(t) ==> m.text@ == t@)
    &&& row.text is Absent ==> m.text@.len() == 0
}

/// A row fails a request only where its text is asked for and cannot be read.
pub proof fn only_unreadable_text_fails(row: MemoryRow, req: RecallRequest)
    ensures
        row.text is Unreadable && req.include_text ==> text_fails(row, req),
        row.text is Text || row.text is Absent || !req.include_text ==> !text_fails(row, req),
{
}

// Fused hits.

/// A memory hit answers with the memory it names; a statement hit with the
/// first memory that a live statement has in its evidence, if it has one; no
/// other hit answers.
pub proof fn hits_answer_with_their_memory(item: FusedItem)
    ensures
        item.id matches RankedItemId::Memory(id) ==> hit_memory(item) == Some(id),
        item.id is Entity || item.id is Relation ==> hit_memory(item) is None,
        item.id is Statement && item.statement is None ==> hit_memory(item) is None,
        item.id is Statement ==> (item.statement matches Some(s) ==> {
            &&& s.tombstoned ==> hit_memory(item) is None
            &&& s.evidence is Overflow ==> hit_memory(item) is None
            &&& !s.tombstoned ==> (s.evidence matches EvidenceMemories::Inline(v)
                ==> if v@.len() == 0 {
                hit_memory(item) is None
            } else {
                hit_memory(item) == Some(v@.first())
            })
        }),
{
}

proof fn answered_are_ordered(items: Seq<FusedItem>, req: RecallRequest, caller: RowScope, n: nat)
    requires
        n <= items.len() <= usize::MAX,
    ensures
        forall|k: int|
            #![trigger answered(items, req, caller, n)[k]]
            0 <= k < answered(items, req, caller, n).len() ==> answered(items, req, caller, n)[k]
                < n && hit_answers(items, answered(items, req, caller, n)[k] as int, req, caller),
        forall|a: int, b: int|
            #![trigger answered(items, req, caller, n)[a], answered(items, req, caller, n)[b]]
            0 <= a < b < answered(items, req, caller, n).len() ==> answered(
                items,
                req,
                caller,
                n,
            )[a] < answered(items, req, caller, n)[b],
        answered(items, req, caller, n).len() <= n,
        n <= RECALL_CANDIDATE_POOL ==> forall|i: int|
            0 <= i < n && #[trigger] hit_answers(items, i, req, caller) ==> answered(
                items,
                req,
                caller,
                n,
            ).contains(i as usize),
    decreases n,
{
    if n > 0 {
        let m = (n - 1) as nat;
        answered_are_ordered(items, req, caller, m);
        let before = answered(items, req, caller, m);
        let after = answered(items, req, caller, n);
        assert forall|i: int|
            n <= RECALL_CANDIDATE_POOL && 0 <= i < n && #[trigger] hit_answers(
                items,
                i,
                req,
                caller,
            ) implies after.contains(i as usize) by {
            if i < m {
                assert(before.contains(i as usize));
                let k = choose|k: int| 0 <= k < before.len() && before[k] == i as usize;
                assert(after[k] == i as usize);
            } else {
                assert(after[before.len() as int] == m as usize);
            }
        }
    }
}

/// Of a pool of hits, every hit whose memory no earlier hit answers with and
/// whose row is live, the caller's own and let through by the filters is
/// answered; hits keep their order, and no memory is answered twice.
pub proof fn passing_hits_are_answered(
    items: Seq<FusedItem>,
    req: RecallRequest,
    caller: RowScope,
    i: int,
)
    requires
        items.len() <= RECALL_CANDIDATE_POOL,
        0 <= i < items.len(),
    ensures
        ({
            let picks = answered(items, req, caller, items.len());
            &&& picks.contains(i as usize) <==> {
                &&& hit_memory(items[i]) is Some
                &&& forall|j: int|
                    #![trigger items[j]]
                    0 <= j < i ==> hit_memory(items[j]) != hit_memory(items[i])
                &&& items[i].row matches Some(row) && is_live_and_own(row, caller)
                    && filters_pass(
                    req,
                    row.kind->0,
                    row.session_id,
                    row.salience,
                    row.created_at_unix_nanos,
                )
            }
            &&& forall|a: int, b: int|
                #![trigger picks[a], picks[b]]
                0 <= a < b < picks.len() ==> picks[a] < picks[b] && hit_memory(
                    items[picks[a] as int],
                ) != hit_memory(items[picks[b] as int])
        }),
{
    let n = items.len();
    answered_are_ordered(items, req, caller, n);
    let picks = answered(items, req, caller, n);
    if picks.contains(i as usize) {
        let k = choose|k: int| 0 <= k < picks.len() && picks[k] == i as usize;
        assert(hit_answers(items, picks[k] as int, req, caller));
        assert(picks[k] as int == i);
        assert(first_mention(items, i));
    }
    if hit_memory(items[i]) is Some && (forall|j: int|
        #![trigger items[j]]
        0 <= j < i ==> hit_memory(items[j]) != hit_memory(items[i])) {
        assert(first_mention(items, i));
        if items[i].row matches Some(row) && row_passes(row, req, caller) {
            assert(hit_answers(items, i, req, caller));
            assert(picks.contains(i as usize));
        }
    }
    assert forall|a: int, b: int|
        #![trigger picks[a], picks[b]]
        0 <= a < b < picks.len() implies picks[a] < picks[b] && hit_memory(
        items[picks[a] as int],
    ) != hit_memory(items[picks[b] as int]) by {
        assert(first_mention(items, picks[b] as int));
        assert(hit_answers(items, picks[a] as int, req, caller));
    }
}

proof fn semantic_score_is_the_first(c: Seq<Contribution>, k: int)
    requires
        0 <= k < c.len(),
        c[k].retriever == Lane::Semantic,
        forall|j: int| 0 <= j < k ==> (#[trigger] c[j]).retriever != Lane::Semantic,
    ensures
        semantic_score(c) == c[k].raw_score,
    decreases c.len(),
{
    if k > 0 {
        assert(c[0].retriever != Lane::Semantic);
        assert forall|j: int| 0 <= j < k - 1 implies (#[trigger] c.skip(1)[j]).retriever
            != Lane::Semantic by {
            assert(c[j + 1].retriever != Lane::Semantic);
        }
        semantic_score_is_the_first(c.skip(1), k - 1);
    }
}

proof fn no_semantic_score(c: Seq<Contribution>)
    requires
        forall|j: int| 0 <= j < c.len() ==> (#[trigger] c[j]).retriever != Lane::Semantic,
    ensures
        semantic_score(c).bits == 0,
    decreases c.len(),
{
    if c.len() > 0 {
        assert(c[0].retriever != Lane::Semantic);
        assert forall|j: int| 0 <= j < c.len() - 1 implies (#[trigger] c.skip(1)[j]).retriever
            != Lane::Semantic by {
            assert(c[j + 1].retriever != Lane::Semantic);
        }
        no_semantic_score(c.skip(1));
    }
}

/// A memory that a hit is answered with tells the hit and its row: the memory
/// of the hit, the raw score of the semantic lane as similarity and confidence,
/// the fused and the rerank score, and every lane that found it.
pub proof fn projected_memories_tell_their_hits(
    m: MemoryResult,
    item: FusedItem,
    req: RecallRequest,
    graphs: Map<u128, GraphEnrichment>,
)
    requires
        is_projected(m, item, req, graphs),
        item.row is Some,
        hit_memory(item) is Some,
    ensures
        hit_memory(item) == Some(m.memory_id),
        tells_row(m, item.row->0),
        tells_text(m, item.row->0, req),
        m.confidence == m.similarity_score,
        forall|k: int|
            0 <= k < item.contributing@.len() && (#[trigger] item.contributing@[k]).retriever
                == Lane::Semantic && (forall|j: int|
                0 <= j < k ==> (#[trigger] item.contributing@[j]).retriever != Lane::Semantic)
                ==> m.similarity_score == item.contributing@[k].raw_score,
        (forall|j: int|
            0 <= j < item.contributing@.len() ==> (#[trigger] item.contributing@[j]).retriever
                != Lane::Semantic) ==> m.similarity_score.bits == 0,
        (m.fused_score, m.rerank_score) == (item.shown_score, item.rerank_score),
        m.contributing_retrievers@.len() == item.contributing@.len(),
        forall|k: int|
            0 <= k < item.contributing@.len() ==> m.contributing_retrievers@[k] == (
            #[trigger] item.contributing@[k]).retriever,
        m.edges is Some <==> req.include_edges,
        graphs.dom().contains(m.memory_id) ==> m.graph == Some(graphs[m.memory_id]),
        !graphs.dom().contains(m.memory_id) ==> m.graph is None,
{
    let c = item.contributing@;
    assert forall|k: int|
        0 <= k < c.len() && (#[trigger] c[k]).retriever == Lane::Semantic && (forall|j: int|
            0 <= j < k ==> (#[trigger] c[j]).retriever != Lane::Semantic) implies m.similarity_score
        == c[k].raw_score by {
        semantic_score_is_the_first(c, k);
    }
    if forall|j: int| 0 <= j < c.len() ==> (#[trigger] c[j]).retriever != Lane::Semantic {
        no_semantic_score(c);
    }
    assert forall|k: int| 0 <= k < c.len() implies m.contributing_retrievers@[k] == (
    #[trigger] c[k]).retriever by {
        assert(lanes_of(c)[k] == c[k].retriever);
    }
}

/// The edges shown of a memory are its stored built-in edges to memories, each
/// with its kind and weight: every such edge is shown, and nothing else.
pub proof fn built_in_edges_are_shown(rows: Seq<EdgeRow>, e: EdgeView)
    ensures
        edge_views(rows).contains(e) <==> exists|i: int|
            0 <= i < rows.len() && (#[trigger] rows[i]).kind == crate::events::EdgeKindRef::Builtin(
                e.kind,
            ) && rows[i].to == crate::events::NodeRef::Memory(e.target) && rows[i].weight
                == e.weight,
        edge_views(rows).len() <= rows.len(),
    decreases rows.len(),
{
    if rows.len() > 0 {
        let front = rows.drop_last();
        built_in_edges_are_shown(front, e);
        let before = edge_views(front);
        let all = edge_views(rows);
        if before.contains(e) {
            let i = choose|i: int|
                0 <= i < front.len() && (#[trigger] front[i]).kind
                    == crate::events::EdgeKindRef::Builtin(e.kind) && front[i].to
                    == crate::events::NodeRef::Memory(e.target) && front[i].weight == e.weight;
            assert(rows[i] == front[i]);
            let k = choose|k: int| 0 <= k < before.len() && before[k] == e;
            assert(all[k] == e);
        }
        if all.contains(e) && !before.contains(e) {
            let k = choose|k: int| 0 <= k < all.len() && all[k] == e;
            if k < before.len() {
                assert(before[k] == e);
            }
            assert(rows[rows.len() - 1] == rows.last());
        }
        if exists|i: int|
            0 <= i < rows.len() && (#[trigger] rows[i]).kind == crate::events::EdgeKindRef::Builtin(
                e.kind,
            ) && rows[i].to == crate::events::NodeRef::Memory(e.target) && rows[i].weight
                == e.weight {
            let i = choose|i: int|
                0 <= i < rows.len() && (#[trigger] rows[i]).kind
                    == crate::events::EdgeKindRef::Builtin(e.kind) && rows[i].to
                    == crate::events::NodeRef::Memory(e.target) && rows[i].weight == e.weight;
            if i < front.len() {
                assert(front[i] == rows[i]);
            } else {
                assert(all.last() == e);
                assert(all[all.len() - 1] == e);
            }
        }
    }
}

/// The graphs are read of exactly the memories that hits name themselves.
pub proof fn graphs_are_read_of_named_memories(items: Seq<FusedItem>, id: u128)
    ensures
        named_memories(items).contains(id) <==> exists|i: int|
            0 <= i < items.len() && (#[trigger] items[i]).id == RankedItemId::Memory(id),
    decreases items.len(),
{
    if items.len() > 0 {
        let front = items.drop_last();
        graphs_are_read_of_named_memories(front, id);
        let before = named_memories(front);
        let all = named_memories(items);
        if before.contains(id) {
            let i = choose|i: int|
                0 <= i < front.len() && (#[trigger] front[i]).id == RankedItemId::Memory(id);
            assert(items[i] == front[i]);
            let k = choose|k: int| 0 <= k < before.len() && before[k] == id;
            assert(all[k] == id);
        }
        if all.contains(id) && !before.contains(id) {
            let k = choose|k: int| 0 <= k < all.len() && all[k] == id;
            if k < before.len() {
                assert(before[k] == id);
            }
            assert(items[items.len() - 1] == items.last());
        }
        if exists|i: int| 0 <= i < items.len() && (#[trigger] items[i]).id == RankedItemId::Memory(id) {
            let i = choose|i: int|
                0 <= i < items.len() && (#[trigger] items[i]).id == RankedItemId::Memory(id);
            if i < front.len() {
                assert(front[i] == items[i]);
            } else {
                assert(all[all.len() - 1] == id);
            }
        }
    }
}

} // verus!
