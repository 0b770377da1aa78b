//! The per-stage trace of a recall.
use vstd::prelude::*;

use std::collections::{HashMap, HashSet};

use crate::bytes::{be_value, eq16, has_u128, read_be};
use crate::error::{fails, ErrorView, OpError};
use crate::labels::{lookup_name, name_of, value_label, EntityName};
use crate::projection::{RankedItemId, TextRead};
use crate::query::Retriever;
use crate::recall::{count_u32, wire_count, Lane};
use crate::single::{Double, Single};
use crate::statement::{StatementObject, StatementValue, SubjectRef};
use crate::text::{trim_text, trimmed};

verus! {

/// What a retriever lane reported.
#[derive(Debug)]
pub enum RetrieverStatus {
    Success,
    Skipped(String),
    Timeout,
    Failure(String),
}

#[derive(Debug)]
pub struct RetrieverOutcome {
    pub retriever: Retriever,
    pub status: RetrieverStatus,
}

/// How many hits survived each filter step, and which each step dropped.
#[derive(Debug)]
pub struct FilterStats {
    pub before: u32,
    pub after_type: u32,
    pub after_temporal: u32,
    pub after_confidence: u32,
    pub after_tombstone: u32,
    pub after_supersession: u32,
    pub after_as_of: u32,
    pub after_limit: u32,
    pub dropped_by_type: Vec<RankedItemId>,
    pub dropped_by_temporal: Vec<RankedItemId>,
    pub dropped_by_confidence: Vec<RankedItemId>,
    pub dropped_by_tombstone: Vec<RankedItemId>,
    pub dropped_by_supersession: Vec<RankedItemId>,
    pub dropped_by_as_of: Vec<RankedItemId>,
    pub dropped_by_limit: Vec<RankedItemId>,
}

#[derive(Clone, Copy, Debug)]
pub enum RerankOutcome {
    Applied { candidates: usize, latency_ms: Double },
    SkippedNoCandidates,
}

/// The lane scores of one fused hit; `rrf_score` in single precision.
#[derive(Debug)]
pub struct FusionBreakdown {
    pub id: RankedItemId,
    pub rrf_score: Single,
    pub lane_scores: Vec<(Retriever, Single)>,
}

/// What the executor recorded of a run.
#[derive(Debug)]
pub struct QueryMetadata {
    pub retriever_latencies_ms: Vec<(Retriever, Double)>,
    pub retriever_total_results: Vec<(Retriever, usize)>,
    pub retriever_outcomes: Vec<RetrieverOutcome>,
    pub retriever_candidates: Vec<(Retriever, Vec<(RankedItemId, Single)>)>,
    pub filter_stats: FilterStats,
    pub rerank: Option<RerankOutcome>,
    pub rerank_before_order: Vec<RankedItemId>,
    pub rerank_after_order: Vec<RankedItemId>,
    pub fusion_breakdown: Vec<FusionBreakdown>,
    pub total_latency_ms: Double,
}

#[derive(Clone, Copy, Debug, PartialEq, Eq, Structural)]
pub enum RankedItemKind {
    Memory,
    Statement,
    Entity,
    Relation,
}

#[derive(Clone, Copy, Debug, PartialEq, Eq, Structural)]
pub struct RecallTraceDroppedId {
    pub kind: RankedItemKind,
    pub id: u128,
}

#[derive(Debug)]
pub struct RecallTraceCandidate {
    pub item_id: u128,
    pub kind: RankedItemKind,
    pub text: String,
    pub score: Single,
}

#[derive(Clone, Copy, Debug, PartialEq, Eq, Structural)]
pub enum RecallTraceRetrieverStatus {
    Success,
    Skipped,
    Timeout,
    Failure,
}

#[derive(Debug)]
pub struct RecallTraceRetriever {
    pub name: Lane,
    pub status: RecallTraceRetrieverStatus,
    pub status_detail: String,
    pub latency_ms: Double,
    pub candidate_count: u32,
    pub candidates: Vec<RecallTraceCandidate>,
}

#[derive(Debug)]
pub struct RecallTraceFilterChain {
    pub before: u32,
    pub after_type: u32,
    pub after_temporal: u32,
    pub after_confidence: u32,
    pub after_tombstone: u32,
    pub after_supersession: u32,
    pub after_as_of: u32,
    pub after_limit: u32,
    pub dropped_by_type: Vec<u128>,
    pub dropped_by_temporal: Vec<u128>,
    pub dropped_by_confidence: Vec<u128>,
    pub dropped_by_tombstone: Vec<u128>,
    pub dropped_by_supersession: Vec<RecallTraceDroppedId>,
    pub dropped_by_as_of: Vec<RecallTraceDroppedId>,
    pub dropped_by_limit: Vec<RecallTraceDroppedId>,
}

#[derive(Debug)]
pub struct RecallTraceRerank {
    pub applied: bool,
    pub candidates: u32,
    pub latency_ms: Double,
    pub before_order: Vec<u128>,
    pub after_order: Vec<u128>,
}

#[derive(Debug)]
pub struct RecallTraceFusionItem {
    pub memory_id: u128,
    pub rrf_score: Single,
    pub lane_scores: Vec<(Lane, Single)>,
}

#[derive(Debug)]
pub struct RecallTrace {
    pub retrievers: Vec<RecallTraceRetriever>,
    pub filter_chain: RecallTraceFilterChain,
    pub rerank: Option<RecallTraceRerank>,
    pub total_latency_ms: Double,
    pub fusion: Option<Vec<RecallTraceFusionItem>>,
}

// Texts.

/// The texts of memories as they were read: bytes that are no text fail, an
/// absent text is empty; of entries with one id the last counts.
pub open spec fn texts_by_id(reads: Seq<(u128, TextRead)>) -> Map<u128, Seq<char>>
    decreases reads.len(),
{
    if reads.len() == 0 {
        Map::empty()
    } else {
        texts_by_id(reads.drop_last()).insert(
            reads.last().0,
            match reads.last().1 {
                TextRead::Text(t) => t@,
                _ => Seq::empty(),
            },
        )
    }
}

/// The first read that failed.
pub open spec fn first_unreadable(reads: Seq<(u128, TextRead)>) -> Option<Seq<char>>
    decreases reads.len(),
{
    if reads.len() == 0 {
        None
    } else {
        match first_unreadable(reads.drop_last()) {
            Some(m) => Some(m),
            None => match reads.last().1 {
                TextRead::Unreadable(m) => Some(m@),
                _ => None,
            },
        }
    }
}

/// Whether a table holds these texts.
pub open spec fn holds_texts(table: Map<u128, String>, texts: Map<u128, Seq<char>>) -> bool {
    &&& table.dom() == texts.dom()
    &&& forall|id: u128| #[trigger] table.dom().contains(id) ==> table[id]@ == texts[id]
}

/// What reading the texts of a trace comes to.
pub open spec fn reads_texts(
    r: Result<HashMap<u128, String>, OpError>,
    reads: Vec<(u128, TextRead)>,
) -> bool {
    match first_unreadable(reads@) {
        Some(m) => fails(r, ErrorView::Internal(m)),
        None => r matches Ok(t) && holds_texts(t@, texts_by_id(reads@)),
    }
}

/// Collects the texts of memories that a trace shows.
pub fn fetch_trace_texts(reads: Vec<(u128, TextRead)>) -> (r: Result<
    HashMap<u128, String>,
    OpError,
>)
    ensures
        reads_texts(r, reads),
{
    broadcast use vstd::std_specs::hash::group_hash_axioms;

    let ghost all = reads@;
    let mut out: HashMap<u128, String> = HashMap::new();
    for entry in it: reads
        invariant
            all == reads@,
            it.seq() == all,
            first_unreadable(all.take(it.index())) is None,
            holds_texts(out@, texts_by_id(all.take(it.index()))),
    {
        let ghost n = it.index();
        assert(all.take(n + 1).drop_last() =~= all.take(n));
        assert(all.take(n + 1).last() == entry);
        let (id, read) = entry;
        match read {
            TextRead::Text(t) => {
                out.insert(id, t);
            },
            TextRead::Absent => {
                out.insert(id, String::new());
            },
            TextRead::Unreadable(m) => {
                proof {
                    unreadable_persists(all, n + 1);
                }
                return Err(OpError::Internal(m));
            },
        }
        assert(out@.dom() =~= texts_by_id(all.take(n + 1)).dom());
    }
    assert(all.take(all.len() as int) =~= all);
    Ok(out)
}

proof fn unreadable_persists(reads: Seq<(u128, TextRead)>, n: int)
    requires
        0 <= n <= reads.len(),
        first_unreadable(reads.take(n)) is Some,
    ensures
        first_unreadable(reads) == first_unreadable(reads.take(n)),
    decreases reads.len() - n,
{
    if n < reads.len() {
        assert(reads.take(n + 1).drop_last() =~= reads.take(n));
        unreadable_persists(reads, n + 1);
    } else {
        assert(reads.take(n) =~= reads);
    }
}

/// A memory's text in a trace, empty where none was read.
pub open spec fn trace_text(texts: Map<u128, String>, id: u128) -> Seq<char> {
    if texts.dom().contains(id) {
        texts[id]@
    } else {
        Seq::empty()
    }
}

/// A memory's text in a trace, empty where none was read.
pub fn text_for(texts: &HashMap<u128, String>, id: u128) -> (r: String)
    ensures
        r@ == trace_text(texts@, id),
{
    broadcast use vstd::std_specs::hash::group_hash_axioms;

    match texts.get(&id) {
        Some(t) => t.clone(),
        None => String::new(),
    }
}

// Ids.

/// Whether the ids are those of a list, each once.
pub open spec fn drops_repetitions(
    r: Vec<u128>,
    ids: Vec<u128>,
) -> bool {
    &&& r@.no_duplicates()
    &&& (forall|id: u128| r@.contains(id) <==> ids@.contains(id))
}

/// The ids of a list, each once.
pub fn distinct_ids(ids: &Vec<u128>) -> (r: Vec<u128>)
    ensures
        drops_repetitions(r, *ids),
{
    broadcast use vstd::std_specs::hash::group_hash_axioms;

    let mut seen: HashSet<u128> = HashSet::new();
    let mut out: Vec<u128> = Vec::new();
    for i in 0..ids.len()
        invariant
            out@.no_duplicates(),
            forall|id: u128| seen@.contains(id) <==> out@.contains(id),
            forall|id: u128| out@.contains(id) <==> ids@.take(i as int).contains(id),
    {
        let id: u128 = ids[i];
        let ghost before = out@;
        let fresh = seen.insert(id);
        if fresh {
            out.push(id);
        }
        proof {
            let a = ids@.take(i as int);
            let b = ids@.take(i + 1);
            assert(b =~= a.push(id));
            assert forall|x: u128| out@.contains(x) <==> before.contains(x) || x == id by {
                if before.contains(x) {
                    let k = choose|k: int| 0 <= k < before.len() && before[k] == x;
                    assert(out@[k] == x);
                }
                if fresh {
                    assert(out@[before.len() as int] == id);
                }
                if out@.contains(x) && x != id {
                    let k = choose|k: int| 0 <= k < out@.len() && out@[k] == x;
                    assert(before[k] == x);
                }
            }
            assert forall|x: u128| b.contains(x) <==> a.contains(x) || x == id by {
                if a.contains(x) {
                    let k = choose|k: int| 0 <= k < a.len() && a[k] == x;
                    assert(b[k] == x);
                }
                assert(b[i as int] == id);
                if b.contains(x) && x != id {
                    let k = choose|k: int| 0 <= k < b.len() && b[k] == x;
                    assert(a[k] == x);
                }
            }
            assert forall|x: u128| out@.contains(x) <==> b.contains(x) by {
                assert(before.contains(x) <==> a.contains(x));
            }
        }
    }
    assert(ids@.take(ids@.len() as int) =~= ids@);
    out
}

/// The memories among ranked ids, in order.
pub open spec fn memory_ids(ids: Seq<RankedItemId>) -> Seq<u128>
    decreases ids.len(),
{
    if ids.len() == 0 {
        Seq::empty()
    } else {
        let before = memory_ids(ids.drop_last());
        match ids.last() {
            RankedItemId::Memory(id) => before.push(id),
            _ => before,
        }
    }
}

/// The memories among ranked ids, in order.
pub fn memory_ids_wire(ids: &[RankedItemId]) -> (r: Vec<u128>)
    ensures
        r@ == memory_ids(ids@),
{
    let mut out: Vec<u128> = Vec::new();
    for i in 0..ids.len()
        invariant
            out@ == memory_ids(ids@.take(i as int)),
    {
        assert(ids@.take(i + 1).drop_last() =~= ids@.take(i as int));
        if let RankedItemId::Memory(id) = ids[i] {
            out.push(id);
        }
    }
    assert(ids@.take(ids@.len() as int) =~= ids@);
    out
}

/// The kind and the number of a ranked id.
pub open spec fn tagged(id: RankedItemId) -> RecallTraceDroppedId {
    match id {
        RankedItemId::Memory(m) => RecallTraceDroppedId { kind: RankedItemKind::Memory, id: m },
        RankedItemId::Statement(b) => RecallTraceDroppedId {
            kind: RankedItemKind::Statement,
            id: be_value(b@) as u128,
        },
        RankedItemId::Entity(b) => RecallTraceDroppedId {
            kind: RankedItemKind::Entity,
            id: be_value(b@) as u128,
        },
        RankedItemId::Relation(b) => RecallTraceDroppedId {
            kind: RankedItemKind::Relation,
            id: be_value(b@) as u128,
        },
    }
}

/// Sixteen bytes as a big-endian number.
pub fn id_number(b: &[u8; 16]) -> (r: u128)
    ensures
        r == be_value(b@),
{
    assert(b@.subrange(0, 16) =~= b@);
    read_be(b.as_slice(), 0, 16)
}

/// The kind and the number of a ranked id.
pub fn tag_id(id: &RankedItemId) -> (r: RecallTraceDroppedId)
    ensures
        r == tagged(*id),
{
    match id {
        RankedItemId::Memory(m) => RecallTraceDroppedId { kind: RankedItemKind::Memory, id: *m },
        RankedItemId::Statement(b) => RecallTraceDroppedId {
            kind: RankedItemKind::Statement,
            id: id_number(b),
        },
        RankedItemId::Entity(b) => RecallTraceDroppedId {
            kind: RankedItemKind::Entity,
            id: id_number(b),
        },
        RankedItemId::Relation(b) => RecallTraceDroppedId {
            kind: RankedItemKind::Relation,
            id: id_number(b),
        },
    }
}

/// Every ranked id with its kind; nothing is left out.
pub fn dropped_ids_wire(ids: &[RankedItemId]) -> (r: Vec<RecallTraceDroppedId>)
    ensures
        r@ == ids@.map_values(|id: RankedItemId| tagged(id)),
{
    let ghost tag = |id: RankedItemId| tagged(id);
    let mut out: Vec<RecallTraceDroppedId> = Vec::new();
    for i in 0..ids.len()
        invariant
            tag == (|id: RankedItemId| tagged(id)),
            out@ == ids@.take(i as int).map_values(tag),
    {
        out.push(tag_id(&ids[i]));
        assert(ids@.take(i + 1).map_values(tag) =~= ids@.take(i as int).map_values(tag).push(
            tagged(ids@[i as int]),
        ));
    }
    assert(ids@.take(ids@.len() as int) =~= ids@);
    out
}

/// The lane name of a retriever.
pub open spec fn lane_name(r: Retriever) -> Lane {
    match r {
        Retriever::Semantic => Lane::Semantic,
        Retriever::Lexical => Lane::Lexical,
        Retriever::Graph => Lane::Graph,
    }
}

/// The lane name of a retriever.
pub fn retriever_to_wire_name(r: Retriever) -> (l: Lane)
    ensures
        l == lane_name(r),
{
    match r {
        Retriever::Semantic => Lane::Semantic,
        Retriever::Lexical => Lane::Lexical,
        Retriever::Graph => Lane::Graph,
    }
}

// Candidate labels.

/// A relation as a label needs it; `qname` is `None` where its type is
/// unknown.
#[derive(Debug)]
pub struct RelationLabelRow {
    pub id: [u8; 16],
    pub from: [u8; 16],
    pub to: [u8; 16],
    pub qname: Option<String>,
}

/// A statement as a label needs it; `predicate` is empty where it is unknown.
#[derive(Debug)]
pub struct StatementLabelRow {
    pub id: [u8; 16],
    pub subject: SubjectRef,
    pub predicate: String,
    pub object: StatementObject,
}

/// The rows behind the labels of typed candidates.
#[derive(Debug)]
pub struct TypedRows {
    pub names: Vec<EntityName>,
    pub relations: Vec<RelationLabelRow>,
    pub statements: Vec<StatementLabelRow>,
}

/// The first relation with an id.
pub open spec fn relation_row(rows: Seq<RelationLabelRow>, id: [u8; 16]) -> Option<
    RelationLabelRow,
>
    decreases rows.len(),
{
    if rows.len() == 0 {
        None
    } else if rows[0].id == id {
        Some(rows[0])
    } else {
        relation_row(rows.skip(1), id)
    }
}

/// The first statement with an id.
pub open spec fn statement_row(rows: Seq<StatementLabelRow>, id: [u8; 16]) -> Option<
    StatementLabelRow,
>
    decreases rows.len(),
{
    if rows.len() == 0 {
        None
    } else if rows[0].id == id {
        Some(rows[0])
    } else {
        statement_row(rows.skip(1), id)
    }
}

/// `from —type→ to`; a relation of unknown type reads `related_to`.
pub open spec fn relation_label(row: Option<RelationLabelRow>, names: Seq<EntityName>) -> Seq<char> {
    match row {
        None => Seq::empty(),
        Some(r) => name_of(names, r.from) + " \u{2014}"@ + (match r.qname {
            Some(q) => q@,
            None => "related_to"@,
        }) + "\u{2192} "@ + name_of(names, r.to),
    }
}

/// The label of a relation.
pub open spec fn labels_relation(
    r: String,
    row: Option<&RelationLabelRow>,
    names: Vec<EntityName>,
) -> bool {
    r@ == relation_label(
        match row {
            Some(x) => Some(*x),
            None => None,
        },
        names@,
    )
}

/// `from —type→ to` of a relation, empty where it is gone.
pub fn render_relation_label(row: Option<&RelationLabelRow>, names: &Vec<EntityName>) -> (r: String)
    ensures
        labels_relation(r, row, *names),
{
    match row {
        None => String::new(),
        Some(x) => {
            let mut out = lookup_name(names, &x.from);
            out.push_str(" \u{2014}");
            match &x.qname {
                Some(q) => {
                    out.push_str(q);
                },
                None => {
                    out.push_str("related_to");
                },
            }
            out.push_str("\u{2192} ");
            let to = lookup_name(names, &x.to);
            out.push_str(&to);
            out
        },
    }
}

/// The subject in a statement's label.
pub open spec fn label_subject(subject: SubjectRef, names: Seq<EntityName>) -> Seq<char> {
    match subject {
        SubjectRef::Entity(id) => name_of(names, id),
        SubjectRef::Memory(_) => "(memory)"@,
        SubjectRef::Pending(_) => Seq::empty(),
    }
}

/// The object in a statement's label.
pub open spec fn label_object(object: StatementObject, names: Seq<EntityName>) -> Seq<char> {
    match object {
        StatementObject::EntityRef(id) => name_of(names, id),
        StatementObject::Value(v) => match v {
            StatementValue::Blob(_) => "(blob)"@,
            _ => value_label(v),
        },
        StatementObject::MemoryRef(_) => "(memory)"@,
        StatementObject::StatementRef(_) => "(statement)"@,
    }
}

/// `subject predicate object`, trimmed.
pub open spec fn statement_label(
    row: Option<StatementLabelRow>,
    names: Seq<EntityName>,
) -> Seq<char> {
    match row {
        None => Seq::empty(),
        Some(s) => trimmed(
            label_subject(s.subject, names) + " "@ + s.predicate@ + " "@ + label_object(
                s.object,
                names,
            ),
        ),
    }
}

/// The label of a statement.
pub open spec fn labels_statement(
    r: String,
    row: Option<&StatementLabelRow>,
    names: Vec<EntityName>,
) -> bool {
    r@ == statement_label(
        match row {
            Some(x) => Some(*x),
            None => None,
        },
        names@,
    )
}

/// `subject predicate object` of a statement, empty where it is gone.
pub fn render_statement_label(row: Option<&StatementLabelRow>, names: &Vec<EntityName>) -> (r:
    String)
    ensures
        labels_statement(r, row, *names),
{
    match row {
        None => String::new(),
        Some(s) => {
            let mut out = match &s.subject {
                SubjectRef::Entity(id) => lookup_name(names, id),
                SubjectRef::Memory(_) => "(memory)".to_owned(),
                SubjectRef::Pending(_) => {
                    let none = String::new();
                    assert(none@ =~= Seq::empty());
                    none
                },
            };
            out.push_str(" ");
            out.push_str(&s.predicate);
            out.push_str(" ");
            let object = match &s.object {
                StatementObject::EntityRef(id) => lookup_name(names, id),
                StatementObject::Value(v) => match v {
                    StatementValue::Blob(_) => "(blob)".to_owned(),
                    _ => crate::labels::render_value(v),
                },
                StatementObject::MemoryRef(_) => "(memory)".to_owned(),
                StatementObject::StatementRef(_) => "(statement)".to_owned(),
            };
            out.push_str(&object);
            trim_text(&out)
        },
    }
}

fn find_relation<'a>(rows: &'a Vec<RelationLabelRow>, id: &[u8; 16]) -> (r: Option<
    &'a RelationLabelRow,
>)
    ensures
        relation_row(rows@, *id) == (match r {
            Some(x) => Some(*x),
            None => None,
        }),
{
    let mut i: usize = 0;
    assert(rows@.skip(0) =~= rows@);
    while i < rows.len()
        invariant
            i <= rows@.len(),
            relation_row(rows@, *id) == relation_row(rows@.skip(i as int), *id),
        decreases rows@.len() - i,
    {
        if eq16(&rows[i].id, id) {
            return Some(&rows[i]);
        }
        assert(rows@.skip(i as int).skip(1) =~= rows@.skip(i + 1));
        i = i + 1;
    }
    None
}

fn find_statement<'a>(rows: &'a Vec<StatementLabelRow>, id: &[u8; 16]) -> (r: Option<
    &'a StatementLabelRow,
>)
    ensures
        statement_row(rows@, *id) == (match r {
            Some(x) => Some(*x),
            None => None,
        }),
{
    let mut i: usize = 0;
    assert(rows@.skip(0) =~= rows@);
    while i < rows.len()
        invariant
            i <= rows@.len(),
            statement_row(rows@, *id) == statement_row(rows@.skip(i as int), *id),
        decreases rows@.len() - i,
    {
        if eq16(&rows[i].id, id) {
            return Some(&rows[i]);
        }
        assert(rows@.skip(i as int).skip(1) =~= rows@.skip(i + 1));
        i = i + 1;
    }
    None
}

/// The label of a candidate.
pub open spec fn candidate_label(
    id: RankedItemId,
    texts: Map<u128, String>,
    typed: TypedRows,
) -> Seq<char> {
    match id {
        RankedItemId::Memory(m) => trace_text(texts, m),
        RankedItemId::Entity(e) => name_of(typed.names@, e),
        RankedItemId::Relation(r) => relation_label(
            relation_row(typed.relations@, r),
            typed.names@,
        ),
        RankedItemId::Statement(s) => statement_label(
            statement_row(typed.statements@, s),
            typed.names@,
        ),
    }
}

/// Whether a trace candidate shows a ranked one.
pub open spec fn shows_candidate(
    c: RecallTraceCandidate,
    ranked: (RankedItemId, Single),
    texts: Map<u128, String>,
    typed: TypedRows,
) -> bool {
    &&& c.item_id == tagged(ranked.0).id
    &&& c.kind == tagged(ranked.0).kind
    &&& c.text@ == candidate_label(ranked.0, texts, typed)
    &&& c.score == ranked.1
}

/// A ranked candidate in a trace, with its label.
pub fn candidate_from_ranked(
    id: &RankedItemId,
    score: Single,
    texts: &HashMap<u128, String>,
    typed: &TypedRows,
) -> (r: RecallTraceCandidate)
    ensures
        shows_candidate(r, (*id, score), texts@, *typed),
{
    let tag = tag_id(id);
    let text = match id {
        RankedItemId::Memory(m) => text_for(texts, *m),
        RankedItemId::Entity(e) => lookup_name(&typed.names, e),
        RankedItemId::Relation(r) => render_relation_label(
            find_relation(&typed.relations, r),
            &typed.names,
        ),
        RankedItemId::Statement(s) => render_statement_label(
            find_statement(&typed.statements, s),
            &typed.names,
        ),
    };
    RecallTraceCandidate { item_id: tag.id, kind: tag.kind, text, score }
}

// The trace.

/// The first entry for a retriever.
pub open spec fn first_for<T>(list: Seq<(Retriever, T)>, r: Retriever) -> Option<T>
    decreases list.len(),
{
    if list.len() == 0 {
        None
    } else if list[0].0 == r {
        Some(list[0].1)
    } else {
        first_for(list.skip(1), r)
    }
}

fn find_for<'a, T>(list: &'a Vec<(Retriever, T)>, r: Retriever) -> (out: Option<&'a T>)
    ensures
        first_for(list@, r) == (match out {
            Some(x) => Some(*x),
            None => None,
        }),
{
    let mut i: usize = 0;
    assert(list@.skip(0) =~= list@);
    while i < list.len()
        invariant
            i <= list@.len(),
            first_for(list@, r) == first_for(list@.skip(i as int), r),
        decreases list@.len() - i,
    {
        if list[i].0 == r {
            return Some(&list[i].1);
        }
        assert(list@.skip(i as int).skip(1) =~= list@.skip(i + 1));
        i = i + 1;
    }
    None
}

/// The trace status of a lane and its detail.
pub open spec fn lane_status(s: RetrieverStatus) -> (RecallTraceRetrieverStatus, Seq<char>) {
    match s {
        RetrieverStatus::Success => (RecallTraceRetrieverStatus::Success, Seq::empty()),
        RetrieverStatus::Skipped(reason) => (RecallTraceRetrieverStatus::Skipped, reason@),
        RetrieverStatus::Timeout => (RecallTraceRetrieverStatus::Timeout, Seq::empty()),
        RetrieverStatus::Failure(m) => (RecallTraceRetrieverStatus::Failure, m@),
    }
}

/// The candidates of a retriever.
pub open spec fn lane_candidates(meta: QueryMetadata, r: Retriever) -> Seq<(RankedItemId, Single)> {
    match first_for(meta.retriever_candidates@, r) {
        Some(v) => v@,
        None => Seq::empty(),
    }
}

/// Whether a trace entry shows what a retriever did.
pub open spec fn shows_lane(
    t: RecallTraceRetriever,
    o: RetrieverOutcome,
    meta: QueryMetadata,
    texts: Map<u128, String>,
    typed: TypedRows,
) -> bool {
    let cands = lane_candidates(meta, o.retriever);
    &&& t.name == lane_name(o.retriever)
    &&& (t.status, t.status_detail@) == lane_status(o.status)
    &&& t.latency_ms == (match first_for(meta.retriever_latencies_ms@, o.retriever) {
        Some(ms) => ms,
        None => Double { bits: 0 },
    })
    &&& t.candidate_count == (match first_for(meta.retriever_total_results@, o.retriever) {
        Some(n) => wire_count(n as nat),
        None => 0,
    })
    &&& t.candidates@.len() == cands.len()
    &&& forall|k: int|
        #![trigger t.candidates@[k]]
        0 <= k < cands.len() ==> shows_candidate(t.candidates@[k], cands[k], texts, typed)
}

fn trace_lane(
    o: &RetrieverOutcome,
    meta: &QueryMetadata,
    texts: &HashMap<u128, String>,
    typed: &TypedRows,
) -> (r: RecallTraceRetriever)
    ensures
        shows_lane(r, *o, *meta, texts@, *typed),
{
    let (status, status_detail) = match &o.status {
        RetrieverStatus::Success => (RecallTraceRetrieverStatus::Success, String::new()),
        RetrieverStatus::Skipped(reason) => (RecallTraceRetrieverStatus::Skipped, reason.clone()),
        RetrieverStatus::Timeout => (RecallTraceRetrieverStatus::Timeout, String::new()),
        RetrieverStatus::Failure(m) => (RecallTraceRetrieverStatus::Failure, m.clone()),
    };
    let latency_ms = match find_for(&meta.retriever_latencies_ms, o.retriever) {
        Some(ms) => *ms,
        None => Double { bits: 0 },
    };
    let candidate_count: u32 = match find_for(&meta.retriever_total_results, o.retriever) {
        Some(n) => count_u32(*n),
        None => 0,
    };
    let ghost cands = lane_candidates(*meta, o.retriever);
    let mut candidates: Vec<RecallTraceCandidate> = Vec::new();
    if let Some(list) = find_for(&meta.retriever_candidates, o.retriever) {
        for k in 0..list.len()
            invariant
                cands == list@,
                candidates@.len() == k,
                forall|j: int|
                    #![trigger candidates@[j]]
                    0 <= j < k ==> shows_candidate(candidates@[j], cands[j], texts@, *typed),
        {
            let next = candidate_from_ranked(&list[k].0, list[k].1, texts, typed);
            candidates.push(next);
        }
    }
    RecallTraceRetriever {
        name: retriever_to_wire_name(o.retriever),
        status,
        status_detail,
        latency_ms,
        candidate_count,
        candidates,
    }
}

/// Whether a filter chain shows the filter steps. The last three steps can
/// drop any kind of item, so they keep the kind.
pub open spec fn shows_filters(c: RecallTraceFilterChain, s: FilterStats) -> bool {
    &&& (c.before, c.after_type, c.after_temporal, c.after_confidence) == (
        s.before,
        s.after_type,
        s.after_temporal,
        s.after_confidence,
    )
    &&& (c.after_tombstone, c.after_supersession, c.after_as_of, c.after_limit) == (
        s.after_tombstone,
        s.after_supersession,
        s.after_as_of,
        s.after_limit,
    )
    &&& c.dropped_by_type@ == memory_ids(s.dropped_by_type@)
    &&& c.dropped_by_temporal@ == memory_ids(s.dropped_by_temporal@)
    &&& c.dropped_by_confidence@ == memory_ids(s.dropped_by_confidence@)
    &&& c.dropped_by_tombstone@ == memory_ids(s.dropped_by_tombstone@)
    &&& c.dropped_by_supersession@ == s.dropped_by_supersession@.map_values(
        |id: RankedItemId| tagged(id),
    )
    &&& c.dropped_by_as_of@ == s.dropped_by_as_of@.map_values(|id: RankedItemId| tagged(id))
    &&& c.dropped_by_limit@ == s.dropped_by_limit@.map_values(|id: RankedItemId| tagged(id))
}

fn trace_filters(s: &FilterStats) -> (r: RecallTraceFilterChain)
    ensures
        shows_filters(r, *s),
{
    RecallTraceFilterChain {
        before: s.before,
        after_type: s.after_type,
        after_temporal: s.after_temporal,
        after_confidence: s.after_confidence,
        after_tombstone: s.after_tombstone,
        after_supersession: s.after_supersession,
        after_as_of: s.after_as_of,
        after_limit: s.after_limit,
        dropped_by_type: memory_ids_wire(s.dropped_by_type.as_slice()),
        dropped_by_temporal: memory_ids_wire(s.dropped_by_temporal.as_slice()),
        dropped_by_confidence: memory_ids_wire(s.dropped_by_confidence.as_slice()),
        dropped_by_tombstone: memory_ids_wire(s.dropped_by_tombstone.as_slice()),
        dropped_by_supersession: dropped_ids_wire(s.dropped_by_supersession.as_slice()),
        dropped_by_as_of: dropped_ids_wire(s.dropped_by_as_of.as_slice()),
        dropped_by_limit: dropped_ids_wire(s.dropped_by_limit.as_slice()),
    }
}

/// Whether a trace shows the rerank stage.
pub open spec fn shows_rerank(t: Option<RecallTraceRerank>, meta: QueryMetadata) -> bool {
    match meta.rerank {
        None => t is None,
        Some(outcome) => t matches Some(r) && {
            &&& (r.applied, r.candidates, r.latency_ms) == (match outcome {
                RerankOutcome::Applied { candidates, latency_ms } => (
                    true,
                    wire_count(candidates as nat),
                    latency_ms,
                ),
                RerankOutcome::SkippedNoCandidates => (false, 0u32, Double { bits: 0 }),
            })
            &&& r.before_order@ == memory_ids(meta.rerank_before_order@)
            &&& r.after_order@ == memory_ids(meta.rerank_after_order@)
        },
    }
}

/// The memories of a fusion breakdown.
pub open spec fn fused_memories(items: Seq<FusionBreakdown>) -> Seq<FusionBreakdown> {
    items.filter(|b: FusionBreakdown| b.id is Memory)
}

/// Whether a trace item shows a fused memory.
pub open spec fn shows_fused(t: RecallTraceFusionItem, b: FusionBreakdown) -> bool {
    &&& b.id matches RankedItemId::Memory(id) && t.memory_id == id
    &&& t.rrf_score == b.rrf_score
    &&& t.lane_scores@ == b.lane_scores@.map_values(
        |p: (Retriever, Single)| (lane_name(p.0), p.1),
    )
}

fn trace_lane_scores(list: &Vec<(Retriever, Single)>) -> (r: Vec<(Lane, Single)>)
    ensures
        r@ == list@.map_values(|p: (Retriever, Single)| (lane_name(p.0), p.1)),
{
    let ghost f = |p: (Retriever, Single)| (lane_name(p.0), p.1);
    let mut out: Vec<(Lane, Single)> = Vec::new();
    for i in 0..list.len()
        invariant
            f == (|p: (Retriever, Single)| (lane_name(p.0), p.1)),
            out@ == list@.take(i as int).map_values(f),
    {
        out.push((retriever_to_wire_name(list[i].0), list[i].1));
        assert(list@.take(i + 1).map_values(f) =~= list@.take(i as int).map_values(f).push(
            f(list@[i as int]),
        ));
    }
    assert(list@.take(list@.len() as int) =~= list@);
    out
}

/// Whether a trace shows the fusion stage: nothing where no breakdown was
/// recorded, else its memories.
pub open spec fn shows_fusion(
    t: Option<Vec<RecallTraceFusionItem>>,
    items: Seq<FusionBreakdown>,
) -> bool {
    if items.len() == 0 {
        t is None
    } else {
        let fused = fused_memories(items);
        t matches Some(v) && v@.len() == fused.len() && forall|k: int|
            #![trigger v@[k]]
            0 <= k < v@.len() ==> shows_fused(v@[k], fused[k])
    }
}

fn trace_fusion(items: &Vec<FusionBreakdown>) -> (r: Option<Vec<RecallTraceFusionItem>>)
    ensures
        shows_fusion(r, items@),
{
    if items.len() == 0 {
        return None;
    }
    let ghost test = |b: FusionBreakdown| b.id is Memory;
    let mut out: Vec<RecallTraceFusionItem> = Vec::new();
    assert(items@.take(0).filter(test) =~= Seq::empty()) by {
        reveal(Seq::filter);
    }
    for i in 0..items.len()
        invariant
            test == (|b: FusionBreakdown| b.id is Memory),
            out@.len() == items@.take(i as int).filter(test).len(),
            forall|k: int|
                #![trigger out@[k]]
                0 <= k < out@.len() ==> shows_fused(
                    out@[k],
                    items@.take(i as int).filter(test)[k],
                ),
    {
        proof {
            assert(items@.take(i + 1).drop_last() =~= items@.take(i as int));
            reveal(Seq::filter);
        }
        if let RankedItemId::Memory(memory_id) = items[i].id {
            let lane_scores = trace_lane_scores(&items[i].lane_scores);
            out.push(
                RecallTraceFusionItem { memory_id, rrf_score: items[i].rrf_score, lane_scores },
            );
        }
    }
    assert(items@.take(items@.len() as int) =~= items@);
    Some(out)
}

/// Whether a trace shows what the executor recorded.
pub open spec fn shows_trace(
    t: RecallTrace,
    meta: QueryMetadata,
    texts: Map<u128, String>,
    typed: TypedRows,
) -> bool {
    &&& t.retrievers@.len() == meta.retriever_outcomes@.len()
    &&& forall|k: int|
        #![trigger t.retrievers@[k]]
        0 <= k < t.retrievers@.len() ==> shows_lane(
            t.retrievers@[k],
            meta.retriever_outcomes@[k],
            meta,
            texts,
            typed,
        )
    &&& shows_filters(t.filter_chain, meta.filter_stats)
    &&& shows_rerank(t.rerank, meta)
    &&& t.total_latency_ms == meta.total_latency_ms
    &&& shows_fusion(t.fusion, meta.fusion_breakdown@)
}

/// The trace of a recall: per lane its status, latency and candidates, the
/// filter chain, the rerank stage and the fusion breakdown.
pub fn build_recall_trace(
    meta: &QueryMetadata,
    texts: &HashMap<u128, String>,
    typed: &TypedRows,
) -> (r: RecallTrace)
    ensures
        shows_trace(r, *meta, texts@, *typed),
{
    let mut retrievers: Vec<RecallTraceRetriever> = Vec::new();
    for k in 0..meta.retriever_outcomes.len()
        invariant
            retrievers@.len() == k,
            forall|j: int|
                #![trigger retrievers@[j]]
                0 <= j < k ==> shows_lane(
                    retrievers@[j],
                    meta.retriever_outcomes@[j],
                    *meta,
                    texts@,
                    *typed,
                ),
    {
        let next = trace_lane(&meta.retriever_outcomes[k], meta, texts, typed);
        retrievers.push(next);
    }
    let filter_chain = trace_filters(&meta.filter_stats);
    let rerank = match &meta.rerank {
        None => None,
        Some(outcome) => {
            let (applied, candidates, latency_ms) = match outcome {
                RerankOutcome::Applied { candidates, latency_ms } => (
                    true,
                    count_u32(*candidates),
                    *latency_ms,
                ),
                RerankOutcome::SkippedNoCandidates => (false, 0u32, Double { bits: 0 }),
            };
            Some(
                RecallTraceRerank {
                    applied,
                    candidates,
                    latency_ms,
                    before_order: memory_ids_wire(meta.rerank_before_order.as_slice()),
                    after_order: memory_ids_wire(meta.rerank_after_order.as_slice()),
                },
            )
        },
    };
    let fusion = trace_fusion(&meta.fusion_breakdown);
    RecallTrace {
        retrievers,
        filter_chain,
        rerank,
        total_latency_ms: meta.total_latency_ms,
        fusion,
    }
}

/// Whether the ids are those of the candidates.
pub open spec fn collects_candidates(
    r: Vec<u128>,
    meta: QueryMetadata,
) -> bool {
    &&& r@.no_duplicates()
    &&& (forall|id: u128| #[trigger]
        r@.contains(id) <==> exists|i: int, k: int|
            #![trigger meta.retriever_candidates@[i].1@[k]]
            0 <= i < meta.retriever_candidates@.len() && 0 <= k
                < meta.retriever_candidates@[i].1@.len()
                && meta.retriever_candidates@[i].1@[k].0 == RankedItemId::Memory(id))
}

/// The memories among all candidates, each once: the texts that a trace
/// needs.
pub fn candidate_memories(meta: &QueryMetadata) -> (r: Vec<u128>)
    ensures
        collects_candidates(r, *meta),
{
    let mut out: Vec<u128> = Vec::new();
    let ghost lists = meta.retriever_candidates@;
    for i in 0..meta.retriever_candidates.len()
        invariant
            lists == meta.retriever_candidates@,
            out@.no_duplicates(),
            forall|id: u128| #[trigger]
                out@.contains(id) <==> exists|a: int, k: int|
                    #![trigger lists[a].1@[k]]
                    0 <= a < i && 0 <= k < lists[a].1@.len() && lists[a].1@[k].0
                        == RankedItemId::Memory(id),
    {
        let list = &meta.retriever_candidates[i].1;
        let ghost start = out@;
        for k in 0..list.len()
            invariant
                list@ == lists[i as int].1@,
                out@.no_duplicates(),
                forall|id: u128| #[trigger]
                    out@.contains(id) <==> (start.contains(id) || exists|b: int|
                        #![trigger list@[b]]
                        0 <= b < k && list@[b].0 == RankedItemId::Memory(id)),
        {
            if let RankedItemId::Memory(id) = list[k].0 {
                let ghost before = out@;
                if !has_u128(&out, id) {
                    out.push(id);
                }
                assert forall|x: u128| #[trigger] out@.contains(x) <==> (start.contains(x)
                    || exists|b: int|
                    #![trigger list@[b]]
                    0 <= b < k + 1 && list@[b].0 == RankedItemId::Memory(x)) by {
                    assert(out@.contains(x) <==> (before.contains(x) || x == id)) by {
                        if before.contains(x) {
                            let j = choose|j: int| 0 <= j < before.len() && before[j] == x;
                            assert(out@[j] == x);
                        }
                        if x == id && !before.contains(id) {
                            assert(out@[before.len() as int] == id);
                        }
                        if out@.contains(x) {
                            let j = choose|j: int| 0 <= j < out@.len() && out@[j] == x;
                            if j < before.len() {
                                assert(before[j] == x);
                            }
                        }
                    }
                    if x == id {
                        assert(list@[k as int].0 == RankedItemId::Memory(x));
                    }
                }
            } else {
                assert forall|x: u128| #[trigger] out@.contains(x) <==> (start.contains(x)
                    || exists|b: int|
                    #![trigger list@[b]]
                    0 <= b < k + 1 && list@[b].0 == RankedItemId::Memory(x)) by {}
            }
        }
        assert forall|x: u128| #[trigger] out@.contains(x) <==> exists|a: int, k: int|
            #![trigger lists[a].1@[k]]
            0 <= a < i + 1 && 0 <= k < lists[a].1@.len() && lists[a].1@[k].0
                == RankedItemId::Memory(x) by {
            if out@.contains(x) {
                if start.contains(x) {
                    let (a, k) = choose|a: int, k: int|
                        #![trigger lists[a].1@[k]]
                        0 <= a < i && 0 <= k < lists[a].1@.len() && lists[a].1@[k].0
                            == RankedItemId::Memory(x);
                    assert(lists[a].1@[k].0 == RankedItemId::Memory(x));
                } else {
                    let b = choose|b: int|
                        #![trigger list@[b]]
                        0 <= b < list@.len() && list@[b].0 == RankedItemId::Memory(x);
                    assert(lists[i as int].1@[b].0 == RankedItemId::Memory(x));
                }
            }
            if exists|a: int, k: int|
                #![trigger lists[a].1@[k]]
                0 <= a < i + 1 && 0 <= k < lists[a].1@.len() && lists[a].1@[k].0
                    == RankedItemId::Memory(x) {
                let (a, k) = choose|a: int, k: int|
                    #![trigger lists[a].1@[k]]
                    0 <= a < i + 1 && 0 <= k < lists[a].1@.len() && lists[a].1@[k].0
                        == RankedItemId::Memory(x);
                if a < i {
                    assert(start.contains(x));
                } else {
                    assert(list@[k].0 == RankedItemId::Memory(x));
                }
            }
        }
    }
    out
}

} // verus!
