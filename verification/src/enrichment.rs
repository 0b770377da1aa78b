//! What the typed graph knows of remembered memories.
use vstd::prelude::*;

use std::collections::HashMap;

use crate::bytes::{eq16, has_u64};
use crate::events::{EdgeKindRef, NodeRef};
use crate::labels::{
    find_name, lookup_name, name_entry, name_of, object_label, render_object, EntityName,
};
use crate::membership::at_most;
use crate::ranking::{rank, ranked_by, scored_by, take_items};
use crate::recall::{EnrichedEntity, EnrichedRelation, EnrichedStatement, GraphEnrichment};
use crate::single::Single;
use crate::statement::{StatementObject, SubjectRef};

verus! {

/// Most entities shown for one memory.
pub const ENTITY_CAP: usize = 16;

/// Most statements shown for one memory.
pub const STATEMENT_CAP: usize = 5;

/// Most relations shown for one memory.
pub const RELATION_CAP: usize = 5;

/// A statement that a memory is evidence of. `predicate` is its qualified
/// name, empty where it is unknown.
#[derive(Debug)]
pub struct EvidenceStatement {
    pub id: [u8; 16],
    pub session_id: u64,
    pub tombstoned: bool,
    pub subject: SubjectRef,
    pub predicate: String,
    pub object: StatementObject,
    pub confidence: Single,
    pub event_at_unix_nanos: Option<u64>,
}

/// An edge at an entity. `session` is that of the relation's own row, `None`
/// where the row is missing; `type_label` is `None` where the relation type is
/// unknown.
#[derive(Debug)]
pub struct IncidentEdge {
    pub kind: EdgeKindRef,
    pub other: NodeRef,
    pub session: Option<u64>,
    pub type_label: Option<String>,
    pub created_at_unix_nanos: u64,
}

/// The edges of one mentioned entity.
#[derive(Debug)]
pub struct EntityEdges {
    pub entity: [u8; 16],
    pub outgoing: Vec<IncidentEdge>,
    pub incoming: Vec<IncidentEdge>,
}

/// What was read about one memory: whether there is a table of evidence at
/// all, the entities that the memory mentions with their edges, in the order
/// of the mentions, and the statements it is evidence of.
#[derive(Debug)]
pub struct MemoryGraphRows {
    pub memory_id: u128,
    pub evidence_table: bool,
    pub mentioned: Vec<EntityEdges>,
    pub statements: Vec<EvidenceStatement>,
}

/// Whether a session passes an optional session list.
pub open spec fn session_passes(filter: Option<Seq<u64>>, session: Option<u64>) -> bool {
    filter matches Some(l) ==> (session matches Some(s) && l.contains(s))
}

/// An optional list as a sequence.
pub open spec fn filter_seq(filter: Option<Vec<u64>>) -> Option<Seq<u64>> {
    match filter {
        Some(v) => Some(v@),
        None => None,
    }
}

/// An enriched entity as characters.
pub open spec fn entity_view(e: EnrichedEntity) -> ([u8; 16], Seq<char>, Seq<char>) {
    (e.id, e.name@, e.type_qname@)
}

/// The entities shown: of the first mentions, those that are known.
pub open spec fn shown_entities(mentioned: Seq<EntityEdges>, names: Seq<EntityName>) -> Seq<
    ([u8; 16], Seq<char>, Seq<char>),
>
    decreases mentioned.len(),
{
    if mentioned.len() == 0 {
        Seq::empty()
    } else {
        let before = shown_entities(mentioned.drop_last(), names);
        let id = mentioned.last().entity;
        match name_entry(names, id) {
            Some(e) => before.push(
                (
                    id,
                    e.name@,
                    match e.type_label {
                        Some(t) => t@,
                        None => Seq::empty(),
                    },
                ),
            ),
            None => before,
        }
    }
}

fn enrich_entities(mentioned: &Vec<EntityEdges>, names: &Vec<EntityName>) -> (r: Vec<
    EnrichedEntity,
>)
    ensures
        r@.map_values(|e: EnrichedEntity| entity_view(e)) == shown_entities(
            at_most(mentioned@, ENTITY_CAP as nat),
            names@,
        ),
{
    let ghost see = |e: EnrichedEntity| entity_view(e);
    let ghost first = at_most(mentioned@, ENTITY_CAP as nat);
    let n: usize = if mentioned.len() > ENTITY_CAP {
        ENTITY_CAP
    } else {
        mentioned.len()
    };
    let mut out: Vec<EnrichedEntity> = Vec::new();
    assert(out@.map_values(see) =~= Seq::empty());
    assert(first.len() == n);
    for i in 0..n
        invariant
            n <= mentioned@.len(),
            first == at_most(mentioned@, ENTITY_CAP as nat),
            first.len() == n,
            see == (|e: EnrichedEntity| entity_view(e)),
            out@.map_values(see) == shown_entities(first.take(i as int), names@),
    {
        assert(first.take(i + 1).drop_last() =~= first.take(i as int));
        assert(first[i as int] == mentioned@[i as int]);
        let id = mentioned[i].entity;
        if let Some(e) = find_name(names, &id) {
            let type_qname = match &e.type_label {
                Some(t) => t.clone(),
                None => String::new(),
            };
            let ghost before = out@;
            let next = EnrichedEntity { id, name: e.name.clone(), type_qname };
            out.push(next);
            assert(out@.map_values(see) =~= before.map_values(see).push(entity_view(next)));
        }
    }
    assert(first.take(n as int) =~= first);
    out
}

/// Whether a statement is shown: it is live and in a requested session.
pub open spec fn statement_shows(filter: Option<Seq<u64>>) -> spec_fn(EvidenceStatement) -> bool {
    |s: EvidenceStatement| session_passes(filter, Some(s.session_id)) && !s.tombstoned
}

/// The key of a statement's confidence.
pub open spec fn confidence_key() -> spec_fn(EvidenceStatement) -> int {
    |s: EvidenceStatement| s.confidence.key()
}

/// The statements shown: the most confident of those that show.
pub open spec fn shown_statements(rows: Seq<EvidenceStatement>, filter: Option<Seq<u64>>) -> Seq<
    EvidenceStatement,
> {
    at_most(ranked_by(rows.filter(statement_shows(filter)), confidence_key()), STATEMENT_CAP as nat)
}

/// The label of a statement's subject.
pub open spec fn subject_label(subject: SubjectRef, names: Seq<EntityName>) -> Seq<char> {
    match subject {
        SubjectRef::Entity(id) => name_of(names, id),
        _ => "(ambiguous)"@,
    }
}

/// Whether an enriched statement shows a statement.
pub open spec fn shows_statement(
    e: EnrichedStatement,
    s: EvidenceStatement,
    names: Seq<EntityName>,
) -> bool {
    &&& e.id == s.id
    &&& e.subject_name@ == subject_label(s.subject, names)
    &&& e.predicate@ == s.predicate@
    &&& e.object_label@ == object_label(s.object, names)
    &&& e.confidence == s.confidence
    &&& e.event_at_unix_nanos == s.event_at_unix_nanos
}

fn passes_session(filter: &Option<Vec<u64>>, session: Option<u64>) -> (r: bool)
    ensures
        r == session_passes(filter_seq(*filter), session),
{
    match filter {
        Some(l) => match session {
            Some(s) => has_u64(l, s),
            None => false,
        },
        None => true,
    }
}

fn enrich_statements(
    rows: Vec<EvidenceStatement>,
    filter: &Option<Vec<u64>>,
    names: &Vec<EntityName>,
) -> (r: Vec<EnrichedStatement>)
    ensures
        ({
            let shown = shown_statements(rows@, filter_seq(*filter));
            &&& r@.len() == shown.len()
            &&& forall|k: int|
                #![trigger r@[k]]
                0 <= k < r@.len() ==> shows_statement(r@[k], shown[k], names@)
        }),
{
    let ghost all = rows@;
    let ghost test = statement_shows(filter_seq(*filter));
    let ghost key = confidence_key();
    let mut scored: Vec<(i128, EvidenceStatement)> = Vec::new();
    assert(scored_by(all.take(0).filter(test), key) =~= Seq::empty()) by {
        reveal(Seq::filter);
    }
    for s in it: rows
        invariant
            it.seq() == all,
            test == statement_shows(filter_seq(*filter)),
            key == confidence_key(),
            scored@ == scored_by(all.take(it.index()).filter(test), key),
    {
        let ghost n = it.index();
        proof {
            assert(all.take(n + 1).drop_last() =~= all.take(n));
            assert(all.take(n + 1).last() == s);
            reveal(Seq::filter);
        }
        if passes_session(filter, Some(s.session_id)) && !s.tombstoned {
            let k: i128 = s.confidence.order_key() as i128;
            let ghost before = all.take(n).filter(test);
            scored.push((k, s));
            assert(scored_by(before.push(s), key) =~= scored_by(before, key).push((k, s)));
        }
    }
    assert(all.take(all.len() as int) =~= all);
    let mut kept = take_items(rank(scored));
    let ghost ordered = kept@;
    kept.truncate(STATEMENT_CAP);
    let ghost shown = shown_statements(all, filter_seq(*filter));
    assert(kept@ =~= shown);
    let mut out: Vec<EnrichedStatement> = Vec::new();
    for s in it: kept
        invariant
            it.seq() == shown,
            out@.len() == it.index(),
            forall|k: int|
                #![trigger out@[k]]
                0 <= k < out@.len() ==> shows_statement(out@[k], shown[k], names@),
    {
        let subject_name = match &s.subject {
            SubjectRef::Entity(id) => lookup_name(names, id),
            _ => "(ambiguous)".to_owned(),
        };
        let object_label = render_object(&s.object, names);
        out.push(
            EnrichedStatement {
                id: s.id,
                subject_name,
                predicate: s.predicate,
                object_label,
                confidence: s.confidence,
                event_at_unix_nanos: s.event_at_unix_nanos,
            },
        );
    }
    out
}

/// The identity of a relation: its ends and its type.
pub struct RelationKey {
    pub from: [u8; 16],
    pub relation_type: u32,
    pub to: [u8; 16],
}

/// A relation as it is shown: when it was made, its identity, and the name of
/// its type.
pub struct RelationRow {
    pub created_at: u64,
    pub key: RelationKey,
    pub type_label: Seq<char>,
}

/// The relation that an edge stands for, if it is shown: a typed edge between
/// entities, in a requested session, of a known type.
pub open spec fn relation_at(
    entity: [u8; 16],
    e: IncidentEdge,
    outgoing: bool,
    filter: Option<Seq<u64>>,
) -> Option<RelationRow> {
    match (e.kind, e.other, e.type_label) {
        (EdgeKindRef::Typed(relation_type), NodeRef::Entity(other), Some(type_label)) => if session_passes(
            filter,
            e.session,
        ) {
            let (from, to) = if outgoing {
                (entity, other)
            } else {
                (other, entity)
            };
            Some(
                RelationRow {
                    created_at: e.created_at_unix_nanos,
                    key: RelationKey { from, relation_type, to },
                    type_label: type_label@,
                },
            )
        } else {
            None
        },
        _ => None,
    }
}

/// Whether a relation is already listed.
pub open spec fn lists(rows: Seq<RelationRow>, key: RelationKey) -> bool {
    exists|k: int| #![trigger rows[k]] 0 <= k < rows.len() && rows[k].key == key
}

/// Adds the relations of some edges, each once.
pub open spec fn with_edges(
    rows: Seq<RelationRow>,
    entity: [u8; 16],
    edges: Seq<IncidentEdge>,
    outgoing: bool,
    filter: Option<Seq<u64>>,
) -> Seq<RelationRow>
    decreases edges.len(),
{
    if edges.len() == 0 {
        rows
    } else {
        let before = with_edges(rows, entity, edges.drop_last(), outgoing, filter);
        match relation_at(entity, edges.last(), outgoing, filter) {
            Some(row) if !lists(before, row.key) => before.push(row),
            _ => before,
        }
    }
}

/// All relations at the mentioned entities, each once: for each entity those
/// that go out, then those that come in.
pub open spec fn incident_relations(
    mentioned: Seq<EntityEdges>,
    filter: Option<Seq<u64>>,
) -> Seq<RelationRow>
    decreases mentioned.len(),
{
    if mentioned.len() == 0 {
        Seq::empty()
    } else {
        let e = mentioned.last();
        let before = incident_relations(mentioned.drop_last(), filter);
        let out = with_edges(before, e.entity, e.outgoing@, true, filter);
        with_edges(out, e.entity, e.incoming@, false, filter)
    }
}

/// The key by which the latest relation comes first.
pub open spec fn latest_key() -> spec_fn(RelationRow) -> int {
    |r: RelationRow| r.created_at as int
}

/// The relations shown: the latest.
pub open spec fn shown_relations(mentioned: Seq<EntityEdges>, filter: Option<Seq<u64>>) -> Seq<
    RelationRow,
> {
    at_most(ranked_by(incident_relations(mentioned, filter), latest_key()), RELATION_CAP as nat)
}

/// Whether an enriched relation shows a relation.
pub open spec fn shows_relation(
    e: EnrichedRelation,
    row: RelationRow,
    names: Seq<EntityName>,
) -> bool {
    &&& e.from_name@ == name_of(names, row.key.from)
    &&& e.predicate@ == row.type_label
    &&& e.to_name@ == name_of(names, row.key.to)
}

struct Listed {
    created_at: u64,
    from: [u8; 16],
    relation_type: u32,
    to: [u8; 16],
    type_label: String,
}

spec fn listed_row(l: Listed) -> RelationRow {
    RelationRow {
        created_at: l.created_at,
        key: RelationKey { from: l.from, relation_type: l.relation_type, to: l.to },
        type_label: l.type_label@,
    }
}

spec fn listed_rows(s: Seq<Listed>) -> Seq<RelationRow> {
    s.map_values(|l: Listed| listed_row(l))
}

fn is_listed(rows: &Vec<Listed>, from: &[u8; 16], relation_type: u32, to: &[u8; 16]) -> (r: bool)
    ensures
        r == lists(
            listed_rows(rows@),
            RelationKey { from: *from, relation_type, to: *to },
        ),
{
    let ghost all = listed_rows(rows@);
    let ghost key = RelationKey { from: *from, relation_type, to: *to };
    for k in 0..rows.len()
        invariant
            all == listed_rows(rows@),
            key == (RelationKey { from: *from, relation_type, to: *to }),
            forall|j: int| #![trigger all[j]] 0 <= j < k ==> all[j].key != key,
    {
        assert(all[k as int] == listed_row(rows@[k as int]));
        if rows[k].relation_type == relation_type && eq16(&rows[k].from, from) && eq16(
            &rows[k].to,
            to,
        ) {
            return true;
        }
    }
    false
}

fn add_edges(
    rows: &mut Vec<Listed>,
    entity: &[u8; 16],
    edges: &Vec<IncidentEdge>,
    outgoing: bool,
    filter: &Option<Vec<u64>>,
)
    ensures
        listed_rows(final(rows)@) == with_edges(
            listed_rows(old(rows)@),
            *entity,
            edges@,
            outgoing,
            filter_seq(*filter),
        ),
{
    let ghost start = listed_rows(rows@);
    let ghost f = filter_seq(*filter);
    for i in 0..edges.len()
        invariant
            f == filter_seq(*filter),
            listed_rows(rows@) == with_edges(start, *entity, edges@.take(i as int), outgoing, f),
    {
        assert(edges@.take(i + 1).drop_last() =~= edges@.take(i as int));
        let e = &edges[i];
        if let EdgeKindRef::Typed(relation_type) = e.kind {
            if let NodeRef::Entity(other) = e.other {
                if passes_session(filter, e.session) {
                    if let Some(type_label) = &e.type_label {
                        let (from, to) = if outgoing {
                            (*entity, other)
                        } else {
                            (other, *entity)
                        };
                        if !is_listed(rows, &from, relation_type, &to) {
                            let ghost before = rows@;
                            let next = Listed {
                                created_at: e.created_at_unix_nanos,
                                from,
                                relation_type,
                                to,
                                type_label: type_label.clone(),
                            };
                            rows.push(next);
                            assert(listed_rows(rows@) =~= listed_rows(before).push(
                                listed_row(next),
                            ));
                        }
                    }
                }
            }
        }
    }
    assert(edges@.take(edges@.len() as int) =~= edges@);
}

proof fn ranked_listed(s: Seq<Listed>)
    ensures
        ranked_by(listed_rows(s), latest_key()) == listed_rows(
            ranked_by(s, |l: Listed| l.created_at as int),
        ),
    decreases s.len(),
{
    let key = |l: Listed| l.created_at as int;
    let pairs = scored_by(s, key);
    let views = scored_by(listed_rows(s), latest_key());
    let lift = |p: (i128, Listed)| (p.0, listed_row(p.1));
    assert(views =~= pairs.map_values(lift));
    crate::ranking::ranked_maps(pairs, |l: Listed| listed_row(l));
    assert(crate::ranking::lifted(pairs, |l: Listed| listed_row(l)) =~= views);
    assert(ranked_by(listed_rows(s), latest_key()) =~= listed_rows(ranked_by(s, key)));
}

fn enrich_relations(
    mentioned: &Vec<EntityEdges>,
    filter: &Option<Vec<u64>>,
    names: &Vec<EntityName>,
) -> (r: Vec<EnrichedRelation>)
    ensures
        ({
            let shown = shown_relations(mentioned@, filter_seq(*filter));
            &&& r@.len() == shown.len()
            &&& forall|k: int|
                #![trigger r@[k]]
                0 <= k < r@.len() ==> shows_relation(r@[k], shown[k], names@)
        }),
{
    let ghost f = filter_seq(*filter);
    let mut rows: Vec<Listed> = Vec::new();
    assert(listed_rows(rows@) =~= Seq::empty());
    for i in 0..mentioned.len()
        invariant
            f == filter_seq(*filter),
            listed_rows(rows@) == incident_relations(mentioned@.take(i as int), f),
    {
        assert(mentioned@.take(i + 1).drop_last() =~= mentioned@.take(i as int));
        let e = &mentioned[i];
        add_edges(&mut rows, &e.entity, &e.outgoing, true, filter);
        add_edges(&mut rows, &e.entity, &e.incoming, false, filter);
    }
    assert(mentioned@.take(mentioned@.len() as int) =~= mentioned@);
    let ghost all = rows@;
    let ghost key = |l: Listed| l.created_at as int;
    let mut scored: Vec<(i128, Listed)> = Vec::new();
    for l in it: rows
        invariant
            it.seq() == all,
            key == (|l: Listed| l.created_at as int),
            scored@ == scored_by(all.take(it.index()), key),
    {
        let ghost n = it.index();
        let k: i128 = l.created_at as i128;
        scored.push((k, l));
        assert(scored_by(all.take(n + 1), key) =~= scored_by(all.take(n), key).push((k, l)));
    }
    assert(all.take(all.len() as int) =~= all);
    let mut kept = take_items(rank(scored));
    let ghost ordered = kept@;
    kept.truncate(RELATION_CAP);
    let ghost shown = shown_relations(mentioned@, f);
    proof {
        ranked_listed(all);
        assert(kept@ =~= at_most(ordered, RELATION_CAP as nat));
        assert(listed_rows(kept@) =~= shown);
    }
    let ghost list = kept@;
    let mut out: Vec<EnrichedRelation> = Vec::new();
    for l in it: kept
        invariant
            it.seq() == list,
            listed_rows(list) == shown,
            out@.len() == it.index(),
            forall|k: int|
                #![trigger out@[k]]
                0 <= k < out@.len() ==> shows_relation(out@[k], shown[k], names@),
    {
        let ghost n = it.index();
        assert(shown[n] == listed_row(l));
        let from_name = lookup_name(names, &l.from);
        let to_name = lookup_name(names, &l.to);
        out.push(EnrichedRelation { from_name, predicate: l.type_label, to_name });
    }
    out
}

/// Whether an enrichment shows what was read about a memory.
pub open spec fn enriches(
    g: GraphEnrichment,
    rows: MemoryGraphRows,
    filter: Option<Seq<u64>>,
    names: Seq<EntityName>,
) -> bool {
    let statements = shown_statements(rows.statements@, filter);
    let relations = shown_relations(rows.mentioned@, filter);
    &&& g.entities@.map_values(|e: EnrichedEntity| entity_view(e)) == shown_entities(
        at_most(rows.mentioned@, ENTITY_CAP as nat),
        names,
    )
    &&& g.statements@.len() == statements.len()
    &&& forall|k: int|
        #![trigger g.statements@[k]]
        0 <= k < statements.len() ==> shows_statement(g.statements@[k], statements[k], names)
    &&& g.relations@.len() == relations.len()
    &&& forall|k: int|
        #![trigger g.relations@[k]]
        0 <= k < relations.len() ==> shows_relation(g.relations@[k], relations[k], names)
}

/// Whether a memory went through extraction: there is a table of evidence, or
/// the memory mentions something.
pub open spec fn extracted(rows: MemoryGraphRows) -> bool {
    rows.evidence_table || rows.mentioned@.len() > 0
}

/// Whether an enrichment is the one of a memory: none where the memory did not
/// go through extraction, and one that may hold nothing where it did.
pub open spec fn is_enrichment(
    g: Option<GraphEnrichment>,
    rows: MemoryGraphRows,
    filter: Option<Seq<u64>>,
    names: Seq<EntityName>,
) -> bool {
    match g {
        Some(e) => extracted(rows) && enriches(e, rows, filter, names),
        None => !extracted(rows),
    }
}

/// Whether the graphs are those of the memories.
pub open spec fn enriches_memories(
    r: Vec<Option<GraphEnrichment>>,
    memories: Vec<MemoryGraphRows>,
    session_filter: Option<Vec<u64>>,
    names: Vec<EntityName>,
) -> bool {
    &&& r@.len() == memories@.len()
    &&& (forall|k: int|
        #![trigger r@[k]]
        0 <= k < r@.len() ==> is_enrichment(
            r@[k],
            memories@[k],
            filter_seq(session_filter),
            names@,
        ))
}

/// Enriches memories with what the typed graph knows of them: the entities
/// they mention, the most confident statements they are evidence of, and the
/// latest relations at those entities. A session list narrows statements and
/// relations. A memory that did not go through extraction has no enrichment.
pub fn fetch_enrichment_for(
    memories: Vec<MemoryGraphRows>,
    session_filter: &Option<Vec<u64>>,
    names: &Vec<EntityName>,
) -> (r: Vec<Option<GraphEnrichment>>)
    ensures
        enriches_memories(r, memories, *session_filter, *names),
{
    let ghost all = memories@;
    let mut out: Vec<Option<GraphEnrichment>> = Vec::new();
    for m in it: memories
        invariant
            it.seq() == all,
            out@.len() == it.index(),
            forall|k: int|
                #![trigger out@[k]]
                0 <= k < out@.len() ==> is_enrichment(
                    out@[k],
                    all[k],
                    filter_seq(*session_filter),
                    names@,
                ),
    {
        if m.evidence_table || m.mentioned.len() > 0 {
            let entities = enrich_entities(&m.mentioned, names);
            let relations = enrich_relations(&m.mentioned, session_filter, names);
            let statements = enrich_statements(m.statements, session_filter, names);
            out.push(Some(GraphEnrichment { entities, statements, relations }));
        } else {
            out.push(None);
        }
    }
    out
}

/// The last of the rows that are about a memory.
pub open spec fn last_about(memories: Seq<MemoryGraphRows>, id: u128) -> Option<int>
    decreases memories.len(),
{
    if memories.len() == 0 {
        None
    } else if memories.last().memory_id == id {
        Some(memories.len() - 1)
    } else {
        last_about(memories.drop_last(), id)
    }
}

proof fn last_is_there(memories: Seq<MemoryGraphRows>, id: u128)
    ensures
        last_about(memories, id) matches Some(k) ==> 0 <= k < memories.len(),
    decreases memories.len(),
{
    if memories.len() > 0 {
        last_is_there(memories.drop_last(), id);
    }
}

/// Whether a map holds the enrichments of memories: one for each memory that
/// went through extraction, and no other.
pub open spec fn holds_graphs(
    graphs: Map<u128, GraphEnrichment>,
    memories: Seq<MemoryGraphRows>,
    filter: Option<Seq<u64>>,
    names: Seq<EntityName>,
) -> bool {
    forall|id: u128|
        #![trigger graphs.dom().contains(id)]
        match last_about(memories, id) {
            Some(k) if extracted(memories[k]) => graphs.dom().contains(id) && enriches(
                graphs[id],
                memories[k],
                filter,
                names,
            ),
            _ => !graphs.dom().contains(id),
        }
}

/// The enrichments of memories, by memory.
pub fn graphs_by_memory(
    memories: Vec<MemoryGraphRows>,
    session_filter: &Option<Vec<u64>>,
    names: &Vec<EntityName>,
) -> (r: HashMap<u128, GraphEnrichment>)
    ensures
        holds_graphs(r@, memories@, filter_seq(*session_filter), names@),
{
    broadcast use vstd::std_specs::hash::group_hash_axioms;

    let ghost all = memories@;
    let ghost filter = filter_seq(*session_filter);
    let mut ids: Vec<u128> = Vec::new();
    for i in 0..memories.len()
        invariant
            all == memories@,
            ids@.len() == i,
            forall|k: int| 0 <= k < i ==> ids@[k] == (#[trigger] all[k]).memory_id,
    {
        ids.push(memories[i].memory_id);
    }
    let enriched = fetch_enrichment_for(memories, session_filter, names);
    let ghost list = enriched@;
    let mut out: HashMap<u128, GraphEnrichment> = HashMap::new();
    let mut i: usize = 0;
    for g in it: enriched
        invariant
            i == it.index(),
            it.seq() == list,
            list.len() == all.len(),
            ids@.len() == all.len(),
            forall|k: int| 0 <= k < all.len() ==> ids@[k] == (#[trigger] all[k]).memory_id,
            forall|k: int|
                #![trigger list[k]]
                0 <= k < list.len() ==> is_enrichment(list[k], all[k], filter, names@),
            holds_graphs(out@, all.take(it.index()), filter, names@),
    {
        let ghost n = it.index();
        let ghost before = out@;
        let id: u128 = ids[i];
        match g {
            Some(e) => {
                out.insert(id, e);
            },
            None => {
                out.remove(&id);
            },
        }
        i = i + 1;
        proof {
            assert(all.take(n + 1).drop_last() =~= all.take(n));
            assert(all.take(n + 1).last() == all[n]);
            assert forall|x: u128| #![trigger out@.dom().contains(x)] match last_about(
                all.take(n + 1),
                x,
            ) {
                Some(k) if extracted(all.take(n + 1)[k]) => out@.dom().contains(x) && enriches(
                    out@[x],
                    all.take(n + 1)[k],
                    filter,
                    names@,
                ),
                _ => !out@.dom().contains(x),
            } by {
                if x != id {
                    last_is_there(all.take(n), x);
                    assert(before.dom().contains(x) == out@.dom().contains(x));
                }
            }
        }
    }
    assert(all.take(all.len() as int) =~= all);
    out
}

/// A relation is listed once, though both of its ends may be mentioned.
pub proof fn relations_are_listed_once(
    mentioned: Seq<EntityEdges>,
    filter: Option<Seq<u64>>,
    a: int,
    b: int,
)
    requires
        0 <= a < b < incident_relations(mentioned, filter).len(),
    ensures
        incident_relations(mentioned, filter)[a].key != incident_relations(mentioned, filter)[b].key,
{
    incident_distinct(mentioned, filter);
}

spec fn distinct_keys(rows: Seq<RelationRow>) -> bool {
    forall|a: int, b: int|
        #![trigger rows[a], rows[b]]
        0 <= a < b < rows.len() ==> rows[a].key != rows[b].key
}

proof fn edges_keep_distinct(
    rows: Seq<RelationRow>,
    entity: [u8; 16],
    edges: Seq<IncidentEdge>,
    outgoing: bool,
    filter: Option<Seq<u64>>,
)
    requires
        distinct_keys(rows),
    ensures
        distinct_keys(with_edges(rows, entity, edges, outgoing, filter)),
    decreases edges.len(),
{
    if edges.len() > 0 {
        edges_keep_distinct(rows, entity, edges.drop_last(), outgoing, filter);
    }
}

proof fn incident_distinct(mentioned: Seq<EntityEdges>, filter: Option<Seq<u64>>)
    ensures
        distinct_keys(incident_relations(mentioned, filter)),
    decreases mentioned.len(),
{
    if mentioned.len() > 0 {
        let e = mentioned.last();
        incident_distinct(mentioned.drop_last(), filter);
        let before = incident_relations(mentioned.drop_last(), filter);
        edges_keep_distinct(before, e.entity, e.outgoing@, true, filter);
        edges_keep_distinct(
            with_edges(before, e.entity, e.outgoing@, true, filter),
            e.entity,
            e.incoming@,
            false,
            filter,
        );
    }
}

} // verus!
