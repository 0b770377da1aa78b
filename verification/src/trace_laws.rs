//! What traces tell of an encode and of a recall.
use vstd::prelude::*;

use std::collections::HashMap;
use crate::bytes::be_value;
use crate::encode_graph::{
    collects_artifacts, graph_edges, graph_nodes, literal_nodes, named, statement_target,
    EncodeTraceArtifacts, EncodeTraceEntity, EncodeTraceStatement, LiteralId,
};
use crate::encode_trace::{
    attached, attaches_artifacts, drained_detail, drains, stage_name, starts, traces_embedding,
    traces_persistence, traces_reservation, traces_validation, DrainEvent, DrainStep,
    EncodeTraceStage, PersistedRow,
};
use crate::error::OpError;
use crate::events::{StageKind, StageOutcome, StagePayload};
use crate::inference_laws::tells_text_of;
use crate::labels::{name_entry, name_of, EntityName};
use crate::projection::{RankedItemId, TextRead};
use crate::query::Retriever;
use crate::recall::{GraphEnrichment, Lane};
use crate::recall_trace::{
    candidate_label, collects_candidates, first_for, first_unreadable, memory_ids, reads_texts,
    relation_row, shows_candidate, shows_lane, shows_trace, statement_row, tagged, texts_by_id,
    QueryMetadata, RecallTrace, RerankOutcome, RetrieverStatus, TypedRows,
};
use crate::single::Single;
use crate::statement::{StatementObject, SubjectRef};
use crate::subscribe::EventEnvelope;
use crate::text::{decimal, trimmed};

verus! {

// Stages of an encode.

/// The stages of an encode tell their name, their time, and what they made: an
/// embedding its vector, a stored row its record.
pub proof fn stages_tell_what_was_made(
    validated: EncodeTraceStage,
    embedded: EncodeTraceStage,
    reserved: EncodeTraceStage,
    persisted: EncodeTraceStage,
    vector: Vec<Single>,
    row: PersistedRow,
    latency_us: u64,
)
    requires
        traces_validation(validated, latency_us),
        traces_embedding(embedded, vector, latency_us),
        traces_reservation(reserved, row.memory_id, latency_us),
        traces_persistence(persisted, row, latency_us),
    ensures
        validated.name@ == "validate"@ && embedded.name@ == "embed"@ && reserved.name@
            == "reserve"@ && persisted.name@ == "persist"@,
        validated.status is Done && embedded.status is Done && reserved.status is Done
            && persisted.status is Done,
        (validated.latency_us, embedded.latency_us) == (latency_us, latency_us),
        (reserved.latency_us, persisted.latency_us) == (latency_us, latency_us),
        embedded.detail@ == "dim="@ + decimal(vector@.len()),
        reserved.detail@ == "memory_id="@ + decimal(row.memory_id as nat),
        persisted.detail@ == "lsn="@ + decimal(row.lsn as nat),
        validated.detail@.len() == 0,
        embedded.artifact matches Some(a) && a.vector@ == vector@,
        validated.artifact is None && reserved.artifact is None,
        persisted.artifact matches Some(a) && (a.record matches Some(rec) && {
            &&& be_value(rec.memory_id@) == row.memory_id
            &&& (rec.salience, rec.created_at_unix_nanos, rec.lsn) == (
                row.salience,
                row.created_at_unix_nanos,
                row.lsn,
            )
            &&& row.occurred_at_unix_nanos matches Some(t) ==> rec.occurred_at_unix_nanos == t
            &&& row.occurred_at_unix_nanos is None ==> rec.occurred_at_unix_nanos == 0
            &&& row.vector_dim <= u32::MAX ==> rec.vector_dim == row.vector_dim
            &&& row.text_len <= u32::MAX ==> rec.text_len == row.text_len
        }),
{
    crate::bytes::pow256_values();
    crate::bytes::be_round_trip(row.memory_id as nat, 16);
}

/// A completed stage tells what it wrote: how many edges or questions, or how
/// many entities, statements and relations, with the error where there was one.
pub proof fn completed_stages_tell_what_they_wrote(payload: Option<StagePayload>)
    ensures
        payload is None ==> drained_detail(payload).len() == 0,
        payload matches Some(StagePayload::AutoEdge { edges_written }) ==> drained_detail(payload)
            == "edges="@ + decimal(edges_written as nat),
        payload matches Some(StagePayload::TemporalEdge { edges_written }) ==> drained_detail(
            payload,
        ) == "edges="@ + decimal(edges_written as nat),
        payload matches Some(StagePayload::Hype { questions_written }) ==> drained_detail(payload)
            == "questions="@ + decimal(questions_written as nat),
        payload matches Some(StagePayload::Extractor(p)) ==> {
            let counts = "entities="@ + decimal(p.entity_count as nat) + " statements="@ + decimal(
                p.statement_count as nat,
            ) + " relations="@ + decimal(p.relation_count as nat) + " audit="@ + p.audit_status@;
            &&& p.error_message@.len() == 0 ==> drained_detail(payload) == counts
            &&& p.error_message@.len() > 0 ==> drained_detail(payload) == counts + " error="@
                + p.error_message@
        },
{
}

/// Whether a traced stage tells a completed one: by its name, and as failed
/// only where it failed.
pub open spec fn tells_completion(s: EncodeTraceStage, kind: StageKind, env: EventEnvelope, us: u64) -> bool {
    &&& kind is AutoEdge ==> s.name@ == "auto_edge"@
    &&& kind is TemporalEdge ==> s.name@ == "temporal_edge"@
    &&& kind is Extractor ==> s.name@ == "extractor"@
    &&& kind is Hype ==> s.name@ == "hype"@
    &&& s.status is Failed <==> env.stage_outcome == Some(StageOutcome::Failed)
    &&& s.status is Done <==> env.stage_outcome != Some(StageOutcome::Failed)
    &&& s.latency_us == us && s.artifact is None
    &&& s.detail@ == drained_detail(env.stage_payload)
}

/// The completion of a stage of this memory that is waited for is told, and the
/// stage is waited for no longer; any other event changes nothing. When nothing
/// is left the wait is over.
pub proof fn completions_of_the_memory_are_told(
    before: Seq<StageKind>,
    after: Seq<StageKind>,
    memory_id: u128,
    env: EventEnvelope,
    latency_us: u64,
    r: DrainStep,
    kind: StageKind,
)
    requires
        drains(before, after, memory_id, DrainEvent::Received(env), latency_us, r),
    ensures
        r is Done <==> after.len() == 0,
        env.event_type is StageCompleted && env.memory_id == memory_id && env.stage_kind == Some(
            kind,
        ) && before.contains(kind) ==> {
            &&& after.len() == before.len() - 1
            &&& after.to_multiset() == before.to_multiset().remove(kind)
            &&& r matches DrainStep::Wait(s) ==> (s matches Some(t) && tells_completion(
                t,
                kind,
                env,
                latency_us,
            ))
            &&& r matches DrainStep::Done(s) ==> s@.len() == 1 && tells_completion(
                s@[0],
                kind,
                env,
                latency_us,
            )
        },
        env.event_type !is StageCompleted || env.memory_id != memory_id || env.stage_kind is None
            || !before.contains(env.stage_kind->0) ==> after == before && (r matches DrainStep::Wait(s)
            ==> s is None),
{
    broadcast use vstd::seq_lib::group_to_multiset_ensures;

    crate::encode_trace::events_complete_one_stage(before, memory_id, env);
    if env.event_type is StageCompleted && env.memory_id == memory_id && env.stage_kind == Some(
        kind,
    ) && before.contains(kind) {
        assert(before.to_multiset().count(kind) > 0);
        assert(after.len() == after.to_multiset().len());
        assert(before.len() == before.to_multiset().len());
    }
}

/// Where no stage is left there is nothing to wait for; a receiver that fell
/// behind goes on as it began.
pub proof fn waits_start_only_for_open_stages(
    begun: DrainStep,
    before: Seq<StageKind>,
    after: Seq<StageKind>,
    memory_id: u128,
    latency_us: u64,
    r: DrainStep,
)
    requires
        starts(begun, before),
        drains(before, after, memory_id, DrainEvent::Lagged, latency_us, r),
    ensures
        before.len() == 0 ==> (begun matches DrainStep::Done(s) && s@.len() == 0) && (
        r matches DrainStep::Done(s) && s@.len() == 0),
        before.len() > 0 ==> begun == DrainStep::Wait(None) && r == DrainStep::Wait(None),
        after == before,
{
}

/// When the wait ends early, every stage still waited for is told as timed out,
/// in order, and nothing else is.
pub proof fn open_stages_are_told_as_timed_out(
    before: Seq<StageKind>,
    after: Seq<StageKind>,
    memory_id: u128,
    event: DrainEvent,
    latency_us: u64,
    r: DrainStep,
    i: int,
)
    requires
        drains(before, after, memory_id, event, latency_us, r),
        event is Closed || event is TimedOut,
    ensures
        after == before,
        r matches DrainStep::Done(s) && s@.len() == before.len() && (0 <= i < before.len()
            ==> s@[i].status is Timeout && s@[i].latency_us == 0 && s@[i].artifact is None
            && s@[i].name@ == stage_name(before[i])),
{
    if let DrainStep::Done(s) = r {
        if 0 <= i < before.len() {
            assert(crate::encode_trace::timed_out(s@[i], before[i]));
        }
    }
}

/// The artifacts of an encode go to the stages that made them: the graph to the
/// extractor, the keywords to the stored row, the questions to theirs. No stage
/// changes otherwise.
pub proof fn artifacts_go_to_their_stages(
    r: Vec<EncodeTraceStage>,
    stages: Vec<EncodeTraceStage>,
    graph: crate::encode_graph::EncodeStageGraph,
    keywords: Vec<String>,
    questions: Vec<String>,
    i: int,
)
    requires
        attaches_artifacts(r, stages, graph, keywords, questions),
        0 <= i < stages@.len(),
    ensures
        r@.len() == stages@.len(),
        r@[i].name@ == stages@[i].name@ && r@[i].status == stages@[i].status && r@[i].latency_us
            == stages@[i].latency_us && r@[i].detail@ == stages@[i].detail@,
        stages@[i].name@ == "extractor"@ && (forall|k: int|
            0 <= k < i ==> (#[trigger] stages@[k]).name@ != "extractor"@) ==> (
        r@[i].artifact matches Some(a) && a.graph == Some(graph)),
        stages@[i].name@ == "extractor"@ && (exists|k: int|
            0 <= k < i && (#[trigger] stages@[k]).name@ == "extractor"@) && "persist"@
            != "extractor"@ && "hype"@ != "extractor"@ ==> r@[i].artifact == stages@[i].artifact,
        stages@[i].name@ == "persist"@ && (forall|k: int|
            0 <= k < i ==> (#[trigger] stages@[k]).name@ != "persist"@) && keywords@.len() > 0
            && "persist"@ != "extractor"@ ==> (r@[i].artifact matches Some(a) && a.keyword_fields@
            == keywords@ && (stages@[i].artifact matches Some(b) ==> a.record == b.record
            && a.vector@ == b.vector@)),
        stages@[i].name@ == "hype"@ && (forall|k: int|
            0 <= k < i ==> (#[trigger] stages@[k]).name@ != "hype"@) && questions@.len() > 0
            && "hype"@ != "extractor"@ && "hype"@ != "persist"@ ==> (r@[i].artifact matches Some(a)
            && a.hype_questions@ == questions@),
        stages@[i].name@ != "extractor"@ && stages@[i].name@ != "persist"@ && stages@[i].name@
            != "hype"@ ==> r@[i].artifact == stages@[i].artifact,
{
    assert(attached(stages@, r@, i, graph, keywords, questions));
}

/// The names of the stages differ.
pub proof fn stage_names_differ()
    ensures
        "persist"@ != "extractor"@,
        "hype"@ != "extractor"@,
        "hype"@ != "persist"@,
        "auto_edge"@ != "temporal_edge"@,
{
    reveal_strlit("persist");
    reveal_strlit("extractor");
    reveal_strlit("hype");
    reveal_strlit("auto_edge");
    reveal_strlit("temporal_edge");
    assert("persist"@.len() != "extractor"@.len());
    assert("hype"@.len() != "extractor"@.len());
    assert("hype"@.len() != "persist"@.len());
    assert("auto_edge"@.len() != "temporal_edge"@.len());
}

/// The artifacts of an encode hold every row of its graph, and say which
/// indexes were written and which memory was matched.
pub proof fn artifacts_hold_the_graph(
    r: EncodeTraceArtifacts,
    enrichment: Option<GraphEnrichment>,
    memory_text: bool,
    statement_text: bool,
    was_deduplicated: bool,
    matched: Option<u128>,
    i: int,
)
    requires
        collects_artifacts(
            r,
            enrichment,
            memory_text,
            statement_text,
            was_deduplicated,
            matched,
        ),
    ensures
        enrichment is None ==> r.entities@.len() == 0 && r.statements@.len() == 0
            && r.relations@.len() == 0,
        enrichment matches Some(g) ==> {
            &&& r.entities@.len() == g.entities@.len() && r.statements@.len() == g.statements@.len()
                && r.relations@.len() == g.relations@.len()
            &&& 0 <= i < g.entities@.len() ==> r.entities@[i].id == g.entities@[i].id
                && r.entities@[i].name@ == g.entities@[i].name@ && r.entities@[i].type_qname@
                == g.entities@[i].type_qname@
            &&& 0 <= i < g.statements@.len() ==> r.statements@[i].id == g.statements@[i].id
                && r.statements@[i].subject_name@ == g.statements@[i].subject_name@
                && r.statements@[i].predicate@ == g.statements@[i].predicate@
                && r.statements@[i].object_name@ == g.statements@[i].object_label@ && (
                r.statements@[i].confidence,
                r.statements@[i].event_at_unix_nanos,
            ) == (g.statements@[i].confidence, g.statements@[i].event_at_unix_nanos)
            &&& 0 <= i < g.relations@.len() ==> r.relations@[i].source_name@
                == g.relations@[i].from_name@ && r.relations@[i].predicate@
                == g.relations@[i].predicate@ && r.relations@[i].target_name@
                == g.relations@[i].to_name@
        },
        r.indexes@.len() == 3 && r.indexes@[0].status is Done,
        r.indexes@[1].status is Done <==> memory_text,
        r.indexes@[2].status is Done <==> statement_text && r.statements@.len() > 0,
        r.indexes@[1].status is Skipped <==> !memory_text,
        r.dedup.was_deduplicated == was_deduplicated,
        r.dedup.matched_memory_id is Some <==> matched is Some,
        matched matches Some(id) ==> be_value(r.dedup.matched_memory_id->0@) == id,
{
    crate::bytes::pow256_values();
    if let Some(id) = matched {
        crate::bytes::be_round_trip(id as nat, 16);
    }
    if let Some(g) = enrichment {
        if 0 <= i < g.entities@.len() {
            assert(r.entities@[i].id == g.entities@[i].id);
        }
        if 0 <= i < g.statements@.len() {
            assert(r.statements@[i].id == g.statements@[i].id);
        }
        if 0 <= i < g.relations@.len() {
            assert(r.relations@[i].predicate == g.relations@[i].predicate);
        }
    }
}

proof fn names_are_looked_up(entities: Seq<EncodeTraceEntity>, i: int)
    requires
        0 <= i < entities.len(),
        forall|j: int|
            i < j < entities.len() ==> (#[trigger] entities[j]).name@ != entities[i].name@,
    ensures
        named(entities, entities[i].name@) == Some(entities[i].id),
    decreases entities.len(),
{
    let front = entities.drop_last();
    assert(entities.last() == entities[entities.len() - 1]);
    if i < front.len() {
        assert(front[i] == entities[i]);
        assert forall|j: int| i < j < front.len() implies (#[trigger] front[j]).name@
            != front[i].name@ by {
            assert(entities[j] == front[j]);
        }
        names_are_looked_up(front, i);
    }
}

/// The graph of an encode has a node for every entity, and an edge for every
/// statement and every relation between the nodes of their names.
pub proof fn encode_graphs_connect_their_names(
    a: EncodeTraceArtifacts,
    lit: LiteralId,
    i: int,
    k: int,
    j: int,
)
    requires
        0 <= i < a.entities@.len(),
        0 <= j < a.entities@.len(),
        forall|x: int, y: int|
            #![trigger a.entities@[x], a.entities@[y]]
            0 <= x < y < a.entities@.len() ==> a.entities@[x].name@ != a.entities@[y].name@,
    ensures
        graph_nodes(a, lit).len() >= a.entities@.len(),
        graph_nodes(a, lit)[i].id == a.entities@[i].id && graph_nodes(a, lit)[i].name
            == a.entities@[i].name@ && graph_nodes(a, lit)[i].kind == "entity"@,
        graph_edges(a, lit).len() == a.statements@.len() + a.relations@.len(),
        0 <= k < a.statements@.len() && a.statements@[k].subject_name@ == a.entities@[i].name@
            ==> graph_edges(a, lit)[k].source == a.entities@[i].id,
        0 <= k < a.statements@.len() && a.statements@[k].object_name@ == a.entities@[j].name@
            ==> graph_edges(a, lit)[k].target == a.entities@[j].id,
        0 <= k < a.statements@.len() ==> {
            let e = graph_edges(a, lit)[k];
            &&& e.kind == "statement"@ && e.predicate == a.statements@[k].predicate@
            &&& (e.confidence, e.event_at_unix_nanos) == (
                a.statements@[k].confidence,
                a.statements@[k].event_at_unix_nanos,
            )
        },
        0 <= k < a.relations@.len() ==> {
            let e = graph_edges(a, lit)[a.statements@.len() + k];
            &&& e.kind == "relation"@ && e.predicate == a.relations@[k].predicate@
            &&& e.confidence.bits == 0x3F80_0000
            &&& a.relations@[k].source_name@ == a.entities@[i].name@ ==> e.source
                == a.entities@[i].id
            &&& a.relations@[k].target_name@ == a.entities@[j].name@ ==> e.target
                == a.entities@[j].id
        },
{
    names_are_looked_up(a.entities@, i);
    names_are_looked_up(a.entities@, j);
}

proof fn absent_names_are_not_found(entities: Seq<EncodeTraceEntity>, name: Seq<char>)
    ensures
        named(entities, name) is None <==> forall|i: int|
            0 <= i < entities.len() ==> (#[trigger] entities[i]).name@ != name,
    decreases entities.len(),
{
    if entities.len() > 0 {
        let front = entities.drop_last();
        absent_names_are_not_found(front, name);
        assert(forall|i: int| 0 <= i < front.len() ==> front[i] == #[trigger] entities[i]);
        assert(entities[entities.len() - 1] == entities.last());
        if named(entities, name) is None {
            assert forall|i: int| 0 <= i < entities.len() implies (
            #[trigger] entities[i]).name@ != name by {
                if i < front.len() {
                    assert(front[i].name@ != name);
                }
            }
        } else if entities.last().name@ != name {
            let i = choose|i: int| 0 <= i < front.len() && (#[trigger] front[i]).name@ == name;
            assert(entities[i].name@ == name);
        }
    }
}

proof fn literals_come_from_objects(
    entities: Seq<EncodeTraceEntity>,
    statements: Seq<EncodeTraceStatement>,
    lit: LiteralId,
    x: int,
)
    requires
        0 <= x < literal_nodes(entities, statements, lit).len(),
    ensures
        ({
            let n = literal_nodes(entities, statements, lit)[x];
            &&& n.kind == "literal"@ && n.type_qname.len() == 0
            &&& named(entities, n.name) is None
            &&& exists|k: int|
                0 <= k < statements.len() && (#[trigger] statements[k]).object_name@ == n.name
                    && statement_target(entities, statements[k], lit) == n.id
        }),
    decreases statements.len(),
{
    if statements.len() > 0 {
        let front = statements.drop_last();
        let before = literal_nodes(entities, front, lit);
        let n = literal_nodes(entities, statements, lit)[x];
        if x < before.len() {
            literals_come_from_objects(entities, front, lit, x);
            let k = choose|k: int|
                0 <= k < front.len() && (#[trigger] front[k]).object_name@ == before[x].name
                    && statement_target(entities, front[k], lit) == before[x].id;
            assert(statements[k] == front[k]);
            assert(n == before[x]);
        } else {
            assert(statements[statements.len() - 1] == statements.last());
        }
    }
}

/// Beside its entities, the graph of an encode has nodes for objects that name
/// none of them: such a node bears the words of its object, and the edge of the
/// statement ends at it.
pub proof fn other_nodes_are_literals(a: EncodeTraceArtifacts, lit: LiteralId, x: int)
    requires
        a.entities@.len() <= x < graph_nodes(a, lit).len(),
    ensures
        ({
            let n = graph_nodes(a, lit)[x];
            &&& n.kind == "literal"@ && n.type_qname.len() == 0
            &&& forall|i: int|
                0 <= i < a.entities@.len() ==> (#[trigger] a.entities@[i]).name@ != n.name
            &&& exists|k: int|
                0 <= k < a.statements@.len() && (#[trigger] a.statements@[k]).object_name@ == n.name
                    && graph_edges(a, lit)[k].target == n.id
        }),
{
    let y = x - a.entities@.len();
    let n = literal_nodes(a.entities@, a.statements@, lit)[y];
    assert(graph_nodes(a, lit)[x] == n);
    literals_come_from_objects(a.entities@, a.statements@, lit, y);
    absent_names_are_not_found(a.entities@, n.name);
    let k = choose|k: int|
        0 <= k < a.statements@.len() && (#[trigger] a.statements@[k]).object_name@ == n.name
            && statement_target(a.entities@, a.statements@[k], lit) == n.id;
    assert(graph_edges(a, lit)[k].target == n.id);
}

/// A statement about something that names no entity starts at the zero id, and
/// one whose object names none ends at the id minted for its source, predicate
/// and object.
pub proof fn unknown_names_have_their_own_ends(a: EncodeTraceArtifacts, lit: LiteralId, k: int)
    requires
        0 <= k < a.statements@.len(),
    ensures
        (forall|i: int|
            0 <= i < a.entities@.len() ==> (#[trigger] a.entities@[i]).name@
                != a.statements@[k].subject_name@) ==> graph_edges(a, lit)[k].source@ == Seq::new(
            16,
            |b: int| 0u8,
        ),
        (forall|i: int|
            0 <= i < a.entities@.len() ==> (#[trigger] a.entities@[i]).name@
                != a.statements@[k].object_name@) ==> graph_edges(a, lit)[k].target == lit(
            graph_edges(a, lit)[k].source,
            a.statements@[k].predicate@,
            a.statements@[k].object_name@,
        ),
{
    absent_names_are_not_found(a.entities@, a.statements@[k].subject_name@);
    absent_names_are_not_found(a.entities@, a.statements@[k].object_name@);
    crate::bytes::zero_id_is_zero();
}

// Traces of a recall.

proof fn first_is_found<T>(list: Seq<(Retriever, T)>, i: int)
    requires
        0 <= i < list.len(),
        forall|j: int| 0 <= j < i ==> (#[trigger] list[j]).0 != list[i].0,
    ensures
        first_for(list, list[i].0) == Some(list[i].1),
    decreases list.len(),
{
    if i > 0 {
        let rest = list.skip(1);
        assert(list[0].0 != list[i].0);
        assert(rest[i - 1] == list[i]);
        assert forall|j: int| 0 <= j < i - 1 implies (#[trigger] rest[j]).0 != rest[i - 1].0 by {
            assert(list[j + 1] == rest[j]);
        }
        first_is_found(rest, i - 1);
    }
}

/// Whether a lane of the answer is a retriever.
pub open spec fn is_lane_of(l: Lane, r: Retriever) -> bool {
    &&& l is Semantic <==> r is Semantic
    &&& l is Lexical <==> r is Lexical
    &&& l is Graph <==> r is Graph
}

/// Whether a status is told as it was.
pub open spec fn tells_status(
    told: crate::recall_trace::RecallTraceRetrieverStatus,
    detail: Seq<char>,
    s: RetrieverStatus,
) -> bool {
    &&& told is Success <==> s is Success
    &&& told is Skipped <==> s is Skipped
    &&& told is Timeout <==> s is Timeout
    &&& told is Failure <==> s is Failure
    &&& s matches RetrieverStatus::Skipped(why) ==> detail == why@
    &&& s matches RetrieverStatus::Failure(why) ==> detail == why@
    &&& s is Success || s is Timeout ==> detail.len() == 0
}

/// The trace of a recall tells how every retriever did, in order, with its own
/// latency, count and candidates, and how many were left after every filter.
pub proof fn recall_traces_tell_every_retriever(
    t: RecallTrace,
    meta: QueryMetadata,
    texts: Map<u128, String>,
    typed: TypedRows,
    k: int,
    i: int,
    c: int,
)
    requires
        shows_trace(t, meta, texts, typed),
    ensures
        t.retrievers@.len() == meta.retriever_outcomes@.len(),
        t.total_latency_ms == meta.total_latency_ms,
        0 <= k < meta.retriever_outcomes@.len() ==> {
            let (x, o) = (t.retrievers@[k], meta.retriever_outcomes@[k]);
            &&& is_lane_of(x.name, o.retriever)
            &&& tells_status(x.status, x.status_detail@, o.status)
            &&& 0 <= i < meta.retriever_latencies_ms@.len()
                && meta.retriever_latencies_ms@[i].0 == o.retriever && (forall|j: int|
                0 <= j < i ==> (#[trigger] meta.retriever_latencies_ms@[j]).0 != o.retriever)
                ==> x.latency_ms == meta.retriever_latencies_ms@[i].1
            &&& 0 <= i < meta.retriever_total_results@.len()
                && meta.retriever_total_results@[i].0 == o.retriever && (forall|j: int|
                0 <= j < i ==> (#[trigger] meta.retriever_total_results@[j]).0 != o.retriever)
                && meta.retriever_total_results@[i].1 <= u32::MAX ==> x.candidate_count
                == meta.retriever_total_results@[i].1
            &&& 0 <= i < meta.retriever_candidates@.len()
                && meta.retriever_candidates@[i].0 == o.retriever && (forall|j: int|
                0 <= j < i ==> (#[trigger] meta.retriever_candidates@[j]).0 != o.retriever) ==> {
                let l = meta.retriever_candidates@[i].1@;
                &&& x.candidates@.len() == l.len()
                &&& 0 <= c < l.len() ==> x.candidates@[c].score == l[c].1 && (
                l[c].0 matches RankedItemId::Memory(id) ==> x.candidates@[c].item_id == id
                    && x.candidates@[c].kind is Memory && tells_text_of(
                    x.candidates@[c].text@,
                    texts,
                    id,
                ))
            }
        },
        ({
            let (f, s) = (t.filter_chain, meta.filter_stats);
            &&& (f.before, f.after_type, f.after_temporal, f.after_confidence) == (
                s.before,
                s.after_type,
                s.after_temporal,
                s.after_confidence,
            )
            &&& (f.after_tombstone, f.after_supersession, f.after_as_of, f.after_limit) == (
                s.after_tombstone,
                s.after_supersession,
                s.after_as_of,
                s.after_limit,
            )
            &&& f.dropped_by_supersession@.len() == s.dropped_by_supersession@.len()
            &&& f.dropped_by_as_of@.len() == s.dropped_by_as_of@.len()
            &&& f.dropped_by_limit@.len() == s.dropped_by_limit@.len()
        }),
        t.rerank is None <==> meta.rerank is None,
        meta.rerank matches Some(RerankOutcome::Applied { candidates, latency_ms }) ==> (
        t.rerank matches Some(x) && x.applied && x.latency_ms == latency_ms && (candidates
            <= u32::MAX ==> x.candidates == candidates)),
        meta.rerank matches Some(RerankOutcome::SkippedNoCandidates) ==> (t.rerank matches Some(x)
            && !x.applied && x.candidates == 0),
{
    if 0 <= k < meta.retriever_outcomes@.len() {
        let o = meta.retriever_outcomes@[k];
        let x = t.retrievers@[k];
        assert(shows_lane(x, o, meta, texts, typed));
        if 0 <= i < meta.retriever_latencies_ms@.len() && meta.retriever_latencies_ms@[i].0
            == o.retriever && (forall|j: int|
            0 <= j < i ==> (#[trigger] meta.retriever_latencies_ms@[j]).0 != o.retriever) {
            first_is_found(meta.retriever_latencies_ms@, i);
        }
        if 0 <= i < meta.retriever_total_results@.len() && meta.retriever_total_results@[i].0
            == o.retriever && (forall|j: int|
            0 <= j < i ==> (#[trigger] meta.retriever_total_results@[j]).0 != o.retriever) {
            first_is_found(meta.retriever_total_results@, i);
        }
        if 0 <= i < meta.retriever_candidates@.len() && meta.retriever_candidates@[i].0
            == o.retriever && (forall|j: int|
            0 <= j < i ==> (#[trigger] meta.retriever_candidates@[j]).0 != o.retriever) {
            first_is_found(meta.retriever_candidates@, i);
            let l = meta.retriever_candidates@[i].1@;
            if 0 <= c < l.len() {
                assert(shows_candidate(x.candidates@[c], l[c], texts, typed));
            }
        }
    }
}

proof fn dropped_memories_are_listed(ids: Seq<RankedItemId>, id: u128)
    ensures
        memory_ids(ids).contains(id) <==> ids.contains(RankedItemId::Memory(id)),
    decreases ids.len(),
{
    if ids.len() > 0 {
        let front = ids.drop_last();
        let (before, all) = (memory_ids(front), memory_ids(ids));
        dropped_memories_are_listed(front, id);
        assert(ids.last() == ids[ids.len() - 1]);
        if before.contains(id) {
            let k = choose|k: int| 0 <= k < before.len() && before[k] == id;
            assert(all[k] == id);
            let j = choose|j: int| 0 <= j < front.len() && front[j] == RankedItemId::Memory(id);
            assert(ids[j] == front[j]);
        }
        if ids.last() == RankedItemId::Memory(id) {
            assert(all[before.len() as int] == id);
        }
        if all.contains(id) && !before.contains(id) {
            let k = choose|k: int| 0 <= k < all.len() && all[k] == id;
            if k < before.len() {
                assert(before[k] == id);
            }
            assert(ids.last() == RankedItemId::Memory(id));
        }
        if ids.contains(RankedItemId::Memory(id)) {
            let j = choose|j: int| 0 <= j < ids.len() && ids[j] == RankedItemId::Memory(id);
            if j < front.len() {
                assert(front[j] == ids[j]);
            }
        }
    }
}

/// A trace names every memory that a filter dropped.
pub proof fn traces_name_dropped_memories(
    t: RecallTrace,
    meta: QueryMetadata,
    texts: Map<u128, String>,
    typed: TypedRows,
    id: u128,
)
    requires
        shows_trace(t, meta, texts, typed),
    ensures
        ({
            let (f, s) = (t.filter_chain, meta.filter_stats);
            let m = RankedItemId::Memory(id);
            &&& f.dropped_by_type@.contains(id) <==> s.dropped_by_type@.contains(m)
            &&& f.dropped_by_temporal@.contains(id) <==> s.dropped_by_temporal@.contains(m)
            &&& f.dropped_by_confidence@.contains(id) <==> s.dropped_by_confidence@.contains(m)
            &&& f.dropped_by_tombstone@.contains(id) <==> s.dropped_by_tombstone@.contains(m)
        }),
{
    let s = meta.filter_stats;
    dropped_memories_are_listed(s.dropped_by_type@, id);
    dropped_memories_are_listed(s.dropped_by_temporal@, id);
    dropped_memories_are_listed(s.dropped_by_confidence@, id);
    dropped_memories_are_listed(s.dropped_by_tombstone@, id);
}

/// Dropped items keep their kind and their id.
pub proof fn dropped_items_keep_their_kind(id: RankedItemId)
    ensures
        id matches RankedItemId::Memory(m) ==> tagged(id).kind is Memory && tagged(id).id == m,
        id matches RankedItemId::Statement(b) ==> tagged(id).kind is Statement && tagged(id).id
            == be_value(b@),
        id matches RankedItemId::Entity(b) ==> tagged(id).kind is Entity && tagged(id).id
            == be_value(b@),
        id matches RankedItemId::Relation(b) ==> tagged(id).kind is Relation && tagged(id).id
            == be_value(b@),
{
    crate::bytes::pow256_values();
    match id {
        RankedItemId::Statement(b) => {
            crate::bytes::be_value_round_trip(b@);
        },
        RankedItemId::Entity(b) => {
            crate::bytes::be_value_round_trip(b@);
        },
        RankedItemId::Relation(b) => {
            crate::bytes::be_value_round_trip(b@);
        },
        _ => {},
    }
}

proof fn texts_are_kept(reads: Seq<(u128, TextRead)>, i: int)
    ensures
        0 <= i < reads.len() ==> texts_by_id(reads).dom().contains(reads[i].0),
        0 <= i < reads.len() && (forall|j: int|
            i < j < reads.len() ==> (#[trigger] reads[j]).0 != reads[i].0) ==> {
            &&& reads[i].1 matches TextRead::Text(t) ==> texts_by_id(reads)[reads[i].0] == t@
            &&& reads[i].1 !is Text ==> texts_by_id(reads)[reads[i].0].len() == 0
        },
        first_unreadable(reads) is Some <==> exists|j: int|
            0 <= j < reads.len() && (#[trigger] reads[j]).1 is Unreadable,
    decreases reads.len(),
{
    if reads.len() > 0 {
        let front = reads.drop_last();
        texts_are_kept(front, i);
        assert(reads.last() == reads[reads.len() - 1]);
        if 0 <= i < front.len() {
            assert(front[i] == reads[i]);
            if forall|j: int| i < j < reads.len() ==> (#[trigger] reads[j]).0 != reads[i].0 {
                assert forall|j: int| i < j < front.len() implies (#[trigger] front[j]).0
                    != front[i].0 by {
                    assert(reads[j] == front[j]);
                }
            }
        }
        if exists|j: int| 0 <= j < front.len() && (#[trigger] front[j]).1 is Unreadable {
            let j = choose|j: int| 0 <= j < front.len() && (#[trigger] front[j]).1 is Unreadable;
            assert(reads[j] == front[j]);
        }
        if exists|j: int| 0 <= j < reads.len() && (#[trigger] reads[j]).1 is Unreadable {
            let j = choose|j: int| 0 <= j < reads.len() && (#[trigger] reads[j]).1 is Unreadable;
            if j < front.len() {
                assert(front[j] == reads[j]);
            }
        }
    }
}

/// The texts of a trace are those that were read, an absent one empty; a single
/// one that cannot be read fails the trace.
pub proof fn trace_texts_are_those_read(
    r: Result<HashMap<u128, String>, OpError>,
    reads: Vec<(u128, TextRead)>,
    i: int,
)
    requires
        reads_texts(r, reads),
    ensures
        r is Err <==> exists|j: int| 0 <= j < reads@.len() && (#[trigger] reads@[j]).1 is Unreadable,
        r matches Err(e) ==> e is Internal,
        r matches Ok(t) ==> 0 <= i < reads@.len() ==> t@.dom().contains(reads@[i].0) && ((forall|
            j: int,
        |
            i < j < reads@.len() ==> (#[trigger] reads@[j]).0 != reads@[i].0) ==> {
            &&& reads@[i].1 matches TextRead::Text(x) ==> t@[reads@[i].0]@ == x@
            &&& reads@[i].1 is Absent ==> t@[reads@[i].0]@.len() == 0
        }),
{
    texts_are_kept(reads@, i);
    texts_are_kept(reads@, -1);
    if let Ok(t) = r {
        if 0 <= i < reads@.len() {
            assert(t@.dom().contains(reads@[i].0));
        }
    }
}

/// The texts of every memory among the candidates are read, each once.
pub proof fn candidate_texts_are_read(r: Vec<u128>, meta: QueryMetadata, i: int, k: int, id: u128)
    requires
        collects_candidates(r, meta),
        0 <= i < meta.retriever_candidates@.len(),
        0 <= k < meta.retriever_candidates@[i].1@.len(),
        meta.retriever_candidates@[i].1@[k].0 == RankedItemId::Memory(id),
    ensures
        r@.no_duplicates() && r@.contains(id),
{
}

// Labels.

proof fn names_come_from_entries(names: Seq<EntityName>, i: int)
    requires
        0 <= i < names.len(),
        forall|j: int| 0 <= j < i ==> (#[trigger] names[j]).id != names[i].id,
    ensures
        name_entry(names, names[i].id) == Some(names[i]),
    decreases names.len(),
{
    if i > 0 {
        let rest = names.skip(1);
        assert(names[0].id != names[i].id);
        assert(rest[i - 1] == names[i]);
        assert forall|j: int| 0 <= j < i - 1 implies (#[trigger] rest[j]).id != rest[i - 1].id by {
            assert(names[j + 1] == rest[j]);
        }
        names_come_from_entries(rest, i - 1);
    }
}

/// An entity is shown under the first name that was read for it.
pub proof fn entities_are_shown_by_name(names: Seq<EntityName>, i: int)
    requires
        0 <= i < names.len(),
        forall|j: int| 0 <= j < i ==> (#[trigger] names[j]).id != names[i].id,
    ensures
        name_of(names, names[i].id) == names[i].name@,
{
    names_come_from_entries(names, i);
}

/// An entity whose name was not read is shown under none.
pub proof fn unknown_entities_have_no_name(names: Seq<EntityName>, id: [u8; 16])
    requires
        forall|j: int| 0 <= j < names.len() ==> (#[trigger] names[j]).id != id,
    ensures
        name_of(names, id).len() == 0,
    decreases names.len(),
{
    if names.len() > 0 {
        let rest = names.skip(1);
        assert(names[0].id != id);
        assert forall|j: int| 0 <= j < rest.len() implies (#[trigger] rest[j]).id != id by {
            assert(names[j + 1] == rest[j]);
        }
        unknown_entities_have_no_name(rest, id);
    }
}

/// A candidate that is no memory is shown under its label: an entity under its
/// name, a relation between the names of its ends.
pub proof fn typed_candidates_are_labelled(
    texts: Map<u128, String>,
    typed: TypedRows,
    e: [u8; 16],
    r: [u8; 16],
    s: [u8; 16],
)
    ensures
        candidate_label(RankedItemId::Entity(e), texts, typed) == name_of(typed.names@, e),
        relation_row(typed.relations@, r) is None ==> candidate_label(
            RankedItemId::Relation(r),
            texts,
            typed,
        ).len() == 0,
        relation_row(typed.relations@, r) matches Some(x) ==> candidate_label(
            RankedItemId::Relation(r),
            texts,
            typed,
        ) == name_of(typed.names@, x.from) + " \u{2014}"@ + (match x.qname {
            Some(q) => q@,
            None => "related_to"@,
        }) + "\u{2192} "@ + name_of(typed.names@, x.to),
        statement_row(typed.statements@, s) is None ==> candidate_label(
            RankedItemId::Statement(s),
            texts,
            typed,
        ).len() == 0,
        statement_row(typed.statements@, s) matches Some(x) ==> (x.subject matches SubjectRef::Entity(
            a,
        ) ==> (x.object matches StatementObject::EntityRef(b) ==> candidate_label(
            RankedItemId::Statement(s),
            texts,
            typed,
        ) == trimmed(
            name_of(typed.names@, a) + " "@ + x.predicate@ + " "@ + name_of(typed.names@, b),
        ))),
{
}

} // verus!
