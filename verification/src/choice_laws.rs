//! How a recall chooses, orders and bounds its answer.
use vstd::prelude::*;

use crate::error::OpError;
use crate::membership::{answers_recall, belongs, ceiling, membership, ordered_members, Scored};
use crate::ranking::{ranked, ranked_by, ranking_is_sorted, scored_by, filter_keeps_what_passes};
use crate::recall::{
    abstains_without_anchor, abstains_without_kind, admits_recall, answer_order, collapsed,
    committed_lead, cosine_key, distinct_sources, frames_recall, highest_hype, hype_key, leading,
    leaves_after_gates, lowest_hype, place, relevance_key, support_count, trailing,
    unique_consensus, AnswerShape, GroundedAnswer, GroundedOutcome, GroundedValue, Lane,
    MemoryResult, RecallRequest, RecallResponseFrame,
};
use crate::recall_trace::RecallTrace;
use crate::single::Single;

verus! {

// Requests and frames.

/// A recall is taken as it is asked, with its text; without a count it gives
/// up to fifty memories, and never more than a thousand.
pub proof fn recalls_are_taken_as_asked(
    r: Result<(RecallRequest, bool), OpError>,
    req: RecallRequest,
)
    requires
        admits_recall(r, req),
    ensures
        r is Ok <==> (req.session_filter matches Some(l) ==> l@.len() <= 1024) && (
        req.kind_filter matches Some(l) ==> l@.len() <= 1024),
        r matches Err(e) ==> e is InvalidRequest,
        r matches Ok((q, counted)) ==> {
            &&& counted <==> req.max_results > 0
            &&& 1 <= q.max_results <= 1000
            &&& req.max_results == 0 ==> q.max_results == 50
            &&& 1 <= req.max_results <= 1000 ==> q.max_results == req.max_results
            &&& req.max_results > 1000 ==> q.max_results == 1000
            &&& q.include_text
            &&& q.cue_text == req.cue_text && q.subject_name == req.subject_name
            &&& q.session_filter == req.session_filter && q.kind_filter == req.kind_filter
            &&& q.age_bound_unix_nanos == req.age_bound_unix_nanos
            &&& q.as_of_record_time_unix_nanos == req.as_of_record_time_unix_nanos
            &&& (q.confidence_threshold, q.salience_floor) == (
                req.confidence_threshold,
                req.salience_floor,
            )
            &&& (q.include_edges, q.include_graph, q.trace) == (
                req.include_edges,
                req.include_graph,
                req.trace,
            )
            &&& (q.request_id, q.txn_id, q.act_as) == (req.request_id, req.txn_id, req.act_as)
        },
{
}

/// The bound on an answer: what the caller asked for, at most a thousand. An
/// answer that is anchored or grounded is bounded only by a count that the
/// caller gave.
pub proof fn answers_are_bounded(
    max_results: u32,
    counted: bool,
    anchored: bool,
    grounded: GroundedOutcome,
)
    ensures
        ceiling(max_results, counted, anchored, grounded) <= 1000,
        1 <= max_results <= 1000 && counted ==> ceiling(max_results, counted, anchored, grounded)
            == max_results,
        (anchored || grounded is Answer) && !counted ==> ceiling(
            max_results,
            counted,
            anchored,
            grounded,
        ) == 1000,
        !anchored && grounded is NoAnswer && 1 <= max_results <= 1000 ==> ceiling(
            max_results,
            counted,
            anchored,
            grounded,
        ) == max_results,
        !anchored && grounded is NoAnswer && max_results == 0 ==> ceiling(
            max_results,
            counted,
            anchored,
            grounded,
        ) == 50,
{
}

/// A frame holds the chosen memories in order, counts them, and says nothing
/// only where there are none.
pub proof fn frames_hold_the_chosen_memories(
    r: RecallResponseFrame,
    memories: Vec<MemoryResult>,
    committed: Option<AnswerShape>,
    trace: Option<RecallTrace>,
)
    requires
        frames_recall(r, memories, committed, trace),
    ensures
        r.memories@ == memories@ && r.trace == trace && r.is_final && r.estimated_remaining is None,
        memories@.len() <= u32::MAX ==> r.cumulative_count == memories@.len(),
        memories@.len() == 0 ==> r.answer_kind is Nothing,
        memories@.len() > 0 ==> (committed matches Some(s) ==> r.answer_kind == s),
        memories@.len() == 1 && committed is None ==> r.answer_kind is Single,
        memories@.len() > 1 && committed is None ==> r.answer_kind is Many,
{
}

/// The gates withhold all or nothing: an answer outside a transaction that
/// nothing grounds and to which nothing belongs, whether the cue named a
/// subject or not.
pub proof fn gates_withhold_all_or_nothing(
    r: Vec<MemoryResult>,
    members: Vec<MemoryResult>,
    in_txn: bool,
    anchor: Option<[u8; 16]>,
    grounded: GroundedOutcome,
    any_belongs: bool,
    first: Vec<MemoryResult>,
    second: Vec<MemoryResult>,
)
    requires
        leaves_after_gates(r, members, in_txn, anchor, grounded, any_belongs),
        abstains_without_anchor(first, members, anchor, grounded, any_belongs),
        abstains_without_kind(second, members, anchor, grounded, any_belongs),
    ensures
        in_txn || grounded is Answer || any_belongs ==> r@ == members@,
        !in_txn && grounded is NoAnswer && !any_belongs ==> r@.len() == 0,
        anchor is Some || grounded is Answer || any_belongs ==> first@ == members@,
        anchor is None && grounded is NoAnswer && !any_belongs ==> first@.len() == 0,
        anchor is None || grounded is Answer || any_belongs ==> second@ == members@,
        anchor is Some && grounded is NoAnswer && !any_belongs ==> second@.len() == 0,
{
}

/// A recall never answers with more than its bound, and outside a transaction
/// it answers nothing where nothing grounds the answer and nothing belongs to
/// the cue.
pub proof fn recalls_answer_within_their_bound(
    r: RecallResponseFrame,
    scored: Seq<Scored>,
    hydrated: Seq<MemoryResult>,
    injected: Seq<MemoryResult>,
    grounded: GroundedOutcome,
    req: RecallRequest,
    band: Single,
    anchor: Option<[u8; 16]>,
    counted: bool,
    hype: Map<u128, Single>,
    flat: spec_fn(Single, Single) -> bool,
    trace: Option<RecallTrace>,
    k: int,
)
    requires
        answers_recall(
            r,
            scored,
            hydrated,
            injected,
            grounded,
            req,
            band,
            anchor,
            counted,
            hype,
            flat,
            trace,
        ),
    ensures
        r.memories@.len() <= 1000,
        1 <= req.max_results <= 1000 && counted ==> r.memories@.len() <= req.max_results,
        r.answer_kind is Nothing <== r.memories@.len() == 0,
        r.cumulative_count == r.memories@.len() && r.trace == trace && r.is_final,
        req.txn_id is None && grounded is NoAnswer && r.memories@.len() > 0 ==> exists|j: int|
            #![trigger r.memories@[j]]
            0 <= j < r.memories@.len() && belongs(scored, grounded, hype, r.memories@[j].memory_id),
        0 <= k < r.memories@.len() ==> crate::membership::union_members(
            scored,
            hydrated,
            injected,
            grounded,
            band,
        ).contains(r.memories@[k]),
{
    let bound = ceiling(req.max_results, counted, anchor is Some, grounded);
    let (kept, _, any) = membership(
        scored,
        hydrated,
        injected,
        grounded,
        band,
        bound,
        hype,
        flat,
    );
    answers_are_bounded(req.max_results, counted, anchor is Some, grounded);
    assert(kept.len() <= bound);
    if r.memories@.len() > 0 {
        assert(r.memories@ == kept);
    }
    if 0 <= k < r.memories@.len() {
        crate::answer_laws::answers_are_members(
            scored,
            hydrated,
            injected,
            grounded,
            band,
            bound,
            hype,
            flat,
            k,
        );
    }
}

// Support.

/// Each of five kinds of evidence counts once: a strong semantic match, a
/// lexical hit, a hit of the graph, a grounded source and a strong question.
pub proof fn each_kind_of_evidence_counts_once(
    id: u128,
    lanes: Seq<Lane>,
    strong: bool,
    sources: Set<u128>,
    hype: Map<u128, Single>,
    score: Single,
)
    ensures
        support_count(id, Seq::empty(), false, Set::empty(), Map::empty()) == 0,
        support_count(id, lanes, true, sources, hype) == support_count(
            id,
            lanes,
            false,
            sources,
            hype,
        ) + 1,
        !lanes.contains(Lane::Lexical) ==> support_count(
            id,
            lanes.push(Lane::Lexical),
            strong,
            sources,
            hype,
        ) == support_count(id, lanes, strong, sources, hype) + 1,
        !lanes.contains(Lane::Graph) ==> support_count(
            id,
            lanes.push(Lane::Graph),
            strong,
            sources,
            hype,
        ) == support_count(id, lanes, strong, sources, hype) + 1,
        support_count(id, lanes.push(Lane::Semantic), strong, sources, hype) == support_count(
            id,
            lanes,
            strong,
            sources,
            hype,
        ),
        !sources.contains(id) ==> support_count(id, lanes, strong, sources.insert(id), hype)
            == support_count(id, lanes, strong, sources, hype) + 1,
        !hype.dom().contains(id) && !score.nan() && score.key() >= 0x3F19_999A ==> support_count(
            id,
            lanes,
            strong,
            sources,
            hype.insert(id, score),
        ) == support_count(id, lanes, strong, sources, hype) + 1,
        !hype.dom().contains(id) && (score.nan() || score.key() < 0x3F19_999A) ==> support_count(
            id,
            lanes,
            strong,
            sources,
            hype.insert(id, score),
        ) == support_count(id, lanes, strong, sources, hype),
{
    let (x, y, z) = (
        lanes.push(Lane::Lexical),
        lanes.push(Lane::Graph),
        lanes.push(Lane::Semantic),
    );
    assert(x[lanes.len() as int] == Lane::Lexical);
    assert(y[lanes.len() as int] == Lane::Graph);
    assert forall|l: Lane| lanes.contains(l) implies x.contains(l) && y.contains(l) && z.contains(
        l,
    ) by {
        let k = choose|k: int| 0 <= k < lanes.len() && lanes[k] == l;
        assert(x[k] == l && y[k] == l && z[k] == l);
    }
    assert forall|l: Lane| x.contains(l) implies lanes.contains(l) || l == Lane::Lexical by {
        let k = choose|k: int| 0 <= k < x.len() && x[k] == l;
        if k < lanes.len() {
            assert(lanes[k] == l);
        }
    }
    assert forall|l: Lane| y.contains(l) implies lanes.contains(l) || l == Lane::Graph by {
        let k = choose|k: int| 0 <= k < y.len() && y[k] == l;
        if k < lanes.len() {
            assert(lanes[k] == l);
        }
    }
    assert forall|l: Lane| z.contains(l) implies lanes.contains(l) || l == Lane::Semantic by {
        let k = choose|k: int| 0 <= k < z.len() && z[k] == l;
        if k < lanes.len() {
            assert(lanes[k] == l);
        }
    }
}

// Consensus.

/// An answer collapses to one memory exactly where the top one was found by at
/// least two retrievers and by more than any other; else it stays as it is.
pub proof fn answers_collapse_to_a_consensus(members: Seq<MemoryResult>, top: Option<u128>, i: int)
    ensures
        (0 <= i < members.len() && top == Some(members[i].memory_id)
            && members[i].contributing_retrievers@.len() >= 2 && forall|j: int|
            #![trigger members[j]]
            0 <= j < members.len() && j != i ==> members[j].contributing_retrievers@.len()
                < members[i].contributing_retrievers@.len()) ==> collapsed(members, top)
            == seq![members[i]],
        collapsed(members, top) == members || exists|k: int|
            #![trigger members[k]]
            0 <= k < members.len() && collapsed(members, top) == seq![members[k]] && top == Some(
                members[k].memory_id,
            ) && members[k].contributing_retrievers@.len() >= 2,
        top is None ==> collapsed(members, top) == members,
{
    if 0 <= i < members.len() && top == Some(members[i].memory_id)
        && members[i].contributing_retrievers@.len() >= 2 && forall|j: int|
        #![trigger members[j]]
        0 <= j < members.len() && j != i ==> members[j].contributing_retrievers@.len()
            < members[i].contributing_retrievers@.len() {
        assert(unique_consensus(members, i));
        let k = choose|k: int| #[trigger]
            unique_consensus(members, k) && top == Some(members[k].memory_id);
        if k != i {
            assert(members[i].contributing_retrievers@.len()
                < members[k].contributing_retrievers@.len());
            assert(members[k].contributing_retrievers@.len()
                < members[i].contributing_retrievers@.len());
        }
    }
    if exists|k: int| #[trigger] unique_consensus(members, k) && top == Some(members[k].memory_id) {
        let k = choose|k: int| #[trigger]
            unique_consensus(members, k) && top == Some(members[k].memory_id);
        assert(members[k].contributing_retrievers@.len() >= 2);
    }
}

// Order.

/// How well the best question of a memory matches the cue; 0 where none does.
pub open spec fn question_key(hype: Map<u128, Single>, id: u128) -> int {
    if hype.dom().contains(id) {
        hype[id].key()
    } else {
        0
    }
}

proof fn lowest_is_lowest(members: Seq<MemoryResult>, hype: Map<u128, Single>, i: int)
    requires
        0 <= i < members.len(),
    ensures
        lowest_hype(members, hype).key() <= question_key(hype, members[i].memory_id),
        highest_hype(members, hype).key() >= question_key(hype, members[i].memory_id),
        exists|k: int|
            #![trigger members[k]]
            0 <= k < members.len() && lowest_hype(members, hype).key() == question_key(
                hype,
                members[k].memory_id,
            ),
        exists|k: int|
            #![trigger members[k]]
            0 <= k < members.len() && highest_hype(members, hype).key() == question_key(
                hype,
                members[k].memory_id,
            ),
    decreases members.len(),
{
    let front = members.drop_last();
    let last = members.len() - 1;
    assert(members.last() == members[last]);
    if members.len() > 1 {
        let j = if i < last {
            i
        } else {
            0
        };
        lowest_is_lowest(front, hype, j);
        assert(front[j] == members[j]);
        let a = choose|k: int|
            #![trigger front[k]]
            0 <= k < front.len() && lowest_hype(front, hype).key() == question_key(
                hype,
                front[k].memory_id,
            );
        let b = choose|k: int|
            #![trigger front[k]]
            0 <= k < front.len() && highest_hype(front, hype).key() == question_key(
                hype,
                front[k].memory_id,
            );
        assert(members[a] == front[a] && members[b] == front[b]);
    }
}

/// The decision on how flat an answer is compares its lowest and its highest
/// question match.
pub proof fn flatness_compares_the_extremes(
    members: Seq<MemoryResult>,
    hype: Map<u128, Single>,
    i: int,
)
    requires
        0 <= i < members.len(),
    ensures
        lowest_hype(members, hype).key() <= question_key(hype, members[i].memory_id)
            <= highest_hype(members, hype).key(),
        exists|k: int|
            #![trigger members[k]]
            0 <= k < members.len() && lowest_hype(members, hype).key() == question_key(
                hype,
                members[k].memory_id,
            ),
        exists|k: int|
            #![trigger members[k]]
            0 <= k < members.len() && highest_hype(members, hype).key() == question_key(
                hype,
                members[k].memory_id,
            ),
{
    lowest_is_lowest(members, hype, i);
}

/// How near a memory is to the cue: its cosine, or its similarity where it has
/// none.
pub open spec fn nearness_key(cos: Map<u128, Single>, m: MemoryResult) -> int {
    if cos.dom().contains(m.memory_id) {
        cos[m.memory_id].key()
    } else {
        m.similarity_score.positive_key()
    }
}

/// Whether a memory may stand before another: its questions match better, or
/// as well, and it is as near.
pub open spec fn may_precede(
    a: MemoryResult,
    b: MemoryResult,
    hype: Map<u128, Single>,
    cos: Map<u128, Single>,
) -> bool {
    let (x, y) = (question_key(hype, a.memory_id), question_key(hype, b.memory_id));
    x > y || (x == y && nearness_key(cos, a) >= nearness_key(cos, b))
}

proof fn ranked_entries_come_from_the_list<T>(s: Seq<T>, key: spec_fn(T) -> int, i: int)
    requires
        0 <= i < ranked(scored_by(s, key)).len(),
    ensures
        ranked(scored_by(s, key))[i].0 == key(ranked(scored_by(s, key))[i].1) as i128,
{
    broadcast use vstd::seq_lib::group_to_multiset_ensures;

    let scored = scored_by(s, key);
    ranking_is_sorted(scored);
    let p = ranked(scored)[i];
    assert(ranked(scored).contains(p));
    assert(ranked(scored).to_multiset().count(p) > 0);
    assert(scored.to_multiset().count(p) > 0);
    assert(scored.contains(p));
}

/// A list ranked by a key that fits has its keys fall.
pub proof fn ranked_lists_fall<T>(s: Seq<T>, key: spec_fn(T) -> int, i: int, j: int)
    requires
        0 <= i <= j < ranked_by(s, key).len(),
        forall|x: T| i128::MIN <= #[trigger] key(x) <= i128::MAX,
    ensures
        key(ranked_by(s, key)[i]) >= key(ranked_by(s, key)[j]),
{
    let r = ranked(scored_by(s, key));
    ranking_is_sorted(scored_by(s, key));
    ranked_entries_come_from_the_list(s, key, i);
    ranked_entries_come_from_the_list(s, key, j);
    assert(r[i].0 >= r[j].0);
}

/// Unless it is flat, an answer is ordered by its questions, and where these
/// match alike by nearness; a flat one keeps its order.
pub proof fn answers_are_ordered_by_relevance(
    members: Seq<MemoryResult>,
    hype: Map<u128, Single>,
    cos: Map<u128, Single>,
    flat: spec_fn(Single, Single) -> bool,
    i: int,
    j: int,
)
    requires
        0 <= i <= j < members.len(),
    ensures
        flat(lowest_hype(members, hype), highest_hype(members, hype)) ==> answer_order(
            members,
            hype,
            cos,
            flat,
        ) == members,
        members.len() >= 2 && !flat(lowest_hype(members, hype), highest_hype(members, hype))
            ==> may_precede(
            answer_order(members, hype, cos, flat)[i],
            answer_order(members, hype, cos, flat)[j],
            hype,
            cos,
        ),
{
    let key = relevance_key(hype, cos);
    assert forall|m: MemoryResult| i128::MIN <= #[trigger] key(m) <= i128::MAX by {}
    if members.len() >= 2 && !flat(lowest_hype(members, hype), highest_hype(members, hype)) {
        ranking_is_sorted(scored_by(members, key));
        assert(ranked_by(members, key).len() == members.len());
        ranked_lists_fall(members, key, i, j);
        let (a, b) = (ranked_by(members, key)[i], ranked_by(members, key)[j]);
        let (x, y) = (hype_key(hype, a.memory_id), hype_key(hype, b.memory_id));
        let (u, v) = (cosine_key(cos, a), cosine_key(cos, b));
        assert(x * 0x1_0000_0000_0000 + u >= y * 0x1_0000_0000_0000 + v);
        if x < y {
            assert(x + 1 <= y);
        }
    }
}

// Leads.

proof fn sources_are_those_of_the_values(values: Seq<GroundedValue>, id: u128)
    ensures
        distinct_sources(values).contains(id) <==> id != 0 && exists|k: int|
            #![trigger values[k]]
            0 <= k < values.len() && values[k].source_memory == Some(id),
    decreases values.len(),
{
    if values.len() > 0 {
        let front = values.drop_last();
        sources_are_those_of_the_values(front, id);
        let before = distinct_sources(front);
        let all = distinct_sources(values);
        assert(values.last() == values[values.len() - 1]);
        if before.contains(id) {
            let k = choose|k: int| 0 <= k < before.len() && before[k] == id;
            assert(all[k] == id);
            let m = choose|k: int|
                #![trigger front[k]]
                0 <= k < front.len() && front[k].source_memory == Some(id);
            assert(values[m] == front[m]);
        }
        if values.last().source_memory == Some(id) && id != 0 && !before.contains(id) {
            assert(all[before.len() as int] == id);
        }
        if all.contains(id) && !before.contains(id) {
            let k = choose|k: int| 0 <= k < all.len() && all[k] == id;
            if k < before.len() {
                assert(before[k] == id);
            }
            assert(values.last().source_memory == Some(id));
        }
        if exists|k: int|
            #![trigger values[k]]
            0 <= k < values.len() && values[k].source_memory == Some(id) {
            let k = choose|k: int|
                #![trigger values[k]]
                0 <= k < values.len() && values[k].source_memory == Some(id);
            if k < front.len() {
                assert(front[k] == values[k]);
            }
        }
    }
}

/// The sources of an answer are the memories that its values came from.
pub proof fn answers_name_their_sources(values: Seq<GroundedValue>, k: int, id: u128)
    ensures
        0 <= k < values.len() && values[k].source_memory == Some(id) && id != 0
            ==> distinct_sources(values).contains(id),
        distinct_sources(values).contains(id) ==> id != 0 && exists|j: int|
            #![trigger values[j]]
            0 <= j < values.len() && values[j].source_memory == Some(id),
{
    sources_are_those_of_the_values(values, id);
}

/// Whether an answer may lead: it answers the cue's own subject, and its first
/// value matches well.
pub open spec fn may_lead(a: GroundedAnswer) -> bool {
    &&& a.kind !is Nothing && a.values@.len() > 0
    &&& a.values@[0].match_score.nan() || a.values@[0].match_score.key() >= 0x3F19_999A
}

/// A lone grounded value leads exactly if its memory has the support of two
/// kinds of evidence, and then alone; a set of values leads exactly if one of
/// its memories has, and then with all of them.
pub proof fn supported_answers_lead(
    a: GroundedAnswer,
    support_of: spec_fn(u128) -> u8,
    id: u128,
)
    ensures
        committed_lead(GroundedOutcome::Answer(a, false), support_of) is None,
        committed_lead(GroundedOutcome::NoAnswer, support_of) is None,
        !may_lead(a) ==> committed_lead(GroundedOutcome::Answer(a, true), support_of) is None,
        may_lead(a) && (a.kind is Single || a.values@.len() == 1) ==> {
            &&& a.values@[0].source_memory == Some(id) && id != 0 && support_of(id) >= 2
                ==> committed_lead(GroundedOutcome::Answer(a, true), support_of) == Some(
                (seq![id], AnswerShape::Single),
            )
            &&& a.values@[0].source_memory is None ==> committed_lead(
                GroundedOutcome::Answer(a, true),
                support_of,
            ) is None
            &&& a.values@[0].source_memory == Some(id) && (id == 0 || support_of(id) < 2)
                ==> committed_lead(GroundedOutcome::Answer(a, true), support_of) is None
        },
        may_lead(a) && a.kind !is Single && a.values@.len() > 1 ==> {
            &&& distinct_sources(a.values@).contains(id) && support_of(id) >= 2 ==> committed_lead(
                GroundedOutcome::Answer(a, true),
                support_of,
            ) == Some((distinct_sources(a.values@), AnswerShape::Many))
            &&& (forall|k: int|
                #![trigger distinct_sources(a.values@)[k]]
                0 <= k < distinct_sources(a.values@).len() ==> support_of(
                    distinct_sources(a.values@)[k],
                ) < 2) ==> committed_lead(GroundedOutcome::Answer(a, true), support_of) is None
        },
{
    let ids = distinct_sources(a.values@);
    if ids.contains(id) && support_of(id) >= 2 {
        let k = choose|k: int| 0 <= k < ids.len() && ids[k] == id;
        assert(crate::recall::corroborated(support_of, ids[k]));
    }
}

proof fn places_are_indices(ids: Seq<u128>, id: u128)
    requires
        ids.contains(id),
    ensures
        0 <= place(ids, id) < ids.len(),
        ids[place(ids, id)] == id,
        forall|k: int| 0 <= k < place(ids, id) ==> #[trigger] ids[k] != id,
    decreases ids.len(),
{
    if ids[0] != id {
        let rest = ids.skip(1);
        let k = choose|k: int| 0 <= k < ids.len() && ids[k] == id;
        assert(rest[k - 1] == id);
        places_are_indices(rest, id);
        assert(rest[place(rest, id)] == ids[place(ids, id)]);
        assert forall|k: int| 0 <= k < place(ids, id) implies #[trigger] ids[k] != id by {
            if k > 0 {
                assert(rest[k - 1] == ids[k]);
            }
        }
    }
}

/// The memories of a lead come first, in the order of the lead, and every other
/// member after them.
pub proof fn leads_come_first(
    members: Seq<MemoryResult>,
    ids: Seq<u128>,
    m: MemoryResult,
    i: int,
    j: int,
)
    requires
        members.contains(m),
        ids.len() <= usize::MAX,
    ensures
        leading(members, ids).contains(m) <==> ids.contains(m.memory_id),
        trailing(members, ids).contains(m) <==> !ids.contains(m.memory_id),
        0 <= i < leading(members, ids).len() ==> ids.contains(leading(members, ids)[i].memory_id),
        0 <= i < j < leading(members, ids).len() ==> place(
            ids,
            leading(members, ids)[i].memory_id,
        ) <= place(ids, leading(members, ids)[j].memory_id),
{
    broadcast use vstd::seq_lib::group_to_multiset_ensures;

    let test = |x: MemoryResult| ids.contains(x.memory_id);
    let rest = |x: MemoryResult| !ids.contains(x.memory_id);
    let key = |x: MemoryResult| -place(ids, x.memory_id);
    let led = members.filter(test);
    let lead = leading(members, ids);
    filter_keeps_what_passes(members, test, m);
    filter_keeps_what_passes(members, rest, m);
    crate::ranking::ranked_by_keeps_items(led, key);
    assert(lead == ranked_by(led, key));
    assert(lead.to_multiset() == led.to_multiset());
    assert(lead.contains(m) == (lead.to_multiset().count(m) > 0));
    assert(led.contains(m) == (led.to_multiset().count(m) > 0));
    assert forall|k: int| 0 <= k < lead.len() implies ids.contains((#[trigger] lead[k]).memory_id) by {
        assert(lead.contains(lead[k]));
        assert(led.to_multiset().count(lead[k]) > 0);
        assert(led.contains(lead[k]));
        filter_keeps_what_passes(members, test, lead[k]);
        assert(test(lead[k]));
    }
    if 0 <= i < j < lead.len() {
        assert(ids.contains(lead[i].memory_id) && ids.contains(lead[j].memory_id));
        places_are_indices(ids, lead[i].memory_id);
        places_are_indices(ids, lead[j].memory_id);
        let entries = ranked(scored_by(led, key));
        ranking_is_sorted(scored_by(led, key));
        ranked_entries_come_from_the_list(led, key, i);
        ranked_entries_come_from_the_list(led, key, j);
        assert(entries[i].0 >= entries[j].0);
    }
}

/// The place of a memory in a lead is its first index there.
pub proof fn places_are_first_indices(ids: Seq<u128>, k: int)
    requires
        0 <= k < ids.len(),
    ensures
        place(ids, ids[k]) <= k,
        ids[place(ids, ids[k])] == ids[k],
{
    assert(ids.contains(ids[k]));
    places_are_indices(ids, ids[k]);
    if place(ids, ids[k]) > k {
        assert(ids[k] != ids[k]);
    }
}

/// A lead that is among the members orders the answer and shapes it; without
/// one the answer is ordered by relevance and may collapse to a consensus.
pub proof fn leads_among_the_members_lead(
    members: Seq<MemoryResult>,
    ids: Seq<u128>,
    shape: AnswerShape,
    hype: Map<u128, Single>,
    cos: Map<u128, Single>,
    flat: spec_fn(Single, Single) -> bool,
    m: MemoryResult,
)
    requires
        ids.len() <= usize::MAX,
    ensures
        members.contains(m) && ids.contains(m.memory_id) ==> {
            let (r, s) = ordered_members(members, Some((ids, shape)), hype, cos, flat);
            &&& s == Some(shape)
            &&& r == leading(members, ids) + answer_order(
                trailing(members, ids),
                hype,
                cos,
                flat,
            )
            &&& r.len() > 0 && ids.contains(r[0].memory_id)
        },
        (forall|k: int|
            #![trigger members[k]]
            0 <= k < members.len() ==> !ids.contains(members[k].memory_id)) ==> ordered_members(
            members,
            Some((ids, shape)),
            hype,
            cos,
            flat,
        ) == ordered_members(members, None, hype, cos, flat),
        ordered_members(members, None, hype, cos, flat).1 is None,
        ({
            let ordered = answer_order(members, hype, cos, flat);
            let r = ordered_members(members, None, hype, cos, flat).0;
            r == ordered || (ordered.len() > 0 && r == seq![ordered[0]])
                || r.len() == 1
        }),
{
    if members.contains(m) && ids.contains(m.memory_id) {
        let a = choose|a: int| 0 <= a < members.len() && members[a] == m;
        let b = choose|b: int| 0 <= b < ids.len() && ids[b] == m.memory_id;
        assert(crate::membership::present(members, ids[b])) by {
            assert(members[a].memory_id == ids[b]);
        }
        assert(crate::membership::any_present(members, ids));
        leads_come_first(members, ids, m, 0, 0);
        let lead = leading(members, ids);
        let k = choose|k: int| 0 <= k < lead.len() && lead[k] == m;
        assert(lead.len() > 0);
        let rest = answer_order(trailing(members, ids), hype, cos, flat);
        assert((lead + rest)[0] == lead[0]);
    }
    if forall|k: int|
        #![trigger members[k]]
        0 <= k < members.len() ==> !ids.contains(members[k].memory_id) {
        assert(!crate::membership::any_present(members, ids)) by {
            if crate::membership::any_present(members, ids) {
                let b = choose|b: int|
                    #![trigger ids[b]]
                    0 <= b < ids.len() && crate::membership::present(members, ids[b]);
                let a = choose|a: int|
                    #![trigger members[a]]
                    0 <= a < members.len() && members[a].memory_id == ids[b];
                assert(ids.contains(members[a].memory_id));
            }
        }
    }
    let ordered = answer_order(members, hype, cos, flat);
    let top = if ordered.len() == 0 {
        None
    } else {
        Some(ordered[0].memory_id)
    };
    answers_collapse_to_a_consensus(ordered, top, 0);
}

} // verus!
