//! Which memories are candidates of an answer, and which belong to it.
use vstd::prelude::*;

use crate::answer_laws::{is_candidate, semantically_kept, union_holds_what_belongs};
use crate::membership::{
    belongs, by_belonging, cosines, direct_ids, last_with, member_support, missing, outcome_sources, present,
    pulls_direct, real_lanes, strongly_semantic, union_members, Scored,
};
use crate::ranking::{filter_keeps_what_passes, ranking_is_sorted, scored_by};
use crate::recall::{support_count, GroundedOutcome, Lane, MemoryResult};
use crate::single::Single;

verus! {

// Scoring.

/// The score of a candidate: how well its best passage matches the cue, or how
/// similar it is itself, whichever is more.
pub open spec fn is_score(n: int, m: MemoryResult, passages: Map<u128, Single>) -> bool {
    let own = m.similarity_score.positive_key();
    let passage = if passages.dom().contains(m.memory_id) {
        passages[m.memory_id].positive_key()
    } else {
        0
    };
    n >= own && n >= passage && (n == own || n == passage)
}

/// What counts of a value is what is above nothing.
pub proof fn only_positive_values_count(a: Single)
    ensures
        a.positive_key() >= 0,
        !a.nan() && a.key() >= 0 ==> a.positive_key() == a.key(),
        a.nan() || a.key() <= 0 ==> a.positive_key() == 0,
{
}

/// Every candidate is scored once, with its own score, and scores fall.
pub proof fn candidates_are_scored_and_fall(
    candidates: Seq<MemoryResult>,
    passages: Map<u128, Single>,
    m: MemoryResult,
    i: int,
    j: int,
)
    requires
        candidates.contains(m),
        0 <= i <= j < candidates.len(),
    ensures
        by_belonging(candidates, passages).len() == candidates.len(),
        by_belonging(candidates, passages)[i].0 >= by_belonging(candidates, passages)[j].0,
        is_score(
            by_belonging(candidates, passages)[i].0 as int,
            by_belonging(candidates, passages)[i].1,
            passages,
        ),
        candidates.contains(by_belonging(candidates, passages)[i].1),
        exists|k: int|
            #![trigger by_belonging(candidates, passages)[k]]
            0 <= k < candidates.len() && by_belonging(candidates, passages)[k].1 == m,
{
    broadcast use vstd::seq_lib::group_to_multiset_ensures;

    let key = crate::membership::belonging_key(passages);
    let pairs = scored_by(candidates, key);
    let r = by_belonging(candidates, passages);
    ranking_is_sorted(pairs);
    assert(r.contains(r[i]));
    assert(pairs.to_multiset().count(r[i]) > 0);
    assert(pairs.contains(r[i]));
    let a = choose|a: int| 0 <= a < pairs.len() && pairs[a] == r[i];
    assert(candidates[a] == r[i].1);
    let b = choose|b: int| 0 <= b < candidates.len() && candidates[b] == m;
    assert(pairs[b].1 == m);
    assert(pairs.contains(pairs[b]));
    assert(r.to_multiset().count(pairs[b]) > 0);
    assert(r.contains(pairs[b]));
    let c = choose|c: int| 0 <= c < r.len() && r[c] == pairs[b];
    assert(r[c].1 == m);
}

// Members.

/// Whether a candidate is kept for its score: the best one and it itself score
/// at least a fifth, and it is in the band.
pub open spec fn scores_in_band(scored: Seq<Scored>, i: int, band: Single) -> bool {
    &&& scored[0].0 >= 0x3E4C_CCCD
    &&& scored[i].0 >= 0x3E4C_CCCD
    &&& !band.nan() && band.key() <= scored[i].0
}

/// Whether more than the semantic retriever found a memory.
pub open spec fn found_otherwise(m: MemoryResult) -> bool {
    m.contributing_retrievers@.len() >= 2 || (m.contributing_retrievers@.len() == 1
        && m.contributing_retrievers@[0] !is Semantic)
}

/// The members of an answer are the candidates that score in the band or that
/// another retriever confirms, the candidates that ground it, and what was
/// fetched or injected for it; nothing else is.
pub proof fn members_are_those_that_belong(
    scored: Seq<Scored>,
    hydrated: Seq<MemoryResult>,
    injected: Seq<MemoryResult>,
    grounded: GroundedOutcome,
    band: Single,
    i: int,
    k: int,
    id: u128,
)
    requires
        scored.len() + hydrated.len() + injected.len() <= usize::MAX,
        crate::membership::well_scored(scored),
    ensures
        0 <= i < scored.len() && scores_in_band(scored, i, band) ==> present(
            union_members(scored, hydrated, injected, grounded, band),
            scored[i].1.memory_id,
        ),
        0 <= i < scored.len() && found_otherwise(scored[i].1) ==> present(
            union_members(scored, hydrated, injected, grounded, band),
            scored[i].1.memory_id,
        ),
        0 <= i < hydrated.len() ==> present(
            union_members(scored, hydrated, injected, grounded, band),
            hydrated[i].memory_id,
        ),
        0 <= i < injected.len() ==> present(
            union_members(scored, hydrated, injected, grounded, band),
            injected[i].memory_id,
        ),
        0 <= i < scored.len() ==> (grounded matches GroundedOutcome::Answer(a, _) ==> 0 <= k
            < a.values@.len() && a.values@[k].source_memory == Some(scored[i].1.memory_id)
            && scored[i].1.memory_id != 0 ==> present(
            union_members(scored, hydrated, injected, grounded, band),
            scored[i].1.memory_id,
        )),
        present(union_members(scored, hydrated, injected, grounded, band), id) ==> {
            ||| exists|x: int|
                #![trigger scored[x]]
                0 <= x < scored.len() && scored[x].1.memory_id == id && (scores_in_band(
                    scored,
                    x,
                    band,
                ) || found_otherwise(scored[x].1))
            ||| exists|x: int| #![trigger hydrated[x]] 0 <= x < hydrated.len()
                && hydrated[x].memory_id == id
            ||| exists|x: int| #![trigger injected[x]] 0 <= x < injected.len()
                && injected[x].memory_id == id
            ||| grounded matches GroundedOutcome::Answer(a, _) && exists|x: int|
                #![trigger a.values@[x]]
                0 <= x < a.values@.len() && a.values@[x].source_memory == Some(id)
        },
{
    if 0 <= i < scored.len() {
        let at = scored[i].1.memory_id;
        let m = scored[i].1;
        union_holds_what_belongs(scored, hydrated, injected, grounded, band, at);
        assert(Single { bits: scored[i].0 as u32 }.key() == scored[i].0);
        if m.contributing_retrievers@.len() == 1 {
            assert(m.contributing_retrievers@[0] == m.contributing_retrievers@[0]);
        }
        assert(is_candidate(scored, at));
        if let GroundedOutcome::Answer(a, _) = grounded {
            crate::choice_laws::answers_name_their_sources(a.values@, k, at);
        }
    }
    if 0 <= i < hydrated.len() {
        union_holds_what_belongs(
            scored,
            hydrated,
            injected,
            grounded,
            band,
            hydrated[i].memory_id,
        );
        assert(present(hydrated, hydrated[i].memory_id));
    }
    if 0 <= i < injected.len() {
        union_holds_what_belongs(
            scored,
            hydrated,
            injected,
            grounded,
            band,
            injected[i].memory_id,
        );
        assert(present(injected, injected[i].memory_id));
    }
    union_holds_what_belongs(scored, hydrated, injected, grounded, band, id);
    if semantically_kept(scored, band, id) {
        let x = choose|x: int|
            #![trigger scored[x]]
            0 <= x < scored.len() && scored[x].1.memory_id == id && (crate::membership::in_band(
                scored,
                x,
                band,
            ) || crate::membership::lane_confirmed(scored[x].1));
        assert(Single { bits: scored[x].0 as u32 }.key() == scored[x].0);
        let m = scored[x].1;
        assert(scored[x].1.memory_id == id);
        if crate::membership::lane_confirmed(m) && m.contributing_retrievers@.len() < 2 {
            let y = choose|y: int|
                #![trigger m.contributing_retrievers@[y]]
                0 <= y < m.contributing_retrievers@.len() && m.contributing_retrievers@[y]
                    != Lane::Semantic;
            assert(y == 0);
        }
    }
    if outcome_sources(grounded).contains(id) {
        if let GroundedOutcome::Answer(a, _) = grounded {
            crate::choice_laws::answers_name_their_sources(a.values@, 0, id);
        }
    }
}

proof fn the_last_is_found(scored: Seq<Scored>, i: int)
    requires
        scored.len() <= usize::MAX,
        0 <= i < scored.len(),
        forall|x: int|
            #![trigger scored[x]]
            i < x < scored.len() ==> scored[x].1.memory_id != scored[i].1.memory_id,
    ensures
        last_with(scored, scored[i].1.memory_id) == Some(i as usize),
        cosines(scored).dom().contains(scored[i].1.memory_id),
        cosines(scored)[scored[i].1.memory_id] == (Single { bits: scored[i].0 as u32 }),
    decreases scored.len(),
{
    let front = scored.drop_last();
    assert(scored.last() == scored[scored.len() - 1]);
    if i < front.len() {
        assert forall|x: int|
            #![trigger front[x]]
            i < x < front.len() implies front[x].1.memory_id != front[i].1.memory_id by {
            assert(scored[x] == front[x]);
        }
        the_last_is_found(front, i);
    }
}

/// A candidate counts with its own score and its own retrievers: it belongs if
/// the lexical retriever or the graph found it, if it grounds the answer, or if
/// a question of it matches strongly; and it is a strong match only from
/// three fifths on.
pub proof fn candidates_count_with_their_own_evidence(
    scored: Seq<Scored>,
    band: Single,
    grounded: GroundedOutcome,
    hype: Map<u128, Single>,
    i: int,
)
    requires
        scored.len() <= usize::MAX,
        0 <= i < scored.len(),
        crate::membership::well_scored(scored),
        forall|x: int, y: int|
            #![trigger scored[x], scored[y]]
            0 <= x < y < scored.len() ==> scored[x].1.memory_id != scored[y].1.memory_id,
    ensures
        ({
            let id = scored[i].1.memory_id;
            let lanes = scored[i].1.contributing_retrievers@;
            &&& real_lanes(scored, id) == lanes
            &&& cosines(scored).dom().contains(id) && cosines(scored)[id].bits == scored[i].0
            &&& belongs(scored, grounded, hype, id) <==> lanes.contains(Lane::Lexical)
                || lanes.contains(Lane::Graph) || outcome_sources(grounded).contains(id) || (
            hype.dom().contains(id) && !hype[id].nan() && hype[id].key() >= 0x3F19_999A)
            &&& strongly_semantic(scored, band, id) <==> scores_in_band(scored, i, band)
                && scored[i].0 >= 0x3F19_999A
            &&& member_support(scored, band, grounded, hype)(id) == support_count(
                id,
                lanes,
                scores_in_band(scored, i, band) && scored[i].0 >= 0x3F19_999A,
                outcome_sources(grounded).to_set(),
                hype,
            )
        }),
{
    let id = scored[i].1.memory_id;
    the_last_is_found(scored, i);
    assert(Single { bits: scored[i].0 as u32 }.key() == scored[i].0);
    let picks = crate::membership::band_picks(scored, band, scored.len());
    band_names(scored, band, scored.len(), i);
}

proof fn band_names(scored: Seq<Scored>, band: Single, n: nat, i: int)
    requires
        n <= scored.len() <= usize::MAX,
        0 <= i < scored.len(),
        forall|x: int, y: int|
            #![trigger scored[x], scored[y]]
            0 <= x < y < scored.len() ==> scored[x].1.memory_id != scored[y].1.memory_id,
    ensures
        crate::membership::names(
            scored,
            crate::membership::band_picks(scored, band, n),
            scored[i].1.memory_id,
        ) <==> i < n && crate::membership::in_band(scored, i, band),
    decreases n,
{
    let picks = crate::membership::band_picks(scored, band, n);
    let id = scored[i].1.memory_id;
    if n > 0 {
        let before = crate::membership::band_picks(scored, band, (n - 1) as nat);
        band_names(scored, band, (n - 1) as nat, i);
        if crate::membership::names(scored, before, id) {
            let k = choose|k: int|
                #![trigger before[k]]
                0 <= k < before.len() && scored[before[k] as int].1.memory_id == id;
            assert(picks[k] == before[k]);
        }
        if crate::membership::in_band(scored, n - 1, band) {
            assert(picks[before.len() as int] == (n - 1) as usize);
            assert(scored[(n - 1) as int] == scored[n - 1]);
        }
        if crate::membership::names(scored, picks, id) {
            let k = choose|k: int|
                #![trigger picks[k]]
                0 <= k < picks.len() && scored[picks[k] as int].1.memory_id == id;
            if k < before.len() {
                assert(before[k] == picks[k]);
            } else {
                assert(picks[k] == (n - 1) as usize);
                if i < n - 1 {
                    assert(scored[i].1.memory_id != scored[n - 1].1.memory_id);
                }
                if i > n - 1 {
                    assert(scored[n - 1].1.memory_id != scored[i].1.memory_id);
                }
            }
        }
    }
}

/// The sources that are fetched are those that are no candidates.
pub proof fn only_missing_sources_are_fetched(
    scored: Seq<Scored>,
    grounded: GroundedOutcome,
    id: u128,
)
    requires
        scored.len() <= usize::MAX,
        outcome_sources(grounded).contains(id),
    ensures
        missing(scored, outcome_sources(grounded)).contains(id) <==> forall|x: int|
            #![trigger scored[x]]
            0 <= x < scored.len() ==> scored[x].1.memory_id != id,
{
    let test = |x: u128| last_with(scored, x) is None;
    filter_keeps_what_passes(outcome_sources(grounded), test, id);
    candidates_are_found(scored, id);
}

proof fn candidates_are_found(scored: Seq<Scored>, id: u128)
    ensures
        last_with(scored, id) is None <==> forall|x: int|
            #![trigger scored[x]]
            0 <= x < scored.len() ==> scored[x].1.memory_id != id,
    decreases scored.len(),
{
    if scored.len() > 0 {
        let front = scored.drop_last();
        candidates_are_found(front, id);
        assert(scored.last() == scored[scored.len() - 1]);
        if last_with(front, id) is None && scored.last().1.memory_id != id {
            assert forall|x: int|
                #![trigger scored[x]]
                0 <= x < scored.len() implies scored[x].1.memory_id != id by {
                if x < front.len() {
                    assert(front[x] == scored[x]);
                }
            }
        }
        if forall|x: int|
            #![trigger scored[x]]
            0 <= x < scored.len() ==> scored[x].1.memory_id != id {
            assert forall|x: int|
                #![trigger front[x]]
                0 <= x < front.len() implies front[x].1.memory_id != id by {
                assert(scored[x] == front[x]);
            }
        }
    }
}

// Direct memories.

proof fn direct_facts(candidates: Seq<u128>, exclude: Seq<u128>)
    ensures
        direct_ids(candidates, exclude).len() <= 1000,
        direct_ids(candidates, exclude).no_duplicates(),
        forall|id: u128| #[trigger]
            direct_ids(candidates, exclude).contains(id) ==> candidates.contains(id) && id != 0
                && !exclude.contains(id),
        direct_ids(candidates, exclude).len() < 1000 ==> forall|i: int|
            0 <= i < candidates.len() && candidates[i] != 0 && !exclude.contains(candidates[i])
                ==> direct_ids(candidates, exclude).contains(#[trigger] candidates[i]),
    decreases candidates.len(),
{
    if candidates.len() > 0 {
        let front = candidates.drop_last();
        let before = direct_ids(front, exclude);
        let all = direct_ids(candidates, exclude);
        let last = candidates.last();
        direct_facts(front, exclude);
        assert(last == candidates[candidates.len() - 1]);
        assert forall|id: u128| #[trigger] all.contains(id) implies candidates.contains(id) && id
            != 0 && !exclude.contains(id) by {
            let k = choose|k: int| 0 <= k < all.len() && all[k] == id;
            if k < before.len() {
                assert(before[k] == id);
                assert(before.contains(id));
                let j = choose|j: int| 0 <= j < front.len() && front[j] == id;
                assert(candidates[j] == id);
            }
        }
        if all.len() < 1000 {
            assert forall|i: int|
                0 <= i < candidates.len() && candidates[i] != 0 && !exclude.contains(
                    candidates[i],
                ) implies all.contains(#[trigger] candidates[i]) by {
                if i < front.len() {
                    assert(front[i] == candidates[i]);
                    assert(before.contains(front[i]));
                    let k = choose|k: int| 0 <= k < before.len() && before[k] == front[i];
                    assert(all[k] == candidates[i]);
                } else if before.contains(last) {
                    let k = choose|k: int| 0 <= k < before.len() && before[k] == last;
                    assert(all[k] == last);
                } else {
                    assert(all[before.len() as int] == last);
                }
            }
        }
    }
}

/// An anchor pulls in the memories that evidence its statements and those that
/// mention it, each once, up to a thousand, and none that is excluded.
pub proof fn anchors_pull_in_their_memories(
    r: Vec<u128>,
    statement_evidence: Vec<u128>,
    mentions: Vec<u128>,
    exclude: Vec<u128>,
    i: int,
    id: u128,
)
    requires
        pulls_direct(r, statement_evidence, mentions, exclude),
    ensures
        r@.no_duplicates() && r@.len() <= 1000,
        r@.contains(id) ==> id != 0 && !exclude@.contains(id) && (statement_evidence@.contains(id)
            || mentions@.contains(id)),
        r@.len() < 1000 && 0 <= i < statement_evidence@.len() && statement_evidence@[i] != 0
            && !exclude@.contains(statement_evidence@[i]) ==> r@.contains(statement_evidence@[i]),
        r@.len() < 1000 && 0 <= i < mentions@.len() && mentions@[i] != 0 && !exclude@.contains(
            mentions@[i],
        ) ==> r@.contains(mentions@[i]),
{
    let all = statement_evidence@ + mentions@;
    direct_facts(all, exclude@);
    if 0 <= i < statement_evidence@.len() {
        assert(all[i] == statement_evidence@[i]);
    }
    if 0 <= i < mentions@.len() {
        assert(all[statement_evidence@.len() + i] == mentions@[i]);
    }
    if r@.contains(id) {
        let k = choose|k: int| 0 <= k < all.len() && all[k] == id;
        if k < statement_evidence@.len() {
            assert(statement_evidence@[k] == id);
        } else {
            assert(mentions@[k - statement_evidence@.len()] == id);
        }
    }
}

} // verus!
