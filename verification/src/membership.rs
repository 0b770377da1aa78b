//! Which memories belong to a cue, in which order, and in which shape.
use vstd::prelude::*;

use std::collections::{HashMap, HashSet};

use crate::bytes::has_u128;
use crate::ranking::{gather, gathered, is_selection, items_of, rank, ranked, scored_by, take_items};
use crate::recall::{
    abstain, abstains, answer_order, answer_shape, apply_grounded_commit, collapsed, committed_lead,
    consensus_collapse, decisions, distinct_sources, effective_max, grounded_commit, has_lane,
    has_strong_hype, is_decision, is_lead, keyed_max, keyed_membership_ceiling, leading,
    membership_ceiling, order_by_answer_relevance, recall_frame, sources_of, strong_hype, support,
    support_count, trailing, was_asked, wire_count, AnswerShape, GroundedOutcome, Lane, MemoryResult,
    RecallRequest, RecallResponseFrame, MEMBERSHIP_ABS_FLOOR_BITS, STRONG_BITS,
};
use crate::recall_trace::RecallTrace;
use crate::single::Single;

verus! {

/// A memory with the order key of its belonging score.
pub type Scored = (i128, MemoryResult);

/// The belonging score: the stronger of the passage cosine and the score that
/// the fan-out gave.
pub open spec fn belonging_key(passages: Map<u128, Single>) -> spec_fn(MemoryResult) -> int {
    |m: MemoryResult|
        {
            let passage = if passages.dom().contains(m.memory_id) {
                passages[m.memory_id].positive_key()
            } else {
                0
            };
            let fan_out = m.similarity_score.positive_key();
            if passage > fan_out {
                passage
            } else {
                fan_out
            }
        }
}

/// Candidates in descending order of belonging.
pub open spec fn by_belonging(
    candidates: Seq<MemoryResult>,
    passages: Map<u128, Single>,
) -> Seq<Scored> {
    ranked(scored_by(candidates, belonging_key(passages)))
}

/// Whether every belonging score is the key of a number that is not negative.
pub open spec fn well_scored(scored: Seq<Scored>) -> bool {
    forall|i: int| 0 <= i < scored.len() ==> 0 <= #[trigger] scored[i].0 <= 0x7F80_0000
}

/// The best belonging score, 0 where there is no candidate.
pub open spec fn best_key(scored: Seq<Scored>) -> int {
    if scored.len() == 0 {
        0
    } else {
        scored[0].0 as int
    }
}

/// Whether a candidate is in the semantic band: the best score and its own
/// clear the floor, and its own is not below the band.
pub open spec fn in_band(scored: Seq<Scored>, i: int, band: Single) -> bool {
    &&& best_key(scored) >= MEMBERSHIP_ABS_FLOOR_BITS
    &&& scored[i].0 >= MEMBERSHIP_ABS_FLOOR_BITS
    &&& band.at_most(Single { bits: scored[i].0 as u32 })
}

/// Whether a lane besides the semantic one, or a second lane, confirms a
/// candidate.
pub open spec fn lane_confirmed(m: MemoryResult) -> bool {
    m.contributing_retrievers@.len() >= 2 || exists|k: int|
        #![trigger m.contributing_retrievers@[k]]
        0 <= k < m.contributing_retrievers@.len() && m.contributing_retrievers@[k]
            != Lane::Semantic
}

/// Whether a position of the given list holds this id.
pub open spec fn names(scored: Seq<Scored>, picks: Seq<usize>, id: u128) -> bool {
    exists|k: int|
        #![trigger picks[k]]
        0 <= k < picks.len() && scored[picks[k] as int].1.memory_id == id
}

/// The positions of the first `n` candidates that are in the band.
pub open spec fn band_picks(scored: Seq<Scored>, band: Single, n: nat) -> Seq<usize>
    decreases n,
{
    if n == 0 {
        Seq::empty()
    } else {
        let before = band_picks(scored, band, (n - 1) as nat);
        if in_band(scored, n - 1, band) {
            before.push((n - 1) as usize)
        } else {
            before
        }
    }
}

/// The band, then the first `n` candidates that a lane confirms and whose
/// memory is not yet taken.
pub open spec fn semantic_picks(scored: Seq<Scored>, band: Single, n: nat) -> Seq<usize>
    decreases n,
{
    if n == 0 {
        band_picks(scored, band, scored.len())
    } else {
        let before = semantic_picks(scored, band, (n - 1) as nat);
        let m = scored[n - 1].1;
        if lane_confirmed(m) && !names(scored, before, m.memory_id) {
            before.push((n - 1) as usize)
        } else {
            before
        }
    }
}

/// The last candidate with an id.
pub open spec fn last_with(scored: Seq<Scored>, id: u128) -> Option<usize>
    decreases scored.len(),
{
    if scored.len() == 0 {
        None
    } else if scored.last().1.memory_id == id {
        Some((scored.len() - 1) as usize)
    } else {
        last_with(scored.drop_last(), id)
    }
}

/// The candidates that grounded sources name, of those that the semantic lane
/// kept, or of those that it did not.
pub open spec fn source_picks(
    scored: Seq<Scored>,
    sources: Seq<u128>,
    semantic: Seq<usize>,
    kept: bool,
) -> Seq<usize>
    decreases sources.len(),
{
    if sources.len() == 0 {
        Seq::empty()
    } else {
        let before = source_picks(scored, sources.drop_last(), semantic, kept);
        match last_with(scored, sources.last()) {
            Some(i) if names(scored, semantic, sources.last()) == kept => before.push(i),
            _ => before,
        }
    }
}

/// The sources that no candidate stands for.
pub open spec fn missing(scored: Seq<Scored>, sources: Seq<u128>) -> Seq<u128> {
    sources.filter(|id: u128| last_with(scored, id) is None)
}

/// The numbers from `lo` up to `hi`.
pub open spec fn span(lo: nat, hi: nat) -> Seq<usize> {
    Seq::new((hi - lo) as nat, |i: int| (lo + i) as usize)
}

/// Of the given positions, the first of each memory.
pub open spec fn first_of_each(pool: Seq<Scored>, order: Seq<usize>) -> Seq<usize>
    decreases order.len(),
{
    if order.len() == 0 {
        Seq::empty()
    } else {
        let before = first_of_each(pool, order.drop_last());
        if names(pool, before, pool[order.last() as int].1.memory_id) {
            before
        } else {
            before.push(order.last())
        }
    }
}

/// Rows without a belonging score.
pub open spec fn unscored(rows: Seq<MemoryResult>) -> Seq<Scored> {
    rows.map_values(|m: MemoryResult| (0i128, m))
}

/// The sources of a grounded outcome.
pub open spec fn outcome_sources(grounded: GroundedOutcome) -> Seq<u128> {
    match grounded {
        GroundedOutcome::Answer(a, _) => distinct_sources(a.values@),
        GroundedOutcome::NoAnswer => Seq::empty(),
    }
}

/// Everything a member can come from: the candidates, the hydrated sources,
/// the rows about the anchor.
pub open spec fn pool_of(
    scored: Seq<Scored>,
    hydrated: Seq<MemoryResult>,
    injected: Seq<MemoryResult>,
) -> Seq<Scored> {
    scored + unscored(hydrated) + unscored(injected)
}

/// The members before they are ordered. Sources that both lanes kept come
/// first, then the other sources, the hydrated ones, the semantic set and the
/// rows about the anchor; a memory counts where it comes first.
pub open spec fn union_order(
    scored: Seq<Scored>,
    hydrated: Seq<MemoryResult>,
    injected: Seq<MemoryResult>,
    grounded: GroundedOutcome,
    band: Single,
) -> Seq<usize> {
    let sources = outcome_sources(grounded);
    let semantic = semantic_picks(scored, band, scored.len());
    let n = scored.len();
    let h = n + hydrated.len();
    let wanted = source_picks(scored, sources, semantic, true) + source_picks(
        scored,
        sources,
        semantic,
        false,
    ) + span(n, h) + semantic + span(h, h + injected.len());
    first_of_each(pool_of(scored, hydrated, injected), wanted)
}

/// The members before they are ordered.
pub open spec fn union_members(
    scored: Seq<Scored>,
    hydrated: Seq<MemoryResult>,
    injected: Seq<MemoryResult>,
    grounded: GroundedOutcome,
    band: Single,
) -> Seq<MemoryResult> {
    items_of(
        gathered(
            pool_of(scored, hydrated, injected),
            union_order(scored, hydrated, injected, grounded, band),
        ),
    )
}

/// The lanes by which the fan-out found a memory.
pub open spec fn real_lanes(scored: Seq<Scored>, id: u128) -> Seq<Lane> {
    match last_with(scored, id) {
        Some(i) => scored[i as int].1.contributing_retrievers@,
        None => Seq::empty(),
    }
}

/// Whether a memory is in the band with a strong score.
pub open spec fn strongly_semantic(scored: Seq<Scored>, band: Single, id: u128) -> bool {
    strong_in(scored, band_picks(scored, band, scored.len()), id)
}

/// Whether a memory is among the given positions and has a strong score.
pub open spec fn strong_in(scored: Seq<Scored>, picks: Seq<usize>, id: u128) -> bool {
    &&& names(scored, picks, id)
    &&& last_with(scored, id) matches Some(i) && scored[i as int].0 >= STRONG_BITS
}

/// The support of each memory, over the lanes that really found it.
pub open spec fn member_support(
    scored: Seq<Scored>,
    band: Single,
    grounded: GroundedOutcome,
    hype: Map<u128, Single>,
) -> spec_fn(u128) -> u8 {
    |id: u128|
        support_count(
            id,
            real_lanes(scored, id),
            strongly_semantic(scored, band, id),
            outcome_sources(grounded).to_set(),
            hype,
        ) as u8
}

/// Whether more than the passage cosine says that a memory belongs.
pub open spec fn belongs(
    scored: Seq<Scored>,
    grounded: GroundedOutcome,
    hype: Map<u128, Single>,
    id: u128,
) -> bool {
    ||| strong_hype(hype, id)
    ||| real_lanes(scored, id).contains(Lane::Lexical)
    ||| real_lanes(scored, id).contains(Lane::Graph)
    ||| outcome_sources(grounded).contains(id)
}

/// The cosine of each candidate; of candidates with one id, the last.
pub open spec fn cosines(scored: Seq<Scored>) -> Map<u128, Single>
    decreases scored.len(),
{
    if scored.len() == 0 {
        Map::empty()
    } else {
        cosines(scored.drop_last()).insert(
            scored.last().1.memory_id,
            Single { bits: scored.last().0 as u32 },
        )
    }
}

/// Whether some members hold an id.
pub open spec fn present(members: Seq<MemoryResult>, id: u128) -> bool {
    exists|k: int| #![trigger members[k]] 0 <= k < members.len() && members[k].memory_id == id
}

/// Whether some members hold one of the ids.
pub open spec fn any_present(members: Seq<MemoryResult>, ids: Seq<u128>) -> bool {
    exists|k: int| #![trigger ids[k]] 0 <= k < ids.len() && present(members, ids[k])
}

/// The ordered members and the committed shape: a committed lead that is
/// really among the members goes first, else the members are ordered by
/// answer relevance and a consensus may collapse them.
pub open spec fn ordered_members(
    members: Seq<MemoryResult>,
    lead: Option<(Seq<u128>, AnswerShape)>,
    hype: Map<u128, Single>,
    cos: Map<u128, Single>,
    flat: spec_fn(Single, Single) -> bool,
) -> (Seq<MemoryResult>, Option<AnswerShape>) {
    match lead {
        Some((ids, shape)) if any_present(members, ids) => (
            leading(members, ids) + answer_order(trailing(members, ids), hype, cos, flat),
            Some(shape),
        ),
        _ => {
            let ordered = answer_order(members, hype, cos, flat);
            let top = if ordered.len() == 0 {
                None
            } else {
                Some(ordered[0].memory_id)
            };
            (collapsed(ordered, top), None)
        },
    }
}

/// The members that are ordered by answer relevance: all but those of a
/// committed lead that is really among them.
pub open spec fn unled_members(
    members: Seq<MemoryResult>,
    lead: Option<(Seq<u128>, AnswerShape)>,
) -> Seq<MemoryResult> {
    match lead {
        Some((ids, _)) if any_present(members, ids) => trailing(members, ids),
        _ => members,
    }
}

/// The bound on the answer: the exact key's bound where the cue named a
/// subject or something grounded answers it.
pub open spec fn ceiling(
    max_results: u32,
    client_requested_count: bool,
    anchored: bool,
    grounded: GroundedOutcome,
) -> u32 {
    if anchored || grounded is Answer {
        keyed_max(max_results, client_requested_count)
    } else {
        effective_max(max_results)
    }
}

/// The first items of a list, at most `n`.
pub open spec fn at_most<T>(s: Seq<T>, n: nat) -> Seq<T> {
    if s.len() > n {
        s.take(n as int)
    } else {
        s
    }
}

proof fn belonging_is_well_scored(candidates: Seq<MemoryResult>, passages: Map<u128, Single>)
    ensures
        well_scored(by_belonging(candidates, passages)),
{
    let pairs = scored_by(candidates, belonging_key(passages));
    let out = ranked(pairs);
    crate::ranking::ranking_is_sorted(pairs);
    broadcast use vstd::seq_lib::group_to_multiset_ensures;

    assert forall|i: int| #![trigger out[i]] 0 <= i < out.len() implies 0 <= out[i].0
        <= 0x7F80_0000 by {
        assert(out.contains(out[i]));
        assert(out.to_multiset().count(out[i]) > 0);
        assert(pairs.to_multiset().count(out[i]) > 0);
        assert(pairs.contains(out[i]));
        let k = choose|k: int| 0 <= k < pairs.len() && pairs[k] == out[i];
        let key = belonging_key(passages)(candidates[k]);
        assert(0 <= key <= 0x7F80_0000);
        assert(pairs[k].0 == key as i128);
    }
}

fn belonging(m: &MemoryResult, passages: &HashMap<u128, Single>) -> (r: i128)
    ensures
        r == belonging_key(passages@)(*m),
{
    broadcast use vstd::std_specs::hash::group_hash_axioms;

    let passage: i64 = match passages.get(&m.memory_id) {
        Some(s) => s.positive_order_key(),
        None => 0,
    };
    let fan_out: i64 = m.similarity_score.positive_order_key();
    if passage > fan_out {
        passage as i128
    } else {
        fan_out as i128
    }
}

/// Scores candidates and orders them, best first.
pub fn score_candidates(candidates: Vec<MemoryResult>, passages: &HashMap<u128, Single>) -> (r: Vec<
    Scored,
>)
    ensures
        r@ == by_belonging(candidates@, passages@),
        well_scored(r@),
{
    proof {
        belonging_is_well_scored(candidates@, passages@);
    }
    let ghost all = candidates@;
    let ghost key = belonging_key(passages@);
    let mut scored: Vec<Scored> = Vec::new();
    for m in it: candidates
        invariant
            it.seq() == all,
            key == belonging_key(passages@),
            scored@ == scored_by(all.take(it.index()), key),
    {
        let ghost n = it.index();
        let k: i128 = belonging(&m, passages);
        scored.push((k, m));
        assert(scored_by(all.take(n + 1), key) =~= scored_by(all.take(n), key).push((k, m)));
    }
    assert(all.take(all.len() as int) =~= all);
    rank(scored)
}

/// The best belonging score. The band that membership takes is this score
/// times 0.85.
pub fn best_score(scored: &Vec<Scored>) -> (r: Single)
    requires
        well_scored(scored@),
    ensures
        r.bits == best_key(scored@),
{
    if scored.len() == 0 {
        Single { bits: 0 }
    } else {
        Single { bits: scored[0].0 as u32 }
    }
}

fn find_last(scored: &Vec<Scored>, id: u128) -> (r: Option<usize>)
    ensures
        r == last_with(scored@, id),
        r matches Some(i) ==> i < scored@.len() && scored@[i as int].1.memory_id == id,
{
    let mut i: usize = scored.len();
    assert(scored@.take(i as int) =~= scored@);
    while i > 0
        invariant
            i <= scored@.len(),
            last_with(scored@, id) == last_with(scored@.take(i as int), id),
        decreases i,
    {
        i = i - 1;
        assert(scored@.take(i + 1).drop_last() =~= scored@.take(i as int));
        if scored[i].1.memory_id == id {
            return Some(i);
        }
    }
    None
}

fn is_named(scored: &Vec<Scored>, picks: &Vec<usize>, id: u128) -> (r: bool)
    requires
        forall|k: int| 0 <= k < picks@.len() ==> #[trigger] picks@[k] < scored@.len(),
    ensures
        r == names(scored@, picks@, id),
{
    for k in 0..picks.len()
        invariant
            forall|k: int| 0 <= k < picks@.len() ==> #[trigger] picks@[k] < scored@.len(),
            forall|j: int|
                #![trigger picks@[j]]
                0 <= j < k ==> scored@[picks@[j] as int].1.memory_id != id,
    {
        if scored[picks[k]].1.memory_id == id {
            return true;
        }
    }
    false
}

fn is_lane_confirmed(m: &MemoryResult) -> (r: bool)
    ensures
        r == lane_confirmed(*m),
{
    if m.contributing_retrievers.len() >= 2 {
        return true;
    }
    for k in 0..m.contributing_retrievers.len()
        invariant
            forall|j: int|
                #![trigger m.contributing_retrievers@[j]]
                0 <= j < k ==> m.contributing_retrievers@[j] == Lane::Semantic,
    {
        if m.contributing_retrievers[k] != Lane::Semantic {
            return true;
        }
    }
    false
}

fn pick_band(scored: &Vec<Scored>, band: Single) -> (r: Vec<usize>)
    requires
        well_scored(scored@),
    ensures
        r@ == band_picks(scored@, band, scored@.len()),
        forall|k: int| 0 <= k < r@.len() ==> #[trigger] r@[k] < scored@.len(),
{
    let mut out: Vec<usize> = Vec::new();
    let top: u32 = best_score(scored).bits;
    for i in 0..scored.len()
        invariant
            well_scored(scored@),
            top == best_key(scored@),
            out@ == band_picks(scored@, band, i as nat),
            forall|k: int| 0 <= k < out@.len() ==> #[trigger] out@[k] < scored@.len(),
    {
        let key: i128 = scored[i].0;
        if top >= MEMBERSHIP_ABS_FLOOR_BITS && key >= MEMBERSHIP_ABS_FLOOR_BITS as i128
            && band.is_at_most(Single { bits: key as u32 }) {
            out.push(i);
        }
    }
    out
}

fn pick_semantic(scored: &Vec<Scored>, band_only: &Vec<usize>, Ghost(band): Ghost<Single>) -> (r:
    Vec<usize>)
    requires
        band_only@ == band_picks(scored@, band, scored@.len()),
        forall|k: int| 0 <= k < band_only@.len() ==> #[trigger] band_only@[k] < scored@.len(),
    ensures
        r@ == semantic_picks(scored@, band, scored@.len()),
        forall|k: int| 0 <= k < r@.len() ==> #[trigger] r@[k] < scored@.len(),
{
    let mut out: Vec<usize> = crate::bytes::copy_list(band_only);
    for i in 0..scored.len()
        invariant
            out@ == semantic_picks(scored@, band, i as nat),
            forall|k: int| 0 <= k < out@.len() ==> #[trigger] out@[k] < scored@.len(),
    {
        if !is_named(scored, &out, scored[i].1.memory_id) && is_lane_confirmed(&scored[i].1) {
            out.push(i);
        }
    }
    out
}

fn pick_sources(
    scored: &Vec<Scored>,
    sources: &Vec<u128>,
    semantic: &Vec<usize>,
    kept: bool,
    out: &mut Vec<usize>,
)
    requires
        forall|k: int| 0 <= k < semantic@.len() ==> #[trigger] semantic@[k] < scored@.len(),
        forall|k: int| 0 <= k < old(out)@.len() ==> #[trigger] old(out)@[k] < scored@.len(),
    ensures
        final(out)@ == old(out)@ + source_picks(scored@, sources@, semantic@, kept),
        forall|k: int| 0 <= k < final(out)@.len() ==> #[trigger] final(out)@[k] < scored@.len(),
{
    let ghost before = out@;
    for i in 0..sources.len()
        invariant
            forall|k: int| 0 <= k < semantic@.len() ==> #[trigger] semantic@[k] < scored@.len(),
            forall|k: int| 0 <= k < out@.len() ==> #[trigger] out@[k] < scored@.len(),
            out@ == before + source_picks(
                scored@,
                sources@.take(i as int),
                semantic@,
                kept,
            ),
    {
        let id: u128 = sources[i];
        assert(sources@.take(i + 1).drop_last() =~= sources@.take(i as int));
        if let Some(at) = find_last(scored, id) {
            if is_named(scored, semantic, id) == kept {
                out.push(at);
            }
        }
    }
    assert(sources@.take(sources@.len() as int) =~= sources@);
}

/// The sources of a grounded outcome.
pub fn grounded_sources(grounded: &GroundedOutcome) -> (r: Vec<u128>)
    ensures
        r@ == outcome_sources(*grounded),
{
    match grounded {
        GroundedOutcome::Answer(a, _) => sources_of(&a.values),
        GroundedOutcome::NoAnswer => Vec::new(),
    }
}

/// The grounded sources that the fan-out missed: the rows to fetch.
pub fn missing_sources(scored: &Vec<Scored>, grounded: &GroundedOutcome) -> (r: Vec<u128>)
    ensures
        r@ == missing(scored@, outcome_sources(*grounded)),
{
    let sources = grounded_sources(grounded);
    let ghost absent = |id: u128| last_with(scored@, id) is None;
    let mut out: Vec<u128> = Vec::new();
    assert(sources@.take(0).filter(absent) =~= Seq::empty()) by {
        reveal(Seq::filter);
    }
    for i in 0..sources.len()
        invariant
            absent == (|id: u128| last_with(scored@, id) is None),
            out@ == sources@.take(i as int).filter(absent),
    {
        proof {
            assert(sources@.take(i + 1).drop_last() =~= sources@.take(i as int));
            reveal(Seq::filter);
        }
        let id: u128 = sources[i];
        if find_last(scored, id).is_none() {
            out.push(id);
        }
    }
    assert(sources@.take(sources@.len() as int) =~= sources@);
    out
}

proof fn first_of_each_selects(pool: Seq<Scored>, order: Seq<usize>)
    requires
        forall|k: int| 0 <= k < order.len() ==> #[trigger] order[k] < pool.len(),
    ensures
        is_selection(first_of_each(pool, order), pool.len()),
    decreases order.len(),
{
    if order.len() > 0 {
        let front = order.drop_last();
        assert forall|k: int| 0 <= k < front.len() implies #[trigger] front[k] < pool.len() by {
            assert(front[k] == order[k]);
        }
        first_of_each_selects(pool, front);
        let before = first_of_each(pool, front);
        let out = first_of_each(pool, order);
        if !names(pool, before, pool[order.last() as int].1.memory_id) {
            assert(order[order.len() - 1] < pool.len());
            assert forall|k: int| 0 <= k < before.len() implies #[trigger] before[k]
                != order.last() by {}
        }
    }
}

fn keep_first(pool: &Vec<Scored>, order: &Vec<usize>) -> (r: Vec<usize>)
    requires
        forall|k: int| 0 <= k < order@.len() ==> #[trigger] order@[k] < pool@.len(),
    ensures
        r@ == first_of_each(pool@, order@),
        is_selection(r@, pool@.len()),
{
    let mut out: Vec<usize> = Vec::new();
    for i in 0..order.len()
        invariant
            forall|k: int| 0 <= k < order@.len() ==> #[trigger] order@[k] < pool@.len(),
            out@ == first_of_each(pool@, order@.take(i as int)),
            forall|k: int| 0 <= k < out@.len() ==> #[trigger] out@[k] < pool@.len(),
    {
        assert(order@.take(i + 1).drop_last() =~= order@.take(i as int));
        let at: usize = order[i];
        if !is_named(pool, &out, pool[at].1.memory_id) {
            out.push(at);
        }
    }
    assert(order@.take(order@.len() as int) =~= order@);
    proof {
        first_of_each_selects(pool@, order@);
    }
    out
}

fn append_unscored(pool: &mut Vec<Scored>, rows: Vec<MemoryResult>)
    ensures
        final(pool)@ == old(pool)@ + unscored(rows@),
{
    let ghost before = pool@;
    let ghost all = rows@;
    for m in it: rows
        invariant
            it.seq() == all,
            pool@ == before + unscored(all.take(it.index())),
    {
        let ghost n = it.index();
        pool.push((0, m));
        assert(unscored(all.take(n + 1)) =~= unscored(all.take(n)).push((0i128, m)));
    }
    assert(all.take(all.len() as int) =~= all);
}

fn append_span(out: &mut Vec<usize>, lo: usize, hi: usize)
    requires
        lo <= hi,
    ensures
        final(out)@ == old(out)@ + span(lo as nat, hi as nat),
{
    let ghost before = out@;
    for i in lo..hi
        invariant
            lo <= hi,
            out@ == before + span(lo as nat, i as nat),
    {
        out.push(i);
        assert(span(lo as nat, (i + 1) as nat) =~= span(lo as nat, i as nat).push(i));
    }
}

fn cosine_map(scored: &Vec<Scored>) -> (r: HashMap<u128, Single>)
    requires
        well_scored(scored@),
    ensures
        r@ == cosines(scored@),
{
    broadcast use vstd::std_specs::hash::group_hash_axioms;

    let mut out: HashMap<u128, Single> = HashMap::new();
    for i in 0..scored.len()
        invariant
            well_scored(scored@),
            out@ == cosines(scored@.take(i as int)),
    {
        assert(scored@.take(i + 1).drop_last() =~= scored@.take(i as int));
        out.insert(scored[i].1.memory_id, Single { bits: scored[i].0 as u32 });
    }
    assert(scored@.take(scored@.len() as int) =~= scored@);
    out
}

fn source_set(sources: &Vec<u128>) -> (r: HashSet<u128>)
    ensures
        r@ == sources@.to_set(),
{
    broadcast use vstd::std_specs::hash::group_hash_axioms;

    let mut out: HashSet<u128> = HashSet::new();
    for i in 0..sources.len()
        invariant
            out@ == sources@.take(i as int).to_set(),
    {
        out.insert(sources[i]);
        assert(sources@.take(i + 1).to_set() =~= sources@.take(i as int).to_set().insert(
            sources@[i as int],
        )) by {
            let a = sources@.take(i + 1);
            let b = sources@.take(i as int);
            assert forall|x: u128| a.contains(x) <==> (b.contains(x) || x == sources@[i as int]) by {
                if a.contains(x) {
                    let k = choose|k: int| 0 <= k < a.len() && a[k] == x;
                    if k < i {
                        assert(b[k] == x);
                    }
                }
                if b.contains(x) {
                    let k = choose|k: int| 0 <= k < b.len() && b[k] == x;
                    assert(a[k] == x);
                }
                assert(a[i as int] == sources@[i as int]);
            }
        }
    }
    assert(sources@.take(sources@.len() as int) =~= sources@);
    out
}

/// The ids of the members before the rows about the anchor are added: the
/// ids that such rows need not repeat.
pub fn assembled_ids(
    scored: &Vec<Scored>,
    hydrated: &Vec<MemoryResult>,
    grounded: &GroundedOutcome,
    band: Single,
) -> (r: Vec<u128>)
    requires
        scored@.len() + hydrated@.len() <= usize::MAX,
        well_scored(scored@),
    ensures
        forall|id: u128| #[trigger]
            r@.contains(id) <==> present(
                union_members(scored@, hydrated@, Seq::empty(), *grounded, band),
                id,
            ),
{
    let sources = grounded_sources(grounded);
    let band_only = pick_band(scored, band);
    let semantic = pick_semantic(scored, &band_only, Ghost(band));
    let mut picks: Vec<usize> = Vec::new();
    pick_sources(scored, &sources, &semantic, true, &mut picks);
    pick_sources(scored, &sources, &semantic, false, &mut picks);
    let mut ids: Vec<u128> = Vec::new();
    for k in 0..picks.len()
        invariant
            forall|k: int| 0 <= k < picks@.len() ==> #[trigger] picks@[k] < scored@.len(),
            ids@.len() == k,
            forall|j: int| 0 <= j < k ==> #[trigger] ids@[j] == scored@[picks@[j] as int].1.memory_id,
    {
        ids.push(scored[picks[k]].1.memory_id);
    }
    let ghost first = ids@;
    for k in 0..hydrated.len()
        invariant
            ids@.len() == first.len() + k,
            forall|j: int| 0 <= j < first.len() ==> #[trigger] ids@[j] == first[j],
            forall|j: int|
                first.len() <= j < ids@.len() ==> #[trigger] ids@[j] == hydrated@[j
                    - first.len()].memory_id,
    {
        ids.push(hydrated[k].memory_id);
    }
    let ghost second = ids@;
    for k in 0..semantic.len()
        invariant
            forall|k: int| 0 <= k < semantic@.len() ==> #[trigger] semantic@[k] < scored@.len(),
            ids@.len() == second.len() + k,
            forall|j: int| 0 <= j < second.len() ==> #[trigger] ids@[j] == second[j],
            forall|j: int|
                second.len() <= j < ids@.len() ==> #[trigger] ids@[j] == scored@[semantic@[j
                    - second.len()] as int].1.memory_id,
    {
        ids.push(scored[semantic[k]].1.memory_id);
    }
    proof {
        let pool = pool_of(scored@, hydrated@, Seq::empty());
        let n = scored@.len();
        let h = n + hydrated@.len();
        let wanted = picks@ + span(n, h) + semantic@ + span(h, h);
        let listed = source_picks(scored@, sources@, semantic@, true) + source_picks(
            scored@,
            sources@,
            semantic@,
            false,
        ) + span(n, h) + semantic@ + span(h, h);
        assert(listed =~= wanted);
        assert(ids@.len() == wanted.len());
        assert forall|j: int| 0 <= j < ids@.len() implies #[trigger] ids@[j]
            == pool[wanted[j] as int].1.memory_id by {
            if j < first.len() {
                assert(ids@[j] == second[j]);
                assert(second[j] == first[j]);
            } else if j < second.len() {
                assert(ids@[j] == second[j]);
                assert(wanted[j] == n + (j - first.len()));
            } else {
                assert(wanted[j] == semantic@[j - second.len()]);
            }
        }
        assert forall|k: int| 0 <= k < wanted.len() implies #[trigger] wanted[k] < pool.len() by {
            if k < first.len() {
                assert(wanted[k] == picks@[k]);
            } else if k >= second.len() {
                assert(wanted[k] == semantic@[k - second.len()]);
            }
        }
        first_keeps_names(pool, wanted);
        let order = first_of_each(pool, wanted);
        let members = union_members(scored@, hydrated@, Seq::empty(), *grounded, band);
        assert forall|id: u128| #[trigger] ids@.contains(id) <==> present(members, id) by {
            names_are_present(pool, order, id);
            assert(names(pool, wanted, id) <==> names(pool, order, id));
            if ids@.contains(id) {
                let j = choose|j: int| 0 <= j < ids@.len() && ids@[j] == id;
                assert(pool[wanted[j] as int].1.memory_id == id);
                assert(names(pool, wanted, id));
            }
            if names(pool, wanted, id) {
                let j = choose|j: int|
                    #![trigger wanted[j]]
                    0 <= j < wanted.len() && pool[wanted[j] as int].1.memory_id == id;
                assert(ids@[j] == id);
            }
        }
    }
    ids
}

pub proof fn names_are_present(pool: Seq<Scored>, order: Seq<usize>, id: u128)
    ensures
        names(pool, order, id) <==> present(items_of(gathered(pool, order)), id),
{
    let members = items_of(gathered(pool, order));
    if names(pool, order, id) {
        let k = choose|k: int|
            #![trigger order[k]]
            0 <= k < order.len() && pool[order[k] as int].1.memory_id == id;
        assert(members[k].memory_id == id);
    }
    if present(members, id) {
        let k = choose|k: int|
            #![trigger members[k]]
            0 <= k < members.len() && members[k].memory_id == id;
        assert(pool[order[k] as int].1.memory_id == id);
    }
}

/// Keeping the first of each memory drops no memory and repeats none.
pub proof fn first_keeps_names(pool: Seq<Scored>, order: Seq<usize>)
    ensures
        forall|id: u128| #[trigger]
            names(pool, first_of_each(pool, order), id) <==> names(pool, order, id),
        forall|a: int, b: int|
            #![trigger first_of_each(pool, order)[a], first_of_each(pool, order)[b]]
            0 <= a < b < first_of_each(pool, order).len() ==> pool[first_of_each(
                pool,
                order,
            )[a] as int].1.memory_id != pool[first_of_each(pool, order)[b] as int].1.memory_id,
    decreases order.len(),
{
    if order.len() > 0 {
        let front = order.drop_last();
        first_keeps_names(pool, front);
        let before = first_of_each(pool, front);
        let out = first_of_each(pool, order);
        let x = pool[order.last() as int].1.memory_id;
        assert forall|id: u128| #[trigger] names(pool, out, id) <==> names(pool, order, id) by {
            assert(names(pool, before, id) <==> names(pool, front, id));
            if names(pool, order, id) {
                let k = choose|k: int|
                    #![trigger order[k]]
                    0 <= k < order.len() && pool[order[k] as int].1.memory_id == id;
                if k < front.len() {
                    assert(front[k] == order[k]);
                    assert(names(pool, front, id));
                    let j = choose|j: int|
                        #![trigger before[j]]
                        0 <= j < before.len() && pool[before[j] as int].1.memory_id == id;
                    assert(out[j] == before[j]);
                } else {
                    assert(id == x);
                    if !names(pool, before, x) {
                        assert(out[out.len() - 1] == order.last());
                    }
                }
            }
            if names(pool, out, id) {
                let k = choose|k: int|
                    #![trigger out[k]]
                    0 <= k < out.len() && pool[out[k] as int].1.memory_id == id;
                if k < before.len() {
                    assert(before[k] == out[k]);
                    assert(names(pool, before, id));
                    let j = choose|j: int|
                        #![trigger front[j]]
                        0 <= j < front.len() && pool[front[j] as int].1.memory_id == id;
                    assert(order[j] == front[j]);
                } else {
                    assert(order[order.len() - 1] == out[k]);
                }
            }
        }
        if !names(pool, before, x) {
            assert forall|a: int, b: int|
                #![trigger out[a], out[b]]
                0 <= a < b < out.len() implies pool[out[a] as int].1.memory_id
                != pool[out[b] as int].1.memory_id by {
                assert(out[a] == before[a]);
                if b < before.len() {
                    assert(out[b] == before[b]);
                }
            }
        }
    }
}

/// What the fan-out says of one candidate.
struct LaneFacts {
    id: u128,
    lexical: bool,
    graph: bool,
}

spec fn facts_match(facts: Seq<LaneFacts>, scored: Seq<Scored>) -> bool {
    &&& facts.len() == scored.len()
    &&& forall|i: int|
        #![trigger facts[i]]
        0 <= i < facts.len() ==> {
            &&& facts[i].id == scored[i].1.memory_id
            &&& facts[i].lexical == scored[i].1.contributing_retrievers@.contains(Lane::Lexical)
            &&& facts[i].graph == scored[i].1.contributing_retrievers@.contains(Lane::Graph)
        }
}

fn lane_facts(scored: &Vec<Scored>) -> (r: Vec<LaneFacts>)
    ensures
        facts_match(r@, scored@),
{
    let mut out: Vec<LaneFacts> = Vec::new();
    for i in 0..scored.len()
        invariant
            out@.len() == i,
            forall|j: int|
                #![trigger out@[j]]
                0 <= j < i ==> {
                    &&& out@[j].id == scored@[j].1.memory_id
                    &&& out@[j].lexical == scored@[j].1.contributing_retrievers@.contains(
                        Lane::Lexical,
                    )
                    &&& out@[j].graph == scored@[j].1.contributing_retrievers@.contains(Lane::Graph)
                },
    {
        let lanes = scored[i].1.contributing_retrievers.as_slice();
        out.push(
            LaneFacts {
                id: scored[i].1.memory_id,
                lexical: has_lane(lanes, Lane::Lexical),
                graph: has_lane(lanes, Lane::Graph),
            },
        );
    }
    out
}

fn lanes_beyond_semantic(
    facts: &Vec<LaneFacts>,
    id: u128,
    Ghost(scored): Ghost<Seq<Scored>>,
) -> (r: bool)
    requires
        facts_match(facts@, scored),
    ensures
        r == (real_lanes(scored, id).contains(Lane::Lexical) || real_lanes(scored, id).contains(
            Lane::Graph,
        )),
{
    let mut i: usize = facts.len();
    assert(scored.take(i as int) =~= scored);
    while i > 0
        invariant
            i <= facts@.len(),
            facts_match(facts@, scored),
            last_with(scored, id) == last_with(scored.take(i as int), id),
        decreases i,
    {
        i = i - 1;
        assert(scored.take(i + 1).drop_last() =~= scored.take(i as int));
        if facts[i].id == id {
            return facts[i].lexical || facts[i].graph;
        }
    }
    false
}

fn is_strongly_semantic(scored: &Vec<Scored>, band_only: &Vec<usize>, id: u128) -> (r: bool)
    requires
        forall|k: int| 0 <= k < band_only@.len() ==> #[trigger] band_only@[k] < scored@.len(),
    ensures
        r == strong_in(scored@, band_only@, id),
{
    match find_last(scored, id) {
        Some(i) => is_named(scored, band_only, id) && scored[i].0 >= STRONG_BITS as i128,
        None => false,
    }
}

fn support_in(
    scored: &Vec<Scored>,
    band_only: &Vec<usize>,
    sources: &HashSet<u128>,
    hype: &HashMap<u128, Single>,
    id: u128,
) -> (r: u8)
    requires
        forall|k: int| 0 <= k < band_only@.len() ==> #[trigger] band_only@[k] < scored@.len(),
    ensures
        r == support_count(
            id,
            real_lanes(scored@, id),
            strong_in(scored@, band_only@, id),
            sources@,
            hype@,
        ),
{
    let strong = is_strongly_semantic(scored, band_only, id);
    match find_last(scored, id) {
        Some(i) => support(
            id,
            scored[i].1.contributing_retrievers.as_slice(),
            strong,
            sources,
            hype,
        ),
        None => {
            let none: Vec<Lane> = Vec::new();
            assert(none@ =~= Seq::<Lane>::empty());
            support(id, none.as_slice(), strong, sources, hype)
        },
    }
}

fn is_any_present(placed: &Vec<u128>, ids: &Vec<u128>, Ghost(members): Ghost<Seq<MemoryResult>>) -> (r:
    bool)
    requires
        placed@.len() == members.len(),
        forall|k: int| 0 <= k < members.len() ==> #[trigger] placed@[k] == members[k].memory_id,
    ensures
        r == any_present(members, ids@),
{
    for k in 0..ids.len()
        invariant
            placed@.len() == members.len(),
            forall|k: int|
                0 <= k < members.len() ==> #[trigger] placed@[k] == members[k].memory_id,
            forall|j: int| #![trigger ids@[j]] 0 <= j < k ==> !present(members, ids@[j]),
    {
        let id: u128 = ids[k];
        let here = has_u128(placed, id);
        proof {
            if placed@.contains(id) {
                let j = choose|j: int| 0 <= j < placed@.len() && placed@[j] == id;
                assert(members[j].memory_id == id);
            }
            if present(members, id) {
                let j = choose|j: int|
                    #![trigger members[j]]
                    0 <= j < members.len() && members[j].memory_id == id;
                assert(placed@[j] == id);
            }
        }
        if here {
            return true;
        }
    }
    false
}

/// Builds the answer set of a cue from the scored candidates, the hydrated
/// grounded sources, and the rows about the anchor. `band` is the lowest
/// score of the semantic band; `flat` says whether two question-bridge scores
/// are too close to tell apart. Gives the members, the committed shape, and
/// whether some member belongs by more than its passage cosine.
pub fn build_membership<F: Fn(Single, Single) -> bool>(
    scored: Vec<Scored>,
    hydrated: Vec<MemoryResult>,
    injected: Vec<MemoryResult>,
    grounded: &GroundedOutcome,
    req: &RecallRequest,
    band: Single,
    anchored: bool,
    client_requested_count: bool,
    hype: &HashMap<u128, Single>,
    flat: &F,
) -> (r: (Vec<MemoryResult>, Option<AnswerShape>, bool))
    requires
        well_scored(scored@),
        is_decision(*flat),
    ensures
        ({
            let members = union_members(scored@, hydrated@, injected@, *grounded, band);
            let lead = committed_lead(
                *grounded,
                member_support(scored@, band, *grounded, hype@),
            );
            let (ordered, shape) = ordered_members(
                members,
                lead,
                hype@,
                cosines(scored@),
                decisions(*flat),
            );
            let bound = ceiling(req.max_results, client_requested_count, anchored, *grounded);
            &&& r.0@ == at_most(ordered, bound as nat)
            &&& r.1 == shape
            &&& r.2 == exists|k: int|
                #![trigger r.0@[k]]
                0 <= k < r.0@.len() && belongs(scored@, *grounded, hype@, r.0@[k].memory_id)
            &&& was_asked(*flat, unled_members(members, lead), hype@)
        }),
{
    let ghost all = scored@;
    let ghost hyd = hydrated@;
    let ghost inj = injected@;
    let sources = grounded_sources(grounded);
    let set = source_set(&sources);
    let cos = cosine_map(&scored);
    let facts = lane_facts(&scored);
    let band_only = pick_band(&scored, band);
    let semantic = pick_semantic(&scored, &band_only, Ghost(band));
    let support_of = |id: u128| -> (n: u8)
        requires
            forall|k: int| 0 <= k < band_only@.len() ==> #[trigger] band_only@[k] < scored@.len(),
        ensures
            n == support_count(
                id,
                real_lanes(scored@, id),
                strong_in(scored@, band_only@, id),
                set@,
                hype@,
            ),
        { support_in(&scored, &band_only, &set, hype, id) };
    let ghost count = member_support(all, band, *grounded, hype@);
    let lead = grounded_commit(grounded, &support_of);
    assert(crate::recall::counts(support_of, count));
    assert(is_lead(lead, committed_lead(*grounded, count)));
    let n: usize = scored.len();
    let mut wanted: Vec<usize> = Vec::new();
    pick_sources(&scored, &sources, &semantic, true, &mut wanted);
    pick_sources(&scored, &sources, &semantic, false, &mut wanted);
    let ghost lead_picks = wanted@;
    let mut pool: Vec<Scored> = scored;
    append_unscored(&mut pool, hydrated);
    let h: usize = pool.len();
    append_unscored(&mut pool, injected);
    let total: usize = pool.len();
    append_span(&mut wanted, n, h);
    let mut rest: Vec<usize> = semantic;
    let ghost sem = rest@;
    wanted.append(&mut rest);
    append_span(&mut wanted, h, total);
    proof {
        let listed = source_picks(all, sources@, sem, true) + source_picks(
            all,
            sources@,
            sem,
            false,
        ) + span(n as nat, h as nat) + sem + span(h as nat, total as nat);
        assert(wanted@ =~= listed);
        assert forall|k: int| 0 <= k < wanted@.len() implies #[trigger] wanted@[k] < pool@.len() by {
            let a = lead_picks.len();
            let b = a + (h - n);
            let c = b + sem.len();
            if k < a {
                assert(wanted@[k] == lead_picks[k]);
            } else if b <= k < c {
                assert(wanted@[k] == sem[k - b]);
            }
        }
    }
    let order = keep_first(&pool, &wanted);
    let ghost members = union_members(all, hyd, inj, *grounded, band);
    let mut placed: Vec<u128> = Vec::new();
    for k in 0..order.len()
        invariant
            is_selection(order@, pool@.len()),
            members == items_of(gathered(pool@, order@)),
            placed@.len() == k,
            forall|j: int| 0 <= j < k ==> #[trigger] placed@[j] == members[j].memory_id,
    {
        placed.push(pool[order[k]].1.memory_id);
    }
    let out = take_items(gather(pool, &order));
    assert(out@ == members);
    let ghost decide = decisions(*flat);
    let ghost goal = ordered_members(
        members,
        committed_lead(*grounded, count),
        hype@,
        cosines(all),
        decide,
    );
    let commits = match &lead {
        Some(l) => is_any_present(&placed, &l.ids, Ghost(members)),
        None => false,
    };
    let (mut out, shape) = if commits {
        match &lead {
            Some(l) => (apply_grounded_commit(out, l, hype, &cos, flat), Some(l.shape)),
            None => (out, None),
        }
    } else {
        let ordered = order_by_answer_relevance(out, hype, &cos, flat);
        let top: Option<u128> = if ordered.len() == 0 {
            None
        } else {
            Some(ordered[0].memory_id)
        };
        (consensus_collapse(ordered, top), None)
    };
    assert(out@ == goal.0);
    assert(shape == goal.1);
    let keyed = anchored || (match grounded {
        GroundedOutcome::Answer(_, _) => true,
        GroundedOutcome::NoAnswer => false,
    });
    let bound: u32 = if keyed {
        keyed_membership_ceiling(req, client_requested_count)
    } else {
        membership_ceiling(req)
    };
    out.truncate(bound as usize);
    let mut any = false;
    for k in 0..out.len()
        invariant
            facts_match(facts@, all),
            sources@ == outcome_sources(*grounded),
            any == exists|j: int|
                #![trigger out@[j]]
                0 <= j < k && belongs(all, *grounded, hype@, out@[j].memory_id),
    {
        let id: u128 = out[k].memory_id;
        let here = has_strong_hype(hype, id) || lanes_beyond_semantic(&facts, id, Ghost(all))
            || has_u128(&sources, id);
        let ghost was = any;
        if here {
            any = true;
        }
        proof {
            assert(here == belongs(all, *grounded, hype@, out@[k as int].memory_id));
            if was {
                let j = choose|j: int|
                    #![trigger out@[j]]
                    0 <= j < k && belongs(all, *grounded, hype@, out@[j].memory_id);
                assert(belongs(all, *grounded, hype@, out@[j].memory_id));
            }
        }
    }
    (out, shape, any)
}

/// The most rows about an anchor that are pulled in.
pub const ANCHOR_DIRECT_PULL_CAP: usize = 1000;

/// Takes an id, unless it is no memory, is excluded or is already taken.
pub open spec fn taken(ids: Seq<u128>, exclude: Seq<u128>, id: u128) -> Seq<u128> {
    if id != 0 && !exclude.contains(id) && !ids.contains(id) {
        ids.push(id)
    } else {
        ids
    }
}

/// The ids about an anchor: each new real id that is not excluded, in order,
/// up to the cap.
pub open spec fn direct_ids(candidates: Seq<u128>, exclude: Seq<u128>) -> Seq<u128>
    decreases candidates.len(),
{
    if candidates.len() == 0 {
        Seq::empty()
    } else {
        let before = direct_ids(candidates.drop_last(), exclude);
        if before.len() >= ANCHOR_DIRECT_PULL_CAP {
            before
        } else {
            taken(before, exclude, candidates.last())
        }
    }
}

/// Whether the ids are those that an anchor pulls in directly.
pub open spec fn pulls_direct(
    r: Vec<u128>,
    statement_evidence: Vec<u128>,
    mentions: Vec<u128>,
    exclude: Vec<u128>,
) -> bool {
    &&& r@ == direct_ids(statement_evidence@ + mentions@, exclude@)
    &&& r@.len() <= ANCHOR_DIRECT_PULL_CAP
}

/// The memories directly about an anchor: the first evidence of each of its
/// current statements, then the memories that mention it.
pub fn anchor_direct_memories(
    statement_evidence: &Vec<u128>,
    mentions: &Vec<u128>,
    exclude: &Vec<u128>,
) -> (r: Vec<u128>)
    ensures
        pulls_direct(r, *statement_evidence, *mentions, *exclude),
{
    let ghost all = statement_evidence@ + mentions@;
    let mut ids: Vec<u128> = Vec::new();
    for i in 0..statement_evidence.len()
        invariant
            all == statement_evidence@ + mentions@,
            ids@ == direct_ids(all.take(i as int), exclude@),
            ids@.len() <= ANCHOR_DIRECT_PULL_CAP,
    {
        assert(all.take(i + 1).drop_last() =~= all.take(i as int));
        let id: u128 = statement_evidence[i];
        if ids.len() < ANCHOR_DIRECT_PULL_CAP {
            if id != 0 && !has_u128(exclude, id) && !has_u128(&ids, id) {
                ids.push(id);
            }
        }
    }
    for i in 0..mentions.len()
        invariant
            all == statement_evidence@ + mentions@,
            ids@ == direct_ids(all.take(statement_evidence@.len() + i), exclude@),
            ids@.len() <= ANCHOR_DIRECT_PULL_CAP,
    {
        let ghost k = statement_evidence@.len() + i;
        assert(all.take(k + 1).drop_last() =~= all.take(k));
        let id: u128 = mentions[i];
        if ids.len() < ANCHOR_DIRECT_PULL_CAP {
            if id != 0 && !has_u128(exclude, id) && !has_u128(&ids, id) {
                ids.push(id);
            }
        }
    }
    assert(all.take(all.len() as int) =~= all);
    ids
}

/// No memory is answered twice before ordering.
pub proof fn union_has_no_duplicates(
    scored: Seq<Scored>,
    hydrated: Seq<MemoryResult>,
    injected: Seq<MemoryResult>,
    grounded: GroundedOutcome,
    band: Single,
    a: int,
    b: int,
)
    requires
        0 <= a < b < union_members(scored, hydrated, injected, grounded, band).len(),
    ensures
        union_members(scored, hydrated, injected, grounded, band)[a].memory_id != union_members(
            scored,
            hydrated,
            injected,
            grounded,
            band,
        )[b].memory_id,
{
    let pool = pool_of(scored, hydrated, injected);
    let sources = outcome_sources(grounded);
    let semantic = semantic_picks(scored, band, scored.len());
    let n = scored.len();
    let h = n + hydrated.len();
    let wanted = source_picks(scored, sources, semantic, true) + source_picks(
        scored,
        sources,
        semantic,
        false,
    ) + span(n, h) + semantic + span(h, h + injected.len());
    first_keeps_names(pool, wanted);
    let order = first_of_each(pool, wanted);
    let members = items_of(gathered(pool, order));
    assert(members[a].memory_id == pool[order[a] as int].1.memory_id);
    assert(members[b].memory_id == pool[order[b] as int].1.memory_id);
}

/// The members of an answer, its committed shape, and whether some member
/// belongs.
pub open spec fn membership(
    scored: Seq<Scored>,
    hydrated: Seq<MemoryResult>,
    injected: Seq<MemoryResult>,
    grounded: GroundedOutcome,
    band: Single,
    bound: u32,
    hype: Map<u128, Single>,
    flat: spec_fn(Single, Single) -> bool,
) -> (Seq<MemoryResult>, Option<AnswerShape>, bool) {
    let members = union_members(scored, hydrated, injected, grounded, band);
    let lead = committed_lead(grounded, member_support(scored, band, grounded, hype));
    let (ordered, shape) = ordered_members(members, lead, hype, cosines(scored), flat);
    let kept = at_most(ordered, bound as nat);
    (
        kept,
        shape,
        exists|k: int|
            #![trigger kept[k]]
            0 <= k < kept.len() && belongs(scored, grounded, hype, kept[k].memory_id),
    )
}

/// Whether a frame answers a recall: the members, ordered and bounded, unless
/// the answer is withheld.
pub open spec fn answers_recall(
    r: RecallResponseFrame,
    scored: Seq<Scored>,
    hydrated: Seq<MemoryResult>,
    injected: Seq<MemoryResult>,
    grounded: GroundedOutcome,
    req: RecallRequest,
    band: Single,
    anchor: Option<[u8; 16]>,
    client_requested_count: bool,
    hype: Map<u128, Single>,
    flat: spec_fn(Single, Single) -> bool,
    trace: Option<RecallTrace>,
) -> bool {
    let (members, shape, any_belongs) = membership(
        scored,
        hydrated,
        injected,
        grounded,
        band,
        ceiling(req.max_results, client_requested_count, anchor is Some, grounded),
        hype,
        flat,
    );
    let shown = if abstains(req.txn_id is Some, grounded, any_belongs) {
        Seq::empty()
    } else {
        members
    };
    &&& r.memories@ == shown
    &&& r.answer_kind == answer_shape(shown.len(), shape)
    &&& r.cumulative_count == wire_count(shown.len())
    &&& r.is_final
    &&& r.estimated_remaining is None
    &&& r.trace == trace
}

/// Answers a recall whose cue has a vector: builds the membership, withholds
/// it where nothing vouches for it, and frames it.
pub fn answer_recall<F: Fn(Single, Single) -> bool>(
    scored: Vec<Scored>,
    hydrated: Vec<MemoryResult>,
    injected: Vec<MemoryResult>,
    grounded: &GroundedOutcome,
    req: &RecallRequest,
    band: Single,
    anchor: Option<[u8; 16]>,
    client_requested_count: bool,
    hype: &HashMap<u128, Single>,
    flat: &F,
    trace: Option<RecallTrace>,
) -> (r: RecallResponseFrame)
    requires
        well_scored(scored@),
        is_decision(*flat),
    ensures
        answers_recall(
            r,
            scored@,
            hydrated@,
            injected@,
            *grounded,
            *req,
            band,
            anchor,
            client_requested_count,
            hype@,
            decisions(*flat),
            trace,
        ),
        was_asked(
            *flat,
            unled_members(
                union_members(scored@, hydrated@, injected@, *grounded, band),
                committed_lead(*grounded, member_support(scored@, band, *grounded, hype@)),
            ),
            hype@,
        ),
{
    let ghost decide = decisions(*flat);
    let ghost bound = ceiling(req.max_results, client_requested_count, anchor is Some, *grounded);
    let ghost goal = membership(
        scored@,
        hydrated@,
        injected@,
        *grounded,
        band,
        bound,
        hype@,
        decide,
    );
    let (members, shape, any_belongs) = build_membership(
        scored,
        hydrated,
        injected,
        grounded,
        req,
        band,
        anchor.is_some(),
        client_requested_count,
        hype,
        flat,
    );
    assert(members@ == goal.0);
    assert(any_belongs == goal.2);
    let shown = abstain(members, req.txn_id.is_some(), anchor, grounded, any_belongs);
    recall_frame(shown, shape, trace)
}

} // verus!
