//! What holds of every recall answer.
use vstd::prelude::*;

use crate::membership::{
    any_present, at_most, band_picks, belongs, cosines, first_keeps_names, first_of_each, in_band,
    lane_confirmed, last_with, member_support, membership, names, names_are_present,
    ordered_members, outcome_sources, pool_of, present, semantic_picks, source_picks, span,
    union_members, unscored, Scored,
};
use crate::ranking::{ranked_by, ranked_by_keeps_items};
use crate::recall::{
    abstains, answer_order, collapsed, commit_keeps_members, committed_lead, ordering_keeps_members,
    unique_consensus, AnswerShape, GroundedOutcome, MemoryResult, RecallRequest,
    RECALL_CANDIDATE_POOL,
};
use crate::retrieval::{
    are_pending, is_overlay, is_pending, not_in, pending_passes, pending_test, similarity_key,
    BufferedEncode,
};
use crate::single::Single;

verus! {

// Read your writes.

proof fn filtered_holds<T>(s: Seq<T>, test: spec_fn(T) -> bool, i: int)
    requires
        0 <= i < s.len(),
        test(s[i]),
    ensures
        s.filter(test).contains(s[i]),
    decreases s.len(),
{
    reveal(Seq::filter);
    let front = s.drop_last();
    if i < front.len() {
        filtered_holds(front, test, i);
        let k = choose|k: int| 0 <= k < front.filter(test).len() && front.filter(test)[k] == s[i];
        assert(s.filter(test)[k] == s[i]);
    } else {
        assert(s.filter(test)[front.filter(test).len() as int] == s[i]);
    }
}

proof fn filtered_passes<T>(s: Seq<T>, test: spec_fn(T) -> bool, k: int)
    requires
        0 <= k < s.filter(test).len(),
    ensures
        test(s.filter(test)[k]),
    decreases s.len(),
{
    reveal(Seq::filter);
    if s.len() > 0 {
        let front = s.drop_last();
        if k < front.filter(test).len() {
            filtered_passes(front, test, k);
            assert(s.filter(test)[k] == front.filter(test)[k]);
        }
    }
}

/// A read inside a transaction sees what the transaction wrote, each write
/// that passes the request's filters, as long as the candidate pool holds
/// everything.
pub proof fn transactions_read_their_writes(
    r: Seq<MemoryResult>,
    committed: Seq<MemoryResult>,
    pending: Seq<BufferedEncode>,
    tombstoned: Seq<u128>,
    req: RecallRequest,
    i: int,
)
    requires
        is_overlay(r, committed, pending, tombstoned, req),
        0 <= i < pending.len(),
        pending_passes(pending[i], tombstoned, req),
        committed.len() + pending.len() <= RECALL_CANDIDATE_POOL,
    ensures
        exists|j: int| 0 <= j < r.len() && is_pending(#[trigger] r[j], pending[i], req),
{
    broadcast use vstd::seq_lib::group_to_multiset_ensures;

    let kept = committed.filter(not_in(tombstoned));
    let writes = pending.filter(pending_test(tombstoned, req));
    let added = choose|added: Seq<MemoryResult>| #[trigger]
        are_pending(added, pending, tombstoned, req) && r == at_most(
            ranked_by(kept + added, similarity_key()),
            RECALL_CANDIDATE_POOL as nat,
        );
    let whole = kept + added;
    let ordered = ranked_by(whole, similarity_key());
    filtered_is_no_longer(committed, not_in(tombstoned));
    filtered_is_no_longer(pending, pending_test(tombstoned, req));
    ranked_by_keeps_items(whole, similarity_key());
    assert(r == ordered);
    filtered_holds(pending, pending_test(tombstoned, req), i);
    let k = choose|k: int| 0 <= k < writes.len() && writes[k] == pending[i];
    let m = added[k];
    assert(is_pending(m, writes[k], req));
    assert(whole[kept.len() + k] == m);
    assert(whole.contains(m));
    assert(ordered.to_multiset().count(m) > 0);
    assert(ordered.contains(m));
    let j = choose|j: int| 0 <= j < ordered.len() && ordered[j] == m;
    assert(is_pending(r[j], pending[i], req));
}

proof fn filtered_is_no_longer<T>(s: Seq<T>, test: spec_fn(T) -> bool)
    ensures
        s.filter(test).len() <= s.len(),
    decreases s.len(),
{
    reveal(Seq::filter);
    if s.len() > 0 {
        filtered_is_no_longer(s.drop_last(), test);
    }
}

/// A read inside a transaction never sees what the transaction deleted.
pub proof fn transactions_hide_their_deletions(
    r: Seq<MemoryResult>,
    committed: Seq<MemoryResult>,
    pending: Seq<BufferedEncode>,
    tombstoned: Seq<u128>,
    req: RecallRequest,
    j: int,
)
    requires
        is_overlay(r, committed, pending, tombstoned, req),
        0 <= j < r.len(),
    ensures
        !tombstoned.contains(r[j].memory_id),
{
    broadcast use vstd::seq_lib::group_to_multiset_ensures;

    let kept = committed.filter(not_in(tombstoned));
    if pending.len() == 0 {
        filtered_passes(committed, not_in(tombstoned), j);
        assert(r[j] == kept[j]);
    } else {
        let writes = pending.filter(pending_test(tombstoned, req));
        let added = choose|added: Seq<MemoryResult>| #[trigger]
            are_pending(added, pending, tombstoned, req) && r == at_most(
                ranked_by(kept + added, similarity_key()),
                RECALL_CANDIDATE_POOL as nat,
            );
        let whole = kept + added;
        let ordered = ranked_by(whole, similarity_key());
        ranked_by_keeps_items(whole, similarity_key());
        assert(r[j] == ordered[j]);
        assert(ordered.contains(r[j]));
        assert(whole.to_multiset().count(r[j]) > 0);
        assert(whole.contains(r[j]));
        let k = choose|k: int| 0 <= k < whole.len() && whole[k] == r[j];
        if k < kept.len() {
            filtered_passes(committed, not_in(tombstoned), k);
        } else {
            let n = k - kept.len();
            assert(is_pending(added[n], writes[n], req));
            filtered_passes(pending, pending_test(tombstoned, req), n);
        }
    }
}

// Membership.

/// Whether some candidate with an id is in the semantic band, or is confirmed
/// by another lane.
pub open spec fn semantically_kept(scored: Seq<Scored>, band: Single, id: u128) -> bool {
    exists|i: int|
        #![trigger scored[i]]
        0 <= i < scored.len() && scored[i].1.memory_id == id && (in_band(scored, i, band)
            || lane_confirmed(scored[i].1))
}

/// Whether some candidate has an id.
pub open spec fn is_candidate(scored: Seq<Scored>, id: u128) -> bool {
    exists|i: int| #![trigger scored[i]] 0 <= i < scored.len() && scored[i].1.memory_id == id
}

proof fn last_with_finds(scored: Seq<Scored>, id: u128)
    requires
        scored.len() <= usize::MAX,
    ensures
        last_with(scored, id) is Some <==> is_candidate(scored, id),
        last_with(scored, id) matches Some(i) ==> i < scored.len() && scored[i as int].1.memory_id
            == id,
    decreases scored.len(),
{
    if scored.len() > 0 {
        let front = scored.drop_last();
        last_with_finds(front, id);
        if is_candidate(front, id) {
            let i = choose|i: int|
                #![trigger front[i]]
                0 <= i < front.len() && front[i].1.memory_id == id;
            assert(scored[i].1.memory_id == id);
        }
        if is_candidate(scored, id) && scored.last().1.memory_id != id {
            let i = choose|i: int|
                #![trigger scored[i]]
                0 <= i < scored.len() && scored[i].1.memory_id == id;
            assert(front[i].1.memory_id == id);
        }
        if let Some(i) = last_with(front, id) {
            assert(front[i as int] == scored[i as int]);
        }
    }
}

proof fn names_of_push(pool: Seq<Scored>, picks: Seq<usize>, x: usize, id: u128)
    ensures
        names(pool, picks.push(x), id) <==> names(pool, picks, id)
            || pool[x as int].1.memory_id == id,
{
    let more = picks.push(x);
    if names(pool, picks, id) {
        let k = choose|k: int|
            #![trigger picks[k]]
            0 <= k < picks.len() && pool[picks[k] as int].1.memory_id == id;
        assert(more[k] == picks[k]);
    }
    assert(more[picks.len() as int] == x);
    if names(pool, more, id) && pool[x as int].1.memory_id != id {
        let k = choose|k: int|
            #![trigger more[k]]
            0 <= k < more.len() && pool[more[k] as int].1.memory_id == id;
        assert(picks[k] == more[k]);
    }
}

proof fn names_of_sum(pool: Seq<Scored>, a: Seq<usize>, b: Seq<usize>, id: u128)
    ensures
        names(pool, a + b, id) <==> names(pool, a, id) || names(pool, b, id),
{
    let both = a + b;
    if names(pool, a, id) {
        let k = choose|k: int|
            #![trigger a[k]]
            0 <= k < a.len() && pool[a[k] as int].1.memory_id == id;
        assert(both[k] == a[k]);
    }
    if names(pool, b, id) {
        let k = choose|k: int|
            #![trigger b[k]]
            0 <= k < b.len() && pool[b[k] as int].1.memory_id == id;
        assert(both[a.len() + k] == b[k]);
    }
    if names(pool, both, id) {
        let k = choose|k: int|
            #![trigger both[k]]
            0 <= k < both.len() && pool[both[k] as int].1.memory_id == id;
        if k < a.len() {
            assert(a[k] == both[k]);
        } else {
            assert(b[k - a.len()] == both[k]);
        }
    }
}

/// The same positions name the same ids in a longer pool.
proof fn names_in_pool(scored: Seq<Scored>, more: Seq<Scored>, picks: Seq<usize>, id: u128)
    requires
        forall|k: int| 0 <= k < picks.len() ==> #[trigger] picks[k] < scored.len(),
    ensures
        names(scored + more, picks, id) <==> names(scored, picks, id),
{
    let pool = scored + more;
    if names(pool, picks, id) {
        let k = choose|k: int|
            #![trigger picks[k]]
            0 <= k < picks.len() && pool[picks[k] as int].1.memory_id == id;
        assert(scored[picks[k] as int].1.memory_id == id);
    }
    if names(scored, picks, id) {
        let k = choose|k: int|
            #![trigger picks[k]]
            0 <= k < picks.len() && scored[picks[k] as int].1.memory_id == id;
        assert(pool[picks[k] as int].1.memory_id == id);
    }
}

proof fn band_names(scored: Seq<Scored>, band: Single, n: nat, id: u128)
    requires
        n <= scored.len() <= usize::MAX,
    ensures
        names(scored, band_picks(scored, band, n), id) <==> exists|i: int|
            #![trigger scored[i]]
            0 <= i < n && scored[i].1.memory_id == id && in_band(scored, i, band),
        forall|k: int|
            0 <= k < band_picks(scored, band, n).len() ==> #[trigger] band_picks(
                scored,
                band,
                n,
            )[k] < n,
    decreases n,
{
    if n > 0 {
        let before = band_picks(scored, band, (n - 1) as nat);
        band_names(scored, band, (n - 1) as nat, id);
        let last = scored[n - 1];
        if in_band(scored, n - 1, band) {
            names_of_push(scored, before, (n - 1) as usize, id);
        }
        if last.1.memory_id == id && in_band(scored, n - 1, band) {
            assert(scored[n - 1].1.memory_id == id);
        }
    }
}

proof fn semantic_names(scored: Seq<Scored>, band: Single, n: nat, id: u128)
    requires
        n <= scored.len() <= usize::MAX,
    ensures
        names(scored, semantic_picks(scored, band, n), id) <==> (exists|i: int|
            #![trigger scored[i]]
            0 <= i < scored.len() && scored[i].1.memory_id == id && in_band(scored, i, band)) || (
        exists|i: int|
            #![trigger scored[i]]
            0 <= i < n && scored[i].1.memory_id == id && lane_confirmed(scored[i].1)),
        forall|k: int|
            0 <= k < semantic_picks(scored, band, n).len() ==> #[trigger] semantic_picks(
                scored,
                band,
                n,
            )[k] < scored.len(),
    decreases n,
{
    if n == 0 {
        band_names(scored, band, scored.len(), id);
    } else {
        let before = semantic_picks(scored, band, (n - 1) as nat);
        semantic_names(scored, band, (n - 1) as nat, id);
        let m = scored[n - 1].1;
        if lane_confirmed(m) && !names(scored, before, m.memory_id) {
            names_of_push(scored, before, (n - 1) as usize, id);
        }
        if m.memory_id == id && lane_confirmed(m) {
            assert(scored[n - 1].1.memory_id == id);
        }
    }
}

proof fn source_names(
    scored: Seq<Scored>,
    sources: Seq<u128>,
    semantic: Seq<usize>,
    kept: bool,
    id: u128,
)
    requires
        scored.len() <= usize::MAX,
    ensures
        names(scored, source_picks(scored, sources, semantic, kept), id) <==> sources.contains(id)
            && is_candidate(scored, id) && names(scored, semantic, id) == kept,
        forall|k: int|
            0 <= k < source_picks(scored, sources, semantic, kept).len()
                ==> #[trigger] source_picks(scored, sources, semantic, kept)[k] < scored.len(),
    decreases sources.len(),
{
    if sources.len() > 0 {
        let front = sources.drop_last();
        let s = sources.last();
        source_names(scored, front, semantic, kept, id);
        last_with_finds(scored, s);
        let before = source_picks(scored, front, semantic, kept);
        assert(sources.contains(id) <==> front.contains(id) || s == id) by {
            if sources.contains(id) {
                let k = choose|k: int| 0 <= k < sources.len() && sources[k] == id;
                if k < front.len() {
                    assert(front[k] == id);
                }
            }
            if front.contains(id) {
                let k = choose|k: int| 0 <= k < front.len() && front[k] == id;
                assert(sources[k] == id);
            }
            assert(sources[sources.len() - 1] == s);
        }
        match last_with(scored, s) {
            Some(i) if names(scored, semantic, s) == kept => {
                names_of_push(scored, before, i, id);
            },
            _ => {},
        }
    }
}

/// A stretch of unscored rows names their ids.
proof fn span_names(pool: Seq<Scored>, lo: nat, rows: Seq<MemoryResult>, id: u128)
    requires
        lo + rows.len() <= pool.len() <= usize::MAX,
        forall|k: int| 0 <= k < rows.len() ==> (#[trigger] pool[lo + k]).1 == rows[k],
    ensures
        names(pool, span(lo, lo + rows.len()), id) <==> present(rows, id),
{
    let picks = span(lo, lo + rows.len());
    if names(pool, picks, id) {
        let k = choose|k: int|
            #![trigger picks[k]]
            0 <= k < picks.len() && pool[picks[k] as int].1.memory_id == id;
        assert(picks[k] == lo + k);
        assert(pool[lo + k].1 == rows[k]);
    }
    if present(rows, id) {
        let k = choose|k: int|
            #![trigger rows[k]]
            0 <= k < rows.len() && rows[k].memory_id == id;
        assert(picks[k] == lo + k);
        assert(pool[lo + k].1 == rows[k]);
    }
}

/// Exactly these memories belong to a cue: the grounded sources that are
/// candidates or were hydrated, the candidates in the semantic band or
/// confirmed by another lane, and the rows about the anchor.
pub proof fn union_holds_what_belongs(
    scored: Seq<Scored>,
    hydrated: Seq<MemoryResult>,
    injected: Seq<MemoryResult>,
    grounded: GroundedOutcome,
    band: Single,
    id: u128,
)
    requires
        scored.len() + hydrated.len() + injected.len() <= usize::MAX,
    ensures
        present(union_members(scored, hydrated, injected, grounded, band), id) <==> {
            ||| outcome_sources(grounded).contains(id) && is_candidate(scored, id)
            ||| present(hydrated, id)
            ||| semantically_kept(scored, band, id)
            ||| present(injected, id)
        },
{
    let pool = pool_of(scored, hydrated, injected);
    let more = unscored(hydrated) + unscored(injected);
    assert(pool =~= scored + more);
    let sources = outcome_sources(grounded);
    let semantic = semantic_picks(scored, band, scored.len());
    let n = scored.len();
    let h = n + hydrated.len();
    let both = source_picks(scored, sources, semantic, true);
    let rest = source_picks(scored, sources, semantic, false);
    let wanted = both + rest + span(n, h) + semantic + span(h, h + injected.len());
    let order = first_of_each(pool, wanted);
    first_keeps_names(pool, wanted);
    names_are_present(pool, order, id);
    assert(names(pool, order, id) <==> names(pool, wanted, id));
    names_of_sum(
        pool,
        both + rest + span(n, h) + semantic,
        span(h, h + injected.len()),
        id,
    );
    names_of_sum(pool, both + rest + span(n, h), semantic, id);
    names_of_sum(pool, both + rest, span(n, h), id);
    names_of_sum(pool, both, rest, id);
    semantic_names(scored, band, n, id);
    source_names(scored, sources, semantic, true, id);
    source_names(scored, sources, semantic, false, id);
    names_in_pool(scored, more, both, id);
    names_in_pool(scored, more, rest, id);
    names_in_pool(scored, more, semantic, id);
    assert forall|k: int| 0 <= k < hydrated.len() implies (#[trigger] pool[n + k]).1
        == hydrated[k] by {
        assert(pool[n + k] == unscored(hydrated)[k]);
    }
    assert forall|k: int| 0 <= k < injected.len() implies (#[trigger] pool[h + k]).1
        == injected[k] by {
        assert(pool[h + k] == unscored(injected)[k]);
    }
    span_names(pool, n, hydrated, id);
    span_names(pool, h, injected, id);
    assert(semantically_kept(scored, band, id) <==> names(scored, semantic, id)) by {
        if semantically_kept(scored, band, id) {
            let i = choose|i: int|
                #![trigger scored[i]]
                0 <= i < scored.len() && scored[i].1.memory_id == id && (in_band(scored, i, band)
                    || lane_confirmed(scored[i].1));
            assert(scored[i].1.memory_id == id);
        }
    }
}

proof fn ordering_adds_no_member(
    members: Seq<MemoryResult>,
    lead: Option<(Seq<u128>, AnswerShape)>,
    hype: Map<u128, Single>,
    cos: Map<u128, Single>,
    flat: spec_fn(Single, Single) -> bool,
    m: MemoryResult,
)
    requires
        ordered_members(members, lead, hype, cos, flat).0.contains(m),
    ensures
        members.contains(m),
{
    broadcast use vstd::seq_lib::group_to_multiset_ensures;

    let (out, shape) = ordered_members(members, lead, hype, cos, flat);
    match lead {
        Some((ids, _)) if any_present(members, ids) => {
            commit_keeps_members(members, ids, hype, cos, flat);
            assert(members.to_multiset().count(m) > 0);
        },
        _ => {
            let ordered = answer_order(members, hype, cos, flat);
            ordering_keeps_members(members, hype, cos, flat);
            let top = if ordered.len() == 0 {
                None
            } else {
                Some(ordered[0].memory_id)
            };
            assert(out == collapsed(ordered, top));
            if out != ordered {
                let i = choose|i: int| #[trigger]
                    unique_consensus(ordered, i) && top == Some(ordered[i].memory_id);
                assert(out == seq![ordered[i]]);
                assert(m == ordered[i]);
            }
            assert(ordered.contains(m));
            assert(members.to_multiset().count(m) > 0);
        },
    }
}

/// Every memory of an answer is a member: nothing is made up on the way.
pub proof fn answers_are_members(
    scored: Seq<Scored>,
    hydrated: Seq<MemoryResult>,
    injected: Seq<MemoryResult>,
    grounded: GroundedOutcome,
    band: Single,
    bound: u32,
    hype: Map<u128, Single>,
    flat: spec_fn(Single, Single) -> bool,
    j: int,
)
    requires
        0 <= j < membership(scored, hydrated, injected, grounded, band, bound, hype, flat).0.len(),
    ensures
        union_members(scored, hydrated, injected, grounded, band).contains(
            membership(scored, hydrated, injected, grounded, band, bound, hype, flat).0[j],
        ),
        membership(scored, hydrated, injected, grounded, band, bound, hype, flat).0.len() <= bound,
{
    let members = union_members(scored, hydrated, injected, grounded, band);
    let lead = committed_lead(grounded, member_support(scored, band, grounded, hype));
    let ordered = ordered_members(members, lead, hype, cosines(scored), flat).0;
    let kept = membership(scored, hydrated, injected, grounded, band, bound, hype, flat).0;
    assert(kept[j] == ordered[j]);
    assert(ordered.contains(kept[j]));
    ordering_adds_no_member(members, lead, hype, cosines(scored), flat, kept[j]);
}

/// A committed lead reorders an answer and never drops a member of it, up to
/// the bound on the answer: a wrong match costs order, not the answer.
pub proof fn commits_never_drop_members(
    scored: Seq<Scored>,
    hydrated: Seq<MemoryResult>,
    injected: Seq<MemoryResult>,
    grounded: GroundedOutcome,
    band: Single,
    bound: u32,
    hype: Map<u128, Single>,
    flat: spec_fn(Single, Single) -> bool,
)
    requires
        membership(scored, hydrated, injected, grounded, band, bound, hype, flat).1 is Some,
        union_members(scored, hydrated, injected, grounded, band).len() <= bound,
    ensures
        membership(
            scored,
            hydrated,
            injected,
            grounded,
            band,
            bound,
            hype,
            flat,
        ).0.to_multiset() == union_members(
            scored,
            hydrated,
            injected,
            grounded,
            band,
        ).to_multiset(),
{
    let members = union_members(scored, hydrated, injected, grounded, band);
    let lead = committed_lead(grounded, member_support(scored, band, grounded, hype));
    let ids = (lead->0).0;
    let ordered = ordered_members(members, lead, hype, cosines(scored), flat).0;
    commit_keeps_members(members, ids, hype, cosines(scored), flat);
    members.to_multiset_ensures();
    ordered.to_multiset_ensures();
    assert(ordered.len() == members.len());
}

/// An answer is withheld only outside a transaction, and only where nothing
/// grounded answers and no member has more to vouch for it than its passage.
pub proof fn supported_answers_are_given(
    scored: Seq<Scored>,
    hydrated: Seq<MemoryResult>,
    injected: Seq<MemoryResult>,
    grounded: GroundedOutcome,
    band: Single,
    bound: u32,
    hype: Map<u128, Single>,
    flat: spec_fn(Single, Single) -> bool,
    in_txn: bool,
    j: int,
)
    requires
        ({
            let (kept, _, any) = membership(
                scored,
                hydrated,
                injected,
                grounded,
                band,
                bound,
                hype,
                flat,
            );
            0 <= j < kept.len() && abstains(in_txn, grounded, any)
        }),
    ensures
        !in_txn,
        grounded is NoAnswer,
        !belongs(
            scored,
            grounded,
            hype,
            membership(
                scored,
                hydrated,
                injected,
                grounded,
                band,
                bound,
                hype,
                flat,
            ).0[j].memory_id,
        ),
{
}

proof fn firsts_of_a_prefix_stay(pool: Seq<Scored>, p: Seq<usize>, q: Seq<usize>)
    ensures
        first_of_each(pool, p + q).len() >= first_of_each(pool, p).len(),
        first_of_each(pool, p + q).take(first_of_each(pool, p).len() as int) == first_of_each(
            pool,
            p,
        ),
    decreases q.len(),
{
    if q.len() == 0 {
        assert(p + q =~= p);
        assert(first_of_each(pool, p).take(first_of_each(pool, p).len() as int) =~= first_of_each(
            pool,
            p,
        ));
    } else {
        let front = q.drop_last();
        firsts_of_a_prefix_stay(pool, p, front);
        assert((p + q).drop_last() =~= p + front);
        let (a, b, n) = (
            first_of_each(pool, p + q),
            first_of_each(pool, p + front),
            first_of_each(pool, p).len() as int,
        );
        assert(a.take(n) =~= b.take(n));
    }
}

/// Whether a memory stands before another.
pub open spec fn precedes(members: Seq<MemoryResult>, x: u128, y: u128) -> bool {
    exists|i: int, j: int|
        #![trigger members[i], members[j]]
        0 <= i < j < members.len() && members[i].memory_id == x && members[j].memory_id == y
}

/// The candidates that ground an answer stand before every member that does
/// not.
pub proof fn grounded_candidates_come_first(
    scored: Seq<Scored>,
    hydrated: Seq<MemoryResult>,
    injected: Seq<MemoryResult>,
    grounded: GroundedOutcome,
    band: Single,
    x: u128,
    y: u128,
)
    requires
        scored.len() + hydrated.len() + injected.len() <= usize::MAX,
        outcome_sources(grounded).contains(x),
        is_candidate(scored, x),
        !outcome_sources(grounded).contains(y),
        present(union_members(scored, hydrated, injected, grounded, band), y),
    ensures
        precedes(union_members(scored, hydrated, injected, grounded, band), x, y),
{
    let pool = pool_of(scored, hydrated, injected);
    let more = unscored(hydrated) + unscored(injected);
    assert(pool =~= scored + more);
    let sources = outcome_sources(grounded);
    let semantic = semantic_picks(scored, band, scored.len());
    let n = scored.len();
    let h = n + hydrated.len();
    let both = source_picks(scored, sources, semantic, true);
    let rest = source_picks(scored, sources, semantic, false);
    let head = both + rest;
    let tail = span(n, h) + semantic + span(h, h + injected.len());
    let wanted = both + rest + span(n, h) + semantic + span(h, h + injected.len());
    assert(wanted =~= head + tail);
    source_names(scored, sources, semantic, true, x);
    source_names(scored, sources, semantic, false, x);
    source_names(scored, sources, semantic, true, y);
    source_names(scored, sources, semantic, false, y);
    names_of_sum(scored, both, rest, x);
    names_of_sum(scored, both, rest, y);
    assert forall|k: int| 0 <= k < head.len() implies #[trigger] head[k] < scored.len() by {
        if k < both.len() {
            assert(head[k] == both[k]);
        } else {
            assert(head[k] == rest[k - both.len()]);
        }
    }
    names_in_pool(scored, more, head, x);
    names_in_pool(scored, more, head, y);
    let first = first_of_each(pool, head);
    let order = first_of_each(pool, wanted);
    firsts_of_a_prefix_stay(pool, head, tail);
    first_keeps_names(pool, head);
    names_are_present(pool, order, y);
    assert(names(pool, first, x));
    assert(!names(pool, first, y));
    assert(names(pool, order, y));
    let i = choose|i: int|
        #![trigger first[i]]
        0 <= i < first.len() && pool[first[i] as int].1.memory_id == x;
    let j = choose|j: int|
        #![trigger order[j]]
        0 <= j < order.len() && pool[order[j] as int].1.memory_id == y;
    assert(order.take(first.len() as int)[i] == first[i]);
    if j < first.len() {
        assert(order.take(first.len() as int)[j] == first[j]);
        assert(names(pool, first, y));
    }
    let members = union_members(scored, hydrated, injected, grounded, band);
    assert(members[i].memory_id == x);
    assert(members[j].memory_id == y);
}

} // verus!
