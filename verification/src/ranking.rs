//! Stable ordering of scored items, highest score first.
use vstd::prelude::*;

verus! {

/// Puts an item into a ranking, behind everything that scores at least as
/// high.
pub open spec fn placed<T>(s: Seq<(i128, T)>, x: (i128, T)) -> Seq<(i128, T)>
    decreases s.len(),
{
    if s.len() == 0 || s.last().0 >= x.0 {
        s.push(x)
    } else {
        placed(s.drop_last(), x).push(s.last())
    }
}

/// The stable descending order of scored items.
pub open spec fn ranked<T>(s: Seq<(i128, T)>) -> Seq<(i128, T)>
    decreases s.len(),
{
    if s.len() == 0 {
        s
    } else {
        placed(ranked(s.drop_last()), s.last())
    }
}

/// Whether scores fall along the list.
pub open spec fn falling<T>(s: Seq<(i128, T)>) -> bool {
    forall|i: int, j: int| #![trigger s[i], s[j]] 0 <= i <= j < s.len() ==> s[i].0 >= s[j].0
}

/// The items of a scored list.
pub open spec fn items_of<T>(s: Seq<(i128, T)>) -> Seq<T> {
    s.map_values(|p: (i128, T)| p.1)
}

/// The items of a list, each with its score.
pub open spec fn scored_by<T>(s: Seq<T>, key: spec_fn(T) -> int) -> Seq<(i128, T)> {
    s.map_values(|x: T| (key(x) as i128, x))
}

/// The items of a list in descending order of score.
pub open spec fn ranked_by<T>(s: Seq<T>, key: spec_fn(T) -> int) -> Seq<T> {
    items_of(ranked(scored_by(s, key)))
}

proof fn placed_facts<T>(s: Seq<(i128, T)>, x: (i128, T))
    ensures
        placed(s, x).to_multiset() == s.to_multiset().insert(x),
        placed(s, x).len() == s.len() + 1,
        falling(s) ==> falling(placed(s, x)),
        forall|p: (i128, T)| #[trigger] placed(s, x).contains(p) ==> s.contains(p) || p == x,
    decreases s.len(),
{
    broadcast use vstd::seq_lib::group_to_multiset_ensures;

    let r = placed(s, x);
    if s.len() == 0 || s.last().0 >= x.0 {
        assert forall|p: (i128, T)| #[trigger] r.contains(p) implies s.contains(p) || p == x by {
            let k = choose|k: int| 0 <= k < r.len() && r[k] == p;
            if k < s.len() {
                assert(s[k] == p);
            }
        }
    } else {
        let front = s.drop_last();
        let inner = placed(front, x);
        placed_facts(front, x);
        assert(s =~= front.push(s.last()));
        assert(r.to_multiset() =~= s.to_multiset().insert(x));
        if falling(s) {
            assert(falling(front)) by {
                assert forall|i: int, j: int|
                    #![trigger front[i], front[j]]
                    0 <= i <= j < front.len() implies front[i].0 >= front[j].0 by {
                    assert(front[i] == s[i] && front[j] == s[j]);
                }
            }
            assert forall|i: int, j: int|
                #![trigger r[i], r[j]]
                0 <= i <= j < r.len() implies r[i].0 >= r[j].0 by {
                if j == r.len() - 1 && i < j {
                    assert(r[i] == inner[i]);
                    assert(inner.contains(inner[i]));
                    if front.contains(inner[i]) {
                        let k = choose|k: int| 0 <= k < front.len() && front[k] == inner[i];
                        assert(s[k] == inner[i]);
                        assert(s[k].0 >= s[s.len() - 1].0);
                    }
                } else if j < r.len() - 1 {
                    assert(r[i] == inner[i] && r[j] == inner[j]);
                }
            }
        }
        assert forall|p: (i128, T)| #[trigger] r.contains(p) implies s.contains(p) || p == x by {
            let k = choose|k: int| 0 <= k < r.len() && r[k] == p;
            if k < inner.len() {
                assert(inner[k] == p);
                assert(inner.contains(p));
                if front.contains(p) {
                    let m = choose|m: int| 0 <= m < front.len() && front[m] == p;
                    assert(s[m] == p);
                }
            } else {
                assert(s[s.len() - 1] == p);
            }
        }
    }
}

/// A ranking holds the same items, and its scores fall.
pub proof fn ranking_is_sorted<T>(s: Seq<(i128, T)>)
    ensures
        ranked(s).to_multiset() == s.to_multiset(),
        ranked(s).len() == s.len(),
        falling(ranked(s)),
    decreases s.len(),
{
    broadcast use vstd::seq_lib::group_to_multiset_ensures;

    if s.len() > 0 {
        ranking_is_sorted(s.drop_last());
        placed_facts(ranked(s.drop_last()), s.last());
        assert(s =~= s.drop_last().push(s.last()));
    }
}

/// The items that score exactly `key`.
pub open spec fn scoring<T>(s: Seq<(i128, T)>, key: i128) -> Seq<(i128, T)> {
    s.filter(|p: (i128, T)| p.0 == key)
}

proof fn placed_keeps_ties<T>(s: Seq<(i128, T)>, x: (i128, T), key: i128)
    ensures
        scoring(placed(s, x), key) == (if x.0 == key {
            scoring(s, key).push(x)
        } else {
            scoring(s, key)
        }),
    decreases s.len(),
{
    reveal(Seq::filter);
    if s.len() == 0 || s.last().0 >= x.0 {
        assert(s.push(x).drop_last() =~= s);
    } else {
        placed_keeps_ties(s.drop_last(), x, key);
        let r = placed(s, x);
        assert(r.drop_last() =~= placed(s.drop_last(), x));
    }
}

/// Items that score the same keep the order they came in.
pub proof fn ranking_is_stable<T>(s: Seq<(i128, T)>, key: i128)
    ensures
        scoring(ranked(s), key) == scoring(s, key),
    decreases s.len(),
{
    reveal(Seq::filter);
    if s.len() > 0 {
        ranking_is_stable(s.drop_last(), key);
        placed_keeps_ties(ranked(s.drop_last()), s.last(), key);
    }
}

/// Ranking a list by a score gives a list of the same items.
pub proof fn ranked_by_keeps_items<T>(s: Seq<T>, key: spec_fn(T) -> int)
    ensures
        ranked_by(s, key).to_multiset() == s.to_multiset(),
        ranked_by(s, key).len() == s.len(),
{
    let pairs = scored_by(s, key);
    ranking_is_sorted(pairs);
    items_follow_multiset(ranked(pairs), pairs);
    assert(items_of(pairs) =~= s);
}

proof fn items_follow_multiset<T>(a: Seq<(i128, T)>, b: Seq<(i128, T)>)
    requires
        a.to_multiset() == b.to_multiset(),
    ensures
        items_of(a).to_multiset() == items_of(b).to_multiset(),
    decreases a.len(),
{
    broadcast use vstd::seq_lib::group_to_multiset_ensures;

    a.to_multiset_ensures();
    b.to_multiset_ensures();
    assert(a.to_multiset().len() == a.len() && b.to_multiset().len() == b.len());
    if a.len() > 0 {
        let x = a.last();
        assert(a.contains(x));
        assert(a.to_multiset().count(x) > 0);
        assert(b.contains(x));
        let k = choose|k: int| 0 <= k < b.len() && b[k] == x;
        let rest = b.remove(k);
        assert(a.drop_last() =~= a.remove(a.len() - 1));
        assert(a.drop_last().to_multiset() =~= rest.to_multiset());
        items_follow_multiset(a.drop_last(), rest);
        assert(items_of(a) =~= items_of(a.drop_last()).push(x.1));
        assert(items_of(rest) =~= items_of(b).remove(k));
        assert(items_of(b)[k] == x.1);
        assert(items_of(b).contains(x.1));
    } else {
        assert(b.len() == 0);
        assert(items_of(a) =~= items_of(b));
    }
}

/// Scored items with each item mapped.
pub open spec fn lifted<T, U>(s: Seq<(i128, T)>, f: spec_fn(T) -> U) -> Seq<(i128, U)> {
    s.map_values(|p: (i128, T)| (p.0, f(p.1)))
}

proof fn placed_maps<T, U>(s: Seq<(i128, T)>, x: (i128, T), f: spec_fn(T) -> U)
    ensures
        placed(lifted(s, f), (x.0, f(x.1))) == lifted(placed(s, x), f),
    decreases s.len(),
{
    if s.len() == 0 || s.last().0 >= x.0 {
        assert(lifted(s.push(x), f) =~= lifted(s, f).push((x.0, f(x.1))));
    } else {
        placed_maps(s.drop_last(), x, f);
        assert(lifted(s, f).drop_last() =~= lifted(s.drop_last(), f));
        assert(lifted(placed(s, x), f) =~= lifted(placed(s.drop_last(), x), f).push(
            (s.last().0, f(s.last().1)),
        ));
    }
}

/// Mapping the items does not change how they rank.
pub proof fn ranked_maps<T, U>(s: Seq<(i128, T)>, f: spec_fn(T) -> U)
    ensures
        ranked(lifted(s, f)) == lifted(ranked(s), f),
    decreases s.len(),
{
    if s.len() > 0 {
        ranked_maps(s.drop_last(), f);
        assert(lifted(s, f).drop_last() =~= lifted(s.drop_last(), f));
        placed_maps(ranked(s.drop_last()), s.last(), f);
    } else {
        assert(lifted(s, f) =~= Seq::empty());
        assert(lifted(ranked(s), f) =~= Seq::empty());
    }
}

proof fn placed_splits<T>(front: Seq<(i128, T)>, tail: Seq<(i128, T)>, x: (i128, T))
    requires
        forall|i: int| 0 <= i < tail.len() ==> (#[trigger] tail[i]).0 < x.0,
        front.len() == 0 || front.last().0 >= x.0,
    ensures
        placed(front + tail, x) == front.push(x) + tail,
    decreases tail.len(),
{
    if tail.len() == 0 {
        assert(front + tail =~= front);
        assert(front.push(x) + tail =~= front.push(x));
    } else {
        let s = front + tail;
        assert(s.drop_last() =~= front + tail.drop_last());
        placed_splits(front, tail.drop_last(), x);
        assert(s.last() == tail.last());
        assert(placed(s, x) =~= front.push(x) + tail);
    }
}

/// Orders scored items, highest first; equal scores keep their order.
pub fn rank<T>(items: Vec<(i128, T)>) -> (r: Vec<(i128, T)>)
    ensures
        r@ == ranked(items@),
{
    let ghost all = items@;
    let mut out: Vec<(i128, T)> = Vec::new();
    assert(all.take(0) =~= Seq::empty());
    for item in it: items
        invariant
            it.seq() == all,
            out@ == ranked(all.take(it.index())),
    {
        let ghost n = it.index();
        let mut pos: usize = out.len();
        while pos > 0 && out[pos - 1].0 < item.0
            invariant
                pos <= out@.len(),
                forall|i: int| pos <= i < out@.len() ==> (#[trigger] out@[i]).0 < item.0,
            decreases pos,
        {
            pos = pos - 1;
        }
        proof {
            let front = out@.take(pos as int);
            let tail = out@.skip(pos as int);
            assert(out@ =~= front + tail);
            placed_splits(front, tail, item);
            assert(out@.insert(pos as int, item) =~= front.push(item) + tail);
            assert(all.take(n + 1).drop_last() =~= all.take(n));
            assert(all.take(n + 1).last() == item);
        }
        out.insert(pos, item);
    }
    assert(all.take(all.len() as int) =~= all);
    out
}

/// The items of a scored list.
pub fn take_items<T>(scored: Vec<(i128, T)>) -> (r: Vec<T>)
    ensures
        r@ == items_of(scored@),
{
    let ghost all = scored@;
    let mut out: Vec<T> = Vec::new();
    for p in it: scored
        invariant
            it.seq() == all,
            out@ == items_of(all.take(it.index())),
    {
        let ghost n = it.index();
        out.push(p.1);
        assert(items_of(all.take(n + 1)) =~= items_of(all.take(n)).push(p.1));
    }
    assert(all.take(all.len() as int) =~= all);
    out
}

/// Moves items out of a pool, in the given order.
pub open spec fn gathered<T>(pool: Seq<T>, order: Seq<usize>) -> Seq<T> {
    order.map_values(|i: usize| pool[i as int])
}

/// Whether an order names positions of a pool, none of them twice.
pub open spec fn is_selection(order: Seq<usize>, size: nat) -> bool {
    &&& forall|k: int| 0 <= k < order.len() ==> #[trigger] order[k] < size
    &&& forall|a: int, b: int|
        #![trigger order[a], order[b]]
        0 <= a < b < order.len() ==> order[a] != order[b]
}

/// Moves items out of a pool, in the given order.
pub fn gather<T>(pool: Vec<T>, order: &Vec<usize>) -> (r: Vec<T>)
    requires
        is_selection(order@, pool@.len()),
    ensures
        r@ == gathered(pool@, order@),
{
    let ghost all = pool@;
    let mut slots: Vec<Option<T>> = Vec::new();
    for x in it: pool
        invariant
            it.seq() == all,
            slots@.len() == it.index(),
            forall|i: int| 0 <= i < slots@.len() ==> #[trigger] slots@[i] == Some(all[i]),
    {
        slots.push(Some(x));
    }
    let mut out: Vec<T> = Vec::new();
    for k in 0..order.len()
        invariant
            is_selection(order@, all.len()),
            slots@.len() == all.len(),
            out@ == gathered(all, order@.take(k as int)),
            forall|i: int|
                0 <= i < all.len() && !order@.take(k as int).contains(i as usize)
                    ==> #[trigger] slots@[i] == Some(all[i]),
    {
        let i: usize = order[k];
        assert(!order@.take(k as int).contains(i));
        let slot = slots[i].take();
        proof {
            let before = order@.take(k as int);
            let after = order@.take(k + 1);
            assert(after =~= before.push(i));
            assert forall|j: int|
                0 <= j < all.len() && !after.contains(j as usize) implies #[trigger] slots@[j]
                == Some(all[j]) by {
                assert(after[k as int] == i);
                assert(j != i);
                if before.contains(j as usize) {
                    let m = choose|m: int| 0 <= m < before.len() && before[m] == j as usize;
                    assert(after[m] == j as usize);
                }
            }
        }
        if let Some(x) = slot {
            out.push(x);
            assert(gathered(all, order@.take(k + 1)) =~= gathered(all, order@.take(k as int)).push(
                all[i as int],
            ));
        }
    }
    assert(order@.take(order@.len() as int) =~= order@);
    out
}

/// Filtering keeps what passes the test, and nothing else.
pub proof fn filter_keeps_what_passes<T>(s: Seq<T>, test: spec_fn(T) -> bool, x: T)
    ensures
        s.filter(test).contains(x) <==> s.contains(x) && test(x),
        s.filter(test).len() <= s.len(),
    decreases s.len(),
{
    reveal(Seq::filter);
    if s.len() > 0 {
        let front = s.drop_last();
        filter_keeps_what_passes(front, test, x);
        let before = front.filter(test);
        let after = s.filter(test);
        if before.contains(x) {
            let k = choose|k: int| 0 <= k < before.len() && before[k] == x;
            assert(after[k] == x);
        }
        if front.contains(x) {
            let k = choose|k: int| 0 <= k < front.len() && front[k] == x;
            assert(s[k] == x);
        }
        if after.contains(x) && !before.contains(x) {
            let k = choose|k: int| 0 <= k < after.len() && after[k] == x;
            if k < before.len() {
                assert(before[k] == x);
            }
            assert(s[s.len() - 1] == x);
        }
        if s.contains(x) && !front.contains(x) {
            let k = choose|k: int| 0 <= k < s.len() && s[k] == x;
            if k < front.len() {
                assert(front[k] == x);
            }
            if test(x) {
                assert(after[after.len() - 1] == x);
            }
        }
    }
}

} // verus!
