//! What grounds an answer: subjects, projected slots and walks of the graph.
use vstd::prelude::*;

use crate::grounded::{
    answer_score, answers, answers_cue, best_walk, first_answering, holds_object, is_slot_answer,
    object_picks, objects_match, strong_prefix, values_at, SlotHit, WalkAnswer,
};
use crate::ranking::filter_keeps_what_passes;
use crate::recall::{GroundedAnswer, GroundedOutcome, GroundedValue};
use crate::single::Single;
use crate::statement::{StatementObject, StatementValue, SubjectRef};
use crate::surfaces::{
    bare_word, finds_subjects, match_lists, named_subjects, picks_anchor, run_state, subjects, surface, surfaces_of,
    with_matches,
};
use crate::text::{alphanumeric, uppercase};

verus! {

// Subjects.

proof fn matches_join(out: Seq<[u8; 16]>, hits: Seq<([u8; 16], Single)>)
    ensures
        with_matches(out, hits).len() >= out.len(),
        forall|k: int| 0 <= k < out.len() ==> with_matches(out, hits)[k] == #[trigger] out[k],
        forall|id: [u8; 16]| #[trigger]
            with_matches(out, hits).contains(id) ==> out.contains(id) || exists|k: int|
                #![trigger hits[k]]
                0 <= k < hits.len() && hits[k].0 == id && !hits[k].1.nan() && hits[k].1.key()
                    >= 0x3F66_6666,
        with_matches(out, hits).len() < 8 ==> forall|k: int|
            #![trigger hits[k]]
            0 <= k < hits.len() && !hits[k].1.nan() && hits[k].1.key() >= 0x3F66_6666
                ==> with_matches(out, hits).contains(hits[k].0),
        out.no_duplicates() ==> with_matches(out, hits).no_duplicates(),
    decreases hits.len(),
{
    if hits.len() > 0 {
        let front = hits.drop_last();
        let before = with_matches(out, front);
        let all = with_matches(out, hits);
        matches_join(out, front);
        assert(hits.last() == hits[hits.len() - 1]);
        assert forall|id: [u8; 16]| #[trigger] all.contains(id) implies out.contains(id) || exists|
            k: int,
        |
            #![trigger hits[k]]
            0 <= k < hits.len() && hits[k].0 == id && !hits[k].1.nan() && hits[k].1.key()
                >= 0x3F66_6666 by {
            let k = choose|k: int| 0 <= k < all.len() && all[k] == id;
            if k < before.len() {
                assert(before[k] == id);
                assert(before.contains(id));
                if !out.contains(id) {
                    let j = choose|j: int|
                        #![trigger front[j]]
                        0 <= j < front.len() && front[j].0 == id && !front[j].1.nan()
                            && front[j].1.key() >= 0x3F66_6666;
                    assert(hits[j] == front[j]);
                }
            }
        }
        if all.len() < 8 {
            assert forall|k: int|
                #![trigger hits[k]]
                0 <= k < hits.len() && !hits[k].1.nan() && hits[k].1.key() >= 0x3F66_6666 implies all.contains(
            hits[k].0) by {
                if k < front.len() {
                    assert(front[k] == hits[k]);
                    let j = choose|j: int| 0 <= j < before.len() && before[j] == hits[k].0;
                    assert(all[j] == hits[k].0);
                } else if before.contains(hits[k].0) {
                    let j = choose|j: int| 0 <= j < before.len() && before[j] == hits[k].0;
                    assert(all[j] == hits[k].0);
                } else {
                    assert(all[before.len() as int] == hits[k].0);
                }
            }
        }
    }
}

proof fn subjects_join(self_id: [u8; 16], resolved: Seq<Seq<([u8; 16], Single)>>)
    ensures
        subjects(self_id, resolved).len() >= 1,
        subjects(self_id, resolved)[0] == self_id,
        subjects(self_id, resolved).no_duplicates(),
        forall|id: [u8; 16]| #[trigger]
            subjects(self_id, resolved).contains(id) ==> id == self_id || exists|n: int, k: int|
                #![trigger resolved[n][k]]
                0 <= n < resolved.len() && 0 <= k < resolved[n].len() && resolved[n][k].0 == id
                    && !resolved[n][k].1.nan() && resolved[n][k].1.key() >= 0x3F66_6666,
        subjects(self_id, resolved).len() < 8 ==> forall|n: int, k: int|
            #![trigger resolved[n][k]]
            0 <= n < resolved.len() && 0 <= k < resolved[n].len() && !resolved[n][k].1.nan()
                && resolved[n][k].1.key() >= 0x3F66_6666 ==> subjects(self_id, resolved).contains(
                resolved[n][k].0,
            ),
    decreases resolved.len(),
{
    if resolved.len() > 0 {
        let front = resolved.drop_last();
        let hits = resolved.last();
        let before = subjects(self_id, front);
        let all = subjects(self_id, resolved);
        subjects_join(self_id, front);
        matches_join(before, hits);
        assert(hits == resolved[resolved.len() - 1]);
        assert(all[0] == before[0]);
        assert forall|id: [u8; 16]| #[trigger] all.contains(id) implies id == self_id || exists|
            n: int,
            k: int,
        |
            #![trigger resolved[n][k]]
            0 <= n < resolved.len() && 0 <= k < resolved[n].len() && resolved[n][k].0 == id
                && !resolved[n][k].1.nan() && resolved[n][k].1.key() >= 0x3F66_6666 by {
            if before.contains(id) {
                if id != self_id {
                    let (n, k) = choose|n: int, k: int|
                        #![trigger front[n][k]]
                        0 <= n < front.len() && 0 <= k < front[n].len() && front[n][k].0 == id
                            && !front[n][k].1.nan() && front[n][k].1.key() >= 0x3F66_6666;
                    assert(resolved[n][k] == front[n][k]);
                }
            } else {
                let k = choose|k: int|
                    #![trigger hits[k]]
                    0 <= k < hits.len() && hits[k].0 == id && !hits[k].1.nan() && hits[k].1.key()
                        >= 0x3F66_6666;
                assert(resolved[resolved.len() - 1][k] == hits[k]);
            }
        }
        if all.len() < 8 {
            assert forall|n: int, k: int|
                #![trigger resolved[n][k]]
                0 <= n < resolved.len() && 0 <= k < resolved[n].len() && !resolved[n][k].1.nan()
                    && resolved[n][k].1.key() >= 0x3F66_6666 implies all.contains(
            resolved[n][k].0) by {
                if n < front.len() {
                    assert(front[n][k] == resolved[n][k]);
                    let j = choose|j: int| 0 <= j < before.len() && before[j] == resolved[n][k].0;
                    assert(all[j] == before[j]);
                } else {
                    assert(hits[k] == resolved[n][k]);
                }
            }
        }
    } else {
        assert(subjects(self_id, resolved)[0] == self_id);
    }
}

/// The subjects of a cue are the caller and every entity whose name matches the
/// cue to nine tenths, each once and up to eight, the caller first. A walk
/// starts at the first that is not the caller.
pub proof fn cues_name_their_subjects(
    r: Vec<[u8; 16]>,
    self_id: [u8; 16],
    resolved: Vec<Vec<([u8; 16], Single)>>,
    n: int,
    k: int,
    id: [u8; 16],
)
    requires
        finds_subjects(r, self_id, resolved),
    ensures
        1 <= r@.len() <= 8 && r@[0] == self_id && r@.no_duplicates(),
        r@.len() < 8 && 0 <= n < resolved@.len() && 0 <= k < resolved@[n]@.len()
            && !resolved@[n]@[k].1.nan() && resolved@[n]@[k].1.key() >= 0x3F66_6666 ==> r@.contains(
            resolved@[n]@[k].0,
        ),
        r@.contains(id) && id != self_id ==> exists|a: int, b: int|
            #![trigger resolved@[a]@[b]]
            0 <= a < resolved@.len() && 0 <= b < resolved@[a]@.len() && resolved@[a]@[b].0 == id
                && !resolved@[a]@[b].1.nan() && resolved@[a]@[b].1.key() >= 0x3F66_6666,
{
    let lists = match_lists(resolved@);
    subjects_join(self_id, lists);
    if 0 <= n < resolved@.len() && 0 <= k < resolved@[n]@.len() {
        assert(lists[n][k] == resolved@[n]@[k]);
    }
    if r@.contains(id) && id != self_id {
        let (a, b) = choose|a: int, b: int|
            #![trigger lists[a][b]]
            0 <= a < lists.len() && 0 <= b < lists[a].len() && lists[a][b].0 == id
                && !lists[a][b].1.nan() && lists[a][b].1.key() >= 0x3F66_6666;
        assert(resolved@[a]@[b] == lists[a][b]);
    }
}

/// A walk starts at a subject that is not the caller, where there is one.
pub proof fn walks_start_at_another_subject(
    r: Option<[u8; 16]>,
    self_id: [u8; 16],
    candidates: Vec<[u8; 16]>,
    id: [u8; 16],
)
    requires
        picks_anchor(r, self_id, candidates),
    ensures
        r matches Some(x) ==> x != self_id && candidates@.contains(x),
        candidates@.contains(id) && id != self_id ==> r is Some,
        candidates@.len() > 1 && candidates@[1] != self_id && candidates@[0] == self_id ==> r
            == Some(candidates@[1]),
{
    let test = crate::surfaces::other_than(self_id);
    let named = named_subjects(self_id, candidates@);
    filter_keeps_what_passes(candidates@, test, id);
    if named.len() > 0 {
        filter_keeps_what_passes(candidates@, test, named[0]);
        assert(named.contains(named[0]));
    }
    if candidates@.len() > 1 && candidates@[1] != self_id && candidates@[0] == self_id {
        first_passing_leads(candidates@, test);
    }
}

proof fn first_passing_leads(s: Seq<[u8; 16]>, test: spec_fn([u8; 16]) -> bool)
    requires
        s.len() > 1,
        !test(s[0]),
        test(s[1]),
    ensures
        s.filter(test).len() > 0,
        s.filter(test)[0] == s[1],
    decreases s.len(),
{
    reveal(Seq::filter);
    let front = s.drop_last();
    if s.len() == 2 {
        assert(front.drop_last() =~= Seq::empty());
        assert(front.drop_last().filter(test) =~= Seq::empty());
        assert(front.filter(test) =~= Seq::empty());
        assert(s.filter(test) =~= seq![s[1]]);
    } else {
        assert(front[0] == s[0] && front[1] == s[1]);
        first_passing_leads(front, test);
        assert(s.filter(test)[0] == front.filter(test)[0]);
    }
}

/// A cue with a given subject is searched under that name alone.
pub proof fn given_subjects_are_the_only_surface(subject_name: Seq<char>, cue: Seq<char>)
    ensures
        crate::text::trimmed(subject_name).len() > 0 ==> surfaces_of(subject_name, cue) == seq![
            crate::text::trimmed(subject_name),
        ],
{
}

/// Without a given subject every word of a cue that has two characters is a
/// surface.
pub proof fn long_words_are_surfaces(subject_name: Seq<char>, cue: Seq<char>, w: Seq<char>)
    requires
        crate::text::trimmed(subject_name).len() == 0,
        crate::text::words(cue).contains(w),
        w.len() >= 2,
    ensures
        surfaces_of(subject_name, cue).contains(w),
{
    let words = crate::text::words(cue);
    let test = |x: Seq<char>| x.len() >= 2;
    let long = crate::surfaces::long_words(words);
    filter_keeps_what_passes(words, test, w);
    let runs = crate::surfaces::runs_of(cue);
    let k = choose|k: int| 0 <= k < long.len() && long[k] == w;
    assert((runs + long)[runs.len() + k] == w);
}

// Slots.

/// Whether a statement may answer a cue: without a subject in the cue any but
/// one found by its time, else only one about such a subject.
pub open spec fn may_answer(hit: SlotHit, anchors: Seq<[u8; 16]>) -> bool {
    &&& hit.projected is Some
    &&& hit.statement matches Some(s) && !s.tombstoned && !s.superseded && if anchors.len() == 0 {
        hit.slot !is Time
    } else {
        s.subject matches SubjectRef::Entity(id) && anchors.contains(id)
    }
}

/// Whether a hit and all before it reach the floor.
pub open spec fn reaches(hits: Seq<SlotHit>, floor: Single, i: int) -> bool {
    &&& 0 <= i < hits.len()
    &&& forall|k: int| 0 <= k <= i ==> !(#[trigger] hits[k]).score.below(floor)
}

proof fn prefix_reaches(hits: Seq<SlotHit>, floor: Single, i: int)
    ensures
        strong_prefix(hits, floor) <= hits.len(),
        0 <= i < strong_prefix(hits, floor) <==> reaches(hits, floor, i),
    decreases hits.len(),
{
    if hits.len() > 0 && !hits[0].score.below(floor) {
        let rest = hits.skip(1);
        prefix_reaches(rest, floor, i - 1);
        if i == 0 {
            assert(reaches(hits, floor, 0));
        } else if i > 0 {
            if reaches(rest, floor, i - 1) {
                assert forall|k: int| 0 <= k <= i implies !(#[trigger] hits[k]).score.below(
                    floor,
                ) by {
                    if k > 0 {
                        assert(rest[k - 1] == hits[k]);
                    }
                }
            }
            if reaches(hits, floor, i) {
                assert forall|k: int| 0 <= k <= i - 1 implies !(#[trigger] rest[k]).score.below(
                    floor,
                ) by {
                    assert(hits[k + 1] == rest[k]);
                }
            }
        }
    } else if hits.len() > 0 {
        if reaches(hits, floor, i) {
            assert(!hits[0].score.below(floor));
        }
    }
}

proof fn first_answer_is_first(hits: Seq<SlotHit>, anchors: Seq<[u8; 16]>, n: nat)
    requires
        n <= hits.len() <= usize::MAX,
    ensures
        first_answering(hits, anchors, n) matches Some(i) ==> i < n && may_answer(
            hits[i as int],
            anchors,
        ) && forall|k: int| 0 <= k < i ==> !may_answer(#[trigger] hits[k], anchors),
        first_answering(hits, anchors, n) is None ==> forall|k: int|
            0 <= k < n ==> !may_answer(#[trigger] hits[k], anchors),
    decreases n,
{
    if n > 0 {
        first_answer_is_first(hits, anchors, (n - 1) as nat);
        assert(answers(hits[n - 1], anchors) == may_answer(hits[n - 1], anchors));
    }
}

proof fn picks_hold_objects(hits: Seq<SlotHit>, anchors: Seq<[u8; 16]>, n: nat, i: int)
    requires
        n <= hits.len() <= usize::MAX,
    ensures
        forall|k: int|
            #![trigger object_picks(hits, anchors, n)[k]]
            0 <= k < object_picks(hits, anchors, n).len() ==> object_picks(hits, anchors, n)[k] < n
                && hits[object_picks(hits, anchors, n)[k] as int].slot is Object && may_answer(
                hits[object_picks(hits, anchors, n)[k] as int],
                anchors,
            ),
        0 <= i < n && hits[i].slot is Object && may_answer(hits[i], anchors) ==> object_picks(
            hits,
            anchors,
            n,
        ).contains(i as usize) || holds_object(
            hits,
            object_picks(hits, anchors, n),
            hits[i].projected->0.object,
        ),
    decreases n,
{
    if n > 0 {
        let before = object_picks(hits, anchors, (n - 1) as nat);
        let all = object_picks(hits, anchors, n);
        let hit = hits[n - 1];
        picks_hold_objects(hits, anchors, (n - 1) as nat, i);
        assert(answers(hit, anchors) == may_answer(hit, anchors));
        assert forall|k: int|
            #![trigger all[k]]
            0 <= k < all.len() implies all[k] < n && hits[all[k] as int].slot is Object
            && may_answer(hits[all[k] as int], anchors) by {
            if k < before.len() {
                assert(all[k] == before[k]);
            }
        }
        if 0 <= i < n && hits[i].slot is Object && may_answer(hits[i], anchors) {
            if i < n - 1 {
                if before.contains(i as usize) {
                    let k = choose|k: int| 0 <= k < before.len() && before[k] == i as usize;
                    assert(all[k] == i as usize);
                } else {
                    let k = choose|k: int|
                        #![trigger before[k]]
                        0 <= k < before.len() && objects_match(
                            hits[before[k] as int].projected->0.object,
                            hits[i].projected->0.object,
                        );
                    assert(all[k] == before[k]);
                }
            } else if holds_object(hits, before, hit.projected->0.object) {
                assert(all == before);
            } else {
                assert(all[before.len() as int] == i as usize);
            }
        }
    }
}

/// Whether a value stands for an object.
pub open spec fn stands_for(v: GroundedValue, object: StatementObject) -> bool {
    v.object == object || objects_match(v.object, object)
}

/// The hits of a cue answer it exactly if one that reaches the floor may; then
/// every value was projected from such a hit. If the first of them is an
/// object, every object that may answer stands in the answer; else the answer
/// is that one value.
pub proof fn hits_answer_their_cue(
    r: Option<GroundedAnswer>,
    hits: Seq<SlotHit>,
    anchors: Seq<[u8; 16]>,
    floor: Single,
    first: int,
    i: int,
    k: int,
)
    requires
        hits.len() <= usize::MAX,
        is_slot_answer(r, hits, anchors, floor),
        reaches(hits, floor, first),
        may_answer(hits[first], anchors),
        forall|j: int| 0 <= j < first ==> !may_answer(#[trigger] hits[j], anchors),
    ensures
        r matches Some(a) && a.values@.len() > 0,
        hits[first].slot !is Object ==> r->0.kind is Single && r->0.values@ == seq![
            hits[first].projected->0,
        ],
        hits[first].slot is Object ==> {
            &&& r->0.kind is Several <==> r->0.values@.len() > 1
            &&& r->0.kind is Single <==> r->0.values@.len() == 1
            &&& reaches(hits, floor, i) && hits[i].slot is Object && may_answer(hits[i], anchors)
                ==> exists|x: int|
                #![trigger r->0.values@[x]]
                0 <= x < r->0.values@.len() && stands_for(
                    r->0.values@[x],
                    hits[i].projected->0.object,
                )
            &&& 0 <= k < r->0.values@.len() ==> exists|x: int|
                #![trigger hits[x]]
                reaches(hits, floor, x) && hits[x].slot is Object && may_answer(hits[x], anchors)
                    && r->0.values@[k] == hits[x].projected->0
        },
{
    let n = strong_prefix(hits, floor);
    prefix_reaches(hits, floor, first);
    prefix_reaches(hits, floor, i);
    first_answer_is_first(hits, anchors, n);
    let found = first_answering(hits, anchors, n);
    if found is None {
        assert(!may_answer(hits[first], anchors));
    }
    let at = found->0;
    if at < first {
        assert(!may_answer(hits[at as int], anchors));
    }
    if first < at {
        assert(!may_answer(hits[first], anchors));
    }
    if hits[first].slot is Object {
        let picks = object_picks(hits, anchors, n);
        let values = values_at(hits, picks);
        picks_hold_objects(hits, anchors, n, first);
        picks_hold_objects(hits, anchors, n, i);
        assert(picks.len() > 0) by {
            if picks.contains(first as usize) {
            } else {
                assert(holds_object(hits, picks, hits[first].projected->0.object));
            }
        }
        if reaches(hits, floor, i) && hits[i].slot is Object && may_answer(hits[i], anchors) {
            if picks.contains(i as usize) {
                let x = choose|x: int| 0 <= x < picks.len() && picks[x] == i as usize;
                assert(values[x] == hits[i].projected->0);
            } else {
                let x = choose|x: int|
                    #![trigger picks[x]]
                    0 <= x < picks.len() && objects_match(
                        hits[picks[x] as int].projected->0.object,
                        hits[i].projected->0.object,
                    );
                assert(values[x] == hits[picks[x] as int].projected->0);
            }
        }
        if 0 <= k < values.len() {
            let x = picks[k] as int;
            prefix_reaches(hits, floor, x);
            assert(hits[x].slot is Object);
        }
    } else {
        assert(values_at(hits, seq![at]) =~= seq![hits[first].projected->0]);
    }
}

/// Where no hit that reaches the floor may answer, there is no answer.
pub proof fn weak_hits_answer_nothing(
    r: Option<GroundedAnswer>,
    hits: Seq<SlotHit>,
    anchors: Seq<[u8; 16]>,
    floor: Single,
)
    requires
        hits.len() <= usize::MAX,
        is_slot_answer(r, hits, anchors, floor),
        forall|i: int|
            reaches(hits, floor, i) ==> !may_answer(#[trigger] hits[i], anchors),
    ensures
        r is None,
{
    let n = strong_prefix(hits, floor);
    prefix_reaches(hits, floor, 0);
    first_answer_is_first(hits, anchors, n);
    if let Some(i) = first_answering(hits, anchors, n) {
        prefix_reaches(hits, floor, i as int);
        assert(!may_answer(hits[i as int], anchors));
    }
}

/// Two objects are the same if they refer to the same thing or hold the same
/// value; a float that is no number is like nothing.
pub proof fn like_objects_match(id: [u8; 16], other: [u8; 16], x: StatementValue, y: StatementValue)
    ensures
        objects_match(StatementObject::EntityRef(id), StatementObject::EntityRef(other)) <==> id
            == other,
        objects_match(StatementObject::MemoryRef(id), StatementObject::MemoryRef(other)) <==> id
            == other,
        objects_match(StatementObject::StatementRef(id), StatementObject::StatementRef(other)) <==> id
            == other,
        !objects_match(StatementObject::EntityRef(id), StatementObject::MemoryRef(other)),
        !objects_match(StatementObject::EntityRef(id), StatementObject::Value(x)),
        !objects_match(StatementObject::Value(x), StatementObject::EntityRef(id)),
        x matches StatementValue::Text(a) ==> y matches StatementValue::Text(b) ==> (objects_match(
            StatementObject::Value(x),
            StatementObject::Value(y),
        ) <==> a@ == b@),
        x matches StatementValue::Integer(a) ==> y matches StatementValue::Integer(b) ==> (
        objects_match(StatementObject::Value(x), StatementObject::Value(y)) <==> a == b),
        x matches StatementValue::Bool(a) ==> y matches StatementValue::Bool(b) ==> (objects_match(
            StatementObject::Value(x),
            StatementObject::Value(y),
        ) <==> a == b),
        x matches StatementValue::UnixNanos(a) ==> y matches StatementValue::UnixNanos(b) ==> (
        objects_match(StatementObject::Value(x), StatementObject::Value(y)) <==> a == b),
        x matches StatementValue::Blob(a) ==> y matches StatementValue::Blob(b) ==> (objects_match(
            StatementObject::Value(x),
            StatementObject::Value(y),
        ) <==> a@ == b@),
        x is Text && y is Integer ==> !objects_match(
            StatementObject::Value(x),
            StatementObject::Value(y),
        ),
{
}

// Walks.

proof fn best_walks_answer(
    walks: Seq<WalkAnswer>,
    n: nat,
    above: spec_fn(Single, Single) -> bool,
    near: spec_fn(Single, Single) -> bool,
)
    requires
        n <= walks.len() <= usize::MAX,
    ensures
        best_walk(walks, n, above, near) matches Some(i) ==> i < n && walks[i as int].answer.kind
            !is Nothing,
        best_walk(walks, n, above, near) is None <==> forall|k: int|
            0 <= k < n ==> (#[trigger] walks[k]).answer.kind is Nothing,
    decreases n,
{
    if n > 0 {
        best_walks_answer(walks, (n - 1) as nat, above, near);
        if forall|k: int| 0 <= k < n - 1 ==> (#[trigger] walks[k]).answer.kind is Nothing {
            if walks[n - 1].answer.kind is Nothing {
                assert forall|k: int| 0 <= k < n implies (#[trigger] walks[k]).answer.kind
                    is Nothing by {}
            }
        }
    }
}

/// A further walk becomes the best one only if it says something, and then
/// exactly if there was none, if it is clearly above the best, or if it is near
/// it and only the best starts at the caller.
pub proof fn better_walks_win(
    walks: Seq<WalkAnswer>,
    w: WalkAnswer,
    above: spec_fn(Single, Single) -> bool,
    near: spec_fn(Single, Single) -> bool,
)
    requires
        walks.len() < usize::MAX,
    ensures
        ({
            let n = walks.len();
            let before = best_walk(walks, n, above, near);
            let after = best_walk(walks.push(w), n + 1, above, near);
            &&& w.answer.kind is Nothing ==> after == before
            &&& w.answer.kind !is Nothing && before is None ==> after == Some(n as usize)
            &&& w.answer.kind !is Nothing ==> (before matches Some(b) ==> {
                let best = walks[b as int];
                let (mine, theirs) = (answer_score(w.answer), answer_score(best.answer));
                &&& above(mine, theirs) ==> after == Some(n as usize)
                &&& near(mine, theirs) && best.is_self && !w.is_self ==> after == Some(n as usize)
                &&& !above(mine, theirs) && (!near(mine, theirs) || !best.is_self || w.is_self)
                    ==> after == before
            })
        }),
{
    earlier_walks_stay(walks, w, walks.len(), above, near);
    best_walks_answer(walks, walks.len(), above, near);
    let all = walks.push(w);
    assert(all[walks.len() as int] == w);
    if let Some(b) = best_walk(walks, walks.len(), above, near) {
        assert(all[b as int] == walks[b as int]);
    }
}

proof fn earlier_walks_stay(
    walks: Seq<WalkAnswer>,
    w: WalkAnswer,
    n: nat,
    above: spec_fn(Single, Single) -> bool,
    near: spec_fn(Single, Single) -> bool,
)
    requires
        n <= walks.len() < usize::MAX,
    ensures
        best_walk(walks.push(w), n, above, near) == best_walk(walks, n, above, near),
    decreases n,
{
    if n > 0 {
        earlier_walks_stay(walks, w, (n - 1) as nat, above, near);
        best_walks_answer(walks, (n - 1) as nat, above, near);
        assert(walks.push(w)[n - 1] == walks[n - 1]);
        if let Some(b) = best_walk(walks, (n - 1) as nat, above, near) {
            assert(walks.push(w)[b as int] == walks[b as int]);
        }
    }
}

/// A cue is answered by its slots unless a walk that went at least one step
/// reaches the floor; without slots by the best walk, and by nothing only where
/// neither says anything. A walk that starts at the caller does not answer a
/// named subject.
pub proof fn cues_are_answered_by_slots_or_walks(
    r: GroundedOutcome,
    slot: Option<GroundedAnswer>,
    walks: Seq<WalkAnswer>,
    named: bool,
    floor: Single,
    above: spec_fn(Single, Single) -> bool,
    near: spec_fn(Single, Single) -> bool,
    k: int,
)
    requires
        walks.len() <= usize::MAX,
        answers_cue(r, slot, walks, named, floor, above, near),
    ensures
        slot is None && (forall|j: int|
            0 <= j < walks.len() ==> (#[trigger] walks[j]).answer.kind is Nothing) ==> r is NoAnswer,
        slot is Some ==> r is Answer,
        0 <= k < walks.len() && walks[k].answer.kind !is Nothing ==> r is Answer,
        slot matches Some(s) ==> (forall|j: int|
            0 <= j < walks.len() ==> (#[trigger] walks[j]).depth == 0) ==> r
            == GroundedOutcome::Answer(s, named),
        slot matches Some(s) ==> (forall|j: int|
            0 <= j < walks.len() ==> answer_score((#[trigger] walks[j]).answer).below(floor)) ==> r
            == GroundedOutcome::Answer(s, named),
        r matches GroundedOutcome::Answer(a, scoped) ==> (slot == Some(a) && scoped == named) || (
        exists|j: int|
            #![trigger walks[j]]
            0 <= j < walks.len() && walks[j].answer == a && a.kind !is Nothing && scoped
                == !walks[j].is_self && (slot is Some ==> walks[j].depth >= 1)),
        slot is Some && walks.len() == 1 && walks[0].answer.kind !is Nothing && walks[0].depth >= 1
            && !floor.nan() && !answer_score(walks[0].answer).nan() && answer_score(
            walks[0].answer,
        ).key() >= floor.key() ==> r == GroundedOutcome::Answer(walks[0].answer, !walks[0].is_self),
{
    best_walks_answer(walks, walks.len(), above, near);
    reveal_with_fuel(best_walk, 2);
    if let Some(i) = best_walk(walks, walks.len(), above, near) {
        let w = walks[i as int];
        assert(w.answer.kind !is Nothing);
    }
}

// Surfaces.

/// Punctuation at either end of a word does not count; what is left has none
/// there, and a word without any stays as it is.
pub proof fn outer_punctuation_does_not_count(w: Seq<char>, c: char)
    requires
        !alphanumeric(c),
    ensures
        bare_word(seq![c] + w) == bare_word(w),
        bare_word(w.push(c)) == bare_word(w),
        bare_word(w).len() > 0 ==> alphanumeric(bare_word(w)[0]) && alphanumeric(
            bare_word(w).last(),
        ),
        w.len() > 0 && alphanumeric(w[0]) && alphanumeric(w.last()) ==> bare_word(w) == w,
    decreases w.len(),
{
    assert((seq![c] + w).skip(1) =~= w);
    let p = w.push(c);
    assert(p.drop_last() =~= w);
    if w.len() == 0 {
        assert(p.skip(1) =~= w);
    } else if !alphanumeric(w[0]) {
        assert(p[0] == w[0]);
        assert(p.skip(1) =~= w.skip(1).push(c));
        outer_punctuation_does_not_count(w.skip(1), c);
    } else if !alphanumeric(w.last()) {
        assert(p[0] == w[0]);
        outer_punctuation_does_not_count(w.drop_last(), c);
    } else {
        assert(p[0] == w[0]);
    }
}

/// A possessive ending does not count: a name and its possessive have one
/// surface.
pub proof fn possessives_have_the_surface_of_their_name(w: Seq<char>)
    requires
        w.len() > 0,
        alphanumeric(w[0]),
        alphanumeric(w.last()),
        alphanumeric('s'),
    ensures
        surface(w.push('\'').push('s')) == surface(w),
        w.len() < 2 || w.last() != 's' ==> surface(w) == w,
{
    let p = w.push('\'').push('s');
    assert(p[0] == w[0]);
    assert(bare_word(p) == p);
    assert(p.take(p.len() - 2) =~= w);
}

/// A capitalised word goes on the run before it, or opens one; any other word
/// ends the run.
pub proof fn capitalised_words_run_on(ws: Seq<Seq<char>>, w: Seq<char>)
    ensures
        ({
            let (done, open) = run_state(ws);
            let (all, last) = run_state(ws.push(w));
            let capital = surface(w).len() > 0 && uppercase(surface(w)[0]);
            &&& capital && open.len() == 0 ==> all == done && last == surface(w)
            &&& capital && open.len() > 0 ==> all == done && last == open + seq![' '] + surface(w)
            &&& !capital && open.len() > 0 ==> all == done.push(open) && last.len() == 0
            &&& !capital && open.len() == 0 ==> all == done && last.len() == 0
        }),
{
    assert(ws.push(w).drop_last() =~= ws);
    let (done, open) = run_state(ws);
    assert(open.push(' ') + surface(w) =~= open + seq![' '] + surface(w));
}

} // verus!
