//! The grounded answer of a cue: slot projections scoped to the named
//! subjects, and the choice between them and the graph walk.
use vstd::prelude::*;

use crate::bytes::{eq16, eq_bytes, has16};
use crate::ranking::{gather, gathered, is_selection};
use crate::recall::{
    decisions, is_decision, returns_decision, AnswerKind, GroundedAnswer, GroundedOutcome, GroundedValue,
};
use crate::single::{Double, Single};
use crate::statement::{StatementObject, StatementValue, SubjectRef};
use crate::text::same_text;

verus! {

/// How many statement questions are probed for a cue.
pub const SLOT_PROJECTION_PROBE_K: usize = 8;

/// The part of a statement that a question asks for.
#[derive(Clone, Copy, Debug, PartialEq, Eq, Structural)]
pub enum Slot {
    Object,
    Time,
    Subject,
}

/// What a hit needs of its statement.
#[derive(Clone, Copy, Debug)]
pub struct SlotStatement {
    pub subject: SubjectRef,
    pub tombstoned: bool,
    pub superseded: bool,
}

/// A statement question that a cue matched, strongest first. `statement` is
/// `None` where the row is gone; `projected` is the value of the asked slot,
/// `None` where the statement has none.
#[derive(Debug)]
pub struct SlotHit {
    pub slot: Slot,
    pub score: Single,
    pub statement: Option<SlotStatement>,
    pub projected: Option<GroundedValue>,
}

/// Whether a subject is in scope: any is where no subject was named, else
/// only a named entity.
pub open spec fn in_scope(subject: SubjectRef, anchors: Seq<[u8; 16]>) -> bool {
    anchors.len() == 0 || (subject matches SubjectRef::Entity(id) && anchors.contains(id))
}

/// Whether a subject is in the scope that the cue named.
pub fn statement_subject_in_scope(subject: SubjectRef, anchors: &Vec<[u8; 16]>) -> (r: bool)
    ensures
        r == in_scope(subject, anchors@),
{
    if anchors.len() == 0 {
        return true;
    }
    match subject {
        SubjectRef::Entity(id) => has16(anchors, &id),
        _ => false,
    }
}

/// Whether a hit may answer: its subject is in scope, and a time is never
/// answered without a named subject.
pub open spec fn projectable(slot: Slot, subject: SubjectRef, anchors: Seq<[u8; 16]>) -> bool {
    !(anchors.len() == 0 && slot == Slot::Time) && in_scope(subject, anchors)
}

/// Whether a hit may answer.
pub fn slot_hit_projectable(slot: Slot, subject: SubjectRef, anchors: &Vec<[u8; 16]>) -> (r: bool)
    ensures
        r == projectable(slot, subject, anchors@),
{
    if anchors.len() == 0 && slot == Slot::Time {
        return false;
    }
    statement_subject_in_scope(subject, anchors)
}

/// A fact about another subject never answers a cue that named one.
pub proof fn wrong_subject_never_answers(slot: Slot, subject: [u8; 16], anchors: Seq<[u8; 16]>)
    requires
        anchors.len() > 0,
        !anchors.contains(subject),
    ensures
        !projectable(slot, SubjectRef::Entity(subject), anchors),
{
}

/// Whether two values are equal; a float that is no number equals nothing.
pub open spec fn values_match(a: StatementValue, b: StatementValue) -> bool {
    match (a, b) {
        (StatementValue::Text(x), StatementValue::Text(y)) => x@ == y@,
        (StatementValue::Integer(x), StatementValue::Integer(y)) => x == y,
        (
            StatementValue::Float { bits: x, shown: _ },
            StatementValue::Float { bits: y, shown: _ },
        ) => {
            let (x, y) = (Double { bits: x }, Double { bits: y });
            !x.nan() && !y.nan() && x.key() == y.key()
        },
        (StatementValue::Bool(x), StatementValue::Bool(y)) => x == y,
        (StatementValue::UnixNanos(x), StatementValue::UnixNanos(y)) => x == y,
        (StatementValue::Blob(x), StatementValue::Blob(y)) => x@ == y@,
        _ => false,
    }
}

/// Whether two objects are equal.
pub open spec fn objects_match(a: StatementObject, b: StatementObject) -> bool {
    match (a, b) {
        (StatementObject::EntityRef(x), StatementObject::EntityRef(y)) => x == y,
        (StatementObject::Value(x), StatementObject::Value(y)) => values_match(x, y),
        (StatementObject::MemoryRef(x), StatementObject::MemoryRef(y)) => x == y,
        (StatementObject::StatementRef(x), StatementObject::StatementRef(y)) => x == y,
        _ => false,
    }
}

fn eq_value(a: &StatementValue, b: &StatementValue) -> (r: bool)
    ensures
        r == values_match(*a, *b),
{
    match (a, b) {
        (StatementValue::Text(x), StatementValue::Text(y)) => same_text(x, y),
        (StatementValue::Integer(x), StatementValue::Integer(y)) => *x == *y,
        (
            StatementValue::Float { bits: x, shown: _ },
            StatementValue::Float { bits: y, shown: _ },
        ) => (Double { bits: *x }).is_equal(Double { bits: *y }),
        (StatementValue::Bool(x), StatementValue::Bool(y)) => *x == *y,
        (StatementValue::UnixNanos(x), StatementValue::UnixNanos(y)) => *x == *y,
        (StatementValue::Blob(x), StatementValue::Blob(y)) => eq_bytes(
            x.as_slice(),
            y.as_slice(),
        ),
        _ => false,
    }
}

/// Whether two objects are equal.
pub fn eq_object(a: &StatementObject, b: &StatementObject) -> (r: bool)
    ensures
        r == objects_match(*a, *b),
{
    match (a, b) {
        (StatementObject::EntityRef(x), StatementObject::EntityRef(y)) => eq16(x, y),
        (StatementObject::Value(x), StatementObject::Value(y)) => eq_value(x, y),
        (StatementObject::MemoryRef(x), StatementObject::MemoryRef(y)) => eq16(x, y),
        (StatementObject::StatementRef(x), StatementObject::StatementRef(y)) => eq16(x, y),
        _ => false,
    }
}

/// How many hits come before the first that is below the floor.
pub open spec fn strong_prefix(hits: Seq<SlotHit>, floor: Single) -> nat
    decreases hits.len(),
{
    if hits.len() == 0 || hits[0].score.below(floor) {
        0
    } else {
        1 + strong_prefix(hits.skip(1), floor)
    }
}

/// Whether a hit answers: its statement is current and in scope, and its slot
/// has a value.
pub open spec fn answers(hit: SlotHit, anchors: Seq<[u8; 16]>) -> bool {
    &&& hit.statement matches Some(s) && !s.tombstoned && !s.superseded && projectable(
        hit.slot,
        s.subject,
        anchors,
    )
    &&& hit.projected is Some
}

/// Whether the picked hits already hold this object.
pub open spec fn holds_object(
    hits: Seq<SlotHit>,
    picks: Seq<usize>,
    object: StatementObject,
) -> bool {
    exists|k: int|
        #![trigger picks[k]]
        0 <= k < picks.len() && objects_match(hits[picks[k] as int].projected->0.object, object)
}

/// Of the first `n` hits, those that answer with an object, the first of each
/// object.
pub open spec fn object_picks(hits: Seq<SlotHit>, anchors: Seq<[u8; 16]>, n: nat) -> Seq<usize>
    decreases n,
{
    if n == 0 {
        Seq::empty()
    } else {
        let before = object_picks(hits, anchors, (n - 1) as nat);
        let hit = hits[n - 1];
        if hit.slot == Slot::Object && answers(hit, anchors) && !holds_object(
            hits,
            before,
            hit.projected->0.object,
        ) {
            before.push((n - 1) as usize)
        } else {
            before
        }
    }
}

/// The values of picked hits.
pub open spec fn values_at(hits: Seq<SlotHit>, picks: Seq<usize>) -> Seq<GroundedValue> {
    picks.map_values(|i: usize| hits[i as int].projected->0)
}

fn is_answering(hit: &SlotHit, anchors: &Vec<[u8; 16]>) -> (r: bool)
    ensures
        r == answers(*hit, anchors@),
{
    match &hit.statement {
        Some(s) => !s.tombstoned && !s.superseded && slot_hit_projectable(
            hit.slot,
            s.subject,
            anchors,
        ) && hit.projected.is_some(),
        None => false,
    }
}

fn is_held(hits: &Vec<SlotHit>, picks: &Vec<usize>, object: &StatementObject) -> (r: bool)
    requires
        forall|k: int|
            #![trigger picks@[k]]
            0 <= k < picks@.len() ==> picks@[k] < hits@.len() && hits@[picks@[k] as int].projected is Some,
    ensures
        r == holds_object(hits@, picks@, *object),
{
    for k in 0..picks.len()
        invariant
            forall|k: int|
                #![trigger picks@[k]]
                0 <= k < picks@.len() ==> picks@[k] < hits@.len() && hits@[picks@[k] as int].projected is Some,
            forall|j: int|
                #![trigger picks@[j]]
                0 <= j < k ==> !objects_match(
                    hits@[picks@[j] as int].projected->0.object,
                    *object,
                ),
    {
        if let Some(v) = &hits[picks[k]].projected {
            if eq_object(&v.object, object) {
                return true;
            }
        }
    }
    false
}

fn count_strong(hits: &Vec<SlotHit>, floor: Single) -> (r: usize)
    ensures
        r == strong_prefix(hits@, floor),
        r <= hits@.len(),
{
    let mut i: usize = 0;
    assert(hits@.skip(0) =~= hits@);
    while i < hits.len() && !hits[i].score.is_below(floor)
        invariant
            i <= hits@.len(),
            strong_prefix(hits@, floor) == i + strong_prefix(hits@.skip(i as int), floor),
        decreases hits@.len() - i,
    {
        assert(hits@.skip(i as int).skip(1) =~= hits@.skip(i + 1));
        i = i + 1;
    }
    i
}

fn pick_objects(hits: &Vec<SlotHit>, anchors: &Vec<[u8; 16]>, n: usize) -> (r: Vec<usize>)
    requires
        n <= hits@.len(),
    ensures
        r@ == object_picks(hits@, anchors@, n as nat),
        is_selection(r@, hits@.len()),
        forall|k: int|
            #![trigger r@[k]]
            0 <= k < r@.len() ==> hits@[r@[k] as int].projected is Some,
{
    let mut out: Vec<usize> = Vec::new();
    for i in 0..n
        invariant
            n <= hits@.len(),
            out@ == object_picks(hits@, anchors@, i as nat),
            is_selection(out@, i as nat),
            forall|k: int|
                #![trigger out@[k]]
                0 <= k < out@.len() ==> out@[k] < hits@.len() && hits@[out@[k] as int].projected is Some,
    {
        if hits[i].slot == Slot::Object && is_answering(&hits[i], anchors) {
            if let Some(v) = &hits[i].projected {
                if !is_held(hits, &out, &v.object) {
                    out.push(i);
                }
            }
        }
    }
    out
}

fn take_values(hits: Vec<SlotHit>, picks: &Vec<usize>) -> (r: Vec<GroundedValue>)
    requires
        is_selection(picks@, hits@.len()),
        forall|k: int|
            #![trigger picks@[k]]
            0 <= k < picks@.len() ==> hits@[picks@[k] as int].projected is Some,
    ensures
        r@ == values_at(hits@, picks@),
{
    let ghost all = hits@;
    let chosen = gather(hits, picks);
    let ghost list = chosen@;
    let mut out: Vec<GroundedValue> = Vec::new();
    for h in it: chosen
        invariant
            it.seq() == list,
            list == gathered(all, picks@),
            forall|k: int|
                #![trigger picks@[k]]
                0 <= k < picks@.len() ==> all[picks@[k] as int].projected is Some,
            out@ == values_at(all, picks@.take(it.index())),
    {
        let ghost n = it.index();
        assert(h == all[picks@[n] as int]);
        if let Some(v) = h.projected {
            out.push(v);
            assert(values_at(all, picks@.take(n + 1)) =~= values_at(all, picks@.take(n)).push(v));
        }
    }
    assert(picks@.take(picks@.len() as int) =~= picks@);
    out
}

/// The objects that a cue asks for: of the hits that clear the floor, the
/// current ones in scope that answer with an object, the first of each
/// object, strongest first.
pub fn cue_scoped_object_set(hits: Vec<SlotHit>, anchors: &Vec<[u8; 16]>, floor: Single) -> (r: Vec<
    GroundedValue,
>)
    ensures
        r@ == values_at(
            hits@,
            object_picks(hits@, anchors@, strong_prefix(hits@, floor)),
        ),
{
    let n: usize = count_strong(&hits, floor);
    let picks = pick_objects(&hits, anchors, n);
    take_values(hits, &picks)
}

/// The first hit that answers, of those that clear the floor.
pub open spec fn first_answering(hits: Seq<SlotHit>, anchors: Seq<[u8; 16]>, n: nat) -> Option<
    usize,
>
    decreases n,
{
    if n == 0 {
        None
    } else {
        match first_answering(hits, anchors, (n - 1) as nat) {
            Some(i) => Some(i),
            None => if answers(hits[n - 1], anchors) {
                Some((n - 1) as usize)
            } else {
                None
            },
        }
    }
}

/// The positions that answer, and the kind of answer they make.
pub open spec fn slot_answer(hits: Seq<SlotHit>, anchors: Seq<[u8; 16]>, floor: Single) -> Option<
    (AnswerKind, Seq<usize>),
> {
    let n = strong_prefix(hits, floor);
    match first_answering(hits, anchors, n) {
        None => None,
        Some(i) => if hits[i as int].slot == Slot::Object {
            let picks = object_picks(hits, anchors, n);
            if picks.len() > 1 {
                Some((AnswerKind::Several, picks))
            } else {
                Some((AnswerKind::Single, picks))
            }
        } else {
            Some((AnswerKind::Single, seq![i]))
        },
    }
}

/// Whether an answer is exactly the one that the hits make.
pub open spec fn is_slot_answer(
    r: Option<GroundedAnswer>,
    hits: Seq<SlotHit>,
    anchors: Seq<[u8; 16]>,
    floor: Single,
) -> bool {
    match slot_answer(hits, anchors, floor) {
        Some((kind, picks)) => r matches Some(a) && a.kind == kind && a.values@ == values_at(
            hits,
            picks,
        ),
        None => r is None,
    }
}

/// The answer that the matched statement questions make: the slot of the
/// first hit that answers; for an object, the whole set on the cue.
pub fn slot_projection_grounded(hits: Vec<SlotHit>, anchors: &Vec<[u8; 16]>, floor: Single) -> (r:
    Option<GroundedAnswer>)
    ensures
        is_slot_answer(r, hits@, anchors@, floor),
{
    let n: usize = count_strong(&hits, floor);
    let mut first: Option<usize> = None;
    for i in 0..n
        invariant
            n <= hits@.len(),
            first == first_answering(hits@, anchors@, i as nat),
            first matches Some(k) ==> k < i && answers(hits@[k as int], anchors@),
    {
        if first.is_none() && is_answering(&hits[i], anchors) {
            first = Some(i);
        }
    }
    match first {
        None => None,
        Some(i) => {
            if hits[i].slot == Slot::Object {
                let picks = pick_objects(&hits, anchors, n);
                let kind = if picks.len() > 1 {
                    AnswerKind::Several
                } else {
                    AnswerKind::Single
                };
                Some(GroundedAnswer { kind, values: take_values(hits, &picks) })
            } else {
                let mut picks: Vec<usize> = Vec::new();
                picks.push(i);
                assert(picks@ =~= seq![i]);
                Some(GroundedAnswer { kind: AnswerKind::Single, values: take_values(hits, &picks) })
            }
        },
    }
}

proof fn picks_hold_an_answer(hits: Seq<SlotHit>, anchors: Seq<[u8; 16]>, n: nat, i: int)
    requires
        0 <= i < n,
        hits[i].slot == Slot::Object,
        answers(hits[i], anchors),
    ensures
        object_picks(hits, anchors, n).len() > 0,
    decreases n,
{
    if i < n - 1 {
        picks_hold_an_answer(hits, anchors, (n - 1) as nat, i);
    }
}

proof fn first_answers(hits: Seq<SlotHit>, anchors: Seq<[u8; 16]>, n: nat)
    ensures
        first_answering(hits, anchors, n) matches Some(i) ==> n <= usize::MAX ==> i < n && answers(
            hits[i as int],
            anchors,
        ),
    decreases n,
{
    if n > 0 {
        first_answers(hits, anchors, (n - 1) as nat);
    }
}

/// A slot answer has at least one value.
pub proof fn slot_answers_are_never_empty(
    hits: Seq<SlotHit>,
    anchors: Seq<[u8; 16]>,
    floor: Single,
)
    requires
        strong_prefix(hits, floor) <= usize::MAX,
    ensures
        slot_answer(hits, anchors, floor) matches Some((_, picks)) ==> picks.len() > 0,
{
    let n = strong_prefix(hits, floor);
    first_answers(hits, anchors, n);
    if let Some(i) = first_answering(hits, anchors, n) {
        if hits[i as int].slot == Slot::Object {
            picks_hold_an_answer(hits, anchors, n, i as int);
        }
    }
}

proof fn picks_answer(hits: Seq<SlotHit>, anchors: Seq<[u8; 16]>, n: nat, k: int)
    requires
        n <= usize::MAX,
        0 <= k < object_picks(hits, anchors, n).len(),
    ensures
        object_picks(hits, anchors, n)[k] < n,
        answers(hits[object_picks(hits, anchors, n)[k] as int], anchors),
    decreases n,
{
    if n > 0 {
        let before = object_picks(hits, anchors, (n - 1) as nat);
        if k < before.len() {
            picks_answer(hits, anchors, (n - 1) as nat, k);
        }
    }
}

proof fn strong_prefix_is_strong(hits: Seq<SlotHit>, floor: Single, i: int)
    requires
        0 <= i < strong_prefix(hits, floor),
    ensures
        i < hits.len(),
        !hits[i].score.below(floor),
    decreases hits.len(),
{
    if i > 0 {
        strong_prefix_is_strong(hits.skip(1), floor, i - 1);
        assert(hits.skip(1)[i - 1] == hits[i]);
    }
}

/// A slot answer holds only values of current statements, about a subject in
/// scope, that clear the floor: a superseded or tombstoned fact never
/// surfaces.
pub proof fn slot_answers_are_current(
    hits: Seq<SlotHit>,
    anchors: Seq<[u8; 16]>,
    floor: Single,
    k: int,
)
    requires
        strong_prefix(hits, floor) <= usize::MAX,
        slot_answer(hits, anchors, floor) matches Some((_, picks)) && 0 <= k < picks.len(),
    ensures
        ({
            let hit = hits[(slot_answer(hits, anchors, floor)->0).1[k] as int];
            &&& hit.statement matches Some(s) && !s.tombstoned && !s.superseded && in_scope(
                s.subject,
                anchors,
            )
            &&& !hit.score.below(floor)
        }),
{
    let n = strong_prefix(hits, floor);
    first_answers(hits, anchors, n);
    let i = first_answering(hits, anchors, n)->0;
    if hits[i as int].slot == Slot::Object {
        picks_answer(hits, anchors, n, k);
        strong_prefix_is_strong(hits, floor, object_picks(hits, anchors, n)[k] as int);
    } else {
        strong_prefix_is_strong(hits, floor, i as int);
    }
}

/// What the walk from one subject found, and how many hops away.
#[derive(Debug)]
pub struct WalkAnswer {
    pub answer: GroundedAnswer,
    pub depth: usize,
    pub is_self: bool,
}

/// The score of an answer: that of its first value, 0 without one.
pub open spec fn answer_score(a: GroundedAnswer) -> Single {
    if a.values@.len() > 0 {
        a.values@[0].match_score
    } else {
        Single { bits: 0 }
    }
}

/// The best walk of the first `n`: one that clearly outscores the best so
/// far replaces it, and in a near tie a named subject replaces the caller.
pub open spec fn best_walk(
    walks: Seq<WalkAnswer>,
    n: nat,
    clearly_above: spec_fn(Single, Single) -> bool,
    near: spec_fn(Single, Single) -> bool,
) -> Option<usize>
    decreases n,
{
    if n == 0 {
        None
    } else {
        let before = best_walk(walks, (n - 1) as nat, clearly_above, near);
        let w = walks[n - 1];
        if w.answer.kind == AnswerKind::Nothing {
            before
        } else {
            match before {
                None => Some((n - 1) as usize),
                Some(b) => {
                    let best = walks[b as int];
                    let (mine, theirs) = (answer_score(w.answer), answer_score(best.answer));
                    if clearly_above(mine, theirs) || (near(mine, theirs) && best.is_self
                        && !w.is_self) {
                        Some((n - 1) as usize)
                    } else {
                        before
                    }
                },
            }
        }
    }
}

fn score_of(a: &GroundedAnswer) -> (r: Single)
    ensures
        r == answer_score(*a),
{
    if a.values.len() > 0 {
        a.values[0].match_score
    } else {
        Single { bits: 0 }
    }
}

/// The grounded outcome of a cue. The best walk overrides a slot answer only
/// when it went at least one hop and clears the floor; else the slot answer
/// stands. An answer is scoped when it is about a subject that the cue named.
pub open spec fn chosen_outcome(
    slot: Option<GroundedAnswer>,
    best: Option<WalkAnswer>,
    named: bool,
    floor: Single,
) -> GroundedOutcome {
    match (slot, best) {
        (Some(s), Some(w)) => if w.depth >= 1 && floor.at_most(answer_score(w.answer)) {
            GroundedOutcome::Answer(w.answer, !w.is_self)
        } else {
            GroundedOutcome::Answer(s, named)
        },
        (Some(s), None) => GroundedOutcome::Answer(s, named),
        (None, Some(w)) => GroundedOutcome::Answer(w.answer, !w.is_self),
        (None, None) => GroundedOutcome::NoAnswer,
    }
}

/// Whether `holds` is true of the scores of every walk of the first `n` that
/// answers and of the best walk before it.
pub open spec fn all_compared(
    walks: Seq<WalkAnswer>,
    n: nat,
    clearly_above: spec_fn(Single, Single) -> bool,
    near: spec_fn(Single, Single) -> bool,
    holds: spec_fn(Single, Single) -> bool,
) -> bool
    decreases n,
{
    n == 0 || {
        let best = best_walk(walks, (n - 1) as nat, clearly_above, near);
        &&& all_compared(walks, (n - 1) as nat, clearly_above, near, holds)
        &&& walks[n - 1].answer.kind != AnswerKind::Nothing && best is Some ==> holds(
            answer_score(walks[n - 1].answer),
            answer_score(walks[best->0 as int].answer),
        )
    }
}

/// Whether two closures were both asked about a pair of scores.
pub open spec fn both_asked<A: Fn(Single, Single) -> bool, N: Fn(Single, Single) -> bool>(
    clearly_above: A,
    near: N,
) -> spec_fn(Single, Single) -> bool {
    |a: Single, b: Single| returns_decision(clearly_above, a, b) && returns_decision(near, a, b)
}

/// What a cue is answered: the chosen one of the projected slots and the best
/// walk.
pub open spec fn answers_cue(
    r: GroundedOutcome,
    slot: Option<GroundedAnswer>,
    walks: Seq<WalkAnswer>,
    named: bool,
    floor: Single,
    clearly_above: spec_fn(Single, Single) -> bool,
    near: spec_fn(Single, Single) -> bool,
) -> bool {
    let best = match best_walk(walks, walks.len(), clearly_above, near) {
        Some(i) => Some(walks[i as int]),
        None => None,
    };
    r == chosen_outcome(slot, best, named, floor)
}

/// Chooses the grounded outcome of a cue from its slot answer and the walks
/// from its subjects. `clearly_above` and `near` say whether one score is
/// more than the tie margin above another, and whether they are within it.
pub fn best_grounded_for_cue<A: Fn(Single, Single) -> bool, N: Fn(Single, Single) -> bool>(
    slot: Option<GroundedAnswer>,
    walks: Vec<WalkAnswer>,
    named: bool,
    floor: Single,
    clearly_above: &A,
    near: &N,
) -> (r: GroundedOutcome)
    requires
        is_decision(*clearly_above),
        is_decision(*near),
    ensures
        answers_cue(
            r,
            slot,
            walks@,
            named,
            floor,
            decisions(*clearly_above),
            decisions(*near),
        ),
        all_compared(
            walks@,
            walks@.len(),
            decisions(*clearly_above),
            decisions(*near),
            both_asked(*clearly_above, *near),
        ),
{
    let ghost above = decisions(*clearly_above);
    let ghost close = decisions(*near);
    let mut best: Option<usize> = None;
    for i in 0..walks.len()
        invariant
            is_decision(*clearly_above),
            is_decision(*near),
            above == decisions(*clearly_above),
            close == decisions(*near),
            all_compared(walks@, i as nat, above, close, both_asked(*clearly_above, *near)),
            best == best_walk(walks@, i as nat, above, close),
            best matches Some(b) ==> b < i,
    {
        if walks[i].answer.kind != AnswerKind::Nothing {
            let mine = score_of(&walks[i].answer);
            let takes = match best {
                None => true,
                Some(b) => {
                    let theirs = score_of(&walks[b].answer);
                    let is_above = clearly_above(mine, theirs);
                    let is_near = near(mine, theirs);
                    assert(returns_decision(*clearly_above, mine, theirs));
                    assert(returns_decision(*near, mine, theirs));
                    is_above || (is_near && walks[b].is_self && !walks[i].is_self)
                },
            };
            if takes {
                best = Some(i);
            }
        }
    }
    let ghost all = walks@;
    match best {
        None => match slot {
            Some(s) => GroundedOutcome::Answer(s, named),
            None => GroundedOutcome::NoAnswer,
        },
        Some(b) => {
            let mut walks = walks;
            let w = walks.swap_remove(b);
            match slot {
                Some(s) => {
                    if w.depth >= 1 && floor.is_at_most(score_of(&w.answer)) {
                        GroundedOutcome::Answer(w.answer, !w.is_self)
                    } else {
                        GroundedOutcome::Answer(s, named)
                    }
                },
                None => GroundedOutcome::Answer(w.answer, !w.is_self),
            }
        },
    }
}

/// A walk that stayed at the subject never overrides a slot answer.
pub proof fn shallow_walks_never_override(
    slot: GroundedAnswer,
    w: WalkAnswer,
    named: bool,
    floor: Single,
)
    requires
        w.depth == 0,
    ensures
        chosen_outcome(Some(slot), Some(w), named, floor) == GroundedOutcome::Answer(slot, named),
{
}

} // verus!
