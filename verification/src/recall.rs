//! Recall: the request and its bounds, the answer's shape, and the rules by
//! which members are ordered, led and withheld.
use vstd::prelude::*;

use std::collections::{HashMap, HashSet};

use crate::error::{fails, invalid, ErrorView, OpError};
use crate::events::{EdgeKind, MemoryKind};
use crate::ranking::{rank, ranked_by, ranked_by_keeps_items, scored_by, take_items};
use crate::recall_trace::RecallTrace;
use crate::single::Single;
use crate::statement::StatementObject;

verus! {

/// Upper bound on returned items.
pub const MAX_RECALL_RESULTS: u32 = 1000;

/// The bound when the caller gives none.
pub const DEFAULT_RECALL_RESULTS: u32 = 50;

/// How many candidates retrieval may hand to membership.
pub const RECALL_CANDIDATE_POOL: u32 = 1000;

/// Upper bound on the entries of one filter list.
pub const MAX_RECALL_FILTER_ENTRIES: usize = 1024;

/// Upper bound on the subjects taken from one cue.
pub const MAX_SUBJECT_CANDIDATES: usize = 8;

/// The support at which a memory is corroborated: two independent lanes.
pub const SUPPORT_CORROBORATED: u8 = 2;

/// The pattern of `0.6`: the semantic bar, the question-bridge bar and the
/// bar that a grounded value must clear to lead.
pub const STRONG_BITS: u32 = 0x3F19_999A;

/// The pattern of `0.20`: a cosine below it is irrelevant.
pub const MEMBERSHIP_ABS_FLOOR_BITS: u32 = 0x3E4C_CCCD;

/// A retrieval lane.
#[derive(Clone, Copy, Debug, PartialEq, Eq, Structural)]
pub enum Lane {
    Semantic,
    Lexical,
    Graph,
}

/// The shape of an answer.
#[derive(Clone, Copy, Debug, PartialEq, Eq, Structural)]
pub enum AnswerShape {
    Nothing,
    Single,
    Many,
}

/// An edge out of a memory.
#[derive(Clone, Copy, Debug, PartialEq, Eq, Structural)]
pub struct EdgeView {
    pub target: u128,
    pub kind: EdgeKind,
    pub weight: Single,
}

#[derive(Debug)]
pub struct EnrichedEntity {
    pub id: [u8; 16],
    pub name: String,
    pub type_qname: String,
}

#[derive(Debug)]
pub struct EnrichedStatement {
    pub id: [u8; 16],
    pub subject_name: String,
    pub predicate: String,
    pub object_label: String,
    pub confidence: Single,
    pub event_at_unix_nanos: Option<u64>,
}

#[derive(Debug)]
pub struct EnrichedRelation {
    pub from_name: String,
    pub predicate: String,
    pub to_name: String,
}

/// What the typed graph knows of one memory.
#[derive(Debug)]
pub struct GraphEnrichment {
    pub entities: Vec<EnrichedEntity>,
    pub statements: Vec<EnrichedStatement>,
    pub relations: Vec<EnrichedRelation>,
}

/// One remembered memory, as a recall answers with it.
#[derive(Debug)]
pub struct MemoryResult {
    pub memory_id: u128,
    pub text: String,
    pub similarity_score: Single,
    pub confidence: Single,
    pub salience: Single,
    pub kind: MemoryKind,
    pub space_id: [u8; 16],
    pub session_id: u64,
    pub created_at_unix_nanos: u64,
    pub last_accessed_at_unix_nanos: u64,
    pub edges: Option<Vec<EdgeView>>,
    pub graph: Option<GraphEnrichment>,
    pub contributing_retrievers: Vec<Lane>,
    pub fused_score: Single,
    pub rerank_score: Option<Single>,
    pub salience_initial: Single,
    pub access_count: u32,
    pub lsn: u64,
    pub flags: u32,
    pub consolidated_at_unix_nanos: Option<u64>,
    pub occurred_at_unix_nanos: Option<u64>,
    pub edges_out_count: u32,
    pub edges_in_count: u32,
}

#[derive(Debug)]
pub struct RecallRequest {
    pub cue_text: String,
    pub subject_name: String,
    pub max_results: u32,
    pub confidence_threshold: Single,
    pub session_filter: Option<Vec<u64>>,
    pub age_bound_unix_nanos: Option<u64>,
    pub as_of_record_time_unix_nanos: Option<u64>,
    pub kind_filter: Option<Vec<MemoryKind>>,
    pub salience_floor: Single,
    pub include_edges: bool,
    pub include_graph: bool,
    pub include_text: bool,
    pub request_id: Option<[u8; 16]>,
    pub txn_id: Option<[u8; 16]>,
    pub trace: bool,
    pub act_as: Option<[u8; 16]>,
}

#[derive(Debug)]
pub struct RecallResponseFrame {
    pub answer_kind: AnswerShape,
    pub memories: Vec<MemoryResult>,
    pub is_final: bool,
    pub cumulative_count: u32,
    pub estimated_remaining: Option<u32>,
    pub trace: Option<RecallTrace>,
}

/// Whether a grounded answer is nothing, one value, or a set.
#[derive(Clone, Copy, Debug, PartialEq, Eq, Structural)]
pub enum AnswerKind {
    Nothing,
    Single,
    Several,
}

/// A value that the typed graph answers with.
#[derive(Debug)]
pub struct GroundedValue {
    pub predicate: String,
    pub object: StatementObject,
    pub confidence: Single,
    pub source_memory: Option<u128>,
    pub match_score: Single,
    pub recency: u64,
}

#[derive(Debug)]
pub struct GroundedAnswer {
    pub kind: AnswerKind,
    pub values: Vec<GroundedValue>,
}

/// The outcome of the grounded attempt. The flag says that the answer is about
/// a subject that the cue named; only such an answer may lead.
#[derive(Debug)]
pub enum GroundedOutcome {
    Answer(GroundedAnswer, bool),
    NoAnswer,
}

// The request.

/// Why a recall request is refused, if it is.
pub open spec fn recall_error(req: RecallRequest) -> Option<ErrorView> {
    if req.session_filter matches Some(v) && v@.len() > MAX_RECALL_FILTER_ENTRIES {
        Some(ErrorView::InvalidRequest("recall: session_filter must have <= 1024 entries"@))
    } else if req.kind_filter matches Some(v) && v@.len() > MAX_RECALL_FILTER_ENTRIES {
        Some(ErrorView::InvalidRequest("recall: kind_filter must have <= 1024 entries"@))
    } else {
        None
    }
}

/// The effective result bound: no count means the default, and any count is
/// clamped to the ceiling.
pub open spec fn effective_max(max_results: u32) -> u32 {
    if max_results == 0 {
        DEFAULT_RECALL_RESULTS
    } else if max_results > MAX_RECALL_RESULTS {
        MAX_RECALL_RESULTS
    } else {
        max_results
    }
}

/// What admitting a recall comes to.
pub open spec fn admits_recall(
    r: Result<(RecallRequest, bool), OpError>,
    req: RecallRequest,
) -> bool {
    match recall_error(req) {
        Some(e) => fails(r, e),
        None => r == Ok::<(RecallRequest, bool), OpError>(
            (
                RecallRequest {
                    max_results: effective_max(req.max_results),
                    include_text: true,
                    ..req
                },
                req.max_results != 0,
            ),
        ),
    }
}

/// Normalises a request: the bound is made effective, and text is always
/// returned. Also says whether the caller gave a count.
pub fn admit_recall(req: RecallRequest) -> (r: Result<(RecallRequest, bool), OpError>)
    ensures
        admits_recall(r, req),
{
    let asked = req.max_results != 0;
    let mut req = req;
    if req.max_results == 0 {
        req.max_results = DEFAULT_RECALL_RESULTS;
    }
    if req.max_results > MAX_RECALL_RESULTS {
        req.max_results = MAX_RECALL_RESULTS;
    }
    req.include_text = true;
    if let Some(v) = &req.session_filter {
        if v.len() > MAX_RECALL_FILTER_ENTRIES {
            return Err(invalid("recall: session_filter must have <= 1024 entries"));
        }
    }
    if let Some(v) = &req.kind_filter {
        if v.len() > MAX_RECALL_FILTER_ENTRIES {
            return Err(invalid("recall: kind_filter must have <= 1024 entries"));
        }
    }
    Ok((req, asked))
}

/// The bound of a cue without an exact key.
pub fn membership_ceiling(req: &RecallRequest) -> (r: u32)
    ensures
        r == effective_max(req.max_results),
{
    let cap: u32 = if req.max_results == 0 {
        DEFAULT_RECALL_RESULTS
    } else {
        req.max_results
    };
    if cap < MAX_RECALL_RESULTS {
        cap
    } else {
        MAX_RECALL_RESULTS
    }
}

/// The bound of a cue with an exact key.
pub open spec fn keyed_max(max_results: u32, client_requested_count: bool) -> u32 {
    if client_requested_count && max_results < MAX_RECALL_RESULTS {
        max_results
    } else {
        MAX_RECALL_RESULTS
    }
}

/// The bound of a cue with an exact key: the caller's count where one was
/// given, else only the ceiling.
pub fn keyed_membership_ceiling(req: &RecallRequest, client_requested_count: bool) -> (r: u32)
    ensures
        r == keyed_max(req.max_results, client_requested_count),
{
    if client_requested_count && req.max_results < MAX_RECALL_RESULTS {
        req.max_results
    } else {
        MAX_RECALL_RESULTS
    }
}

// The frame.

/// The shape of an answer: a committed shape if there is one, else by count.
pub open spec fn answer_shape(count: nat, committed: Option<AnswerShape>) -> AnswerShape {
    if count == 0 {
        AnswerShape::Nothing
    } else {
        match committed {
            Some(s) => s,
            None => if count == 1 {
                AnswerShape::Single
            } else {
                AnswerShape::Many
            },
        }
    }
}

/// A length as the wire counts it.
pub open spec fn wire_count(n: nat) -> u32 {
    if n > u32::MAX {
        u32::MAX
    } else {
        n as u32
    }
}

/// A length as the wire counts it.
pub fn count_u32(n: usize) -> (r: u32)
    ensures
        r == wire_count(n as nat),
{
    if n > u32::MAX as usize {
        u32::MAX
    } else {
        n as u32
    }
}

/// Whether a frame answers a recall.
pub open spec fn frames_recall(
    r: RecallResponseFrame,
    memories: Vec<MemoryResult>,
    committed_shape: Option<AnswerShape>,
    trace: Option<RecallTrace>,
) -> bool {
    r == (RecallResponseFrame {
        answer_kind: answer_shape(memories@.len(), committed_shape),
        memories,
        is_final: true,
        cumulative_count: wire_count(memories@.len()),
        estimated_remaining: None,
        trace,
    })
}

/// The response frame over the chosen memories.
pub fn recall_frame(
    memories: Vec<MemoryResult>,
    committed_shape: Option<AnswerShape>,
    trace: Option<RecallTrace>,
) -> (r: RecallResponseFrame)
    ensures
        frames_recall(r, memories, committed_shape, trace),
{
    let answer_kind = if memories.len() == 0 {
        AnswerShape::Nothing
    } else {
        match committed_shape {
            Some(s) => s,
            None => if memories.len() == 1 {
                AnswerShape::Single
            } else {
                AnswerShape::Many
            },
        }
    };
    let cumulative_count: u32 = count_u32(memories.len());
    RecallResponseFrame {
        answer_kind,
        memories,
        is_final: true,
        cumulative_count,
        estimated_remaining: None,
        trace,
    }
}

// Abstention.

/// What the anchor gate leaves of the members.
pub open spec fn abstains_without_anchor(
    r: Vec<MemoryResult>,
    members: Vec<MemoryResult>,
    anchor: Option<[u8; 16]>,
    grounded: GroundedOutcome,
    any_belongs: bool,
) -> bool {
    r@ == (if anchor is None && grounded is NoAnswer && !any_belongs {
        Seq::<MemoryResult>::empty()
    } else {
        members@
    })
}

/// Withholds the answer to a cue that named no subject, when nothing grounded
/// answers it and no member belongs.
pub fn apply_anchor_abstention(
    members: Vec<MemoryResult>,
    anchor: Option<[u8; 16]>,
    grounded: &GroundedOutcome,
    any_belongs: bool,
) -> (r: Vec<MemoryResult>)
    ensures
        abstains_without_anchor(r, members, anchor, *grounded, any_belongs),
{
    if anchor.is_some() {
        return members;
    }
    if let GroundedOutcome::Answer(_, _) = grounded {
        return members;
    }
    if any_belongs {
        members
    } else {
        Vec::new()
    }
}

/// What the kind gate leaves of the members.
pub open spec fn abstains_without_kind(
    r: Vec<MemoryResult>,
    members: Vec<MemoryResult>,
    anchor: Option<[u8; 16]>,
    grounded: GroundedOutcome,
    any_belongs: bool,
) -> bool {
    r@ == (if anchor is Some && grounded is NoAnswer && !any_belongs {
        Seq::<MemoryResult>::empty()
    } else {
        members@
    })
}

/// Withholds the answer to a cue that named a subject, when nothing grounded
/// answers it and no member belongs.
pub fn apply_kind_presence_abstention(
    members: Vec<MemoryResult>,
    anchor: Option<[u8; 16]>,
    grounded: &GroundedOutcome,
    any_belongs: bool,
) -> (r: Vec<MemoryResult>)
    ensures
        abstains_without_kind(r, members, anchor, *grounded, any_belongs),
{
    if anchor.is_none() {
        return members;
    }
    if let GroundedOutcome::Answer(_, _) = grounded {
        return members;
    }
    if any_belongs {
        members
    } else {
        Vec::new()
    }
}

/// Whether an answer is withheld: the read is outside a transaction, nothing
/// grounded answers, and no member belongs.
pub open spec fn abstains(in_txn: bool, grounded: GroundedOutcome, any_belongs: bool) -> bool {
    !in_txn && grounded is NoAnswer && !any_belongs
}

/// What both gates leave of the members.
pub open spec fn leaves_after_gates(
    r: Vec<MemoryResult>,
    members: Vec<MemoryResult>,
    in_txn: bool,
    anchor: Option<[u8; 16]>,
    grounded: GroundedOutcome,
    any_belongs: bool,
) -> bool {
    r@ == (if abstains(in_txn, grounded, any_belongs) {
        Seq::<MemoryResult>::empty()
    } else {
        members@
    })
}

/// Runs both abstention gates; a read inside a transaction is exempt.
pub fn abstain(
    members: Vec<MemoryResult>,
    in_txn: bool,
    anchor: Option<[u8; 16]>,
    grounded: &GroundedOutcome,
    any_belongs: bool,
) -> (r: Vec<MemoryResult>)
    ensures
        leaves_after_gates(r, members, in_txn, anchor, *grounded, any_belongs),
{
    if in_txn {
        return members;
    }
    let members = apply_anchor_abstention(members, anchor, grounded, any_belongs);
    apply_kind_presence_abstention(members, anchor, grounded, any_belongs)
}

// Consensus.

/// Whether the member at `i` has more lanes than any other, at least two.
pub open spec fn unique_consensus(members: Seq<MemoryResult>, i: int) -> bool {
    &&& 0 <= i < members.len()
    &&& members[i].contributing_retrievers@.len() >= 2
    &&& forall|j: int|
        #![trigger members[j]]
        0 <= j < members.len() && j != i ==> members[j].contributing_retrievers@.len()
            < members[i].contributing_retrievers@.len()
}

/// The set, or only its unique consensus where that is the top member.
pub open spec fn collapsed(members: Seq<MemoryResult>, top: Option<u128>) -> Seq<MemoryResult> {
    if exists|i: int|
        #[trigger] unique_consensus(members, i) && top == Some(members[i].memory_id) {
        let i = choose|i: int| #[trigger]
            unique_consensus(members, i) && top == Some(members[i].memory_id);
        seq![members[i]]
    } else {
        members
    }
}

/// Collapses the set to one member only when the unique multi-lane consensus
/// is also the top member; otherwise the set is unchanged.
pub fn consensus_collapse(out: Vec<MemoryResult>, top_member_id: Option<u128>) -> (r: Vec<
    MemoryResult,
>)
    ensures
        r@ == collapsed(out@, top_member_id),
{
    let ghost all = out@;
    let mut best: usize = 0;
    let mut most: usize = 0;
    let mut tied: bool = false;
    for i in 0..out.len()
        invariant
            all == out@,
            i > 0 ==> best < i && out@[best as int].contributing_retrievers@.len() == most,
            forall|j: int|
                #![trigger out@[j]]
                0 <= j < i ==> out@[j].contributing_retrievers@.len() <= most,
            i == 0 ==> !tied && most == 0,
            !tied ==> forall|j: int|
                #![trigger out@[j]]
                0 <= j < i && j != best ==> out@[j].contributing_retrievers@.len() < most,
            tied ==> exists|j: int|
                #![trigger out@[j]]
                0 <= j < i && j != best && out@[j].contributing_retrievers@.len() == most,
    {
        let n: usize = out[i].contributing_retrievers.len();
        if i == 0 || n > most {
            best = i;
            most = n;
            tied = false;
        } else if n == most {
            tied = true;
            assert(out@[i as int].contributing_retrievers@.len() == most);
        }
    }
    if out.len() == 0 || most < 2 || tied {
        proof {
            assert forall|i: int| !#[trigger] unique_consensus(all, i) by {
                if unique_consensus(all, i) {
                    if tied {
                        let j = choose|j: int|
                            #![trigger out@[j]]
                            0 <= j < out@.len() && j != best
                                && out@[j].contributing_retrievers@.len() == most;
                        if i != j {
                            assert(all[j].contributing_retrievers@.len()
                                < all[i].contributing_retrievers@.len());
                        } else {
                            assert(all[best as int].contributing_retrievers@.len()
                                < all[i].contributing_retrievers@.len());
                        }
                    }
                }
            }
        }
        return out;
    }
    assert(unique_consensus(all, best as int));
    assert forall|i: int| #[trigger] unique_consensus(all, i) implies i == best by {
        if i != best {
            assert(all[best as int].contributing_retrievers@.len()
                < all[i].contributing_retrievers@.len());
        }
    }
    let is_top = match top_member_id {
        Some(id) => id == out[best].memory_id,
        None => false,
    };
    if is_top {
        let mut out = out;
        let m = out.swap_remove(best);
        let mut one: Vec<MemoryResult> = Vec::new();
        one.push(m);
        assert(one@ =~= seq![all[best as int]]);
        return one;
    }
    out
}

// Support.

/// Whether a question-bridge score clears the strong bar.
pub open spec fn strong_hype(hype: Map<u128, Single>, id: u128) -> bool {
    hype.dom().contains(id) && (Single { bits: STRONG_BITS }).at_most(hype[id])
}

/// One for a signal that holds.
pub open spec fn unit(b: bool) -> u8 {
    if b {
        1
    } else {
        0
    }
}

/// How many independent lanes confirm a memory.
pub open spec fn support_count(
    id: u128,
    lanes: Seq<Lane>,
    strong_semantic: bool,
    grounded_sources: Set<u128>,
    hype: Map<u128, Single>,
) -> int {
    unit(strong_semantic) + unit(lanes.contains(Lane::Lexical)) + unit(lanes.contains(Lane::Graph))
        + unit(grounded_sources.contains(id)) + unit(strong_hype(hype, id))
}

/// Whether a lane is in a list.
pub fn has_lane(lanes: &[Lane], want: Lane) -> (r: bool)
    ensures
        r == lanes@.contains(want),
{
    for i in 0..lanes.len()
        invariant
            forall|j: int| 0 <= j < i ==> lanes@[j] != want,
    {
        if lanes[i] == want {
            return true;
        }
    }
    false
}

/// Whether a question-bridge score clears the strong bar; a memory without a
/// score has 0.
pub fn has_strong_hype(hype: &HashMap<u128, Single>, id: u128) -> (r: bool)
    ensures
        r == strong_hype(hype@, id),
{
    broadcast use vstd::std_specs::hash::group_hash_axioms;

    match hype.get(&id) {
        Some(s) => (Single { bits: STRONG_BITS }).is_at_most(*s),
        None => false,
    }
}

/// Counts the independent lanes that confirm a memory: a strong semantic
/// match, the lexical and graph lanes, the grounded answer, and a strong
/// question-bridge match.
pub fn support(
    id: u128,
    lanes: &[Lane],
    strong_semantic: bool,
    grounded_sources: &HashSet<u128>,
    hype: &HashMap<u128, Single>,
) -> (r: u8)
    ensures
        r == support_count(id, lanes@, strong_semantic, grounded_sources@, hype@),
{
    broadcast use vstd::std_specs::hash::group_hash_axioms;

    let mut n: u8 = 0;
    if strong_semantic {
        n = n + 1;
    }
    if has_lane(lanes, Lane::Lexical) {
        n = n + 1;
    }
    if has_lane(lanes, Lane::Graph) {
        n = n + 1;
    }
    if grounded_sources.contains(&id) {
        n = n + 1;
    }
    if has_strong_hype(hype, id) {
        n = n + 1;
    }
    n
}

/// A source that only the grounded answer names is not corroborated.
pub proof fn grounded_alone_is_not_corroborated(
    id: u128,
    lanes: Seq<Lane>,
    grounded_sources: Set<u128>,
    hype: Map<u128, Single>,
)
    requires
        !lanes.contains(Lane::Lexical),
        !lanes.contains(Lane::Graph),
        !strong_hype(hype, id),
    ensures
        support_count(id, lanes, false, grounded_sources, hype) < SUPPORT_CORROBORATED,
{
}

// Order by answer relevance.

/// The order key of a memory's question-bridge score; none counts as 0.
pub open spec fn hype_key(hype: Map<u128, Single>, id: u128) -> int {
    if hype.dom().contains(id) {
        hype[id].key()
    } else {
        0
    }
}

/// The order key of a member's cosine; without one, its similarity score.
pub open spec fn cosine_key(cos: Map<u128, Single>, m: MemoryResult) -> int {
    if cos.dom().contains(m.memory_id) {
        cos[m.memory_id].key()
    } else {
        m.similarity_score.positive_key()
    }
}

/// The key of answer relevance: the question bridge first, then the cosine.
pub open spec fn relevance_key(hype: Map<u128, Single>, cos: Map<u128, Single>) -> spec_fn(
    MemoryResult,
) -> int {
    |m: MemoryResult|
        hype_key(hype, m.memory_id) * 0x1_0000_0000_0000 + cosine_key(cos, m)
}

/// A member's question-bridge score; none counts as 0.
pub open spec fn hype_of(hype: Map<u128, Single>, id: u128) -> Single {
    if hype.dom().contains(id) {
        hype[id]
    } else {
        Single { bits: 0 }
    }
}

/// The lowest question-bridge score of some members.
pub open spec fn lowest_hype(members: Seq<MemoryResult>, hype: Map<u128, Single>) -> Single
    decreases members.len(),
{
    if members.len() == 0 {
        Single { bits: 0 }
    } else {
        let last = hype_of(hype, members.last().memory_id);
        if members.len() == 1 {
            last
        } else {
            let before = lowest_hype(members.drop_last(), hype);
            if last.key() < before.key() {
                last
            } else {
                before
            }
        }
    }
}

/// The highest question-bridge score of some members.
pub open spec fn highest_hype(members: Seq<MemoryResult>, hype: Map<u128, Single>) -> Single
    decreases members.len(),
{
    if members.len() == 0 {
        Single { bits: 0 }
    } else {
        let last = hype_of(hype, members.last().memory_id);
        if members.len() == 1 {
            last
        } else {
            let before = highest_hype(members.drop_last(), hype);
            if last.key() > before.key() {
                last
            } else {
                before
            }
        }
    }
}

/// Whether a closure decides every pair of scores one way.
pub open spec fn is_decision<F: Fn(Single, Single) -> bool>(f: F) -> bool {
    &&& forall|a: Single, b: Single| #[trigger] call_requires(f, (a, b))
    &&& forall|a: Single, b: Single, x: bool, y: bool| #[trigger]
        call_ensures(f, (a, b), x) && #[trigger] call_ensures(f, (a, b), y) ==> x == y
}

/// What a closure decides of a pair of scores.
pub open spec fn decided<F: Fn(Single, Single) -> bool>(f: F, a: Single, b: Single) -> bool {
    choose|x: bool| call_ensures(f, (a, b), x)
}

/// What a closure decides, as a function of the pair.
pub open spec fn decisions<F: Fn(Single, Single) -> bool>(f: F) -> spec_fn(Single, Single) -> bool {
    |a: Single, b: Single| decided(f, a, b)
}

/// Whether what a closure decides of a pair is what a call of it returns.
pub open spec fn returns_decision<F: Fn(Single, Single) -> bool>(
    f: F,
    a: Single,
    b: Single,
) -> bool {
    call_ensures(f, (a, b), decided(f, a, b))
}

/// Whether a closure was asked about the lowest and the highest
/// question-bridge score of members, where there are two to order.
pub open spec fn was_asked<F: Fn(Single, Single) -> bool>(
    flat: F,
    members: Seq<MemoryResult>,
    hype: Map<u128, Single>,
) -> bool {
    members.len() >= 2 ==> returns_decision(
        flat,
        lowest_hype(members, hype),
        highest_hype(members, hype),
    )
}

/// Members in the order of answer relevance, or as they were when the
/// question bridge does not tell them apart.
pub open spec fn answer_order(
    members: Seq<MemoryResult>,
    hype: Map<u128, Single>,
    cos: Map<u128, Single>,
    flat: spec_fn(Single, Single) -> bool,
) -> Seq<MemoryResult> {
    if members.len() < 2 || flat(lowest_hype(members, hype), highest_hype(members, hype)) {
        members
    } else {
        ranked_by(members, relevance_key(hype, cos))
    }
}

fn hype_single(hype: &HashMap<u128, Single>, id: u128) -> (r: Single)
    ensures
        r == hype_of(hype@, id),
        r.key() == hype_key(hype@, id),
{
    broadcast use vstd::std_specs::hash::group_hash_axioms;

    match hype.get(&id) {
        Some(s) => *s,
        None => Single { bits: 0 },
    }
}

fn relevance(
    m: &MemoryResult,
    hype: &HashMap<u128, Single>,
    cos: &HashMap<u128, Single>,
) -> (r: i128)
    ensures
        r == relevance_key(hype@, cos@)(*m),
{
    broadcast use vstd::std_specs::hash::group_hash_axioms;

    let h: i64 = hype_single(hype, m.memory_id).order_key();
    let c: i64 = match cos.get(&m.memory_id) {
        Some(s) => s.order_key(),
        None => m.similarity_score.positive_order_key(),
    };
    h as i128 * 0x1_0000_0000_0000 + c as i128
}

/// Orders members by answer relevance: the question-bridge score first, the
/// passage cosine second, ties as they came. `flat` says whether the lowest
/// and the highest question-bridge score are too close to tell apart; then
/// the incoming order stays.
pub fn order_by_answer_relevance<F: Fn(Single, Single) -> bool>(
    out: Vec<MemoryResult>,
    hype: &HashMap<u128, Single>,
    cos: &HashMap<u128, Single>,
    flat: &F,
) -> (r: Vec<MemoryResult>)
    requires
        is_decision(*flat),
    ensures
        r@ == answer_order(out@, hype@, cos@, decisions(*flat)),
        was_asked(*flat, out@, hype@),
{
    let ghost all = out@;
    if out.len() < 2 {
        return out;
    }
    let mut lo: Single = hype_single(hype, out[0].memory_id);
    let mut hi: Single = lo;
    assert(all.take(1).drop_last() =~= Seq::empty());
    for i in 1..out.len()
        invariant
            all == out@,
            1 <= i <= all.len(),
            lo == lowest_hype(all.take(i as int), hype@),
            hi == highest_hype(all.take(i as int), hype@),
    {
        let v = hype_single(hype, out[i].memory_id);
        assert(all.take(i + 1).drop_last() =~= all.take(i as int));
        if v.order_key() < lo.order_key() {
            lo = v;
        }
        if v.order_key() > hi.order_key() {
            hi = v;
        }
    }
    assert(all.take(all.len() as int) =~= all);
    let is_flat = flat(lo, hi);
    assert(returns_decision(*flat, lo, hi));
    if is_flat {
        return out;
    }
    let ghost key = relevance_key(hype@, cos@);
    let mut scored: Vec<(i128, MemoryResult)> = Vec::new();
    for m in it: out
        invariant
            it.seq() == all,
            key == relevance_key(hype@, cos@),
            scored@ == scored_by(all.take(it.index()), key),
    {
        let ghost n = it.index();
        let k: i128 = relevance(&m, hype, cos);
        scored.push((k, m));
        assert(scored_by(all.take(n + 1), key) =~= scored_by(all.take(n), key).push((k, m)));
    }
    take_items(rank(scored))
}

/// Ordering never changes which memories belong.
pub proof fn ordering_keeps_members(
    members: Seq<MemoryResult>,
    hype: Map<u128, Single>,
    cos: Map<u128, Single>,
    flat: spec_fn(Single, Single) -> bool,
)
    ensures
        answer_order(members, hype, cos, flat).to_multiset() == members.to_multiset(),
        answer_order(members, hype, cos, flat).len() == members.len(),
{
    ranked_by_keeps_items(members, relevance_key(hype, cos));
}

// The grounded commit.

/// The sources that lead an answer, in grounded order, and its shape.
#[derive(Debug)]
pub struct CommitLead {
    pub ids: Vec<u128>,
    pub shape: AnswerShape,
}

/// The distinct real source memories of some values, in order.
pub open spec fn distinct_sources(values: Seq<GroundedValue>) -> Seq<u128>
    decreases values.len(),
{
    if values.len() == 0 {
        Seq::empty()
    } else {
        let before = distinct_sources(values.drop_last());
        match values.last().source_memory {
            Some(id) if id != 0 && !before.contains(id) => before.push(id),
            _ => before,
        }
    }
}

/// The distinct real source memories of some values, in order.
pub fn sources_of(values: &Vec<GroundedValue>) -> (r: Vec<u128>)
    ensures
        r@ == distinct_sources(values@),
        r@.no_duplicates(),
        !r@.contains(0),
{
    let mut ids: Vec<u128> = Vec::new();
    for i in 0..values.len()
        invariant
            ids@ == distinct_sources(values@.take(i as int)),
            ids@.no_duplicates(),
            !ids@.contains(0),
    {
        assert(values@.take(i + 1).drop_last() =~= values@.take(i as int));
        if let Some(id) = values[i].source_memory {
            if id != 0 && !crate::bytes::has_u128(&ids, id) {
                let ghost before = ids@;
                ids.push(id);
                assert forall|x: u128| #[trigger] ids@.contains(x) implies x == id
                    || before.contains(x) by {
                    let k = choose|k: int| 0 <= k < ids@.len() && ids@[k] == x;
                    if k < before.len() {
                        assert(before[k] == x);
                    }
                }
            }
        }
    }
    assert(values@.take(values@.len() as int) =~= values@);
    ids
}

/// Whether a value's match is too weak to lead.
pub open spec fn weak_match(v: GroundedValue) -> bool {
    v.match_score.below(Single { bits: STRONG_BITS })
}

/// Whether a support count corroborates.
pub open spec fn corroborated(support_of: spec_fn(u128) -> u8, id: u128) -> bool {
    support_of(id) >= SUPPORT_CORROBORATED
}

/// Whether an answer is one value: a single, or a set with a lone member.
pub open spec fn is_lone(a: GroundedAnswer) -> bool {
    a.kind is Single || a.values@.len() == 1
}

/// The lead that a grounded outcome commits, if it commits one: its ids and
/// its shape. It must be about a named subject, match strongly, and have a
/// corroborated source.
pub open spec fn committed_lead(
    grounded: GroundedOutcome,
    support_of: spec_fn(u128) -> u8,
) -> Option<(Seq<u128>, AnswerShape)> {
    match grounded {
        GroundedOutcome::Answer(a, true) => if a.kind is Nothing || a.values@.len() == 0
            || weak_match(a.values@[0]) {
            None
        } else if is_lone(a) {
            match a.values@[0].source_memory {
                Some(id) if id != 0 && corroborated(support_of, id) => Some(
                    (seq![id], AnswerShape::Single),
                ),
                _ => None,
            }
        } else {
            let ids = distinct_sources(a.values@);
            if exists|k: int|
                #![trigger ids[k]]
                0 <= k < ids.len() && corroborated(support_of, ids[k]) {
                Some((ids, AnswerShape::Many))
            } else {
                None
            }
        },
        _ => None,
    }
}

/// Whether a closure computes this count of every id.
pub open spec fn counts<F: Fn(u128) -> u8>(f: F, count: spec_fn(u128) -> u8) -> bool {
    forall|id: u128, n: u8| #[trigger] call_ensures(f, (id,), n) ==> n == count(id)
}

/// Whether a lead is exactly the committed one.
pub open spec fn is_lead(lead: Option<CommitLead>, committed: Option<(Seq<u128>, AnswerShape)>) -> bool {
    match committed {
        Some((ids, shape)) => lead matches Some(l) && l.ids@ == ids && l.shape == shape,
        None => lead is None,
    }
}

/// Decides whether the grounded answer leads, and with which memories.
/// `support_of` counts the lanes that confirm a memory.
pub fn grounded_commit<F: Fn(u128) -> u8>(grounded: &GroundedOutcome, support_of: &F) -> (r: Option<
    CommitLead,
>)
    requires
        forall|id: u128| #[trigger] call_requires(*support_of, (id,)),
    ensures
        forall|count: spec_fn(u128) -> u8|
            counts(*support_of, count) ==> is_lead(r, #[trigger] committed_lead(*grounded, count)),
{
    let (a, anchor_scoped) = match grounded {
        GroundedOutcome::Answer(a, scoped) => (a, *scoped),
        GroundedOutcome::NoAnswer => {
            return None;
        },
    };
    if !anchor_scoped || a.values.len() == 0 {
        return None;
    }
    if a.values[0].match_score.is_below(Single { bits: STRONG_BITS }) {
        return None;
    }
    if a.kind == AnswerKind::Nothing {
        return None;
    }
    if a.kind == AnswerKind::Single || a.values.len() == 1 {
        let id: u128 = match a.values[0].source_memory {
            Some(id) => id,
            None => {
                return None;
            },
        };
        if id == 0 {
            return None;
        }
        let n: u8 = support_of(id);
        if n < SUPPORT_CORROBORATED {
            return None;
        }
        let mut ids: Vec<u128> = Vec::new();
        ids.push(id);
        assert(ids@ =~= seq![id]);
        return Some(CommitLead { ids, shape: AnswerShape::Single });
    }
    let ids = sources_of(&a.values);
    let ghost all = distinct_sources(a.values@);
    let mut found: bool = false;
    for k in 0..ids.len()
        invariant
            forall|id: u128| #[trigger] call_requires(*support_of, (id,)),
            ids@ == all,
            forall|count: spec_fn(u128) -> u8| #[trigger]
                counts(*support_of, count) ==> found == exists|j: int|
                    #![trigger all[j]]
                    0 <= j < k && corroborated(count, all[j]),
    {
        let id: u128 = ids[k];
        let n: u8 = support_of(id);
        let ghost was = found;
        if n >= SUPPORT_CORROBORATED {
            found = true;
        }
        assert forall|count: spec_fn(u128) -> u8| #[trigger]
            counts(*support_of, count) implies found == exists|j: int|
                #![trigger all[j]]
                0 <= j < k + 1 && corroborated(count, all[j]) by {
            assert(n == count(id));
            assert(all[k as int] == id);
            if was {
                let j = choose|j: int|
                    #![trigger all[j]]
                    0 <= j < k && corroborated(count, all[j]);
                assert(corroborated(count, all[j]));
            }
        }
    }
    if found {
        Some(CommitLead { ids, shape: AnswerShape::Many })
    } else {
        None
    }
}

/// The place of an id in a lead.
pub open spec fn place(ids: Seq<u128>, id: u128) -> int
    decreases ids.len(),
{
    if ids.len() == 0 || ids[0] == id {
        0
    } else {
        1 + place(ids.skip(1), id)
    }
}

/// The members that a lead names, in its order.
pub open spec fn leading(members: Seq<MemoryResult>, ids: Seq<u128>) -> Seq<MemoryResult> {
    ranked_by(
        members.filter(|m: MemoryResult| ids.contains(m.memory_id)),
        |m: MemoryResult| -place(ids, m.memory_id),
    )
}

/// The members that a lead does not name, as they came.
pub open spec fn trailing(members: Seq<MemoryResult>, ids: Seq<u128>) -> Seq<MemoryResult> {
    members.filter(|m: MemoryResult| !ids.contains(m.memory_id))
}

fn place_of(ids: &Vec<u128>, id: u128) -> (r: usize)
    requires
        ids@.contains(id),
    ensures
        r == place(ids@, id),
        r < ids@.len(),
{
    let mut i: usize = 0;
    assert(ids@.skip(0) =~= ids@);
    while i < ids.len()
        invariant
            i <= ids@.len(),
            ids@.contains(id),
            forall|j: int| 0 <= j < i ==> ids@[j] != id,
            place(ids@, id) == i + place(ids@.skip(i as int), id),
        decreases ids@.len() - i,
    {
        if ids[i] == id {
            return i;
        }
        assert(ids@.skip(i as int).skip(1) =~= ids@.skip(i + 1));
        i = i + 1;
    }
    i
}

/// Puts the lead first, in its order, and keeps every other member behind it
/// in the order of answer relevance.
pub fn apply_grounded_commit<F: Fn(Single, Single) -> bool>(
    out: Vec<MemoryResult>,
    lead: &CommitLead,
    hype: &HashMap<u128, Single>,
    cos: &HashMap<u128, Single>,
    flat: &F,
) -> (r: Vec<MemoryResult>)
    requires
        is_decision(*flat),
    ensures
        r@ == leading(out@, lead.ids@) + answer_order(
            trailing(out@, lead.ids@),
            hype@,
            cos@,
            decisions(*flat),
        ),
        was_asked(*flat, trailing(out@, lead.ids@), hype@),
{
    let ghost all = out@;
    let ghost ids = lead.ids@;
    let ghost named = |m: MemoryResult| ids.contains(m.memory_id);
    let ghost unnamed = |m: MemoryResult| !ids.contains(m.memory_id);
    let ghost key = |m: MemoryResult| -place(ids, m.memory_id);
    let mut leads: Vec<(i128, MemoryResult)> = Vec::new();
    let mut rest: Vec<MemoryResult> = Vec::new();
    assert(scored_by(all.take(0).filter(named), key) =~= Seq::empty()) by {
        reveal(Seq::filter);
    }
    assert(all.take(0).filter(unnamed) =~= Seq::empty()) by {
        reveal(Seq::filter);
    }
    for m in it: out
        invariant
            it.seq() == all,
            ids == lead.ids@,
            named == (|m: MemoryResult| ids.contains(m.memory_id)),
            unnamed == (|m: MemoryResult| !ids.contains(m.memory_id)),
            key == (|m: MemoryResult| -place(ids, m.memory_id)),
            leads@ == scored_by(all.take(it.index()).filter(named), key),
            rest@ == all.take(it.index()).filter(unnamed),
    {
        let ghost n = it.index();
        proof {
            assert(all.take(n + 1).drop_last() =~= all.take(n));
            assert(all.take(n + 1).last() == m);
            reveal(Seq::filter);
        }
        if crate::bytes::has_u128(&lead.ids, m.memory_id) {
            let p: usize = place_of(&lead.ids, m.memory_id);
            let ghost before = all.take(n).filter(named);
            let k: i128 = -(p as i128);
            leads.push((k, m));
            assert(scored_by(before.push(m), key) =~= scored_by(before, key).push((k, m)));
        } else {
            rest.push(m);
        }
    }
    assert(all.take(all.len() as int) =~= all);
    let mut result = take_items(rank(leads));
    let mut tail = order_by_answer_relevance(rest, hype, cos, flat);
    result.append(&mut tail);
    result
}

proof fn filter_splits(members: Seq<MemoryResult>, ids: Seq<u128>)
    ensures
        members.filter(|m: MemoryResult| ids.contains(m.memory_id)).to_multiset().add(
            trailing(members, ids).to_multiset(),
        ) == members.to_multiset(),
    decreases members.len(),
{
    broadcast use vstd::seq_lib::group_to_multiset_ensures;

    reveal(Seq::filter);
    let named = |m: MemoryResult| ids.contains(m.memory_id);
    let unnamed = |m: MemoryResult| !ids.contains(m.memory_id);
    if members.len() > 0 {
        let front = members.drop_last();
        filter_splits(front, ids);
        assert(members =~= front.push(members.last()));
        assert(members.filter(named).to_multiset().add(members.filter(unnamed).to_multiset())
            =~= members.to_multiset());
    } else {
        assert(members.filter(named) =~= Seq::empty());
        assert(members.filter(unnamed) =~= Seq::empty());
        assert(members =~= Seq::empty());
    }
}

/// A commit reorders and never drops: every member is still there.
pub proof fn commit_keeps_members(
    members: Seq<MemoryResult>,
    ids: Seq<u128>,
    hype: Map<u128, Single>,
    cos: Map<u128, Single>,
    flat: spec_fn(Single, Single) -> bool,
)
    ensures
        (leading(members, ids) + answer_order(trailing(members, ids), hype, cos, flat)).to_multiset()
            == members.to_multiset(),
{
    broadcast use vstd::seq_lib::group_to_multiset_ensures;

    let named = |m: MemoryResult| ids.contains(m.memory_id);
    ranked_by_keeps_items(
        members.filter(named),
        |m: MemoryResult| -place(ids, m.memory_id),
    );
    ordering_keeps_members(trailing(members, ids), hype, cos, flat);
    filter_splits(members, ids);
    let a = leading(members, ids);
    let b = answer_order(trailing(members, ids), hype, cos, flat);
    vstd::seq_lib::lemma_multiset_commutative(a, b);
}

/// An answer that is not about a named subject never leads.
pub proof fn unscoped_answers_never_lead(a: GroundedAnswer, support_of: spec_fn(u128) -> u8)
    ensures
        committed_lead(GroundedOutcome::Answer(a, false), support_of) is None,
        committed_lead(GroundedOutcome::NoAnswer, support_of) is None,
{
}

} // verus!
