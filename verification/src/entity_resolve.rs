//! Resolving a name to an entity, tier by tier.
use vstd::prelude::*;

use vstd::utf8::encode_utf8;

use crate::bytes::{copy_list, nil_id, zero_id};
use crate::error::{fails, invalid, ErrorView, OpError};
use crate::ranking::{items_of, rank, ranked};
use crate::scope::{in_caller_scope, RowScope};
use crate::single::{Single, ONE_BITS};
use crate::text::{blank, first_chars, is_blank, join3, take_chars};
use crate::write::{unexpected, unexpected_ack, Ack, Phase, PhaseAck, Write, WriteId};

verus! {

/// Least trigram overlap of a fuzzy match: 0.85.
pub const TRIGRAM_FLOOR_BITS: u32 = 0x3F59_999A;

/// Least cosine of an embedding match: 0.78.
pub const EMBEDDING_THRESHOLD_BITS: u32 = 0x3F47_AE14;

/// Most embedding matches that are considered.
pub const EMBEDDING_TOP_K: usize = 5;

/// How many neighbours are asked for, so that enough are left after foreign
/// ones are dropped.
pub const EMBEDDING_FETCH: usize = 20;

/// Longest candidate name, in bytes.
pub const CANDIDATE_NAME_MAX: usize = 256;

/// How much of the context is embedded with the name, in characters.
pub const CONTEXT_CHARS: usize = 100;

#[derive(Debug)]
pub struct EntityResolveRequest {
    pub candidate_name: String,
    pub entity_type_hint: u32,
    pub resolution_context: String,
    pub allow_create: bool,
    pub request_id: [u8; 16],
}

#[derive(Clone, Copy, Debug, PartialEq, Eq, Structural)]
pub enum ResolutionOutcome {
    Resolved,
    Ambiguous,
    Created,
    NotFound,
}

#[derive(Debug)]
pub struct EntityResolveResponse {
    pub outcome: ResolutionOutcome,
    pub tier: u8,
    pub confidence: Single,
    pub resolved_entity: [u8; 16],
    pub candidate_ids: Vec<[u8; 16]>,
    pub audit_id: [u8; 16],
}

/// A resolution as plain values.
pub struct Resolution {
    pub outcome: ResolutionOutcome,
    pub tier: u8,
    pub confidence: Single,
    pub resolved_entity: [u8; 16],
    pub candidate_ids: Seq<[u8; 16]>,
    pub audit_id: [u8; 16],
}

impl View for EntityResolveResponse {
    type V = Resolution;

    open spec fn view(&self) -> Resolution {
        Resolution {
            outcome: self.outcome,
            tier: self.tier,
            confidence: self.confidence,
            resolved_entity: self.resolved_entity,
            candidate_ids: self.candidate_ids@,
            audit_id: self.audit_id,
        }
    }
}

/// One entity, found by a tier.
pub open spec fn resolved_by(tier: u8, confidence: Single, id: [u8; 16]) -> Resolution {
    Resolution {
        outcome: ResolutionOutcome::Resolved,
        tier,
        confidence,
        resolved_entity: id,
        candidate_ids: Seq::empty(),
        audit_id: zero_id(),
    }
}

/// Several entities, found by a tier.
pub open spec fn ambiguous_by(tier: u8, confidence: Single, ids: Seq<[u8; 16]>) -> Resolution {
    Resolution {
        outcome: ResolutionOutcome::Ambiguous,
        tier,
        confidence,
        resolved_entity: zero_id(),
        candidate_ids: ids,
        audit_id: zero_id(),
    }
}

/// No entity.
pub open spec fn unresolved() -> Resolution {
    Resolution {
        outcome: ResolutionOutcome::NotFound,
        tier: 0,
        confidence: Single { bits: 0 },
        resolved_entity: zero_id(),
        candidate_ids: Seq::empty(),
        audit_id: zero_id(),
    }
}

/// A new entity.
pub open spec fn created_by(id: [u8; 16]) -> Resolution {
    Resolution {
        outcome: ResolutionOutcome::Created,
        tier: 5,
        confidence: Single { bits: ONE_BITS },
        resolved_entity: id,
        candidate_ids: Seq::empty(),
        audit_id: zero_id(),
    }
}

fn respond(
    outcome: ResolutionOutcome,
    tier: u8,
    confidence: Single,
    resolved_entity: [u8; 16],
    candidate_ids: Vec<[u8; 16]>,
) -> (r: EntityResolveResponse)
    ensures
        r@ == (Resolution {
            outcome,
            tier,
            confidence,
            resolved_entity,
            candidate_ids: candidate_ids@,
            audit_id: zero_id(),
        }),
{
    EntityResolveResponse {
        outcome,
        tier,
        confidence,
        resolved_entity,
        candidate_ids,
        audit_id: nil_id(),
    }
}

/// What a list of scored matches resolves to: nothing, the one match, or an
/// ambiguity led by the first.
pub open spec fn by_count(tier: u8, matches: Seq<([u8; 16], Single)>) -> Option<Resolution> {
    if matches.len() == 0 {
        None
    } else if matches.len() == 1 {
        Some(resolved_by(tier, matches[0].1, matches[0].0))
    } else {
        Some(ambiguous_by(tier, matches[0].1, matches.map_values(|m: ([u8; 16], Single)| m.0)))
    }
}

fn answer_by_count(tier: u8, matches: &Vec<([u8; 16], Single)>) -> (r: Option<
    EntityResolveResponse,
>)
    ensures
        match by_count(tier, matches@) {
            None => r is None,
            Some(v) => r matches Some(x) && x@ == v,
        },
{
    if matches.len() == 0 {
        return None;
    }
    let (first, confidence) = matches[0];
    if matches.len() == 1 {
        let r = respond(ResolutionOutcome::Resolved, tier, confidence, first, Vec::new());
        assert(r@.candidate_ids =~= Seq::empty());
        return Some(r);
    }
    let mut ids: Vec<[u8; 16]> = Vec::new();
    for i in 0..matches.len()
        invariant
            ids@.len() == i,
            forall|k: int| 0 <= k < i ==> ids@[k] == matches@[k].0,
    {
        ids.push(matches[i].0);
    }
    assert(ids@ =~= matches@.map_values(|m: ([u8; 16], Single)| m.0));
    Some(respond(ResolutionOutcome::Ambiguous, tier, confidence, nil_id(), ids))
}

// The request.

/// Why a resolution is refused, if it is.
pub open spec fn resolve_error(req: EntityResolveRequest) -> Option<ErrorView> {
    if blank(req.candidate_name@) {
        Some(ErrorView::InvalidRequest("candidate_name must be non-empty"@))
    } else if encode_utf8(req.candidate_name@).len() > CANDIDATE_NAME_MAX {
        Some(ErrorView::InvalidRequest("candidate_name exceeds 256 bytes"@))
    } else {
        None
    }
}

/// What a resolution needs next.
#[derive(Debug)]
pub enum ResolveNeed {
    /// Every entity of any type with exactly this name.
    AllTypes,
    /// The entity of the hinted type with exactly this name, and those with
    /// it as an alias.
    Exact,
    /// The entities that share trigrams with the name, with their overlap.
    Trigrams,
    /// The nearest entities to the embedding of a text, where there is an
    /// index.
    Embedding(String),
    /// A new entity.
    Create,
    /// Nothing: this is the answer.
    Answer(EntityResolveResponse),
}

/// A neighbour of the embedded name: its score, and its scope and type where
/// its row is there.
#[derive(Clone, Copy, Debug)]
pub struct EntityHit {
    pub id: [u8; 16],
    pub score: Single,
    pub row: Option<(RowScope, u32)>,
}

/// What was read for a need.
#[derive(Debug)]
pub enum ResolveRead {
    AllTypes(Vec<[u8; 16]>),
    Exact { canonical: Option<[u8; 16]>, aliases: Vec<[u8; 16]> },
    /// The trigram candidates; a missing row has no score.
    Trigrams(Vec<([u8; 16], Option<Single>)>),
    NoIndex,
    Embedding(Vec<EntityHit>),
    Created([u8; 16]),
}

/// A need as plain values.
pub enum Need {
    AllTypes,
    Exact,
    Trigrams,
    Embedding(Seq<char>),
    Create,
    Answer(Resolution),
}

impl View for ResolveNeed {
    type V = Need;

    open spec fn view(&self) -> Need {
        match *self {
            ResolveNeed::AllTypes => Need::AllTypes,
            ResolveNeed::Exact => Need::Exact,
            ResolveNeed::Trigrams => Need::Trigrams,
            ResolveNeed::Embedding(s) => Need::Embedding(s@),
            ResolveNeed::Create => Need::Create,
            ResolveNeed::Answer(r) => Need::Answer(r@),
        }
    }
}

/// What a resolution starts with.
pub open spec fn starts_resolution(
    r: Result<ResolveNeed, OpError>,
    req: EntityResolveRequest,
) -> bool {
    match resolve_error(req) {
        Some(e) => fails(r, e),
        None => r matches Ok(n) && n@ == (if req.entity_type_hint == 0 {
            Need::AllTypes
        } else {
            Need::Exact
        }),
    }
}

/// Starts a resolution: without a type hint by exact name over all types,
/// with one by the tiers of that type.
pub fn resolve_start(req: &EntityResolveRequest) -> (r: Result<ResolveNeed, OpError>)
    ensures
        starts_resolution(r, *req),
{
    if is_blank(&req.candidate_name) {
        return Err(invalid("candidate_name must be non-empty"));
    }
    if req.candidate_name.as_str().as_bytes().len() > CANDIDATE_NAME_MAX {
        return Err(invalid("candidate_name exceeds 256 bytes"));
    }
    if req.entity_type_hint == 0 {
        Ok(ResolveNeed::AllTypes)
    } else {
        Ok(ResolveNeed::Exact)
    }
}

// The tiers.

/// What exact matches over all types resolve to.
pub open spec fn any_type(ids: Seq<[u8; 16]>) -> Resolution {
    if ids.len() == 0 {
        unresolved()
    } else if ids.len() == 1 {
        resolved_by(1, Single { bits: ONE_BITS }, ids[0])
    } else {
        ambiguous_by(1, Single { bits: ONE_BITS }, ids)
    }
}

/// What exact matches of the hinted type resolve to: the name itself first,
/// then an alias that only one entity has.
pub open spec fn exact(canonical: Option<[u8; 16]>, aliases: Seq<[u8; 16]>) -> Option<Resolution> {
    match canonical {
        Some(id) => Some(resolved_by(1, Single { bits: ONE_BITS }, id)),
        None => if aliases.len() == 1 {
            Some(resolved_by(1, Single { bits: ONE_BITS }, aliases[0]))
        } else {
            None
        },
    }
}

/// Whether a trigram candidate is close enough.
pub open spec fn close_enough(c: ([u8; 16], Option<Single>)) -> bool {
    c.1 matches Some(s) && (Single { bits: TRIGRAM_FLOOR_BITS }).at_most(s)
}

/// The close candidates with their scores as order keys.
pub open spec fn close_matches(cands: Seq<([u8; 16], Option<Single>)>) -> Seq<
    (i128, ([u8; 16], Single)),
>
    decreases cands.len(),
{
    if cands.len() == 0 {
        Seq::empty()
    } else {
        let front = close_matches(cands.drop_last());
        let c = cands.last();
        if close_enough(c) {
            front.push((c.1->0.key() as i128, (c.0, c.1->0)))
        } else {
            front
        }
    }
}

/// What trigram candidates resolve to: the close ones, best first.
pub open spec fn fuzzy(cands: Seq<([u8; 16], Option<Single>)>) -> Option<Resolution> {
    by_count(2, items_of(ranked(close_matches(cands))))
}

/// Whether a neighbour may match: near enough, its row there, of the
/// caller's tenant and of the hinted type.
pub open spec fn may_match(h: EntityHit, caller: RowScope, type_hint: u32) -> bool {
    &&& !h.score.below(Single { bits: EMBEDDING_THRESHOLD_BITS })
    &&& h.row matches Some(row) && row.0 == caller && (type_hint == 0 || row.1 == type_hint)
}

/// The first neighbours that may match.
pub open spec fn nearby(hits: Seq<EntityHit>, caller: RowScope, type_hint: u32) -> Seq<
    ([u8; 16], Single),
>
    decreases hits.len(),
{
    if hits.len() == 0 {
        Seq::empty()
    } else {
        let front = nearby(hits.drop_last(), caller, type_hint);
        let h = hits.last();
        if front.len() < EMBEDDING_TOP_K && may_match(h, caller, type_hint) {
            front.push((h.id, h.score))
        } else {
            front
        }
    }
}

/// The text that is embedded: the name and the head of its context.
pub open spec fn embedded_text(req: EntityResolveRequest) -> Seq<char> {
    if req.resolution_context@.len() == 0 {
        req.candidate_name@
    } else {
        req.candidate_name@ + " "@ + first_chars(req.resolution_context@, CONTEXT_CHARS as nat)
    }
}

/// What follows when no tier matched.
pub open spec fn unmatched(req: EntityResolveRequest) -> Need {
    if req.allow_create {
        Need::Create
    } else {
        Need::Answer(unresolved())
    }
}

/// What a resolution needs after a read.
pub open spec fn next_need(req: EntityResolveRequest, caller: RowScope, read: ResolveRead) -> Need {
    match read {
        ResolveRead::AllTypes(ids) => Need::Answer(any_type(ids@)),
        ResolveRead::Exact { canonical, aliases } => match exact(canonical, aliases@) {
            Some(r) => Need::Answer(r),
            None => Need::Trigrams,
        },
        ResolveRead::Trigrams(cands) => match fuzzy(cands@) {
            Some(r) => Need::Answer(r),
            None => Need::Embedding(embedded_text(req)),
        },
        ResolveRead::NoIndex => unmatched(req),
        ResolveRead::Embedding(hits) => match by_count(
            3,
            nearby(hits@, caller, req.entity_type_hint),
        ) {
            Some(r) => Need::Answer(r),
            None => unmatched(req),
        },
        ResolveRead::Created(id) => Need::Answer(created_by(id)),
    }
}

fn resolve_any_type(ids: &Vec<[u8; 16]>) -> (r: EntityResolveResponse)
    ensures
        r@ == any_type(ids@),
{
    let sure = Single { bits: ONE_BITS };
    let r = if ids.len() == 0 {
        respond(ResolutionOutcome::NotFound, 0, Single { bits: 0 }, nil_id(), Vec::new())
    } else if ids.len() == 1 {
        respond(ResolutionOutcome::Resolved, 1, sure, ids[0], Vec::new())
    } else {
        respond(ResolutionOutcome::Ambiguous, 1, sure, nil_id(), copy_list(ids))
    };
    assert(r@.candidate_ids =~= any_type(ids@).candidate_ids);
    r
}

fn resolve_exact(canonical: Option<[u8; 16]>, aliases: &Vec<[u8; 16]>) -> (r: Option<
    EntityResolveResponse,
>)
    ensures
        match exact(canonical, aliases@) {
            None => r is None,
            Some(v) => r matches Some(x) && x@ == v,
        },
{
    let found = match canonical {
        Some(id) => Some(id),
        None => if aliases.len() == 1 {
            Some(aliases[0])
        } else {
            None
        },
    };
    match found {
        Some(id) => {
            let r = respond(
                ResolutionOutcome::Resolved,
                1,
                Single { bits: ONE_BITS },
                id,
                Vec::new(),
            );
            assert(r@.candidate_ids =~= Seq::empty());
            Some(r)
        },
        None => None,
    }
}

fn resolve_trigrams(cands: &Vec<([u8; 16], Option<Single>)>) -> (r: Option<EntityResolveResponse>)
    ensures
        match fuzzy(cands@) {
            None => r is None,
            Some(v) => r matches Some(x) && x@ == v,
        },
{
    let floor = Single { bits: TRIGRAM_FLOOR_BITS };
    let mut scored: Vec<(i128, ([u8; 16], Single))> = Vec::new();
    for i in 0..cands.len()
        invariant
            floor == (Single { bits: TRIGRAM_FLOOR_BITS }),
            scored@ == close_matches(cands@.take(i as int)),
    {
        assert(cands@.take(i + 1).drop_last() =~= cands@.take(i as int));
        let (id, score) = cands[i];
        match score {
            Some(s) => {
                if floor.is_at_most(s) {
                    scored.push((s.order_key() as i128, (id, s)));
                }
            },
            None => {},
        }
    }
    assert(cands@.take(cands@.len() as int) =~= cands@);
    let best = crate::ranking::take_items(rank(scored));
    answer_by_count(2, &best)
}

fn resolve_via_embedding(hits: &Vec<EntityHit>, caller: &RowScope, type_hint: u32) -> (r: Option<
    EntityResolveResponse,
>)
    ensures
        match by_count(3, nearby(hits@, *caller, type_hint)) {
            None => r is None,
            Some(v) => r matches Some(x) && x@ == v,
        },
{
    let mut near: Vec<([u8; 16], Single)> = Vec::new();
    for i in 0..hits.len()
        invariant
            near@ == nearby(hits@.take(i as int), *caller, type_hint),
    {
        assert(hits@.take(i + 1).drop_last() =~= hits@.take(i as int));
        let h = &hits[i];
        let fits = match h.row {
            Some((owner, ty)) => in_caller_scope(Some(owner), caller) && (type_hint == 0 || ty
                == type_hint),
            None => false,
        };
        if near.len() < EMBEDDING_TOP_K && fits && !h.score.is_below(
            Single { bits: EMBEDDING_THRESHOLD_BITS },
        ) {
            near.push((h.id, h.score));
        }
    }
    assert(hits@.take(hits@.len() as int) =~= hits@);
    answer_by_count(3, &near)
}

/// The text to embed for a name.
pub fn embedding_text(req: &EntityResolveRequest) -> (r: String)
    ensures
        r@ == embedded_text(*req),
{
    if req.resolution_context.as_str().is_empty() {
        return req.candidate_name.clone();
    }
    let head = take_chars(&req.resolution_context, CONTEXT_CHARS);
    join3(&req.candidate_name, " ", &head)
}

fn resolve_unmatched(req: &EntityResolveRequest) -> (r: ResolveNeed)
    ensures
        r@ == unmatched(*req),
{
    if req.allow_create {
        ResolveNeed::Create
    } else {
        let none = respond(
            ResolutionOutcome::NotFound,
            0,
            Single { bits: 0 },
            nil_id(),
            Vec::new(),
        );
        assert(none@.candidate_ids =~= Seq::empty());
        ResolveNeed::Answer(none)
    }
}

/// Goes on after a read: answers at the first tier that matches, and asks for
/// the next one where none has.
pub fn resolve_next(req: &EntityResolveRequest, caller: &RowScope, read: &ResolveRead) -> (r:
    ResolveNeed)
    ensures
        r@ == next_need(*req, *caller, *read),
{
    match read {
        ResolveRead::AllTypes(ids) => ResolveNeed::Answer(resolve_any_type(ids)),
        ResolveRead::Exact { canonical, aliases } => match resolve_exact(*canonical, aliases) {
            Some(a) => ResolveNeed::Answer(a),
            None => ResolveNeed::Trigrams,
        },
        ResolveRead::Trigrams(cands) => match resolve_trigrams(cands) {
            Some(a) => ResolveNeed::Answer(a),
            None => ResolveNeed::Embedding(embedding_text(req)),
        },
        ResolveRead::NoIndex => resolve_unmatched(req),
        ResolveRead::Embedding(hits) => match resolve_via_embedding(
            hits,
            caller,
            req.entity_type_hint,
        ) {
            Some(a) => ResolveNeed::Answer(a),
            None => resolve_unmatched(req),
        },
        ResolveRead::Created(id) => {
            let made = respond(
                ResolutionOutcome::Created,
                5,
                Single { bits: ONE_BITS },
                *id,
                Vec::new(),
            );
            assert(made@.candidate_ids =~= Seq::empty());
            ResolveNeed::Answer(made)
        },
    }
}

// The create fallback.

/// The write of the entity that an unresolved name becomes.
pub open spec fn plans_fallback(
    r: Write,
    req: EntityResolveRequest,
    normalized: String,
    caller: RowScope,
    now: u64,
    id: [u8; 16],
) -> bool {
    &&& r.write_id == (WriteId::Request {
        request_id: req.request_id,
        space_id: caller.space_id_bytes,
    })
    &&& r.space_id == caller.space_id_bytes
    &&& r.namespace_id == Some(caller.namespace_id)
    &&& r.space_string is None
    &&& r.request_hash is None
    &&& r.phase matches Phase::UpsertEntity {
        id: new_id,
        ty,
        session,
        canonical,
        normalized: norm,
        aliases,
        attributes,
        created_at_unix_nanos,
    } && {
        &&& new_id == id
        &&& ty == req.entity_type_hint
        &&& session == 0
        &&& canonical@ == req.candidate_name@
        &&& norm == normalized
        &&& aliases@.len() == 0
        &&& attributes@.len() == 0
        &&& created_at_unix_nanos == now
    }
}

/// Plans the entity that an unresolved name becomes: of the hinted type, with
/// no aliases or attributes, remembered under the request id. `normalized` is
/// the name's normal form.
pub fn plan_fallback_entity(
    req: &EntityResolveRequest,
    normalized: String,
    caller: &RowScope,
    now: u64,
    id: [u8; 16],
) -> (r: Write)
    ensures
        plans_fallback(r, *req, normalized, *caller, now, id),
{
    Write {
        write_id: WriteId::Request { request_id: req.request_id, space_id: caller.space_id_bytes },
        space_id: caller.space_id_bytes,
        namespace_id: Some(caller.namespace_id),
        space_string: None,
        request_hash: None,
        phase: Phase::UpsertEntity {
            id,
            ty: req.entity_type_hint,
            session: 0,
            canonical: req.candidate_name.clone(),
            normalized,
            aliases: Vec::new(),
            attributes: Vec::new(),
            created_at_unix_nanos: now,
        },
    }
}

/// What the acknowledgement of a fallback entity says.
pub open spec fn reads_fallback(
    r: Result<[u8; 16], OpError>,
    ack: Ack,
) -> bool {
    match ack.phase {
        PhaseAck::UpsertedEntity(id) => r == Ok::<[u8; 16], OpError>(id),
        _ => fails(
            r,
            unexpected_ack("unexpected phase ack for resolver create-fallback: "@, ack.shown@),
        ),
    }
}

/// The id of the fallback entity, from its acknowledgement.
pub fn fallback_entity_id(ack: &Ack) -> (r: Result<[u8; 16], OpError>)
    ensures
        reads_fallback(r, *ack),
{
    match &ack.phase {
        PhaseAck::UpsertedEntity(id) => Ok(*id),
        _ => Err(unexpected("unexpected phase ack for resolver create-fallback: ", &ack.shown)),
    }
}

// What holds of every resolution.

/// Whether a match list comes from neighbours that may match.
pub open spec fn vouched(
    m: ([u8; 16], Single),
    hits: Seq<EntityHit>,
    caller: RowScope,
    type_hint: u32,
) -> bool {
    exists|k: int|
        #![trigger hits[k]]
        0 <= k < hits.len() && hits[k].id == m.0 && hits[k].score == m.1 && may_match(
            hits[k],
            caller,
            type_hint,
        )
}

/// The embedding tier considers only entities of the caller's tenant and of
/// the hinted type, and at most a handful of them.
pub proof fn embedding_stays_in_scope(hits: Seq<EntityHit>, caller: RowScope, type_hint: u32)
    ensures
        nearby(hits, caller, type_hint).len() <= EMBEDDING_TOP_K,
        forall|i: int|
            0 <= i < nearby(hits, caller, type_hint).len() ==> vouched(
                #[trigger] nearby(hits, caller, type_hint)[i],
                hits,
                caller,
                type_hint,
            ),
    decreases hits.len(),
{
    if hits.len() > 0 {
        let before = hits.drop_last();
        embedding_stays_in_scope(before, caller, type_hint);
        let near = nearby(hits, caller, type_hint);
        let front = nearby(before, caller, type_hint);
        assert forall|i: int| 0 <= i < near.len() implies vouched(
            #[trigger] near[i],
            hits,
            caller,
            type_hint,
        ) by {
            if i < front.len() {
                assert(near[i] == front[i]);
                assert(vouched(front[i], before, caller, type_hint));
                let k = choose|k: int|
                    #![trigger before[k]]
                    0 <= k < before.len() && before[k].id == front[i].0 && before[k].score
                        == front[i].1 && may_match(before[k], caller, type_hint);
                assert(hits[k] == before[k]);
            } else {
                assert(hits[hits.len() - 1] == hits.last());
            }
        }
    }
}

/// A resolution names one entity or lists several, never both: an ambiguous
/// one lists at least two, and only a resolved or created one names an entity.
pub proof fn answers_are_unambiguous(req: EntityResolveRequest, caller: RowScope, read: ResolveRead)
    ensures
        next_need(req, caller, read) matches Need::Answer(r) ==> match r.outcome {
            ResolutionOutcome::Ambiguous => r.candidate_ids.len() >= 2 && r.resolved_entity
                == zero_id(),
            ResolutionOutcome::NotFound => r == unresolved(),
            _ => r.candidate_ids.len() == 0,
        },
{
}

/// An entity is created only where creation is allowed.
pub proof fn creation_is_opt_in(req: EntityResolveRequest, caller: RowScope, read: ResolveRead)
    ensures
        next_need(req, caller, read) is Create ==> req.allow_create,
{
}

} // verus!
