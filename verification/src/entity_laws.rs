//! What the entity operations store and answer, and which entity a name is
//! resolved to.
use vstd::prelude::*;

use vstd::utf8::encode_utf8;

use crate::cursor::{cursor_bytes, cursor_round_trip, owned_by, well_formed};
use crate::entity::Entity;
use crate::entity_ops::{
    announces_entity, announces_unmerge, answers_entity_merge, answers_entity_rename,
    answers_entity_tombstone, answers_entity_update, plans_entity_create, plans_entity_list,
    plans_entity_merge, plans_entity_rename, plans_entity_tombstone, plans_entity_unmerge,
    plans_entity_update, reads_entity, shows_entity, shows_entity_page, EntityCreateRequest,
    EntityGetResponse, EntityListRequest, EntityListResponseFrame, EntityMergeRequest,
    EntityMergeResponse, EntityPage, EntityRenameRequest, EntityTombstoneRequest,
    EntityUnmergeRequest, EntityUpdateRequest, EntityView, EntityWalk,
};
use crate::entity_resolve::{
    close_enough, close_matches, embedded_text, may_match, nearby, next_need, plans_fallback,
    reads_fallback, starts_resolution, EntityHit, EntityResolveRequest, Need, ResolveNeed,
    ResolveRead,
};
use crate::error::OpError;
use crate::events::{
    EntityCreatedEvent, EntityMergedEvent, EntityRenamedEvent, EntityTombstonedEvent,
    EntityUnmergedEvent, EntityUpdatedEvent,
};
use crate::ranking::{items_of, ranked, ranking_is_sorted};
use crate::scope::RowScope;
use crate::single::Single;
use crate::text::blank;
use crate::write::{Ack, Phase, PhaseAck, TombstoneTarget, Write, WriteId};

verus! {

/// Whether a write is filed for a caller: in the caller's own space and
/// namespace, remembered under the request id, with a digest.
pub open spec fn filed_for(w: Write, request_id: [u8; 16], caller: RowScope) -> bool {
    &&& (w.space_id, w.namespace_id) == (caller.space_id_bytes, Some(caller.namespace_id))
    &&& w.write_id == (WriteId::Request { request_id, space_id: caller.space_id_bytes })
    &&& w.request_hash is Some
    &&& w.space_string is None
}

/// A new entity is stored under its fresh id with the type, the names, the
/// attributes and the session of the request; only a blank name or too many
/// aliases are refused.
pub proof fn new_entities_hold_the_request(
    r: Result<Write, OpError>,
    req: EntityCreateRequest,
    normalized: String,
    caller: RowScope,
    now: u64,
    id: [u8; 16],
)
    requires
        plans_entity_create(r, req, normalized, caller, now, id),
    ensures
        r is Ok <==> !blank(req.canonical_name@) && req.aliases@.len() <= 256,
        r matches Err(e) ==> e is InvalidRequest,
        r matches Ok(w) ==> filed_for(w, req.request_id, caller) && (
        w.phase matches Phase::UpsertEntity {
            id: stored,
            ty,
            session,
            canonical,
            normalized: norm,
            aliases,
            attributes,
            created_at_unix_nanos,
        } && (stored, ty, session) == (id, req.entity_type_id, req.session_id) && (
            canonical@,
            norm@,
        ) == (req.canonical_name@, normalized@) && aliases@ == req.aliases@ && attributes@
            == req.attributes_blob@ && created_at_unix_nanos == now),
{
}

/// A creation is announced with the acknowledged id, so that a replay names the
/// entity that the first call made.
pub proof fn creations_announce_the_stored_entity(
    r: Result<EntityCreatedEvent, OpError>,
    req: EntityCreateRequest,
    ack: Ack,
)
    requires
        announces_entity(r, req, ack),
    ensures
        r is Ok <==> ack.phase is UpsertedEntity,
        r matches Ok(e) ==> ack.phase == PhaseAck::UpsertedEntity(e.entity_id) && (
            e.entity_type_id,
            e.canonical_name@,
        ) == (req.entity_type_id, req.canonical_name@),
{
}

/// A view shows the entity that it is of.
pub proof fn views_show_their_entity(v: EntityView, e: Entity)
    requires
        shows_entity(v, e),
    ensures
        (v.entity_id, v.entity_type_id) == (e.id, e.entity_type),
        (v.canonical_name@, v.normalized_name@) == (e.canonical_name@, e.normalized_name@),
        v.aliases@ == e.aliases@ && v.attributes_blob@ == e.attributes@,
        (v.mention_count, v.embedding_version, v.flags) == (
            e.mention_count,
            e.embedding_version,
            e.flags,
        ),
        (v.created_at_unix_nanos, v.updated_at_unix_nanos) == (
            e.created_at_unix_nanos,
            e.updated_at_unix_nanos,
        ),
        e.merged_into matches Some(id) ==> v.merged_into == id,
        e.merged_into is None ==> v.merged_into@ == Seq::new(16, |i: int| 0u8),
{
    crate::bytes::zero_id_is_zero();
    assert(crate::bytes::zero16() =~= Seq::new(16, |i: int| 0u8));
}

/// An entity is read by its own tenant alone, and as the one that survives.
pub proof fn entities_are_read_by_their_owner(
    r: Result<EntityGetResponse, OpError>,
    resolved: Option<(Entity, Vec<[u8; 16]>)>,
    owner: Option<RowScope>,
    caller: RowScope,
    shown: Seq<char>,
)
    requires
        reads_entity(r, resolved, owner, caller, shown),
    ensures
        r is Ok <==> resolved is Some && owner == Some(caller),
        r matches Err(e) ==> e is NotFound,
        r matches Ok(out) ==> (resolved matches Some((e, chain)) && shows_entity(out.entity, e)
            && out.resolved_from@ == chain@),
{
}

/// An update changes the entity it names, to what the request says, for its
/// owner alone.
pub proof fn updates_hold_the_request(
    r: Result<Write, OpError>,
    req: EntityUpdateRequest,
    owner: Option<RowScope>,
    caller: RowScope,
    shown: Seq<char>,
    now: u64,
)
    requires
        plans_entity_update(r, req, owner, caller, shown, now),
    ensures
        r is Ok <==> !blank(req.canonical_name@) && req.aliases@.len() <= 256 && owner == Some(
            caller,
        ),
        r matches Ok(w) ==> filed_for(w, req.request_id, caller) && (
        w.phase matches Phase::UpdateEntity {
            id,
            canonical_name,
            aliases,
            attributes_blob,
            at_unix_nanos,
        } && (id, canonical_name@, at_unix_nanos) == (req.entity_id, req.canonical_name@, now)
            && aliases@ == req.aliases@ && attributes_blob@ == req.attributes_blob@),
{
}

/// An update is answered with the stored row and announced for the entity that
/// the request names.
pub proof fn updates_answer_the_stored_row(
    r: Result<(EntityView, EntityUpdatedEvent), OpError>,
    req: EntityUpdateRequest,
    ack: Ack,
)
    requires
        answers_entity_update(r, req, ack),
    ensures
        r is Ok <==> ack.phase is EntityUpdated,
        r matches Ok(out) ==> (ack.phase matches PhaseAck::EntityUpdated { snapshot } && {
            &&& shows_entity(out.0, snapshot)
            &&& (out.1.entity_id, out.1.entity_type_id, out.1.canonical_name@) == (
                req.entity_id,
                snapshot.entity_type,
                snapshot.canonical_name@,
            )
            &&& out.1.embedding_version_changed <==> snapshot.embedding_version != 0
        }),
{
}

/// A rename gives the entity it names the new name, for its owner alone, and
/// only where the old name is kept as an alias.
pub proof fn renames_hold_the_request(
    r: Result<Write, OpError>,
    req: EntityRenameRequest,
    owner: Option<RowScope>,
    caller: RowScope,
    shown: Seq<char>,
    now: u64,
)
    requires
        plans_entity_rename(r, req, owner, caller, shown, now),
    ensures
        r is Ok <==> !blank(req.new_canonical_name@) && req.move_to_alias && owner == Some(caller),
        r matches Ok(w) ==> filed_for(w, req.request_id, caller) && (
        w.phase matches Phase::RenameEntity { id, new_canonical_name, at_unix_nanos } && (
            id,
            new_canonical_name@,
            at_unix_nanos,
        ) == (req.entity_id, req.new_canonical_name@, now)),
{
}

/// A rename is answered with the stored row and announced with both names.
pub proof fn renames_answer_both_names(
    r: Result<(EntityView, EntityRenamedEvent), OpError>,
    req: EntityRenameRequest,
    ack: Ack,
)
    requires
        answers_entity_rename(r, req, ack),
    ensures
        r is Ok <==> ack.phase is EntityRenamed,
        r matches Ok(out) ==> (ack.phase matches PhaseAck::EntityRenamed {
            old_canonical_name,
            snapshot,
        } && {
            &&& shows_entity(out.0, snapshot)
            &&& (out.1.entity_id, out.1.old_moved_to_alias) == (req.entity_id, req.move_to_alias)
            &&& out.1.old_canonical_name@ == old_canonical_name@
            &&& out.1.new_canonical_name@ == req.new_canonical_name@
        }),
{
}

/// A merge folds the merged entity into the survivor, never the other way, and
/// only for the owner of both. Undoing it names the entity that was merged.
pub proof fn merges_fold_into_the_survivor(
    r: Result<Write, OpError>,
    req: EntityMergeRequest,
    survivor_owner: Option<RowScope>,
    merged_owner: Option<RowScope>,
    caller: RowScope,
    survivor: Seq<char>,
    merged: Seq<char>,
    now: u64,
    undo: EntityUnmergeRequest,
    undone: Result<Write, OpError>,
    undo_owner: Option<RowScope>,
    later: u64,
)
    requires
        plans_entity_merge(r, req, survivor_owner, merged_owner, caller, survivor, merged, now),
        plans_entity_unmerge(undone, undo, undo_owner, caller, merged, later),
    ensures
        r is Ok <==> encode_utf8(req.reason@).len() <= 4096 && survivor_owner == Some(caller)
            && merged_owner == Some(caller),
        r matches Ok(w) ==> filed_for(w, req.request_id, caller) && (
        w.phase matches Phase::MergeEntities {
            source,
            target,
            retain_aliases,
            retain_attributes,
            at_unix_nanos,
            confidence,
            reason,
            actor_space,
            grace_seconds,
        } && (source, target) == (req.merged, req.survivor) && retain_aliases && retain_attributes
            && (at_unix_nanos, confidence, reason@) == (now, req.confidence, req.reason@) && (
            actor_space,
            grace_seconds,
        ) == (caller.space_id_bytes, 604_800u64)),
        undone is Ok <==> undo_owner == Some(caller),
        undone matches Ok(w) ==> filed_for(w, undo.request_id, caller) && (
        w.phase matches Phase::UnmergeEntities { merged: back, actor_space, at_unix_nanos } && (
            back,
            actor_space,
            at_unix_nanos,
        ) == (undo.merged_entity, caller.space_id_bytes, later)),
        r is Ok && undone is Ok && undo.merged_entity == req.merged ==> (
        r->Ok_0.phase matches Phase::MergeEntities { source, .. } && (
        undone->Ok_0.phase matches Phase::UnmergeEntities { merged: back, .. } && back == source)),
{
}

/// A merge is answered with its audit id and the time in which it can be
/// undone, and announced for both ends; an undone one names whom it came from.
pub proof fn merges_answer_both_ends(
    r: Result<(EntityMergeResponse, EntityMergedEvent), OpError>,
    req: EntityMergeRequest,
    ack: Ack,
    undone: Result<EntityUnmergedEvent, OpError>,
    undo: EntityUnmergeRequest,
    undo_ack: Ack,
)
    requires
        answers_entity_merge(r, req, ack),
        announces_unmerge(undone, undo, undo_ack),
    ensures
        r is Ok <==> ack.phase is EntityMerged,
        r matches Ok(out) ==> (ack.phase matches PhaseAck::EntityMerged {
            audit_id,
            statements_rerouted,
            relations_rerouted,
        } && {
            &&& (out.0.audit_id, out.0.grace_period_seconds) == (audit_id, 604_800u64)
            &&& (out.1.survivor, out.1.merged, out.1.audit_id) == (
                req.survivor,
                req.merged,
                audit_id,
            )
            &&& out.1.confidence == req.confidence
            &&& (out.1.statements_rerouted, out.1.relations_rerouted) == (
                statements_rerouted,
                relations_rerouted,
            )
        }),
        undone is Ok <==> undo_ack.phase is EntitiesUnmerged,
        undone matches Ok(e) ==> e.restored_entity_id == undo.merged_entity && undo_ack.phase == (
        PhaseAck::EntitiesUnmerged { survivor: e.from_survivor }),
{
}

/// A tombstone takes the entity it names, for its owner alone, and is answered
/// with the stamp that was acknowledged.
pub proof fn entity_tombstones_hold_the_request(
    r: Result<Write, OpError>,
    req: EntityTombstoneRequest,
    owner: Option<RowScope>,
    caller: RowScope,
    shown: Seq<char>,
    now: u64,
    out: Result<(u64, EntityTombstonedEvent), OpError>,
    ack: Ack,
)
    requires
        plans_entity_tombstone(r, req, owner, caller, shown, now),
        answers_entity_tombstone(out, req, ack),
    ensures
        r is Ok <==> encode_utf8(req.reason@).len() <= 4096 && owner == Some(caller),
        r matches Ok(w) ==> filed_for(w, req.request_id, caller) && w.phase == (Phase::Tombstone {
            target: TombstoneTarget::Entity(req.entity_id),
            reason: 1,
            at_unix_nanos: now,
        }),
        out is Ok <==> ack.phase is Tombstoned,
        out matches Ok(o) ==> ack.phase == (PhaseAck::Tombstoned { tombstoned_at_unix_nanos: o.0 })
            && o.1.entity_id == req.entity_id && o.1.reason@ == req.reason@,
{
}

// The list.

/// A list walks what the request asks for and nothing wider: its type, its
/// filters and its limit. With the token of a page it resumes strictly after
/// the row that the page ended on.
pub proof fn entity_lists_walk_what_is_asked(
    r: Result<EntityWalk, OpError>,
    req: EntityListRequest,
    caller: RowScope,
)
    requires
        plans_entity_list(r, req, caller),
    ensures
        r matches Ok(w) ==> {
            &&& 1 <= w.limit <= 1000 && w.limit == req.limit
            &&& w.entity_type_id == req.entity_type_id && w.entity_type_id != 0
            &&& (w.include_tombstoned, w.include_merged, w.mention_count_min) == (
                req.include_tombstoned,
                req.include_merged,
                req.mention_count_min,
            )
            &&& w.name_prefix is None <==> req.name_prefix@.len() == 0
            &&& w.name_prefix matches Some(p) ==> p@ == req.name_prefix@
        },
        req.cursor@.len() == 0 && 1 <= req.limit <= 1000 && req.entity_type_id != 0 ==> (
        r matches Ok(w) && w.resume_after is None),
        forall|id: [u8; 16]|
            req.cursor@ == #[trigger] cursor_bytes(caller, id@) && 1 <= req.limit <= 1000
                && req.entity_type_id != 0 ==> (r matches Ok(w) && w.resume_after == Some(id)),
        forall|minted: RowScope, id: [u8; 16]|
            req.cursor@ == #[trigger] cursor_bytes(minted, id@) && minted != caller ==> r is Err,
{
    assert forall|minted: RowScope, id: [u8; 16]|
        req.cursor@ == #[trigger] cursor_bytes(minted, id@) implies well_formed(req.cursor@) && (
    owned_by(req.cursor@, caller) <==> minted == caller) && req.cursor@.subrange(21, 37)
        == id@ && req.cursor@.len() == 37 by {
        cursor_round_trip(minted, id, caller);
    }
    assert forall|id: [u8; 16]|
        req.cursor@ == #[trigger] cursor_bytes(caller, id@) && 1 <= req.limit <= 1000
            && req.entity_type_id != 0 implies (r matches Ok(w) && w.resume_after == Some(id)) by {
        let back = r->Ok_0.resume_after->0;
        assert(back@ == id@);
        assert(back =~= id);
    }
}

/// A page shows every row that was read, in order, and where there is more its
/// token names the row it ended on.
pub proof fn entity_pages_show_their_rows(
    r: EntityListResponseFrame,
    page: EntityPage,
    caller: RowScope,
)
    requires
        shows_entity_page(r, page, caller),
    ensures
        r.items@.len() == page.rows@.len(),
        forall|i: int|
            0 <= i < page.rows@.len() ==> (#[trigger] r.items@[i]).entity_id == page.rows@[i].id
                && r.items@[i].canonical_name@ == page.rows@[i].canonical_name@,
        page.rows@.len() <= u32::MAX ==> r.cumulative_count == page.rows@.len(),
        r.is_final,
        page.has_more && page.last_id is Some ==> well_formed(r.next_cursor@) && owned_by(
            r.next_cursor@,
            caller,
        ) && r.next_cursor@.subrange(21, 37) == page.last_id->0@,
        !page.has_more || page.last_id is None ==> r.next_cursor@.len() == 0,
{
    if page.last_id is Some {
        cursor_round_trip(caller, page.last_id->0, caller);
    }
}

// Resolution.

/// A name that is not blank and not too long is looked up exactly: over all
/// types without a hint, in the hinted type with one.
pub proof fn resolutions_start_with_the_exact_name(
    r: Result<ResolveNeed, OpError>,
    req: EntityResolveRequest,
)
    requires
        starts_resolution(r, req),
    ensures
        r is Ok <==> !blank(req.candidate_name@) && encode_utf8(req.candidate_name@).len() <= 256,
        r matches Err(e) ==> e is InvalidRequest,
        r is Ok && req.entity_type_hint == 0 ==> r->Ok_0 is AllTypes,
        r is Ok && req.entity_type_hint != 0 ==> r->Ok_0 is Exact,
{
}

/// Whether a resolution names this entity, found surely by its exact name.
pub open spec fn names_exactly(n: Need, id: [u8; 16]) -> bool {
    n matches Need::Answer(r) && r.outcome is Resolved && r.tier == 1 && r.confidence.bits
        == 0x3F80_0000 && r.resolved_entity == id && r.candidate_ids.len() == 0
}

/// A name that exactly one entity has is resolved to that entity, surely and at
/// the first tier; one that none has is not found; one that several have is
/// ambiguous among exactly those.
pub proof fn exact_names_resolve(req: EntityResolveRequest, caller: RowScope, ids: Vec<[u8; 16]>)
    ensures
        ({
            let n = next_need(req, caller, ResolveRead::AllTypes(ids));
            &&& ids@.len() == 1 ==> names_exactly(n, ids@[0])
            &&& (n matches Need::Answer(r) && r.outcome is NotFound) <==> ids@.len() == 0
            &&& ids@.len() >= 2 ==> (n matches Need::Answer(r) && r.outcome is Ambiguous && r.tier
                == 1 && r.candidate_ids == ids@)
        }),
{
}

/// With a type hint the name itself wins over any alias, an alias wins where
/// exactly one entity has it, and otherwise close names are looked for.
pub proof fn typed_names_resolve(
    req: EntityResolveRequest,
    caller: RowScope,
    canonical: Option<[u8; 16]>,
    aliases: Vec<[u8; 16]>,
)
    ensures
        ({
            let n = next_need(req, caller, ResolveRead::Exact { canonical, aliases });
            &&& canonical matches Some(id) ==> names_exactly(n, id)
            &&& canonical is None && aliases@.len() == 1 ==> names_exactly(n, aliases@[0])
            &&& canonical is None && aliases@.len() != 1 ==> n is Trigrams
        }),
{
}

proof fn close_matches_are_close(cands: Seq<([u8; 16], Option<Single>)>, id: [u8; 16], s: Single)
    ensures
        close_matches(cands).contains((s.key() as i128, (id, s))) <==> cands.contains(
            (id, Some(s)),
        ) && close_enough((id, Some(s))),
        close_matches(cands).len() <= cands.len(),
        forall|k: int|
            0 <= k < close_matches(cands).len() ==> (#[trigger] close_matches(cands)[k]).0
                == close_matches(cands)[k].1.1.key() as i128,
    decreases cands.len(),
{
    if cands.len() > 0 {
        let front = cands.drop_last();
        close_matches_are_close(front, id, s);
        let before = close_matches(front);
        let after = close_matches(cands);
        let x = (s.key() as i128, (id, s));
        let c = (id, Some(s));
        if before.contains(x) {
            let k = choose|k: int| 0 <= k < before.len() && before[k] == x;
            assert(after[k] == x);
        }
        if front.contains(c) {
            let k = choose|k: int| 0 <= k < front.len() && front[k] == c;
            assert(cands[k] == c);
        }
        if after.contains(x) && !before.contains(x) {
            let k = choose|k: int| 0 <= k < after.len() && after[k] == x;
            if k < before.len() {
                assert(before[k] == x);
            }
            assert(cands[cands.len() - 1] == c);
        }
        if cands.contains(c) && !front.contains(c) {
            let k = choose|k: int| 0 <= k < cands.len() && cands[k] == c;
            if k < front.len() {
                assert(front[k] == c);
            }
            if close_enough(c) {
                assert(after[after.len() - 1] == x);
            }
        }
    }
}

/// Close names match from an overlap of 0.85: where no candidate reaches it the
/// embedding is tried, and where one does an answer is given at the second
/// tier.
pub proof fn close_names_resolve(
    req: EntityResolveRequest,
    caller: RowScope,
    cands: Vec<([u8; 16], Option<Single>)>,
)
    ensures
        ({
            let n = next_need(req, caller, ResolveRead::Trigrams(cands));
            &&& (n is Answer <==> exists|i: int|
                0 <= i < cands@.len() && ((#[trigger] cands@[i]).1 matches Some(s) && !s.nan()
                    && s.key() >= 0x3F59_999A))
            &&& (n !is Answer ==> n is Embedding)
            &&& (n matches Need::Answer(r) ==> r.tier == 2 && (r.outcome is Resolved
                || r.outcome is Ambiguous))
            &&& (n matches Need::Answer(r) ==> r.outcome is Resolved ==> exists|i: int|
                0 <= i < cands@.len() && (#[trigger] cands@[i]) == (
                    r.resolved_entity,
                    Some(r.confidence),
                ))
            &&& (n matches Need::Embedding(text) ==> text == embedded_text(req))
        }),
{
    let close = close_matches(cands@);
    let best = ranked(close);
    ranking_is_sorted(close);
    broadcast use vstd::seq_lib::group_to_multiset_ensures;

    assert forall|x: (i128, ([u8; 16], Single))| #[trigger] best.contains(x) <==> close.contains(
        x,
    ) by {
        assert(best.to_multiset().count(x) == close.to_multiset().count(x));
    }
    assert forall|id: [u8; 16], s: Single|
        #[trigger] close.contains((s.key() as i128, (id, s))) <==> cands@.contains((id, Some(s)))
            && close_enough((id, Some(s))) by {
        close_matches_are_close(cands@, id, s);
    }
    close_matches_are_close(cands@, crate::bytes::zero_id(), Single { bits: 0 });
    if close.len() > 0 {
        assert(close.contains(close[0]));
        let m = close[0].1;
        assert(close[0] == (m.1.key() as i128, (m.0, m.1)));
        assert(cands@.contains((m.0, Some(m.1))));
        assert(best.contains(best[0]));
        assert(close.contains(best[0]));
        let b = best[0].1;
        let k = choose|k: int| 0 <= k < close.len() && close[k] == best[0];
        assert(best[0] == (b.1.key() as i128, (b.0, b.1)));
        assert(cands@.contains((b.0, Some(b.1))));
        assert(items_of(best)[0] == b);
    }
    if exists|i: int|
        0 <= i < cands@.len() && ((#[trigger] cands@[i]).1 matches Some(s) && !s.nan() && s.key()
            >= 0x3F59_999A) {
        let i = choose|i: int|
            0 <= i < cands@.len() && ((#[trigger] cands@[i]).1 matches Some(s) && !s.nan()
                && s.key() >= 0x3F59_999A);
        let s = cands@[i].1->0;
        assert(cands@[i] == (cands@[i].0, Some(s)));
        assert(cands@.contains((cands@[i].0, Some(s))));
        assert(close.contains((s.key() as i128, (cands@[i].0, s))));
    }
}

proof fn near_ones_are_found(hits: Seq<EntityHit>, caller: RowScope, type_hint: u32)
    ensures
        nearby(hits, caller, type_hint).len() == 0 <==> forall|i: int|
            0 <= i < hits.len() ==> !may_match(#[trigger] hits[i], caller, type_hint),
        forall|i: int|
            0 <= i < hits.len() && may_match(#[trigger] hits[i], caller, type_hint) && (forall|j: int|
                0 <= j < hits.len() && j != i ==> !may_match(#[trigger] hits[j], caller, type_hint))
                ==> nearby(hits, caller, type_hint) == seq![(hits[i].id, hits[i].score)],
    decreases hits.len(),
{
    if hits.len() > 0 {
        let front = hits.drop_last();
        near_ones_are_found(front, caller, type_hint);
        let near = nearby(hits, caller, type_hint);
        let before = nearby(front, caller, type_hint);
        assert forall|i: int| 0 <= i < front.len() implies front[i] == #[trigger] hits[i] by {}
        if may_match(hits.last(), caller, type_hint) {
            assert(hits[hits.len() - 1] == hits.last());
        }
        assert forall|i: int|
            0 <= i < hits.len() && may_match(#[trigger] hits[i], caller, type_hint) && (forall|j: int|
                0 <= j < hits.len() && j != i ==> !may_match(#[trigger] hits[j], caller, type_hint)) implies near
            == seq![(hits[i].id, hits[i].score)] by {
            let last = hits.len() - 1;
            if i < front.len() {
                assert(!may_match(hits[last], caller, type_hint));
                assert(may_match(front[i], caller, type_hint));
                assert forall|j: int| 0 <= j < front.len() && j != i implies !may_match(
                    #[trigger] front[j],
                    caller,
                    type_hint,
                ) by {
                    assert(front[j] == hits[j]);
                }
                assert(before == seq![(front[i].id, front[i].score)]);
            } else {
                assert forall|j: int| 0 <= j < front.len() implies !may_match(
                    #[trigger] front[j],
                    caller,
                    type_hint,
                ) by {
                    assert(front[j] == hits[j]);
                }
                assert(near =~= seq![(hits[i].id, hits[i].score)]);
            }
        }
        if near.len() == 0 {
            assert forall|i: int| 0 <= i < hits.len() implies !may_match(
                #[trigger] hits[i],
                caller,
                type_hint,
            ) by {
                if i < front.len() {
                    assert(front[i] == hits[i]);
                }
            }
        }
        if forall|i: int|
            0 <= i < hits.len() ==> !may_match(#[trigger] hits[i], caller, type_hint) {
            assert forall|i: int| 0 <= i < front.len() implies !may_match(
                #[trigger] front[i],
                caller,
                type_hint,
            ) by {
                assert(front[i] == hits[i]);
            }
            assert(!may_match(hits[hits.len() - 1], caller, type_hint));
        }
    }
}

/// Whether a neighbour of the embedded name counts: its row is the caller's, of
/// the hinted type where there is a hint, and its cosine is at least 0.78.
pub open spec fn counts_as_near(h: EntityHit, caller: RowScope, type_hint: u32) -> bool {
    &&& h.row matches Some((owner, ty)) && owner.namespace_id == caller.namespace_id
        && owner.space_id_bytes == caller.space_id_bytes && (type_hint != 0 ==> ty == type_hint)
    &&& h.score.nan() || h.score.key() >= 0x3F47_AE14
}

/// The embedding tier resolves a name to the one neighbour that counts; where
/// none does, an entity is made if the request allows it, and else the name is
/// not found. Without an index none counts.
pub proof fn near_names_resolve(
    req: EntityResolveRequest,
    caller: RowScope,
    hits: Vec<EntityHit>,
    i: int,
)
    ensures
        ({
            let n = next_need(req, caller, ResolveRead::Embedding(hits));
            &&& (forall|j: int|
                0 <= j < hits@.len() ==> !counts_as_near(
                    #[trigger] hits@[j],
                    caller,
                    req.entity_type_hint,
                )) ==> n == next_need(req, caller, ResolveRead::NoIndex)
            &&& 0 <= i < hits@.len() && counts_as_near(hits@[i], caller, req.entity_type_hint) && (
            forall|j: int|
                0 <= j < hits@.len() && j != i ==> !counts_as_near(
                    #[trigger] hits@[j],
                    caller,
                    req.entity_type_hint,
                )) ==> (n matches Need::Answer(r) && r.outcome is Resolved && r.tier == 3
                && r.resolved_entity == hits@[i].id && r.confidence == hits@[i].score)
        }),
        req.allow_create ==> next_need(req, caller, ResolveRead::NoIndex) is Create,
        !req.allow_create ==> (next_need(req, caller, ResolveRead::NoIndex) matches Need::Answer(r)
            && r.outcome is NotFound && r.tier == 0 && r.confidence.bits == 0
            && r.candidate_ids.len() == 0),
{
    near_ones_are_found(hits@, caller, req.entity_type_hint);
    assert forall|j: int| 0 <= j < hits@.len() implies counts_as_near(
        #[trigger] hits@[j],
        caller,
        req.entity_type_hint,
    ) == may_match(hits@[j], caller, req.entity_type_hint) by {}
}

/// What is embedded is the name, with the head of its context where there is
/// one.
pub proof fn names_are_embedded_with_context(req: EntityResolveRequest)
    ensures
        req.resolution_context@.len() == 0 ==> embedded_text(req) == req.candidate_name@,
        embedded_text(req).len() >= req.candidate_name@.len(),
        embedded_text(req).take(req.candidate_name@.len() as int) == req.candidate_name@,
        0 < req.resolution_context@.len() <= 100 ==> embedded_text(req).skip(
            req.candidate_name@.len() as int + 1,
        ) == req.resolution_context@,
        embedded_text(req).len() <= req.candidate_name@.len() + 101,
{
    reveal_strlit(" ");
    let t = embedded_text(req);
    assert(t.take(req.candidate_name@.len() as int) =~= req.candidate_name@);
    if 0 < req.resolution_context@.len() <= 100 {
        assert(t.skip(req.candidate_name@.len() as int + 1) =~= req.resolution_context@);
    }
}

/// An entity that is made for an unresolved name has that name and the hinted
/// type, and is what the resolution then names.
pub proof fn unresolved_names_become_entities(
    w: Write,
    req: EntityResolveRequest,
    normalized: String,
    caller: RowScope,
    now: u64,
    id: [u8; 16],
    read: Result<[u8; 16], OpError>,
    ack: Ack,
)
    requires
        plans_fallback(w, req, normalized, caller, now, id),
        reads_fallback(read, ack),
    ensures
        (w.space_id, w.namespace_id) == (caller.space_id_bytes, Some(caller.namespace_id)),
        w.write_id == (WriteId::Request {
            request_id: req.request_id,
            space_id: caller.space_id_bytes,
        }),
        w.phase matches Phase::UpsertEntity {
            id: stored,
            ty,
            canonical,
            normalized: norm,
            aliases,
            attributes,
            created_at_unix_nanos,
            ..
        } && (stored, ty, canonical@, norm@) == (
            id,
            req.entity_type_hint,
            req.candidate_name@,
            normalized@,
        ) && aliases@.len() == 0 && attributes@.len() == 0 && created_at_unix_nanos == now,
        read is Ok <==> ack.phase is UpsertedEntity,
        read matches Ok(made) ==> ack.phase == PhaseAck::UpsertedEntity(made) && (next_need(
            req,
            caller,
            ResolveRead::Created(made),
        ) matches Need::Answer(r) && r.outcome is Created && r.tier == 5 && r.confidence.bits
            == 0x3F80_0000 && r.resolved_entity == made),
{
}

} // verus!
