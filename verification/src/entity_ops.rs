//! The steps of the entity operations: what is submitted, and what is answered
//! and announced once it is acknowledged.
use vstd::prelude::*;

use vstd::utf8::encode_utf8;

use crate::bytes::{
    copy_bytes, le_bytes, length_u32, low32, nil_id, put_bytes, put_le, put_text, zero_id,
};
use crate::cursor::{decode_opt, encode};
use crate::entity::Entity;
use crate::error::{fails, invalid, ErrorView, OpError};
use crate::events::{
    EntityCreatedEvent, EntityMergedEvent, EntityRenamedEvent, EntityTombstonedEvent,
    EntityUnmergedEvent, EntityUpdatedEvent,
};
use crate::hash::{blake3_digest, blake3_hash, byte_of, flag_byte};
use crate::scope::{in_caller_scope, RowScope};
use crate::single::Single;
use crate::text::{blank, is_blank, join2, join3};
use crate::write::{
    is_request_write, request_write, unexpected, unexpected_ack, Ack, Phase, PhaseAck,
    TombstoneTarget, Write,
};

verus! {

/// Most aliases of one entity.
pub const MAX_ENTITY_ALIASES: usize = 256;

/// How long a merge can be undone: 7 days.
pub const DEFAULT_MERGE_GRACE_SECS: u64 = 604_800;

/// Longest reason text, in bytes.
pub const ENTITY_REASON_MAX: usize = 4096;

/// The reason byte of a client's tombstone.
pub const CLIENT_REQUEST_REASON: u8 = 1;

#[derive(Debug)]
pub struct EntityCreateRequest {
    pub entity_type_id: u32,
    pub canonical_name: String,
    pub aliases: Vec<String>,
    pub attributes_blob: Vec<u8>,
    pub session_id: u64,
    pub request_id: [u8; 16],
}

#[derive(Debug)]
pub struct EntityUpdateRequest {
    pub entity_id: [u8; 16],
    pub canonical_name: String,
    pub aliases: Vec<String>,
    pub attributes_blob: Vec<u8>,
    pub request_id: [u8; 16],
}

#[derive(Debug)]
pub struct EntityRenameRequest {
    pub entity_id: [u8; 16],
    pub new_canonical_name: String,
    pub move_to_alias: bool,
    pub request_id: [u8; 16],
}

#[derive(Debug)]
pub struct EntityMergeRequest {
    pub survivor: [u8; 16],
    pub merged: [u8; 16],
    pub confidence: Single,
    pub reason: String,
    pub request_id: [u8; 16],
}

#[derive(Debug)]
pub struct EntityUnmergeRequest {
    pub merged_entity: [u8; 16],
    pub request_id: [u8; 16],
}

#[derive(Debug)]
pub struct EntityTombstoneRequest {
    pub entity_id: [u8; 16],
    pub reason: String,
    pub request_id: [u8; 16],
}

/// An entity as clients see it.
#[derive(Debug)]
pub struct EntityView {
    pub entity_id: [u8; 16],
    pub entity_type_id: u32,
    pub canonical_name: String,
    pub normalized_name: String,
    pub aliases: Vec<String>,
    pub attributes_blob: Vec<u8>,
    pub mention_count: u64,
    pub created_at_unix_nanos: u64,
    pub updated_at_unix_nanos: u64,
    pub merged_into: [u8; 16],
    pub embedding_version: u32,
    pub flags: u32,
}

/// Whether a view shows an entity; one that was not merged points nowhere.
pub open spec fn shows_entity(v: EntityView, e: Entity) -> bool {
    &&& v.entity_id == e.id
    &&& v.entity_type_id == e.entity_type
    &&& v.canonical_name == e.canonical_name
    &&& v.normalized_name == e.normalized_name
    &&& v.aliases@ == e.aliases@
    &&& v.attributes_blob@ == e.attributes@
    &&& v.mention_count == e.mention_count
    &&& v.created_at_unix_nanos == e.created_at_unix_nanos
    &&& v.updated_at_unix_nanos == e.updated_at_unix_nanos
    &&& v.merged_into == (match e.merged_into {
        Some(id) => id,
        None => zero_id(),
    })
    &&& v.embedding_version == e.embedding_version
    &&& v.flags == e.flags
}

/// A copy of a list of strings.
pub fn copy_texts(v: &Vec<String>) -> (r: Vec<String>)
    ensures
        r@ == v@,
{
    let mut out: Vec<String> = Vec::new();
    for i in 0..v.len()
        invariant
            out@ == v@.take(i as int),
    {
        out.push(v[i].clone());
        assert(v@.take(i + 1) =~= v@.take(i as int).push(v@[i as int]));
    }
    assert(v@.take(v@.len() as int) =~= v@);
    out
}

/// Shows an entity.
pub fn entity_to_view(e: &Entity) -> (r: EntityView)
    ensures
        shows_entity(r, *e),
{
    EntityView {
        entity_id: e.id,
        entity_type_id: e.entity_type,
        canonical_name: e.canonical_name.clone(),
        normalized_name: e.normalized_name.clone(),
        aliases: copy_texts(&e.aliases),
        attributes_blob: copy_bytes(e.attributes.as_slice()),
        mention_count: e.mention_count,
        created_at_unix_nanos: e.created_at_unix_nanos,
        updated_at_unix_nanos: e.updated_at_unix_nanos,
        merged_into: match e.merged_into {
            Some(id) => id,
            None => nil_id(),
        },
        embedding_version: e.embedding_version,
        flags: e.flags,
    }
}

/// The error for an entity that is not there or not the caller's.
pub open spec fn no_entity(shown: Seq<char>) -> ErrorView {
    ErrorView::NotFound { what: "entity"@, detail: shown }
}

fn entity_not_found(shown: &str) -> (r: OpError)
    ensures
        r@ == no_entity(shown@),
{
    OpError::NotFound { what: "entity", detail: shown.to_owned() }
}

// Request digests.

/// The aliases in a digest: each ends with a zero byte.
pub open spec fn alias_bytes(aliases: Seq<String>) -> Seq<u8>
    decreases aliases.len(),
{
    if aliases.len() == 0 {
        Seq::empty()
    } else {
        alias_bytes(aliases.drop_last()) + encode_utf8(aliases.last()@) + seq![0u8]
    }
}

fn put_aliases(h: &mut Vec<u8>, aliases: &Vec<String>)
    ensures
        final(h)@ == old(h)@ + alias_bytes(aliases@),
{
    let ghost before = h@;
    for i in 0..aliases.len()
        invariant
            h@ == before + alias_bytes(aliases@.take(i as int)),
    {
        assert(aliases@.take(i + 1).drop_last() =~= aliases@.take(i as int));
        let ghost mid = h@;
        put_text(h, &aliases[i]);
        h.push(0);
        assert(h@ =~= before + alias_bytes(aliases@.take(i + 1)));
    }
    assert(aliases@.take(aliases@.len() as int) =~= aliases@);
}

/// The digested fields of a create.
pub open spec fn entity_create_fields(req: EntityCreateRequest) -> Seq<u8> {
    encode_utf8("entity_create:"@) + le_bytes(req.entity_type_id as nat, 4) + seq![0u8]
        + encode_utf8(req.canonical_name@) + seq![0u8] + alias_bytes(req.aliases@) + seq![0u8]
        + req.attributes_blob@ + seq![0u8] + le_bytes(req.session_id as nat, 8)
}

pub fn hash_entity_create_request(req: &EntityCreateRequest) -> (r: [u8; 32])
    ensures
        r@ == blake3_digest(entity_create_fields(*req)),
{
    let mut h: Vec<u8> = Vec::new();
    put_text(&mut h, "entity_create:");
    put_le(&mut h, req.entity_type_id as u128, 4);
    h.push(0);
    put_text(&mut h, &req.canonical_name);
    h.push(0);
    put_aliases(&mut h, &req.aliases);
    h.push(0);
    put_bytes(&mut h, req.attributes_blob.as_slice());
    h.push(0);
    put_le(&mut h, req.session_id as u128, 8);
    assert(h@ =~= entity_create_fields(*req));
    blake3_hash(h.as_slice())
}

/// The digested fields of an update.
pub open spec fn entity_update_fields(req: EntityUpdateRequest) -> Seq<u8> {
    encode_utf8("entity_update:"@) + req.entity_id@ + seq![0u8] + encode_utf8(req.canonical_name@)
        + seq![0u8] + alias_bytes(req.aliases@) + seq![0u8] + req.attributes_blob@
}

pub fn hash_entity_update_request(req: &EntityUpdateRequest) -> (r: [u8; 32])
    ensures
        r@ == blake3_digest(entity_update_fields(*req)),
{
    let mut h: Vec<u8> = Vec::new();
    put_text(&mut h, "entity_update:");
    put_bytes(&mut h, req.entity_id.as_slice());
    h.push(0);
    put_text(&mut h, &req.canonical_name);
    h.push(0);
    put_aliases(&mut h, &req.aliases);
    h.push(0);
    put_bytes(&mut h, req.attributes_blob.as_slice());
    assert(h@ =~= entity_update_fields(*req));
    blake3_hash(h.as_slice())
}

/// The digested fields of a rename.
pub open spec fn entity_rename_fields(req: EntityRenameRequest) -> Seq<u8> {
    encode_utf8("entity_rename:"@) + req.entity_id@ + seq![0u8] + encode_utf8(
        req.new_canonical_name@,
    ) + seq![0u8] + seq![flag_byte(req.move_to_alias)]
}

pub fn hash_entity_rename_request(req: &EntityRenameRequest) -> (r: [u8; 32])
    ensures
        r@ == blake3_digest(entity_rename_fields(*req)),
{
    let mut h: Vec<u8> = Vec::new();
    put_text(&mut h, "entity_rename:");
    put_bytes(&mut h, req.entity_id.as_slice());
    h.push(0);
    put_text(&mut h, &req.new_canonical_name);
    h.push(0);
    h.push(byte_of(req.move_to_alias));
    assert(h@ =~= entity_rename_fields(*req));
    blake3_hash(h.as_slice())
}

/// The digested fields of a merge.
pub open spec fn entity_merge_fields(req: EntityMergeRequest) -> Seq<u8> {
    encode_utf8("entity_merge:"@) + req.survivor@ + seq![0u8] + req.merged@ + seq![0u8] + le_bytes(
        req.confidence.bits as nat,
        4,
    ) + seq![0u8] + encode_utf8(req.reason@)
}

pub fn hash_entity_merge_request(req: &EntityMergeRequest) -> (r: [u8; 32])
    ensures
        r@ == blake3_digest(entity_merge_fields(*req)),
{
    let mut h: Vec<u8> = Vec::new();
    put_text(&mut h, "entity_merge:");
    put_bytes(&mut h, req.survivor.as_slice());
    h.push(0);
    put_bytes(&mut h, req.merged.as_slice());
    h.push(0);
    put_le(&mut h, req.confidence.bits as u128, 4);
    h.push(0);
    put_text(&mut h, &req.reason);
    assert(h@ =~= entity_merge_fields(*req));
    blake3_hash(h.as_slice())
}

/// The digested fields of an unmerge.
pub open spec fn entity_unmerge_fields(req: EntityUnmergeRequest) -> Seq<u8> {
    encode_utf8("entity_unmerge:"@) + req.merged_entity@
}

pub fn hash_entity_unmerge_request(req: &EntityUnmergeRequest) -> (r: [u8; 32])
    ensures
        r@ == blake3_digest(entity_unmerge_fields(*req)),
{
    let mut h: Vec<u8> = Vec::new();
    put_text(&mut h, "entity_unmerge:");
    put_bytes(&mut h, req.merged_entity.as_slice());
    assert(h@ =~= entity_unmerge_fields(*req));
    blake3_hash(h.as_slice())
}

/// The digested fields of a tombstone.
pub open spec fn entity_tombstone_fields(req: EntityTombstoneRequest) -> Seq<u8> {
    encode_utf8("entity_tombstone:"@) + req.entity_id@ + seq![0u8] + encode_utf8(req.reason@)
}

pub fn hash_entity_tombstone_request(req: &EntityTombstoneRequest) -> (r: [u8; 32])
    ensures
        r@ == blake3_digest(entity_tombstone_fields(*req)),
{
    let mut h: Vec<u8> = Vec::new();
    put_text(&mut h, "entity_tombstone:");
    put_bytes(&mut h, req.entity_id.as_slice());
    h.push(0);
    put_text(&mut h, &req.reason);
    assert(h@ =~= entity_tombstone_fields(*req));
    blake3_hash(h.as_slice())
}

// Creating.

/// Why names and aliases are refused, if they are.
pub open spec fn naming_error(name: Seq<char>, alias_count: nat) -> Option<ErrorView> {
    if blank(name) {
        Some(ErrorView::InvalidRequest("canonical_name must be non-empty"@))
    } else if alias_count > MAX_ENTITY_ALIASES {
        Some(ErrorView::InvalidRequest("aliases must have <= 256 entries"@))
    } else {
        None
    }
}

fn check_naming(name: &str, aliases: &Vec<String>) -> (r: Result<(), OpError>)
    ensures
        match naming_error(name@, aliases@.len()) {
            Some(e) => fails(r, e),
            None => r is Ok,
        },
{
    if is_blank(name) {
        return Err(invalid("canonical_name must be non-empty"));
    }
    if aliases.len() > MAX_ENTITY_ALIASES {
        return Err(invalid("aliases must have <= 256 entries"));
    }
    Ok(())
}

/// What planning a new entity comes to.
pub open spec fn plans_entity_create(
    r: Result<Write, OpError>,
    req: EntityCreateRequest,
    normalized: String,
    caller: RowScope,
    now: u64,
    id: [u8; 16],
) -> bool {
    match naming_error(req.canonical_name@, req.aliases@.len()) {
        Some(e) => fails(r, e),
        None => r matches Ok(w) && is_request_write(
            w,
            req.request_id,
            caller,
            entity_create_fields(req),
        ) && (w.phase matches Phase::UpsertEntity {
            id: new_id,
            ty,
            session,
            canonical,
            normalized: norm,
            aliases,
            attributes,
            created_at_unix_nanos,
        } && {
            &&& new_id == id
            &&& ty == req.entity_type_id
            &&& session == req.session_id
            &&& canonical == req.canonical_name
            &&& norm == normalized
            &&& aliases@ == req.aliases@
            &&& attributes@ == req.attributes_blob@
            &&& created_at_unix_nanos == now
        }),
    }
}

/// Plans a create. `normalized` is the name's normal form and `id` a fresh id.
pub fn plan_entity_create(
    req: &EntityCreateRequest,
    normalized: String,
    caller: &RowScope,
    now: u64,
    id: [u8; 16],
) -> (r: Result<Write, OpError>)
    ensures
        plans_entity_create(r, *req, normalized, *caller, now, id),
{
    match check_naming(&req.canonical_name, &req.aliases) {
        Ok(()) => {},
        Err(e) => {
            return Err(e);
        },
    }
    let hash = hash_entity_create_request(req);
    let phase = Phase::UpsertEntity {
        id,
        ty: req.entity_type_id,
        session: req.session_id,
        canonical: req.canonical_name.clone(),
        normalized,
        aliases: copy_texts(&req.aliases),
        attributes: copy_bytes(req.attributes_blob.as_slice()),
        created_at_unix_nanos: now,
    };
    Ok(request_write(req.request_id, caller, hash, phase))
}

/// What an acknowledged creation is announced as.
pub open spec fn announces_entity(
    r: Result<EntityCreatedEvent, OpError>,
    req: EntityCreateRequest,
    ack: Ack,
) -> bool {
    match ack.phase {
        PhaseAck::UpsertedEntity(id) => r matches Ok(e) && e.entity_id == id
            && e.entity_type_id == req.entity_type_id && e.canonical_name
            == req.canonical_name,
        _ => fails(
            r,
            unexpected_ack("unexpected phase ack for ENTITY_CREATE: "@, ack.shown@),
        ),
    }
}

/// Answers a create with the acknowledged id, so that a replay answers with
/// what the first call wrote. The id is also the response.
pub fn finish_entity_create(req: &EntityCreateRequest, ack: &Ack) -> (r: Result<
    EntityCreatedEvent,
    OpError,
>)
    ensures
        announces_entity(r, *req, *ack),
{
    match &ack.phase {
        PhaseAck::UpsertedEntity(id) => Ok(
            EntityCreatedEvent {
                entity_id: *id,
                entity_type_id: req.entity_type_id,
                canonical_name: req.canonical_name.clone(),
            },
        ),
        _ => Err(unexpected("unexpected phase ack for ENTITY_CREATE: ", &ack.shown)),
    }
}

// Reading.

#[derive(Debug)]
pub struct EntityGetResponse {
    pub entity: EntityView,
    pub resolved_from: Vec<[u8; 16]>,
}

/// What reading an entity comes to.
pub open spec fn reads_entity(
    r: Result<EntityGetResponse, OpError>,
    resolved: Option<(Entity, Vec<[u8; 16]>)>,
    owner: Option<RowScope>,
    caller: RowScope,
    shown: Seq<char>,
) -> bool {
    match resolved {
        Some((e, chain)) if owner == Some(caller) => r matches Ok(out) && shows_entity(
            out.entity,
            e,
        ) && out.resolved_from == chain,
        _ => fails(r, no_entity(shown)),
    }
}

/// Answers a read: `resolved` is the entity that survives the merges of the
/// one asked for, with the ids passed on the way; `owner` is the scope of the
/// one asked for.
pub fn entity_get(
    resolved: Option<(Entity, Vec<[u8; 16]>)>,
    owner: Option<RowScope>,
    caller: &RowScope,
    shown: &str,
) -> (r: Result<EntityGetResponse, OpError>)
    ensures
        reads_entity(r, resolved, owner, *caller, shown@),
{
    match resolved {
        Some((e, chain)) => {
            if !in_caller_scope(owner, caller) {
                return Err(entity_not_found(shown));
            }
            Ok(EntityGetResponse { entity: entity_to_view(&e), resolved_from: chain })
        },
        None => Err(entity_not_found(shown)),
    }
}

// Updating and renaming.

/// Why an update is refused, if it is.
pub open spec fn update_error(
    req: EntityUpdateRequest,
    owner: Option<RowScope>,
    caller: RowScope,
    shown: Seq<char>,
) -> Option<ErrorView> {
    if naming_error(req.canonical_name@, req.aliases@.len()) is Some {
        naming_error(req.canonical_name@, req.aliases@.len())
    } else if owner != Some(caller) {
        Some(no_entity(shown))
    } else {
        None
    }
}

/// What planning an update comes to.
pub open spec fn plans_entity_update(
    r: Result<Write, OpError>,
    req: EntityUpdateRequest,
    owner: Option<RowScope>,
    caller: RowScope,
    shown: Seq<char>,
    now: u64,
) -> bool {
    match update_error(req, owner, caller, shown) {
        Some(e) => fails(r, e),
        None => r matches Ok(w) && is_request_write(
            w,
            req.request_id,
            caller,
            entity_update_fields(req),
        ) && (w.phase matches Phase::UpdateEntity {
            id,
            canonical_name,
            aliases,
            attributes_blob,
            at_unix_nanos,
        } && {
            &&& id == req.entity_id
            &&& canonical_name == req.canonical_name
            &&& aliases@ == req.aliases@
            &&& attributes_blob@ == req.attributes_blob@
            &&& at_unix_nanos == now
        }),
    }
}

/// Plans an update.
pub fn plan_entity_update(
    req: &EntityUpdateRequest,
    owner: Option<RowScope>,
    caller: &RowScope,
    shown: &str,
    now: u64,
) -> (r: Result<Write, OpError>)
    ensures
        plans_entity_update(r, *req, owner, *caller, shown@, now),
{
    match check_naming(&req.canonical_name, &req.aliases) {
        Ok(()) => {},
        Err(e) => {
            return Err(e);
        },
    }
    if !in_caller_scope(owner, caller) {
        return Err(entity_not_found(shown));
    }
    let hash = hash_entity_update_request(req);
    let phase = Phase::UpdateEntity {
        id: req.entity_id,
        canonical_name: req.canonical_name.clone(),
        aliases: copy_texts(&req.aliases),
        attributes_blob: copy_bytes(req.attributes_blob.as_slice()),
        at_unix_nanos: now,
    };
    Ok(request_write(req.request_id, caller, hash, phase))
}

/// What an acknowledged update is answered with.
pub open spec fn answers_entity_update(
    r: Result<(EntityView, EntityUpdatedEvent), OpError>,
    req: EntityUpdateRequest,
    ack: Ack,
) -> bool {
    match ack.phase {
        PhaseAck::EntityUpdated { snapshot } => r matches Ok(out) && {
            &&& shows_entity(out.0, snapshot)
            &&& out.1.entity_id == req.entity_id
            &&& out.1.entity_type_id == snapshot.entity_type
            &&& out.1.canonical_name == snapshot.canonical_name
            &&& out.1.embedding_version_changed == (snapshot.embedding_version > 0)
        },
        _ => fails(
            r,
            unexpected_ack("unexpected phase ack for ENTITY_UPDATE: "@, ack.shown@),
        ),
    }
}

/// Answers an update with the stored row.
pub fn finish_entity_update(req: &EntityUpdateRequest, ack: &Ack) -> (r: Result<
    (EntityView, EntityUpdatedEvent),
    OpError,
>)
    ensures
        answers_entity_update(r, *req, *ack),
{
    match &ack.phase {
        PhaseAck::EntityUpdated { snapshot } => Ok(
            (
                entity_to_view(snapshot),
                EntityUpdatedEvent {
                    entity_id: req.entity_id,
                    entity_type_id: snapshot.entity_type,
                    canonical_name: snapshot.canonical_name.clone(),
                    embedding_version_changed: snapshot.embedding_version > 0,
                },
            ),
        ),
        _ => Err(unexpected("unexpected phase ack for ENTITY_UPDATE: ", &ack.shown)),
    }
}

/// Why a rename is refused, if it is.
pub open spec fn rename_error(
    req: EntityRenameRequest,
    owner: Option<RowScope>,
    caller: RowScope,
    shown: Seq<char>,
) -> Option<ErrorView> {
    if blank(req.new_canonical_name@) {
        Some(ErrorView::InvalidRequest("new_canonical_name must be non-empty"@))
    } else if !req.move_to_alias {
        Some(ErrorView::InvalidRequest("rename with move_to_alias=false is not yet supported"@))
    } else if owner != Some(caller) {
        Some(no_entity(shown))
    } else {
        None
    }
}

/// What planning a rename comes to.
pub open spec fn plans_entity_rename(
    r: Result<Write, OpError>,
    req: EntityRenameRequest,
    owner: Option<RowScope>,
    caller: RowScope,
    shown: Seq<char>,
    now: u64,
) -> bool {
    match rename_error(req, owner, caller, shown) {
        Some(e) => fails(r, e),
        None => r matches Ok(w) && is_request_write(
            w,
            req.request_id,
            caller,
            entity_rename_fields(req),
        ) && w.phase == (Phase::RenameEntity {
            id: req.entity_id,
            new_canonical_name: req.new_canonical_name,
            at_unix_nanos: now,
        }),
    }
}

/// Plans a rename.
pub fn plan_entity_rename(
    req: &EntityRenameRequest,
    owner: Option<RowScope>,
    caller: &RowScope,
    shown: &str,
    now: u64,
) -> (r: Result<Write, OpError>)
    ensures
        plans_entity_rename(r, *req, owner, *caller, shown@, now),
{
    if is_blank(&req.new_canonical_name) {
        return Err(invalid("new_canonical_name must be non-empty"));
    }
    if !req.move_to_alias {
        return Err(invalid("rename with move_to_alias=false is not yet supported"));
    }
    if !in_caller_scope(owner, caller) {
        return Err(entity_not_found(shown));
    }
    let hash = hash_entity_rename_request(req);
    let phase = Phase::RenameEntity {
        id: req.entity_id,
        new_canonical_name: req.new_canonical_name.clone(),
        at_unix_nanos: now,
    };
    Ok(request_write(req.request_id, caller, hash, phase))
}

/// What an acknowledged rename is answered with.
pub open spec fn answers_entity_rename(
    r: Result<(EntityView, EntityRenamedEvent), OpError>,
    req: EntityRenameRequest,
    ack: Ack,
) -> bool {
    match ack.phase {
        PhaseAck::EntityRenamed { old_canonical_name, snapshot } => r matches Ok(out) && {
            &&& shows_entity(out.0, snapshot)
            &&& out.1.entity_id == req.entity_id
            &&& out.1.old_canonical_name == old_canonical_name
            &&& out.1.new_canonical_name == req.new_canonical_name
            &&& out.1.old_moved_to_alias == req.move_to_alias
        },
        _ => fails(
            r,
            unexpected_ack("unexpected phase ack for ENTITY_RENAME: "@, ack.shown@),
        ),
    }
}

/// Answers a rename with the stored row.
pub fn finish_entity_rename(req: &EntityRenameRequest, ack: &Ack) -> (r: Result<
    (EntityView, EntityRenamedEvent),
    OpError,
>)
    ensures
        answers_entity_rename(r, *req, *ack),
{
    match &ack.phase {
        PhaseAck::EntityRenamed { old_canonical_name, snapshot } => Ok(
            (
                entity_to_view(snapshot),
                EntityRenamedEvent {
                    entity_id: req.entity_id,
                    old_canonical_name: old_canonical_name.clone(),
                    new_canonical_name: req.new_canonical_name.clone(),
                    old_moved_to_alias: req.move_to_alias,
                },
            ),
        ),
        _ => Err(unexpected("unexpected phase ack for ENTITY_RENAME: ", &ack.shown)),
    }
}

// Merging.

/// Why a merge is refused, if it is: the caller must own both ends.
pub open spec fn merge_error(
    req: EntityMergeRequest,
    survivor_owner: Option<RowScope>,
    merged_owner: Option<RowScope>,
    caller: RowScope,
    survivor: Seq<char>,
    merged: Seq<char>,
) -> Option<ErrorView> {
    if encode_utf8(req.reason@).len() > ENTITY_REASON_MAX {
        Some(ErrorView::InvalidRequest("reason exceeds 4 KiB"@))
    } else if survivor_owner != Some(caller) || merged_owner != Some(caller) {
        Some(no_entity("survivor="@ + survivor + " merged="@ + merged))
    } else {
        None
    }
}

/// What planning a merge comes to.
pub open spec fn plans_entity_merge(
    r: Result<Write, OpError>,
    req: EntityMergeRequest,
    survivor_owner: Option<RowScope>,
    merged_owner: Option<RowScope>,
    caller: RowScope,
    survivor: Seq<char>,
    merged: Seq<char>,
    now: u64,
) -> bool {
    match merge_error(req, survivor_owner, merged_owner, caller, survivor, merged) {
        Some(e) => fails(r, e),
        None => r matches Ok(w) && is_request_write(
            w,
            req.request_id,
            caller,
            entity_merge_fields(req),
        ) && w.phase == (Phase::MergeEntities {
            source: req.merged,
            target: req.survivor,
            retain_aliases: true,
            retain_attributes: true,
            at_unix_nanos: now,
            confidence: req.confidence,
            reason: req.reason,
            actor_space: caller.space_id_bytes,
            grace_seconds: DEFAULT_MERGE_GRACE_SECS,
        }),
    }
}

/// Plans a merge, by the caller's space, that can be undone for a week.
pub fn plan_entity_merge(
    req: &EntityMergeRequest,
    survivor_owner: Option<RowScope>,
    merged_owner: Option<RowScope>,
    caller: &RowScope,
    survivor: &str,
    merged: &str,
    now: u64,
) -> (r: Result<Write, OpError>)
    ensures
        plans_entity_merge(r, *req, survivor_owner, merged_owner, *caller, survivor@, merged@, now),
{
    if req.reason.as_str().as_bytes().len() > ENTITY_REASON_MAX {
        return Err(invalid("reason exceeds 4 KiB"));
    }
    if !in_caller_scope(survivor_owner, caller) || !in_caller_scope(merged_owner, caller) {
        let head = join3("survivor=", survivor, " merged=");
        let detail = join2(&head, merged);
        return Err(OpError::NotFound { what: "entity", detail });
    }
    let hash = hash_entity_merge_request(req);
    let phase = Phase::MergeEntities {
        source: req.merged,
        target: req.survivor,
        retain_aliases: true,
        retain_attributes: true,
        at_unix_nanos: now,
        confidence: req.confidence,
        reason: req.reason.clone(),
        actor_space: caller.space_id_bytes,
        grace_seconds: DEFAULT_MERGE_GRACE_SECS,
    };
    Ok(request_write(req.request_id, caller, hash, phase))
}

#[derive(Clone, Copy, Debug, PartialEq, Eq)]
pub struct EntityMergeResponse {
    pub audit_id: [u8; 16],
    pub grace_period_seconds: u64,
}

/// What an acknowledged merge is answered with.
pub open spec fn answers_entity_merge(
    r: Result<(EntityMergeResponse, EntityMergedEvent), OpError>,
    req: EntityMergeRequest,
    ack: Ack,
) -> bool {
    match ack.phase {
        PhaseAck::EntityMerged { audit_id, statements_rerouted, relations_rerouted } => r
            == Ok::<(EntityMergeResponse, EntityMergedEvent), OpError>(
            (
                EntityMergeResponse {
                    audit_id,
                    grace_period_seconds: DEFAULT_MERGE_GRACE_SECS,
                },
                EntityMergedEvent {
                    survivor: req.survivor,
                    merged: req.merged,
                    audit_id,
                    confidence: req.confidence,
                    statements_rerouted,
                    relations_rerouted,
                },
            ),
        ),
        _ => fails(
            r,
            unexpected_ack("unexpected phase ack for ENTITY_MERGE: "@, ack.shown@),
        ),
    }
}

/// Answers a merge.
pub fn finish_entity_merge(req: &EntityMergeRequest, ack: &Ack) -> (r: Result<
    (EntityMergeResponse, EntityMergedEvent),
    OpError,
>)
    ensures
        answers_entity_merge(r, *req, *ack),
{
    match &ack.phase {
        PhaseAck::EntityMerged { audit_id, statements_rerouted, relations_rerouted } => Ok(
            (
                EntityMergeResponse {
                    audit_id: *audit_id,
                    grace_period_seconds: DEFAULT_MERGE_GRACE_SECS,
                },
                EntityMergedEvent {
                    survivor: req.survivor,
                    merged: req.merged,
                    audit_id: *audit_id,
                    confidence: req.confidence,
                    statements_rerouted: *statements_rerouted,
                    relations_rerouted: *relations_rerouted,
                },
            ),
        ),
        _ => Err(unexpected("unexpected phase ack for ENTITY_MERGE: ", &ack.shown)),
    }
}

/// What planning an unmerge comes to.
pub open spec fn plans_entity_unmerge(
    r: Result<Write, OpError>,
    req: EntityUnmergeRequest,
    owner: Option<RowScope>,
    caller: RowScope,
    shown: Seq<char>,
    now: u64,
) -> bool {
    &&& (owner != Some(caller) ==> fails(r, no_entity(shown)))
    &&& (owner == Some(caller) ==> (r matches Ok(w) && is_request_write(
        w,
        req.request_id,
        caller,
        entity_unmerge_fields(req),
    ) && w.phase == (Phase::UnmergeEntities {
        merged: req.merged_entity,
        actor_space: caller.space_id_bytes,
        at_unix_nanos: now,
    })))
}

/// Plans an unmerge.
pub fn plan_entity_unmerge(
    req: &EntityUnmergeRequest,
    owner: Option<RowScope>,
    caller: &RowScope,
    shown: &str,
    now: u64,
) -> (r: Result<Write, OpError>)
    ensures
        plans_entity_unmerge(r, *req, owner, *caller, shown@, now),
{
    if !in_caller_scope(owner, caller) {
        return Err(entity_not_found(shown));
    }
    let hash = hash_entity_unmerge_request(req);
    let phase = Phase::UnmergeEntities {
        merged: req.merged_entity,
        actor_space: caller.space_id_bytes,
        at_unix_nanos: now,
    };
    Ok(request_write(req.request_id, caller, hash, phase))
}

/// What an acknowledged unmerge is announced as.
pub open spec fn announces_unmerge(
    r: Result<EntityUnmergedEvent, OpError>,
    req: EntityUnmergeRequest,
    ack: Ack,
) -> bool {
    match ack.phase {
        PhaseAck::EntitiesUnmerged { survivor } => r == Ok::<EntityUnmergedEvent, OpError>(
            EntityUnmergedEvent {
                restored_entity_id: req.merged_entity,
                from_survivor: survivor,
                audit_id: zero_id(),
            },
        ),
        _ => fails(
            r,
            unexpected_ack("unexpected phase ack for ENTITY_UNMERGE: "@, ack.shown@),
        ),
    }
}

/// Answers an unmerge: the restored entity, announced with no audit id.
pub fn finish_entity_unmerge(req: &EntityUnmergeRequest, ack: &Ack) -> (r: Result<
    EntityUnmergedEvent,
    OpError,
>)
    ensures
        announces_unmerge(r, *req, *ack),
{
    match &ack.phase {
        PhaseAck::EntitiesUnmerged { survivor } => Ok(
            EntityUnmergedEvent {
                restored_entity_id: req.merged_entity,
                from_survivor: *survivor,
                audit_id: nil_id(),
            },
        ),
        _ => Err(unexpected("unexpected phase ack for ENTITY_UNMERGE: ", &ack.shown)),
    }
}

// Tombstones.

/// Why a tombstone is refused, if it is.
pub open spec fn entity_tombstone_error(
    req: EntityTombstoneRequest,
    owner: Option<RowScope>,
    caller: RowScope,
    shown: Seq<char>,
) -> Option<ErrorView> {
    if encode_utf8(req.reason@).len() > ENTITY_REASON_MAX {
        Some(ErrorView::InvalidRequest("reason exceeds 4 KiB"@))
    } else if owner != Some(caller) {
        Some(no_entity(shown))
    } else {
        None
    }
}

/// What planning a tombstone comes to.
pub open spec fn plans_entity_tombstone(
    r: Result<Write, OpError>,
    req: EntityTombstoneRequest,
    owner: Option<RowScope>,
    caller: RowScope,
    shown: Seq<char>,
    now: u64,
) -> bool {
    match entity_tombstone_error(req, owner, caller, shown) {
        Some(e) => fails(r, e),
        None => r matches Ok(w) && is_request_write(
            w,
            req.request_id,
            caller,
            entity_tombstone_fields(req),
        ) && w.phase == (Phase::Tombstone {
            target: TombstoneTarget::Entity(req.entity_id),
            reason: CLIENT_REQUEST_REASON,
            at_unix_nanos: now,
        }),
    }
}

/// Plans a tombstone.
pub fn plan_entity_tombstone(
    req: &EntityTombstoneRequest,
    owner: Option<RowScope>,
    caller: &RowScope,
    shown: &str,
    now: u64,
) -> (r: Result<Write, OpError>)
    ensures
        plans_entity_tombstone(r, *req, owner, *caller, shown@, now),
{
    if req.reason.as_str().as_bytes().len() > ENTITY_REASON_MAX {
        return Err(invalid("reason exceeds 4 KiB"));
    }
    if !in_caller_scope(owner, caller) {
        return Err(entity_not_found(shown));
    }
    let hash = hash_entity_tombstone_request(req);
    let phase = Phase::Tombstone {
        target: TombstoneTarget::Entity(req.entity_id),
        reason: CLIENT_REQUEST_REASON,
        at_unix_nanos: now,
    };
    Ok(request_write(req.request_id, caller, hash, phase))
}

/// What an acknowledged tombstone is answered with.
pub open spec fn answers_entity_tombstone(
    r: Result<(u64, EntityTombstonedEvent), OpError>,
    req: EntityTombstoneRequest,
    ack: Ack,
) -> bool {
    match ack.phase {
        PhaseAck::Tombstoned { tombstoned_at_unix_nanos } => r == Ok::<
            (u64, EntityTombstonedEvent),
            OpError,
        >(
            (
                tombstoned_at_unix_nanos,
                EntityTombstonedEvent { entity_id: req.entity_id, reason: req.reason },
            ),
        ),
        _ => fails(
            r,
            unexpected_ack("unexpected phase ack for ENTITY_TOMBSTONE: "@, ack.shown@),
        ),
    }
}

/// Answers a tombstone with the stamp of the acknowledgement.
pub fn finish_entity_tombstone(req: &EntityTombstoneRequest, ack: &Ack) -> (r: Result<
    (u64, EntityTombstonedEvent),
    OpError,
>)
    ensures
        answers_entity_tombstone(r, *req, *ack),
{
    match &ack.phase {
        PhaseAck::Tombstoned { tombstoned_at_unix_nanos } => Ok(
            (
                *tombstoned_at_unix_nanos,
                EntityTombstonedEvent { entity_id: req.entity_id, reason: req.reason.clone() },
            ),
        ),
        _ => Err(unexpected("unexpected phase ack for ENTITY_TOMBSTONE: ", &ack.shown)),
    }
}

// The list.

#[derive(Debug)]
pub struct EntityListRequest {
    pub entity_type_id: u32,
    pub include_tombstoned: bool,
    pub include_merged: bool,
    pub mention_count_min: u64,
    pub name_prefix: String,
    pub limit: u32,
    pub cursor: Vec<u8>,
}

/// The walk that a list asks the store for. A name prefix is to be normalized
/// before it is matched.
#[derive(Debug)]
pub struct EntityWalk {
    pub entity_type_id: u32,
    pub include_tombstoned: bool,
    pub include_merged: bool,
    pub mention_count_min: u64,
    pub name_prefix: Option<String>,
    pub resume_after: Option<[u8; 16]>,
    pub limit: u32,
}

/// Why a list is refused, if it is.
pub open spec fn entity_list_error(req: EntityListRequest, caller: RowScope) -> Option<ErrorView> {
    if req.limit == 0 || req.limit > 1000 {
        Some(ErrorView::InvalidRequest("limit must be in 1..=1000"@))
    } else if req.entity_type_id == 0 {
        Some(ErrorView::InvalidRequest("entity_type_id filter is required in v1.0 ENTITY_LIST"@))
    } else if req.cursor@.len() > 0 && !crate::cursor::well_formed(req.cursor@) {
        Some(ErrorView::InvalidRequest("malformed cursor"@))
    } else if req.cursor@.len() > 0 && !crate::cursor::owned_by(req.cursor@, caller) {
        Some(ErrorView::InvalidRequest("cursor does not belong to the caller's tenant"@))
    } else {
        None
    }
}

/// What planning a list comes to.
pub open spec fn plans_entity_list(
    r: Result<EntityWalk, OpError>,
    req: EntityListRequest,
    caller: RowScope,
) -> bool {
    match entity_list_error(req, caller) {
        Some(e) => fails(r, e),
        None => r matches Ok(w) && {
            &&& w.entity_type_id == req.entity_type_id
            &&& w.include_tombstoned == req.include_tombstoned
            &&& w.include_merged == req.include_merged
            &&& w.mention_count_min == req.mention_count_min
            &&& w.name_prefix == (if req.name_prefix@.len() == 0 {
                None
            } else {
                Some(req.name_prefix)
            })
            &&& w.limit == req.limit
            &&& w.resume_after is None <==> req.cursor@.len() == 0
            &&& w.resume_after matches Some(id) ==> id@ == req.cursor@.subrange(21, 37)
        },
    }
}

/// Plans a list.
pub fn plan_entity_list(req: &EntityListRequest, caller: &RowScope) -> (r: Result<
    EntityWalk,
    OpError,
>)
    ensures
        plans_entity_list(r, *req, *caller),
{
    if req.limit == 0 || req.limit > 1000 {
        return Err(invalid("limit must be in 1..=1000"));
    }
    if req.entity_type_id == 0 {
        return Err(invalid("entity_type_id filter is required in v1.0 ENTITY_LIST"));
    }
    let resume_after = match decode_opt(*caller, req.cursor.as_slice()) {
        Ok(c) => c,
        Err(e) => {
            return Err(e);
        },
    };
    let name_prefix = if req.name_prefix.as_str().is_empty() {
        None
    } else {
        Some(req.name_prefix.clone())
    };
    Ok(
        EntityWalk {
            entity_type_id: req.entity_type_id,
            include_tombstoned: req.include_tombstoned,
            include_merged: req.include_merged,
            mention_count_min: req.mention_count_min,
            name_prefix,
            resume_after,
            limit: req.limit,
        },
    )
}

/// A page of the list, as it was read.
#[derive(Debug)]
pub struct EntityPage {
    pub rows: Vec<Entity>,
    pub has_more: bool,
    pub last_id: Option<[u8; 16]>,
}

#[derive(Debug)]
pub struct EntityListResponseFrame {
    pub items: Vec<EntityView>,
    pub next_cursor: Vec<u8>,
    pub cumulative_count: u32,
    pub is_final: bool,
}

/// What a page of the list shows.
pub open spec fn shows_entity_page(
    r: EntityListResponseFrame,
    page: EntityPage,
    caller: RowScope,
) -> bool {
    &&& r.items@.len() == page.rows@.len()
    &&& (forall|i: int|
        0 <= i < page.rows@.len() ==> shows_entity(#[trigger] r.items@[i], page.rows@[i]))
    &&& r.cumulative_count == low32(page.rows@.len())
    &&& r.is_final
    &&& r.next_cursor@ == (if page.has_more && page.last_id is Some {
        crate::cursor::cursor_bytes(caller, page.last_id->0@)
    } else {
        Seq::<u8>::empty()
    })
}

/// Shows a page of the list, with a cursor for the next where there is more.
pub fn entity_list_frame(page: &EntityPage, caller: &RowScope) -> (r: EntityListResponseFrame)
    ensures
        shows_entity_page(r, *page, *caller),
{
    let next_cursor = match page.last_id {
        Some(id) if page.has_more => encode(*caller, id),
        _ => Vec::new(),
    };
    let mut items: Vec<EntityView> = Vec::new();
    for i in 0..page.rows.len()
        invariant
            items@.len() == i,
            forall|k: int| 0 <= k < i ==> shows_entity(#[trigger] items@[k], page.rows@[k]),
    {
        items.push(entity_to_view(&page.rows[i]));
    }
    let cumulative_count: u32 = length_u32(items.len());
    EntityListResponseFrame { items, next_cursor, cumulative_count, is_final: true }
}

/// No entity write is planned for a caller that does not own the entity.
pub proof fn foreign_entities_are_never_written(
    update: EntityUpdateRequest,
    rename: EntityRenameRequest,
    merge: EntityMergeRequest,
    tombstone: EntityTombstoneRequest,
    owner: Option<RowScope>,
    other: Option<RowScope>,
    caller: RowScope,
    shown: Seq<char>,
)
    requires
        owner != Some(caller),
    ensures
        update_error(update, owner, caller, shown) is Some,
        rename_error(rename, owner, caller, shown) is Some,
        merge_error(merge, owner, other, caller, shown, shown) is Some,
        merge_error(merge, other, owner, caller, shown, shown) is Some,
        entity_tombstone_error(tombstone, owner, caller, shown) is Some,
{
}

} // verus!
