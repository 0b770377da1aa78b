//! What the digested fields of a request tell: everything that makes it another
//! request, and not its id.
use vstd::prelude::*;

use vstd::utf8::{encode_utf8, encode_utf8_decode_utf8};

use crate::bytes::{le_bytes, le_round_trip, pow256_values};
use crate::entity_ops::{
    alias_bytes, entity_create_fields, entity_merge_fields, entity_rename_fields,
    entity_tombstone_fields, entity_unmerge_fields, entity_update_fields, EntityCreateRequest,
    EntityMergeRequest, EntityRenameRequest, EntityTombstoneRequest, EntityUnmergeRequest,
    EntityUpdateRequest,
};
use crate::hash::flag_byte;
use crate::schema::{schema_upload_fields, SchemaUploadRequest};
use crate::schema_drop::{schema_drop_fields, SchemaDropRequest};
use crate::schema_replace::{schema_replace_fields, SchemaReplaceRequest};

verus! {

/// Two joined strings of bytes are equal part by part where the first parts
/// are as long.
proof fn parts_are_told<T>(a: Seq<T>, x: Seq<T>, b: Seq<T>, y: Seq<T>)
    requires
        a + x == b + y,
        a.len() == b.len(),
    ensures
        a == b,
        x == y,
{
    assert(a =~= (a + x).take(a.len() as int));
    assert(b =~= (b + y).take(a.len() as int));
    assert(x =~= (a + x).skip(a.len() as int));
    assert(y =~= (b + y).skip(a.len() as int));
}

/// Two joined strings of bytes are equal part by part where the last parts are
/// as long.
proof fn tails_are_told<T>(a: Seq<T>, x: Seq<T>, b: Seq<T>, y: Seq<T>)
    requires
        a + x == b + y,
        x.len() == y.len(),
    ensures
        a == b,
        x == y,
{
    assert((a + x).len() == a.len() + x.len());
    assert((b + y).len() == b.len() + y.len());
    parts_are_told(a, x, b, y);
}

proof fn texts_are_told(a: Seq<char>, b: Seq<char>)
    requires
        encode_utf8(a) == encode_utf8(b),
    ensures
        a == b,
{
    encode_utf8_decode_utf8(a);
    encode_utf8_decode_utf8(b);
}

proof fn ids_are_told(a: [u8; 16], b: [u8; 16])
    requires
        a@ == b@,
    ensures
        a == b,
{
    assert(a =~= b);
}

proof fn flags_are_told(a: bool, b: bool)
    requires
        seq![flag_byte(a)] == seq![flag_byte(b)],
    ensures
        a == b,
{
    let (x, y) = (seq![flag_byte(a)], seq![flag_byte(b)]);
    assert(x[0] == flag_byte(a));
    assert(y[0] == flag_byte(b));
}

/// A retry under another request id digests the same fields.
pub proof fn entity_digests_ignore_request_ids(
    create: EntityCreateRequest,
    update: EntityUpdateRequest,
    rename: EntityRenameRequest,
    merge: EntityMergeRequest,
    unmerge: EntityUnmergeRequest,
    tombstone: EntityTombstoneRequest,
    other: [u8; 16],
)
    ensures
        entity_create_fields(EntityCreateRequest { request_id: other, ..create })
            == entity_create_fields(create),
        entity_update_fields(EntityUpdateRequest { request_id: other, ..update })
            == entity_update_fields(update),
        entity_rename_fields(EntityRenameRequest { request_id: other, ..rename })
            == entity_rename_fields(rename),
        entity_merge_fields(EntityMergeRequest { request_id: other, ..merge })
            == entity_merge_fields(merge),
        entity_unmerge_fields(EntityUnmergeRequest { request_id: other, ..unmerge })
            == entity_unmerge_fields(unmerge),
        entity_tombstone_fields(EntityTombstoneRequest { request_id: other, ..tombstone })
            == entity_tombstone_fields(tombstone),
{
}

/// A tombstone of another entity, or for another reason, is another request.
pub proof fn tombstone_digests_tell_requests(a: EntityTombstoneRequest, b: EntityTombstoneRequest)
    requires
        entity_tombstone_fields(a) == entity_tombstone_fields(b),
    ensures
        a.entity_id == b.entity_id,
        a.reason@ == b.reason@,
{
    let domain = encode_utf8("entity_tombstone:"@);
    let (ra, rb) = (encode_utf8(a.reason@), encode_utf8(b.reason@));
    parts_are_told(
        domain + a.entity_id@ + seq![0u8],
        ra,
        domain + b.entity_id@ + seq![0u8],
        rb,
    );
    tails_are_told(domain + a.entity_id@, seq![0u8], domain + b.entity_id@, seq![0u8]);
    parts_are_told(domain, a.entity_id@, domain, b.entity_id@);
    ids_are_told(a.entity_id, b.entity_id);
    texts_are_told(a.reason@, b.reason@);
}

/// A merge of another pair, with another confidence or for another reason, is
/// another request.
pub proof fn merge_digests_tell_requests(a: EntityMergeRequest, b: EntityMergeRequest)
    requires
        entity_merge_fields(a) == entity_merge_fields(b),
    ensures
        a.survivor == b.survivor,
        a.merged == b.merged,
        a.confidence.bits == b.confidence.bits,
        a.reason@ == b.reason@,
{
    let domain = encode_utf8("entity_merge:"@);
    let zero = seq![0u8];
    let (ca, cb) = (le_bytes(a.confidence.bits as nat, 4), le_bytes(b.confidence.bits as nat, 4));
    pow256_values();
    le_round_trip(a.confidence.bits as nat, 4);
    le_round_trip(b.confidence.bits as nat, 4);
    let (sa, sb) = (domain + a.survivor@, domain + b.survivor@);
    let (ma, mb) = (sa + zero + a.merged@, sb + zero + b.merged@);
    let (wa, wb) = (ma + zero + ca + zero, mb + zero + cb + zero);
    parts_are_told(wa, encode_utf8(a.reason@), wb, encode_utf8(b.reason@));
    tails_are_told(ma + zero + ca, zero, mb + zero + cb, zero);
    tails_are_told(ma + zero, ca, mb + zero, cb);
    tails_are_told(ma, zero, mb, zero);
    tails_are_told(sa + zero, a.merged@, sb + zero, b.merged@);
    tails_are_told(sa, zero, sb, zero);
    tails_are_told(domain, a.survivor@, domain, b.survivor@);
    ids_are_told(a.survivor, b.survivor);
    ids_are_told(a.merged, b.merged);
    texts_are_told(a.reason@, b.reason@);
}

/// A rename of another entity, to another name, or with the alias flag
/// toggled, is another request.
pub proof fn rename_digests_tell_requests(a: EntityRenameRequest, b: EntityRenameRequest)
    requires
        entity_rename_fields(a) == entity_rename_fields(b),
    ensures
        a.entity_id == b.entity_id,
        a.new_canonical_name@ == b.new_canonical_name@,
        a.move_to_alias == b.move_to_alias,
{
    let domain = encode_utf8("entity_rename:"@);
    let zero = seq![0u8];
    let (na, nb) = (encode_utf8(a.new_canonical_name@), encode_utf8(b.new_canonical_name@));
    let (ia, ib) = (domain + a.entity_id@ + zero, domain + b.entity_id@ + zero);
    tails_are_told(
        ia + na + zero,
        seq![flag_byte(a.move_to_alias)],
        ib + nb + zero,
        seq![flag_byte(b.move_to_alias)],
    );
    tails_are_told(ia + na, zero, ib + nb, zero);
    parts_are_told(ia, na, ib, nb);
    tails_are_told(domain + a.entity_id@, zero, domain + b.entity_id@, zero);
    tails_are_told(domain, a.entity_id@, domain, b.entity_id@);
    ids_are_told(a.entity_id, b.entity_id);
    texts_are_told(a.new_canonical_name@, b.new_canonical_name@);
    flags_are_told(a.move_to_alias, b.move_to_alias);
}

/// An unmerge of another entity is another request.
pub proof fn unmerge_digests_tell_requests(a: EntityUnmergeRequest, b: EntityUnmergeRequest)
    requires
        entity_unmerge_fields(a) == entity_unmerge_fields(b),
    ensures
        a.merged_entity == b.merged_entity,
{
    let domain = encode_utf8("entity_unmerge:"@);
    tails_are_told(domain, a.merged_entity@, domain, b.merged_entity@);
    ids_are_told(a.merged_entity, b.merged_entity);
}

/// An upload of another document, or with the breaking flag flipped, is
/// another request.
pub proof fn upload_digests_tell_requests(a: SchemaUploadRequest, b: SchemaUploadRequest)
    requires
        schema_upload_fields(a) == schema_upload_fields(b),
    ensures
        a.schema_document@ == b.schema_document@,
        a.allow_breaking == b.allow_breaking,
{
    let domain = encode_utf8("schema_upload:"@);
    let zero = seq![0u8];
    let (da, db) = (encode_utf8(a.schema_document@), encode_utf8(b.schema_document@));
    tails_are_told(
        domain + da + zero,
        seq![flag_byte(a.allow_breaking)],
        domain + db + zero,
        seq![flag_byte(b.allow_breaking)],
    );
    tails_are_told(domain + da, zero, domain + db, zero);
    parts_are_told(domain, da, domain, db);
    texts_are_told(a.schema_document@, b.schema_document@);
    flags_are_told(a.allow_breaking, b.allow_breaking);
}

/// A replacement by another document, or with the confirmation flipped, is
/// another request.
pub proof fn replace_digests_tell_requests(a: SchemaReplaceRequest, b: SchemaReplaceRequest)
    requires
        schema_replace_fields(a) == schema_replace_fields(b),
    ensures
        a.schema_document@ == b.schema_document@,
        a.force_drop_existing == b.force_drop_existing,
{
    let domain = encode_utf8("schema_replace:"@);
    let zero = seq![0u8];
    let (da, db) = (encode_utf8(a.schema_document@), encode_utf8(b.schema_document@));
    tails_are_told(
        domain + da + zero,
        seq![flag_byte(a.force_drop_existing)],
        domain + db + zero,
        seq![flag_byte(b.force_drop_existing)],
    );
    tails_are_told(domain + da, zero, domain + db, zero);
    parts_are_told(domain, da, domain, db);
    texts_are_told(a.schema_document@, b.schema_document@);
    flags_are_told(a.force_drop_existing, b.force_drop_existing);
}

/// A drop with the force flag flipped is another request.
pub proof fn drop_digests_tell_force(a: SchemaDropRequest, b: SchemaDropRequest)
    requires
        schema_drop_fields(a) == schema_drop_fields(b),
    ensures
        a.force == b.force,
{
    let domain = encode_utf8("schema_drop:"@);
    let zero = seq![0u8];
    tails_are_told(
        domain + encode_utf8(a.namespace@) + zero + seq![a.target_kind] + zero + encode_utf8(
            a.target_name@,
        ) + zero,
        seq![flag_byte(a.force)],
        domain + encode_utf8(b.namespace@) + zero + seq![b.target_kind] + zero + encode_utf8(
            b.target_name@,
        ) + zero,
        seq![flag_byte(b.force)],
    );
    flags_are_told(a.force, b.force);
}

// Aliases.

/// Whether no alias holds a zero byte.
pub open spec fn plain_aliases(aliases: Seq<String>) -> bool {
    forall|i: int|
        0 <= i < aliases.len() ==> !encode_utf8((#[trigger] aliases[i])@).contains(0u8)
}

/// The texts of some aliases.
pub open spec fn alias_texts(aliases: Seq<String>) -> Seq<Seq<char>> {
    aliases.map_values(|s: String| s@)
}

/// The bytes of a list of aliases that begins with another alias end with those
/// of the rest.
proof fn alias_bytes_split(aliases: Seq<String>)
    requires
        aliases.len() > 0,
    ensures
        alias_bytes(aliases) == encode_utf8(aliases[0]@) + seq![0u8] + alias_bytes(
            aliases.skip(1),
        ),
    decreases aliases.len(),
{
    let front = aliases.drop_last();
    let rest = aliases.skip(1);
    let first = encode_utf8(aliases[0]@) + seq![0u8];
    if aliases.len() == 1 {
        assert(front =~= Seq::empty());
        assert(rest =~= Seq::empty());
        assert(alias_bytes(aliases) =~= first + alias_bytes(rest));
    } else {
        alias_bytes_split(front);
        assert(front.skip(1) =~= rest.drop_last());
        assert(rest.last() == aliases.last());
        assert(alias_bytes(aliases) =~= first + alias_bytes(rest));
    }
}

/// Two texts that end at the first zero byte are equal where what follows them
/// joins to the same bytes.
proof fn first_zero_tells(a: Seq<u8>, x: Seq<u8>, b: Seq<u8>, y: Seq<u8>)
    requires
        !a.contains(0u8),
        !b.contains(0u8),
        a + seq![0u8] + x == b + seq![0u8] + y,
    ensures
        a == b,
        x == y,
{
    let (p, q) = (a + seq![0u8] + x, b + seq![0u8] + y);
    if a.len() < b.len() {
        assert(p[a.len() as int] == 0u8);
        assert(q[a.len() as int] == b[a.len() as int]);
        assert(b.contains(0u8));
    } else if b.len() < a.len() {
        assert(q[b.len() as int] == 0u8);
        assert(p[b.len() as int] == a[b.len() as int]);
        assert(a.contains(0u8));
    }
    parts_are_told(a + seq![0u8], x, b + seq![0u8], y);
    parts_are_told(a, seq![0u8], b, seq![0u8]);
}

proof fn alias_bytes_tell(a: Seq<String>, b: Seq<String>)
    requires
        plain_aliases(a),
        plain_aliases(b),
        alias_bytes(a) == alias_bytes(b),
    ensures
        alias_texts(a) == alias_texts(b),
    decreases a.len(),
{
    if a.len() > 0 {
        alias_bytes_split(a);
    }
    if b.len() > 0 {
        alias_bytes_split(b);
    }
    if a.len() == 0 || b.len() == 0 {
        assert(alias_bytes(a).len() == alias_bytes(b).len());
        assert(alias_texts(a) =~= alias_texts(b));
    } else {
        let (ra, rb) = (a.skip(1), b.skip(1));
        assert(!encode_utf8(a[0]@).contains(0u8));
        assert(!encode_utf8(b[0]@).contains(0u8));
        first_zero_tells(encode_utf8(a[0]@), alias_bytes(ra), encode_utf8(b[0]@), alias_bytes(rb));
        texts_are_told(a[0]@, b[0]@);
        assert forall|i: int| 0 <= i < ra.len() implies !encode_utf8((#[trigger] ra[i])@).contains(
            0u8,
        ) by {
            assert(ra[i] == a[i + 1]);
        }
        assert forall|i: int| 0 <= i < rb.len() implies !encode_utf8((#[trigger] rb[i])@).contains(
            0u8,
        ) by {
            assert(rb[i] == b[i + 1]);
        }
        alias_bytes_tell(ra, rb);
        assert(alias_texts(a) =~= seq![a[0]@] + alias_texts(ra));
        assert(alias_texts(b) =~= seq![b[0]@] + alias_texts(rb));
    }
}

/// Aliases are digested in order: two requests that differ only in their
/// aliases, be it in the order of them, are two requests. Aliases that hold a
/// zero byte are left out, because that byte ends an alias.
pub proof fn aliases_are_digested_in_order(a: EntityCreateRequest, b: EntityCreateRequest)
    requires
        a.entity_type_id == b.entity_type_id,
        a.canonical_name@ == b.canonical_name@,
        a.attributes_blob@ == b.attributes_blob@,
        a.session_id == b.session_id,
        plain_aliases(a.aliases@),
        plain_aliases(b.aliases@),
        entity_create_fields(a) == entity_create_fields(b),
    ensures
        alias_texts(a.aliases@) == alias_texts(b.aliases@),
{
    let head = encode_utf8("entity_create:"@) + le_bytes(a.entity_type_id as nat, 4) + seq![0u8]
        + encode_utf8(a.canonical_name@) + seq![0u8];
    let zero = seq![0u8];
    let blob = a.attributes_blob@;
    let session = le_bytes(a.session_id as nat, 8);
    let (la, lb) = (alias_bytes(a.aliases@), alias_bytes(b.aliases@));
    tails_are_told(
        head + la + zero + blob + zero,
        session,
        head + lb + zero + blob + zero,
        session,
    );
    tails_are_told(head + la + zero + blob, zero, head + lb + zero + blob, zero);
    tails_are_told(head + la + zero, blob, head + lb + zero, blob);
    tails_are_told(head + la, zero, head + lb, zero);
    parts_are_told(head, la, head, lb);
    alias_bytes_tell(a.aliases@, b.aliases@);
}

/// The same holds of updates.
pub proof fn updated_aliases_are_digested_in_order(a: EntityUpdateRequest, b: EntityUpdateRequest)
    requires
        a.entity_id == b.entity_id,
        a.canonical_name@ == b.canonical_name@,
        a.attributes_blob@ == b.attributes_blob@,
        plain_aliases(a.aliases@),
        plain_aliases(b.aliases@),
        entity_update_fields(a) == entity_update_fields(b),
    ensures
        alias_texts(a.aliases@) == alias_texts(b.aliases@),
{
    let head = encode_utf8("entity_update:"@) + a.entity_id@ + seq![0u8] + encode_utf8(
        a.canonical_name@,
    ) + seq![0u8];
    let zero = seq![0u8];
    let blob = a.attributes_blob@;
    let (la, lb) = (alias_bytes(a.aliases@), alias_bytes(b.aliases@));
    tails_are_told(head + la + zero, blob, head + lb + zero, blob);
    tails_are_told(head + la, zero, head + lb, zero);
    parts_are_told(head, la, head, lb);
    alias_bytes_tell(a.aliases@, b.aliases@);
}

} // verus!
