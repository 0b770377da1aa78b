//! Forgetting every memory of a space or of one of its sessions.
use vstd::prelude::*;

use vstd::utf8::encode_utf8;

use crate::bytes::{be_value, put_bytes, put_text, read_be};
use crate::hash::blake3_hash;
use crate::scope::RowScope;
use crate::write::{is_request_write, request_write, Phase, TombstoneTarget, Write, WriteId};

verus! {

/// The reason byte of a client's request.
pub const CLIENT_REQUEST: u8 = 1;

/// The session of a timeline key, which is
/// `scope(20) + time(8) + session(8) + memory(16)`.
pub open spec fn key_session(key: [u8; 52]) -> nat {
    be_value(key@.subrange(28, 36))
}

/// The memory of a timeline key.
pub open spec fn key_memory(key: [u8; 52]) -> nat {
    be_value(key@.subrange(36, 52))
}

/// Whether two keys enclose the timeline of a prefix.
pub open spec fn bounds_timeline(
    r: ([u8; 52], [u8; 52]),
    prefix: [u8; 20],
) -> bool {
    &&& r.0@.take(20) == prefix@
    &&& r.1@.take(20) == prefix@
    &&& (forall|i: int| 20 <= i < 52 ==> #[trigger] r.0@[i] == 0)
    &&& (forall|i: int| 20 <= i < 52 ==> #[trigger] r.1@[i] == 0xFF)
}

/// The first and the last key of a scope, from the twenty bytes that its keys
/// start with.
pub fn timeline_bounds(prefix: &[u8; 20]) -> (r: ([u8; 52], [u8; 52]))
    ensures
        bounds_timeline(r, *prefix),
{
    let mut start: [u8; 52] = [0u8;52];
    let mut end: [u8; 52] = [255u8;52];
    for i in 0..20usize
        invariant
            forall|k: int| 0 <= k < i ==> start@[k] == prefix@[k] && end@[k] == prefix@[k],
            forall|k: int| 20 <= k < 52 ==> #[trigger] start@[k] == 0,
            forall|k: int| 20 <= k < 52 ==> #[trigger] end@[k] == 0xFF,
    {
        start[i] = prefix[i];
        end[i] = prefix[i];
    }
    assert(start@.take(20) =~= prefix@);
    assert(end@.take(20) =~= prefix@);
    (start, end)
}

/// The memories of timeline keys, of one session where it is given.
pub open spec fn cascade_memories(keys: Seq<[u8; 52]>, session: Option<u64>) -> Seq<u128>
    decreases keys.len(),
{
    if keys.len() == 0 {
        Seq::empty()
    } else {
        let before = cascade_memories(keys.drop_last(), session);
        let key = keys.last();
        if session matches Some(want) && key_session(key) != want {
            before
        } else {
            before.push(key_memory(key) as u128)
        }
    }
}

/// The memories to forget, in timeline order.
pub fn cascade_ids(keys: &Vec<[u8; 52]>, session: Option<u64>) -> (r: Vec<u128>)
    ensures
        r@ == cascade_memories(keys@, session),
{
    let mut ids: Vec<u128> = Vec::new();
    for i in 0..keys.len()
        invariant
            ids@ == cascade_memories(keys@.take(i as int), session),
    {
        assert(keys@.take(i + 1).drop_last() =~= keys@.take(i as int));
        let key = &keys[i];
        let wanted = match session {
            Some(want) => read_be(key.as_slice(), 28, 8) == want as u128,
            None => true,
        };
        if wanted {
            ids.push(read_be(key.as_slice(), 36, 16));
        }
    }
    assert(keys@.take(keys@.len() as int) =~= keys@);
    ids
}

/// Whether a write forgets a memory for its owner.
pub open spec fn forgets_memory(
    r: Write,
    id: u128,
    hard: bool,
    caller: RowScope,
    now: u64,
) -> bool {
    r == (Write {
        write_id: WriteId::Fresh,
        space_id: caller.space_id_bytes,
        namespace_id: Some(caller.namespace_id),
        space_string: None,
        request_hash: None,
        phase: Phase::Tombstone {
            target: TombstoneTarget::Memory { id, hard },
            reason: CLIENT_REQUEST,
            at_unix_nanos: now,
        },
    })
}

/// The write that forgets one memory of a cascade; it is never replayed.
pub fn cascade_write(id: u128, hard: bool, caller: &RowScope, now: u64) -> (r: Write)
    ensures
        forgets_memory(r, id, hard, *caller, now),
{
    Write {
        write_id: WriteId::Fresh,
        space_id: caller.space_id_bytes,
        namespace_id: Some(caller.namespace_id),
        space_string: None,
        request_hash: None,
        phase: Phase::Tombstone {
            target: TombstoneTarget::Memory { id, hard },
            reason: CLIENT_REQUEST,
            at_unix_nanos: now,
        },
    }
}

/// Whether the writes forget the memories of a timeline.
pub open spec fn forgets_memories(
    r: Vec<Write>,
    keys: Vec<[u8; 52]>,
    hard: bool,
    session: Option<u64>,
    caller: RowScope,
    now: u64,
) -> bool {
    &&& r@.len() == cascade_memories(keys@, session).len()
    &&& (forall|i: int|
        0 <= i < r@.len() ==> #[trigger] r@[i] == (Write {
            write_id: WriteId::Fresh,
            space_id: caller.space_id_bytes,
            namespace_id: Some(caller.namespace_id),
            space_string: None,
            request_hash: None,
            phase: Phase::Tombstone {
                target: TombstoneTarget::Memory {
                    id: cascade_memories(keys@, session)[i],
                    hard,
                },
                reason: CLIENT_REQUEST,
                at_unix_nanos: now,
            },
        }))
}

/// The writes of a cascade, one for each memory.
pub fn tombstone_space_memories(
    keys: &Vec<[u8; 52]>,
    hard: bool,
    session: Option<u64>,
    caller: &RowScope,
    now: u64,
) -> (r: Vec<Write>)
    ensures
        forgets_memories(r, *keys, hard, session, *caller, now),
{
    let ids = cascade_ids(keys, session);
    let mut out: Vec<Write> = Vec::new();
    for i in 0..ids.len()
        invariant
            ids@ == cascade_memories(keys@, session),
            out@.len() == i,
            forall|k: int|
                0 <= k < i ==> #[trigger] out@[k] == (Write {
                    write_id: WriteId::Fresh,
                    space_id: caller.space_id_bytes,
                    namespace_id: Some(caller.namespace_id),
                    space_string: None,
                    request_hash: None,
                    phase: Phase::Tombstone {
                        target: TombstoneTarget::Memory { id: ids@[k], hard },
                        reason: CLIENT_REQUEST,
                        at_unix_nanos: now,
                    },
                }),
    {
        out.push(cascade_write(ids[i], hard, caller, now));
    }
    out
}

/// A cascade over one session never touches a memory of another, and one over
/// a whole space leaves none out.
pub proof fn cascades_stay_in_their_session(keys: Seq<[u8; 52]>, session: Option<u64>, id: u128)
    requires
        cascade_memories(keys, session).contains(id),
    ensures
        exists|i: int|
            #![trigger keys[i]]
            0 <= i < keys.len() && key_memory(keys[i]) as u128 == id && (session matches Some(want)
                ==> key_session(keys[i]) == want),
        session is None ==> cascade_memories(keys, session).len() == keys.len(),
    decreases keys.len(),
{
    whole_cascades_are_complete(keys);
    if keys.len() > 0 {
        let front = keys.drop_last();
        let before = cascade_memories(front, session);
        if before.contains(id) {
            cascades_stay_in_their_session(front, session, id);
            let i = choose|i: int|
                #![trigger front[i]]
                0 <= i < front.len() && key_memory(front[i]) as u128 == id && (session matches Some(
                    want,
                ) ==> key_session(front[i]) == want);
            assert(keys[i] == front[i]);
        } else {
            let all = cascade_memories(keys, session);
            let k = choose|k: int| 0 <= k < all.len() && all[k] == id;
            if k < before.len() {
                assert(before[k] == id);
            }
            assert(keys[keys.len() - 1] == keys.last());
        }
    }
}

proof fn whole_cascades_are_complete(keys: Seq<[u8; 52]>)
    ensures
        cascade_memories(keys, None).len() == keys.len(),
    decreases keys.len(),
{
    if keys.len() > 0 {
        whole_cascades_are_complete(keys.drop_last());
    }
}

// Registry writes.

/// The digested fields of a registry write.
pub open spec fn registry_fields(domain: Seq<char>, request_id: [u8; 16], space: [u8; 16]) -> Seq<
    u8,
> {
    encode_utf8(domain) + request_id@ + space@
}

/// Whether a write of the registry is filed under its request.
pub open spec fn files_registry(
    r: Write,
    request_id: [u8; 16],
    caller: RowScope,
    phase: Phase,
    domain: Seq<char>,
) -> bool {
    &&& is_request_write(
        r,
        request_id,
        caller,
        registry_fields(domain, request_id, caller.space_id_bytes),
    )
    &&& r.phase == phase
}

/// A registry write of the caller, remembered under the request id.
pub fn build_write(request_id: [u8; 16], caller: &RowScope, phase: Phase, domain: &str) -> (r: Write)
    ensures
        files_registry(r, request_id, *caller, phase, domain@),
{
    let mut h: Vec<u8> = Vec::new();
    put_text(&mut h, domain);
    put_bytes(&mut h, request_id.as_slice());
    put_bytes(&mut h, caller.space_id_bytes.as_slice());
    assert(h@ =~= registry_fields(domain@, request_id, caller.space_id_bytes));
    let hash = blake3_hash(h.as_slice());
    request_write(request_id, caller, hash, phase)
}

} // verus!
