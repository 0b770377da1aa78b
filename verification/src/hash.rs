//! BLAKE3 digests of request fields.
use vstd::prelude::*;

verus! {

/// The BLAKE3 digest of a byte string.
pub uninterp spec fn blake3_digest(input: Seq<u8>) -> Seq<u8>;

/// `blake3::hash`: the 32-byte BLAKE3 digest of the input. Which bytes those
/// are is named, not spelled out.
#[verifier::external_body]
pub(crate) fn blake3_hash(input: &[u8]) -> (r: [u8; 32])
    ensures
        r@ == blake3_digest(input@),
{
    *blake3::hash(input).as_bytes()
}

/// The first eight bytes of a digest: a filter signature.
pub fn first8(full: &[u8; 32]) -> (r: [u8; 8])
    ensures
        r@ == full@.take(8),
{
    let mut out: [u8; 8] = [0u8;8];
    for i in 0..8usize
        invariant
            forall|j: int| 0 <= j < i ==> out@[j] == full@[j],
    {
        out[i] = full[i];
    }
    assert(out@ =~= full@.take(8));
    out
}

/// The byte of a flag.
pub open spec fn flag_byte(b: bool) -> u8 {
    if b {
        1
    } else {
        0
    }
}

/// The byte of a flag.
pub fn byte_of(b: bool) -> (r: u8)
    ensures
        r == flag_byte(b),
{
    if b {
        1
    } else {
        0
    }
}

} // verus!
