//! The evidence list of a statement.
use vstd::prelude::*;

verus! {

/// The evidence that a statement holds inline: memory ids in a
/// `smallvec::SmallVec`.
#[derive(Debug)]
#[verifier::external_body]
pub struct InlineEvidence {
    entries: smallvec::SmallVec<[[u8; 16]; 8]>,
}

/// The entries of an evidence list, in order.
pub uninterp spec fn evidence_entries(list: InlineEvidence) -> Seq<[u8; 16]>;

/// `smallvec::SmallVec::new` makes a list without entries.
#[verifier::external_body]
pub(crate) fn evidence_new() -> (r: InlineEvidence)
    ensures
        evidence_entries(r) == Seq::<[u8; 16]>::empty(),
{
    InlineEvidence { entries: smallvec::SmallVec::new() }
}

/// `smallvec::SmallVec::push` appends one entry and keeps the others.
#[verifier::external_body]
pub(crate) fn evidence_push(list: &mut InlineEvidence, id: [u8; 16])
    ensures
        evidence_entries(*final(list)) == evidence_entries(*old(list)).push(id),
{
    list.entries.push(id);
}

/// `smallvec::SmallVec::into_vec` turns the list into a `Vec` of the same
/// entries in the same order.
#[verifier::external_body]
pub(crate) fn evidence_into_vec(list: InlineEvidence) -> (r: Vec<[u8; 16]>)
    ensures
        r@ == evidence_entries(list),
{
    list.entries.into_vec()
}

/// An evidence list of the given entries.
pub fn evidence_of(ids: &Vec<[u8; 16]>) -> (r: InlineEvidence)
    ensures
        evidence_entries(r) == ids@,
{
    let mut out = evidence_new();
    for i in 0..ids.len()
        invariant
            evidence_entries(out) == ids@.take(i as int),
    {
        evidence_push(&mut out, ids[i]);
        assert(ids@.take(i + 1) =~= ids@.take(i as int).push(ids@[i as int]));
    }
    assert(ids@.take(ids@.len() as int) =~= ids@);
    out
}

/// The entries of an evidence list.
pub fn evidence_ids(list: InlineEvidence) -> (r: Vec<[u8; 16]>)
    ensures
        r@ == evidence_entries(list),
{
    evidence_into_vec(list)
}

} // verus!
