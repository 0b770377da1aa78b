//! The tenant scope of a row.
use vstd::prelude::*;

use crate::bytes::eq16;

verus! {

/// The `(namespace, space)` pair that owns a row.
#[derive(Clone, Copy, Debug, PartialEq, Eq)]
pub struct RowScope {
    pub namespace_id: u32,
    pub space_id_bytes: [u8; 16],
}

impl RowScope {
    pub fn from_bytes(namespace_id: u32, space_id_bytes: [u8; 16]) -> (r: RowScope)
        ensures
            r.namespace_id == namespace_id,
            r.space_id_bytes == space_id_bytes,
    {
        RowScope { namespace_id, space_id_bytes }
    }
}

/// Whether a row belongs to a caller: both halves of the scope agree.
pub fn same_scope(row: &RowScope, caller: &RowScope) -> (r: bool)
    ensures
        r == (*row == *caller),
{
    row.namespace_id == caller.namespace_id && eq16(&row.space_id_bytes, &caller.space_id_bytes)
}

/// The tenant wall: a row is visible when it is there and its scope is the
/// caller's. A missing row and a foreign one look alike.
pub fn in_caller_scope(row: Option<RowScope>, caller: &RowScope) -> (r: bool)
    ensures
        r == (row == Some(*caller)),
{
    match row {
        Some(s) => same_scope(&s, caller),
        None => false,
    }
}

/// A foreign row and a missing row give one answer.
pub proof fn foreign_reads_as_missing(foreign: RowScope, caller: RowScope)
    requires
        foreign != caller,
    ensures
        (Some(foreign) == Some(caller)) == (None::<RowScope> == Some(caller)),
{
}

} // verus!
