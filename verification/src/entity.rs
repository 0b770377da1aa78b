//! Entities.
use vstd::prelude::*;

verus! {

/// A stored entity.
#[derive(Debug)]
pub struct Entity {
    pub id: [u8; 16],
    pub entity_type: u32,
    pub canonical_name: String,
    pub normalized_name: String,
    pub aliases: Vec<String>,
    pub attributes: Vec<u8>,
    pub mention_count: u64,
    pub created_at_unix_nanos: u64,
    pub updated_at_unix_nanos: u64,
    pub merged_into: Option<[u8; 16]>,
    pub embedding_version: u32,
    pub flags: u32,
}

} // verus!
