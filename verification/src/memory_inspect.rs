//! Inspecting what a write derived for a memory.
use vstd::prelude::*;

use crate::encode_trace::{empty_artifact, is_empty_artifact, EncodeStageArtifact};
use crate::scope::{in_caller_scope, RowScope};

verus! {

#[derive(Debug)]
pub struct MemoryInspectResponse {
    pub found: bool,
    pub memory_id: [u8; 16],
    pub text: String,
    pub artifact: EncodeStageArtifact,
}

/// What an inspection of a memory shows.
pub open spec fn inspects_memory(
    r: MemoryInspectResponse,
    memory_id: [u8; 16],
    owner: Option<RowScope>,
    caller: RowScope,
    text: Option<String>,
    artifact: Option<EncodeStageArtifact>,
) -> bool {
    &&& r.memory_id == memory_id
    &&& r.found == (owner == Some(caller))
    &&& (r.found && text is Some ==> r.text == text->0)
    &&& (!r.found || text is None ==> r.text@.len() == 0)
    &&& (r.found && artifact is Some ==> r.artifact == artifact->0)
    &&& (!r.found || artifact is None ==> is_empty_artifact(r.artifact))
}

/// Shows a memory: its text and its artifact bundle, empty where there are
/// none. One that is not there or not the caller's is not found, and nothing
/// of it is shown.
pub fn memory_inspect(
    memory_id: [u8; 16],
    owner: Option<RowScope>,
    caller: &RowScope,
    text: Option<String>,
    artifact: Option<EncodeStageArtifact>,
) -> (r: MemoryInspectResponse)
    ensures
        inspects_memory(r, memory_id, owner, *caller, text, artifact),
{
    if !in_caller_scope(owner, caller) {
        return MemoryInspectResponse {
            found: false,
            memory_id,
            text: String::new(),
            artifact: empty_artifact(),
        };
    }
    let text = match text {
        Some(t) => t,
        None => String::new(),
    };
    let artifact = match artifact {
        Some(a) => a,
        None => empty_artifact(),
    };
    MemoryInspectResponse { found: true, memory_id, text, artifact }
}

} // verus!
