//! Restoring a forgotten memory.
use vstd::prelude::*;

use crate::error::{fails, OpError};
use crate::write::{unexpected, unexpected_ack, Ack, Phase, PhaseAck, Write, WriteId};

verus! {

/// What a restore comes to.
#[derive(Clone, Copy, Debug, PartialEq, Eq, Structural)]
pub enum AdminRestoreOutcome {
    /// No such memory in the namespace: absent, foreign, or the namespace is
    /// unknown.
    NotFound,
    /// The memory was forgotten within its grace and is back.
    Restored,
    /// The memory was never forgotten.
    AlreadyActive,
    /// The memory was forgotten for good.
    HardForgotten,
    /// The grace has passed.
    PastGrace,
}

/// When the grace of a forgotten memory ends, at most the end of time.
pub open spec fn grace_end(forgot_at: u64, grace_nanos: u64) -> u64 {
    if forgot_at + grace_nanos > u64::MAX {
        u64::MAX
    } else {
        (forgot_at + grace_nanos) as u64
    }
}

/// Whether a forgotten memory can no longer be restored. One without a time
/// of forgetting is malformed, and is not.
pub open spec fn past_grace(tombstoned_at: Option<u64>, grace_nanos: u64, now: u64) -> bool {
    match tombstoned_at {
        None => true,
        Some(forgot_at) => grace_end(forgot_at, grace_nanos) < now,
    }
}

pub fn is_past_grace(tombstoned_at: Option<u64>, grace_nanos: u64, now_unix_nanos: u64) -> (r: bool)
    ensures
        r == past_grace(tombstoned_at, grace_nanos, now_unix_nanos),
{
    match tombstoned_at {
        None => true,
        Some(forgot_at) => forgot_at.saturating_add(grace_nanos) < now_unix_nanos,
    }
}

/// A memory's row, as far as a restore reads it.
#[derive(Clone, Copy, Debug)]
pub struct ForgottenRow {
    pub namespace_id: u32,
    pub space_id: [u8; 16],
    pub hard_forgotten: bool,
    pub active: bool,
    pub tombstoned_at_unix_nanos: Option<u64>,
}

/// What to do with a restore.
#[derive(Debug)]
pub enum RestoreStep {
    Answer(AdminRestoreOutcome),
    Submit(Write),
}

/// What a restore comes to without a write, if it does. `namespace` is the one
/// that the caller names, where it is known.
pub open spec fn settled(
    namespace: Option<u32>,
    row: Option<ForgottenRow>,
    grace_nanos: u64,
    now: u64,
) -> Option<AdminRestoreOutcome> {
    match (namespace, row) {
        (Some(ns), Some(m)) if m.namespace_id == ns => if m.hard_forgotten {
            Some(AdminRestoreOutcome::HardForgotten)
        } else if m.active {
            Some(AdminRestoreOutcome::AlreadyActive)
        } else if past_grace(m.tombstoned_at_unix_nanos, grace_nanos, now) {
            Some(AdminRestoreOutcome::PastGrace)
        } else {
            None
        },
        _ => Some(AdminRestoreOutcome::NotFound),
    }
}

/// What restoring a memory comes to.
pub open spec fn plans_restore(
    r: RestoreStep,
    memory_id: u128,
    namespace: Option<u32>,
    row: Option<ForgottenRow>,
    grace_nanos: u64,
    now_unix_nanos: u64,
) -> bool {
    match settled(namespace, row, grace_nanos, now_unix_nanos) {
        Some(o) => r == RestoreStep::Answer(o),
        None => r == RestoreStep::Submit(
            Write {
                write_id: WriteId::Fresh,
                space_id: row->0.space_id,
                namespace_id: namespace,
                space_string: None,
                request_hash: None,
                phase: Phase::RestoreMemory { id: memory_id, at_unix_nanos: now_unix_nanos },
            },
        ),
    }
}

/// Decides a restore from the memory's row.
pub fn plan_admin_restore(
    memory_id: u128,
    namespace: Option<u32>,
    row: Option<ForgottenRow>,
    grace_nanos: u64,
    now_unix_nanos: u64,
) -> (r: RestoreStep)
    ensures
        plans_restore(r, memory_id, namespace, row, grace_nanos, now_unix_nanos),
{
    let ns: u32 = match namespace {
        Some(n) => n,
        None => {
            return RestoreStep::Answer(AdminRestoreOutcome::NotFound);
        },
    };
    let m = match row {
        Some(m) => m,
        None => {
            return RestoreStep::Answer(AdminRestoreOutcome::NotFound);
        },
    };
    if m.namespace_id != ns {
        return RestoreStep::Answer(AdminRestoreOutcome::NotFound);
    }
    if m.hard_forgotten {
        return RestoreStep::Answer(AdminRestoreOutcome::HardForgotten);
    }
    if m.active {
        return RestoreStep::Answer(AdminRestoreOutcome::AlreadyActive);
    }
    if is_past_grace(m.tombstoned_at_unix_nanos, grace_nanos, now_unix_nanos) {
        return RestoreStep::Answer(AdminRestoreOutcome::PastGrace);
    }
    RestoreStep::Submit(
        Write {
            write_id: WriteId::Fresh,
            space_id: m.space_id,
            namespace_id: Some(ns),
            space_string: None,
            request_hash: None,
            phase: Phase::RestoreMemory { id: memory_id, at_unix_nanos: now_unix_nanos },
        },
    )
}

/// What a restoration is answered.
pub open spec fn answers_restore(
    r: Result<AdminRestoreOutcome, OpError>,
    ack: Ack,
) -> bool {
    match ack.phase {
        PhaseAck::MemoryRestored { already_active } => r == Ok::<AdminRestoreOutcome, OpError>(
            if already_active {
                AdminRestoreOutcome::AlreadyActive
            } else {
                AdminRestoreOutcome::Restored
            },
        ),
        _ => fails(
            r,
            unexpected_ack("restore returned unexpected phase ack: "@, ack.shown@),
        ),
    }
}

/// What an acknowledged restore comes to.
pub fn finish_admin_restore(ack: &Ack) -> (r: Result<AdminRestoreOutcome, OpError>)
    ensures
        answers_restore(r, *ack),
{
    match &ack.phase {
        PhaseAck::MemoryRestored { already_active } => Ok(
            if *already_active {
                AdminRestoreOutcome::AlreadyActive
            } else {
                AdminRestoreOutcome::Restored
            },
        ),
        _ => Err(unexpected("restore returned unexpected phase ack: ", &ack.shown)),
    }
}

/// What was forgotten for good is never restored, nor is anything after its
/// grace; and the answer about a foreign memory is that about a missing one.
pub proof fn irreversible_stays_irreversible(
    namespace: u32,
    row: ForgottenRow,
    grace_nanos: u64,
    now: u64,
)
    ensures
        row.hard_forgotten || past_grace(row.tombstoned_at_unix_nanos, grace_nanos, now) ==> settled(
            Some(namespace),
            Some(row),
            grace_nanos,
            now,
        ) is Some,
        row.namespace_id != namespace ==> settled(Some(namespace), Some(row), grace_nanos, now)
            == settled(Some(namespace), None, grace_nanos, now),
{
}

/// Once past, the grace stays past.
pub proof fn grace_passes_once(tombstoned_at: Option<u64>, grace_nanos: u64, now: u64, later: u64)
    requires
        past_grace(tombstoned_at, grace_nanos, now),
        now <= later,
    ensures
        past_grace(tombstoned_at, grace_nanos, later),
{
}

} // verus!
