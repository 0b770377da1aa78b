use brain_ops::restore::{
    finish_admin_restore, is_past_grace, plan_admin_restore, AdminRestoreOutcome, ForgottenRow,
    RestoreStep,
};
use brain_ops::write::{Ack, Phase, PhaseAck, WriteId};

const HOUR_NS: u64 = 3_600_000_000_000;

#[test]
fn within_grace_is_restorable() {
    // Forgotten 1h ago, 7-day grace, now = forgot + 1h.
    let forgot = 1_000 * HOUR_NS;
    let grace = 7 * 24 * HOUR_NS;
    assert!(!is_past_grace(Some(forgot), grace, forgot + HOUR_NS));
}

#[test]
fn beyond_grace_is_past() {
    let forgot = 1_000 * HOUR_NS;
    let grace = HOUR_NS;
    assert!(is_past_grace(Some(forgot), grace, forgot + 2 * HOUR_NS));
}

#[test]
fn exactly_at_expiry_is_still_restorable() {
    let forgot = 1_000 * HOUR_NS;
    let grace = HOUR_NS;
    assert!(!is_past_grace(Some(forgot), grace, forgot + grace));
}

#[test]
fn missing_tombstoned_at_is_past_grace() {
    assert!(is_past_grace(None, 7 * 24 * HOUR_NS, 5_000 * HOUR_NS));
}

#[test]
fn grace_saturates_at_the_end_of_time() {
    assert!(!is_past_grace(Some(u64::MAX - 1), 10, u64::MAX));
}

fn forgotten() -> ForgottenRow {
    ForgottenRow {
        namespace_id: 4,
        space_id: [6; 16],
        hard_forgotten: false,
        active: false,
        tombstoned_at_unix_nanos: Some(100),
    }
}

fn answer(namespace: Option<u32>, row: Option<ForgottenRow>, now: u64) -> AdminRestoreOutcome {
    match plan_admin_restore(9, namespace, row, 50, now) {
        RestoreStep::Answer(o) => o,
        RestoreStep::Submit(_) => panic!("a write was not expected"),
    }
}

#[test]
fn restore_outcomes_without_a_write() {
    assert_eq!(answer(None, Some(forgotten()), 120), AdminRestoreOutcome::NotFound);
    assert_eq!(answer(Some(4), None, 120), AdminRestoreOutcome::NotFound);
    assert_eq!(answer(Some(5), Some(forgotten()), 120), AdminRestoreOutcome::NotFound);
    let mut hard = forgotten();
    hard.hard_forgotten = true;
    hard.active = true;
    assert_eq!(answer(Some(4), Some(hard), 120), AdminRestoreOutcome::HardForgotten);
    let mut active = forgotten();
    active.active = true;
    assert_eq!(answer(Some(4), Some(active), 900), AdminRestoreOutcome::AlreadyActive);
    assert_eq!(answer(Some(4), Some(forgotten()), 151), AdminRestoreOutcome::PastGrace);
}

#[test]
fn restore_within_grace_submits_a_write() {
    match plan_admin_restore(9, Some(4), Some(forgotten()), 50, 150) {
        RestoreStep::Submit(w) => {
            assert!(matches!(w.write_id, WriteId::Fresh));
            assert_eq!(w.space_id, [6; 16]);
            assert_eq!(w.namespace_id, Some(4));
            assert!(w.request_hash.is_none());
            assert!(matches!(w.phase, Phase::RestoreMemory { id: 9, at_unix_nanos: 150 }));
        }
        RestoreStep::Answer(o) => panic!("unexpected answer {o:?}"),
    }
}

#[test]
fn restore_acknowledgements() {
    let ack = |phase| Ack { phase, shown: "Odd".into() };
    assert_eq!(
        finish_admin_restore(&ack(PhaseAck::MemoryRestored { already_active: false })).unwrap(),
        AdminRestoreOutcome::Restored
    );
    assert_eq!(
        finish_admin_restore(&ack(PhaseAck::MemoryRestored { already_active: true })).unwrap(),
        AdminRestoreOutcome::AlreadyActive
    );
    let err = finish_admin_restore(&ack(PhaseAck::SpaceCreated { created: true })).unwrap_err();
    assert_eq!(format!("{err:?}"), "Internal(\"restore returned unexpected phase ack: Odd\")");
}
