use qmk_hid_host::supervisor::{Supervisor, SupervisorAction, SETTLE_DELAY_MS};

#[test]
fn extra_disconnects_never_drive_the_count_below_zero() {
    let mut s = Supervisor::new();
    assert_eq!(s.on_connectivity(false), SupervisorAction::Nothing);
    assert_eq!(s.count(), 0);
    assert_eq!(s.on_connectivity(true), SupervisorAction::StartAll);
    assert_eq!(s.on_connectivity(false), SupervisorAction::StopAll);
    assert_eq!(s.on_connectivity(false), SupervisorAction::Nothing);
    assert_eq!(s.count(), 0);
    assert!(!s.is_started());
    assert_eq!(s.on_connectivity(true), SupervisorAction::StartAll);
    assert_eq!(s.count(), 1);
}

#[test]
fn start_and_stop_fire_once_per_crossing() {
    let events = [true, false, false, true, true, false, false, true, false];
    let mut s = Supervisor::new();
    let mut starts = 0;
    let mut stops = 0;
    let mut restarts = 0;
    for e in events {
        match s.on_connectivity(e) {
            SupervisorAction::StartAll => starts += 1,
            SupervisorAction::StopAll => stops += 1,
            SupervisorAction::Restart { .. } => restarts += 1,
            SupervisorAction::Nothing => {}
        }
    }
    assert_eq!(starts, 3);
    assert_eq!(stops, 3);
    assert_eq!(restarts, 1);
    assert_eq!(s.count(), 0);
}

#[test]
fn second_device_restarts_the_providers() {
    let mut s = Supervisor::new();
    assert_eq!(s.on_connectivity(true), SupervisorAction::StartAll);
    assert_eq!(s.on_connectivity(true), SupervisorAction::Restart { settle_ms: SETTLE_DELAY_MS });
    assert_eq!(SETTLE_DELAY_MS, 200);
    assert_eq!(s.count(), 2);
    assert!(s.is_started());
    assert_eq!(s.on_connectivity(false), SupervisorAction::Nothing);
    assert!(s.is_started());
    assert_eq!(s.on_connectivity(false), SupervisorAction::StopAll);
}
