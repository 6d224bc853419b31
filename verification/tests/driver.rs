use pinned_bench::channel::Offered;
use pinned_bench::driver::{Driver, DriverPhase};
use pinned_bench::error::BenchError;
use pinned_bench::request::ComputeRequest;
use pinned_bench::worker::{Phase, WorkerState};

fn worker_with(solved: usize) -> WorkerState {
    WorkerState { id: 0, core: 0, solved, phase: Phase::Done }
}

#[test]
fn new_driver_has_sent_nothing() {
    assert_eq!(
        Driver::new(8),
        Driver { total: 8, sent: 0, acknowledged: 0, phase: DriverPhase::Feeding }
    );
}

#[test]
fn driver_hands_out_the_workload_in_order() {
    let mut d = Driver::new(3);
    assert_eq!(d.next_request(), Some(ComputeRequest::Add(0, 0)));
    assert_eq!(d.on_sent(Offered::Taken), Ok(()));
    assert_eq!(d.next_request(), Some(ComputeRequest::Sub(1, 0)));
    assert_eq!(d.on_sent(Offered::Taken), Ok(()));
    assert_eq!(d.next_request(), Some(ComputeRequest::Mul(2, 1)));
    assert_eq!(d.on_sent(Offered::Taken), Ok(()));
    assert_eq!(d.next_request(), None);
    assert_eq!(d.sent, 3);
    d.on_released();
    assert_eq!(d.phase, DriverPhase::Released);
    assert_eq!(d.next_request(), None);
}

#[test]
fn full_channel_changes_nothing() {
    let mut d = Driver::new(3);
    assert_eq!(d.on_sent(Offered::Full), Ok(()));
    assert_eq!(d, Driver::new(3));
    assert_eq!(d.next_request(), Some(ComputeRequest::Add(0, 0)));
}

#[test]
fn lost_receivers_end_the_run() {
    let mut d = Driver::new(3);
    assert_eq!(d.on_sent(Offered::Closed), Err(BenchError::Channel));
    assert_eq!(d, Driver::new(3));
}

#[test]
fn tokens_complete_the_run() {
    let mut d = Driver { total: 2, sent: 2, acknowledged: 0, phase: DriverPhase::Released };
    assert_eq!(d.on_token(true), Ok(()));
    assert_eq!(d, Driver { total: 2, sent: 2, acknowledged: 1, phase: DriverPhase::Released });
    assert_eq!(d.on_token(true), Ok(()));
    assert_eq!(d, Driver { total: 2, sent: 2, acknowledged: 2, phase: DriverPhase::Complete });
}

#[test]
fn lost_token_senders_end_the_run() {
    let mut d = Driver { total: 2, sent: 2, acknowledged: 1, phase: DriverPhase::Released };
    assert_eq!(d.on_token(false), Err(BenchError::Channel));
    assert_eq!(d, Driver { total: 2, sent: 2, acknowledged: 1, phase: DriverPhase::Released });
}

#[test]
fn reconcile_accepts_counts_that_add_up() {
    let mut d = Driver { total: 8, sent: 8, acknowledged: 0, phase: DriverPhase::Released };
    let workers = vec![worker_with(3), worker_with(0), worker_with(5)];
    assert!(d.reconcile(&workers));
    assert_eq!(d.phase, DriverPhase::Complete);
}

#[test]
fn reconcile_refuses_counts_that_fall_short() {
    let mut d = Driver { total: 8, sent: 8, acknowledged: 0, phase: DriverPhase::Released };
    let workers = vec![worker_with(3), worker_with(4)];
    assert!(!d.reconcile(&workers));
    assert_eq!(d.phase, DriverPhase::Released);
}

#[test]
fn reconcile_refuses_counts_that_go_beyond() {
    let mut d = Driver { total: 8, sent: 8, acknowledged: 0, phase: DriverPhase::Released };
    let workers = vec![worker_with(3), worker_with(6), worker_with(usize::MAX)];
    assert!(!d.reconcile(&workers));
    assert_eq!(d.phase, DriverPhase::Released);
}

#[test]
fn reconcile_of_an_empty_workload() {
    let mut d = Driver { total: 0, sent: 0, acknowledged: 0, phase: DriverPhase::Released };
    assert!(d.reconcile(&Vec::new()));
    assert_eq!(d.phase, DriverPhase::Complete);
}

#[test]
fn pin_fails_on_a_core_that_no_machine_has() {
    let res = Driver::pin(100_000);
    assert!(matches!(res, Err(BenchError::Bind { core: 100_000, .. })));
}

#[test]
fn pinning_outcome_becomes_the_result() {
    assert_eq!(Driver::on_pin(3, Ok(())), Ok(()));
    assert_eq!(Driver::on_pin(3, Err(22)), Err(BenchError::Bind { core: 3, errno: 22 }));
    assert_eq!(Driver::on_pin(0, Err(1)), Err(BenchError::Bind { core: 0, errno: 1 }));
}

#[test]
fn pin_to_the_first_core_succeeds_or_names_it() {
    match Driver::pin(0) {
        Ok(()) => {}
        Err(e) => assert!(matches!(e, BenchError::Bind { core: 0, .. })),
    }
}
