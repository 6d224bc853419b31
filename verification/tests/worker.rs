use pinned_bench::channel::Polled;
use pinned_bench::error::BenchError;
use pinned_bench::request::{ComputeError, ComputeRequest, ComputeResult};
use pinned_bench::worker::{Phase, Progress, WorkerState, PROGRESS_INTERVAL};

fn running(id: usize, core: usize) -> WorkerState {
    let mut w = WorkerState::new(id, core);
    w.on_bind(Ok(())).unwrap();
    w.enter();
    w
}

#[test]
fn new_worker_has_solved_nothing() {
    let w = WorkerState::new(2, 5);
    assert_eq!(w, WorkerState { id: 2, core: 5, solved: 0, phase: Phase::Init });
}

#[test]
fn worker_goes_through_its_phases() {
    let mut w = WorkerState::new(1, 1);
    assert_eq!(w.on_bind(Ok(())), Ok(()));
    assert_eq!(w.phase, Phase::Bound);
    w.enter();
    assert_eq!(w.phase, Phase::Running);
    assert_eq!(w.on_item(ComputeRequest::Add(1, 2)), Ok(ComputeResult(3)));
    assert_eq!(w.solved, 1);
    w.on_closed();
    assert_eq!(w.phase, Phase::Drained);
    assert_eq!(w.finish(), 1);
    assert_eq!(w, WorkerState { id: 1, core: 1, solved: 1, phase: Phase::Done });
}

#[test]
fn refused_binding_is_final() {
    let mut w = WorkerState::new(4, 9);
    assert_eq!(w.on_bind(Err(22)), Err(BenchError::Bind { core: 9, errno: 22 }));
    assert_eq!(w, WorkerState { id: 4, core: 9, solved: 0, phase: Phase::Init });
}

#[test]
fn worker_counts_each_solved_request() {
    let mut w = running(0, 0);
    let expected: [usize; 8] = [0, 1, 2, 3, 6, 3, 18, 2];
    for i in 0..8usize {
        let answer = w.on_item(ComputeRequest::for_index(i)).unwrap();
        assert_eq!(answer, ComputeResult(expected[i]));
        assert_eq!(w.solved, i + 1);
        assert_eq!(w.phase, Phase::Running);
    }
}

#[test]
fn worker_refuses_division_by_zero() {
    let mut w = running(0, 0);
    assert_eq!(
        w.on_item(ComputeRequest::Div(1, 0)),
        Err(BenchError::Verification(ComputeError::DivisionByZero))
    );
    assert_eq!(w.solved, 0);
    assert_eq!(w.phase, Phase::Running);
}

#[test]
fn worker_refuses_to_count_beyond_the_counter() {
    let mut w = WorkerState { id: 0, core: 0, solved: usize::MAX, phase: Phase::Running };
    assert_eq!(w.on_item(ComputeRequest::Add(1, 1)), Err(BenchError::CountOverflow));
    assert_eq!(w.solved, usize::MAX);
    assert_eq!(
        w.on_item(ComputeRequest::Div(1, 0)),
        Err(BenchError::Verification(ComputeError::DivisionByZero))
    );
}

#[test]
fn milestones_are_the_multiples_of_the_interval() {
    assert_eq!(PROGRESS_INTERVAL, 1_000_000);
    let at = |solved: usize| WorkerState { id: 0, core: 0, solved, phase: Phase::Running }.at_milestone();
    assert!(!at(0));
    assert!(!at(1));
    assert!(!at(999_999));
    assert!(at(1_000_000));
    assert!(!at(1_000_001));
    assert!(at(2_000_000));
}

#[test]
fn start_pins_or_reports_the_core() {
    let mut w = WorkerState::new(0, 0);
    match w.start() {
        Ok(()) => assert_eq!(w, WorkerState { id: 0, core: 0, solved: 0, phase: Phase::Running }),
        Err(e) => {
            assert!(matches!(e, BenchError::Bind { core: 0, .. }));
            assert_eq!(w, WorkerState { id: 0, core: 0, solved: 0, phase: Phase::Init });
        }
    }
}

#[test]
fn start_fails_on_a_core_that_no_machine_has() {
    let mut w = WorkerState::new(0, 100_000);
    let res = w.start();
    assert!(matches!(res, Err(BenchError::Bind { core: 100_000, .. })));
    assert_eq!(w.phase, Phase::Init);
}

#[test]
fn polled_request_is_counted() {
    let mut w = running(0, 0);
    assert_eq!(w.on_polled(Polled::Item(ComputeRequest::Mul(6, 3))), Ok(None));
    assert_eq!(w, WorkerState { id: 0, core: 0, solved: 1, phase: Phase::Running });
}

#[test]
fn polled_emptiness_leaves_the_worker_idle() {
    let mut w = running(3, 3);
    assert_eq!(w.on_polled(Polled::Empty), Ok(Some(Progress::Idle)));
    assert_eq!(w, WorkerState { id: 3, core: 3, solved: 0, phase: Phase::Running });
}

#[test]
fn polled_end_drains_the_worker() {
    let mut w = running(3, 3);
    w.on_item(ComputeRequest::Add(1, 1)).unwrap();
    assert_eq!(w.on_polled(Polled::Closed), Ok(Some(Progress::Drained)));
    assert_eq!(w, WorkerState { id: 3, core: 3, solved: 1, phase: Phase::Drained });
}

#[test]
fn polled_refusals_change_nothing() {
    let mut w = running(0, 0);
    assert_eq!(
        w.on_polled(Polled::Item(ComputeRequest::Div(5, 0))),
        Err(BenchError::Verification(ComputeError::DivisionByZero))
    );
    assert_eq!(w.solved, 0);
    let mut full = WorkerState { id: 0, core: 0, solved: usize::MAX, phase: Phase::Running };
    assert_eq!(
        full.on_polled(Polled::Item(ComputeRequest::Add(1, 1))),
        Err(BenchError::CountOverflow)
    );
    assert_eq!(full.solved, usize::MAX);
}
