use pinned_bench::channel::{Offered, Polled};
use pinned_bench::config::BenchConfig;
use pinned_bench::driver::Driver;
use pinned_bench::request::ComputeRequest;
use pinned_bench::worker::WorkerState;

#[test]
fn work_channel_has_the_capacity_of_the_run() {
    let cfg = BenchConfig::new(2, 5, 8, 3, true).unwrap();
    let (tx, rx) = Driver::work_channel(&cfg);
    assert_eq!(tx.capacity(), Some(5));
    assert_eq!(rx.capacity(), Some(5));
    assert!(tx.same_channel(&tx.clone()));
    assert_eq!(tx.len(), 0);
    for i in 0..5usize {
        assert!(tx.try_send(ComputeRequest::for_index(i)).is_ok());
    }
    assert!(tx.is_full());
    assert!(tx.try_send(ComputeRequest::for_index(5)).is_err());
    assert_eq!(rx.len(), 5);
}

#[test]
fn completion_channel_holds_a_token_for_each_request() {
    let cfg = BenchConfig::new(2, 3, 8, 3, true).unwrap();
    let (tx, rx) = Driver::completion_channel(&cfg);
    assert_eq!(tx.capacity(), Some(8));
    assert_eq!(rx.capacity(), Some(8));
    for _ in 0..8 {
        assert!(tx.try_send(()).is_ok());
    }
    assert!(tx.try_send(()).is_err());
    assert_eq!(rx.len(), 8);
}

#[test]
fn channels_of_one_run_are_apart() {
    let cfg = BenchConfig::new(1, 1, 1, 1, true).unwrap();
    let (tx, rx) = Driver::work_channel(&cfg);
    let (other_tx, _other_rx) = Driver::work_channel(&cfg);
    assert!(!tx.same_channel(&other_tx));
    other_tx.send(ComputeRequest::Add(1, 1)).unwrap();
    assert!(rx.is_empty());
}

#[test]
fn waited_receive_gives_a_message_or_the_end() {
    assert_eq!(Polled::received(Ok(7usize)), Polled::Item(7));
    assert_eq!(
        Polled::<usize>::received(Err(flume::RecvError::Disconnected)),
        Polled::Closed
    );
}

#[test]
fn waited_send_is_taken_or_finds_no_receiver() {
    assert_eq!(Offered::sent::<usize>(Ok(())), Offered::Taken);
    assert_eq!(Offered::sent(Err(flume::SendError(3usize))), Offered::Closed);
}

#[test]
fn channels_of_a_run_can_be_received_on() {
    let cfg = BenchConfig::new(2, usize::MAX - 1, usize::MAX - 1, 2, true).unwrap();
    let (_tx, rx) = Driver::work_channel(&cfg);
    assert!(WorkerState::can_receive(&rx));
    let (_token_tx, token_rx) = Driver::completion_channel(&cfg);
    assert!(Driver::can_await(&token_rx));
}

#[test]
fn channel_of_the_largest_capacity_cannot_be_received_on() {
    let (_tx, rx) = flume::bounded::<ComputeRequest>(usize::MAX);
    assert!(!WorkerState::can_receive(&rx));
    let (_token_tx, token_rx) = flume::bounded::<()>(usize::MAX);
    assert!(!Driver::can_await(&token_rx));
}

#[test]
fn channel_without_a_bound_can_be_received_on() {
    let (_tx, rx) = flume::unbounded::<ComputeRequest>();
    assert!(WorkerState::can_receive(&rx));
    let (_token_tx, token_rx) = flume::unbounded::<()>();
    assert!(Driver::can_await(&token_rx));
    let (_small_tx, small_rx) = flume::bounded::<ComputeRequest>(0);
    assert!(WorkerState::can_receive(&small_rx));
}
