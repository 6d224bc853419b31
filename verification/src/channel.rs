//! The bounded channels that carry requests to the workers and completion
//! tokens back, and the call that pins a thread to a core.
//!
//! The calls into the channels and into the system are not proved: each of
//! those functions hands its arguments to the outside call and its result
//! back. What a send or a receive returns depends on what the other threads
//! do, and whether a thread can be pinned depends on the machine, so of
//! those results nothing is promised. The one thing that is fixed when a
//! channel is made, and stays fixed, is its capacity.
//!
//! A receive makes room for one message more than the capacity while it
//! looks for what waits, so it must not be asked of a channel whose capacity
//! is the largest machine word: the receives here require that it is not.

use vstd::prelude::*;
use crate::request::ComputeRequest;

verus! {

/// `flume::Sender`: a handle on the sending side of a channel. The channel
/// is closed for its receivers when the last of these handles is gone.
#[verifier::external_type_specification]
#[verifier::external_body]
#[verifier::reject_recursive_types(T)]
pub struct ExSender<T>(flume::Sender<T>);

/// `flume::Receiver`: a handle on the receiving side of a channel. Each
/// message goes to one receiver only.
#[verifier::external_type_specification]
#[verifier::external_body]
#[verifier::reject_recursive_types(T)]
pub struct ExReceiver<T>(flume::Receiver<T>);

/// `flume::SendError`: what `send` gives back when no receiver is left.
#[verifier::external_type_specification]
#[verifier::external_body]
#[verifier::reject_recursive_types(T)]
pub struct ExSendError<T>(flume::SendError<T>);

/// `flume::RecvError`: what `recv` gives back when the channel is empty and
/// no sender is left.
#[verifier::external_type_specification]
#[verifier::external_body]
pub struct ExRecvError(flume::RecvError);

/// What a receive that does not wait found.
#[derive(Debug, PartialEq, Eq)]
pub enum Polled<T> {
    /// The oldest message of the channel.
    Item(T),
    /// Nothing waits, and a sender is still held.
    Empty,
    /// Nothing waits, and no sender is left.
    Closed,
}

/// What a send that does not wait met.
#[derive(Clone, Copy, Debug, PartialEq, Eq, Structural)]
pub enum Offered {
    /// The message is in the channel.
    Taken,
    /// The channel holds as much as it can.
    Full,
    /// No receiver is left.
    Closed,
}

impl<T> Polled<T> {
    /// What a receive that waited came back with: a message, or the end of
    /// the channel.
    pub fn received(outcome: Result<T, flume::RecvError>) -> (got: Polled<T>)
        ensures
            match outcome {
                Ok(msg) => got == Polled::Item(msg),
                Err(_) => got == Polled::<T>::Closed,
            },
    {
        match outcome {
            Ok(msg) => Polled::Item(msg),
            Err(_) => Polled::Closed,
        }
    }
}

impl Offered {
    /// What a send that waited came back with: the message is in the
    /// channel, or no receiver is left.
    pub fn sent<T>(outcome: Result<(), flume::SendError<T>>) -> (met: Offered)
        ensures
            met == if outcome is Ok {
                Offered::Taken
            } else {
                Offered::Closed
            },
    {
        match outcome {
            Ok(_) => Offered::Taken,
            Err(_) => Offered::Closed,
        }
    }
}

/// What `flume::Sender::capacity` returns for a sender of requests: the
/// capacity that its channel was made with, which never changes.
pub uninterp spec fn request_capacity(tx: flume::Sender<ComputeRequest>) -> Option<usize>;

/// What `flume::Sender::capacity` returns for a sender of tokens: the
/// capacity that its channel was made with, which never changes.
pub uninterp spec fn token_capacity(tx: flume::Sender<()>) -> Option<usize>;

/// What `flume::Receiver::capacity` returns for a receiver of requests: the
/// capacity that its channel was made with, which never changes.
pub uninterp spec fn request_receiver_capacity(rx: flume::Receiver<ComputeRequest>) -> Option<
    usize,
>;

/// What `flume::Receiver::capacity` returns for a receiver of tokens: the
/// capacity that its channel was made with, which never changes.
pub uninterp spec fn token_receiver_capacity(rx: flume::Receiver<()>) -> Option<usize>;

/// `flume::bounded` for requests: a new channel with its one sender and its
/// one receiver, made to hold at most `capacity` requests.
#[verifier::external_body]
pub(crate) fn bounded_requests(capacity: usize) -> (ends: (
    flume::Sender<ComputeRequest>,
    flume::Receiver<ComputeRequest>,
))
    ensures
        request_capacity(ends.0) == Some(capacity),
        request_receiver_capacity(ends.1) == Some(capacity),
{
    flume::bounded(capacity)
}

/// `flume::bounded` for tokens: a new channel with its one sender and its
/// one receiver, made to hold at most `capacity` tokens.
#[verifier::external_body]
pub(crate) fn bounded_tokens(capacity: usize) -> (ends: (flume::Sender<()>, flume::Receiver<()>))
    ensures
        token_capacity(ends.0) == Some(capacity),
        token_receiver_capacity(ends.1) == Some(capacity),
{
    flume::bounded(capacity)
}

/// `flume::Receiver::capacity` for a receiver of requests: the capacity that
/// its channel was made with.
#[verifier::external_body]
pub(crate) fn request_limit(rx: &flume::Receiver<ComputeRequest>) -> (limit: Option<usize>)
    ensures
        limit == request_receiver_capacity(*rx),
{
    rx.capacity()
}

/// `flume::Receiver::capacity` for a receiver of tokens: the capacity that
/// its channel was made with.
#[verifier::external_body]
pub(crate) fn token_limit(rx: &flume::Receiver<()>) -> (limit: Option<usize>)
    ensures
        limit == token_receiver_capacity(*rx),
{
    rx.capacity()
}

/// `flume::Sender::send`: waits while the channel is full, and fails when no
/// receiver is left.
#[verifier::external_body]
pub(crate) fn send<T>(tx: &flume::Sender<T>, msg: T) -> (sent: Result<(), flume::SendError<T>>) {
    tx.send(msg)
}

/// `flume::Receiver::recv` for a request: waits while the channel is empty,
/// and fails when it is empty and no sender is left. Not for a channel whose
/// capacity is the largest machine word.
#[verifier::external_body]
pub(crate) fn recv_request(rx: &flume::Receiver<ComputeRequest>) -> (got: Result<
    ComputeRequest,
    flume::RecvError,
>)
    requires
        request_receiver_capacity(*rx) != Some(usize::MAX),
{
    rx.recv()
}

/// `flume::Receiver::recv` for a token: waits while the channel is empty,
/// and fails when it is empty and no sender is left. Not for a channel whose
/// capacity is the largest machine word.
#[verifier::external_body]
pub(crate) fn recv_token(rx: &flume::Receiver<()>) -> (got: Result<(), flume::RecvError>)
    requires
        token_receiver_capacity(*rx) != Some(usize::MAX),
{
    rx.recv()
}

/// `flume::Sender::try_send`: puts the message into the channel if there is
/// room, and says so if there is none or if no receiver is left. A message
/// that was not taken is dropped.
#[verifier::external_body]
pub(crate) fn try_send<T>(tx: &flume::Sender<T>, msg: T) -> (met: Offered) {
    match tx.try_send(msg) {
        Ok(()) => Offered::Taken,
        Err(flume::TrySendError::Full(_)) => Offered::Full,
        Err(flume::TrySendError::Disconnected(_)) => Offered::Closed,
    }
}

/// `flume::Receiver::try_recv` for a request: takes the oldest request if
/// one waits, and says so if none does, or if none does and no sender is
/// left. Not for a channel whose capacity is the largest machine word.
#[verifier::external_body]
pub(crate) fn try_recv_request(rx: &flume::Receiver<ComputeRequest>) -> (got: Polled<
    ComputeRequest,
>)
    requires
        request_receiver_capacity(*rx) != Some(usize::MAX),
{
    match rx.try_recv() {
        Ok(msg) => Polled::Item(msg),
        Err(flume::TryRecvError::Empty) => Polled::Empty,
        Err(flume::TryRecvError::Disconnected) => Polled::Closed,
    }
}

/// `monoio::utils::bind_to_cpu_set` with the one core `core`: asks the system
/// to run the calling thread on that core only. A refusal comes back as the
/// system's error number.
#[verifier::external_body]
pub(crate) fn bind_to_core(core: usize) -> (bound: Result<(), i32>) {
    monoio::utils::bind_to_cpu_set([core]).map_err(|e| e as i32)
}

} // verus!
