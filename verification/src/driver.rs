//! The driver of a run: it makes the channels, sends the workload, lets go
//! of its sender so that the workers see the end, and waits until every
//! request has been acknowledged or accounted for.

use vstd::prelude::*;
use crate::channel::{
    bind_to_core, bounded_requests, bounded_tokens, recv_token, request_capacity,
    request_receiver_capacity, send, token_capacity, token_limit, token_receiver_capacity,
    try_send, Offered,
};
use crate::config::BenchConfig;
use crate::error::BenchError;
use crate::request::ComputeRequest;
use crate::worker::WorkerState;

verus! {

/// Where the driver stands.
#[derive(Clone, Copy, Debug, PartialEq, Eq, Structural)]
pub enum DriverPhase {
    /// Sending the workload.
    Feeding,
    /// All requests sent and the sender let go.
    Released,
    /// Every request is known to be solved.
    Complete,
}

/// The driver's account of a run.
#[derive(Clone, Copy, Debug, PartialEq, Eq, Structural)]
pub struct Driver {
    /// The number of requests of the workload.
    pub total: usize,
    /// How many of them are in the channel or beyond.
    pub sent: usize,
    /// How many tokens have come back.
    pub acknowledged: usize,
    pub phase: DriverPhase,
}

/// The counts of the first `n` workers of `workers`, added up.
pub open spec fn solved_sum(workers: Seq<WorkerState>, n: int) -> int
    decreases n,
{
    if n <= 0 {
        0
    } else {
        solved_sum(workers, n - 1) + workers[n - 1].solved
    }
}

/// The counts of all of `workers`, added up.
pub open spec fn total_solved(workers: Seq<WorkerState>) -> int {
    solved_sum(workers, workers.len() as int)
}

impl Driver {
    /// The driver as it stands with `sent` requests on their way.
    pub open spec fn with_sent(self, sent: usize) -> Driver {
        Driver { sent, ..self }
    }

    /// Whether the books are consistent: nothing is sent beyond the
    /// workload, nothing is acknowledged that was not sent, and the sender
    /// is let go only when the workload is out.
    pub open spec fn wf(self) -> bool {
        &&& self.acknowledged <= self.sent <= self.total
        &&& self.phase != DriverPhase::Feeding ==> self.sent == self.total
        &&& self.phase == DriverPhase::Feeding ==> self.acknowledged == 0
    }

    /// A driver that has a workload of `total` requests before it.
    pub fn new(total: usize) -> (d: Driver)
        ensures
            d == (Driver { total, sent: 0, acknowledged: 0, phase: DriverPhase::Feeding }),
            d.wf(),
    {
        Driver { total, sent: 0, acknowledged: 0, phase: DriverPhase::Feeding }
    }

    /// Takes in how the pinning of the driver's thread to `core` went: a
    /// refusal comes back with the core and the system's error number.
    pub fn on_pin(core: usize, outcome: Result<(), i32>) -> (res: Result<(), BenchError>)
        ensures
            res == match outcome {
                Ok(_) => Ok::<(), BenchError>(()),
                Err(errno) => Err::<(), BenchError>(BenchError::Bind { core, errno }),
            },
    {
        match outcome {
            Ok(_) => Ok(()),
            Err(errno) => Err(BenchError::Bind { core, errno }),
        }
    }

    /// Pins the calling thread to `core`. A refusal comes back with the core
    /// and the system's error number. Whether the system agrees is up to the
    /// machine; what becomes of its answer is what `on_pin` says.
    pub fn pin(core: usize) -> (res: Result<(), BenchError>)
        ensures
            res matches Err(e) ==> e is Bind && e->Bind_core == core,
    {
        Driver::on_pin(core, bind_to_core(core))
    }

    /// The channel on which the workers contend for requests: a new one,
    /// made to hold as many requests as the run's capacity says.
    pub fn work_channel(config: &BenchConfig) -> (ends: (
        flume::Sender<ComputeRequest>,
        flume::Receiver<ComputeRequest>,
    ))
        ensures
            request_capacity(ends.0) == Some(config.spec_capacity()),
            request_receiver_capacity(ends.1) == Some(config.spec_capacity()),
            request_receiver_capacity(ends.1) != Some(usize::MAX),
    {
        bounded_requests(config.capacity())
    }

    /// The channel on which the workers acknowledge solved requests: a new
    /// one, made to hold one token for each request of the workload, so
    /// that a worker never has to wait for room for its token, however
    /// small the work channel is.
    pub fn completion_channel(config: &BenchConfig) -> (ends: (
        flume::Sender<()>,
        flume::Receiver<()>,
    ))
        ensures
            token_capacity(ends.0) == Some(config.spec_items()),
            token_receiver_capacity(ends.1) == Some(config.spec_items()),
            config.spec_acknowledge() ==> token_receiver_capacity(ends.1) != Some(usize::MAX),
    {
        bounded_tokens(config.items())
    }

    /// The request that goes out next, if the workload is not out yet.
    pub fn next_request(&self) -> (next: Option<ComputeRequest>)
        ensures
            next == if self.phase == DriverPhase::Feeding && self.sent < self.total {
                Some(ComputeRequest::nth(self.sent as int))
            } else {
                None
            },
    {
        if self.phase == DriverPhase::Feeding && self.sent < self.total {
            Some(ComputeRequest::for_index(self.sent))
        } else {
            None
        }
    }

    /// Takes in what the sending of the next request met: a request that is
    /// in the channel is counted, a full channel changes nothing, and the
    /// run ends if no receiver is left.
    pub fn on_sent(&mut self, met: Offered) -> (res: Result<(), BenchError>)
        requires
            old(self).wf(),
            old(self).phase == DriverPhase::Feeding,
            old(self).sent < old(self).total,
        ensures
            final(self).wf(),
            match met {
                Offered::Taken => res is Ok && *final(self) == old(self).with_sent(
                    (old(self).sent + 1) as usize,
                ),
                Offered::Full => res is Ok && *final(self) == *old(self),
                Offered::Closed => res == Err::<(), BenchError>(BenchError::Channel) && *final(self) == *old(self),
            },
    {
        match met {
            Offered::Taken => {
                self.sent = self.sent + 1;
                Ok(())
            },
            Offered::Full => Ok(()),
            Offered::Closed => Err(BenchError::Channel),
        }
    }

    /// The workload is out and the sender is let go.
    pub fn on_released(&mut self)
        requires
            old(self).wf(),
            old(self).phase == DriverPhase::Feeding,
            old(self).sent == old(self).total,
        ensures
            final(self).wf(),
            *final(self) == (Driver { phase: DriverPhase::Released, ..*old(self) }),
    {
        self.phase = DriverPhase::Released;
    }

    /// What `push` leaves behind, for every course that the calls into the
    /// channel can take: the requests up to `sent` are out, in order, and
    /// either the whole workload is, or the channel was full, or the request
    /// at place `sent` found no receiver.
    pub open spec fn pushed(self, before: Driver, res: Result<bool, BenchError>) -> bool {
        &&& self.wf()
        &&& self == before.with_sent(self.sent)
        &&& before.sent <= self.sent
        &&& match res {
            Ok(all) => all == (self.sent == self.total),
            Err(e) => e == BenchError::Channel && self.sent < self.total,
        }
    }

    /// Hands a request to the channel, waiting for room or not.
    fn put(requests: &flume::Sender<ComputeRequest>, req: ComputeRequest, wait: bool) -> (met:
        Offered)
        ensures
            wait ==> met != Offered::Full,
    {
        if wait {
            Offered::sent(send(requests, req))
        } else {
            try_send(requests, req)
        }
    }

    /// The loop of the driver: sends what is left of the workload, in order,
    /// until all of it is out or, without waiting, the channel is full.
    fn push(&mut self, requests: &flume::Sender<ComputeRequest>, wait: bool) -> (res: Result<
        bool,
        BenchError,
    >)
        requires
            old(self).wf(),
            old(self).phase == DriverPhase::Feeding,
        ensures
            final(self).pushed(*old(self), res),
            wait ==> res != Ok::<bool, BenchError>(false),
    {
        while self.sent < self.total
            invariant
                self.wf(),
                *self == old(self).with_sent(self.sent),
                self.phase == DriverPhase::Feeding,
                old(self).sent <= self.sent,
            decreases self.total - self.sent,
        {
            let req = ComputeRequest::for_index(self.sent);
            let met = Driver::put(requests, req, wait);
            match self.on_sent(met) {
                Ok(_) => {},
                Err(e) => {
                    return Err(e);
                },
            }
            if met == Offered::Full {
                return Ok(false);
            }
        }
        Ok(true)
    }

    /// Sends what is left of the workload into `requests`, in order, waiting
    /// whenever the channel is full, and lets go of the sender at the end.
    ///
    /// Whether a send succeeds is up to the receivers, so the result is
    /// stated for every course that the calls can take: either all of the
    /// workload is out and the sender is let go, or the request at place
    /// `sent` found no receiver.
    pub fn feed(&mut self, requests: flume::Sender<ComputeRequest>) -> (res: Result<
        (),
        BenchError,
    >)
        requires
            old(self).wf(),
            old(self).phase == DriverPhase::Feeding,
        ensures
            final(self).wf(),
            old(self).sent <= final(self).sent,
            match res {
                Ok(_) => *final(self) == (Driver {
                    sent: old(self).total,
                    phase: DriverPhase::Released,
                    ..*old(self)
                }),
                Err(e) => e == BenchError::Channel && *final(self) == old(self).with_sent(
                    final(self).sent,
                ) && final(self).sent < final(self).total,
            },
    {
        match self.push(&requests, true) {
            Ok(_) => {
                self.on_released();
                Ok(())
            },
            Err(e) => Err(e),
        }
    }

    /// Sends what is left of the workload into `requests`, in order, as long
    /// as the channel has room, and never waits. The answer says whether the
    /// whole workload is out; the sender stays with the caller.
    pub fn offer(&mut self, requests: &flume::Sender<ComputeRequest>) -> (res: Result<
        bool,
        BenchError,
    >)
        requires
            old(self).wf(),
            old(self).phase == DriverPhase::Feeding,
        ensures
            final(self).pushed(*old(self), res),
    {
        self.push(requests, false)
    }

    /// Lets go of the sender once the workload is out, so that the workers
    /// see the end of the channel when they have emptied it. Before that the
    /// sender is given back and nothing changes.
    pub fn release(&mut self, requests: flume::Sender<ComputeRequest>) -> (kept: Option<
        flume::Sender<ComputeRequest>,
    >)
        requires
            old(self).wf(),
        ensures
            final(self).wf(),
            old(self).phase == DriverPhase::Feeding && old(self).sent == old(self).total
                ==> kept is None && *final(self) == (Driver {
                phase: DriverPhase::Released,
                ..*old(self)
            }),
            !(old(self).phase == DriverPhase::Feeding && old(self).sent == old(self).total)
                ==> kept == Some(requests) && *final(self) == *old(self),
    {
        if self.phase == DriverPhase::Feeding && self.sent == self.total {
            self.on_released();
            None
        } else {
            Some(requests)
        }
    }

    /// Takes in one answer of the completion channel: a token is counted,
    /// and the run ends if no sender of tokens is left.
    pub fn on_token(&mut self, arrived: bool) -> (res: Result<(), BenchError>)
        requires
            old(self).wf(),
            old(self).phase == DriverPhase::Released,
            old(self).acknowledged < old(self).total,
        ensures
            final(self).wf(),
            arrived ==> res is Ok && *final(self) == (Driver {
                acknowledged: (old(self).acknowledged + 1) as usize,
                phase: if old(self).acknowledged + 1 == old(self).total {
                    DriverPhase::Complete
                } else {
                    DriverPhase::Released
                },
                ..*old(self)
            }),
            !arrived ==> res == Err::<(), BenchError>(BenchError::Channel) && *final(self)
                == *old(self),
    {
        if arrived {
            self.acknowledged = self.acknowledged + 1;
            if self.acknowledged == self.total {
                self.phase = DriverPhase::Complete;
            }
            Ok(())
        } else {
            Err(BenchError::Channel)
        }
    }

    /// Whether tokens can be received on this channel: on every channel but
    /// one whose capacity is the largest machine word.
    pub fn can_await(tokens: &flume::Receiver<()>) -> (ok: bool)
        ensures
            ok == (token_receiver_capacity(*tokens) != Some(usize::MAX)),
    {
        match token_limit(tokens) {
            Some(limit) => limit != usize::MAX,
            None => true,
        }
    }

    /// Waits until one token has come back for each request of the workload.
    /// There is no time limit: the call returns only when the last token is
    /// in, or when no sender of tokens is left.
    ///
    /// The channel must be one that can be received on;
    /// `try_await_completions` finds that out by itself.
    pub fn await_completions(&mut self, tokens: &flume::Receiver<()>) -> (res: Result<
        (),
        BenchError,
    >)
        requires
            old(self).wf(),
            old(self).phase == DriverPhase::Released,
            token_receiver_capacity(*tokens) != Some(usize::MAX),
        ensures
            final(self).awaited(*old(self), res),
    {
        while self.acknowledged < self.total
            invariant
                token_receiver_capacity(*tokens) != Some(usize::MAX),
                self.wf(),
                self.phase == DriverPhase::Released,
                self.total == old(self).total,
                self.sent == old(self).sent,
                old(self).acknowledged <= self.acknowledged,
            decreases self.total - self.acknowledged,
        {
            let arrived = recv_token(tokens).is_ok();
            match self.on_token(arrived) {
                Ok(_) => {},
                Err(e) => {
                    return Err(e);
                },
            }
            if self.acknowledged == self.total {
                return Ok(());
            }
        }
        self.phase = DriverPhase::Complete;
        Ok(())
    }

    /// What `await_completions` leaves behind, for every course that the
    /// calls into the channel can take: no token is lost from the count, and
    /// either one token is in for each request, or the senders of tokens
    /// were gone before that.
    pub open spec fn awaited(self, before: Driver, res: Result<(), BenchError>) -> bool {
        &&& self.wf()
        &&& self.total == before.total
        &&& self.sent == before.sent
        &&& before.acknowledged <= self.acknowledged
        &&& match res {
            Ok(_) => self.phase == DriverPhase::Complete && self.acknowledged == self.total,
            Err(e) => e == BenchError::Channel && self.phase == DriverPhase::Released
                && self.acknowledged < self.total,
        }
    }

    /// As `await_completions`, on any channel: where the channel cannot be
    /// received on, nothing is done and nothing comes back.
    pub fn try_await_completions(&mut self, tokens: &flume::Receiver<()>) -> (res: Option<
        Result<(), BenchError>,
    >)
        requires
            old(self).wf(),
            old(self).phase == DriverPhase::Released,
        ensures
            match res {
                Some(r) => token_receiver_capacity(*tokens) != Some(usize::MAX) && final(self).awaited(*old(self), r),
                None => token_receiver_capacity(*tokens) == Some(usize::MAX) && *final(self)
                    == *old(self),
            },
    {
        if Driver::can_await(tokens) {
            Some(self.await_completions(tokens))
        } else {
            None
        }
    }

    /// Holds the workers' counts against the number of requests sent: the
    /// run is complete when they add up to it. This is how a run without
    /// tokens learns that every request was solved.
    pub fn reconcile(&mut self, workers: &Vec<WorkerState>) -> (balanced: bool)
        requires
            old(self).wf(),
            old(self).phase == DriverPhase::Released,
        ensures
            final(self).wf(),
            balanced == (total_solved(workers@) == old(self).sent),
            *final(self) == if balanced {
                Driver { phase: DriverPhase::Complete, ..*old(self) }
            } else {
                *old(self)
            },
    {
        let mut sum: usize = 0;
        let mut i: usize = 0;
        while i < workers.len()
            invariant
                *self == *old(self),
                self.wf(),
                i <= workers.len(),
                sum == solved_sum(workers@, i as int),
                sum <= self.sent,
            decreases workers.len() - i,
        {
            let solved = workers[i].solved;
            if solved > self.sent - sum {
                proof {
                    lemma_solved_sum_grows(workers@, i as int + 1, workers.len() as int);
                }
                return false;
            }
            sum = sum + solved;
            i = i + 1;
        }
        if sum == self.sent {
            self.phase = DriverPhase::Complete;
            true
        } else {
            false
        }
    }
}

/// Adding more workers never lowers the sum of the counts.
pub proof fn lemma_solved_sum_grows(workers: Seq<WorkerState>, i: int, j: int)
    requires
        0 <= i <= j,
    ensures
        solved_sum(workers, i) <= solved_sum(workers, j),
    decreases j - i,
{
    if i < j {
        lemma_solved_sum_grows(workers, i, j - 1);
    }
}

} // verus!
