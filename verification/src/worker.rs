//! One worker of the pool: pinned to a core, it takes requests from the
//! shared channel, answers and checks each, and counts what it has solved.

use vstd::prelude::*;
use crate::channel::{
    bind_to_core, recv_request, request_limit, request_receiver_capacity, send, try_recv_request,
    Polled,
};
use crate::error::BenchError;
use crate::request::{ComputeError, ComputeRequest, ComputeResult};

verus! {

/// A worker reports its progress each time its count reaches a multiple of
/// this.
pub const PROGRESS_INTERVAL: usize = 1_000_000;

/// Where a worker stands in its life.
#[derive(Clone, Copy, Debug, PartialEq, Eq, Structural)]
pub enum Phase {
    /// Created, not yet pinned.
    Init,
    /// Pinned to its core.
    Bound,
    /// Taking requests.
    Running,
    /// Saw the channel closed and empty.
    Drained,
    /// Has given its count away.
    Done,
}

/// Why a worker came back from the channel.
#[derive(Clone, Copy, Debug, PartialEq, Eq, Structural)]
pub enum Progress {
    /// The count reached a multiple of `PROGRESS_INTERVAL`.
    Milestone,
    /// Nothing waits in the channel, and the sender is still held.
    Idle,
    /// The channel is closed and empty.
    Drained,
}

/// What one worker knows: who it is, where it runs, how far it has come.
#[derive(Clone, Copy, Debug, PartialEq, Eq, Structural)]
pub struct WorkerState {
    pub id: usize,
    pub core: usize,
    pub solved: usize,
    pub phase: Phase,
}

/// The first multiple of `PROGRESS_INTERVAL` above `solved`.
pub open spec fn next_milestone(solved: int) -> int {
    solved + (PROGRESS_INTERVAL - solved % (PROGRESS_INTERVAL as int))
}

impl WorkerState {
    /// The worker in another phase, all else kept.
    pub open spec fn in_phase(self, phase: Phase) -> WorkerState {
        WorkerState { phase, ..self }
    }

    /// The worker after one more solved request.
    pub open spec fn counted(self) -> WorkerState {
        WorkerState { solved: (self.solved + 1) as usize, ..self }
    }

    /// Whether the worker can take `req` and count it.
    pub open spec fn accepts(self, req: ComputeRequest) -> bool {
        req.is_defined() && self.solved < usize::MAX
    }

    /// A worker that has solved nothing and is not pinned yet.
    pub fn new(id: usize, core: usize) -> (w: WorkerState)
        ensures
            w == (WorkerState { id, core, solved: 0, phase: Phase::Init }),
    {
        WorkerState { id, core, solved: 0, phase: Phase::Init }
    }

    /// Takes in how the pinning went. A refusal is final: the worker stays
    /// where it was and the error names the core and the system's error
    /// number.
    pub fn on_bind(&mut self, outcome: Result<(), i32>) -> (res: Result<(), BenchError>)
        requires
            old(self).phase == Phase::Init,
        ensures
            match outcome {
                Ok(_) => res is Ok && *final(self) == old(self).in_phase(Phase::Bound),
                Err(errno) => res == Err::<(), BenchError>(
                    BenchError::Bind { core: old(self).core, errno },
                ) && *final(self) == *old(self),
            },
    {
        match outcome {
            Ok(_) => {
                self.phase = Phase::Bound;
                Ok(())
            },
            Err(errno) => Err(BenchError::Bind { core: self.core, errno }),
        }
    }

    /// Pins the calling thread to the worker's core and, if the system
    /// agrees, makes the worker ready to take requests.
    pub fn start(&mut self) -> (res: Result<(), BenchError>)
        requires
            old(self).phase == Phase::Init,
        ensures
            match res {
                Ok(_) => *final(self) == old(self).in_phase(Phase::Running),
                Err(e) => *final(self) == *old(self) && e is Bind && e->Bind_core == old(self).core,
            },
    {
        let outcome = bind_to_core(self.core);
        match self.on_bind(outcome) {
            Ok(_) => {
                self.enter();
                Ok(())
            },
            Err(e) => Err(e),
        }
    }

    /// A pinned worker begins to take requests.
    pub fn enter(&mut self)
        requires
            old(self).phase == Phase::Bound,
        ensures
            *final(self) == old(self).in_phase(Phase::Running),
    {
        self.phase = Phase::Running;
    }

    /// Answers one request, checks the answer by computing it once more, and
    /// counts the request. A division by zero is refused, and so is a request
    /// that the counter has no room for; either way the worker is unchanged.
    pub fn on_item(&mut self, req: ComputeRequest) -> (res: Result<ComputeResult, BenchError>)
        requires
            old(self).phase == Phase::Running,
        ensures
            match res {
                Ok(answer) => old(self).accepts(req) && req.verifies(answer) && *final(self)
                    == old(self).counted(),
                Err(e) => *final(self) == *old(self) && !old(self).accepts(req) && e == (
                if !req.is_defined() {
                    BenchError::Verification(ComputeError::DivisionByZero)
                } else {
                    BenchError::CountOverflow
                }),
            },
    {
        let answer = match req.solve() {
            Ok(answer) => answer,
            Err(e) => {
                return Err(BenchError::Verification(e));
            },
        };
        match req.check_answer(answer) {
            Ok(_) => {},
            Err(e) => {
                return Err(BenchError::Verification(e));
            },
        }
        if self.solved == usize::MAX {
            return Err(BenchError::CountOverflow);
        }
        self.solved = self.solved + 1;
        Ok(answer)
    }

    /// Takes in what a receive found. A request is answered, checked and
    /// counted as `on_item` does, and the worker goes on; an empty channel
    /// leaves the worker idle and unchanged; the end of the channel leaves
    /// it drained.
    pub fn on_polled(&mut self, got: Polled<ComputeRequest>) -> (res: Result<
        Option<Progress>,
        BenchError,
    >)
        requires
            old(self).phase == Phase::Running,
        ensures
            match got {
                Polled::Item(req) => if old(self).accepts(req) {
                    res == Ok::<Option<Progress>, BenchError>(None) && *final(self) == old(self).counted()
                } else {
                    *final(self) == *old(self) && res == Err::<Option<Progress>, BenchError>(
                        if !req.is_defined() {
                            BenchError::Verification(ComputeError::DivisionByZero)
                        } else {
                            BenchError::CountOverflow
                        },
                    )
                },
                Polled::Empty => res == Ok::<Option<Progress>, BenchError>(Some(Progress::Idle))
                    && *final(self) == *old(self),
                Polled::Closed => res == Ok::<Option<Progress>, BenchError>(
                    Some(Progress::Drained),
                ) && *final(self) == old(self).in_phase(Phase::Drained),
            },
    {
        match got {
            Polled::Item(req) => match self.on_item(req) {
                Ok(_) => Ok(None),
                Err(e) => Err(e),
            },
            Polled::Empty => Ok(Some(Progress::Idle)),
            Polled::Closed => {
                self.on_closed();
                Ok(Some(Progress::Drained))
            },
        }
    }

    /// The worker has seen the channel closed and empty.
    pub fn on_closed(&mut self)
        requires
            old(self).phase == Phase::Running,
        ensures
            *final(self) == old(self).in_phase(Phase::Drained),
    {
        self.phase = Phase::Drained;
    }

    /// A drained worker gives its count and is done.
    pub fn finish(&mut self) -> (solved: usize)
        requires
            old(self).phase == Phase::Drained,
        ensures
            solved == old(self).solved,
            *final(self) == old(self).in_phase(Phase::Done),
    {
        self.phase = Phase::Done;
        self.solved
    }

    /// Whether the count stands at a point where progress is reported.
    pub fn at_milestone(&self) -> (b: bool)
        ensures
            b == (self.solved > 0 && self.solved % PROGRESS_INTERVAL == 0),
    {
        self.solved > 0 && self.solved % PROGRESS_INTERVAL == 0
    }

    /// What `work` leaves behind, for every course that the calls into the
    /// channel can take. A token that found no receiver belongs to a request
    /// that is counted, and the counter is refused only when it is full.
    pub open spec fn worked(self, before: WorkerState, res: Result<Progress, BenchError>) -> bool {
        &&& self.id == before.id
        &&& self.core == before.core
        &&& before.solved <= self.solved <= next_milestone(before.solved as int)
        &&& match res {
            Ok(Progress::Milestone) => self.phase == Phase::Running && self.solved
                == next_milestone(before.solved as int),
            Ok(Progress::Idle) => self.phase == Phase::Running && self.solved < next_milestone(
                before.solved as int,
            ),
            Ok(Progress::Drained) => self.phase == Phase::Drained && self.solved
                < next_milestone(before.solved as int),
            Err(e) => self.phase == Phase::Running && (e == BenchError::Channel || e
                == BenchError::CountOverflow || e == BenchError::Verification(
                ComputeError::DivisionByZero,
            )),
        }
        &&& res == Err::<Progress, BenchError>(BenchError::Channel) ==> before.solved
            < self.solved
        &&& res == Err::<Progress, BenchError>(BenchError::CountOverflow) ==> self.solved
            == usize::MAX
    }

    /// Whether requests can be received on this channel: on every channel
    /// but one whose capacity is the largest machine word.
    pub fn can_receive(requests: &flume::Receiver<ComputeRequest>) -> (ok: bool)
        ensures
            ok == (request_receiver_capacity(*requests) != Some(usize::MAX)),
    {
        match request_limit(requests) {
            Some(limit) => limit != usize::MAX,
            None => true,
        }
    }

    /// Asks the channel for a request, waiting for one or not.
    fn take(requests: &flume::Receiver<ComputeRequest>, wait: bool) -> (got: Polled<
        ComputeRequest,
    >)
        requires
            request_receiver_capacity(*requests) != Some(usize::MAX),
        ensures
            wait ==> !(got is Empty),
    {
        if wait {
            Polled::received(recv_request(requests))
        } else {
            try_recv_request(requests)
        }
    }

    /// The loop of a worker: receive, solve, check, count, and with `tokens`
    /// acknowledge, until the count reaches its next milestone, the channel
    /// is closed and empty, or, without waiting, nothing is there.
    fn work(
        &mut self,
        requests: &flume::Receiver<ComputeRequest>,
        tokens: Option<&flume::Sender<()>>,
        wait: bool,
    ) -> (res: Result<Progress, BenchError>)
        requires
            old(self).phase == Phase::Running,
            request_receiver_capacity(*requests) != Some(usize::MAX),
        ensures
            final(self).worked(*old(self), res),
            wait ==> res != Ok::<Progress, BenchError>(Progress::Idle),
            tokens is None ==> res != Err::<Progress, BenchError>(BenchError::Channel),
    {
        let mut left: usize = PROGRESS_INTERVAL - self.solved % PROGRESS_INTERVAL;
        while left > 0
            invariant
                request_receiver_capacity(*requests) != Some(usize::MAX),
                self.phase == Phase::Running,
                self.id == old(self).id,
                self.core == old(self).core,
                old(self).solved <= self.solved,
                self.solved + left == next_milestone(old(self).solved as int),
            decreases left,
        {
            let got = WorkerState::take(requests, wait);
            match self.on_polled(got) {
                Ok(None) => {},
                Ok(Some(progress)) => {
                    return Ok(progress);
                },
                Err(e) => {
                    return Err(e);
                },
            }
            left = left - 1;
            if let Some(tx) = tokens {
                if send(tx, ()).is_err() {
                    return Err(BenchError::Channel);
                }
            }
        }
        Ok(Progress::Milestone)
    }

    /// Takes requests from `requests`, waiting for each, until the count
    /// reaches its next milestone or the channel is closed and empty. With
    /// `tokens`, one token is sent for each counted request, waiting for
    /// room if need be; without, no channel error can come back.
    ///
    /// Which requests arrive is up to the channel and the other workers, so
    /// the result is stated for every course that the calls can take. On an
    /// error the request that was refused has left the channel and is not
    /// counted; a token that found no receiver belongs to a request that is
    /// counted.
    ///
    /// The channel must be one that can be received on; `try_run` finds
    /// that out by itself.
    pub fn run(
        &mut self,
        requests: &flume::Receiver<ComputeRequest>,
        tokens: Option<&flume::Sender<()>>,
    ) -> (res: Result<Progress, BenchError>)
        requires
            old(self).phase == Phase::Running,
            request_receiver_capacity(*requests) != Some(usize::MAX),
        ensures
            final(self).worked(*old(self), res),
            res != Ok::<Progress, BenchError>(Progress::Idle),
            tokens is None ==> res != Err::<Progress, BenchError>(BenchError::Channel),
    {
        self.work(requests, tokens, true)
    }

    /// Takes the requests that wait in `requests`, without ever waiting,
    /// until the count reaches its next milestone, nothing is there, or the
    /// channel is closed and empty. No tokens are sent, so no channel error
    /// can come back.
    ///
    /// The channel must be one that can be received on; `try_poll` finds
    /// that out by itself.
    pub fn poll(&mut self, requests: &flume::Receiver<ComputeRequest>) -> (res: Result<
        Progress,
        BenchError,
    >)
        requires
            old(self).phase == Phase::Running,
            request_receiver_capacity(*requests) != Some(usize::MAX),
        ensures
            final(self).worked(*old(self), res),
            res != Err::<Progress, BenchError>(BenchError::Channel),
    {
        self.work(requests, None, false)
    }

    /// As `run`, on any channel: where the channel cannot be received on,
    /// nothing is done and nothing comes back.
    pub fn try_run(
        &mut self,
        requests: &flume::Receiver<ComputeRequest>,
        tokens: Option<&flume::Sender<()>>,
    ) -> (res: Option<Result<Progress, BenchError>>)
        requires
            old(self).phase == Phase::Running,
        ensures
            match res {
                Some(r) => {
                    &&& request_receiver_capacity(*requests) != Some(usize::MAX)
                    &&& final(self).worked(*old(self), r)
                    &&& r != Ok::<Progress, BenchError>(Progress::Idle)
                    &&& tokens is None ==> r != Err::<Progress, BenchError>(BenchError::Channel)
                },
                None => request_receiver_capacity(*requests) == Some(usize::MAX) && *final(self)
                    == *old(self),
            },
    {
        if WorkerState::can_receive(requests) {
            Some(self.run(requests, tokens))
        } else {
            None
        }
    }

    /// As `poll`, on any channel: where the channel cannot be received on,
    /// nothing is done and nothing comes back.
    pub fn try_poll(&mut self, requests: &flume::Receiver<ComputeRequest>) -> (res: Option<
        Result<Progress, BenchError>,
    >)
        requires
            old(self).phase == Phase::Running,
        ensures
            match res {
                Some(r) => {
                    &&& request_receiver_capacity(*requests) != Some(usize::MAX)
                    &&& final(self).worked(*old(self), r)
                    &&& r != Err::<Progress, BenchError>(BenchError::Channel)
                },
                None => request_receiver_capacity(*requests) == Some(usize::MAX) && *final(self)
                    == *old(self),
            },
    {
        if WorkerState::can_receive(requests) {
            Some(self.poll(requests))
        } else {
            None
        }
    }
}

} // verus!
