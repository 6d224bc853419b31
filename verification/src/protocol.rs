//! The run as a whole: the driver, the work channel, the completion tokens
//! and the workers, as one transition system.
//!
//! A state of the system holds the driver's and the workers' own records and,
//! beside them, what the channel holds: the places of the requests that wait
//! in it, oldest first. A step is one thing that one party does. The channel
//! is first-in first-out, hands each request to one receiver, holds no more
//! than its capacity, and reports the end to a receiver once the sender is
//! let go and nothing waits. What is proved here holds of every course that
//! such a system can take, whatever the order in which the parties move.

use vstd::prelude::*;
use crate::driver::{lemma_solved_sum_grows, solved_sum, total_solved, Driver, DriverPhase};
use crate::request::{lemma_generated_request_is_defined, ComputeRequest};
use crate::worker::{Phase, WorkerState};

verus! {

/// One state of a run.
pub struct Run {
    /// The most requests that the work channel holds at once.
    pub capacity: nat,
    /// Whether a token is sent for each solved request.
    pub acknowledge: bool,
    pub driver: Driver,
    /// The places of the requests that wait in the work channel, oldest
    /// first.
    pub queue: Seq<int>,
    /// The number of tokens that wait in the completion channel. That
    /// channel is made for one token per request of the workload, so it is
    /// never full when a worker has a token to send.
    pub tokens: nat,
    pub workers: Seq<WorkerState>,
    /// For each worker, the places of the requests that it received, in the
    /// order in which it received them.
    pub taken: Seq<Seq<int>>,
}

/// One move of one party.
pub enum Step {
    /// The worker is pinned and begins to take requests.
    Start(int),
    /// The driver puts the next request into the channel.
    Send,
    /// The driver lets go of its sender.
    Release,
    /// The worker receives the oldest request, solves and counts it.
    Take(int),
    /// The worker sees the channel closed and empty.
    Close(int),
    /// The worker gives its count away.
    Finish(int),
    /// The driver receives a token.
    Acknowledge,
    /// The driver finds that the workers' counts add up to what it sent.
    Reconcile,
}

/// The places from `lo` up to `hi`, `hi` left out.
pub open spec fn places(lo: int, hi: int) -> Seq<int> {
    Seq::new((hi - lo) as nat, |i: int| lo + i)
}

impl Run {
    /// The state in which a run begins: nothing sent, nothing taken, the
    /// worker `i` on the core `i`.
    pub open spec fn init(workers: usize, capacity: usize, items: usize, acknowledge: bool) -> Run {
        Run {
            capacity: capacity as nat,
            acknowledge,
            driver: Driver { total: items, sent: 0, acknowledged: 0, phase: DriverPhase::Feeding },
            queue: Seq::empty(),
            tokens: 0,
            workers: Seq::new(
                workers as nat,
                |i: int|
                    WorkerState { id: i as usize, core: i as usize, solved: 0, phase: Phase::Init },
            ),
            taken: Seq::new(workers as nat, |i: int| Seq::<int>::empty()),
        }
    }

    /// Whether `w` is the number of a worker.
    pub open spec fn has_worker(self, w: int) -> bool {
        0 <= w < self.workers.len()
    }

    /// The place of the `i`-th request that the worker `w` received.
    pub open spec fn entry(self, w: int, i: int) -> int {
        self.taken[w][i]
    }

    /// Whether the worker `w` has received at least `i + 1` requests.
    pub open spec fn has_entry(self, w: int, i: int) -> bool {
        self.has_worker(w) && 0 <= i < self.taken[w].len()
    }

    /// Whether some worker has received the request at place `p`.
    pub open spec fn holds(self, p: int) -> bool {
        exists|w: int, i: int| self.has_entry(w, i) && #[trigger] self.entry(w, i) == p
    }

    /// Whether the driver has let go of its sender.
    pub open spec fn released(self) -> bool {
        self.driver.phase != DriverPhase::Feeding
    }

    /// Whether the worker `w` has seen the end of the channel.
    pub open spec fn retired(self, w: int) -> bool {
        self.workers[w].phase == Phase::Drained || self.workers[w].phase == Phase::Done
    }

    /// Whether every worker has seen the end of the channel.
    pub open spec fn finished(self) -> bool {
        forall|w: int| self.has_worker(w) ==> #[trigger] self.retired(w)
    }

    /// Whether the party can make the move in this state. A move that is not
    /// enabled has to wait: a send while the channel is full, a receive
    /// while it is empty and the sender is still held.
    pub open spec fn enabled(self, step: Step) -> bool {
        match step {
            Step::Start(w) => self.has_worker(w) && self.workers[w].phase == Phase::Init,
            Step::Send => self.driver.phase == DriverPhase::Feeding && self.driver.sent
                < self.driver.total && self.queue.len() < self.capacity,
            Step::Release => self.driver.phase == DriverPhase::Feeding && self.driver.sent
                == self.driver.total,
            Step::Take(w) => self.has_worker(w) && self.workers[w].phase == Phase::Running
                && self.queue.len() > 0 && self.workers[w].accepts(
                ComputeRequest::nth(self.queue[0]),
            ),
            Step::Close(w) => self.has_worker(w) && self.workers[w].phase == Phase::Running
                && self.queue.len() == 0 && self.released(),
            Step::Finish(w) => self.has_worker(w) && self.workers[w].phase == Phase::Drained,
            Step::Acknowledge => self.acknowledge && self.driver.phase == DriverPhase::Released
                && self.tokens > 0 && self.driver.acknowledged < self.driver.total,
            Step::Reconcile => !self.acknowledge && self.driver.phase == DriverPhase::Released
                && total_solved(self.workers) == self.driver.sent,
        }
    }

    /// The state after the move.
    pub open spec fn next(self, step: Step) -> Run {
        match step {
            Step::Start(w) => Run {
                workers: self.workers.update(w, self.workers[w].in_phase(Phase::Running)),
                ..self
            },
            Step::Send => Run {
                driver: self.driver.with_sent((self.driver.sent + 1) as usize),
                queue: self.queue.push(self.driver.sent as int),
                ..self
            },
            Step::Release => Run {
                driver: Driver { phase: DriverPhase::Released, ..self.driver },
                ..self
            },
            Step::Take(w) => Run {
                queue: self.queue.drop_first(),
                workers: self.workers.update(w, self.workers[w].counted()),
                taken: self.taken.update(w, self.taken[w].push(self.queue[0])),
                tokens: if self.acknowledge {
                    self.tokens + 1
                } else {
                    self.tokens
                },
                ..self
            },
            Step::Close(w) => Run {
                workers: self.workers.update(w, self.workers[w].in_phase(Phase::Drained)),
                ..self
            },
            Step::Finish(w) => Run {
                workers: self.workers.update(w, self.workers[w].in_phase(Phase::Done)),
                ..self
            },
            Step::Acknowledge => Run {
                driver: Driver {
                    acknowledged: (self.driver.acknowledged + 1) as usize,
                    phase: if self.driver.acknowledged + 1 == self.driver.total {
                        DriverPhase::Complete
                    } else {
                        DriverPhase::Released
                    },
                    ..self.driver
                },
                tokens: (self.tokens - 1) as nat,
                ..self
            },
            Step::Reconcile => Run {
                driver: Driver { phase: DriverPhase::Complete, ..self.driver },
                ..self
            },
        }
    }

    /// Whether each of `steps` is enabled when its turn comes, beginning in
    /// this state.
    pub open spec fn admits(self, steps: Seq<Step>) -> bool
        decreases steps.len(),
    {
        steps.len() > 0 ==> self.enabled(steps[0]) && self.next(steps[0]).admits(
            steps.drop_first(),
        )
    }

    /// The state after all of `steps`, one after the other.
    pub open spec fn after(self, steps: Seq<Step>) -> Run
        decreases steps.len(),
    {
        if steps.len() == 0 {
            self
        } else {
            self.next(steps[0]).after(steps.drop_first())
        }
    }

    /// How many of `steps` are receipts of a request.
    pub open spec fn takes(steps: Seq<Step>) -> nat
        decreases steps.len(),
    {
        if steps.len() == 0 {
            0
        } else {
            Run::takes(steps.drop_first()) + if steps[0] is Take {
                1nat
            } else {
                0nat
            }
        }
    }

    /// What holds in every state that a run can come into.
    pub open spec fn inv(self) -> bool {
        let head = total_solved(self.workers);
        &&& self.driver.wf()
        &&& self.workers.len() == self.taken.len()
        &&& self.queue.len() <= self.capacity
        &&& head <= self.driver.sent
        &&& self.queue == places(head, self.driver.sent as int)
        &&& forall|w: int|
            self.has_worker(w) ==> (#[trigger] self.workers[w]).solved == self.taken[w].len()
        &&& forall|w: int, i: int|
            self.has_entry(w, i) ==> 0 <= #[trigger] self.entry(w, i) < head
        &&& forall|w: int, i: int, v: int, j: int|
            self.has_entry(w, i) && self.has_entry(v, j) && (w != v || i != j) ==> #[trigger] self.entry(w, i)
                != #[trigger] self.entry(v, j)
        &&& forall|p: int| 0 <= p < head ==> #[trigger] self.holds(p)
        &&& forall|w: int|
            self.has_worker(w) && #[trigger] self.retired(w) ==> self.released()
                && self.queue.len() == 0
        &&& if self.acknowledge {
            self.tokens + self.driver.acknowledged == head
        } else {
            self.tokens == 0 && self.driver.acknowledged == 0
        }
        &&& self.driver.phase == DriverPhase::Complete ==> head == self.driver.total && (
        self.acknowledge ==> self.driver.acknowledged == self.driver.total)
    }
}

/// Replacing one worker's record changes the sum of the counts by the
/// difference of the two counts.
proof fn lemma_solved_sum_update(workers: Seq<WorkerState>, w: int, x: WorkerState, n: int)
    requires
        0 <= w < workers.len(),
        0 <= n <= workers.len(),
    ensures
        solved_sum(workers.update(w, x), n) == solved_sum(workers, n) + if w < n {
            x.solved - workers[w].solved
        } else {
            0
        },
    decreases n,
{
    if n > 0 {
        lemma_solved_sum_update(workers, w, x, n - 1);
    }
}

/// Workers that have solved nothing add up to nothing.
proof fn lemma_solved_sum_zero(workers: Seq<WorkerState>, n: int)
    requires
        0 <= n <= workers.len(),
        forall|i: int| 0 <= i < n ==> (#[trigger] workers[i]).solved == 0,
    ensures
        solved_sum(workers, n) == 0,
    decreases n,
{
    if n > 0 {
        lemma_solved_sum_zero(workers, n - 1);
    }
}

/// No worker has solved more than all of them together.
proof fn lemma_solved_le_total(workers: Seq<WorkerState>, w: int)
    requires
        0 <= w < workers.len(),
    ensures
        workers[w].solved <= total_solved(workers),
        0 <= solved_sum(workers, w),
{
    lemma_solved_sum_grows(workers, 0, w);
    lemma_solved_sum_grows(workers, w + 1, workers.len() as int);
}

/// A change of phase leaves the sum of the counts as it was.
proof fn lemma_phase_keeps_total(workers: Seq<WorkerState>, w: int, phase: Phase)
    requires
        0 <= w < workers.len(),
    ensures
        total_solved(workers.update(w, workers[w].in_phase(phase))) == total_solved(workers),
{
    lemma_solved_sum_update(workers, w, workers[w].in_phase(phase), workers.len() as int);
}

/// A run begins in a state in which the books are in order.
pub proof fn lemma_init_inv(workers: usize, capacity: usize, items: usize, acknowledge: bool)
    ensures
        Run::init(workers, capacity, items, acknowledge).inv(),
{
    let r = Run::init(workers, capacity, items, acknowledge);
    lemma_solved_sum_zero(r.workers, r.workers.len() as int);
    assert(r.queue =~= places(0, 0));
}

/// A worker that has seen the end of the channel after a move had seen it
/// before, or sees it in this move; either way the sender is let go and
/// nothing waits.
proof fn lemma_retired_saw_the_end(r: Run, step: Step)
    requires
        r.inv(),
        r.enabled(step),
    ensures
        forall|v: int|
            r.next(step).has_worker(v) && #[trigger] r.next(step).retired(v) ==> r.next(
                step,
            ).released() && r.next(step).queue.len() == 0,
{
    let n = r.next(step);
    assert forall|v: int| n.has_worker(v) && #[trigger] n.retired(v) implies n.released()
        && n.queue.len() == 0 by {
        if step != Step::Close(v) {
            assert(r.retired(v));
        }
    }
}

/// No move that is enabled brings the books out of order.
pub proof fn lemma_step_keeps_inv(r: Run, step: Step)
    requires
        r.inv(),
        r.enabled(step),
    ensures
        r.next(step).inv(),
{
    let n = r.next(step);
    let head = total_solved(r.workers);
    lemma_retired_saw_the_end(r, step);
    match step {
        Step::Start(w) => {
            lemma_phase_keeps_total(r.workers, w, Phase::Running);
            lemma_same_books(r, n);
        },
        Step::Send => {
            assert(n.queue =~= places(head, n.driver.sent as int));
            lemma_same_books(r, n);
        },
        Step::Take(w) => {
            lemma_take_keeps_inv(r, w);
        },
        Step::Close(w) => {
            lemma_phase_keeps_total(r.workers, w, Phase::Drained);
            lemma_same_books(r, n);
        },
        Step::Finish(w) => {
            lemma_phase_keeps_total(r.workers, w, Phase::Done);
            lemma_same_books(r, n);
        },
        Step::Release | Step::Acknowledge | Step::Reconcile => {
            lemma_same_books(r, n);
        },
    }
}

/// Where the records of what was taken and the counts are the same in two
/// states, what the first state knows of them holds in the second.
proof fn lemma_same_books(r: Run, n: Run)
    requires
        r.inv(),
        n.taken == r.taken,
        n.workers.len() == r.workers.len(),
        forall|v: int| r.has_worker(v) ==> (#[trigger] n.workers[v]).solved == r.workers[v].solved,
        total_solved(n.workers) == total_solved(r.workers),
    ensures
        n.workers.len() == n.taken.len(),
        forall|w: int|
            n.has_worker(w) ==> (#[trigger] n.workers[w]).solved == n.taken[w].len(),
        forall|w: int, i: int|
            n.has_entry(w, i) ==> 0 <= #[trigger] n.entry(w, i) < total_solved(n.workers),
        forall|w: int, i: int, v: int, j: int|
            n.has_entry(w, i) && n.has_entry(v, j) && (w != v || i != j) ==> #[trigger] n.entry(
                w,
                i,
            ) != #[trigger] n.entry(v, j),
        forall|p: int| 0 <= p < total_solved(n.workers) ==> #[trigger] n.holds(p),
{
    assert forall|p: int| 0 <= p < total_solved(n.workers) implies #[trigger] n.holds(p) by {
        assert(r.holds(p));
        let (w, i) = choose|w: int, i: int| r.has_entry(w, i) && #[trigger] r.entry(w, i) == p;
        assert(n.has_entry(w, i) && n.entry(w, i) == p);
    }
    assert forall|w: int| n.has_worker(w) implies (#[trigger] n.workers[w]).solved
        == n.taken[w].len() by {
        assert(r.has_worker(w));
        assert(r.workers[w].solved == r.taken[w].len());
    }
    assert forall|w: int, i: int| n.has_entry(w, i) implies 0 <= #[trigger] n.entry(w, i)
        < total_solved(n.workers) by {
        assert(r.has_entry(w, i));
        assert(r.entry(w, i) == n.entry(w, i));
    }
    assert forall|w: int, i: int, v: int, j: int|
        n.has_entry(w, i) && n.has_entry(v, j) && (w != v || i != j) implies #[trigger] n.entry(
        w,
        i,
    ) != #[trigger] n.entry(v, j) by {
        assert(r.has_entry(w, i) && r.has_entry(v, j));
        assert(r.entry(w, i) != r.entry(v, j));
    }
}

/// A worker that takes the oldest request leaves the books in order.
proof fn lemma_take_keeps_inv(r: Run, w: int)
    requires
        r.inv(),
        r.enabled(Step::Take(w)),
    ensures
        r.next(Step::Take(w)).inv(),
{
    let n = r.next(Step::Take(w));
    let head = total_solved(r.workers);
    let place = r.queue[0];
    assert(place == head);
    lemma_solved_sum_grows(r.workers, 0, r.workers.len() as int);
    lemma_solved_sum_update(r.workers, w, r.workers[w].counted(), r.workers.len() as int);
    assert(total_solved(n.workers) == head + 1);
    assert(n.queue =~= places(head + 1, r.driver.sent as int));
    assert forall|v: int| n.has_worker(v) implies (#[trigger] n.workers[v]).solved
        == n.taken[v].len() by {
        assert(r.has_worker(v));
        assert(r.workers[v].solved == r.taken[v].len());
    }
    assert forall|v: int, i: int| n.has_entry(v, i) implies 0 <= #[trigger] n.entry(v, i) < head
        + 1 by {
        if v == w && i == r.taken[w].len() {
        } else {
            assert(r.has_entry(v, i));
            assert(r.entry(v, i) == n.entry(v, i));
        }
    }
    assert forall|v: int, i: int, u: int, j: int|
        n.has_entry(v, i) && n.has_entry(u, j) && (v != u || i != j) implies #[trigger] n.entry(
        v,
        i,
    ) != #[trigger] n.entry(u, j) by {
        let fresh_vi = v == w && i == r.taken[w].len();
        let fresh_uj = u == w && j == r.taken[w].len();
        if !fresh_vi {
            assert(r.has_entry(v, i));
            assert(r.entry(v, i) == n.entry(v, i));
        }
        if !fresh_uj {
            assert(r.has_entry(u, j));
            assert(r.entry(u, j) == n.entry(u, j));
        }
    }
    assert forall|p: int| 0 <= p < head + 1 implies #[trigger] n.holds(p) by {
        if p == head {
            let last = r.taken[w].len() as int;
            assert(n.has_entry(w, last) && n.entry(w, last) == p);
        } else {
            assert(r.holds(p));
            let (v, i) = choose|v: int, i: int| r.has_entry(v, i) && #[trigger] r.entry(v, i) == p;
            assert(n.has_entry(v, i) && n.entry(v, i) == p);
        }
    }
    lemma_retired_saw_the_end(r, Step::Take(w));
}

/// Whatever course a run takes from a state in which the books are in
/// order, they stay in order, and the pool, the workload and the capacity
/// stay what they were.
pub proof fn lemma_course_keeps_inv(r: Run, steps: Seq<Step>)
    requires
        r.inv(),
        r.admits(steps),
    ensures
        r.after(steps).inv(),
        r.after(steps).workers.len() == r.workers.len(),
        r.after(steps).driver.total == r.driver.total,
        r.after(steps).capacity == r.capacity,
        r.after(steps).acknowledge == r.acknowledge,
        r.released() ==> r.after(steps).released(),
    decreases steps.len(),
{
    if steps.len() > 0 {
        lemma_step_keeps_inv(r, steps[0]);
        lemma_course_keeps_inv(r.next(steps[0]), steps.drop_first());
    }
}

/// When every worker of a run has seen the end of the channel, the workers'
/// counts add up to the number of requests of the workload: nothing was
/// lost and nothing was counted twice. This holds for every pool of at
/// least one worker, every capacity, every workload, with and without
/// tokens, and for every order in which the parties moved.
pub proof fn law_counts_add_up(
    workers: usize,
    capacity: usize,
    items: usize,
    acknowledge: bool,
    steps: Seq<Step>,
)
    requires
        workers >= 1,
        Run::init(workers, capacity, items, acknowledge).admits(steps),
        Run::init(workers, capacity, items, acknowledge).after(steps).finished(),
    ensures
        total_solved(Run::init(workers, capacity, items, acknowledge).after(steps).workers)
            == items,
{
    let start = Run::init(workers, capacity, items, acknowledge);
    let end = start.after(steps);
    lemma_init_inv(workers, capacity, items, acknowledge);
    lemma_course_keeps_inv(start, steps);
    assert(end.has_worker(0) && end.retired(0));
}

/// In every state of a run, no request has been received twice: two
/// receipts, by one worker or by two, are of requests at different places.
/// And each request that was received is one that the driver sent.
pub proof fn law_no_request_taken_twice(
    workers: usize,
    capacity: usize,
    items: usize,
    acknowledge: bool,
    steps: Seq<Step>,
    w: int,
    i: int,
    v: int,
    j: int,
)
    requires
        Run::init(workers, capacity, items, acknowledge).admits(steps),
        Run::init(workers, capacity, items, acknowledge).after(steps).has_entry(w, i),
        Run::init(workers, capacity, items, acknowledge).after(steps).has_entry(v, j),
        w != v || i != j,
    ensures
        Run::init(workers, capacity, items, acknowledge).after(steps).entry(w, i) != Run::init(
            workers,
            capacity,
            items,
            acknowledge,
        ).after(steps).entry(v, j),
        0 <= Run::init(workers, capacity, items, acknowledge).after(steps).entry(w, i)
            < Run::init(workers, capacity, items, acknowledge).after(steps).driver.sent,
{
    let start = Run::init(workers, capacity, items, acknowledge);
    let end = start.after(steps);
    lemma_init_inv(workers, capacity, items, acknowledge);
    lemma_course_keeps_inv(start, steps);
    assert(end.entry(w, i) != end.entry(v, j));
    assert(0 <= end.entry(w, i) < total_solved(end.workers));
}

/// When every worker of a run has seen the end of the channel, each request
/// of the workload has been received by a worker.
pub proof fn law_every_request_taken(
    workers: usize,
    capacity: usize,
    items: usize,
    acknowledge: bool,
    steps: Seq<Step>,
    place: int,
)
    requires
        workers >= 1,
        Run::init(workers, capacity, items, acknowledge).admits(steps),
        Run::init(workers, capacity, items, acknowledge).after(steps).finished(),
        0 <= place < items,
    ensures
        Run::init(workers, capacity, items, acknowledge).after(steps).holds(place),
{
    law_counts_add_up(workers, capacity, items, acknowledge, steps);
    lemma_init_inv(workers, capacity, items, acknowledge);
    lemma_course_keeps_inv(Run::init(workers, capacity, items, acknowledge), steps);
}

/// Once the driver has let go of its sender, a worker that asks for a
/// request never has to wait: either a request is there for it, or it sees
/// the end; and when nothing is left in the channel, it sees the end.
pub proof fn law_receive_never_waits_after_release(r: Run, w: int)
    requires
        r.inv(),
        r.released(),
        r.has_worker(w),
        r.workers[w].phase == Phase::Running,
    ensures
        r.enabled(Step::Take(w)) || r.enabled(Step::Close(w)),
        r.queue.len() == 0 ==> r.enabled(Step::Close(w)) && r.next(Step::Close(w)).retired(w),
{
    if r.queue.len() > 0 {
        lemma_solved_le_total(r.workers, w);
        lemma_solved_sum_grows(r.workers, 0, r.workers.len() as int);
        lemma_generated_request_is_defined(r.queue[0]);
    }
}

/// Once the driver has let go of its sender, the channel only empties:
/// whatever course the run takes from there, the requests received and the
/// requests still waiting are together those that waited at the release.
/// So after as many receipts as requests waited, every further receive
/// sees the end.
pub proof fn law_receipts_after_release_are_bounded(r: Run, steps: Seq<Step>)
    requires
        r.inv(),
        r.released(),
        r.admits(steps),
    ensures
        Run::takes(steps) + r.after(steps).queue.len() == r.queue.len(),
    decreases steps.len(),
{
    if steps.len() > 0 {
        lemma_step_keeps_inv(r, steps[0]);
        law_receipts_after_release_are_bounded(r.next(steps[0]), steps.drop_first());
    }
}

/// While the channel is full the driver cannot send, and it can send again
/// only after a worker has received a request.
pub proof fn law_full_channel_holds_the_driver(r: Run, step: Step)
    requires
        r.inv(),
        r.queue.len() == r.capacity,
        r.enabled(step),
    ensures
        !r.enabled(Step::Send),
        r.next(step).enabled(Step::Send) ==> step is Take,
{
}

/// In a run with tokens, once the driver has received one token for each
/// request of the workload, the workers have solved all of it and no token
/// is left on its way: the tokens received are as many as the requests
/// sent.
pub proof fn law_tokens_account_for_the_workload(
    workers: usize,
    capacity: usize,
    items: usize,
    steps: Seq<Step>,
)
    requires
        Run::init(workers, capacity, items, true).admits(steps),
        Run::init(workers, capacity, items, true).after(steps).driver.acknowledged == items,
    ensures
        total_solved(Run::init(workers, capacity, items, true).after(steps).workers) == items,
        Run::init(workers, capacity, items, true).after(steps).driver.sent == items,
        Run::init(workers, capacity, items, true).after(steps).tokens == 0,
{
    lemma_init_inv(workers, capacity, items, true);
    lemma_course_keeps_inv(Run::init(workers, capacity, items, true), steps);
}

/// When the driver holds a run for complete, with tokens or by holding the
/// counts against what it sent, the workers have solved the whole workload.
pub proof fn law_complete_means_all_solved(
    workers: usize,
    capacity: usize,
    items: usize,
    acknowledge: bool,
    steps: Seq<Step>,
)
    requires
        Run::init(workers, capacity, items, acknowledge).admits(steps),
        Run::init(workers, capacity, items, acknowledge).after(steps).driver.phase
            == DriverPhase::Complete,
    ensures
        total_solved(Run::init(workers, capacity, items, acknowledge).after(steps).workers)
            == items,
        acknowledge ==> Run::init(workers, capacity, items, acknowledge).after(
            steps,
        ).driver.acknowledged == items,
{
    lemma_init_inv(workers, capacity, items, acknowledge);
    lemma_course_keeps_inv(Run::init(workers, capacity, items, acknowledge), steps);
}

/// In a run with tokens, fewer tokens wait than the workload has requests
/// whenever a worker is about to count one more. So in a completion channel
/// made for one token per request the worker's token always finds room,
/// however small the work channel is.
pub proof fn law_token_finds_room(r: Run, w: int)
    requires
        r.inv(),
        r.acknowledge,
        r.enabled(Step::Take(w)),
    ensures
        r.tokens < r.driver.total,
{
}

} // verus!
