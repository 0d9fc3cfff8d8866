//! The bookkeeping of a fixed pool of workers: which jobs wait, which worker
//! is busy, and when a worker may stop. The pool holds the jobs and decides;
//! the host owns the threads, asks the pool what each worker is to do next,
//! and runs the job it is handed.
//!
//! Jobs are handed out in the order in which they were submitted, each one
//! once. After shutdown no job is taken any more, and a worker is told to
//! stop only when no job is left waiting.

use std::collections::VecDeque;
use vstd::prelude::*;

verus! {

/// Why the pool refused.
#[derive(Clone, Copy, Debug, PartialEq, Eq, Structural)]
pub enum PoolError {
    /// A pool needs at least one worker.
    NoWorkers,
    /// The pool is shutting down and takes no more jobs.
    ShutDown,
}

impl PoolError {
    /// The words in which the refusal is reported.
    pub open spec fn text(self) -> Seq<char> {
        match self {
            PoolError::NoWorkers => "Tried to create a pool with 0 threads"@,
            PoolError::ShutDown => "The pool is shutting down"@,
        }
    }

    /// The words in which the refusal is reported.
    pub fn message(&self) -> (m: &'static str)
        ensures
            m@ == self.text(),
    {
        match self {
            PoolError::NoWorkers => "Tried to create a pool with 0 threads",
            PoolError::ShutDown => "The pool is shutting down",
        }
    }
}

/// What a worker is doing.
#[derive(Clone, Copy, Debug, PartialEq, Eq, Structural)]
pub enum WorkerState {
    /// Waiting for a job.
    Idle,
    /// Running a job.
    Busy,
    /// Told to stop; takes no more jobs.
    Stopped,
}

/// What a worker is to do next.
pub enum Dispatch<J> {
    /// Run this job, then report that it is finished.
    Run(J),
    /// Nothing to do for now; ask again when something has changed.
    Wait,
    /// Stop for good.
    Stop,
}

/// The number of busy workers.
pub open spec fn busy_count(workers: Seq<WorkerState>) -> nat
    decreases workers.len(),
{
    if workers.len() == 0 {
        0
    } else {
        busy_count(workers.drop_last()) + if workers.last() == WorkerState::Busy {
            1nat
        } else {
            0nat
        }
    }
}

/// The mathematical content of a `ThreadPool`: its present state, and the
/// record of what has passed through it.
#[verifier::ext_equal]
pub struct PoolView<J> {
    /// The state of each worker.
    pub workers: Seq<WorkerState>,
    /// The jobs that wait, the oldest first.
    pub pending: Seq<J>,
    /// Whether jobs are still taken.
    pub accepting: bool,
    /// Every job ever taken, in the order of submission.
    pub submitted: Seq<J>,
    /// How many jobs have been handed to a worker.
    pub dispatched: nat,
    /// How many jobs have been reported as finished.
    pub finished: nat,
}

impl<J> PoolView<J> {
    /// A pool of `size` idle workers through which nothing has passed.
    pub open spec fn fresh(size: nat) -> PoolView<J> {
        PoolView {
            workers: Seq::new(size, |i: int| WorkerState::Idle),
            pending: Seq::empty(),
            accepting: true,
            submitted: Seq::empty(),
            dispatched: 0,
            finished: 0,
        }
    }

    /// At least one worker has stopped.
    pub open spec fn some_stopped(self) -> bool {
        exists|i: int| 0 <= i < self.workers.len() && self.workers[i] == WorkerState::Stopped
    }

    /// Every worker has stopped: the pool is at rest.
    pub open spec fn all_stopped(self) -> bool {
        forall|i: int| 0 <= i < self.workers.len() ==> self.workers[i] == WorkerState::Stopped
    }

    /// The invariant of the pool. The waiting jobs are those submitted and
    /// not yet handed out; the jobs handed out are finished or held by a
    /// busy worker; and a worker has stopped only after shutdown, with no job
    /// waiting.
    pub open spec fn wf(self) -> bool {
        &&& self.workers.len() >= 1
        &&& self.dispatched <= self.submitted.len()
        &&& self.pending == self.submitted.skip(self.dispatched as int)
        &&& self.finished + busy_count(self.workers) == self.dispatched
        &&& self.some_stopped() ==> !self.accepting && self.pending.len() == 0
    }

    /// The state after `job` was taken into the queue.
    pub open spec fn with_job(self, job: J) -> PoolView<J> {
        PoolView { pending: self.pending.push(job), submitted: self.submitted.push(job), ..self }
    }

    /// The state after the oldest waiting job went to `worker`.
    pub open spec fn handed_to(self, worker: int) -> PoolView<J> {
        PoolView {
            workers: self.workers.update(worker, WorkerState::Busy),
            pending: self.pending.skip(1),
            dispatched: self.dispatched + 1,
            ..self
        }
    }

    /// The state after `worker` was told to stop.
    pub open spec fn stopped_at(self, worker: int) -> PoolView<J> {
        PoolView { workers: self.workers.update(worker, WorkerState::Stopped), ..self }
    }

    /// The state after `worker` reported its job as finished.
    pub open spec fn finished_at(self, worker: int) -> PoolView<J> {
        PoolView {
            workers: self.workers.update(worker, WorkerState::Idle),
            finished: self.finished + 1,
            ..self
        }
    }

    /// The state after a request to queue `job`: the job joins the queue
    /// unless shutdown was requested.
    pub open spec fn submitted_with(self, job: J) -> PoolView<J> {
        if self.accepting {
            self.with_job(job)
        } else {
            self
        }
    }

    /// What `worker` is told when it asks what to do next. An idle worker
    /// gets the oldest waiting job; with none waiting it waits, or stops if
    /// shutdown was requested. A busy worker waits. A worker that has
    /// stopped, or that the pool does not have, is told to stop.
    pub open spec fn answer(self, worker: int) -> Dispatch<J> {
        if self.is_idle(worker) {
            if self.pending.len() > 0 {
                Dispatch::Run(self.pending[0])
            } else if self.accepting {
                Dispatch::Wait
            } else {
                Dispatch::Stop
            }
        } else if self.is_busy(worker) {
            Dispatch::Wait
        } else {
            Dispatch::Stop
        }
    }

    /// The state after `worker` has asked what to do next.
    pub open spec fn asked(self, worker: int) -> PoolView<J> {
        if !self.is_idle(worker) {
            self
        } else if self.pending.len() > 0 {
            self.handed_to(worker)
        } else if self.accepting {
            self
        } else {
            self.stopped_at(worker)
        }
    }

    /// The state after `worker` has reported a job as finished: nothing
    /// changes unless the worker was busy.
    pub open spec fn reported(self, worker: int) -> PoolView<J> {
        if self.is_busy(worker) {
            self.finished_at(worker)
        } else {
            self
        }
    }

    /// The state after shutdown was requested.
    pub open spec fn closing(self) -> PoolView<J> {
        PoolView { accepting: false, ..self }
    }

    /// Whether `worker` is one of the pool's workers and idle.
    pub open spec fn is_idle(self, worker: int) -> bool {
        0 <= worker < self.workers.len() && self.workers[worker] == WorkerState::Idle
    }

    /// Whether `worker` is one of the pool's workers and busy.
    pub open spec fn is_busy(self, worker: int) -> bool {
        0 <= worker < self.workers.len() && self.workers[worker] == WorkerState::Busy
    }
}

/// Changing one worker's state changes the number of busy workers by that
/// worker alone.
pub proof fn lemma_busy_update(workers: Seq<WorkerState>, i: int, state: WorkerState)
    requires
        0 <= i < workers.len(),
    ensures
        busy_count(workers.update(i, state)) + (if workers[i] == WorkerState::Busy {
            1nat
        } else {
            0nat
        }) == busy_count(workers) + (if state == WorkerState::Busy {
            1nat
        } else {
            0nat
        }),
    decreases workers.len(),
{
    let updated = workers.update(i, state);
    let rest = workers.drop_last();
    if i == workers.len() - 1 {
        assert(updated.drop_last() =~= rest);
    } else {
        lemma_busy_update(rest, i, state);
        assert(updated.drop_last() =~= rest.update(i, state));
    }
}

/// Never more jobs run than there are workers.
pub proof fn lemma_busy_bounded(workers: Seq<WorkerState>)
    ensures
        busy_count(workers) <= workers.len(),
    decreases workers.len(),
{
    if workers.len() > 0 {
        lemma_busy_bounded(workers.drop_last());
    }
}

/// Where no worker is busy, none is counted.
pub proof fn lemma_none_busy(workers: Seq<WorkerState>)
    requires
        forall|i: int| 0 <= i < workers.len() ==> workers[i] != WorkerState::Busy,
    ensures
        busy_count(workers) == 0,
    decreases workers.len(),
{
    if workers.len() > 0 {
        lemma_none_busy(workers.drop_last());
    }
}

/// Every job that was submitted is waiting, running or finished, and no
/// more jobs run than the pool has workers.
pub proof fn lemma_every_job_accounted<J>(p: PoolView<J>)
    requires
        p.wf(),
    ensures
        p.submitted.len() == p.finished + busy_count(p.workers) + p.pending.len(),
        busy_count(p.workers) <= p.workers.len(),
{
    lemma_busy_bounded(p.workers);
}

/// Once every worker has stopped, the pool takes no jobs, none is waiting,
/// and every job that was ever submitted has finished.
pub proof fn lemma_stopped_pool_is_drained<J>(p: PoolView<J>)
    requires
        p.wf(),
        p.all_stopped(),
    ensures
        !p.accepting,
        p.pending.len() == 0,
        p.finished == p.submitted.len(),
{
    lemma_none_busy(p.workers);
}

/// Something that happens to the pool.
pub enum PoolEvent<J> {
    /// A job is handed in.
    Submit(J),
    /// A worker asks what to do next.
    Ask(int),
    /// A worker reports its job as finished.
    Finish(int),
    /// Shutdown is requested.
    Shutdown,
}

/// The state after one event.
pub open spec fn pool_after<J>(p: PoolView<J>, e: PoolEvent<J>) -> PoolView<J> {
    match e {
        PoolEvent::Submit(job) => p.submitted_with(job),
        PoolEvent::Ask(worker) => p.asked(worker),
        PoolEvent::Finish(worker) => p.reported(worker),
        PoolEvent::Shutdown => p.closing(),
    }
}

/// The state after a series of events, taken in order.
pub open spec fn pool_after_all<J>(p: PoolView<J>, events: Seq<PoolEvent<J>>) -> PoolView<J>
    decreases events.len(),
{
    if events.len() == 0 {
        p
    } else {
        pool_after(pool_after_all(p, events.drop_last()), events.last())
    }
}

/// One event keeps the pool's books in order.
pub proof fn lemma_event_keeps_wf<J>(p: PoolView<J>, e: PoolEvent<J>)
    requires
        p.wf(),
    ensures
        pool_after(p, e).wf(),
{
    let q = pool_after(p, e);
    match e {
        PoolEvent::Submit(job) => {
            assert(q.pending =~= q.submitted.skip(q.dispatched as int));
        },
        PoolEvent::Ask(worker) => {
            if p.is_idle(worker) {
                lemma_busy_update(p.workers, worker, WorkerState::Busy);
                lemma_busy_update(p.workers, worker, WorkerState::Stopped);
                if p.pending.len() > 0 {
                    assert(q.pending =~= q.submitted.skip(q.dispatched as int));
                    lemma_stopped_carries_over(p.workers, worker, WorkerState::Busy);
                }
            }
        },
        PoolEvent::Finish(worker) => {
            if p.is_busy(worker) {
                lemma_busy_update(p.workers, worker, WorkerState::Idle);
                lemma_stopped_carries_over(p.workers, worker, WorkerState::Idle);
            }
        },
        PoolEvent::Shutdown => {},
    }
}

/// A worker that is stopped after another changed to a state other than
/// stopped was stopped before.
proof fn lemma_stopped_carries_over(workers: Seq<WorkerState>, i: int, state: WorkerState)
    requires
        0 <= i < workers.len(),
        state != WorkerState::Stopped,
    ensures
        forall|j: int|
            0 <= j < workers.len() && workers.update(i, state)[j] == WorkerState::Stopped
                ==> workers[j] == WorkerState::Stopped,
{
}

/// Whatever happens to a pool, in whatever order, its books stay in order:
/// every job handed in is waiting, running or finished, jobs leave the queue
/// in the order in which they came, and no worker stops while a job waits.
pub proof fn lemma_pool_stays_wf<J>(p: PoolView<J>, events: Seq<PoolEvent<J>>)
    requires
        p.wf(),
    ensures
        pool_after_all(p, events).wf(),
    decreases events.len(),
{
    if events.len() > 0 {
        lemma_pool_stays_wf(p, events.drop_last());
        lemma_event_keeps_wf(pool_after_all(p, events.drop_last()), events.last());
    }
}

/// A fixed number of workers and the queue of jobs that wait for them.
pub struct ThreadPool<J> {
    workers: Vec<WorkerState>,
    pending: VecDeque<J>,
    accepting: bool,
    submitted: Ghost<Seq<J>>,
    dispatched: Ghost<nat>,
    finished: Ghost<nat>,
}

impl<J> View for ThreadPool<J> {
    type V = PoolView<J>;

    closed spec fn view(&self) -> PoolView<J> {
        PoolView {
            workers: self.workers@,
            pending: self.pending@,
            accepting: self.accepting,
            submitted: self.submitted@,
            dispatched: self.dispatched@,
            finished: self.finished@,
        }
    }
}

impl<J> ThreadPool<J> {
    /// A pool of `size` workers, all idle, with nothing queued. Refused for
    /// a pool without workers.
    pub fn build(size: usize) -> (r: Result<ThreadPool<J>, PoolError>)
        ensures
            match r {
                Ok(pool) => size > 0 && pool@ == PoolView::<J>::fresh(size as nat) && pool@.wf(),
                Err(e) => size == 0 && e == PoolError::NoWorkers,
            },
    {
        if size == 0 {
            return Err(PoolError::NoWorkers);
        }
        let mut workers: Vec<WorkerState> = Vec::new();
        let mut i: usize = 0;
        while i < size
            invariant
                i <= size,
                workers@.len() == i,
                forall|j: int| 0 <= j < i ==> workers@[j] == WorkerState::Idle,
            decreases size - i,
        {
            workers.push(WorkerState::Idle);
            i = i + 1;
        }
        let pool = ThreadPool {
            workers,
            pending: VecDeque::new(),
            accepting: true,
            submitted: Ghost(Seq::empty()),
            dispatched: Ghost(0),
            finished: Ghost(0),
        };
        proof {
            lemma_none_busy(pool@.workers);
            assert(pool@.pending =~= pool@.submitted.skip(0));
        }
        Ok(pool)
    }

    /// Queues a job behind those that already wait. Refused once shutdown
    /// was requested.
    pub fn execute(&mut self, job: J) -> (r: Result<(), PoolError>)
        requires
            old(self)@.wf(),
        ensures
            final(self)@.wf(),
            final(self)@ == old(self)@.submitted_with(job),
            match r {
                Ok(_) => old(self)@.accepting,
                Err(e) => !old(self)@.accepting && e == PoolError::ShutDown,
            },
    {
        if !self.accepting {
            return Err(PoolError::ShutDown);
        }
        let ghost before = self@;
        self.submitted = Ghost(before.submitted.push(job));
        self.pending.push_back(job);
        proof {
            lemma_event_keeps_wf(before, PoolEvent::Submit(job));
        }
        Ok(())
    }

    /// Says what `worker` is to do next, and records it. Jobs are handed out
    /// in the order in which they were submitted.
    pub fn next_job(&mut self, worker: usize) -> (r: Dispatch<J>)
        requires
            old(self)@.wf(),
        ensures
            final(self)@.wf(),
            r == old(self)@.answer(worker as int),
            final(self)@ == old(self)@.asked(worker as int),
            r matches Dispatch::Run(job) ==> job == old(self)@.submitted[old(
                self,
            )@.dispatched as int],
    {
        if worker >= self.workers.len() {
            return Dispatch::Stop;
        }
        match self.workers[worker] {
            WorkerState::Busy => Dispatch::Wait,
            WorkerState::Stopped => Dispatch::Stop,
            WorkerState::Idle => {
                let ghost before = self@;
                proof {
                    lemma_event_keeps_wf(before, PoolEvent::Ask(worker as int));
                }
                match self.pending.pop_front() {
                    Some(job) => {
                        self.workers.set(worker, WorkerState::Busy);
                        self.dispatched = Ghost(before.dispatched + 1);
                        Dispatch::Run(job)
                    },
                    None => {
                        if self.accepting {
                            Dispatch::Wait
                        } else {
                            self.workers.set(worker, WorkerState::Stopped);
                            Dispatch::Stop
                        }
                    },
                }
            },
        }
    }

    /// Records that `worker` has finished the job it was handed and is idle
    /// again. Says whether the worker was busy; if it was not, nothing
    /// changes.
    pub fn finish(&mut self, worker: usize) -> (was_busy: bool)
        requires
            old(self)@.wf(),
        ensures
            final(self)@.wf(),
            was_busy == old(self)@.is_busy(worker as int),
            final(self)@ == old(self)@.reported(worker as int),
    {
        if worker >= self.workers.len() {
            return false;
        }
        match self.workers[worker] {
            WorkerState::Busy => {
                let ghost before = self@;
                self.workers.set(worker, WorkerState::Idle);
                self.finished = Ghost(before.finished + 1);
                proof {
                    lemma_event_keeps_wf(before, PoolEvent::Finish(worker as int));
                }
                true
            },
            _ => false,
        }
    }

    /// Requests shutdown: from now on no job is taken. Jobs that wait are
    /// still handed out, and each worker is told to stop once none is left.
    pub fn shutdown(&mut self)
        requires
            old(self)@.wf(),
        ensures
            final(self)@.wf(),
            final(self)@ == old(self)@.closing(),
    {
        self.accepting = false;
    }

    /// Whether every worker has stopped.
    pub fn is_stopped(&self) -> (r: bool)
        ensures
            r == self@.all_stopped(),
    {
        let mut i: usize = 0;
        while i < self.workers.len()
            invariant
                i <= self.workers.len(),
                forall|j: int| 0 <= j < i ==> self.workers@[j] == WorkerState::Stopped,
            decreases self.workers.len() - i,
        {
            match self.workers[i] {
                WorkerState::Stopped => {},
                _ => {
                    return false;
                },
            }
            i = i + 1;
        }
        true
    }

    /// The number of workers.
    pub fn size(&self) -> (n: usize)
        ensures
            n == self@.workers.len(),
    {
        self.workers.len()
    }

    /// The number of jobs that wait.
    pub fn queued(&self) -> (n: usize)
        ensures
            n == self@.pending.len(),
    {
        self.pending.len()
    }
}

} // verus!
