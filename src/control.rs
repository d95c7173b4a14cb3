use vstd::prelude::*;

verus! {

/// Pause before the next accept when no connection was waiting.
pub const IDLE_BACKOFF_MS: u64 = 50;

/// Pause before the next accept after a failed accept.
pub const ERROR_BACKOFF_MS: u64 = 100;

/// Length of the simulated expensive work done for a path not yet counted.
pub const SIMULATED_WORK_MS: u64 = 1000;

/// What a non-blocking accept gave.
pub enum AcceptOutcome {
    /// A connection was accepted.
    Connection,
    /// No connection was waiting.
    NotReady,
    /// The accept failed in another way; never fatal.
    Failed,
}

/// What the accept loop does with an accept's outcome.
#[derive(PartialEq, Eq, Structural)]
pub enum AcceptAction {
    /// Hand the connection to the worker pool.
    Dispatch,
    /// Sleep this many milliseconds, then poll again.
    Backoff(u64),
}

/// State of the accept loop: once draining, it never accepts again.
pub struct Acceptor {
    pub draining: bool,
}

impl Acceptor {
    /// An accept loop that has not seen the shutdown flag.
    pub fn new() -> (r: Acceptor)
        ensures
            !r.draining,
    {
        Acceptor { draining: false }
    }

    /// Polls the shutdown flag before an accept. Returns whether the loop may
    /// accept; once the flag has been seen it never may again.
    pub fn may_accept(&mut self, shutdown_requested: bool) -> (r: bool)
        ensures
            final(self).draining == (old(self).draining || shutdown_requested),
            r == !final(self).draining,
    {
        if shutdown_requested {
            self.draining = true;
        }
        !self.draining
    }
}

/// The step that follows an accept.
pub fn after_accept(outcome: AcceptOutcome) -> (r: AcceptAction)
    ensures
        match outcome {
            AcceptOutcome::Connection => r == AcceptAction::Dispatch,
            AcceptOutcome::NotReady => r == AcceptAction::Backoff(IDLE_BACKOFF_MS),
            AcceptOutcome::Failed => r == AcceptAction::Backoff(ERROR_BACKOFF_MS),
        },
{
    match outcome {
        AcceptOutcome::Connection => AcceptAction::Dispatch,
        AcceptOutcome::NotReady => AcceptAction::Backoff(IDLE_BACKOFF_MS),
        AcceptOutcome::Failed => AcceptAction::Backoff(ERROR_BACKOFF_MS),
    }
}

/// Whether an accept loop that starts with `draining` is draining after
/// polling the flag readings `flags` in turn through `Acceptor::may_accept`.
pub open spec fn draining_after(draining: bool, flags: Seq<bool>) -> bool
    decreases flags.len(),
{
    if flags.len() == 0 {
        draining
    } else {
        draining_after(draining, flags.drop_last()) || flags.last()
    }
}

/// Once a poll has read the shutdown flag as set, every later poll finds the
/// loop draining, so no connection is accepted after it.
pub proof fn no_accept_after_shutdown(draining: bool, flags: Seq<bool>, i: int, j: int)
    requires
        0 <= i < j <= flags.len(),
        flags[i],
    ensures
        draining_after(draining, flags.subrange(0, j)),
    decreases j - i,
{
    let pre = flags.subrange(0, j);
    assert(pre.drop_last() =~= flags.subrange(0, j - 1));
    if j - 1 > i {
        no_accept_after_shutdown(draining, flags, i, j - 1);
    } else {
        assert(pre.last() == flags[i]);
    }
}

/// Number of workers when the machine's parallelism could not be learned.
pub const FALLBACK_POOL_SIZE: usize = 4;

/// Fewest workers a pool is given.
pub const MIN_POOL_SIZE: usize = 2;

/// The pool size for a detected parallelism: the fallback when none was
/// detected, and never fewer than the minimum.
pub fn pool_size(detected: Option<usize>) -> (r: usize)
    ensures
        r == (match detected {
            Some(n) => if n >= MIN_POOL_SIZE {
                n
            } else {
                MIN_POOL_SIZE
            },
            None => FALLBACK_POOL_SIZE,
        }),
        r >= 1,
{
    let n = match detected {
        Some(n) => n,
        None => FALLBACK_POOL_SIZE,
    };
    if n >= MIN_POOL_SIZE {
        n
    } else {
        MIN_POOL_SIZE
    }
}

/// An entry of the pool's shared queue, as far as draining is concerned.
pub enum QueueItem {
    /// A unit of work.
    Job,
    /// A termination signal: the worker that takes it stops.
    Stop,
}

/// Number of termination signals in `q`.
pub open spec fn stops_in(q: Seq<QueueItem>) -> nat
    decreases q.len(),
{
    if q.len() == 0 {
        0
    } else {
        stops_in(q.drop_last()) + if q.last() is Stop {
            1nat
        } else {
            0nat
        }
    }
}

/// The queue at shutdown: the jobs not yet taken, then one termination
/// signal per worker.
pub open spec fn drain_queue(pending: nat, workers: nat) -> Seq<QueueItem> {
    Seq::new(pending, |i: int| QueueItem::Job) + Seq::new(workers, |i: int| QueueItem::Stop)
}

proof fn lemma_stops_in_prefix(pending: nat, workers: nat, t: int)
    requires
        0 <= t <= pending + workers,
    ensures
        stops_in(drain_queue(pending, workers).take(t)) == if t <= pending {
            0
        } else {
            t - pending
        },
    decreases t,
{
    let q = drain_queue(pending, workers);
    if t > 0 {
        lemma_stops_in_prefix(pending, workers, t - 1);
        assert(q.take(t).drop_last() =~= q.take(t - 1));
        assert(q.take(t).last() == q[t - 1]);
    }
}

/// Draining: the queue is taken from the front, and each worker stops
/// exactly when it takes a termination signal. After `t` items have been
/// taken, all workers have stopped only once every item, every pending job
/// included, has been taken; while some worker still runs, an item is left
/// for it.
pub proof fn drain_runs_every_pending_job(pending: nat, workers: nat, t: int)
    requires
        workers >= 1,
        0 <= t <= pending + workers,
    ensures
        stops_in(drain_queue(pending, workers).take(t)) == workers ==> t == pending + workers,
        stops_in(drain_queue(pending, workers).take(t)) < workers ==> t < pending + workers,
{
    lemma_stops_in_prefix(pending, workers, t);
}

/// A pool worker's state.
#[derive(PartialEq, Eq, Structural)]
pub enum WorkerState {
    Idle,
    Running,
    Stopped,
}

/// What a worker observes.
pub enum WorkerEvent {
    /// It took a job from the queue.
    JobTaken,
    /// Its job ran to the end.
    JobDone,
    /// It took a termination signal from the queue.
    Terminate,
    /// The queue is closed.
    QueueClosed,
}

/// The worker's next state: a taken job runs, a finished one leaves it idle,
/// a termination signal or a closed queue stops it for good.
pub fn worker_step(s: WorkerState, e: WorkerEvent) -> (r: WorkerState)
    ensures
        s == WorkerState::Stopped ==> r == WorkerState::Stopped,
        s != WorkerState::Stopped ==> match e {
            WorkerEvent::JobTaken => r == (if s == WorkerState::Idle {
                WorkerState::Running
            } else {
                s
            }),
            WorkerEvent::JobDone => r == (if s == WorkerState::Running {
                WorkerState::Idle
            } else {
                s
            }),
            WorkerEvent::Terminate => r == WorkerState::Stopped,
            WorkerEvent::QueueClosed => r == WorkerState::Stopped,
        },
{
    match s {
        WorkerState::Stopped => WorkerState::Stopped,
        WorkerState::Idle => match e {
            WorkerEvent::JobTaken => WorkerState::Running,
            WorkerEvent::JobDone => WorkerState::Idle,
            WorkerEvent::Terminate => WorkerState::Stopped,
            WorkerEvent::QueueClosed => WorkerState::Stopped,
        },
        WorkerState::Running => match e {
            WorkerEvent::JobTaken => WorkerState::Running,
            WorkerEvent::JobDone => WorkerState::Idle,
            WorkerEvent::Terminate => WorkerState::Stopped,
            WorkerEvent::QueueClosed => WorkerState::Stopped,
        },
    }
}

} // verus!
