//! Worker-pool logic over the ring queue: a queue of pending tasks, a
//! shutdown flag, and the decision rule a worker follows on every poll.
//!
//! Tasks are opaque single-use values of type `T`; the pool never looks
//! inside them. The host that owns the worker threads performs each step's
//! outside work — executing a claimed task, yielding the processor, joining a
//! thread — while the decisions themselves are made here.

use vstd::prelude::*;

verus! {

use crate::ring::RingBuffer;

/// The queue capacity a pool gets when the host does not choose one.
pub const DEFAULT_QUEUE_CAPACITY: usize = 16;

/// What a worker does right after one poll of the queue: run the task it
/// claimed, yield the processor and poll again, or terminate.
#[derive(Clone, Copy, Debug, PartialEq, Eq)]
pub enum WorkerAction {
    Execute,
    Yield,
    Exit,
}

/// The polling rule: a claimed task is executed at once; an empty poll ends
/// the worker when shutdown has been requested and otherwise yields, so that
/// the worker never blocks and never exits while work could still arrive.
pub open spec fn worker_rule(has_task: bool, shutdown: bool) -> WorkerAction {
    if has_task {
        WorkerAction::Execute
    } else if shutdown {
        WorkerAction::Exit
    } else {
        WorkerAction::Yield
    }
}

/// Decides one iteration of the worker loop from what the poll returned and
/// what the shutdown flag held.
pub fn worker_decide(has_task: bool, shutdown: bool) -> (a: WorkerAction)
    ensures
        a == worker_rule(has_task, shutdown),
{
    if has_task {
        WorkerAction::Execute
    } else if shutdown {
        WorkerAction::Exit
    } else {
        WorkerAction::Yield
    }
}

/// A worker as seen from outside: polling (`Running`), running a claimed
/// task (`Executing`), or exited (`Terminated`).
#[derive(Clone, Copy, Debug, PartialEq, Eq)]
pub enum WorkerState {
    Running,
    Executing,
    Terminated,
}

/// The life of one worker: a poll that claims a task moves it into
/// `Executing` and finishing the task moves it back; an empty poll under a
/// set shutdown flag moves it into `Terminated`, which no event leaves.
pub open spec fn worker_transition(s: WorkerState, has_task: bool, shutdown: bool) -> WorkerState {
    match s {
        WorkerState::Running => {
            if has_task {
                WorkerState::Executing
            } else if shutdown {
                WorkerState::Terminated
            } else {
                WorkerState::Running
            }
        },
        WorkerState::Executing => WorkerState::Running,
        WorkerState::Terminated => WorkerState::Terminated,
    }
}

/// Shutdown is final: no event moves a terminated worker anywhere else, and
/// a worker that polls an empty queue under a set shutdown flag terminates.
pub proof fn lemma_shutdown_determinism(has_task: bool, shutdown: bool)
    ensures
        worker_transition(WorkerState::Terminated, has_task, shutdown)
            == WorkerState::Terminated,
        worker_rule(false, true) == WorkerAction::Exit,
{
}

/// The outcome of one worker step against the pool: a task to run now, a
/// yield because the queue was empty but the pool still lives, or the end of
/// the worker because the queue was empty and shutdown was requested.
#[derive(Debug, PartialEq, Eq)]
pub enum WorkerStep<T> {
    Execute(T),
    Yield,
    Exit,
}

/// The pool's task queue and lifecycle state: a bounded queue of pending
/// tasks shared by every worker, the number of workers serving it, and the
/// once-written shutdown flag that the workers poll.
pub struct ThreadPool<T> {
    queue: RingBuffer<T>,
    destroyed_flag: bool,
    thread_count: usize,
}

impl<T> ThreadPool<T> {
    /// Well-formedness: the underlying queue is well-formed.
    pub closed spec fn wf(self) -> bool {
        self.queue.wf()
    }

    /// The tasks submitted but not yet claimed by any worker, oldest first.
    pub closed spec fn pending(self) -> Seq<T> {
        self.queue@
    }

    /// The fixed capacity of the task queue; at most `queue_capacity() - 1`
    /// tasks may be pending at once.
    pub closed spec fn queue_capacity(self) -> int {
        self.queue.capacity()
    }

    /// Whether shutdown has been requested.
    pub closed spec fn destroyed(self) -> bool {
        self.destroyed_flag
    }

    /// The number of workers serving the pool.
    pub closed spec fn thread_count(self) -> int {
        self.thread_count as int
    }

    /// Creates a pool of `thread_count` workers around an empty task queue
    /// of `queue_capacity` slots, with shutdown not yet requested.
    pub fn with_capacity(thread_count: usize, queue_capacity: usize) -> (r: Self)
        requires
            queue_capacity > 1,
        ensures
            r.wf(),
            r.pending() == Seq::<T>::empty(),
            !r.destroyed(),
            r.thread_count() == thread_count,
            r.queue_capacity() == queue_capacity,
    {
        ThreadPool {
            queue: RingBuffer::new(queue_capacity),
            destroyed_flag: false,
            thread_count,
        }
    }

    /// Creates a pool of `thread_count` workers with the default queue
    /// capacity.
    pub fn new(thread_count: usize) -> (r: Self)
        ensures
            r.wf(),
            r.pending() == Seq::<T>::empty(),
            !r.destroyed(),
            r.thread_count() == thread_count,
            r.queue_capacity() == DEFAULT_QUEUE_CAPACITY,
    {
        Self::with_capacity(thread_count, DEFAULT_QUEUE_CAPACITY)
    }

    /// Submits a task: appends it to the pending queue, unless the queue is
    /// at its capacity, in which case the task comes back unchanged and the
    /// caller may retry, shed it, or size the queue larger.
    pub fn queue_task(&mut self, task: T) -> (r: Result<(), T>)
        requires
            old(self).wf(),
            !old(self).destroyed(),
        ensures
            final(self).wf(),
            !final(self).destroyed(),
            final(self).queue_capacity() == old(self).queue_capacity(),
            final(self).thread_count() == old(self).thread_count(),
            old(self).pending().len() == old(self).queue_capacity() - 1 ==> r == Err::<(), T>(
                task,
            ) && final(self).pending() == old(self).pending(),
            old(self).pending().len() < old(self).queue_capacity() - 1 ==> r == Ok::<(), T>(())
                && final(self).pending() == old(self).pending().push(task),
    {
        self.queue.push(task)
    }

    /// One iteration of a worker's loop: poll the queue once and follow the
    /// polling rule. A claimed task is handed out for execution (workers see
    /// tasks strictly in submission order); on an empty queue the worker
    /// yields, or exits if shutdown has been requested.
    pub fn worker_step(&mut self) -> (s: WorkerStep<T>)
        requires
            old(self).wf(),
        ensures
            final(self).wf(),
            final(self).destroyed() == old(self).destroyed(),
            final(self).queue_capacity() == old(self).queue_capacity(),
            final(self).thread_count() == old(self).thread_count(),
            old(self).pending().len() > 0 ==> s == WorkerStep::Execute(old(self).pending()[0])
                && final(self).pending() == old(self).pending().drop_first(),
            old(self).pending().len() == 0 ==> final(self).pending() == old(self).pending() && s
                == (if old(self).destroyed() {
                WorkerStep::<T>::Exit
            } else {
                WorkerStep::<T>::Yield
            }),
    {
        let popped: Option<T> = match self.queue.pop() {
            Ok(task) => Some(task),
            Err(()) => None,
        };
        match worker_decide(popped.is_some(), self.destroyed_flag) {
            WorkerAction::Execute => WorkerStep::Execute(popped.unwrap()),
            WorkerAction::Yield => WorkerStep::Yield,
            WorkerAction::Exit => WorkerStep::Exit,
        }
    }

    /// Requests shutdown without waiting: sets the flag that every worker
    /// polls and returns at once. Workers still drain the queue before they
    /// exit, but this call does not wait for them — the best-effort signal a
    /// pool sends when it is discarded without a proper join.
    pub fn shutdown(&mut self)
        ensures
            final(self).destroyed(),
            final(self).wf() == old(self).wf(),
            final(self).pending() == old(self).pending(),
            final(self).queue_capacity() == old(self).queue_capacity(),
            final(self).thread_count() == old(self).thread_count(),
    {
        self.destroyed_flag = true;
    }

    /// Shuts the pool down and waits out the workers: sets the shutdown flag
    /// and then follows the worker loop until it exits, handing back every
    /// task that was still pending, in submission order. Nothing submitted
    /// before the join is lost, and the loop ends only once the queue is
    /// empty — the pool is consumed, so nothing can be submitted afterwards.
    pub fn join(self) -> (drained: Vec<T>)
        requires
            self.wf(),
        ensures
            drained@ == self.pending(),
    {
        let mut pool = self;
        pool.shutdown();
        let mut drained: Vec<T> = Vec::new();
        let mut done: bool = false;
        while !done
            invariant
                pool.wf(),
                pool.destroyed(),
                drained@ + pool.pending() == self.pending(),
                done ==> pool.pending().len() == 0,
            decreases pool.pending().len() + (if done {
                0int
            } else {
                1int
            }),
        {
            let ghost prev = pool.pending();
            let ghost sofar = drained@;
            match pool.worker_step() {
                WorkerStep::Execute(task) => {
                    drained.push(task);
                    proof {
                        assert(sofar.push(prev[0]) + prev.drop_first() =~= sofar + prev);
                    }
                },
                WorkerStep::Exit => {
                    done = true;
                },
                WorkerStep::Yield => {
                    // The rule yields only while shutdown has not been
                    // requested, and it has been; this arm cannot be reached.
                    proof {
                        assert(false);
                    }
                },
            }
        }
        proof {
            assert(drained@ =~= self.pending());
        }
        drained
    }
}

} // verus!
