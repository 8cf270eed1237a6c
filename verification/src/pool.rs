//! The pool: a fixed number of worker slots and the count of tasks spawned.

use crate::message::Message;
use crate::state::State;
use crate::task::{Task, TaskHandle, TaskView};
use crate::thread::Thread;
use vstd::prelude::*;

verus! {

/// What a pool holds, as a plain value.
pub struct PoolView {
    /// How many tasks were spawned so far, counted modulo the range of
    /// `usize`.
    pub num_tasks: usize,
    /// How many worker slots the pool was created with.
    pub num_threads: usize,
}

impl PoolView {
    /// The pool after one more spawn: the counter goes up by one and wraps
    /// around at the end of its range; the slots stay.
    pub open spec fn spawned(self) -> PoolView {
        PoolView {
            num_tasks: if self.num_tasks < usize::MAX {
                (self.num_tasks + 1) as usize
            } else {
                0
            },
            ..self
        }
    }
}

/// The bookkeeping of a pool: how many worker slots it has, which is fixed
/// when it is created, and how many tasks it has spawned.
#[derive(Debug)]
pub struct Pool {
    num_tasks: usize,
    num_threads: usize,
}

impl View for Pool {
    type V = PoolView;

    closed spec fn view(&self) -> PoolView {
        PoolView { num_tasks: self.num_tasks, num_threads: self.num_threads }
    }
}

impl Pool {
    /// Creates a pool of `num_threads` worker slots, together with the
    /// workers that fill them, in the order of their slots. Each worker
    /// starts out idle, waiting for its first message; no task has been
    /// spawned yet.
    pub fn new(num_threads: usize) -> (created: (Pool, Vec<Thread>))
        ensures
            created.0@ == (PoolView { num_tasks: 0, num_threads }),
            created.1@.len() == num_threads,
            forall|slot: int| 0 <= slot < num_threads ==> (#[trigger] created.1@[slot])@ == State::Idle,
    {
        let mut workers: Vec<Thread> = Vec::new();
        while workers.len() < num_threads
            invariant
                workers@.len() <= num_threads,
                forall|slot: int| 0 <= slot < workers@.len() ==> (#[trigger] workers@[slot])@ == State::Idle,
            decreases num_threads - workers@.len(),
        {
            workers.push(Thread::new());
        }
        (Pool { num_tasks: 0, num_threads }, workers)
    }

    /// The number of worker slots the pool was created with.
    pub fn num_threads(&self) -> (count: usize)
        ensures
            count == self@.num_threads,
    {
        self.num_threads
    }

    /// The number of tasks spawned so far, modulo the range of `usize`.
    pub fn num_tasks(&self) -> (count: usize)
        ensures
            count == self@.num_tasks,
    {
        self.num_tasks
    }

    /// Spawns a task of the given priority: counts it and hands back the
    /// handle of the new task, which is idle and has no waker registered.
    /// The caller owes the queue one `Run` message for it, sent at once and
    /// whether or not a worker is left to receive it.
    #[must_use]
    pub fn spawn(&mut self, priority: usize) -> (handle: TaskHandle)
        ensures
            handle@ == TaskView::fresh(priority),
            final(self)@ == old(self)@.spawned(),
    {
        self.num_tasks = self.num_tasks.wrapping_add(1);
        TaskHandle::new(Task::new(priority))
    }

    /// The messages owed to the queue when the pool is torn down: one
    /// shutdown signal for each worker slot the pool was created with,
    /// whether or not the worker in it is still alive.
    #[must_use]
    pub fn shutdown<T>(&self) -> (signals: Vec<Message<T>>)
        ensures
            signals@.len() == self@.num_threads,
            forall|slot: int| 0 <= slot < signals@.len() ==> #[trigger] signals@[slot] is Close,
    {
        let mut signals: Vec<Message<T>> = Vec::new();
        while signals.len() < self.num_threads
            invariant
                signals@.len() <= self.num_threads,
                forall|slot: int| 0 <= slot < signals@.len() ==> #[trigger] signals@[slot] is Close,
            decreases self.num_threads - signals@.len(),
        {
            signals.push(Message::Close);
        }
        signals
    }
}

} // verus!
