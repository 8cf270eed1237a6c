//! A worker: the loop that takes messages off the queue and runs tasks.
//!
//! The loop itself, the thread it runs on and the blocking receive belong to
//! the runtime. Here is what the worker does with each thing that happens to
//! it, and the state it shows to the outside.

use crate::message::Message;
use crate::state::State;
use vstd::prelude::*;

verus! {

/// The state a worker is left in by what a receive returned: active for a
/// task to run, finished for the shutdown signal or a closed queue.
pub open spec fn state_after_receive<T>(received: Option<Message<T>>) -> State {
    match received {
        Some(Message::Run(_)) => State::Active,
        _ => State::Finished,
    }
}

/// The task a worker is to run after what a receive returned: the one of a
/// `Run` message, none for the shutdown signal or a closed queue.
pub open spec fn task_to_run<T>(received: Option<Message<T>>) -> Option<T> {
    match received {
        Some(Message::Run(task)) => Some(task),
        _ => None,
    }
}

/// One worker slot of the pool.
#[derive(Debug)]
pub struct Thread {
    state: State,
}

impl View for Thread {
    type V = State;

    closed spec fn view(&self) -> State {
        self.state
    }
}

impl Thread {
    /// A worker that has just entered its loop: idle, waiting for its first
    /// message.
    pub fn new() -> (worker: Thread)
        ensures
            worker@ == State::Idle,
    {
        Thread { state: State::Idle }
    }

    /// The state the worker shows to the outside.
    pub fn get_state(&self) -> (state: State)
        ensures
            state == self@,
    {
        self.state
    }

    /// What the worker does with the outcome of a receive, where `None`
    /// stands for a queue that has no sender left. A `Run` message makes it
    /// active and yields the task to run. The shutdown signal and the closed
    /// queue end the loop: the worker becomes finished and nothing is
    /// yielded.
    #[must_use]
    pub fn on_receive<T>(&mut self, received: Option<Message<T>>) -> (task: Option<T>)
        ensures
            final(self)@ == state_after_receive(received),
            task == task_to_run(received),
    {
        match received {
            Some(Message::Run(task)) => {
                self.state = State::Active;
                Some(task)
            },
            _ => {
                self.state = State::Finished;
                None
            },
        }
    }

    /// The worker has returned from running a task and goes back to
    /// waiting.
    pub fn on_task_done(&mut self)
        ensures
            final(self)@ == State::Idle,
    {
        self.state = State::Idle;
    }

    /// Restarts the worker if its thread is gone. `terminated` says whether
    /// the underlying thread has been found to have ended. If so, the slot
    /// gets a new loop, which starts out idle, and the answer is `true`; if
    /// the thread is still alive nothing changes and the answer is `false`.
    pub fn heal(&mut self, terminated: bool) -> (restarted: bool)
        ensures
            restarted == terminated,
            final(self)@ == if terminated {
                State::Idle
            } else {
                old(self)@
            },
    {
        if terminated {
            self.state = State::Idle;
            true
        } else {
            false
        }
    }
}

} // verus!
