//! The three-valued status shared by tasks and workers.

use vstd::prelude::*;

verus! {

/// Where a task, or a worker, currently stands.
///
/// For a task: `Idle` means it is not being polled (it never started, or its
/// last poll was not ready), `Active` means a worker is inside a poll of it,
/// and `Finished` means a poll reported completion.
///
/// For a worker: `Idle` means it waits for a message, `Active` means it
/// executes a task, and `Finished` means it has left its receive loop.
///
/// The two uses are independent: a task's state and the state of the worker
/// that runs it are separate values.
#[derive(Clone, Copy, Debug, PartialEq, Eq, Structural)]
pub enum State {
    Idle,
    Active,
    Finished,
}

} // verus!
