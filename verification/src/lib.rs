//! The scheduling core of a priority-based asynchronous executor.
//!
//! A pool of workers drains one shared queue of messages and always takes the
//! message that ranks highest. This crate holds the rules of that executor as
//! plain, sequential state machines: the order of the messages, the life of a
//! task, the completion protocol of a task handle, the loop of a worker and
//! the bookkeeping of the pool. Threads, locks, the queue itself and the
//! futures being polled belong to the runtime built around these types; every
//! decision the runtime takes is one call into this crate.

pub mod message;
pub mod pool;
pub mod queue;
pub mod state;
pub mod task;
pub mod thread;
