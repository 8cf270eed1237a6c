//! What the scheduler relies on from the shared queue, and what follows
//! from it for the order in which tasks run and workers stop.
//!
//! The queue is a collaborator of this crate, not a part of it. Its
//! contract is written down here over the messages it holds, each taken by
//! the rank it has at the moment: a send adds a message, a receive takes out
//! one that no queued message outranks, and a change of a queued task's
//! priority re-ranks its message in place.

use crate::message::{ranks_at_least, rank, Message};
use crate::pool::PoolView;
use crate::state::State;
use crate::task::TaskView;
use crate::thread::{state_after_receive, task_to_run};
use vstd::multiset::Multiset;
use vstd::prelude::*;

verus! {

/// Whether the queue may hand out `message` to a receiver: it is queued,
/// and it ranks at least as high as every queued message. Among messages
/// of equal rank the choice is free.
pub open spec fn may_hand_out(queue: Multiset<Message<usize>>, message: Message<usize>) -> bool {
    &&& queue.contains(message)
    &&& forall|other: Message<usize>| #[trigger]
        queue.contains(other) ==> ranks_at_least(message, other)
}

/// One thing that happens to the queue.
pub enum Event {
    /// A message is enqueued.
    Send(Message<usize>),
    /// A worker receives a message.
    Receive(Message<usize>),
    /// The priority of a task changes while a `Run` message for it waits.
    Reprioritize { from: usize, to: usize },
}

/// Whether `event` can happen to a queue holding `queue`.
pub open spec fn permits(queue: Multiset<Message<usize>>, event: Event) -> bool {
    match event {
        Event::Send(_) => true,
        Event::Receive(message) => may_hand_out(queue, message),
        Event::Reprioritize { from, to } => queue.contains(Message::Run(from)),
    }
}

/// What the queue holds after `event`.
pub open spec fn queue_after(queue: Multiset<Message<usize>>, event: Event) -> Multiset<
    Message<usize>,
> {
    match event {
        Event::Send(message) => queue.insert(message),
        Event::Receive(message) => queue.remove(message),
        Event::Reprioritize { from, to } => queue.remove(Message::Run(from)).insert(
            Message::Run(to),
        ),
    }
}

/// What the queue holds after the first `k` of `events`, starting from
/// `queue`.
pub open spec fn queue_at(queue: Multiset<Message<usize>>, events: Seq<Event>, k: int) -> Multiset<
    Message<usize>,
>
    decreases k,
{
    if k <= 0 {
        queue
    } else {
        queue_after(queue_at(queue, events, k - 1), events[k - 1])
    }
}

/// Whether `events` can happen, one after the other, to a queue that
/// starts out holding `queue`.
pub open spec fn is_history(queue: Multiset<Message<usize>>, events: Seq<Event>) -> bool {
    forall|k: int|
        0 <= k < events.len() ==> permits(#[trigger] queue_at(queue, events, k), events[k])
}

/// How many of the first `k` of `events` are receives.
pub open spec fn receives_before(events: Seq<Event>, k: int) -> nat
    decreases k,
{
    if k <= 0 {
        0
    } else if events[k - 1] is Receive {
        receives_before(events, k - 1) + 1
    } else {
        receives_before(events, k - 1)
    }
}

/// While nothing but receives happens, the queue only loses messages.
proof fn lemma_receives_only_shrink(
    queue: Multiset<Message<usize>>,
    events: Seq<Event>,
    i: int,
    j: int,
    message: Message<usize>,
)
    requires
        0 <= i <= j <= events.len(),
        forall|k: int| i <= k < j ==> events[k] is Receive,
    ensures
        queue_at(queue, events, j).count(message) <= queue_at(queue, events, i).count(message),
    decreases j - i,
{
    if i < j {
        lemma_receives_only_shrink(queue, events, i, j - 1, message);
    }
}

/// Each receive takes at most one shutdown signal out of the queue, and
/// nothing else removes any.
proof fn lemma_signals_left(queue: Multiset<Message<usize>>, events: Seq<Event>, k: int)
    requires
        0 <= k <= events.len(),
    ensures
        queue_at(queue, events, k).count(Message::Close) + receives_before(events, k)
            >= queue.count(Message::Close),
    decreases k,
{
    if k > 0 {
        lemma_signals_left(queue, events, k - 1);
    }
}

/// A backlog is handed out by rank. When messages are taken from the queue
/// and nothing is sent or re-ranked in between, each message handed out
/// ranks at least as high as every message handed out after it. For the
/// tasks of a backlog this means that they run by priority: from one task
/// to the next the priority never increases, and it strictly decreases
/// where the priorities differ.
pub proof fn lemma_backlog_runs_by_priority(
    queue: Multiset<Message<usize>>,
    events: Seq<Event>,
    i: int,
    j: int,
)
    requires
        is_history(queue, events),
        forall|k: int| 0 <= k < events.len() ==> events[k] is Receive,
        0 <= i < j < events.len(),
    ensures
        ranks_at_least(events[i]->Receive_0, events[j]->Receive_0),
        events[i]->Receive_0 is Run && events[j]->Receive_0 is Run ==> {
            let first = events[i]->Receive_0->Run_0;
            let second = events[j]->Receive_0->Run_0;
            first >= second && (first != second ==> first > second)
        },
        events[j]->Receive_0 is Close ==> events[i]->Receive_0 is Close,
{
    let later = events[j]->Receive_0;
    assert(permits(queue_at(queue, events, i), events[i]));
    assert(permits(queue_at(queue, events, j), events[j]));
    lemma_receives_only_shrink(queue, events, i, j, later);
    assert(queue_at(queue, events, i).contains(later));
}

/// Shutdown signals come first. While the queue holds more shutdown
/// signals than receives have been made, the next receive is handed a
/// shutdown signal, whatever else is queued, sent or re-ranked meanwhile.
pub proof fn lemma_shutdown_is_received_first(
    queue: Multiset<Message<usize>>,
    events: Seq<Event>,
    k: int,
)
    requires
        is_history(queue, events),
        0 <= k < events.len(),
        events[k] is Receive,
        receives_before(events, k) < queue.count(Message::Close),
    ensures
        events[k]->Receive_0 is Close,
{
    lemma_signals_left(queue, events, k);
    assert(permits(queue_at(queue, events, k), events[k]));
    assert(queue_at(queue, events, k).contains(Message::Close));
}

/// What the queue holds after `messages` were sent to it in turn.
pub open spec fn queue_with(queue: Multiset<Message<usize>>, messages: Seq<Message<usize>>) -> Multiset<
    Message<usize>,
>
    decreases messages.len(),
{
    if messages.len() == 0 {
        queue
    } else {
        queue_with(queue, messages.drop_last()).insert(messages.last())
    }
}

/// Sending shutdown signals adds as many of them to the queue as were sent.
proof fn lemma_signals_are_queued(queue: Multiset<Message<usize>>, signals: Seq<Message<usize>>)
    requires
        forall|slot: int| 0 <= slot < signals.len() ==> signals[slot] is Close,
    ensures
        queue_with(queue, signals).count(Message::Close) == queue.count(Message::Close)
            + signals.len(),
    decreases signals.len(),
{
    if signals.len() > 0 {
        lemma_signals_are_queued(queue, signals.drop_last());
    }
}

/// Tearing a pool down stops its workers. `signals` is what the teardown
/// of `pool` owes the queue: one shutdown signal for each worker slot. Once
/// they are sent, each of the next receives, as many as there are slots, is
/// handed a shutdown signal, whatever tasks are queued, sent or re-ranked
/// meanwhile, and the worker that made the receive leaves its loop in state
/// `Finished` with no task to run. A worker that has left its loop receives
/// no more, so every worker that receives at all after the teardown ends up
/// finished.
pub proof fn lemma_teardown_finishes_workers(
    pool: PoolView,
    signals: Seq<Message<usize>>,
    queue: Multiset<Message<usize>>,
    events: Seq<Event>,
    k: int,
)
    requires
        signals.len() == pool.num_threads,
        forall|slot: int| 0 <= slot < signals.len() ==> signals[slot] is Close,
        is_history(queue_with(queue, signals), events),
        0 <= k < events.len(),
        events[k] is Receive,
        receives_before(events, k) < pool.num_threads,
    ensures
        events[k]->Receive_0 is Close,
        state_after_receive(Some(events[k]->Receive_0)) == State::Finished,
        task_to_run(Some(events[k]->Receive_0)) is None,
{
    lemma_signals_are_queued(queue, signals);
    lemma_shutdown_is_received_first(queue_with(queue, signals), events, k);
}

/// A change of priority re-ranks a queued task without a new send. After
/// `task`, which has a `Run` message waiting, is given the priority
/// `priority`, its message waits at the new rank: it is still queued, no
/// message that ranks below it is handed out before it, and it is itself
/// eligible as soon as nothing else that is queued ranks above it.
pub proof fn lemma_reprioritized_task_is_ranked_anew(
    queue: Multiset<Message<usize>>,
    task: TaskView,
    priority: usize,
    chosen: Message<usize>,
)
    requires
        queue.contains(task.rank()),
    ensures
        ({
            let change = Event::Reprioritize { from: task.priority, to: priority };
            let others = queue.remove(task.rank());
            let after = queue_after(queue, change);
            let moved = task.reprioritized(priority).rank();
            &&& permits(queue, change)
            &&& moved == Message::Run(priority)
            &&& after == others.insert(moved)
            &&& after.len() == queue.len()
            &&& may_hand_out(after, chosen) ==> ranks_at_least(chosen, moved)
            &&& (forall|other: Message<usize>| #[trigger]
                others.contains(other) ==> ranks_at_least(moved, other)) ==> may_hand_out(
                after,
                moved,
            )
        }),
{
    let others = queue.remove(task.rank());
    let moved = task.reprioritized(priority).rank();
    let after = others.insert(moved);
    assert(after.contains(moved));
    if forall|other: Message<usize>| #[trigger]
        others.contains(other) ==> ranks_at_least(moved, other) {
        assert forall|other: Message<usize>| #[trigger] after.contains(other) implies ranks_at_least(
            moved,
            other,
        ) by {
            if other != moved {
                assert(others.contains(other));
            }
        }
    }
}

/// The queue always has something to hand out while it holds a message:
/// among finitely many messages one ranks highest.
pub proof fn lemma_nonempty_queue_hands_out(queue: Multiset<Message<usize>>)
    requires
        queue.len() > 0,
    ensures
        exists|message: Message<usize>| may_hand_out(queue, message),
{
    let any = queue.choose();
    lemma_top_from(queue, any);
}

/// Climbing from a queued message to one that no queued message outranks.
proof fn lemma_top_from(queue: Multiset<Message<usize>>, candidate: Message<usize>)
    requires
        queue.contains(candidate),
    ensures
        exists|message: Message<usize>| may_hand_out(queue, message),
    decreases usize::MAX + 1 - rank(candidate),
{
    if exists|above: Message<usize>|
        queue.contains(above) && !ranks_at_least(candidate, above) {
        let above = choose|above: Message<usize>|
            queue.contains(above) && !ranks_at_least(candidate, above);
        lemma_top_from(queue, above);
    } else {
        assert(may_hand_out(queue, candidate));
    }
}

} // verus!
