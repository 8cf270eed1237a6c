//! The messages that travel through the shared queue, and their order.

use std::cmp::Ordering;
use vstd::prelude::*;

verus! {

/// An entry of the shared queue: a request to run a task, carrying a
/// reference `T` to it, or the signal to shut down.
#[derive(Debug)]
pub enum Message<T> {
    Run(T),
    Close,
}

impl<T> Message<T> {
    /// The name of the variant, without its payload.
    pub fn label(&self) -> (name: &'static str)
        ensures
            self is Run ==> name@ == "Run"@,
            self is Close ==> name@ == "Close"@,
    {
        match self {
            Message::Run(_) => "Run",
            Message::Close => "Close",
        }
    }
}

/// The place of a message in the dispatch order, as an integer: a `Run`
/// message stands at the priority it carries, `Close` one step above the
/// largest priority there is.
pub open spec fn rank(m: Message<usize>) -> int {
    match m {
        Message::Run(priority) => priority as int,
        Message::Close => usize::MAX as int + 1,
    }
}

/// How two integers compare.
pub open spec fn int_order(x: int, y: int) -> Ordering {
    if x < y {
        Ordering::Less
    } else if x == y {
        Ordering::Equal
    } else {
        Ordering::Greater
    }
}

/// The order in which the queue hands messages out, on messages that carry
/// the current priority of their task: the message of greater rank goes
/// first. So `Run` messages go by priority, the larger value first, and
/// `Close` goes before every `Run`.
pub open spec fn dispatch_order(a: Message<usize>, b: Message<usize>) -> Ordering {
    int_order(rank(a), rank(b))
}

impl Message<usize> {
    /// Compares two messages by `dispatch_order`.
    pub fn cmp(&self, other: &Self) -> (result: Ordering)
        ensures
            result == dispatch_order(*self, *other),
    {
        match (self, other) {
            (Message::Run(p), Message::Run(q)) => if *p < *q {
                Ordering::Less
            } else if *p == *q {
                Ordering::Equal
            } else {
                Ordering::Greater
            },
            (Message::Run(_), Message::Close) => Ordering::Less,
            (Message::Close, Message::Run(_)) => Ordering::Greater,
            (Message::Close, Message::Close) => Ordering::Equal,
        }
    }
}

impl PartialEq for Message<usize> {
    /// Two messages are equal when neither goes before the other.
    fn eq(&self, other: &Self) -> (result: bool) {
        match self.cmp(other) {
            Ordering::Equal => true,
            _ => false,
        }
    }
}

impl vstd::std_specs::cmp::PartialEqSpecImpl for Message<usize> {
    open spec fn obeys_eq_spec() -> bool {
        true
    }

    open spec fn eq_spec(&self, other: &Self) -> bool {
        dispatch_order(*self, *other) == Ordering::Equal
    }
}

impl PartialOrd for Message<usize> {
    /// Every two messages are comparable.
    fn partial_cmp(&self, other: &Self) -> (result: Option<Ordering>) {
        Some(self.cmp(other))
    }
}

impl vstd::std_specs::cmp::PartialOrdSpecImpl for Message<usize> {
    open spec fn obeys_partial_cmp_spec() -> bool {
        true
    }

    open spec fn partial_cmp_spec(&self, other: &Self) -> Option<Ordering> {
        Some(dispatch_order(*self, *other))
    }
}

/// Whether `a` goes no later than `b`: `a` ranks at least as high.
pub open spec fn ranks_at_least(a: Message<usize>, b: Message<usize>) -> bool {
    dispatch_order(a, b) != Ordering::Less
}

/// The dispatch order is reflexive: a message compares equal to itself.
pub proof fn lemma_order_reflexive(a: Message<usize>)
    ensures
        dispatch_order(a, a) == Ordering::Equal,
{
}

/// The dispatch order is antisymmetric: swapping the two sides mirrors the
/// result, and two messages compare equal only when they are the same
/// variant carrying the same priority.
pub proof fn lemma_order_antisymmetric(a: Message<usize>, b: Message<usize>)
    ensures
        dispatch_order(a, b) == Ordering::Less <==> dispatch_order(b, a) == Ordering::Greater,
        dispatch_order(a, b) == Ordering::Equal <==> dispatch_order(b, a) == Ordering::Equal,
        dispatch_order(a, b) == Ordering::Equal <==> a == b,
{
}

/// The dispatch order is transitive, in its strict and in its weak form,
/// and equality under it is transitive too.
pub proof fn lemma_order_transitive(a: Message<usize>, b: Message<usize>, c: Message<usize>)
    ensures
        dispatch_order(a, b) == Ordering::Less && dispatch_order(b, c) == Ordering::Less
            ==> dispatch_order(a, c) == Ordering::Less,
        dispatch_order(a, b) != Ordering::Greater && dispatch_order(b, c) != Ordering::Greater
            ==> dispatch_order(a, c) != Ordering::Greater,
        dispatch_order(a, b) == Ordering::Equal && dispatch_order(b, c) == Ordering::Equal
            ==> dispatch_order(a, c) == Ordering::Equal,
{
}

/// `Close` ranks strictly above every `Run` message, whatever its priority,
/// and two `Close` messages are equal: a shutdown signal in the queue is
/// handed out before any task still waiting there.
pub proof fn lemma_close_outranks_run(priority: usize)
    ensures
        dispatch_order(Message::Close, Message::Run(priority)) == Ordering::Greater,
        dispatch_order(Message::Run(priority), Message::Close) == Ordering::Less,
        dispatch_order(Message::<usize>::Close, Message::<usize>::Close) == Ordering::Equal,
{
}

/// Two `Run` messages compare as their priorities do.
pub proof fn lemma_run_by_priority(p: usize, q: usize)
    ensures
        p < q ==> dispatch_order(Message::Run(p), Message::Run(q)) == Ordering::Less,
        p == q ==> dispatch_order(Message::Run(p), Message::Run(q)) == Ordering::Equal,
        p > q ==> dispatch_order(Message::Run(p), Message::Run(q)) == Ordering::Greater,
{
}

} // verus!
