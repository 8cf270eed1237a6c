//! A task: one spawned unit of work as the scheduler sees it.
//!
//! The computation itself stays with the runtime. What is kept here is the
//! task's priority, its state and the single slot for the waker of whoever
//! awaits its completion, together with the steps by which a worker runs the
//! task and by which a handle observes it.

use crate::message::Message;
use crate::state::State;
use std::task::Waker;
use vstd::prelude::*;

verus! {

/// `std::task::Waker`, carried through as an opaque value: nothing is
/// claimed of what a waker holds or does.
#[verifier::external_type_specification]
#[verifier::external_body]
pub struct ExWaker(std::task::Waker);

/// What a task holds, as a plain value.
pub struct TaskView {
    /// The priority by which a `Run` message for the task is ranked.
    pub priority: usize,
    /// The task's place in its life cycle.
    pub state: State,
    /// The waker registered by the latest observer, if one waits.
    pub waker: Option<Waker>,
}

impl TaskView {
    /// A task as it is created: idle, with nobody waiting.
    pub open spec fn fresh(priority: usize) -> TaskView {
        TaskView { priority, state: State::Idle, waker: None }
    }

    /// The task with its state overwritten.
    pub open spec fn with_state(self, state: State) -> TaskView {
        TaskView { state, ..self }
    }

    /// The task after its priority was changed.
    pub open spec fn reprioritized(self, priority: usize) -> TaskView {
        TaskView { priority, ..self }
    }

    /// A `Run` message for the task as the dispatch order sees it: carrying
    /// the priority the task has now.
    pub open spec fn rank(self) -> Message<usize> {
        Message::Run(self.priority)
    }

    /// Whether a worker that is handed the task has anything to poll: a
    /// finished task is never polled again.
    pub open spec fn wants_poll(self) -> bool {
        self.state != State::Finished
    }

    /// The task after a worker took it up: active, unless it had finished.
    pub open spec fn started(self) -> TaskView {
        if self.wants_poll() {
            TaskView { state: State::Active, ..self }
        } else {
            self
        }
    }

    /// The task after a poll that reported `ready`: finished with the waker
    /// slot emptied, or idle again with the slot untouched.
    pub open spec fn polled(self, ready: bool) -> TaskView {
        if ready {
            TaskView { state: State::Finished, waker: None, ..self }
        } else {
            TaskView { state: State::Idle, ..self }
        }
    }

    /// The waker to invoke after a poll that reported `ready`: the
    /// registered one on completion, none otherwise.
    pub open spec fn woken(self, ready: bool) -> Option<Waker> {
        if ready {
            self.waker
        } else {
            None
        }
    }

    /// The waker to invoke after one whole run step whose poll, if one was
    /// made, reported `ready`.
    pub open spec fn run_wakes(self, ready: bool) -> Option<Waker> {
        if self.wants_poll() {
            self.woken(ready)
        } else {
            None
        }
    }

    /// The task after one whole run step whose poll, if one was made,
    /// reported `ready`.
    pub open spec fn ran(self, ready: bool) -> TaskView {
        if self.wants_poll() {
            self.started().polled(ready)
        } else {
            self
        }
    }

    /// Whether a handle polled now resolves.
    pub open spec fn resolved(self) -> bool {
        self.state == State::Finished
    }

    /// The task after a handle was polled with `waker`: unchanged when it
    /// resolves, else with `waker` in the slot in place of any earlier one.
    pub open spec fn observed(self, waker: Waker) -> TaskView {
        if self.resolved() {
            self
        } else {
            TaskView { waker: Some(waker), ..self }
        }
    }
}

/// One spawned unit of work: its priority, its state and its waker slot.
#[derive(Debug)]
pub struct Task {
    priority: usize,
    state: State,
    waker: Option<Waker>,
}

impl View for Task {
    type V = TaskView;

    closed spec fn view(&self) -> TaskView {
        TaskView { priority: self.priority, state: self.state, waker: self.waker }
    }
}

impl Task {
    /// Creates a task of the given priority: idle, never polled, with no
    /// waker registered.
    pub fn new(priority: usize) -> (task: Task)
        ensures
            task@ == TaskView::fresh(priority),
    {
        Task { priority, state: State::Idle, waker: None }
    }

    /// Overwrites the state.
    pub fn set_state(&mut self, state: State)
        ensures
            final(self)@ == old(self)@.with_state(state),
    {
        self.state = state;
    }

    /// The current state.
    pub fn get_state(&self) -> (state: State)
        ensures
            state == self@.state,
    {
        self.state
    }

    /// The current priority.
    pub fn get_priority(&self) -> (priority: usize)
        ensures
            priority == self@.priority,
    {
        self.priority
    }

    /// Changes the priority. Messages for the task that are already queued
    /// are ranked by the new value from the next comparison on.
    pub fn set_priority(&mut self, priority: usize)
        ensures
            final(self)@ == old(self)@.reprioritized(priority),
    {
        self.priority = priority;
    }

    /// A `Run` message for the task as the dispatch order sees it now:
    /// carrying the task's current priority.
    pub fn rank(&self) -> (message: Message<usize>)
        ensures
            message == self@.rank(),
    {
        Message::Run(self.priority)
    }

    /// First half of a run step, taken when a worker is handed the task.
    /// Marks the task active and answers whether its computation is to be
    /// polled. A task that has finished is left as it is and not polled.
    pub fn start(&mut self) -> (poll: bool)
        ensures
            poll == old(self)@.wants_poll(),
            final(self)@ == old(self)@.started(),
    {
        if self.state == State::Finished {
            false
        } else {
            self.state = State::Active;
            true
        }
    }

    /// Second half of a run step, taken when the poll has returned. On
    /// `ready` the task becomes finished and the registered waker, if any,
    /// is taken out of its slot and returned for the caller to invoke;
    /// otherwise the task becomes idle again and keeps its waker.
    #[must_use]
    pub fn finish(&mut self, ready: bool) -> (wake: Option<Waker>)
        ensures
            final(self)@ == old(self)@.polled(ready),
            wake == old(self)@.woken(ready),
    {
        if ready {
            self.state = State::Finished;
            self.waker.take()
        } else {
            self.state = State::Idle;
            None
        }
    }

    /// One whole run step, for a poll that reports `ready`: `start`, then,
    /// unless the task had already finished, `finish`.
    #[must_use]
    pub fn run(&mut self, ready: bool) -> (wake: Option<Waker>)
        ensures
            final(self)@ == old(self)@.ran(ready),
            wake == old(self)@.run_wakes(ready),
    {
        if self.start() {
            self.finish(ready)
        } else {
            None
        }
    }

    /// A poll of the task's completion by an observer that brings `waker`.
    /// Resolves exactly when the task has finished. Otherwise `waker` is
    /// stored in the task's single slot, replacing an earlier one, to be
    /// handed out by the run step that completes the task.
    pub fn observe(&mut self, waker: Waker) -> (resolved: bool)
        ensures
            resolved == old(self)@.resolved(),
            final(self)@ == old(self)@.observed(waker),
    {
        if self.state == State::Finished {
            true
        } else {
            self.waker = Some(waker);
            false
        }
    }
}

/// What the holder of a spawned task keeps: the means to await the task's
/// completion and to change its priority. Dropping it stops neither.
#[derive(Debug)]
pub struct TaskHandle {
    inner: Task,
}

impl View for TaskHandle {
    type V = TaskView;

    closed spec fn view(&self) -> TaskView {
        self.inner@
    }
}

impl TaskHandle {
    /// The handle of `task`.
    pub fn new(task: Task) -> (handle: TaskHandle)
        ensures
            handle@ == task@,
    {
        TaskHandle { inner: task }
    }

    /// Gives the task back.
    pub fn into_task(self) -> (task: Task)
        ensures
            task@ == self@,
    {
        self.inner
    }

    /// Changes the task's priority.
    pub fn set_priority(&mut self, priority: usize)
        ensures
            final(self)@ == old(self)@.reprioritized(priority),
    {
        self.inner.set_priority(priority);
    }

    /// Polls for the task's completion on behalf of the observer that owns
    /// `waker`. Resolves exactly when the task has finished; until then the
    /// waker of the latest poll is the one kept for the wake-up.
    pub fn poll(&mut self, waker: Waker) -> (resolved: bool)
        ensures
            resolved == old(self)@.resolved(),
            final(self)@ == old(self)@.observed(waker),
    {
        self.inner.observe(waker)
    }
}

/// One thing that happens to a task. In a runtime each of these is one
/// call made with exclusive access to the task, so whatever threads take
/// part, the life of a task is a sequence of such steps.
pub enum Step {
    /// A worker that was handed the task takes it up.
    Start,
    /// The poll made by that worker has returned.
    Finish { ready: bool },
    /// The task's handle is polled by an observer that brings `waker`.
    Observe { waker: Waker },
    /// The task's priority is changed.
    Reprioritize { priority: usize },
}

impl TaskView {
    /// The task after `step`.
    pub open spec fn after(self, step: Step) -> TaskView {
        match step {
            Step::Start => self.started(),
            Step::Finish { ready } => self.polled(ready),
            Step::Observe { waker } => self.observed(waker),
            Step::Reprioritize { priority } => self.reprioritized(priority),
        }
    }

    /// The waker that `step` hands out to be invoked, if any.
    pub open spec fn hands_out(self, step: Step) -> Option<Waker> {
        match step {
            Step::Finish { ready } => self.woken(ready),
            _ => None,
        }
    }

    /// The task after the first `k` of `steps`.
    pub open spec fn after_steps(self, steps: Seq<Step>, k: int) -> TaskView
        decreases k,
    {
        if k <= 0 {
            self
        } else {
            self.after_steps(steps, k - 1).after(steps[k - 1])
        }
    }

    /// Whether `steps` is a life that a runtime can give the task: a poll
    /// returns only to a worker that is running the task, so every `Finish`
    /// finds the task active. Handles may be polled and the priority changed
    /// at any point, also between a `Start` and its `Finish`.
    pub open spec fn is_life(self, steps: Seq<Step>) -> bool {
        forall|k: int|
            0 <= k < steps.len() && #[trigger] steps[k] is Finish ==> self.after_steps(
                steps,
                k,
            ).state == State::Active
    }
}

/// One whole run step is a `Start` followed at once by its `Finish`.
pub proof fn lemma_run_is_start_then_finish(task: TaskView, ready: bool)
    ensures
        task.wants_poll() ==> task.ran(ready) == task.after(Step::Start).after(
            Step::Finish { ready },
        ),
        task.wants_poll() ==> task.run_wakes(ready) == task.after(Step::Start).hands_out(
            Step::Finish { ready },
        ),
        !task.wants_poll() ==> task.ran(ready) == task.after(Step::Start),
        !task.wants_poll() ==> task.run_wakes(ready) == task.hands_out(Step::Start),
{
}

/// Resolution is for good. Once a task has finished, whatever happens to
/// it afterwards leaves it finished, so a handle that has resolved resolves
/// at every later poll.
pub proof fn lemma_resolution_is_monotone(task: TaskView, steps: Seq<Step>, i: int, j: int)
    requires
        task.is_life(steps),
        0 <= i <= j <= steps.len(),
        task.after_steps(steps, i).resolved(),
    ensures
        task.after_steps(steps, j).resolved(),
    decreases j - i,
{
    if i < j {
        lemma_resolution_is_monotone(task, steps, i, j - 1);
    }
}

/// A handle resolves if and only if a poll of the task's computation was
/// ready. In the life of a task that starts out unfinished, the task is
/// finished at a given point exactly when a poll has returned ready before
/// it; polls of the handle never resolve it by themselves.
pub proof fn lemma_resolved_by_a_ready_poll(task: TaskView, steps: Seq<Step>, k: int)
    requires
        task.is_life(steps),
        0 <= k <= steps.len(),
        !task.resolved(),
    ensures
        task.after_steps(steps, k).resolved() <==> exists|i: int|
            0 <= i < k && #[trigger] steps[i] == (Step::Finish { ready: true }),
    decreases k,
{
    if k > 0 {
        lemma_resolved_by_a_ready_poll(task, steps, k - 1);
        let before = task.after_steps(steps, k - 1);
        if task.after_steps(steps, k - 1).resolved() {
            lemma_resolution_is_monotone(task, steps, k - 1, k);
        }
    }
}

/// A computation completes at most once. In the life of a task no two
/// polls return ready: after the first the task is finished, a worker that
/// is handed it again is told not to poll, and so no poll is left to
/// return.
pub proof fn lemma_completes_at_most_once(task: TaskView, steps: Seq<Step>, i: int, j: int)
    requires
        task.is_life(steps),
        0 <= i <= j < steps.len(),
        steps[i] == (Step::Finish { ready: true }),
        steps[j] == (Step::Finish { ready: true }),
    ensures
        i == j,
        !task.after_steps(steps, i + 1).wants_poll(),
{
    assert(task.after_steps(steps, i + 1) == task.after_steps(steps, i).after(steps[i]));
    if i < j {
        lemma_resolution_is_monotone(task, steps, i + 1, j);
        assert(steps[j] is Finish);
    }
}

/// A waker is handed out at most once, and only by the step that completes
/// the task. The step that hands one out is the return of a ready poll;
/// what it hands out is the waker that was in the slot; the task is
/// finished afterwards with its slot empty; and no later step hands out a
/// waker.
pub proof fn lemma_waker_is_handed_out_once(task: TaskView, steps: Seq<Step>, i: int, j: int)
    requires
        task.is_life(steps),
        0 <= i < j < steps.len(),
        task.after_steps(steps, i).hands_out(steps[i]) is Some,
    ensures
        steps[i] == (Step::Finish { ready: true }),
        task.after_steps(steps, i).hands_out(steps[i]) == task.after_steps(steps, i).waker,
        task.after_steps(steps, i + 1).resolved(),
        task.after_steps(steps, i + 1).waker is None,
        task.after_steps(steps, j).hands_out(steps[j]) is None,
{
    assert(task.after_steps(steps, i + 1) == task.after_steps(steps, i).after(steps[i]));
    lemma_resolution_is_monotone(task, steps, i + 1, j);
}

/// No wake-up is lost, and only the latest observer is woken. If a poll of
/// the handle brought `waker` and did not resolve, and no later poll of the
/// handle came before the poll of the computation that returns ready, then
/// the return of that poll hands out `waker`. This holds also where the
/// handle was polled while the computation was being polled.
pub proof fn lemma_latest_observer_is_woken(
    task: TaskView,
    steps: Seq<Step>,
    i: int,
    k: int,
    waker: Waker,
)
    requires
        task.is_life(steps),
        0 <= i < k < steps.len(),
        steps[i] == (Step::Observe { waker }),
        !task.after_steps(steps, i).resolved(),
        forall|m: int| i < m < k ==> !(#[trigger] steps[m] is Observe),
        steps[k] == (Step::Finish { ready: true }),
    ensures
        task.after_steps(steps, k).hands_out(steps[k]) == Some(waker),
{
    assert(steps[k] is Finish);
    lemma_slot_kept_until(task, steps, i, k, waker);
}

/// While the task is unfinished and its handle is not polled again, the
/// slot keeps the waker of the last poll of the handle.
proof fn lemma_slot_kept_until(task: TaskView, steps: Seq<Step>, i: int, m: int, waker: Waker)
    requires
        task.is_life(steps),
        0 <= i < m <= steps.len(),
        steps[i] == (Step::Observe { waker }),
        !task.after_steps(steps, i).resolved(),
        forall|n: int| i < n < m ==> !(#[trigger] steps[n] is Observe),
        !task.after_steps(steps, m).resolved(),
    ensures
        task.after_steps(steps, m).waker == Some(waker),
    decreases m - i,
{
    if m - 1 > i {
        assert(!(steps[m - 1] is Observe));
        if task.after_steps(steps, m - 1).resolved() {
            lemma_resolution_is_monotone(task, steps, m - 1, m);
        }
        lemma_slot_kept_until(task, steps, i, m - 1, waker);
    }
}

} // verus!
