use priority_executor::message::Message;
use priority_executor::state::State;
use priority_executor::thread::Thread;

#[test]
fn new_worker_is_idle() {
    assert_eq!(Thread::new().get_state(), State::Idle);
}

#[test]
fn run_message_makes_the_worker_active_and_yields_the_task() {
    let mut worker = Thread::new();
    assert_eq!(worker.on_receive(Some(Message::Run(17u32))), Some(17));
    assert_eq!(worker.get_state(), State::Active);
}

#[test]
fn worker_returns_to_idle_after_a_task() {
    let mut worker = Thread::new();
    let _ = worker.on_receive(Some(Message::Run("job")));
    worker.on_task_done();
    assert_eq!(worker.get_state(), State::Idle);
    assert_eq!(worker.on_receive(Some(Message::Run("next"))), Some("next"));
    assert_eq!(worker.get_state(), State::Active);
}

#[test]
fn close_finishes_the_worker() {
    let mut worker = Thread::new();
    assert_eq!(worker.on_receive(Some(Message::<u8>::Close)), None);
    assert_eq!(worker.get_state(), State::Finished);
}

#[test]
fn closed_queue_finishes_the_worker() {
    let mut worker = Thread::new();
    assert_eq!(worker.on_receive(None::<Message<u8>>), None);
    assert_eq!(worker.get_state(), State::Finished);
}

#[test]
fn heal_restarts_a_terminated_worker() {
    let mut worker = Thread::new();
    let _ = worker.on_receive(Some(Message::<u8>::Close));
    assert_eq!(worker.get_state(), State::Finished);
    assert!(worker.heal(true));
    assert_eq!(worker.get_state(), State::Idle);
}

#[test]
fn heal_leaves_a_live_worker_alone() {
    let mut worker = Thread::new();
    assert!(!worker.heal(false));
    assert_eq!(worker.get_state(), State::Idle);
    let _ = worker.on_receive(Some(Message::Run(1u8)));
    assert!(!worker.heal(false));
    assert_eq!(worker.get_state(), State::Active);
    let _ = worker.on_receive(Some(Message::<u8>::Close));
    assert!(!worker.heal(false));
    assert_eq!(worker.get_state(), State::Finished);
}

#[test]
fn heal_restarts_a_worker_that_died_in_a_task() {
    let mut worker = Thread::new();
    let _ = worker.on_receive(Some(Message::Run(1u8)));
    assert_eq!(worker.get_state(), State::Active);
    assert!(worker.heal(true));
    assert_eq!(worker.get_state(), State::Idle);
}

#[test]
fn healed_worker_processes_messages_again() {
    let mut worker = Thread::new();
    let _ = worker.on_receive(None::<Message<u8>>);
    assert!(worker.heal(true));
    assert_eq!(worker.on_receive(Some(Message::Run(3u8))), Some(3));
    assert_eq!(worker.get_state(), State::Active);
    worker.on_task_done();
    assert_eq!(worker.get_state(), State::Idle);
    assert_eq!(worker.on_receive(Some(Message::<u8>::Close)), None);
    assert_eq!(worker.get_state(), State::Finished);
    assert!(worker.heal(true));
    assert!(!worker.heal(false));
}
