use priority_executor::message::Message;
use priority_executor::pool::Pool;
use priority_executor::state::State;

#[test]
fn new_pool_has_the_configured_slots_and_no_tasks() {
    let (pool, workers) = Pool::new(4);
    assert_eq!(pool.num_threads(), 4);
    assert_eq!(pool.num_tasks(), 0);
    assert_eq!(workers.len(), 4);
    assert!(workers.iter().all(|worker| worker.get_state() == State::Idle));
}

#[test]
fn empty_pool_is_allowed() {
    let (pool, workers) = Pool::new(0);
    assert_eq!(pool.num_threads(), 0);
    assert!(workers.is_empty());
    assert!(pool.shutdown::<usize>().is_empty());
}

#[test]
fn spawn_counts_and_hands_out_an_idle_task() {
    let (mut pool, _workers) = Pool::new(1);
    let first = pool.spawn(5).into_task();
    assert_eq!(pool.num_tasks(), 1);
    assert_eq!(first.get_priority(), 5);
    assert_eq!(first.get_state(), State::Idle);
    let second = pool.spawn(10).into_task();
    assert_eq!(pool.num_tasks(), 2);
    assert_eq!(second.get_priority(), 10);
    assert_eq!(second.get_state(), State::Idle);
    assert_eq!(pool.num_threads(), 1);
}

#[test]
fn spawned_task_has_no_waker() {
    let (mut pool, _workers) = Pool::new(1);
    let mut task = pool.spawn(0).into_task();
    assert!(task.run(true).is_none());
}

#[test]
fn spawned_handle_is_unresolved() {
    let (mut pool, _workers) = Pool::new(1);
    let mut handle = pool.spawn(3);
    assert!(!handle.poll(futures::task::noop_waker()));
}

#[test]
fn shutdown_owes_one_signal_per_slot() {
    let (mut pool, _workers) = Pool::new(3);
    let signals = pool.shutdown::<usize>();
    assert_eq!(signals.len(), 3);
    assert!(signals.iter().all(|signal| matches!(signal, Message::Close)));
    let _ = pool.spawn(1);
    let _ = pool.spawn(2);
    let again = pool.shutdown::<String>();
    assert_eq!(again.len(), 3);
    assert!(again.iter().all(|signal| matches!(signal, Message::Close)));
}

#[test]
fn workers_of_a_pool_stop_on_its_shutdown_signals() {
    let (pool, mut workers) = Pool::new(3);
    let mut signals = pool.shutdown::<usize>();
    for worker in workers.iter_mut() {
        assert_eq!(worker.on_receive(signals.pop()), None);
    }
    assert!(signals.is_empty());
    assert!(workers.iter().all(|worker| worker.get_state() == State::Finished));
}

#[test]
fn many_spawns_are_counted_one_by_one() {
    let (mut pool, _workers) = Pool::new(2);
    for expected in 1..=1000usize {
        let handle = pool.spawn(expected % 7);
        assert_eq!(pool.num_tasks(), expected);
        assert_eq!(handle.into_task().get_priority(), expected % 7);
    }
}
