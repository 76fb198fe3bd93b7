use async_demo::executor::{Executor, PollOutcome, ReadyTask, TASK_QUEUE_CAPACITY};

fn expect_run(r: ReadyTask<&'static str>) -> (u64, &'static str) {
    match r {
        ReadyTask::Run(id, t) => (id, t),
        ReadyTask::Idle => panic!("expected a task, found an empty queue"),
        ReadyTask::Missing(id) => panic!("expected a task, found missing id {}", id),
    }
}

#[test]
fn new_executor_is_idle() {
    let mut e: Executor<&'static str> = Executor::new();
    assert!(!e.is_full());
    assert!(matches!(e.take_ready_task(), ReadyTask::Idle));
}

#[test]
fn spawned_task_runs_next() {
    let mut e = Executor::new();
    e.add_task(7, "server");
    assert_eq!(expect_run(e.take_ready_task()), (7, "server"));
    assert!(matches!(e.take_ready_task(), ReadyTask::Idle));
}

#[test]
fn tasks_run_in_fifo_order() {
    let mut e = Executor::new();
    e.add_task(1, "a");
    e.add_task(2, "b");
    e.add_task(3, "c");
    assert_eq!(expect_run(e.take_ready_task()), (1, "a"));
    assert_eq!(expect_run(e.take_ready_task()), (2, "b"));
    assert_eq!(expect_run(e.take_ready_task()), (3, "c"));
}

#[test]
fn pending_task_runs_again_after_wake() {
    let mut e = Executor::new();
    e.add_task(1, "poller");
    let (id, task) = expect_run(e.take_ready_task());
    e.complete_poll(id, task, PollOutcome::Pending);
    assert!(matches!(e.take_ready_task(), ReadyTask::Idle));
    e.wake(1);
    assert_eq!(expect_run(e.take_ready_task()), (1, "poller"));
}

#[test]
fn finished_task_is_missing_when_woken() {
    let mut e = Executor::new();
    e.add_task(4, "once");
    let (id, task) = expect_run(e.take_ready_task());
    e.complete_poll(id, task, PollOutcome::Ready);
    e.wake(4);
    assert!(matches!(e.take_ready_task(), ReadyTask::Missing(4)));
    assert!(matches!(e.take_ready_task(), ReadyTask::Idle));
}

#[test]
fn wake_during_poll_queues_task_behind_others() {
    let mut e = Executor::new();
    e.add_task(1, "first");
    e.add_task(2, "second");
    let (id, task) = expect_run(e.take_ready_task());
    e.wake(id);
    e.complete_poll(id, task, PollOutcome::Pending);
    assert_eq!(expect_run(e.take_ready_task()), (2, "second"));
    assert_eq!(expect_run(e.take_ready_task()), (1, "first"));
}

#[test]
fn queue_fills_at_capacity() {
    let mut e = Executor::new();
    for i in 0..TASK_QUEUE_CAPACITY as u64 {
        assert!(!e.is_full());
        e.add_task(i, "t");
    }
    assert!(e.is_full());
    assert_eq!(expect_run(e.take_ready_task()).0, 0);
    assert!(!e.is_full());
}

#[test]
fn adding_same_id_replaces_task() {
    let mut e = Executor::new();
    e.add_task(9, "old");
    e.add_task(9, "new");
    assert_eq!(expect_run(e.take_ready_task()), (9, "new"));
    assert!(matches!(e.take_ready_task(), ReadyTask::Missing(9)));
}

#[test]
fn each_wake_polls_task_once_more() {
    let mut e = Executor::new();
    e.add_task(5, "echo");
    let (id, task) = expect_run(e.take_ready_task());
    e.complete_poll(id, task, PollOutcome::Pending);
    e.wake(5);
    e.wake(5);
    e.wake(5);
    for _ in 0..3 {
        let (id, task) = expect_run(e.take_ready_task());
        assert_eq!(id, 5);
        e.complete_poll(id, task, PollOutcome::Pending);
    }
    assert!(matches!(e.take_ready_task(), ReadyTask::Idle));
}

#[test]
fn run_loop_serves_in_push_order() {
    let mut e = Executor::new();
    e.add_task(1, "a");
    e.add_task(2, "b");
    let (id, task) = expect_run(e.take_ready_task());
    assert_eq!(id, 1);
    e.add_task(3, "c");
    e.wake(1);
    e.complete_poll(id, task, PollOutcome::Pending);
    let order: Vec<u64> = (0..3).map(|_| {
        let (id, task) = expect_run(e.take_ready_task());
        e.complete_poll(id, task, PollOutcome::Ready);
        id
    }).collect();
    assert_eq!(order, vec![2, 3, 1]);
    assert!(matches!(e.take_ready_task(), ReadyTask::Idle));
}
