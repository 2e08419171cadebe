use worker_pool::builder::WorkerPoolBuilder;
use worker_pool::context::ContextSlot;
use worker_pool::dispatcher::CoreInner;
use worker_pool::driver::{Driver, Either};
use worker_pool::error::Error;
use worker_pool::runnable::Runnable;
use worker_pool::scope::ScopeInner;
use worker_pool::worker::WorkerStep;

type Core = CoreInner<i64, u32>;

#[test]
fn hello() {
    let mut core: Core = CoreInner::new();
    let (_task, cell) = core.spawn();
    let task = match core.worker_poll(0) {
        WorkerStep::RunTask { task } => task,
        _ => panic!("a spawned task must be found by the next poll"),
    };
    let wake = core.complete_task(task, Ok(41 + 1));
    assert_eq!(wake, None);
    match core.try_get(cell) {
        Some(Ok(v)) => assert_eq!(v, 42),
        _ => panic!("the waiter must observe Ok(42)"),
    }
}

#[test]
fn panic_surfaces_and_worker_survives() {
    let mut core: Core = CoreInner::new();
    // A panicking task surfaces its payload message to the waiter.
    let (_task, cell) = core.spawn();
    let task = match core.worker_poll(0) {
        WorkerStep::RunTask { task } => task,
        _ => panic!("expected the task"),
    };
    let _ = core.complete_task(task, Err(Error::Panicked(String::from("x"))));
    match core.try_get(cell) {
        Some(Err(Error::Panicked(m))) => assert_eq!(m, "x"),
        _ => panic!("the waiter must observe the panic"),
    }
    // The worker is available for the next task.
    let (_task2, cell2) = core.spawn();
    let task2 = match core.worker_poll(1) {
        WorkerStep::RunTask { task } => task,
        _ => panic!("expected the second task"),
    };
    let _ = core.complete_task(task2, Ok(7));
    match core.try_get(cell2) {
        Some(Ok(v)) => assert_eq!(v, 7),
        _ => panic!("the next task must still run"),
    }
}

#[test]
fn shutdown_drains_and_aborts() {
    let mut core: Core = CoreInner::new();
    // A detached task ahead of the handled one, as if the single worker
    // were busy elsewhere.
    let _ = core.spawn_detached();
    let (_task, cell) = core.spawn();
    let notifies = core.shutdown();
    assert!(core.exit);
    assert!(notifies.is_empty());
    match core.try_get(cell) {
        Some(Err(Error::Aborted)) => (),
        _ => panic!("a task drained by shutdown is observed Aborted"),
    }
}

#[test]
fn no_step_runs_after_shutdown() {
    let mut core: Core = CoreInner::new();
    let _ = core.spawn_detached();
    let _ = core.shutdown();
    for now in 0..3 {
        match core.worker_poll(now) {
            WorkerStep::Exit => (),
            _ => panic!("a worker polling a stopped pool exits"),
        }
    }
}

#[test]
fn shutdown_wakes_pending_waiter() {
    let mut core: Core = CoreInner::new();
    let (_task, cell) = core.spawn();
    // The waiter parks with its token installed before shutdown drains.
    assert!(core.install_notifier(cell, 21).is_none());
    let notifies = core.shutdown();
    assert_eq!(notifies, vec![21]);
    match core.try_get(cell) {
        Some(Err(Error::Aborted)) => (),
        _ => panic!("the woken waiter observes Aborted"),
    }
}

#[test]
fn aborted_task_never_runs() {
    let mut core: Core = CoreInner::new();
    let (_task, cell) = core.spawn();
    let _ = core.abort(cell);
    // The queued task's cell is already aborted: the worker consumes the
    // entry without running it.
    match core.worker_poll(0) {
        WorkerStep::Skipped => (),
        _ => panic!("an aborted task must not run"),
    }
    match core.try_get(cell) {
        Some(Err(Error::Aborted)) => (),
        _ => panic!("the waiter observes Aborted"),
    }
}

#[test]
fn poll_notifier_replaced_while_running() {
    let mut core: Core = CoreInner::new();
    let (_task, cell) = core.spawn();
    // A polling driver installs a fresh wake callback on every poll.
    assert!(core.install_notifier(cell, 1).is_none());
    assert!(core.install_notifier(cell, 2).is_none());
    let task = match core.worker_poll(0) {
        WorkerStep::RunTask { task } => task,
        _ => panic!("expected the task"),
    };
    // Only the latest callback is woken, exactly once.
    assert_eq!(core.complete_task(task, Ok(8)), Some(2));
}

#[test]
fn wait_handshake_through_pool() {
    let mut core: Core = CoreInner::new();
    let (_task, cell) = core.spawn();
    assert!(core.install_notifier(cell, 5).is_none());
    let task = match core.worker_poll(0) {
        WorkerStep::RunTask { task } => task,
        _ => panic!("expected the task"),
    };
    let wake = core.complete_task(task, Ok(1));
    assert_eq!(wake, Some(5));
    match core.try_get(cell) {
        Some(Ok(v)) => assert_eq!(v, 1),
        _ => panic!("the output is present after the wake"),
    }
}

#[test]
fn tasks_start_in_submission_order() {
    let mut core: Core = CoreInner::new();
    let _ = core.spawn_detached();
    let _ = core.spawn_detached();
    match core.worker_poll(0) {
        WorkerStep::RunTask { task } => assert_eq!(task, 0),
        _ => panic!("expected the first task"),
    }
    core.complete_task(0, Ok(0));
    match core.worker_poll(0) {
        WorkerStep::RunTask { task } => assert_eq!(task, 1),
        _ => panic!("expected the second task"),
    }
}

#[test]
fn periodic_runs_exactly_count_times() {
    let mut core: Core = CoreInner::new();
    let (_periodic, _cell) = core.spawn_periodic(100, 0, Some(3));
    let mut invocations: usize = 0;
    let mut now: u64 = 0;
    // Poll well past three periods; count the invocations the worker is
    // asked to perform.
    while now <= 500 {
        match core.worker_poll(now) {
            WorkerStep::RunPeriodic { periodic } => {
                invocations += 1;
                core.complete_periodic(periodic, now);
            },
            WorkerStep::Sleep { .. } => now += 50,
            WorkerStep::Skipped => (),
            _ => panic!("nothing else happens here"),
        }
    }
    assert_eq!(invocations, 3);
}

#[test]
fn periodic_with_zero_count_never_runs() {
    let mut core: Core = CoreInner::new();
    let (_periodic, _cell) = core.spawn_periodic(0, 0, Some(0));
    match core.worker_poll(0) {
        WorkerStep::Skipped => (),
        _ => panic!("a zero-count record is consumed without running"),
    }
    match core.worker_poll(0) {
        WorkerStep::Sleep { bounded } => assert!(!bounded),
        _ => panic!("nothing is left"),
    }
}

#[test]
fn periodic_stops_after_abort() {
    let mut core: Core = CoreInner::new();
    let (_periodic, cell) = core.spawn_periodic(100, 0, None);
    let _ = core.abort(cell);
    assert!(core.is_aborted(cell));
    // Once due, the record is dropped without invoking the callable.
    match core.worker_poll(100) {
        WorkerStep::Skipped => (),
        _ => panic!("an aborted periodic record must not run"),
    }
    match core.worker_poll(200) {
        WorkerStep::Sleep { bounded } => assert!(!bounded),
        _ => panic!("the record is gone"),
    }
}

#[test]
fn periodic_not_due_asks_for_bounded_sleep() {
    let mut core: Core = CoreInner::new();
    let (_periodic, _cell) = core.spawn_periodic(100, 0, Some(1));
    match core.worker_poll(50) {
        WorkerStep::Sleep { bounded } => assert!(bounded),
        _ => panic!("nothing is due yet"),
    }
    match core.worker_poll(100) {
        WorkerStep::RunPeriodic { .. } => (),
        _ => panic!("the record is due now"),
    }
}

#[test]
fn join_handle_status_moves_forward() {
    let mut core: Core = CoreInner::new();
    let (_task, cell) = core.spawn();
    assert!(core.is_running(cell));
    assert!(!core.is_finished(cell));
    assert!(!core.is_aborted(cell));
    let task = match core.worker_poll(0) {
        WorkerStep::RunTask { task } => task,
        _ => panic!("expected the task"),
    };
    let _ = core.complete_task(task, Ok(3));
    assert!(core.is_finished(cell));
    assert!(!core.is_running(cell));
    // A late abort does not move a finished cell back.
    let _ = core.abort(cell);
    assert!(core.is_finished(cell));
    assert!(!core.is_aborted(cell));
}

#[test]
fn waiter_endpoint_release() {
    let mut core: Core = CoreInner::new();
    let (_task, cell) = core.spawn();
    let task = match core.worker_poll(0) {
        WorkerStep::RunTask { task } => task,
        _ => panic!("expected the task"),
    };
    let _ = core.complete_task(task, Ok(1));
    let _ = core.try_get(cell);
    // The task's endpoint is gone with completion; the waiter's drop is the
    // last and releases the cell.
    core.drop_waiter(cell);
}

#[test]
fn scope_barrier_counts_to_zero() {
    let mut scope = ScopeInner::new();
    let mut sum: u64 = 0;
    for _ in 0..4 {
        scope.increment_task_number();
    }
    assert!(scope.should_park());
    let mut unparked = false;
    for _ in 0..4 {
        sum += 1;
        unparked = scope.decrement_task_number();
    }
    assert!(unparked);
    assert!(!scope.should_park());
    assert_eq!(sum, 4);
}

#[test]
fn context_slot_rules() {
    let mut slot: ContextSlot<u64> = ContextSlot::new();
    assert!(!slot.is_set());
    slot.enter(40);
    assert!(slot.is_set());
    assert_eq!(*slot.get(), 40);
    assert_eq!(slot.try_get(), Some(&40));
    slot.clear();
    assert!(!slot.is_set());
    assert_eq!(slot.try_get(), None);
    // A worker installs over whatever is set.
    slot.set(1);
    slot.set(2);
    assert_eq!(*slot.get(), 2);
}

#[test]
fn inside_and_outside_submissions_share_the_queue() {
    let mut core: Core = CoreInner::new();
    // One submission through a thread's context slot, one through the
    // handle directly: both reach the same ready queue, in order.
    let mut slot: ContextSlot<usize> = ContextSlot::new();
    slot.enter(0);
    assert!(slot.is_set());
    let _ = core.spawn_detached();
    let _ = core.spawn_detached();
    match core.worker_poll(0) {
        WorkerStep::RunTask { task } => assert_eq!(task, 0),
        _ => panic!("expected the first submission"),
    }
    core.complete_task(0, Ok(0));
    match core.worker_poll(0) {
        WorkerStep::RunTask { task } => assert_eq!(task, 1),
        _ => panic!("expected the second submission"),
    }
}

#[test]
fn driver_is_fifo() {
    let mut driver = Driver::default();
    assert!(driver.is_empty());
    driver.schedule((false, 0));
    driver.schedule((true, 1));
    driver.schedule((false, 2));
    assert!(!driver.is_empty());
    assert_eq!(driver.pop(), Some(Either::Left(0)));
    assert_eq!(driver.pop(), Some(Either::Right(1)));
    assert_eq!(driver.pop(), Some(Either::Left(2)));
    assert_eq!(driver.pop(), None);
}

#[test]
fn driver_clear_returns_everything_in_order() {
    let mut driver = Driver::default();
    driver.schedule((false, 3));
    driver.schedule((true, 4));
    let drained = driver.clear();
    assert_eq!(drained, vec![(false, 3), (true, 4)]);
    assert!(driver.is_empty());
}

#[test]
fn either_runs_the_held_side() {
    fn three() -> i64 {
        3
    }
    fn four() -> i64 {
        4
    }
    let l: Either<fn() -> i64, fn() -> i64> = Either::Left(three);
    assert_eq!(l.run(), Either::Left(3));
    let r: Either<fn() -> i64, fn() -> i64> = Either::Right(four);
    assert_eq!(r.run(), Either::Right(4));
}

#[test]
fn freed_indices_are_reused() {
    let mut core: Core = CoreInner::new();
    let (task0, cell0) = core.spawn();
    match core.worker_poll(0) {
        WorkerStep::RunTask { task } => assert_eq!(task, task0),
        _ => panic!("expected the task"),
    }
    let _ = core.complete_task(task0, Ok(1));
    let _ = core.try_get(cell0);
    core.drop_waiter(cell0);
    // Both slots are free again: the next submission reuses them, so the
    // tables do not grow.
    let (task1, cell1) = core.spawn();
    assert_eq!(task1, task0);
    assert_eq!(cell1, cell0);
    assert_eq!(core.tasks.len(), 1);
    assert_eq!(core.cells.len(), 1);
}

#[test]
fn shutdown_aborts_queued_periodic() {
    let mut core: Core = CoreInner::new();
    // A zero-period record is due at once and sits in the ready queue.
    let (_periodic, cell) = core.spawn_periodic(0, 0, Some(5));
    let _ = core.shutdown();
    assert!(core.is_aborted(cell));
}

#[test]
fn default_thread_count_is_twice_the_cores() {
    assert_eq!(worker_pool::builder::default_threads(1), 2);
    assert_eq!(worker_pool::builder::default_threads(3), 6);
    assert_eq!(worker_pool::builder::default_threads(usize::MAX), usize::MAX);
}

#[test]
fn closures_are_runnable() {
    let task = || 41 + 1;
    assert_eq!(task.run(), 42);
}

#[test]
fn builder_defaults_and_setters() {
    let mut b = WorkerPoolBuilder::new();
    assert!(b.threads >= 2);
    assert!(b.stack_size.is_none());
    assert!(b.name.is_none());
    b.threads(1).set_name(String::from("pool worker"));
    assert_eq!(b.threads, 1);
    assert_eq!(b.name.as_deref(), Some("pool worker"));
}
