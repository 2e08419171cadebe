use worker_pool::error::Error;
use worker_pool::state::State;
use worker_pool::wait::Inner;

#[test]
fn state_starts_running() {
    let s: State<i64> = State::default();
    assert!(s.is_running());
    assert!(!s.is_finished());
    assert!(!s.is_aborted());
}

#[test]
fn state_abort_is_terminal() {
    let mut s: State<i64> = State::default();
    s.abort();
    assert!(s.is_aborted());
    assert!(!s.is_running());
    assert!(!s.is_finished());
}

#[test]
fn aborted_state_always_yields_aborted_error() {
    let mut s: State<i64> = State::Aborted;
    for _ in 0..3 {
        match s.get_output() {
            Some(Err(Error::Aborted)) => (),
            other => panic!("expected Aborted, got {:?}", other.is_some()),
        }
        assert!(s.is_aborted());
    }
}

#[test]
fn finished_output_taken_at_most_once() {
    let mut s: State<i64> = State::Finished(Some(Ok(5)));
    match s.get_output() {
        Some(Ok(v)) => assert_eq!(v, 5),
        _ => panic!("expected the stored output"),
    }
    assert!(s.get_output().is_none());
    assert!(s.is_finished());
}

#[test]
fn cell_wait_handshake_delivers_one_wake() {
    let mut cell: Inner<i64, u32> = Inner::new();
    // The waiter installs its park token while the task still runs.
    assert!(cell.install_notifier(7).is_none());
    // Publishing the outcome takes the token out: exactly one wake.
    let wake = cell.set_result(Ok(9));
    assert_eq!(wake, Some(7));
    assert!(cell.notifier.is_none());
    // The woken waiter finds the output present, once.
    match cell.try_get() {
        Some(Ok(v)) => assert_eq!(v, 9),
        _ => panic!("expected the published output"),
    }
    assert!(cell.try_get().is_none());
}

#[test]
fn install_after_terminal_hands_token_back() {
    let mut cell: Inner<i64, u32> = Inner::new();
    let wake = cell.set_result(Ok(1));
    assert_eq!(wake, None);
    // The state is already terminal: the installer wakes itself.
    assert_eq!(cell.install_notifier(3), Some(3));
    assert!(cell.notifier.is_none());
}

#[test]
fn abort_after_finish_keeps_finished_state() {
    let mut cell: Inner<i64, u32> = Inner::new();
    let _ = cell.set_result(Ok(2));
    // Chosen policy: abort on a finished cell is a no-op on the state, but
    // still consumes a pending notifier.
    let _ = cell.abort();
    assert!(cell.state.is_finished());
    match cell.try_get() {
        Some(Ok(v)) => assert_eq!(v, 2),
        _ => panic!("the finished output must survive a late abort"),
    }
}

#[test]
fn abort_wakes_pending_waiter() {
    let mut cell: Inner<i64, u32> = Inner::new();
    assert!(cell.install_notifier(11).is_none());
    let wake = cell.abort();
    assert_eq!(wake, Some(11));
    assert!(cell.state.is_aborted());
    match cell.try_get() {
        Some(Err(Error::Aborted)) => (),
        _ => panic!("an aborted cell yields Aborted"),
    }
}

#[test]
fn endpoint_count_reaches_zero_exactly_once() {
    let mut cell: Inner<i64, u32> = Inner::new();
    cell.create_end();
    assert_eq!(cell.handles, 2);
    assert!(!cell.drop_end());
    assert!(cell.drop_end());
    assert_eq!(cell.handles, 0);
}

#[test]
fn error_variants() {
    assert!(Error::Aborted.is_aborted());
    assert!(!Error::Panicked(String::from("boom")).is_aborted());
    match Error::Panicked(String::from("boom")) {
        Error::Panicked(m) => assert_eq!(m, "boom"),
        Error::Aborted => panic!("wrong variant"),
    }
}
