use echo_add_server::server::{
    accept_decision, AcceptAction, AcceptEvent, ServerCore, ACCEPT_RETRY_MILLIS,
};

#[test]
fn lifecycle_created_then_running_then_stopped() {
    let mut core = ServerCore::new();
    assert!(!core.is_running());
    core.start();
    assert!(core.is_running());
    let was_running = core.stop();
    assert!(was_running);
    assert!(!core.is_running());
}

#[test]
fn stop_is_idempotent() {
    let mut core = ServerCore::new();
    core.start();
    assert!(core.stop());
    // The second signal is a no-op, reported as such for the warning log.
    assert!(!core.stop());
    assert!(!core.is_running());
}

#[test]
fn stop_before_start_is_a_no_op() {
    let mut core = ServerCore::new();
    assert!(!core.stop());
    assert!(!core.is_running());
}

#[test]
fn running_loop_serves_every_event() {
    assert!(matches!(
        accept_decision(true, &AcceptEvent::Connection),
        AcceptAction::SpawnHandler
    ));
    assert!(matches!(
        accept_decision(true, &AcceptEvent::NothingReady),
        AcceptAction::PauseAndRetry
    ));
    assert!(matches!(
        accept_decision(true, &AcceptEvent::Failed),
        AcceptAction::LogAndContinue
    ));
}

#[test]
fn stopped_loop_exits_on_every_event() {
    // Once the flag is cleared the loop exits whatever the poll produced:
    // no connection is accepted after shutdown, and the exit comes within
    // one polling interval.
    for ev in [AcceptEvent::Connection, AcceptEvent::NothingReady, AcceptEvent::Failed] {
        assert!(matches!(accept_decision(false, &ev), AcceptAction::ExitLoop));
    }
    assert_eq!(ACCEPT_RETRY_MILLIS, 100);
}
