use web_gateway::logs::{
    live_event, log_event, logs_events_handler, replay, step_after, LogEvent, LogStep,
    KEEP_ALIVE_SECS,
};
use web_gateway::reply::{Failure, StatusCode};
use web_gateway::state::GatewayState;

fn gateway(log_broadcaster: bool) -> GatewayState {
    GatewayState {
        msg_tx: true,
        workspace: true,
        session_manager: true,
        log_broadcaster,
        extension_manager: true,
        tool_registry: true,
        store: true,
        job_manager: true,
        prompt_queue: true,
        user_id: "alice".to_string(),
        ws_tracker: None,
    }
}

fn event(data: &str) -> LogEvent {
    LogEvent { event: "log", data: data.to_string() }
}

#[test]
fn logs_need_a_broadcaster() {
    assert_eq!(logs_events_handler(&gateway(true)), Ok(LogStep::Subscribe));
    assert_eq!(
        logs_events_handler(&gateway(false)),
        Err(Failure {
            status: StatusCode::ServiceUnavailable,
            message: "Log broadcaster not available".to_string(),
        })
    );
}

#[test]
fn the_subscription_comes_before_the_snapshot() {
    assert_eq!(step_after(LogStep::Subscribe), LogStep::Snapshot);
    assert_eq!(step_after(LogStep::Snapshot), LogStep::Stream);
    assert_eq!(step_after(LogStep::Stream), LogStep::Stream);
    assert_eq!(KEEP_ALIVE_SECS, 30);
}

#[test]
fn no_entry_is_lost_between_snapshot_and_subscription() {
    let log: Vec<u32> = (0..10).collect();
    let (subscribed, snapshot, kept): (usize, usize, usize) = (4, 6, 3);
    let mut seen: Vec<u32> = log[snapshot - kept..snapshot].to_vec();
    seen.extend_from_slice(&log[subscribed..]);
    for entry in &log[snapshot - kept..] {
        assert!(seen.contains(entry));
    }
}

#[test]
fn recent_entries_are_replayed_in_order() {
    assert_eq!(
        replay(vec![Ok("a".to_string()), Err("bad".to_string()), Ok("b".to_string())]),
        vec![event("a"), event(""), event("b")]
    );
    assert_eq!(replay(vec![]), vec![]);
}

#[test]
fn missed_entries_make_no_event() {
    assert_eq!(live_event(Ok(Ok("x".to_string()))), Some(event("x")));
    assert_eq!(live_event(Ok(Err("bad".to_string()))), Some(event("")));
    assert_eq!(live_event(Err(12)), None);
    assert_eq!(log_event(Ok("y".to_string())), event("y"));
}
