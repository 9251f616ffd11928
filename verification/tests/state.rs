use std::collections::HashMap;
use web_gateway::clock::Timestamp;
use web_gateway::state::{
    auth_session, clear_auth_mode, GatewayState, PendingPrompt, PromptQueue, Session, Thread,
};

fn thread(id: u128, pending_auth: Option<&str>) -> Thread {
    let t = Timestamp::new(0, 0).unwrap();
    Thread {
        id,
        state: "Idle".to_string(),
        turns: Vec::new(),
        created_at: t,
        updated_at: t,
        pending_auth: pending_auth.map(|s| s.to_string()),
    }
}

fn session(active: Option<u128>) -> Session {
    let mut threads = HashMap::new();
    threads.insert(1, thread(1, Some("notion")));
    threads.insert(2, thread(2, Some("github")));
    Session { active_thread: active, threads }
}

#[test]
fn clearing_touches_the_active_thread_only() {
    let mut s = session(Some(2));
    clear_auth_mode(&mut s);
    assert_eq!(s.active_thread, Some(2));
    assert_eq!(s.threads.len(), 2);
    assert_eq!(s.threads[&2].pending_auth, None);
    assert_eq!(s.threads[&2].state, "Idle");
    assert_eq!(s.threads[&1].pending_auth, Some("notion".to_string()));
}

#[test]
fn clearing_twice_is_clearing_once() {
    let mut s = session(Some(1));
    clear_auth_mode(&mut s);
    clear_auth_mode(&mut s);
    assert_eq!(s.threads.len(), 2);
    assert_eq!(s.threads[&1].pending_auth, None);
    assert_eq!(s.threads[&2].pending_auth, Some("github".to_string()));
}

#[test]
fn clearing_without_an_active_thread_changes_nothing() {
    for active in [None, Some(7)] {
        let mut s = session(active);
        clear_auth_mode(&mut s);
        assert_eq!(s.active_thread, active);
        assert_eq!(s.threads.len(), 2);
        assert_eq!(s.threads[&1].pending_auth, Some("notion".to_string()));
        assert_eq!(s.threads[&2].pending_auth, Some("github".to_string()));
    }
}

#[test]
fn prompts_wait_in_the_order_in_which_they_came() {
    let mut q = PromptQueue::new();
    assert!(q.pending.is_empty());
    q.push(5, PendingPrompt { content: "first".to_string(), done: false });
    q.push(6, PendingPrompt { content: "other".to_string(), done: false });
    q.push(5, PendingPrompt { content: "second".to_string(), done: true });
    let five: Vec<&str> = q.pending[&5].iter().map(|p| p.content.as_str()).collect();
    assert_eq!(five, vec!["first", "second"]);
    assert!(q.pending[&5][1].done);
    assert_eq!(q.pending[&6].len(), 1);
    assert_eq!(q.pending.len(), 2);
}

#[test]
fn the_auth_mode_is_cleared_for_the_user_of_the_gateway() {
    let mut state = GatewayState {
        msg_tx: true,
        workspace: true,
        session_manager: true,
        log_broadcaster: true,
        extension_manager: true,
        tool_registry: true,
        store: true,
        job_manager: true,
        prompt_queue: true,
        user_id: "alice".to_string(),
        ws_tracker: None,
    };
    assert_eq!(auth_session(&state), Some("alice".to_string()));
    state.session_manager = false;
    assert_eq!(auth_session(&state), None);
}
