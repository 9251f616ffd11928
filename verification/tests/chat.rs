use std::collections::HashMap;
use web_gateway::chat::{
    approval_message, auth_activated, auth_checked, chat_approval_handler, chat_auth_cancel_handler,
    chat_auth_token_handler, chat_history_handler, chat_new_thread_handler, chat_send_handler,
    chat_threads_handler, history_asked, message_sent, sessions_available, thread_created,
    threads_listed, ActivateResult, ApprovalRequest,
    AuthResult, AuthTokenRequest, AuthTokenStep, HistoryQuery, SendMessageRequest, SseEvent,
    Submission,
};
use web_gateway::clock::Timestamp;
use web_gateway::ids::id_text;
use web_gateway::reply::{ActionResponse, Failure, StatusCode};
use web_gateway::state::{GatewayState, Session, Thread, ToolCall, Turn};

fn gateway(attached: bool) -> GatewayState {
    GatewayState {
        msg_tx: attached,
        workspace: attached,
        session_manager: attached,
        log_broadcaster: attached,
        extension_manager: attached,
        tool_registry: attached,
        store: attached,
        job_manager: attached,
        prompt_queue: attached,
        user_id: "alice".to_string(),
        ws_tracker: None,
    }
}

fn failure(status: StatusCode, message: &str) -> Failure {
    Failure { status, message: message.to_string() }
}

fn auth(status: &str, instructions: Option<&str>) -> AuthResult {
    AuthResult {
        status: status.to_string(),
        instructions: instructions.map(|s| s.to_string()),
        auth_url: Some("https://auth".to_string()),
        setup_url: Some("https://setup".to_string()),
        awaiting_token: true,
    }
}

#[test]
fn messages_go_to_the_agent_under_a_new_identifier() {
    let req = SendMessageRequest { content: "hi".to_string(), thread_id: Some("t".to_string()) };
    let a = chat_send_handler(&gateway(true), &req).unwrap();
    let b = chat_send_handler(&gateway(true), &req).unwrap();
    assert_ne!(a.id, b.id);
    assert_eq!(a.channel, "gateway");
    assert_eq!(a.user_id, "alice");
    assert_eq!(a.content, "hi");
    assert_eq!(a.thread_id, Some("t".to_string()));
}

#[test]
fn messages_need_a_channel() {
    let req = SendMessageRequest { content: "hi".to_string(), thread_id: None };
    assert_eq!(
        chat_send_handler(&gateway(false), &req),
        Err(failure(StatusCode::ServiceUnavailable, "Channel not started"))
    );
    assert_eq!(
        message_sent(4, false),
        Err(failure(StatusCode::InternalServerError, "Channel closed"))
    );
    let (status, reply) = message_sent(4, true).unwrap();
    assert_eq!(status.as_u16(), 202);
    assert_eq!(reply.message_id, 4);
    assert_eq!(reply.status, "accepted");
}

#[test]
fn decisions_become_submissions() {
    let id = 0x550e8400_e29b_41d4_a716_446655440000u128;
    for (action, approved, always) in
        [("approve", true, false), ("always", true, true), ("deny", false, false)]
    {
        let req = ApprovalRequest { request_id: id_text(id), action: action.to_string() };
        assert_eq!(
            chat_approval_handler(&req),
            Ok(Submission::ExecApproval { request_id: id, approved, always })
        );
    }
}

#[test]
fn unknown_decisions_are_refused_first() {
    let req = ApprovalRequest { request_id: "nonsense".to_string(), action: "maybe".to_string() };
    assert_eq!(
        chat_approval_handler(&req),
        Err(failure(StatusCode::BadRequest, "Unknown action: maybe"))
    );
    let req = ApprovalRequest { request_id: "nonsense".to_string(), action: "deny".to_string() };
    assert_eq!(
        chat_approval_handler(&req),
        Err(failure(StatusCode::BadRequest, "Invalid request_id (expected UUID)"))
    );
}

#[test]
fn submissions_travel_as_messages() {
    let m = approval_message(&gateway(true), Ok("{}".to_string())).unwrap();
    assert_eq!((m.content.as_str(), m.user_id.as_str(), m.thread_id), ("{}", "alice", None));
    assert_eq!(
        approval_message(&gateway(false), Ok("{}".to_string())),
        Err(failure(StatusCode::ServiceUnavailable, "Channel not started"))
    );
    assert_eq!(
        approval_message(&gateway(true), Err("bad".to_string())),
        Err(failure(StatusCode::InternalServerError, "Failed to serialize approval: bad"))
    );
}

#[test]
fn tokens_go_to_the_extension_manager() {
    let req = AuthTokenRequest { extension_name: "notion".to_string(), token: "t0".to_string() };
    assert!(matches!(
        chat_auth_token_handler(&gateway(true), req),
        AuthTokenStep::Authenticate { extension_name, token }
            if extension_name == "notion" && token == "t0"
    ));
    let req = AuthTokenRequest { extension_name: "notion".to_string(), token: "t0".to_string() };
    assert!(matches!(
        chat_auth_token_handler(&gateway(false), req),
        AuthTokenStep::Fail(f)
            if f == failure(StatusCode::ServiceUnavailable, "Extension manager not available")
    ));
}

#[test]
fn accepted_tokens_lead_to_activation() {
    assert!(matches!(
        auth_checked("notion".to_string(), Ok(auth("authenticated", None))),
        AuthTokenStep::Activate { extension_name } if extension_name == "notion"
    ));
    assert!(matches!(
        auth_checked("notion".to_string(), Err("down".to_string())),
        AuthTokenStep::Fail(f) if f == failure(StatusCode::InternalServerError, "down")
    ));
}

#[test]
fn rejected_tokens_leave_the_auth_mode_on() {
    match auth_checked("notion".to_string(), Ok(auth("awaiting_token", Some("paste it")))) {
        AuthTokenStep::Finish { clear_auth, event, reply } => {
            assert!(!clear_auth);
            assert_eq!(
                event,
                SseEvent::AuthRequired {
                    extension_name: "notion".to_string(),
                    instructions: Some("paste it".to_string()),
                    auth_url: Some("https://auth".to_string()),
                    setup_url: Some("https://setup".to_string()),
                }
            );
            assert_eq!(reply, ActionResponse::fail("paste it".to_string()));
        }
        other => panic!("{:?}", other),
    }
    match auth_checked("notion".to_string(), Ok(auth("awaiting_token", None))) {
        AuthTokenStep::Finish { reply, .. } => {
            assert_eq!(reply, ActionResponse::fail("Invalid token".to_string()))
        }
        other => panic!("{:?}", other),
    }
}

#[test]
fn activation_ends_the_auth_mode() {
    let tools = vec!["a".to_string(), "b".to_string()];
    let result = ActivateResult { message: "on".to_string(), tools_loaded: tools };
    match auth_activated("notion".to_string(), Ok(result)) {
        AuthTokenStep::Finish { clear_auth, event, reply } => {
            let note = "notion authenticated (2 tools loaded)".to_string();
            assert!(clear_auth);
            assert_eq!(
                event,
                SseEvent::AuthCompleted {
                    extension_name: "notion".to_string(),
                    success: true,
                    message: note.clone(),
                }
            );
            assert_eq!(reply, ActionResponse::ok(note));
        }
        other => panic!("{:?}", other),
    }
    match auth_activated("notion".to_string(), Err("no".to_string())) {
        AuthTokenStep::Finish { clear_auth, reply, .. } => {
            assert!(clear_auth);
            assert!(reply.success);
            assert_eq!(reply.message, "notion authenticated but activation failed: no");
        }
        other => panic!("{:?}", other),
    }
}

#[test]
fn tokens_do_not_show() {
    let steps: Vec<String> = ["secret one", "secret two"]
        .iter()
        .map(|token| {
            let req = AuthTokenRequest {
                extension_name: "notion".to_string(),
                token: token.to_string(),
            };
            match chat_auth_token_handler(&gateway(true), req) {
                AuthTokenStep::Authenticate { extension_name, .. } => {
                    format!("{:?}", auth_checked(extension_name, Ok(auth("no", None))))
                }
                other => panic!("{:?}", other),
            }
        })
        .collect();
    assert_eq!(steps[0], steps[1]);
    assert!(!steps[0].contains("secret"));
}

#[test]
fn cancelling_an_auth_flow_ends_the_auth_mode() {
    let mut s = conversation();
    s.threads.get_mut(&9).unwrap().pending_auth = Some("notion".to_string());
    let confirmed = ActionResponse::ok("Auth cancelled".to_string());
    assert_eq!(chat_auth_cancel_handler(Some(&mut s)), confirmed);
    assert_eq!(s.threads[&9].pending_auth, None);
    assert_eq!(s.threads[&9].turns.len(), 1);
    assert_eq!(s.active_thread, Some(9));
    s.active_thread = None;
    s.threads.get_mut(&9).unwrap().pending_auth = Some("notion".to_string());
    assert_eq!(chat_auth_cancel_handler(Some(&mut s)), confirmed);
    assert_eq!(s.threads[&9].pending_auth, Some("notion".to_string()));
    assert_eq!(chat_auth_cancel_handler(None), confirmed);
}

fn conversation() -> Session {
    let turn = Turn {
        turn_number: 3,
        user_input: "hello".to_string(),
        response: Some("world".to_string()),
        state: "Completed".to_string(),
        started_at: Timestamp::new(0, 0).unwrap(),
        completed_at: Timestamp::new(1, 0),
        tool_calls: vec![
            ToolCall { name: "shell".to_string(), result: Some("{}".to_string()), error: None },
            ToolCall { name: "http".to_string(), result: None, error: Some("e".to_string()) },
        ],
    };
    let thread = Thread {
        id: 9,
        state: "Idle".to_string(),
        turns: vec![turn],
        created_at: Timestamp::new(0, 0).unwrap(),
        updated_at: Timestamp::new(60, 0).unwrap(),
        pending_auth: None,
    };
    let mut threads = HashMap::new();
    threads.insert(9, thread);
    Session { active_thread: Some(9), threads }
}

#[test]
fn history_tells_the_turns_of_the_active_thread() {
    let h = history_asked(&conversation(), &HistoryQuery { thread_id: None }).unwrap();
    assert_eq!(h.thread_id, 9);
    assert_eq!(h.turns.len(), 1);
    let t = &h.turns[0];
    assert_eq!(t.turn_number, 3);
    assert_eq!(t.user_input, "hello");
    assert_eq!(t.response, Some("world".to_string()));
    assert_eq!(t.state, "Completed");
    assert_eq!(t.started_at, "1970-01-01T00:00:00+00:00");
    assert_eq!(t.completed_at, Some("1970-01-01T00:00:01+00:00".to_string()));
    assert_eq!(t.tool_calls[0].name, "shell");
    assert!(t.tool_calls[0].has_result && !t.tool_calls[0].has_error);
    assert!(!t.tool_calls[1].has_result && t.tool_calls[1].has_error);
}

#[test]
fn history_is_refused_where_there_is_no_thread() {
    let mut s = conversation();
    let named = |text: &str| HistoryQuery { thread_id: Some(text.to_string()) };
    assert!(history_asked(&s, &named(&id_text(9))).is_ok());
    assert_eq!(
        history_asked(&s, &named("x")),
        Err(failure(StatusCode::BadRequest, "Invalid thread_id"))
    );
    assert_eq!(
        history_asked(&s, &named(&id_text(1))),
        Err(failure(StatusCode::NotFound, "Thread not found"))
    );
    s.active_thread = None;
    assert_eq!(
        history_asked(&s, &HistoryQuery { thread_id: None }),
        Err(failure(StatusCode::NotFound, "No active thread"))
    );
}

#[test]
fn threads_are_listed_once_each() {
    let mut s = conversation();
    let list = threads_listed(&s);
    assert_eq!(list.active_thread, Some(9));
    assert_eq!(list.threads.len(), 1);
    assert_eq!(list.threads[0], thread_created(&s.threads[&9]));
    assert_eq!(list.threads[0].turn_count, 1);
    assert_eq!(list.threads[0].state, "Idle");
    assert_eq!(list.threads[0].updated_at, "1970-01-01T00:01:00+00:00");
    let mut other = conversation().threads.remove(&9).unwrap();
    other.id = 10;
    s.threads.insert(10, other);
    let mut ids: Vec<u128> = threads_listed(&s).threads.iter().map(|t| t.id).collect();
    ids.sort();
    assert_eq!(ids, vec![9, 10]);
}

#[test]
fn sessions_need_a_manager() {
    assert!(sessions_available(&gateway(true)).is_ok());
    for handler in [chat_history_handler, chat_threads_handler, chat_new_thread_handler] {
        assert_eq!(handler(&gateway(true)), Ok("alice".to_string()));
        assert_eq!(
            handler(&gateway(false)),
            Err(failure(StatusCode::ServiceUnavailable, "Session manager not available"))
        );
    }
    assert_eq!(
        sessions_available(&gateway(false)),
        Err(failure(StatusCode::ServiceUnavailable, "Session manager not available"))
    );
}
