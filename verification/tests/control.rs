use web_gateway::control::{css_handler, gateway_status_handler, health_handler, js_handler};
use web_gateway::state::GatewayState;

fn gateway(ws_tracker: Option<u64>) -> GatewayState {
    GatewayState {
        msg_tx: true,
        workspace: true,
        session_manager: true,
        log_broadcaster: true,
        extension_manager: true,
        tool_registry: true,
        store: true,
        job_manager: true,
        prompt_queue: true,
        user_id: "alice".to_string(),
        ws_tracker,
    }
}

#[test]
fn the_gateway_is_healthy() {
    let h = health_handler();
    assert_eq!((h.status, h.channel), ("healthy", "gateway"));
}

#[test]
fn static_files_have_media_types() {
    assert_eq!(css_handler(), "text/css");
    assert_eq!(js_handler(), "application/javascript");
}

#[test]
fn connections_are_added_up() {
    let s = gateway_status_handler(&gateway(Some(3)), 4);
    assert_eq!((s.sse_connections, s.ws_connections, s.total_connections), (4, 3, 7));
    let s = gateway_status_handler(&gateway(None), 4);
    assert_eq!((s.sse_connections, s.ws_connections, s.total_connections), (4, 0, 4));
    let s = gateway_status_handler(&gateway(Some(1)), u64::MAX - 1);
    assert_eq!(s.total_connections, u64::MAX);
}
