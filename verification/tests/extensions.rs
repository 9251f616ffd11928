use web_gateway::chat::AuthResult;
use web_gateway::extensions::{
    activation_authenticated, activation_retried, activation_tried, extension_removed,
    extensions_activate_handler, extensions_available, extensions_install_handler,
    extensions_list_handler, extensions_listed, extensions_remove_handler,
    extensions_tools_handler, tools_listed, ActivateStep, ExtensionKind, InstallExtensionRequest,
    InstalledExtension, ToolDefinition,
};
use web_gateway::reply::{action_outcome, ActionResponse, Failure, StatusCode};
use web_gateway::state::GatewayState;

fn gateway(attached: bool) -> GatewayState {
    GatewayState {
        msg_tx: true,
        workspace: true,
        session_manager: true,
        log_broadcaster: true,
        extension_manager: attached,
        tool_registry: attached,
        store: true,
        job_manager: true,
        prompt_queue: true,
        user_id: "alice".to_string(),
        ws_tracker: None,
    }
}

fn failure(status: StatusCode, message: &str) -> Failure {
    Failure { status, message: message.to_string() }
}

#[test]
fn extensions_need_a_manager() {
    let missing = failure(
        StatusCode::NotImplemented,
        "Extension manager not available (secrets store required)",
    );
    assert_eq!(extensions_available(&gateway(true)), Ok(()));
    assert_eq!(extensions_list_handler(&gateway(true)), Ok(None));
    assert_eq!(extensions_list_handler(&gateway(false)).err().as_ref(), Some(&missing));
    assert_eq!(
        extensions_remove_handler(&gateway(true), "x".to_string()),
        Ok("x".to_string())
    );
    assert_eq!(
        extensions_remove_handler(&gateway(false), "x".to_string()).err().as_ref(),
        Some(&missing)
    );
    assert_eq!(
        extensions_activate_handler(&gateway(true), "x".to_string()),
        ActivateStep::Activate { name: "x".to_string() }
    );
    assert_eq!(extensions_available(&gateway(false)).err().as_ref(), Some(&missing));
    assert_eq!(
        extensions_activate_handler(&gateway(false), "x".to_string()),
        ActivateStep::Fail(missing)
    );
    assert_eq!(
        extensions_tools_handler(&gateway(false)),
        Err(failure(StatusCode::ServiceUnavailable, "Tool registry not available"))
    );
    assert_eq!(extensions_tools_handler(&gateway(true)), Ok(()));
}

#[test]
fn extensions_are_listed() {
    let ext = InstalledExtension {
        name: "notion".to_string(),
        kind: "mcp_server".to_string(),
        description: Some("notes".to_string()),
        url: None,
        authenticated: true,
        active: false,
        tools: vec!["search".to_string()],
    };
    let r = extensions_listed(Ok(vec![ext])).unwrap();
    assert_eq!(r.extensions.len(), 1);
    let e = &r.extensions[0];
    assert_eq!((e.name.as_str(), e.kind.as_str()), ("notion", "mcp_server"));
    assert_eq!(e.description, Some("notes".to_string()));
    assert_eq!(e.url, None);
    assert!(e.authenticated && !e.active);
    assert_eq!(e.tools, vec!["search".to_string()]);
    assert_eq!(
        extensions_listed(Err("down".to_string())),
        Err(failure(StatusCode::InternalServerError, "down"))
    );
}

#[test]
fn tools_are_listed_in_order() {
    let tool = |name: &str| ToolDefinition {
        name: name.to_string(),
        description: format!("does {}", name),
        parameters: serde_json::Value::Null,
    };
    let r = tools_listed(vec![tool("shell"), tool("http")]);
    assert_eq!(r.tools.len(), 2);
    assert_eq!(r.tools[0].name, "shell");
    assert_eq!(r.tools[1].description, "does http");
}

#[test]
fn known_kinds_are_passed_on() {
    for (text, kind) in [
        (Some("mcp_server"), Some(ExtensionKind::McpServer)),
        (Some("wasm_tool"), Some(ExtensionKind::WasmTool)),
        (Some("wasm_channel"), Some(ExtensionKind::WasmChannel)),
        (Some("other"), None),
        (None, None),
    ] {
        let req = InstallExtensionRequest {
            name: "x".to_string(),
            url: Some("u".to_string()),
            kind: text.map(|t: &str| t.to_string()),
        };
        let call = extensions_install_handler(&gateway(true), req).unwrap();
        assert_eq!(call.kind_hint, kind);
        assert_eq!(call.name, "x");
        assert_eq!(call.url, Some("u".to_string()));
    }
    let req = InstallExtensionRequest { name: "x".to_string(), url: None, kind: None };
    assert_eq!(
        extensions_install_handler(&gateway(false), req).err().map(|f| f.status.as_u16()),
        Some(501)
    );
}

#[test]
fn outcomes_are_passed_on() {
    for handler in [action_outcome, extension_removed, activation_retried] {
        assert_eq!(handler(Ok("done".to_string())), ActionResponse::ok("done".to_string()));
        assert_eq!(handler(Err("no".to_string())), ActionResponse::fail("no".to_string()));
    }
}

#[test]
fn errors_that_speak_of_authentication_lead_to_it() {
    let tried = |result| activation_tried("notion".to_string(), result);
    for error in ["authentication required", "HTTP 401", "Unauthorized: no"] {
        assert_eq!(
            tried(Err(error.to_string())),
            ActivateStep::Authenticate { name: "notion".to_string() }
        );
    }
    for error in ["timeout", "unauthorized", "Authentication", ""] {
        assert_eq!(
            tried(Err(error.to_string())),
            ActivateStep::Reply(ActionResponse::fail(error.to_string()))
        );
    }
    assert_eq!(
        tried(Ok("on".to_string())),
        ActivateStep::Reply(ActionResponse::ok("on".to_string()))
    );
}

fn auth(status: &str, instructions: Option<&str>) -> AuthResult {
    AuthResult {
        status: status.to_string(),
        instructions: instructions.map(|s| s.to_string()),
        auth_url: Some("https://auth".to_string()),
        setup_url: None,
        awaiting_token: false,
    }
}

#[test]
fn authenticated_extensions_are_tried_again() {
    assert_eq!(
        activation_authenticated("notion".to_string(), Ok(auth("authenticated", None))),
        ActivateStep::Retry { name: "notion".to_string() }
    );
    assert_eq!(
        activation_authenticated("notion".to_string(), Err("down".to_string())),
        ActivateStep::Reply(ActionResponse::fail("Authentication failed: down".to_string()))
    );
}

#[test]
fn pending_authentication_is_explained() {
    match activation_authenticated("notion".to_string(), Ok(auth("pending", None))) {
        ActivateStep::Reply(r) => {
            assert!(!r.success);
            assert_eq!(r.message, "'notion' requires authentication.");
            assert_eq!(r.auth_url, Some("https://auth".to_string()));
            assert_eq!(r.awaiting_token, Some(false));
            assert_eq!(r.instructions, None);
        }
        other => panic!("{:?}", other),
    }
    match activation_authenticated("notion".to_string(), Ok(auth("pending", Some("click")))) {
        ActivateStep::Reply(r) => {
            assert!(!r.success);
            assert_eq!(r.message, "click");
            assert_eq!(r.instructions, Some("click".to_string()));
        }
        other => panic!("{:?}", other),
    }
}
