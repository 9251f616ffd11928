use web_gateway::routes::{
    routes, start_server, Access, ChannelError, Handler, Listening, Method,
};

#[test]
fn routes_have_distinct_paths_and_handlers() {
    let all = routes();
    assert_eq!(all.len(), 37);
    for (i, a) in all.iter().enumerate() {
        for b in &all[i + 1..] {
            assert_ne!(a.path, b.path);
            assert_ne!(a.handler, b.handler);
        }
    }
}

#[test]
fn the_api_is_protected() {
    for r in routes() {
        let api = r.path.starts_with("/api/") && r.path != "/api/health";
        assert_eq!(r.access == Access::Protected, api, "{}", r.path);
    }
}

#[test]
fn handlers_answer_on_their_paths() {
    let find = |path: &str| routes().into_iter().find(|r| r.path == path).unwrap();
    let r = find("/api/jobs/{id}/restart");
    assert_eq!((r.method, r.handler), (Method::Post, Handler::JobsRestart));
    let r = find("/api/jobs/summary");
    assert_eq!((r.method, r.handler), (Method::Get, Handler::JobsSummary));
    let r = find("/projects/{project_id}/{*path}");
    assert_eq!((r.method, r.handler), (Method::Get, Handler::ProjectFile));
    assert_eq!(r.access, Access::Public);
    let posts = routes().into_iter().filter(|r| r.method == Method::Post).count();
    assert_eq!(posts, 13);
}

#[test]
fn a_bound_gateway_serves_its_routes() {
    let bound = Listening::Bound { addr: "127.0.0.1:4321".to_string() };
    let server = start_server("127.0.0.1:0", bound).unwrap();
    assert_eq!(server.bound_addr, "127.0.0.1:4321");
    assert_eq!(server.routes, routes());
}

#[test]
fn a_gateway_that_cannot_listen_says_why() {
    let failed = |reason: &str| ChannelError::StartupFailed {
        name: "gateway".to_string(),
        reason: reason.to_string(),
    };
    let listening = Listening::Unbound { error: "in use".to_string() };
    assert_eq!(
        start_server("127.0.0.1:80", listening).err(),
        Some(failed("Failed to bind to 127.0.0.1:80: in use"))
    );
    let listening = Listening::Unnamed { error: "lost".to_string() };
    assert_eq!(
        start_server("127.0.0.1:80", listening).err(),
        Some(failed("Failed to get local addr: lost"))
    );
}
