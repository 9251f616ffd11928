use web_gateway::clock::Timestamp;
use web_gateway::files::{
    file_read, file_served, files_listed, job_files_list_handler, job_files_read_handler,
    list_guard, list_target, project_file_handler, project_index_handler,
    project_redirect_handler, project_target, read_guard, read_target, serve_guard, served_as,
    DirEntry, FilePathQuery,
};
use web_gateway::ids::id_text;
use web_gateway::jobs::SandboxJobRecord;
use web_gateway::path::{components_of, lies_within, name_of};
use web_gateway::reply::{Failure, StatusCode};
use web_gateway::state::GatewayState;

fn gateway(store: bool) -> GatewayState {
    GatewayState {
        msg_tx: true,
        workspace: true,
        session_manager: true,
        log_broadcaster: true,
        extension_manager: true,
        tool_registry: true,
        store,
        job_manager: true,
        prompt_queue: true,
        user_id: "alice".to_string(),
        ws_tracker: None,
    }
}

fn failure(status: StatusCode, message: &str) -> Failure {
    Failure { status, message: message.to_string() }
}

fn job() -> SandboxJobRecord {
    SandboxJobRecord {
        id: 1,
        task: "t".to_string(),
        status: "running".to_string(),
        user_id: "alice".to_string(),
        project_dir: "/work/demo".to_string(),
        success: None,
        failure_reason: None,
        created_at: Timestamp::new(0, 0).unwrap(),
        started_at: None,
        completed_at: None,
    }
}

fn query(path: Option<&str>) -> FilePathQuery {
    FilePathQuery { path: path.map(|p| p.to_string()) }
}

fn bytes(path: &str) -> Option<Vec<u8>> {
    Some(path.as_bytes().to_vec())
}

#[test]
fn file_requests_are_checked_in_order() {
    for handler in [job_files_list_handler, job_files_read_handler] {
        assert_eq!(
            handler(&gateway(false), "x"),
            Err(failure(StatusCode::ServiceUnavailable, "Database not available"))
        );
        assert_eq!(
            handler(&gateway(true), "x"),
            Err(failure(StatusCode::BadRequest, "Invalid job ID"))
        );
        assert_eq!(handler(&gateway(true), &id_text(6)), Ok(6));
    }
}

#[test]
fn directories_are_seen_from_the_project() {
    let t = list_target(Ok(Some(job())), &query(Some("src/bin"))).unwrap();
    assert_eq!(t.base, b"/work/demo");
    assert_eq!(t.target, b"/work/demo/src/bin");
    assert_eq!(t.path, "src/bin");
    let t = list_target(Ok(Some(job())), &query(None)).unwrap();
    assert_eq!(t.target, b"/work/demo/");
    assert_eq!(t.path, "");
    assert_eq!(
        list_target(Ok(None), &query(None)),
        Err(failure(StatusCode::NotFound, "Job not found"))
    );
    assert_eq!(
        list_target(Err("down".to_string()), &query(None)),
        Err(failure(StatusCode::InternalServerError, "down"))
    );
}

#[test]
fn files_to_read_have_to_be_named() {
    let t = read_target(Ok(Some(job())), &query(Some("/etc/passwd"))).unwrap();
    assert_eq!(t.base, b"/work/demo");
    assert_eq!(t.target, b"/etc/passwd");
    assert_eq!(
        read_target(Ok(Some(job())), &query(None)),
        Err(failure(StatusCode::BadRequest, "path parameter required"))
    );
    assert_eq!(
        read_target(Ok(None), &query(None)),
        Err(failure(StatusCode::NotFound, "Job not found"))
    );
    assert_eq!(
        read_target(Err("down".to_string()), &query(None)),
        Err(failure(StatusCode::InternalServerError, "down"))
    );
}

#[test]
fn only_what_lies_inside_passes_the_guard() {
    let forbidden = failure(StatusCode::Forbidden, "Forbidden");
    for guard in [list_guard, read_guard, serve_plain] {
        assert_eq!(
            guard(bytes("/work/demo/a"), bytes("/work/demo")),
            Ok(b"/work/demo/a".to_vec())
        );
        assert_eq!(guard(bytes("/work/demo"), bytes("/work/demo")), Ok(b"/work/demo".to_vec()));
        assert_eq!(guard(bytes("/etc/passwd"), bytes("/work/demo")), Err(forbidden.clone_text()));
        assert_eq!(guard(bytes("/work/demo2/a"), bytes("/work/demo")), Err(forbidden.clone_text()));
        assert_eq!(guard(bytes("/work"), bytes("/work/demo")), Err(forbidden.clone_text()));
    }
}

fn serve_plain(
    canonical: Option<Vec<u8>>,
    base_canonical: Option<Vec<u8>>,
) -> Result<Vec<u8>, Failure> {
    serve_guard(canonical, base_canonical, None, false)
}

trait CloneText {
    fn clone_text(&self) -> Failure;
}

impl CloneText for Failure {
    fn clone_text(&self) -> Failure {
        failure(self.status, &self.message)
    }
}

#[test]
fn what_is_missing_is_not_found() {
    let not_found = |text: &str| Err(failure(StatusCode::NotFound, text));
    assert_eq!(list_guard(None, None), not_found("Path not found"));
    assert_eq!(list_guard(bytes("/a"), None), not_found("Project dir not found"));
    assert_eq!(read_guard(None, bytes("/a")), not_found("File not found"));
    assert_eq!(read_guard(bytes("/a"), None), not_found("Project dir not found"));
    assert_eq!(serve_guard(None, None, None, false), not_found("Not found"));
    assert_eq!(serve_guard(bytes("/a"), None, None, false), not_found("Not found"));
    assert_eq!(serve_guard(None, bytes("/etc"), bytes("/p"), true), not_found("Not found"));
    assert_eq!(serve_guard(bytes("/etc/x"), None, bytes("/p"), true), not_found("Not found"));
}

fn found(name: &str, is_dir: Option<bool>) -> Result<DirEntry, String> {
    Ok(DirEntry { name: name.to_string(), is_dir })
}

#[test]
fn directories_stand_before_files() {
    let entries = vec![
        found("b.txt", Some(false)),
        found("src", Some(true)),
        found("a.txt", None),
        found("docs", Some(true)),
    ];
    let r = files_listed("", Some(entries)).unwrap();
    let told: Vec<(&str, &str, bool)> =
        r.entries.iter().map(|e| (e.name.as_str(), e.path.as_str(), e.is_dir)).collect();
    assert_eq!(
        told,
        vec![
            ("docs", "docs", true),
            ("src", "src", true),
            ("a.txt", "a.txt", false),
            ("b.txt", "b.txt", false),
        ]
    );
}

#[test]
fn entries_are_told_with_their_path() {
    let r = files_listed("src", Some(vec![found("main.rs", Some(false))])).unwrap();
    assert_eq!(r.entries[0].path, "src/main.rs");
    let r = files_listed("src/", Some(vec![found("main.rs", Some(false))])).unwrap();
    assert_eq!(r.entries[0].path, "src//main.rs");
}

#[test]
fn listing_ends_with_the_first_entry_that_cannot_be_read() {
    let entries = vec![found("a", None), Err("io".to_string()), found("b", None)];
    let r = files_listed("", Some(entries)).unwrap();
    assert_eq!(r.entries.len(), 1);
    assert_eq!(r.entries[0].name, "a");
    assert_eq!(
        files_listed("", None),
        Err(failure(StatusCode::NotFound, "Cannot read directory"))
    );
}

#[test]
fn files_are_read_under_the_path_that_was_asked_for() {
    let r = file_read("a.txt".to_string(), Some("text".to_string())).unwrap();
    assert_eq!((r.path.as_str(), r.content.as_str()), ("a.txt", "text"));
    assert_eq!(
        file_read("a.txt".to_string(), None),
        Err(failure(StatusCode::NotFound, "Cannot read file"))
    );
}

#[test]
fn projects_without_a_slash_are_redirected() {
    let r = project_redirect_handler("demo");
    assert_eq!(r.status, 308);
    assert_eq!(r.location, "/projects/demo/");
}

#[test]
fn projects_lie_in_the_home_directory() {
    let t = project_target(bytes("/home/alice"), "demo", "css/site.css");
    assert_eq!(t.projects, b"/home/alice/.ironclaw/projects");
    assert_eq!(t.target.base, b"/home/alice/.ironclaw/projects/demo");
    assert_eq!(t.target.target, b"/home/alice/.ironclaw/projects/demo/css/site.css");
    assert_eq!(
        name_of(&String::from_utf8(t.target.base).unwrap()),
        Some("demo".to_string())
    );
    let t = project_target(None, "demo", "index.html");
    assert_eq!(t.projects, b"./.ironclaw/projects");
    assert_eq!(t.target.base, b"./.ironclaw/projects/demo");
    assert_eq!(t.target.target, b"./.ironclaw/projects/demo/index.html");
}

#[test]
fn identifiers_with_a_root_or_two_dots_wander() {
    for id in ["..", "/etc", "/", "../..", "a/..", "a/../..", "a/../b", "../config", "..//"] {
        assert!(project_target(bytes("/h"), id, "x").wanders, "{}", id);
        assert!(project_file_handler(id, "x").wanders, "{}", id);
        assert!(project_index_handler(id).wanders, "{}", id);
    }
    let t = project_target(bytes("/h"), "/etc", "passwd");
    assert_eq!(t.target.base, b"/etc");
    assert_eq!(t.target.target, b"/etc/passwd");
    assert_eq!(t.projects, b"/h/.ironclaw/projects");
}

#[test]
fn other_identifiers_stay_inside() {
    for id in ["demo", ".", "a/b", "...", "..a", "a..", "", "\u{e9}", "a//b", ".a"] {
        let t = project_target(bytes("/h"), id, "x");
        assert!(!t.wanders, "{}", id);
        assert!(lies_within(&t.target.base, b"/h/.ironclaw/projects"), "{}", id);
        let base = String::from_utf8(t.target.base).unwrap();
        assert!(!base.split('/').any(|segment| segment == ".."), "{}", id);
    }
}

#[test]
fn wandering_projects_are_served_where_they_end_up_inside() {
    let projects = || bytes("/h/.ironclaw/projects");
    let served = |file: &str, base: &str| {
        serve_guard(bytes(file), bytes(base), projects(), true).map_err(|f| f.status.as_u16())
    };
    let file = "/h/.ironclaw/projects/b/index.html";
    assert_eq!(served(file, "/h/.ironclaw/projects/b"), Ok(file.as_bytes().to_vec()));
    assert_eq!(served(file, "/h/.ironclaw/projects"), Ok(file.as_bytes().to_vec()));
    assert_eq!(served("/h/.ironclaw/config.toml", "/h/.ironclaw"), Err(403));
    assert_eq!(served("/etc/passwd", "/etc"), Err(403));
    assert_eq!(served("/etc/passwd", "/h/.ironclaw/projects/b"), Err(403));
    assert_eq!(served("/h/.ironclaw/projects-old/x", "/h/.ironclaw/projects-old"), Err(403));
    assert_eq!(
        serve_guard(bytes("/etc/passwd"), bytes("/etc"), None, true),
        Err(failure(StatusCode::Forbidden, "Forbidden"))
    );
}

#[test]
fn projects_that_do_not_wander_may_be_links() {
    assert_eq!(
        serve_guard(bytes("/data/p/x"), bytes("/data/p"), bytes("/h/.ironclaw/projects"), false),
        Ok(b"/data/p/x".to_vec())
    );
}

#[test]
fn project_files_are_resolved_for_the_user_of_the_process() {
    let t = project_file_handler("demo", "a/b.js").target;
    let base = String::from_utf8(t.base).unwrap();
    assert!(base.ends_with("/.ironclaw/projects/demo"));
    assert_eq!(String::from_utf8(t.target).unwrap(), format!("{}/a/b.js", base));
    let home = dirs::home_dir().unwrap_or_else(|| ".".into());
    assert_eq!(base, format!("{}/.ironclaw/projects/demo", home.to_str().unwrap()));
    let t = project_index_handler("demo").target;
    assert_eq!(String::from_utf8(t.target).unwrap(), format!("{}/index.html", base));
}

#[test]
fn listed_files_are_read_under_their_paths() {
    for (listed, target) in [
        (None, "/work/demo/main.rs"),
        (Some("src"), "/work/demo/src/main.rs"),
        (Some("src/"), "/work/demo/src//main.rs"),
        (Some("/work/demo/src"), "/work/demo/src/main.rs"),
    ] {
        let directory = list_target(Ok(Some(job())), &query(listed)).unwrap();
        let entries = Some(vec![found("main.rs", Some(false))]);
        let path = files_listed(&directory.path, entries).unwrap().entries.remove(0).path;
        let t = read_target(Ok(Some(job())), &query(Some(&path))).unwrap();
        assert_eq!(t.target, target.as_bytes());
        let mut parts = components_of(&directory.target);
        parts.push(b"main.rs".to_vec());
        assert_eq!(components_of(&t.target), parts);
        let r = file_read(t.path, Some("text".to_string())).unwrap();
        assert_eq!((r.path, r.content.as_str()), (path, "text"));
    }
    let directory = bytes("/work/demo/src");
    assert!(list_guard(directory, bytes("/work/demo")).is_ok());
    assert!(read_guard(bytes("/work/demo/src/main.rs"), bytes("/work/demo")).is_ok());
}

#[test]
fn served_files_have_the_media_type_of_their_extension() {
    let kind = |path: &str| file_served(path, Some(vec![1, 2])).unwrap().content_type;
    assert_eq!(kind("/p/index.html"), "text/html");
    assert_eq!(kind("/p/site.css"), "text/css");
    assert_eq!(kind("/p/logo.png"), "image/png");
    assert_eq!(kind("/h/.ironclaw/projects/p/LICENSE"), "application/octet-stream");
    assert_eq!(kind("/p/.html"), "application/octet-stream");
    assert_eq!(kind("/p/x.unheard-of"), "application/octet-stream");
    assert_eq!(file_served("/p/index.html", Some(vec![1, 2])).unwrap().contents, vec![1, 2]);
    assert_eq!(
        file_served("/p/index.html", None),
        Err(failure(StatusCode::NotFound, "Not found"))
    );
    assert_eq!(served_as("a/b".to_string(), Some(vec![])).unwrap().content_type, "a/b");
}
