use web_gateway::clock::Timestamp;
use web_gateway::memory::{
    directory_listed, document_read, document_written, memory_list_handler, memory_read_handler,
    memory_search_handler, memory_tree_handler, memory_write_handler, search_done, tree_listed,
    workspace_available, ListQuery, MemoryDocument, MemorySearchRequest, MemoryWriteRequest,
    ReadQuery, SearchResult, TreeQuery, WorkspaceEntry,
};
use web_gateway::reply::{Failure, StatusCode};
use web_gateway::state::GatewayState;

fn failure(status: StatusCode, message: &str) -> Failure {
    Failure { status, message: message.to_string() }
}

fn tree(paths: &[&str]) -> Vec<(String, bool)> {
    let all = paths.iter().map(|p| p.to_string()).collect();
    let response = tree_listed(Ok(all)).unwrap();
    response.entries.into_iter().map(|e| (e.path, e.is_dir)).collect()
}

fn entry(path: &str, is_dir: bool) -> (String, bool) {
    (path.to_string(), is_dir)
}

#[test]
fn the_tree_has_files_and_their_directories() {
    assert_eq!(
        tree(&["daily/2024/01.md", "MEMORY.md", "daily/2023.md"]),
        vec![
            entry("MEMORY.md", false),
            entry("daily", true),
            entry("daily/2023.md", false),
            entry("daily/2024", true),
            entry("daily/2024/01.md", false),
        ]
    );
}

#[test]
fn directories_stand_once_and_before_what_lies_below() {
    let t = tree(&["a/b/c", "a/b/d", "a/e", "a-z"]);
    assert_eq!(t.iter().filter(|e| e.1).count(), 2);
    assert_eq!(
        t,
        vec![
            entry("a", true),
            entry("a-z", false),
            entry("a/b", true),
            entry("a/b/c", false),
            entry("a/b/d", false),
            entry("a/e", false),
        ]
    );
}

#[test]
fn a_path_that_is_stored_twice_stands_twice() {
    assert_eq!(tree(&["x", "x"]), vec![entry("x", false), entry("x", false)]);
    assert_eq!(tree(&[]), vec![]);
}

#[test]
fn slashes_at_the_ends_of_paths_make_directories() {
    assert_eq!(tree(&["/a"]), vec![entry("", true), entry("/a", false)]);
    assert_eq!(tree(&["a/"]), vec![entry("a", true), entry("a/", false)]);
}

#[test]
fn entries_with_equal_paths_stay_in_the_order_they_came() {
    assert_eq!(
        tree(&["a", "a/b"]),
        vec![entry("a", false), entry("a", true), entry("a/b", false)]
    );
    assert_eq!(
        tree(&["a/b", "a"]),
        vec![entry("a", true), entry("a", false), entry("a/b", false)]
    );
}

#[test]
fn a_tree_that_cannot_be_listed_is_an_error() {
    assert_eq!(
        tree_listed(Err("gone".to_string())),
        Err(failure(StatusCode::InternalServerError, "gone"))
    );
}

#[test]
fn lists_name_entries_by_their_last_segment() {
    let found = vec![
        WorkspaceEntry {
            path: "daily/a.md".to_string(),
            is_directory: false,
            updated_at: Timestamp::new(0, 0),
        },
        WorkspaceEntry { path: "top".to_string(), is_directory: true, updated_at: None },
    ];
    let r = directory_listed("daily".to_string(), Ok(found)).unwrap();
    assert_eq!(r.path, "daily");
    assert_eq!(r.entries.len(), 2);
    assert_eq!(r.entries[0].name, "a.md");
    assert_eq!(r.entries[0].path, "daily/a.md");
    assert!(!r.entries[0].is_dir);
    assert_eq!(r.entries[0].updated_at, Some("1970-01-01T00:00:00+00:00".to_string()));
    assert_eq!(r.entries[1].name, "top");
    assert!(r.entries[1].is_dir);
    assert_eq!(r.entries[1].updated_at, None);
}

#[test]
fn lists_start_at_the_root() {
    let wanted = |path: Option<&str>| {
        let query = ListQuery { path: path.map(|p| p.to_string()) };
        memory_list_handler(&gateway(true), &query).unwrap()
    };
    assert_eq!(wanted(None), "");
    assert_eq!(wanted(Some("x")), "x");
    assert_eq!(directory_listed(String::new(), Ok(vec![])).unwrap().path, "");
    assert_eq!(
        directory_listed(String::new(), Err("e".to_string())),
        Err(failure(StatusCode::InternalServerError, "e"))
    );
}

#[test]
fn documents_are_read() {
    let query = ReadQuery { path: "p".to_string() };
    assert_eq!(memory_read_handler(&gateway(true), query), Ok("p".to_string()));
    let doc = MemoryDocument {
        content: "text".to_string(),
        updated_at: Timestamp::new(0, 0).unwrap(),
    };
    let r = document_read("p".to_string(), Ok(doc)).unwrap();
    assert_eq!(r.path, "p");
    assert_eq!(r.content, "text");
    assert_eq!(r.updated_at, Some("1970-01-01T00:00:00+00:00".to_string()));
    assert_eq!(
        document_read("p".to_string(), Err("no".to_string())),
        Err(failure(StatusCode::NotFound, "no"))
    );
}

#[test]
fn documents_are_written() {
    let req = MemoryWriteRequest { path: "p".to_string(), content: "c".to_string() };
    let call = memory_write_handler(&gateway(true), req).unwrap();
    assert_eq!((call.path.as_str(), call.content.as_str()), ("p", "c"));
    let r = document_written(call.path, Ok(())).unwrap();
    assert_eq!((r.path.as_str(), r.status), ("p", "written"));
    assert_eq!(
        document_written("p".to_string(), Err("full".to_string())),
        Err(failure(StatusCode::InternalServerError, "full"))
    );
}

#[test]
fn search_wants_ten_results_unless_told() {
    let call = |limit| {
        let req = MemorySearchRequest { query: "q".to_string(), limit };
        memory_search_handler(&gateway(true), req).unwrap()
    };
    assert_eq!(call(None).query, "q");
    assert_eq!(call(None).limit, 10);
    assert_eq!(call(Some(3)).limit, 3);
    assert_eq!(call(Some(0)).limit, 0);
}

#[test]
fn search_results_are_told_in_order() {
    let found = vec![
        SearchResult { document_id: 1, content: "a".to_string(), score_bits: 0.5f32.to_bits() },
        SearchResult { document_id: 2, content: "b".to_string(), score_bits: 0 },
    ];
    let r = search_done(Ok(found)).unwrap();
    assert_eq!(r.results[0].path, "00000000-0000-0000-0000-000000000001");
    assert_eq!(r.results[0].content, "a");
    assert_eq!(f32::from_bits(r.results[0].score_bits), 0.5);
    assert_eq!(r.results[1].content, "b");
    assert_eq!(
        search_done(Err("e".to_string())),
        Err(failure(StatusCode::InternalServerError, "e"))
    );
}

fn gateway(workspace: bool) -> GatewayState {
    GatewayState {
        msg_tx: false,
        workspace,
        session_manager: true,
        log_broadcaster: true,
        extension_manager: true,
        tool_registry: true,
        store: true,
        job_manager: true,
        prompt_queue: true,
        user_id: "u".to_string(),
        ws_tracker: None,
    }
}

#[test]
fn memory_needs_a_workspace() {
    let missing = Some(failure(StatusCode::ServiceUnavailable, "Workspace not available"));
    let state = gateway(false);
    assert_eq!(workspace_available(&state).err(), missing);
    assert_eq!(memory_tree_handler(&state, &TreeQuery { depth: None }).err(), missing);
    assert_eq!(memory_list_handler(&state, &ListQuery { path: None }).err(), missing);
    assert_eq!(memory_read_handler(&state, ReadQuery { path: "p".to_string() }).err(), missing);
    let req = MemoryWriteRequest { path: "p".to_string(), content: "c".to_string() };
    assert_eq!(memory_write_handler(&state, req).err(), missing);
    let req = MemorySearchRequest { query: "q".to_string(), limit: None };
    assert_eq!(memory_search_handler(&state, req).err(), missing);
    assert_eq!(workspace_available(&gateway(true)), Ok(()));
    assert_eq!(memory_tree_handler(&gateway(true), &TreeQuery { depth: Some(1) }), Ok(()));
}
