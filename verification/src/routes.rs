//! The routes of the gateway, and how it starts to listen.

use vstd::prelude::*;
use crate::text::{joined, joined3};

verus! {

/// The HTTP methods that routes take.
#[derive(Clone, Copy, Debug, PartialEq, Eq, Structural)]
pub enum Method {
    Get,
    Post,
}

/// Who may use a route.
#[derive(Clone, Copy, Debug, PartialEq, Eq, Structural)]
pub enum Access {
    /// Anyone.
    Public,
    /// Only those who send the token of the gateway.
    Protected,
}

/// What answers on a route.
#[derive(Clone, Copy, Debug, PartialEq, Eq, Structural)]
pub enum Handler {
    Health,
    Index,
    Css,
    Js,
    ProjectRedirect,
    ProjectIndex,
    ProjectFile,
    ChatSend,
    ChatApproval,
    ChatAuthToken,
    ChatAuthCancel,
    ChatEvents,
    ChatWs,
    ChatHistory,
    ChatThreads,
    ChatNewThread,
    MemoryTree,
    MemoryList,
    MemoryRead,
    MemoryWrite,
    MemorySearch,
    JobsList,
    JobsSummary,
    JobsDetail,
    JobsCancel,
    JobsRestart,
    JobsPrompt,
    JobsEvents,
    JobFilesList,
    JobFilesRead,
    LogsEvents,
    ExtensionsList,
    ExtensionsTools,
    ExtensionsInstall,
    ExtensionsActivate,
    ExtensionsRemove,
    GatewayStatus,
}

impl Handler {
    /// The method of the route.
    pub open spec fn method(self) -> Method {
        match self {
            Handler::ChatSend
            | Handler::ChatApproval
            | Handler::ChatAuthToken
            | Handler::ChatAuthCancel
            | Handler::ChatNewThread
            | Handler::MemoryWrite
            | Handler::MemorySearch
            | Handler::JobsCancel
            | Handler::JobsRestart
            | Handler::JobsPrompt
            | Handler::ExtensionsInstall
            | Handler::ExtensionsActivate
            | Handler::ExtensionsRemove => Method::Post,
            _ => Method::Get,
        }
    }

    /// The path of the route, with names in braces for the parts that vary.
    pub open spec fn path(self) -> Seq<char> {
        match self {
            Handler::Health => "/api/health"@,
            Handler::Index => "/"@,
            Handler::Css => "/style.css"@,
            Handler::Js => "/app.js"@,
            Handler::ProjectRedirect => "/projects/{project_id}"@,
            Handler::ProjectIndex => "/projects/{project_id}/"@,
            Handler::ProjectFile => "/projects/{project_id}/{*path}"@,
            Handler::ChatSend => "/api/chat/send"@,
            Handler::ChatApproval => "/api/chat/approval"@,
            Handler::ChatAuthToken => "/api/chat/auth-token"@,
            Handler::ChatAuthCancel => "/api/chat/auth-cancel"@,
            Handler::ChatEvents => "/api/chat/events"@,
            Handler::ChatWs => "/api/chat/ws"@,
            Handler::ChatHistory => "/api/chat/history"@,
            Handler::ChatThreads => "/api/chat/threads"@,
            Handler::ChatNewThread => "/api/chat/thread/new"@,
            Handler::MemoryTree => "/api/memory/tree"@,
            Handler::MemoryList => "/api/memory/list"@,
            Handler::MemoryRead => "/api/memory/read"@,
            Handler::MemoryWrite => "/api/memory/write"@,
            Handler::MemorySearch => "/api/memory/search"@,
            Handler::JobsList => "/api/jobs"@,
            Handler::JobsSummary => "/api/jobs/summary"@,
            Handler::JobsDetail => "/api/jobs/{id}"@,
            Handler::JobsCancel => "/api/jobs/{id}/cancel"@,
            Handler::JobsRestart => "/api/jobs/{id}/restart"@,
            Handler::JobsPrompt => "/api/jobs/{id}/prompt"@,
            Handler::JobsEvents => "/api/jobs/{id}/events"@,
            Handler::JobFilesList => "/api/jobs/{id}/files/list"@,
            Handler::JobFilesRead => "/api/jobs/{id}/files/read"@,
            Handler::LogsEvents => "/api/logs/events"@,
            Handler::ExtensionsList => "/api/extensions"@,
            Handler::ExtensionsTools => "/api/extensions/tools"@,
            Handler::ExtensionsInstall => "/api/extensions/install"@,
            Handler::ExtensionsActivate => "/api/extensions/{name}/activate"@,
            Handler::ExtensionsRemove => "/api/extensions/{name}/remove"@,
            Handler::GatewayStatus => "/api/gateway/status"@,
        }
    }

    /// Who may use the route: the API is for those who send the token, but for the question
    /// whether the gateway is up; static files and the files of projects are for anyone.
    pub open spec fn access(self) -> Access {
        match self {
            Handler::Health
            | Handler::Index
            | Handler::Css
            | Handler::Js
            | Handler::ProjectRedirect
            | Handler::ProjectIndex
            | Handler::ProjectFile => Access::Public,
            _ => Access::Protected,
        }
    }

    /// The place of the route among all routes.
    pub open spec fn place(self) -> int {
        match self {
            Handler::Health => 0,
            Handler::Index => 1,
            Handler::Css => 2,
            Handler::Js => 3,
            Handler::ProjectRedirect => 4,
            Handler::ProjectIndex => 5,
            Handler::ProjectFile => 6,
            Handler::ChatSend => 7,
            Handler::ChatApproval => 8,
            Handler::ChatAuthToken => 9,
            Handler::ChatAuthCancel => 10,
            Handler::ChatEvents => 11,
            Handler::ChatWs => 12,
            Handler::ChatHistory => 13,
            Handler::ChatThreads => 14,
            Handler::ChatNewThread => 15,
            Handler::MemoryTree => 16,
            Handler::MemoryList => 17,
            Handler::MemoryRead => 18,
            Handler::MemoryWrite => 19,
            Handler::MemorySearch => 20,
            Handler::JobsList => 21,
            Handler::JobsSummary => 22,
            Handler::JobsDetail => 23,
            Handler::JobsCancel => 24,
            Handler::JobsRestart => 25,
            Handler::JobsPrompt => 26,
            Handler::JobsEvents => 27,
            Handler::JobFilesList => 28,
            Handler::JobFilesRead => 29,
            Handler::LogsEvents => 30,
            Handler::ExtensionsList => 31,
            Handler::ExtensionsTools => 32,
            Handler::ExtensionsInstall => 33,
            Handler::ExtensionsActivate => 34,
            Handler::ExtensionsRemove => 35,
            Handler::GatewayStatus => 36,
        }
    }
}

/// A route: what answers a method on a path, and for whom.
#[derive(Clone, Copy, Debug, PartialEq, Eq)]
pub struct Route {
    pub method: Method,
    pub path: &'static str,
    pub access: Access,
    pub handler: Handler,
}

impl Route {
    /// Whether this is the route of a handler.
    pub open spec fn serves(self, handler: Handler) -> bool {
        &&& self.method == handler.method()
        &&& self.path@ == handler.path()
        &&& self.access == handler.access()
        &&& self.handler == handler
    }
}

fn public_get(path: &'static str, handler: Handler) -> (r: Route)
    requires
        handler.method() == Method::Get,
        handler.path() == path@,
        handler.access() == Access::Public,
    ensures
        r.serves(handler),
{
    Route { method: Method::Get, path, access: Access::Public, handler }
}

fn get(path: &'static str, handler: Handler) -> (r: Route)
    requires
        handler.method() == Method::Get,
        handler.path() == path@,
        handler.access() == Access::Protected,
    ensures
        r.serves(handler),
{
    Route { method: Method::Get, path, access: Access::Protected, handler }
}

fn post(path: &'static str, handler: Handler) -> (r: Route)
    requires
        handler.method() == Method::Post,
        handler.path() == path@,
        handler.access() == Access::Protected,
    ensures
        r.serves(handler),
{
    Route { method: Method::Post, path, access: Access::Protected, handler }
}

/// The routes: one for each handler, and no other.
pub fn routes() -> (r: Vec<Route>)
    ensures
        r@.len() == 37,
        forall|handler: Handler| (#[trigger] r@[handler.place()]).serves(handler),
{
    vec![
        public_get("/api/health", Handler::Health),
        public_get("/", Handler::Index),
        public_get("/style.css", Handler::Css),
        public_get("/app.js", Handler::Js),
        public_get("/projects/{project_id}", Handler::ProjectRedirect),
        public_get("/projects/{project_id}/", Handler::ProjectIndex),
        public_get("/projects/{project_id}/{*path}", Handler::ProjectFile),
        post("/api/chat/send", Handler::ChatSend),
        post("/api/chat/approval", Handler::ChatApproval),
        post("/api/chat/auth-token", Handler::ChatAuthToken),
        post("/api/chat/auth-cancel", Handler::ChatAuthCancel),
        get("/api/chat/events", Handler::ChatEvents),
        get("/api/chat/ws", Handler::ChatWs),
        get("/api/chat/history", Handler::ChatHistory),
        get("/api/chat/threads", Handler::ChatThreads),
        post("/api/chat/thread/new", Handler::ChatNewThread),
        get("/api/memory/tree", Handler::MemoryTree),
        get("/api/memory/list", Handler::MemoryList),
        get("/api/memory/read", Handler::MemoryRead),
        post("/api/memory/write", Handler::MemoryWrite),
        post("/api/memory/search", Handler::MemorySearch),
        get("/api/jobs", Handler::JobsList),
        get("/api/jobs/summary", Handler::JobsSummary),
        get("/api/jobs/{id}", Handler::JobsDetail),
        post("/api/jobs/{id}/cancel", Handler::JobsCancel),
        post("/api/jobs/{id}/restart", Handler::JobsRestart),
        post("/api/jobs/{id}/prompt", Handler::JobsPrompt),
        get("/api/jobs/{id}/events", Handler::JobsEvents),
        get("/api/jobs/{id}/files/list", Handler::JobFilesList),
        get("/api/jobs/{id}/files/read", Handler::JobFilesRead),
        get("/api/logs/events", Handler::LogsEvents),
        get("/api/extensions", Handler::ExtensionsList),
        get("/api/extensions/tools", Handler::ExtensionsTools),
        post("/api/extensions/install", Handler::ExtensionsInstall),
        post("/api/extensions/{name}/activate", Handler::ExtensionsActivate),
        post("/api/extensions/{name}/remove", Handler::ExtensionsRemove),
        get("/api/gateway/status", Handler::GatewayStatus),
    ]
}

/// Every handler has a place among the routes, every place belongs to a handler, and no
/// handler has two.
pub proof fn law_one_route_for_each_handler(routes: Seq<Route>, i: int, j: int)
    requires
        routes.len() == 37,
        forall|handler: Handler| (#[trigger] routes[handler.place()]).serves(handler),
        0 <= i < 37,
        0 <= j < 37,
    ensures
        forall|handler: Handler| 0 <= #[trigger] handler.place() < 37,
        routes[i].serves(routes[i].handler),
        routes[i].handler.place() == i,
        routes[i].handler == routes[j].handler ==> i == j,
{
    lemma_place_taken(routes, i);
    lemma_place_taken(routes, j);
}

proof fn lemma_place_taken(routes: Seq<Route>, i: int)
    requires
        forall|handler: Handler| (#[trigger] routes[handler.place()]).serves(handler),
        0 <= i < 37,
    ensures
        routes[i].serves(routes[i].handler),
        routes[i].handler.place() == i,
{
    assert(routes[Handler::Health.place()].serves(Handler::Health));
    assert(routes[Handler::Index.place()].serves(Handler::Index));
    assert(routes[Handler::Css.place()].serves(Handler::Css));
    assert(routes[Handler::Js.place()].serves(Handler::Js));
    assert(routes[Handler::ProjectRedirect.place()].serves(Handler::ProjectRedirect));
    assert(routes[Handler::ProjectIndex.place()].serves(Handler::ProjectIndex));
    assert(routes[Handler::ProjectFile.place()].serves(Handler::ProjectFile));
    assert(routes[Handler::ChatSend.place()].serves(Handler::ChatSend));
    assert(routes[Handler::ChatApproval.place()].serves(Handler::ChatApproval));
    assert(routes[Handler::ChatAuthToken.place()].serves(Handler::ChatAuthToken));
    assert(routes[Handler::ChatAuthCancel.place()].serves(Handler::ChatAuthCancel));
    assert(routes[Handler::ChatEvents.place()].serves(Handler::ChatEvents));
    assert(routes[Handler::ChatWs.place()].serves(Handler::ChatWs));
    assert(routes[Handler::ChatHistory.place()].serves(Handler::ChatHistory));
    assert(routes[Handler::ChatThreads.place()].serves(Handler::ChatThreads));
    assert(routes[Handler::ChatNewThread.place()].serves(Handler::ChatNewThread));
    assert(routes[Handler::MemoryTree.place()].serves(Handler::MemoryTree));
    assert(routes[Handler::MemoryList.place()].serves(Handler::MemoryList));
    assert(routes[Handler::MemoryRead.place()].serves(Handler::MemoryRead));
    assert(routes[Handler::MemoryWrite.place()].serves(Handler::MemoryWrite));
    assert(routes[Handler::MemorySearch.place()].serves(Handler::MemorySearch));
    assert(routes[Handler::JobsList.place()].serves(Handler::JobsList));
    assert(routes[Handler::JobsSummary.place()].serves(Handler::JobsSummary));
    assert(routes[Handler::JobsDetail.place()].serves(Handler::JobsDetail));
    assert(routes[Handler::JobsCancel.place()].serves(Handler::JobsCancel));
    assert(routes[Handler::JobsRestart.place()].serves(Handler::JobsRestart));
    assert(routes[Handler::JobsPrompt.place()].serves(Handler::JobsPrompt));
    assert(routes[Handler::JobsEvents.place()].serves(Handler::JobsEvents));
    assert(routes[Handler::JobFilesList.place()].serves(Handler::JobFilesList));
    assert(routes[Handler::JobFilesRead.place()].serves(Handler::JobFilesRead));
    assert(routes[Handler::LogsEvents.place()].serves(Handler::LogsEvents));
    assert(routes[Handler::ExtensionsList.place()].serves(Handler::ExtensionsList));
    assert(routes[Handler::ExtensionsTools.place()].serves(Handler::ExtensionsTools));
    assert(routes[Handler::ExtensionsInstall.place()].serves(Handler::ExtensionsInstall));
    assert(routes[Handler::ExtensionsActivate.place()].serves(Handler::ExtensionsActivate));
    assert(routes[Handler::ExtensionsRemove.place()].serves(Handler::ExtensionsRemove));
    assert(routes[Handler::GatewayStatus.place()].serves(Handler::GatewayStatus));
}

/// What makes one path differ from another: its length, its last character and the ninth
/// from its end.
spec fn mark(path: Seq<char>) -> (nat, char, char) {
    (
        path.len(),
        path.last(),
        if path.len() >= 9 {
            path[path.len() - 9]
        } else {
            ' '
        },
    )
}

proof fn lemma_path_mark(handler: Handler)
    ensures
        handler.path().len() > 0,
        mark(handler.path()) == match handler {
            Handler::Health => (11nat, 'h', 'p'),
            Handler::Index => (1nat, '/', ' '),
            Handler::Css => (10nat, 's', 's'),
            Handler::Js => (7nat, 's', ' '),
            Handler::ProjectRedirect => (22nat, '}', 'o'),
            Handler::ProjectIndex => (23nat, '/', 'j'),
            Handler::ProjectFile => (30nat, '}', '}'),
            Handler::ChatSend => (14nat, 'd', 'c'),
            Handler::ChatApproval => (18nat, 'l', '/'),
            Handler::ChatAuthToken => (20nat, 'n', 'u'),
            Handler::ChatAuthCancel => (21nat, 'l', 't'),
            Handler::ChatEvents => (16nat, 's', 'a'),
            Handler::ChatWs => (12nat, 's', 'i'),
            Handler::ChatHistory => (17nat, 'y', 't'),
            Handler::ChatThreads => (17nat, 's', 't'),
            Handler::ChatNewThread => (20nat, 'w', 'h'),
            Handler::MemoryTree => (16nat, 'e', 'm'),
            Handler::MemoryList => (16nat, 't', 'm'),
            Handler::MemoryRead => (16nat, 'd', 'm'),
            Handler::MemoryWrite => (17nat, 'e', 'o'),
            Handler::MemorySearch => (18nat, 'h', 'r'),
            Handler::JobsList => (9nat, 's', '/'),
            Handler::JobsSummary => (17nat, 'y', 's'),
            Handler::JobsDetail => (14nat, '}', 'j'),
            Handler::JobsCancel => (21nat, 'l', 'd'),
            Handler::JobsRestart => (22nat, 't', '}'),
            Handler::JobsPrompt => (21nat, 't', 'd'),
            Handler::JobsEvents => (21nat, 's', 'd'),
            Handler::JobFilesList => (25nat, 't', 'i'),
            Handler::JobFilesRead => (25nat, 'd', 'i'),
            Handler::LogsEvents => (16nat, 's', 'g'),
            Handler::ExtensionsList => (15nat, 's', 'x'),
            Handler::ExtensionsTools => (21nat, 's', 'o'),
            Handler::ExtensionsInstall => (23nat, 'l', 's'),
            Handler::ExtensionsActivate => (31nat, 'e', '/'),
            Handler::ExtensionsRemove => (29nat, 'e', 'e'),
            Handler::GatewayStatus => (19nat, 's', 'a'),
        },
{
    match handler {
        Handler::Health => {
            reveal_strlit("/api/health");
        },
        Handler::Index => {
            reveal_strlit("/");
        },
        Handler::Css => {
            reveal_strlit("/style.css");
        },
        Handler::Js => {
            reveal_strlit("/app.js");
        },
        Handler::ProjectRedirect => {
            reveal_strlit("/projects/{project_id}");
        },
        Handler::ProjectIndex => {
            reveal_strlit("/projects/{project_id}/");
        },
        Handler::ProjectFile => {
            reveal_strlit("/projects/{project_id}/{*path}");
        },
        Handler::ChatSend => {
            reveal_strlit("/api/chat/send");
        },
        Handler::ChatApproval => {
            reveal_strlit("/api/chat/approval");
        },
        Handler::ChatAuthToken => {
            reveal_strlit("/api/chat/auth-token");
        },
        Handler::ChatAuthCancel => {
            reveal_strlit("/api/chat/auth-cancel");
        },
        Handler::ChatEvents => {
            reveal_strlit("/api/chat/events");
        },
        Handler::ChatWs => {
            reveal_strlit("/api/chat/ws");
        },
        Handler::ChatHistory => {
            reveal_strlit("/api/chat/history");
        },
        Handler::ChatThreads => {
            reveal_strlit("/api/chat/threads");
        },
        Handler::ChatNewThread => {
            reveal_strlit("/api/chat/thread/new");
        },
        Handler::MemoryTree => {
            reveal_strlit("/api/memory/tree");
        },
        Handler::MemoryList => {
            reveal_strlit("/api/memory/list");
        },
        Handler::MemoryRead => {
            reveal_strlit("/api/memory/read");
        },
        Handler::MemoryWrite => {
            reveal_strlit("/api/memory/write");
        },
        Handler::MemorySearch => {
            reveal_strlit("/api/memory/search");
        },
        Handler::JobsList => {
            reveal_strlit("/api/jobs");
        },
        Handler::JobsSummary => {
            reveal_strlit("/api/jobs/summary");
        },
        Handler::JobsDetail => {
            reveal_strlit("/api/jobs/{id}");
        },
        Handler::JobsCancel => {
            reveal_strlit("/api/jobs/{id}/cancel");
        },
        Handler::JobsRestart => {
            reveal_strlit("/api/jobs/{id}/restart");
        },
        Handler::JobsPrompt => {
            reveal_strlit("/api/jobs/{id}/prompt");
        },
        Handler::JobsEvents => {
            reveal_strlit("/api/jobs/{id}/events");
        },
        Handler::JobFilesList => {
            reveal_strlit("/api/jobs/{id}/files/list");
        },
        Handler::JobFilesRead => {
            reveal_strlit("/api/jobs/{id}/files/read");
        },
        Handler::LogsEvents => {
            reveal_strlit("/api/logs/events");
        },
        Handler::ExtensionsList => {
            reveal_strlit("/api/extensions");
        },
        Handler::ExtensionsTools => {
            reveal_strlit("/api/extensions/tools");
        },
        Handler::ExtensionsInstall => {
            reveal_strlit("/api/extensions/install");
        },
        Handler::ExtensionsActivate => {
            reveal_strlit("/api/extensions/{name}/activate");
        },
        Handler::ExtensionsRemove => {
            reveal_strlit("/api/extensions/{name}/remove");
        },
        Handler::GatewayStatus => {
            reveal_strlit("/api/gateway/status");
        },
    }
}

/// No two routes share a path.
pub proof fn law_paths_are_distinct(a: Handler, b: Handler)
    requires
        a.path() == b.path(),
    ensures
        a == b,
{
    lemma_path_mark(a);
    lemma_path_mark(b);
}

/// Every path under `/api/` is for those who send the token, but for `/api/health`, and
/// every other path is for anyone.
pub proof fn law_api_is_protected(handler: Handler)
    ensures
        handler.access() == Access::Protected <==> "/api/"@.is_prefix_of(handler.path())
            && handler.path() != "/api/health"@,
{
    reveal_strlit("/api/");
    reveal_strlit("/api/health");
    let path = handler.path();
    match handler {
        Handler::Health => {
            reveal_strlit("/api/health");
        },
        Handler::Index => {
            reveal_strlit("/");
        },
        Handler::Css => {
            reveal_strlit("/style.css");
            if "/api/"@.is_prefix_of(path) {
                assert("/api/"@[1] == path.subrange(0, 5)[1]);
            }
        },
        Handler::Js => {
            reveal_strlit("/app.js");
            if "/api/"@.is_prefix_of(path) {
                assert("/api/"@[3] == path.subrange(0, 5)[3]);
            }
        },
        Handler::ProjectRedirect => {
            reveal_strlit("/projects/{project_id}");
            if "/api/"@.is_prefix_of(path) {
                assert("/api/"@[1] == path.subrange(0, 5)[1]);
            }
        },
        Handler::ProjectIndex => {
            reveal_strlit("/projects/{project_id}/");
            if "/api/"@.is_prefix_of(path) {
                assert("/api/"@[1] == path.subrange(0, 5)[1]);
            }
        },
        Handler::ProjectFile => {
            reveal_strlit("/projects/{project_id}/{*path}");
            if "/api/"@.is_prefix_of(path) {
                assert("/api/"@[1] == path.subrange(0, 5)[1]);
            }
        },
        Handler::ChatSend => {
            reveal_strlit("/api/chat/send");
            assert("/api/"@ =~= path.subrange(0, 5));
        },
        Handler::ChatApproval => {
            reveal_strlit("/api/chat/approval");
            assert("/api/"@ =~= path.subrange(0, 5));
        },
        Handler::ChatAuthToken => {
            reveal_strlit("/api/chat/auth-token");
            assert("/api/"@ =~= path.subrange(0, 5));
        },
        Handler::ChatAuthCancel => {
            reveal_strlit("/api/chat/auth-cancel");
            assert("/api/"@ =~= path.subrange(0, 5));
        },
        Handler::ChatEvents => {
            reveal_strlit("/api/chat/events");
            assert("/api/"@ =~= path.subrange(0, 5));
        },
        Handler::ChatWs => {
            reveal_strlit("/api/chat/ws");
            assert("/api/"@ =~= path.subrange(0, 5));
        },
        Handler::ChatHistory => {
            reveal_strlit("/api/chat/history");
            assert("/api/"@ =~= path.subrange(0, 5));
        },
        Handler::ChatThreads => {
            reveal_strlit("/api/chat/threads");
            assert("/api/"@ =~= path.subrange(0, 5));
        },
        Handler::ChatNewThread => {
            reveal_strlit("/api/chat/thread/new");
            assert("/api/"@ =~= path.subrange(0, 5));
        },
        Handler::MemoryTree => {
            reveal_strlit("/api/memory/tree");
            assert("/api/"@ =~= path.subrange(0, 5));
        },
        Handler::MemoryList => {
            reveal_strlit("/api/memory/list");
            assert("/api/"@ =~= path.subrange(0, 5));
        },
        Handler::MemoryRead => {
            reveal_strlit("/api/memory/read");
            assert("/api/"@ =~= path.subrange(0, 5));
        },
        Handler::MemoryWrite => {
            reveal_strlit("/api/memory/write");
            assert("/api/"@ =~= path.subrange(0, 5));
        },
        Handler::MemorySearch => {
            reveal_strlit("/api/memory/search");
            assert("/api/"@ =~= path.subrange(0, 5));
        },
        Handler::JobsList => {
            reveal_strlit("/api/jobs");
            assert("/api/"@ =~= path.subrange(0, 5));
        },
        Handler::JobsSummary => {
            reveal_strlit("/api/jobs/summary");
            assert("/api/"@ =~= path.subrange(0, 5));
        },
        Handler::JobsDetail => {
            reveal_strlit("/api/jobs/{id}");
            assert("/api/"@ =~= path.subrange(0, 5));
        },
        Handler::JobsCancel => {
            reveal_strlit("/api/jobs/{id}/cancel");
            assert("/api/"@ =~= path.subrange(0, 5));
        },
        Handler::JobsRestart => {
            reveal_strlit("/api/jobs/{id}/restart");
            assert("/api/"@ =~= path.subrange(0, 5));
        },
        Handler::JobsPrompt => {
            reveal_strlit("/api/jobs/{id}/prompt");
            assert("/api/"@ =~= path.subrange(0, 5));
        },
        Handler::JobsEvents => {
            reveal_strlit("/api/jobs/{id}/events");
            assert("/api/"@ =~= path.subrange(0, 5));
        },
        Handler::JobFilesList => {
            reveal_strlit("/api/jobs/{id}/files/list");
            assert("/api/"@ =~= path.subrange(0, 5));
        },
        Handler::JobFilesRead => {
            reveal_strlit("/api/jobs/{id}/files/read");
            assert("/api/"@ =~= path.subrange(0, 5));
        },
        Handler::LogsEvents => {
            reveal_strlit("/api/logs/events");
            assert("/api/"@ =~= path.subrange(0, 5));
        },
        Handler::ExtensionsList => {
            reveal_strlit("/api/extensions");
            assert("/api/"@ =~= path.subrange(0, 5));
        },
        Handler::ExtensionsTools => {
            reveal_strlit("/api/extensions/tools");
            assert("/api/"@ =~= path.subrange(0, 5));
        },
        Handler::ExtensionsInstall => {
            reveal_strlit("/api/extensions/install");
            assert("/api/"@ =~= path.subrange(0, 5));
        },
        Handler::ExtensionsActivate => {
            reveal_strlit("/api/extensions/{name}/activate");
            assert("/api/"@ =~= path.subrange(0, 5));
        },
        Handler::ExtensionsRemove => {
            reveal_strlit("/api/extensions/{name}/remove");
            assert("/api/"@ =~= path.subrange(0, 5));
        },
        Handler::GatewayStatus => {
            reveal_strlit("/api/gateway/status");
            assert("/api/"@ =~= path.subrange(0, 5));
        },
    }
}

/// How the attempt to listen on an address went.
#[derive(Debug)]
pub enum Listening {
    /// The address could not be bound.
    Unbound { error: String },
    /// The address was bound, but nobody can say to which one it came out.
    Unnamed { error: String },
    /// The gateway listens on this address.
    Bound { addr: String },
}

/// Why a channel could not start.
#[derive(Debug, PartialEq, Eq)]
pub enum ChannelError {
    StartupFailed { name: String, reason: String },
}

impl ChannelError {
    /// Whether the gateway could not start for this reason.
    pub open spec fn gateway_failed(self, text: Seq<char>) -> bool {
        match self {
            ChannelError::StartupFailed { name, reason } => name@ == "gateway"@ && reason@ == text,
        }
    }
}

/// A gateway that listens: where it does, and what it answers on.
#[derive(Debug)]
pub struct Server {
    pub bound_addr: String,
    pub routes: Vec<Route>,
}

/// Start the gateway HTTP server on an address, once the attempt to listen there was made.
/// The bound address is the actual one (useful when binding to port 0).
pub fn start_server(addr: &str, listening: Listening) -> (r: Result<Server, ChannelError>)
    ensures
        match listening {
            Listening::Unbound { error } => r matches Err(e) && e.gateway_failed(
                "Failed to bind to "@ + addr@ + ": "@ + error@,
            ),
            Listening::Unnamed { error } => r matches Err(e) && e.gateway_failed(
                "Failed to get local addr: "@ + error@,
            ),
            Listening::Bound { addr } => {
                &&& r is Ok
                &&& r->Ok_0.bound_addr@ == addr@
                &&& r->Ok_0.routes@.len() == 37
                &&& forall|handler: Handler|
                    (#[trigger] r->Ok_0.routes@[handler.place()]).serves(handler)
            },
        },
{
    let reason = match listening {
        Listening::Bound { addr } => {
            return Ok(Server { bound_addr: addr, routes: routes() });
        },
        Listening::Unbound { error } => joined(
            joined3("Failed to bind to ", addr, ": ").as_str(),
            error.as_str(),
        ),
        Listening::Unnamed { error } => joined("Failed to get local addr: ", error.as_str()),
    };
    Err(ChannelError::StartupFailed { name: "gateway".to_owned(), reason })
}

/// Every handler answers where its clients look for it: on its path and with its method.
pub proof fn law_handlers_answer_on_their_paths(handler: Handler)
    ensures
        Handler::Health.path() == "/api/health"@ && Handler::Health.method() == Method::Get,
        Handler::Index.path() == "/"@ && Handler::Index.method() == Method::Get,
        Handler::Css.path() == "/style.css"@ && Handler::Css.method() == Method::Get,
        Handler::Js.path() == "/app.js"@ && Handler::Js.method() == Method::Get,
        Handler::ProjectRedirect.path() == "/projects/{project_id}"@ && Handler::ProjectRedirect.method() == Method::Get,
        Handler::ProjectIndex.path() == "/projects/{project_id}/"@ && Handler::ProjectIndex.method() == Method::Get,
        Handler::ProjectFile.path() == "/projects/{project_id}/{*path}"@ && Handler::ProjectFile.method() == Method::Get,
        Handler::ChatSend.path() == "/api/chat/send"@ && Handler::ChatSend.method() == Method::Post,
        Handler::ChatApproval.path() == "/api/chat/approval"@ && Handler::ChatApproval.method() == Method::Post,
        Handler::ChatAuthToken.path() == "/api/chat/auth-token"@ && Handler::ChatAuthToken.method() == Method::Post,
        Handler::ChatAuthCancel.path() == "/api/chat/auth-cancel"@ && Handler::ChatAuthCancel.method() == Method::Post,
        Handler::ChatEvents.path() == "/api/chat/events"@ && Handler::ChatEvents.method() == Method::Get,
        Handler::ChatWs.path() == "/api/chat/ws"@ && Handler::ChatWs.method() == Method::Get,
        Handler::ChatHistory.path() == "/api/chat/history"@ && Handler::ChatHistory.method() == Method::Get,
        Handler::ChatThreads.path() == "/api/chat/threads"@ && Handler::ChatThreads.method() == Method::Get,
        Handler::ChatNewThread.path() == "/api/chat/thread/new"@ && Handler::ChatNewThread.method() == Method::Post,
        Handler::MemoryTree.path() == "/api/memory/tree"@ && Handler::MemoryTree.method() == Method::Get,
        Handler::MemoryList.path() == "/api/memory/list"@ && Handler::MemoryList.method() == Method::Get,
        Handler::MemoryRead.path() == "/api/memory/read"@ && Handler::MemoryRead.method() == Method::Get,
        Handler::MemoryWrite.path() == "/api/memory/write"@ && Handler::MemoryWrite.method() == Method::Post,
        Handler::MemorySearch.path() == "/api/memory/search"@ && Handler::MemorySearch.method() == Method::Post,
        Handler::JobsList.path() == "/api/jobs"@ && Handler::JobsList.method() == Method::Get,
        Handler::JobsSummary.path() == "/api/jobs/summary"@ && Handler::JobsSummary.method() == Method::Get,
        Handler::JobsDetail.path() == "/api/jobs/{id}"@ && Handler::JobsDetail.method() == Method::Get,
        Handler::JobsCancel.path() == "/api/jobs/{id}/cancel"@ && Handler::JobsCancel.method() == Method::Post,
        Handler::JobsRestart.path() == "/api/jobs/{id}/restart"@ && Handler::JobsRestart.method() == Method::Post,
        Handler::JobsPrompt.path() == "/api/jobs/{id}/prompt"@ && Handler::JobsPrompt.method() == Method::Post,
        Handler::JobsEvents.path() == "/api/jobs/{id}/events"@ && Handler::JobsEvents.method() == Method::Get,
        Handler::JobFilesList.path() == "/api/jobs/{id}/files/list"@ && Handler::JobFilesList.method() == Method::Get,
        Handler::JobFilesRead.path() == "/api/jobs/{id}/files/read"@ && Handler::JobFilesRead.method() == Method::Get,
        Handler::LogsEvents.path() == "/api/logs/events"@ && Handler::LogsEvents.method() == Method::Get,
        Handler::ExtensionsList.path() == "/api/extensions"@ && Handler::ExtensionsList.method() == Method::Get,
        Handler::ExtensionsTools.path() == "/api/extensions/tools"@ && Handler::ExtensionsTools.method() == Method::Get,
        Handler::ExtensionsInstall.path() == "/api/extensions/install"@ && Handler::ExtensionsInstall.method() == Method::Post,
        Handler::ExtensionsActivate.path() == "/api/extensions/{name}/activate"@ && Handler::ExtensionsActivate.method() == Method::Post,
        Handler::ExtensionsRemove.path() == "/api/extensions/{name}/remove"@ && Handler::ExtensionsRemove.method() == Method::Post,
        Handler::GatewayStatus.path() == "/api/gateway/status"@ && Handler::GatewayStatus.method() == Method::Get,
        handler.method() == Method::Post ==> handler.access() == Access::Protected,
{
}

/// A route is that of its handler in every part.
pub proof fn law_routes_are_those_of_their_handlers(route: Route, handler: Handler)
    requires
        route.serves(handler),
    ensures
        route.handler == handler,
        route.path@ == handler.path(),
        route.method == handler.method(),
        route.access == handler.access(),
{
}

/// A gateway that can not start says that it is the gateway, and why.
pub proof fn law_startup_failures_say_why(e: ChannelError, text: Seq<char>)
    requires
        e.gateway_failed(text),
    ensures
        e matches ChannelError::StartupFailed { name, reason } && name@ == "gateway"@ && reason@
            == text,
{
}

} // verus!
