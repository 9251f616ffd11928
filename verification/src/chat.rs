//! The chat routes: messages and approvals for the agent, tokens for extensions, and the
//! history of conversations.

use vstd::prelude::*;
use crate::clock::{optional_rfc3339, rfc3339_text, Timestamp};
use crate::ids::{is_random_id, new_id, parse_id, uuid_parse};
use crate::reply::{
    optional_text, refused, require, require_id, ActionResponse, Failure, StatusCode,
};
use crate::state::{auth_cleared, clear_auth_mode, GatewayState, Session, Thread, ToolCall, Turn};
use crate::text::{
    decimal, decimal_text, joined, law_decimal_spells_the_number, same_text, spelled,
};
use vstd::string::StringExecFns;

verus! {

broadcast use vstd::std_specs::hash::group_hash_axioms;

// --- Messages ---

/// A message of the user.
#[derive(Debug)]
pub struct SendMessageRequest {
    pub content: String,
    pub thread_id: Option<String>,
}

/// A message on its way to the agent loop.
#[derive(Debug, PartialEq, Eq)]
pub struct IncomingMessage {
    pub id: u128,
    pub channel: String,
    pub user_id: String,
    pub content: String,
    pub thread_id: Option<String>,
}

impl IncomingMessage {
    /// Whether this is the gateway's message with this identifier from this user, with this
    /// content and for this thread.
    pub open spec fn carries(
        self,
        id: u128,
        user_id: Seq<char>,
        content: Seq<char>,
        thread_id: Option<Seq<char>>,
    ) -> bool {
        &&& self.id == id
        &&& self.channel@ == "gateway"@
        &&& self.user_id@ == user_id
        &&& self.content@ == content
        &&& optional_text(self.thread_id) == thread_id
    }
}

/// The answer to a message that was taken.
#[derive(Debug, PartialEq, Eq)]
pub struct SendMessageResponse {
    pub message_id: u128,
    pub status: &'static str,
}

/// The message with this identifier that the gateway passes on for its user.
pub fn compose(state: &GatewayState, id: u128, content: &str, thread_id: &Option<String>) -> (r:
    IncomingMessage)
    ensures
        r.carries(id, state.user_id@, content@, optional_text(*thread_id)),
{
    IncomingMessage {
        id,
        channel: "gateway".to_owned(),
        user_id: state.user_id.clone(),
        content: content.to_owned(),
        thread_id: match thread_id {
            Some(t) => Some(t.clone()),
            None => None,
        },
    }
}

/// Lets a message through to the agent loop if the channel to it is open.
pub fn admit_message(state: &GatewayState, message: IncomingMessage) -> (r: Result<
    IncomingMessage,
    Failure,
>)
    ensures
        state.msg_tx ==> r is Ok && r->Ok_0 == message,
        !state.msg_tx ==> refused(
            r,
            StatusCode::ServiceUnavailable,
            "Channel not started"@,
        ),
{
    match require(state.msg_tx, StatusCode::ServiceUnavailable, "Channel not started") {
        Ok(_) => Ok(message),
        Err(f) => Err(f),
    }
}

/// Takes a message of the user: the message to send to the agent loop, under a new
/// identifier.
pub fn chat_send_handler(state: &GatewayState, req: &SendMessageRequest) -> (r: Result<
    IncomingMessage,
    Failure,
>)
    ensures
        state.msg_tx ==> r is Ok && is_random_id(r->Ok_0.id) && r->Ok_0.carries(
            r->Ok_0.id,
            state.user_id@,
            req.content@,
            optional_text(req.thread_id),
        ),
        !state.msg_tx ==> refused(
            r,
            StatusCode::ServiceUnavailable,
            "Channel not started"@,
        ),
{
    admit_message(state, compose(state, new_id(), req.content.as_str(), &req.thread_id))
}

/// Answers once the message was sent, or could not be.
pub fn message_sent(message_id: u128, delivered: bool) -> (r: Result<
    (StatusCode, SendMessageResponse),
    Failure,
>)
    ensures
        delivered ==> r is Ok && r->Ok_0.0 == StatusCode::Accepted && r->Ok_0.1.message_id
            == message_id && r->Ok_0.1.status@ == "accepted"@,
        !delivered ==> refused(r, StatusCode::InternalServerError, "Channel closed"@),
{
    match require(delivered, StatusCode::InternalServerError, "Channel closed") {
        Ok(_) => Ok((StatusCode::Accepted, SendMessageResponse { message_id, status: "accepted" })),
        Err(f) => Err(f),
    }
}

// --- Approvals ---

/// The user's decision on a tool that waits for approval.
#[derive(Debug)]
pub struct ApprovalRequest {
    pub request_id: String,
    pub action: String,
}

/// A decision as it goes through the message pipeline.
#[derive(Debug, PartialEq, Eq)]
pub enum Submission {
    ExecApproval { request_id: u128, approved: bool, always: bool },
}

/// What an action means: whether it approves, and whether for good.
pub open spec fn approval_of(action: Seq<char>) -> Option<(bool, bool)> {
    if action == "approve"@ {
        Some((true, false))
    } else if action == "always"@ {
        Some((true, true))
    } else if action == "deny"@ {
        Some((false, false))
    } else {
        None
    }
}

/// What becomes of a decision whose request identifier was read as `request_id`.
pub open spec fn approval_decided(
    action: Seq<char>,
    request_id: Option<u128>,
    r: Result<Submission, Failure>,
) -> bool {
    match approval_of(action) {
        None => refused(r, StatusCode::BadRequest, "Unknown action: "@ + action),
        Some(meaning) => match request_id {
            None => refused(r, StatusCode::BadRequest, "Invalid request_id (expected UUID)"@),
            Some(id) => r is Ok && r->Ok_0 == (Submission::ExecApproval {
                request_id: id,
                approved: meaning.0,
                always: meaning.1,
            }),
        },
    }
}

/// Makes a submission out of a decision whose request identifier was read.
pub fn approval(action: &str, request_id: Option<u128>) -> (r: Result<Submission, Failure>)
    ensures
        approval_decided(action@, request_id, r),
{
    let (approved, always): (bool, bool) = if same_text(action, "approve") {
        (true, false)
    } else if same_text(action, "always") {
        (true, true)
    } else if same_text(action, "deny") {
        (false, false)
    } else {
        return Err(
            Failure {
                status: StatusCode::BadRequest,
                message: joined("Unknown action: ", action),
            },
        );
    };
    match require_id(request_id, "Invalid request_id (expected UUID)") {
        Ok(request_id) => Ok(Submission::ExecApproval { request_id, approved, always }),
        Err(f) => Err(f),
    }
}

/// Takes the user's decision: the submission to send through the message pipeline.
pub fn chat_approval_handler(req: &ApprovalRequest) -> (r: Result<Submission, Failure>)
    ensures
        approval_decided(req.action@, uuid_parse(req.request_id@), r),
{
    approval(req.action.as_str(), parse_id(req.request_id.as_str()))
}

/// Makes a message out of a submission, once that was serialised or could not be.
pub fn approval_message(state: &GatewayState, serialized: Result<String, String>) -> (r: Result<
    IncomingMessage,
    Failure,
>)
    ensures
        match serialized {
            Err(e) => refused(
                r,
                StatusCode::InternalServerError,
                "Failed to serialize approval: "@ + e@,
            ),
            Ok(content) => {
                &&& state.msg_tx ==> r is Ok && is_random_id(r->Ok_0.id) && r->Ok_0.carries(
                    r->Ok_0.id,
                    state.user_id@,
                    content@,
                    None,
                )
                &&& !state.msg_tx ==> refused(
                    r,
                    StatusCode::ServiceUnavailable,
                    "Channel not started"@,
                )
            },
        },
{
    match serialized {
        Err(e) => Err(
            Failure {
                status: StatusCode::InternalServerError,
                message: joined("Failed to serialize approval: ", e.as_str()),
            },
        ),
        Ok(content) => admit_message(state, compose(state, new_id(), content.as_str(), &None)),
    }
}

// --- Tokens for extensions ---

/// A token for an extension.
#[derive(Debug)]
pub struct AuthTokenRequest {
    pub extension_name: String,
    pub token: String,
}

/// What the extension manager says to a token, or to a request to authenticate.
#[derive(Debug)]
pub struct AuthResult {
    pub status: String,
    pub instructions: Option<String>,
    pub auth_url: Option<String>,
    pub setup_url: Option<String>,
    pub awaiting_token: bool,
}

/// What the extension manager says when it has activated an extension.
#[derive(Debug)]
pub struct ActivateResult {
    pub message: String,
    pub tools_loaded: Vec<String>,
}

/// What is broadcast to the browsers.
#[derive(Debug, PartialEq, Eq)]
pub enum SseEvent {
    AuthCompleted { extension_name: String, success: bool, message: String },
    AuthRequired {
        extension_name: String,
        instructions: Option<String>,
        auth_url: Option<String>,
        setup_url: Option<String>,
    },
}

/// What has to be done next for a token. The token itself is handed to the extension
/// manager and to nothing else: no later step holds it.
#[derive(Debug)]
pub enum AuthTokenStep {
    /// Ask the extension manager to authenticate the extension with the token.
    Authenticate { extension_name: String, token: String },
    /// Ask the extension manager to activate the extension.
    Activate { extension_name: String },
    /// Clear the auth mode of the active thread if so marked, broadcast the event and
    /// answer.
    Finish { clear_auth: bool, event: SseEvent, reply: ActionResponse },
    /// Turn the request down.
    Fail(Failure),
}

/// The first step for a token.
pub open spec fn token_submitted(state: GatewayState, req: AuthTokenRequest, r: AuthTokenStep) -> bool {
    if state.extension_manager {
        r == (AuthTokenStep::Authenticate {
            extension_name: req.extension_name,
            token: req.token,
        })
    } else {
        r matches AuthTokenStep::Fail(f) && f.says(
            StatusCode::ServiceUnavailable,
            "Extension manager not available"@,
        )
    }
}

/// Submit an auth token directly to the extension manager, bypassing the message pipeline.
pub fn chat_auth_token_handler(state: &GatewayState, req: AuthTokenRequest) -> (r: AuthTokenStep)
    ensures
        token_submitted(*state, req, r),
{
    match require(
        state.extension_manager,
        StatusCode::ServiceUnavailable,
        "Extension manager not available",
    ) {
        Ok(_) => AuthTokenStep::Authenticate {
            extension_name: req.extension_name,
            token: req.token,
        },
        Err(f) => AuthTokenStep::Fail(f),
    }
}

/// The step that follows the extension manager's word on a token.
pub open spec fn auth_decided(
    extension_name: Seq<char>,
    result: Result<AuthResult, String>,
    r: AuthTokenStep,
) -> bool {
    match result {
        Err(e) => r matches AuthTokenStep::Fail(f) && f.says(
            StatusCode::InternalServerError,
            e@,
        ),
        Ok(auth) => if auth.status@ == "authenticated"@ {
            r matches AuthTokenStep::Activate { extension_name: name } && name@ == extension_name
        } else {
            &&& r matches AuthTokenStep::Finish { clear_auth, event, reply }
            &&& !clear_auth
            &&& event matches SseEvent::AuthRequired {
                extension_name: name,
                instructions,
                auth_url,
                setup_url,
            }
            &&& name@ == extension_name
            &&& optional_text(instructions) == optional_text(auth.instructions)
            &&& optional_text(auth_url) == optional_text(auth.auth_url)
            &&& optional_text(setup_url) == optional_text(auth.setup_url)
            &&& reply.reports(
                false,
                match auth.instructions {
                    Some(text) => text@,
                    None => "Invalid token"@,
                },
            )
        },
    }
}

fn copied(text: &Option<String>) -> (r: Option<String>)
    ensures
        optional_text(r) == optional_text(*text),
{
    match text {
        Some(s) => Some(s.clone()),
        None => None,
    }
}

/// Goes on once the extension manager has seen the token: an extension that is
/// authenticated is activated, for any other the browsers are asked again.
pub fn auth_checked(extension_name: String, result: Result<AuthResult, String>) -> (r:
    AuthTokenStep)
    ensures
        auth_decided(extension_name@, result, r),
{
    match result {
        Err(e) => AuthTokenStep::Fail(
            Failure { status: StatusCode::InternalServerError, message: e },
        ),
        Ok(auth) => if same_text(auth.status.as_str(), "authenticated") {
            AuthTokenStep::Activate { extension_name }
        } else {
            let event = SseEvent::AuthRequired {
                extension_name,
                instructions: copied(&auth.instructions),
                auth_url: auth.auth_url,
                setup_url: auth.setup_url,
            };
            let reply = ActionResponse::fail(
                match auth.instructions {
                    Some(text) => text,
                    None => "Invalid token".to_owned(),
                },
            );
            AuthTokenStep::Finish { clear_auth: false, event, reply }
        },
    }
}

/// What is told once an authenticated extension was activated, or could not be.
pub open spec fn activation_note(
    extension_name: Seq<char>,
    activated: Result<ActivateResult, String>,
) -> Seq<char> {
    match activated {
        Ok(result) => extension_name + " authenticated ("@ + decimal(
            result.tools_loaded@.len(),
        ) + " tools loaded)"@,
        Err(e) => extension_name + " authenticated but activation failed: "@ + e@,
    }
}

/// The step that follows the activation of an authenticated extension.
pub open spec fn auth_finished(
    extension_name: Seq<char>,
    activated: Result<ActivateResult, String>,
    r: AuthTokenStep,
) -> bool {
    &&& r matches AuthTokenStep::Finish { clear_auth, event, reply }
    &&& clear_auth
    &&& event matches SseEvent::AuthCompleted { extension_name: name, success, message }
    &&& name@ == extension_name
    &&& success
    &&& message@ == activation_note(extension_name, activated)
    &&& reply.reports(true, activation_note(extension_name, activated))
}

/// Goes on once an authenticated extension was activated so that its tools are available
/// immediately: the auth mode is over, whether or not the activation worked.
pub fn auth_activated(extension_name: String, activated: Result<ActivateResult, String>) -> (r:
    AuthTokenStep)
    ensures
        auth_finished(extension_name@, activated, r),
{
    let mut note = extension_name.clone();
    match activated {
        Ok(result) => {
            let count = decimal_text(result.tools_loaded.len());
            note.append(" authenticated (");
            note.append(count.as_str());
            note.append(" tools loaded)");
        },
        Err(e) => {
            note.append(" authenticated but activation failed: ");
            note.append(e.as_str());
        },
    }
    let event = SseEvent::AuthCompleted { extension_name, success: true, message: note.clone() };
    AuthTokenStep::Finish { clear_auth: true, event, reply: ActionResponse::ok(note) }
}

/// Cancel an in-progress auth flow: the active thread of the session waits for no token any
/// more. Where there is no session there is nothing to clear, and the answer is the same.
pub fn chat_auth_cancel_handler(session: Option<&mut Session>) -> (r: ActionResponse)
    ensures
        r.reports(true, "Auth cancelled"@),
        session matches Some(s) ==> final(s).active_thread == s.active_thread
            && final(s).threads@ == auth_cleared(s.active_thread, s.threads@),
{
    if let Some(s) = session {
        clear_auth_mode(s);
    }
    ActionResponse::ok("Auth cancelled".to_owned())
}

/// Whether two steps say the same to everyone: they may differ in the token that the
/// extension manager is handed, and in nothing else.
pub open spec fn shows_same(a: AuthTokenStep, b: AuthTokenStep) -> bool {
    match (a, b) {
        (
            AuthTokenStep::Authenticate { extension_name: x, .. },
            AuthTokenStep::Authenticate { extension_name: y, .. },
        ) => x@ == y@,
        (
            AuthTokenStep::Activate { extension_name: x },
            AuthTokenStep::Activate { extension_name: y },
        ) => x@ == y@,
        (AuthTokenStep::Fail(x), AuthTokenStep::Fail(y)) => x.says(y.status, y.message@),
        (
            AuthTokenStep::Finish { clear_auth: c, event: e, reply: x },
            AuthTokenStep::Finish { clear_auth: d, event: f, reply: y },
        ) => c == d && same_event(e, f) && same_reply(x, y),
        _ => false,
    }
}

/// Whether two broadcasts say the same.
pub open spec fn same_event(a: SseEvent, b: SseEvent) -> bool {
    match (a, b) {
        (
            SseEvent::AuthCompleted { extension_name: n, success: s, message: m },
            SseEvent::AuthCompleted { extension_name: o, success: t, message: k },
        ) => n@ == o@ && s == t && m@ == k@,
        (
            SseEvent::AuthRequired { extension_name: n, instructions: i, auth_url: u, setup_url: s },
            SseEvent::AuthRequired { extension_name: o, instructions: j, auth_url: v, setup_url: t },
        ) => n@ == o@ && optional_text(i) == optional_text(j) && optional_text(u) == optional_text(
            v,
        ) && optional_text(s) == optional_text(t),
        _ => false,
    }
}

/// Whether two answers say the same.
pub open spec fn same_reply(a: ActionResponse, b: ActionResponse) -> bool {
    &&& a.success == b.success
    &&& a.message@ == b.message@
    &&& optional_text(a.auth_url) == optional_text(b.auth_url)
    &&& a.awaiting_token == b.awaiting_token
    &&& optional_text(a.instructions) == optional_text(b.instructions)
}

/// The token never touches the message pipeline or what is broadcast and answered. Of two
/// requests that differ in the token alone every step says the same, as long as the
/// extension manager says the same to both.
pub proof fn law_token_reaches_manager_only(
    state: GatewayState,
    a: AuthTokenRequest,
    b: AuthTokenRequest,
    checked: Result<AuthResult, String>,
    activated: Result<ActivateResult, String>,
    steps_a: (AuthTokenStep, AuthTokenStep, AuthTokenStep),
    steps_b: (AuthTokenStep, AuthTokenStep, AuthTokenStep),
)
    requires
        a.extension_name@ == b.extension_name@,
        token_submitted(state, a, steps_a.0),
        token_submitted(state, b, steps_b.0),
        auth_decided(a.extension_name@, checked, steps_a.1),
        auth_decided(b.extension_name@, checked, steps_b.1),
        auth_finished(a.extension_name@, activated, steps_a.2),
        auth_finished(b.extension_name@, activated, steps_b.2),
    ensures
        shows_same(steps_a.0, steps_b.0),
        shows_same(steps_a.1, steps_b.1),
        shows_same(steps_a.2, steps_b.2),
{
}

/// The auth mode ends exactly when the extension was authenticated: a token that was not
/// accepted leaves the thread waiting for another one.
pub proof fn law_auth_mode_ends_with_success(
    extension_name: Seq<char>,
    checked: Result<AuthResult, String>,
    activated: Result<ActivateResult, String>,
    step: AuthTokenStep,
    last: AuthTokenStep,
)
    requires
        auth_decided(extension_name, checked, step),
        auth_finished(extension_name, activated, last),
    ensures
        step matches AuthTokenStep::Finish { clear_auth, event, reply } ==> !clear_auth
            && !reply.success && event is AuthRequired,
        last matches AuthTokenStep::Finish { clear_auth, event, reply } && clear_auth
            && reply.success && event is AuthCompleted,
        (step is Activate) == (checked matches Ok(auth) && auth.status@ == "authenticated"@),
{
}

// --- Conversations ---

/// Turns a request down where the gateway has no sessions.
pub fn sessions_available(state: &GatewayState) -> (r: Result<(), Failure>)
    ensures
        state.session_manager ==> r is Ok,
        !state.session_manager ==> refused(
            r,
            StatusCode::ServiceUnavailable,
            "Session manager not available"@,
        ),
{
    require(
        state.session_manager,
        StatusCode::ServiceUnavailable,
        "Session manager not available",
    )
}

/// Whether a request is taken for the sessions of the gateway's user, or turned down where
/// the gateway has no sessions.
pub open spec fn session_wanted(state: GatewayState, r: Result<String, Failure>) -> bool {
    if state.session_manager {
        r is Ok && r->Ok_0@ == state.user_id@
    } else {
        refused(r, StatusCode::ServiceUnavailable, "Session manager not available"@)
    }
}

fn session_user(state: &GatewayState) -> (r: Result<String, Failure>)
    ensures
        session_wanted(*state, r),
{
    match sessions_available(state) {
        Ok(_) => Ok(state.user_id.clone()),
        Err(f) => Err(f),
    }
}

/// Takes a request for the history of a thread: the user whose session is looked up.
pub fn chat_history_handler(state: &GatewayState) -> (r: Result<String, Failure>)
    ensures
        session_wanted(*state, r),
{
    session_user(state)
}

/// Takes a request for the threads: the user whose session is looked up.
pub fn chat_threads_handler(state: &GatewayState) -> (r: Result<String, Failure>)
    ensures
        session_wanted(*state, r),
{
    session_user(state)
}

/// Takes a request for a new thread: the user in whose session it is created.
pub fn chat_new_thread_handler(state: &GatewayState) -> (r: Result<String, Failure>)
    ensures
        session_wanted(*state, r),
{
    session_user(state)
}

/// Which thread's history is asked for.
#[derive(Debug)]
pub struct HistoryQuery {
    pub thread_id: Option<String>,
}

/// What the history tells of a call of a tool.
#[derive(Debug, PartialEq, Eq)]
pub struct ToolCallInfo {
    pub name: String,
    pub has_result: bool,
    pub has_error: bool,
}

impl ToolCallInfo {
    /// Whether this tells of the call.
    pub open spec fn tells(self, call: ToolCall) -> bool {
        &&& self.name@ == call.name@
        &&& self.has_result == (call.result is Some)
        &&& self.has_error == (call.error is Some)
    }
}

/// What the history tells of a turn.
#[derive(Debug, PartialEq, Eq)]
pub struct TurnInfo {
    pub turn_number: usize,
    pub user_input: String,
    pub response: Option<String>,
    pub state: String,
    pub started_at: String,
    pub completed_at: Option<String>,
    pub tool_calls: Vec<ToolCallInfo>,
}

/// How a time that may be missing is written.
pub open spec fn optional_time(t: Option<Timestamp>) -> Option<Seq<char>> {
    match t {
        Some(t) => Some(t.text()),
        None => None,
    }
}

impl TurnInfo {
    /// Whether this tells of the turn.
    pub open spec fn tells(self, turn: Turn) -> bool {
        &&& self.turn_number == turn.turn_number
        &&& self.user_input@ == turn.user_input@
        &&& optional_text(self.response) == optional_text(turn.response)
        &&& self.state@ == turn.state@
        &&& self.started_at@ == turn.started_at.text()
        &&& optional_text(self.completed_at) == optional_time(turn.completed_at)
        &&& self.tool_calls@.len() == turn.tool_calls@.len()
        &&& forall|i: int|
            0 <= i < turn.tool_calls@.len() ==> #[trigger] self.tool_calls@[i].tells(
                turn.tool_calls@[i],
            )
    }
}

/// The history of a thread.
#[derive(Debug, PartialEq, Eq)]
pub struct HistoryResponse {
    pub thread_id: u128,
    pub turns: Vec<TurnInfo>,
}

/// Whether turns are told one for one and in order.
pub open spec fn tells_turns(told: Seq<TurnInfo>, turns: Seq<Turn>) -> bool {
    &&& told.len() == turns.len()
    &&& forall|i: int| 0 <= i < turns.len() ==> #[trigger] told[i].tells(turns[i])
}

/// The thread that a request speaks of.
#[derive(Debug, Clone, Copy)]
pub enum ThreadChoice {
    /// The one that is active.
    Active,
    /// The one with this identifier.
    Named(u128),
    /// None: what stands for the identifier is not one.
    Unreadable,
}

/// The history that is answered with.
pub open spec fn history_told(
    session: Session,
    choice: ThreadChoice,
    r: Result<HistoryResponse, Failure>,
) -> bool {
    let wanted = match choice {
        ThreadChoice::Active => session.active_thread,
        ThreadChoice::Named(id) => Some(id),
        ThreadChoice::Unreadable => None,
    };
    match wanted {
        None => if choice is Unreadable {
            refused(r, StatusCode::BadRequest, "Invalid thread_id"@)
        } else {
            refused(r, StatusCode::NotFound, "No active thread"@)
        },
        Some(id) => if session.threads@.contains_key(id) {
            r is Ok && r->Ok_0.thread_id == id && tells_turns(
                r->Ok_0.turns@,
                session.threads@[id].turns@,
            )
        } else {
            refused(r, StatusCode::NotFound, "Thread not found"@)
        },
    }
}

/// The thread that a query names.
pub open spec fn thread_choice(query: HistoryQuery) -> ThreadChoice {
    match query.thread_id {
        None => ThreadChoice::Active,
        Some(text) => match uuid_parse(text@) {
            Some(id) => ThreadChoice::Named(id),
            None => ThreadChoice::Unreadable,
        },
    }
}

fn tool_call_infos(calls: &Vec<ToolCall>) -> (r: Vec<ToolCallInfo>)
    ensures
        r@.len() == calls@.len(),
        forall|i: int| 0 <= i < calls@.len() ==> #[trigger] r@[i].tells(calls@[i]),
{
    let mut out: Vec<ToolCallInfo> = Vec::new();
    let mut i: usize = 0;
    while i < calls.len()
        invariant
            i <= calls@.len(),
            out@.len() == i,
            forall|k: int| 0 <= k < i ==> #[trigger] out@[k].tells(calls@[k]),
        decreases calls.len() - i,
    {
        let call = &calls[i];
        out.push(
            ToolCallInfo {
                name: call.name.clone(),
                has_result: call.result.is_some(),
                has_error: call.error.is_some(),
            },
        );
        i = i + 1;
    }
    out
}

fn turn_info(turn: &Turn) -> (r: TurnInfo)
    ensures
        r.tells(*turn),
{
    TurnInfo {
        turn_number: turn.turn_number,
        user_input: turn.user_input.clone(),
        response: copied(&turn.response),
        state: turn.state.clone(),
        started_at: turn.started_at.to_rfc3339(),
        completed_at: optional_rfc3339(&turn.completed_at),
        tool_calls: tool_call_infos(&turn.tool_calls),
    }
}

/// The turns of a thread, told one for one.
pub fn turn_infos(turns: &Vec<Turn>) -> (r: Vec<TurnInfo>)
    ensures
        tells_turns(r@, turns@),
{
    let mut out: Vec<TurnInfo> = Vec::new();
    let mut i: usize = 0;
    while i < turns.len()
        invariant
            i <= turns@.len(),
            out@.len() == i,
            forall|k: int| 0 <= k < i ==> #[trigger] out@[k].tells(turns@[k]),
        decreases turns.len() - i,
    {
        out.push(turn_info(&turns[i]));
        i = i + 1;
    }
    out
}

/// The history of the thread that was chosen.
pub fn history_of(session: &Session, choice: ThreadChoice) -> (r: Result<HistoryResponse, Failure>)
    ensures
        history_told(*session, choice, r),
{
    let thread_id: u128 = match choice {
        ThreadChoice::Unreadable => {
            return Err(Failure::new(StatusCode::BadRequest, "Invalid thread_id"));
        },
        ThreadChoice::Named(id) => id,
        ThreadChoice::Active => match session.active_thread {
            Some(id) => id,
            None => {
                return Err(Failure::new(StatusCode::NotFound, "No active thread"));
            },
        },
    };
    match session.threads.get(&thread_id) {
        Some(thread) => Ok(HistoryResponse { thread_id, turns: turn_infos(&thread.turns) }),
        None => Err(Failure::new(StatusCode::NotFound, "Thread not found")),
    }
}

/// The history of the thread that a query names, or of the active one where it names none.
pub fn history_asked(session: &Session, query: &HistoryQuery) -> (r: Result<
    HistoryResponse,
    Failure,
>)
    ensures
        history_told(*session, thread_choice(*query), r),
{
    let choice = match &query.thread_id {
        None => ThreadChoice::Active,
        Some(text) => match parse_id(text.as_str()) {
            Some(id) => ThreadChoice::Named(id),
            None => ThreadChoice::Unreadable,
        },
    };
    history_of(session, choice)
}

/// What a list of threads tells of one.
#[derive(Debug, PartialEq, Eq)]
pub struct ThreadInfo {
    pub id: u128,
    pub state: String,
    pub turn_count: usize,
    pub created_at: String,
    pub updated_at: String,
}

impl ThreadInfo {
    /// Whether this tells of the thread.
    pub open spec fn tells(self, thread: Thread) -> bool {
        &&& self.id == thread.id
        &&& self.state@ == thread.state@
        &&& self.turn_count == thread.turns@.len()
        &&& self.created_at@ == thread.created_at.text()
        &&& self.updated_at@ == thread.updated_at.text()
    }
}

/// The threads of a session.
#[derive(Debug, PartialEq, Eq)]
pub struct ThreadListResponse {
    pub threads: Vec<ThreadInfo>,
    pub active_thread: Option<u128>,
}

/// Whether `order` runs through the keys of a map, each of them once.
pub open spec fn runs_through<V>(order: Seq<u128>, map: Map<u128, V>) -> bool {
    order.no_duplicates() && order.to_set() == map.dom()
}

/// What is told of a thread, which is also the answer to a request for a new one.
pub fn thread_created(thread: &Thread) -> (r: ThreadInfo)
    ensures
        r.tells(*thread),
{
    ThreadInfo {
        id: thread.id,
        state: thread.state.clone(),
        turn_count: thread.turns.len(),
        created_at: thread.created_at.to_rfc3339(),
        updated_at: thread.updated_at.to_rfc3339(),
    }
}

/// The threads of a session, each of them once, in no particular order.
pub fn threads_listed(session: &Session) -> (r: ThreadListResponse)
    ensures
        r.active_thread == session.active_thread,
        exists|order: Seq<u128>| #[trigger]
            runs_through(order, session.threads@) && r.threads@.len() == order.len() && forall|
                i: int,
            |
                0 <= i < order.len() ==> #[trigger] r.threads@[i].tells(
                    session.threads@[order[i]],
                ),
{
    let mut out: Vec<ThreadInfo> = Vec::new();
    let keys = session.threads.keys();
    let ghost order: Seq<u128> = vstd::std_specs::iter::IteratorSpec::remaining(&keys).unref();
    for id in it: keys
        invariant
            it.seq().unref() == order,
            order.to_set() == session.threads@.dom(),
            out@.len() == it.index(),
            forall|k: int|
                0 <= k < it.index() ==> #[trigger] out@[k].tells(session.threads@[order[k]]),
    {
        let ghost n = it.index();
        assert(order[n] == *id);
        assert(order.to_set().contains(order[n]));
        if let Some(thread) = session.threads.get(id) {
            out.push(thread_created(thread));
        }
    }
    assert(runs_through(order, session.threads@));
    ThreadListResponse { threads: out, active_thread: session.active_thread }
}

// --- What holds of the answers ---

/// A message is the gateway's own, and carries its identifier, its user, its content and,
/// where there is one, its thread, none of them changed.
pub proof fn law_messages_carry_what_was_sent(
    m: IncomingMessage,
    id: u128,
    user_id: Seq<char>,
    content: Seq<char>,
    thread_id: Option<Seq<char>>,
)
    requires
        m.carries(id, user_id, content, thread_id),
    ensures
        m.id == id,
        m.channel@ == "gateway"@,
        m.user_id@ == user_id,
        m.content@ == content,
        m.thread_id is Some <==> thread_id is Some,
        m.thread_id is Some ==> m.thread_id->0@ == thread_id->0,
{
}

/// A decision goes through exactly where its action is known and its identifier is one. It
/// approves unless the action denies, it does so for good only where the action says
/// always, and it speaks of the request that was named. An unknown action is named in the
/// refusal, whatever the identifier is.
pub proof fn law_decisions_mean_what_they_say(
    action: Seq<char>,
    request_id: Option<u128>,
    r: Result<Submission, Failure>,
)
    requires
        approval_decided(action, request_id, r),
    ensures
        r is Ok <==> request_id is Some && (action == "approve"@ || action == "always"@ || action
            == "deny"@),
        r matches Ok(Submission::ExecApproval { request_id: id, approved, always }) ==> Some(id)
            == request_id && (approved <==> action != "deny"@) && (always <==> action == "always"@),
        r is Err ==> r->Err_0.status == StatusCode::BadRequest,
        action != "approve"@ && action != "always"@ && action != "deny"@ ==> r->Err_0.message@
            == "Unknown action: "@ + action,
        r is Err && (action == "approve"@ || action == "always"@ || action == "deny"@)
            ==> r->Err_0.message@ == "Invalid request_id (expected UUID)"@,
{
    reveal_strlit("approve");
    reveal_strlit("always");
    reveal_strlit("deny");
    assert("approve"@.len() == 7 && "always"@.len() == 6 && "deny"@.len() == 4);
}

/// A token goes to the extension manager, as it is and for the extension that was named,
/// exactly where there is one.
pub proof fn law_tokens_go_to_the_manager(
    state: GatewayState,
    req: AuthTokenRequest,
    r: AuthTokenStep,
)
    requires
        token_submitted(state, req, r),
    ensures
        state.extension_manager <==> r is Authenticate,
        r matches AuthTokenStep::Authenticate { extension_name, token } ==> extension_name@
            == req.extension_name@ && token@ == req.token@,
        !state.extension_manager ==> (r matches AuthTokenStep::Fail(f) && f.status
            == StatusCode::ServiceUnavailable && f.message@ == "Extension manager not available"@),
{
}

/// What the extension manager says of a token decides what follows: an accepted token leads
/// to the activation of the extension; any other one to a broadcast that asks again with
/// the manager's own instructions and addresses, and to an answer with those instructions;
/// and an error is answered as it is.
pub proof fn law_token_verdicts_are_passed_on(
    name: Seq<char>,
    result: Result<AuthResult, String>,
    r: AuthTokenStep,
)
    requires
        auth_decided(name, result, r),
    ensures
        result matches Err(e) ==> (r matches AuthTokenStep::Fail(f) && f.status
            == StatusCode::InternalServerError && f.message@ == e@),
        result matches Ok(auth) ==> auth.status@ == "authenticated"@ ==> (
        r matches AuthTokenStep::Activate { extension_name } && extension_name@ == name),
        result matches Ok(auth) ==> auth.status@ != "authenticated"@ ==> (
        r matches AuthTokenStep::Finish { clear_auth, event, reply } && !clear_auth
            && !reply.success && reply.auth_url is None && reply.awaiting_token is None
            && reply.instructions is None && reply.message@ == (if auth.instructions is Some {
            auth.instructions->0@
        } else {
            "Invalid token"@
        }) && (event matches SseEvent::AuthRequired {
            extension_name,
            instructions,
            auth_url,
            setup_url,
        } && extension_name@ == name && (instructions is Some <==> auth.instructions is Some) && (
        instructions is Some ==> instructions->0@ == auth.instructions->0@) && (auth_url is Some
            <==> auth.auth_url is Some) && (auth_url is Some ==> auth_url->0@ == auth.auth_url->0@)
            && (setup_url is Some <==> auth.setup_url is Some) && (setup_url is Some
            ==> setup_url->0@ == auth.setup_url->0@))),
{
}

/// Once an authenticated extension was activated, the auth mode ends, and the browsers and
/// the user are told the same: the name of the extension, and how many tools it brought or
/// why the activation failed.
pub proof fn law_activation_is_announced(
    name: Seq<char>,
    activated: Result<ActivateResult, String>,
    r: AuthTokenStep,
)
    requires
        auth_finished(name, activated, r),
    ensures
        r matches AuthTokenStep::Finish { clear_auth, event, reply } && clear_auth && reply.success
            && reply.auth_url is None && reply.awaiting_token is None && reply.instructions is None
            && (event matches SseEvent::AuthCompleted { extension_name, success, message }
            && extension_name@ == name && success && message@ == reply.message@) && (
        activated matches Err(e) ==> reply.message@ == name
            + " authenticated but activation failed: "@ + e@) && (activated matches Ok(result)
            ==> exists|digits: Seq<char>| #[trigger]
            spelled(digits) == result.tools_loaded@.len() && reply.message@ == name
                + " authenticated ("@ + digits + " tools loaded)"@),
{
    if let Ok(result) = activated {
        law_decimal_spells_the_number(result.tools_loaded@.len());
        assert(spelled(decimal(result.tools_loaded@.len())) == result.tools_loaded@.len());
    }
}

/// Sessions are those of the gateway's user, and there are some exactly where there is a
/// session manager.
pub proof fn law_sessions_are_of_the_user(state: GatewayState, r: Result<String, Failure>)
    requires
        session_wanted(state, r),
    ensures
        r is Ok <==> state.session_manager,
        r is Ok ==> r->Ok_0@ == state.user_id@,
        r is Err ==> r->Err_0.status == StatusCode::ServiceUnavailable && r->Err_0.message@
            == "Session manager not available"@,
{
}

/// Each turn of a thread is told in its place, as it was: number, input, response, state
/// and times, and each call of a tool by its name, whether it has a result and whether it
/// has an error.
pub proof fn law_turns_are_told_as_they_were(told: Seq<TurnInfo>, turns: Seq<Turn>, i: int, k: int)
    requires
        tells_turns(told, turns),
        0 <= i < turns.len(),
    ensures
        told.len() == turns.len(),
        told[i].turn_number == turns[i].turn_number,
        told[i].user_input@ == turns[i].user_input@,
        told[i].response is Some <==> turns[i].response is Some,
        told[i].response is Some ==> told[i].response->0@ == turns[i].response->0@,
        told[i].state@ == turns[i].state@,
        told[i].started_at@ == rfc3339_text(turns[i].started_at.secs(), turns[i].started_at.nanos()),
        told[i].completed_at is Some <==> turns[i].completed_at is Some,
        told[i].completed_at is Some ==> told[i].completed_at->0@ == rfc3339_text(
            turns[i].completed_at->0.secs(),
            turns[i].completed_at->0.nanos(),
        ),
        told[i].tool_calls@.len() == turns[i].tool_calls@.len(),
        0 <= k < turns[i].tool_calls@.len() ==> told[i].tool_calls@[k].name@
            == turns[i].tool_calls@[k].name@ && (told[i].tool_calls@[k].has_result
            <==> turns[i].tool_calls@[k].result is Some) && (told[i].tool_calls@[k].has_error
            <==> turns[i].tool_calls@[k].error is Some),
{
    assert(told[i].tells(turns[i]));
    if 0 <= k < turns[i].tool_calls@.len() {
        assert(told[i].tool_calls@[k].tells(turns[i].tool_calls@[k]));
    }
}

/// The history of a thread that is named is that of the thread under that identifier, all
/// of its turns, whichever thread is active; where there is none, it is not found.
pub proof fn law_named_threads_are_shown(
    session: Session,
    query: HistoryQuery,
    id: u128,
    r: Result<HistoryResponse, Failure>,
)
    requires
        history_told(session, thread_choice(query), r),
        query.thread_id is Some,
        uuid_parse(query.thread_id->0@) == Some(id),
    ensures
        r is Ok <==> session.threads@.contains_key(id),
        r is Ok ==> r->Ok_0.thread_id == id,
        r is Ok ==> r->Ok_0.turns@.len() == session.threads@[id].turns@.len(),
        r is Ok ==> forall|i: int|
            0 <= i < r->Ok_0.turns@.len() ==> (#[trigger] r->Ok_0.turns@[i]).tells(
                session.threads@[id].turns@[i],
            ),
        r is Err ==> r->Err_0.status == StatusCode::NotFound && r->Err_0.message@
            == "Thread not found"@,
{
}

/// What a query that names a thread is answered does not depend on which thread is active.
pub proof fn law_named_threads_ignore_the_active_one(
    a: Session,
    b: Session,
    query: HistoryQuery,
    id: u128,
    ra: Result<HistoryResponse, Failure>,
    rb: Result<HistoryResponse, Failure>,
    i: int,
)
    requires
        a.threads@ == b.threads@,
        history_told(a, thread_choice(query), ra),
        history_told(b, thread_choice(query), rb),
        query.thread_id is Some,
        uuid_parse(query.thread_id->0@) == Some(id),
    ensures
        ra is Ok <==> rb is Ok,
        ra is Ok ==> ra->Ok_0.thread_id == rb->Ok_0.thread_id && ra->Ok_0.turns@.len()
            == rb->Ok_0.turns@.len(),
        ra is Ok && 0 <= i < ra->Ok_0.turns@.len() ==> ra->Ok_0.turns@[i].user_input@
            == rb->Ok_0.turns@[i].user_input@ && ra->Ok_0.turns@[i].started_at@
            == rb->Ok_0.turns@[i].started_at@,
{
    if ra is Ok && 0 <= i < ra->Ok_0.turns@.len() {
        let turns = a.threads@[id].turns@;
        law_turns_are_told_as_they_were(ra->Ok_0.turns@, turns, i, 0);
        law_turns_are_told_as_they_were(rb->Ok_0.turns@, turns, i, 0);
    }
}

/// A query that names no thread is answered with the active one, as if that had been named;
/// where none is active, and where what stands for the name is no identifier, the query is
/// turned down.
pub proof fn law_unnamed_threads_are_the_active_one(
    session: Session,
    query: HistoryQuery,
    r: Result<HistoryResponse, Failure>,
)
    requires
        history_told(session, thread_choice(query), r),
    ensures
        query.thread_id is None && session.active_thread is Some ==> ({
            let id = session.active_thread->0;
            &&& r is Ok <==> session.threads@.contains_key(id)
            &&& r is Ok ==> r->Ok_0.thread_id == id && tells_turns(
                r->Ok_0.turns@,
                session.threads@[id].turns@,
            )
            &&& r is Err ==> r->Err_0.status == StatusCode::NotFound && r->Err_0.message@
                == "Thread not found"@
        }),
        query.thread_id is None && session.active_thread is None ==> r is Err && r->Err_0.status
            == StatusCode::NotFound && r->Err_0.message@ == "No active thread"@,
        query.thread_id is Some && uuid_parse(query.thread_id->0@) is None ==> r is Err
            && r->Err_0.status == StatusCode::BadRequest && r->Err_0.message@
            == "Invalid thread_id"@,
{
}

/// A thread is told by its identifier, its state, the number of its turns and its times,
/// none of them changed.
pub proof fn law_threads_are_told_as_they_are(told: ThreadInfo, thread: Thread)
    requires
        told.tells(thread),
    ensures
        told.id == thread.id,
        told.state@ == thread.state@,
        told.turn_count == thread.turns@.len(),
        told.created_at@ == rfc3339_text(thread.created_at.secs(), thread.created_at.nanos()),
        told.updated_at@ == rfc3339_text(thread.updated_at.secs(), thread.updated_at.nanos()),
{
}

/// An order that runs through a map has each of its keys, each of them once, and nothing
/// else.
pub proof fn law_orders_run_through_keys<V>(order: Seq<u128>, map: Map<u128, V>, key: u128)
    requires
        runs_through(order, map),
    ensures
        map.contains_key(key) <==> exists|i: int| 0 <= i < order.len() && #[trigger] order[i]
            == key,
        forall|i: int, j: int|
            0 <= i < order.len() && 0 <= j < order.len() && #[trigger] order[i]
                == #[trigger] order[j] ==> i == j,
{
    assert(map.dom().contains(key) <==> order.to_set().contains(key));
    assert(order.to_set().contains(key) <==> order.contains(key));
}

/// A time that may be missing is written exactly where it is there.
pub proof fn law_optional_times(t: Option<Timestamp>)
    ensures
        optional_time(t) is Some <==> t is Some,
        t is Some ==> optional_time(t) == Some(rfc3339_text(t->0.secs(), t->0.nanos())),
{
}

} // verus!
