//! The extension routes: what is installed, and installing, activating and removing
//! extensions.

use vstd::prelude::*;
use crate::chat::AuthResult;
use crate::reply::{
    action_outcome, optional_text, refused, require, require_done, ActionResponse, Failure,
    StatusCode,
};
use crate::state::GatewayState;
use crate::text::{
    contains_text, joined, joined3, law_occurrence_splits_text, occurs_in, same_text,
};

verus! {

/// Turns a request down where the gateway has no extension manager.
pub fn extensions_available(state: &GatewayState) -> (r: Result<(), Failure>)
    ensures
        state.extension_manager ==> r is Ok,
        !state.extension_manager ==> refused(
            r,
            StatusCode::NotImplemented,
            "Extension manager not available (secrets store required)"@,
        ),
{
    require(
        state.extension_manager,
        StatusCode::NotImplemented,
        "Extension manager not available (secrets store required)",
    )
}

// --- Lists ---

/// An extension, as the extension manager knows it.
#[derive(Debug)]
pub struct InstalledExtension {
    pub name: String,
    /// The name of its kind.
    pub kind: String,
    pub description: Option<String>,
    pub url: Option<String>,
    pub authenticated: bool,
    pub active: bool,
    pub tools: Vec<String>,
}

/// What a list of extensions tells of one.
#[derive(Debug, PartialEq, Eq)]
pub struct ExtensionInfo {
    pub name: String,
    pub kind: String,
    pub description: Option<String>,
    pub url: Option<String>,
    pub authenticated: bool,
    pub active: bool,
    pub tools: Vec<String>,
}

impl ExtensionInfo {
    /// Whether this tells of an extension.
    pub open spec fn tells(self, ext: InstalledExtension) -> bool {
        &&& self.name@ == ext.name@
        &&& self.kind@ == ext.kind@
        &&& optional_text(self.description) == optional_text(ext.description)
        &&& optional_text(self.url) == optional_text(ext.url)
        &&& self.authenticated == ext.authenticated
        &&& self.active == ext.active
        &&& self.tools@ == ext.tools@
    }
}

/// The extensions.
#[derive(Debug, PartialEq, Eq)]
pub struct ExtensionListResponse {
    pub extensions: Vec<ExtensionInfo>,
}

/// Takes a request for the extensions: the kind that the extension manager is asked for,
/// which is none in particular.
pub fn extensions_list_handler(state: &GatewayState) -> (r: Result<Option<ExtensionKind>, Failure>)
    ensures
        state.extension_manager ==> r is Ok && r->Ok_0 is None,
        !state.extension_manager ==> refused(
            r,
            StatusCode::NotImplemented,
            "Extension manager not available (secrets store required)"@,
        ),
{
    match extensions_available(state) {
        Ok(_) => Ok(None),
        Err(f) => Err(f),
    }
}

/// Answers with the installed extensions, in the order of the extension manager.
pub fn extensions_listed(listed: Result<Vec<InstalledExtension>, String>) -> (r: Result<
    ExtensionListResponse,
    Failure,
>)
    ensures
        match listed {
            Ok(installed) => {
                &&& r is Ok
                &&& r->Ok_0.extensions@.len() == installed@.len()
                &&& forall|i: int|
                    0 <= i < installed@.len() ==> (#[trigger] r->Ok_0.extensions@[i]).tells(
                        installed@[i],
                    )
            },
            Err(e) => refused(r, StatusCode::InternalServerError, e@),
        },
{
    let installed = match require_done(listed) {
        Ok(installed) => installed,
        Err(f) => {
            return Err(f);
        },
    };
    let mut extensions: Vec<ExtensionInfo> = Vec::new();
    for ext in it: installed.into_iter()
        invariant
            it.seq() == installed@,
            extensions@.len() == it.index(),
            forall|i: int|
                0 <= i < it.index() ==> (#[trigger] extensions@[i]).tells(installed@[i]),
    {
        extensions.push(
            ExtensionInfo {
                name: ext.name,
                kind: ext.kind,
                description: ext.description,
                url: ext.url,
                authenticated: ext.authenticated,
                active: ext.active,
                tools: ext.tools,
            },
        );
    }
    Ok(ExtensionListResponse { extensions })
}

/// A tool, as the registry defines it.
#[derive(Debug)]
pub struct ToolDefinition {
    pub name: String,
    pub description: String,
    pub parameters: serde_json::Value,
}

/// What a list of tools tells of one.
#[derive(Debug, PartialEq, Eq)]
pub struct ToolInfo {
    pub name: String,
    pub description: String,
}

/// The tools.
#[derive(Debug, PartialEq, Eq)]
pub struct ToolListResponse {
    pub tools: Vec<ToolInfo>,
}

/// Takes a request for the tools: the registry is asked for its definitions.
pub fn extensions_tools_handler(state: &GatewayState) -> (r: Result<(), Failure>)
    ensures
        state.tool_registry ==> r is Ok,
        !state.tool_registry ==> refused(
            r,
            StatusCode::ServiceUnavailable,
            "Tool registry not available"@,
        ),
{
    require(state.tool_registry, StatusCode::ServiceUnavailable, "Tool registry not available")
}

/// Answers with the registered tools, in the order of the registry.
pub fn tools_listed(definitions: Vec<ToolDefinition>) -> (r: ToolListResponse)
    ensures
        r.tools@.len() == definitions@.len(),
        forall|i: int|
            0 <= i < definitions@.len() ==> (#[trigger] r.tools@[i]).name@ == definitions@[i].name@
                && r.tools@[i].description@ == definitions@[i].description@,
{
    let mut tools: Vec<ToolInfo> = Vec::new();
    for td in it: definitions.into_iter()
        invariant
            it.seq() == definitions@,
            tools@.len() == it.index(),
            forall|i: int|
                0 <= i < it.index() ==> (#[trigger] tools@[i]).name@ == definitions@[i].name@
                    && tools@[i].description@ == definitions@[i].description@,
    {
        tools.push(ToolInfo { name: td.name, description: td.description });
    }
    ToolListResponse { tools }
}

// --- Installing and removing ---

/// The kinds of extensions.
#[derive(Clone, Copy, Debug, PartialEq, Eq, Structural)]
pub enum ExtensionKind {
    McpServer,
    WasmTool,
    WasmChannel,
}

/// A request to install an extension.
#[derive(Debug)]
pub struct InstallExtensionRequest {
    pub name: String,
    pub url: Option<String>,
    pub kind: Option<String>,
}

/// What the extension manager is asked to install.
#[derive(Debug, PartialEq, Eq)]
pub struct InstallCall {
    pub name: String,
    pub url: Option<String>,
    pub kind_hint: Option<ExtensionKind>,
}

/// The kind that a text names, if it names one.
pub open spec fn named_kind(kind: Option<Seq<char>>) -> Option<ExtensionKind> {
    match kind {
        None => None,
        Some(k) => if k == "mcp_server"@ {
            Some(ExtensionKind::McpServer)
        } else if k == "wasm_tool"@ {
            Some(ExtensionKind::WasmTool)
        } else if k == "wasm_channel"@ {
            Some(ExtensionKind::WasmChannel)
        } else {
            None
        },
    }
}

/// Takes a request to install an extension: what the extension manager is asked. Its answer
/// is passed on by `action_outcome`.
pub fn extensions_install_handler(state: &GatewayState, req: InstallExtensionRequest) -> (r: Result<
    InstallCall,
    Failure,
>)
    ensures
        if state.extension_manager {
            &&& r is Ok
            &&& r->Ok_0.name@ == req.name@
            &&& optional_text(r->Ok_0.url) == optional_text(req.url)
            &&& r->Ok_0.kind_hint == named_kind(optional_text(req.kind))
        } else {
            refused(
                r,
                StatusCode::NotImplemented,
                "Extension manager not available (secrets store required)"@,
            )
        },
{
    match extensions_available(state) {
        Err(f) => Err(f),
        Ok(_) => {
            let kind_hint = match &req.kind {
                None => None,
                Some(k) => if same_text(k.as_str(), "mcp_server") {
                    Some(ExtensionKind::McpServer)
                } else if same_text(k.as_str(), "wasm_tool") {
                    Some(ExtensionKind::WasmTool)
                } else if same_text(k.as_str(), "wasm_channel") {
                    Some(ExtensionKind::WasmChannel)
                } else {
                    None
                },
            };
            Ok(InstallCall { name: req.name, url: req.url, kind_hint })
        },
    }
}

/// Takes a request to remove an extension: the name of the one to remove.
pub fn extensions_remove_handler(state: &GatewayState, name: String) -> (r: Result<String, Failure>)
    ensures
        state.extension_manager ==> r is Ok && r->Ok_0@ == name@,
        !state.extension_manager ==> refused(
            r,
            StatusCode::NotImplemented,
            "Extension manager not available (secrets store required)"@,
        ),
{
    match extensions_available(state) {
        Ok(_) => Ok(name),
        Err(f) => Err(f),
    }
}

/// Answers with what the extension manager said when it removed an extension.
pub fn extension_removed(removed: Result<String, String>) -> (r: ActionResponse)
    ensures
        match removed {
            Ok(message) => r.reports(true, message@),
            Err(e) => r.reports(false, e@),
        },
{
    action_outcome(removed)
}

// --- Activating ---

/// What is done next about an extension that is to be activated.
#[derive(Debug, PartialEq, Eq)]
pub enum ActivateStep {
    /// Ask the extension manager to activate the extension.
    Activate { name: String },
    /// Ask the extension manager to authenticate the extension, without a token.
    Authenticate { name: String },
    /// Ask the extension manager once more to activate the extension.
    Retry { name: String },
    /// Answer.
    Reply(ActionResponse),
    /// Turn the request down.
    Fail(Failure),
}

/// Takes a request to activate an extension.
pub fn extensions_activate_handler(state: &GatewayState, name: String) -> (r: ActivateStep)
    ensures
        if state.extension_manager {
            r == (ActivateStep::Activate { name })
        } else {
            r matches ActivateStep::Fail(f) && f.says(
                StatusCode::NotImplemented,
                "Extension manager not available (secrets store required)"@,
            )
        },
{
    match extensions_available(state) {
        Ok(_) => ActivateStep::Activate { name },
        Err(f) => ActivateStep::Fail(f),
    }
}

/// Whether an error says that the extension has to be authenticated.
pub open spec fn needs_auth(error: Seq<char>) -> bool {
    ||| occurs_in("authentication"@, error)
    ||| occurs_in("401"@, error)
    ||| occurs_in("Unauthorized"@, error)
}

/// The step that follows the first attempt to activate an extension.
pub open spec fn activation_decided(
    name: String,
    activated: Result<String, String>,
    r: ActivateStep,
) -> bool {
    match activated {
        Ok(message) => r matches ActivateStep::Reply(reply) && reply.reports(true, message@),
        Err(e) => if needs_auth(e@) {
            r == (ActivateStep::Authenticate { name })
        } else {
            r matches ActivateStep::Reply(reply) && reply.reports(false, e@)
        },
    }
}

/// Goes on once the extension manager has tried to activate the extension: where it failed
/// for want of authentication, that is tried first.
pub fn activation_tried(name: String, activated: Result<String, String>) -> (r: ActivateStep)
    ensures
        activation_decided(name, activated, r),
{
    match activated {
        Ok(message) => ActivateStep::Reply(ActionResponse::ok(message)),
        Err(e) => {
            if contains_text(e.as_str(), "authentication") || contains_text(e.as_str(), "401")
                || contains_text(e.as_str(), "Unauthorized") {
                ActivateStep::Authenticate { name }
            } else {
                ActivateStep::Reply(ActionResponse::fail(e))
            }
        },
    }
}

/// The step that follows the attempt to authenticate an extension.
pub open spec fn authentication_decided(
    name: String,
    result: Result<AuthResult, String>,
    r: ActivateStep,
) -> bool {
    match result {
        Err(e) => r matches ActivateStep::Reply(reply) && reply.reports(
            false,
            "Authentication failed: "@ + e@,
        ),
        Ok(auth) => if auth.status@ == "authenticated"@ {
            r == (ActivateStep::Retry { name })
        } else {
            &&& r matches ActivateStep::Reply(reply)
            &&& !reply.success
            &&& reply.message@ == match auth.instructions {
                Some(text) => text@,
                None => "'"@ + name@ + "' requires authentication."@,
            }
            &&& optional_text(reply.auth_url) == optional_text(auth.auth_url)
            &&& reply.awaiting_token == Some(auth.awaiting_token)
            &&& optional_text(reply.instructions) == optional_text(auth.instructions)
        },
    }
}

/// Goes on once the extension manager has tried to authenticate the extension. Where the
/// user has to do something about it, the answer says what.
pub fn activation_authenticated(name: String, result: Result<AuthResult, String>) -> (r:
    ActivateStep)
    ensures
        authentication_decided(name, result, r),
{
    match result {
        Err(e) => ActivateStep::Reply(
            ActionResponse::fail(joined("Authentication failed: ", e.as_str())),
        ),
        Ok(auth) => if same_text(auth.status.as_str(), "authenticated") {
            ActivateStep::Retry { name }
        } else {
            let message = match &auth.instructions {
                Some(text) => text.clone(),
                None => joined3("'", name.as_str(), "' requires authentication."),
            };
            ActivateStep::Reply(
                ActionResponse {
                    success: false,
                    message,
                    auth_url: auth.auth_url,
                    awaiting_token: Some(auth.awaiting_token),
                    instructions: auth.instructions,
                },
            )
        },
    }
}

/// Answers with what came of the second attempt to activate the extension.
pub fn activation_retried(activated: Result<String, String>) -> (r: ActionResponse)
    ensures
        match activated {
            Ok(message) => r.reports(true, message@),
            Err(e) => r.reports(false, e@),
        },
{
    action_outcome(activated)
}

/// An extension is reported as active only where an attempt to activate it succeeded: the
/// first one, or the one that follows an authentication that went through. Authenticating
/// by itself never counts as success.
pub proof fn law_success_needs_activation(
    name: String,
    first: Result<String, String>,
    auth: Result<AuthResult, String>,
    after_first: ActivateStep,
    after_auth: ActivateStep,
)
    requires
        activation_decided(name, first, after_first),
        authentication_decided(name, auth, after_auth),
    ensures
        after_first matches ActivateStep::Reply(reply) ==> (reply.success <==> first is Ok),
        after_first is Authenticate ==> first is Err,
        after_first is Reply || after_first is Authenticate,
        after_auth matches ActivateStep::Reply(reply) ==> !reply.success,
        after_auth is Retry <==> (auth matches Ok(a) && a.status@ == "authenticated"@),
        after_auth is Reply || after_auth is Retry,
{
}

// --- What holds of the answers ---

/// An extension is told as the extension manager has it, in every part.
pub proof fn law_extensions_are_told_as_they_are(told: ExtensionInfo, ext: InstalledExtension)
    requires
        told.tells(ext),
    ensures
        told.name@ == ext.name@,
        told.kind@ == ext.kind@,
        told.description is Some <==> ext.description is Some,
        told.description is Some ==> told.description->0@ == ext.description->0@,
        told.url is Some <==> ext.url is Some,
        told.url is Some ==> told.url->0@ == ext.url->0@,
        told.authenticated == ext.authenticated,
        told.active == ext.active,
        told.tools@ == ext.tools@,
{
}

/// A hint is given exactly where the text is the name of a kind, and for that kind; two
/// texts that give the same hint are the same text.
pub proof fn law_hints_name_their_kind(a: Option<Seq<char>>, b: Option<Seq<char>>)
    ensures
        named_kind(a) == Some(ExtensionKind::McpServer) <==> a == Some("mcp_server"@),
        named_kind(a) == Some(ExtensionKind::WasmTool) <==> a == Some("wasm_tool"@),
        named_kind(a) == Some(ExtensionKind::WasmChannel) <==> a == Some("wasm_channel"@),
        named_kind(a) is Some && named_kind(a) == named_kind(b) ==> a == b,
{
    reveal_strlit("mcp_server");
    reveal_strlit("wasm_tool");
    reveal_strlit("wasm_channel");
    assert("mcp_server"@.len() == 10 && "wasm_tool"@.len() == 9 && "wasm_channel"@.len() == 12);
}

/// An error asks for authentication exactly where one of three words stands somewhere in
/// it, with whatever before and behind.
pub proof fn law_errors_that_ask_for_authentication(error: Seq<char>)
    ensures
        needs_auth(error) <==> exists|front: Seq<char>, word: Seq<char>, back: Seq<char>|
            (word == "authentication"@ || word == "401"@ || word == "Unauthorized"@) && error
                == #[trigger] (front + word + back),
{
    law_occurrence_splits_text("authentication"@, error);
    law_occurrence_splits_text("401"@, error);
    law_occurrence_splits_text("Unauthorized"@, error);
    if occurs_in("authentication"@, error) {
        let (f, b) = choose|f: Seq<char>, b: Seq<char>|
            error == #[trigger] (f + "authentication"@ + b);
        assert(error == f + "authentication"@ + b);
    }
    if occurs_in("401"@, error) {
        let (f, b) = choose|f: Seq<char>, b: Seq<char>| error == #[trigger] (f + "401"@ + b);
        assert(error == f + "401"@ + b);
    }
    if occurs_in("Unauthorized"@, error) {
        let (f, b) = choose|f: Seq<char>, b: Seq<char>|
            error == #[trigger] (f + "Unauthorized"@ + b);
        assert(error == f + "Unauthorized"@ + b);
    }
}

/// An attempt to activate an extension is answered with its own text, but where it failed
/// for want of authentication, which is then tried for that extension.
pub proof fn law_activation_attempts_are_told(
    name: String,
    activated: Result<String, String>,
    r: ActivateStep,
)
    requires
        activation_decided(name, activated, r),
    ensures
        r is Authenticate <==> (activated matches Err(e) && needs_auth(e@)),
        r matches ActivateStep::Authenticate { name: n } ==> n@ == name@,
        r is Reply <==> !(r is Authenticate),
        r matches ActivateStep::Reply(reply) ==> (reply.success <==> activated is Ok)
            && reply.message@ == (if activated is Ok {
            activated->Ok_0@
        } else {
            activated->Err_0@
        }) && reply.auth_url is None && reply.awaiting_token is None && reply.instructions is None,
{
}

/// Where an authentication went through, the same extension is tried again. Where it is
/// still in progress, the user is told everything that the extension manager said of it:
/// its instructions, its address, and whether it waits for a token. Where it failed, the
/// user is told why.
pub proof fn law_authentication_is_told(
    name: String,
    result: Result<AuthResult, String>,
    r: ActivateStep,
)
    requires
        authentication_decided(name, result, r),
    ensures
        r is Retry <==> (result matches Ok(auth) && auth.status@ == "authenticated"@),
        r matches ActivateStep::Retry { name: n } ==> n@ == name@,
        r is Reply <==> !(r is Retry),
        r matches ActivateStep::Reply(reply) ==> !reply.success,
        result matches Err(e) ==> (r matches ActivateStep::Reply(reply) && reply.message@
            == "Authentication failed: "@ + e@ && reply.auth_url is None && reply.awaiting_token
            is None && reply.instructions is None),
        result matches Ok(auth) ==> (r matches ActivateStep::Reply(reply) ==> (
        reply.awaiting_token is Some && (reply.awaiting_token->0 <==> auth.awaiting_token) && (
        reply.auth_url is Some <==> auth.auth_url is Some) && (reply.auth_url is Some
            ==> reply.auth_url->0@ == auth.auth_url->0@) && (reply.instructions is Some
            <==> auth.instructions is Some) && (reply.instructions is Some
            ==> reply.instructions->0@ == auth.instructions->0@ && reply.message@
            == auth.instructions->0@) && (reply.instructions is None ==> reply.message@ == "'"@
            + name@ + "' requires authentication."@))),
{
}

/// Two authentications in progress that differ in whether they wait for a token are
/// answered differently in that.
pub proof fn law_waiting_for_a_token_shows(
    name: String,
    a: AuthResult,
    b: AuthResult,
    ra: ActionResponse,
    rb: ActionResponse,
)
    requires
        authentication_decided(name, Ok(a), ActivateStep::Reply(ra)),
        authentication_decided(name, Ok(b), ActivateStep::Reply(rb)),
    ensures
        ra.awaiting_token == rb.awaiting_token <==> a.awaiting_token == b.awaiting_token,
        ra.awaiting_token == Some(true) <==> a.awaiting_token,
{
}

} // verus!
