//! What handlers answer with.

use vstd::prelude::*;

verus! {

/// The HTTP statuses that the gateway answers with.
#[derive(Clone, Copy, Debug, PartialEq, Eq, Structural)]
pub enum StatusCode {
    Accepted,
    BadRequest,
    Forbidden,
    NotFound,
    Conflict,
    InternalServerError,
    NotImplemented,
    ServiceUnavailable,
}

impl StatusCode {
    /// The number of a status.
    pub open spec fn code(self) -> u16 {
        match self {
            StatusCode::Accepted => 202,
            StatusCode::BadRequest => 400,
            StatusCode::Forbidden => 403,
            StatusCode::NotFound => 404,
            StatusCode::Conflict => 409,
            StatusCode::InternalServerError => 500,
            StatusCode::NotImplemented => 501,
            StatusCode::ServiceUnavailable => 503,
        }
    }

    /// The number of the status.
    pub fn as_u16(&self) -> (r: u16)
        ensures
            r == self.code(),
    {
        match self {
            StatusCode::Accepted => 202,
            StatusCode::BadRequest => 400,
            StatusCode::Forbidden => 403,
            StatusCode::NotFound => 404,
            StatusCode::Conflict => 409,
            StatusCode::InternalServerError => 500,
            StatusCode::NotImplemented => 501,
            StatusCode::ServiceUnavailable => 503,
        }
    }
}

/// A request that is turned down: the status and the text of the answer.
#[derive(Debug, PartialEq, Eq)]
pub struct Failure {
    pub status: StatusCode,
    pub message: String,
}

impl Failure {
    /// Whether the answer has this status and this text.
    pub open spec fn says(self, status: StatusCode, text: Seq<char>) -> bool {
        self.status == status && self.message@ == text
    }

    /// The answer with this status and this text.
    pub fn new(status: StatusCode, message: &str) -> (r: Failure)
        ensures
            r.says(status, message@),
    {
        Failure { status, message: message.to_owned() }
    }
}

/// Whether a request is turned down with this status and this text.
pub open spec fn refused<T>(r: Result<T, Failure>, status: StatusCode, text: Seq<char>) -> bool {
    r matches Err(f) && f.says(status, text)
}

/// Turns a request down with this status and this text where something it needs is missing.
pub fn require(present: bool, status: StatusCode, message: &str) -> (r: Result<(), Failure>)
    ensures
        present ==> r is Ok,
        !present ==> refused(r, status, message@),
{
    if present {
        Ok(())
    } else {
        Err(Failure::new(status, message))
    }
}

/// Turns a request down as a bad one where a text in it is not an identifier.
pub fn require_id(parsed: Option<u128>, message: &str) -> (r: Result<u128, Failure>)
    ensures
        match parsed {
            Some(id) => r is Ok && r->Ok_0 == id,
            None => refused(r, StatusCode::BadRequest, message@),
        },
{
    match parsed {
        Some(id) => Ok(id),
        None => Err(Failure::new(StatusCode::BadRequest, message)),
    }
}

/// Turns a request down with the text of the error where a service failed.
pub fn require_done<T>(outcome: Result<T, String>) -> (r: Result<T, Failure>)
    ensures
        match outcome {
            Ok(value) => r is Ok && r->Ok_0 == value,
            Err(e) => refused(r, StatusCode::InternalServerError, e@),
        },
{
    match outcome {
        Ok(value) => Ok(value),
        Err(e) => Err(Failure { status: StatusCode::InternalServerError, message: e }),
    }
}

/// The view of a text that may be missing.
pub open spec fn optional_text(text: Option<String>) -> Option<Seq<char>> {
    match text {
        Some(s) => Some(s@),
        None => None,
    }
}

/// The answer to a request that does something.
#[derive(Debug, PartialEq, Eq)]
pub struct ActionResponse {
    pub success: bool,
    pub message: String,
    pub auth_url: Option<String>,
    pub awaiting_token: Option<bool>,
    pub instructions: Option<String>,
}

impl ActionResponse {
    /// Whether the answer reports this outcome with this text and nothing else.
    pub open spec fn reports(self, success: bool, text: Seq<char>) -> bool {
        &&& self.success == success
        &&& self.message@ == text
        &&& self.auth_url is None
        &&& self.awaiting_token is None
        &&& self.instructions is None
    }

    /// The answer to a request that was carried out.
    pub fn ok(message: String) -> (r: ActionResponse)
        ensures
            r.reports(true, message@),
    {
        ActionResponse {
            success: true,
            message,
            auth_url: None,
            awaiting_token: None,
            instructions: None,
        }
    }

    /// The answer to a request that could not be carried out.
    pub fn fail(message: String) -> (r: ActionResponse)
        ensures
            r.reports(false, message@),
    {
        ActionResponse {
            success: false,
            message,
            auth_url: None,
            awaiting_token: None,
            instructions: None,
        }
    }
}

/// The answer that passes an outcome on: the text of the result, or that of the error.
pub fn action_outcome(outcome: Result<String, String>) -> (r: ActionResponse)
    ensures
        match outcome {
            Ok(message) => r.reports(true, message@),
            Err(e) => r.reports(false, e@),
        },
{
    match outcome {
        Ok(message) => ActionResponse::ok(message),
        Err(e) => ActionResponse::fail(e),
    }
}

/// A refusal is an answer with this status and this text and nothing else.
pub proof fn law_refusals_say_why<T>(r: Result<T, Failure>, status: StatusCode, text: Seq<char>)
    ensures
        refused(r, status, text) <==> (r is Err && r->Err_0.status == status
            && r->Err_0.message@ == text),
        forall|f: Failure|
            #[trigger] f.says(status, text) <==> f.status == status && f.message@ == text,
{
}

/// An answer that reports an outcome carries that outcome and that text, and asks for
/// nothing.
pub proof fn law_reports_are_plain(r: ActionResponse, success: bool, text: Seq<char>)
    ensures
        r.reports(success, text) <==> (r.success == success && r.message@ == text && r.auth_url
            is None && r.awaiting_token is None && r.instructions is None),
{
}

/// A text that may be missing is seen as missing exactly where it is, and else as the text.
pub proof fn law_optional_texts(text: Option<String>)
    ensures
        text is Some <==> optional_text(text) is Some,
        text is Some ==> optional_text(text) == Some(text->0@),
{
}

/// Every status has its own number: an acceptance is a success, what the client can mend is
/// a client error, and what it cannot is a server error.
pub proof fn law_statuses_have_numbers(a: StatusCode, b: StatusCode)
    ensures
        a.code() == b.code() ==> a == b,
        StatusCode::Accepted.code() == 202,
        StatusCode::BadRequest.code() == 400,
        StatusCode::Forbidden.code() == 403,
        StatusCode::NotFound.code() == 404,
        StatusCode::Conflict.code() == 409,
        StatusCode::InternalServerError.code() == 500,
        StatusCode::NotImplemented.code() == 501,
        StatusCode::ServiceUnavailable.code() == 503,
{
}

} // verus!
