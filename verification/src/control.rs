//! Health, the status of the gateway, and the static files.

use vstd::prelude::*;
use crate::state::GatewayState;

verus! {

/// The answer of a gateway that is up.
#[derive(Debug, PartialEq, Eq)]
pub struct HealthResponse {
    pub status: &'static str,
    pub channel: &'static str,
}

/// Answers that the gateway is up.
pub fn health_handler() -> (r: HealthResponse)
    ensures
        r.status@ == "healthy"@,
        r.channel@ == "gateway"@,
{
    HealthResponse { status: "healthy", channel: "gateway" }
}

/// The media type of the style sheet.
pub fn css_handler() -> (r: &'static str)
    ensures
        r@ == "text/css"@,
{
    "text/css"
}

/// The media type of the script.
pub fn js_handler() -> (r: &'static str)
    ensures
        r@ == "application/javascript"@,
{
    "application/javascript"
}

/// How many browsers are connected, and how.
#[derive(Debug, PartialEq, Eq)]
pub struct GatewayStatusResponse {
    pub sse_connections: u64,
    pub ws_connections: u64,
    pub total_connections: u64,
}

/// The connections that the WebSocket tracker counts; none where there is no tracker.
pub open spec fn tracked_connections(tracker: Option<u64>) -> u64 {
    match tracker {
        Some(n) => n,
        None => 0,
    }
}

/// Answers with the number of connections.
pub fn gateway_status_handler(state: &GatewayState, sse_connections: u64) -> (r:
    GatewayStatusResponse)
    requires
        sse_connections + tracked_connections(state.ws_tracker) <= u64::MAX,
    ensures
        r.sse_connections == sse_connections,
        r.ws_connections == tracked_connections(state.ws_tracker),
        r.total_connections == r.sse_connections + r.ws_connections,
{
    let ws_connections: u64 = match state.ws_tracker {
        Some(n) => n,
        None => 0,
    };
    GatewayStatusResponse {
        sse_connections,
        ws_connections,
        total_connections: sse_connections + ws_connections,
    }
}

/// Where there is no tracker, no connection is counted, and where there is one, those that
/// it counts.
pub proof fn law_untracked_connections_do_not_count(n: u64)
    ensures
        tracked_connections(None) == 0,
        tracked_connections(Some(n)) == n,
{
}

} // verus!
