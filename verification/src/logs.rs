//! The log route: recent entries first, then the ones that follow.

use vstd::prelude::*;
use crate::reply::{refused, require, Failure, StatusCode};
use crate::state::GatewayState;

verus! {

/// After how many seconds without an entry a sign of life is sent.
pub const KEEP_ALIVE_SECS: u64 = 30;

/// What is done next to stream the log.
#[derive(Clone, Copy, Debug, PartialEq, Eq, Structural)]
pub enum LogStep {
    /// Subscribe to the entries that follow.
    Subscribe,
    /// Take the recent entries.
    Snapshot,
    /// Send the recent entries, and then those that were subscribed to.
    Stream,
}

/// Takes a request for the log.
pub fn logs_events_handler(state: &GatewayState) -> (r: Result<LogStep, Failure>)
    ensures
        state.log_broadcaster ==> r is Ok && r->Ok_0 == LogStep::Subscribe,
        !state.log_broadcaster ==> refused(
            r,
            StatusCode::ServiceUnavailable,
            "Log broadcaster not available"@,
        ),
{
    match require(
        state.log_broadcaster,
        StatusCode::ServiceUnavailable,
        "Log broadcaster not available",
    ) {
        Ok(_) => Ok(LogStep::Subscribe),
        Err(f) => Err(f),
    }
}

/// The step that follows another one. The subscription comes before the snapshot, so that
/// no entry is lost between the two.
pub fn step_after(step: LogStep) -> (r: LogStep)
    ensures
        r == match step {
            LogStep::Subscribe => LogStep::Snapshot,
            LogStep::Snapshot => LogStep::Stream,
            LogStep::Stream => LogStep::Stream,
        },
{
    match step {
        LogStep::Subscribe => LogStep::Snapshot,
        LogStep::Snapshot => LogStep::Stream,
        LogStep::Stream => LogStep::Stream,
    }
}

/// An event on the log stream.
#[derive(Debug, PartialEq, Eq)]
pub struct LogEvent {
    pub event: &'static str,
    pub data: String,
}

impl LogEvent {
    /// Whether the event carries an entry as it was serialised, or nothing where that
    /// failed.
    pub open spec fn carries(self, entry: Result<String, String>) -> bool {
        &&& self.event@ == "log"@
        &&& self.data@ == match entry {
            Ok(data) => data@,
            Err(_) => ""@,
        }
    }
}

/// The event for an entry, as it was serialised.
pub fn log_event(entry: Result<String, String>) -> (r: LogEvent)
    ensures
        r.carries(entry),
{
    let data = match entry {
        Ok(data) => data,
        Err(_) => "".to_owned(),
    };
    LogEvent { event: "log", data }
}

/// The events for the recent entries: one for each, in their order.
pub fn replay(history: Vec<Result<String, String>>) -> (r: Vec<LogEvent>)
    ensures
        r@.len() == history@.len(),
        forall|i: int| 0 <= i < history@.len() ==> (#[trigger] r@[i]).carries(history@[i]),
{
    let mut events: Vec<LogEvent> = Vec::new();
    for entry in it: history.into_iter()
        invariant
            it.seq() == history@,
            events@.len() == it.index(),
            forall|i: int| 0 <= i < it.index() ==> (#[trigger] events@[i]).carries(history@[i]),
    {
        events.push(log_event(entry));
    }
    events
}

/// The event for what the subscription brought: an entry, as it was serialised, or the
/// number of entries that were missed, for which there is no event.
pub fn live_event(received: Result<Result<String, String>, u64>) -> (r: Option<LogEvent>)
    ensures
        match received {
            Ok(entry) => r is Some && r->0.carries(entry),
            Err(_) => r is None,
        },
{
    match received {
        Ok(entry) => Some(log_event(entry)),
        Err(_) => None,
    }
}

/// The last entries of a log.
pub open spec fn recent<T>(log: Seq<T>, kept: nat) -> Seq<T> {
    if log.len() <= kept {
        log
    } else {
        log.skip(log.len() - kept)
    }
}

/// What a browser sees of a log: the recent entries at the time of the snapshot, and then
/// every entry from the time of the subscription on.
pub open spec fn streamed<T>(log: Seq<T>, subscribed: int, snapshot: int, kept: nat) -> Seq<T> {
    recent(log.take(snapshot), kept) + log.skip(subscribed)
}

/// Where the subscription comes before the snapshot, no entry is missing between the
/// recent ones and those that follow.
pub proof fn law_no_gap_before_live<T>(
    log: Seq<T>,
    subscribed: int,
    snapshot: int,
    kept: nat,
    i: int,
)
    requires
        0 <= subscribed <= snapshot <= log.len(),
        0 <= i < log.len(),
        snapshot - kept <= i,
    ensures
        streamed(log, subscribed, snapshot, kept).contains(log[i]),
{
    let history = recent(log.take(snapshot), kept);
    let all = streamed(log, subscribed, snapshot, kept);
    if i < snapshot {
        let start = if snapshot <= kept {
            0
        } else {
            snapshot - kept
        };
        assert(history[i - start] == log[i]);
        assert(all[i - start] == log[i]);
    } else {
        assert(all[history.len() + (i - subscribed)] == log[i]);
    }
}

/// An event on the log stream is a log event, with the entry as it was serialised, or with
/// nothing where that failed.
pub proof fn law_events_carry_their_entries(event: LogEvent, entry: Result<String, String>)
    requires
        event.carries(entry),
    ensures
        event.event@ == "log"@,
        entry is Ok ==> event.data@ == entry->Ok_0@,
        entry is Err ==> event.data@.len() == 0,
{
    reveal_strlit("");
}

/// What is streamed begins with the last entries before the snapshot, as many as are kept
/// and there are, and goes on with every entry from the subscription on, in order.
pub proof fn law_stream_is_history_then_live<T>(
    log: Seq<T>,
    subscribed: int,
    snapshot: int,
    kept: nat,
)
    requires
        0 <= subscribed <= snapshot <= log.len(),
    ensures
        ({
            let n = if snapshot < kept {
                snapshot
            } else {
                kept as int
            };
            streamed(log, subscribed, snapshot, kept) == log.subrange(snapshot - n, snapshot)
                + log.subrange(subscribed, log.len() as int)
        }),
{
    let n = if snapshot < kept {
        snapshot
    } else {
        kept as int
    };
    assert(streamed(log, subscribed, snapshot, kept) =~= log.subrange(snapshot - n, snapshot)
        + log.subrange(subscribed, log.len() as int));
}

} // verus!
