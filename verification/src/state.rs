//! What the gateway holds: which services are attached to it, the sessions, and the
//! prompts that wait for their jobs.

use std::collections::{HashMap, VecDeque};

use vstd::prelude::*;
use vstd::std_specs::hash::*;
use crate::clock::Timestamp;

verus! {

broadcast use vstd::std_specs::hash::group_hash_axioms;

/// What the handlers read of the gateway: which services are attached to it, and for whom
/// it runs.
#[derive(Debug)]
pub struct GatewayState {
    /// Whether the channel to the agent loop is open.
    pub msg_tx: bool,
    /// Whether there is a workspace for the memory routes.
    pub workspace: bool,
    /// Whether there is a session manager.
    pub session_manager: bool,
    /// Whether there is a log broadcaster.
    pub log_broadcaster: bool,
    /// Whether there is an extension manager.
    pub extension_manager: bool,
    /// Whether there is a registry of tools.
    pub tool_registry: bool,
    /// Whether there is a database for sandbox jobs.
    pub store: bool,
    /// Whether there is a manager for the containers of sandbox jobs.
    pub job_manager: bool,
    /// Whether follow-up prompts can be queued.
    pub prompt_queue: bool,
    /// The user for whom the gateway runs.
    pub user_id: String,
    /// The connections that the WebSocket tracker counts, if there is one.
    pub ws_tracker: Option<u64>,
}

/// A call of a tool within a turn.
#[derive(Debug)]
pub struct ToolCall {
    pub name: String,
    pub result: Option<String>,
    pub error: Option<String>,
}

/// A turn of a conversation.
#[derive(Debug)]
pub struct Turn {
    pub turn_number: usize,
    pub user_input: String,
    pub response: Option<String>,
    /// The name of the state that the turn is in.
    pub state: String,
    pub started_at: Timestamp,
    pub completed_at: Option<Timestamp>,
    pub tool_calls: Vec<ToolCall>,
}

/// A conversation.
#[derive(Debug)]
pub struct Thread {
    pub id: u128,
    /// The name of the state that the thread is in.
    pub state: String,
    pub turns: Vec<Turn>,
    pub created_at: Timestamp,
    pub updated_at: Timestamp,
    /// The extension for which the thread waits for a token.
    pub pending_auth: Option<String>,
}

/// The conversations of a user.
#[derive(Debug)]
pub struct Session {
    pub active_thread: Option<u128>,
    pub threads: HashMap<u128, Thread>,
}

/// A thread that waits for no token.
pub open spec fn without_pending_auth(thread: Thread) -> Thread {
    Thread { pending_auth: None, ..thread }
}

/// The threads once the active one waits for no token any more.
pub open spec fn auth_cleared(active: Option<u128>, threads: Map<u128, Thread>) -> Map<
    u128,
    Thread,
> {
    match active {
        Some(id) => if threads.contains_key(id) {
            threads.insert(id, without_pending_auth(threads[id]))
        } else {
            threads
        },
        None => threads,
    }
}

/// Clear pending auth mode on the active thread. Nothing else changes, and nothing at all
/// where no thread is active or the active one is not there.
pub fn clear_auth_mode(session: &mut Session)
    ensures
        final(session).active_thread == old(session).active_thread,
        final(session).threads@ == auth_cleared(old(session).active_thread, old(session).threads@),
{
    if let Some(id) = session.active_thread {
        if let Some(thread) = session.threads.remove(&id) {
            let mut thread = thread;
            thread.pending_auth = None;
            session.threads.insert(id, thread);
        }
    }
    assert(session.threads@ =~= auth_cleared(old(session).active_thread, old(session).threads@));
}

/// The user in whose session the auth mode is cleared: that of the gateway. Where there is
/// no session manager there is no session to clear it in.
pub fn auth_session(state: &GatewayState) -> (r: Option<String>)
    ensures
        state.session_manager ==> r is Some && r->0@ == state.user_id@,
        !state.session_manager ==> r is None,
{
    if state.session_manager {
        Some(state.user_id.clone())
    } else {
        None
    }
}

/// Clearing the auth mode leaves every thread but the active one as it was, leaves no
/// thread out and adds none, and the active thread waits for no token afterwards and is
/// else as it was.
pub proof fn law_clear_touches_active_only(active: Option<u128>, threads: Map<u128, Thread>)
    ensures
        auth_cleared(active, threads).dom() == threads.dom(),
        forall|id: u128|
            threads.contains_key(id) && active != Some(id) ==> #[trigger] auth_cleared(
                active,
                threads,
            )[id] == threads[id],
        active matches Some(id) ==> threads.contains_key(id) ==> ({
            let after = auth_cleared(active, threads)[id];
            &&& after.pending_auth is None
            &&& after.id == threads[id].id
            &&& after.state == threads[id].state
            &&& after.turns == threads[id].turns
            &&& after.created_at == threads[id].created_at
            &&& after.updated_at == threads[id].updated_at
        }),
{
    assert(auth_cleared(active, threads).dom() =~= threads.dom());
}

/// Clearing the auth mode twice is clearing it once.
pub proof fn law_clear_is_idempotent(active: Option<u128>, threads: Map<u128, Thread>)
    ensures
        auth_cleared(active, auth_cleared(active, threads)) == auth_cleared(active, threads),
{
    assert(auth_cleared(active, auth_cleared(active, threads)) =~= auth_cleared(active, threads));
}

/// A prompt that waits for its job to take it.
#[derive(Debug, PartialEq, Eq)]
pub struct PendingPrompt {
    pub content: String,
    /// Whether the job is done once it has taken the prompt.
    pub done: bool,
}

/// Maps job IDs to pending follow-up prompts, the one that came first in front.
#[derive(Debug)]
pub struct PromptQueue {
    pub pending: HashMap<u128, VecDeque<PendingPrompt>>,
}

impl View for PromptQueue {
    type V = Map<u128, VecDeque<PendingPrompt>>;

    open spec fn view(&self) -> Map<u128, VecDeque<PendingPrompt>> {
        self.pending@
    }
}

impl PromptQueue {
    /// The prompts that wait for a job.
    pub open spec fn waiting(self, job_id: u128) -> Seq<PendingPrompt> {
        if self@.contains_key(job_id) {
            self@[job_id]@
        } else {
            seq![]
        }
    }

    /// A queue in which nothing waits.
    pub fn new() -> (r: PromptQueue)
        ensures
            r@ == Map::<u128, VecDeque<PendingPrompt>>::empty(),
            forall|job_id: u128| #[trigger] r.waiting(job_id) == Seq::<PendingPrompt>::empty(),
    {
        PromptQueue { pending: HashMap::new() }
    }

    /// Whether the queue has become another one in which one more prompt waits for a job,
    /// behind those that waited for it already. The job has a queue then, and the queues of
    /// other jobs, those that there are, stay as they were.
    pub open spec fn gains(self, after: PromptQueue, job_id: u128, prompt: PendingPrompt) -> bool {
        &&& after.waiting(job_id) == self.waiting(job_id).push(prompt)
        &&& after@.dom() == self@.dom().insert(job_id)
        &&& forall|other: u128|
            other != job_id && self@.contains_key(other) ==> #[trigger] after@[other]
                == self@[other]
    }

    /// Lets a prompt wait for a job.
    pub fn push(&mut self, job_id: u128, prompt: PendingPrompt)
        ensures
            old(self).gains(*final(self), job_id, prompt),
    {
        let mut queue = match self.pending.remove(&job_id) {
            Some(queue) => queue,
            None => VecDeque::new(),
        };
        queue.push_back(prompt);
        self.pending.insert(job_id, queue);
        assert(self.waiting(job_id) =~= old(self).waiting(job_id).push(prompt));
        assert(self@.dom() =~= old(self)@.dom().insert(job_id));
    }
}

/// A prompt for a job changes nothing of what waits for other jobs, and a second one for
/// the same job waits behind the first.
pub proof fn law_prompts_wait_in_order(
    before: PromptQueue,
    between: PromptQueue,
    after: PromptQueue,
    job_id: u128,
    first: PendingPrompt,
    second: PendingPrompt,
    other: u128,
)
    requires
        before.gains(between, job_id, first),
        between.gains(after, job_id, second),
        other != job_id,
    ensures
        after.waiting(job_id) == before.waiting(job_id).push(first).push(second),
        after.waiting(other) == before.waiting(other),
        after@.contains_key(other) == before@.contains_key(other),
{
    assert(between@.contains_key(other) == before@.dom().contains(other));
    assert(after@.contains_key(other) == between@.dom().contains(other));
}

/// A prompt ends the queue of its job, which is a new one where the job had none, and is
/// the only thing that is added.
pub proof fn law_prompt_ends_its_queue(
    before: PromptQueue,
    after: PromptQueue,
    job_id: u128,
    prompt: PendingPrompt,
    other: u128,
)
    requires
        before.gains(after, job_id, prompt),
        other != job_id,
    ensures
        after.pending@.contains_key(job_id),
        after.pending@[job_id]@.len() > 0,
        after.pending@[job_id]@.last() == prompt,
        before.pending@.contains_key(job_id) ==> after.pending@[job_id]@.drop_last()
            == before.pending@[job_id]@,
        !before.pending@.contains_key(job_id) ==> after.pending@[job_id]@.len() == 1,
        after.pending@.contains_key(other) <==> before.pending@.contains_key(other),
        before.pending@.contains_key(other) ==> after.pending@[other] == before.pending@[other],
{
    assert(after@.dom().contains(job_id));
    assert(after@.dom().contains(other) == before@.dom().contains(other));
    assert(after.waiting(job_id).drop_last() =~= before.waiting(job_id));
}

/// A thread that waits for no token any more is else the thread that it was.
pub proof fn law_only_the_wait_ends(thread: Thread)
    ensures
        without_pending_auth(thread).pending_auth is None,
        without_pending_auth(thread) == (Thread {
            pending_auth: without_pending_auth(thread).pending_auth,
            ..thread
        }),
{
}

} // verus!
