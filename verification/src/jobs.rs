//! The job routes: lists and details of sandbox jobs, cancelling and restarting them,
//! prompts for them and their events.

use vstd::prelude::*;
use crate::body::{bool_member, bool_members, text_member, text_members};
use crate::chat::optional_time;
use crate::clock::{optional_rfc3339, rfc3339_text, Timestamp};
use crate::ids::{id_text, is_random_id, new_id, parse_id, uuid_parse, uuid_text};
use crate::path::{file_name, law_file_name_of_joined, name_of, plain_name};
use crate::reply::{
    optional_text, refused, require, require_done, require_id, Failure, StatusCode,
};
use crate::sort::{law_sorting_keeps_and_orders, sort_stable, sorted_from, views, Ranked};
use crate::state::{GatewayState, PendingPrompt, PromptQueue};
use crate::text::{joined, joined3, same_text};

verus! {

/// A sandbox job, as the database has it.
#[derive(Debug)]
pub struct SandboxJobRecord {
    pub id: u128,
    pub task: String,
    pub status: String,
    pub user_id: String,
    pub project_dir: String,
    pub success: Option<bool>,
    pub failure_reason: Option<String>,
    pub created_at: Timestamp,
    pub started_at: Option<Timestamp>,
    pub completed_at: Option<Timestamp>,
}

/// The view of a job is the job.
impl View for SandboxJobRecord {
    type V = SandboxJobRecord;

    open spec fn view(&self) -> SandboxJobRecord {
        *self
    }
}

/// Of two jobs the one that was created later comes first.
impl Ranked for SandboxJobRecord {
    open spec fn precedes(a: SandboxJobRecord, b: SandboxJobRecord) -> bool {
        b.created_at.before(a.created_at)
    }

    proof fn lemma_asymmetric(a: SandboxJobRecord, b: SandboxJobRecord) {
    }

    proof fn lemma_transitive(a: SandboxJobRecord, b: SandboxJobRecord, c: SandboxJobRecord) {
    }

    fn comes_before(&self, other: &Self) -> (r: bool) {
        other.created_at.is_before(&self.created_at)
    }
}

/// A change of a job's status, as the database is asked to make it.
#[derive(Debug)]
pub struct StatusUpdate {
    pub job_id: u128,
    pub status: &'static str,
    pub success: Option<bool>,
    pub failure_reason: Option<&'static str>,
    pub started_at: Option<Timestamp>,
    pub completed_at: Option<Timestamp>,
}

/// The state that is shown for a status: a job that is being created is pending, one that
/// runs is in progress, and any other status is shown as it is.
pub open spec fn ui_state(status: Seq<char>) -> Seq<char> {
    if status == "creating"@ {
        "pending"@
    } else if status == "running"@ {
        "in_progress"@
    } else {
        status
    }
}

/// The state that is shown for a status.
pub fn shown_state(status: &str) -> (r: String)
    ensures
        r@ == ui_state(status@),
{
    if same_text(status, "creating") {
        "pending".to_owned()
    } else if same_text(status, "running") {
        "in_progress".to_owned()
    } else {
        status.to_owned()
    }
}

/// Turns a request down where the gateway has no database.
pub fn store_available(state: &GatewayState) -> (r: Result<(), Failure>)
    ensures
        state.store ==> r is Ok,
        !state.store ==> refused(r, StatusCode::ServiceUnavailable, "Database not available"@),
{
    require(state.store, StatusCode::ServiceUnavailable, "Database not available")
}

/// Turns a request down where the job it speaks of could not be looked up or is not there.
pub fn job_of(found: Result<Option<SandboxJobRecord>, String>) -> (r: Result<
    SandboxJobRecord,
    Failure,
>)
    ensures
        match found {
            Err(e) => refused(r, StatusCode::InternalServerError, e@),
            Ok(None) => refused(r, StatusCode::NotFound, "Job not found"@),
            Ok(Some(job)) => r is Ok && r->Ok_0 == job,
        },
{
    match require_done(found) {
        Err(f) => Err(f),
        Ok(None) => Err(Failure::new(StatusCode::NotFound, "Job not found")),
        Ok(Some(job)) => Ok(job),
    }
}

// --- Lists ---

/// What a list of jobs tells of one.
#[derive(Debug, PartialEq, Eq)]
pub struct JobInfo {
    pub id: u128,
    pub title: String,
    pub state: String,
    pub user_id: String,
    pub created_at: String,
    pub started_at: Option<String>,
}

/// The view of what a list of jobs tells of one.
pub struct JobInfoView {
    pub id: u128,
    pub title: Seq<char>,
    pub state: Seq<char>,
    pub user_id: Seq<char>,
    pub created_at: Seq<char>,
    pub started_at: Option<Seq<char>>,
}

impl View for JobInfo {
    type V = JobInfoView;

    open spec fn view(&self) -> JobInfoView {
        JobInfoView {
            id: self.id,
            title: self.title@,
            state: self.state@,
            user_id: self.user_id@,
            created_at: self.created_at@,
            started_at: optional_text(self.started_at),
        }
    }
}

/// What a list tells of a job.
pub open spec fn job_told(job: SandboxJobRecord) -> JobInfoView {
    JobInfoView {
        id: job.id,
        title: job.task@,
        state: ui_state(job.status@),
        user_id: job.user_id@,
        created_at: job.created_at.text(),
        started_at: optional_time(job.started_at),
    }
}

/// What a list tells of jobs, one for one.
pub open spec fn jobs_told(jobs: Seq<SandboxJobRecord>) -> Seq<JobInfoView> {
    jobs.map_values(|job: SandboxJobRecord| job_told(job))
}

/// The jobs.
#[derive(Debug, PartialEq, Eq)]
pub struct JobListResponse {
    pub jobs: Vec<JobInfo>,
}

/// Whether a list tells of jobs, the most recent first: `sorted` holds the same jobs, and
/// those that were created at the same time in the order in which they came.
pub open spec fn listed_by_age(
    jobs: Seq<SandboxJobRecord>,
    sorted: Seq<SandboxJobRecord>,
    listed: Seq<JobInfoView>,
) -> bool {
    sorted_from::<SandboxJobRecord>(jobs, sorted) && listed == jobs_told(sorted)
}

/// In a list of jobs none stands behind one that was created earlier.
pub proof fn law_most_recent_first(
    jobs: Seq<SandboxJobRecord>,
    sorted: Seq<SandboxJobRecord>,
    listed: Seq<JobInfoView>,
    i: int,
    j: int,
)
    requires
        listed_by_age(jobs, sorted, listed),
        0 <= i < j < listed.len(),
    ensures
        listed[i] == job_told(sorted[i]),
        listed[j] == job_told(sorted[j]),
        !sorted[i].created_at.before(sorted[j].created_at),
{
    assert(!SandboxJobRecord::precedes(sorted[j], sorted[i]));
}

/// Takes a request for the jobs: they are to be listed.
pub fn jobs_list_handler(state: &GatewayState) -> (r: Result<(), Failure>)
    ensures
        state.store ==> r is Ok,
        !state.store ==> refused(r, StatusCode::ServiceUnavailable, "Database not available"@),
{
    store_available(state)
}

/// Answers with the sandbox jobs, the most recent first.
pub fn jobs_listed(listed: Result<Vec<SandboxJobRecord>, String>) -> (r: Result<
    JobListResponse,
    Failure,
>)
    ensures
        match listed {
            Ok(jobs) => r is Ok && exists|sorted: Seq<SandboxJobRecord>| #[trigger]
                listed_by_age(jobs@, sorted, views(r->Ok_0.jobs@)),
            Err(e) => refused(r, StatusCode::InternalServerError, e@),
        },
{
    let found = match require_done(listed) {
        Ok(found) => found,
        Err(f) => {
            return Err(f);
        },
    };
    assert(views(found@) =~= found@);
    let sorted = sort_stable(found);
    assert(views(sorted@) =~= sorted@);
    let mut infos: Vec<JobInfo> = Vec::new();
    let mut n: usize = 0;
    while n < sorted.len()
        invariant
            n <= sorted@.len(),
            views(infos@) == jobs_told(sorted@).take(n as int),
        decreases sorted.len() - n,
    {
        let job = &sorted[n];
        let ghost before = views(infos@);
        let info = JobInfo {
            id: job.id,
            title: job.task.clone(),
            state: shown_state(job.status.as_str()),
            user_id: job.user_id.clone(),
            created_at: job.created_at.to_rfc3339(),
            started_at: optional_rfc3339(&job.started_at),
        };
        assert(info@ == job_told(*job));
        infos.push(info);
        proof {
            assert(views(infos@) =~= before.push(job_told(*job)));
            assert(jobs_told(sorted@).take(n + 1) =~= jobs_told(sorted@).take(n as int).push(
                job_told(*job),
            ));
        }
        n = n + 1;
    }
    let r: Result<JobListResponse, Failure> = Ok(JobListResponse { jobs: infos });
    proof {
        assert(jobs_told(sorted@).take(sorted@.len() as int) =~= jobs_told(sorted@));
        assert(listed_by_age(found@, sorted@, views(r->Ok_0.jobs@)));
    }
    r
}

/// How many sandbox jobs there are, by status.
#[derive(Debug)]
pub struct SandboxJobSummary {
    pub total: usize,
    pub creating: usize,
    pub running: usize,
    pub completed: usize,
    pub failed: usize,
    pub interrupted: usize,
}

/// How many jobs there are, by the state that is shown for them.
#[derive(Debug, PartialEq, Eq)]
pub struct JobSummaryResponse {
    pub total: usize,
    pub pending: usize,
    pub in_progress: usize,
    pub completed: usize,
    pub failed: usize,
    pub stuck: usize,
}

/// Whether a sum tells of jobs by state: those that were interrupted count as failed, and
/// none is ever stuck.
pub open spec fn summary_told(s: SandboxJobSummary, r: JobSummaryResponse) -> bool {
    &&& r.total == s.total
    &&& r.pending == s.creating
    &&& r.in_progress == s.running
    &&& r.completed == s.completed
    &&& r.failed == s.failed + s.interrupted
    &&& r.stuck == 0
}

/// No job is lost or counted twice when jobs are summed by state.
pub proof fn law_summary_counts_every_job(s: SandboxJobSummary, r: JobSummaryResponse)
    requires
        summary_told(s, r),
    ensures
        r.pending + r.in_progress + r.completed + r.failed + r.stuck == s.creating + s.running
            + s.completed + s.failed + s.interrupted,
{
}

/// Takes a request for the sum of jobs: they are to be summed.
pub fn jobs_summary_handler(state: &GatewayState) -> (r: Result<(), Failure>)
    ensures
        state.store ==> r is Ok,
        !state.store ==> refused(r, StatusCode::ServiceUnavailable, "Database not available"@),
{
    store_available(state)
}

/// Answers with the sum of jobs.
pub fn jobs_summed(summed: Result<SandboxJobSummary, String>) -> (r: Result<
    JobSummaryResponse,
    Failure,
>)
    requires
        summed matches Ok(s) ==> s.failed + s.interrupted <= usize::MAX,
    ensures
        match summed {
            Ok(s) => r is Ok && summary_told(s, r->Ok_0),
            Err(e) => refused(r, StatusCode::InternalServerError, e@),
        },
{
    match require_done(summed) {
        Ok(s) => Ok(
            JobSummaryResponse {
                total: s.total,
                pending: s.creating,
                in_progress: s.running,
                completed: s.completed,
                failed: s.failed + s.interrupted,
                stuck: 0,
            },
        ),
        Err(f) => Err(f),
    }
}

// --- Details ---

/// A change of a job's status that has taken place.
#[derive(Debug, PartialEq, Eq)]
pub struct TransitionInfo {
    pub from: String,
    pub to: String,
    pub timestamp: String,
    pub reason: Option<String>,
}

/// The view of a change of status.
pub struct TransitionView {
    pub from: Seq<char>,
    pub to: Seq<char>,
    pub timestamp: Seq<char>,
    pub reason: Option<Seq<char>>,
}

impl View for TransitionInfo {
    type V = TransitionView;

    open spec fn view(&self) -> TransitionView {
        TransitionView {
            from: self.from@,
            to: self.to@,
            timestamp: self.timestamp@,
            reason: optional_text(self.reason),
        }
    }
}

/// The changes that a job's timestamps give away: that it started, and that it ended.
pub open spec fn transitions_of(job: SandboxJobRecord) -> Seq<TransitionView> {
    let start = match job.started_at {
        Some(t) => seq![
            TransitionView {
                from: "creating"@,
                to: "running"@,
                timestamp: t.text(),
                reason: None,
            },
        ],
        None => seq![],
    };
    match job.completed_at {
        Some(t) => start.push(
            TransitionView {
                from: "running"@,
                to: job.status@,
                timestamp: t.text(),
                reason: optional_text(job.failure_reason),
            },
        ),
        None => start,
    }
}

/// The changes of a job follow each other: each but the first starts where the one before it
/// led, and the last one of a job that ended led to the status that the job has.
pub proof fn law_transitions_follow_each_other(job: SandboxJobRecord)
    ensures
        forall|i: int|
            0 < i < transitions_of(job).len() ==> (#[trigger] transitions_of(job)[i]).from
                == transitions_of(job)[i - 1].to,
        job.completed_at is Some ==> transitions_of(job).len() > 0 && transitions_of(job).last().to
            == job.status@,
{
}

/// The name under which the files of a job are browsed: that of its project directory, or
/// the job's identifier where the directory has no name.
pub open spec fn browse_id(job: SandboxJobRecord) -> Seq<char> {
    match file_name(job.project_dir@) {
        Some(name) => name,
        None => uuid_text(job.id),
    }
}

/// A job whose project directory has a name is browsed under that name.
pub proof fn law_browsed_by_directory_name(
    job: SandboxJobRecord,
    parent: Seq<char>,
    name: Seq<char>,
)
    requires
        parent.len() > 0,
        plain_name(name),
        job.project_dir@ == parent.push('/') + name,
    ensures
        browse_id(job) == name,
{
    law_file_name_of_joined(parent, '/', name);
}

/// Where the files of a project are browsed.
pub open spec fn project_url(project_id: Seq<char>) -> Seq<char> {
    "/projects/"@ + project_id + "/"@
}

/// The mode that is shown for a job: none where it could not be read, where there is none,
/// and for an ordinary worker.
pub open spec fn shown_mode(mode: Result<Option<String>, String>) -> Option<Seq<char>> {
    match mode {
        Ok(Some(m)) => if m@ == "worker"@ {
            None
        } else {
            Some(m@)
        },
        _ => None,
    }
}

/// How long a job has been running: until it ended, or until now.
pub open spec fn running_time(job: SandboxJobRecord, now: Timestamp) -> Option<int> {
    match job.started_at {
        Some(start) => Some(
            start.elapsed(
                match job.completed_at {
                    Some(end) => end,
                    None => now,
                },
            ),
        ),
        None => None,
    }
}

/// The details of a job.
#[derive(Debug, PartialEq, Eq)]
pub struct JobDetailResponse {
    pub id: u128,
    pub title: String,
    pub description: String,
    pub state: String,
    pub user_id: String,
    pub created_at: String,
    pub started_at: Option<String>,
    pub completed_at: Option<String>,
    pub elapsed_secs: Option<u64>,
    pub project_dir: Option<String>,
    pub browse_url: Option<String>,
    pub job_mode: Option<String>,
    pub transitions: Vec<TransitionInfo>,
}

impl JobDetailResponse {
    /// Whether these are the details of a job at a point in time.
    pub open spec fn tells(
        self,
        job: SandboxJobRecord,
        mode: Result<Option<String>, String>,
        now: Timestamp,
    ) -> bool {
        &&& self.id == job.id
        &&& self.title@ == job.task@
        &&& self.description@ == Seq::<char>::empty()
        &&& self.state@ == ui_state(job.status@)
        &&& self.user_id@ == job.user_id@
        &&& self.created_at@ == job.created_at.text()
        &&& optional_text(self.started_at) == optional_time(job.started_at)
        &&& optional_text(self.completed_at) == optional_time(job.completed_at)
        &&& match running_time(job, now) {
            Some(secs) => self.elapsed_secs is Some && self.elapsed_secs->0 == secs,
            None => self.elapsed_secs is None,
        }
        &&& optional_text(self.project_dir) == Some(job.project_dir@)
        &&& optional_text(self.browse_url) == Some(project_url(browse_id(job)))
        &&& optional_text(self.job_mode) == shown_mode(mode)
        &&& views(self.transitions@) == transitions_of(job)
    }
}

/// What becomes of a request that speaks of a job whose identifier was read as `id`.
pub open spec fn job_requested(
    store: bool,
    id: Option<u128>,
    r: Result<u128, Failure>,
) -> bool {
    match id {
        None => refused(r, StatusCode::BadRequest, "Invalid job ID"@),
        Some(id) => if store {
            r is Ok && r->Ok_0 == id
        } else {
            refused(r, StatusCode::NotFound, "Job not found"@)
        },
    }
}

/// Takes a request that speaks of a job, whose identifier was read: where there is no
/// database, there is no such job.
pub fn known_job(store: bool, id: Option<u128>) -> (r: Result<u128, Failure>)
    ensures
        job_requested(store, id, r),
{
    match require_id(id, "Invalid job ID") {
        Err(f) => Err(f),
        Ok(id) => match require(store, StatusCode::NotFound, "Job not found") {
            Ok(_) => Ok(id),
            Err(f) => Err(f),
        },
    }
}

/// Takes a request for the details of a job: the job to look up.
pub fn jobs_detail_handler(state: &GatewayState, id: &str) -> (r: Result<u128, Failure>)
    ensures
        job_requested(state.store, uuid_parse(id@), r),
{
    known_job(state.store, parse_id(id))
}

/// The job that was looked up. One that could not be looked up is not found either.
pub fn job_looked_up(found: Result<Option<SandboxJobRecord>, String>) -> (r: Result<
    SandboxJobRecord,
    Failure,
>)
    ensures
        match found {
            Ok(Some(job)) => r is Ok && r->Ok_0 == job,
            _ => refused(r, StatusCode::NotFound, "Job not found"@),
        },
{
    match found {
        Ok(Some(job)) => Ok(job),
        _ => Err(Failure::new(StatusCode::NotFound, "Job not found")),
    }
}

/// The job that was looked up, and the identifier under which its mode is looked up next.
pub fn detail_looked_up(found: Result<Option<SandboxJobRecord>, String>) -> (r: Result<
    (SandboxJobRecord, u128),
    Failure,
>)
    ensures
        match found {
            Ok(Some(job)) => r is Ok && r->Ok_0.0 == job && r->Ok_0.1 == job.id,
            _ => refused(r, StatusCode::NotFound, "Job not found"@),
        },
{
    match job_looked_up(found) {
        Ok(job) => {
            let id: u128 = job.id;
            Ok((job, id))
        },
        Err(f) => Err(f),
    }
}

fn job_transitions(job: &SandboxJobRecord) -> (r: Vec<TransitionInfo>)
    ensures
        views(r@) == transitions_of(*job),
{
    let mut out: Vec<TransitionInfo> = Vec::new();
    if let Some(started) = &job.started_at {
        out.push(
            TransitionInfo {
                from: "creating".to_owned(),
                to: "running".to_owned(),
                timestamp: started.to_rfc3339(),
                reason: None,
            },
        );
    }
    let ghost first = views(out@);
    if let Some(completed) = &job.completed_at {
        let last = TransitionInfo {
            from: "running".to_owned(),
            to: job.status.clone(),
            timestamp: completed.to_rfc3339(),
            reason: match &job.failure_reason {
                Some(reason) => Some(reason.clone()),
                None => None,
            },
        };
        let ghost v = last@;
        out.push(last);
        assert(views(out@) =~= first.push(v));
    }
    assert(views(out@) =~= transitions_of(*job));
    out
}

/// The name under which the files of a job are browsed.
fn job_browse_id(job: &SandboxJobRecord) -> (r: String)
    ensures
        r@ == browse_id(*job),
{
    match name_of(job.project_dir.as_str()) {
        Some(name) => name,
        None => id_text(job.id),
    }
}

/// The details of a job at a point in time.
pub fn job_detail(
    job: &SandboxJobRecord,
    mode: Result<Option<String>, String>,
    now: &Timestamp,
) -> (r: JobDetailResponse)
    ensures
        r.tells(*job, mode, *now),
{
    let browse = job_browse_id(job);
    let elapsed_secs: Option<u64> = match &job.started_at {
        Some(start) => Some(
            match &job.completed_at {
                Some(end) => start.elapsed_until(end),
                None => start.elapsed_until(now),
            },
        ),
        None => None,
    };
    let job_mode: Option<String> = match mode {
        Ok(Some(m)) => if same_text(m.as_str(), "worker") {
            None
        } else {
            Some(m)
        },
        _ => None,
    };
    JobDetailResponse {
        id: job.id,
        title: job.task.clone(),
        description: String::new(),
        state: shown_state(job.status.as_str()),
        user_id: job.user_id.clone(),
        created_at: job.created_at.to_rfc3339(),
        started_at: optional_rfc3339(&job.started_at),
        completed_at: optional_rfc3339(&job.completed_at),
        elapsed_secs,
        project_dir: Some(job.project_dir.clone()),
        browse_url: Some(joined3("/projects/", browse.as_str(), "/")),
        job_mode,
        transitions: job_transitions(job),
    }
}

/// The details of a job at the time of the call.
pub fn job_detail_now(job: &SandboxJobRecord, mode: Result<Option<String>, String>) -> (r:
    JobDetailResponse)
    ensures
        exists|now: Timestamp| now.on_the_clock() && #[trigger] r.tells(*job, mode, now),
{
    let now = Timestamp::now();
    let r = job_detail(job, mode, &now);
    assert(r.tells(*job, mode, now));
    r
}

// --- Cancelling ---

/// Whether a job with this status can still be stopped.
pub open spec fn active_status(status: Seq<char>) -> bool {
    status == "running"@ || status == "creating"@
}

/// What is done next about a job that is to be cancelled.
#[derive(Debug, PartialEq, Eq)]
pub enum CancelStep {
    /// Stop the container of the job, then mark the job as cancelled.
    Stop { job_id: u128 },
    /// Mark the job as cancelled.
    Mark { job_id: u128 },
    /// The job is cancelled.
    Reply(CancelReply),
    /// There is no such job.
    Fail(Failure),
}

/// The answer for a job that was cancelled.
#[derive(Debug, PartialEq, Eq)]
pub struct CancelReply {
    pub status: &'static str,
    pub job_id: u128,
}

impl CancelReply {
    /// Whether the answer is that a job was cancelled.
    pub open spec fn confirms(self, job_id: u128) -> bool {
        self.status@ == "cancelled"@ && self.job_id == job_id
    }
}

/// Takes a request to cancel a job: the job to look up.
pub fn jobs_cancel_handler(state: &GatewayState, id: &str) -> (r: Result<u128, Failure>)
    ensures
        job_requested(state.store, uuid_parse(id@), r),
{
    known_job(state.store, parse_id(id))
}

/// What is done once the job was looked up. A job that runs or is being created is stopped,
/// where there is a manager for its container, and marked. Any other job stays as it is and
/// counts as cancelled.
pub fn cancel_looked_up(
    state: &GatewayState,
    job_id: u128,
    found: Result<Option<SandboxJobRecord>, String>,
) -> (r: CancelStep)
    ensures
        match found {
            Ok(Some(job)) => if !active_status(job.status@) {
                r matches CancelStep::Reply(reply) && reply.confirms(job_id)
            } else if state.job_manager {
                r == (CancelStep::Stop { job_id })
            } else {
                r == (CancelStep::Mark { job_id })
            },
            _ => r matches CancelStep::Fail(f) && f.says(StatusCode::NotFound, "Job not found"@),
        },
{
    let job = match job_looked_up(found) {
        Ok(job) => job,
        Err(f) => {
            return CancelStep::Fail(f);
        },
    };
    if same_text(job.status.as_str(), "running") || same_text(job.status.as_str(), "creating") {
        if state.job_manager {
            CancelStep::Stop { job_id }
        } else {
            CancelStep::Mark { job_id }
        }
    } else {
        CancelStep::Reply(CancelReply { status: "cancelled", job_id })
    }
}

/// What is done once the container was told to stop, whether or not it did.
pub fn cancel_stopped(job_id: u128, _stopped: Result<(), String>) -> (r: CancelStep)
    ensures
        r == (CancelStep::Mark { job_id }),
{
    CancelStep::Mark { job_id }
}

/// Whether a change of status marks a job as cancelled at a point in time.
pub open spec fn marks_cancelled(update: StatusUpdate, job_id: u128, now: Timestamp) -> bool {
    &&& update.job_id == job_id
    &&& update.status@ == "failed"@
    &&& update.success == Some(false)
    &&& update.failure_reason is Some
    &&& update.failure_reason->0@ == "Cancelled by user"@
    &&& update.started_at is None
    &&& update.completed_at == Some(now)
}

/// The change that marks a job as cancelled at a point in time.
pub fn cancellation(job_id: u128, now: Timestamp) -> (r: StatusUpdate)
    ensures
        marks_cancelled(r, job_id, now),
{
    StatusUpdate {
        job_id,
        status: "failed",
        success: Some(false),
        failure_reason: Some("Cancelled by user"),
        started_at: None,
        completed_at: Some(now),
    }
}

/// The change that marks a job as cancelled at the time of the call.
pub fn cancellation_now(job_id: u128) -> (r: StatusUpdate)
    ensures
        exists|now: Timestamp| now.on_the_clock() && #[trigger] marks_cancelled(r, job_id, now),
{
    let now = Timestamp::now();
    let r = cancellation(job_id, now);
    assert(marks_cancelled(r, job_id, now));
    r
}

/// The answer once the job was marked.
pub fn cancel_marked(job_id: u128, marked: Result<(), String>) -> (r: Result<CancelReply, Failure>)
    ensures
        match marked {
            Ok(_) => r is Ok && r->Ok_0.confirms(job_id),
            Err(e) => refused(r, StatusCode::InternalServerError, e@),
        },
{
    match require_done(marked) {
        Ok(_) => Ok(CancelReply { status: "cancelled", job_id }),
        Err(f) => Err(f),
    }
}

// --- Restarting ---

/// How a job is run in its container.
#[derive(Clone, Copy, Debug, PartialEq, Eq, Structural)]
pub enum JobMode {
    Worker,
    ClaudeCode,
}

/// A job that is to be started again as a new one.
#[derive(Debug)]
pub struct RestartPlan {
    pub old_job_id: u128,
    /// The new job, as it is saved.
    pub record: SandboxJobRecord,
}

impl RestartPlan {
    /// Whether the new job repeats an old one under a new identifier: the same task, user
    /// and project directory, and nothing of what became of the old job.
    pub open spec fn repeats(
        self,
        old_job_id: u128,
        old_job: SandboxJobRecord,
        new_job_id: u128,
        now: Timestamp,
    ) -> bool {
        &&& self.old_job_id == old_job_id
        &&& self.record.id == new_job_id
        &&& self.record.task@ == old_job.task@
        &&& self.record.status@ == "creating"@
        &&& self.record.user_id@ == old_job.user_id@
        &&& self.record.project_dir@ == old_job.project_dir@
        &&& self.record.success is None
        &&& self.record.failure_reason is None
        &&& self.record.created_at == now
        &&& self.record.started_at is None
        &&& self.record.completed_at is None
    }
}

/// What the manager of containers is asked to create.
#[derive(Debug, PartialEq, Eq)]
pub struct ContainerRequest {
    pub job_id: u128,
    pub task: String,
    pub project_dir: String,
    pub mode: JobMode,
}

impl ContainerRequest {
    /// Whether a container is asked for that runs the new job of a plan.
    pub open spec fn runs(self, plan: RestartPlan, mode: JobMode) -> bool {
        &&& self.job_id == plan.record.id
        &&& self.task@ == plan.record.task@
        &&& self.project_dir@ == plan.record.project_dir@
        &&& self.mode == mode
    }
}

/// The answer for a job that was started again.
#[derive(Debug, PartialEq, Eq)]
pub struct RestartReply {
    pub status: &'static str,
    pub old_job_id: u128,
    pub new_job_id: u128,
}

/// What becomes of a request to start a job again.
pub open spec fn restart_requested(
    store: bool,
    job_manager: bool,
    id: Option<u128>,
    r: Result<u128, Failure>,
) -> bool {
    if !store {
        refused(r, StatusCode::ServiceUnavailable, "Database not available"@)
    } else if !job_manager {
        refused(r, StatusCode::ServiceUnavailable, "Sandbox not enabled"@)
    } else {
        match id {
            None => refused(r, StatusCode::BadRequest, "Invalid job ID"@),
            Some(id) => r is Ok && r->Ok_0 == id,
        }
    }
}

/// Takes a request to start a job again, whose identifier was read.
pub fn restart_request(state: &GatewayState, id: Option<u128>) -> (r: Result<u128, Failure>)
    ensures
        restart_requested(state.store, state.job_manager, id, r),
{
    match store_available(state) {
        Err(f) => Err(f),
        Ok(_) => match require(
            state.job_manager,
            StatusCode::ServiceUnavailable,
            "Sandbox not enabled",
        ) {
            Err(f) => Err(f),
            Ok(_) => require_id(id, "Invalid job ID"),
        },
    }
}

/// Takes a request to start a job again: the job to look up.
pub fn jobs_restart_handler(state: &GatewayState, id: &str) -> (r: Result<u128, Failure>)
    ensures
        restart_requested(state.store, state.job_manager, uuid_parse(id@), r),
{
    restart_request(state, parse_id(id))
}

/// Whether a job with this status can be started again.
pub open spec fn restartable_status(status: Seq<char>) -> bool {
    status == "interrupted"@ || status == "failed"@
}

/// The job that was looked up, if it can be started again.
pub fn restartable(found: Result<Option<SandboxJobRecord>, String>) -> (r: Result<
    SandboxJobRecord,
    Failure,
>)
    ensures
        match found {
            Err(e) => refused(r, StatusCode::InternalServerError, e@),
            Ok(None) => refused(r, StatusCode::NotFound, "Job not found"@),
            Ok(Some(job)) => if restartable_status(job.status@) {
                r is Ok && r->Ok_0 == job
            } else {
                refused(
                    r,
                    StatusCode::Conflict,
                    "Cannot restart job in state '"@ + job.status@ + "'"@,
                )
            },
        },
{
    let job = match job_of(found) {
        Ok(job) => job,
        Err(f) => {
            return Err(f);
        },
    };
    if same_text(job.status.as_str(), "interrupted") || same_text(job.status.as_str(), "failed") {
        Ok(job)
    } else {
        let message = joined3("Cannot restart job in state '", job.status.as_str(), "'");
        Err(Failure { status: StatusCode::Conflict, message })
    }
}

/// The plan to start a job again under a new identifier.
pub fn restart_plan(
    old_job_id: u128,
    old_job: SandboxJobRecord,
    new_job_id: u128,
    now: Timestamp,
) -> (r: RestartPlan)
    ensures
        r.repeats(old_job_id, old_job, new_job_id, now),
{
    RestartPlan {
        old_job_id,
        record: SandboxJobRecord {
            id: new_job_id,
            task: old_job.task,
            status: "creating".to_owned(),
            user_id: old_job.user_id,
            project_dir: old_job.project_dir,
            success: None,
            failure_reason: None,
            created_at: now,
            started_at: None,
            completed_at: None,
        },
    }
}

/// What is done next about a job that is to be started again.
#[derive(Debug)]
pub enum RestartStep {
    /// Save the record of the plan.
    Save { plan: RestartPlan },
    /// Look up the mode of the job with this identifier.
    ReadMode { plan: RestartPlan, job_id: u128 },
    /// Create the container.
    Create { plan: RestartPlan, request: ContainerRequest },
    /// Change the status of the new job.
    Mark { plan: RestartPlan, update: StatusUpdate },
    /// The job was started again.
    Reply(RestartReply),
    /// It was not.
    Fail(Failure),
}

impl RestartStep {
    /// Whether the restart ends with this status and this text.
    pub open spec fn fails(self, status: StatusCode, text: Seq<char>) -> bool {
        self matches RestartStep::Fail(f) && f.says(status, text)
    }
}

/// The step that follows the look at the old job: the plan is saved.
pub open spec fn restart_decided(
    old_job_id: u128,
    found: Result<Option<SandboxJobRecord>, String>,
    new_job_id: u128,
    now: Timestamp,
    r: RestartStep,
) -> bool {
    match found {
        Err(e) => r.fails(StatusCode::InternalServerError, e@),
        Ok(None) => r.fails(StatusCode::NotFound, "Job not found"@),
        Ok(Some(job)) => if restartable_status(job.status@) {
            r matches RestartStep::Save { plan } && plan.repeats(old_job_id, job, new_job_id, now)
        } else {
            r.fails(
                StatusCode::Conflict,
                "Cannot restart job in state '"@ + job.status@ + "'"@,
            )
        },
    }
}

/// What is done once the job was looked up: it is planned and saved anew under a new
/// identifier, as created now.
pub fn restart_looked_up(
    old_job_id: u128,
    found: Result<Option<SandboxJobRecord>, String>,
) -> (r: RestartStep)
    ensures
        exists|new_job_id: u128, now: Timestamp|
            is_random_id(new_job_id) && now.on_the_clock() && #[trigger] restart_decided(
                old_job_id,
                found,
                new_job_id,
                now,
                r,
            ),
{
    let new_job_id: u128 = new_id();
    let now = Timestamp::now();
    let r = match restartable(found) {
        Err(f) => RestartStep::Fail(f),
        Ok(job) => RestartStep::Save { plan: restart_plan(old_job_id, job, new_job_id, now) },
    };
    assert(restart_decided(old_job_id, found, new_job_id, now, r));
    r
}

/// The step that follows the saving: the mode of the old job is looked up.
pub open spec fn save_decided(
    plan: RestartPlan,
    saved: Result<(), String>,
    r: RestartStep,
) -> bool {
    match saved {
        Ok(_) => r == (RestartStep::ReadMode { plan, job_id: plan.old_job_id }),
        Err(e) => r.fails(StatusCode::InternalServerError, e@),
    }
}

/// What is done once the new job was saved: the mode of the old job is looked up so that
/// the restart uses the same mode.
pub fn restart_saved(plan: RestartPlan, saved: Result<(), String>) -> (r: RestartStep)
    ensures
        save_decided(plan, saved, r),
{
    match require_done(saved) {
        Ok(_) => {
            let job_id: u128 = plan.old_job_id;
            RestartStep::ReadMode { plan, job_id }
        },
        Err(f) => RestartStep::Fail(f),
    }
}

/// The mode in which a job is started again: `ClaudeCode` where that was the mode of the
/// old job, and `Worker` otherwise.
pub open spec fn mode_again(mode: Result<Option<String>, String>) -> JobMode {
    match mode {
        Ok(Some(m)) => if m@ == "claude_code"@ {
            JobMode::ClaudeCode
        } else {
            JobMode::Worker
        },
        _ => JobMode::Worker,
    }
}

/// The step that follows the look at the mode: the container is created.
pub open spec fn mode_decided(
    plan: RestartPlan,
    mode: Result<Option<String>, String>,
    r: RestartStep,
) -> bool {
    &&& r matches RestartStep::Create { plan: same, request }
    &&& same == plan
    &&& request.runs(plan, mode_again(mode))
}

/// What is done once the mode of the old job was looked up: a container is created for the
/// new job, in that mode.
pub fn restart_mode_read(plan: RestartPlan, mode: Result<Option<String>, String>) -> (r:
    RestartStep)
    ensures
        mode_decided(plan, mode, r),
{
    let mode = match mode {
        Ok(Some(m)) => if same_text(m.as_str(), "claude_code") {
            JobMode::ClaudeCode
        } else {
            JobMode::Worker
        },
        _ => JobMode::Worker,
    };
    let request = ContainerRequest {
        job_id: plan.record.id,
        task: plan.record.task.clone(),
        project_dir: plan.record.project_dir.clone(),
        mode,
    };
    RestartStep::Create { plan, request }
}

/// Whether a change of status marks the new job of a plan as running since it was created.
pub open spec fn marks_running(update: StatusUpdate, plan: RestartPlan) -> bool {
    &&& update.job_id == plan.record.id
    &&& update.status@ == "running"@
    &&& update.success is None
    &&& update.failure_reason is None
    &&& update.started_at == Some(plan.record.created_at)
    &&& update.completed_at is None
}

/// The step that follows the creation of the container: the new job is marked.
pub open spec fn creation_decided(
    plan: RestartPlan,
    created: Result<(), String>,
    r: RestartStep,
) -> bool {
    match created {
        Ok(_) => {
            &&& r matches RestartStep::Mark { plan: same, update }
            &&& same == plan
            &&& marks_running(update, plan)
        },
        Err(e) => r.fails(
            StatusCode::InternalServerError,
            "Failed to create container: "@ + e@,
        ),
    }
}

/// What is done once the container was created: the new job is marked as running.
pub fn restart_created(plan: RestartPlan, created: Result<(), String>) -> (r: RestartStep)
    ensures
        creation_decided(plan, created, r),
{
    match created {
        Ok(_) => {
            let update = StatusUpdate {
                job_id: plan.record.id,
                status: "running",
                success: None,
                failure_reason: None,
                started_at: Some(plan.record.created_at),
                completed_at: None,
            };
            RestartStep::Mark { plan, update }
        },
        Err(e) => RestartStep::Fail(
            Failure {
                status: StatusCode::InternalServerError,
                message: joined("Failed to create container: ", e.as_str()),
            },
        ),
    }
}

/// The step that follows the change of the new job's status: the answer.
pub open spec fn mark_decided(
    plan: RestartPlan,
    marked: Result<(), String>,
    r: RestartStep,
) -> bool {
    match marked {
        Ok(_) => {
            &&& r matches RestartStep::Reply(reply)
            &&& reply.status@ == "restarted"@
            &&& reply.old_job_id == plan.old_job_id
            &&& reply.new_job_id == plan.record.id
        },
        Err(e) => r.fails(StatusCode::InternalServerError, e@),
    }
}

/// The answer once the status of the new job was changed.
pub fn restart_marked(plan: RestartPlan, marked: Result<(), String>) -> (r: RestartStep)
    ensures
        mark_decided(plan, marked, r),
{
    match require_done(marked) {
        Ok(_) => RestartStep::Reply(
            RestartReply {
                status: "restarted",
                old_job_id: plan.old_job_id,
                new_job_id: plan.record.id,
            },
        ),
        Err(f) => RestartStep::Fail(f),
    }
}

/// Whether a step of a restart is what the library says next, whatever the database and the
/// manager of containers came back with. Nothing follows an answer.
pub open spec fn restart_follows(step: RestartStep, next: RestartStep) -> bool {
    match step {
        RestartStep::Save { plan } => exists|saved: Result<(), String>| #[trigger]
            save_decided(plan, saved, next),
        RestartStep::ReadMode { plan, .. } => exists|mode: Result<Option<String>, String>|
            #[trigger] mode_decided(plan, mode, next),
        RestartStep::Create { plan, .. } => exists|created: Result<(), String>| #[trigger]
            creation_decided(plan, created, next),
        RestartStep::Mark { plan, .. } => exists|marked: Result<(), String>| #[trigger]
            mark_decided(plan, marked, next),
        _ => false,
    }
}

/// The steps of a restart, from the look at the old job on.
pub open spec fn restart_run(
    old_job_id: u128,
    found: Result<Option<SandboxJobRecord>, String>,
    new_job_id: u128,
    now: Timestamp,
    run: Seq<RestartStep>,
) -> bool {
    &&& run.len() > 0
    &&& restart_decided(old_job_id, found, new_job_id, now, run[0])
    &&& forall|i: int|
        0 <= i < run.len() - 1 ==> restart_follows(#[trigger] run[i], run[i + 1])
}

/// In every restart the new job is saved once and first, then the mode of the old job is
/// looked up, then one container is created, and then the new job is marked: no step comes
/// without those before it, and none comes twice.
pub proof fn law_restart_goes_in_order(
    old_job_id: u128,
    found: Result<Option<SandboxJobRecord>, String>,
    new_job_id: u128,
    now: Timestamp,
    run: Seq<RestartStep>,
    i: int,
)
    requires
        restart_run(old_job_id, found, new_job_id, now, run),
        0 <= i < run.len(),
    ensures
        run.len() <= 5,
        run[i] is Save ==> i == 0,
        run[i] is ReadMode ==> i == 1 && run[0] is Save,
        run[i] is Create ==> i == 2 && run[0] is Save && run[1] is ReadMode,
        run[i] is Mark ==> i == 3 && run[0] is Save && run[1] is ReadMode && run[2] is Create,
        run[i] is Reply ==> i == 4 && run[0] is Save && run[1] is ReadMode && run[2] is Create
            && run[3] is Mark,
{
    assert(run[0] is Save || run[0] is Fail);
    if run.len() > 1 {
        assert(restart_follows(run[0], run[1]));
    }
    if run.len() > 2 {
        assert(restart_follows(run[1], run[2]));
    }
    if run.len() > 3 {
        assert(restart_follows(run[2], run[3]));
    }
    if run.len() > 4 {
        assert(restart_follows(run[3], run[4]));
    }
    if run.len() > 5 {
        assert(restart_follows(run[4], run[5]));
    }
}

/// A job that is started again runs the task of the old job in the old job's project
/// directory, and in the mode `ClaudeCode` exactly where `modes`, which says what the
/// database has for each job, says that of the old job; what is saved, created and marked
/// on the way is one and the same new job.
pub proof fn law_restart_repeats_the_job(
    old_job_id: u128,
    old_job: SandboxJobRecord,
    new_job_id: u128,
    now: Timestamp,
    modes: spec_fn(u128) -> Result<Option<String>, String>,
    run: Seq<RestartStep>,
)
    requires
        restart_run(old_job_id, Ok(Some(old_job)), new_job_id, now, run),
        run.len() > 2 ==> (run[1] matches RestartStep::ReadMode { plan, job_id } ==> mode_decided(
            plan,
            modes(job_id),
            run[2],
        )),
    ensures
        restartable_status(old_job.status@) ==> (run[0] matches RestartStep::Save { plan }
            && plan.repeats(old_job_id, old_job, new_job_id, now)),
        run.len() > 1 ==> (run[1] matches RestartStep::ReadMode { job_id, .. } ==> job_id
            == old_job_id),
        run.len() > 2 ==> (run[2] matches RestartStep::Create { request, .. } ==> request.job_id
            == new_job_id && request.task@ == old_job.task@ && request.project_dir@
            == old_job.project_dir@ && (request.mode == JobMode::ClaudeCode <==> (modes(
            old_job_id,
        ) matches Ok(Some(m)) && m@ == "claude_code"@))),
        run.len() > 3 ==> (run[3] matches RestartStep::Mark { update, .. } ==> update.job_id
            == new_job_id && update.started_at == Some(now)),
        run.len() > 4 ==> (run[4] matches RestartStep::Reply(reply) ==> reply.old_job_id
            == old_job_id && reply.new_job_id == new_job_id),
{
    if run.len() > 1 {
        assert(restart_follows(run[0], run[1]));
    }
    if run.len() > 2 {
        assert(restart_follows(run[1], run[2]));
    }
    if run.len() > 3 {
        assert(restart_follows(run[2], run[3]));
    }
    if run.len() > 4 {
        assert(restart_follows(run[3], run[4]));
    }
}

/// No job can both be stopped by a cancellation and be started again.
pub proof fn law_active_jobs_are_not_restarted(status: Seq<char>)
    ensures
        !(active_status(status) && restartable_status(status)),
{
    reveal_strlit("running");
    reveal_strlit("creating");
    reveal_strlit("interrupted");
    reveal_strlit("failed");
    assert("running"@[0] == 'r' && "creating"@[0] == 'c');
    assert("interrupted"@[0] == 'i' && "failed"@[0] == 'f');
}

/// A job that was cancelled while it was active can be started again.
pub proof fn law_cancelled_jobs_can_be_restarted(
    update: StatusUpdate,
    job_id: u128,
    now: Timestamp,
)
    requires
        marks_cancelled(update, job_id, now),
    ensures
        restartable_status(update.status@),
{
}

// --- Prompts ---

/// The answer for a prompt that was queued.
#[derive(Debug, PartialEq, Eq)]
pub struct PromptReply {
    pub status: &'static str,
    pub job_id: String,
}

/// What becomes of a prompt for a job that the coding agent of this name works on.
pub open spec fn prompt_decided(
    prompt_queue: bool,
    agent: Seq<char>,
    id: Option<u128>,
    content: Option<Seq<char>>,
    done: Option<bool>,
    r: Result<(u128, PendingPrompt), Failure>,
) -> bool {
    if !prompt_queue {
        refused(r, StatusCode::NotImplemented, agent + " not configured"@)
    } else {
        match (id, content) {
            (None, _) => refused(r, StatusCode::BadRequest, "Invalid job ID"@),
            (Some(_), None) => refused(r, StatusCode::BadRequest, "Missing 'content' field"@),
            (Some(id), Some(content)) => {
                &&& r is Ok
                &&& r->Ok_0.0 == id
                &&& r->Ok_0.1.content@ == content
                &&& r->Ok_0.1.done == (done == Some(true))
            },
        }
    }
}

/// Takes a prompt whose parts were read: the prompt, and the job that it is queued for.
pub fn prompt_request(
    state: &GatewayState,
    agent: &str,
    id: Option<u128>,
    content: Option<String>,
    done: Option<bool>,
) -> (r: Result<(u128, PendingPrompt), Failure>)
    ensures
        prompt_decided(state.prompt_queue, agent@, id, optional_text(content), done, r),
{
    let missing = joined(agent, " not configured");
    match require(state.prompt_queue, StatusCode::NotImplemented, missing.as_str()) {
        Err(f) => Err(f),
        Ok(_) => match require_id(id, "Invalid job ID") {
            Err(f) => Err(f),
            Ok(id) => match content {
                None => Err(Failure::new(StatusCode::BadRequest, "Missing 'content' field")),
                Some(content) => {
                    let done = match done {
                        Some(done) => done,
                        None => false,
                    };
                    Ok((id, PendingPrompt { content, done }))
                },
            },
        },
    }
}

/// The member of a JSON object under a key, if it is a text.
pub open spec fn text_at(body: serde_json::Value, key: Seq<char>) -> Option<Seq<char>> {
    if text_members(body).contains_key(key) {
        Some(text_members(body)[key])
    } else {
        None
    }
}

/// The member of a JSON object under a key, if it is a truth value.
pub open spec fn bool_at(body: serde_json::Value, key: Seq<char>) -> Option<bool> {
    if bool_members(body).contains_key(key) {
        Some(bool_members(body)[key])
    } else {
        None
    }
}

/// Submit a follow-up prompt to a running sandbox job, on which the coding agent of this
/// name works: the prompt, and the job that it is queued for. The body holds it under
/// `content`, and under `done` whether the job is done afterwards.
pub fn jobs_prompt_handler(
    state: &GatewayState,
    agent: &str,
    id: &str,
    body: &serde_json::Value,
) -> (r: Result<(u128, PendingPrompt), Failure>)
    ensures
        prompt_decided(
            state.prompt_queue,
            agent@,
            uuid_parse(id@),
            text_at(*body, "content"@),
            bool_at(*body, "done"@),
            r,
        ),
{
    prompt_request(
        state,
        agent,
        parse_id(id),
        text_member(body, "content"),
        bool_member(body, "done"),
    )
}

/// Queues a prompt for a job, behind those that wait for it already, and answers.
pub fn prompt_queued(queue: &mut PromptQueue, job_id: u128, prompt: PendingPrompt) -> (r:
    PromptReply)
    ensures
        old(queue).gains(*final(queue), job_id, prompt),
        r.status@ == "queued"@,
        r.job_id@ == uuid_text(job_id),
{
    queue.push(job_id, prompt);
    PromptReply { status: "queued", job_id: id_text(job_id) }
}

// --- Events ---

/// An event of a job, as the database has it.
#[derive(Debug)]
pub struct JobEventRecord {
    pub id: i64,
    pub event_type: String,
    pub data: serde_json::Value,
    pub created_at: Timestamp,
}

/// What is told of an event of a job.
#[derive(Debug)]
pub struct JobEventInfo {
    pub id: i64,
    pub event_type: String,
    pub data: serde_json::Value,
    pub created_at: String,
}

impl JobEventInfo {
    /// Whether this tells of an event.
    pub open spec fn tells(self, event: JobEventRecord) -> bool {
        &&& self.id == event.id
        &&& self.event_type@ == event.event_type@
        &&& self.data == event.data
        &&& self.created_at@ == event.created_at.text()
    }
}

/// The events of a job.
#[derive(Debug)]
pub struct JobEventsResponse {
    pub job_id: String,
    pub events: Vec<JobEventInfo>,
}

/// What becomes of a request for the events of a job.
pub open spec fn events_requested(store: bool, id: Option<u128>, r: Result<u128, Failure>) -> bool {
    if !store {
        refused(r, StatusCode::NotImplemented, "Database not available"@)
    } else {
        match id {
            None => refused(r, StatusCode::BadRequest, "Invalid job ID"@),
            Some(id) => r is Ok && r->Ok_0 == id,
        }
    }
}

/// Takes a request for the events of a job, whose identifier was read.
pub fn events_request(state: &GatewayState, id: Option<u128>) -> (r: Result<u128, Failure>)
    ensures
        events_requested(state.store, id, r),
{
    match require(state.store, StatusCode::NotImplemented, "Database not available") {
        Err(f) => Err(f),
        Ok(_) => require_id(id, "Invalid job ID"),
    }
}

/// Takes a request for the events of a job: the job whose events are loaded.
pub fn jobs_events_handler(state: &GatewayState, id: &str) -> (r: Result<u128, Failure>)
    ensures
        events_requested(state.store, uuid_parse(id@), r),
{
    events_request(state, parse_id(id))
}

/// The answer once the events were loaded: all of them, in their order.
pub fn events_loaded(job_id: u128, loaded: Result<Vec<JobEventRecord>, String>) -> (r: Result<
    JobEventsResponse,
    Failure,
>)
    ensures
        match loaded {
            Ok(events) => {
                &&& r is Ok
                &&& r->Ok_0.job_id@ == uuid_text(job_id)
                &&& r->Ok_0.events@.len() == events@.len()
                &&& forall|i: int|
                    0 <= i < events@.len() ==> (#[trigger] r->Ok_0.events@[i]).tells(events@[i])
            },
            Err(e) => refused(r, StatusCode::InternalServerError, e@),
        },
{
    let records = match require_done(loaded) {
        Ok(records) => records,
        Err(f) => {
            return Err(f);
        },
    };
    let mut events: Vec<JobEventInfo> = Vec::new();
    for e in it: records.into_iter()
        invariant
            it.seq() == records@,
            events@.len() == it.index(),
            forall|i: int| 0 <= i < it.index() ==> (#[trigger] events@[i]).tells(records@[i]),
    {
        let created_at = e.created_at.to_rfc3339();
        events.push(JobEventInfo { id: e.id, event_type: e.event_type, data: e.data, created_at });
    }
    Ok(JobEventsResponse { job_id: id_text(job_id), events })
}

// --- What holds of the answers ---

/// A job that is being created is shown as pending and one that runs as in progress; any
/// other status is shown as it is, so that two statuses are shown alike only where they are
/// the same or one of them is a state already.
pub proof fn law_states_show_statuses(a: Seq<char>, b: Seq<char>)
    ensures
        a == "creating"@ ==> ui_state(a) == "pending"@,
        a == "running"@ ==> ui_state(a) == "in_progress"@,
        a != "creating"@ && a != "running"@ ==> ui_state(a) == a,
        ui_state(a) == ui_state(b) && a != b ==> a == "pending"@ || b == "pending"@ || a
            == "in_progress"@ || b == "in_progress"@,
{
    reveal_strlit("creating");
    reveal_strlit("running");
    reveal_strlit("pending");
    reveal_strlit("in_progress");
    assert("pending"@[0] == 'p' && "in_progress"@[0] == 'i');
    assert("creating"@[0] == 'c' && "running"@[0] == 'r');
}

/// A list tells of each job by its own identifier, task, user and times, and its status as
/// it is shown.
pub proof fn law_listed_jobs_are_told(
    jobs: Seq<SandboxJobRecord>,
    sorted: Seq<SandboxJobRecord>,
    told: Seq<JobInfo>,
    i: int,
)
    requires
        listed_by_age(jobs, sorted, views(told)),
        0 <= i < told.len(),
    ensures
        told.len() == jobs.len(),
        sorted.to_multiset() == jobs.to_multiset(),
        told[i].id == sorted[i].id,
        told[i].title@ == sorted[i].task@,
        told[i].state@ == ui_state(sorted[i].status@),
        told[i].user_id@ == sorted[i].user_id@,
        told[i].created_at@ == sorted[i].created_at.text(),
        told[i].started_at is Some <==> sorted[i].started_at is Some,
        told[i].started_at is Some ==> told[i].started_at->0@ == sorted[i].started_at->0.text(),
{
    assert(views(told).len() == told.len() && jobs_told(sorted).len() == sorted.len());
    law_sorting_keeps_and_orders::<SandboxJobRecord>(jobs, sorted, sorted[i]);
    assert(views(told)[i] == told[i]@);
    assert(views(told)[i] == job_told(sorted[i]));
}

/// In a list of jobs a job that was created later stands first, and jobs that were created
/// at the same time stand in the order in which the database gave them.
pub proof fn law_jobs_stand_by_creation(
    jobs: Seq<SandboxJobRecord>,
    sorted: Seq<SandboxJobRecord>,
    told: Seq<JobInfo>,
    i: int,
    j: int,
)
    requires
        listed_by_age(jobs, sorted, views(told)),
        0 <= i < j < told.len(),
    ensures
        sorted[i].created_at.secs() > sorted[j].created_at.secs() || (
        sorted[i].created_at.secs() == sorted[j].created_at.secs() && sorted[i].created_at.nanos()
            >= sorted[j].created_at.nanos()),
        sorted.filter(
            |e: SandboxJobRecord|
                e.created_at.secs() == sorted[i].created_at.secs() && e.created_at.nanos()
                    == sorted[i].created_at.nanos(),
        ) == jobs.filter(
            |e: SandboxJobRecord|
                e.created_at.secs() == sorted[i].created_at.secs() && e.created_at.nanos()
                    == sorted[i].created_at.nanos(),
        ),
{
    assert(views(told).len() == told.len() && jobs_told(sorted).len() == sorted.len());
    let x = sorted[i];
    law_sorting_keeps_and_orders::<SandboxJobRecord>(jobs, sorted, x);
    assert(!SandboxJobRecord::precedes(sorted[j], sorted[i]));
    let p = |e: SandboxJobRecord|
        e.created_at.secs() == x.created_at.secs() && e.created_at.nanos() == x.created_at.nanos();
    let q = |e: SandboxJobRecord|
        !SandboxJobRecord::precedes(e, x) && !SandboxJobRecord::precedes(x, e);
    assert(p =~= q);
    assert(sorted.filter(q) == jobs.filter(q));
}

/// A sum of jobs keeps the numbers of jobs that are pending, in progress and completed, and
/// counts those that failed and those that were interrupted together.
pub proof fn law_summary_keeps_numbers(s: SandboxJobSummary, r: JobSummaryResponse)
    requires
        summary_told(s, r),
    ensures
        r.total == s.total,
        r.pending == s.creating,
        r.in_progress == s.running,
        r.completed == s.completed,
        r.failed - s.failed == s.interrupted,
        r.stuck == 0,
{
}

/// The transitions of a job bear its own times. Where the details have a time at which the
/// job started, the first transition is to running and bears it; where they have a time at
/// which it ended, the last one is to its status, for its reason, and bears that; and there
/// are no others.
pub proof fn law_transitions_bear_their_times(
    job: SandboxJobRecord,
    mode: Result<Option<String>, String>,
    now: Timestamp,
    r: JobDetailResponse,
)
    requires
        r.tells(job, mode, now),
    ensures
        r.started_at is Some <==> job.started_at is Some,
        r.completed_at is Some <==> job.completed_at is Some,
        r.started_at is Some ==> r.started_at->0@ == rfc3339_text(
            job.started_at->0.secs(),
            job.started_at->0.nanos(),
        ),
        r.completed_at is Some ==> r.completed_at->0@ == rfc3339_text(
            job.completed_at->0.secs(),
            job.completed_at->0.nanos(),
        ),
        r.transitions@.len() == (if r.started_at is Some {
            1int
        } else {
            0
        }) + (if r.completed_at is Some {
            1int
        } else {
            0
        }),
        r.started_at is Some ==> {
            let first = r.transitions@[0];
            &&& first.timestamp@ == r.started_at->0@
            &&& first.from@ == "creating"@
            &&& first.to@ == "running"@
            &&& first.reason is None
        },
        r.completed_at is Some ==> {
            let last = r.transitions@[r.transitions@.len() - 1];
            &&& last.timestamp@ == r.completed_at->0@
            &&& last.from@ == "running"@
            &&& last.to@ == job.status@
            &&& last.reason is Some <==> job.failure_reason is Some
            &&& last.reason is Some ==> last.reason->0@ == job.failure_reason->0@
        },
{
    let v = views(r.transitions@);
    assert(v.len() == r.transitions@.len());
    if r.transitions@.len() > 0 {
        let n = r.transitions@.len() - 1;
        assert(v[0] == r.transitions@[0]@);
        assert(v[n] == r.transitions@[n]@);
        assert(v[0] == transitions_of(job)[0]);
        assert(v[n] == transitions_of(job)[n]);
    }
}

/// The details of a job are those of its record: identifier, task, user, project directory
/// and time of creation as they are, the status as it is shown, and no description.
pub proof fn law_details_are_of_the_record(
    job: SandboxJobRecord,
    mode: Result<Option<String>, String>,
    now: Timestamp,
    r: JobDetailResponse,
)
    requires
        r.tells(job, mode, now),
    ensures
        r.id == job.id,
        r.title@ == job.task@,
        r.description@.len() == 0,
        r.state@ == ui_state(job.status@),
        r.user_id@ == job.user_id@,
        r.created_at@ == rfc3339_text(job.created_at.secs(), job.created_at.nanos()),
        r.project_dir is Some,
        r.project_dir->0@ == job.project_dir@,
{
}

/// How long a job has been running is counted from its start to its end, or to now where it
/// has not ended; a job that has not started has no such time, and two looks at a job that
/// has ended give the same.
pub proof fn law_details_count_the_time(
    job: SandboxJobRecord,
    mode: Result<Option<String>, String>,
    now: Timestamp,
    later: Timestamp,
    r: JobDetailResponse,
    s: JobDetailResponse,
)
    requires
        r.tells(job, mode, now),
        s.tells(job, mode, later),
    ensures
        r.elapsed_secs is Some <==> job.started_at is Some,
        job.started_at is Some && job.completed_at is Some ==> r.elapsed_secs->0
            == job.started_at->0.elapsed(job.completed_at->0),
        job.started_at is Some && job.completed_at is None ==> r.elapsed_secs->0
            == job.started_at->0.elapsed(now),
        job.completed_at is Some ==> r.elapsed_secs == s.elapsed_secs,
{
}

/// A job is browsed under `/projects/`, by the name of its project directory, or by its
/// identifier where that has no name.
pub proof fn law_details_say_where_to_browse(
    job: SandboxJobRecord,
    mode: Result<Option<String>, String>,
    now: Timestamp,
    r: JobDetailResponse,
)
    requires
        r.tells(job, mode, now),
    ensures
        r.browse_url is Some,
        r.browse_url->0@ == "/projects/"@ + (if file_name(job.project_dir@) is Some {
            file_name(job.project_dir@)->0
        } else {
            uuid_text(job.id)
        }) + "/"@,
{
}

/// The mode of a job is shown as the database has it, but where it is that of an ordinary
/// worker, where there is none, and where it could not be read.
pub proof fn law_details_show_special_modes(
    job: SandboxJobRecord,
    mode: Result<Option<String>, String>,
    now: Timestamp,
    r: JobDetailResponse,
)
    requires
        r.tells(job, mode, now),
    ensures
        r.job_mode is Some <==> (mode matches Ok(Some(m)) && m@ != "worker"@),
        r.job_mode is Some ==> (mode matches Ok(Some(m)) && r.job_mode->0@ == m@),
{
}

/// A request that speaks of a job is taken exactly where the identifier is one and there is
/// a database, and for the job with that identifier; without a database there is no job.
pub proof fn law_job_requests(store: bool, id: Option<u128>, r: Result<u128, Failure>)
    requires
        job_requested(store, id, r),
    ensures
        r is Ok <==> store && id is Some,
        r is Ok ==> Some(r->Ok_0) == id,
        r is Err ==> r->Err_0.status == (if id is Some {
            StatusCode::NotFound
        } else {
            StatusCode::BadRequest
        }) && r->Err_0.message@ == (if id is Some {
            "Job not found"@
        } else {
            "Invalid job ID"@
        }),
{
}

/// A request to start a job again is taken exactly where there are a database and
/// containers and the identifier is one; what is missing is named in this order.
pub proof fn law_restart_requests(
    store: bool,
    job_manager: bool,
    id: Option<u128>,
    r: Result<u128, Failure>,
)
    requires
        restart_requested(store, job_manager, id, r),
    ensures
        r is Ok <==> store && job_manager && id is Some,
        r is Ok ==> Some(r->Ok_0) == id,
        r is Err && !(store && job_manager) ==> r->Err_0.status == StatusCode::ServiceUnavailable,
        !store ==> r->Err_0.message@ == "Database not available"@,
        store && !job_manager ==> r->Err_0.message@ == "Sandbox not enabled"@,
        store && job_manager && id is None ==> r->Err_0.status == StatusCode::BadRequest
            && r->Err_0.message@ == "Invalid job ID"@,
{
}

/// A request for events is taken exactly where there is a database and the identifier is
/// one; without a database events are not implemented.
pub proof fn law_event_requests(store: bool, id: Option<u128>, r: Result<u128, Failure>)
    requires
        events_requested(store, id, r),
    ensures
        r is Ok <==> store && id is Some,
        r is Ok ==> Some(r->Ok_0) == id,
        !store ==> r->Err_0.status == StatusCode::NotImplemented && r->Err_0.message@
            == "Database not available"@,
        store && id is None ==> r->Err_0.status == StatusCode::BadRequest && r->Err_0.message@
            == "Invalid job ID"@,
{
}

/// What can be stopped is what runs or is being created, and what can be started again is
/// what failed or was interrupted.
pub proof fn law_statuses_that_can_change(status: Seq<char>)
    ensures
        active_status(status) <==> status == "running"@ || status == "creating"@,
        restartable_status(status) <==> status == "failed"@ || status == "interrupted"@,
{
}

/// A job that is cancelled is marked as failed, without success, for the reason that the
/// user cancelled it, and as ended now; when it started is left alone. The answer names the
/// job.
pub proof fn law_cancelled_jobs_are_marked(
    update: StatusUpdate,
    job_id: u128,
    now: Timestamp,
    reply: CancelReply,
)
    requires
        marks_cancelled(update, job_id, now),
        reply.confirms(job_id),
    ensures
        update.job_id == job_id,
        update.status@ == "failed"@,
        update.success == Some(false),
        update.failure_reason is Some && update.failure_reason->0@ == "Cancelled by user"@,
        update.started_at is None,
        update.completed_at == Some(now),
        reply.job_id == job_id,
        reply.status@ == "cancelled"@,
{
}

/// A new job that repeats an old one has its task, user and project directory, an
/// identifier of its own, and nothing of what became of the old one; its container runs the
/// same; and it runs since it was created.
pub proof fn law_new_jobs_are_fresh(
    plan: RestartPlan,
    old_job_id: u128,
    old_job: SandboxJobRecord,
    new_job_id: u128,
    now: Timestamp,
    request: ContainerRequest,
    mode: JobMode,
    update: StatusUpdate,
)
    requires
        plan.repeats(old_job_id, old_job, new_job_id, now),
        request.runs(plan, mode),
        marks_running(update, plan),
    ensures
        plan.old_job_id == old_job_id,
        plan.record.id == new_job_id,
        plan.record.task@ == old_job.task@,
        plan.record.user_id@ == old_job.user_id@,
        plan.record.project_dir@ == old_job.project_dir@,
        plan.record.status@ == "creating"@,
        plan.record.success is None,
        plan.record.failure_reason is None,
        plan.record.created_at == now,
        plan.record.started_at is None,
        plan.record.completed_at is None,
        request.job_id == new_job_id,
        request.task@ == old_job.task@,
        request.project_dir@ == old_job.project_dir@,
        request.mode == mode,
        update.job_id == new_job_id,
        update.status@ == "running"@,
        update.success is None,
        update.failure_reason is None,
        update.started_at == Some(now),
        update.completed_at is None,
{
}

/// A restart goes on exactly where what it asked for was done, and else ends with what went
/// wrong: an old job that is not there, one that can not be started again, or the error of
/// the database or of the containers.
pub proof fn law_restart_stops_where_something_fails(
    old_job_id: u128,
    found: Result<Option<SandboxJobRecord>, String>,
    new_job_id: u128,
    now: Timestamp,
    plan: RestartPlan,
    done: Result<(), String>,
    looked_up: RestartStep,
    saved: RestartStep,
    created: RestartStep,
    marked: RestartStep,
)
    requires
        restart_decided(old_job_id, found, new_job_id, now, looked_up),
        save_decided(plan, done, saved),
        creation_decided(plan, done, created),
        mark_decided(plan, done, marked),
    ensures
        looked_up is Save <==> (found matches Ok(Some(job)) && (job.status@ == "failed"@
            || job.status@ == "interrupted"@)),
        looked_up matches RestartStep::Save { plan: p } ==> (found matches Ok(Some(job))
            && p.repeats(old_job_id, job, new_job_id, now)),
        !(looked_up is Save) ==> looked_up is Fail,
        found matches Err(e) ==> (looked_up matches RestartStep::Fail(f) && f.status
            == StatusCode::InternalServerError && f.message@ == e@),
        found matches Ok(None) ==> (looked_up matches RestartStep::Fail(f) && f.status
            == StatusCode::NotFound && f.message@ == "Job not found"@),
        found matches Ok(Some(job)) ==> looked_up is Fail ==> (
        looked_up matches RestartStep::Fail(f) && f.status == StatusCode::Conflict && f.message@
            == "Cannot restart job in state '"@ + job.status@ + "'"@),
        saved is ReadMode <==> done is Ok,
        saved matches RestartStep::ReadMode { plan: p, job_id } ==> p == plan && job_id
            == plan.old_job_id,
        created is Mark <==> done is Ok,
        created matches RestartStep::Mark { plan: p, .. } ==> p == plan,
        marked is Reply <==> done is Ok,
        marked matches RestartStep::Reply(reply) ==> reply.status@ == "restarted"@
            && reply.old_job_id == plan.old_job_id && reply.new_job_id == plan.record.id,
        done matches Err(e) ==> {
            &&& saved matches RestartStep::Fail(f) && f.status == StatusCode::InternalServerError
                && f.message@ == e@
            &&& created matches RestartStep::Fail(g) && g.status == StatusCode::InternalServerError
                && g.message@ == "Failed to create container: "@ + e@
            &&& marked matches RestartStep::Fail(h) && h.status == StatusCode::InternalServerError
                && h.message@ == e@
        },
{
}

/// A job is started again in the mode `ClaudeCode` exactly where the mode of the old one was
/// read and says so, and as an ordinary worker in any other event.
pub proof fn law_restart_keeps_the_mode(
    plan: RestartPlan,
    mode: Result<Option<String>, String>,
    r: RestartStep,
)
    requires
        mode_decided(plan, mode, r),
    ensures
        r matches RestartStep::Create { plan: p, request } && p == plan && request.job_id
            == plan.record.id && request.task@ == plan.record.task@ && request.project_dir@
            == plan.record.project_dir@ && (request.mode == JobMode::ClaudeCode <==> (
        mode matches Ok(Some(m)) && m@ == "claude_code"@)),
{
}

/// A prompt is taken exactly where prompts are, the identifier is one and there is a
/// content: for that job, with that content, and as the last one exactly where that is said
/// with a truth value. What is missing is named in this order.
pub proof fn law_prompts_are_taken_as_sent(
    prompt_queue: bool,
    agent: Seq<char>,
    id: Option<u128>,
    content: Option<Seq<char>>,
    done: Option<bool>,
    r: Result<(u128, PendingPrompt), Failure>,
)
    requires
        prompt_decided(prompt_queue, agent, id, content, done, r),
    ensures
        r is Ok <==> prompt_queue && id is Some && content is Some,
        r is Ok ==> Some(r->Ok_0.0) == id && Some(r->Ok_0.1.content@) == content,
        r is Ok && done is Some ==> r->Ok_0.1.done == done->0,
        r is Ok && done is None ==> !r->Ok_0.1.done,
        !prompt_queue ==> r->Err_0.status == StatusCode::NotImplemented && r->Err_0.message@
            == agent + " not configured"@,
        prompt_queue && r is Err ==> r->Err_0.status == StatusCode::BadRequest
            && r->Err_0.message@ == (if id is None {
            "Invalid job ID"@
        } else {
            "Missing 'content' field"@
        }),
{
}

/// A member of a body is seen exactly where the body has one of that kind under that key.
pub proof fn law_members_are_seen(body: serde_json::Value, key: Seq<char>)
    ensures
        text_at(body, key) is Some <==> text_members(body).contains_key(key),
        text_at(body, key) is Some ==> text_at(body, key)->0 == text_members(body)[key],
        bool_at(body, key) is Some <==> bool_members(body).contains_key(key),
        bool_at(body, key) is Some ==> bool_at(body, key)->0 == bool_members(body)[key],
{
}

/// An event is told as it was recorded: identifier, type, data and time.
pub proof fn law_events_are_told_as_recorded(told: JobEventInfo, event: JobEventRecord)
    requires
        told.tells(event),
    ensures
        told.id == event.id,
        told.event_type@ == event.event_type@,
        told.data == event.data,
        told.created_at@ == rfc3339_text(event.created_at.secs(), event.created_at.nanos()),
{
}

} // verus!
