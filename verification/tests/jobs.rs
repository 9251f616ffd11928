use web_gateway::clock::Timestamp;
use web_gateway::ids::id_text;
use web_gateway::jobs::{
    cancel_looked_up, cancel_marked, cancel_stopped, cancellation, cancellation_now,
    detail_looked_up, events_loaded, job_detail, job_detail_now, job_looked_up, job_of,
    jobs_cancel_handler, jobs_detail_handler, jobs_events_handler, jobs_list_handler, jobs_listed,
    jobs_prompt_handler, jobs_restart_handler, jobs_summary_handler, jobs_summed, prompt_queued,
    prompt_request, restart_created, restart_looked_up, restart_marked, restart_mode_read,
    restart_plan, restart_saved, restartable, shown_state, store_available, CancelStep,
    JobEventRecord, JobMode, RestartPlan, RestartStep, SandboxJobRecord, SandboxJobSummary,
};
use web_gateway::reply::{Failure, StatusCode};
use web_gateway::state::{GatewayState, PendingPrompt, PromptQueue};

fn gateway(attached: bool) -> GatewayState {
    GatewayState {
        msg_tx: attached,
        workspace: attached,
        session_manager: attached,
        log_broadcaster: attached,
        extension_manager: attached,
        tool_registry: attached,
        store: attached,
        job_manager: attached,
        prompt_queue: attached,
        user_id: "alice".to_string(),
        ws_tracker: None,
    }
}

fn failure(status: StatusCode, message: &str) -> Failure {
    Failure { status, message: message.to_string() }
}

fn at(secs: i64) -> Timestamp {
    Timestamp::new(secs, 0).unwrap()
}

fn job(id: u128, status: &str, created: i64) -> SandboxJobRecord {
    SandboxJobRecord {
        id,
        task: format!("task {}", id),
        status: status.to_string(),
        user_id: "alice".to_string(),
        project_dir: "/home/alice/.ironclaw/projects/demo".to_string(),
        success: None,
        failure_reason: None,
        created_at: at(created),
        started_at: None,
        completed_at: None,
    }
}

#[test]
fn statuses_are_shown_as_states() {
    assert_eq!(shown_state("creating"), "pending");
    assert_eq!(shown_state("running"), "in_progress");
    assert_eq!(shown_state("completed"), "completed");
    assert_eq!(shown_state(""), "");
}

#[test]
fn jobs_are_listed_most_recent_first() {
    let jobs = vec![job(1, "running", 100), job(2, "failed", 300), job(3, "creating", 200)];
    let r = jobs_listed(Ok(jobs)).unwrap();
    let ids: Vec<u128> = r.jobs.iter().map(|j| j.id).collect();
    assert_eq!(ids, vec![2, 3, 1]);
    assert_eq!(r.jobs[1].state, "pending");
    assert_eq!(r.jobs[2].state, "in_progress");
    assert_eq!(r.jobs[2].title, "task 1");
    assert_eq!(r.jobs[2].created_at, "1970-01-01T00:01:40+00:00");
    assert_eq!(r.jobs[2].started_at, None);
}

#[test]
fn jobs_created_at_once_stay_in_their_order() {
    let jobs = vec![job(5, "failed", 1), job(4, "failed", 1), job(6, "failed", 2)];
    let r = jobs_listed(Ok(jobs)).unwrap();
    let ids: Vec<u128> = r.jobs.iter().map(|j| j.id).collect();
    assert_eq!(ids, vec![6, 5, 4]);
    assert_eq!(
        jobs_listed(Err("down".to_string())),
        Err(failure(StatusCode::InternalServerError, "down"))
    );
}

#[test]
fn jobs_beyond_four_digit_years_are_listed_in_order_too() {
    let jobs = vec![
        job(1, "failed", 253402300799),
        job(2, "failed", 253402300800),
        job(3, "failed", -62167219201),
        job(4, "failed", -62167219200),
    ];
    let r = jobs_listed(Ok(jobs)).unwrap();
    let ids: Vec<u128> = r.jobs.iter().map(|j| j.id).collect();
    assert_eq!(ids, vec![2, 1, 4, 3]);
    assert!(r.jobs[0].created_at < r.jobs[1].created_at);
}

#[test]
fn interrupted_jobs_count_as_failed() {
    let s = SandboxJobSummary {
        total: 21,
        creating: 1,
        running: 2,
        completed: 3,
        failed: 4,
        interrupted: 5,
    };
    let r = jobs_summed(Ok(s)).unwrap();
    assert_eq!(
        (r.total, r.pending, r.in_progress, r.completed, r.failed, r.stuck),
        (21, 1, 2, 3, 9, 0)
    );
    assert_eq!(r.pending + r.in_progress + r.completed + r.failed + r.stuck, 15);
    assert_eq!(
        jobs_summed(Err("down".to_string())),
        Err(failure(StatusCode::InternalServerError, "down"))
    );
}

#[test]
fn requests_for_a_job_are_checked_in_order() {
    let id = id_text(7);
    assert_eq!(jobs_detail_handler(&gateway(true), &id), Ok(7));
    assert_eq!(jobs_cancel_handler(&gateway(true), &id), Ok(7));
    for handler in [jobs_detail_handler, jobs_cancel_handler] {
        assert_eq!(
            handler(&gateway(false), "x"),
            Err(failure(StatusCode::BadRequest, "Invalid job ID"))
        );
        assert_eq!(
            handler(&gateway(false), &id),
            Err(failure(StatusCode::NotFound, "Job not found"))
        );
    }
}

#[test]
fn a_job_that_cannot_be_looked_up_is_not_found() {
    assert_eq!(job_looked_up(Ok(Some(job(1, "failed", 0)))).unwrap().id, 1);
    let (found, mode_of) = detail_looked_up(Ok(Some(job(1, "failed", 0)))).unwrap();
    assert_eq!((found.id, mode_of), (1, 1));
    let gone = Some(failure(StatusCode::NotFound, "Job not found"));
    assert_eq!(job_looked_up(Ok(None)).err(), gone);
    assert_eq!(detail_looked_up(Ok(None)).err(), gone);
    assert_eq!(job_looked_up(Err("down".to_string())).err(), gone);
    assert_eq!(job_of(Ok(None)).err(), gone);
    assert_eq!(
        job_of(Err("down".to_string())).err(),
        Some(failure(StatusCode::InternalServerError, "down"))
    );
}

#[test]
fn details_of_a_finished_job() {
    let mut j = job(1, "failed", 0);
    j.started_at = Some(at(10));
    j.completed_at = Some(at(75));
    j.failure_reason = Some("boom".to_string());
    let d = job_detail(&j, Ok(Some("claude_code".to_string())), &at(1000));
    assert_eq!(d.id, 1);
    assert_eq!(d.title, "task 1");
    assert_eq!(d.description, "");
    assert_eq!(d.state, "failed");
    assert_eq!(d.user_id, "alice");
    assert_eq!(d.created_at, "1970-01-01T00:00:00+00:00");
    assert_eq!(d.started_at, Some("1970-01-01T00:00:10+00:00".to_string()));
    assert_eq!(d.completed_at, Some("1970-01-01T00:01:15+00:00".to_string()));
    assert_eq!(d.elapsed_secs, Some(65));
    assert_eq!(d.project_dir, Some("/home/alice/.ironclaw/projects/demo".to_string()));
    assert_eq!(d.browse_url, Some("/projects/demo/".to_string()));
    assert_eq!(d.job_mode, Some("claude_code".to_string()));
    assert_eq!(d.transitions.len(), 2);
    assert_eq!((d.transitions[0].from.as_str(), d.transitions[0].to.as_str()), ("creating", "running"));
    assert_eq!(d.transitions[0].timestamp, "1970-01-01T00:00:10+00:00");
    assert_eq!(d.transitions[0].reason, None);
    assert_eq!((d.transitions[1].from.as_str(), d.transitions[1].to.as_str()), ("running", "failed"));
    assert_eq!(d.transitions[1].reason, Some("boom".to_string()));
    assert_eq!(d.transitions[0].to, d.transitions[1].from);
}

#[test]
fn details_of_a_running_job_reach_until_now() {
    let mut j = job(1, "running", 0);
    j.started_at = Some(at(10));
    assert_eq!(job_detail(&j, Ok(None), &at(1000)).elapsed_secs, Some(990));
    assert_eq!(job_detail(&j, Ok(None), &at(5)).elapsed_secs, Some(0));
    let d = job_detail_now(&j, Ok(None));
    assert!(d.elapsed_secs.unwrap() > 1_600_000_000);
    assert_eq!(d.transitions.len(), 1);
    assert_eq!(d.state, "in_progress");
}

#[test]
fn details_of_a_job_that_never_started() {
    let d = job_detail(&job(1, "creating", 0), Ok(None), &at(1000));
    assert_eq!(d.elapsed_secs, None);
    assert_eq!(d.started_at, None);
    assert!(d.transitions.is_empty());
}

#[test]
fn the_mode_of_ordinary_workers_is_not_shown() {
    let mode = |m: Result<Option<String>, String>| job_detail(&job(1, "failed", 0), m, &at(0)).job_mode;
    assert_eq!(mode(Ok(Some("worker".to_string()))), None);
    assert_eq!(mode(Ok(None)), None);
    assert_eq!(mode(Err("down".to_string())), None);
    assert_eq!(mode(Ok(Some("other".to_string()))), Some("other".to_string()));
}

#[test]
fn jobs_without_a_directory_name_are_browsed_by_identifier() {
    let mut j = job(0xff, "failed", 0);
    for dir in ["/", "", "..", "/a/.."] {
        j.project_dir = dir.to_string();
        assert_eq!(
            job_detail(&j, Ok(None), &at(0)).browse_url,
            Some("/projects/00000000-0000-0000-0000-0000000000ff/".to_string())
        );
    }
}

#[test]
fn active_jobs_are_stopped_and_marked() {
    let mut state = gateway(true);
    for status in ["running", "creating"] {
        state.job_manager = true;
        assert_eq!(
            cancel_looked_up(&state, 1, Ok(Some(job(1, status, 0)))),
            CancelStep::Stop { job_id: 1 }
        );
        state.job_manager = false;
        assert_eq!(
            cancel_looked_up(&state, 1, Ok(Some(job(1, status, 0)))),
            CancelStep::Mark { job_id: 1 }
        );
    }
    assert_eq!(cancel_stopped(1, Ok(())), CancelStep::Mark { job_id: 1 });
    assert_eq!(cancel_stopped(1, Err("stuck".to_string())), CancelStep::Mark { job_id: 1 });
}

#[test]
fn other_jobs_are_left_alone_when_cancelled() {
    for status in ["completed", "failed", "interrupted", "Running"] {
        match cancel_looked_up(&gateway(true), 1, Ok(Some(job(1, status, 0)))) {
            CancelStep::Reply(reply) => {
                assert_eq!((reply.status, reply.job_id), ("cancelled", 1));
            }
            other => panic!("{:?}", other),
        }
    }
    for found in [Ok(None), Err("down".to_string())] {
        assert_eq!(
            cancel_looked_up(&gateway(true), 1, found),
            CancelStep::Fail(failure(StatusCode::NotFound, "Job not found"))
        );
    }
}

#[test]
fn cancelled_jobs_are_marked_as_failed() {
    let u = cancellation(3, at(50));
    assert_eq!((u.job_id, u.status, u.success), (3, "failed", Some(false)));
    assert_eq!(u.failure_reason, Some("Cancelled by user"));
    assert!(u.started_at.is_none());
    assert_eq!(u.completed_at.unwrap().seconds(), 50);
    assert!(cancellation_now(3).completed_at.unwrap().seconds() > 1_600_000_000);
    assert_eq!(cancel_marked(3, Ok(())).unwrap().job_id, 3);
    assert_eq!(
        cancel_marked(3, Err("down".to_string())),
        Err(failure(StatusCode::InternalServerError, "down"))
    );
    let mut j = job(3, "running", 0);
    j.status = u.status.to_string();
    assert!(restartable(Ok(Some(j))).is_ok());
}

#[test]
fn jobs_need_a_database() {
    let missing = failure(StatusCode::ServiceUnavailable, "Database not available");
    for handler in [jobs_list_handler, jobs_summary_handler] {
        assert_eq!(handler(&gateway(true)), Ok(()));
        assert_eq!(handler(&gateway(false)).err().as_ref(), Some(&missing));
    }
}

#[test]
fn restarts_are_checked_in_order() {
    let mut state = gateway(false);
    assert_eq!(
        jobs_restart_handler(&state, "x"),
        Err(failure(StatusCode::ServiceUnavailable, "Database not available"))
    );
    state.store = true;
    assert_eq!(
        jobs_restart_handler(&state, "x"),
        Err(failure(StatusCode::ServiceUnavailable, "Sandbox not enabled"))
    );
    state.job_manager = true;
    assert_eq!(
        jobs_restart_handler(&state, "x"),
        Err(failure(StatusCode::BadRequest, "Invalid job ID"))
    );
    assert_eq!(jobs_restart_handler(&state, &id_text(2)), Ok(2));
}

#[test]
fn only_failed_and_interrupted_jobs_are_restarted() {
    assert!(restartable(Ok(Some(job(1, "failed", 0)))).is_ok());
    assert!(restartable(Ok(Some(job(1, "interrupted", 0)))).is_ok());
    for status in ["running", "creating", "completed"] {
        assert_eq!(
            failed(restart_looked_up(1, Ok(Some(job(1, status, 0))))),
            Failure {
                status: StatusCode::Conflict,
                message: format!("Cannot restart job in state '{}'", status),
            }
        );
    }
    assert_eq!(
        failed(restart_looked_up(1, Ok(None))),
        failure(StatusCode::NotFound, "Job not found")
    );
    assert_eq!(
        failed(restart_looked_up(1, Err("down".to_string()))),
        failure(StatusCode::InternalServerError, "down")
    );
}

fn failed(step: RestartStep) -> Failure {
    match step {
        RestartStep::Fail(failure) => failure,
        other => panic!("{:?}", other),
    }
}

fn planned(step: RestartStep) -> RestartPlan {
    match step {
        RestartStep::Save { plan } => plan,
        other => panic!("{:?}", other),
    }
}

#[test]
fn a_restart_repeats_the_job() {
    let mut old = job(1, "failed", 0);
    old.success = Some(false);
    old.failure_reason = Some("boom".to_string());
    old.started_at = Some(at(1));
    old.completed_at = Some(at(2));
    let plan = restart_plan(1, old, 2, at(100));
    assert_eq!(plan.old_job_id, 1);
    assert_eq!(plan.record.id, 2);
    assert_eq!(plan.record.task, "task 1");
    assert_eq!(plan.record.status, "creating");
    assert_eq!(plan.record.user_id, "alice");
    assert_eq!(plan.record.project_dir, "/home/alice/.ironclaw/projects/demo");
    assert_eq!(plan.record.success, None);
    assert_eq!(plan.record.failure_reason, None);
    assert_eq!(plan.record.created_at.seconds(), 100);
    assert!(plan.record.started_at.is_none() && plan.record.completed_at.is_none());
    let plan = match restart_saved(plan, Ok(())) {
        RestartStep::ReadMode { plan, job_id } => {
            assert_eq!(job_id, 1);
            plan
        }
        other => panic!("{:?}", other),
    };
    let plan = match restart_mode_read(plan, Ok(Some("claude_code".to_string()))) {
        RestartStep::Create { plan, request } => {
            assert_eq!(request.job_id, 2);
            assert_eq!(request.task, "task 1");
            assert_eq!(request.project_dir, "/home/alice/.ironclaw/projects/demo");
            assert_eq!(request.mode, JobMode::ClaudeCode);
            plan
        }
        other => panic!("{:?}", other),
    };
    let plan = match restart_created(plan, Ok(())) {
        RestartStep::Mark { plan, update } => {
            assert_eq!((update.job_id, update.status, update.success), (2, "running", None));
            assert_eq!(update.started_at.unwrap().seconds(), 100);
            assert!(update.completed_at.is_none() && update.failure_reason.is_none());
            plan
        }
        other => panic!("{:?}", other),
    };
    match restart_marked(plan, Ok(())) {
        RestartStep::Reply(reply) => {
            assert_eq!((reply.status, reply.old_job_id, reply.new_job_id), ("restarted", 1, 2))
        }
        other => panic!("{:?}", other),
    }
}

#[test]
fn restarts_get_a_new_identifier() {
    let a = planned(restart_looked_up(1, Ok(Some(job(1, "failed", 0)))));
    let b = planned(restart_looked_up(1, Ok(Some(job(1, "failed", 0)))));
    assert_ne!(a.record.id, b.record.id);
    assert_ne!(a.record.id, 1);
    assert!(a.record.created_at.seconds() > 1_600_000_000);
}

#[test]
fn restarts_fail_with_what_failed() {
    let plan = || restart_plan(1, job(1, "failed", 0), 2, at(0));
    let down = || Err("down".to_string());
    let error = failure(StatusCode::InternalServerError, "down");
    assert_eq!(failed(restart_saved(plan(), down())), error);
    assert_eq!(
        failed(restart_created(plan(), down())),
        failure(StatusCode::InternalServerError, "Failed to create container: down")
    );
    assert_eq!(failed(restart_marked(plan(), down())), error);
}

#[test]
fn jobs_without_a_known_mode_are_restarted_as_workers() {
    for mode in [Ok(Some("worker".to_string())), Ok(None), Err("down".to_string())] {
        let plan = restart_plan(1, job(1, "failed", 0), 2, at(0));
        match restart_mode_read(plan, mode) {
            RestartStep::Create { request, .. } => assert_eq!(request.mode, JobMode::Worker),
            other => panic!("{:?}", other),
        }
    }
}

fn body(text: &str) -> serde_json::Value {
    serde_json::from_str(text).unwrap()
}

#[test]
fn prompts_are_read_out_of_the_body() {
    let id = id_text(4);
    let prompt = |text: &str| jobs_prompt_handler(&gateway(true), "Coder", &id, &body(text));
    let expected = |done| Ok((4, PendingPrompt { content: "go on".to_string(), done }));
    assert_eq!(prompt("{\"content\": \"go on\"}"), expected(false));
    assert_eq!(prompt("{\"content\": \"go on\", \"done\": true}"), expected(true));
    assert_eq!(prompt("{\"content\": \"go on\", \"done\": false}"), expected(false));
    assert_eq!(prompt("{\"content\": \"go on\", \"done\": \"yes\"}"), expected(false));
    let missing = Err(failure(StatusCode::BadRequest, "Missing 'content' field"));
    assert_eq!(prompt("{}"), missing);
    assert_eq!(prompt("{\"content\": 1}"), missing);
    assert_eq!(prompt("[\"content\"]"), missing);
    assert_eq!(prompt("\"content\""), missing);
}

#[test]
fn prompts_are_checked_in_order() {
    let empty = body("{}");
    assert_eq!(
        jobs_prompt_handler(&gateway(false), "Coder", "x", &empty),
        Err(failure(StatusCode::NotImplemented, "Coder not configured"))
    );
    assert_eq!(
        jobs_prompt_handler(&gateway(true), "Coder", "x", &empty),
        Err(failure(StatusCode::BadRequest, "Invalid job ID"))
    );
    assert_eq!(
        prompt_request(&gateway(true), "Coder", Some(1), Some("c".to_string()), None),
        Ok((1, PendingPrompt { content: "c".to_string(), done: false }))
    );
}

#[test]
fn prompts_are_queued_behind_each_other() {
    let mut queue = PromptQueue::new();
    let prompt = |text: &str| PendingPrompt { content: text.to_string(), done: false };
    let reply = prompt_queued(&mut queue, 1, prompt("first"));
    assert_eq!(reply.status, "queued");
    assert_eq!(reply.job_id, "00000000-0000-0000-0000-000000000001");
    prompt_queued(&mut queue, 1, prompt("second"));
    assert_eq!(queue.pending.len(), 1);
    assert_eq!(queue.pending[&1][0].content, "first");
    assert_eq!(queue.pending[&1][1].content, "second");
}

#[test]
fn events_are_replayed_in_order() {
    let event = |id: i64, kind: &str, data: &str| JobEventRecord {
        id,
        event_type: kind.to_string(),
        data: body(data),
        created_at: at(id),
    };
    let loaded = vec![event(1, "message", "{\"a\": [1, null]}"), event(2, "result", "7")];
    let r = events_loaded(3, Ok(loaded)).unwrap();
    assert_eq!(r.job_id, "00000000-0000-0000-0000-000000000003");
    assert_eq!(r.events.len(), 2);
    assert_eq!(r.events[0].id, 1);
    assert_eq!(r.events[0].event_type, "message");
    assert_eq!(r.events[0].data, body("{\"a\": [1, null]}"));
    assert_eq!(r.events[0].created_at, "1970-01-01T00:00:01+00:00");
    assert_eq!(r.events[1].event_type, "result");
    assert_eq!(r.events[1].data, body("7"));
}

#[test]
fn events_are_checked_in_order() {
    assert_eq!(
        jobs_events_handler(&gateway(false), "x"),
        Err(failure(StatusCode::NotImplemented, "Database not available"))
    );
    assert_eq!(
        jobs_events_handler(&gateway(true), "x"),
        Err(failure(StatusCode::BadRequest, "Invalid job ID"))
    );
    assert_eq!(jobs_events_handler(&gateway(true), &id_text(8)), Ok(8));
    assert_eq!(
        events_loaded(8, Err("down".to_string())).err(),
        Some(failure(StatusCode::InternalServerError, "down"))
    );
    assert_eq!(
        store_available(&gateway(false)),
        Err(failure(StatusCode::ServiceUnavailable, "Database not available"))
    );
}
