use mailer::models::{EmailJob, EmailStatus, EmailTemplate, Timestamp};
use mailer::queue::EmailQueue;
use mailer::templates::{RenderFailure, TemplateEngine, TemplateSources};
use mailer::worker::{carry_out, on_rendered, step, step_in_year, WorkerAction, WorkerEvent, WorkerState};

fn engine() -> TemplateEngine {
    TemplateEngine::new(&TemplateSources {
        otp: "code {{otp}}".to_string(),
        otp_2fa: "login {{otp}}".to_string(),
        welcome: "Welcome {{name}} in {{year}}".to_string(),
        password_reset: "reset".to_string(),
        license_created: "{{#each}}x{{/each}}".to_string(),
    })
    .unwrap()
}

fn object(members: &[(&str, &str)]) -> serde_json::Value {
    let mut map = serde_json::Map::new();
    for (key, text) in members {
        map.insert(key.to_string(), serde_json::Value::String(text.to_string()));
    }
    serde_json::Value::Object(map)
}

fn job(template: EmailTemplate, data: serde_json::Value) -> EmailJob {
    let mut job = EmailJob::new(
        "job-7".to_string(),
        "a@x.com".to_string(),
        "Hi".to_string(),
        template,
        data,
        Timestamp { secs: 1, nanos: 0 },
    );
    job.mark_processing();
    job
}

#[test]
fn tick_makes_idle_worker_ask_for_a_job() {
    let (state, action) = step(WorkerState::Idle, WorkerEvent::Tick, &engine());
    assert!(matches!(state, WorkerState::Claiming));
    assert!(matches!(action, WorkerAction::Dequeue));
}

#[test]
fn no_job_sends_worker_back_to_waiting() {
    let (state, action) = step(WorkerState::Claiming, WorkerEvent::Dequeued(None), &engine());
    assert!(matches!(state, WorkerState::Idle));
    assert!(matches!(action, WorkerAction::Wait));
    let (state, action) = step(WorkerState::Claiming, WorkerEvent::DequeueFailed, &engine());
    assert!(matches!(state, WorkerState::Idle));
    assert!(matches!(action, WorkerAction::Wait));
}

#[test]
fn claimed_job_is_rendered_and_sent() {
    let claimed = job(EmailTemplate::Welcome, object(&[("name", "Ada")]));
    let (state, action) = step_in_year(
        WorkerState::Claiming,
        WorkerEvent::Dequeued(Some(claimed)),
        &engine(),
        "2031",
    );
    assert!(matches!(state, WorkerState::Sending(id) if id == "job-7"));
    match action {
        WorkerAction::Send { to, subject, html } => {
            assert_eq!(to, "a@x.com");
            assert_eq!(subject, "Hi");
            assert_eq!(html, "Welcome Ada in 2031");
        }
        other => panic!("expected Send, got {:?}", other),
    }
}

#[test]
fn claimed_job_is_rendered_in_the_current_year() {
    let claimed = job(EmailTemplate::Welcome, object(&[("name", "Ada")]));
    let (_, action) = step(WorkerState::Claiming, WorkerEvent::Dequeued(Some(claimed)), &engine());
    let year = chrono::Utc::now().format("%Y").to_string();
    assert!(matches!(action, WorkerAction::Send { html, .. } if html == format!("Welcome Ada in {}", year)));
}

#[test]
fn rendering_failure_is_reported_and_nothing_is_sent() {
    let claimed = job(EmailTemplate::Custom, object(&[("name", "Ada")]));
    let (state, action) = step(WorkerState::Claiming, WorkerEvent::Dequeued(Some(claimed)), &engine());
    assert!(matches!(state, WorkerState::Idle));
    match action {
        WorkerAction::Fail { job_id, error } => {
            assert_eq!(job_id, "job-7");
            assert_eq!(error, "Custom template requires 'html' field in data");
        }
        other => panic!("expected Fail, got {:?}", other),
    }
}

#[test]
fn engine_failure_is_reported_with_the_engine_message() {
    let claimed = job(EmailTemplate::LicenseCreated, object(&[]));
    let (state, action) = step(WorkerState::Claiming, WorkerEvent::Dequeued(Some(claimed)), &engine());
    assert!(matches!(state, WorkerState::Idle));
    assert!(matches!(action, WorkerAction::Fail { job_id, error } if job_id == "job-7" && error.contains("each")));
}

#[test]
fn delivery_is_reported_as_complete() {
    let (state, action) = step(WorkerState::Sending("job-7".to_string()), WorkerEvent::Delivered, &engine());
    assert!(matches!(state, WorkerState::Idle));
    assert!(matches!(action, WorkerAction::Complete { job_id } if job_id == "job-7"));
}

#[test]
fn transport_error_is_reported_as_failure() {
    let (state, action) = step(
        WorkerState::Sending("job-7".to_string()),
        WorkerEvent::DeliveryFailed("smtp timeout".to_string()),
        &engine(),
    );
    assert!(matches!(state, WorkerState::Idle));
    assert!(matches!(action, WorkerAction::Fail { job_id, error }
        if job_id == "job-7" && error == "smtp timeout"));
}

#[test]
fn uncalled_for_events_are_ignored() {
    let e = engine();
    let (state, action) = step(WorkerState::Idle, WorkerEvent::Delivered, &e);
    assert!(matches!((state, action), (WorkerState::Idle, WorkerAction::Wait)));
    let (state, action) = step(WorkerState::Claiming, WorkerEvent::Tick, &e);
    assert!(matches!((state, action), (WorkerState::Claiming, WorkerAction::Wait)));
    let (state, action) = step(WorkerState::Sending("x".to_string()), WorkerEvent::Dequeued(None), &e);
    assert!(matches!((state, action), (WorkerState::Sending(id), WorkerAction::Wait) if id == "x"));
    let claimed = job(EmailTemplate::Welcome, object(&[]));
    let (state, action) = step(WorkerState::Idle, WorkerEvent::Dequeued(Some(claimed)), &e);
    assert!(matches!((state, action), (WorkerState::Idle, WorkerAction::Wait)));
}

#[test]
fn on_rendered_decides_between_send_and_fail() {
    let claimed = job(EmailTemplate::Welcome, object(&[]));
    let (state, action) = on_rendered(claimed, Ok("<p>body</p>".to_string()));
    assert!(matches!(state, WorkerState::Sending(id) if id == "job-7"));
    assert!(matches!(action, WorkerAction::Send { to, subject, html }
        if to == "a@x.com" && subject == "Hi" && html == "<p>body</p>"));
    let claimed = job(EmailTemplate::Welcome, object(&[]));
    let (state, action) = on_rendered(claimed, Err(RenderFailure::MissingHtml));
    assert!(matches!(state, WorkerState::Idle));
    assert!(matches!(action, WorkerAction::Fail { job_id, .. } if job_id == "job-7"));
}

#[test]
fn carry_out_makes_the_queue_calls() {
    let mut queue = EmailQueue::new();
    queue.enqueue_at(
        "a".to_string(),
        "a@x.com".to_string(),
        "Hi".to_string(),
        EmailTemplate::Welcome,
        object(&[]),
        Timestamp { secs: 1, nanos: 0 },
    );
    assert!(carry_out(&mut queue, &WorkerAction::Wait).is_none());
    assert_eq!(queue.stats().pending, 1);
    let event = carry_out(&mut queue, &WorkerAction::Dequeue).unwrap();
    assert!(matches!(&event, WorkerEvent::Dequeued(Some(j)) if j.id == "a" && j.status == EmailStatus::Processing));
    let fail = WorkerAction::Fail { job_id: "a".to_string(), error: "down".to_string() };
    assert!(carry_out(&mut queue, &fail).is_none());
    assert_eq!(queue.get_job("a").unwrap().retries, 1);
    assert!(matches!(carry_out(&mut queue, &WorkerAction::Dequeue), Some(WorkerEvent::Dequeued(Some(_)))));
    let complete = WorkerAction::Complete { job_id: "a".to_string() };
    assert!(carry_out(&mut queue, &complete).is_none());
    assert_eq!(queue.get_job("a").unwrap().status, EmailStatus::Sent);
    let send = WorkerAction::Send { to: "t".into(), subject: "s".into(), html: "h".into() };
    assert!(carry_out(&mut queue, &send).is_none());
    assert!(matches!(carry_out(&mut queue, &WorkerAction::Dequeue), Some(WorkerEvent::Dequeued(None))));
}

/// Runs ticks until the queue is drained, with a transport that refuses the
/// recipients named in `refused`.
fn run_worker(queue: &mut EmailQueue, refused: &[&str]) -> Vec<String> {
    let e = engine();
    let mut delivered = Vec::new();
    for _tick in 0..50 {
        let (mut state, mut action) = step(WorkerState::Idle, WorkerEvent::Tick, &e);
        loop {
            let event = match &action {
                WorkerAction::Wait => break,
                WorkerAction::Send { to, html, .. } => {
                    if refused.contains(&to.as_str()) {
                        WorkerEvent::DeliveryFailed("mailbox unavailable".to_string())
                    } else {
                        delivered.push(html.clone());
                        WorkerEvent::Delivered
                    }
                }
                queue_action => match carry_out(queue, queue_action) {
                    Some(event) => event,
                    None => break,
                },
            };
            let next = step(state, event, &e);
            state = next.0;
            action = next.1;
        }
    }
    delivered
}

#[test]
fn worker_drives_jobs_to_their_end() {
    let mut queue = EmailQueue::new();
    let at = Timestamp { secs: 1, nanos: 0 };
    queue.enqueue_at("ok".into(), "good@x.com".into(), "S".into(), EmailTemplate::Otp, object(&[("otp", "11")]), at);
    queue.enqueue_at("bad".into(), "bad@x.com".into(), "S".into(), EmailTemplate::Otp, object(&[("otp", "22")]), at);
    queue.enqueue_at("norender".into(), "good@x.com".into(), "S".into(), EmailTemplate::Custom, object(&[]), at);
    let delivered = run_worker(&mut queue, &["bad@x.com"]);
    assert_eq!(delivered, vec!["code 11".to_string()]);
    assert_eq!(queue.get_job("ok").unwrap().status, EmailStatus::Sent);
    let bad = queue.get_job("bad").unwrap();
    assert_eq!((bad.status, bad.retries), (EmailStatus::Failed, 3));
    assert_eq!(bad.error, Some("mailbox unavailable".to_string()));
    let norender = queue.get_job("norender").unwrap();
    assert_eq!((norender.status, norender.retries), (EmailStatus::Failed, 3));
    assert_eq!(norender.error, Some("Custom template requires 'html' field in data".to_string()));
    let stats = queue.stats();
    assert_eq!((stats.pending, stats.processing, stats.sent, stats.failed), (0, 0, 1, 2));
}
