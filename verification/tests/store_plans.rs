use mailer::models::{EmailJob, EmailStatus, EmailTemplate, Timestamp};
use mailer::queue::{plan_claim, plan_complete, plan_enqueue, plan_fail, tally};
use mailer::store::{Store, StoreWrite, JOBS_KEY, PROCESSING_KEY, QUEUE_KEY};

fn job(id: &str) -> EmailJob {
    EmailJob::new(
        id.to_string(),
        "a@x.com".to_string(),
        "Hi".to_string(),
        EmailTemplate::Otp,
        serde_json::Value::Bool(true),
        Timestamp { secs: 1, nanos: 2 },
    )
}

#[test]
fn store_names() {
    assert_eq!(QUEUE_KEY, "mailer:queue");
    assert_eq!(PROCESSING_KEY, "mailer:processing");
    assert_eq!(JOBS_KEY, "mailer:jobs");
}

#[test]
fn pending_list_is_first_in_first_out() {
    let mut store = Store::new();
    assert_eq!(store.pop_pending(), None);
    store.push_pending("a".to_string());
    store.push_pending("b".to_string());
    store.push_pending("a".to_string());
    assert_eq!(store.pending_len(), 3);
    assert_eq!(store.pop_pending(), Some("a".to_string()));
    assert_eq!(store.pop_pending(), Some("b".to_string()));
    assert_eq!(store.pop_pending(), Some("a".to_string()));
    assert_eq!(store.pop_pending(), None);
    assert_eq!(store.pending_len(), 0);
}

#[test]
fn processing_set_holds_each_id_once() {
    let mut store = Store::new();
    store.add_processing("a".to_string());
    store.add_processing("a".to_string());
    store.add_processing("b".to_string());
    assert_eq!(store.processing_len(), 2);
    store.remove_processing("a");
    assert_eq!(store.processing_len(), 1);
    store.remove_processing("a");
    store.remove_processing("zzz");
    assert_eq!(store.processing_len(), 1);
}

#[test]
fn records_are_replaced_under_their_id() {
    let mut store = Store::new();
    assert!(store.record("a").is_none());
    store.put_record(job("a"));
    store.put_record(job("b"));
    let mut changed = job("a");
    changed.mark_processing();
    store.put_record(changed);
    assert_eq!(store.record("a").unwrap().status, EmailStatus::Processing);
    assert_eq!(store.record("b").unwrap().status, EmailStatus::Pending);
    let all = store.all_records();
    assert_eq!(all.len(), 2);
    let mut ids: Vec<String> = all.iter().map(|j| j.id.clone()).collect();
    ids.sort();
    assert_eq!(ids, vec!["a".to_string(), "b".to_string()]);
}

#[test]
fn enqueue_plan_writes_record_then_list() {
    let plan = plan_enqueue(job("a"));
    assert_eq!(plan.len(), 2);
    assert!(matches!(&plan[0], StoreWrite::PutRecord(j) if j.id == "a" && j.status == EmailStatus::Pending));
    assert!(matches!(&plan[1], StoreWrite::PushPending(id) if id == "a"));
}

#[test]
fn claim_plan_marks_processing() {
    let (handed, plan) = plan_claim(Some(job("a")));
    let handed = handed.unwrap();
    assert_eq!(handed.id, "a");
    assert_eq!(handed.status, EmailStatus::Processing);
    assert_eq!(plan.len(), 2);
    assert!(matches!(&plan[0], StoreWrite::PutRecord(j) if j.id == "a" && j.status == EmailStatus::Processing));
    assert!(matches!(&plan[1], StoreWrite::AddProcessing(id) if id == "a"));
    let (none, nothing) = plan_claim(None);
    assert!(none.is_none());
    assert!(nothing.is_empty());
}

#[test]
fn complete_plan_marks_sent() {
    let at = Timestamp { secs: 50, nanos: 0 };
    let plan = plan_complete(Some(job("a")), at);
    assert_eq!(plan.len(), 2);
    assert!(matches!(&plan[0], StoreWrite::PutRecord(j)
        if j.id == "a" && j.status == EmailStatus::Sent && j.sent_at == Some(at)));
    assert!(matches!(&plan[1], StoreWrite::RemoveProcessing(id) if id == "a"));
    assert!(plan_complete(None, at).is_empty());
}

#[test]
fn fail_plan_requeues_while_attempts_are_left() {
    let (will_retry, plan) = plan_fail(Some(job("a")), "smtp timeout");
    assert!(will_retry);
    assert_eq!(plan.len(), 3);
    assert!(matches!(&plan[0], StoreWrite::RemoveProcessing(id) if id == "a"));
    assert!(matches!(&plan[1], StoreWrite::PutRecord(j)
        if j.retries == 1 && j.status == EmailStatus::Pending
            && j.error == Some("smtp timeout".to_string())));
    assert!(matches!(&plan[2], StoreWrite::PushPending(id) if id == "a"));
}

#[test]
fn fail_plan_gives_up_at_the_bound() {
    let mut last = job("a");
    last.retries = 2;
    let (will_retry, plan) = plan_fail(Some(last), "smtp timeout");
    assert!(!will_retry);
    assert_eq!(plan.len(), 2);
    assert!(matches!(&plan[0], StoreWrite::RemoveProcessing(id) if id == "a"));
    assert!(matches!(&plan[1], StoreWrite::PutRecord(j)
        if j.retries == 3 && j.status == EmailStatus::Failed));
    let (no, nothing) = plan_fail(None, "x");
    assert!(!no);
    assert!(nothing.is_empty());
}

#[test]
fn store_carries_out_a_plan_in_order() {
    let mut store = Store::new();
    store.apply_all(&plan_enqueue(job("a")));
    assert_eq!(store.pending_len(), 1);
    assert_eq!(store.record("a").unwrap().status, EmailStatus::Pending);
    let id = store.pop_pending().unwrap();
    let (_, plan) = plan_claim(store.record(&id));
    store.apply_all(&plan);
    assert_eq!(store.processing_len(), 1);
    let (_, plan) = plan_fail(store.record(&id), "no");
    store.apply_all(&plan);
    assert_eq!(store.processing_len(), 0);
    assert_eq!(store.pending_len(), 1);
    assert_eq!(store.record("a").unwrap().retries, 1);
    store.apply(&StoreWrite::AddProcessing("z".to_string()));
    assert_eq!(store.processing_len(), 1);
}

#[test]
fn tally_counts_sent_and_failed() {
    let mut sent = job("a");
    sent.mark_sent(Timestamp { secs: 1, nanos: 0 });
    let mut failed = job("b");
    failed.status = EmailStatus::Failed;
    let mut sent_too = job("c");
    sent_too.status = EmailStatus::Sent;
    let mut claimed = job("d");
    claimed.mark_processing();
    let records = vec![sent, failed, job("e"), sent_too, claimed];
    let stats = tally(7, 4, &records);
    assert_eq!(stats.pending, 7);
    assert_eq!(stats.processing, 4);
    assert_eq!(stats.sent, 2);
    assert_eq!(stats.failed, 1);
    let none = tally(0, 0, &Vec::new());
    assert_eq!((none.pending, none.processing, none.sent, none.failed), (0, 0, 0, 0));
}

#[test]
fn enqueue_cut_short_leaves_a_record_that_is_not_queued() {
    let mut store = Store::new();
    let plan = plan_enqueue(job("a"));
    store.apply(&plan[0]);
    assert_eq!(store.record("a").unwrap().status, EmailStatus::Pending);
    assert_eq!(store.pending_len(), 0);
    assert_eq!(store.pop_pending(), None);
    store.apply(&plan[1]);
    assert_eq!(store.pop_pending(), Some("a".to_string()));
}

#[test]
fn fail_cut_short_never_queues_a_job_that_is_not_pending() {
    let mut store = Store::new();
    store.apply_all(&plan_enqueue(job("a")));
    let id = store.pop_pending().unwrap();
    let (_, claim) = plan_claim(store.record(&id));
    store.apply_all(&claim);
    let (will_retry, plan) = plan_fail(store.record(&id), "down");
    assert!(will_retry);
    store.apply(&plan[0]);
    assert_eq!(store.processing_len(), 0);
    assert_eq!(store.record("a").unwrap().status, EmailStatus::Processing);
    assert_eq!(store.pending_len(), 0);
    store.apply(&plan[1]);
    assert_eq!(store.record("a").unwrap().status, EmailStatus::Pending);
    assert_eq!(store.pending_len(), 0);
    store.apply(&plan[2]);
    assert_eq!(store.pending_len(), 1);
}
