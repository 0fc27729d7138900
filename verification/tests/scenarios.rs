use mailer::models::{EmailStatus, EmailTemplate, Timestamp};
use mailer::queue::EmailQueue;

fn empty_payload() -> serde_json::Value {
    serde_json::Value::Object(serde_json::Map::new())
}

fn enqueue_welcome(queue: &mut EmailQueue) -> String {
    queue.enqueue(
        "a@x.com".to_string(),
        "Hi".to_string(),
        EmailTemplate::Welcome,
        empty_payload(),
    )
}

#[test]
fn enqueue_returns_id_of_pending_job() {
    let mut queue = EmailQueue::new();
    let id = enqueue_welcome(&mut queue);
    let job = queue.get_job(&id).expect("the job was just enqueued");
    assert_eq!(job.id, id);
    assert_eq!(job.to, "a@x.com");
    assert_eq!(job.subject, "Hi");
    assert_eq!(job.template, EmailTemplate::Welcome);
    assert_eq!(job.data, empty_payload());
    assert_eq!(job.status, EmailStatus::Pending);
    assert_eq!(job.retries, 0);
    assert_eq!(job.max_retries, 3);
    assert_eq!(job.sent_at, None);
    assert_eq!(job.error, None);
    assert_eq!(queue.stats().pending, 1);
}

#[test]
fn dequeue_returns_processing_job_and_empties_pending() {
    let mut queue = EmailQueue::new();
    let id = enqueue_welcome(&mut queue);
    let job = queue.dequeue().expect("one job is pending");
    assert_eq!(job.id, id);
    assert_eq!(job.status, EmailStatus::Processing);
    assert_eq!(queue.get_job(&id).unwrap().status, EmailStatus::Processing);
    let stats = queue.stats();
    assert_eq!(stats.pending, 0);
    assert_eq!(stats.processing, 1);
    assert!(queue.dequeue().is_none());
}

#[test]
fn first_failure_requeues_at_tail() {
    let mut queue = EmailQueue::new();
    let id = enqueue_welcome(&mut queue);
    let other = enqueue_welcome(&mut queue);
    assert_eq!(queue.dequeue().unwrap().id, id);
    assert!(queue.fail(&id, "smtp timeout"));
    let job = queue.get_job(&id).unwrap();
    assert_eq!(job.status, EmailStatus::Pending);
    assert_eq!(job.retries, 1);
    assert_eq!(job.error, Some("smtp timeout".to_string()));
    assert_eq!(queue.stats().pending, 2);
    assert_eq!(queue.stats().processing, 0);
    assert_eq!(queue.dequeue().unwrap().id, other);
    assert_eq!(queue.dequeue().unwrap().id, id);
}

#[test]
fn third_failure_is_terminal() {
    let mut queue = EmailQueue::new();
    let id = enqueue_welcome(&mut queue);
    assert_eq!(queue.dequeue().unwrap().id, id);
    assert!(queue.fail(&id, "smtp timeout"));
    assert_eq!(queue.dequeue().unwrap().id, id);
    assert!(queue.fail(&id, "smtp timeout"));
    assert_eq!(queue.get_job(&id).unwrap().retries, 2);
    assert_eq!(queue.dequeue().unwrap().id, id);
    assert!(!queue.fail(&id, "smtp timeout"));
    let job = queue.get_job(&id).unwrap();
    assert_eq!(job.status, EmailStatus::Failed);
    assert_eq!(job.retries, 3);
    assert!(queue.dequeue().is_none());
    let stats = queue.stats();
    assert_eq!((stats.pending, stats.processing, stats.sent, stats.failed), (0, 0, 0, 1));
}

#[test]
fn complete_marks_sent() {
    let mut queue = EmailQueue::new();
    let id = enqueue_welcome(&mut queue);
    let before = queue.stats().sent;
    assert_eq!(queue.dequeue().unwrap().id, id);
    queue.complete(&id);
    let job = queue.get_job(&id).unwrap();
    assert_eq!(job.status, EmailStatus::Sent);
    assert!(job.sent_at.is_some());
    let stats = queue.stats();
    assert_eq!(stats.processing, 0);
    assert_eq!(stats.sent, before + 1);
}

#[test]
fn stats_of_empty_queue_are_zero() {
    let queue = EmailQueue::new();
    let stats = queue.stats();
    assert_eq!(stats.pending, 0);
    assert_eq!(stats.processing, 0);
    assert_eq!(stats.sent, 0);
    assert_eq!(stats.failed, 0);
}

#[test]
fn complete_twice_at_one_time_changes_nothing() {
    let mut queue = EmailQueue::new();
    let id = enqueue_welcome(&mut queue);
    queue.dequeue();
    let at = Timestamp { secs: 1_700_000_000, nanos: 5 };
    queue.complete_at(&id, at);
    let once = queue.get_job(&id).unwrap();
    let stats_once = queue.stats();
    queue.complete_at(&id, at);
    let twice = queue.get_job(&id).unwrap();
    assert_eq!(twice.status, EmailStatus::Sent);
    assert_eq!(twice.sent_at, Some(at));
    assert_eq!(twice.sent_at, once.sent_at);
    assert_eq!(queue.stats(), stats_once);
}
