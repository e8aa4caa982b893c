use zero2prod::authentication::middleware::UserId;
use zero2prod::database::Database;
use zero2prod::email_client::EmailGateway;
use zero2prod::issue_delivery_worker::{
    drain_queue, next_action, run_worker_until_stopped, stored_attempts, try_execute_task,
    Disposition, ExecutionOutcome, PollingIntervals, RetryPolicy, WorkerAction,
};
use zero2prod::routes::admin::newsletters::{publish_newsletter_issue, BodyData};

const ISSUE: u128 = 77;

fn confirmed(db: &mut Database, id: u128, email: &str) {
    db.register_subscription(id, email.to_string(), "name".to_string(), format!("token-{}", id))
        .expect("a fresh subscription");
    assert!(db.confirm_subscriber(id));
}

fn publish(db: &mut Database) {
    let form = BodyData {
        title: "Newsletter title".to_string(),
        content_text: "Text content".to_string(),
        content_html: "<p>Html content</p>".to_string(),
        idempotency_key: "worker-tests".to_string(),
    };
    publish_newsletter_issue(form, db, UserId(1), ISSUE).expect("the command is carried out");
}

fn queue_for(emails: &[&str]) -> Database {
    let mut db = Database::new();
    for (i, email) in emails.iter().enumerate() {
        confirmed(&mut db, i as u128 + 1, email);
    }
    publish(&mut db);
    assert_eq!(db.queue_len(), emails.len());
    db
}

#[test]
fn an_empty_queue_is_not_an_error() {
    let mut db = Database::new();
    let mut gateway = EmailGateway::new();
    let policy = RetryPolicy { max_retries: 3 };
    assert_eq!(try_execute_task(&mut db, &mut gateway, &policy), ExecutionOutcome::EmptyQueue);
    assert_eq!(gateway.delivered_count(), 0);
}

#[test]
fn a_failed_send_keeps_the_task_and_counts_the_failure() {
    let mut db = queue_for(&["ursula_le_guin@gmail.com"]);
    let mut gateway = EmailGateway::new();
    gateway.set_available(false);
    let policy = RetryPolicy { max_retries: 3 };

    assert_eq!(try_execute_task(&mut db, &mut gateway, &policy), ExecutionOutcome::TaskFailed);
    assert_eq!(db.queue_len(), 1);
    let task = db.task(0).expect("retained");
    assert_eq!(task.attempts, 1);
    assert!(!task.locked);
    assert_eq!(gateway.delivered_count(), 0);

    gateway.set_available(true);
    assert_eq!(try_execute_task(&mut db, &mut gateway, &policy), ExecutionOutcome::TaskCompleted);
    assert_eq!(db.queue_len(), 0);
    assert_eq!(gateway.delivered_count(), 1);
}

#[test]
fn a_task_is_dropped_once_its_retries_are_used_up() {
    let mut db = queue_for(&["ursula_le_guin@gmail.com"]);
    let mut gateway = EmailGateway::new();
    gateway.set_available(false);
    let policy = RetryPolicy { max_retries: 2 };

    assert_eq!(try_execute_task(&mut db, &mut gateway, &policy), ExecutionOutcome::TaskFailed);
    assert_eq!(db.task(0).expect("retained").attempts, 1);
    assert_eq!(try_execute_task(&mut db, &mut gateway, &policy), ExecutionOutcome::TaskFailed);
    assert_eq!(db.task(0).expect("retained").attempts, 2);
    assert_eq!(try_execute_task(&mut db, &mut gateway, &policy), ExecutionOutcome::TaskFailed);
    assert_eq!(db.queue_len(), 0);
    assert_eq!(try_execute_task(&mut db, &mut gateway, &policy), ExecutionOutcome::EmptyQueue);
    assert_eq!(gateway.delivered_count(), 0);
}

#[test]
fn without_retries_the_first_failure_drops_the_task() {
    let mut db = queue_for(&["ursula_le_guin@gmail.com"]);
    let mut gateway = EmailGateway::new();
    gateway.set_available(false);
    let policy = RetryPolicy { max_retries: 0 };
    assert_eq!(try_execute_task(&mut db, &mut gateway, &policy), ExecutionOutcome::TaskFailed);
    assert_eq!(db.queue_len(), 0);
}

#[test]
fn an_invalid_address_completes_the_task_without_a_send() {
    let mut db = queue_for(&["not-an-address", "ursula_le_guin@gmail.com"]);
    let mut gateway = EmailGateway::new();
    let policy = RetryPolicy { max_retries: 3 };
    assert_eq!(try_execute_task(&mut db, &mut gateway, &policy), ExecutionOutcome::TaskCompleted);
    assert_eq!(db.queue_len(), 1);
    assert_eq!(gateway.delivered_count(), 0);
    assert_eq!(try_execute_task(&mut db, &mut gateway, &policy), ExecutionOutcome::TaskCompleted);
    assert_eq!(db.queue_len(), 0);
    assert_eq!(gateway.delivered_count(), 1);
    assert_eq!(gateway.delivered(0).expect("sent").recipient, "ursula_le_guin@gmail.com");
}

#[test]
fn an_invalid_address_is_settled_even_when_the_gateway_is_down() {
    let mut db = queue_for(&["not-an-address"]);
    let mut gateway = EmailGateway::new();
    gateway.set_available(false);
    let policy = RetryPolicy { max_retries: 3 };
    assert_eq!(try_execute_task(&mut db, &mut gateway, &policy), ExecutionOutcome::TaskCompleted);
    assert_eq!(db.queue_len(), 0);
}

#[test]
fn a_claimed_task_is_skipped_by_the_next_claim() {
    let mut db = queue_for(&["first@example.com", "second@example.com"]);
    let first = db.claim_task().expect("two tasks are free");
    assert_eq!(first.subscriber_email, "first@example.com");
    assert!(!first.locked);
    assert!(db.task(0).expect("queued").locked);
    let second = db.claim_task().expect("one task is free");
    assert_eq!(second.subscriber_email, "second@example.com");
    assert_eq!(db.claim_task(), None);
    assert_eq!(db.queue_len(), 2);

    // While both are held a worker finds nothing to do.
    let mut gateway = EmailGateway::new();
    let policy = RetryPolicy { max_retries: 3 };
    assert_eq!(try_execute_task(&mut db, &mut gateway, &policy), ExecutionOutcome::EmptyQueue);
    assert_eq!(gateway.delivered_count(), 0);

    // One holder fails and hands its task back, the other deletes its own.
    assert!(db.record_failed_attempt(ISSUE, &"first@example.com".to_string()));
    assert!(db.delete_task(ISSUE, &"second@example.com".to_string()));
    assert_eq!(db.queue_len(), 1);
    let returned = db.claim_task().expect("handed back");
    assert_eq!(returned.subscriber_email, "first@example.com");
    assert_eq!(returned.attempts, 1);
}

#[test]
fn deleting_or_failing_a_task_that_is_not_queued_changes_nothing() {
    let mut db = queue_for(&["first@example.com"]);
    assert!(!db.delete_task(ISSUE, &"nobody@example.com".to_string()));
    assert!(!db.delete_task(ISSUE + 1, &"first@example.com".to_string()));
    assert!(!db.record_failed_attempt(ISSUE, &"nobody@example.com".to_string()));
    assert_eq!(db.queue_len(), 1);
    assert_eq!(db.task(0).expect("queued").attempts, 0);
}

#[test]
fn draining_with_a_healthy_gateway_sends_one_message_per_task() {
    let mut db = queue_for(&["first@example.com", "second@example.com", "third@example.com"]);
    let mut gateway = EmailGateway::new();
    let policy = RetryPolicy { max_retries: 3 };
    assert_eq!(drain_queue(&mut db, &mut gateway, &policy), 3);
    assert_eq!(db.queue_len(), 0);
    assert_eq!(gateway.delivered_count(), 3);
    assert_eq!(gateway.delivered(0).expect("sent").recipient, "first@example.com");
    assert_eq!(gateway.delivered(1).expect("sent").recipient, "second@example.com");
    assert_eq!(gateway.delivered(2).expect("sent").recipient, "third@example.com");
    assert_eq!(drain_queue(&mut db, &mut gateway, &policy), 0);
}

#[test]
fn draining_with_a_dead_gateway_ends_by_dropping_every_task() {
    let mut db = queue_for(&["first@example.com", "second@example.com"]);
    let mut gateway = EmailGateway::new();
    gateway.set_available(false);
    let policy = RetryPolicy { max_retries: 5 };
    assert_eq!(drain_queue(&mut db, &mut gateway, &policy), 0);
    assert_eq!(db.queue_len(), 0);
    assert_eq!(gateway.delivered_count(), 0);
}

#[test]
fn draining_leaves_the_tasks_that_another_worker_holds() {
    let mut db = queue_for(&["first@example.com", "second@example.com"]);
    let held = db.claim_task().expect("free");
    assert_eq!(held.subscriber_email, "first@example.com");
    let mut gateway = EmailGateway::new();
    let policy = RetryPolicy { max_retries: 3 };
    assert_eq!(drain_queue(&mut db, &mut gateway, &policy), 1);
    assert_eq!(db.queue_len(), 1);
    let left = db.task(0).expect("held");
    assert_eq!(left.subscriber_email, "first@example.com");
    assert!(left.locked);
}

#[test]
fn the_worker_stops_after_the_units_of_work_it_was_given() {
    let mut db = queue_for(&["first@example.com", "second@example.com", "third@example.com"]);
    let mut gateway = EmailGateway::new();
    let policy = RetryPolicy { max_retries: 3 };
    run_worker_until_stopped(&mut db, &mut gateway, &policy, 2);
    assert_eq!(db.queue_len(), 1);
    assert_eq!(gateway.delivered_count(), 2);
    assert!(!db.task(0).expect("queued").locked);
    run_worker_until_stopped(&mut db, &mut gateway, &policy, 0);
    assert_eq!(db.queue_len(), 1);
    run_worker_until_stopped(&mut db, &mut gateway, &policy, 5);
    assert_eq!(db.queue_len(), 0);
    assert_eq!(gateway.delivered_count(), 3);
}

#[test]
fn the_policy_decides_what_becomes_of_a_task() {
    let policy = RetryPolicy { max_retries: 2 };
    assert_eq!(policy.settle(0, true), Disposition::Delete);
    assert_eq!(policy.settle(7, true), Disposition::Delete);
    assert_eq!(policy.settle(0, false), Disposition::Retry);
    assert_eq!(policy.settle(1, false), Disposition::Retry);
    assert_eq!(policy.settle(2, false), Disposition::Delete);
    assert_eq!(policy.settle(u32::MAX, false), Disposition::Delete);
    let patient = RetryPolicy { max_retries: u32::MAX };
    assert_eq!(patient.settle(u32::MAX - 1, false), Disposition::Retry);
    assert_eq!(patient.settle(u32::MAX, false), Disposition::Delete);
}

#[test]
fn the_worker_waits_after_an_empty_queue_or_a_failure_and_stops_on_shutdown() {
    let intervals = PollingIntervals { idle_milliseconds: 10_000, retry_milliseconds: 1_000 };
    assert_eq!(
        next_action(ExecutionOutcome::EmptyQueue, false, &intervals),
        WorkerAction::Wait { milliseconds: 10_000 }
    );
    assert_eq!(
        next_action(ExecutionOutcome::TaskFailed, false, &intervals),
        WorkerAction::Wait { milliseconds: 1_000 }
    );
    assert_eq!(
        next_action(ExecutionOutcome::TaskCompleted, false, &intervals),
        WorkerAction::PollAgain
    );
    for outcome in [
        ExecutionOutcome::EmptyQueue,
        ExecutionOutcome::TaskFailed,
        ExecutionOutcome::TaskCompleted,
    ] {
        assert_eq!(next_action(outcome, true, &intervals), WorkerAction::Stop);
    }
}

#[test]
fn a_stored_counter_below_zero_is_read_as_the_largest_count() {
    assert_eq!(stored_attempts(0), 0);
    assert_eq!(stored_attempts(3), 3);
    assert_eq!(stored_attempts(i32::MAX), i32::MAX as u32);
    assert_eq!(stored_attempts(-1), u32::MAX);
    assert_eq!(stored_attempts(i32::MIN), u32::MAX);
}
