use zero2prod::database::{Database, PersistenceError, SubscriptionStatus};
use zero2prod::http::{HeaderPair, Response};

fn created() -> Response {
    Response {
        status_code: 201,
        headers: vec![HeaderPair { name: "etag".to_string(), value: vec![0x01, 0xff] }],
        body: vec![1, 2, 3],
    }
}

#[test]
fn a_new_store_is_empty_and_its_clock_reads_zero() {
    let db = Database::new();
    assert_eq!(db.now(), 0);
    assert_eq!(db.idempotency_count(), 0);
    assert_eq!(db.issue_count(), 0);
    assert_eq!(db.queue_len(), 0);
    assert_eq!(db.subscription_count(), 0);
    assert_eq!(db.task(0), None);
    assert_eq!(db.subscription(0), None);
    assert!(db.confirmed_subscribers().is_empty());
}

#[test]
fn the_clock_stamps_what_is_written_after_it_was_set() {
    let mut db = Database::new();
    db.set_time(10);
    assert_eq!(db.now(), 10);
    db.register_subscription(1, "a@example.com".to_string(), "A".to_string(), "t1".to_string())
        .expect("fresh");
    db.set_time(20);
    db.register_subscription(2, "b@example.com".to_string(), "B".to_string(), "t2".to_string())
        .expect("fresh");
    assert_eq!(db.subscription(0).expect("stored").subscribed_at, 10);
    assert_eq!(db.subscription(1).expect("stored").subscribed_at, 20);
}

#[test]
fn a_transaction_is_opened_for_a_free_key_only() {
    let mut db = Database::new();
    let key = "k1".to_string();
    let tx = db.begin_transaction(7, &key).expect("the key is free");
    assert_eq!(tx.caller_id(), 7);
    assert_eq!(tx.key(), "k1");
    assert!(db.begin_transaction(7, &key).is_none());
    assert_eq!(db.idempotency_count(), 1);
    assert_eq!(db.commit(tx, created()), Ok(()));
    assert!(db.begin_transaction(7, &key).is_none());
    assert_eq!(db.saved_response(7, &key), Some(created()));
    assert_eq!(db.saved_response(8, &key), None);
    assert_eq!(db.saved_response(7, &"k2".to_string()), None);
}

#[test]
fn a_commit_without_an_issue_saves_the_response_and_nothing_else() {
    let mut db = Database::new();
    let key = "k1".to_string();
    let tx = db.begin_transaction(7, &key).expect("the key is free");
    assert_eq!(db.commit(tx, created()), Ok(()));
    assert_eq!(db.idempotency_count(), 1);
    assert_eq!(db.issue_count(), 0);
    assert_eq!(db.queue_len(), 0);
}

#[test]
fn a_commit_stores_the_issue_and_queues_its_tasks_at_once() {
    let mut db = Database::new();
    db.set_time(5);
    db.register_subscription(1, "a@example.com".to_string(), "A".to_string(), "t1".to_string())
        .expect("fresh");
    db.register_subscription(2, "b@example.com".to_string(), "B".to_string(), "t2".to_string())
        .expect("fresh");
    assert!(db.confirm_subscriber(1));
    assert!(db.confirm_subscriber(2));
    let key = "k1".to_string();
    let mut tx = db.begin_transaction(7, &key).expect("the key is free");
    assert_eq!(
        tx.insert_issue(&db, 9, "title".to_string(), "text".to_string(), "<p>html</p>".to_string()),
        Ok(())
    );
    assert_eq!(tx.enqueue_tasks(&db, 9), Ok(()));
    assert_eq!(db.commit(tx, created()), Ok(()));
    assert_eq!(db.issue_count(), 1);
    assert_eq!(db.queue_len(), 2);
    let issue = db.get_issue(9).expect("stored");
    assert_eq!(issue.title, "title");
    assert_eq!(issue.text_content, "text");
    assert_eq!(issue.html_content, "<p>html</p>");
    assert_eq!(issue.published_at, 5);
    assert_eq!(issue.duplicate(), issue);
    let task = db.task(1).expect("queued");
    assert_eq!(task.issue_id, 9);
    assert_eq!(task.subscriber_email, "b@example.com");
    assert_eq!(task.duplicate(), task);
}

#[test]
fn a_transaction_that_lost_its_claim_cannot_commit() {
    let mut first = Database::new();
    let mut second = Database::new();
    let key = "k1".to_string();
    let tx = first.begin_transaction(7, &key).expect("the key is free");
    // The claim was made in another store: this one knows nothing of it.
    assert_eq!(second.commit(tx, created()), Err(PersistenceError::StaleTransaction));
    assert_eq!(second.idempotency_count(), 0);
}

#[test]
fn a_subscription_is_pending_until_it_is_confirmed() {
    let mut db = Database::new();
    db.register_subscription(1, "a@example.com".to_string(), "A".to_string(), "t1".to_string())
        .expect("fresh");
    assert_eq!(db.subscription(0).expect("stored").status, SubscriptionStatus::PendingConfirmation);
    assert!(db.confirmed_subscribers().is_empty());
    assert_eq!(db.subscriber_id_from_token(&"t1".to_string()), Some(1));
    assert_eq!(db.subscriber_id_from_token(&"t2".to_string()), None);
    assert!(db.confirm_subscriber(1));
    assert_eq!(db.confirmed_subscribers(), vec!["a@example.com".to_string()]);
}

#[test]
fn subscription_ids_and_tokens_are_unique() {
    let mut db = Database::new();
    db.register_subscription(1, "a@example.com".to_string(), "A".to_string(), "t1".to_string())
        .expect("fresh");
    assert_eq!(
        db.register_subscription(1, "b@example.com".to_string(), "B".to_string(), "t2".to_string()),
        Err(PersistenceError::DuplicateKey)
    );
    assert_eq!(
        db.register_subscription(2, "b@example.com".to_string(), "B".to_string(), "t1".to_string()),
        Err(PersistenceError::DuplicateKey)
    );
    assert_eq!(db.subscription_count(), 1);
    // The same address may subscribe twice: the subscription system does not forbid it.
    assert_eq!(
        db.register_subscription(2, "a@example.com".to_string(), "A".to_string(), "t2".to_string()),
        Ok(())
    );
    assert_eq!(db.subscription_count(), 2);
}
