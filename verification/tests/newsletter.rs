use zero2prod::authentication::middleware::UserId;
use zero2prod::database::{Database, PersistenceError, SubscriptionStatus};
use zero2prod::email_client::EmailGateway;
use zero2prod::idempotency::{
    save_response, try_processing, CommandError, IdempotencyKey, KeyError, NextAction,
};
use zero2prod::issue_delivery_worker::{try_execute_task, ExecutionOutcome, RetryPolicy};
use zero2prod::flash_messages::FlashMessage;
use zero2prod::routes::admin::newsletters::{
    enqueue_delivery_tasks, get_publish_newsletters, insert_newsletter_issue,
    post_publish_newsletters, publish_newsletter_issue, stage_newsletter_issue, success_message,
    BodyData,
};
use zero2prod::unique_id::uuid_text;
use zero2prod::utils::see_other;

const KEY: &str = "11111111-1111-1111-1111-111111111111";
const OPERATOR: UserId = UserId(0x0a);
const POLICY: RetryPolicy = RetryPolicy { max_retries: 3 };

fn create_unconfirmed_subscriber(db: &mut Database, id: u128, email: &str) {
    let token = format!("token-of-{}", id);
    db.register_subscription(id, email.to_string(), "Le Guin".to_string(), token)
        .expect("a fresh subscription");
}

fn create_confirmed_subscriber(db: &mut Database, id: u128, email: &str) {
    create_unconfirmed_subscriber(db, id, email);
    assert!(db.confirm_subscriber(id));
}

fn newsletter_form(key: &str) -> BodyData {
    BodyData {
        title: "Newsletter title".to_string(),
        content_text: "Text content".to_string(),
        content_html: "<p>Html content</p>".to_string(),
        idempotency_key: key.to_string(),
    }
}

fn dispatch_all_pending_emails(db: &mut Database, gateway: &mut EmailGateway) -> usize {
    let mut completed = 0;
    loop {
        match try_execute_task(db, gateway, &POLICY) {
            ExecutionOutcome::EmptyQueue => return completed,
            ExecutionOutcome::TaskCompleted => completed += 1,
            ExecutionOutcome::TaskFailed => panic!("the gateway accepts every message"),
        }
    }
}

fn assert_is_redirect_to(response: &zero2prod::http::Response, location: &str) {
    assert_eq!(response.status_code, 303);
    assert_eq!(response.headers.len(), 1);
    assert_eq!(response.headers[0].name, "location");
    assert_eq!(response.headers[0].value, location.as_bytes().to_vec());
    assert!(response.body.is_empty());
}

#[test]
fn newsletters_are_not_delivered_to_unconfirmed_subscribers() {
    let mut db = Database::new();
    let mut gateway = EmailGateway::new();
    create_unconfirmed_subscriber(&mut db, 1, "ursula_le_guin@gmail.com");

    let response = post_publish_newsletters(newsletter_form(KEY), &mut db, OPERATOR)
        .expect("the command is carried out");
    assert_is_redirect_to(&response, "/admin/newsletters");

    assert_eq!(db.queue_len(), 0);
    assert_eq!(dispatch_all_pending_emails(&mut db, &mut gateway), 0);
    assert_eq!(gateway.delivered_count(), 0);
}

#[test]
fn newsletters_are_delivered_to_confirmed_subscribers() {
    let mut db = Database::new();
    let mut gateway = EmailGateway::new();
    create_confirmed_subscriber(&mut db, 1, "ursula_le_guin@gmail.com");

    let response = post_publish_newsletters(newsletter_form(KEY), &mut db, OPERATOR)
        .expect("the command is carried out");
    assert_is_redirect_to(&response, "/admin/newsletters");

    assert_eq!(dispatch_all_pending_emails(&mut db, &mut gateway), 1);
    assert_eq!(gateway.delivered_count(), 1);
    let email = gateway.delivered(0).expect("one message");
    assert_eq!(email.recipient, "ursula_le_guin@gmail.com");
    assert_eq!(email.subject, "Newsletter title");
    assert_eq!(email.html_content, "<p>Html content</p>");
    assert_eq!(email.text_content, "Text content");
}

#[test]
fn publishing_under_a_malformed_key_is_a_bad_request_that_writes_nothing() {
    let mut db = Database::new();
    create_confirmed_subscriber(&mut db, 1, "ursula_le_guin@gmail.com");
    for (malformed, rule) in [
        (String::new(), KeyError::Empty),
        ("k".repeat(51), KeyError::TooLong),
        ("user@example".to_string(), KeyError::IllegalCharacter),
        ("two words".to_string(), KeyError::IllegalCharacter),
    ] {
        let answer = post_publish_newsletters(newsletter_form(&malformed), &mut db, OPERATOR);
        let reason = answer.expect_err("a malformed key is refused");
        assert_eq!(reason, CommandError::ValidationError(rule));
        assert_eq!(reason.status_code(), 400);
        assert_eq!(db.idempotency_count(), 0);
        assert_eq!(db.issue_count(), 0);
        assert_eq!(db.queue_len(), 0);
    }
}

#[test]
fn newsletter_creation_is_idempotent() {
    let mut db = Database::new();
    let mut gateway = EmailGateway::new();
    create_confirmed_subscriber(&mut db, 1, "ursula_le_guin@gmail.com");

    let first = post_publish_newsletters(newsletter_form(KEY), &mut db, OPERATOR)
        .expect("the command is carried out");
    assert_is_redirect_to(&first, "/admin/newsletters");
    assert_eq!(db.issue_count(), 1);
    assert_eq!(db.queue_len(), 1);

    let second = post_publish_newsletters(newsletter_form(KEY), &mut db, OPERATOR)
        .expect("the command is replayed");
    assert_eq!(second, first);
    assert_eq!(db.issue_count(), 1);
    assert_eq!(db.queue_len(), 1);
    assert_eq!(db.idempotency_count(), 1);

    assert_eq!(dispatch_all_pending_emails(&mut db, &mut gateway), 1);
    assert_eq!(gateway.delivered_count(), 1);
}

#[test]
fn a_replay_ignores_what_else_the_form_carries() {
    let mut db = Database::new();
    create_confirmed_subscriber(&mut db, 1, "ursula_le_guin@gmail.com");
    let first = post_publish_newsletters(newsletter_form(KEY), &mut db, OPERATOR)
        .expect("the command is carried out");
    let mut other = newsletter_form(KEY);
    other.title = "Another title".to_string();
    let second =
        post_publish_newsletters(other, &mut db, OPERATOR).expect("the command is replayed");
    assert_eq!(second, first);
    assert_eq!(db.issue_count(), 1);
    assert_eq!(db.queue_len(), 1);
}

#[test]
fn concurrent_form_submission_is_handled_gracefully() {
    let mut db = Database::new();
    let mut gateway = EmailGateway::new();
    create_confirmed_subscriber(&mut db, 1, "ursula_le_guin@gmail.com");
    let key = IdempotencyKey::parse(KEY.to_string()).expect("a valid key");

    // The first request claims the key and is still at work ...
    let mut first = match try_processing(&mut db, &key, OPERATOR.0) {
        Ok(NextAction::StartProcessing(tx)) => tx,
        _ => panic!("the key was free"),
    };
    // ... when the second arrives: it must not do the work again.
    let second = post_publish_newsletters(newsletter_form(KEY), &mut db, OPERATOR);
    let conflict = second.expect_err("the first request is in flight");
    assert_eq!(conflict, CommandError::Conflict);
    assert!(conflict.is_retryable());
    assert_eq!(db.issue_count(), 0);
    assert_eq!(db.queue_len(), 0);

    // The first request finishes.
    let issue_id =
        insert_newsletter_issue(&mut first, &db, "Newsletter title", "Text content", "<p>Html content</p>")
            .expect("a fresh issue");
    enqueue_delivery_tasks(&mut first, &db, issue_id).expect("distinct recipients");
    let first_response =
        save_response(&mut db, first, &key, OPERATOR.0, see_other("/admin/newsletters"))
            .expect("the claim is in flight");

    // The second request tries again and gets the same response.
    let second_response = post_publish_newsletters(newsletter_form(KEY), &mut db, OPERATOR)
        .expect("the response was saved");
    assert_eq!(second_response.status_code, first_response.status_code);
    assert_eq!(second_response.body, first_response.body);
    assert_eq!(second_response, first_response);

    assert_eq!(dispatch_all_pending_emails(&mut db, &mut gateway), 1);
    assert_eq!(gateway.delivered_count(), 1);
}

#[test]
fn subscribers_who_confirm_after_publication_get_no_task() {
    let mut db = Database::new();
    create_confirmed_subscriber(&mut db, 1, "first@example.com");
    create_confirmed_subscriber(&mut db, 2, "second@example.com");
    create_unconfirmed_subscriber(&mut db, 3, "third@example.com");

    post_publish_newsletters(newsletter_form(KEY), &mut db, OPERATOR)
        .expect("the command is carried out");
    assert_eq!(db.queue_len(), 2);

    assert!(db.confirm_subscriber(3));
    create_confirmed_subscriber(&mut db, 4, "fourth@example.com");
    create_confirmed_subscriber(&mut db, 5, "fifth@example.com");
    assert_eq!(db.subscription(2).expect("stored").status, SubscriptionStatus::Confirmed);

    assert_eq!(db.queue_len(), 2);
    assert_eq!(db.task(0).expect("queued").subscriber_email, "first@example.com");
    assert_eq!(db.task(1).expect("queued").subscriber_email, "second@example.com");
    assert_eq!(db.task(2), None);
}

#[test]
fn a_failed_outbox_write_leaves_no_row_in_any_table() {
    let mut db = Database::new();
    // The same address confirmed twice: the set of tasks would hold a key twice.
    create_confirmed_subscriber(&mut db, 1, "twice@example.com");
    create_confirmed_subscriber(&mut db, 2, "twice@example.com");

    let answer = post_publish_newsletters(newsletter_form(KEY), &mut db, OPERATOR);
    let reason = answer.expect_err("the tasks cannot be written");
    assert_eq!(reason, CommandError::PersistenceError(PersistenceError::DuplicateKey));
    assert_eq!(reason.status_code(), 500);

    assert_eq!(db.idempotency_count(), 0);
    assert_eq!(db.issue_count(), 0);
    assert_eq!(db.queue_len(), 0);
}

#[test]
fn a_taken_issue_id_fails_the_command_and_frees_the_key() {
    let mut db = Database::new();
    create_confirmed_subscriber(&mut db, 1, "ursula_le_guin@gmail.com");
    publish_newsletter_issue(newsletter_form("first-key"), &mut db, OPERATOR, 77)
        .expect("the id is fresh");
    let answer = publish_newsletter_issue(newsletter_form("second-key"), &mut db, OPERATOR, 77);
    assert_eq!(
        answer,
        Err(CommandError::PersistenceError(PersistenceError::DuplicateKey))
    );
    assert_eq!(db.idempotency_count(), 1);
    assert_eq!(db.issue_count(), 1);
    assert_eq!(db.queue_len(), 1);
    // The key was released: the command can be sent again.
    publish_newsletter_issue(newsletter_form("second-key"), &mut db, OPERATOR, 78)
        .expect("the id is fresh");
    assert_eq!(db.issue_count(), 2);
    assert_eq!(db.queue_len(), 2);
}

#[test]
fn the_issue_is_stored_as_submitted_and_stamped_with_the_clock() {
    let mut db = Database::new();
    db.set_time(1_700_000_000);
    publish_newsletter_issue(newsletter_form(KEY), &mut db, OPERATOR, 77)
        .expect("the command is carried out");
    let issue = db.get_issue(77).expect("the issue is stored");
    assert_eq!(issue.id, 77);
    assert_eq!(issue.title, "Newsletter title");
    assert_eq!(issue.text_content, "Text content");
    assert_eq!(issue.html_content, "<p>Html content</p>");
    assert_eq!(issue.published_at, 1_700_000_000);
    assert_eq!(db.get_issue(78), None);
}

#[test]
fn tasks_are_queued_fresh_in_the_order_of_the_subscriptions() {
    let mut db = Database::new();
    create_confirmed_subscriber(&mut db, 1, "first@example.com");
    create_unconfirmed_subscriber(&mut db, 2, "skipped@example.com");
    create_confirmed_subscriber(&mut db, 3, "second@example.com");
    publish_newsletter_issue(newsletter_form(KEY), &mut db, OPERATOR, 77)
        .expect("the command is carried out");
    assert_eq!(db.queue_len(), 2);
    let first = db.task(0).expect("queued");
    assert_eq!(first.issue_id, 77);
    assert_eq!(first.subscriber_email, "first@example.com");
    assert_eq!(first.attempts, 0);
    assert!(!first.locked);
    let second = db.task(1).expect("queued");
    assert_eq!(second.issue_id, 77);
    assert_eq!(second.subscriber_email, "second@example.com");
}

#[test]
fn a_drawn_issue_id_is_a_version_4_uuid() {
    let mut db = Database::new();
    let key = IdempotencyKey::parse(KEY.to_string()).expect("a valid key");
    let mut tx = match try_processing(&mut db, &key, OPERATOR.0) {
        Ok(NextAction::StartProcessing(tx)) => tx,
        _ => panic!("the key was free"),
    };
    let id = insert_newsletter_issue(&mut tx, &db, "t", "x", "h").expect("a fresh issue");
    assert_eq!((id >> 76) & 0xf, 4);
    assert_eq!((id >> 62) & 0x3, 2);
}

#[test]
fn a_transaction_carries_one_issue_only() {
    let mut db = Database::new();
    let key = IdempotencyKey::parse(KEY.to_string()).expect("a valid key");
    let mut tx = match try_processing(&mut db, &key, OPERATOR.0) {
        Ok(NextAction::StartProcessing(tx)) => tx,
        _ => panic!("the key was free"),
    };
    assert_eq!(stage_newsletter_issue(&mut tx, &db, 1, "t", "x", "h"), Ok(1));
    assert_eq!(
        stage_newsletter_issue(&mut tx, &db, 2, "t", "x", "h"),
        Err(PersistenceError::OutboxAlreadyWritten)
    );
}

#[test]
fn tasks_can_only_be_enqueued_for_the_issue_of_the_transaction() {
    let mut db = Database::new();
    create_confirmed_subscriber(&mut db, 1, "ursula_le_guin@gmail.com");
    let key = IdempotencyKey::parse(KEY.to_string()).expect("a valid key");
    let mut tx = match try_processing(&mut db, &key, OPERATOR.0) {
        Ok(NextAction::StartProcessing(tx)) => tx,
        _ => panic!("the key was free"),
    };
    assert_eq!(enqueue_delivery_tasks(&mut tx, &db, 1), Err(PersistenceError::MissingReference));
    assert_eq!(stage_newsletter_issue(&mut tx, &db, 1, "t", "x", "h"), Ok(1));
    assert_eq!(enqueue_delivery_tasks(&mut tx, &db, 2), Err(PersistenceError::MissingReference));
    assert_eq!(enqueue_delivery_tasks(&mut tx, &db, 1), Ok(()));
    // A second run of the statement would queue every address twice.
    assert_eq!(enqueue_delivery_tasks(&mut tx, &db, 1), Err(PersistenceError::DuplicateKey));
}

#[test]
fn nothing_staged_is_visible_before_the_commit_and_nothing_stays_after_a_rollback() {
    let mut db = Database::new();
    create_confirmed_subscriber(&mut db, 1, "ursula_le_guin@gmail.com");
    let key = IdempotencyKey::parse(KEY.to_string()).expect("a valid key");
    let mut tx = match try_processing(&mut db, &key, OPERATOR.0) {
        Ok(NextAction::StartProcessing(tx)) => tx,
        _ => panic!("the key was free"),
    };
    assert_eq!(stage_newsletter_issue(&mut tx, &db, 1, "t", "x", "h"), Ok(1));
    assert_eq!(enqueue_delivery_tasks(&mut tx, &db, 1), Ok(()));
    assert_eq!(db.issue_count(), 0);
    assert_eq!(db.queue_len(), 0);
    assert_eq!(db.idempotency_count(), 1);
    db.rollback(tx);
    assert_eq!(db.issue_count(), 0);
    assert_eq!(db.queue_len(), 0);
    assert_eq!(db.idempotency_count(), 0);
}

#[test]
fn an_issue_id_taken_before_the_commit_rolls_the_transaction_back() {
    let mut db = Database::new();
    create_confirmed_subscriber(&mut db, 1, "ursula_le_guin@gmail.com");
    let key = IdempotencyKey::parse(KEY.to_string()).expect("a valid key");
    let mut tx = match try_processing(&mut db, &key, OPERATOR.0) {
        Ok(NextAction::StartProcessing(tx)) => tx,
        _ => panic!("the key was free"),
    };
    assert_eq!(stage_newsletter_issue(&mut tx, &db, 77, "t", "x", "h"), Ok(77));
    assert_eq!(enqueue_delivery_tasks(&mut tx, &db, 77), Ok(()));
    // Another command commits an issue under the same id first.
    publish_newsletter_issue(newsletter_form("other-key"), &mut db, UserId(0x0b), 77)
        .expect("the id is fresh");
    let saved = save_response(&mut db, tx, &key, OPERATOR.0, see_other("/admin/newsletters"));
    assert_eq!(saved, Err(CommandError::PersistenceError(PersistenceError::DuplicateKey)));
    assert_eq!(db.idempotency_count(), 1);
    assert_eq!(db.issue_count(), 1);
    assert_eq!(db.queue_len(), 1);
    assert_eq!(db.saved_response(OPERATOR.0, &KEY.to_string()), None);
}

#[test]
fn draining_completes_every_task_once_and_then_finds_the_queue_empty() {
    let mut db = Database::new();
    let mut gateway = EmailGateway::new();
    create_confirmed_subscriber(&mut db, 1, "first@example.com");
    create_confirmed_subscriber(&mut db, 2, "second@example.com");
    create_confirmed_subscriber(&mut db, 3, "third@example.com");
    post_publish_newsletters(newsletter_form(KEY), &mut db, OPERATOR)
        .expect("the command is carried out");
    assert_eq!(db.queue_len(), 3);

    for remaining in [2usize, 1, 0] {
        assert_eq!(try_execute_task(&mut db, &mut gateway, &POLICY), ExecutionOutcome::TaskCompleted);
        assert_eq!(db.queue_len(), remaining);
    }
    assert_eq!(try_execute_task(&mut db, &mut gateway, &POLICY), ExecutionOutcome::EmptyQueue);
    assert_eq!(try_execute_task(&mut db, &mut gateway, &POLICY), ExecutionOutcome::EmptyQueue);

    assert_eq!(gateway.delivered_count(), 3);
    let recipients: Vec<String> =
        (0..3).map(|i| gateway.delivered(i).expect("delivered").recipient).collect();
    assert_eq!(recipients, vec!["first@example.com", "second@example.com", "third@example.com"]);
    assert_eq!(gateway.delivered(3), None);
}

#[test]
fn the_publish_page_carries_a_fresh_and_valid_idempotency_key() {
    let messages = vec![success_message()];
    let first = get_publish_newsletters(&messages);
    let second = get_publish_newsletters(&messages);
    assert_eq!(
        first.msg_html,
        "<p><i>The newsletter issue has been accepted - emails will go out shortly!</i></p>\n"
    );
    assert_ne!(first.idempotency_key, second.idempotency_key);
    for page in [first, second] {
        let key = page.idempotency_key;
        assert_eq!(key.len(), 36);
        assert_eq!(key.as_bytes()[14], b'4');
        assert!(IdempotencyKey::parse(key).is_ok());
    }
    assert_eq!(get_publish_newsletters(&Vec::<FlashMessage>::new()).msg_html, "");
}

#[test]
fn a_uuid_is_written_in_hyphenated_lower_case() {
    assert_eq!(
        uuid_text(0xa1a2a3a4b1b2c1c2d1d2d3d4d5d6d7d8),
        "a1a2a3a4-b1b2-c1c2-d1d2-d3d4d5d6d7d8"
    );
    assert_eq!(uuid_text(0), "00000000-0000-0000-0000-000000000000");
    assert_eq!(uuid_text(u128::MAX), "ffffffff-ffff-ffff-ffff-ffffffffffff");
    assert_eq!(
        uuid_text(0x0123456789abcdef0123456789abcdef),
        "01234567-89ab-cdef-0123-456789abcdef"
    );
}

#[test]
fn an_issue_is_staged_under_the_drawn_id_unless_the_transaction_carries_one() {
    let mut db = Database::new();
    let key = IdempotencyKey::parse(KEY.to_string()).expect("a valid key");
    let mut tx = match try_processing(&mut db, &key, OPERATOR.0) {
        Ok(NextAction::StartProcessing(tx)) => tx,
        _ => panic!("the key was free"),
    };
    // No issue is stored, so no drawn id can be taken.
    let id = insert_newsletter_issue(&mut tx, &db, "t", "x", "h").expect("a fresh issue");
    assert_eq!(enqueue_delivery_tasks(&mut tx, &db, id), Ok(()));
    assert_eq!(
        insert_newsletter_issue(&mut tx, &db, "t", "x", "h"),
        Err(PersistenceError::OutboxAlreadyWritten)
    );
    save_response(&mut db, tx, &key, OPERATOR.0, see_other("/admin/newsletters"))
        .expect("the claim is in flight");
    assert_eq!(db.get_issue(id).expect("stored").title, "t");
}
