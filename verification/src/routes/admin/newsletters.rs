//! Publishing a newsletter issue, exactly once for each idempotency key:
//! the issue and its delivery tasks are written in the transaction that
//! saves the response.

use crate::authentication::middleware::UserId;
use crate::database::{
    confirmed_emails, distinct, is_row_of, lemma_key_position, lemma_same_issues, tasks_for,
    Database, DatabaseView, IdempotencyRowView, IssueView, PersistenceError, Transaction,
    TransactionView,
};
use crate::flash_messages::{messages_markup, render_messages, FlashMessage, Level};
use crate::http::{Response, ResponseView};
use crate::idempotency::{
    is_key_char, is_valid_key, key_violation, save_response, try_processing, CommandError,
    IdempotencyKey, NextAction,
};
use crate::unique_id::{
    digit_at, digit_of, hex_digit, hyphenated_text, is_hyphen_position, is_version_4, new_v4,
    uuid_text,
};
use crate::utils::{redirect_to, see_other};
use vstd::prelude::*;
use vstd::string::StringExecFns;

verus! {

/// The publish form as the operator submits it.
pub struct BodyData {
    pub title: String,
    pub content_text: String,
    pub content_html: String,
    pub idempotency_key: String,
}

/// What the publish page shows: the messages left for it, and a fresh
/// idempotency key for the form.
pub struct PublishPage {
    pub msg_html: String,
    pub idempotency_key: String,
}

/// The hyphenated form of a UUID is a well-formed idempotency key.
pub proof fn lemma_uuid_is_valid_key(id: u128)
    ensures
        is_valid_key(hyphenated_text(id)),
{
    let text = hyphenated_text(id);
    assert forall|i: int| 0 <= i < text.len() implies is_key_char(#[trigger] text[i]) by {
        if !is_hyphen_position(i) {
            let digit = digit_of(id, digit_at(i));
            assert(text[i] == hex_digit(digit));
        }
    }
}

/// Prepares the publish page: renders the messages and draws the
/// idempotency key that the form will carry.
pub fn get_publish_newsletters(flash_messages: &Vec<FlashMessage>) -> (page: PublishPage)
    ensures
        page.msg_html@ == messages_markup(flash_messages@),
        is_valid_key(page.idempotency_key@),
        exists|id: u128| is_version_4(id) && page.idempotency_key@ == #[trigger] hyphenated_text(id),
{
    let id = new_v4();
    proof {
        lemma_uuid_is_valid_key(id);
    }
    PublishPage { msg_html: render_messages(flash_messages), idempotency_key: uuid_text(id) }
}

/// The message that tells the operator that the issue was accepted.
pub fn success_message() -> (message: FlashMessage)
    ensures
        message.level == Level::Info,
        message.content@
            == "The newsletter issue has been accepted - emails will go out shortly!"@,
{
    FlashMessage::info(
        String::from_str("The newsletter issue has been accepted - emails will go out shortly!"),
    )
}

/// The issue that a publish command creates.
pub open spec fn issue_of(db: DatabaseView, id: u128, body: BodyData) -> IssueView {
    IssueView {
        id,
        title: body.title@,
        text_content: body.content_text@,
        html_content: body.content_html@,
        published_at: db.now,
    }
}

/// The response to a publish command that was carried out.
pub open spec fn accepted() -> ResponseView {
    redirect_to("/admin/newsletters"@)
}

/// The store after a publish command by `caller_id` under `key` was carried
/// out: the response is cached under the key, the issue is stored, and one
/// delivery task is queued for every subscriber that was confirmed when the
/// command ran.
pub open spec fn published(db: DatabaseView, caller_id: u128, key: Seq<char>, issue: IssueView) -> DatabaseView {
    DatabaseView {
        idempotency: db.idempotency.push(
            IdempotencyRowView {
                caller_id,
                key,
                response: Some(accepted()),
                created_at: db.now,
            },
        ),
        issues: db.issues.push(issue),
        queue: db.queue + tasks_for(issue.id, confirmed_emails(db.subscriptions)),
        ..db
    }
}

/// The store and the answer after a publish command.
pub struct PublishEffect {
    pub db: DatabaseView,
    pub answer: Result<ResponseView, CommandError>,
}

/// What a publish command does, `id` being the identifier drawn for the new
/// issue.
///
/// A malformed key is refused. A key with a saved response replays it. A
/// key whose command is in flight is a conflict. Otherwise the command is
/// carried out, unless the store refuses the issue (its id is taken) or the
/// tasks (a confirmed address occurs twice). Only a command that is carried
/// out changes the store.
pub open spec fn publish_effect(
    db: DatabaseView,
    caller_id: u128,
    id: u128,
    body: BodyData,
) -> PublishEffect {
    let key = body.idempotency_key@;
    match key_violation(key) {
        Some(rule) => PublishEffect { db, answer: Err(CommandError::ValidationError(rule)) },
        None => if db.has_key(caller_id, key) {
            match db.saved_response(caller_id, key) {
                Some(response) => PublishEffect { db, answer: Ok(response) },
                None => PublishEffect { db, answer: Err(CommandError::Conflict) },
            }
        } else if db.has_issue(id) || !distinct(confirmed_emails(db.subscriptions)) {
            PublishEffect {
                db,
                answer: Err(CommandError::PersistenceError(PersistenceError::DuplicateKey)),
            }
        } else {
            PublishEffect {
                db: published(db, caller_id, key, issue_of(db, id, body)),
                answer: Ok(accepted()),
            }
        },
    }
}

/// Withdrawing a claim that was just made gives the store back as it was.
pub proof fn lemma_release_undoes_claim(db: DatabaseView, caller_id: u128, key: Seq<char>)
    requires
        db.wf(),
        !db.has_key(caller_id, key),
    ensures
        db.claim(caller_id, key).wf(),
        db.claim(caller_id, key).in_flight(caller_id, key),
        db.claim(caller_id, key).release(caller_id, key) == db,
{
    let claimed = db.claim(caller_id, key);
    lemma_claim_wf(db, caller_id, key);
    lemma_key_position(claimed, db.idempotency.len() as int, caller_id, key);
    assert(claimed.idempotency.remove(db.idempotency.len() as int) =~= db.idempotency);
}

/// Claiming a free key keeps the store well formed.
pub proof fn lemma_claim_wf(db: DatabaseView, caller_id: u128, key: Seq<char>)
    requires
        db.wf(),
        !db.has_key(caller_id, key),
    ensures
        db.claim(caller_id, key).wf(),
{
    let claimed = db.claim(caller_id, key);
    assert forall|i: int, j: int|
        #![trigger claimed.idempotency[i], claimed.idempotency[j]]
        0 <= i < j < claimed.idempotency.len() implies !(claimed.idempotency[i].caller_id
        == claimed.idempotency[j].caller_id && claimed.idempotency[i].key
        == claimed.idempotency[j].key) by {
        if j == db.idempotency.len() {
            assert(!is_row_of(db.idempotency, i, caller_id, key));
        } else {
            assert(claimed.idempotency[i] == db.idempotency[i]);
            assert(claimed.idempotency[j] == db.idempotency[j]);
        }
    }
    assert forall|a: int| 0 <= a < claimed.queue.len() implies claimed.has_issue(
        (#[trigger] claimed.queue[a]).issue_id,
    ) by {
        lemma_same_issues(db, claimed, db.queue[a].issue_id);
    }
}

/// Committing the claim of a free key, with the outbox written, gives the
/// store that [`published`] describes.
pub proof fn lemma_commit_is_published(
    db: DatabaseView,
    caller_id: u128,
    key: Seq<char>,
    issue: IssueView,
)
    requires
        db.wf(),
        !db.has_key(caller_id, key),
    ensures
        db.claim(caller_id, key).commit(
            TransactionView {
                caller_id,
                key,
                issue: Some(issue),
                recipients: confirmed_emails(db.subscriptions),
            },
            accepted(),
        ) == published(db, caller_id, key, issue),
{
    let claimed = db.claim(caller_id, key);
    lemma_release_undoes_claim(db, caller_id, key);
    lemma_key_position(claimed, db.idempotency.len() as int, caller_id, key);
    let tx = TransactionView {
        caller_id,
        key,
        issue: Some(issue),
        recipients: confirmed_emails(db.subscriptions),
    };
    assert(claimed.commit(tx, accepted()).idempotency =~= published(
        db,
        caller_id,
        key,
        issue,
    ).idempotency);
}

/// The issue that is staged under `id` with these contents, stamped with the
/// clock of the store.
pub open spec fn new_issue(
    db: DatabaseView,
    id: u128,
    title: Seq<char>,
    text_content: Seq<char>,
    html_content: Seq<char>,
) -> IssueView {
    IssueView { id, title, text_content, html_content, published_at: db.now }
}

/// Stages the new issue under an identifier that is drawn for it, and hands
/// the identifier out: for the identifier that was drawn, the outcome is
/// that of staging the issue under it. So the issue is staged unless the
/// transaction carries one already or the drawn identifier is taken.
pub fn insert_newsletter_issue(
    transaction: &mut Transaction,
    db: &Database,
    title: &str,
    text_content: &str,
    html_content: &str,
) -> (inserted: Result<u128, PersistenceError>)
    requires
        old(transaction)@.wf(),
    ensures
        final(transaction)@.wf(),
        exists|id: u128| #[trigger]
            is_version_4(id) && match inserted {
                Ok(same) => same == id && old(transaction)@.stage_issue(
                    db@,
                    new_issue(db@, id, title@, text_content@, html_content@),
                ) == Ok::<TransactionView, PersistenceError>(final(transaction)@),
                Err(reason) => old(transaction)@.stage_issue(
                    db@,
                    new_issue(db@, id, title@, text_content@, html_content@),
                ) == Err::<TransactionView, PersistenceError>(reason) && final(transaction)@
                    == old(transaction)@,
            },
{
    let id = new_v4();
    stage_newsletter_issue(transaction, db, id, title, text_content, html_content)
}

/// Stages the new issue under the identifier `id`.
pub fn stage_newsletter_issue(
    transaction: &mut Transaction,
    db: &Database,
    id: u128,
    title: &str,
    text_content: &str,
    html_content: &str,
) -> (inserted: Result<u128, PersistenceError>)
    requires
        old(transaction)@.wf(),
    ensures
        final(transaction)@.wf(),
        match inserted {
            Ok(same) => same == id && old(transaction)@.stage_issue(
                db@,
                IssueView {
                    id,
                    title: title@,
                    text_content: text_content@,
                    html_content: html_content@,
                    published_at: db@.now,
                },
            ) == Ok::<TransactionView, PersistenceError>(final(transaction)@),
            Err(reason) => old(transaction)@.stage_issue(
                db@,
                IssueView {
                    id,
                    title: title@,
                    text_content: text_content@,
                    html_content: html_content@,
                    published_at: db@.now,
                },
            ) == Err::<TransactionView, PersistenceError>(reason) && final(transaction)@ == old(
                transaction,
            )@,
        },
{
    match transaction.insert_issue(
        db,
        id,
        title.to_owned(),
        text_content.to_owned(),
        html_content.to_owned(),
    ) {
        Ok(()) => Ok(id),
        Err(reason) => Err(reason),
    }
}

/// Stages one delivery task of the issue for every subscriber that is
/// confirmed now, as a single statement.
pub fn enqueue_delivery_tasks(
    transaction: &mut Transaction,
    db: &Database,
    newsletter_issue_id: u128,
) -> (enqueued: Result<(), PersistenceError>)
    requires
        old(transaction)@.wf(),
    ensures
        final(transaction)@.wf(),
        match enqueued {
            Ok(()) => old(transaction)@.stage_tasks(db@, newsletter_issue_id) == Ok::<
                TransactionView,
                PersistenceError,
            >(final(transaction)@),
            Err(reason) => old(transaction)@.stage_tasks(db@, newsletter_issue_id) == Err::<
                TransactionView,
                PersistenceError,
            >(reason) && final(transaction)@ == old(transaction)@,
        },
{
    transaction.enqueue_tasks(db, newsletter_issue_id)
}

/// Carries out a publish command: claims the key, writes the issue and its
/// delivery tasks, and saves the response, all in one transaction. A command
/// that was carried out before is answered from the cache and nothing is
/// written again.
pub fn post_publish_newsletters(body: BodyData, db: &mut Database, user_id: UserId) -> (answer:
    Result<Response, CommandError>)
    requires
        old(db)@.wf(),
    ensures
        final(db)@.wf(),
        answer is Err ==> final(db)@ == old(db)@,
        exists|id: u128|
            is_version_4(id) && (PublishEffect { db: final(db)@, answer: answer_view(answer) })
                == #[trigger] publish_effect(old(db)@, user_id.0, id, body),
{
    let id = new_v4();
    publish_newsletter_issue(body, db, user_id, id)
}

/// The view of the answer to a command.
pub open spec fn answer_view(answer: Result<Response, CommandError>) -> Result<
    ResponseView,
    CommandError,
> {
    match answer {
        Ok(response) => Ok(response@),
        Err(reason) => Err(reason),
    }
}

/// Carries out a publish command as [`post_publish_newsletters`] does, with
/// `id` as the identifier of the new issue.
pub fn publish_newsletter_issue(body: BodyData, db: &mut Database, user_id: UserId, id: u128) -> (answer:
    Result<Response, CommandError>)
    requires
        old(db)@.wf(),
    ensures
        final(db)@.wf(),
        answer is Err ==> final(db)@ == old(db)@,
        (PublishEffect { db: final(db)@, answer: answer_view(answer) }) == publish_effect(
            old(db)@,
            user_id.0,
            id,
            body,
        ),
{
    let ghost pre = db@;
    let ghost form = body;
    let BodyData { title, content_text, content_html, idempotency_key } = body;
    let idempotency_key = match IdempotencyKey::parse(idempotency_key) {
        Ok(key) => key,
        Err(rule) => {
            return Err(CommandError::ValidationError(rule));
        },
    };
    let mut transaction = match try_processing(db, &idempotency_key, user_id.0) {
        Ok(NextAction::StartProcessing(transaction)) => transaction,
        Ok(NextAction::ReturnSavedResponse(response)) => {
            return Ok(response);
        },
        Err(reason) => {
            return Err(reason);
        },
    };
    proof {
        lemma_release_undoes_claim(pre, user_id.0, idempotency_key@);
        assert(transaction@.recipients.len() == 0);
        assert(db@.issues == pre.issues);
        if pre.has_issue(id) {
            lemma_same_issues(pre, db@, id);
        }
        if db@.has_issue(id) {
            lemma_same_issues(db@, pre, id);
        }
    }
    let issue_id = match stage_newsletter_issue(
        &mut transaction,
        db,
        id,
        title.as_str(),
        content_text.as_str(),
        content_html.as_str(),
    ) {
        Ok(issue_id) => issue_id,
        Err(reason) => {
            db.rollback(transaction);
            return Err(CommandError::PersistenceError(reason));
        },
    };
    proof {
        assert(Seq::<Seq<char>>::empty() + confirmed_emails(pre.subscriptions)
            =~= confirmed_emails(pre.subscriptions));
    }
    match enqueue_delivery_tasks(&mut transaction, db, issue_id) {
        Ok(()) => {},
        Err(reason) => {
            db.rollback(transaction);
            return Err(CommandError::PersistenceError(reason));
        },
    }
    proof {
        lemma_commit_is_published(
            pre,
            user_id.0,
            idempotency_key@,
            issue_of(pre, id, form),
        );
    }
    let response = see_other("/admin/newsletters");
    save_response(db, transaction, &idempotency_key, user_id.0, response)
}

} // verus!
