//! The rows of the store's tables and their mathematical views.

use crate::http::{Response, ResponseView};
use vstd::prelude::*;

verus! {

/// A failure of the store: a constraint was violated or the statement could
/// not be carried out. Whatever the transaction had written is discarded.
#[derive(Debug, Clone, Copy, PartialEq, Eq, Structural)]
pub enum PersistenceError {
    /// A row with the same primary key exists already.
    DuplicateKey,
    /// A row refers to a row that does not exist.
    MissingReference,
    /// The transaction has written its issue already.
    OutboxAlreadyWritten,
    /// The transaction does not hold the claim it tries to settle.
    StaleTransaction,
    /// A stored row cannot be read back as what it should hold.
    CorruptRow,
    /// The store could not be reached, or did not answer.
    Unavailable,
}

/// A cached response, claimed by `(caller_id, key)`. While `response` is
/// `None` the row is a placeholder: the command is in flight.
#[derive(Debug, PartialEq, Eq)]
pub struct IdempotencyRow {
    pub caller_id: u128,
    pub key: String,
    pub response: Option<Response>,
    pub created_at: u64,
}

pub struct IdempotencyRowView {
    pub caller_id: u128,
    pub key: Seq<char>,
    pub response: Option<ResponseView>,
    pub created_at: u64,
}

impl View for IdempotencyRow {
    type V = IdempotencyRowView;

    open spec fn view(&self) -> IdempotencyRowView {
        IdempotencyRowView {
            caller_id: self.caller_id,
            key: self.key@,
            response: match self.response {
                Some(response) => Some(response@),
                None => None,
            },
            created_at: self.created_at,
        }
    }
}

/// A published newsletter issue.
#[derive(Debug, PartialEq, Eq)]
pub struct NewsletterIssue {
    pub id: u128,
    pub title: String,
    pub text_content: String,
    pub html_content: String,
    pub published_at: u64,
}

pub struct IssueView {
    pub id: u128,
    pub title: Seq<char>,
    pub text_content: Seq<char>,
    pub html_content: Seq<char>,
    pub published_at: u64,
}

impl View for NewsletterIssue {
    type V = IssueView;

    open spec fn view(&self) -> IssueView {
        IssueView {
            id: self.id,
            title: self.title@,
            text_content: self.text_content@,
            html_content: self.html_content@,
            published_at: self.published_at,
        }
    }
}

impl NewsletterIssue {
    pub fn duplicate(&self) -> (copy: NewsletterIssue)
        ensures
            copy@ == self@,
    {
        NewsletterIssue {
            id: self.id,
            title: self.title.clone(),
            text_content: self.text_content.clone(),
            html_content: self.html_content.clone(),
            published_at: self.published_at,
        }
    }
}

/// One pending delivery: an issue to send to one address. `attempts` counts
/// the sends that failed so far; `locked` is set while a worker holds the row.
#[derive(Debug, PartialEq, Eq)]
pub struct DeliveryTask {
    pub issue_id: u128,
    pub subscriber_email: String,
    pub attempts: u32,
    pub locked: bool,
}

pub struct TaskView {
    pub issue_id: u128,
    pub subscriber_email: Seq<char>,
    pub attempts: u32,
    pub locked: bool,
}

impl View for DeliveryTask {
    type V = TaskView;

    open spec fn view(&self) -> TaskView {
        TaskView {
            issue_id: self.issue_id,
            subscriber_email: self.subscriber_email@,
            attempts: self.attempts,
            locked: self.locked,
        }
    }
}

impl DeliveryTask {
    pub fn duplicate(&self) -> (copy: DeliveryTask)
        ensures
            copy@ == self@,
    {
        DeliveryTask {
            issue_id: self.issue_id,
            subscriber_email: self.subscriber_email.clone(),
            attempts: self.attempts,
            locked: self.locked,
        }
    }
}

/// Where a subscription stands.
#[derive(Debug, Clone, Copy, PartialEq, Eq, Structural)]
pub enum SubscriptionStatus {
    PendingConfirmation,
    Confirmed,
}

/// A row of the subscription system.
#[derive(Debug, PartialEq, Eq)]
pub struct Subscription {
    pub id: u128,
    pub email: String,
    pub name: String,
    pub subscribed_at: u64,
    pub status: SubscriptionStatus,
}

pub struct SubscriptionView {
    pub id: u128,
    pub email: Seq<char>,
    pub name: Seq<char>,
    pub subscribed_at: u64,
    pub status: SubscriptionStatus,
}

impl View for Subscription {
    type V = SubscriptionView;

    open spec fn view(&self) -> SubscriptionView {
        SubscriptionView {
            id: self.id,
            email: self.email@,
            name: self.name@,
            subscribed_at: self.subscribed_at,
            status: self.status,
        }
    }
}

/// A confirmation token and the subscription it confirms.
#[derive(Debug, PartialEq, Eq)]
pub struct SubscriptionToken {
    pub token: String,
    pub subscriber_id: u128,
}

pub struct TokenView {
    pub token: Seq<char>,
    pub subscriber_id: u128,
}

impl View for SubscriptionToken {
    type V = TokenView;

    open spec fn view(&self) -> TokenView {
        TokenView { token: self.token@, subscriber_id: self.subscriber_id }
    }
}

/// An operator who may log in.
#[derive(Debug, PartialEq, Eq)]
pub struct User {
    pub user_id: u128,
    pub username: String,
    pub password_hash: String,
}

pub struct UserView {
    pub user_id: u128,
    pub username: Seq<char>,
    pub password_hash: Seq<char>,
}

impl View for User {
    type V = UserView;

    open spec fn view(&self) -> UserView {
        UserView {
            user_id: self.user_id,
            username: self.username@,
            password_hash: self.password_hash@,
        }
    }
}

/// The views of the rows of a table, in table order.
pub open spec fn rows_view<R: View>(rows: Seq<R>) -> Seq<R::V> {
    Seq::new(rows.len(), |i: int| rows[i]@)
}

/// The texts of a list of strings, in order.
pub open spec fn texts(strings: Seq<String>) -> Seq<Seq<char>> {
    Seq::new(strings.len(), |i: int| strings[i]@)
}

/// The view of an optional value.
pub open spec fn option_view<T: View>(value: Option<T>) -> Option<T::V> {
    match value {
        Some(inner) => Some(inner@),
        None => None,
    }
}

} // verus!
