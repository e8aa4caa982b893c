//! The content of the store as a mathematical value, and what each
//! operation does to it.

use super::rows::{
    IdempotencyRowView, IssueView, PersistenceError, SubscriptionStatus, SubscriptionView,
    TaskView, TokenView, UserView,
};
use crate::http::ResponseView;
use vstd::prelude::*;

verus! {

/// The content of the store: its clock and its tables, each in the order in
/// which its rows were written.
pub struct DatabaseView {
    pub now: u64,
    pub idempotency: Seq<IdempotencyRowView>,
    pub issues: Seq<IssueView>,
    pub queue: Seq<TaskView>,
    pub subscriptions: Seq<SubscriptionView>,
    pub tokens: Seq<TokenView>,
    pub users: Seq<UserView>,
}

/// Whether row `i` of `rows` is the one claimed by `(caller_id, key)`.
pub open spec fn is_row_of(
    rows: Seq<IdempotencyRowView>,
    i: int,
    caller_id: u128,
    key: Seq<char>,
) -> bool {
    0 <= i < rows.len() && rows[i].caller_id == caller_id && rows[i].key == key
}

/// Whether row `i` of `queue` is the task `(issue_id, email)`.
pub open spec fn is_task_of(queue: Seq<TaskView>, i: int, issue_id: u128, email: Seq<char>) -> bool {
    0 <= i < queue.len() && queue[i].issue_id == issue_id && queue[i].subscriber_email == email
}

impl DatabaseView {
    /// Whether a row, placeholder or not, is claimed by `(caller_id, key)`.
    pub open spec fn has_key(self, caller_id: u128, key: Seq<char>) -> bool {
        exists|i: int| is_row_of(self.idempotency, i, caller_id, key)
    }

    /// The position of the row claimed by `(caller_id, key)`.
    pub open spec fn key_position(self, caller_id: u128, key: Seq<char>) -> int {
        choose|i: int| is_row_of(self.idempotency, i, caller_id, key)
    }

    /// The response saved under `(caller_id, key)`, if the row exists and is
    /// filled.
    pub open spec fn saved_response(self, caller_id: u128, key: Seq<char>) -> Option<
        ResponseView,
    > {
        if self.has_key(caller_id, key) {
            self.idempotency[self.key_position(caller_id, key)].response
        } else {
            None
        }
    }

    /// Whether `(caller_id, key)` is claimed by a command that has not saved
    /// its response yet.
    pub open spec fn in_flight(self, caller_id: u128, key: Seq<char>) -> bool {
        self.has_key(caller_id, key) && self.saved_response(caller_id, key) is None
    }

    /// Whether an issue with this id is stored.
    pub open spec fn has_issue(self, id: u128) -> bool {
        exists|i: int| 0 <= i < self.issues.len() && (#[trigger] self.issues[i]).id == id
    }

    /// The position of the issue with this id.
    pub open spec fn issue_position(self, id: u128) -> int {
        choose|i: int| 0 <= i < self.issues.len() && (#[trigger] self.issues[i]).id == id
    }

    /// Whether the task `(issue_id, email)` is queued.
    pub open spec fn has_task(self, issue_id: u128, email: Seq<char>) -> bool {
        exists|i: int| is_task_of(self.queue, i, issue_id, email)
    }

    /// The position of the task `(issue_id, email)`.
    pub open spec fn task_position(self, issue_id: u128, email: Seq<char>) -> int {
        choose|i: int| is_task_of(self.queue, i, issue_id, email)
    }

    /// The keys of each table are unique and every task refers to a stored
    /// issue.
    pub open spec fn wf(self) -> bool {
        &&& forall|i: int, j: int|
            #![trigger self.idempotency[i], self.idempotency[j]]
            0 <= i < j < self.idempotency.len() ==> !(self.idempotency[i].caller_id
                == self.idempotency[j].caller_id && self.idempotency[i].key
                == self.idempotency[j].key)
        &&& forall|i: int, j: int|
            #![trigger self.issues[i], self.issues[j]]
            0 <= i < j < self.issues.len() ==> self.issues[i].id != self.issues[j].id
        &&& forall|i: int, j: int|
            #![trigger self.queue[i], self.queue[j]]
            0 <= i < j < self.queue.len() ==> !(self.queue[i].issue_id == self.queue[j].issue_id
                && self.queue[i].subscriber_email == self.queue[j].subscriber_email)
        &&& forall|i: int|
            0 <= i < self.queue.len() ==> self.has_issue((#[trigger] self.queue[i]).issue_id)
        &&& forall|i: int, j: int|
            #![trigger self.subscriptions[i], self.subscriptions[j]]
            0 <= i < j < self.subscriptions.len() ==> self.subscriptions[i].id
                != self.subscriptions[j].id
        &&& forall|i: int, j: int|
            #![trigger self.tokens[i], self.tokens[j]]
            0 <= i < j < self.tokens.len() ==> self.tokens[i].token != self.tokens[j].token
        &&& forall|i: int, j: int|
            #![trigger self.users[i], self.users[j]]
            0 <= i < j < self.users.len() ==> self.users[i].user_id != self.users[j].user_id
                && self.users[i].username != self.users[j].username
    }

    /// The store after `(caller_id, key)` was claimed with a placeholder.
    pub open spec fn claim(self, caller_id: u128, key: Seq<char>) -> DatabaseView {
        DatabaseView {
            idempotency: self.idempotency.push(placeholder(caller_id, key, self.now)),
            ..self
        }
    }

    /// The store after the placeholder of `(caller_id, key)` was withdrawn. A
    /// row that is filled, or missing, is left alone.
    pub open spec fn release(self, caller_id: u128, key: Seq<char>) -> DatabaseView {
        if self.in_flight(caller_id, key) {
            DatabaseView {
                idempotency: self.idempotency.remove(self.key_position(caller_id, key)),
                ..self
            }
        } else {
            self
        }
    }

    /// Whether the writes of `tx` can be made durable: its claim is still in
    /// flight and its issue, if it wrote one, has a fresh id.
    pub open spec fn can_commit(self, tx: TransactionView) -> bool {
        &&& self.in_flight(tx.caller_id, tx.key)
        &&& tx.issue matches Some(issue) ==> !self.has_issue(issue.id)
    }

    /// The store after `tx` committed with `response`: the placeholder is
    /// filled, the issue is stored and one task per recipient is queued.
    pub open spec fn commit(self, tx: TransactionView, response: ResponseView) -> DatabaseView {
        let position = self.key_position(tx.caller_id, tx.key);
        let filled = IdempotencyRowView {
            response: Some(response),
            ..self.idempotency[position]
        };
        DatabaseView {
            idempotency: self.idempotency.update(position, filled),
            issues: match tx.issue {
                Some(issue) => self.issues.push(issue),
                None => self.issues,
            },
            queue: match tx.issue {
                Some(issue) => self.queue + tasks_for(issue.id, tx.recipients),
                None => self.queue,
            },
            ..self
        }
    }

    /// Whether some task is not held by a worker.
    pub open spec fn has_claimable(self) -> bool {
        exists|i: int| 0 <= i < self.queue.len() && !(#[trigger] self.queue[i]).locked
    }

    /// The position of the first task that is not held by a worker.
    pub open spec fn claimable_position(self) -> int {
        choose|i: int| is_first_claimable(self.queue, i)
    }

    /// The store after a worker took hold of the task at `position`.
    pub open spec fn lock_task(self, position: int) -> DatabaseView {
        DatabaseView {
            queue: self.queue.update(
                position,
                TaskView { locked: true, ..self.queue[position] },
            ),
            ..self
        }
    }

    /// The store after the task `(issue_id, email)` was deleted, if it is
    /// queued.
    pub open spec fn without_task(self, issue_id: u128, email: Seq<char>) -> DatabaseView {
        if self.has_task(issue_id, email) {
            DatabaseView { queue: self.queue.remove(self.task_position(issue_id, email)), ..self }
        } else {
            self
        }
    }

    /// The store after a failed send of the task `(issue_id, email)`, if it
    /// is queued: the worker lets go of it and the failure is counted.
    pub open spec fn with_failed_attempt(self, issue_id: u128, email: Seq<char>) -> DatabaseView {
        if self.has_task(issue_id, email) {
            let position = self.task_position(issue_id, email);
            let task = self.queue[position];
            DatabaseView {
                queue: self.queue.update(
                    position,
                    TaskView { locked: false, attempts: next_attempt(task.attempts), ..task },
                ),
                ..self
            }
        } else {
            self
        }
    }

    /// Whether a subscription with this id is stored.
    pub open spec fn has_subscription(self, id: u128) -> bool {
        exists|i: int|
            0 <= i < self.subscriptions.len() && (#[trigger] self.subscriptions[i]).id == id
    }

    /// The position of the subscription with this id.
    pub open spec fn subscription_position(self, id: u128) -> int {
        choose|i: int|
            0 <= i < self.subscriptions.len() && (#[trigger] self.subscriptions[i]).id == id
    }

    /// Whether this confirmation token is stored.
    pub open spec fn has_token(self, token: Seq<char>) -> bool {
        exists|i: int| 0 <= i < self.tokens.len() && (#[trigger] self.tokens[i]).token == token
    }

    /// The subscription that `token` confirms, if the token is stored.
    pub open spec fn subscriber_of(self, token: Seq<char>) -> Option<u128> {
        if self.has_token(token) {
            let i = choose|i: int|
                0 <= i < self.tokens.len() && (#[trigger] self.tokens[i]).token == token;
            Some(self.tokens[i].subscriber_id)
        } else {
            None
        }
    }

    /// The store after a subscription was registered together with its
    /// confirmation token.
    pub open spec fn register(
        self,
        id: u128,
        email: Seq<char>,
        name: Seq<char>,
        token: Seq<char>,
    ) -> DatabaseView {
        DatabaseView {
            subscriptions: self.subscriptions.push(
                SubscriptionView {
                    id,
                    email,
                    name,
                    subscribed_at: self.now,
                    status: SubscriptionStatus::PendingConfirmation,
                },
            ),
            tokens: self.tokens.push(TokenView { token, subscriber_id: id }),
            ..self
        }
    }

    /// The store after the subscription `id` was confirmed, if it is stored.
    pub open spec fn confirm(self, id: u128) -> DatabaseView {
        if self.has_subscription(id) {
            let position = self.subscription_position(id);
            DatabaseView {
                subscriptions: self.subscriptions.update(
                    position,
                    SubscriptionView {
                        status: SubscriptionStatus::Confirmed,
                        ..self.subscriptions[position]
                    },
                ),
                ..self
            }
        } else {
            self
        }
    }

    /// Whether a user with this id is stored.
    pub open spec fn has_user(self, user_id: u128) -> bool {
        exists|i: int| 0 <= i < self.users.len() && (#[trigger] self.users[i]).user_id == user_id
    }

    /// The position of the user with this id.
    pub open spec fn user_position(self, user_id: u128) -> int {
        choose|i: int| 0 <= i < self.users.len() && (#[trigger] self.users[i]).user_id == user_id
    }

    /// Whether a user with this name is stored.
    pub open spec fn has_username(self, username: Seq<char>) -> bool {
        exists|i: int| 0 <= i < self.users.len() && (#[trigger] self.users[i]).username == username
    }

    /// The position of the user with this name.
    pub open spec fn username_position(self, username: Seq<char>) -> int {
        choose|i: int| 0 <= i < self.users.len() && (#[trigger] self.users[i]).username == username
    }

    /// The user that `username` names, if there is one.
    pub open spec fn user_named(self, username: Seq<char>) -> Option<UserView> {
        if self.has_username(username) {
            Some(self.users[self.username_position(username)])
        } else {
            None
        }
    }

    /// The user with this id, if there is one.
    pub open spec fn user(self, user_id: u128) -> Option<UserView> {
        if self.has_user(user_id) {
            Some(self.users[self.user_position(user_id)])
        } else {
            None
        }
    }

    /// The store with one more user.
    pub open spec fn with_user(self, user: UserView) -> DatabaseView {
        DatabaseView { users: self.users.push(user), ..self }
    }

    /// The store after the password hash of the user `user_id` was replaced,
    /// if the user is stored.
    pub open spec fn with_password_hash(self, user_id: u128, password_hash: Seq<char>) -> DatabaseView {
        if self.has_user(user_id) {
            let position = self.user_position(user_id);
            DatabaseView {
                users: self.users.update(
                    position,
                    UserView { password_hash, ..self.users[position] },
                ),
                ..self
            }
        } else {
            self
        }
    }
}

/// Whether `i` is the first position of `queue` whose task no worker holds.
pub open spec fn is_first_claimable(queue: Seq<TaskView>, i: int) -> bool {
    &&& 0 <= i < queue.len()
    &&& !queue[i].locked
    &&& forall|j: int| 0 <= j < i ==> (#[trigger] queue[j]).locked
}

/// The count of failed sends after one more, which stops at the largest
/// count that fits.
pub open spec fn next_attempt(attempts: u32) -> u32 {
    if attempts < u32::MAX {
        (attempts + 1) as u32
    } else {
        attempts
    }
}

/// The placeholder row that claims `(caller_id, key)` at time `now`.
pub open spec fn placeholder(caller_id: u128, key: Seq<char>, now: u64) -> IdempotencyRowView {
    IdempotencyRowView { caller_id, key, response: None, created_at: now }
}

/// A task as it is first queued: never attempted and not held by a worker.
pub open spec fn new_task(issue_id: u128, email: Seq<char>) -> TaskView {
    TaskView { issue_id, subscriber_email: email, attempts: 0, locked: false }
}

/// One new task of `issue_id` per recipient, in order.
pub open spec fn tasks_for(issue_id: u128, recipients: Seq<Seq<char>>) -> Seq<TaskView> {
    Seq::new(recipients.len(), |i: int| new_task(issue_id, recipients[i]))
}

/// Whether no address occurs twice in `recipients`.
pub open spec fn distinct(recipients: Seq<Seq<char>>) -> bool {
    forall|i: int, j: int|
        #![trigger recipients[i], recipients[j]]
        0 <= i < j < recipients.len() ==> recipients[i] != recipients[j]
}

/// The writes that a transaction has staged, under the claim it holds.
pub struct TransactionView {
    pub caller_id: u128,
    pub key: Seq<char>,
    pub issue: Option<IssueView>,
    pub recipients: Seq<Seq<char>>,
}

impl TransactionView {
    /// Tasks are staged only under an issue, and no address twice.
    pub open spec fn wf(self) -> bool {
        &&& distinct(self.recipients)
        &&& self.issue is None ==> self.recipients.len() == 0
    }

    /// What staging `issue` gives: the transaction that carries it, or the
    /// reason the store refuses the write.
    pub open spec fn stage_issue(self, db: DatabaseView, issue: IssueView) -> Result<
        TransactionView,
        PersistenceError,
    > {
        if self.issue is Some {
            Err(PersistenceError::OutboxAlreadyWritten)
        } else if db.has_issue(issue.id) {
            Err(PersistenceError::DuplicateKey)
        } else {
            Ok(TransactionView { issue: Some(issue), ..self })
        }
    }

    /// What staging one task of `issue_id` per confirmed subscriber gives:
    /// the transaction that carries them, or the reason the store refuses
    /// the write. The subscribers are read once, as `db` holds them now.
    pub open spec fn stage_tasks(self, db: DatabaseView, issue_id: u128) -> Result<
        TransactionView,
        PersistenceError,
    > {
        let recipients = self.recipients + confirmed_emails(db.subscriptions);
        if !(self.issue matches Some(issue) && issue.id == issue_id) {
            Err(PersistenceError::MissingReference)
        } else if !distinct(recipients) {
            Err(PersistenceError::DuplicateKey)
        } else {
            Ok(TransactionView { recipients, ..self })
        }
    }
}

/// The addresses of the confirmed subscriptions, in table order.
pub open spec fn confirmed_emails(subscriptions: Seq<SubscriptionView>) -> Seq<Seq<char>> {
    subscriptions.filter(|s: SubscriptionView| s.status == SubscriptionStatus::Confirmed).map_values(
        |s: SubscriptionView| s.email,
    )
}

} // verus!
