//! Facts about the model of the store: keys are found at one position only,
//! and every operation keeps the store well formed.

use super::model::{
    distinct, is_first_claimable, is_row_of, is_task_of, tasks_for, DatabaseView,
    TransactionView,
};
use super::rows::{TaskView, UserView};
use crate::http::ResponseView;
use vstd::prelude::*;

verus! {

/// The first claimable position is the only one.
pub proof fn lemma_claimable_position(db: DatabaseView, i: int)
    requires
        is_first_claimable(db.queue, i),
    ensures
        db.has_claimable(),
        db.claimable_position() == i,
{
    let p = db.claimable_position();
    assert(is_first_claimable(db.queue, p));
    if p < i {
        assert(db.queue[p].locked);
    } else if i < p {
        assert(db.queue[i].locked);
    }
}

/// Among the tasks that no worker holds, one comes first.
pub proof fn lemma_first_claimable(db: DatabaseView)
    requires
        db.has_claimable(),
    ensures
        is_first_claimable(db.queue, db.claimable_position()),
{
    let k = choose|k: int| 0 <= k < db.queue.len() && !(#[trigger] db.queue[k]).locked;
    lemma_claimable_before(db.queue, k);
}

proof fn lemma_claimable_before(queue: Seq<TaskView>, k: int)
    requires
        0 <= k < queue.len(),
        !queue[k].locked,
    ensures
        exists|i: int| is_first_claimable(queue, i),
    decreases k,
{
    if exists|j: int| 0 <= j < k && !(#[trigger] queue[j]).locked {
        let j = choose|j: int| 0 <= j < k && !(#[trigger] queue[j]).locked;
        lemma_claimable_before(queue, j);
    } else {
        assert(is_first_claimable(queue, k));
    }
}

/// In a well-formed store a subscription id is found at one position only.
pub proof fn lemma_subscription_position(db: DatabaseView, i: int, id: u128)
    requires
        db.wf(),
        0 <= i < db.subscriptions.len(),
        db.subscriptions[i].id == id,
    ensures
        db.has_subscription(id),
        db.subscription_position(id) == i,
{
    let p = db.subscription_position(id);
    assert(0 <= p < db.subscriptions.len() && db.subscriptions[p].id == id);
    if p < i {
        assert(db.subscriptions[p].id != db.subscriptions[i].id);
    } else if i < p {
        assert(db.subscriptions[i].id != db.subscriptions[p].id);
    }
}

/// In a well-formed store a token is found at one position only.
pub proof fn lemma_token_position(db: DatabaseView, i: int, token: Seq<char>)
    requires
        db.wf(),
        0 <= i < db.tokens.len(),
        db.tokens[i].token == token,
    ensures
        db.has_token(token),
        db.subscriber_of(token) == Some(db.tokens[i].subscriber_id),
{
    let p = choose|p: int| 0 <= p < db.tokens.len() && (#[trigger] db.tokens[p]).token == token;
    assert(0 <= p < db.tokens.len() && db.tokens[p].token == token);
    if p < i {
        assert(db.tokens[p].token != db.tokens[i].token);
    } else if i < p {
        assert(db.tokens[i].token != db.tokens[p].token);
    }
}

/// Appending an address keeps a list free of repetitions exactly when the
/// address is new to it.
pub proof fn lemma_distinct_push(list: Seq<Seq<char>>, email: Seq<char>)
    ensures
        distinct(list.push(email)) <==> distinct(list) && !list.contains(email),
{
    let longer = list.push(email);
    if distinct(longer) {
        assert forall|i: int, j: int|
            #![trigger list[i], list[j]]
            0 <= i < j < list.len() implies list[i] != list[j] by {
            assert(longer[i] == list[i] && longer[j] == list[j]);
        }
        if list.contains(email) {
            let i = choose|i: int| 0 <= i < list.len() && list[i] == email;
            assert(longer[i] == email && longer[list.len() as int] == email);
        }
    }
    if distinct(list) && !list.contains(email) {
        assert forall|i: int, j: int|
            #![trigger longer[i], longer[j]]
            0 <= i < j < longer.len() implies longer[i] != longer[j] by {
            if j == list.len() {
                assert(list.contains(list[i]));
            } else {
                assert(longer[i] == list[i] && longer[j] == list[j]);
            }
        }
    }
}

/// In a well-formed store the row of a key is found at one position only.
pub proof fn lemma_key_position(db: DatabaseView, i: int, caller_id: u128, key: Seq<char>)
    requires
        db.wf(),
        is_row_of(db.idempotency, i, caller_id, key),
    ensures
        db.has_key(caller_id, key),
        db.key_position(caller_id, key) == i,
{
    let p = db.key_position(caller_id, key);
    assert(is_row_of(db.idempotency, p, caller_id, key));
    if p < i {
        assert(!(db.idempotency[p].caller_id == db.idempotency[i].caller_id && db.idempotency[p].key
            == db.idempotency[i].key));
    } else if i < p {
        assert(!(db.idempotency[i].caller_id == db.idempotency[p].caller_id && db.idempotency[i].key
            == db.idempotency[p].key));
    }
}

/// In a well-formed store an issue id is found at one position only.
pub proof fn lemma_issue_position(db: DatabaseView, i: int, id: u128)
    requires
        db.wf(),
        0 <= i < db.issues.len(),
        db.issues[i].id == id,
    ensures
        db.has_issue(id),
        db.issue_position(id) == i,
{
    let p = db.issue_position(id);
    assert(0 <= p < db.issues.len() && db.issues[p].id == id);
    if p < i {
        assert(db.issues[p].id != db.issues[i].id);
    } else if i < p {
        assert(db.issues[i].id != db.issues[p].id);
    }
}

/// In a well-formed store a task is found at one position only.
pub proof fn lemma_task_position(db: DatabaseView, i: int, issue_id: u128, email: Seq<char>)
    requires
        db.wf(),
        is_task_of(db.queue, i, issue_id, email),
    ensures
        db.has_task(issue_id, email),
        db.task_position(issue_id, email) == i,
{
    let p = db.task_position(issue_id, email);
    assert(is_task_of(db.queue, p, issue_id, email));
    if p < i {
        assert(!(db.queue[p].issue_id == db.queue[i].issue_id && db.queue[p].subscriber_email
            == db.queue[i].subscriber_email));
    } else if i < p {
        assert(!(db.queue[i].issue_id == db.queue[p].issue_id && db.queue[i].subscriber_email
            == db.queue[p].subscriber_email));
    }
}

/// Committing a well-formed transaction whose issue id is fresh keeps the
/// store well formed.
pub proof fn lemma_commit_wf(db: DatabaseView, tx: TransactionView, response: ResponseView)
    requires
        db.wf(),
        tx.wf(),
        db.can_commit(tx),
    ensures
        db.commit(tx, response).wf(),
{
    let post = db.commit(tx, response);
    let position = db.key_position(tx.caller_id, tx.key);
    assert(is_row_of(db.idempotency, position, tx.caller_id, tx.key));
    assert forall|a: int, b: int|
        #![trigger post.idempotency[a], post.idempotency[b]]
        0 <= a < b < post.idempotency.len() implies !(post.idempotency[a].caller_id
        == post.idempotency[b].caller_id && post.idempotency[a].key
        == post.idempotency[b].key) by {
        assert(post.idempotency[a].caller_id == db.idempotency[a].caller_id);
        assert(post.idempotency[a].key == db.idempotency[a].key);
        assert(post.idempotency[b].caller_id == db.idempotency[b].caller_id);
        assert(post.idempotency[b].key == db.idempotency[b].key);
    }
    match tx.issue {
        Some(issue) => {
            let added = tasks_for(issue.id, tx.recipients);
            assert forall|a: int, b: int|
                #![trigger post.issues[a], post.issues[b]]
                0 <= a < b < post.issues.len() implies post.issues[a].id != post.issues[b].id by {
                if b == db.issues.len() {
                    assert(db.issues[a].id != issue.id);
                } else {
                    assert(post.issues[a] == db.issues[a] && post.issues[b] == db.issues[b]);
                }
            }
            assert forall|a: int| 0 <= a < post.queue.len() implies post.has_issue(
                (#[trigger] post.queue[a]).issue_id,
            ) by {
                if a < db.queue.len() {
                    assert(post.queue[a] == db.queue[a]);
                    let p = db.issue_position(db.queue[a].issue_id);
                    assert(post.issues[p] == db.issues[p]);
                } else {
                    assert(post.queue[a] == added[a - db.queue.len()]);
                    assert(post.issues[db.issues.len() as int].id == issue.id);
                }
            }
            assert forall|a: int, b: int|
                #![trigger post.queue[a], post.queue[b]]
                0 <= a < b < post.queue.len() implies !(post.queue[a].issue_id
                == post.queue[b].issue_id && post.queue[a].subscriber_email
                == post.queue[b].subscriber_email) by {
                if b < db.queue.len() {
                    assert(post.queue[a] == db.queue[a] && post.queue[b] == db.queue[b]);
                } else if a < db.queue.len() {
                    assert(post.queue[a] == db.queue[a]);
                    assert(post.queue[b] == added[b - db.queue.len()]);
                    assert(db.has_issue(db.queue[a].issue_id));
                } else {
                    assert(post.queue[a] == added[a - db.queue.len()]);
                    assert(post.queue[b] == added[b - db.queue.len()]);
                    assert(tx.recipients[a - db.queue.len()] != tx.recipients[b - db.queue.len()]);
                }
            }
        },
        None => {
            assert(post.issues == db.issues);
            assert(post.queue == db.queue);
            assert forall|a: int| 0 <= a < post.queue.len() implies post.has_issue(
                (#[trigger] post.queue[a]).issue_id,
            ) by {
                assert(db.has_issue(db.queue[a].issue_id));
            }
        },
    }
}

/// Whether an issue is stored depends on the issues alone.
pub proof fn lemma_same_issues(db: DatabaseView, other: DatabaseView, id: u128)
    requires
        other.issues == db.issues,
        db.has_issue(id),
    ensures
        other.has_issue(id),
{
    let p = db.issue_position(id);
    assert(other.issues[p].id == id);
}

/// Replacing a task by one with the same key keeps the store well formed.
pub proof fn lemma_task_update_wf(db: DatabaseView, position: int, task: TaskView)
    requires
        db.wf(),
        0 <= position < db.queue.len(),
        task.issue_id == db.queue[position].issue_id,
        task.subscriber_email == db.queue[position].subscriber_email,
    ensures
        (DatabaseView { queue: db.queue.update(position, task), ..db }).wf(),
{
    let post = DatabaseView { queue: db.queue.update(position, task), ..db };
    assert forall|a: int, b: int|
        #![trigger post.queue[a], post.queue[b]]
        0 <= a < b < post.queue.len() implies !(post.queue[a].issue_id == post.queue[b].issue_id
        && post.queue[a].subscriber_email == post.queue[b].subscriber_email) by {
        assert(post.queue[a].issue_id == db.queue[a].issue_id);
        assert(post.queue[a].subscriber_email == db.queue[a].subscriber_email);
        assert(post.queue[b].issue_id == db.queue[b].issue_id);
        assert(post.queue[b].subscriber_email == db.queue[b].subscriber_email);
    }
    assert forall|a: int| 0 <= a < post.queue.len() implies post.has_issue(
        (#[trigger] post.queue[a]).issue_id,
    ) by {
        lemma_same_issues(db, post, db.queue[a].issue_id);
    }
}

/// Deleting a task keeps the store well formed.
pub proof fn lemma_task_remove_wf(db: DatabaseView, position: int)
    requires
        db.wf(),
        0 <= position < db.queue.len(),
    ensures
        (DatabaseView { queue: db.queue.remove(position), ..db }).wf(),
{
    let post = DatabaseView { queue: db.queue.remove(position), ..db };
    assert forall|a: int, b: int|
        #![trigger post.queue[a], post.queue[b]]
        0 <= a < b < post.queue.len() implies !(post.queue[a].issue_id == post.queue[b].issue_id
        && post.queue[a].subscriber_email == post.queue[b].subscriber_email) by {
        let a0 = if a < position { a } else { a + 1 };
        let b0 = if b < position { b } else { b + 1 };
        assert(post.queue[a] == db.queue[a0]);
        assert(post.queue[b] == db.queue[b0]);
    }
    assert forall|a: int| 0 <= a < post.queue.len() implies post.has_issue(
        (#[trigger] post.queue[a]).issue_id,
    ) by {
        let a0 = if a < position { a } else { a + 1 };
        assert(post.queue[a] == db.queue[a0]);
        lemma_same_issues(db, post, db.queue[a0].issue_id);
    }
}

/// Registering a subscription under a fresh id and a fresh token keeps the
/// store well formed.
pub proof fn lemma_register_wf(
    db: DatabaseView,
    id: u128,
    email: Seq<char>,
    name: Seq<char>,
    token: Seq<char>,
)
    requires
        db.wf(),
        !db.has_subscription(id),
        !db.has_token(token),
    ensures
        db.register(id, email, name, token).wf(),
{
    let post = db.register(id, email, name, token);
    assert forall|a: int, b: int|
        #![trigger post.subscriptions[a], post.subscriptions[b]]
        0 <= a < b < post.subscriptions.len() implies post.subscriptions[a].id
        != post.subscriptions[b].id by {
        if b == db.subscriptions.len() {
            assert(db.subscriptions[a].id != id);
        } else {
            assert(post.subscriptions[a] == db.subscriptions[a]);
            assert(post.subscriptions[b] == db.subscriptions[b]);
        }
    }
    assert forall|a: int, b: int|
        #![trigger post.tokens[a], post.tokens[b]]
        0 <= a < b < post.tokens.len() implies post.tokens[a].token != post.tokens[b].token by {
        if b == db.tokens.len() {
            assert(db.tokens[a].token != token);
        } else {
            assert(post.tokens[a] == db.tokens[a]);
            assert(post.tokens[b] == db.tokens[b]);
        }
    }
    assert forall|a: int| 0 <= a < post.queue.len() implies post.has_issue(
        (#[trigger] post.queue[a]).issue_id,
    ) by {
        lemma_same_issues(db, post, db.queue[a].issue_id);
    }
}

/// Confirming a subscription keeps the store well formed.
pub proof fn lemma_confirm_wf(db: DatabaseView, id: u128)
    requires
        db.wf(),
    ensures
        db.confirm(id).wf(),
{
    let post = db.confirm(id);
    if db.has_subscription(id) {
        assert forall|a: int, b: int|
            #![trigger post.subscriptions[a], post.subscriptions[b]]
            0 <= a < b < post.subscriptions.len() implies post.subscriptions[a].id
            != post.subscriptions[b].id by {
            assert(post.subscriptions[a].id == db.subscriptions[a].id);
            assert(post.subscriptions[b].id == db.subscriptions[b].id);
        }
        assert forall|a: int| 0 <= a < post.queue.len() implies post.has_issue(
            (#[trigger] post.queue[a]).issue_id,
        ) by {
            lemma_same_issues(db, post, db.queue[a].issue_id);
        }
    }
}

/// In a well-formed store a user id is found at one position only.
pub proof fn lemma_user_position(db: DatabaseView, i: int, user_id: u128)
    requires
        db.wf(),
        0 <= i < db.users.len(),
        db.users[i].user_id == user_id,
    ensures
        db.has_user(user_id),
        db.user_position(user_id) == i,
{
    let p = db.user_position(user_id);
    assert(0 <= p < db.users.len() && db.users[p].user_id == user_id);
    if p < i {
        assert(db.users[p].user_id != db.users[i].user_id);
    } else if i < p {
        assert(db.users[i].user_id != db.users[p].user_id);
    }
}

/// In a well-formed store a user name is found at one position only.
pub proof fn lemma_username_position(db: DatabaseView, i: int, username: Seq<char>)
    requires
        db.wf(),
        0 <= i < db.users.len(),
        db.users[i].username == username,
    ensures
        db.has_username(username),
        db.username_position(username) == i,
{
    let p = db.username_position(username);
    assert(0 <= p < db.users.len() && db.users[p].username == username);
    if p < i {
        assert(db.users[p].username != db.users[i].username);
    } else if i < p {
        assert(db.users[i].username != db.users[p].username);
    }
}

/// Adding a user under a fresh id and a fresh name keeps the store well
/// formed.
pub proof fn lemma_with_user_wf(db: DatabaseView, user: UserView)
    requires
        db.wf(),
        !db.has_user(user.user_id),
        !db.has_username(user.username),
    ensures
        db.with_user(user).wf(),
{
    let post = db.with_user(user);
    assert forall|a: int, b: int|
        #![trigger post.users[a], post.users[b]]
        0 <= a < b < post.users.len() implies post.users[a].user_id != post.users[b].user_id
        && post.users[a].username != post.users[b].username by {
        if b == db.users.len() {
            assert(db.users[a].user_id != user.user_id);
            assert(db.users[a].username != user.username);
        } else {
            assert(post.users[a] == db.users[a]);
            assert(post.users[b] == db.users[b]);
        }
    }
    assert forall|a: int| 0 <= a < post.queue.len() implies post.has_issue(
        (#[trigger] post.queue[a]).issue_id,
    ) by {
        lemma_same_issues(db, post, db.queue[a].issue_id);
    }
}

/// Replacing a password hash keeps the store well formed.
pub proof fn lemma_with_password_hash_wf(db: DatabaseView, user_id: u128, password_hash: Seq<char>)
    requires
        db.wf(),
    ensures
        db.with_password_hash(user_id, password_hash).wf(),
{
    let post = db.with_password_hash(user_id, password_hash);
    if db.has_user(user_id) {
        assert forall|a: int, b: int|
            #![trigger post.users[a], post.users[b]]
            0 <= a < b < post.users.len() implies post.users[a].user_id != post.users[b].user_id
            && post.users[a].username != post.users[b].username by {
            assert(post.users[a].user_id == db.users[a].user_id);
            assert(post.users[a].username == db.users[a].username);
            assert(post.users[b].user_id == db.users[b].user_id);
            assert(post.users[b].username == db.users[b].username);
        }
        assert forall|a: int| 0 <= a < post.queue.len() implies post.has_issue(
            (#[trigger] post.queue[a]).issue_id,
        ) by {
            lemma_same_issues(db, post, db.queue[a].issue_id);
        }
    }
}

} // verus!
