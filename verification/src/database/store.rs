//! The store itself and the transactions that stage writes for it.

use super::lemmas::{
    lemma_claimable_position, lemma_commit_wf, lemma_confirm_wf, lemma_distinct_push,
    lemma_issue_position, lemma_key_position, lemma_register_wf, lemma_same_issues,
    lemma_subscription_position, lemma_task_position, lemma_task_remove_wf,
    lemma_task_update_wf, lemma_token_position, lemma_user_position, lemma_username_position,
    lemma_with_password_hash_wf, lemma_with_user_wf,
};
use super::model::{
    confirmed_emails, distinct, is_row_of, is_task_of, new_task, next_attempt,
    placeholder, tasks_for, DatabaseView, TransactionView,
};
use super::rows::{
    option_view, rows_view, texts, DeliveryTask, IdempotencyRow, IssueView, NewsletterIssue,
    PersistenceError, Subscription, SubscriptionStatus, SubscriptionToken, SubscriptionView,
    TaskView, User, UserView,
};
use crate::http::Response;
use vstd::prelude::*;

verus! {

/// The store, held in memory: every table that the publishing path, the
/// delivery worker and the subscription system share. Its rows can be read
/// and written only through the operations below, each of which keeps the
/// keys of every table unique.
pub struct Database {
    now: u64,
    idempotency: Vec<IdempotencyRow>,
    issues: Vec<NewsletterIssue>,
    queue: Vec<DeliveryTask>,
    subscriptions: Vec<Subscription>,
    tokens: Vec<SubscriptionToken>,
    users: Vec<User>,
}

impl View for Database {
    type V = DatabaseView;

    closed spec fn view(&self) -> DatabaseView {
        DatabaseView {
            now: self.now,
            idempotency: rows_view(self.idempotency@),
            issues: rows_view(self.issues@),
            queue: rows_view(self.queue@),
            subscriptions: rows_view(self.subscriptions@),
            tokens: rows_view(self.tokens@),
            users: rows_view(self.users@),
        }
    }
}

/// An open transaction: the claim on `(caller_id, key)` together with the
/// business writes staged under it. Nothing staged is visible in the store
/// until the transaction commits.
pub struct Transaction {
    caller_id: u128,
    key: String,
    issue: Option<NewsletterIssue>,
    recipients: Vec<String>,
}

impl View for Transaction {
    type V = TransactionView;

    closed spec fn view(&self) -> TransactionView {
        TransactionView {
            caller_id: self.caller_id,
            key: self.key@,
            issue: match self.issue {
                Some(issue) => Some(issue@),
                None => None,
            },
            recipients: texts(self.recipients@),
        }
    }
}

/// Whether `email` occurs in `list`.
fn holds(list: &Vec<String>, email: &String) -> (found: bool)
    ensures
        found == texts(list@).contains(email@),
{
    let mut i: usize = 0;
    while i < list.len()
        invariant
            i <= list.len(),
            forall|j: int| 0 <= j < i ==> (#[trigger] texts(list@)[j]) != email@,
        decreases list.len() - i,
    {
        if list[i] == *email {
            assert(texts(list@)[i as int] == email@);
            return true;
        }
        i += 1;
    }
    false
}

impl Transaction {
    /// The caller that holds the claim.
    pub fn caller_id(&self) -> (caller_id: u128)
        ensures
            caller_id == self@.caller_id,
    {
        self.caller_id
    }

    /// The key that is claimed.
    pub fn key(&self) -> (key: &String)
        ensures
            key@ == self@.key,
    {
        &self.key
    }

    /// Stages the issue that this transaction publishes, stamped with the
    /// store's clock. Nothing is written when the transaction carries an
    /// issue already or the id is taken.
    pub fn insert_issue(
        &mut self,
        db: &Database,
        id: u128,
        title: String,
        text_content: String,
        html_content: String,
    ) -> (staged: Result<(), PersistenceError>)
        requires
            old(self)@.wf(),
        ensures
            final(self)@.wf(),
            match staged {
                Ok(()) => old(self)@.stage_issue(
                    db@,
                    IssueView {
                        id,
                        title: title@,
                        text_content: text_content@,
                        html_content: html_content@,
                        published_at: db@.now,
                    },
                ) == Ok::<TransactionView, PersistenceError>(final(self)@),
                Err(reason) => old(self)@.stage_issue(
                    db@,
                    IssueView {
                        id,
                        title: title@,
                        text_content: text_content@,
                        html_content: html_content@,
                        published_at: db@.now,
                    },
                ) == Err::<TransactionView, PersistenceError>(reason) && final(self)@ == old(
                    self,
                )@,
            },
    {
        if self.issue.is_some() {
            return Err(PersistenceError::OutboxAlreadyWritten);
        }
        if db.find_issue(id).is_some() {
            return Err(PersistenceError::DuplicateKey);
        }
        self.issue = Some(
            NewsletterIssue { id, title, text_content, html_content, published_at: db.now },
        );
        Ok(())
    }

    /// Stages one delivery task of `issue_id` for every subscriber that is
    /// confirmed in `db` now, in one statement: either all of them are
    /// staged or none. The statement is refused when `issue_id` is not the
    /// issue of this transaction, or when an address would be queued twice.
    pub fn enqueue_tasks(&mut self, db: &Database, issue_id: u128) -> (staged: Result<
        (),
        PersistenceError,
    >)
        requires
            old(self)@.wf(),
        ensures
            final(self)@.wf(),
            match staged {
                Ok(()) => old(self)@.stage_tasks(db@, issue_id) == Ok::<
                    TransactionView,
                    PersistenceError,
                >(final(self)@),
                Err(reason) => old(self)@.stage_tasks(db@, issue_id) == Err::<
                    TransactionView,
                    PersistenceError,
                >(reason) && final(self)@ == old(self)@,
            },
    {
        let owns = match &self.issue {
            Some(issue) => issue.id == issue_id,
            None => false,
        };
        if !owns {
            return Err(PersistenceError::MissingReference);
        }
        let ghost staged_before = texts(self.recipients@);
        let ghost subscribers = db@.subscriptions;
        let mut fresh: Vec<String> = Vec::new();
        let mut clash = false;
        let mut i: usize = 0;
        assert(subscribers.take(0) =~= Seq::empty());
        assert(staged_before + texts(fresh@) =~= staged_before);
        while i < db.subscriptions.len()
            invariant
                i <= db.subscriptions.len(),
                subscribers == db@.subscriptions,
                staged_before == texts(self.recipients@),
                texts(fresh@) == confirmed_emails(subscribers.take(i as int)),
                clash <==> !distinct(staged_before + texts(fresh@)),
            decreases db.subscriptions.len() - i,
        {
            let ghost confirmed = |s: SubscriptionView| s.status == SubscriptionStatus::Confirmed;
            let ghost address = |s: SubscriptionView| s.email;
            let ghost seen = subscribers.take(i as int);
            proof {
                assert(subscribers.take(i + 1) =~= seen.push(subscribers[i as int]));
                seen.lemma_filter_push(subscribers[i as int], confirmed);
                seen.filter(confirmed).lemma_push_map_commute(address, subscribers[i as int]);
            }
            if db.subscriptions[i].status == SubscriptionStatus::Confirmed {
                let email = db.subscriptions[i].email.clone();
                let taken = holds(&self.recipients, &email) || holds(&fresh, &email);
                proof {
                    let all = staged_before + texts(fresh@);
                    lemma_distinct_push(all, email@);
                    assert(all.push(email@) =~= staged_before + texts(fresh@.push(email)));
                    assert(texts(fresh@.push(email)) =~= texts(fresh@).push(email@));
                    if taken {
                        if texts(self.recipients@).contains(email@) {
                            let k = choose|k: int|
                                0 <= k < staged_before.len() && staged_before[k] == email@;
                            assert(all[k] == email@);
                        } else {
                            let k = choose|k: int|
                                0 <= k < texts(fresh@).len() && texts(fresh@)[k] == email@;
                            assert(all[staged_before.len() + k] == email@);
                        }
                        assert(all.contains(email@));
                    } else {
                        if all.contains(email@) {
                            let k = choose|k: int| 0 <= k < all.len() && all[k] == email@;
                            if k < staged_before.len() {
                                assert(staged_before[k] == email@);
                            } else {
                                assert(texts(fresh@)[k - staged_before.len()] == email@);
                            }
                        }
                    }
                }
                if taken {
                    clash = true;
                }
                fresh.push(email);
            }
            i += 1;
        }
        assert(subscribers.take(i as int) =~= subscribers);
        if clash {
            return Err(PersistenceError::DuplicateKey);
        }
        self.recipients.append(&mut fresh);
        assert(texts(self.recipients@) =~= staged_before + confirmed_emails(subscribers));
        Ok(())
    }
}

impl Database {
    /// An empty store whose clock reads zero.
    pub fn new() -> (db: Database)
        ensures
            db@ == (DatabaseView {
                now: 0,
                idempotency: Seq::empty(),
                issues: Seq::empty(),
                queue: Seq::empty(),
                subscriptions: Seq::empty(),
                tokens: Seq::empty(),
                users: Seq::empty(),
            }),
            db@.wf(),
    {
        let db = Database {
            now: 0,
            idempotency: Vec::new(),
            issues: Vec::new(),
            queue: Vec::new(),
            subscriptions: Vec::new(),
            tokens: Vec::new(),
            users: Vec::new(),
        };
        assert(db@.idempotency =~= Seq::empty());
        assert(db@.issues =~= Seq::empty());
        assert(db@.queue =~= Seq::empty());
        assert(db@.subscriptions =~= Seq::empty());
        assert(db@.tokens =~= Seq::empty());
        assert(db@.users =~= Seq::empty());
        db
    }

    /// Sets the clock that stamps the rows written from now on.
    pub fn set_time(&mut self, now: u64)
        ensures
            final(self)@ == (DatabaseView { now, ..old(self)@ }),
    {
        self.now = now;
    }

    /// The position of the row claimed by `(caller_id, key)`.
    fn find_key(&self, caller_id: u128, key: &String) -> (found: Option<usize>)
        ensures
            match found {
                Some(i) => is_row_of(self@.idempotency, i as int, caller_id, key@),
                None => !self@.has_key(caller_id, key@),
            },
    {
        let mut i: usize = 0;
        while i < self.idempotency.len()
            invariant
                i <= self.idempotency.len(),
                forall|j: int| 0 <= j < i ==> !is_row_of(self@.idempotency, j, caller_id, key@),
            decreases self.idempotency.len() - i,
        {
            if self.idempotency[i].caller_id == caller_id && self.idempotency[i].key == *key {
                return Some(i);
            }
            i += 1;
        }
        None
    }
    /// The position of the issue with this id.
    fn find_issue(&self, id: u128) -> (found: Option<usize>)
        ensures
            match found {
                Some(i) => 0 <= i < self@.issues.len() && self@.issues[i as int].id == id,
                None => !self@.has_issue(id),
            },
    {
        let mut i: usize = 0;
        while i < self.issues.len()
            invariant
                i <= self.issues.len(),
                forall|j: int| 0 <= j < i ==> (#[trigger] self@.issues[j]).id != id,
            decreases self.issues.len() - i,
        {
            if self.issues[i].id == id {
                return Some(i);
            }
            i += 1;
        }
        None
    }

    /// Opens a transaction by claiming `(caller_id, key)` with a placeholder
    /// row. No transaction is opened when the key is taken, whether by a
    /// saved response or by a command in flight.
    pub fn begin_transaction(&mut self, caller_id: u128, key: &String) -> (opened: Option<
        Transaction,
    >)
        requires
            old(self)@.wf(),
        ensures
            final(self)@.wf(),
            match opened {
                Some(tx) => {
                    &&& !old(self)@.has_key(caller_id, key@)
                    &&& final(self)@ == old(self)@.claim(caller_id, key@)
                    &&& final(self)@.in_flight(caller_id, key@)
                    &&& tx@ == (TransactionView {
                        caller_id,
                        key: key@,
                        issue: None,
                        recipients: Seq::empty(),
                    })
                    &&& tx@.wf()
                },
                None => old(self)@.has_key(caller_id, key@) && final(self)@ == old(self)@,
            },
    {
        match self.find_key(caller_id, key) {
            Some(_) => None,
            None => {
                let row = IdempotencyRow {
                    caller_id,
                    key: key.clone(),
                    response: None,
                    created_at: self.now,
                };
                self.idempotency.push(row);
                let tx = Transaction {
                    caller_id,
                    key: key.clone(),
                    issue: None,
                    recipients: Vec::new(),
                };
                proof {
                    let pre = old(self)@;
                    let post = self@;
                    assert(post.idempotency =~= pre.idempotency.push(
                        placeholder(caller_id, key@, pre.now),
                    ));
                    assert(post.issues == pre.issues);
                    assert(post.queue == pre.queue);
                    assert(post.subscriptions == pre.subscriptions);
                    assert(post.tokens == pre.tokens);
                    assert(post.users == pre.users);
                    assert forall|i: int, j: int|
                        #![trigger post.idempotency[i], post.idempotency[j]]
                        0 <= i < j < post.idempotency.len() implies !(post.idempotency[i].caller_id
                        == post.idempotency[j].caller_id && post.idempotency[i].key
                        == post.idempotency[j].key) by {
                        if j == pre.idempotency.len() {
                            assert(!is_row_of(pre.idempotency, i, caller_id, key@));
                        } else {
                            assert(post.idempotency[i] == pre.idempotency[i]);
                            assert(post.idempotency[j] == pre.idempotency[j]);
                        }
                    }
                    lemma_key_position(post, pre.idempotency.len() as int, caller_id, key@);
                    assert(tx@.recipients =~= Seq::empty());
                }
                Some(tx)
            },
        }
    }

    /// Reads the response saved under `(caller_id, key)`.
    pub fn saved_response(&self, caller_id: u128, key: &String) -> (saved: Option<Response>)
        requires
            self@.wf(),
        ensures
            option_view(saved) == self@.saved_response(caller_id, key@),
            saved is None ==> (self@.has_key(caller_id, key@) <==> self@.in_flight(
                caller_id,
                key@,
            )),
    {
        match self.find_key(caller_id, key) {
            Some(i) => {
                proof {
                    lemma_key_position(self@, i as int, caller_id, key@);
                }
                match &self.idempotency[i].response {
                    Some(response) => Some(response.duplicate()),
                    None => None,
                }
            },
            None => None,
        }
    }

    /// Ends `tx` without making any of its writes durable: the placeholder is
    /// withdrawn and the store is as if the transaction had never begun.
    pub fn rollback(&mut self, tx: Transaction)
        requires
            old(self)@.wf(),
        ensures
            final(self)@.wf(),
            final(self)@ == old(self)@.release(tx@.caller_id, tx@.key),
    {
        self.withdraw(tx.caller_id, &tx.key);
    }

    /// Removes the placeholder of `(caller_id, key)`, if there is one.
    fn withdraw(&mut self, caller_id: u128, key: &String)
        requires
            old(self)@.wf(),
        ensures
            final(self)@.wf(),
            final(self)@ == old(self)@.release(caller_id, key@),
    {
        match self.find_key(caller_id, key) {
            Some(i) => {
                proof {
                    lemma_key_position(self@, i as int, caller_id, key@);
                }
                if self.idempotency[i].response.is_none() {
                    self.idempotency.remove(i);
                    proof {
                        let pre = old(self)@;
                        let post = self@;
                        assert(post.idempotency =~= pre.idempotency.remove(i as int));
                        assert(post.issues == pre.issues);
                        assert(post.queue == pre.queue);
                        assert(post.subscriptions == pre.subscriptions);
                        assert(post.tokens == pre.tokens);
                    assert(post.users == pre.users);
                        assert forall|a: int, b: int|
                            #![trigger post.idempotency[a], post.idempotency[b]]
                            0 <= a < b < post.idempotency.len() implies !(
                        post.idempotency[a].caller_id == post.idempotency[b].caller_id
                            && post.idempotency[a].key == post.idempotency[b].key) by {
                            let a0 = if a < i { a } else { a + 1 };
                            let b0 = if b < i { b } else { b + 1 };
                            assert(post.idempotency[a] == pre.idempotency[a0]);
                            assert(post.idempotency[b] == pre.idempotency[b0]);
                        }
                    }
                }
            },
            None => {},
        }
    }
    /// Makes the writes of `tx` durable, all of them at once: the placeholder
    /// is filled with `response`, the issue is stored and its tasks are
    /// queued. When the claim is no longer in flight nothing changes; when
    /// the issue's id has been taken meanwhile the transaction is rolled
    /// back instead.
    pub fn commit(&mut self, tx: Transaction, response: Response) -> (done: Result<
        (),
        PersistenceError,
    >)
        requires
            old(self)@.wf(),
            tx@.wf(),
        ensures
            final(self)@.wf(),
            match done {
                Ok(()) => old(self)@.can_commit(tx@) && final(self)@ == old(self)@.commit(
                    tx@,
                    response@,
                ),
                Err(PersistenceError::StaleTransaction) => !old(self)@.in_flight(
                    tx@.caller_id,
                    tx@.key,
                ) && final(self)@ == old(self)@,
                Err(reason) => reason == PersistenceError::DuplicateKey && old(self)@.in_flight(
                    tx@.caller_id,
                    tx@.key,
                ) && !old(self)@.can_commit(tx@) && final(self)@ == old(self)@.release(
                    tx@.caller_id,
                    tx@.key,
                ),
            },
    {
        let ghost pre = self@;
        let i = match self.find_key(tx.caller_id, &tx.key) {
            Some(i) => i,
            None => {
                return Err(PersistenceError::StaleTransaction);
            },
        };
        proof {
            lemma_key_position(pre, i as int, tx@.caller_id, tx@.key);
        }
        if self.idempotency[i].response.is_some() {
            return Err(PersistenceError::StaleTransaction);
        }
        let Transaction { caller_id, key, issue, recipients } = tx;
        let issue = match issue {
            Some(issue) => {
                if self.find_issue(issue.id).is_some() {
                    self.withdraw(caller_id, &key);
                    return Err(PersistenceError::DuplicateKey);
                }
                issue
            },
            None => {
                let created_at = self.idempotency[i].created_at;
                self.idempotency.set(
                    i,
                    IdempotencyRow { caller_id, key, response: Some(response), created_at },
                );
                proof {
                    let post = self@;
                    assert(post.idempotency =~= pre.commit(tx@, response@).idempotency);
                    assert(post.issues == pre.issues);
                    assert(post.queue == pre.queue);
                    assert(post.subscriptions == pre.subscriptions);
                    assert(post.tokens == pre.tokens);
                    assert(post.users == pre.users);
                    assert forall|a: int, b: int|
                        #![trigger post.idempotency[a], post.idempotency[b]]
                        0 <= a < b < post.idempotency.len() implies !(post.idempotency[a].caller_id
                        == post.idempotency[b].caller_id && post.idempotency[a].key
                        == post.idempotency[b].key) by {
                        assert(post.idempotency[a].caller_id == pre.idempotency[a].caller_id);
                        assert(post.idempotency[a].key == pre.idempotency[a].key);
                        assert(post.idempotency[b].caller_id == pre.idempotency[b].caller_id);
                        assert(post.idempotency[b].key == pre.idempotency[b].key);
                    }
                }
                return Ok(());
            },
        };
        let created_at = self.idempotency[i].created_at;
        self.idempotency.set(
            i,
            IdempotencyRow { caller_id, key, response: Some(response), created_at },
        );
        let issue_id = issue.id;
        let ghost issue_view = issue@;
        self.issues.push(issue);
        let ghost staged = texts(recipients@);
        let mut k: usize = 0;
        proof {
            assert(self@.idempotency =~= pre.commit(tx@, response@).idempotency);
            assert(self@.issues =~= pre.issues.push(issue_view));
            assert(self@.queue =~= pre.queue + tasks_for(issue_id, staged.take(0)));
            assert(self@.subscriptions == pre.subscriptions);
            assert(self@.tokens == pre.tokens);
            assert(self@.users == pre.users);
        }
        while k < recipients.len()
            invariant
                k <= recipients.len(),
                staged == texts(recipients@),
                self@.queue == pre.queue + tasks_for(issue_id, staged.take(k as int)),
                self@.idempotency == pre.commit(tx@, response@).idempotency,
                self@.issues == pre.issues.push(issue_view),
                self@.subscriptions == pre.subscriptions,
                self@.tokens == pre.tokens,
                self@.users == pre.users,
                self@.now == pre.now,
            decreases recipients.len() - k,
        {
            let ghost before = self@;
            self.queue.push(
                DeliveryTask {
                    issue_id,
                    subscriber_email: recipients[k].clone(),
                    attempts: 0,
                    locked: false,
                },
            );
            proof {
                let after = self@;
                assert(after.queue =~= before.queue.push(new_task(issue_id, staged[k as int])));
                assert(tasks_for(issue_id, staged.take(k + 1)) =~= tasks_for(
                    issue_id,
                    staged.take(k as int),
                ).push(new_task(issue_id, staged[k as int])));
                assert(after.queue =~= pre.queue + tasks_for(issue_id, staged.take(k + 1)));
                assert(after.idempotency == before.idempotency);
                assert(after.issues == before.issues);
                assert(after.subscriptions == before.subscriptions);
                assert(after.tokens == before.tokens);
                assert(after.users == before.users);
            }
            k += 1;
        }
        proof {
            assert(staged.take(k as int) =~= staged);
            lemma_commit_wf(pre, tx@, response@);
        }
        Ok(())
    }
    /// The position of the task `(issue_id, email)`.
    fn find_task(&self, issue_id: u128, email: &String) -> (found: Option<usize>)
        ensures
            match found {
                Some(i) => is_task_of(self@.queue, i as int, issue_id, email@),
                None => !self@.has_task(issue_id, email@),
            },
    {
        let mut i: usize = 0;
        while i < self.queue.len()
            invariant
                i <= self.queue.len(),
                forall|j: int| 0 <= j < i ==> !is_task_of(self@.queue, j, issue_id, email@),
            decreases self.queue.len() - i,
        {
            if self.queue[i].issue_id == issue_id && self.queue[i].subscriber_email == *email {
                return Some(i);
            }
            i += 1;
        }
        None
    }

    /// Takes hold of the first task that no worker holds, so that no other
    /// worker can claim it until it is deleted or handed back.
    pub fn claim_task(&mut self) -> (claimed: Option<DeliveryTask>)
        requires
            old(self)@.wf(),
        ensures
            final(self)@.wf(),
            match claimed {
                Some(task) => {
                    &&& old(self)@.has_claimable()
                    &&& task@ == old(self)@.queue[old(self)@.claimable_position()]
                    &&& final(self)@ == old(self)@.lock_task(old(self)@.claimable_position())
                    &&& final(self)@.has_task(task@.issue_id, task@.subscriber_email)
                    &&& final(self)@.has_issue(task@.issue_id)
                },
                None => !old(self)@.has_claimable() && final(self)@ == old(self)@,
            },
    {
        let mut i: usize = 0;
        while i < self.queue.len()
            invariant
                i <= self.queue.len(),
                *self == *old(self),
                old(self)@.wf(),
                forall|j: int| 0 <= j < i ==> (#[trigger] self@.queue[j]).locked,
            decreases self.queue.len() - i,
        {
            if !self.queue[i].locked {
                let task = self.queue[i].duplicate();
                let held = DeliveryTask {
                    issue_id: task.issue_id,
                    subscriber_email: task.subscriber_email.clone(),
                    attempts: task.attempts,
                    locked: true,
                };
                self.queue.set(i, held);
                proof {
                    let pre = old(self)@;
                    let post = self@;
                    lemma_claimable_position(pre, i as int);
                    assert(post.queue =~= pre.lock_task(i as int).queue);
                    assert(post.idempotency == pre.idempotency);
                    assert(post.issues == pre.issues);
                    assert(post.subscriptions == pre.subscriptions);
                    assert(post.tokens == pre.tokens);
                    assert(post.users == pre.users);
                    lemma_task_update_wf(
                        pre,
                        i as int,
                        TaskView { locked: true, ..pre.queue[i as int] },
                    );
                    assert(is_task_of(post.queue, i as int, task@.issue_id, task@.subscriber_email));
                    lemma_same_issues(pre, post, pre.queue[i as int].issue_id);
                }
                return Some(task);
            }
            i += 1;
        }
        None
    }

    /// Deletes the task `(issue_id, email)`. Tells whether a row was deleted.
    pub fn delete_task(&mut self, issue_id: u128, email: &String) -> (deleted: bool)
        requires
            old(self)@.wf(),
        ensures
            final(self)@.wf(),
            deleted == old(self)@.has_task(issue_id, email@),
            final(self)@ == old(self)@.without_task(issue_id, email@),
    {
        match self.find_task(issue_id, email) {
            Some(i) => {
                self.queue.remove(i);
                proof {
                    let pre = old(self)@;
                    let post = self@;
                    lemma_task_position(pre, i as int, issue_id, email@);
                    assert(post.queue =~= pre.queue.remove(i as int));
                    assert(post.idempotency == pre.idempotency);
                    assert(post.issues == pre.issues);
                    assert(post.subscriptions == pre.subscriptions);
                    assert(post.tokens == pre.tokens);
                    assert(post.users == pre.users);
                    lemma_task_remove_wf(pre, i as int);
                }
                true
            },
            None => false,
        }
    }

    /// Hands the task `(issue_id, email)` back after a failed send: the
    /// failure is counted and the row can be claimed again. Tells whether the
    /// row was found.
    pub fn record_failed_attempt(&mut self, issue_id: u128, email: &String) -> (found: bool)
        requires
            old(self)@.wf(),
        ensures
            final(self)@.wf(),
            found == old(self)@.has_task(issue_id, email@),
            final(self)@ == old(self)@.with_failed_attempt(issue_id, email@),
    {
        match self.find_task(issue_id, email) {
            Some(i) => {
                let attempts = self.queue[i].attempts;
                let counted = if attempts < u32::MAX {
                    attempts + 1
                } else {
                    attempts
                };
                let returned = DeliveryTask {
                    issue_id,
                    subscriber_email: self.queue[i].subscriber_email.clone(),
                    attempts: counted,
                    locked: false,
                };
                self.queue.set(i, returned);
                proof {
                    let pre = old(self)@;
                    let post = self@;
                    lemma_task_position(pre, i as int, issue_id, email@);
                    assert(post.queue =~= pre.with_failed_attempt(issue_id, email@).queue);
                    assert(post.idempotency == pre.idempotency);
                    assert(post.issues == pre.issues);
                    assert(post.subscriptions == pre.subscriptions);
                    assert(post.tokens == pre.tokens);
                    assert(post.users == pre.users);
                    lemma_task_update_wf(
                        pre,
                        i as int,
                        TaskView {
                            locked: false,
                            attempts: next_attempt(pre.queue[i as int].attempts),
                            ..pre.queue[i as int]
                        },
                    );
                }
                true
            },
            None => false,
        }
    }

    /// Reads the issue with this id.
    pub fn get_issue(&self, id: u128) -> (issue: Option<NewsletterIssue>)
        requires
            self@.wf(),
        ensures
            match issue {
                Some(issue) => self@.has_issue(id) && issue@ == self@.issues[self@.issue_position(
                    id,
                )],
                None => !self@.has_issue(id),
            },
    {
        match self.find_issue(id) {
            Some(i) => {
                proof {
                    lemma_issue_position(self@, i as int, id);
                }
                Some(self.issues[i].duplicate())
            },
            None => None,
        }
    }

    /// The position of the subscription with this id.
    fn find_subscription(&self, id: u128) -> (found: Option<usize>)
        ensures
            match found {
                Some(i) => 0 <= i < self@.subscriptions.len() && self@.subscriptions[i as int].id
                    == id,
                None => !self@.has_subscription(id),
            },
    {
        let mut i: usize = 0;
        while i < self.subscriptions.len()
            invariant
                i <= self.subscriptions.len(),
                forall|j: int| 0 <= j < i ==> (#[trigger] self@.subscriptions[j]).id != id,
            decreases self.subscriptions.len() - i,
        {
            if self.subscriptions[i].id == id {
                return Some(i);
            }
            i += 1;
        }
        None
    }

    /// The position of this confirmation token.
    fn find_token(&self, token: &String) -> (found: Option<usize>)
        ensures
            match found {
                Some(i) => 0 <= i < self@.tokens.len() && self@.tokens[i as int].token == token@,
                None => !self@.has_token(token@),
            },
    {
        let mut i: usize = 0;
        while i < self.tokens.len()
            invariant
                i <= self.tokens.len(),
                forall|j: int| 0 <= j < i ==> (#[trigger] self@.tokens[j]).token != token@,
            decreases self.tokens.len() - i,
        {
            if self.tokens[i].token == *token {
                return Some(i);
            }
            i += 1;
        }
        None
    }

    /// Stores a new subscription, pending confirmation, together with the
    /// token that confirms it: both rows or neither. The write is refused
    /// when the id or the token is taken.
    pub fn register_subscription(
        &mut self,
        id: u128,
        email: String,
        name: String,
        token: String,
    ) -> (stored: Result<(), PersistenceError>)
        requires
            old(self)@.wf(),
        ensures
            final(self)@.wf(),
            match stored {
                Ok(()) => {
                    &&& !old(self)@.has_subscription(id)
                    &&& !old(self)@.has_token(token@)
                    &&& final(self)@ == old(self)@.register(id, email@, name@, token@)
                },
                Err(reason) => {
                    &&& reason == PersistenceError::DuplicateKey
                    &&& old(self)@.has_subscription(id) || old(self)@.has_token(token@)
                    &&& final(self)@ == old(self)@
                },
            },
    {
        if self.find_subscription(id).is_some() || self.find_token(&token).is_some() {
            return Err(PersistenceError::DuplicateKey);
        }
        let ghost email_text = email@;
        let ghost name_text = name@;
        let ghost token_text = token@;
        self.subscriptions.push(
            Subscription {
                id,
                email,
                name,
                subscribed_at: self.now,
                status: SubscriptionStatus::PendingConfirmation,
            },
        );
        self.tokens.push(SubscriptionToken { token, subscriber_id: id });
        proof {
            let pre = old(self)@;
            let post = self@;
            let goal = pre.register(id, email_text, name_text, token_text);
            assert(post.subscriptions =~= goal.subscriptions);
            assert(post.tokens =~= goal.tokens);
            assert(post.users == pre.users);
            assert(post.idempotency == pre.idempotency);
            assert(post.issues == pre.issues);
            assert(post.queue == pre.queue);
            lemma_register_wf(pre, id, email_text, name_text, token_text);
        }
        Ok(())
    }

    /// Reads the subscription that `token` confirms.
    pub fn subscriber_id_from_token(&self, token: &String) -> (id: Option<u128>)
        requires
            self@.wf(),
        ensures
            id == self@.subscriber_of(token@),
    {
        match self.find_token(token) {
            Some(i) => {
                proof {
                    lemma_token_position(self@, i as int, token@);
                }
                Some(self.tokens[i].subscriber_id)
            },
            None => None,
        }
    }

    /// Marks the subscription `id` as confirmed. Tells whether a row was
    /// found; confirming twice changes nothing more.
    pub fn confirm_subscriber(&mut self, id: u128) -> (found: bool)
        requires
            old(self)@.wf(),
        ensures
            final(self)@.wf(),
            found == old(self)@.has_subscription(id),
            final(self)@ == old(self)@.confirm(id),
    {
        match self.find_subscription(id) {
            Some(i) => {
                let confirmed = Subscription {
                    id,
                    email: self.subscriptions[i].email.clone(),
                    name: self.subscriptions[i].name.clone(),
                    subscribed_at: self.subscriptions[i].subscribed_at,
                    status: SubscriptionStatus::Confirmed,
                };
                self.subscriptions.set(i, confirmed);
                proof {
                    let pre = old(self)@;
                    let post = self@;
                    lemma_subscription_position(pre, i as int, id);
                    assert(post.subscriptions =~= pre.confirm(id).subscriptions);
                    assert(post.idempotency == pre.idempotency);
                    assert(post.issues == pre.issues);
                    assert(post.queue == pre.queue);
                    assert(post.tokens == pre.tokens);
                    assert(post.users == pre.users);
                    lemma_confirm_wf(pre, id);
                }
                true
            },
            None => false,
        }
    }
    /// Reads the addresses of the confirmed subscriptions, in table order.
    pub fn confirmed_subscribers(&self) -> (emails: Vec<String>)
        ensures
            texts(emails@) == confirmed_emails(self@.subscriptions),
    {
        let ghost subscribers = self@.subscriptions;
        let mut emails: Vec<String> = Vec::new();
        let mut i: usize = 0;
        assert(subscribers.take(0) =~= Seq::empty());
        while i < self.subscriptions.len()
            invariant
                i <= self.subscriptions.len(),
                subscribers == self@.subscriptions,
                texts(emails@) == confirmed_emails(subscribers.take(i as int)),
            decreases self.subscriptions.len() - i,
        {
            let ghost confirmed = |s: SubscriptionView| s.status == SubscriptionStatus::Confirmed;
            let ghost address = |s: SubscriptionView| s.email;
            let ghost seen = subscribers.take(i as int);
            proof {
                assert(subscribers.take(i + 1) =~= seen.push(subscribers[i as int]));
                seen.lemma_filter_push(subscribers[i as int], confirmed);
                seen.filter(confirmed).lemma_push_map_commute(address, subscribers[i as int]);
            }
            if self.subscriptions[i].status == SubscriptionStatus::Confirmed {
                let email = self.subscriptions[i].email.clone();
                assert(texts(emails@.push(email)) =~= texts(emails@).push(email@));
                emails.push(email);
            }
            i += 1;
        }
        assert(subscribers.take(i as int) =~= subscribers);
        emails
    }

    /// The time on the store's clock.
    pub fn now(&self) -> (now: u64)
        ensures
            now == self@.now,
    {
        self.now
    }

    /// How many rows the idempotency table holds, placeholders included.
    pub fn idempotency_count(&self) -> (count: usize)
        ensures
            count == self@.idempotency.len(),
    {
        self.idempotency.len()
    }

    /// How many issues are stored.
    pub fn issue_count(&self) -> (count: usize)
        ensures
            count == self@.issues.len(),
    {
        self.issues.len()
    }

    /// How many tasks are queued.
    pub fn queue_len(&self) -> (count: usize)
        ensures
            count == self@.queue.len(),
    {
        self.queue.len()
    }

    /// How many subscriptions are stored.
    pub fn subscription_count(&self) -> (count: usize)
        ensures
            count == self@.subscriptions.len(),
    {
        self.subscriptions.len()
    }

    /// The task at `position` of the queue.
    pub fn task(&self, position: usize) -> (task: Option<DeliveryTask>)
        ensures
            match task {
                Some(task) => position < self@.queue.len() && task@ == self@.queue[position as int],
                None => position >= self@.queue.len(),
            },
    {
        if position < self.queue.len() {
            Some(self.queue[position].duplicate())
        } else {
            None
        }
    }

    /// The subscription at `position` of its table.
    pub fn subscription(&self, position: usize) -> (subscription: Option<Subscription>)
        ensures
            match subscription {
                Some(subscription) => position < self@.subscriptions.len() && subscription@
                    == self@.subscriptions[position as int],
                None => position >= self@.subscriptions.len(),
            },
    {
        if position < self.subscriptions.len() {
            let row = &self.subscriptions[position];
            Some(
                Subscription {
                    id: row.id,
                    email: row.email.clone(),
                    name: row.name.clone(),
                    subscribed_at: row.subscribed_at,
                    status: row.status,
                },
            )
        } else {
            None
        }
    }
    /// The position of the user with this id.
    fn find_user(&self, user_id: u128) -> (found: Option<usize>)
        ensures
            match found {
                Some(i) => 0 <= i < self@.users.len() && self@.users[i as int].user_id == user_id,
                None => !self@.has_user(user_id),
            },
    {
        let mut i: usize = 0;
        while i < self.users.len()
            invariant
                i <= self.users.len(),
                forall|j: int| 0 <= j < i ==> (#[trigger] self@.users[j]).user_id != user_id,
            decreases self.users.len() - i,
        {
            if self.users[i].user_id == user_id {
                return Some(i);
            }
            i += 1;
        }
        None
    }

    /// The position of the user with this name.
    fn find_username(&self, username: &String) -> (found: Option<usize>)
        ensures
            match found {
                Some(i) => 0 <= i < self@.users.len() && self@.users[i as int].username
                    == username@,
                None => !self@.has_username(username@),
            },
    {
        let mut i: usize = 0;
        while i < self.users.len()
            invariant
                i <= self.users.len(),
                forall|j: int| 0 <= j < i ==> (#[trigger] self@.users[j]).username != username@,
            decreases self.users.len() - i,
        {
            if self.users[i].username == *username {
                return Some(i);
            }
            i += 1;
        }
        None
    }

    /// Stores a user. The write is refused when the id or the name is taken.
    pub fn add_user(&mut self, user_id: u128, username: String, password_hash: String) -> (stored:
        Result<(), PersistenceError>)
        requires
            old(self)@.wf(),
        ensures
            final(self)@.wf(),
            match stored {
                Ok(()) => {
                    &&& !old(self)@.has_user(user_id)
                    &&& !old(self)@.has_username(username@)
                    &&& final(self)@ == old(self)@.with_user(
                        UserView { user_id, username: username@, password_hash: password_hash@ },
                    )
                },
                Err(reason) => {
                    &&& reason == PersistenceError::DuplicateKey
                    &&& old(self)@.has_user(user_id) || old(self)@.has_username(username@)
                    &&& final(self)@ == old(self)@
                },
            },
    {
        if self.find_user(user_id).is_some() || self.find_username(&username).is_some() {
            return Err(PersistenceError::DuplicateKey);
        }
        let ghost user = UserView { user_id, username: username@, password_hash: password_hash@ };
        self.users.push(User { user_id, username, password_hash });
        proof {
            let pre = old(self)@;
            let post = self@;
            assert(post.users =~= pre.with_user(user).users);
            assert(post.idempotency == pre.idempotency);
            assert(post.issues == pre.issues);
            assert(post.queue == pre.queue);
            assert(post.subscriptions == pre.subscriptions);
            assert(post.tokens == pre.tokens);
            lemma_with_user_wf(pre, user);
        }
        Ok(())
    }

    /// Reads the user that `username` names.
    pub fn user_by_name(&self, username: &String) -> (user: Option<User>)
        requires
            self@.wf(),
        ensures
            option_view(user) == self@.user_named(username@),
    {
        match self.find_username(username) {
            Some(i) => {
                proof {
                    lemma_username_position(self@, i as int, username@);
                }
                Some(
                    User {
                        user_id: self.users[i].user_id,
                        username: self.users[i].username.clone(),
                        password_hash: self.users[i].password_hash.clone(),
                    },
                )
            },
            None => None,
        }
    }

    /// Reads the user with this id.
    pub fn user_by_id(&self, user_id: u128) -> (user: Option<User>)
        requires
            self@.wf(),
        ensures
            option_view(user) == self@.user(user_id),
    {
        match self.find_user(user_id) {
            Some(i) => {
                proof {
                    lemma_user_position(self@, i as int, user_id);
                }
                Some(
                    User {
                        user_id: self.users[i].user_id,
                        username: self.users[i].username.clone(),
                        password_hash: self.users[i].password_hash.clone(),
                    },
                )
            },
            None => None,
        }
    }

    /// Replaces the password hash of the user `user_id`. Tells whether the
    /// user was found.
    pub fn set_password_hash(&mut self, user_id: u128, password_hash: String) -> (found: bool)
        requires
            old(self)@.wf(),
        ensures
            final(self)@.wf(),
            found == old(self)@.has_user(user_id),
            final(self)@ == old(self)@.with_password_hash(user_id, password_hash@),
    {
        match self.find_user(user_id) {
            Some(i) => {
                let ghost hash = password_hash@;
                let updated = User {
                    user_id,
                    username: self.users[i].username.clone(),
                    password_hash,
                };
                self.users.set(i, updated);
                proof {
                    let pre = old(self)@;
                    let post = self@;
                    lemma_user_position(pre, i as int, user_id);
                    assert(post.users =~= pre.with_password_hash(user_id, hash).users);
                    assert(post.idempotency == pre.idempotency);
                    assert(post.issues == pre.issues);
                    assert(post.queue == pre.queue);
                    assert(post.subscriptions == pre.subscriptions);
                    assert(post.tokens == pre.tokens);
                    lemma_with_password_hash_wf(pre, user_id, hash);
                }
                true
            },
            None => false,
        }
    }
}

} // verus!
