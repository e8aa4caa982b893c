//! The delivery worker: it claims one queued task at a time, sends the
//! issue, and deletes the task or keeps it for another try.

use crate::database::{
    lemma_first_claimable, lemma_issue_position, lemma_same_issues, lemma_task_position,
    lemma_task_remove_wf, lemma_task_update_wf, next_attempt, Database, DatabaseView, IssueView,
    TaskView,
};
use crate::domain::{is_valid_email, SubscriberEmail};
use crate::email_client::{EmailGateway, EmailGatewayView, EmailView};
use crate::guarantees::{
    healthy_drain_delivers_each_task_once, lemma_all_held, worker_keeps_held_tasks,
};
use vstd::prelude::*;

verus! {

/// How one unit of the worker's work ended.
#[derive(Debug, Clone, Copy, PartialEq, Eq, Structural)]
pub enum ExecutionOutcome {
    /// A task was claimed and is settled for good: the message was accepted
    /// by the gateway, or the address was invalid and can never be sent to.
    /// The task is deleted.
    TaskCompleted,
    /// A task was claimed and the send failed. The task stays queued for
    /// another try, unless its retries are used up: then it is deleted.
    TaskFailed,
    /// No task could be claimed.
    EmptyQueue,
}

/// How often a failed send is tried again.
#[derive(Debug, Clone, Copy, PartialEq, Eq, Structural)]
pub struct RetryPolicy {
    /// The number of failed sends after which a task is still kept. One
    /// failure more and the task is dropped.
    pub max_retries: u32,
}

/// What becomes of a task after a send.
#[derive(Debug, Clone, Copy, PartialEq, Eq, Structural)]
pub enum Disposition {
    /// The task is deleted: it is done, or given up.
    Delete,
    /// The task is kept, with one more failure counted.
    Retry,
}

impl RetryPolicy {
    /// Whether a task that failed `attempts` times before is kept after one
    /// more failure.
    pub open spec fn permits_retry(self, attempts: u32) -> bool {
        attempts < self.max_retries
    }

    /// What becomes of a task that failed `attempts` times before, after a
    /// send that was accepted (`sent`) or failed.
    pub open spec fn disposition(self, attempts: u32, sent: bool) -> Disposition {
        if !sent && self.permits_retry(attempts) {
            Disposition::Retry
        } else {
            Disposition::Delete
        }
    }

    /// Decides what becomes of a task after a send.
    pub fn settle(&self, attempts: u32, sent: bool) -> (disposition: Disposition)
        ensures
            disposition == self.disposition(attempts, sent),
    {
        if !sent && attempts < self.max_retries {
            Disposition::Retry
        } else {
            Disposition::Delete
        }
    }
}

/// The count of failed sends that a stored counter stands for. A counter
/// below zero is no count: it is read as the largest count, so that the task
/// is not tried again.
pub fn stored_attempts(counter: i32) -> (attempts: u32)
    ensures
        attempts == if counter < 0 {
            u32::MAX
        } else {
            counter as u32
        },
{
    if counter < 0 {
        u32::MAX
    } else {
        counter as u32
    }
}

/// The outcome that is reported for a send.
pub open spec fn outcome_of(sent: bool) -> ExecutionOutcome {
    if sent {
        ExecutionOutcome::TaskCompleted
    } else {
        ExecutionOutcome::TaskFailed
    }
}

/// The message that delivers `issue` to the recipient of `task`.
pub open spec fn email_for(task: TaskView, issue: IssueView) -> EmailView {
    EmailView {
        recipient: task.subscriber_email,
        subject: issue.title,
        html_content: issue.html_content,
        text_content: issue.text_content,
    }
}

/// The state of the world after one unit of work: the store, the gateway and
/// the outcome that is reported.
pub struct WorkerStep {
    pub db: DatabaseView,
    pub gateway: EmailGatewayView,
    pub outcome: ExecutionOutcome,
}

/// One unit of work: the first task that no worker holds is claimed. An
/// invalid address settles the task without a send. Otherwise the issue is
/// sent; the task is deleted when the gateway accepts the message or the
/// retries are used up, and kept with the failure counted otherwise.
pub open spec fn execute_task(
    db: DatabaseView,
    gateway: EmailGatewayView,
    policy: RetryPolicy,
) -> WorkerStep {
    if !db.has_claimable() {
        WorkerStep { db, gateway, outcome: ExecutionOutcome::EmptyQueue }
    } else {
        let task = db.queue[db.claimable_position()];
        let issue = db.issues[db.issue_position(task.issue_id)];
        let deleted = db.without_task(task.issue_id, task.subscriber_email);
        if !is_valid_email(task.subscriber_email) {
            WorkerStep { db: deleted, gateway, outcome: ExecutionOutcome::TaskCompleted }
        } else {
            WorkerStep {
                db: match policy.disposition(task.attempts, gateway.available) {
                    Disposition::Delete => deleted,
                    Disposition::Retry => db.with_failed_attempt(
                        task.issue_id,
                        task.subscriber_email,
                    ),
                },
                gateway: gateway.send(email_for(task, issue)),
                outcome: outcome_of(gateway.available),
            }
        }
    }
}

/// Deleting a task that a worker holds leaves the store as if the task had
/// been deleted without being claimed.
pub proof fn lemma_delete_claimed(db: DatabaseView, position: int)
    requires
        db.wf(),
        0 <= position < db.queue.len(),
    ensures
        db.lock_task(position).without_task(
            db.queue[position].issue_id,
            db.queue[position].subscriber_email,
        ) == db.without_task(db.queue[position].issue_id, db.queue[position].subscriber_email),
{
    let task = db.queue[position];
    let held = db.lock_task(position);
    lemma_task_update_wf(db, position, TaskView { locked: true, ..task });
    lemma_task_position(db, position, task.issue_id, task.subscriber_email);
    lemma_task_position(held, position, task.issue_id, task.subscriber_email);
    assert(held.queue.remove(position) =~= db.queue.remove(position));
}

/// Handing back a task that a worker holds leaves the store as if the
/// failure had been counted without the task being claimed.
pub proof fn lemma_fail_claimed(db: DatabaseView, position: int)
    requires
        db.wf(),
        0 <= position < db.queue.len(),
    ensures
        db.lock_task(position).with_failed_attempt(
            db.queue[position].issue_id,
            db.queue[position].subscriber_email,
        ) == db.with_failed_attempt(
            db.queue[position].issue_id,
            db.queue[position].subscriber_email,
        ),
{
    let task = db.queue[position];
    let held = db.lock_task(position);
    lemma_task_update_wf(db, position, TaskView { locked: true, ..task });
    lemma_task_position(db, position, task.issue_id, task.subscriber_email);
    lemma_task_position(held, position, task.issue_id, task.subscriber_email);
    assert(held.with_failed_attempt(task.issue_id, task.subscriber_email).queue
        =~= db.with_failed_attempt(task.issue_id, task.subscriber_email).queue);
}

/// Attempts one unit of work: claims a task, sends its issue through
/// `gateway` and settles the task by `policy`.
pub fn try_execute_task(db: &mut Database, gateway: &mut EmailGateway, policy: &RetryPolicy) -> (outcome:
    ExecutionOutcome)
    requires
        old(db)@.wf(),
    ensures
        final(db)@.wf(),
        (WorkerStep { db: final(db)@, gateway: final(gateway)@, outcome }) == execute_task(
            old(db)@,
            old(gateway)@,
            *policy,
        ),
{
    let ghost pre = db@;
    let task = match db.claim_task() {
        Some(task) => task,
        None => {
            return ExecutionOutcome::EmptyQueue;
        },
    };
    let ghost position = pre.claimable_position();
    proof {
        lemma_first_claimable(pre);
        lemma_delete_claimed(pre, position);
        lemma_fail_claimed(pre, position);
    }
    let recipient = match SubscriberEmail::parse(task.subscriber_email.clone()) {
        Ok(recipient) => recipient,
        Err(_) => {
            db.delete_task(task.issue_id, &task.subscriber_email);
            return ExecutionOutcome::TaskCompleted;
        },
    };
    let issue = match db.get_issue(task.issue_id) {
        Some(issue) => issue,
        // Every queued task refers to a stored issue.
        None => vstd::pervasive::unreached(),
    };
    proof {
        assert(db@.issues == pre.issues);
        lemma_same_issues(db@, pre, task.issue_id);
        lemma_issue_position(pre, db@.issue_position(task.issue_id), task.issue_id);
    }
    let sent = gateway.send_email(
        &recipient,
        issue.title.as_str(),
        issue.html_content.as_str(),
        issue.text_content.as_str(),
    ).is_ok();
    match policy.settle(task.attempts, sent) {
        Disposition::Delete => {
            db.delete_task(task.issue_id, &task.subscriber_email);
        },
        Disposition::Retry => {
            db.record_failed_attempt(task.issue_id, &task.subscriber_email);
        },
    }
    if sent {
        ExecutionOutcome::TaskCompleted
    } else {
        ExecutionOutcome::TaskFailed
    }
}

/// The store and the gateway, side by side.
pub struct World {
    pub db: DatabaseView,
    pub gateway: EmailGatewayView,
}

/// The world after `rounds` units of work, one after the other.
pub open spec fn after_rounds(
    db: DatabaseView,
    gateway: EmailGatewayView,
    policy: RetryPolicy,
    rounds: nat,
) -> World
    decreases rounds,
{
    if rounds == 0 {
        World { db, gateway }
    } else {
        let before = after_rounds(db, gateway, policy, (rounds - 1) as nat);
        let step = execute_task(before.db, before.gateway, policy);
        World { db: step.db, gateway: step.gateway }
    }
}

/// The tasks of `queue` that no worker holds, in order.
pub open spec fn free_tasks(queue: Seq<TaskView>) -> Seq<TaskView> {
    queue.filter(|task: TaskView| !task.locked)
}

/// The tasks of `queue` that some worker holds, in order.
pub open spec fn held_tasks(queue: Seq<TaskView>) -> Seq<TaskView> {
    queue.filter(|task: TaskView| task.locked)
}

/// The messages that deliver the tasks of `queue`, in order: one for each
/// task with a valid address, none for the others.
pub open spec fn messages_for(db: DatabaseView, queue: Seq<TaskView>) -> Seq<EmailView>
    decreases queue.len(),
{
    if queue.len() == 0 {
        Seq::empty()
    } else {
        let task = queue.last();
        let earlier = messages_for(db, queue.drop_last());
        if is_valid_email(task.subscriber_email) {
            earlier.push(email_for(task, db.issues[db.issue_position(task.issue_id)]))
        } else {
            earlier
        }
    }
}

/// The sends that a task may still cost: none while another worker holds
/// it, else one and one more for each retry it has left.
pub open spec fn sends_left(task: TaskView, policy: RetryPolicy) -> nat {
    if task.locked {
        0
    } else if task.attempts < policy.max_retries {
        (policy.max_retries - task.attempts + 1) as nat
    } else {
        1
    }
}

/// The sends that a queue may still cost: the sum over its tasks.
pub open spec fn remaining_work(queue: Seq<TaskView>, policy: RetryPolicy) -> nat
    decreases queue.len(),
{
    if queue.len() == 0 {
        0
    } else {
        remaining_work(queue.drop_last(), policy) + sends_left(queue.last(), policy)
    }
}

proof fn lemma_work_remove(queue: Seq<TaskView>, position: int, policy: RetryPolicy)
    requires
        0 <= position < queue.len(),
    ensures
        remaining_work(queue.remove(position), policy) + sends_left(queue[position], policy)
            == remaining_work(queue, policy),
    decreases queue.len(),
{
    if position == queue.len() - 1 {
        assert(queue.remove(position) =~= queue.drop_last());
    } else {
        lemma_work_remove(queue.drop_last(), position, policy);
        assert(queue.remove(position).drop_last() =~= queue.drop_last().remove(position));
        assert(queue.remove(position).last() == queue.last());
    }
}

proof fn lemma_work_update(queue: Seq<TaskView>, position: int, task: TaskView, policy: RetryPolicy)
    requires
        0 <= position < queue.len(),
    ensures
        remaining_work(queue.update(position, task), policy) + sends_left(queue[position], policy)
            == remaining_work(queue, policy) + sends_left(task, policy),
    decreases queue.len(),
{
    if position == queue.len() - 1 {
        assert(queue.update(position, task).drop_last() =~= queue.drop_last());
    } else {
        lemma_work_update(queue.drop_last(), position, task, policy);
        assert(queue.update(position, task).drop_last() =~= queue.drop_last().update(
            position,
            task,
        ));
        assert(queue.update(position, task).last() == queue.last());
    }
}

/// A unit of work that finds a task leaves strictly less work behind.
pub proof fn lemma_work_decreases(db: DatabaseView, gateway: EmailGatewayView, policy: RetryPolicy)
    requires
        db.wf(),
        db.has_claimable(),
    ensures
        remaining_work(execute_task(db, gateway, policy).db.queue, policy) < remaining_work(
            db.queue,
            policy,
        ),
{
    lemma_first_claimable(db);
    let position = db.claimable_position();
    let task = db.queue[position];
    lemma_task_position(db, position, task.issue_id, task.subscriber_email);
    lemma_work_remove(db.queue, position, policy);
    lemma_work_update(
        db.queue,
        position,
        TaskView { locked: false, attempts: next_attempt(task.attempts), ..task },
        policy,
    );
}

/// A unit of work keeps the store well formed.
pub proof fn lemma_execute_task_wf(db: DatabaseView, gateway: EmailGatewayView, policy: RetryPolicy)
    requires
        db.wf(),
    ensures
        execute_task(db, gateway, policy).db.wf(),
{
    if db.has_claimable() {
        lemma_first_claimable(db);
        let position = db.claimable_position();
        let task = db.queue[position];
        lemma_task_position(db, position, task.issue_id, task.subscriber_email);
        lemma_task_remove_wf(db, position);
        lemma_task_update_wf(
            db,
            position,
            TaskView { locked: false, attempts: next_attempt(task.attempts), ..task },
        );
    }
}

/// Works until no task can be claimed. Tells how many messages the gateway
/// accepted on the way. The loop ends because every unit of work deletes a
/// task or uses up one of its retries.
pub fn drain_queue(db: &mut Database, gateway: &mut EmailGateway, policy: &RetryPolicy) -> (sent:
    usize)
    requires
        old(db)@.wf(),
    ensures
        final(db)@.wf(),
        !final(db)@.has_claimable(),
        exists|rounds: nat|
            {
                &&& #[trigger] after_rounds(old(db)@, old(gateway)@, *policy, rounds) == (World {
                    db: final(db)@,
                    gateway: final(gateway)@,
                })
                &&& forall|earlier: nat|
                    earlier < rounds ==> (#[trigger] after_rounds(
                        old(db)@,
                        old(gateway)@,
                        *policy,
                        earlier,
                    )).db.has_claimable()
            },
        sent == final(gateway)@.delivered.len() - old(gateway)@.delivered.len(),
        final(db)@ == (DatabaseView { queue: held_tasks(old(db)@.queue), ..old(db)@ }),
        final(gateway)@ == (EmailGatewayView {
            delivered: if old(gateway)@.available {
                old(gateway)@.delivered + messages_for(old(db)@, free_tasks(old(db)@.queue))
            } else {
                old(gateway)@.delivered
            },
            ..old(gateway)@
        }),
{
    let before = gateway.delivered_count();
    let ghost mut rounds: nat = 0;
    loop
        invariant_except_break
            db@.wf(),
            after_rounds(old(db)@, old(gateway)@, *policy, rounds) == (World {
                db: db@,
                gateway: gateway@,
            }),
            forall|earlier: nat|
                earlier < rounds ==> (#[trigger] after_rounds(
                    old(db)@,
                    old(gateway)@,
                    *policy,
                    earlier,
                )).db.has_claimable(),
            before == old(gateway)@.delivered.len(),
            before <= gateway@.delivered.len(),
            held_tasks(db@.queue) == held_tasks(old(db)@.queue),
            db@ == (DatabaseView { queue: db@.queue, ..old(db)@ }),
            !old(gateway)@.available ==> gateway@ == old(gateway)@,
        ensures
            db@.wf(),
            !db@.has_claimable(),
            after_rounds(old(db)@, old(gateway)@, *policy, rounds) == (World {
                db: db@,
                gateway: gateway@,
            }),
            forall|earlier: nat|
                earlier < rounds ==> (#[trigger] after_rounds(
                    old(db)@,
                    old(gateway)@,
                    *policy,
                    earlier,
                )).db.has_claimable(),
            before == old(gateway)@.delivered.len(),
            before <= gateway@.delivered.len(),
            held_tasks(db@.queue) == held_tasks(old(db)@.queue),
            db@ == (DatabaseView { queue: db@.queue, ..old(db)@ }),
            !old(gateway)@.available ==> gateway@ == old(gateway)@,
        decreases remaining_work(db@.queue, *policy),
    {
        let ghost now = db@;
        let ghost gateway_now = gateway@;
        proof {
            if now.has_claimable() {
                lemma_work_decreases(now, gateway_now, *policy);
            }
            worker_keeps_held_tasks(now, gateway_now, *policy);
        }
        let outcome = try_execute_task(db, gateway, policy);
        match outcome {
            ExecutionOutcome::EmptyQueue => {
                break ;
            },
            _ => {},
        }
        proof {
            rounds = rounds + 1;
        }
    }
    proof {
        let start = old(db)@;
        let healthy = old(gateway)@;
        assert forall|i: int| 0 <= i < db@.queue.len() implies (#[trigger] db@.queue[i]).locked by {}
        lemma_all_held(db@.queue);
        if healthy.available {
            let n = free_tasks(start.queue).len();
            healthy_drain_delivers_each_task_once(start, healthy, *policy);
            let end = after_rounds(start, healthy, *policy, n);
            if rounds < n {
                let stopped = after_rounds(start, healthy, *policy, rounds);
                assert(execute_task(stopped.db, stopped.gateway, *policy).outcome
                    == ExecutionOutcome::TaskCompleted);
            } else if n < rounds {
                assert(end.db.has_claimable());
            }
            assert(rounds == n);
        }
    }
    gateway.delivered_count() - before
}

/// How long the worker waits before it polls again.
#[derive(Debug, Clone, Copy, PartialEq, Eq, Structural)]
pub struct PollingIntervals {
    /// The wait after the queue was found empty, in milliseconds.
    pub idle_milliseconds: u64,
    /// The wait after a send failed, in milliseconds.
    pub retry_milliseconds: u64,
}

/// What the worker does between two units of work.
#[derive(Debug, Clone, Copy, PartialEq, Eq, Structural)]
pub enum WorkerAction {
    /// Leave the loop.
    Stop,
    /// Attempt the next unit of work at once.
    PollAgain,
    /// Sleep, then attempt the next unit of work.
    Wait { milliseconds: u64 },
}

/// What the worker does after a unit of work: it stops when shutdown was
/// requested, goes on at once after a completed task, and waits after an
/// empty queue or a failed send.
pub open spec fn action_after(
    outcome: ExecutionOutcome,
    shutdown_requested: bool,
    intervals: PollingIntervals,
) -> WorkerAction {
    if shutdown_requested {
        WorkerAction::Stop
    } else {
        match outcome {
            ExecutionOutcome::TaskCompleted => WorkerAction::PollAgain,
            ExecutionOutcome::TaskFailed => WorkerAction::Wait {
                milliseconds: intervals.retry_milliseconds,
            },
            ExecutionOutcome::EmptyQueue => WorkerAction::Wait {
                milliseconds: intervals.idle_milliseconds,
            },
        }
    }
}

/// Decides what the worker does after a unit of work that ended with
/// `outcome`. The shutdown signal is looked at here, between two units of
/// work, and nowhere else: a task that was claimed is always settled first.
pub fn next_action(
    outcome: ExecutionOutcome,
    shutdown_requested: bool,
    intervals: &PollingIntervals,
) -> (action: WorkerAction)
    ensures
        action == action_after(outcome, shutdown_requested, *intervals),
{
    if shutdown_requested {
        WorkerAction::Stop
    } else {
        match outcome {
            ExecutionOutcome::TaskCompleted => WorkerAction::PollAgain,
            ExecutionOutcome::TaskFailed => WorkerAction::Wait {
                milliseconds: intervals.retry_milliseconds,
            },
            ExecutionOutcome::EmptyQueue => WorkerAction::Wait {
                milliseconds: intervals.idle_milliseconds,
            },
        }
    }
}

/// A unit of work leaves no task in the worker's hold: every task that is
/// held afterwards was held, unchanged, before.
pub proof fn lemma_no_task_stays_claimed(
    db: DatabaseView,
    gateway: EmailGatewayView,
    policy: RetryPolicy,
)
    requires
        db.wf(),
    ensures
        forall|i: int|
            0 <= i < execute_task(db, gateway, policy).db.queue.len() && (
            #[trigger] execute_task(db, gateway, policy).db.queue[i]).locked
                ==> db.queue.contains(execute_task(db, gateway, policy).db.queue[i]),
{
    let after = execute_task(db, gateway, policy).db;
    if db.has_claimable() {
        lemma_first_claimable(db);
        let position = db.claimable_position();
        let task = db.queue[position];
        lemma_task_position(db, position, task.issue_id, task.subscriber_email);
        assert forall|i: int| 0 <= i < after.queue.len() && (#[trigger] after.queue[i]).locked
            implies db.queue.contains(after.queue[i]) by {
            if after.queue.len() == db.queue.len() {
                assert(i != position);
                assert(after.queue[i] == db.queue[i]);
            } else {
                let i0 = if i < position { i } else { i + 1 };
                assert(after.queue[i] == db.queue[i0]);
            }
        }
    } else {
        assert forall|i: int| 0 <= i < after.queue.len() && (#[trigger] after.queue[i]).locked
            implies db.queue.contains(after.queue[i]) by {
            assert(after.queue[i] == db.queue[i]);
        }
    }
}

/// Runs the worker until shutdown is requested, which happens after
/// `shutdown_after` units of work. The waits between them take no part in
/// what the worker does to the store, so the result is that of
/// `shutdown_after` units of work in a row. The worker exits between two
/// units of work: no task is left in its hold.
pub fn run_worker_until_stopped(
    db: &mut Database,
    gateway: &mut EmailGateway,
    policy: &RetryPolicy,
    shutdown_after: u64,
)
    requires
        old(db)@.wf(),
    ensures
        final(db)@.wf(),
        after_rounds(old(db)@, old(gateway)@, *policy, shutdown_after as nat) == (World {
            db: final(db)@,
            gateway: final(gateway)@,
        }),
        forall|i: int|
            0 <= i < final(db)@.queue.len() && (#[trigger] final(db)@.queue[i]).locked ==> old(
                db,
            )@.queue.contains(final(db)@.queue[i]),
{
    let mut done: u64 = 0;
    while done < shutdown_after
        invariant
            done <= shutdown_after,
            db@.wf(),
            after_rounds(old(db)@, old(gateway)@, *policy, done as nat) == (World {
                db: db@,
                gateway: gateway@,
            }),
            forall|i: int|
                0 <= i < db@.queue.len() && (#[trigger] db@.queue[i]).locked ==> old(
                    db,
                )@.queue.contains(db@.queue[i]),
        decreases shutdown_after - done,
    {
        proof {
            lemma_no_task_stays_claimed(db@, gateway@, *policy);
        }
        try_execute_task(db, gateway, policy);
        done += 1;
    }
}

} // verus!
