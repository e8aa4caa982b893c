//! What the publishing path and the delivery worker guarantee together,
//! stated over the effects that their contracts name.

use crate::database::{
    confirmed_emails, is_row_of, lemma_commit_wf, lemma_first_claimable, lemma_issue_position,
    lemma_key_position, lemma_task_position, next_attempt, tasks_for, DatabaseView, TaskView,
    TransactionView,
};
use crate::domain::is_valid_email;
use crate::email_client::{EmailGatewayView, EmailView};
use crate::filters::{
    lemma_filter_keeps_all, lemma_filter_keeps_none, lemma_filtered_is_member,
    lemma_remove_first_filtered, lemma_remove_unfiltered, lemma_update_unfiltered,
};
use crate::http::ResponseView;
use crate::idempotency::{is_valid_key, CommandError};
use crate::issue_delivery_worker::{
    after_rounds, email_for, execute_task, free_tasks, held_tasks, lemma_execute_task_wf,
    messages_for, ExecutionOutcome, RetryPolicy,
};
use crate::routes::admin::newsletters::{
    accepted, issue_of, lemma_commit_is_published, lemma_release_undoes_claim, publish_effect,
    BodyData,
};
use vstd::prelude::*;

verus! {

/// A publish command that was carried out leaves a well-formed store in
/// which its response is saved under its key.
pub proof fn publish_saves_its_response(db: DatabaseView, caller_id: u128, id: u128, body: BodyData)
    requires
        db.wf(),
    ensures
        publish_effect(db, caller_id, id, body).db.wf(),
        publish_effect(db, caller_id, id, body).answer matches Ok(response) ==> publish_effect(
            db,
            caller_id,
            id,
            body,
        ).db.saved_response(caller_id, body.idempotency_key@) == Some(response),
{
    let key = body.idempotency_key@;
    let effect = publish_effect(db, caller_id, id, body);
    if effect.answer is Ok && !db.has_key(caller_id, key) {
        let issue = issue_of(db, id, body);
        let tx = TransactionView {
            caller_id,
            key,
            issue: Some(issue),
            recipients: confirmed_emails(db.subscriptions),
        };
        lemma_release_undoes_claim(db, caller_id, key);
        lemma_commit_is_published(db, caller_id, key, issue);
        let claimed = db.claim(caller_id, key);
        assert(claimed.issues == db.issues);
        if claimed.has_issue(id) {
            crate::database::lemma_same_issues(claimed, db, id);
        }
        lemma_commit_wf(claimed, tx, accepted());
        lemma_key_position(effect.db, db.idempotency.len() as int, caller_id, key);
    }
}

/// Sending a publish command again, under the same key and by the same
/// caller, gives the response of the first time and writes nothing: the
/// store after the second command is the store after the first. This holds
/// whatever the second command carries in its other fields.
pub proof fn publish_is_idempotent(
    db: DatabaseView,
    caller_id: u128,
    first_id: u128,
    first: BodyData,
    second_id: u128,
    second: BodyData,
)
    requires
        db.wf(),
        second.idempotency_key@ == first.idempotency_key@,
        publish_effect(db, caller_id, first_id, first).answer is Ok,
    ensures
        ({
            let once = publish_effect(db, caller_id, first_id, first);
            let twice = publish_effect(once.db, caller_id, second_id, second);
            twice.answer == once.answer && twice.db == once.db
        }),
{
    publish_saves_its_response(db, caller_id, first_id, first);
}

/// A response that is saved stays saved, unchanged, whatever publish command
/// comes after it.
pub proof fn saved_responses_are_kept(
    db: DatabaseView,
    owner_id: u128,
    owner_key: Seq<char>,
    caller_id: u128,
    id: u128,
    body: BodyData,
)
    requires
        db.wf(),
        db.saved_response(owner_id, owner_key) is Some,
    ensures
        publish_effect(db, caller_id, id, body).db.saved_response(owner_id, owner_key)
            == db.saved_response(owner_id, owner_key),
{
    let after = publish_effect(db, caller_id, id, body).db;
    if after != db {
        publish_saves_its_response(db, caller_id, id, body);
        let position = db.key_position(owner_id, owner_key);
        assert(is_row_of(db.idempotency, position, owner_id, owner_key));
        assert(after.idempotency[position] == db.idempotency[position]);
        lemma_key_position(after, position, owner_id, owner_key);
    }
}

/// A publish command under a malformed key is refused with the rule that the
/// key breaks, and the store is left as it was.
pub proof fn malformed_key_is_refused(db: DatabaseView, caller_id: u128, id: u128, body: BodyData)
    requires
        !is_valid_key(body.idempotency_key@),
    ensures
        publish_effect(db, caller_id, id, body).answer matches Err(
            CommandError::ValidationError(_),
        ),
        publish_effect(db, caller_id, id, body).db == db,
{
}

/// A publish command that fails, for whatever reason, leaves the store as it
/// found it: no cached response, no issue and no task is written in part.
pub proof fn failed_publish_writes_nothing(db: DatabaseView, caller_id: u128, id: u128, body: BodyData)
    ensures
        publish_effect(db, caller_id, id, body).answer is Err ==> publish_effect(
            db,
            caller_id,
            id,
            body,
        ).db == db,
{
}

/// A publish command changes neither the issues nor the tasks that are
/// there: it can only add to them.
pub proof fn publish_only_adds(db: DatabaseView, caller_id: u128, id: u128, body: BodyData)
    ensures
        db.issues.is_prefix_of(publish_effect(db, caller_id, id, body).db.issues),
        db.queue.is_prefix_of(publish_effect(db, caller_id, id, body).db.queue),
        publish_effect(db, caller_id, id, body).db.subscriptions == db.subscriptions,
{
}

/// What the subscription system may do to the store.
pub enum SubscriptionChange {
    /// A subscription is registered, pending confirmation.
    Register { id: u128, email: Seq<char>, name: Seq<char>, token: Seq<char> },
    /// A subscription is confirmed.
    Confirm { id: u128 },
}

/// The store after the subscription system made `changes`, in order.
pub open spec fn after_changes(db: DatabaseView, changes: Seq<SubscriptionChange>) -> DatabaseView
    decreases changes.len(),
{
    if changes.len() == 0 {
        db
    } else {
        let before = after_changes(db, changes.drop_last());
        match changes.last() {
            SubscriptionChange::Register { id, email, name, token } => before.register(
                id,
                email,
                name,
                token,
            ),
            SubscriptionChange::Confirm { id } => before.confirm(id),
        }
    }
}

/// The tasks of `queue` that deliver the issue `id`, in order.
pub open spec fn tasks_of_issue(queue: Seq<TaskView>, id: u128) -> Seq<TaskView> {
    queue.filter(|task: TaskView| task.issue_id == id)
}

/// Changes to the subscriptions leave the queue alone.
pub proof fn subscription_changes_keep_queue(db: DatabaseView, changes: Seq<SubscriptionChange>)
    ensures
        after_changes(db, changes).queue == db.queue,
    decreases changes.len(),
{
    if changes.len() > 0 {
        subscription_changes_keep_queue(db, changes.drop_last());
    }
}

/// The tasks of an issue are fixed when it is published: one for each
/// subscriber that was confirmed at that moment, and no more, whoever
/// subscribes or confirms afterwards.
pub proof fn tasks_are_fixed_at_publish(
    db: DatabaseView,
    caller_id: u128,
    id: u128,
    body: BodyData,
    later: Seq<SubscriptionChange>,
)
    requires
        db.wf(),
        !db.has_key(caller_id, body.idempotency_key@),
        publish_effect(db, caller_id, id, body).answer is Ok,
    ensures
        ({
            let after = after_changes(publish_effect(db, caller_id, id, body).db, later);
            &&& tasks_of_issue(after.queue, id) == tasks_for(
                id,
                confirmed_emails(db.subscriptions),
            )
            &&& tasks_of_issue(after.queue, id).len() == confirmed_emails(db.subscriptions).len()
        }),
{
    let of_issue = |task: TaskView| task.issue_id == id;
    let created = tasks_for(id, confirmed_emails(db.subscriptions));
    let effect = publish_effect(db, caller_id, id, body);
    subscription_changes_keep_queue(effect.db, later);
    assert(effect.db.queue == db.queue + created);
    Seq::filter_distributes_over_add(db.queue, created, of_issue);
    assert(db.queue.filter(of_issue) =~= Seq::empty()) by {
        assert forall|i: int| 0 <= i < db.queue.len() implies !of_issue(db.queue[i]) by {
            assert(db.has_issue(db.queue[i].issue_id));
        }
        db.queue.lemma_all_neg_filter_empty(of_issue);
    }
    assert(created.filter(of_issue) =~= created) by {
        lemma_filter_keeps_all(created, of_issue);
    }
    assert(Seq::<TaskView>::empty() + created =~= created);
}

/// A unit of the worker's work touches nothing but the queue.
pub proof fn worker_touches_only_the_queue(
    db: DatabaseView,
    gateway: EmailGatewayView,
    policy: RetryPolicy,
)
    ensures
        execute_task(db, gateway, policy).db == (DatabaseView {
            queue: execute_task(db, gateway, policy).db.queue,
            ..db
        }),
{
}

/// A task that one worker holds is not handed to another: whatever the next
/// claim finds, it is a different task.
pub proof fn claimed_task_is_not_claimed_again(db: DatabaseView)
    requires
        db.wf(),
        db.has_claimable(),
        db.lock_task(db.claimable_position()).has_claimable(),
    ensures
        ({
            let first = db.queue[db.claimable_position()];
            let held = db.lock_task(db.claimable_position());
            let second = held.queue[held.claimable_position()];
            first.issue_id != second.issue_id || first.subscriber_email != second.subscriber_email
        }),
{
    lemma_first_claimable(db);
    let p = db.claimable_position();
    let held = db.lock_task(p);
    lemma_first_claimable(held);
    let q = held.claimable_position();
    assert(held.queue[p].locked);
    assert(q != p);
    assert(held.queue[q] == db.queue[q]);
    if p < q {
        assert(!(db.queue[p].issue_id == db.queue[q].issue_id && db.queue[p].subscriber_email
            == db.queue[q].subscriber_email));
    } else {
        assert(!(db.queue[q].issue_id == db.queue[p].issue_id && db.queue[q].subscriber_email
            == db.queue[p].subscriber_email));
    }
}

/// A queue in which every task is held is all held tasks.
pub proof fn lemma_all_held(queue: Seq<TaskView>)
    requires
        forall|i: int| 0 <= i < queue.len() ==> (#[trigger] queue[i]).locked,
    ensures
        held_tasks(queue) == queue,
{
    lemma_filter_keeps_all(queue, |task: TaskView| task.locked);
}

/// A unit of work leaves alone the tasks that other workers hold.
pub proof fn worker_keeps_held_tasks(db: DatabaseView, gateway: EmailGatewayView, policy: RetryPolicy)
    requires
        db.wf(),
    ensures
        held_tasks(execute_task(db, gateway, policy).db.queue) == held_tasks(db.queue),
{
    if db.has_claimable() {
        let is_held = |task: TaskView| task.locked;
        lemma_first_claimable(db);
        let position = db.claimable_position();
        let task = db.queue[position];
        lemma_task_position(db, position, task.issue_id, task.subscriber_email);
        lemma_remove_unfiltered(db.queue, position, is_held);
        lemma_update_unfiltered(
            db.queue,
            position,
            TaskView { locked: false, attempts: next_attempt(task.attempts), ..task },
            is_held,
        );
    }
}

/// With a gateway that accepts every message, the first `rounds` units of
/// work settle the first `rounds` tasks that no worker holds.
proof fn lemma_healthy_rounds(
    db: DatabaseView,
    gateway: EmailGatewayView,
    policy: RetryPolicy,
    rounds: nat,
)
    requires
        db.wf(),
        gateway.available,
        rounds <= free_tasks(db.queue).len(),
    ensures
        after_rounds(db, gateway, policy, rounds).db.wf(),
        after_rounds(db, gateway, policy, rounds).db == (DatabaseView {
            queue: after_rounds(db, gateway, policy, rounds).db.queue,
            ..db
        }),
        free_tasks(after_rounds(db, gateway, policy, rounds).db.queue) == free_tasks(
            db.queue,
        ).skip(rounds as int),
        held_tasks(after_rounds(db, gateway, policy, rounds).db.queue) == held_tasks(db.queue),
        after_rounds(db, gateway, policy, rounds).gateway == (EmailGatewayView {
            delivered: gateway.delivered + messages_for(
                db,
                free_tasks(db.queue).take(rounds as int),
            ),
            ..gateway
        }),
        rounds > 0 ==> execute_task(
            after_rounds(db, gateway, policy, (rounds - 1) as nat).db,
            after_rounds(db, gateway, policy, (rounds - 1) as nat).gateway,
            policy,
        ).outcome == ExecutionOutcome::TaskCompleted,
    decreases rounds,
{
    let free = free_tasks(db.queue);
    let is_free = |task: TaskView| !task.locked;
    let is_held = |task: TaskView| task.locked;
    if rounds == 0 {
        assert(free.skip(0) =~= free);
        assert(free.take(0) =~= Seq::empty());
        assert(gateway.delivered + Seq::<EmailView>::empty() =~= gateway.delivered);
    } else {
        let k = (rounds - 1) as nat;
        lemma_healthy_rounds(db, gateway, policy, k);
        let before = after_rounds(db, gateway, policy, k);
        let queue = before.db.queue;
        let task = free[k as int];
        // The next free task is in the queue, so some task can be claimed.
        assert(free_tasks(queue)[0] == task);
        lemma_filtered_is_member(queue, is_free, 0);
        let somewhere = choose|i: int| 0 <= i < queue.len() && queue[i] == task;
        assert(!queue[somewhere].locked);
        lemma_first_claimable(before.db);
        let position = before.db.claimable_position();
        lemma_remove_first_filtered(queue, position, is_free);
        lemma_remove_unfiltered(queue, position, is_held);
        assert(queue[position] == task);
        lemma_task_position(before.db, position, task.issue_id, task.subscriber_email);
        lemma_execute_task_wf(before.db, before.gateway, policy);
        assert(free.skip(k as int).skip(1) =~= free.skip(rounds as int));
        // The task refers to an issue of the store as it was at the start.
        lemma_filtered_is_member(db.queue, is_free, k as int);
        let origin = choose|i: int| 0 <= i < db.queue.len() && db.queue[i] == task;
        assert(db.has_issue(db.queue[origin].issue_id));
        let p = db.issue_position(task.issue_id);
        lemma_issue_position(before.db, p, task.issue_id);
        assert(free.take(rounds as int).drop_last() =~= free.take(k as int));
        assert(free.take(rounds as int).last() == task);
        let sent = messages_for(db, free.take(k as int));
        if is_valid_email(task.subscriber_email) {
            assert((gateway.delivered + sent).push(email_for(task, db.issues[p]))
                =~= gateway.delivered + sent.push(email_for(task, db.issues[p])));
        }
    }
}

/// Draining a queue through a gateway that accepts every message: each of
/// the first `n` units of work, `n` being the number of tasks that no worker
/// holds, completes a task; after them nothing can be claimed and the next
/// unit of work reports an empty queue. Every such task was deleted once,
/// the tasks that other workers hold are still queued, and the gateway
/// received, in queue order, one message for each deleted task with a valid
/// address and nothing else.
pub proof fn healthy_drain_delivers_each_task_once(
    db: DatabaseView,
    gateway: EmailGatewayView,
    policy: RetryPolicy,
)
    requires
        db.wf(),
        gateway.available,
    ensures
        ({
            let end = after_rounds(db, gateway, policy, free_tasks(db.queue).len());
            &&& end.db == (DatabaseView { queue: held_tasks(db.queue), ..db })
            &&& end.gateway == (EmailGatewayView {
                delivered: gateway.delivered + messages_for(db, free_tasks(db.queue)),
                ..gateway
            })
            &&& !end.db.has_claimable()
            &&& execute_task(end.db, end.gateway, policy).outcome == ExecutionOutcome::EmptyQueue
        }),
        forall|earlier: nat|
            earlier < free_tasks(db.queue).len() ==> execute_task(
                (#[trigger] after_rounds(db, gateway, policy, earlier)).db,
                after_rounds(db, gateway, policy, earlier).gateway,
                policy,
            ).outcome == ExecutionOutcome::TaskCompleted,
{
    let free = free_tasks(db.queue);
    let n = free.len();
    let is_free = |task: TaskView| !task.locked;
    let is_held = |task: TaskView| task.locked;
    lemma_healthy_rounds(db, gateway, policy, n);
    let end = after_rounds(db, gateway, policy, n);
    assert(free.skip(n as int) =~= Seq::empty());
    assert(free.take(n as int) =~= free);
    // Nothing free is left, so everything left is held.
    assert forall|i: int| 0 <= i < end.db.queue.len() implies (#[trigger] end.db.queue[i]).locked by {
        if !end.db.queue[i].locked {
            end.db.queue.lemma_filter_contains(is_free, i);
        }
    }
    lemma_filter_keeps_all(end.db.queue, is_held);
    assert forall|earlier: nat| earlier < n implies execute_task(
        (#[trigger] after_rounds(db, gateway, policy, earlier)).db,
        after_rounds(db, gateway, policy, earlier).gateway,
        policy,
    ).outcome == ExecutionOutcome::TaskCompleted by {
        lemma_healthy_rounds(db, gateway, policy, earlier + 1);
    }
}

/// Two publish commands under one key that overlap are carried out once.
/// While the first holds the claim and has not saved its response, the
/// second is a conflict and writes nothing. Once the first has committed,
/// the second is answered with the response of the first and again writes
/// nothing: together they leave one cached response, one issue and one task
/// for each subscriber that was confirmed when the first command ran.
pub proof fn overlapping_commands_are_carried_out_once(
    db: DatabaseView,
    caller_id: u128,
    first_id: u128,
    first: BodyData,
    second_id: u128,
    second: BodyData,
)
    requires
        db.wf(),
        second.idempotency_key@ == first.idempotency_key@,
        !db.has_key(caller_id, first.idempotency_key@),
        publish_effect(db, caller_id, first_id, first).answer is Ok,
    ensures
        ({
            let key = first.idempotency_key@;
            let in_flight = db.claim(caller_id, key);
            let early = publish_effect(in_flight, caller_id, second_id, second);
            let once = publish_effect(db, caller_id, first_id, first);
            let late = publish_effect(once.db, caller_id, second_id, second);
            &&& early.answer == Err::<ResponseView, CommandError>(CommandError::Conflict)
            &&& early.db == in_flight
            &&& once.db == in_flight.commit(
                TransactionView {
                    caller_id,
                    key,
                    issue: Some(issue_of(db, first_id, first)),
                    recipients: confirmed_emails(db.subscriptions),
                },
                accepted(),
            )
            &&& late.answer == once.answer
            &&& late.db == once.db
            &&& late.db.idempotency.len() == db.idempotency.len() + 1
            &&& late.db.issues.len() == db.issues.len() + 1
            &&& late.db.queue == db.queue + tasks_for(
                first_id,
                confirmed_emails(db.subscriptions),
            )
        }),
{
    let key = first.idempotency_key@;
    lemma_release_undoes_claim(db, caller_id, key);
    lemma_commit_is_published(db, caller_id, key, issue_of(db, first_id, first));
    publish_is_idempotent(db, caller_id, first_id, first, second_id, second);
}

/// After two overlapping publish commands under one key, draining the queue
/// through a gateway that accepts every message hands it the messages of
/// one command, not of two: beside what was queued before, one message for
/// each task of the one issue with a valid address.
pub proof fn overlapping_commands_send_each_message_once(
    db: DatabaseView,
    gateway: EmailGatewayView,
    policy: RetryPolicy,
    caller_id: u128,
    first_id: u128,
    first: BodyData,
    second_id: u128,
    second: BodyData,
)
    requires
        db.wf(),
        gateway.available,
        db.queue.len() == 0,
        second.idempotency_key@ == first.idempotency_key@,
        !db.has_key(caller_id, first.idempotency_key@),
        publish_effect(db, caller_id, first_id, first).answer is Ok,
    ensures
        ({
            let once = publish_effect(db, caller_id, first_id, first);
            let both = publish_effect(once.db, caller_id, second_id, second);
            let tasks = tasks_for(first_id, confirmed_emails(db.subscriptions));
            let end = after_rounds(both.db, gateway, policy, tasks.len());
            &&& end.db.queue.len() == 0
            &&& end.gateway.delivered == gateway.delivered + messages_for(both.db, tasks)
            &&& messages_for(both.db, tasks).len() <= confirmed_emails(db.subscriptions).len()
        }),
{
    overlapping_commands_are_carried_out_once(db, caller_id, first_id, first, second_id, second);
    publish_saves_its_response(db, caller_id, first_id, first);
    let both = publish_effect(db, caller_id, first_id, first).db;
    let tasks = tasks_for(first_id, confirmed_emails(db.subscriptions));
    assert(both.queue =~= tasks);
    lemma_filter_keeps_all(tasks, |task: TaskView| !task.locked);
    lemma_filter_keeps_none(tasks, |task: TaskView| task.locked);
    healthy_drain_delivers_each_task_once(both, gateway, policy);
    lemma_messages_at_most_tasks(both, tasks);
}

/// There are no more messages than tasks.
pub proof fn lemma_messages_at_most_tasks(db: DatabaseView, queue: Seq<TaskView>)
    ensures
        messages_for(db, queue).len() <= queue.len(),
    decreases queue.len(),
{
    if queue.len() > 0 {
        lemma_messages_at_most_tasks(db, queue.drop_last());
    }
}

} // verus!
