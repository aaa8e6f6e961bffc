//! The delivery worker: claims one queued task at a time, looks up the
//! issue, hands the send out, and removes the task — whatever the send's
//! outcome, so a task is attempted at most once. The loop around it (claim,
//! send, sleep on an empty queue, back off on error) is scheduling work and
//! runs outside the verified core; each of its decisions is made here.

use vstd::prelude::*;
use crate::domain::{email_accepted, SubscriberEmail};
use crate::store::{
    delivery_tasks_for, has_issue, issue_of, lemma_issue_index_unique, NewsletterIssue, Store,
    SubView, TaskView,
};

verus! {

/// What one worker step did.
pub enum ExecutionOutcome {
    TaskCompleted,
    EmptyQueue,
}

/// One send the worker owes: the issue's content, addressed to one confirmed
/// subscriber. The process around the core performs the send; a failure is
/// logged and the task is not retried.
#[derive(Debug)]
pub struct SendJob {
    pub email: SubscriberEmail,
    pub title: String,
    pub html: String,
    pub text: String,
}

/// The view of a send: whom to address and what content to carry.
#[verifier::ext_equal]
pub ghost struct JobView {
    pub email: Seq<char>,
    pub title: Seq<char>,
    pub html: Seq<char>,
    pub text: Seq<char>,
}

impl View for SendJob {
    type V = JobView;

    open spec fn view(&self) -> JobView {
        JobView { email: self.email@, title: self.title@, html: self.html@, text: self.text@ }
    }
}

/// The queue after deleting every task for (issue, subscriber-email) — the
/// task's composite identity — keeping the rest in order.
pub open spec fn without_task(queue: Seq<TaskView>, issue_id: u128, email: Seq<char>) -> Seq<
    TaskView,
>
    decreases queue.len(),
{
    if queue.len() == 0 {
        Seq::empty()
    } else {
        let rest = without_task(queue.drop_last(), issue_id, email);
        if queue.last().newsletter_issue_id == issue_id && queue.last().subscriber_email
            == email {
            rest
        } else {
            rest.push(queue.last())
        }
    }
}

/// Deleting a task's rows keeps only rows of the queue, removes at least the
/// matching ones, and leaves no row for (issue, email) behind.
pub proof fn lemma_without_task(queue: Seq<TaskView>, issue_id: u128, email: Seq<char>)
    ensures
        without_task(queue, issue_id, email).len() <= queue.len(),
        forall|j: int|
            0 <= j < without_task(queue, issue_id, email).len() ==> queue.contains(
                #[trigger] without_task(queue, issue_id, email)[j],
            ),
        forall|j: int|
            0 <= j < without_task(queue, issue_id, email).len() ==> !(#[trigger] without_task(
                queue,
                issue_id,
                email,
            )[j].newsletter_issue_id == issue_id && without_task(
                queue,
                issue_id,
                email,
            )[j].subscriber_email == email),
        (exists|k: int|
            0 <= k < queue.len() && #[trigger] queue[k].newsletter_issue_id == issue_id
                && queue[k].subscriber_email == email) ==> without_task(
            queue,
            issue_id,
            email,
        ).len() < queue.len(),
    decreases queue.len(),
{
    if queue.len() > 0 {
        lemma_without_task(queue.drop_last(), issue_id, email);
        let wt = without_task(queue, issue_id, email);
        let rest = without_task(queue.drop_last(), issue_id, email);
        assert forall|j: int| 0 <= j < wt.len() implies queue.contains(#[trigger] wt[j]) by {
            if j < rest.len() {
                let k = choose|k: int|
                    0 <= k < queue.drop_last().len() && queue.drop_last()[k] == rest[j];
                assert(queue[k] == rest[j]);
            } else {
                assert(queue[queue.len() - 1] == wt[j]);
            }
        }
        if exists|k: int|
            0 <= k < queue.len() && #[trigger] queue[k].newsletter_issue_id == issue_id
                && queue[k].subscriber_email == email {
            let k = choose|k: int|
                0 <= k < queue.len() && #[trigger] queue[k].newsletter_issue_id == issue_id
                    && queue[k].subscriber_email == email;
            if k < queue.len() - 1 {
                assert(queue.drop_last()[k].newsletter_issue_id == issue_id
                    && queue.drop_last()[k].subscriber_email == email);
            }
        }
    }
}

/// Law: while every queued task has its own (issue, subscriber) identity —
/// as one fan-out per issue to distinct addresses gives — completing the
/// head task removes exactly the head row: the worker walks the queue one
/// task, and so at most one send, per (issue, subscriber) pair.
pub proof fn lemma_unique_task_removed(queue: Seq<TaskView>)
    requires
        queue.len() > 0,
        forall|p: int, q: int|
            0 <= p < queue.len() && 0 <= q < queue.len() && p != q
                ==> !(#[trigger] queue[p].newsletter_issue_id == #[trigger]
            queue[q].newsletter_issue_id && queue[p].subscriber_email
                == queue[q].subscriber_email),
    ensures
        without_task(queue, queue[0].newsletter_issue_id, queue[0].subscriber_email)
            == queue.drop_first(),
    decreases queue.len(),
{
    let issue_id = queue[0].newsletter_issue_id;
    let email = queue[0].subscriber_email;
    reveal_with_fuel(without_task, 2);
    if queue.len() == 1 {
        assert(without_task(queue, issue_id, email) =~= queue.drop_first());
    } else {
        assert(queue.drop_last()[0] == queue[0]);
        lemma_unique_task_removed(queue.drop_last());
        assert(without_task(queue.drop_last(), issue_id, email)
            == queue.drop_last().drop_first());
        assert(!(queue.last().newsletter_issue_id == issue_id && queue.last().subscriber_email
            == email));
        assert(without_task(queue, issue_id, email) == without_task(
            queue.drop_last(),
            issue_id,
            email,
        ).push(queue.last()));
        assert(without_task(queue, issue_id, email) =~= queue.drop_first());
    }
}

/// The first queued task, if any: the row a worker claims.
fn dequeue_task(store: &Store) -> (r: Option<(u128, String)>)
    ensures
        match r {
            Option::Some(t) => store@.issue_delivery_queue.len() > 0
                && store@.issue_delivery_queue[0] == (TaskView {
                newsletter_issue_id: t.0,
                subscriber_email: t.1@,
            }),
            Option::None => store@.issue_delivery_queue.len() == 0,
        },
{
    if store.issue_delivery_queue.len() == 0 {
        None
    } else {
        let row = &store.issue_delivery_queue[0];
        Some((row.newsletter_issue_id, row.subscriber_email.clone()))
    }
}

/// The issue row with the given identity; it exists for every queued task.
fn get_issue(store: &Store, issue_id: u128) -> (r: Result<NewsletterIssue, String>)
    requires
        store.inv(),
    ensures
        r is Ok <==> has_issue(store@.newsletter_issues, issue_id),
        r matches Ok(issue) ==> issue@ == issue_of(store@.newsletter_issues, issue_id),
{
    match store.issue_index(issue_id) {
        Option::None => Err("Failed to fetch the newsletter issue".to_owned()),
        Option::Some(i) => {
            proof {
                lemma_issue_index_unique(store@.newsletter_issues, issue_id, i as int);
            }
            let row = &store.newsletter_issues[i];
            Ok(
                NewsletterIssue {
                    newsletter_issue_id: row.newsletter_issue_id,
                    title: row.title.clone(),
                    text: row.text.clone(),
                    html: row.html.clone(),
                    published_at: row.published_at,
                },
            )
        },
    }
}

/// Deletes every task for (issue, email) from the queue.
fn delete_task(store: &mut Store, issue_id: u128, email: &str)
    requires
        old(store).inv(),
    ensures
        final(store).inv(),
        final(store)@.subscriptions == old(store)@.subscriptions,
        final(store)@.subscription_tokens == old(store)@.subscription_tokens,
        final(store)@.newsletter_issues == old(store)@.newsletter_issues,
        final(store)@.idempotency == old(store)@.idempotency,
        final(store)@.users == old(store)@.users,
        final(store)@.issue_delivery_queue == without_task(
            old(store)@.issue_delivery_queue,
            issue_id,
            email@,
        ),
{
    let mut kept: Vec<crate::store::IssueDeliveryQueue> = Vec::new();
    let email_string: String = email.to_owned();
    let mut i: usize = 0;
    proof {
        assert(crate::store::tasks_view(kept@) =~= without_task(
            old(store)@.issue_delivery_queue.take(0),
            issue_id,
            email@,
        ));
    }
    while i < store.issue_delivery_queue.len()
        invariant
            i <= store.issue_delivery_queue.len(),
            store@ == old(store)@,
            email_string@ == email@,
            crate::store::tasks_view(kept@) == without_task(
                old(store)@.issue_delivery_queue.take(i as int),
                issue_id,
                email@,
            ),
        decreases store.issue_delivery_queue.len() - i,
    {
        proof {
            let pre = old(store)@.issue_delivery_queue.take(i as int);
            let cur = old(store)@.issue_delivery_queue.take(i + 1);
            assert(cur.drop_last() =~= pre);
            assert(cur.last() == old(store)@.issue_delivery_queue[i as int]);
        }
        let row = &store.issue_delivery_queue[i];
        if !(row.newsletter_issue_id == issue_id && row.subscriber_email == email_string) {
            let copy = crate::store::IssueDeliveryQueue {
                newsletter_issue_id: row.newsletter_issue_id,
                subscriber_email: row.subscriber_email.clone(),
            };
            kept.push(copy);
            proof {
                assert(crate::store::tasks_view(kept@) =~= without_task(
                    old(store)@.issue_delivery_queue.take(i + 1),
                    issue_id,
                    email@,
                ));
            }
        } else {
            proof {
                assert(crate::store::tasks_view(kept@) =~= without_task(
                    old(store)@.issue_delivery_queue.take(i + 1),
                    issue_id,
                    email@,
                ));
            }
        }
        i = i + 1;
    }
    proof {
        assert(old(store)@.issue_delivery_queue.take(
            old(store)@.issue_delivery_queue.len() as int,
        ) =~= old(store)@.issue_delivery_queue);
    }
    store.issue_delivery_queue = kept;
    proof {
        let m0 = old(store)@;
        let wt = without_task(m0.issue_delivery_queue, issue_id, email@);
        assert(store@.issue_delivery_queue == wt);
        assert(store@.subscriptions =~= m0.subscriptions);
        assert(store@.subscription_tokens =~= m0.subscription_tokens);
        assert(store@.newsletter_issues =~= m0.newsletter_issues);
        assert(store@.idempotency =~= m0.idempotency);
        assert(store@.users =~= m0.users);
        lemma_without_task(m0.issue_delivery_queue, issue_id, email@);
        assert forall|p: int| 0 <= p < store@.issue_delivery_queue.len() implies has_issue(
            store@.newsletter_issues,
            #[trigger] store@.issue_delivery_queue[p].newsletter_issue_id,
        ) by {
            assert(m0.issue_delivery_queue.contains(wt[p]));
            let k = choose|k: int|
                0 <= k < m0.issue_delivery_queue.len() && m0.issue_delivery_queue[k] == wt[p];
            assert(has_issue(m0.newsletter_issues, m0.issue_delivery_queue[k].newsletter_issue_id));
        }
    }
}

/// One worker step. An empty queue is reported as such and nothing changes.
/// Otherwise the head task is claimed and removed — together with any other
/// row for the same (issue, subscriber) — and the send it owes is returned:
/// a job when the stored address is valid, nothing when it is not (the
/// address is unsalvageable and the task is dropped). A send failure outside
/// does not put the task back: delivery is at most once.
pub fn try_execute_task(store: &mut Store) -> (r: Result<
    (ExecutionOutcome, Option<SendJob>),
    String,
>)
    requires
        old(store).inv(),
    ensures
        final(store).inv(),
        final(store)@.subscriptions == old(store)@.subscriptions,
        final(store)@.subscription_tokens == old(store)@.subscription_tokens,
        final(store)@.newsletter_issues == old(store)@.newsletter_issues,
        final(store)@.idempotency == old(store)@.idempotency,
        final(store)@.users == old(store)@.users,
        r is Ok,
        old(store)@.issue_delivery_queue.len() == 0 ==> {
            &&& r matches Ok((ExecutionOutcome::EmptyQueue, job)) && job is None
            &&& final(store)@ == old(store)@
        },
        old(store)@.issue_delivery_queue.len() > 0 ==> {
            let task = old(store)@.issue_delivery_queue[0];
            &&& r matches Ok((ExecutionOutcome::TaskCompleted, job)) && (match job {
                Option::Some(j) => {
                    &&& email_accepted(task.subscriber_email)
                    &&& j.email@ == task.subscriber_email
                    &&& j.title@ == issue_of(
                        old(store)@.newsletter_issues,
                        task.newsletter_issue_id,
                    ).title
                    &&& j.html@ == issue_of(
                        old(store)@.newsletter_issues,
                        task.newsletter_issue_id,
                    ).html
                    &&& j.text@ == issue_of(
                        old(store)@.newsletter_issues,
                        task.newsletter_issue_id,
                    ).text
                },
                Option::None => !email_accepted(task.subscriber_email),
            })
            &&& final(store)@.issue_delivery_queue == without_task(
                old(store)@.issue_delivery_queue,
                task.newsletter_issue_id,
                task.subscriber_email,
            )
            &&& final(store)@.issue_delivery_queue.len() < old(
                store,
            )@.issue_delivery_queue.len()
        },
{
    let task = dequeue_task(store);
    match task {
        Option::None => {
            proof {
                assert(store@ =~= old(store)@);
            }
            Ok((ExecutionOutcome::EmptyQueue, Option::None))
        },
        Option::Some((issue_id, email)) => {
            let job = match SubscriberEmail::parse(email.clone()) {
                Ok(parsed) => {
                    let issue = match get_issue(store, issue_id) {
                        Ok(issue) => issue,
                        Err(e) => {
                            // unreachable under the store invariant: every
                            // queued task's issue exists
                            proof {
                                assert(store@.issue_delivery_queue[0].newsletter_issue_id
                                    == issue_id);
                                assert(has_issue(store@.newsletter_issues, issue_id));
                                assert(false);
                            }
                            return Err(e);
                        },
                    };
                    Option::Some(
                        SendJob {
                            email: parsed,
                            title: issue.title,
                            html: issue.html,
                            text: issue.text,
                        },
                    )
                },
                Err(_) => Option::None,
            };
            delete_task(store, issue_id, email.as_str());
            proof {
                let m0 = old(store)@;
                let t = m0.issue_delivery_queue[0];
                lemma_without_task(m0.issue_delivery_queue, t.newsletter_issue_id,
                    t.subscriber_email);
                assert(m0.issue_delivery_queue[0].newsletter_issue_id == t.newsletter_issue_id
                    && m0.issue_delivery_queue[0].subscriber_email == t.subscriber_email);
            }
            Ok((ExecutionOutcome::TaskCompleted, job))
        },
    }
}

/// Every queued task names its own (issue, subscriber) pair: the shape one
/// publish fan-out has when the confirmed subscribers' addresses are
/// distinct.
pub open spec fn distinct_tasks(queue: Seq<TaskView>) -> bool {
    forall|p: int, q: int|
        0 <= p < queue.len() && 0 <= q < queue.len() && p != q
            ==> !(#[trigger] queue[p].newsletter_issue_id == #[trigger]
        queue[q].newsletter_issue_id && queue[p].subscriber_email
            == queue[q].subscriber_email)
}

/// How many queued tasks carry an address the address check accepts — the
/// sends a drain of the queue owes, when the tasks are distinct.
pub open spec fn accepted_task_count(queue: Seq<TaskView>) -> int
    decreases queue.len(),
{
    if queue.len() == 0 {
        0
    } else {
        (if email_accepted(queue[0].subscriber_email) {
            1int
        } else {
            0int
        }) + accepted_task_count(queue.drop_first())
    }
}

/// How many confirmed subscribers carry an address the address check
/// accepts: the sends one publish fan-out ultimately owes.
pub open spec fn accepted_confirmed_count(subs: Seq<SubView>) -> int
    decreases subs.len(),
{
    if subs.len() == 0 {
        0
    } else {
        (if subs.last().status is Confirmed && email_accepted(subs.last().email) {
            1int
        } else {
            0int
        }) + accepted_confirmed_count(subs.drop_last())
    }
}

/// Appending one task adds its address's acceptance to the count.
proof fn lemma_accepted_count_push(queue: Seq<TaskView>, t: TaskView)
    ensures
        accepted_task_count(queue.push(t)) == accepted_task_count(queue) + (if email_accepted(
            t.subscriber_email,
        ) {
            1int
        } else {
            0int
        }),
    decreases queue.len(),
{
    reveal_with_fuel(accepted_task_count, 2);
    if queue.len() == 0 {
        assert(queue.push(t)[0] == t);
        assert(queue.push(t).drop_first() =~= queue);
    } else {
        assert(queue.push(t)[0] == queue[0]);
        assert(queue.push(t).drop_first() =~= queue.drop_first().push(t));
        lemma_accepted_count_push(queue.drop_first(), t);
    }
}

/// Law: one publish fan-out owes exactly one send per confirmed subscriber
/// whose stored address is valid. With [`drain_queue`]'s accounting and the
/// barrier admitting one fan-out per idempotency key, that is the
/// at-most-once delivery count, however many retries raced on the key.
pub proof fn lemma_fanout_sends(subs: Seq<SubView>, issue_id: u128)
    ensures
        accepted_task_count(delivery_tasks_for(subs, issue_id)) == accepted_confirmed_count(
            subs,
        ),
    decreases subs.len(),
{
    if subs.len() > 0 {
        lemma_fanout_sends(subs.drop_last(), issue_id);
        if subs.last().status is Confirmed {
            lemma_accepted_count_push(
                delivery_tasks_for(subs.drop_last(), issue_id),
                TaskView {
                    newsletter_issue_id: issue_id,
                    subscriber_email: subs.last().email,
                },
            );
        }
    }
}

/// Dropping the head keeps the remaining tasks distinct.
proof fn lemma_distinct_drop_first(queue: Seq<TaskView>)
    requires
        queue.len() > 0,
        distinct_tasks(queue),
    ensures
        distinct_tasks(queue.drop_first()),
{
    let rest = queue.drop_first();
    assert forall|p: int, q: int|
        0 <= p < rest.len() && 0 <= q < rest.len() && p != q implies !(#[trigger]
    rest[p].newsletter_issue_id == #[trigger] rest[q].newsletter_issue_id
        && rest[p].subscriber_email == rest[q].subscriber_email) by {
        assert(rest[p] == queue[p + 1]);
        assert(rest[q] == queue[q + 1]);
    }
}

/// Law: run against a queue with some number of tasks and no new arrivals,
/// the worker drains it to zero and owes at most one send per task that was
/// queued; after that, one more step reports the queue empty (and the loop
/// outside sleeps its backoff). Each returned job is the send one claimed
/// task owed — and while the queued tasks are distinct, as one fan-out to
/// distinct addresses leaves them, the drain owes exactly one send per task
/// whose stored address is valid.
pub fn drain_queue(store: &mut Store) -> (jobs: Vec<SendJob>)
    requires
        old(store).inv(),
    ensures
        final(store).inv(),
        final(store)@.subscriptions == old(store)@.subscriptions,
        final(store)@.subscription_tokens == old(store)@.subscription_tokens,
        final(store)@.newsletter_issues == old(store)@.newsletter_issues,
        final(store)@.idempotency == old(store)@.idempotency,
        final(store)@.users == old(store)@.users,
        final(store)@.issue_delivery_queue.len() == 0,
        jobs@.len() <= old(store)@.issue_delivery_queue.len(),
        distinct_tasks(old(store)@.issue_delivery_queue) ==> jobs@.len() == accepted_task_count(
            old(store)@.issue_delivery_queue,
        ),
{
    let mut jobs: Vec<SendJob> = Vec::new();
    let ghost distinct = distinct_tasks(old(store)@.issue_delivery_queue);
    loop
        invariant
            store.inv(),
            store@.subscriptions == old(store)@.subscriptions,
            store@.subscription_tokens == old(store)@.subscription_tokens,
            store@.newsletter_issues == old(store)@.newsletter_issues,
            store@.idempotency == old(store)@.idempotency,
            store@.users == old(store)@.users,
            jobs@.len() + store@.issue_delivery_queue.len() <= old(
                store,
            )@.issue_delivery_queue.len(),
            distinct == distinct_tasks(old(store)@.issue_delivery_queue),
            distinct ==> distinct_tasks(store@.issue_delivery_queue),
            distinct ==> jobs@.len() as int + accepted_task_count(store@.issue_delivery_queue)
                == accepted_task_count(old(store)@.issue_delivery_queue),
        ensures
            store@.issue_delivery_queue.len() == 0,
            distinct ==> jobs@.len() as int + accepted_task_count(store@.issue_delivery_queue)
                == accepted_task_count(old(store)@.issue_delivery_queue),
        decreases store@.issue_delivery_queue.len(),
    {
        let ghost q0 = store@.issue_delivery_queue;
        let step = try_execute_task(store);
        proof {
            if distinct && q0.len() > 0 {
                lemma_unique_task_removed(q0);
                assert(store@.issue_delivery_queue == q0.drop_first());
                lemma_distinct_drop_first(q0);
            }
        }
        match step {
            Ok((ExecutionOutcome::EmptyQueue, _)) => { break ; },
            Ok((ExecutionOutcome::TaskCompleted, Option::Some(job))) => {
                jobs.push(job);
            },
            Ok((ExecutionOutcome::TaskCompleted, Option::None)) => {},
            Err(_) => { break ; },
        }
    }
    jobs
}

} // verus!
