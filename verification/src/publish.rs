//! The publish orchestrator (`POST /admin/newsletter`). A publish request
//! first claims the idempotency barrier for its (user, key); the attempt that
//! wins inserts the newsletter issue and fans out one delivery task per
//! confirmed subscriber — in one transaction — then records the redirect
//! response it returns. Retries with the same key replay that recorded
//! response byte for byte and write nothing.

use vstd::prelude::*;
use crate::admin::get_username;
use crate::domain::{email_accepted, SubscriberEmail};
use crate::http::{empty_response_view, see_other, see_other_view, HttpResponse};
use crate::idempotency::{
    null_record, save_response, try_processing, IdempotencyKey, NextAction,
};
use crate::session_state::UserId;
use crate::store::{
    confirmed_subscribers, delivery_tasks_for, has_issue, has_record, has_user, idem_matches,
    new_uuid, now_ms, record_of, saved_response_of, store_inv, IdemView, IssueView, TaskView,
    IssueDeliveryQueue, NewsletterIssue, Store, StoreModel,
};

verus! {

/// Why a publish request failed; surfaced as a `500`.
#[derive(Debug)]
pub enum PublishError {
    UnexpectedError(String),
}

impl PublishError {
    /// The response the error surfaces as: an opaque `500`.
    pub fn error_response(&self) -> (r: HttpResponse)
        ensures
            r@ == empty_response_view(500),
    {
        HttpResponse::new(500)
    }
}

/// The form body of `POST /admin/newsletter`.
pub struct BodyData {
    pub title: String,
    pub text: String,
    pub html: String,
    pub idempotency_key: String,
}

/// A confirmed subscriber whose stored address passed the address check.
pub struct ConfirmedSubscriber {
    pub email: SubscriberEmail,
}

/// The confirmed subscribers, each with its stored address re-checked: an
/// entry per confirmed row, `Ok` exactly when the address (re-)parses.
pub fn get_confirmed_subscribers(store: &Store) -> (r: Vec<Result<ConfirmedSubscriber, String>>)
    ensures
        r@.len() == confirmed_subscribers(store@.subscriptions).len(),
        forall|i: int|
            0 <= i < r@.len() ==> match #[trigger] r@[i] {
                Result::Ok(c) => email_accepted(
                    confirmed_subscribers(store@.subscriptions)[i].email,
                ) && c.email@ == confirmed_subscribers(store@.subscriptions)[i].email,
                Result::Err(_) => !email_accepted(
                    confirmed_subscribers(store@.subscriptions)[i].email,
                ),
            },
{
    let mut out: Vec<Result<ConfirmedSubscriber, String>> = Vec::new();
    let mut i: usize = 0;
    while i < store.subscriptions.len()
        invariant
            i <= store.subscriptions.len(),
            out@.len() == confirmed_subscribers(store@.subscriptions.take(i as int)).len(),
            forall|j: int|
                0 <= j < out@.len() ==> match #[trigger] out@[j] {
                    Result::Ok(c) => email_accepted(
                        confirmed_subscribers(store@.subscriptions.take(i as int))[j].email,
                    ) && c.email@ == confirmed_subscribers(
                        store@.subscriptions.take(i as int),
                    )[j].email,
                    Result::Err(_) => !email_accepted(
                        confirmed_subscribers(store@.subscriptions.take(i as int))[j].email,
                    ),
                },
        decreases store.subscriptions.len() - i,
    {
        proof {
            assert(store@.subscriptions.take(i + 1).drop_last() =~= store@.subscriptions.take(
                i as int,
            ));
            assert(store@.subscriptions.take(i + 1).last() == store@.subscriptions[i as int]);
        }
        let row = &store.subscriptions[i];
        match row.status {
            crate::store::SubscriberStatus::Confirmed => {
                match SubscriberEmail::parse(row.email.clone()) {
                    Ok(e) => out.push(Ok(ConfirmedSubscriber { email: e })),
                    Err(error) => out.push(Err(error)),
                }
            },
            crate::store::SubscriberStatus::PendingConfirmation => {},
        }
        i = i + 1;
    }
    proof {
        assert(store@.subscriptions.take(store@.subscriptions.len() as int)
            =~= store@.subscriptions);
    }
    out
}

/// Inserts the issue row with the given identity material. Succeeds exactly
/// when the identity is fresh; on a conflict nothing changes.
pub fn insert_issue_record(
    store: &mut Store,
    newsletter_issue_id: u128,
    title: String,
    text: String,
    html: String,
    now: i64,
) -> (r: Result<(), PublishError>)
    requires
        old(store).inv(),
    ensures
        final(store).inv(),
        final(store)@.subscriptions == old(store)@.subscriptions,
        final(store)@.subscription_tokens == old(store)@.subscription_tokens,
        final(store)@.issue_delivery_queue == old(store)@.issue_delivery_queue,
        final(store)@.idempotency == old(store)@.idempotency,
        final(store)@.users == old(store)@.users,
        !has_issue(old(store)@.newsletter_issues, newsletter_issue_id) ==> {
            &&& r is Ok
            &&& final(store)@.newsletter_issues == old(store)@.newsletter_issues.push(
                IssueView {
                    newsletter_issue_id,
                    title: title@,
                    text: text@,
                    html: html@,
                    published_at: now,
                },
            )
        },
        has_issue(old(store)@.newsletter_issues, newsletter_issue_id) ==> {
            &&& r is Err
            &&& final(store)@ == old(store)@
        },
{
    match store.issue_index(newsletter_issue_id) {
        Option::Some(_) => {
            proof {
                assert(store@ =~= old(store)@);
            }
            Err(PublishError::UnexpectedError("Failed to store newsletter issue details".to_owned()))
        },
        Option::None => {
            let issue = NewsletterIssue { newsletter_issue_id, title, text, html, published_at: now };
            store.newsletter_issues.push(issue);
            proof {
                let m0 = old(store)@;
                let m1 = store@;
                let n = m0.newsletter_issues.len() as int;
                assert(m1.newsletter_issues =~= m0.newsletter_issues.push(
                    IssueView {
                        newsletter_issue_id,
                        title: title@,
                        text: text@,
                        html: html@,
                        published_at: now,
                    },
                ));
                assert(m1.subscriptions =~= m0.subscriptions);
                assert(m1.subscription_tokens =~= m0.subscription_tokens);
                assert(m1.issue_delivery_queue =~= m0.issue_delivery_queue);
                assert(m1.idempotency =~= m0.idempotency);
                assert(m1.users =~= m0.users);
                assert forall|p: int, q: int|
                    0 <= p < m1.newsletter_issues.len() && 0 <= q < m1.newsletter_issues.len()
                        && p != q implies #[trigger] m1.newsletter_issues[p].newsletter_issue_id
                    != #[trigger] m1.newsletter_issues[q].newsletter_issue_id by {
                    if p == n {
                        assert(!(m0.newsletter_issues[q].newsletter_issue_id
                            == newsletter_issue_id));
                    } else if q == n {
                        assert(!(m0.newsletter_issues[p].newsletter_issue_id
                            == newsletter_issue_id));
                    }
                }
                assert forall|p: int| 0 <= p < m1.issue_delivery_queue.len() implies has_issue(
                    m1.newsletter_issues,
                    #[trigger] m1.issue_delivery_queue[p].newsletter_issue_id,
                ) by {
                    let w = choose|w: int|
                        0 <= w < m0.newsletter_issues.len()
                            && #[trigger] m0.newsletter_issues[w].newsletter_issue_id
                            == m0.issue_delivery_queue[p].newsletter_issue_id;
                    assert(m1.newsletter_issues[w].newsletter_issue_id
                        == m1.issue_delivery_queue[p].newsletter_issue_id);
                }
            }
            Ok(())
        },
    }
}

/// Fans out one delivery task per confirmed subscriber for the given issue,
/// appended to the queue in subscriber-table order.
pub fn enqueue_delivery_tasks(store: &mut Store, newsletter_issue_id: u128)
    requires
        old(store).inv(),
        has_issue(old(store)@.newsletter_issues, newsletter_issue_id),
    ensures
        final(store).inv(),
        final(store)@.subscriptions == old(store)@.subscriptions,
        final(store)@.subscription_tokens == old(store)@.subscription_tokens,
        final(store)@.newsletter_issues == old(store)@.newsletter_issues,
        final(store)@.idempotency == old(store)@.idempotency,
        final(store)@.users == old(store)@.users,
        final(store)@.issue_delivery_queue == old(store)@.issue_delivery_queue
            + delivery_tasks_for(old(store)@.subscriptions, newsletter_issue_id),
{
    let mut i: usize = 0;
    proof {
        assert(store@.issue_delivery_queue =~= old(store)@.issue_delivery_queue
            + delivery_tasks_for(old(store)@.subscriptions.take(0), newsletter_issue_id));
    }
    while i < store.subscriptions.len()
        invariant
            i <= store.subscriptions.len(),
            store@.subscriptions == old(store)@.subscriptions,
            store@.subscription_tokens == old(store)@.subscription_tokens,
            store@.newsletter_issues == old(store)@.newsletter_issues,
            store@.idempotency == old(store)@.idempotency,
            store@.users == old(store)@.users,
            store@.issue_delivery_queue == old(store)@.issue_delivery_queue + delivery_tasks_for(
                old(store)@.subscriptions.take(i as int),
                newsletter_issue_id,
            ),
        decreases store.subscriptions.len() - i,
    {
        proof {
            let pre = old(store)@.subscriptions.take(i as int);
            let cur = old(store)@.subscriptions.take(i + 1);
            assert(cur.drop_last() =~= pre);
            assert(cur.last() == old(store)@.subscriptions[i as int]);
        }
        let is_confirmed = match store.subscriptions[i].status {
            crate::store::SubscriberStatus::Confirmed => true,
            crate::store::SubscriberStatus::PendingConfirmation => false,
        };
        if is_confirmed {
            let email = store.subscriptions[i].email.clone();
            let task = IssueDeliveryQueue { newsletter_issue_id, subscriber_email: email };
            let ghost q0 = store@.issue_delivery_queue;
            let ghost tv = task@;
            store.issue_delivery_queue.push(task);
            proof {
                let pre = old(store)@.subscriptions.take(i as int);
                let cur = old(store)@.subscriptions.take(i + 1);
                assert(store@.issue_delivery_queue =~= q0.push(tv));
                assert(tv == (TaskView {
                    newsletter_issue_id,
                    subscriber_email: old(store)@.subscriptions[i as int].email,
                }));
                assert(delivery_tasks_for(cur, newsletter_issue_id) == delivery_tasks_for(
                    pre,
                    newsletter_issue_id,
                ).push(
                    TaskView {
                        newsletter_issue_id,
                        subscriber_email: old(store)@.subscriptions[i as int].email,
                    },
                ));
                assert(store@.issue_delivery_queue =~= old(store)@.issue_delivery_queue
                    + delivery_tasks_for(cur, newsletter_issue_id));
            }
        } else {
            proof {
                let pre = old(store)@.subscriptions.take(i as int);
                let cur = old(store)@.subscriptions.take(i + 1);
                assert(delivery_tasks_for(cur, newsletter_issue_id) == delivery_tasks_for(
                    pre,
                    newsletter_issue_id,
                ));
                assert(store@.issue_delivery_queue =~= old(store)@.issue_delivery_queue
                    + delivery_tasks_for(cur, newsletter_issue_id));
            }
        }
        i = i + 1;
    }
    proof {
        let m0 = old(store)@;
        assert(m0.subscriptions.take(m0.subscriptions.len() as int) =~= m0.subscriptions);
        crate::store::lemma_delivery_tasks_len(m0.subscriptions, newsletter_issue_id);
        let tasks = delivery_tasks_for(m0.subscriptions, newsletter_issue_id);
        let n = m0.issue_delivery_queue.len() as int;
        assert forall|p: int| 0 <= p < store@.issue_delivery_queue.len() implies has_issue(
            store@.newsletter_issues,
            #[trigger] store@.issue_delivery_queue[p].newsletter_issue_id,
        ) by {
            if p < n {
                assert(store@.issue_delivery_queue[p] == m0.issue_delivery_queue[p]);
                let w = choose|w: int|
                    0 <= w < m0.newsletter_issues.len()
                        && #[trigger] m0.newsletter_issues[w].newsletter_issue_id
                        == m0.issue_delivery_queue[p].newsletter_issue_id;
                assert(store@.newsletter_issues[w].newsletter_issue_id
                    == store@.issue_delivery_queue[p].newsletter_issue_id);
            } else {
                assert(store@.issue_delivery_queue[p] == tasks[p - n]);
                assert(store@.issue_delivery_queue[p].newsletter_issue_id
                    == newsletter_issue_id);
            }
        }
    }
}

/// The store after inserting issue `issue_id` and fanning out its delivery
/// tasks, atomically: the issue identity is fresh, the issue row is appended,
/// one task per confirmed subscriber is appended to the queue, and nothing
/// else changed.
pub open spec fn issue_published(
    m0: StoreModel,
    m1: StoreModel,
    title: Seq<char>,
    text: Seq<char>,
    html: Seq<char>,
    issue_id: u128,
    t: i64,
) -> bool {
    &&& !has_issue(m0.newsletter_issues, issue_id)
    &&& m1.newsletter_issues == m0.newsletter_issues.push(
        IssueView { newsletter_issue_id: issue_id, title, text, html, published_at: t },
    )
    &&& m1.issue_delivery_queue == m0.issue_delivery_queue + delivery_tasks_for(
        m0.subscriptions,
        issue_id,
    )
    &&& m1.subscriptions == m0.subscriptions
    &&& m1.subscription_tokens == m0.subscription_tokens
    &&& m1.idempotency == m0.idempotency
    &&& m1.users == m0.users
}

/// The store after a first, completed publish attempt for (user, key): the
/// issue row inserted with a fresh identity, one delivery task per confirmed
/// subscriber appended, and the redirect response recorded under (user, key)
/// — nothing else changed.
pub open spec fn publish_completed(
    m0: StoreModel,
    m1: StoreModel,
    title: Seq<char>,
    text: Seq<char>,
    html: Seq<char>,
    user_id: u128,
    key: Seq<char>,
    issue_id: u128,
    t_issue: i64,
    t_rec: i64,
) -> bool {
    &&& !has_record(m0.idempotency, user_id, key)
    &&& !has_issue(m0.newsletter_issues, issue_id)
    &&& m1.newsletter_issues == m0.newsletter_issues.push(
        IssueView { newsletter_issue_id: issue_id, title, text, html, published_at: t_issue },
    )
    &&& m1.issue_delivery_queue == m0.issue_delivery_queue + delivery_tasks_for(
        m0.subscriptions,
        issue_id,
    )
    &&& m1.subscriptions == m0.subscriptions
    &&& m1.subscription_tokens == m0.subscription_tokens
    &&& m1.users == m0.users
    &&& m1.idempotency == m0.idempotency.push(
        IdemView {
            user_id,
            idempotency_key: key,
            response: Option::Some(see_other_view("/admin/newsletter"@)),
            created_at: t_rec,
        },
    )
}

/// Inserts the newsletter issue with a fresh identity and fans out its
/// delivery tasks, atomically: on a conflict nothing at all changes.
pub fn insert_issue_and_enqueue_tasks(
    store: &mut Store,
    title: String,
    text: String,
    html: String,
) -> (r: Result<(), PublishError>)
    requires
        old(store).inv(),
    ensures
        final(store).inv(),
        r is Ok ==> exists|issue_id: u128, t: i64|
            issue_published(old(store)@, final(store)@, title@, text@, html@, issue_id, t),
        r is Err ==> final(store)@ == old(store)@,
{
    let newsletter_issue_id = new_uuid();
    let now = now_ms();
    let ghost m0 = old(store)@;
    match insert_issue_record(store, newsletter_issue_id, title, text, html, now) {
        Err(e) => Err(e),
        Ok(_) => {
            proof {
                let n = m0.newsletter_issues.len() as int;
                assert(store@.newsletter_issues[n].newsletter_issue_id == newsletter_issue_id);
                assert(has_issue(store@.newsletter_issues, newsletter_issue_id));
            }
            enqueue_delivery_tasks(store, newsletter_issue_id);
            proof {
                assert(issue_published(
                    m0,
                    store@,
                    title@,
                    text@,
                    html@,
                    newsletter_issue_id,
                    now,
                ));
            }
            Ok(())
        },
    }
}

/// `POST /admin/newsletter`, the idempotent publish endpoint.
///
/// An empty idempotency key or an unknown user fails the request with
/// nothing written. Otherwise the request claims the barrier for (user, key):
/// the first attempt publishes the issue, fans out the delivery tasks,
/// records its redirect response and returns it; a retry with the same key
/// returns the recorded response byte for byte and changes nothing. While
/// the barrier is held with no response recorded yet, the request fails with
/// nothing changed, and the caller retries — the deployed service waits on
/// the record instead of surfacing the race.
pub fn newsletter_delivery(body: BodyData, store: &mut Store, user_id: UserId) -> (r: Result<
    HttpResponse,
    PublishError,
>)
    requires
        old(store).inv(),
    ensures
        final(store).inv(),
        body.idempotency_key@.len() == 0 ==> r is Err && final(store)@ == old(store)@,
        body.idempotency_key@.len() > 0 && !has_user(old(store)@.users, user_id.0) ==> r is Err
            && final(store)@ == old(store)@,
        body.idempotency_key@.len() > 0 && has_user(old(store)@.users, user_id.0) && !has_record(
            old(store)@.idempotency,
            user_id.0,
            body.idempotency_key@,
        ) ==> match r {
            Result::Ok(resp) => {
                &&& resp@ == see_other_view("/admin/newsletter"@)
                &&& exists|issue_id: u128, t_issue: i64, t_rec: i64|
                    publish_completed(
                        old(store)@,
                        final(store)@,
                        body.title@,
                        body.text@,
                        body.html@,
                        user_id.0,
                        body.idempotency_key@,
                        issue_id,
                        t_issue,
                        t_rec,
                    )
            },
            Result::Err(_) => {
                &&& exists|t: i64|
                    final(store)@.idempotency == old(store)@.idempotency.push(
                        null_record(user_id.0, body.idempotency_key@, t),
                    )
                &&& final(store)@.subscriptions == old(store)@.subscriptions
                &&& final(store)@.subscription_tokens == old(store)@.subscription_tokens
                &&& final(store)@.newsletter_issues == old(store)@.newsletter_issues
                &&& final(store)@.issue_delivery_queue == old(store)@.issue_delivery_queue
                &&& final(store)@.users == old(store)@.users
            },
        },
        body.idempotency_key@.len() > 0 && has_user(old(store)@.users, user_id.0) && has_record(
            old(store)@.idempotency,
            user_id.0,
            body.idempotency_key@,
        ) ==> {
            &&& final(store)@ == old(store)@
            &&& match record_of(
                old(store)@.idempotency,
                user_id.0,
                body.idempotency_key@,
            ).response {
                Option::Some(v) => r matches Ok(resp) && resp@ == v,
                Option::None => r is Err,
            }
        },
{
    let BodyData { title, text, html, idempotency_key } = body;
    let key = match IdempotencyKey::try_new(idempotency_key) {
        Ok(k) => k,
        Err(e) => { return Err(PublishError::UnexpectedError(e)); },
    };
    match get_username(user_id.0, store) {
        Ok(_) => {},
        Err(e) => { return Err(PublishError::UnexpectedError(e)); },
    }
    match try_processing(store, &key, user_id.0) {
        Err(_) => {
            proof {
                assert(store@ =~= old(store)@);
            }
            Err(
                PublishError::UnexpectedError(
                    "The response for this idempotency key is not recorded yet".to_owned(),
                ),
            )
        },
        Ok(NextAction::ReturnSavedResponse(saved)) => {
            proof {
                assert(store@ =~= old(store)@);
            }
            Ok(saved)
        },
        Ok(NextAction::StartProcessing) => {
            let ghost m0 = old(store)@;
            let ghost m_g = store@;
            let ghost t_rec = choose|t: i64|
                m_g.idempotency == m0.idempotency.push(null_record(user_id.0, key@, t));
            match insert_issue_and_enqueue_tasks(store, title, text, html) {
                Err(e) => Err(e),
                Ok(_) => {
                    let ghost m_p = store@;
                    let ghost (issue_id, t_issue) = choose|issue_id: u128, t_issue: i64|
                        issue_published(m_g, m_p, title@, text@, html@, issue_id, t_issue);
                    let response = see_other("/admin/newsletter");
                    proof {
                        let n = m0.idempotency.len() as int;
                        assert(idem_matches(m_p.idempotency[n], user_id.0, key@));
                        crate::idempotency::lemma_record_index_unique(
                            m_p.idempotency,
                            user_id.0,
                            key@,
                            n,
                        );
                    }
                    let response = save_response(store, &key, user_id.0, response);
                    proof {
                        let n = m0.idempotency.len() as int;
                        assert(store@.idempotency =~= m0.idempotency.push(
                            IdemView {
                                user_id: user_id.0,
                                idempotency_key: key@,
                                response: Option::Some(see_other_view("/admin/newsletter"@)),
                                created_at: t_rec,
                            },
                        ));
                        assert(publish_completed(
                            m0,
                            store@,
                            title@,
                            text@,
                            html@,
                            user_id.0,
                            key@,
                            issue_id,
                            t_issue,
                            t_rec,
                        ));
                    }
                    Ok(response)
                },
            }
        },
    }
}

/// Law: publishing with a fresh idempotency key while zero confirmed
/// subscribers exist enqueues zero delivery tasks — and still succeeds, the
/// redirect recorded and returned as for any other publish.
pub proof fn lemma_publish_zero_confirmed(
    m0: StoreModel,
    m1: StoreModel,
    title: Seq<char>,
    text: Seq<char>,
    html: Seq<char>,
    user_id: u128,
    key: Seq<char>,
    issue_id: u128,
    t_issue: i64,
    t_rec: i64,
)
    requires
        publish_completed(m0, m1, title, text, html, user_id, key, issue_id, t_issue, t_rec),
        confirmed_subscribers(m0.subscriptions).len() == 0,
    ensures
        m1.issue_delivery_queue == m0.issue_delivery_queue,
{
    crate::store::lemma_delivery_tasks_len(m0.subscriptions, issue_id);
    assert(m0.issue_delivery_queue + delivery_tasks_for(m0.subscriptions, issue_id)
        =~= m0.issue_delivery_queue);
}

/// Law: publishing twice with the same idempotency key writes once and
/// replays. After a completed publish the record for (user, key) holds
/// exactly the returned redirect, so by [`newsletter_delivery`]'s contract a
/// second request with the same key returns a byte-identical response and
/// changes nothing: one issue row and one fan-out of exactly as many tasks
/// as there were confirmed subscribers at the first attempt.
pub proof fn lemma_publish_replay(
    m0: StoreModel,
    m1: StoreModel,
    title: Seq<char>,
    text: Seq<char>,
    html: Seq<char>,
    user_id: u128,
    key: Seq<char>,
    issue_id: u128,
    t_issue: i64,
    t_rec: i64,
)
    requires
        store_inv(m0),
        publish_completed(m0, m1, title, text, html, user_id, key, issue_id, t_issue, t_rec),
    ensures
        has_record(m1.idempotency, user_id, key),
        record_of(m1.idempotency, user_id, key).response == Option::Some(
            see_other_view("/admin/newsletter"@),
        ),
        saved_response_of(m1.idempotency, user_id, key) == Option::Some(
            see_other_view("/admin/newsletter"@),
        ),
        m1.newsletter_issues.len() == m0.newsletter_issues.len() + 1,
        m1.issue_delivery_queue.len() == m0.issue_delivery_queue.len() + confirmed_subscribers(
            m0.subscriptions,
        ).len(),
{
    let n = m0.idempotency.len() as int;
    assert(idem_matches(m1.idempotency[n], user_id, key));
    assert forall|p: int, q: int|
        0 <= p < m1.idempotency.len() && 0 <= q < m1.idempotency.len() && p != q implies !(
    #[trigger] m1.idempotency[p].user_id == #[trigger] m1.idempotency[q].user_id
        && m1.idempotency[p].idempotency_key == m1.idempotency[q].idempotency_key) by {
        if p == n {
            assert(!idem_matches(m0.idempotency[q], user_id, key));
        } else if q == n {
            assert(!idem_matches(m0.idempotency[p], user_id, key));
        }
    }
    crate::idempotency::lemma_record_index_unique(m1.idempotency, user_id, key, n);
    crate::store::lemma_delivery_tasks_len(m0.subscriptions, issue_id);
}

} // verus!
