//! The idempotency store: a durable map from (user, idempotency key) to the
//! first completed response for that key. Inserting the record with no
//! response is the concurrency barrier — of all attempts racing on one key,
//! exactly one insert adds a row, and only that attempt goes on to do the
//! work; the rest wait for the recorded response and replay it verbatim.

use vstd::prelude::*;
use crate::http::HttpResponse;
use crate::store::{
    has_record, idem_matches, now_ms, record_index, record_of, saved_response_of, IdemView,
    InsertResponse, Store,
};

verus! {

/// A client-supplied idempotency key, validated non-empty.
pub struct IdempotencyKey {
    key: String,
}

impl View for IdempotencyKey {
    type V = Seq<char>;

    closed spec fn view(&self) -> Seq<char> {
        self.key@
    }
}

impl IdempotencyKey {
    /// A key accepted by [`IdempotencyKey::try_new`] is never empty.
    pub closed spec fn wf(&self) -> bool {
        self.key@.len() > 0
    }

    /// Validates a client-supplied key: any non-empty string is accepted, the
    /// empty string is rejected.
    pub fn try_new(s: String) -> (r: Result<IdempotencyKey, String>)
        ensures
            s@.len() > 0 <==> r is Ok,
            r matches Ok(k) ==> k@ == s@ && k.wf(),
    {
        if s.as_str().is_empty() {
            Err("The idempotency key cannot be empty".to_owned())
        } else {
            Ok(IdempotencyKey { key: s })
        }
    }

    /// The key as the string it was supplied as.
    pub fn as_str(&self) -> (r: &String)
        ensures
            r@ == self@,
    {
        &self.key
    }
}

/// What the caller of [`try_processing`] must do next.
pub enum NextAction {
    /// The barrier was won: this attempt must do the work and record the
    /// response with [`save_response`].
    StartProcessing,
    /// Another attempt already completed: return this recorded response
    /// verbatim.
    ReturnSavedResponse(HttpResponse),
}

/// The barrier is held by an attempt that has not recorded its response yet.
/// The deployed service polls [`get_saved_response`] until the response
/// appears; the driving loop outside the verified core performs that wait.
pub struct PendingAttempt;

/// The record a beginning attempt inserts: (user, key) with no response.
pub open spec fn null_record(user_id: u128, key: Seq<char>, created_at: i64) -> IdemView {
    IdemView { user_id, idempotency_key: key, response: Option::None, created_at }
}

impl Store {
    /// The index of the idempotency record for (user, key), if any.
    fn idem_index(&self, user_id: u128, key: &String) -> (r: Option<usize>)
        ensures
            match r {
                Option::Some(i) => i < self.idempotency.len() && idem_matches(
                    self@.idempotency[i as int],
                    user_id,
                    key@,
                ),
                Option::None => !has_record(self@.idempotency, user_id, key@),
            },
    {
        let mut i: usize = 0;
        while i < self.idempotency.len()
            invariant
                i <= self.idempotency.len(),
                forall|j: int|
                    0 <= j < i ==> !#[trigger] idem_matches(self@.idempotency[j], user_id, key@),
            decreases self.idempotency.len() - i,
        {
            if self.idempotency[i].user_id == user_id && self.idempotency[i].idempotency_key
                == *key {
                return Some(i);
            }
            i = i + 1;
        }
        None
    }
}

/// With unique (user, key) pairs, any matching index is the record's index.
pub proof fn lemma_record_index_unique(recs: Seq<IdemView>, user_id: u128, key: Seq<char>, i: int)
    requires
        0 <= i < recs.len(),
        idem_matches(recs[i], user_id, key),
        forall|p: int, q: int|
            0 <= p < recs.len() && 0 <= q < recs.len() && p != q
                ==> !(#[trigger] recs[p].user_id == #[trigger] recs[q].user_id
                && recs[p].idempotency_key == recs[q].idempotency_key),
    ensures
        has_record(recs, user_id, key),
        record_index(recs, user_id, key) == i,
        record_of(recs, user_id, key) == recs[i],
{
    assert(has_record(recs, user_id, key));
    let j = record_index(recs, user_id, key);
    assert(idem_matches(recs[j], user_id, key));
    if i != j {
        assert(!(recs[i].user_id == recs[j].user_id && recs[i].idempotency_key
            == recs[j].idempotency_key));
    }
}

/// Reconstructs the response recorded for (user, key): `None` when no record
/// exists or the record's response fields are still unset.
pub fn get_saved_response(store: &Store, key: &IdempotencyKey, user_id: u128) -> (r: Option<
    HttpResponse,
>)
    requires
        store.inv(),
    ensures
        match r {
            Option::Some(resp) => saved_response_of(store@.idempotency, user_id, key@)
                matches Option::Some(v) && resp@ == v,
            Option::None => saved_response_of(store@.idempotency, user_id, key@) is None,
        },
{
    match store.idem_index(user_id, key.as_str()) {
        Option::None => Option::None,
        Option::Some(i) => {
            proof {
                lemma_record_index_unique(store@.idempotency, user_id, key@, i as int);
            }
            match &store.idempotency[i].response {
                Option::None => Option::None,
                Option::Some(resp) => Option::Some(resp.clone()),
            }
        },
    }
}

/// Records the response for (user, key) — the update that releases waiting
/// retries — and hands the response back to be sent, unchanged. A missing
/// record is left missing: only an attempt that won the barrier calls this.
pub fn save_response(
    store: &mut Store,
    key: &IdempotencyKey,
    user_id: u128,
    http_response: HttpResponse,
) -> (r: HttpResponse)
    requires
        old(store).inv(),
    ensures
        final(store).inv(),
        r@ == http_response@,
        final(store)@.subscriptions == old(store)@.subscriptions,
        final(store)@.subscription_tokens == old(store)@.subscription_tokens,
        final(store)@.newsletter_issues == old(store)@.newsletter_issues,
        final(store)@.issue_delivery_queue == old(store)@.issue_delivery_queue,
        final(store)@.users == old(store)@.users,
        has_record(old(store)@.idempotency, user_id, key@) ==> final(store)@.idempotency == old(
            store,
        )@.idempotency.update(
            record_index(old(store)@.idempotency, user_id, key@),
            IdemView {
                user_id,
                idempotency_key: key@,
                response: Option::Some(http_response@),
                created_at: record_of(old(store)@.idempotency, user_id, key@).created_at,
            },
        ),
        !has_record(old(store)@.idempotency, user_id, key@) ==> final(store)@ == old(store)@,
        saved_response_of(final(store)@.idempotency, user_id, key@) == saved_response_of(
            old(store)@.idempotency,
            user_id,
            key@,
        ) || saved_response_of(final(store)@.idempotency, user_id, key@) == Option::Some(
            http_response@,
        ),
{
    match store.idem_index(user_id, key.as_str()) {
        Option::None => {
            proof {
                assert(store@ =~= old(store)@);
            }
            http_response
        },
        Option::Some(i) => {
            proof {
                lemma_record_index_unique(store@.idempotency, user_id, key@, i as int);
            }
            let created_at = store.idempotency[i].created_at;
            let key_string = key.as_str().clone();
            let stored = http_response.clone();
            let row = InsertResponse {
                user_id,
                idempotency_key: key_string,
                response: Option::Some(stored),
                created_at,
            };
            store.idempotency[i] = row;
            proof {
                let recs = old(store)@.idempotency;
                let j = record_index(recs, user_id, key@);
                assert(store@.idempotency =~= recs.update(
                    j,
                    IdemView {
                        user_id,
                        idempotency_key: key@,
                        response: Option::Some(http_response@),
                        created_at: record_of(recs, user_id, key@).created_at,
                    },
                ));
                assert(store@.subscriptions =~= old(store)@.subscriptions);
                assert(store@.subscription_tokens =~= old(store)@.subscription_tokens);
                assert(store@.newsletter_issues =~= old(store)@.newsletter_issues);
                assert(store@.issue_delivery_queue =~= old(store)@.issue_delivery_queue);
                assert(store@.users =~= old(store)@.users);
                lemma_record_index_unique(store@.idempotency, user_id, key@, j);
            }
            http_response
        },
    }
}

/// The concurrency barrier of the publish endpoint. Inserts the (user, key)
/// record with no response if it is absent — the caller has won the barrier and
/// must do the work. If a completed record exists, the recorded response is
/// returned for verbatim replay. If the record exists but is not yet
/// populated, the attempt that holds the barrier is still running (or died
/// before recording — see [`PendingAttempt`]) and the caller must wait.
pub fn try_processing(store: &mut Store, key: &IdempotencyKey, user_id: u128) -> (r: Result<
    NextAction,
    PendingAttempt,
>)
    requires
        old(store).inv(),
    ensures
        final(store).inv(),
        final(store)@.subscriptions == old(store)@.subscriptions,
        final(store)@.subscription_tokens == old(store)@.subscription_tokens,
        final(store)@.newsletter_issues == old(store)@.newsletter_issues,
        final(store)@.issue_delivery_queue == old(store)@.issue_delivery_queue,
        final(store)@.users == old(store)@.users,
        !has_record(old(store)@.idempotency, user_id, key@) ==> {
            &&& r matches Ok(NextAction::StartProcessing)
            &&& exists|t: i64|
                final(store)@.idempotency == old(store)@.idempotency.push(
                    null_record(user_id, key@, t),
                )
        },
        has_record(old(store)@.idempotency, user_id, key@) ==> {
            &&& final(store)@.idempotency == old(store)@.idempotency
            &&& match record_of(old(store)@.idempotency, user_id, key@).response {
                Option::Some(v) => r matches Ok(NextAction::ReturnSavedResponse(resp)) && resp@
                    == v,
                Option::None => r is Err,
            }
        },
        has_record(final(store)@.idempotency, user_id, key@),
{
    match store.idem_index(user_id, key.as_str()) {
        Option::None => {
            let created_at = now_ms();
            let row = InsertResponse {
                user_id,
                idempotency_key: key.as_str().clone(),
                response: Option::None,
                created_at,
            };
            store.idempotency.push(row);
            proof {
                assert(store@.idempotency =~= old(store)@.idempotency.push(
                    null_record(user_id, key@, created_at),
                ));
                assert(store@.subscriptions =~= old(store)@.subscriptions);
                assert(store@.subscription_tokens =~= old(store)@.subscription_tokens);
                assert(store@.newsletter_issues =~= old(store)@.newsletter_issues);
                assert(store@.issue_delivery_queue =~= old(store)@.issue_delivery_queue);
                assert(store@.users =~= old(store)@.users);
                let n = old(store)@.idempotency.len() as int;
                assert(idem_matches(store@.idempotency[n], user_id, key@));
                let recs = old(store)@.idempotency;
                let recs2 = store@.idempotency;
                assert forall|p: int, q: int|
                    0 <= p < recs2.len() && 0 <= q < recs2.len() && p != q implies !(
                #[trigger] recs2[p].user_id == #[trigger] recs2[q].user_id
                    && recs2[p].idempotency_key == recs2[q].idempotency_key) by {
                    if p == n {
                        assert(!idem_matches(recs[q], user_id, key@));
                    } else if q == n {
                        assert(!idem_matches(recs[p], user_id, key@));
                    }
                }
            }
            Ok(NextAction::StartProcessing)
        },
        Option::Some(i) => {
            proof {
                lemma_record_index_unique(store@.idempotency, user_id, key@, i as int);
                assert(store@ =~= old(store)@);
            }
            match &store.idempotency[i].response {
                Option::Some(resp) => Ok(NextAction::ReturnSavedResponse(resp.clone())),
                Option::None => Err(PendingAttempt),
            }
        },
    }
}

/// Law: the barrier admits at most one attempt per (user, key). The instant an
/// attempt wins the barrier, the record for (user, key) is present — and
/// [`try_processing`] answers `StartProcessing` only while the record is
/// absent, so of any number of attempts on one (user, key), in whatever
/// order their barrier steps interleave, only the first can start processing;
/// together with [`lemma_record_persists`] the record stays present forever
/// after.
pub proof fn lemma_barrier_exclusive(recs: Seq<IdemView>, user_id: u128, key: Seq<char>, t: i64)
    ensures
        has_record(recs.push(null_record(user_id, key, t)), user_id, key),
{
    let n = recs.len() as int;
    assert(idem_matches(recs.push(null_record(user_id, key, t))[n], user_id, key));
}

/// Law: recording a response, or beginning an unrelated attempt, never
/// removes an idempotency record — whoever once won the barrier for (user, key)
/// keeps it. Appending any record and updating any record in place both
/// preserve the presence of (user, key).
pub proof fn lemma_record_persists(
    recs: Seq<IdemView>,
    user_id: u128,
    key: Seq<char>,
    i: int,
    rec: IdemView,
)
    requires
        has_record(recs, user_id, key),
    ensures
        has_record(recs.push(rec), user_id, key),
        0 <= i < recs.len() && idem_matches(rec, recs[i].user_id, recs[i].idempotency_key)
            ==> has_record(recs.update(i, rec), user_id, key),
{
    let w = choose|w: int| 0 <= w < recs.len() && #[trigger] idem_matches(recs[w], user_id, key);
    assert(idem_matches(recs.push(rec)[w], user_id, key));
    if 0 <= i < recs.len() && idem_matches(rec, recs[i].user_id, recs[i].idempotency_key) {
        if i == w {
            assert(idem_matches(recs.update(i, rec)[w], user_id, key));
        } else {
            assert(idem_matches(recs.update(i, rec)[w], user_id, key));
        }
    }
}

} // verus!
