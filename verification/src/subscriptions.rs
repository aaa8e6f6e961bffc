//! The subscription lifecycle: a valid subscribe request inserts a pending
//! subscriber together with a fresh confirmation token in one transaction;
//! presenting the token later flips that subscriber — and only that
//! subscriber — to `Confirmed`. Confirming is idempotent.

use vstd::prelude::*;
use vstd::string::StringExecFns;
use crate::domain::{email_accepted, name_accepted, NewSubscriber, SubscribeFormData};
use crate::http::{empty_response_view, HttpResponse};
use crate::store::{
    has_subscriber, has_token, lemma_sub_index_unique, lemma_token_index_unique, new_uuid, now_ms,
    set_confirmed, store_inv, sub_index, token_subscriber, StoreModel, Store, SubView,
    SubscriberStatus, SubscriptionAdd, SubscriptionTokensAdd, TokenView,
};

verus! {

/// An ASCII letter or digit.
pub open spec fn alphanumeric_char(c: char) -> bool {
    ('A' <= c && c <= 'Z') || ('a' <= c && c <= 'z') || ('0' <= c && c <= '9')
}

/// Relies on rand's `Alphanumeric` distribution, sampled from `thread_rng`:
/// its source draws uniformly from the 62 ASCII letters and digits. Nothing
/// more is assumed of the draw.
#[verifier::external_body]
fn sample_alphanumeric_char() -> (c: char)
    ensures
        alphanumeric_char(c),
{
    char::from(rand::Rng::sample(&mut rand::thread_rng(), rand::distributions::Alphanumeric))
}

/// Relies on `String::push`: appends the character to the end of the string.
#[verifier::external_body]
fn push_char(s: &mut String, c: char)
    ensures
        final(s)@ == old(s)@.push(c),
{
    s.push(c)
}

/// A confirmation token: 25 characters drawn from the ASCII letters and
/// digits.
fn generate_subscription_token() -> (r: String)
    ensures
        r@.len() == 25,
        forall|i: int| 0 <= i < r@.len() ==> alphanumeric_char(#[trigger] r@[i]),
{
    let mut token = String::new();
    let mut i: usize = 0;
    while i < 25
        invariant
            i <= 25,
            token@.len() == i,
            forall|j: int| 0 <= j < token@.len() ==> alphanumeric_char(#[trigger] token@[j]),
        decreases 25 - i,
    {
        let c = sample_alphanumeric_char();
        push_char(&mut token, c);
        i = i + 1;
    }
    token
}

/// Why inserting a subscriber failed. In the deployed service the pool and
/// worker-thread failures arise in the processes around the store; the store
/// model itself fails only on a row conflict.
#[derive(Debug)]
pub enum InsertSubscriberError {
    DbPoolErr,
    TransactionError,
    ThreadPoolErr,
}

/// The store after a valid subscribe request: one pending subscriber row and
/// one token row mapping `token` to it, both appended in one transaction;
/// every other table untouched.
pub open spec fn pending_subscriber_added(
    m0: StoreModel,
    m1: StoreModel,
    email: Seq<char>,
    name: Seq<char>,
    id: u128,
    token: Seq<char>,
    t: i64,
) -> bool {
    &&& !has_subscriber(m0.subscriptions, id)
    &&& !has_token(m0.subscription_tokens, token)
    &&& m1.subscriptions == m0.subscriptions.push(
        SubView { id, email, name, subscribed_at: t, status: SubscriberStatus::PendingConfirmation },
    )
    &&& m1.subscription_tokens == m0.subscription_tokens.push(
        TokenView { subscription_token: token, subscriber_id: id },
    )
    &&& m1.newsletter_issues == m0.newsletter_issues
    &&& m1.issue_delivery_queue == m0.issue_delivery_queue
    &&& m1.idempotency == m0.idempotency
    &&& m1.users == m0.users
}

/// Inserts the pending subscriber row and its token row, both with the given
/// identity material. Succeeds exactly when the identity and the token are
/// fresh; on a conflict (the durable tables' unique constraints) nothing
/// changes.
pub fn insert_subscriber_record(
    store: &mut Store,
    insert: &NewSubscriber,
    sub_id: u128,
    sub_token: String,
    now: i64,
) -> (r: Result<String, InsertSubscriberError>)
    requires
        old(store).inv(),
    ensures
        final(store).inv(),
        !has_subscriber(old(store)@.subscriptions, sub_id) && !has_token(
            old(store)@.subscription_tokens,
            sub_token@,
        ) ==> {
            &&& r matches Ok(tk) && tk@ == sub_token@
            &&& pending_subscriber_added(
                old(store)@,
                final(store)@,
                insert.email@,
                insert.name@,
                sub_id,
                sub_token@,
                now,
            )
        },
        !(!has_subscriber(old(store)@.subscriptions, sub_id) && !has_token(
            old(store)@.subscription_tokens,
            sub_token@,
        )) ==> {
            &&& r matches Err(InsertSubscriberError::TransactionError)
            &&& final(store)@ == old(store)@
        },
{
    let id_taken = match store.subscription_index(sub_id) {
        Option::Some(_) => true,
        Option::None => false,
    };
    let token_taken = match store.token_row_index(&sub_token) {
        Option::Some(_) => true,
        Option::None => false,
    };
    if id_taken || token_taken {
        proof {
            assert(store@ =~= old(store)@);
        }
        return Err(InsertSubscriberError::TransactionError);
    }
    let sub_row = SubscriptionAdd {
        id: sub_id,
        email: insert.email.inner(),
        name: insert.name.inner(),
        subscribed_at: now,
        status: SubscriberStatus::PendingConfirmation,
    };
    let token_row = SubscriptionTokensAdd {
        subscription_token: sub_token.clone(),
        subscriber_id: sub_id,
    };
    store.subscriptions.push(sub_row);
    store.subscription_tokens.push(token_row);
    proof {
        let m0 = old(store)@;
        let m1 = store@;
        let ns = m0.subscriptions.len() as int;
        let nt = m0.subscription_tokens.len() as int;
        assert(m1.subscriptions =~= m0.subscriptions.push(
            SubView {
                id: sub_id,
                email: insert.email@,
                name: insert.name@,
                subscribed_at: now,
                status: SubscriberStatus::PendingConfirmation,
            },
        ));
        assert(m1.subscription_tokens =~= m0.subscription_tokens.push(
            TokenView { subscription_token: sub_token@, subscriber_id: sub_id },
        ));
        assert(m1.newsletter_issues =~= m0.newsletter_issues);
        assert(m1.issue_delivery_queue =~= m0.issue_delivery_queue);
        assert(m1.idempotency =~= m0.idempotency);
        assert(m1.users =~= m0.users);
        assert forall|p: int, q: int|
            0 <= p < m1.subscriptions.len() && 0 <= q < m1.subscriptions.len() && p != q implies
        #[trigger] m1.subscriptions[p].id != #[trigger] m1.subscriptions[q].id by {
            if p == ns {
                assert(!(m0.subscriptions[q].id == sub_id));
            } else if q == ns {
                assert(!(m0.subscriptions[p].id == sub_id));
            }
        }
        assert forall|p: int, q: int|
            0 <= p < m1.subscription_tokens.len() && 0 <= q < m1.subscription_tokens.len() && p
            != q implies #[trigger] m1.subscription_tokens[p].subscription_token != #[trigger]
        m1.subscription_tokens[q].subscription_token by {
            if p == nt {
                assert(!(m0.subscription_tokens[q].subscription_token == sub_token@));
            } else if q == nt {
                assert(!(m0.subscription_tokens[p].subscription_token == sub_token@));
            }
        }
        assert forall|p: int| 0 <= p < m1.subscription_tokens.len() implies has_subscriber(
            m1.subscriptions,
            #[trigger] m1.subscription_tokens[p].subscriber_id,
        ) by {
            if p < nt {
                let w = choose|w: int|
                    0 <= w < m0.subscriptions.len() && #[trigger] m0.subscriptions[w].id
                        == m0.subscription_tokens[p].subscriber_id;
                assert(m1.subscriptions[w].id == m1.subscription_tokens[p].subscriber_id);
            } else {
                assert(m1.subscriptions[ns].id == sub_id);
            }
        }
    }
    Ok(sub_token)
}

/// Saves a new pending subscriber with a freshly drawn identity and a
/// freshly generated 25-character token, and returns the token. Fails — with
/// the tables untouched — only if the drawn identity or token collides with
/// an existing row.
pub fn insert_subscriber(store: &mut Store, insert: &NewSubscriber) -> (r: Result<
    String,
    InsertSubscriberError,
>)
    requires
        old(store).inv(),
    ensures
        final(store).inv(),
        r matches Ok(tk) ==> {
            &&& tk@.len() == 25
            &&& forall|i: int| 0 <= i < tk@.len() ==> alphanumeric_char(#[trigger] tk@[i])
            &&& exists|id: u128, t: i64|
                pending_subscriber_added(
                    old(store)@,
                    final(store)@,
                    insert.email@,
                    insert.name@,
                    id,
                    tk@,
                    t,
                )
        },
        r is Err ==> final(store)@ == old(store)@,
{
    let sub_id = new_uuid();
    let sub_token = generate_subscription_token();
    let now = now_ms();
    let ghost token_view = sub_token@;
    let r = insert_subscriber_record(store, insert, sub_id, sub_token, now);
    proof {
        if r is Ok {
            assert(pending_subscriber_added(
                old(store)@,
                store@,
                insert.email@,
                insert.name@,
                sub_id,
                token_view,
                now,
            ));
        }
    }
    r
}

/// Flips the subscriber that `subscription_token` resolves to — and no other
/// row — to `Confirmed`. Fails, with nothing changed, exactly when the token
/// is unknown.
pub fn confirm_subscriber(store: &mut Store, subscription_token: &str) -> (r: Result<(), String>)
    requires
        old(store).inv(),
    ensures
        final(store).inv(),
        final(store)@.subscription_tokens == old(store)@.subscription_tokens,
        final(store)@.newsletter_issues == old(store)@.newsletter_issues,
        final(store)@.issue_delivery_queue == old(store)@.issue_delivery_queue,
        final(store)@.idempotency == old(store)@.idempotency,
        final(store)@.users == old(store)@.users,
        !has_token(old(store)@.subscription_tokens, subscription_token@) ==> r is Err
            && final(store)@ == old(store)@,
        has_token(old(store)@.subscription_tokens, subscription_token@) ==> {
            &&& r is Ok
            &&& final(store)@.subscriptions == set_confirmed(
                old(store)@.subscriptions,
                token_subscriber(old(store)@.subscription_tokens, subscription_token@),
            )
        },
{
    let token_string: String = subscription_token.to_owned();
    let ti = match store.token_row_index(&token_string) {
        Option::None => {
            proof {
                assert(store@ =~= old(store)@);
            }
            return Err("Failed to fetch subscriber_id from subscription_tokens table".to_owned());
        },
        Option::Some(i) => i,
    };
    proof {
        lemma_token_index_unique(store@.subscription_tokens, subscription_token@, ti as int);
    }
    let subscriber_id = store.subscription_tokens[ti].subscriber_id;
    let j = match store.subscription_index(subscriber_id) {
        Option::None => {
            // unreachable under the store invariant: every token resolves
            proof {
                assert(false);
            }
            return Err("Failed to update subscription status".to_owned());
        },
        Option::Some(j) => j,
    };
    proof {
        lemma_sub_index_unique(store@.subscriptions, subscriber_id, j as int);
    }
    let row = &store.subscriptions[j];
    let new_row = SubscriptionAdd {
        id: row.id,
        email: row.email.clone(),
        name: row.name.clone(),
        subscribed_at: row.subscribed_at,
        status: SubscriberStatus::Confirmed,
    };
    store.subscriptions[j] = new_row;
    proof {
        let m0 = old(store)@;
        assert(store@.subscriptions =~= set_confirmed(
            m0.subscriptions,
            token_subscriber(m0.subscription_tokens, subscription_token@),
        ));
        assert(store@.subscription_tokens =~= m0.subscription_tokens);
        assert(store@.newsletter_issues =~= m0.newsletter_issues);
        assert(store@.issue_delivery_queue =~= m0.issue_delivery_queue);
        assert(store@.idempotency =~= m0.idempotency);
        assert(store@.users =~= m0.users);
        let m1 = store@;
        assert(m1.subscriptions.len() == m0.subscriptions.len());
        assert forall|p: int| 0 <= p < m1.subscriptions.len() implies #[trigger] m1.subscriptions[
            p
        ].id == m0.subscriptions[p].id by {}
        assert forall|p: int| 0 <= p < m1.subscription_tokens.len() implies has_subscriber(
            m1.subscriptions,
            #[trigger] m1.subscription_tokens[p].subscriber_id,
        ) by {
            let w = choose|w: int|
                0 <= w < m0.subscriptions.len() && #[trigger] m0.subscriptions[w].id
                    == m0.subscription_tokens[p].subscriber_id;
            assert(m1.subscriptions[w].id == m1.subscription_tokens[p].subscriber_id);
        }
    }
    Ok(())
}

/// The link a confirmation e-mail carries: the confirm endpoint under the
/// application's base URL, with the subscriber's token as its query.
pub fn confirmation_link(base_url: &crate::startup::ApplicationBaseUrl, sub_token: &str) -> (r:
    String)
    ensures
        r@ == base_url@ + "/subscriptions/confirm?subscription_token="@ + sub_token@,
{
    let mut link = base_url.0.clone();
    link.append("/subscriptions/confirm?subscription_token=");
    link.append(sub_token);
    link
}

/// The confirmation message a new subscriber is sent: a fixed subject, and
/// HTML and plain-text bodies each carrying the confirmation link. The
/// transport that posts it lives outside the core.
pub struct ConfirmationEmail {
    pub subject: String,
    pub html_body: String,
    pub text_body: String,
}

/// Composes the confirmation message for a subscriber's token.
pub fn confirmation_email(
    base_url: &crate::startup::ApplicationBaseUrl,
    sub_token: &str,
) -> (r: ConfirmationEmail)
    ensures
        r.subject@ == "Welcome!"@,
        r.html_body@ == "Welcome to our newsletter! Click <a href = \""@ + (base_url@
            + "/subscriptions/confirm?subscription_token="@ + sub_token@)
            + "\">here</a> to confirm your subscription"@,
        r.text_body@ == "Welcome to our newsletter! Visit "@ + (base_url@
            + "/subscriptions/confirm?subscription_token="@ + sub_token@)
            + " to confirm subscription"@,
{
    let link = confirmation_link(base_url, sub_token);
    let subject: String = "Welcome!".to_owned();
    let mut html_body: String = "Welcome to our newsletter! Click <a href = \"".to_owned();
    html_body.append(link.as_str());
    html_body.append("\">here</a> to confirm your subscription");
    let mut text_body: String = "Welcome to our newsletter! Visit ".to_owned();
    text_body.append(link.as_str());
    text_body.append(" to confirm subscription");
    ConfirmationEmail { subject, html_body, text_body }
}

/// The outbound confirmation e-mail failed to send.
#[derive(Debug)]
pub struct SendError;

/// The outbound e-mail capability, as the deployed service has it from its
/// transport; implementations send one confirmation message carrying the
/// token's confirmation link. The store model assumes nothing of the send:
/// the subscription contracts hold whatever an implementation returns.
pub trait EmailSender {
    fn send_confirmation(
        &mut self,
        subscriber: &NewSubscriber,
        confirmation_token: &String,
    ) -> Result<(), SendError>;
}

/// Why a subscribe request failed.
#[derive(Debug)]
pub enum SubscribeError {
    /// The form was invalid; nothing was written.
    ValidationError(String),
    /// The subscriber row could not be inserted; nothing was written.
    InsertSubscriberError(InsertSubscriberError),
    /// The confirmation e-mail failed to send. The pending subscriber row
    /// already exists — the accepted inconsistency of the subscribe flow.
    SendEmailError(SendError),
}

impl SubscribeError {
    /// The HTTP status the error surfaces as.
    pub open spec fn spec_status_code(&self) -> u16 {
        match self {
            SubscribeError::ValidationError(_) => 400,
            SubscribeError::InsertSubscriberError(_) => 500,
            SubscribeError::SendEmailError(_) => 500,
        }
    }

    pub fn status_code(&self) -> (r: u16)
        ensures
            r == self.spec_status_code(),
    {
        match self {
            SubscribeError::ValidationError(_) => 400,
            SubscribeError::InsertSubscriberError(_) => 500,
            SubscribeError::SendEmailError(_) => 500,
        }
    }
}

/// A pending subscriber with some fresh identity and token was recorded for
/// (email, name); nothing else changed.
pub open spec fn subscription_recorded(
    m0: StoreModel,
    m1: StoreModel,
    email: Seq<char>,
    name: Seq<char>,
) -> bool {
    exists|id: u128, token: Seq<char>, t: i64|
        pending_subscriber_added(m0, m1, email, name, id, token, t)
}

/// The subscription service: the store operations combined with the outbound
/// e-mail capability.
pub struct NewsletterSubscriptionService<E: EmailSender> {
    pub email_sender: E,
}

impl<E: EmailSender> NewsletterSubscriptionService<E> {
    /// Validates the form and, if it is valid, inserts the pending subscriber
    /// with a fresh token and sends the confirmation e-mail. An invalid form
    /// or a failed insert leaves the store untouched; a failed send does not
    /// — the pending row stays, unconfirmable only until a mail arrives.
    pub fn create_subscription(&mut self, store: &mut Store, form: SubscribeFormData) -> (r:
        Result<(), SubscribeError>)
        requires
            old(store).inv(),
        ensures
            final(store).inv(),
            !(name_accepted(form.name@) && email_accepted(form.email@)) ==> {
                &&& r matches Err(e) && e is ValidationError
                &&& final(store)@ == old(store)@
            },
            name_accepted(form.name@) && email_accepted(form.email@) ==> match r {
                Result::Ok(_) => subscription_recorded(
                    old(store)@,
                    final(store)@,
                    form.email@,
                    form.name@,
                ),
                Result::Err(SubscribeError::SendEmailError(_)) => subscription_recorded(
                    old(store)@,
                    final(store)@,
                    form.email@,
                    form.name@,
                ),
                Result::Err(SubscribeError::InsertSubscriberError(_)) => final(store)@ == old(
                    store,
                )@,
                Result::Err(SubscribeError::ValidationError(_)) => false,
            },
    {
        let ghost email_view = form.email@;
        let ghost name_view = form.name@;
        let new_subscriber = match NewSubscriber::try_from_form(form) {
            Ok(s) => s,
            Err(e) => { return Err(SubscribeError::ValidationError(e)); },
        };
        let token = match insert_subscriber(store, &new_subscriber) {
            Ok(t) => t,
            Err(e) => { return Err(SubscribeError::InsertSubscriberError(e)); },
        };
        match self.email_sender.send_confirmation(&new_subscriber, &token) {
            Ok(_) => Ok(()),
            Err(e) => Err(SubscribeError::SendEmailError(e)),
        }
    }

    /// Confirms the subscriber the token resolves to; fails, changing
    /// nothing, when the token is unknown.
    pub fn confirm_subscription(&self, store: &mut Store, subscription_token: &str) -> (r: Result<
        (),
        String,
    >)
        requires
            old(store).inv(),
        ensures
            final(store).inv(),
            final(store)@.subscription_tokens == old(store)@.subscription_tokens,
            final(store)@.newsletter_issues == old(store)@.newsletter_issues,
            final(store)@.issue_delivery_queue == old(store)@.issue_delivery_queue,
            final(store)@.idempotency == old(store)@.idempotency,
            final(store)@.users == old(store)@.users,
            !has_token(old(store)@.subscription_tokens, subscription_token@) ==> r is Err
                && final(store)@ == old(store)@,
            has_token(old(store)@.subscription_tokens, subscription_token@) ==> {
                &&& r is Ok
                &&& final(store)@.subscriptions == set_confirmed(
                    old(store)@.subscriptions,
                    token_subscriber(old(store)@.subscription_tokens, subscription_token@),
                )
            },
            r matches Err(m) ==> m@ == "Failed to confirm subscription"@,
    {
        match confirm_subscriber(store, subscription_token) {
            Ok(_) => Ok(()),
            Err(_) => Err("Failed to confirm subscription".to_owned()),
        }
    }
}

/// `POST /subscriptions`: a valid (name, email) form yields `200` and a
/// subsequently confirmable pending subscriber; a form with an empty name or
/// a malformed e-mail yields a `ValidationError` (surfaced as `400`) and no
/// row is created.
pub fn subscribe<E: EmailSender>(
    form: SubscribeFormData,
    subscription_service: &mut NewsletterSubscriptionService<E>,
    store: &mut Store,
) -> (r: Result<HttpResponse, SubscribeError>)
    requires
        old(store).inv(),
    ensures
        final(store).inv(),
        r matches Ok(resp) ==> {
            &&& resp@ == empty_response_view(200)
            &&& name_accepted(form.name@) && email_accepted(form.email@)
            &&& subscription_recorded(old(store)@, final(store)@, form.email@, form.name@)
        },
        !(name_accepted(form.name@) && email_accepted(form.email@)) ==> {
            &&& r matches Err(e) && e.spec_status_code() == 400
            &&& final(store)@ == old(store)@
        },
        r matches Err(e) && e.spec_status_code() == 400 ==> !(name_accepted(form.name@)
            && email_accepted(form.email@)),
        name_accepted(form.name@) && email_accepted(form.email@) ==> match r {
            Result::Ok(_) => subscription_recorded(
                old(store)@,
                final(store)@,
                form.email@,
                form.name@,
            ),
            Result::Err(SubscribeError::SendEmailError(_)) => subscription_recorded(
                old(store)@,
                final(store)@,
                form.email@,
                form.name@,
            ),
            Result::Err(SubscribeError::InsertSubscriberError(_)) => final(store)@ == old(
                store,
            )@,
            Result::Err(SubscribeError::ValidationError(_)) => false,
        },
{
    match subscription_service.create_subscription(store, form) {
        Ok(_) => Ok(HttpResponse::new(200)),
        Err(e) => Err(e),
    }
}

/// The query parameters of `GET /subscriptions/confirm`.
pub struct Parameters {
    pub subscription_token: String,
}

/// `GET /subscriptions/confirm`: confirming an unknown token yields `500`
/// and mutates no subscriber; confirming a known token yields `200` and sets
/// exactly the resolved subscriber to `Confirmed` (idempotently — see
/// [`lemma_confirm_idempotent`]).
pub fn confirm<E: EmailSender>(
    parameters: &Parameters,
    subscription_service: &NewsletterSubscriptionService<E>,
    store: &mut Store,
) -> (r: HttpResponse)
    requires
        old(store).inv(),
    ensures
        final(store).inv(),
        final(store)@.subscription_tokens == old(store)@.subscription_tokens,
        final(store)@.newsletter_issues == old(store)@.newsletter_issues,
        final(store)@.issue_delivery_queue == old(store)@.issue_delivery_queue,
        final(store)@.idempotency == old(store)@.idempotency,
        final(store)@.users == old(store)@.users,
        !has_token(old(store)@.subscription_tokens, parameters.subscription_token@) ==> {
            &&& r@ == empty_response_view(500)
            &&& final(store)@ == old(store)@
        },
        has_token(old(store)@.subscription_tokens, parameters.subscription_token@) ==> {
            &&& r@ == empty_response_view(200)
            &&& final(store)@.subscriptions == set_confirmed(
                old(store)@.subscriptions,
                token_subscriber(
                    old(store)@.subscription_tokens,
                    parameters.subscription_token@,
                ),
            )
        },
{
    let result = subscription_service.confirm_subscription(
        store,
        parameters.subscription_token.as_str(),
    );
    match result {
        Ok(_) => HttpResponse::new(200),
        Err(_) => HttpResponse::new(500),
    }
}

/// Law: a freshly recorded pending subscriber is confirmable. Its token is
/// present and resolves to it, and confirming that token yields exactly the
/// old subscriber table plus the one new row, now `Confirmed`.
pub proof fn lemma_pending_subscriber_confirmable(
    m0: StoreModel,
    m1: StoreModel,
    email: Seq<char>,
    name: Seq<char>,
    id: u128,
    token: Seq<char>,
    t: i64,
)
    requires
        store_inv(m0),
        pending_subscriber_added(m0, m1, email, name, id, token, t),
    ensures
        has_token(m1.subscription_tokens, token),
        token_subscriber(m1.subscription_tokens, token) == id,
        has_subscriber(m1.subscriptions, id),
        set_confirmed(m1.subscriptions, id) == m0.subscriptions.push(
            SubView { id, email, name, subscribed_at: t, status: SubscriberStatus::Confirmed },
        ),
{
    let ns = m0.subscriptions.len() as int;
    let nt = m0.subscription_tokens.len() as int;
    assert(m1.subscription_tokens[nt].subscription_token == token);
    assert forall|p: int, q: int|
        0 <= p < m1.subscription_tokens.len() && 0 <= q < m1.subscription_tokens.len() && p != q
        implies #[trigger] m1.subscription_tokens[p].subscription_token != #[trigger]
    m1.subscription_tokens[q].subscription_token by {
        if p == nt {
            assert(!(m0.subscription_tokens[q].subscription_token == token));
        } else if q == nt {
            assert(!(m0.subscription_tokens[p].subscription_token == token));
        }
    }
    lemma_token_index_unique(m1.subscription_tokens, token, nt);
    assert(m1.subscriptions[ns].id == id);
    assert forall|p: int, q: int|
        0 <= p < m1.subscriptions.len() && 0 <= q < m1.subscriptions.len() && p != q implies
    #[trigger] m1.subscriptions[p].id != #[trigger] m1.subscriptions[q].id by {
        if p == ns {
            assert(!(m0.subscriptions[q].id == id));
        } else if q == ns {
            assert(!(m0.subscriptions[p].id == id));
        }
    }
    lemma_sub_index_unique(m1.subscriptions, id, ns);
    assert(set_confirmed(m1.subscriptions, id) =~= m0.subscriptions.push(
        SubView { id, email, name, subscribed_at: t, status: SubscriberStatus::Confirmed },
    ));
}

/// Law: confirming is idempotent. Setting a subscriber to `Confirmed` twice
/// leaves exactly the state of setting it once; a second confirm of the same
/// token neither errs nor changes anything further.
pub proof fn lemma_confirm_idempotent(subs: Seq<SubView>, id: u128)
    requires
        forall|p: int, q: int|
            0 <= p < subs.len() && 0 <= q < subs.len() && p != q
                ==> #[trigger] subs[p].id != #[trigger] subs[q].id,
    ensures
        set_confirmed(set_confirmed(subs, id), id) == set_confirmed(subs, id),
{
    if has_subscriber(subs, id) {
        let i = sub_index(subs, id);
        assert(subs[i].id == id);
        let subs1 = set_confirmed(subs, id);
        assert(subs1[i].id == id);
        lemma_sub_index_unique(subs1, id, i);
        assert(set_confirmed(subs1, id) =~= subs1);
    }
}

} // verus!
