//! The durable store: one in-memory value standing for the relational tables
//! the service writes — subscribers, confirmation tokens, newsletter issues,
//! the delivery queue, idempotency records and user credentials. Every
//! operation of the service is specified and verified against the store's
//! mathematical view, [`StoreModel`]; the processes that persist the tables
//! live outside the verified core and hand plain values in and out.

use vstd::prelude::*;
use crate::http::{HttpResponse, RespView};

verus! {

/// Where a subscriber stands in the double-opt-in lifecycle.
#[derive(Clone, Copy, PartialEq, Eq, Structural, Debug)]
pub enum SubscriberStatus {
    PendingConfirmation,
    Confirmed,
}

/// A subscriber row: identity, contact details, signup time and status.
pub struct SubscriptionAdd {
    pub id: u128,
    pub email: String,
    pub name: String,
    pub subscribed_at: i64,
    pub status: SubscriberStatus,
}

/// The view of a subscriber row.
#[verifier::ext_equal]
pub ghost struct SubView {
    pub id: u128,
    pub email: Seq<char>,
    pub name: Seq<char>,
    pub subscribed_at: i64,
    pub status: SubscriberStatus,
}

impl View for SubscriptionAdd {
    type V = SubView;

    open spec fn view(&self) -> SubView {
        SubView {
            id: self.id,
            email: self.email@,
            name: self.name@,
            subscribed_at: self.subscribed_at,
            status: self.status,
        }
    }
}

/// A confirmation-token row: an opaque token string mapped to one subscriber.
pub struct SubscriptionTokensAdd {
    pub subscription_token: String,
    pub subscriber_id: u128,
}

/// The view of a token row.
#[verifier::ext_equal]
pub ghost struct TokenView {
    pub subscription_token: Seq<char>,
    pub subscriber_id: u128,
}

impl View for SubscriptionTokensAdd {
    type V = TokenView;

    open spec fn view(&self) -> TokenView {
        TokenView {
            subscription_token: self.subscription_token@,
            subscriber_id: self.subscriber_id,
        }
    }
}

/// A newsletter issue row, immutable once created.
pub struct NewsletterIssue {
    pub newsletter_issue_id: u128,
    pub title: String,
    pub text: String,
    pub html: String,
    pub published_at: i64,
}

/// The view of an issue row.
#[verifier::ext_equal]
pub ghost struct IssueView {
    pub newsletter_issue_id: u128,
    pub title: Seq<char>,
    pub text: Seq<char>,
    pub html: Seq<char>,
    pub published_at: i64,
}

impl View for NewsletterIssue {
    type V = IssueView;

    open spec fn view(&self) -> IssueView {
        IssueView {
            newsletter_issue_id: self.newsletter_issue_id,
            title: self.title@,
            text: self.text@,
            html: self.html@,
            published_at: self.published_at,
        }
    }
}

/// One delivery task: "this issue must still be sent to this address".
pub struct IssueDeliveryQueue {
    pub newsletter_issue_id: u128,
    pub subscriber_email: String,
}

/// The view of a delivery task.
#[verifier::ext_equal]
pub ghost struct TaskView {
    pub newsletter_issue_id: u128,
    pub subscriber_email: Seq<char>,
}

impl View for IssueDeliveryQueue {
    type V = TaskView;

    open spec fn view(&self) -> TaskView {
        TaskView {
            newsletter_issue_id: self.newsletter_issue_id,
            subscriber_email: self.subscriber_email@,
        }
    }
}

/// An idempotency record: the (user, key) pair is inserted with no response
/// the instant a publish attempt begins, and the response is filled in by the
/// same attempt once it is known.
pub struct InsertResponse {
    pub user_id: u128,
    pub idempotency_key: String,
    pub response: Option<HttpResponse>,
    pub created_at: i64,
}

/// The view of an idempotency record.
#[verifier::ext_equal]
pub ghost struct IdemView {
    pub user_id: u128,
    pub idempotency_key: Seq<char>,
    pub response: Option<RespView>,
    pub created_at: i64,
}

impl View for InsertResponse {
    type V = IdemView;

    open spec fn view(&self) -> IdemView {
        IdemView {
            user_id: self.user_id,
            idempotency_key: self.idempotency_key@,
            response: match self.response {
                Option::Some(ref r) => Option::Some(r@),
                Option::None => Option::None,
            },
            created_at: self.created_at,
        }
    }
}

/// A user row: a username and its stored password hash (a PHC string).
pub struct UserRow {
    pub user_id: u128,
    pub username: String,
    pub password: String,
}

/// The view of a user row.
#[verifier::ext_equal]
pub ghost struct UserView {
    pub user_id: u128,
    pub username: Seq<char>,
    pub password: Seq<char>,
}

impl View for UserRow {
    type V = UserView;

    open spec fn view(&self) -> UserView {
        UserView { user_id: self.user_id, username: self.username@, password: self.password@ }
    }
}

/// The credentials a username resolves to: the user's identity and stored
/// password hash, as the credential verifier reads them.
pub struct VerificationInfo {
    pub user_id: u128,
    pub password: String,
}

/// The durable state, one field per table.
pub struct Store {
    pub subscriptions: Vec<SubscriptionAdd>,
    pub subscription_tokens: Vec<SubscriptionTokensAdd>,
    pub newsletter_issues: Vec<NewsletterIssue>,
    pub issue_delivery_queue: Vec<IssueDeliveryQueue>,
    pub idempotency: Vec<InsertResponse>,
    pub users: Vec<UserRow>,
}

/// The mathematical view of the whole store.
#[verifier::ext_equal]
pub ghost struct StoreModel {
    pub subscriptions: Seq<SubView>,
    pub subscription_tokens: Seq<TokenView>,
    pub newsletter_issues: Seq<IssueView>,
    pub issue_delivery_queue: Seq<TaskView>,
    pub idempotency: Seq<IdemView>,
    pub users: Seq<UserView>,
}

/// The views of each table's rows.
pub open spec fn subs_view(v: Seq<SubscriptionAdd>) -> Seq<SubView> {
    v.map_values(|r: SubscriptionAdd| r@)
}

pub open spec fn tokens_view(v: Seq<SubscriptionTokensAdd>) -> Seq<TokenView> {
    v.map_values(|r: SubscriptionTokensAdd| r@)
}

pub open spec fn issues_view(v: Seq<NewsletterIssue>) -> Seq<IssueView> {
    v.map_values(|r: NewsletterIssue| r@)
}

pub open spec fn tasks_view(v: Seq<IssueDeliveryQueue>) -> Seq<TaskView> {
    v.map_values(|r: IssueDeliveryQueue| r@)
}

pub open spec fn idem_view(v: Seq<InsertResponse>) -> Seq<IdemView> {
    v.map_values(|r: InsertResponse| r@)
}

pub open spec fn users_view(v: Seq<UserRow>) -> Seq<UserView> {
    v.map_values(|r: UserRow| r@)
}

impl View for Store {
    type V = StoreModel;

    open spec fn view(&self) -> StoreModel {
        StoreModel {
            subscriptions: subs_view(self.subscriptions@),
            subscription_tokens: tokens_view(self.subscription_tokens@),
            newsletter_issues: issues_view(self.newsletter_issues@),
            issue_delivery_queue: tasks_view(self.issue_delivery_queue@),
            idempotency: idem_view(self.idempotency@),
            users: users_view(self.users@),
        }
    }
}

// --- lookups at the specification level -------------------------------------

pub open spec fn has_subscriber(subs: Seq<SubView>, id: u128) -> bool {
    exists|i: int| 0 <= i < subs.len() && #[trigger] subs[i].id == id
}

/// The index of the subscriber row with the given identity (meaningful when
/// present; with `store_inv` it is the unique matching index).
pub open spec fn sub_index(subs: Seq<SubView>, id: u128) -> int {
    choose|i: int| 0 <= i < subs.len() && #[trigger] subs[i].id == id
}

pub open spec fn has_token(tokens: Seq<TokenView>, token: Seq<char>) -> bool {
    exists|i: int| 0 <= i < tokens.len() && #[trigger] tokens[i].subscription_token == token
}

/// The index of the token row with the given token string (meaningful when
/// present; with `store_inv` it is the unique matching index).
pub open spec fn token_index(tokens: Seq<TokenView>, token: Seq<char>) -> int {
    choose|i: int| 0 <= i < tokens.len() && #[trigger] tokens[i].subscription_token == token
}

/// The subscriber a token resolves to (meaningful when the token is present).
pub open spec fn token_subscriber(tokens: Seq<TokenView>, token: Seq<char>) -> u128 {
    tokens[token_index(tokens, token)].subscriber_id
}

pub open spec fn has_issue(issues: Seq<IssueView>, id: u128) -> bool {
    exists|i: int| 0 <= i < issues.len() && #[trigger] issues[i].newsletter_issue_id == id
}

/// The issue row with the given identity (meaningful when present).
pub open spec fn issue_of(issues: Seq<IssueView>, id: u128) -> IssueView {
    issues[choose|i: int|
        0 <= i < issues.len() && #[trigger] issues[i].newsletter_issue_id == id]
}

pub open spec fn idem_matches(r: IdemView, user_id: u128, key: Seq<char>) -> bool {
    r.user_id == user_id && r.idempotency_key == key
}

pub open spec fn has_record(recs: Seq<IdemView>, user_id: u128, key: Seq<char>) -> bool {
    exists|i: int| 0 <= i < recs.len() && #[trigger] idem_matches(recs[i], user_id, key)
}

/// The index of the idempotency record for (user, key) (meaningful when
/// present; with `store_inv` it is the unique matching index).
pub open spec fn record_index(recs: Seq<IdemView>, user_id: u128, key: Seq<char>) -> int {
    choose|i: int| 0 <= i < recs.len() && #[trigger] idem_matches(recs[i], user_id, key)
}

/// The idempotency record for (user, key) (meaningful when present).
pub open spec fn record_of(recs: Seq<IdemView>, user_id: u128, key: Seq<char>) -> IdemView {
    recs[record_index(recs, user_id, key)]
}

/// The response stored for (user, key): `None` when the row is absent or its
/// response fields are still unset.
pub open spec fn saved_response_of(recs: Seq<IdemView>, user_id: u128, key: Seq<char>) -> Option<
    RespView,
> {
    if has_record(recs, user_id, key) {
        record_of(recs, user_id, key).response
    } else {
        Option::None
    }
}

pub open spec fn has_user(users: Seq<UserView>, id: u128) -> bool {
    exists|i: int| 0 <= i < users.len() && #[trigger] users[i].user_id == id
}

/// The index of the user row with the given identity (meaningful when
/// present; with `store_inv` it is the unique matching index).
pub open spec fn user_index(users: Seq<UserView>, id: u128) -> int {
    choose|i: int| 0 <= i < users.len() && #[trigger] users[i].user_id == id
}

/// The user row with the given identity (meaningful when present).
pub open spec fn user_of(users: Seq<UserView>, id: u128) -> UserView {
    users[user_index(users, id)]
}

pub open spec fn has_username(users: Seq<UserView>, name: Seq<char>) -> bool {
    exists|i: int| 0 <= i < users.len() && #[trigger] users[i].username == name
}

/// The user row with the given username (meaningful when present).
pub open spec fn user_by_name(users: Seq<UserView>, name: Seq<char>) -> UserView {
    users[choose|i: int| 0 <= i < users.len() && #[trigger] users[i].username == name]
}

/// The confirmed subscribers, in table order.
pub open spec fn confirmed_subscribers(subs: Seq<SubView>) -> Seq<SubView>
    decreases subs.len(),
{
    if subs.len() == 0 {
        Seq::empty()
    } else {
        let rest = confirmed_subscribers(subs.drop_last());
        if subs.last().status is Confirmed {
            rest.push(subs.last())
        } else {
            rest
        }
    }
}

/// The delivery tasks fanned out when `issue_id` is published: one per
/// confirmed subscriber, in table order.
pub open spec fn delivery_tasks_for(subs: Seq<SubView>, issue_id: u128) -> Seq<TaskView>
    decreases subs.len(),
{
    if subs.len() == 0 {
        Seq::empty()
    } else {
        let rest = delivery_tasks_for(subs.drop_last(), issue_id);
        if subs.last().status is Confirmed {
            rest.push(
                TaskView { newsletter_issue_id: issue_id, subscriber_email: subs.last().email },
            )
        } else {
            rest
        }
    }
}

/// One delivery task is fanned out per confirmed subscriber: task `j` names
/// the published issue and confirmed subscriber `j`'s address.
pub proof fn lemma_delivery_tasks_len(subs: Seq<SubView>, issue_id: u128)
    ensures
        delivery_tasks_for(subs, issue_id).len() == confirmed_subscribers(subs).len(),
        forall|j: int|
            0 <= j < delivery_tasks_for(subs, issue_id).len()
                ==> #[trigger] delivery_tasks_for(subs, issue_id)[j] == (TaskView {
                newsletter_issue_id: issue_id,
                subscriber_email: confirmed_subscribers(subs)[j].email,
            }),
    decreases subs.len(),
{
    if subs.len() > 0 {
        lemma_delivery_tasks_len(subs.drop_last(), issue_id);
    }
}

// --- the store invariant -----------------------------------------------------

/// Well-formedness of the durable state:
/// - row identities (subscriber ids, issue ids, user ids, usernames, token
///   strings, idempotency (user, key) pairs) are unique in their tables;
/// - a confirmation token, once issued, resolves to exactly one subscriber;
/// - every queued delivery task names an issue that exists (tasks are fanned
///   out in the same transaction that inserts the issue, and issues are never
///   deleted).
pub open spec fn store_inv(m: StoreModel) -> bool {
    &&& forall|i: int, j: int|
        0 <= i < m.subscriptions.len() && 0 <= j < m.subscriptions.len() && i != j
            ==> #[trigger] m.subscriptions[i].id != #[trigger] m.subscriptions[j].id
    &&& forall|i: int, j: int|
        0 <= i < m.subscription_tokens.len() && 0 <= j < m.subscription_tokens.len() && i != j
            ==> #[trigger] m.subscription_tokens[i].subscription_token
            != #[trigger] m.subscription_tokens[j].subscription_token
    &&& forall|i: int|
        0 <= i < m.subscription_tokens.len() ==> has_subscriber(
            m.subscriptions,
            #[trigger] m.subscription_tokens[i].subscriber_id,
        )
    &&& forall|i: int, j: int|
        0 <= i < m.newsletter_issues.len() && 0 <= j < m.newsletter_issues.len() && i != j
            ==> #[trigger] m.newsletter_issues[i].newsletter_issue_id
            != #[trigger] m.newsletter_issues[j].newsletter_issue_id
    &&& forall|i: int|
        0 <= i < m.issue_delivery_queue.len() ==> has_issue(
            m.newsletter_issues,
            #[trigger] m.issue_delivery_queue[i].newsletter_issue_id,
        )
    &&& forall|i: int, j: int|
        0 <= i < m.idempotency.len() && 0 <= j < m.idempotency.len() && i != j
            ==> !(#[trigger] m.idempotency[i].user_id == #[trigger] m.idempotency[j].user_id
            && m.idempotency[i].idempotency_key == m.idempotency[j].idempotency_key)
    &&& forall|i: int, j: int|
        0 <= i < m.users.len() && 0 <= j < m.users.len() && i != j
            ==> #[trigger] m.users[i].user_id != #[trigger] m.users[j].user_id
    &&& forall|i: int, j: int|
        0 <= i < m.users.len() && 0 <= j < m.users.len() && i != j
            ==> #[trigger] m.users[i].username != #[trigger] m.users[j].username
}

impl Store {
    /// Well-formedness of the store; constructors establish it and every
    /// operation preserves it.
    pub open spec fn inv(&self) -> bool {
        store_inv(self@)
    }

    /// An empty store.
    pub fn new() -> (s: Store)
        ensures
            s@ =~= (StoreModel {
                subscriptions: Seq::empty(),
                subscription_tokens: Seq::empty(),
                newsletter_issues: Seq::empty(),
                issue_delivery_queue: Seq::empty(),
                idempotency: Seq::empty(),
                users: Seq::empty(),
            }),
            s.inv(),
    {
        let s = Store {
            subscriptions: Vec::new(),
            subscription_tokens: Vec::new(),
            newsletter_issues: Vec::new(),
            issue_delivery_queue: Vec::new(),
            idempotency: Vec::new(),
            users: Vec::new(),
        };
        proof {
            assert(subs_view(s.subscriptions@) =~= Seq::<SubView>::empty());
            assert(tokens_view(s.subscription_tokens@) =~= Seq::<TokenView>::empty());
            assert(issues_view(s.newsletter_issues@) =~= Seq::<IssueView>::empty());
            assert(tasks_view(s.issue_delivery_queue@) =~= Seq::<TaskView>::empty());
            assert(idem_view(s.idempotency@) =~= Seq::<IdemView>::empty());
            assert(users_view(s.users@) =~= Seq::<UserView>::empty());
        }
        s
    }
}

/// The subscriber table after setting the subscriber with identity `id` to
/// `Confirmed`; unchanged when no such subscriber exists.
pub open spec fn set_confirmed(subs: Seq<SubView>, id: u128) -> Seq<SubView> {
    if has_subscriber(subs, id) {
        subs.update(
            sub_index(subs, id),
            SubView { status: SubscriberStatus::Confirmed, ..subs[sub_index(subs, id)] },
        )
    } else {
        subs
    }
}

/// With unique subscriber identities, any matching index is the subscriber's
/// index.
pub proof fn lemma_sub_index_unique(subs: Seq<SubView>, id: u128, i: int)
    requires
        0 <= i < subs.len(),
        subs[i].id == id,
        forall|p: int, q: int|
            0 <= p < subs.len() && 0 <= q < subs.len() && p != q
                ==> #[trigger] subs[p].id != #[trigger] subs[q].id,
    ensures
        has_subscriber(subs, id),
        sub_index(subs, id) == i,
{
    assert(has_subscriber(subs, id));
    let j = sub_index(subs, id);
    assert(subs[j].id == id);
}

/// With unique token strings, any matching index is the token's index.
pub proof fn lemma_token_index_unique(tokens: Seq<TokenView>, token: Seq<char>, i: int)
    requires
        0 <= i < tokens.len(),
        tokens[i].subscription_token == token,
        forall|p: int, q: int|
            0 <= p < tokens.len() && 0 <= q < tokens.len() && p != q
                ==> #[trigger] tokens[p].subscription_token
                != #[trigger] tokens[q].subscription_token,
    ensures
        has_token(tokens, token),
        token_index(tokens, token) == i,
        token_subscriber(tokens, token) == tokens[i].subscriber_id,
{
    assert(has_token(tokens, token));
    let j = token_index(tokens, token);
    assert(tokens[j].subscription_token == token);
}

/// With unique issue identities, any matching index is the issue's index.
pub proof fn lemma_issue_index_unique(issues: Seq<IssueView>, id: u128, i: int)
    requires
        0 <= i < issues.len(),
        issues[i].newsletter_issue_id == id,
        forall|p: int, q: int|
            0 <= p < issues.len() && 0 <= q < issues.len() && p != q
                ==> #[trigger] issues[p].newsletter_issue_id
                != #[trigger] issues[q].newsletter_issue_id,
    ensures
        has_issue(issues, id),
        issue_of(issues, id) == issues[i],
{
    assert(has_issue(issues, id));
    let j = choose|j: int|
        0 <= j < issues.len() && #[trigger] issues[j].newsletter_issue_id == id;
    assert(issues[j].newsletter_issue_id == id);
}

/// With unique user identities, any matching index is the user's index.
pub proof fn lemma_user_index_unique(users: Seq<UserView>, id: u128, i: int)
    requires
        0 <= i < users.len(),
        users[i].user_id == id,
        forall|p: int, q: int|
            0 <= p < users.len() && 0 <= q < users.len() && p != q
                ==> #[trigger] users[p].user_id != #[trigger] users[q].user_id,
    ensures
        has_user(users, id),
        user_index(users, id) == i,
        user_of(users, id) == users[i],
{
    assert(has_user(users, id));
    let j = user_index(users, id);
    assert(users[j].user_id == id);
}

/// With unique usernames, any matching index is the username's index.
pub proof fn lemma_username_index_unique(users: Seq<UserView>, name: Seq<char>, i: int)
    requires
        0 <= i < users.len(),
        users[i].username == name,
        forall|p: int, q: int|
            0 <= p < users.len() && 0 <= q < users.len() && p != q
                ==> #[trigger] users[p].username != #[trigger] users[q].username,
    ensures
        has_username(users, name),
        user_by_name(users, name) == users[i],
{
    assert(has_username(users, name));
    let j = choose|j: int| 0 <= j < users.len() && #[trigger] users[j].username == name;
    assert(users[j].username == name);
}

impl Store {
    /// The index of the issue row with identity `id`, if any.
    pub(crate) fn issue_index(&self, id: u128) -> (r: Option<usize>)
        ensures
            match r {
                Option::Some(i) => i < self.newsletter_issues.len() && self@.newsletter_issues[
                    i as int
                ].newsletter_issue_id == id,
                Option::None => !has_issue(self@.newsletter_issues, id),
            },
    {
        let mut i: usize = 0;
        while i < self.newsletter_issues.len()
            invariant
                i <= self.newsletter_issues.len(),
                forall|j: int|
                    0 <= j < i ==> #[trigger] self@.newsletter_issues[j].newsletter_issue_id
                        != id,
            decreases self.newsletter_issues.len() - i,
        {
            if self.newsletter_issues[i].newsletter_issue_id == id {
                return Some(i);
            }
            i = i + 1;
        }
        None
    }

    /// The index of the user row with identity `id`, if any.
    pub(crate) fn user_index(&self, id: u128) -> (r: Option<usize>)
        ensures
            match r {
                Option::Some(i) => i < self.users.len() && self@.users[i as int].user_id == id,
                Option::None => !has_user(self@.users, id),
            },
    {
        let mut i: usize = 0;
        while i < self.users.len()
            invariant
                i <= self.users.len(),
                forall|j: int| 0 <= j < i ==> #[trigger] self@.users[j].user_id != id,
            decreases self.users.len() - i,
        {
            if self.users[i].user_id == id {
                return Some(i);
            }
            i = i + 1;
        }
        None
    }

    /// The index of the user row with the given username, if any.
    pub(crate) fn user_index_by_name(&self, name: &String) -> (r: Option<usize>)
        ensures
            match r {
                Option::Some(i) => i < self.users.len() && self@.users[i as int].username
                    == name@,
                Option::None => !has_username(self@.users, name@),
            },
    {
        let mut i: usize = 0;
        while i < self.users.len()
            invariant
                i <= self.users.len(),
                forall|j: int| 0 <= j < i ==> #[trigger] self@.users[j].username != name@,
            decreases self.users.len() - i,
        {
            if self.users[i].username == *name {
                return Some(i);
            }
            i = i + 1;
        }
        None
    }

    /// The index of the subscriber row with identity `id`, if any.
    pub(crate) fn subscription_index(&self, id: u128) -> (r: Option<usize>)
        ensures
            match r {
                Option::Some(i) => i < self.subscriptions.len() && self@.subscriptions[
                    i as int
                ].id == id,
                Option::None => !has_subscriber(self@.subscriptions, id),
            },
    {
        let mut i: usize = 0;
        while i < self.subscriptions.len()
            invariant
                i <= self.subscriptions.len(),
                forall|j: int| 0 <= j < i ==> #[trigger] self@.subscriptions[j].id != id,
            decreases self.subscriptions.len() - i,
        {
            if self.subscriptions[i].id == id {
                return Some(i);
            }
            i = i + 1;
        }
        None
    }

    /// The index of the token row with the given token string, if any.
    pub(crate) fn token_row_index(&self, token: &String) -> (r: Option<usize>)
        ensures
            match r {
                Option::Some(i) => i < self.subscription_tokens.len()
                    && self@.subscription_tokens[i as int].subscription_token == token@,
                Option::None => !has_token(self@.subscription_tokens, token@),
            },
    {
        let mut i: usize = 0;
        while i < self.subscription_tokens.len()
            invariant
                i <= self.subscription_tokens.len(),
                forall|j: int|
                    0 <= j < i ==> #[trigger] self@.subscription_tokens[j].subscription_token
                        != token@,
            decreases self.subscription_tokens.len() - i,
        {
            if self.subscription_tokens[i].subscription_token == *token {
                return Some(i);
            }
            i = i + 1;
        }
        None
    }
}

// --- fresh identities and timestamps ------------------------------------------

/// Relies on `uuid::Uuid::new_v4` for a randomly drawn row identity, carried
/// as its 128-bit value. Nothing is assumed of the draw; callers check
/// freshness against the store themselves.
#[verifier::external_body]
pub(crate) fn new_uuid() -> u128 {
    uuid::Uuid::new_v4().as_u128()
}

/// Relies on `chrono::Utc::now` for the current time, carried as milliseconds
/// since the epoch. Nothing is assumed of the reading.
#[verifier::external_body]
pub(crate) fn now_ms() -> i64 {
    chrono::Utc::now().timestamp_millis()
}

} // verus!
