use newsletter::authentication::change_password;
use newsletter::domain::{NewSubscriber, SubscribeFormData};
use newsletter::http::HttpResponse;
use newsletter::idempotency::{
    get_saved_response, save_response, try_processing, IdempotencyKey, NextAction,
};
use newsletter::publish::{insert_issue_and_enqueue_tasks, BodyData, PublishError};
use newsletter::session_state::UserId;
use newsletter::store::{Store, UserRow};
use newsletter::subscriptions::{
    confirm, subscribe, EmailSender, NewsletterSubscriptionService, Parameters, SendError,
};

struct SilentSender;

impl EmailSender for SilentSender {
    fn send_confirmation(
        &mut self,
        _subscriber: &NewSubscriber,
        _confirmation_token: &String,
    ) -> Result<(), SendError> {
        Ok(())
    }
}

const ADMIN_ID: u128 = 7;

/// A store with one admin user and `confirmed` confirmed subscribers.
fn store_with_admin(confirmed: usize) -> Store {
    let mut store = Store::new();
    store.users.push(UserRow {
        user_id: ADMIN_ID,
        username: "admin".to_string(),
        password: String::new(),
    });
    change_password(ADMIN_ID, &"everythinghastostartsomewhere".to_string(), &mut store)
        .unwrap();
    let mut svc = NewsletterSubscriptionService { email_sender: SilentSender };
    for i in 0..confirmed {
        let form = SubscribeFormData {
            email: format!("subscriber{i}@example.com"),
            name: format!("Subscriber {i}"),
        };
        subscribe(form, &mut svc, &mut store).unwrap();
        let token = store.subscription_tokens[i].subscription_token.clone();
        let params = Parameters { subscription_token: token };
        let response = confirm(&params, &svc, &mut store);
        assert_eq!(response.status, 200);
    }
    store
}

fn publish_body(key: &str) -> BodyData {
    BodyData {
        title: "Newsletter Title".to_string(),
        text: "Newsletter text".to_string(),
        html: "Newsletter html".to_string(),
        idempotency_key: key.to_string(),
    }
}

fn assert_responses_identical(a: &HttpResponse, b: &HttpResponse) {
    assert_eq!(a.status, b.status);
    assert_eq!(a.headers.len(), b.headers.len());
    for (ha, hb) in a.headers.iter().zip(b.headers.iter()) {
        assert_eq!(ha.name, hb.name);
        assert_eq!(ha.value, hb.value);
    }
    assert_eq!(a.body, b.body);
}

#[test]
fn publish_rejects_an_empty_idempotency_key() {
    let mut store = store_with_admin(0);
    let err = newsletter::publish::newsletter_delivery(
        publish_body(""),
        &mut store,
        UserId(ADMIN_ID),
    )
    .unwrap_err();
    assert!(matches!(err, PublishError::UnexpectedError(_)));
    assert_eq!(err.error_response().status, 500);
    assert_eq!(store.newsletter_issues.len(), 0);
}

#[test]
fn publish_rejects_an_unknown_user() {
    let mut store = store_with_admin(0);
    let err = newsletter::publish::newsletter_delivery(
        publish_body("k1"),
        &mut store,
        UserId(99),
    )
    .unwrap_err();
    assert!(matches!(err, PublishError::UnexpectedError(_)));
    assert_eq!(store.newsletter_issues.len(), 0);
}

#[test]
fn publish_with_zero_confirmed_subscribers_enqueues_nothing_and_succeeds() {
    let mut store = store_with_admin(0);
    let response = newsletter::publish::newsletter_delivery(
        publish_body("k1"),
        &mut store,
        UserId(ADMIN_ID),
    )
    .unwrap();
    assert_eq!(response.status, 303);
    assert_eq!(response.headers.len(), 1);
    assert_eq!(response.headers[0].name, "location");
    assert_eq!(response.headers[0].value, b"/admin/newsletter".to_vec());
    assert_eq!(store.newsletter_issues.len(), 1);
    assert_eq!(store.issue_delivery_queue.len(), 0);
}

#[test]
fn newsletter_creation_is_idempotent() {
    let mut store = store_with_admin(2);
    let first = newsletter::publish::newsletter_delivery(
        publish_body("k1"),
        &mut store,
        UserId(ADMIN_ID),
    )
    .unwrap();
    assert_eq!(first.status, 303);
    assert_eq!(store.newsletter_issues.len(), 1);
    assert_eq!(store.issue_delivery_queue.len(), 2);
    let second = newsletter::publish::newsletter_delivery(
        publish_body("k1"),
        &mut store,
        UserId(ADMIN_ID),
    )
    .unwrap();
    assert_responses_identical(&first, &second);
    assert_eq!(store.newsletter_issues.len(), 1);
    assert_eq!(store.issue_delivery_queue.len(), 2);
}

#[test]
fn distinct_keys_publish_distinct_issues() {
    let mut store = store_with_admin(1);
    newsletter::publish::newsletter_delivery(publish_body("k1"), &mut store, UserId(ADMIN_ID))
        .unwrap();
    newsletter::publish::newsletter_delivery(publish_body("k2"), &mut store, UserId(ADMIN_ID))
        .unwrap();
    assert_eq!(store.newsletter_issues.len(), 2);
    assert_eq!(store.issue_delivery_queue.len(), 2);
}

#[test]
fn concurrent_publish_attempts_share_one_response_and_one_fanout() {
    // Two racing attempts on one key, interleaved at the store: the first
    // wins the insert-or-ignore barrier, the second must wait; once the first
    // records its response, the second replays it verbatim. One issue, one
    // fan-out of one task per confirmed subscriber.
    let mut store = store_with_admin(3);
    let key = IdempotencyKey::try_new("k1".to_string()).unwrap();

    let first = try_processing(&mut store, &key, ADMIN_ID);
    assert!(matches!(first, Ok(NextAction::StartProcessing)));
    let second = try_processing(&mut store, &key, ADMIN_ID);
    assert!(second.is_err());
    assert!(get_saved_response(&store, &key, ADMIN_ID).is_none());

    insert_issue_and_enqueue_tasks(
        &mut store,
        "Newsletter Title".to_string(),
        "Newsletter text".to_string(),
        "Newsletter html".to_string(),
    )
    .unwrap();
    let recorded = save_response(&mut store, &key, ADMIN_ID, newsletter::http::see_other(
        "/admin/newsletter",
    ));

    let replay = match try_processing(&mut store, &key, ADMIN_ID) {
        Ok(NextAction::ReturnSavedResponse(resp)) => resp,
        _ => panic!("the second attempt must replay the recorded response"),
    };
    assert_responses_identical(&recorded, &replay);
    let polled = get_saved_response(&store, &key, ADMIN_ID).unwrap();
    assert_responses_identical(&recorded, &polled);
    assert_eq!(store.newsletter_issues.len(), 1);
    assert_eq!(store.issue_delivery_queue.len(), 3);
}

#[test]
fn idempotency_key_must_be_nonempty() {
    assert!(IdempotencyKey::try_new("".to_string()).is_err());
    let key = IdempotencyKey::try_new("a-client-chosen-key".to_string()).unwrap();
    assert_eq!(key.as_str(), "a-client-chosen-key");
}
