use newsletter::authentication::change_password;
use newsletter::newsletter_delivery::{
    basic_authentication, newsletter_delivery, BodyData, Content, PublishError,
};
use newsletter::store::{Store, SubscriberStatus, SubscriptionAdd, UserRow};

const ADMIN_ID: u128 = 11;

fn store_with_admin_and_subscribers() -> Store {
    let mut store = Store::new();
    store.users.push(UserRow {
        user_id: ADMIN_ID,
        username: "admin".to_string(),
        password: String::new(),
    });
    change_password(ADMIN_ID, &"everythinghastostartsomewhere".to_string(), &mut store)
        .unwrap();
    store.subscriptions.push(SubscriptionAdd {
        id: 1,
        email: "confirmed@example.com".to_string(),
        name: "Confirmed".to_string(),
        subscribed_at: 0,
        status: SubscriberStatus::Confirmed,
    });
    store.subscriptions.push(SubscriptionAdd {
        id: 2,
        email: "pending@example.com".to_string(),
        name: "Pending".to_string(),
        subscribed_at: 0,
        status: SubscriberStatus::PendingConfirmation,
    });
    store
}

fn auth_header(username: &str, password: &str) -> Vec<u8> {
    let encoded = base64::Engine::encode(
        &base64::prelude::BASE64_STANDARD,
        format!("{username}:{password}"),
    );
    format!("Basic {encoded}").into_bytes()
}

fn body() -> BodyData {
    BodyData {
        title: "Newsletter Title".to_string(),
        content: Content {
            text: "Newsletter text".to_string(),
            html: "Newsletter html".to_string(),
        },
    }
}

#[test]
fn basic_credentials_round_trip_through_the_header() {
    let header = auth_header("admin", "sec:ret");
    let credentials = basic_authentication(Some(&header)).unwrap();
    assert_eq!(credentials.username, "admin");
    assert_eq!(credentials.password, "sec:ret");
}

#[test]
fn a_missing_header_is_refused() {
    assert!(basic_authentication(None).is_err());
}

#[test]
fn a_non_basic_scheme_is_refused() {
    let header = b"Bearer abcdef".to_vec();
    assert!(basic_authentication(Some(&header)).is_err());
}

#[test]
fn credentials_without_a_colon_are_refused() {
    let encoded = base64::Engine::encode(&base64::prelude::BASE64_STANDARD, "justausername");
    let header = format!("Basic {encoded}").into_bytes();
    assert!(basic_authentication(Some(&header)).is_err());
}

#[test]
fn garbled_base64_is_refused() {
    let header = b"Basic !!!not-base64!!!".to_vec();
    assert!(basic_authentication(Some(&header)).is_err());
}

#[test]
fn a_valid_request_owes_one_send_per_confirmed_subscriber() {
    let store = store_with_admin_and_subscribers();
    let header = auth_header("admin", "everythinghastostartsomewhere");
    let jobs = newsletter_delivery(&body(), &store, Some(&header)).unwrap();
    assert_eq!(jobs.len(), 1);
    assert_eq!(jobs[0].email.inner(), "confirmed@example.com");
    assert_eq!(jobs[0].title, "Newsletter Title");
    assert_eq!(jobs[0].html, "Newsletter html");
    assert_eq!(jobs[0].text, "Newsletter text");
}

#[test]
fn a_wrong_password_gets_a_challenge_response() {
    let store = store_with_admin_and_subscribers();
    let header = auth_header("admin", "wrong-password");
    let err = newsletter_delivery(&body(), &store, Some(&header)).unwrap_err();
    assert!(matches!(err, PublishError::AuthError(_)));
    let response = err.error_response();
    assert_eq!(response.status, 401);
    assert_eq!(response.headers.len(), 1);
    assert_eq!(response.headers[0].name, "www-authenticate");
    assert_eq!(response.headers[0].value, b"Basic realm=\"publish\"".to_vec());
}

#[test]
fn a_missing_header_gets_a_challenge_response() {
    let store = store_with_admin_and_subscribers();
    let err = newsletter_delivery(&body(), &store, None).unwrap_err();
    assert!(matches!(err, PublishError::AuthError(_)));
    assert_eq!(err.error_response().status, 401);
}

#[test]
fn an_unreadable_stored_hash_is_a_server_error() {
    let mut store = store_with_admin_and_subscribers();
    store.users[0].password = "not a phc string".to_string();
    let header = auth_header("admin", "anything");
    let err = newsletter_delivery(&body(), &store, Some(&header)).unwrap_err();
    assert!(matches!(err, PublishError::UnexpectedError(_)));
    assert_eq!(err.error_response().status, 500);
}
