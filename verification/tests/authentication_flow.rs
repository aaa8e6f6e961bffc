use newsletter::admin::{change_password as change_password_route, get_username, FormData};
use newsletter::authentication::{
    change_password, validate_credentials, verify_password_hash, AuthError, Credentials,
};
use newsletter::session_state::UserId;
use newsletter::store::{Store, SubscriberStatus, UserRow};

const ADMIN_ID: u128 = 42;

fn store_with_admin(password: &str) -> Store {
    let mut store = Store::new();
    store.users.push(UserRow {
        user_id: ADMIN_ID,
        username: "admin".to_string(),
        password: String::new(),
    });
    change_password(ADMIN_ID, &password.to_string(), &mut store).unwrap();
    store
}

#[test]
fn the_right_password_validates_to_the_user_id() {
    let store = store_with_admin("everythinghastostartsomewhere");
    let credentials = Credentials {
        username: "admin".to_string(),
        password: "everythinghastostartsomewhere".to_string(),
    };
    assert_eq!(validate_credentials(&credentials, &store).unwrap(), ADMIN_ID);
}

#[test]
fn a_wrong_password_is_invalid_credentials() {
    let store = store_with_admin("everythinghastostartsomewhere");
    let credentials = Credentials {
        username: "admin".to_string(),
        password: "random-password".to_string(),
    };
    let err = validate_credentials(&credentials, &store).unwrap_err();
    assert!(matches!(err, AuthError::InvalidCredentials(_)));
}

#[test]
fn an_unknown_username_is_refused() {
    let store = store_with_admin("everythinghastostartsomewhere");
    let credentials = Credentials {
        username: "random-username".to_string(),
        password: "random-password".to_string(),
    };
    assert!(validate_credentials(&credentials, &store).is_err());
}

#[test]
fn an_unreadable_stored_hash_is_an_unexpected_error() {
    let mut store = Store::new();
    store.users.push(UserRow {
        user_id: ADMIN_ID,
        username: "admin".to_string(),
        password: "not a phc string".to_string(),
    });
    let credentials = Credentials {
        username: "admin".to_string(),
        password: "anything".to_string(),
    };
    let err = validate_credentials(&credentials, &store).unwrap_err();
    assert!(matches!(err, AuthError::UnexpectedError(_)));
}

#[test]
fn verifying_against_a_freshly_stored_hash_round_trips() {
    let store = store_with_admin("a-long-enough-password");
    let stored = store.users[0].password.clone();
    assert!(verify_password_hash(&stored, &"a-long-enough-password".to_string()).is_ok());
    assert!(verify_password_hash(&stored, &"another-password".to_string()).is_err());
}

#[test]
fn get_username_resolves_known_users_only() {
    let store = store_with_admin("everythinghastostartsomewhere");
    assert_eq!(get_username(ADMIN_ID, &store).unwrap(), "admin");
    assert!(get_username(99, &store).is_err());
}

#[test]
fn mismatched_new_passwords_redirect_back_unchanged() {
    let mut store = store_with_admin("oldpassword-oldpassword");
    let before = store.users[0].password.clone();
    let form = FormData {
        current_password: "oldpassword-oldpassword".to_string(),
        new_password: "newpassword-newpassword".to_string(),
        new_password_check: "different-different".to_string(),
    };
    let response = change_password_route(form, &mut store, UserId(ADMIN_ID)).unwrap();
    assert_eq!(response.status, 303);
    assert_eq!(response.headers[0].value, b"/admin/password".to_vec());
    assert_eq!(store.users[0].password, before);
}

#[test]
fn a_wrong_current_password_redirects_back_unchanged() {
    let mut store = store_with_admin("oldpassword-oldpassword");
    let before = store.users[0].password.clone();
    let form = FormData {
        current_password: "not-the-password".to_string(),
        new_password: "newpassword-newpassword".to_string(),
        new_password_check: "newpassword-newpassword".to_string(),
    };
    let response = change_password_route(form, &mut store, UserId(ADMIN_ID)).unwrap();
    assert_eq!(response.status, 303);
    assert_eq!(store.users[0].password, before);
}

#[test]
fn a_verified_password_change_takes_effect() {
    let mut store = store_with_admin("oldpassword-oldpassword");
    let form = FormData {
        current_password: "oldpassword-oldpassword".to_string(),
        new_password: "newpassword-newpassword".to_string(),
        new_password_check: "newpassword-newpassword".to_string(),
    };
    let response = change_password_route(form, &mut store, UserId(ADMIN_ID)).unwrap();
    assert_eq!(response.status, 303);
    let new_credentials = Credentials {
        username: "admin".to_string(),
        password: "newpassword-newpassword".to_string(),
    };
    assert_eq!(validate_credentials(&new_credentials, &store).unwrap(), ADMIN_ID);
    let old_credentials = Credentials {
        username: "admin".to_string(),
        password: "oldpassword-oldpassword".to_string(),
    };
    assert!(validate_credentials(&old_credentials, &store).is_err());
}

#[test]
fn stores_start_empty() {
    let store = Store::new();
    assert_eq!(store.subscriptions.len(), 0);
    assert!(!store.subscriptions.iter().any(|s| matches!(
        s.status,
        SubscriberStatus::Confirmed
    )));
}
