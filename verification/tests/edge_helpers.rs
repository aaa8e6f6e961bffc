use newsletter::configuration::Environment;
use newsletter::http::see_other;
use newsletter::ipchecker::IpChecker;
use newsletter::session_state::{require_login, SessionAuthMiddlewareFactory, UserId};
use newsletter::startup::ApplicationBaseUrl;
use newsletter::subscriptions::{confirmation_email, confirmation_link};

#[test]
fn see_other_is_a_redirect_with_one_location_header() {
    let response = see_other("/admin/newsletter");
    assert_eq!(response.status, 303);
    assert_eq!(response.headers.len(), 1);
    assert_eq!(response.headers[0].name, "location");
    assert_eq!(response.headers[0].value, b"/admin/newsletter".to_vec());
    assert!(response.body.is_empty());
}

#[test]
fn environment_names_parse_case_insensitively() {
    assert!(matches!(Environment::try_from("local".to_string()), Ok(Environment::Local)));
    assert!(matches!(Environment::try_from("LOCAL".to_string()), Ok(Environment::Local)));
    assert!(matches!(
        Environment::try_from("Production".to_string()),
        Ok(Environment::Production)
    ));
    assert!(Environment::try_from("staging".to_string()).is_err());
}

#[test]
fn environment_names_round_trip() {
    assert_eq!(Environment::Local.as_str(), "local");
    assert_eq!(Environment::Production.as_str(), "production");
    assert!(matches!(
        Environment::try_from(Environment::Production.as_str().to_string()),
        Ok(Environment::Production)
    ));
}

#[test]
fn the_ip_allow_list_refuses_unknown_addresses() {
    let checker = IpChecker::default().allow("127.0.0.1");
    assert!(checker.check(Some(&"127.0.0.1".to_string())).is_none());
    let refused = checker.check(Some(&"10.0.0.1".to_string())).unwrap();
    assert_eq!(refused.status, 403);
    assert_eq!(refused.body, b"Forbidden".to_vec());
    let missing = checker.check(None).unwrap();
    assert_eq!(missing.status, 403);
}

#[test]
fn the_session_guard_redirects_anonymous_requests_to_login() {
    let _factory = SessionAuthMiddlewareFactory::default();
    match require_login(None) {
        Err(response) => {
            assert_eq!(response.status, 303);
            assert_eq!(response.headers[0].value, b"/login".to_vec());
        },
        Ok(_) => panic!("an anonymous request must be redirected"),
    }
    assert!(matches!(require_login(Some(UserId(3))), Ok(UserId(3))));
}

#[test]
fn confirmation_links_embed_the_token_under_the_base_url() {
    let base = ApplicationBaseUrl("https://newsletter.example.com".to_string());
    let link = confirmation_link(&base, "abc123");
    assert_eq!(
        link,
        "https://newsletter.example.com/subscriptions/confirm?subscription_token=abc123"
    );
}

#[test]
fn the_confirmation_message_carries_the_link_in_both_bodies() {
    let base = ApplicationBaseUrl("https://newsletter.example.com".to_string());
    let message = confirmation_email(&base, "abc123");
    assert_eq!(message.subject, "Welcome!");
    assert_eq!(
        message.html_body,
        "Welcome to our newsletter! Click <a href = \"https://newsletter.example.com/subscriptions/confirm?subscription_token=abc123\">here</a> to confirm your subscription"
    );
    assert_eq!(
        message.text_body,
        "Welcome to our newsletter! Visit https://newsletter.example.com/subscriptions/confirm?subscription_token=abc123 to confirm subscription"
    );
}

#[test]
fn an_unknown_environment_error_names_the_lowercased_input() {
    let err = Environment::try_from("Staging".to_string()).unwrap_err();
    assert_eq!(
        err,
        "staging is not a supported environment. Use either `local` or `production`."
    );
}
