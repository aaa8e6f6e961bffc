use newsletter::domain::{NewSubscriber, SubscribeFormData, SubscriberEmail, SubscriberName};

#[test]
fn empty_string_is_rejected() {
    let email = "".to_string();
    assert!(SubscriberEmail::parse(email).is_err());
}

#[test]
fn email_missing_at_symbol_is_rejected() {
    let email = "ursuladomain.com".to_string();
    assert!(SubscriberEmail::parse(email).is_err());
}

#[test]
fn email_missing_subject_is_rejected() {
    let email = "@domain.com".to_string();
    assert!(SubscriberEmail::parse(email).is_err());
}

#[test]
fn valid_email_is_accepted_and_kept() {
    let email = SubscriberEmail::parse("ursula_le_guin@gmail.com".to_string()).unwrap();
    assert_eq!(email.inner(), "ursula_le_guin@gmail.com");
}

#[test]
fn rejection_message_names_the_address() {
    let err = SubscriberEmail::parse("definitely-not-an-email".to_string()).unwrap_err();
    assert_eq!(err, "definitely-not-an-email is not a valid subscriber email.");
}

#[test]
fn empty_name_is_rejected() {
    assert!(SubscriberName::parse("".to_string()).is_err());
}

#[test]
fn nonempty_name_is_accepted() {
    let name = SubscriberName::parse("le guin".to_string()).unwrap();
    assert_eq!(name.inner(), "le guin");
}

#[test]
fn form_validation_checks_both_fields() {
    let ok = NewSubscriber::try_from_form(SubscribeFormData {
        email: "ursula_le_guin@gmail.com".to_string(),
        name: "le guin".to_string(),
    });
    assert!(ok.is_ok());
    let bad_name = NewSubscriber::try_from_form(SubscribeFormData {
        email: "ursula_le_guin@gmail.com".to_string(),
        name: "".to_string(),
    });
    assert!(bad_name.is_err());
    let bad_email = NewSubscriber::try_from_form(SubscribeFormData {
        email: "definitely-not-an-email".to_string(),
        name: "Ursula".to_string(),
    });
    assert!(bad_email.is_err());
}
