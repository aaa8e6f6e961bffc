use newsletter::domain::{NewSubscriber, SubscribeFormData};
use newsletter::store::{Store, SubscriberStatus};
use newsletter::subscriptions::{
    confirm, subscribe, EmailSender, NewsletterSubscriptionService, Parameters, SendError,
    SubscribeError,
};

struct RecordingSender {
    sent: Vec<(String, String)>,
}

impl EmailSender for RecordingSender {
    fn send_confirmation(
        &mut self,
        subscriber: &NewSubscriber,
        confirmation_token: &String,
    ) -> Result<(), SendError> {
        self.sent.push((subscriber.email.inner(), confirmation_token.clone()));
        Ok(())
    }
}

struct FailingSender;

impl EmailSender for FailingSender {
    fn send_confirmation(
        &mut self,
        _subscriber: &NewSubscriber,
        _confirmation_token: &String,
    ) -> Result<(), SendError> {
        Err(SendError)
    }
}

fn service() -> NewsletterSubscriptionService<RecordingSender> {
    NewsletterSubscriptionService { email_sender: RecordingSender { sent: Vec::new() } }
}

fn le_guin_form() -> SubscribeFormData {
    SubscribeFormData {
        email: "ursula_le_guin@gmail.com".to_string(),
        name: "le guin".to_string(),
    }
}

#[test]
fn subscribe_valid_form_creates_pending_subscriber() {
    let mut store = Store::new();
    let mut svc = service();
    let response = subscribe(le_guin_form(), &mut svc, &mut store).unwrap();
    assert_eq!(response.status, 200);
    assert_eq!(store.subscriptions.len(), 1);
    assert_eq!(store.subscriptions[0].email, "ursula_le_guin@gmail.com");
    assert_eq!(store.subscriptions[0].name, "le guin");
    assert!(matches!(store.subscriptions[0].status, SubscriberStatus::PendingConfirmation));
    assert_eq!(store.subscription_tokens.len(), 1);
    let token = &store.subscription_tokens[0].subscription_token;
    assert_eq!(token.len(), 25);
    assert!(token.chars().all(|c| c.is_ascii_alphanumeric()));
    assert_eq!(svc.email_sender.sent.len(), 1);
    assert_eq!(svc.email_sender.sent[0].0, "ursula_le_guin@gmail.com");
    assert_eq!(&svc.email_sender.sent[0].1, token);
}

#[test]
fn subscribe_rejects_empty_name_without_a_row() {
    let mut store = Store::new();
    let mut svc = service();
    let form = SubscribeFormData {
        email: "ursula_le_guin@gmail.com".to_string(),
        name: "".to_string(),
    };
    let err = subscribe(form, &mut svc, &mut store).unwrap_err();
    assert_eq!(err.status_code(), 400);
    assert_eq!(store.subscriptions.len(), 0);
    assert_eq!(store.subscription_tokens.len(), 0);
}

#[test]
fn subscribe_rejects_empty_email_without_a_row() {
    let mut store = Store::new();
    let mut svc = service();
    let form = SubscribeFormData { email: "".to_string(), name: "Ursula".to_string() };
    let err = subscribe(form, &mut svc, &mut store).unwrap_err();
    assert_eq!(err.status_code(), 400);
    assert_eq!(store.subscriptions.len(), 0);
}

#[test]
fn subscribe_rejects_invalid_email_without_a_row() {
    let mut store = Store::new();
    let mut svc = service();
    let form = SubscribeFormData {
        email: "definitely-not-an-email".to_string(),
        name: "Ursula".to_string(),
    };
    let err = subscribe(form, &mut svc, &mut store).unwrap_err();
    assert_eq!(err.status_code(), 400);
    assert_eq!(store.subscriptions.len(), 0);
}

#[test]
fn subscribe_keeps_the_row_when_the_confirmation_mail_fails() {
    let mut store = Store::new();
    let mut svc = NewsletterSubscriptionService { email_sender: FailingSender };
    let err = subscribe(le_guin_form(), &mut svc, &mut store).unwrap_err();
    assert!(matches!(err, SubscribeError::SendEmailError(_)));
    assert_eq!(err.status_code(), 500);
    assert_eq!(store.subscriptions.len(), 1);
}

#[test]
fn a_failed_confirmation_reports_the_fixed_message() {
    let mut store = Store::new();
    let svc = service();
    let err = svc
        .confirm_subscription(&mut store, "mysterioustokenoutofthinair")
        .unwrap_err();
    assert_eq!(err, "Failed to confirm subscription");
}

#[test]
fn confirming_an_unknown_token_changes_nothing() {
    let mut store = Store::new();
    let mut svc = service();
    subscribe(le_guin_form(), &mut svc, &mut store).unwrap();
    let params = Parameters { subscription_token: "mysterioustokenoutofthinair".to_string() };
    let response = confirm(&params, &svc, &mut store);
    assert_eq!(response.status, 500);
    assert!(matches!(store.subscriptions[0].status, SubscriberStatus::PendingConfirmation));
}

#[test]
fn confirming_the_issued_token_is_idempotent() {
    let mut store = Store::new();
    let mut svc = service();
    subscribe(le_guin_form(), &mut svc, &mut store).unwrap();
    let token = store.subscription_tokens[0].subscription_token.clone();
    let params = Parameters { subscription_token: token };
    let first = confirm(&params, &svc, &mut store);
    assert_eq!(first.status, 200);
    assert!(matches!(store.subscriptions[0].status, SubscriberStatus::Confirmed));
    let second = confirm(&params, &svc, &mut store);
    assert_eq!(second.status, 200);
    assert!(matches!(store.subscriptions[0].status, SubscriberStatus::Confirmed));
    assert_eq!(store.subscriptions.len(), 1);
}
