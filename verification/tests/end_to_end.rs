//! The whole lifecycle in one sitting: subscribe, confirm, publish, deliver,
//! republish.

use newsletter::authentication::change_password;
use newsletter::domain::{NewSubscriber, SubscribeFormData};
use newsletter::issue_delivery_worker::drain_queue;
use newsletter::publish::{newsletter_delivery, BodyData};
use newsletter::session_state::UserId;
use newsletter::store::{Store, SubscriberStatus, UserRow};
use newsletter::subscriptions::{
    confirm, subscribe, EmailSender, NewsletterSubscriptionService, Parameters, SendError,
};

struct SilentSender;

impl EmailSender for SilentSender {
    fn send_confirmation(
        &mut self,
        _subscriber: &NewSubscriber,
        _confirmation_token: &String,
    ) -> Result<(), SendError> {
        Ok(())
    }
}

#[test]
fn the_full_lifecycle_from_subscribe_to_replayed_publish() {
    let mut store = Store::new();
    store.users.push(UserRow {
        user_id: 1,
        username: "admin".to_string(),
        password: String::new(),
    });
    change_password(1, &"everythinghastostartsomewhere".to_string(), &mut store).unwrap();
    let mut service = NewsletterSubscriptionService { email_sender: SilentSender };

    // subscribe: 200, one pending row
    let form = SubscribeFormData {
        email: "ursula_le_guin@gmail.com".to_string(),
        name: "le guin".to_string(),
    };
    let response = subscribe(form, &mut service, &mut store).unwrap();
    assert_eq!(response.status, 200);
    assert!(matches!(store.subscriptions[0].status, SubscriberStatus::PendingConfirmation));

    // confirm via the issued token: 200, the row becomes confirmed
    let token = store.subscription_tokens[0].subscription_token.clone();
    let response = confirm(&Parameters { subscription_token: token }, &service, &mut store);
    assert_eq!(response.status, 200);
    assert!(matches!(store.subscriptions[0].status, SubscriberStatus::Confirmed));

    // publish: 303, one issue, one delivery task
    let body = BodyData {
        title: "T".to_string(),
        text: "t".to_string(),
        html: "<p>h</p>".to_string(),
        idempotency_key: "k1".to_string(),
    };
    let first = newsletter_delivery(body, &mut store, UserId(1)).unwrap();
    assert_eq!(first.status, 303);
    assert_eq!(store.newsletter_issues.len(), 1);
    assert_eq!(store.newsletter_issues[0].title, "T");
    assert_eq!(store.issue_delivery_queue.len(), 1);

    // the worker owes exactly one send, then the queue is empty
    let jobs = drain_queue(&mut store);
    assert_eq!(jobs.len(), 1);
    assert_eq!(jobs[0].email.inner(), "ursula_le_guin@gmail.com");
    assert_eq!(jobs[0].title, "T");
    assert_eq!(jobs[0].text, "t");
    assert_eq!(jobs[0].html, "<p>h</p>");
    assert_eq!(store.issue_delivery_queue.len(), 0);

    // republish with the same key: byte-identical response, no second issue,
    // no second task (so no second send)
    let body = BodyData {
        title: "T".to_string(),
        text: "t".to_string(),
        html: "<p>h</p>".to_string(),
        idempotency_key: "k1".to_string(),
    };
    let second = newsletter_delivery(body, &mut store, UserId(1)).unwrap();
    assert_eq!(second.status, first.status);
    assert_eq!(second.body, first.body);
    assert_eq!(second.headers.len(), first.headers.len());
    assert_eq!(second.headers[0].name, first.headers[0].name);
    assert_eq!(second.headers[0].value, first.headers[0].value);
    assert_eq!(store.newsletter_issues.len(), 1);
    assert_eq!(store.issue_delivery_queue.len(), 0);
}
