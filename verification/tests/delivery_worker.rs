use newsletter::issue_delivery_worker::{drain_queue, try_execute_task, ExecutionOutcome};
use newsletter::store::{IssueDeliveryQueue, NewsletterIssue, Store};

fn store_with_issue_and_tasks(emails: &[&str]) -> Store {
    let mut store = Store::new();
    store.newsletter_issues.push(NewsletterIssue {
        newsletter_issue_id: 1,
        title: "Newsletter Title".to_string(),
        text: "Newsletter text".to_string(),
        html: "Newsletter html".to_string(),
        published_at: 0,
    });
    for email in emails {
        store.issue_delivery_queue.push(IssueDeliveryQueue {
            newsletter_issue_id: 1,
            subscriber_email: email.to_string(),
        });
    }
    store
}

#[test]
fn an_empty_queue_reports_empty_and_changes_nothing() {
    let mut store = store_with_issue_and_tasks(&[]);
    let (outcome, job) = try_execute_task(&mut store).unwrap();
    assert!(matches!(outcome, ExecutionOutcome::EmptyQueue));
    assert!(job.is_none());
    assert_eq!(store.newsletter_issues.len(), 1);
}

#[test]
fn a_claimed_task_yields_its_send_and_leaves_the_queue() {
    let mut store = store_with_issue_and_tasks(&["a@example.com", "b@example.com"]);
    let (outcome, job) = try_execute_task(&mut store).unwrap();
    assert!(matches!(outcome, ExecutionOutcome::TaskCompleted));
    let job = job.unwrap();
    assert_eq!(job.email.inner(), "a@example.com");
    assert_eq!(job.title, "Newsletter Title");
    assert_eq!(job.html, "Newsletter html");
    assert_eq!(job.text, "Newsletter text");
    assert_eq!(store.issue_delivery_queue.len(), 1);
    assert_eq!(store.issue_delivery_queue[0].subscriber_email, "b@example.com");
}

#[test]
fn an_invalid_address_is_dropped_without_a_send() {
    let mut store = store_with_issue_and_tasks(&["not-an-email", "b@example.com"]);
    let (outcome, job) = try_execute_task(&mut store).unwrap();
    assert!(matches!(outcome, ExecutionOutcome::TaskCompleted));
    assert!(job.is_none());
    assert_eq!(store.issue_delivery_queue.len(), 1);
}

#[test]
fn duplicate_rows_for_one_task_identity_are_deleted_together() {
    let mut store = store_with_issue_and_tasks(&["a@example.com", "a@example.com"]);
    let (outcome, job) = try_execute_task(&mut store).unwrap();
    assert!(matches!(outcome, ExecutionOutcome::TaskCompleted));
    assert!(job.is_some());
    assert_eq!(store.issue_delivery_queue.len(), 0);
}

#[test]
fn a_drain_owes_one_send_per_valid_address() {
    let mut store = store_with_issue_and_tasks(&[
        "a@example.com",
        "not-an-email",
        "b@example.com",
    ]);
    let jobs = drain_queue(&mut store);
    assert_eq!(jobs.len(), 2);
    assert_eq!(jobs[0].email.inner(), "a@example.com");
    assert_eq!(jobs[1].email.inner(), "b@example.com");
    assert_eq!(store.issue_delivery_queue.len(), 0);
}

#[test]
fn the_worker_drains_the_queue_to_zero_and_then_sleeps() {
    let mut store = store_with_issue_and_tasks(&[
        "a@example.com",
        "b@example.com",
        "c@example.com",
    ]);
    let jobs = drain_queue(&mut store);
    assert_eq!(jobs.len(), 3);
    assert_eq!(store.issue_delivery_queue.len(), 0);
    // with the queue drained, the next claim attempt reports it empty — the
    // loop around the worker then sleeps its backoff
    let (outcome, _) = try_execute_task(&mut store).unwrap();
    assert!(matches!(outcome, ExecutionOutcome::EmptyQueue));
}
