use newsletter::delivery::{
    complete_task, dequeue_task, next_ready_at, run_worker, RetryPolicy, SendOutcome,
};
use newsletter::publish::execute;
use newsletter::storage::Storage;
use newsletter::subscriptions::subscribe;
use newsletter::subscriptions_confirm::{confirm, Parameters};

fn storage_with_confirmed(emails: &[&str]) -> Storage {
    let mut storage = Storage::new();
    for (i, email) in emails.iter().enumerate() {
        let (_, token) = subscribe(&mut storage, email.to_string(), format!("name-{}", i)).unwrap();
        confirm(
            &mut storage,
            Parameters {
                subscription_token: token,
            },
        )
        .unwrap();
    }
    storage
}

fn publish_one(storage: &mut Storage, key: &str, now: u64) {
    execute(
        storage,
        &"admin".to_string(),
        key.to_string(),
        &"title".to_string(),
        &"text".to_string(),
        &"html".to_string(),
        now,
    )
    .unwrap();
}

#[test]
fn permanent_failure_skips_only_that_recipient() {
    // Publish to 3 confirmed recipients; the transport fails the 2nd
    // permanently and succeeds for the 1st and 3rd: no task remains, two
    // successful invocations, one permanent-failure entry, one issue row.
    let mut storage = storage_with_confirmed(&["a@example.com", "b@example.com", "c@example.com"]);
    publish_one(&mut storage, "issue-a", 100);
    let outcomes = vec![
        SendOutcome::Delivered,
        SendOutcome::PermanentError("address rejected".to_string()),
        SendOutcome::Delivered,
    ];
    let policy = RetryPolicy {
        max_retries: 3,
        backoff_ms: 1000,
    };
    let report = run_worker(&mut storage, &outcomes, 200, &policy);
    assert_eq!(storage.delivery_tasks.len(), 0);
    assert_eq!(storage.issues.len(), 1);
    let delivered: Vec<&str> = report
        .iter()
        .filter(|a| matches!(a.outcome, SendOutcome::Delivered))
        .map(|a| a.recipient_address.as_str())
        .collect();
    let rejected: Vec<&str> = report
        .iter()
        .filter(|a| matches!(a.outcome, SendOutcome::PermanentError(_)))
        .map(|a| a.recipient_address.as_str())
        .collect();
    assert_eq!(delivered, vec!["a@example.com", "c@example.com"]);
    assert_eq!(rejected, vec!["b@example.com"]);
}

#[test]
fn transient_failures_are_retried_up_to_the_bound_then_abandoned() {
    // One recipient whose transport always fails transiently is retried
    // max_retries times and then abandoned; the other recipient of the
    // same issue is delivered and unaffected.
    let mut storage = storage_with_confirmed(&["flaky@example.com", "fine@example.com"]);
    publish_one(&mut storage, "issue-a", 100);
    let policy = RetryPolicy {
        max_retries: 2,
        backoff_ms: 10,
    };
    // claim order: flaky (transient), fine (delivered), then flaky again
    // after each backoff until abandonment
    let outcomes = vec![
        SendOutcome::TransientError("timeout".to_string()),
        SendOutcome::Delivered,
        SendOutcome::TransientError("timeout".to_string()),
        SendOutcome::TransientError("timeout".to_string()),
        // anything further must never be attempted
        SendOutcome::Delivered,
        SendOutcome::Delivered,
    ];
    let report = run_worker(&mut storage, &outcomes, 200, &policy);
    assert_eq!(storage.delivery_tasks.len(), 0);
    let flaky_attempts = report
        .iter()
        .filter(|a| a.recipient_address == "flaky@example.com")
        .count();
    let fine_attempts: Vec<&SendOutcome> = report
        .iter()
        .filter(|a| a.recipient_address == "fine@example.com")
        .map(|a| &a.outcome)
        .collect();
    // initial attempt + max_retries retries, then the row is gone
    assert_eq!(flaky_attempts, 3);
    assert_eq!(fine_attempts.len(), 1);
    assert!(matches!(fine_attempts[0], SendOutcome::Delivered));
    assert_eq!(report.len(), 4);
}

#[test]
fn transient_failure_requeues_with_backoff() {
    let mut storage = storage_with_confirmed(&["a@example.com"]);
    publish_one(&mut storage, "issue-a", 100);
    let policy = RetryPolicy {
        max_retries: 5,
        backoff_ms: 50,
    };
    let attempt = dequeue_task(&storage, 100).unwrap();
    assert_eq!(attempt.recipient_address, "a@example.com");
    assert_eq!(attempt.title, "title");
    complete_task(
        &mut storage,
        attempt.issue_id,
        &attempt.recipient_address,
        &SendOutcome::TransientError("timeout".to_string()),
        100,
        &policy,
    );
    assert_eq!(storage.delivery_tasks.len(), 1);
    assert_eq!(storage.delivery_tasks[0].n_retries, 1);
    assert_eq!(storage.delivery_tasks[0].execute_after, 150);
    assert_eq!(
        storage.delivery_tasks[0].last_error,
        Some("timeout".to_string())
    );
    // not eligible before its execute_after instant
    assert!(dequeue_task(&storage, 149).is_none());
    assert_eq!(next_ready_at(&storage), Some(150));
    assert!(dequeue_task(&storage, 150).is_some());
    // a second transient failure backs off further: 150 + 2 * 50
    complete_task(
        &mut storage,
        attempt.issue_id,
        &attempt.recipient_address,
        &SendOutcome::TransientError("timeout".to_string()),
        150,
        &policy,
    );
    assert_eq!(storage.delivery_tasks[0].n_retries, 2);
    assert_eq!(storage.delivery_tasks[0].execute_after, 250);
}

#[test]
fn an_empty_queue_leaves_the_worker_idle() {
    let mut storage = storage_with_confirmed(&["a@example.com"]);
    assert!(dequeue_task(&storage, 1000).is_none());
    assert_eq!(next_ready_at(&storage), None);
    let outcomes = vec![SendOutcome::Delivered];
    let policy = RetryPolicy {
        max_retries: 1,
        backoff_ms: 1,
    };
    let report = run_worker(&mut storage, &outcomes, 1000, &policy);
    assert!(report.is_empty());
}

#[test]
fn a_worker_restart_resumes_from_the_rows_alone() {
    // No attempt state survives outside the rows: a drain that stops
    // midway (outcomes exhausted) is resumed by a second run.
    let mut storage = storage_with_confirmed(&["a@example.com", "b@example.com"]);
    publish_one(&mut storage, "issue-a", 100);
    let policy = RetryPolicy {
        max_retries: 2,
        backoff_ms: 10,
    };
    let first = run_worker(&mut storage, &vec![SendOutcome::Delivered], 200, &policy);
    assert_eq!(first.len(), 1);
    assert_eq!(storage.delivery_tasks.len(), 1);
    let second = run_worker(&mut storage, &vec![SendOutcome::Delivered], 201, &policy);
    assert_eq!(second.len(), 1);
    assert_eq!(storage.delivery_tasks.len(), 0);
    assert_eq!(first[0].recipient_address, "a@example.com");
    assert_eq!(second[0].recipient_address, "b@example.com");
}
