use newsletter::delivery::{run_worker, RetryPolicy, SendOutcome};
use newsletter::idempotency::IdempotencyKey;
use newsletter::publish::{execute, ExecuteOutcome};
use newsletter::storage::{SavedResponse, Storage, SubscriptionStatus};
use newsletter::subscriptions::subscribe;
use newsletter::subscriptions_confirm::{confirm, Parameters};

fn response_bytes(r: &SavedResponse) -> (u16, Vec<(String, String)>, Vec<u8>) {
    (
        r.response_status,
        r.response_headers.clone(),
        r.response_body.clone(),
    )
}

fn add_confirmed_subscriber(storage: &mut Storage, email: &str, name: &str) {
    let (_, token) = subscribe(storage, email.to_string(), name.to_string()).unwrap();
    confirm(
        storage,
        Parameters {
            subscription_token: token,
        },
    )
    .unwrap();
}

#[test]
fn publishing_redirects_and_saves_the_response() {
    let mut storage = Storage::new();
    add_confirmed_subscriber(&mut storage, "a@example.com", "A");
    let outcome = execute(
        &mut storage,
        &"admin".to_string(),
        "key-1".to_string(),
        &"Newsletter title".to_string(),
        &"Newsletter body as plain text".to_string(),
        &"<p>Newsletter body as HTML</p>".to_string(),
        100,
    )
    .unwrap();
    match outcome {
        ExecuteOutcome::Fresh(resp) => {
            assert_eq!(resp.response_status, 303);
            assert_eq!(
                resp.response_headers,
                vec![("Location".to_string(), "/admin/newsletter".to_string())]
            );
            assert!(resp.response_body.is_empty());
        }
        _ => panic!("a first submission must execute freshly"),
    }
    assert_eq!(storage.issues.len(), 1);
    assert_eq!(storage.issues[0].title, "Newsletter title");
    assert_eq!(storage.delivery_tasks.len(), 1);
    assert_eq!(storage.delivery_tasks[0].recipient_address, "a@example.com");
    assert_eq!(storage.idempotency_records.len(), 1);
    assert!(storage.idempotency_records[0].response.is_some());
}

#[test]
fn newsletter_creation_is_idempotent() {
    // Re-submitting an already-completed key any number of times changes
    // neither the issue table nor the delivery queue.
    let mut storage = Storage::new();
    add_confirmed_subscriber(&mut storage, "a@example.com", "A");
    let first = execute(
        &mut storage,
        &"admin".to_string(),
        "key-1".to_string(),
        &"Newsletter title".to_string(),
        &"text".to_string(),
        &"<p>html</p>".to_string(),
        100,
    )
    .unwrap();
    let tasks_after_first: Vec<String> = storage
        .delivery_tasks
        .iter()
        .map(|t| t.recipient_address.clone())
        .collect();
    for _ in 0..3 {
        let again = execute(
            &mut storage,
            &"admin".to_string(),
            "key-1".to_string(),
            &"Newsletter title".to_string(),
            &"text".to_string(),
            &"<p>html</p>".to_string(),
            200,
        )
        .unwrap();
        match (&first, &again) {
            (ExecuteOutcome::Fresh(a), ExecuteOutcome::Replayed(b)) => {
                assert_eq!(response_bytes(a), response_bytes(b));
            }
            _ => panic!("a repeated submission must replay the saved response"),
        }
    }
    assert_eq!(storage.issues.len(), 1);
    let tasks_after_retries: Vec<String> = storage
        .delivery_tasks
        .iter()
        .map(|t| t.recipient_address.clone())
        .collect();
    assert_eq!(tasks_after_first, tasks_after_retries);
    assert_eq!(storage.idempotency_records.len(), 1);
}

#[test]
fn concurrent_form_submission_is_handled_gracefully() {
    // Two submissions under the same `(caller_id, token)` pair — however
    // the store serialized them: exactly one issue row, byte-identical
    // responses, one completed idempotency record.
    let mut storage = Storage::new();
    add_confirmed_subscriber(&mut storage, "a@example.com", "A");
    let r1 = execute(
        &mut storage,
        &"u1".to_string(),
        "k1".to_string(),
        &"Newsletter title".to_string(),
        &"text".to_string(),
        &"<p>html</p>".to_string(),
        100,
    )
    .unwrap();
    let r2 = execute(
        &mut storage,
        &"u1".to_string(),
        "k1".to_string(),
        &"Newsletter title".to_string(),
        &"text".to_string(),
        &"<p>html</p>".to_string(),
        101,
    )
    .unwrap();
    let (a, b) = match (r1, r2) {
        (ExecuteOutcome::Fresh(a), ExecuteOutcome::Replayed(b)) => (a, b),
        _ => panic!("exactly one of the two submissions may execute"),
    };
    assert_eq!(response_bytes(&a), response_bytes(&b));
    assert_eq!(storage.issues.len(), 1);
    assert_eq!(storage.idempotency_records.len(), 1);
    assert!(storage.idempotency_records[0].response.is_some());
}

#[test]
fn distinct_tokens_produce_their_own_issues_and_fan_outs() {
    let mut storage = Storage::new();
    add_confirmed_subscriber(&mut storage, "a@example.com", "A");
    add_confirmed_subscriber(&mut storage, "b@example.com", "B");
    for key in ["k1", "k2"] {
        let outcome = execute(
            &mut storage,
            &"u1".to_string(),
            key.to_string(),
            &"Same title".to_string(),
            &"Same text".to_string(),
            &"Same html".to_string(),
            100,
        )
        .unwrap();
        assert!(matches!(outcome, ExecuteOutcome::Fresh(_)));
    }
    assert_eq!(storage.issues.len(), 2);
    assert_ne!(storage.issues[0].issue_id, storage.issues[1].issue_id);
    assert_eq!(storage.delivery_tasks.len(), 4);
    for issue_id in [0, 1] {
        let recipients: Vec<&str> = storage
            .delivery_tasks
            .iter()
            .filter(|t| t.issue_id == issue_id)
            .map(|t| t.recipient_address.as_str())
            .collect();
        assert_eq!(recipients, vec!["a@example.com", "b@example.com"]);
    }
}

#[test]
fn in_flight_key_is_reported_and_executes_nothing() {
    let mut storage = Storage::new();
    add_confirmed_subscriber(&mut storage, "a@example.com", "A");
    // a first caller holds the claim and has not completed
    let key = IdempotencyKey::parse("k1".to_string()).unwrap();
    let action = newsletter::idempotency::try_processing(&mut storage, &"u1".to_string(), &key, 50);
    assert!(matches!(
        action,
        newsletter::idempotency::NextAction::StartProcessing
    ));
    let issues_before = storage.issues.len();
    let outcome = execute(
        &mut storage,
        &"u1".to_string(),
        "k1".to_string(),
        &"title".to_string(),
        &"text".to_string(),
        &"html".to_string(),
        60,
    )
    .unwrap();
    assert!(matches!(outcome, ExecuteOutcome::InFlight));
    assert_eq!(storage.issues.len(), issues_before);
    // releasing the dangling claim frees the key for a retry
    newsletter::idempotency::release_claim(&mut storage, &"u1".to_string(), &key);
    let retry = execute(
        &mut storage,
        &"u1".to_string(),
        "k1".to_string(),
        &"title".to_string(),
        &"text".to_string(),
        &"html".to_string(),
        70,
    )
    .unwrap();
    assert!(matches!(retry, ExecuteOutcome::Fresh(_)));
    assert_eq!(storage.issues.len(), issues_before + 1);
}

#[test]
fn invalid_idempotency_keys_are_rejected_before_anything_runs() {
    let mut storage = Storage::new();
    add_confirmed_subscriber(&mut storage, "a@example.com", "A");
    let empty = execute(
        &mut storage,
        &"u1".to_string(),
        "".to_string(),
        &"title".to_string(),
        &"text".to_string(),
        &"html".to_string(),
        1,
    );
    match empty {
        Err(m) => assert_eq!(m, "The idempotency key cannot be empty"),
        Ok(_) => panic!("an empty idempotency key must be rejected"),
    }
    let oversized = execute(
        &mut storage,
        &"u1".to_string(),
        "x".repeat(51),
        &"title".to_string(),
        &"text".to_string(),
        &"html".to_string(),
        1,
    );
    match oversized {
        Err(m) => assert_eq!(m, "The idempotency key must not exceed 50 characters"),
        Ok(_) => panic!("an oversized idempotency key must be rejected"),
    }
    assert_eq!(storage.issues.len(), 0);
    assert_eq!(storage.idempotency_records.len(), 0);
}

#[test]
fn unconfirmed_subscribers_are_not_fanned_out() {
    let mut storage = Storage::new();
    // subscribed but never confirmed
    subscribe(&mut storage, "pending@example.com".to_string(), "P".to_string()).unwrap();
    add_confirmed_subscriber(&mut storage, "confirmed@example.com", "C");
    let outcome = execute(
        &mut storage,
        &"u1".to_string(),
        "k1".to_string(),
        &"title".to_string(),
        &"text".to_string(),
        &"html".to_string(),
        100,
    )
    .unwrap();
    assert!(matches!(outcome, ExecuteOutcome::Fresh(_)));
    assert_eq!(storage.delivery_tasks.len(), 1);
    assert_eq!(
        storage.delivery_tasks[0].recipient_address,
        "confirmed@example.com"
    );
    assert_eq!(storage.subscriptions[0].status, SubscriptionStatus::PendingConfirmation);
}

#[test]
fn round_trip_every_confirmed_recipient_is_delivered_exactly_once() {
    let mut storage = Storage::new();
    for (email, name) in [
        ("a@example.com", "A"),
        ("b@example.com", "B"),
        ("c@example.com", "C"),
    ] {
        add_confirmed_subscriber(&mut storage, email, name);
    }
    execute(
        &mut storage,
        &"u1".to_string(),
        "k1".to_string(),
        &"title".to_string(),
        &"text".to_string(),
        &"html".to_string(),
        100,
    )
    .unwrap();
    assert_eq!(storage.delivery_tasks.len(), 3);
    let outcomes = vec![
        SendOutcome::Delivered,
        SendOutcome::Delivered,
        SendOutcome::Delivered,
    ];
    let policy = RetryPolicy {
        max_retries: 3,
        backoff_ms: 1000,
    };
    let report = run_worker(&mut storage, &outcomes, 200, &policy);
    assert_eq!(storage.delivery_tasks.len(), 0);
    let mut attempted: Vec<String> = report
        .iter()
        .map(|a| a.recipient_address.clone())
        .collect();
    attempted.sort();
    assert_eq!(
        attempted,
        vec!["a@example.com", "b@example.com", "c@example.com"]
    );
}
