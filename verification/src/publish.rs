//! The publish path: the idempotent execution wrapper around the enqueue
//! step.
//!
//! [`execute`] validates the caller-supplied token, consults the
//! idempotency store, and on a first claim runs the enqueue step — one
//! issue row plus one delivery task per confirmed recipient — and saves
//! the response, all as one atomic transition on the storage. A repeated
//! token replays the saved response verbatim and changes nothing.

use vstd::prelude::*;

use crate::idempotency::{
    save_response, try_processing, try_processing_model, IdempotencyKey, NextAction,
    NextActionModel,
};
use crate::storage::{
    confirmed_emails, has_record, has_task, key_valid, lemma_confirmed_emails_distinct,
    lemma_confirmed_emails_take_step, record_idx, record_matches, task_matches, DeliveryTask,
    DeliveryTaskModel, Issue, IssueModel, SavedResponse, SavedResponseModel, Storage,
    StorageModel, SubscriptionStatus,
};
use crate::utils::{see_other, see_other_model};

verus! {

// ---------------------------------------------------------------------
// The enqueue step
// ---------------------------------------------------------------------

/// Transition of [`insert_newsletter_issue`]: one new issue row whose
/// identifier is the next table position; nothing else changes.
pub open spec fn insert_issue_model(
    s: StorageModel,
    title: Seq<char>,
    text_content: Seq<char>,
    html_content: Seq<char>,
    now: int,
) -> StorageModel {
    StorageModel {
        records: s.records,
        issues: s.issues.push(
            IssueModel {
                issue_id: s.issues.len() as int,
                title,
                text_content,
                html_content,
                published_at: now,
            },
        ),
        tasks: s.tasks,
        subscriptions: s.subscriptions,
        tokens: s.tokens,
    }
}

/// Stores the authored message once, under a fresh unique identifier.
pub fn insert_newsletter_issue(
    storage: &mut Storage,
    title: &String,
    text_content: &String,
    html_content: &String,
    now: u64,
) -> (issue_id: usize)
    requires
        old(storage).wf(),
    ensures
        issue_id as int == old(storage)@.issues.len(),
        final(storage)@ == insert_issue_model(
            old(storage)@,
            title@,
            text_content@,
            html_content@,
            now as int,
        ),
        final(storage).wf(),
{
    let issue_id = storage.issues.len();
    storage.issues.push(
        Issue {
            issue_id,
            title: title.clone(),
            text_content: text_content.clone(),
            html_content: html_content.clone(),
            published_at: now,
        },
    );
    proof {
        assert(storage@ =~= insert_issue_model(
            old(storage)@,
            title@,
            text_content@,
            html_content@,
            now as int,
        ));
    }
    issue_id
}

/// The delivery tasks a fan-out creates: one fresh task per address, due
/// immediately, with no retries and no recorded error yet.
pub open spec fn fan_out_tasks(
    emails: Seq<Seq<char>>,
    issue_id: int,
    now: int,
) -> Seq<DeliveryTaskModel> {
    Seq::new(
        emails.len(),
        |i: int|
            DeliveryTaskModel {
                issue_id,
                recipient: emails[i],
                n_retries: 0,
                execute_after: now,
                last_error: None,
            },
    )
}

/// Transition of [`enqueue_delivery_tasks`]: the queue grows by the
/// fan-out of the issue over the currently confirmed recipients; nothing
/// else changes.
pub open spec fn enqueue_model(s: StorageModel, issue_id: int, now: int) -> StorageModel {
    StorageModel {
        records: s.records,
        issues: s.issues,
        tasks: s.tasks + fan_out_tasks(confirmed_emails(s.subscriptions), issue_id, now),
        subscriptions: s.subscriptions,
        tokens: s.tokens,
    }
}

/// Fans the issue out into the delivery queue: one task per recipient
/// confirmed at this instant — a snapshot, not a live view. Called once
/// per issue, right after the issue row is inserted.
pub fn enqueue_delivery_tasks(storage: &mut Storage, issue_id: usize, now: u64)
    requires
        old(storage).wf(),
        (issue_id as int) < old(storage)@.issues.len(),
        forall|j: int|
            0 <= j < old(storage)@.tasks.len() ==> #[trigger] old(storage)@.tasks[j].issue_id
                != issue_id as int,
    ensures
        final(storage)@ == enqueue_model(old(storage)@, issue_id as int, now as int),
        final(storage).wf(),
{
    let n = storage.subscriptions.len();
    let mut i: usize = 0;
    while i < n
        invariant
            storage.wf(),
            n == storage.subscriptions.len(),
            i <= n,
            storage@.records == old(storage)@.records,
            storage@.issues == old(storage)@.issues,
            storage@.subscriptions == old(storage)@.subscriptions,
            storage@.tokens == old(storage)@.tokens,
            (issue_id as int) < storage@.issues.len(),
            forall|j: int|
                0 <= j < old(storage)@.tasks.len() ==> #[trigger] old(storage)@.tasks[j].issue_id
                    != issue_id as int,
            storage@.tasks =~= old(storage)@.tasks + fan_out_tasks(
                confirmed_emails(storage@.subscriptions.take(i as int)),
                issue_id as int,
                now as int,
            ),
        decreases n - i,
    {
        let ghost entry = storage@;
        let is_confirmed = {
            let sub = &storage.subscriptions[i];
            sub.status == SubscriptionStatus::Confirmed
        };
        if is_confirmed {
            let recipient_address = storage.subscriptions[i].email.clone();
            storage.delivery_tasks.push(
                DeliveryTask {
                    issue_id,
                    recipient_address,
                    n_retries: 0,
                    execute_after: now,
                    last_error: None,
                },
            );
            proof {
                assert(storage@.tasks =~= entry.tasks.push(
                    DeliveryTaskModel {
                        issue_id: issue_id as int,
                        recipient: storage@.subscriptions[i as int].email,
                        n_retries: 0,
                        execute_after: now as int,
                        last_error: None,
                    },
                ));
            }
        }
        proof {
            let subs = storage@.subscriptions;
            lemma_confirmed_emails_take_step(subs, i as int);
            let c1 = confirmed_emails(subs.take(i as int + 1));
            let m = old(storage)@.tasks.len() as int;
            assert(storage@.tasks =~= old(storage)@.tasks + fan_out_tasks(
                c1,
                issue_id as int,
                now as int,
            ));
            // the new task, if any, keeps the queue well-formed: its issue
            // exists, and its recipient is new for this issue
            assert forall|a: int, b: int|
                0 <= a < b < subs.take(i as int + 1).len() implies #[trigger] subs.take(
                i as int + 1,
            )[a].email != #[trigger] subs.take(i as int + 1)[b].email by {
                assert(subs[a].email != subs[b].email);
            }
            lemma_confirmed_emails_distinct(subs.take(i as int + 1));
            assert forall|a: int, b: int|
                0 <= a < b < storage@.tasks.len() implies !(#[trigger] storage@.tasks[a].issue_id
                == #[trigger] storage@.tasks[b].issue_id && storage@.tasks[a].recipient
                == storage@.tasks[b].recipient) by {
                if b < entry.tasks.len() {
                    assert(storage@.tasks[a] == entry.tasks[a]);
                    assert(storage@.tasks[b] == entry.tasks[b]);
                } else {
                    assert(storage@.tasks[b] == fan_out_tasks(c1, issue_id as int, now as int)[b
                        - m]);
                    if a < m {
                        assert(storage@.tasks[a] == old(storage)@.tasks[a]);
                        assert(old(storage)@.tasks[a].issue_id != issue_id as int);
                    } else {
                        assert(storage@.tasks[a].recipient == c1[a - m]);
                        assert(storage@.tasks[b].recipient == c1[b - m]);
                        assert(c1[a - m] != c1[b - m]);
                    }
                }
            }
            assert(storage@.wf());
        }
        i = i + 1;
    }
    proof {
        assert(storage@.subscriptions.take(n as int) =~= storage@.subscriptions);
        assert(storage@ =~= enqueue_model(old(storage)@, issue_id as int, now as int));
    }
}

// ---------------------------------------------------------------------
// The idempotent execution wrapper
// ---------------------------------------------------------------------

/// What a publish submission observed: its own fresh execution, a
/// verbatim replay of an earlier one, or a still-in-flight claim the
/// caller should retry later.
pub enum ExecuteOutcome {
    Fresh(SavedResponse),
    Replayed(SavedResponse),
    InFlight,
}

/// Abstract view of an [`ExecuteOutcome`], with the rejected-token case
/// folded in so the wrapper is one total transition.
#[verifier::ext_equal]
pub enum ExecuteResultModel {
    Fresh(SavedResponseModel),
    Replayed(SavedResponseModel),
    InFlight,
    Rejected(Seq<char>),
}

impl View for ExecuteOutcome {
    type V = ExecuteResultModel;

    open spec fn view(&self) -> ExecuteResultModel {
        match self {
            ExecuteOutcome::Fresh(r) => ExecuteResultModel::Fresh(r@),
            ExecuteOutcome::Replayed(r) => ExecuteResultModel::Replayed(r@),
            ExecuteOutcome::InFlight => ExecuteResultModel::InFlight,
        }
    }
}

/// The model of what [`execute`] returned.
pub open spec fn execute_result_model(r: Result<ExecuteOutcome, String>) -> ExecuteResultModel {
    match r {
        Ok(o) => o@,
        Err(m) => ExecuteResultModel::Rejected(m@),
    }
}

/// The location a successful publish redirects to.
pub open spec fn publish_redirect() -> Seq<char> {
    "/admin/newsletter"@
}

/// Why a token was rejected, by the same case split `IdempotencyKey::parse`
/// makes.
pub open spec fn key_error_message(key: Seq<char>) -> Seq<char> {
    if key.len() == 0 {
        "The idempotency key cannot be empty"@
    } else {
        "The idempotency key must not exceed 50 characters"@
    }
}

/// Transition of the idempotent execution wrapper. An invalid token is
/// rejected before anything is read or written. A first claim runs the
/// enqueue step and saves the redirect response, atomically with the
/// claim; a completed key replays its response; an in-flight key changes
/// nothing and reports the race.
pub open spec fn execute_model(
    s: StorageModel,
    caller: Seq<char>,
    key: Seq<char>,
    title: Seq<char>,
    text_content: Seq<char>,
    html_content: Seq<char>,
    now: int,
) -> (StorageModel, ExecuteResultModel) {
    if !key_valid(key) {
        (s, ExecuteResultModel::Rejected(key_error_message(key)))
    } else {
        let (s1, action) = try_processing_model(s, caller, key, now);
        match action {
            NextActionModel::StartProcessing => {
                let issue_id = s1.issues.len() as int;
                let s2 = insert_issue_model(s1, title, text_content, html_content, now);
                let s3 = enqueue_model(s2, issue_id, now);
                let resp = see_other_model(publish_redirect());
                let s4 = crate::idempotency::save_response_model(s3, caller, key, resp);
                (s4, ExecuteResultModel::Fresh(resp))
            },
            NextActionModel::ReturnSavedResponse(resp) => (s1, ExecuteResultModel::Replayed(resp)),
            NextActionModel::InFlight => (s1, ExecuteResultModel::InFlight),
        }
    }
}

/// The idempotent execution wrapper around the enqueue step.
///
/// Exactly one submission per `(caller_id, idempotency_key)` pair ever
/// runs the enqueue step; every later submission of the same pair replays
/// the saved response byte for byte, and a submission racing a
/// still-unfinished one observes `InFlight` and is expected to retry.
pub fn execute(
    storage: &mut Storage,
    caller_id: &String,
    idempotency_key: String,
    title: &String,
    text_content: &String,
    html_content: &String,
    now: u64,
) -> (r: Result<ExecuteOutcome, String>)
    requires
        old(storage).wf(),
    ensures
        final(storage)@ == execute_model(
            old(storage)@,
            caller_id@,
            idempotency_key@,
            title@,
            text_content@,
            html_content@,
            now as int,
        ).0,
        execute_result_model(r) == execute_model(
            old(storage)@,
            caller_id@,
            idempotency_key@,
            title@,
            text_content@,
            html_content@,
            now as int,
        ).1,
        final(storage).wf(),
{
    let key = match IdempotencyKey::parse(idempotency_key) {
        Ok(k) => k,
        Err(m) => {
            return Err(m);
        },
    };
    match try_processing(storage, caller_id, &key, now) {
        NextAction::ReturnSavedResponse(resp) => Ok(ExecuteOutcome::Replayed(resp)),
        NextAction::InFlight => Ok(ExecuteOutcome::InFlight),
        NextAction::StartProcessing => {
            let ghost s1 = storage@;
            let issue_id = insert_newsletter_issue(storage, title, text_content, html_content, now);
            proof {
                assert forall|j: int| 0 <= j < storage@.tasks.len() implies #[trigger] storage@
                    .tasks[j].issue_id != issue_id as int by {
                    assert(s1.tasks[j].issue_id < s1.issues.len());
                }
            }
            enqueue_delivery_tasks(storage, issue_id, now);
            let response = see_other("/admin/newsletter");
            proof {
                let claimed_at = s1.records.len() - 1;
                assert(crate::storage::record_matches(
                    storage@.records[claimed_at],
                    caller_id@,
                    key@,
                ));
                crate::storage::lemma_record_idx_unique(storage@, caller_id@, key@, claimed_at);
            }
            save_response(storage, caller_id, &key, response.clone());
            Ok(ExecuteOutcome::Fresh(response))
        },
    }
}


// ---------------------------------------------------------------------
// Laws of the publish path
// ---------------------------------------------------------------------

/// The record a completed first execution leaves for its key.
pub open spec fn completed_record(
    caller: Seq<char>,
    key: Seq<char>,
    resp: SavedResponseModel,
    now: int,
) -> crate::storage::IdempotencyRecordModel {
    crate::storage::IdempotencyRecordModel { caller, key, response: Some(resp), created_at: now }
}

/// What one fresh execution does to the storage: the key completes with
/// the redirect response, one issue row appears, and the queue grows by
/// its fan-out. Everything else is untouched.
pub proof fn lemma_fresh_execution_shape(
    s: StorageModel,
    caller: Seq<char>,
    key: Seq<char>,
    title: Seq<char>,
    text_content: Seq<char>,
    html_content: Seq<char>,
    now: int,
)
    requires
        s.wf(),
        key_valid(key),
        !has_record(s.records, caller, key),
    ensures
        ({
            let (s1, o1) = execute_model(s, caller, key, title, text_content, html_content, now);
            let resp = see_other_model(publish_redirect());
            &&& o1 == ExecuteResultModel::Fresh(resp)
            &&& s1.records =~= s.records.push(completed_record(caller, key, resp, now))
            &&& s1.issues =~= s.issues.push(
                IssueModel {
                    issue_id: s.issues.len() as int,
                    title,
                    text_content,
                    html_content,
                    published_at: now,
                },
            )
            &&& s1.tasks =~= s.tasks + fan_out_tasks(
                confirmed_emails(s.subscriptions),
                s.issues.len() as int,
                now,
            )
            &&& s1.subscriptions == s.subscriptions
            &&& s1.tokens == s.tokens
        }),
{
    let resp = see_other_model(publish_redirect());
    let claimed = crate::idempotency::claimed_record(caller, key, now);
    let sa = try_processing_model(s, caller, key, now).0;
    assert(sa.records == s.records.push(claimed));
    let n = s.records.len() as int;
    let sb = insert_issue_model(sa, title, text_content, html_content, now);
    let sc = enqueue_model(sb, sa.issues.len() as int, now);
    assert(sc.records == s.records.push(claimed));
    assert(record_matches(sc.records[n], caller, key));
    assert(has_record(sc.records, caller, key));
    let idx = record_idx(sc.records, caller, key);
    assert(0 <= idx < sc.records.len() && record_matches(sc.records[idx], caller, key));
    if idx != n {
        assert(record_matches(s.records[idx], caller, key));
        assert(has_record(s.records, caller, key));
    }
    assert(idx == n);
    let sd = crate::idempotency::save_response_model(sc, caller, key, resp);
    assert(sd.records =~= s.records.push(completed_record(caller, key, resp, now)));
}

/// Law (exactly-once per key): two publish submissions of the same
/// `(caller, token)` pair — however they were serialized by the store —
/// create exactly one issue row, and both observe byte-identical
/// responses: the second replays the first's saved redirect and leaves
/// the storage, the queue included, exactly as the first left it.
pub proof fn lemma_duplicate_submission_replays(
    s: StorageModel,
    caller: Seq<char>,
    key: Seq<char>,
    t1: Seq<char>,
    x1: Seq<char>,
    h1: Seq<char>,
    now1: int,
    t2: Seq<char>,
    x2: Seq<char>,
    h2: Seq<char>,
    now2: int,
)
    requires
        s.wf(),
        key_valid(key),
        !has_record(s.records, caller, key),
    ensures
        ({
            let (s1, o1) = execute_model(s, caller, key, t1, x1, h1, now1);
            let (s2, o2) = execute_model(s1, caller, key, t2, x2, h2, now2);
            &&& o1 == ExecuteResultModel::Fresh(see_other_model(publish_redirect()))
            &&& o2 == ExecuteResultModel::Replayed(see_other_model(publish_redirect()))
            &&& s2 == s1
            &&& s1.issues.len() == s.issues.len() + 1
        }),
{
    lemma_fresh_execution_shape(s, caller, key, t1, x1, h1, now1);
    let (s1, o1) = execute_model(s, caller, key, t1, x1, h1, now1);
    let resp = see_other_model(publish_redirect());
    let n = s.records.len() as int;
    assert(s1.records[n] == completed_record(caller, key, resp, now1));
    assert(record_matches(s1.records[n], caller, key));
    assert(has_record(s1.records, caller, key));
    let idx = record_idx(s1.records, caller, key);
    assert(0 <= idx < s1.records.len() && record_matches(s1.records[idx], caller, key));
    if idx != n {
        assert(s1.records[idx] == s.records[idx]);
        assert(has_record(s.records, caller, key));
    }
    assert(idx == n);
    assert(s1.records[idx].response == Some(resp));
}

/// Law (idempotence of a completed key): once a key has a saved response,
/// a re-submission — any number of times, since the state does not move —
/// replays that response verbatim and changes nothing: not the issue
/// table, not the delivery queue.
pub proof fn lemma_completed_key_idempotent(
    s: StorageModel,
    caller: Seq<char>,
    key: Seq<char>,
    title: Seq<char>,
    text_content: Seq<char>,
    html_content: Seq<char>,
    now: int,
)
    requires
        s.wf(),
        has_record(s.records, caller, key),
        s.records[record_idx(s.records, caller, key)].response is Some,
    ensures
        execute_model(s, caller, key, title, text_content, html_content, now).0 == s,
        execute_model(s, caller, key, title, text_content, html_content, now).1
            == ExecuteResultModel::Replayed(
            s.records[record_idx(s.records, caller, key)].response.unwrap(),
        ),
{
    let idx = record_idx(s.records, caller, key);
    assert(0 <= idx < s.records.len() && record_matches(s.records[idx], caller, key));
    assert(key_valid(s.records[idx].key));
}

/// A whole sequence of publish submissions of one `(caller, token)` pair,
/// each with its own content and instant, applied in order.
pub open spec fn execute_many_model(
    s: StorageModel,
    caller: Seq<char>,
    key: Seq<char>,
    requests: Seq<(Seq<char>, Seq<char>, Seq<char>, int)>,
) -> StorageModel
    decreases requests.len(),
{
    if requests.len() == 0 {
        s
    } else {
        let r = requests[0];
        execute_many_model(
            execute_model(s, caller, key, r.0, r.1, r.2, r.3).0,
            caller,
            key,
            requests.drop_first(),
        )
    }
}

/// Law (idempotence, any number of times): once a key has a saved
/// response, any sequence of re-submissions of that key — whatever
/// content and instants they carry — leaves the storage, the delivery
/// queue included, exactly as it was.
pub proof fn lemma_completed_key_idempotent_many(
    s: StorageModel,
    caller: Seq<char>,
    key: Seq<char>,
    requests: Seq<(Seq<char>, Seq<char>, Seq<char>, int)>,
)
    requires
        s.wf(),
        has_record(s.records, caller, key),
        s.records[record_idx(s.records, caller, key)].response is Some,
    ensures
        execute_many_model(s, caller, key, requests) == s,
    decreases requests.len(),
{
    if requests.len() == 0 {
    } else {
        let r = requests[0];
        lemma_completed_key_idempotent(s, caller, key, r.0, r.1, r.2, r.3);
        lemma_completed_key_idempotent_many(s, caller, key, requests.drop_first());
    }
}

/// Law (in-flight policy): a submission that finds its key claimed but not
/// yet completed changes nothing and observes the explicit in-flight
/// signal — it never runs the enqueue step a second time.
pub proof fn lemma_in_flight_submission_changes_nothing(
    s: StorageModel,
    caller: Seq<char>,
    key: Seq<char>,
    title: Seq<char>,
    text_content: Seq<char>,
    html_content: Seq<char>,
    now: int,
)
    requires
        s.wf(),
        has_record(s.records, caller, key),
        s.records[record_idx(s.records, caller, key)].response is None,
    ensures
        execute_model(s, caller, key, title, text_content, html_content, now).0 == s,
        execute_model(s, caller, key, title, text_content, html_content, now).1
            == ExecuteResultModel::InFlight,
{
    let idx = record_idx(s.records, caller, key);
    assert(0 <= idx < s.records.len() && record_matches(s.records[idx], caller, key));
    assert(key_valid(s.records[idx].key));
}

/// Law (distinct tokens are independent): two submissions under distinct
/// `(caller, token)` pairs — even with identical content — each run their
/// own fresh execution: two issue rows with distinct identifiers, and the
/// queue grows by one full fan-out per issue.
pub proof fn lemma_distinct_tokens_publish_independently(
    s: StorageModel,
    c1: Seq<char>,
    k1: Seq<char>,
    c2: Seq<char>,
    k2: Seq<char>,
    t1: Seq<char>,
    x1: Seq<char>,
    h1: Seq<char>,
    now1: int,
    t2: Seq<char>,
    x2: Seq<char>,
    h2: Seq<char>,
    now2: int,
)
    requires
        s.wf(),
        key_valid(k1),
        key_valid(k2),
        !has_record(s.records, c1, k1),
        !has_record(s.records, c2, k2),
        !(c1 == c2 && k1 == k2),
        0 <= now1 <= u64::MAX,
    ensures
        ({
            let (s1, o1) = execute_model(s, c1, k1, t1, x1, h1, now1);
            let (s2, o2) = execute_model(s1, c2, k2, t2, x2, h2, now2);
            let id1 = s.issues.len() as int;
            let id2 = s.issues.len() + 1 as int;
            &&& o1 == ExecuteResultModel::Fresh(see_other_model(publish_redirect()))
            &&& o2 == ExecuteResultModel::Fresh(see_other_model(publish_redirect()))
            &&& s2.issues.len() == s.issues.len() + 2
            &&& s2.issues[id1].issue_id != s2.issues[id2].issue_id
            &&& s2.issues[id1].title == t1
            &&& s2.issues[id2].title == t2
            &&& s2.tasks =~= s.tasks + fan_out_tasks(confirmed_emails(s.subscriptions), id1, now1)
                + fan_out_tasks(confirmed_emails(s.subscriptions), id2, now2)
        }),
{
    lemma_fresh_execution_shape(s, c1, k1, t1, x1, h1, now1);
    let (s1, o1) = execute_model(s, c1, k1, t1, x1, h1, now1);
    assert(!has_record(s1.records, c2, k2)) by {
        if has_record(s1.records, c2, k2) {
            let j = record_idx(s1.records, c2, k2);
            assert(0 <= j < s1.records.len() && record_matches(s1.records[j], c2, k2));
            if j < s.records.len() {
                assert(s1.records[j] == s.records[j]);
                assert(has_record(s.records, c2, k2));
            } else {
                assert(s1.records[j].caller == c1 && s1.records[j].key == k1);
            }
        }
    }
    // the first execution preserves the invariant, exec-independently
    lemma_execute_model_preserves_wf(s, c1, k1, t1, x1, h1, now1);
    lemma_fresh_execution_shape(s1, c2, k2, t2, x2, h2, now2);
    let (s2, o2) = execute_model(s1, c2, k2, t2, x2, h2, now2);
    assert(s1.subscriptions == s.subscriptions);
    assert(s2.tasks =~= s.tasks + fan_out_tasks(confirmed_emails(s.subscriptions), s.issues.len() as int, now1)
        + fan_out_tasks(confirmed_emails(s.subscriptions), s.issues.len() + 1 as int, now2));
}

/// Law (fan-out snapshot): immediately after a successful fresh publish,
/// the new issue has exactly one delivery task per recipient confirmed at
/// that instant — every confirmed address has a row for the issue, every
/// row of the issue carries a confirmed address, and the invariant keeps
/// those rows pairwise distinct. Recipients confirmed later are not
/// retroactively included.
pub proof fn lemma_fan_out_exactly_once(
    s: StorageModel,
    caller: Seq<char>,
    key: Seq<char>,
    title: Seq<char>,
    text_content: Seq<char>,
    html_content: Seq<char>,
    now: int,
)
    requires
        s.wf(),
        key_valid(key),
        !has_record(s.records, caller, key),
        0 <= now <= u64::MAX,
    ensures
        ({
            let s1 = execute_model(s, caller, key, title, text_content, html_content, now).0;
            let id = s.issues.len() as int;
            let emails = confirmed_emails(s.subscriptions);
            &&& s1.wf()
            &&& forall|j: int|
                0 <= j < emails.len() ==> has_task(s1.tasks, id, #[trigger] emails[j])
            &&& forall|i: int|
                0 <= i < s1.tasks.len() && #[trigger] s1.tasks[i].issue_id == id ==> emails.contains(
                    s1.tasks[i].recipient,
                )
        }),
{
    lemma_fresh_execution_shape(s, caller, key, title, text_content, html_content, now);
    lemma_execute_model_preserves_wf(s, caller, key, title, text_content, html_content, now);
    let s1 = execute_model(s, caller, key, title, text_content, html_content, now).0;
    let id = s.issues.len() as int;
    let emails = confirmed_emails(s.subscriptions);
    let m = s.tasks.len() as int;
    assert forall|j: int| 0 <= j < emails.len() implies has_task(
        s1.tasks,
        id,
        #[trigger] emails[j],
    ) by {
        assert(s1.tasks[m + j] == fan_out_tasks(emails, id, now)[j]);
        assert(task_matches(s1.tasks[m + j], id, emails[j]));
    }
    assert forall|i: int|
        0 <= i < s1.tasks.len() && #[trigger] s1.tasks[i].issue_id == id implies emails.contains(
        s1.tasks[i].recipient,
    ) by {
        if i < m {
            assert(s1.tasks[i] == s.tasks[i]);
            assert(s.tasks[i].issue_id < s.issues.len());
        } else {
            assert(s1.tasks[i] == fan_out_tasks(emails, id, now)[i - m]);
            assert(s1.tasks[i].recipient == emails[i - m]);
        }
    }
}

/// The wrapper's transition preserves the storage invariant — stated on
/// the model so the laws can chain executions.
pub proof fn lemma_execute_model_preserves_wf(
    s: StorageModel,
    caller: Seq<char>,
    key: Seq<char>,
    title: Seq<char>,
    text_content: Seq<char>,
    html_content: Seq<char>,
    now: int,
)
    requires
        s.wf(),
        0 <= now <= u64::MAX,
    ensures
        execute_model(s, caller, key, title, text_content, html_content, now).0.wf(),
{
    if key_valid(key) {
        if !has_record(s.records, caller, key) {
            let claimed = crate::idempotency::claimed_record(caller, key, now);
            let sa = try_processing_model(s, caller, key, now).0;
            let n = s.records.len() as int;
            assert(sa.records == s.records.push(claimed));
            assert forall|a: int, b: int| 0 <= a < b < sa.records.len() implies !(
            #[trigger] sa.records[a].caller == #[trigger] sa.records[b].caller && sa.records[a].key
                == sa.records[b].key) by {
                if b == n {
                    assert(!record_matches(s.records[a], caller, key));
                }
            }
            assert(sa.wf());
            let sb = insert_issue_model(sa, title, text_content, html_content, now);
            let id = sa.issues.len() as int;
            assert forall|a: int| 0 <= a < sb.tasks.len() implies 0 <= #[trigger] sb.tasks[a].issue_id
                < sb.issues.len() by {
                assert(sb.tasks[a] == s.tasks[a]);
            }
            assert(sb.wf());
            let sc = enqueue_model(sb, id, now);
            let emails = confirmed_emails(sb.subscriptions);
            let fan = fan_out_tasks(emails, id, now);
            lemma_confirmed_emails_distinct(sb.subscriptions);
            let m = sb.tasks.len() as int;
            assert forall|a: int, b: int| 0 <= a < b < sc.tasks.len() implies !(
            #[trigger] sc.tasks[a].issue_id == #[trigger] sc.tasks[b].issue_id
                && sc.tasks[a].recipient == sc.tasks[b].recipient) by {
                if b < m {
                    assert(sc.tasks[a] == sb.tasks[a]);
                    assert(sc.tasks[b] == sb.tasks[b]);
                } else {
                    assert(sc.tasks[b] == fan[b - m]);
                    if a < m {
                        assert(sc.tasks[a] == sb.tasks[a]);
                        assert(sb.tasks[a].issue_id < id);
                    } else {
                        assert(sc.tasks[a] == fan[a - m]);
                        assert(emails[a - m] != emails[b - m]);
                    }
                }
            }
            assert forall|a: int| 0 <= a < sc.tasks.len() implies 0 <= #[trigger] sc.tasks[a].issue_id
                < sc.issues.len() && 0 <= sc.tasks[a].n_retries <= u32::MAX && 0
                <= sc.tasks[a].execute_after <= u64::MAX by {
                if a < m {
                    assert(sc.tasks[a] == sb.tasks[a]);
                } else {
                    assert(sc.tasks[a] == fan[a - m]);
                }
            }
            assert(sc.wf());
            assert(record_matches(sc.records[n], caller, key));
            assert(has_record(sc.records, caller, key));
            let idx = record_idx(sc.records, caller, key);
            assert(0 <= idx < sc.records.len() && record_matches(sc.records[idx], caller, key));
            if idx != n {
                assert(record_matches(s.records[idx], caller, key));
                assert(has_record(s.records, caller, key));
            }
            let resp = see_other_model(publish_redirect());
            let sd = crate::idempotency::save_response_model(sc, caller, key, resp);
            assert forall|a: int, b: int| 0 <= a < b < sd.records.len() implies !(
            #[trigger] sd.records[a].caller == #[trigger] sd.records[b].caller && sd.records[a].key
                == sd.records[b].key) by {
                assert(sd.records[a].caller == sc.records[a].caller && sd.records[a].key
                    == sc.records[a].key);
                assert(sd.records[b].caller == sc.records[b].caller && sd.records[b].key
                    == sc.records[b].key);
            }
            assert forall|a: int| 0 <= a < sd.records.len() implies key_valid(
                #[trigger] sd.records[a].key,
            ) by {
                assert(sd.records[a].key == sc.records[a].key);
            }
            assert(sd.wf());
        }
    }
}

// ---------------------------------------------------------------------
// Errors of the publish route
// ---------------------------------------------------------------------

/// Failure of a publish submission as the admin route reports it: the
/// caller was not authenticated, or the infrastructure failed.
#[derive(Debug)]
pub enum PublishError {
    AuthError(String),
    UnexpectedError(String),
}

impl PublishError {
    /// The status code the route answers with: authentication failures are
    /// `401`, everything else is an opaque `500`.
    pub fn status_code(&self) -> (code: u16)
        ensures
            code == (match self {
                PublishError::AuthError(_) => 401u16,
                PublishError::UnexpectedError(_) => 500u16,
            }),
    {
        match self {
            PublishError::AuthError(_) => 401,
            PublishError::UnexpectedError(_) => 500,
        }
    }
}

} // verus!
