//! The delivery queue protocol and the worker that drains it.
//!
//! A worker repeatedly claims one eligible task ([`dequeue_task`]),
//! invokes the delivery capability for it, and advances the row by the
//! outcome ([`complete_task`]): delivered and permanently-failed rows are
//! removed, transient failures are retried with a monotonically growing
//! backoff until a configured bound, then abandoned. [`run_worker`] is the
//! claim–attempt–advance loop itself, driven by the sequence of transport
//! outcomes; it sleeps (jumps time forward) when no row is eligible.

use vstd::prelude::*;

use crate::storage::{
    has_task, lemma_task_idx_unique, task_idx, task_matches, DeliveryTask, DeliveryTaskModel,
    Storage, StorageModel,
};

verus! {

// ---------------------------------------------------------------------
// Retry policy and saturating time arithmetic
// ---------------------------------------------------------------------

/// The retry policy of the worker: how often a transiently failing task is
/// retried before abandonment, and the base of the growing backoff. Both
/// are configuration, not hidden constants.
#[derive(Clone, Copy, Debug, PartialEq, Eq, Structural)]
pub struct RetryPolicy {
    pub max_retries: u32,
    pub backoff_ms: u64,
}

/// Addition capped at the largest representable instant.
pub open spec fn spec_sat_add_u64(a: int, b: int) -> int {
    if a + b > u64::MAX {
        u64::MAX as int
    } else {
        a + b
    }
}

/// Multiplication capped at the largest representable instant.
pub open spec fn spec_sat_mul_u64(a: int, b: int) -> int {
    if a * b > u64::MAX {
        u64::MAX as int
    } else {
        a * b
    }
}

/// When a task that has already been retried `n_retries` times may next be
/// attempted: `backoff_ms * (n_retries + 1)` after now, so the delay grows
/// monotonically with every further retry (until the clock saturates).
pub open spec fn next_attempt_time(policy: RetryPolicy, n_retries: int, now: int) -> int {
    spec_sat_add_u64(now, spec_sat_mul_u64(policy.backoff_ms as int, n_retries + 1))
}

fn sat_add_u64(a: u64, b: u64) -> (r: u64)
    ensures
        r as int == spec_sat_add_u64(a as int, b as int),
{
    if a > u64::MAX - b {
        u64::MAX
    } else {
        a + b
    }
}

fn sat_mul_u64(a: u64, b: u64) -> (r: u64)
    ensures
        r as int == spec_sat_mul_u64(a as int, b as int),
{
    if b == 0 {
        proof {
            assert(a as int * 0 == 0) by (nonlinear_arith);
        }
        0
    } else if a > u64::MAX / b {
        proof {
            vstd::arithmetic::div_mod::lemma_fundamental_div_mod(u64::MAX as int, b as int);
            let q = u64::MAX as int / b as int;
            assert((q + 1) * b == b * q + b) by (nonlinear_arith);
            vstd::arithmetic::mul::lemma_mul_inequality(q + 1, a as int, b as int);
        }
        u64::MAX
    } else {
        proof {
            vstd::arithmetic::div_mod::lemma_fundamental_div_mod(u64::MAX as int, b as int);
            let q = u64::MAX as int / b as int;
            vstd::arithmetic::mul::lemma_mul_inequality(a as int, q, b as int);
            assert(q * b == b * q) by (nonlinear_arith);
            assert(a as int * b as int <= u64::MAX);
        }
        a * b
    }
}

// ---------------------------------------------------------------------
// Transport outcomes
// ---------------------------------------------------------------------

/// What the delivery capability reported for one attempt: success, a
/// failure worth retrying (network blip), or a failure that will never
/// succeed for this recipient (rejected address).
#[derive(Debug)]
pub enum SendOutcome {
    Delivered,
    TransientError(String),
    PermanentError(String),
}

/// Abstract view of a [`SendOutcome`].
#[verifier::ext_equal]
pub enum SendOutcomeModel {
    Delivered,
    TransientError(Seq<char>),
    PermanentError(Seq<char>),
}

impl View for SendOutcome {
    type V = SendOutcomeModel;

    open spec fn view(&self) -> SendOutcomeModel {
        match self {
            SendOutcome::Delivered => SendOutcomeModel::Delivered,
            SendOutcome::TransientError(e) => SendOutcomeModel::TransientError(e@),
            SendOutcome::PermanentError(e) => SendOutcomeModel::PermanentError(e@),
        }
    }
}

impl Clone for SendOutcome {
    fn clone(&self) -> (r: Self)
        ensures
            r@ == self@,
    {
        match self {
            SendOutcome::Delivered => SendOutcome::Delivered,
            SendOutcome::TransientError(e) => SendOutcome::TransientError(e.clone()),
            SendOutcome::PermanentError(e) => SendOutcome::PermanentError(e.clone()),
        }
    }
}

// ---------------------------------------------------------------------
// Claiming a task
// ---------------------------------------------------------------------

/// Index of the first task eligible at `now` (`execute_after <= now`), or
/// `-1` when none is.
pub open spec fn first_eligible(tasks: Seq<DeliveryTaskModel>, now: int) -> int
    decreases tasks.len(),
{
    if tasks.len() == 0 {
        -1
    } else if tasks[0].execute_after <= now {
        0
    } else {
        let r = first_eligible(tasks.drop_first(), now);
        if r < 0 {
            -1
        } else {
            r + 1
        }
    }
}

/// [`first_eligible`] names the first eligible index, and `-1` exactly
/// when no task is eligible.
pub proof fn lemma_first_eligible(tasks: Seq<DeliveryTaskModel>, now: int)
    ensures
        ({
            let r = first_eligible(tasks, now);
            &&& -1 <= r < tasks.len()
            &&& (r == -1 ==> forall|i: int|
                0 <= i < tasks.len() ==> #[trigger] tasks[i].execute_after > now)
            &&& (r >= 0 ==> tasks[r].execute_after <= now && (forall|i: int|
                0 <= i < r ==> #[trigger] tasks[i].execute_after > now))
        }),
    decreases tasks.len(),
{
    if tasks.len() == 0 {
    } else if tasks[0].execute_after <= now {
    } else {
        let rest = tasks.drop_first();
        lemma_first_eligible(rest, now);
        let r0 = first_eligible(rest, now);
        let r = first_eligible(tasks, now);
        if r0 < 0 {
            assert forall|i: int| 0 <= i < tasks.len() implies #[trigger] tasks[i].execute_after
                > now by {
                if i > 0 {
                    assert(rest[i - 1].execute_after > now);
                }
            }
        } else {
            assert(tasks[r] == rest[r0]);
            assert forall|i: int| 0 <= i < r implies #[trigger] tasks[i].execute_after > now by {
                if i > 0 {
                    assert(rest[i - 1].execute_after > now);
                }
            }
        }
    }
}

/// The earliest `execute_after` in the queue: when the worker may stop
/// idling. Meaningful only for a non-empty queue.
pub open spec fn min_execute_after(tasks: Seq<DeliveryTaskModel>) -> int
    decreases tasks.len(),
{
    if tasks.len() == 0 {
        0
    } else if tasks.len() == 1 {
        tasks[0].execute_after
    } else {
        let m = min_execute_after(tasks.drop_first());
        if tasks[0].execute_after <= m {
            tasks[0].execute_after
        } else {
            m
        }
    }
}

/// The minimum is attained and bounds every task's `execute_after`.
pub proof fn lemma_min_execute_after(tasks: Seq<DeliveryTaskModel>)
    requires
        tasks.len() > 0,
    ensures
        exists|i: int|
            0 <= i < tasks.len() && #[trigger] tasks[i].execute_after == min_execute_after(tasks),
        forall|i: int|
            0 <= i < tasks.len() ==> min_execute_after(tasks) <= #[trigger] tasks[i].execute_after,
    decreases tasks.len(),
{
    if tasks.len() == 1 {
        assert(tasks[0].execute_after == min_execute_after(tasks));
    } else {
        let rest = tasks.drop_first();
        lemma_min_execute_after(rest);
        let m = min_execute_after(tasks);
        if tasks[0].execute_after <= min_execute_after(rest) {
            assert(tasks[0].execute_after == m);
        } else {
            let j = choose|j: int|
                0 <= j < rest.len() && #[trigger] rest[j].execute_after == min_execute_after(rest);
            assert(tasks[j + 1].execute_after == m);
        }
        assert forall|i: int| 0 <= i < tasks.len() implies m
            <= #[trigger] tasks[i].execute_after by {
            if i > 0 {
                assert(min_execute_after(rest) <= rest[i - 1].execute_after);
            }
        }
    }
}

/// One claimed delivery attempt: the recipient and the issue content the
/// transport needs.
pub struct DeliveryAttempt {
    pub issue_id: usize,
    pub recipient_address: String,
    pub title: String,
    pub text_content: String,
    pub html_content: String,
}

/// Abstract view of a [`DeliveryAttempt`].
#[verifier::ext_equal]
pub struct DeliveryAttemptModel {
    pub issue_id: int,
    pub recipient: Seq<char>,
    pub title: Seq<char>,
    pub text_content: Seq<char>,
    pub html_content: Seq<char>,
}

impl View for DeliveryAttempt {
    type V = DeliveryAttemptModel;

    open spec fn view(&self) -> DeliveryAttemptModel {
        DeliveryAttemptModel {
            issue_id: self.issue_id as int,
            recipient: self.recipient_address@,
            title: self.title@,
            text_content: self.text_content@,
            html_content: self.html_content@,
        }
    }
}

/// What a claim observes: the first eligible task joined with its issue's
/// content, or nothing when no task is eligible at `now`.
pub open spec fn claim_model(s: StorageModel, now: int) -> Option<DeliveryAttemptModel> {
    let r = first_eligible(s.tasks, now);
    if r < 0 {
        None
    } else {
        let t = s.tasks[r];
        let issue = s.issues[t.issue_id];
        Some(
            DeliveryAttemptModel {
                issue_id: t.issue_id,
                recipient: t.recipient,
                title: issue.title,
                text_content: issue.text_content,
                html_content: issue.html_content,
            },
        )
    }
}

/// Claims the first task eligible at `now`, handing back everything the
/// transport needs for the attempt; `None` when the worker should idle.
/// The storage serializes writers, so a claimed row has exactly one
/// outstanding attempt: the one this call hands out.
pub fn dequeue_task(storage: &Storage, now: u64) -> (r: Option<DeliveryAttempt>)
    requires
        storage.wf(),
    ensures
        (match r {
            Some(attempt) => claim_model(storage@, now as int) == Some(attempt@),
            None => claim_model(storage@, now as int) is None,
        }),
        (r is Some) == (first_eligible(storage@.tasks, now as int) >= 0),
{
    proof {
        lemma_first_eligible(storage@.tasks, now as int);
    }
    let n = storage.delivery_tasks.len();
    let mut i: usize = 0;
    while i < n
        invariant
            storage.wf(),
            n == storage.delivery_tasks.len(),
            i <= n,
            forall|j: int|
                0 <= j < i as int ==> #[trigger] storage@.tasks[j].execute_after > now as int,
        decreases n - i,
    {
        if storage.delivery_tasks[i].execute_after <= now {
            proof {
                lemma_first_eligible(storage@.tasks, now as int);
                let r = first_eligible(storage@.tasks, now as int);
                if r == -1 {
                    assert(storage@.tasks[i as int].execute_after > now as int);
                }
                assert(r >= 0);
                if r < i as int {
                    assert(storage@.tasks[r].execute_after > now as int);
                }
                if r > i as int {
                    assert(storage@.tasks[i as int].execute_after > now as int);
                }
                assert(r == i as int);
            }
            let task = &storage.delivery_tasks[i];
            let issue_id = task.issue_id;
            proof {
                assert(storage@.tasks[i as int].issue_id < storage@.issues.len());
            }
            let issue = &storage.issues[issue_id];
            return Some(
                DeliveryAttempt {
                    issue_id,
                    recipient_address: task.recipient_address.clone(),
                    title: issue.title.clone(),
                    text_content: issue.text_content.clone(),
                    html_content: issue.html_content.clone(),
                },
            );
        }
        i = i + 1;
    }
    proof {
        lemma_first_eligible(storage@.tasks, now as int);
        let r = first_eligible(storage@.tasks, now as int);
        if r >= 0 {
            assert(storage@.tasks[r].execute_after > now as int);
        }
    }
    None
}

/// The instant the earliest task becomes eligible — what the worker
/// sleeps until when nothing is claimable; `None` when the queue is empty.
pub fn next_ready_at(storage: &Storage) -> (r: Option<u64>)
    requires
        storage.wf(),
    ensures
        (match r {
            Some(m) => storage@.tasks.len() > 0 && m as int == min_execute_after(storage@.tasks),
            None => storage@.tasks.len() == 0,
        }),
{
    let n = storage.delivery_tasks.len();
    if n == 0 {
        return None;
    }
    let mut i: usize = n - 1;
    let mut m: u64 = storage.delivery_tasks[n - 1].execute_after;
    proof {
        assert(storage@.tasks.skip(n - 1 as int) =~= seq![storage@.tasks[n - 1 as int]]);
    }
    while i > 0
        invariant
            storage.wf(),
            n == storage.delivery_tasks.len(),
            0 <= i < n,
            m as int == min_execute_after(storage@.tasks.skip(i as int)),
        decreases i,
    {
        i = i - 1;
        let candidate = storage.delivery_tasks[i].execute_after;
        proof {
            let suffix = storage@.tasks.skip(i as int);
            assert(suffix.drop_first() =~= storage@.tasks.skip(i as int + 1));
            assert(suffix[0] == storage@.tasks[i as int]);
            assert(suffix.len() >= 2);
        }
        if candidate <= m {
            m = candidate;
        }
    }
    proof {
        assert(storage@.tasks.skip(0) =~= storage@.tasks);
    }
    Some(m)
}

// ---------------------------------------------------------------------
// Advancing a claimed task
// ---------------------------------------------------------------------

/// Transition of [`complete_task`] at the task's index: a delivered or
/// permanently failed row is removed; a transient failure bumps the retry
/// count and pushes `execute_after` into the future, unless the retry
/// bound is exhausted — then the row is removed (abandoned). No other row
/// is touched.
pub open spec fn complete_task_model(
    s: StorageModel,
    idx: int,
    outcome: SendOutcomeModel,
    now: int,
    policy: RetryPolicy,
) -> StorageModel {
    let removed = StorageModel {
        records: s.records,
        issues: s.issues,
        tasks: s.tasks.remove(idx),
        subscriptions: s.subscriptions,
        tokens: s.tokens,
    };
    match outcome {
        SendOutcomeModel::Delivered => removed,
        SendOutcomeModel::PermanentError(_) => removed,
        SendOutcomeModel::TransientError(e) => {
            let t = s.tasks[idx];
            if t.n_retries >= policy.max_retries {
                removed
            } else {
                StorageModel {
                    records: s.records,
                    issues: s.issues,
                    tasks: s.tasks.update(
                        idx,
                        DeliveryTaskModel {
                            issue_id: t.issue_id,
                            recipient: t.recipient,
                            n_retries: t.n_retries + 1,
                            execute_after: next_attempt_time(policy, t.n_retries, now),
                            last_error: Some(e),
                        },
                    ),
                    subscriptions: s.subscriptions,
                    tokens: s.tokens,
                }
            }
        },
    }
}

/// Advances the claimed `(issue, recipient)` row by the transport's
/// outcome. Success and permanent failure are terminal for the row;
/// transient failure re-queues it with one more retry and a later
/// `execute_after`, or abandons it once `max_retries` is exhausted.
/// Worker-side failures are row-local: every other row is unchanged.
pub fn complete_task(
    storage: &mut Storage,
    issue_id: usize,
    recipient_address: &String,
    outcome: &SendOutcome,
    now: u64,
    policy: &RetryPolicy,
)
    requires
        old(storage).wf(),
        has_task(old(storage)@.tasks, issue_id as int, recipient_address@),
    ensures
        final(storage)@ == complete_task_model(
            old(storage)@,
            task_idx(old(storage)@.tasks, issue_id as int, recipient_address@),
            outcome@,
            now as int,
            *policy,
        ),
        final(storage).wf(),
{
    let n = storage.delivery_tasks.len();
    let mut i: usize = 0;
    while i < n
        invariant
            *storage == *old(storage),
            storage.wf(),
            n == storage.delivery_tasks.len(),
            i <= n,
            forall|j: int|
                0 <= j < i as int ==> !task_matches(
                    storage@.tasks[j],
                    issue_id as int,
                    recipient_address@,
                ),
        decreases n - i,
    {
        let found = {
            let t = &storage.delivery_tasks[i];
            t.issue_id == issue_id && t.recipient_address == *recipient_address
        };
        if found {
            proof {
                assert(task_matches(storage@.tasks[i as int], issue_id as int, recipient_address@));
                lemma_task_idx_unique(storage@, issue_id as int, recipient_address@, i as int);
            }
            let retire = match outcome {
                SendOutcome::Delivered => true,
                SendOutcome::PermanentError(_) => true,
                SendOutcome::TransientError(_) => {
                    storage.delivery_tasks[i].n_retries >= policy.max_retries
                },
            };
            if retire {
                storage.delivery_tasks.remove(i);
                proof {
                    assert(storage@.tasks =~= old(storage)@.tasks.remove(i as int));
                    assert(storage@ =~= complete_task_model(
                        old(storage)@,
                        i as int,
                        outcome@,
                        now as int,
                        *policy,
                    ));
                    assert forall|a: int, b: int|
                        0 <= a < b < storage@.tasks.len() implies !(
                    #[trigger] storage@.tasks[a].issue_id == #[trigger] storage@.tasks[b].issue_id
                        && storage@.tasks[a].recipient == storage@.tasks[b].recipient) by {
                        let a0 = if a < i as int {
                            a
                        } else {
                            a + 1
                        };
                        let b0 = if b < i as int {
                            b
                        } else {
                            b + 1
                        };
                        assert(storage@.tasks[a] == old(storage)@.tasks[a0]);
                        assert(storage@.tasks[b] == old(storage)@.tasks[b0]);
                    }
                    assert forall|a: int| 0 <= a < storage@.tasks.len() implies 0
                        <= #[trigger] storage@.tasks[a].issue_id < storage@.issues.len() && 0
                        <= storage@.tasks[a].n_retries <= u32::MAX && 0
                        <= storage@.tasks[a].execute_after <= u64::MAX by {
                        let a0 = if a < i as int {
                            a
                        } else {
                            a + 1
                        };
                        assert(storage@.tasks[a] == old(storage)@.tasks[a0]);
                    }
                    assert(storage@.wf());
                }
            } else {
                let message = match outcome {
                    SendOutcome::TransientError(e) => e.clone(),
                    _ => String::new(),
                };
                let t = &storage.delivery_tasks[i];
                let n_retries = t.n_retries + 1;
                let steps: u64 = (t.n_retries as u64) + 1;
                let execute_after = sat_add_u64(now, sat_mul_u64(policy.backoff_ms, steps));
                let updated = DeliveryTask {
                    issue_id: t.issue_id,
                    recipient_address: t.recipient_address.clone(),
                    n_retries,
                    execute_after,
                    last_error: Some(message),
                };
                storage.delivery_tasks.set(i, updated);
                proof {
                    assert(storage@ =~= complete_task_model(
                        old(storage)@,
                        i as int,
                        outcome@,
                        now as int,
                        *policy,
                    ));
                    assert forall|a: int, b: int|
                        0 <= a < b < storage@.tasks.len() implies !(
                    #[trigger] storage@.tasks[a].issue_id == #[trigger] storage@.tasks[b].issue_id
                        && storage@.tasks[a].recipient == storage@.tasks[b].recipient) by {
                        assert(storage@.tasks[a].issue_id == old(storage)@.tasks[a].issue_id
                            && storage@.tasks[a].recipient == old(storage)@.tasks[a].recipient);
                        assert(storage@.tasks[b].issue_id == old(storage)@.tasks[b].issue_id
                            && storage@.tasks[b].recipient == old(storage)@.tasks[b].recipient);
                    }
                    assert(storage@.wf());
                }
            }
            return ;
        }
        i = i + 1;
    }
    proof {
        assert(!has_task(storage@.tasks, issue_id as int, recipient_address@));
        assert(false);
    }
}

// ---------------------------------------------------------------------
// The worker loop
// ---------------------------------------------------------------------

/// One line of the worker's transcript: which recipient of which issue
/// was attempted, and what the transport reported. Permanent failures and
/// abandonments appear here as the log the route never sees.
pub struct AttemptRecord {
    pub issue_id: usize,
    pub recipient_address: String,
    pub outcome: SendOutcome,
}

/// Abstract view of an [`AttemptRecord`].
#[verifier::ext_equal]
pub struct AttemptRecordModel {
    pub issue_id: int,
    pub recipient: Seq<char>,
    pub outcome: SendOutcomeModel,
}

impl View for AttemptRecord {
    type V = AttemptRecordModel;

    open spec fn view(&self) -> AttemptRecordModel {
        AttemptRecordModel {
            issue_id: self.issue_id as int,
            recipient: self.recipient_address@,
            outcome: self.outcome@,
        }
    }
}

/// The views of a sequence of transport outcomes.
pub open spec fn send_outcomes_model(outcomes: Seq<SendOutcome>) -> Seq<SendOutcomeModel> {
    Seq::new(outcomes.len(), |i: int| outcomes[i]@)
}

/// The views of a worker transcript.
pub open spec fn attempts_model(attempts: Seq<AttemptRecord>) -> Seq<AttemptRecordModel> {
    Seq::new(attempts.len(), |i: int| attempts[i]@)
}

/// Transition of the worker loop, driven by the transport outcomes: while
/// outcomes and tasks remain, claim the first eligible task — sleeping to
/// the earliest `execute_after` when none is eligible — and advance it by
/// the next outcome. Returns the final state and the transcript.
pub open spec fn run_worker_model(
    s: StorageModel,
    outcomes: Seq<SendOutcomeModel>,
    now: int,
    policy: RetryPolicy,
) -> (StorageModel, Seq<AttemptRecordModel>)
    decreases outcomes.len(),
{
    if outcomes.len() == 0 || s.tasks.len() == 0 {
        (s, Seq::empty())
    } else {
        let now1 = if first_eligible(s.tasks, now) >= 0 {
            now
        } else {
            min_execute_after(s.tasks)
        };
        let idx = first_eligible(s.tasks, now1);
        let t = s.tasks[idx];
        let attempt = AttemptRecordModel {
            issue_id: t.issue_id,
            recipient: t.recipient,
            outcome: outcomes[0],
        };
        let s2 = complete_task_model(s, idx, outcomes[0], now1, policy);
        let (sf, rest) = run_worker_model(s2, outcomes.drop_first(), now1, policy);
        (sf, seq![attempt] + rest)
    }
}

/// The claim–attempt–advance loop of the delivery worker, driven by the
/// given transport outcomes (one per attempt, in order). The loop stops
/// when the queue is drained or the outcomes are exhausted — the latter
/// stands for the external shutdown signal. Restart-safety is the model's
/// shape: no attempt state exists outside each row's own
/// `n_retries`/`execute_after` fields, so resuming is just calling this
/// again.
pub fn run_worker(
    storage: &mut Storage,
    outcomes: &Vec<SendOutcome>,
    start_at: u64,
    policy: &RetryPolicy,
) -> (report: Vec<AttemptRecord>)
    requires
        old(storage).wf(),
    ensures
        final(storage)@ == run_worker_model(
            old(storage)@,
            send_outcomes_model(outcomes@),
            start_at as int,
            *policy,
        ).0,
        attempts_model(report@) == run_worker_model(
            old(storage)@,
            send_outcomes_model(outcomes@),
            start_at as int,
            *policy,
        ).1,
        final(storage).wf(),
{
    let ghost full = send_outcomes_model(outcomes@);
    let mut report: Vec<AttemptRecord> = Vec::new();
    let mut now = start_at;
    let mut k: usize = 0;
    proof {
        assert(full.skip(0) =~= full);
        assert(attempts_model(report@) =~= Seq::<AttemptRecordModel>::empty());
        assert(Seq::<AttemptRecordModel>::empty() + run_worker_model(
            storage@,
            full,
            start_at as int,
            *policy,
        ).1 =~= run_worker_model(storage@, full, start_at as int, *policy).1);
    }
    while k < outcomes.len() && storage.delivery_tasks.len() != 0
        invariant
            storage.wf(),
            k <= outcomes.len(),
            full == send_outcomes_model(outcomes@),
            run_worker_model(old(storage)@, full, start_at as int, *policy).0 == run_worker_model(
                storage@,
                full.skip(k as int),
                now as int,
                *policy,
            ).0,
            run_worker_model(old(storage)@, full, start_at as int, *policy).1 == attempts_model(
                report@,
            ) + run_worker_model(storage@, full.skip(k as int), now as int, *policy).1,
        decreases outcomes.len() - k,
    {
        let ghost pre = storage@;
        let ghost rem = full.skip(k as int);
        let ghost now0 = now;
        proof {
            assert(rem.len() > 0);
            assert(rem[0] == full[k as int]);
            assert(rem[0] == outcomes@[k as int]@);
        }
        let attempt: DeliveryAttempt = match dequeue_task(storage, now) {
            Some(a) => a,
            None => {
                match next_ready_at(storage) {
                    Some(m) => {
                        proof {
                            // sleeping to the earliest instant makes some
                            // task eligible
                            lemma_min_execute_after(storage@.tasks);
                            lemma_first_eligible(storage@.tasks, m as int);
                            let r = first_eligible(storage@.tasks, m as int);
                            if r == -1 {
                                let j = choose|j: int|
                                    0 <= j < storage@.tasks.len()
                                        && #[trigger] storage@.tasks[j].execute_after
                                        == min_execute_after(storage@.tasks);
                                assert(storage@.tasks[j].execute_after > m as int);
                            }
                        }
                        now = m;
                        match dequeue_task(storage, now) {
                            Some(a) => a,
                            None => {
                                proof {
                                    assert(false);
                                }
                                vstd::pervasive::unreached()
                            },
                        }
                    },
                    None => {
                        proof {
                            assert(false);
                        }
                        vstd::pervasive::unreached()
                    },
                }
            },
        };
        proof {
            // the instant the worker acts at is the one the model step
            // computes: `now` when something was eligible, the earliest
            // `execute_after` otherwise
            assert(now as int == (if first_eligible(pre.tasks, now0 as int) >= 0 {
                now0 as int
            } else {
                min_execute_after(pre.tasks)
            }));
            assert(claim_model(pre, now as int) == Some(attempt@));
            let idx = first_eligible(pre.tasks, now as int);
            lemma_first_eligible(pre.tasks, now as int);
            assert(task_matches(pre.tasks[idx], attempt@.issue_id, attempt@.recipient));
            lemma_task_idx_unique(pre, attempt@.issue_id, attempt@.recipient, idx);
        }
        let outcome = outcomes[k].clone();
        let ghost report_pre = report@;
        complete_task(storage, attempt.issue_id, &attempt.recipient_address, &outcome, now, policy);
        report.push(
            AttemptRecord {
                issue_id: attempt.issue_id,
                recipient_address: attempt.recipient_address,
                outcome,
            },
        );
        k = k + 1;
        proof {
            let now1 = now as int;
            let idx = first_eligible(pre.tasks, now1);
            let t = pre.tasks[idx];
            let attempt_m = AttemptRecordModel {
                issue_id: t.issue_id,
                recipient: t.recipient,
                outcome: rem[0],
            };
            let s2 = complete_task_model(pre, idx, rem[0], now1, *policy);
            assert(storage@ == s2);
            assert(rem.drop_first() =~= full.skip(k as int));
            let tail = run_worker_model(s2, full.skip(k as int), now1, *policy);
            assert(run_worker_model(pre, rem, now0 as int, *policy).0 == tail.0);
            assert(run_worker_model(pre, rem, now0 as int, *policy).1 == seq![attempt_m] + tail.1);
            assert(attempts_model(report@) =~= attempts_model(report_pre) + seq![attempt_m]);
            assert((attempts_model(report_pre) + seq![attempt_m]) + tail.1 =~= attempts_model(
                report_pre,
            ) + (seq![attempt_m] + tail.1));
        }
    }
    proof {
        assert(run_worker_model(storage@, full.skip(k as int), now as int, *policy).0 == storage@);
        assert(run_worker_model(storage@, full.skip(k as int), now as int, *policy).1
            =~= Seq::<AttemptRecordModel>::empty());
        assert(attempts_model(report@) + Seq::<AttemptRecordModel>::empty() =~= attempts_model(
            report@,
        ));
    }
    report
}


// ---------------------------------------------------------------------
// Laws of the delivery queue
// ---------------------------------------------------------------------

/// Law (drain): with a transport that always succeeds and enough outcomes,
/// the worker empties the queue, attempting every task exactly once, in
/// order, and touches nothing but the queue.
pub proof fn lemma_drain_all_success(
    s: StorageModel,
    outcomes: Seq<SendOutcomeModel>,
    now: int,
    policy: RetryPolicy,
)
    requires
        forall|i: int| 0 <= i < outcomes.len() ==> #[trigger] outcomes[i] is Delivered,
        outcomes.len() >= s.tasks.len(),
        forall|i: int| 0 <= i < s.tasks.len() ==> #[trigger] s.tasks[i].execute_after <= now,
    ensures
        ({
            let (sf, attempts) = run_worker_model(s, outcomes, now, policy);
            &&& sf.tasks.len() == 0
            &&& attempts.len() == s.tasks.len()
            &&& (forall|i: int|
                0 <= i < attempts.len() ==> #[trigger] attempts[i].recipient
                    == s.tasks[i].recipient && attempts[i].issue_id == s.tasks[i].issue_id
                    && attempts[i].outcome is Delivered)
            &&& sf.records == s.records
            &&& sf.issues == s.issues
            &&& sf.subscriptions == s.subscriptions
            &&& sf.tokens == s.tokens
        }),
    decreases s.tasks.len(),
{
    if s.tasks.len() == 0 {
    } else {
        assert(outcomes[0] is Delivered);
        assert(first_eligible(s.tasks, now) == 0);
        let s2 = complete_task_model(s, 0, outcomes[0], now, policy);
        assert(s2.tasks =~= s.tasks.drop_first());
        assert forall|i: int| 0 <= i < s2.tasks.len() implies #[trigger] s2.tasks[i].execute_after
            <= now by {
            assert(s2.tasks[i] == s.tasks[i + 1]);
        }
        assert forall|i: int|
            0 <= i < outcomes.drop_first().len() implies #[trigger] outcomes.drop_first()[i]
            is Delivered by {
            assert(outcomes.drop_first()[i] == outcomes[i + 1]);
        }
        lemma_drain_all_success(s2, outcomes.drop_first(), now, policy);
        let (sf, attempts) = run_worker_model(s, outcomes, now, policy);
        let rest = run_worker_model(s2, outcomes.drop_first(), now, policy).1;
        assert forall|i: int| 0 <= i < attempts.len() implies #[trigger] attempts[i].recipient
            == s.tasks[i].recipient && attempts[i].issue_id == s.tasks[i].issue_id
            && attempts[i].outcome is Delivered by {
            if i > 0 {
                assert(attempts[i] == rest[i - 1]);
                assert(s2.tasks[i - 1] == s.tasks[i]);
            }
        }
    }
}

/// Law (round trip): on a quiet queue, one fresh publish creates exactly
/// one delivery task per recipient confirmed at that instant, and a
/// subsequent drain with an always-succeeding transport removes every one
/// of them, invoking the transport exactly once per original recipient —
/// no task remains, and the issue table keeps exactly the one new row.
pub proof fn lemma_publish_round_trip(
    s: StorageModel,
    caller: Seq<char>,
    key: Seq<char>,
    title: Seq<char>,
    text_content: Seq<char>,
    html_content: Seq<char>,
    now_pub: int,
    outcomes: Seq<SendOutcomeModel>,
    now_drain: int,
    policy: RetryPolicy,
)
    requires
        s.wf(),
        crate::storage::key_valid(key),
        !crate::storage::has_record(s.records, caller, key),
        s.tasks.len() == 0,
        0 <= now_pub <= u64::MAX,
        now_pub <= now_drain,
        forall|i: int| 0 <= i < outcomes.len() ==> #[trigger] outcomes[i] is Delivered,
        outcomes.len() >= crate::storage::confirmed_emails(s.subscriptions).len(),
    ensures
        ({
            let (s1, o1) = crate::publish::execute_model(
                s,
                caller,
                key,
                title,
                text_content,
                html_content,
                now_pub,
            );
            let (s2, attempts) = run_worker_model(s1, outcomes, now_drain, policy);
            let emails = crate::storage::confirmed_emails(s.subscriptions);
            &&& o1 == crate::publish::ExecuteResultModel::Fresh(
                crate::utils::see_other_model(crate::publish::publish_redirect()),
            )
            &&& s1.tasks.len() == emails.len()
            &&& (forall|i: int|
                0 <= i < emails.len() ==> #[trigger] s1.tasks[i].recipient == emails[i])
            &&& s2.tasks.len() == 0
            &&& attempts.len() == emails.len()
            &&& (forall|i: int|
                0 <= i < attempts.len() ==> #[trigger] attempts[i].recipient == emails[i]
                    && attempts[i].outcome is Delivered)
            &&& (forall|i: int, j: int|
                0 <= i < j < attempts.len() ==> #[trigger] attempts[i].recipient
                    != #[trigger] attempts[j].recipient)
            &&& s2.issues == s1.issues
            &&& s1.issues.len() == s.issues.len() + 1
        }),
{
    crate::publish::lemma_fresh_execution_shape(
        s,
        caller,
        key,
        title,
        text_content,
        html_content,
        now_pub,
    );
    let (s1, o1) = crate::publish::execute_model(
        s,
        caller,
        key,
        title,
        text_content,
        html_content,
        now_pub,
    );
    let emails = crate::storage::confirmed_emails(s.subscriptions);
    let fan = crate::publish::fan_out_tasks(emails, s.issues.len() as int, now_pub);
    assert(s1.tasks =~= fan);
    lemma_drain_all_success(s1, outcomes, now_drain, policy);
    crate::storage::lemma_confirmed_emails_distinct(s.subscriptions);
    let attempts = run_worker_model(s1, outcomes, now_drain, policy).1;
    assert forall|i: int, j: int| 0 <= i < j < attempts.len() implies #[trigger] attempts[i].recipient
        != #[trigger] attempts[j].recipient by {
        assert(attempts[i].recipient == emails[i]);
        assert(attempts[j].recipient == emails[j]);
    }
}

/// Law (row-locality): advancing one claimed row touches nothing else —
/// not the other queue rows, not the other tables. A failing recipient,
/// transient or permanent, never affects the other recipients of its
/// issue.
pub proof fn lemma_complete_task_row_local(
    s: StorageModel,
    idx: int,
    outcome: SendOutcomeModel,
    now: int,
    policy: RetryPolicy,
)
    requires
        0 <= idx < s.tasks.len(),
    ensures
        ({
            let s2 = complete_task_model(s, idx, outcome, now, policy);
            &&& s2.records == s.records
            &&& s2.issues == s.issues
            &&& s2.subscriptions == s.subscriptions
            &&& s2.tokens == s.tokens
            &&& forall|j: int|
                0 <= j < s.tasks.len() && j != idx ==> s2.tasks.contains(#[trigger] s.tasks[j])
        }),
{
    let s2 = complete_task_model(s, idx, outcome, now, policy);
    if s2.tasks.len() == s.tasks.len() {
        assert forall|j: int| 0 <= j < s.tasks.len() && j != idx implies s2.tasks.contains(
            #[trigger] s.tasks[j],
        ) by {
            assert(s2.tasks[j] == s.tasks[j]);
        }
    } else {
        assert forall|j: int| 0 <= j < s.tasks.len() && j != idx implies s2.tasks.contains(
            #[trigger] s.tasks[j],
        ) by {
            if j < idx {
                assert(s2.tasks[j] == s.tasks[j]);
            } else {
                assert(s2.tasks[j - 1] == s.tasks[j]);
            }
        }
    }
}

/// Law (retry bound): a task whose transport attempts always fail
/// transiently is retried until its retry count reaches the configured
/// maximum and is then abandoned — the row is removed and no further
/// attempt happens, however many outcomes remain. Nothing but the queue
/// row is touched. The attempts number exactly
/// `max_retries - n_retries + 1`: every retry the policy grants, then the
/// one that abandons.
pub proof fn lemma_retry_bound(
    s: StorageModel,
    outcomes: Seq<SendOutcomeModel>,
    now: int,
    policy: RetryPolicy,
)
    requires
        s.tasks.len() == 1,
        0 <= s.tasks[0].n_retries <= policy.max_retries,
        0 <= s.tasks[0].execute_after <= u64::MAX,
        0 <= now <= u64::MAX,
        forall|i: int| 0 <= i < outcomes.len() ==> #[trigger] outcomes[i] is TransientError,
        outcomes.len() > policy.max_retries - s.tasks[0].n_retries,
    ensures
        ({
            let (sf, attempts) = run_worker_model(s, outcomes, now, policy);
            &&& sf.tasks.len() == 0
            &&& attempts.len() == policy.max_retries - s.tasks[0].n_retries + 1
            &&& (forall|i: int|
                0 <= i < attempts.len() ==> #[trigger] attempts[i].recipient
                    == s.tasks[0].recipient && attempts[i].issue_id == s.tasks[0].issue_id)
            &&& sf.records == s.records
            &&& sf.issues == s.issues
            &&& sf.subscriptions == s.subscriptions
            &&& sf.tokens == s.tokens
        }),
    decreases policy.max_retries - s.tasks[0].n_retries,
{
    let t = s.tasks[0];
    assert(outcomes[0] is TransientError);
    let now1 = if first_eligible(s.tasks, now) >= 0 {
        now
    } else {
        min_execute_after(s.tasks)
    };
    lemma_first_eligible(s.tasks, now);
    assert(min_execute_after(s.tasks) == t.execute_after);
    assert(first_eligible(s.tasks, now1) == 0);
    let s2 = complete_task_model(s, 0, outcomes[0], now1, policy);
    if t.n_retries >= policy.max_retries {
        assert(s2.tasks =~= s.tasks.remove(0));
        assert(s2.tasks.len() == 0);
        assert(run_worker_model(s2, outcomes.drop_first(), now1, policy) == (
            s2,
            Seq::<AttemptRecordModel>::empty(),
        ));
        let attempt_m = AttemptRecordModel {
            issue_id: t.issue_id,
            recipient: t.recipient,
            outcome: outcomes[0],
        };
        assert(seq![attempt_m] + Seq::<AttemptRecordModel>::empty() =~= seq![attempt_m]);
        assert(run_worker_model(s, outcomes, now, policy).1 =~= seq![attempt_m]);
    } else {
        assert(s2.tasks.len() == 1);
        assert(s2.tasks[0].n_retries == t.n_retries + 1);
        assert(s2.tasks[0].recipient == t.recipient && s2.tasks[0].issue_id == t.issue_id);
        vstd::arithmetic::mul::lemma_mul_nonnegative(
            policy.backoff_ms as int,
            t.n_retries + 1,
        );
        assert(0 <= s2.tasks[0].execute_after <= u64::MAX);
        assert(0 <= now1 <= u64::MAX);
        assert forall|i: int|
            0 <= i < outcomes.drop_first().len() implies #[trigger] outcomes.drop_first()[i]
            is TransientError by {
            assert(outcomes.drop_first()[i] == outcomes[i + 1]);
        }
        lemma_retry_bound(s2, outcomes.drop_first(), now1, policy);
        let (sf, attempts) = run_worker_model(s, outcomes, now, policy);
        let rest = run_worker_model(s2, outcomes.drop_first(), now1, policy).1;
        assert forall|i: int| 0 <= i < attempts.len() implies #[trigger] attempts[i].recipient
            == s.tasks[0].recipient && attempts[i].issue_id == s.tasks[0].issue_id by {
            if i > 0 {
                assert(attempts[i] == rest[i - 1]);
            }
        }
    }
}

} // verus!
