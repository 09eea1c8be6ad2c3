//! The durable state of the service: idempotency records, newsletter
//! issues, the per-recipient delivery queue, and the subscriber tables the
//! fan-out snapshots from.
//!
//! [`Storage`] is an in-memory image of that state. Its abstract view is
//! [`StorageModel`], a struct of sequences; every operation of the crate is
//! specified as a transition on the model, and [`StorageModel::wf`] is the
//! invariant (key uniqueness, referential integrity) that all of them
//! preserve.

use vstd::prelude::*;

verus! {

/// Upper bound, in characters, on a caller-supplied idempotency token.
pub const MAX_IDEMPOTENCY_KEY_CHARS: usize = 50;

/// A caller-supplied idempotency token is accepted when it is non-empty
/// and of bounded length.
pub open spec fn key_valid(key: Seq<char>) -> bool {
    0 < key.len() <= MAX_IDEMPOTENCY_KEY_CHARS
}

// ---------------------------------------------------------------------
// Saved responses
// ---------------------------------------------------------------------

/// The response a completed publish request produced, kept verbatim so a
/// retry of the same logical request can replay it.
pub struct SavedResponse {
    pub response_status: u16,
    pub response_headers: Vec<(String, String)>,
    pub response_body: Vec<u8>,
}

/// Abstract view of a [`SavedResponse`].
#[verifier::ext_equal]
pub struct SavedResponseModel {
    pub status: int,
    pub headers: Seq<(Seq<char>, Seq<char>)>,
    pub body: Seq<u8>,
}

impl View for SavedResponse {
    type V = SavedResponseModel;

    open spec fn view(&self) -> SavedResponseModel {
        SavedResponseModel {
            status: self.response_status as int,
            headers: Seq::new(
                self.response_headers@.len(),
                |i: int| (self.response_headers@[i].0@, self.response_headers@[i].1@),
            ),
            body: self.response_body@,
        }
    }
}

impl Clone for SavedResponse {
    fn clone(&self) -> (r: Self)
        ensures
            r@ == self@,
    {
        let mut headers: Vec<(String, String)> = Vec::new();
        let mut i: usize = 0;
        while i < self.response_headers.len()
            invariant
                i <= self.response_headers.len(),
                headers@.len() == i as int,
                forall|j: int|
                    0 <= j < i as int ==> #[trigger] headers@[j].0@
                        == self.response_headers@[j].0@ && headers@[j].1@
                        == self.response_headers@[j].1@,
            decreases self.response_headers.len() - i,
        {
            let name = self.response_headers[i].0.clone();
            let value = self.response_headers[i].1.clone();
            headers.push((name, value));
            i = i + 1;
        }
        let r = SavedResponse {
            response_status: self.response_status,
            response_headers: headers,
            response_body: vstd::slice::slice_to_vec(self.response_body.as_slice()),
        };
        proof {
            assert(r@ =~= self@);
        }
        r
    }
}

// ---------------------------------------------------------------------
// Idempotency records
// ---------------------------------------------------------------------

/// One row of the idempotency store: a `(caller_id, idempotency_key)` pair,
/// claimed when first seen and later completed with the saved response.
pub struct IdempotencyRecord {
    pub caller_id: String,
    pub idempotency_key: String,
    pub response: Option<SavedResponse>,
    pub created_at: u64,
}

/// Abstract view of an [`IdempotencyRecord`].
#[verifier::ext_equal]
pub struct IdempotencyRecordModel {
    pub caller: Seq<char>,
    pub key: Seq<char>,
    pub response: Option<SavedResponseModel>,
    pub created_at: int,
}

impl View for IdempotencyRecord {
    type V = IdempotencyRecordModel;

    open spec fn view(&self) -> IdempotencyRecordModel {
        IdempotencyRecordModel {
            caller: self.caller_id@,
            key: self.idempotency_key@,
            response: match self.response {
                Some(r) => Some(r@),
                None => None,
            },
            created_at: self.created_at as int,
        }
    }
}

// ---------------------------------------------------------------------
// Issues
// ---------------------------------------------------------------------

/// One published newsletter issue. Created exactly once per successful
/// publish, immutable thereafter, never deleted; its identifier is its
/// position in the issue table.
pub struct Issue {
    pub issue_id: usize,
    pub title: String,
    pub text_content: String,
    pub html_content: String,
    pub published_at: u64,
}

/// Abstract view of an [`Issue`].
#[verifier::ext_equal]
pub struct IssueModel {
    pub issue_id: int,
    pub title: Seq<char>,
    pub text_content: Seq<char>,
    pub html_content: Seq<char>,
    pub published_at: int,
}

impl View for Issue {
    type V = IssueModel;

    open spec fn view(&self) -> IssueModel {
        IssueModel {
            issue_id: self.issue_id as int,
            title: self.title@,
            text_content: self.text_content@,
            html_content: self.html_content@,
            published_at: self.published_at as int,
        }
    }
}

// ---------------------------------------------------------------------
// Delivery tasks
// ---------------------------------------------------------------------

/// One row of the delivery queue: a pending delivery of one issue to one
/// recipient, with its retry bookkeeping. A row exists exactly while the
/// delivery has neither succeeded nor been abandoned.
pub struct DeliveryTask {
    pub issue_id: usize,
    pub recipient_address: String,
    pub n_retries: u32,
    pub execute_after: u64,
    pub last_error: Option<String>,
}

/// Abstract view of a [`DeliveryTask`].
#[verifier::ext_equal]
pub struct DeliveryTaskModel {
    pub issue_id: int,
    pub recipient: Seq<char>,
    pub n_retries: int,
    pub execute_after: int,
    pub last_error: Option<Seq<char>>,
}

impl View for DeliveryTask {
    type V = DeliveryTaskModel;

    open spec fn view(&self) -> DeliveryTaskModel {
        DeliveryTaskModel {
            issue_id: self.issue_id as int,
            recipient: self.recipient_address@,
            n_retries: self.n_retries as int,
            execute_after: self.execute_after as int,
            last_error: match self.last_error {
                Some(e) => Some(e@),
                None => None,
            },
        }
    }
}

// ---------------------------------------------------------------------
// Subscriptions
// ---------------------------------------------------------------------

/// Lifecycle state of a subscriber; only `Confirmed` subscribers are
/// included in a fan-out.
#[derive(Clone, Copy, Debug, PartialEq, Eq, Structural)]
pub enum SubscriptionStatus {
    PendingConfirmation,
    Confirmed,
}

/// One subscriber row; its identifier is its position in the table.
pub struct Subscription {
    pub subscriber_id: usize,
    pub email: String,
    pub name: String,
    pub status: SubscriptionStatus,
}

/// Abstract view of a [`Subscription`].
#[verifier::ext_equal]
pub struct SubscriptionModel {
    pub subscriber_id: int,
    pub email: Seq<char>,
    pub name: Seq<char>,
    pub status: SubscriptionStatus,
}

impl View for Subscription {
    type V = SubscriptionModel;

    open spec fn view(&self) -> SubscriptionModel {
        SubscriptionModel {
            subscriber_id: self.subscriber_id as int,
            email: self.email@,
            name: self.name@,
            status: self.status,
        }
    }
}

/// One confirmation-token row, linking a mailed-out token to the
/// subscriber it can confirm.
pub struct TokenRecord {
    pub token: String,
    pub subscriber_id: usize,
}

/// Abstract view of a [`TokenRecord`].
#[verifier::ext_equal]
pub struct TokenRecordModel {
    pub token: Seq<char>,
    pub subscriber_id: int,
}

impl View for TokenRecord {
    type V = TokenRecordModel;

    open spec fn view(&self) -> TokenRecordModel {
        TokenRecordModel { token: self.token@, subscriber_id: self.subscriber_id as int }
    }
}

// ---------------------------------------------------------------------
// The storage image
// ---------------------------------------------------------------------

/// The whole durable state: the three tables the publish/delivery core
/// owns, plus the subscriber tables the fan-out reads.
pub struct Storage {
    pub idempotency_records: Vec<IdempotencyRecord>,
    pub issues: Vec<Issue>,
    pub delivery_tasks: Vec<DeliveryTask>,
    pub subscriptions: Vec<Subscription>,
    pub subscription_tokens: Vec<TokenRecord>,
}

/// Abstract view of [`Storage`]: the same tables as sequences of models.
#[verifier::ext_equal]
pub struct StorageModel {
    pub records: Seq<IdempotencyRecordModel>,
    pub issues: Seq<IssueModel>,
    pub tasks: Seq<DeliveryTaskModel>,
    pub subscriptions: Seq<SubscriptionModel>,
    pub tokens: Seq<TokenRecordModel>,
}

impl View for Storage {
    type V = StorageModel;

    open spec fn view(&self) -> StorageModel {
        StorageModel {
            records: Seq::new(self.idempotency_records@.len(), |i: int| self.idempotency_records@[i]@),
            issues: Seq::new(self.issues@.len(), |i: int| self.issues@[i]@),
            tasks: Seq::new(self.delivery_tasks@.len(), |i: int| self.delivery_tasks@[i]@),
            subscriptions: Seq::new(self.subscriptions@.len(), |i: int| self.subscriptions@[i]@),
            tokens: Seq::new(self.subscription_tokens@.len(), |i: int| self.subscription_tokens@[i]@),
        }
    }
}

// ---------------------------------------------------------------------
// Lookup predicates
// ---------------------------------------------------------------------

/// The record belongs to the given `(caller, key)` pair.
pub open spec fn record_matches(
    r: IdempotencyRecordModel,
    caller: Seq<char>,
    key: Seq<char>,
) -> bool {
    r.caller == caller && r.key == key
}

/// Some record for the pair exists.
pub open spec fn has_record(
    records: Seq<IdempotencyRecordModel>,
    caller: Seq<char>,
    key: Seq<char>,
) -> bool {
    exists|i: int| 0 <= i < records.len() && record_matches(records[i], caller, key)
}

/// Index of the record for the pair; meaningful only when [`has_record`]
/// holds (and unique under [`StorageModel::wf`]).
pub open spec fn record_idx(
    records: Seq<IdempotencyRecordModel>,
    caller: Seq<char>,
    key: Seq<char>,
) -> int {
    choose|i: int| 0 <= i < records.len() && record_matches(records[i], caller, key)
}

/// The task belongs to the given `(issue, recipient)` pair.
pub open spec fn task_matches(t: DeliveryTaskModel, issue_id: int, recipient: Seq<char>) -> bool {
    t.issue_id == issue_id && t.recipient == recipient
}

/// Some task for the pair exists.
pub open spec fn has_task(
    tasks: Seq<DeliveryTaskModel>,
    issue_id: int,
    recipient: Seq<char>,
) -> bool {
    exists|i: int| 0 <= i < tasks.len() && task_matches(tasks[i], issue_id, recipient)
}

/// Index of the task for the pair; meaningful only when [`has_task`] holds
/// (and unique under [`StorageModel::wf`]).
pub open spec fn task_idx(
    tasks: Seq<DeliveryTaskModel>,
    issue_id: int,
    recipient: Seq<char>,
) -> int {
    choose|i: int| 0 <= i < tasks.len() && task_matches(tasks[i], issue_id, recipient)
}

/// Some confirmation token row with this token string exists.
pub open spec fn has_token(tokens: Seq<TokenRecordModel>, token: Seq<char>) -> bool {
    exists|i: int| 0 <= i < tokens.len() && tokens[i].token == token
}

/// Index of the token row; meaningful only when [`has_token`] holds (and
/// unique under [`StorageModel::wf`]).
pub open spec fn token_idx(tokens: Seq<TokenRecordModel>, token: Seq<char>) -> int {
    choose|i: int| 0 <= i < tokens.len() && tokens[i].token == token
}

// ---------------------------------------------------------------------
// Well-formedness
// ---------------------------------------------------------------------

impl StorageModel {
    /// At most one idempotency record per `(caller, key)` pair — the
    /// unique-constraint that makes the claim step the mutual-exclusion
    /// primitive of the publish path.
    pub open spec fn records_wf(self) -> bool {
        &&& forall|i: int, j: int|
            0 <= i < j < self.records.len() ==> !(#[trigger] self.records[i].caller
                == #[trigger] self.records[j].caller && self.records[i].key
                == self.records[j].key)
        &&& forall|i: int| 0 <= i < self.records.len() ==> key_valid(#[trigger] self.records[i].key)
    }

    /// Issue identifiers are their positions in the table, hence unique.
    pub open spec fn issues_wf(self) -> bool {
        forall|i: int| 0 <= i < self.issues.len() ==> #[trigger] self.issues[i].issue_id == i
    }

    /// At most one queue row per `(issue, recipient)` pair, every row
    /// refers to an existing issue, and the retry bookkeeping is in the
    /// range its machine representation allows.
    pub open spec fn tasks_wf(self) -> bool {
        &&& forall|i: int, j: int|
            0 <= i < j < self.tasks.len() ==> !(#[trigger] self.tasks[i].issue_id
                == #[trigger] self.tasks[j].issue_id && self.tasks[i].recipient
                == self.tasks[j].recipient)
        &&& forall|i: int|
            0 <= i < self.tasks.len() ==> 0 <= #[trigger] self.tasks[i].issue_id
                < self.issues.len()
        &&& forall|i: int|
            0 <= i < self.tasks.len() ==> 0 <= #[trigger] self.tasks[i].n_retries <= u32::MAX
        &&& forall|i: int|
            0 <= i < self.tasks.len() ==> 0 <= #[trigger] self.tasks[i].execute_after <= u64::MAX
    }

    /// Subscriber identifiers are their positions, and addresses are
    /// unique, so a fan-out holds each confirmed address exactly once.
    pub open spec fn subscriptions_wf(self) -> bool {
        &&& forall|i: int|
            0 <= i < self.subscriptions.len() ==> #[trigger] self.subscriptions[i].subscriber_id
                == i
        &&& forall|i: int, j: int|
            0 <= i < j < self.subscriptions.len() ==> #[trigger] self.subscriptions[i].email
                != #[trigger] self.subscriptions[j].email
    }

    /// Confirmation tokens are unique and refer to existing subscribers.
    pub open spec fn tokens_wf(self) -> bool {
        &&& forall|i: int, j: int|
            0 <= i < j < self.tokens.len() ==> #[trigger] self.tokens[i].token
                != #[trigger] self.tokens[j].token
        &&& forall|i: int|
            0 <= i < self.tokens.len() ==> 0 <= #[trigger] self.tokens[i].subscriber_id
                < self.subscriptions.len()
    }

    /// The invariant every operation of the crate preserves.
    pub open spec fn wf(self) -> bool {
        &&& self.records_wf()
        &&& self.issues_wf()
        &&& self.tasks_wf()
        &&& self.subscriptions_wf()
        &&& self.tokens_wf()
    }
}

impl Storage {
    /// The invariant, read through the view.
    pub open spec fn wf(&self) -> bool {
        self@.wf()
    }

    /// An empty storage image.
    pub fn new() -> (s: Storage)
        ensures
            s@ =~= (StorageModel {
                records: Seq::empty(),
                issues: Seq::empty(),
                tasks: Seq::empty(),
                subscriptions: Seq::empty(),
                tokens: Seq::empty(),
            }),
            s.wf(),
    {
        Storage {
            idempotency_records: Vec::new(),
            issues: Vec::new(),
            delivery_tasks: Vec::new(),
            subscriptions: Vec::new(),
            subscription_tokens: Vec::new(),
        }
    }
}

// ---------------------------------------------------------------------
// Uniqueness consequences of the invariant
// ---------------------------------------------------------------------

/// Under the invariant, any index whose record matches the pair is the
/// one [`record_idx`] denotes.
pub proof fn lemma_record_idx_unique(s: StorageModel, caller: Seq<char>, key: Seq<char>, i: int)
    requires
        s.wf(),
        0 <= i < s.records.len(),
        record_matches(s.records[i], caller, key),
    ensures
        record_idx(s.records, caller, key) == i,
        has_record(s.records, caller, key),
{
    assert(has_record(s.records, caller, key));
    let j = record_idx(s.records, caller, key);
    if i != j {
        if i < j {
            assert(!(s.records[i].caller == s.records[j].caller && s.records[i].key
                == s.records[j].key));
        } else {
            assert(!(s.records[j].caller == s.records[i].caller && s.records[j].key
                == s.records[i].key));
        }
    }
}

/// Under the invariant, any index whose task matches the pair is the one
/// [`task_idx`] denotes.
pub proof fn lemma_task_idx_unique(s: StorageModel, issue_id: int, recipient: Seq<char>, i: int)
    requires
        s.wf(),
        0 <= i < s.tasks.len(),
        task_matches(s.tasks[i], issue_id, recipient),
    ensures
        task_idx(s.tasks, issue_id, recipient) == i,
        has_task(s.tasks, issue_id, recipient),
{
    assert(has_task(s.tasks, issue_id, recipient));
    let j = task_idx(s.tasks, issue_id, recipient);
    if i != j {
        if i < j {
            assert(!(s.tasks[i].issue_id == s.tasks[j].issue_id && s.tasks[i].recipient
                == s.tasks[j].recipient));
        } else {
            assert(!(s.tasks[j].issue_id == s.tasks[i].issue_id && s.tasks[j].recipient
                == s.tasks[i].recipient));
        }
    }
}

/// Under the invariant, any index whose token row carries the token is the
/// one [`token_idx`] denotes.
pub proof fn lemma_token_idx_unique(s: StorageModel, token: Seq<char>, i: int)
    requires
        s.wf(),
        0 <= i < s.tokens.len(),
        s.tokens[i].token == token,
    ensures
        token_idx(s.tokens, token) == i,
        has_token(s.tokens, token),
{
    assert(has_token(s.tokens, token));
    let j = token_idx(s.tokens, token);
    if i != j {
        if i < j {
            assert(s.tokens[i].token != s.tokens[j].token);
        } else {
            assert(s.tokens[j].token != s.tokens[i].token);
        }
    }
}


// ---------------------------------------------------------------------
// The fan-out snapshot
// ---------------------------------------------------------------------

/// The addresses of the subscribers that are confirmed right now, in
/// table order: the snapshot a fan-out expands.
pub open spec fn confirmed_emails(subs: Seq<SubscriptionModel>) -> Seq<Seq<char>>
    decreases subs.len(),
{
    if subs.len() == 0 {
        Seq::empty()
    } else {
        let rest = confirmed_emails(subs.drop_last());
        if subs.last().status is Confirmed {
            rest.push(subs.last().email)
        } else {
            rest
        }
    }
}

/// Unfolds [`confirmed_emails`] one subscriber at a time, as a loop over
/// the table sees it.
pub proof fn lemma_confirmed_emails_take_step(subs: Seq<SubscriptionModel>, i: int)
    requires
        0 <= i < subs.len(),
    ensures
        confirmed_emails(subs.take(i + 1)) == (if subs[i].status is Confirmed {
            confirmed_emails(subs.take(i)).push(subs[i].email)
        } else {
            confirmed_emails(subs.take(i))
        }),
{
    assert(subs.take(i + 1).drop_last() =~= subs.take(i));
    assert(subs.take(i + 1).last() == subs[i]);
}

/// Some confirmed subscriber of the table has this address.
pub open spec fn email_sourced(subs: Seq<SubscriptionModel>, e: Seq<char>) -> bool {
    exists|j: int| 0 <= j < subs.len() && #[trigger] subs[j].email == e && subs[j].status
        is Confirmed
}

/// Every address of the snapshot is the address of some confirmed
/// subscriber.
pub proof fn lemma_confirmed_emails_sourced(subs: Seq<SubscriptionModel>)
    ensures
        forall|i: int|
            0 <= i < confirmed_emails(subs).len() ==> email_sourced(
                subs,
                #[trigger] confirmed_emails(subs)[i],
            ),
    decreases subs.len(),
{
    if subs.len() == 0 {
    } else {
        let rest = subs.drop_last();
        lemma_confirmed_emails_sourced(rest);
        let c = confirmed_emails(subs);
        let cr = confirmed_emails(rest);
        assert forall|i: int| 0 <= i < c.len() implies email_sourced(subs, #[trigger] c[i]) by {
            if subs.last().status is Confirmed && i == c.len() - 1 {
                let j = subs.len() - 1;
                assert(0 <= j < subs.len() && subs[j].email == c[i] && subs[j].status
                    is Confirmed);
            } else {
                assert(c[i] == cr[i]);
                assert(email_sourced(rest, cr[i]));
                let j = choose|j: int|
                    0 <= j < rest.len() && #[trigger] rest[j].email == cr[i] && rest[j].status
                        is Confirmed;
                assert(0 <= j < subs.len() && subs[j].email == c[i] && subs[j].status
                    is Confirmed);
            }
        }
    }
}

/// With pairwise-distinct subscriber addresses, the snapshot holds each
/// address at most once — so a fan-out creates exactly one task per
/// confirmed recipient.
pub proof fn lemma_confirmed_emails_distinct(subs: Seq<SubscriptionModel>)
    requires
        forall|i: int, j: int|
            0 <= i < j < subs.len() ==> #[trigger] subs[i].email != #[trigger] subs[j].email,
    ensures
        forall|i: int, j: int|
            0 <= i < j < confirmed_emails(subs).len() ==> #[trigger] confirmed_emails(subs)[i]
                != #[trigger] confirmed_emails(subs)[j],
    decreases subs.len(),
{
    if subs.len() == 0 {
    } else {
        let rest = subs.drop_last();
        lemma_confirmed_emails_distinct(rest);
        lemma_confirmed_emails_sourced(rest);
        let c = confirmed_emails(subs);
        let cr = confirmed_emails(rest);
        assert forall|i: int, j: int| 0 <= i < j < c.len() implies #[trigger] c[i]
            != #[trigger] c[j] by {
            if subs.last().status is Confirmed && j == c.len() - 1 {
                assert(c[i] == cr[i]);
                assert(email_sourced(rest, cr[i]));
                let jj = choose|jj: int|
                    0 <= jj < rest.len() && #[trigger] rest[jj].email == cr[i] && rest[jj].status
                        is Confirmed;
                assert(subs[jj].email != subs[subs.len() - 1].email);
            } else {
                assert(c[i] == cr[i] && c[j] == cr[j]);
            }
        }
    }
}

} // verus!
