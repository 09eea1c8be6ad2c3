//! Confirming a pending subscription: the mailed-out token is parsed,
//! resolved to its subscriber, and that subscriber's status is set to
//! confirmed — from then on the fan-out of a publish includes them.

use vstd::prelude::*;
use vstd::string::StrSliceExecFns;
use vstd::string::StringExecFns;

use crate::storage::{
    has_token, lemma_token_idx_unique, token_idx, Storage, StorageModel, Subscription,
    SubscriptionModel, SubscriptionStatus,
};

verus! {

// ---------------------------------------------------------------------
// The token
// ---------------------------------------------------------------------

/// The format of a subscription token: 25 ASCII characters.
pub open spec fn token_format_valid(s: Seq<char>) -> bool {
    s.len() == 25 && vstd::utf8::is_ascii_chars(s)
}

/// Whether a string has the format of a subscription token.
pub fn validate_token(token: &str) -> (r: bool)
    ensures
        r == token_format_valid(token@),
{
    token.unicode_len() == 25 && token.is_ascii()
}

/// A subscription token of valid format, as supplied by the confirmation
/// link.
#[derive(Debug)]
pub struct SubscriberToken(String);

impl View for SubscriberToken {
    type V = Seq<char>;

    closed spec fn view(&self) -> Seq<char> {
        self.0@
    }
}

/// A token string whose format was rejected.
#[derive(Debug)]
pub struct ParseTokenError(pub String);

impl SubscriberToken {
    /// Accepts exactly the strings of token format.
    pub fn parse(token: String) -> (r: Result<SubscriberToken, ParseTokenError>)
        ensures
            (r is Ok) == token_format_valid(token@),
            (r matches Ok(t) ==> t@ == token@),
            (r matches Err(e) ==> e.0@ == "The subscriber token format is not valid"@),
    {
        if validate_token(token.as_str()) {
            Ok(SubscriberToken(token))
        } else {
            Err(ParseTokenError(String::from_str("The subscriber token format is not valid")))
        }
    }

    /// The token itself.
    pub fn as_string(&self) -> (r: &String)
        ensures
            r@ == self@,
    {
        &self.0
    }
}

// ---------------------------------------------------------------------
// The confirmation flow
// ---------------------------------------------------------------------

/// The query parameters of a confirmation call.
pub struct Parameters {
    pub subscription_token: String,
}

/// A status update the storage refused.
#[derive(Debug)]
pub struct UpdateTokenStatusError(pub String);

/// Failure of a confirmation call: the token's format was rejected, no
/// subscriber carries the token, or the infrastructure failed.
#[derive(Debug)]
pub enum ConfirmSubscriptionError {
    UnknownToken,
    UnexpectedError(String),
    InvalidTokenFormat(ParseTokenError),
}

impl ConfirmSubscriptionError {
    /// The status code the route answers with.
    pub fn status_code(&self) -> (code: u16)
        ensures
            code == (match self {
                ConfirmSubscriptionError::UnknownToken => 401u16,
                ConfirmSubscriptionError::UnexpectedError(_) => 500u16,
                ConfirmSubscriptionError::InvalidTokenFormat(_) => 400u16,
            }),
    {
        match self {
            ConfirmSubscriptionError::UnknownToken => 401,
            ConfirmSubscriptionError::UnexpectedError(_) => 500,
            ConfirmSubscriptionError::InvalidTokenFormat(_) => 400,
        }
    }
}

/// The subscriber a stored token belongs to, or `None` for a token no row
/// carries.
pub open spec fn subscriber_of_token(s: StorageModel, token: Seq<char>) -> Option<int> {
    if has_token(s.tokens, token) {
        Some(s.tokens[token_idx(s.tokens, token)].subscriber_id)
    } else {
        None
    }
}

/// Resolves a subscription token to its subscriber, reading only.
pub fn get_subscriber_id_from_token(storage: &Storage, subscription_token: &SubscriberToken) -> (r:
    Option<usize>)
    requires
        storage.wf(),
    ensures
        (match r {
            Some(id) => subscriber_of_token(storage@, subscription_token@) == Some(id as int),
            None => subscriber_of_token(storage@, subscription_token@) is None,
        }),
{
    let n = storage.subscription_tokens.len();
    let mut i: usize = 0;
    while i < n
        invariant
            storage.wf(),
            n == storage.subscription_tokens.len(),
            i <= n,
            forall|j: int|
                0 <= j < i as int ==> #[trigger] storage@.tokens[j].token != subscription_token@,
        decreases n - i,
    {
        if storage.subscription_tokens[i].token == *subscription_token.as_string() {
            proof {
                assert(storage@.tokens[i as int].token == subscription_token@);
                lemma_token_idx_unique(storage@, subscription_token@, i as int);
            }
            return Some(storage.subscription_tokens[i].subscriber_id);
        }
        i = i + 1;
    }
    proof {
        assert(!has_token(storage@.tokens, subscription_token@));
    }
    None
}

/// Transition of [`confirm_subscriber`]: the subscriber's row gains the
/// confirmed status; an unknown identifier changes nothing, as an update
/// that matched no row.
pub open spec fn confirm_subscriber_model(s: StorageModel, subscriber_id: int) -> StorageModel {
    if 0 <= subscriber_id < s.subscriptions.len() {
        let sub = s.subscriptions[subscriber_id];
        StorageModel {
            records: s.records,
            issues: s.issues,
            tasks: s.tasks,
            subscriptions: s.subscriptions.update(
                subscriber_id,
                SubscriptionModel {
                    subscriber_id: sub.subscriber_id,
                    email: sub.email,
                    name: sub.name,
                    status: SubscriptionStatus::Confirmed,
                },
            ),
            tokens: s.tokens,
        }
    } else {
        s
    }
}

/// Marks the subscriber as confirmed; from the next fan-out on they are
/// included. An identifier no row carries updates nothing.
pub fn confirm_subscriber(storage: &mut Storage, subscriber_id: usize) -> (r: Result<
    (),
    UpdateTokenStatusError,
>)
    requires
        old(storage).wf(),
    ensures
        r is Ok,
        final(storage)@ == confirm_subscriber_model(old(storage)@, subscriber_id as int),
        final(storage).wf(),
{
    let ghost pre = storage@;
    if subscriber_id < storage.subscriptions.len() {
        let sub = &storage.subscriptions[subscriber_id];
        let updated = Subscription {
            subscriber_id: sub.subscriber_id,
            email: sub.email.clone(),
            name: sub.name.clone(),
            status: SubscriptionStatus::Confirmed,
        };
        storage.subscriptions.set(subscriber_id, updated);
        proof {
            assert(storage@ =~= confirm_subscriber_model(pre, subscriber_id as int));
            assert forall|a: int, b: int|
                0 <= a < b < storage@.subscriptions.len() implies #[trigger] storage@
                .subscriptions[a].email != #[trigger] storage@.subscriptions[b].email by {
                assert(storage@.subscriptions[a].email == pre.subscriptions[a].email);
                assert(storage@.subscriptions[b].email == pre.subscriptions[b].email);
            }
            assert(storage@.wf());
        }
    }
    Ok(())
}

/// Transition of [`confirm`], with the outcome folded in: `-1` for a
/// rejected format, `-2` for an unknown token, otherwise the confirmed
/// subscriber's identifier.
pub open spec fn confirm_model(s: StorageModel, token: Seq<char>) -> (StorageModel, int) {
    if !token_format_valid(token) {
        (s, -1)
    } else {
        match subscriber_of_token(s, token) {
            Some(id) => (confirm_subscriber_model(s, id), id),
            None => (s, -2),
        }
    }
}

/// Confirms the pending subscription behind the token of a confirmation
/// link: rejects a malformed token before reading anything, reports a
/// token no row carries, and otherwise marks the token's subscriber as
/// confirmed.
pub fn confirm(storage: &mut Storage, parameters: Parameters) -> (r: Result<
    usize,
    ConfirmSubscriptionError,
>)
    requires
        old(storage).wf(),
    ensures
        final(storage)@ == confirm_model(old(storage)@, parameters.subscription_token@).0,
        (match r {
            Ok(id) => confirm_model(old(storage)@, parameters.subscription_token@).1 == id as int,
            Err(ConfirmSubscriptionError::InvalidTokenFormat(_)) => confirm_model(
                old(storage)@,
                parameters.subscription_token@,
            ).1 == -1,
            Err(ConfirmSubscriptionError::UnknownToken) => confirm_model(
                old(storage)@,
                parameters.subscription_token@,
            ).1 == -2,
            Err(ConfirmSubscriptionError::UnexpectedError(_)) => false,
        }),
        final(storage).wf(),
{
    let token = match SubscriberToken::parse(parameters.subscription_token) {
        Ok(t) => t,
        Err(e) => {
            return Err(ConfirmSubscriptionError::InvalidTokenFormat(e));
        },
    };
    let subscriber_id = match get_subscriber_id_from_token(storage, &token) {
        Some(id) => id,
        None => {
            return Err(ConfirmSubscriptionError::UnknownToken);
        },
    };
    match confirm_subscriber(storage, subscriber_id) {
        Ok(_) => Ok(subscriber_id),
        Err(_) => Err(
            ConfirmSubscriptionError::UnexpectedError(
                String::from_str("Failed to update token to `confirmed`"),
            ),
        ),
    }
}

} // verus!
