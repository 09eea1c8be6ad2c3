//! Subscribing a new recipient: validate the address, store the pending
//! subscription and its confirmation token atomically, and build the
//! confirmation mail. Sending the mail is the caller's transport's job.

use rand::distributions::Alphanumeric;
use rand::Rng;
use vstd::prelude::*;
use vstd::string::StringExecFns;

use crate::domain::subscriber_email::{email_valid, SubscriberEmail};
use crate::storage::{
    has_token, Storage, StorageModel, Subscription, SubscriptionModel, SubscriptionStatus,
    TokenRecord, TokenRecordModel,
};

verus! {

// ---------------------------------------------------------------------
// Confirmation tokens
// ---------------------------------------------------------------------

/// An ASCII letter or digit — what subscription tokens are made of.
pub open spec fn is_ascii_alphanumeric_char(c: char) -> bool {
    ('a' <= c <= 'z') || ('A' <= c <= 'Z') || ('0' <= c <= '9')
}

/// Relies on rand's `thread_rng` and the `Alphanumeric` distribution: each
/// sample is one byte drawn uniformly from a-z, A-Z and 0-9, so the token
/// is 25 ASCII alphanumeric characters. Which ones is up to chance.
#[verifier::external_body]
fn generate_subscription_token() -> (r: String)
    ensures
        r@.len() == 25,
        forall|i: int| 0 <= i < r@.len() ==> is_ascii_alphanumeric_char(#[trigger] r@[i]),
{
    let mut rng = rand::thread_rng();
    std::iter::repeat_with(|| rng.sample(Alphanumeric)).map(char::from).take(25).collect()
}

// ---------------------------------------------------------------------
// Storage transitions
// ---------------------------------------------------------------------

/// Some subscriber, pending or confirmed, already has this address.
pub open spec fn email_taken(subs: Seq<SubscriptionModel>, email: Seq<char>) -> bool {
    exists|i: int| 0 <= i < subs.len() && #[trigger] subs[i].email == email
}

/// Transition of a subscription insert: one pending row whose identifier
/// is the next table position.
pub open spec fn insert_subscription_model(
    s: StorageModel,
    email: Seq<char>,
    name: Seq<char>,
) -> StorageModel {
    StorageModel {
        records: s.records,
        issues: s.issues,
        tasks: s.tasks,
        subscriptions: s.subscriptions.push(
            SubscriptionModel {
                subscriber_id: s.subscriptions.len() as int,
                email,
                name,
                status: SubscriptionStatus::PendingConfirmation,
            },
        ),
        tokens: s.tokens,
    }
}

/// Transition of a token insert.
pub open spec fn store_token_model(
    s: StorageModel,
    token: Seq<char>,
    subscriber_id: int,
) -> StorageModel {
    StorageModel {
        records: s.records,
        issues: s.issues,
        tasks: s.tasks,
        subscriptions: s.subscriptions,
        tokens: s.tokens.push(TokenRecordModel { token, subscriber_id }),
    }
}

/// Transition of one successful subscribe call: the pending subscription
/// and its confirmation token, inserted together.
pub open spec fn subscribe_model(
    s: StorageModel,
    email: Seq<char>,
    name: Seq<char>,
    token: Seq<char>,
) -> StorageModel {
    store_token_model(
        insert_subscription_model(s, email, name),
        token,
        s.subscriptions.len() as int,
    )
}

// ---------------------------------------------------------------------
// Errors
// ---------------------------------------------------------------------

/// Failure of a subscribe call: the address was rejected before anything
/// was written, or the storage refused the writes (a unique-constraint
/// collision) and the transaction rolled back whole.
#[derive(Debug)]
pub enum SubscribeError {
    ValidationError(String),
    UnexpectedError(String),
}

impl SubscribeError {
    /// The status code the route answers with: rejected input is `400`,
    /// everything else an opaque `500`.
    pub fn status_code(&self) -> (code: u16)
        ensures
            code == (match self {
                SubscribeError::ValidationError(_) => 400u16,
                SubscribeError::UnexpectedError(_) => 500u16,
            }),
    {
        match self {
            SubscribeError::ValidationError(_) => 400,
            SubscribeError::UnexpectedError(_) => 500,
        }
    }
}

/// A token insert the storage refused.
#[derive(Debug)]
pub struct StoreTokenError(pub String);

// ---------------------------------------------------------------------
// The subscribe flow
// ---------------------------------------------------------------------

fn email_is_taken(storage: &Storage, email: &String) -> (r: bool)
    ensures
        r == email_taken(storage@.subscriptions, email@),
{
    let n = storage.subscriptions.len();
    let mut i: usize = 0;
    while i < n
        invariant
            n == storage.subscriptions.len(),
            i <= n,
            forall|j: int| 0 <= j < i as int ==> #[trigger] storage@.subscriptions[j].email != email@,
        decreases n - i,
    {
        if storage.subscriptions[i].email == *email {
            proof {
                assert(storage@.subscriptions[i as int].email == email@);
            }
            return true;
        }
        i = i + 1;
    }
    false
}

fn token_is_taken(storage: &Storage, token: &String) -> (r: bool)
    ensures
        r == has_token(storage@.tokens, token@),
{
    let n = storage.subscription_tokens.len();
    let mut i: usize = 0;
    while i < n
        invariant
            n == storage.subscription_tokens.len(),
            i <= n,
            forall|j: int| 0 <= j < i as int ==> #[trigger] storage@.tokens[j].token != token@,
        decreases n - i,
    {
        if storage.subscription_tokens[i].token == *token {
            proof {
                assert(storage@.tokens[i as int].token == token@);
            }
            return true;
        }
        i = i + 1;
    }
    false
}

/// Subscribes the address under the given confirmation token. The
/// subscription (pending) and the token are written atomically; an address
/// the check rejects is a `ValidationError` before anything is written,
/// and a unique-constraint collision (address or token already present)
/// rolls the whole call back as an `UnexpectedError`.
pub fn subscribe_with_token(
    storage: &mut Storage,
    email: String,
    name: String,
    token: String,
) -> (r: Result<usize, SubscribeError>)
    requires
        old(storage).wf(),
    ensures
        final(storage).wf(),
        !email_valid(email@) ==> (final(storage)@ == old(storage)@ && (r matches Err(
            SubscribeError::ValidationError(m),
        ) && m@ == email@ + " is not a valid subscriber email"@)),
        email_valid(email@) && email_taken(old(storage)@.subscriptions, email@) ==> (final(storage)@ == old(storage)@ && r matches Err(SubscribeError::UnexpectedError(_))),
        email_valid(email@) && !email_taken(old(storage)@.subscriptions, email@) && has_token(
            old(storage)@.tokens,
            token@,
        ) ==> (final(storage)@ == old(storage)@ && r matches Err(
            SubscribeError::UnexpectedError(_),
        )),
        email_valid(email@) && !email_taken(old(storage)@.subscriptions, email@) && !has_token(
            old(storage)@.tokens,
            token@,
        ) ==> (r matches Ok(id) && id as int == old(storage)@.subscriptions.len() && final(storage)@ == subscribe_model(old(storage)@, email@, name@, token@)),
{
    let subscriber_email = match SubscriberEmail::parse(email) {
        Ok(e) => e,
        Err(m) => {
            return Err(SubscribeError::ValidationError(m));
        },
    };
    if email_is_taken(storage, subscriber_email.as_string()) {
        return Err(
            SubscribeError::UnexpectedError(
                String::from_str("Failed to insert new subscriber in the database."),
            ),
        );
    }
    if token_is_taken(storage, &token) {
        return Err(
            SubscribeError::UnexpectedError(
                String::from_str(
                    "Failed to store the confirmation token for a new subscriber.",
                ),
            ),
        );
    }
    let ghost pre = storage@;
    let subscriber_id = storage.subscriptions.len();
    storage.subscriptions.push(
        Subscription {
            subscriber_id,
            email: subscriber_email.as_string().clone(),
            name,
            status: SubscriptionStatus::PendingConfirmation,
        },
    );
    storage.subscription_tokens.push(TokenRecord { token, subscriber_id });
    proof {
        assert(storage@ =~= subscribe_model(pre, subscriber_email@, name@, storage@.tokens.last().token));
        assert forall|a: int, b: int|
            0 <= a < b < storage@.subscriptions.len() implies #[trigger] storage@.subscriptions[a].email
            != #[trigger] storage@.subscriptions[b].email by {
            if b == storage@.subscriptions.len() - 1 {
                assert(pre.subscriptions[a].email != subscriber_email@);
            }
        }
        assert forall|a: int, b: int| 0 <= a < b < storage@.tokens.len() implies #[trigger] storage@
            .tokens[a].token != #[trigger] storage@.tokens[b].token by {
            if b == storage@.tokens.len() - 1 {
                assert(pre.tokens[a].token != storage@.tokens[b].token);
            }
        }
        assert(storage@.wf());
    }
    Ok(subscriber_id)
}

/// Adds a new subscriber: a pending subscription under a fresh random
/// 25-character confirmation token, both returned to the caller so the
/// confirmation mail can be sent. The token is drawn by the platform's
/// generator; on the (chance) collision with a stored token the call
/// changes nothing and reports the rollback, and a retry is safe.
pub fn subscribe(storage: &mut Storage, email: String, name: String) -> (r: Result<
    (usize, String),
    SubscribeError,
>)
    requires
        old(storage).wf(),
    ensures
        final(storage).wf(),
        !email_valid(email@) ==> (final(storage)@ == old(storage)@ && (r matches Err(
            SubscribeError::ValidationError(m),
        ) && m@ == email@ + " is not a valid subscriber email"@)),
        email_valid(email@) && email_taken(old(storage)@.subscriptions, email@) ==> (final(storage)@ == old(storage)@ && r matches Err(SubscribeError::UnexpectedError(_))),
        email_valid(email@) && !email_taken(old(storage)@.subscriptions, email@) ==> (match r {
            Ok(p) => {
                &&& p.0 as int == old(storage)@.subscriptions.len()
                &&& p.1@.len() == 25
                &&& (forall|i: int|
                    0 <= i < p.1@.len() ==> is_ascii_alphanumeric_char(#[trigger] p.1@[i]))
                &&& !has_token(old(storage)@.tokens, p.1@)
                &&& final(storage)@ == subscribe_model(old(storage)@, email@, name@, p.1@)
            },
            Err(e) => (e matches SubscribeError::UnexpectedError(_)) && final(storage)@ == old(
                storage,
            )@,
        }),
{
    let token = generate_subscription_token();
    match subscribe_with_token(storage, email, name, token.clone()) {
        Ok(id) => Ok((id, token)),
        Err(e) => Err(e),
    }
}

// ---------------------------------------------------------------------
// The confirmation mail
// ---------------------------------------------------------------------

/// The address the running application is reached under, for building the
/// confirmation link.
pub struct ApplicationBaseUrl(pub String);

/// The confirmation link a new subscriber is mailed.
pub open spec fn confirmation_link_model(base_url: Seq<char>, token: Seq<char>) -> Seq<char> {
    base_url + "/subscriptions/confirm?subscription_token="@ + token
}

/// The plain-text body of the confirmation mail.
pub open spec fn confirmation_plain_body_model(link: Seq<char>) -> Seq<char> {
    "Welcome to our newsletter!\nVisit "@ + link + " to confirm your subscription."@
}

/// The HTML body of the confirmation mail.
pub open spec fn confirmation_html_body_model(link: Seq<char>) -> Seq<char> {
    "Welcome to our newsletter!<br />Click <a href=\""@ + link
        + "\">here</a> to confirm your subscription."@
}

/// Builds the two bodies of the confirmation mail around the confirmation
/// link; the transport that sends them is outside this crate.
pub fn confirmation_email_bodies(base_url: &ApplicationBaseUrl, token: &String) -> (bodies: (
    String,
    String,
))
    ensures
        bodies.0@ == confirmation_plain_body_model(
            confirmation_link_model(base_url.0@, token@),
        ),
        bodies.1@ == confirmation_html_body_model(confirmation_link_model(base_url.0@, token@)),
{
    let mut link = base_url.0.clone();
    link.append("/subscriptions/confirm?subscription_token=");
    link.append(token.as_str());
    let mut plain = String::from_str("Welcome to our newsletter!\nVisit ");
    plain.append(link.as_str());
    plain.append(" to confirm your subscription.");
    let mut html = String::from_str("Welcome to our newsletter!<br />Click <a href=\"");
    html.append(link.as_str());
    html.append("\">here</a> to confirm your subscription.");
    proof {
        assert(plain@ =~= confirmation_plain_body_model(
            confirmation_link_model(base_url.0@, token@),
        ));
        assert(html@ =~= confirmation_html_body_model(
            confirmation_link_model(base_url.0@, token@),
        ));
    }
    (plain, html)
}

} // verus!
