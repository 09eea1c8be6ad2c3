//! The direct publish path's view of the recipient list: the confirmed
//! subscribers, each with their stored address re-validated, invalid ones
//! reported instead of silently dropped.

use vstd::prelude::*;

use crate::domain::subscriber_email::{email_valid, SubscriberEmail};
use crate::storage::{
    confirmed_emails, lemma_confirmed_emails_take_step, Storage, SubscriptionStatus,
};

verus! {

/// The body of a publish request: a title and the content in both shapes.
pub struct BodyData {
    pub title: String,
    pub content: Content,
}

/// The two renderings of the message.
pub struct Content {
    pub html: String,
    pub text: String,
}

/// One recipient whose stored address passed re-validation.
pub struct ConfirmedSubscriber {
    pub email: SubscriberEmail,
}

/// Failure of the direct publish route.
#[derive(Debug)]
pub enum PublishError {
    UnexpectedError(String),
}

impl PublishError {
    /// The status code the route answers with: an opaque `500`.
    pub fn status_code(&self) -> (code: u16)
        ensures
            code == 500u16,
    {
        match self {
            PublishError::UnexpectedError(_) => 500,
        }
    }
}

/// What re-validating one stored address yields.
pub open spec fn revalidated(r: Result<ConfirmedSubscriber, String>, email: Seq<char>) -> bool {
    match r {
        Ok(c) => email_valid(email) && c.email@ == email,
        Err(m) => !email_valid(email) && m@ == email + " is not a valid subscriber email"@,
    }
}

/// The recipients of a direct publish: every subscriber confirmed right
/// now, in table order, each stored address re-validated — a subscriber
/// whose stored contact details fail the check is handed back as the
/// error case, to be skipped and logged rather than failing the issue.
pub fn retrieve_confirmed_subscribers(storage: &Storage) -> (r: Vec<
    Result<ConfirmedSubscriber, String>,
>)
    requires
        storage.wf(),
    ensures
        r@.len() == confirmed_emails(storage@.subscriptions).len(),
        forall|j: int|
            0 <= j < r@.len() ==> revalidated(
                #[trigger] r@[j],
                confirmed_emails(storage@.subscriptions)[j],
            ),
{
    let n = storage.subscriptions.len();
    let mut result: Vec<Result<ConfirmedSubscriber, String>> = Vec::new();
    let mut i: usize = 0;
    while i < n
        invariant
            storage.wf(),
            n == storage.subscriptions.len(),
            i <= n,
            result@.len() == confirmed_emails(storage@.subscriptions.take(i as int)).len(),
            forall|j: int|
                0 <= j < result@.len() ==> revalidated(
                    #[trigger] result@[j],
                    confirmed_emails(storage@.subscriptions.take(i as int))[j],
                ),
        decreases n - i,
    {
        let is_confirmed = {
            let sub = &storage.subscriptions[i];
            sub.status == SubscriptionStatus::Confirmed
        };
        if is_confirmed {
            let email = storage.subscriptions[i].email.clone();
            let entry = match SubscriberEmail::parse(email) {
                Ok(e) => Ok(ConfirmedSubscriber { email: e }),
                Err(m) => Err(m),
            };
            result.push(entry);
        }
        proof {
            lemma_confirmed_emails_take_step(storage@.subscriptions, i as int);
            let c1 = confirmed_emails(storage@.subscriptions.take(i as int + 1));
            assert forall|j: int| 0 <= j < result@.len() implies revalidated(
                #[trigger] result@[j],
                c1[j],
            ) by {
                if j < result@.len() - 1 || !is_confirmed {
                    assert(c1[j] == confirmed_emails(storage@.subscriptions.take(i as int))[j]);
                }
            }
        }
        i = i + 1;
    }
    proof {
        assert(storage@.subscriptions.take(n as int) =~= storage@.subscriptions);
    }
    result
}

} // verus!
