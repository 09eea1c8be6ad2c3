//! A subscriber's address, accepted only when it passes the HTML5
//! valid-email-address check.

use vstd::prelude::*;
use vstd::string::StringExecFns;

verus! {

/// What `validator::validate_email` decides for a string: the HTML5
/// valid-email-address check (user part, length bounds, domain grammar,
/// IDNA fallback). The full definition spans regexes, so it is only named
/// here; the facts below are the ones its source states up front.
pub uninterp spec fn email_valid(s: Seq<char>) -> bool;

/// Relies on `validator::validate_email`: the HTML5 check, a function of
/// the characters alone; its source returns `false` at once for an empty
/// string and for a string without `'@'`.
#[verifier::external_body]
fn email_format_is_valid(s: &str) -> (r: bool)
    ensures
        r == email_valid(s@),
        s@.len() == 0 ==> !r,
        !(exists|i: int| 0 <= i < s@.len() && s@[i] == '@') ==> !r,
{
    validator::validate_email(s)
}

/// The address of one subscriber, as the HTML5 check accepted it.
#[derive(Debug)]
pub struct SubscriberEmail(String);

impl View for SubscriberEmail {
    type V = Seq<char>;

    closed spec fn view(&self) -> Seq<char> {
        self.0@
    }
}

impl SubscriberEmail {
    /// Accepts exactly the addresses [`email_valid`] describes; a rejected
    /// string is handed back inside the error message.
    pub fn parse(email: String) -> (r: Result<SubscriberEmail, String>)
        ensures
            (r is Ok) == email_valid(email@),
            (r matches Ok(e) ==> e@ == email@),
            (r matches Err(m) ==> m@ == email@ + " is not a valid subscriber email"@),
    {
        if email_format_is_valid(email.as_str()) {
            Ok(SubscriberEmail(email))
        } else {
            Err(email.concat(" is not a valid subscriber email"))
        }
    }

    /// The address itself.
    pub fn as_str(&self) -> (r: &str)
        ensures
            r@ == self@,
    {
        self.0.as_str()
    }

    /// The address itself, as an owned-string reference.
    pub fn as_string(&self) -> (r: &String)
        ensures
            r@ == self@,
    {
        &self.0
    }
}

} // verus!
