//! The admin's password: between 12 and 128 grapheme clusters, and not
//! made of whitespace alone.

use unicode_segmentation::UnicodeSegmentation;
use vstd::prelude::*;
use vstd::string::StrSliceExecFns;
use vstd::string::StringExecFns;

verus! {

/// How many extended grapheme clusters a string consists of. The
/// segmentation rules fill a Unicode annex, so the count is only named
/// here.
pub uninterp spec fn grapheme_count_of(s: Seq<char>) -> nat;

/// Relies on `unicode_segmentation`'s `graphemes(true).count()`: the
/// number of extended grapheme clusters, a function of the characters
/// alone; the segmentation of the empty string is empty, and a non-empty
/// string segments into at least one non-empty cluster.
#[verifier::external_body]
fn count_graphemes(s: &str) -> (r: usize)
    ensures
        r as nat == grapheme_count_of(s@),
        (s@.len() == 0) == (r == 0),
{
    s.graphemes(true).count()
}

/// The White_Space code points, as `char::is_whitespace` documents them.
pub open spec fn is_space_char(c: char) -> bool {
    ||| c == '\t'
    ||| c == '\n'
    ||| c == '\u{b}'
    ||| c == '\u{c}'
    ||| c == '\r'
    ||| c == ' '
    ||| c == '\u{85}'
    ||| c == '\u{a0}'
    ||| c == '\u{1680}'
    ||| '\u{2000}' <= c <= '\u{200a}'
    ||| c == '\u{2028}'
    ||| c == '\u{2029}'
    ||| c == '\u{202f}'
    ||| c == '\u{205f}'
    ||| c == '\u{3000}'
}

fn char_is_space(c: char) -> (r: bool)
    ensures
        r == is_space_char(c),
{
    c == '\t' || c == '\n' || c == '\u{b}' || c == '\u{c}' || c == '\r' || c == ' ' || c == '\u{85}'
        || c == '\u{a0}' || c == '\u{1680}' || ('\u{2000}' <= c && c <= '\u{200a}') || c
        == '\u{2028}' || c == '\u{2029}' || c == '\u{202f}' || c == '\u{205f}' || c == '\u{3000}'
}

/// Every character is whitespace — what trimming the string down to
/// nothing means. Vacuously true of the empty string.
pub open spec fn all_whitespace(s: Seq<char>) -> bool {
    forall|i: int| 0 <= i < s.len() ==> is_space_char(#[trigger] s[i])
}

fn is_empty_or_whitespace(s: &str) -> (r: bool)
    ensures
        r == all_whitespace(s@),
{
    let n = s.unicode_len();
    let mut i: usize = 0;
    while i < n
        invariant
            i <= n,
            n == s@.len(),
            forall|j: int| 0 <= j < i as int ==> is_space_char(#[trigger] s@[j]),
        decreases n - i,
    {
        if !char_is_space(s.get_char(i)) {
            return false;
        }
        i = i + 1;
    }
    true
}

/// The passwords [`AdminPassword::parse`] accepts.
pub open spec fn admin_password_ok(s: Seq<char>) -> bool {
    12 <= grapheme_count_of(s) <= 128 && !all_whitespace(s)
}

/// Why a password was rejected, by the same case split `parse` makes.
pub open spec fn password_error_message(s: Seq<char>) -> Seq<char> {
    if grapheme_count_of(s) > 128 {
        "Invalid password, too long"@
    } else if grapheme_count_of(s) < 12 {
        "Invalid password, too short"@
    } else {
        "Invalid password, can't be empty or only whitespaces"@
    }
}

/// The admin's password, as `parse` accepted it.
#[derive(Debug)]
pub struct AdminPassword(String);

impl View for AdminPassword {
    type V = Seq<char>;

    closed spec fn view(&self) -> Seq<char> {
        self.0@
    }
}

impl AdminPassword {
    /// Accepts exactly the passwords [`admin_password_ok`] describes:
    /// rejects over 128 grapheme clusters first, then under 12, then
    /// whitespace-only content.
    pub fn parse(password: String) -> (r: Result<AdminPassword, String>)
        ensures
            (r is Ok) == admin_password_ok(password@),
            (r matches Ok(p) ==> p@ == password@),
            (r matches Err(m) ==> m@ == password_error_message(password@)),
    {
        let graphemes = count_graphemes(password.as_str());
        if graphemes > 128 {
            Err(String::from_str("Invalid password, too long"))
        } else if graphemes < 12 {
            Err(String::from_str("Invalid password, too short"))
        } else if is_empty_or_whitespace(password.as_str()) {
            Err(String::from_str("Invalid password, can't be empty or only whitespaces"))
        } else {
            Ok(AdminPassword(password))
        }
    }

    /// The password itself.
    pub fn as_string(&self) -> (r: &String)
        ensures
            r@ == self@,
    {
        &self.0
    }
}

} // verus!
