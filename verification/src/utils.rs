//! Small response helpers shared by the request-facing paths.

use vstd::prelude::*;
use vstd::string::StringExecFns;

use crate::storage::{SavedResponse, SavedResponseModel};

verus! {

/// The redirect a successful publish produces (and the store replays).
pub open spec fn see_other_model(location: Seq<char>) -> SavedResponseModel {
    SavedResponseModel {
        status: 303,
        headers: seq![("Location"@, location)],
        body: Seq::empty(),
    }
}

/// A `303 See Other` redirect to the given location, as a response value
/// the idempotency store can save and replay verbatim.
pub fn see_other(location: &str) -> (r: SavedResponse)
    ensures
        r@ == see_other_model(location@),
{
    let mut headers: Vec<(String, String)> = Vec::new();
    headers.push((String::from_str("Location"), location.to_owned()));
    let r = SavedResponse {
        response_status: 303,
        response_headers: headers,
        response_body: Vec::new(),
    };
    proof {
        assert(r@.headers =~= see_other_model(location@).headers);
        assert(r@ =~= see_other_model(location@));
    }
    r
}

} // verus!
