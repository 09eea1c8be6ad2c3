//! The idempotency key store: a keyed record of "has this `(caller,
//! token)` pair been seen, and if so what response did it produce".
//!
//! The claim step ([`try_processing`]) is the mutual-exclusion primitive of
//! the publish path: inserting the bare record succeeds for exactly one
//! caller per key, and every later submission of the same key observes
//! either the in-flight claim or the completed response.

use vstd::prelude::*;
use vstd::string::StringExecFns;
use vstd::string::StrSliceExecFns;

use crate::storage::{
    has_record, key_valid, lemma_record_idx_unique, record_idx, record_matches, IdempotencyRecord,
    IdempotencyRecordModel, SavedResponse, SavedResponseModel, Storage, StorageModel,
    MAX_IDEMPOTENCY_KEY_CHARS,
};

verus! {

// ---------------------------------------------------------------------
// The key
// ---------------------------------------------------------------------

/// A validated caller-supplied idempotency token: non-empty and of bounded
/// size, checked before any storage is touched.
#[derive(Debug)]
pub struct IdempotencyKey {
    key: String,
}

impl View for IdempotencyKey {
    type V = Seq<char>;

    closed spec fn view(&self) -> Seq<char> {
        self.key@
    }
}

impl IdempotencyKey {
    /// Validates a caller-supplied token. Accepts exactly the tokens
    /// [`key_valid`] describes; rejected tokens name the reason.
    pub fn parse(s: String) -> (r: Result<IdempotencyKey, String>)
        ensures
            (r is Ok) == key_valid(s@),
            (r matches Ok(k) ==> k@ == s@),
            (r matches Err(m) ==> !key_valid(s@) && (if s@.len() == 0 {
                m@ == "The idempotency key cannot be empty"@
            } else {
                m@ == "The idempotency key must not exceed 50 characters"@
            })),
    {
        if s.as_str().is_empty() {
            Err(String::from_str("The idempotency key cannot be empty"))
        } else if s.as_str().unicode_len() > MAX_IDEMPOTENCY_KEY_CHARS {
            Err(String::from_str("The idempotency key must not exceed 50 characters"))
        } else {
            Ok(IdempotencyKey { key: s })
        }
    }

    /// The token as it was supplied.
    pub fn as_string(&self) -> (r: &String)
        ensures
            r@ == self@,
    {
        &self.key
    }

}

// ---------------------------------------------------------------------
// The claim step
// ---------------------------------------------------------------------

/// What the store tells the wrapper about a key: the caller now owns
/// producing a response, or the saved response is replayed verbatim, or
/// another execution holds the claim and has not completed.
pub enum NextAction {
    StartProcessing,
    ReturnSavedResponse(SavedResponse),
    InFlight,
}

/// Abstract view of a [`NextAction`].
#[verifier::ext_equal]
pub enum NextActionModel {
    StartProcessing,
    ReturnSavedResponse(SavedResponseModel),
    InFlight,
}

impl View for NextAction {
    type V = NextActionModel;

    open spec fn view(&self) -> NextActionModel {
        match self {
            NextAction::StartProcessing => NextActionModel::StartProcessing,
            NextAction::ReturnSavedResponse(r) => NextActionModel::ReturnSavedResponse(r@),
            NextAction::InFlight => NextActionModel::InFlight,
        }
    }
}

/// The bare record the claim step inserts when a key is first seen.
pub open spec fn claimed_record(
    caller: Seq<char>,
    key: Seq<char>,
    now: int,
) -> IdempotencyRecordModel {
    IdempotencyRecordModel { caller, key, response: None, created_at: now }
}

/// Transition of the claim step: insert a bare record and start
/// processing, or replay the completed response, or report the in-flight
/// claim. The storage changes only in the first case.
pub open spec fn try_processing_model(
    s: StorageModel,
    caller: Seq<char>,
    key: Seq<char>,
    now: int,
) -> (StorageModel, NextActionModel) {
    if !has_record(s.records, caller, key) {
        (
            StorageModel {
                records: s.records.push(claimed_record(caller, key, now)),
                issues: s.issues,
                tasks: s.tasks,
                subscriptions: s.subscriptions,
                tokens: s.tokens,
            },
            NextActionModel::StartProcessing,
        )
    } else {
        let r = s.records[record_idx(s.records, caller, key)];
        match r.response {
            Some(resp) => (s, NextActionModel::ReturnSavedResponse(resp)),
            None => (s, NextActionModel::InFlight),
        }
    }
}

/// Attempts to claim the `(caller, key)` pair. Exactly one caller per key
/// ever sees `StartProcessing`; a key with a saved response replays it
/// verbatim; a claimed key without a response reports the in-flight race.
pub fn try_processing(
    storage: &mut Storage,
    caller_id: &String,
    key: &IdempotencyKey,
    now: u64,
) -> (action: NextAction)
    requires
        old(storage).wf(),
        key_valid(key@),
    ensures
        final(storage)@ == try_processing_model(old(storage)@, caller_id@, key@, now as int).0,
        action@ == try_processing_model(old(storage)@, caller_id@, key@, now as int).1,
        final(storage).wf(),
{
    let n = storage.idempotency_records.len();
    let mut i: usize = 0;
    while i < n
        invariant
            *storage == *old(storage),
            storage.wf(),
            n == storage.idempotency_records.len(),
            i <= n,
            forall|j: int|
                0 <= j < i as int ==> !record_matches(storage@.records[j], caller_id@, key@),
        decreases n - i,
    {
        let found = {
            let rec = &storage.idempotency_records[i];
            rec.caller_id == *caller_id && rec.idempotency_key == key.key
        };
        if found {
            proof {
                assert(record_matches(storage@.records[i as int], caller_id@, key@));
                lemma_record_idx_unique(storage@, caller_id@, key@, i as int);
            }
            match &storage.idempotency_records[i].response {
                Some(resp) => {
                    return NextAction::ReturnSavedResponse(resp.clone());
                },
                None => {
                    return NextAction::InFlight;
                },
            }
        }
        i = i + 1;
    }
    proof {
        assert(!has_record(storage@.records, caller_id@, key@));
    }
    let ghost pre = storage@;
    storage.idempotency_records.push(
        IdempotencyRecord {
            caller_id: caller_id.clone(),
            idempotency_key: key.key.clone(),
            response: None,
            created_at: now,
        },
    );
    proof {
        assert(storage@.records =~= pre.records.push(claimed_record(caller_id@, key@, now as int)));
        assert(storage@ =~= try_processing_model(pre, caller_id@, key@, now as int).0);
        assert forall|a: int, b: int| 0 <= a < b < storage@.records.len() implies !(
        #[trigger] storage@.records[a].caller == #[trigger] storage@.records[b].caller
            && storage@.records[a].key == storage@.records[b].key) by {
            if b == storage@.records.len() - 1 {
                assert(!record_matches(pre.records[a], caller_id@, key@));
            }
        }
        assert(storage@.wf());
    }
    NextAction::StartProcessing
}

// ---------------------------------------------------------------------
// Completing a claim
// ---------------------------------------------------------------------

/// Transition of [`save_response`]: the claimed record of the pair gains
/// the response; nothing else changes.
pub open spec fn save_response_model(
    s: StorageModel,
    caller: Seq<char>,
    key: Seq<char>,
    resp: SavedResponseModel,
) -> StorageModel {
    let i = record_idx(s.records, caller, key);
    StorageModel {
        records: s.records.update(
            i,
            IdempotencyRecordModel {
                caller: s.records[i].caller,
                key: s.records[i].key,
                response: Some(resp),
                created_at: s.records[i].created_at,
            },
        ),
        issues: s.issues,
        tasks: s.tasks,
        subscriptions: s.subscriptions,
        tokens: s.tokens,
    }
}

/// Attaches the response to the previously claimed record. Never called
/// without a prior successful claim for the key, so the record exists and
/// has no response yet; afterwards it is complete and is never written
/// again.
pub fn save_response(
    storage: &mut Storage,
    caller_id: &String,
    key: &IdempotencyKey,
    response: SavedResponse,
)
    requires
        old(storage).wf(),
        has_record(old(storage)@.records, caller_id@, key@),
        old(storage)@.records[record_idx(old(storage)@.records, caller_id@, key@)].response
            is None,
    ensures
        final(storage)@ == save_response_model(old(storage)@, caller_id@, key@, response@),
        final(storage).wf(),
{
    let n = storage.idempotency_records.len();
    let mut i: usize = 0;
    while i < n
        invariant
            *storage == *old(storage),
            storage.wf(),
            n == storage.idempotency_records.len(),
            i <= n,
            has_record(storage@.records, caller_id@, key@),
            forall|j: int|
                0 <= j < i as int ==> !record_matches(storage@.records[j], caller_id@, key@),
        decreases n - i,
    {
        let found = {
            let rec = &storage.idempotency_records[i];
            rec.caller_id == *caller_id && rec.idempotency_key == key.key
        };
        if found {
            proof {
                assert(record_matches(storage@.records[i as int], caller_id@, key@));
                lemma_record_idx_unique(storage@, caller_id@, key@, i as int);
            }
            let created_at = storage.idempotency_records[i].created_at;
            let caller_owned = storage.idempotency_records[i].caller_id.clone();
            let key_owned = storage.idempotency_records[i].idempotency_key.clone();
            storage.idempotency_records.set(
                i,
                IdempotencyRecord {
                    caller_id: caller_owned,
                    idempotency_key: key_owned,
                    response: Some(response),
                    created_at,
                },
            );
            proof {
                assert(storage@.records =~= save_response_model(old(storage)@, caller_id@, key@, response@)
                    .records);
                assert(storage@ =~= save_response_model(old(storage)@, caller_id@, key@, response@));
                assert forall|a: int, b: int|
                    0 <= a < b < storage@.records.len() implies !(#[trigger] storage@.records[a].caller
                    == #[trigger] storage@.records[b].caller && storage@.records[a].key
                    == storage@.records[b].key) by {
                    assert(storage@.records[a].caller == old(storage)@.records[a].caller
                        && storage@.records[a].key == old(storage)@.records[a].key);
                    assert(storage@.records[b].caller == old(storage)@.records[b].caller
                        && storage@.records[b].key == old(storage)@.records[b].key);
                }
                assert(storage@.wf());
            }
            return ;
        }
        i = i + 1;
    }
    proof {
        assert(!has_record(storage@.records, caller_id@, key@));
        assert(false);
    }
}

// ---------------------------------------------------------------------
// Reading a completed response
// ---------------------------------------------------------------------

/// The saved response of the pair, if the key has completed.
pub open spec fn saved_response_of(
    s: StorageModel,
    caller: Seq<char>,
    key: Seq<char>,
) -> Option<SavedResponseModel> {
    if has_record(s.records, caller, key) {
        s.records[record_idx(s.records, caller, key)].response
    } else {
        None
    }
}

/// Reads the saved response of the pair without changing anything:
/// `Some` exactly when the key has a completed record.
pub fn get_saved_response(
    storage: &Storage,
    caller_id: &String,
    key: &IdempotencyKey,
) -> (r: Option<SavedResponse>)
    requires
        storage.wf(),
    ensures
        match r {
            Some(resp) => saved_response_of(storage@, caller_id@, key@) == Some(resp@),
            None => saved_response_of(storage@, caller_id@, key@) is None,
        },
{
    let n = storage.idempotency_records.len();
    let mut i: usize = 0;
    while i < n
        invariant
            n == storage.idempotency_records.len(),
            i <= n,
            storage.wf(),
            forall|j: int|
                0 <= j < i as int ==> !record_matches(storage@.records[j], caller_id@, key@),
        decreases n - i,
    {
        let found = {
            let rec = &storage.idempotency_records[i];
            rec.caller_id == *caller_id && rec.idempotency_key == key.key
        };
        if found {
            proof {
                assert(record_matches(storage@.records[i as int], caller_id@, key@));
                lemma_record_idx_unique(storage@, caller_id@, key@, i as int);
            }
            match &storage.idempotency_records[i].response {
                Some(resp) => {
                    return Some(resp.clone());
                },
                None => {
                    return None;
                },
            }
        }
        i = i + 1;
    }
    proof {
        assert(!has_record(storage@.records, caller_id@, key@));
    }
    None
}

// ---------------------------------------------------------------------
// Rolling back a claim
// ---------------------------------------------------------------------

/// Transition of [`release_claim`]: a claimed-but-unfinished record of the
/// pair is removed; a completed record, or an absent one, is untouched.
pub open spec fn release_claim_model(
    s: StorageModel,
    caller: Seq<char>,
    key: Seq<char>,
) -> StorageModel {
    if has_record(s.records, caller, key) && s.records[record_idx(s.records, caller, key)].response
        is None {
        StorageModel {
            records: s.records.remove(record_idx(s.records, caller, key)),
            issues: s.issues,
            tasks: s.tasks,
            subscriptions: s.subscriptions,
            tokens: s.tokens,
        }
    } else {
        s
    }
}

/// Rolls back a claim whose business logic failed: the bare record is
/// removed so a retry with the same token is free to try again. A
/// completed record is never removed.
pub fn release_claim(storage: &mut Storage, caller_id: &String, key: &IdempotencyKey)
    requires
        old(storage).wf(),
    ensures
        final(storage)@ == release_claim_model(old(storage)@, caller_id@, key@),
        final(storage).wf(),
{
    let n = storage.idempotency_records.len();
    let mut i: usize = 0;
    while i < n
        invariant
            *storage == *old(storage),
            storage.wf(),
            n == storage.idempotency_records.len(),
            i <= n,
            forall|j: int|
                0 <= j < i as int ==> !record_matches(storage@.records[j], caller_id@, key@),
        decreases n - i,
    {
        let found = {
            let rec = &storage.idempotency_records[i];
            rec.caller_id == *caller_id && rec.idempotency_key == key.key
        };
        if found {
            proof {
                assert(record_matches(storage@.records[i as int], caller_id@, key@));
                lemma_record_idx_unique(storage@, caller_id@, key@, i as int);
            }
            let keep = match &storage.idempotency_records[i].response {
                Some(_) => true,
                None => false,
            };
            if !keep {
                storage.idempotency_records.remove(i);
                proof {
                    assert(storage@.records =~= old(storage)@.records.remove(i as int));
                    assert(storage@ =~= release_claim_model(old(storage)@, caller_id@, key@));
                    assert forall|a: int, b: int|
                        0 <= a < b < storage@.records.len() implies !(
                    #[trigger] storage@.records[a].caller == #[trigger] storage@.records[b].caller
                        && storage@.records[a].key == storage@.records[b].key) by {
                        let a0 = if a < i as int { a } else { a + 1 };
                        let b0 = if b < i as int { b } else { b + 1 };
                        assert(storage@.records[a] == old(storage)@.records[a0]);
                        assert(storage@.records[b] == old(storage)@.records[b0]);
                    }
                    assert(storage@.wf());
                }
            }
            return ;
        }
        i = i + 1;
    }
    proof {
        assert(!has_record(storage@.records, caller_id@, key@));
        assert(storage@ =~= release_claim_model(old(storage)@, caller_id@, key@));
    }
}

} // verus!
