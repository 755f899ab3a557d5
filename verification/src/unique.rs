//! Uniqueness claims: which states of a job hold its unique key, and what a
//! change of state does to the claim.
use crate::error;
use crate::error::AwaError;
use crate::job::JobState;
use crate::rows::{DeferredJobRow, RuntimeReadyInsert};
use vstd::prelude::*;
use vstd::string::*;

verus! {

/// The bitmask says that a job in this state holds its unique key: the byte at
/// the state's position is `1`.
pub open spec fn mask_claims(mask: Seq<u8>, state: JobState) -> bool {
    state.bit() < mask.len() && mask[state.bit()] == 0x31u8
}

/// A job with these unique states holds its key in this state.
pub open spec fn state_claims(unique_states: Option<String>, state: JobState) -> bool {
    unique_states matches Some(mask) && mask_claims(vstd::utf8::encode_utf8(mask@), state)
}

/// Whether a job with these unique states holds its key in this state.
pub fn unique_state_claims(unique_states: &Option<String>, state: JobState) -> (r: bool)
    ensures
        r == state_claims(*unique_states, state),
{
    match unique_states {
        None => false,
        Some(mask) => {
            let bytes = mask.as_str().as_bytes();
            let position: usize = state.bit_position() as usize;
            position < bytes.len() && bytes[position] == 0x31u8
        },
    }
}

/// What a change of state does to the claim on a unique key.
#[derive(Debug, Clone, Copy, PartialEq, Eq, Structural)]
pub enum ClaimChange {
    Keep,
    Release,
    Acquire,
}

/// A state that may be absent claims the key.
pub open spec fn claims_in(unique_states: Option<String>, state: Option<JobState>) -> bool {
    state matches Some(s) && state_claims(unique_states, s)
}

/// What a change of state does to the claim: it is released when only the old
/// state claims, and acquired when only the new one does. Without a key there
/// is nothing to claim.
pub open spec fn claim_change(
    has_key: bool,
    unique_states: Option<String>,
    old_state: Option<JobState>,
    new_state: Option<JobState>,
) -> ClaimChange {
    let before = claims_in(unique_states, old_state);
    let after = claims_in(unique_states, new_state);
    if !has_key || before == after {
        ClaimChange::Keep
    } else if before {
        ClaimChange::Release
    } else {
        ClaimChange::Acquire
    }
}

fn claims_state(unique_states: &Option<String>, state: Option<JobState>) -> (r: bool)
    ensures
        r == claims_in(*unique_states, state),
{
    match state {
        Some(s) => unique_state_claims(unique_states, s),
        None => false,
    }
}

/// Decides what a change of state does to the claim on a unique key.
pub fn sync_unique_claim(
    unique_key: &Option<Vec<u8>>,
    unique_states: &Option<String>,
    old_state: Option<JobState>,
    new_state: Option<JobState>,
) -> (r: ClaimChange)
    ensures
        r == claim_change(unique_key is Some, *unique_states, old_state, new_state),
{
    let before = claims_state(unique_states, old_state);
    let after = claims_state(unique_states, new_state);
    if unique_key.is_none() {
        ClaimChange::Keep
    } else if before && !after {
        ClaimChange::Release
    } else if after && !before {
        ClaimChange::Acquire
    } else {
        ClaimChange::Keep
    }
}

/// The claim is held exactly in the claiming states: whether it was held before
/// a change of state, and what the change does, tell whether it is held after.
pub proof fn law_claim_follows_state(
    unique_states: Option<String>,
    old_state: Option<JobState>,
    new_state: Option<JobState>,
)
    ensures
        claims_in(unique_states, new_state) == (match claim_change(
            true,
            unique_states,
            old_state,
            new_state,
        ) {
            ClaimChange::Keep => claims_in(unique_states, old_state),
            ClaimChange::Release => false,
            ClaimChange::Acquire => true,
        }),
        claim_change(true, unique_states, old_state, new_state) == ClaimChange::Release
            ==> claims_in(unique_states, old_state),
        claim_change(true, unique_states, old_state, new_state) == ClaimChange::Acquire
            ==> !claims_in(unique_states, old_state),
{
}

/// Judges an attempt to acquire a claim: the key is another job's when no row
/// was touched.
pub fn check_claim_acquired(rows_affected: u64) -> (r: Result<(), AwaError>)
    ensures
        match r {
            Ok(()) => rows_affected != 0,
            Err(err) => rows_affected == 0 && error::is_job_unique_conflict(err),
        },
{
    if rows_affected == 0 {
        Err(error::job_unique_conflict())
    } else {
        Ok(())
    }
}

/// A unique key to be claimed, and the job that claims it.
#[derive(Debug)]
pub struct KeyClaim {
    pub key: Vec<u8>,
    pub job_id: i64,
}

/// Clones bytes.
pub fn clone_bytes(bytes: &Vec<u8>) -> (r: Vec<u8>)
    ensures
        r@ == bytes@,
{
    let mut out: Vec<u8> = Vec::new();
    let mut i: usize = 0;
    while i < bytes.len()
        invariant
            i <= bytes.len(),
            out@ == bytes@.subrange(0, i as int),
        decreases bytes.len() - i,
    {
        out.push(bytes[i]);
        i = i + 1;
        assert(bytes@.subrange(0, i as int) =~= bytes@.subrange(0, i as int - 1).push(bytes@[i - 1]));
    }
    assert(bytes@.subrange(0, bytes@.len() as int) =~= bytes@);
    out
}

/// Whether two byte strings are equal.
pub fn same_bytes(a: &Vec<u8>, b: &Vec<u8>) -> (r: bool)
    ensures
        r == (a@ == b@),
{
    if a.len() != b.len() {
        return false;
    }
    let mut i: usize = 0;
    while i < a.len()
        invariant
            i <= a.len(),
            a@.len() == b@.len(),
            forall|k: int| 0 <= k < i ==> a@[k] == b@[k],
        decreases a.len() - i,
    {
        if a[i] != b[i] {
            return false;
        }
        i = i + 1;
    }
    assert(a@ =~= b@);
    true
}

/// A row of a batch that is being enqueued, as far as uniqueness goes.
pub struct ClaimantView {
    pub key: Option<Seq<u8>>,
    pub job_id: i64,
    pub claims: bool,
}

/// The claims that a batch makes, in its order: one for each row that has a key
/// and is in a claiming state.
pub open spec fn batch_claims(rows: Seq<ClaimantView>) -> Seq<(Seq<u8>, i64)>
    decreases rows.len(),
{
    if rows.len() == 0 {
        Seq::empty()
    } else {
        let rest = batch_claims(rows.drop_last());
        let row = rows.last();
        if row.claims && row.key is Some {
            rest.push((row.key->0, row.job_id))
        } else {
            rest
        }
    }
}

/// What key claims say.
pub open spec fn claim_views(claims: Seq<KeyClaim>) -> Seq<(Seq<u8>, i64)> {
    claims.map_values(|c: KeyClaim| (c.key@, c.job_id))
}

pub open spec fn key_view(key: Option<Vec<u8>>) -> Option<Seq<u8>> {
    match key {
        Some(k) => Some(k@),
        None => None,
    }
}

/// A ready row claims its key when the available state does.
pub open spec fn ready_claimants(rows: Seq<RuntimeReadyInsert>) -> Seq<ClaimantView> {
    rows.map_values(
        |row: RuntimeReadyInsert|
            ClaimantView {
                key: key_view(row.unique_key),
                job_id: row.job_id,
                claims: state_claims(row.unique_states, JobState::Available),
            },
    )
}

/// A deferred row claims its key when its own state does.
pub open spec fn deferred_claimants(rows: Seq<DeferredJobRow>) -> Seq<ClaimantView> {
    rows.map_values(
        |row: DeferredJobRow|
            ClaimantView {
                key: key_view(row.unique_key),
                job_id: row.job_id,
                claims: state_claims(row.unique_states, row.state),
            },
    )
}

fn add_claim(
    claims: &mut Vec<KeyClaim>,
    unique_key: &Option<Vec<u8>>,
    job_id: i64,
    claiming: bool,
    Ghost(before): Ghost<Seq<ClaimantView>>,
)
    requires
        claim_views(old(claims)@) == batch_claims(before),
    ensures
        claim_views(final(claims)@) == batch_claims(
            before.push(ClaimantView { key: key_view(*unique_key), job_id, claims: claiming }),
        ),
{
    proof {
        let row = ClaimantView { key: key_view(*unique_key), job_id, claims: claiming };
        assert(before.push(row).drop_last() =~= before);
    }
    if claiming {
        match unique_key {
            Some(key) => {
                let ghost earlier = claims@;
                claims.push(KeyClaim { key: clone_bytes(key), job_id });
                assert(claim_views(claims@) =~= claim_views(earlier).push((key@, job_id)));
            },
            None => {},
        }
    }
}

/// The claims that a batch of ready rows makes.
pub fn ready_enqueue_claims(rows: &Vec<RuntimeReadyInsert>) -> (claims: Vec<KeyClaim>)
    ensures
        claim_views(claims@) == batch_claims(ready_claimants(rows@)),
{
    let mut claims: Vec<KeyClaim> = Vec::new();
    let ghost all = ready_claimants(rows@);
    assert(claim_views(claims@) =~= batch_claims(all.subrange(0, 0)));
    let mut i: usize = 0;
    while i < rows.len()
        invariant
            i <= rows.len(),
            all == ready_claimants(rows@),
            claim_views(claims@) == batch_claims(all.subrange(0, i as int)),
        decreases rows.len() - i,
    {
        let row = &rows[i];
        let claiming = unique_state_claims(&row.unique_states, JobState::Available);
        add_claim(
            &mut claims,
            &row.unique_key,
            row.job_id,
            claiming,
            Ghost(all.subrange(0, i as int)),
        );
        assert(all.subrange(0, i as int + 1) =~= all.subrange(0, i as int).push(all[i as int]));
        i = i + 1;
    }
    assert(all.subrange(0, all.len() as int) =~= all);
    claims
}

/// The claims that a batch of deferred rows makes.
pub fn deferred_enqueue_claims(rows: &Vec<DeferredJobRow>) -> (claims: Vec<KeyClaim>)
    ensures
        claim_views(claims@) == batch_claims(deferred_claimants(rows@)),
{
    let mut claims: Vec<KeyClaim> = Vec::new();
    let ghost all = deferred_claimants(rows@);
    assert(claim_views(claims@) =~= batch_claims(all.subrange(0, 0)));
    let mut i: usize = 0;
    while i < rows.len()
        invariant
            i <= rows.len(),
            all == deferred_claimants(rows@),
            claim_views(claims@) == batch_claims(all.subrange(0, i as int)),
        decreases rows.len() - i,
    {
        let row = &rows[i];
        let claiming = unique_state_claims(&row.unique_states, row.state);
        add_claim(
            &mut claims,
            &row.unique_key,
            row.job_id,
            claiming,
            Ghost(all.subrange(0, i as int)),
        );
        assert(all.subrange(0, i as int + 1) =~= all.subrange(0, i as int).push(all[i as int]));
        i = i + 1;
    }
    assert(all.subrange(0, all.len() as int) =~= all);
    claims
}

/// No two claims are for the same key.
pub open spec fn keys_distinct(claims: Seq<KeyClaim>) -> bool {
    forall|i: int, j: int|
        0 <= i < j < claims.len() ==> (#[trigger] claims[i]).key@ != (#[trigger] claims[j]).key@
}

/// Refuses a batch that claims one key twice.
pub fn check_distinct_keys(claims: &Vec<KeyClaim>) -> (r: Result<(), AwaError>)
    ensures
        match r {
            Ok(()) => keys_distinct(claims@),
            Err(err) => !keys_distinct(claims@) && error::is_job_unique_conflict(err),
        },
{
    let mut j: usize = 0;
    while j < claims.len()
        invariant
            j <= claims.len(),
            forall|a: int, b: int|
                0 <= a < b < j ==> (#[trigger] claims@[a]).key@ != (#[trigger] claims@[b]).key@,
        decreases claims.len() - j,
    {
        let mut i: usize = 0;
        while i < j
            invariant
                i <= j,
                j < claims@.len(),
                forall|a: int|
                    0 <= a < i ==> (#[trigger] claims@[a]).key@ != claims@[j as int].key@,
            decreases j - i,
        {
            if same_bytes(&claims[i].key, &claims[j].key) {
                return Err(error::job_unique_conflict());
            }
            i = i + 1;
        }
        j = j + 1;
    }
    Ok(())
}

/// Refuses a batch of which not every claim was granted.
pub fn check_claims_applied(requested: i64, applied: i64) -> (r: Result<(), AwaError>)
    ensures
        match r {
            Ok(()) => applied == requested,
            Err(err) => applied != requested && error::is_job_unique_conflict(err),
        },
{
    if applied != requested {
        Err(error::job_unique_conflict())
    } else {
        Ok(())
    }
}

} // verus!
