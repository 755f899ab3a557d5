//! How a job passes from place to place: what holds of it across the planes, and
//! what becomes of the key that makes it unique.

use crate::cancel::{
    cancel_deferred, cancel_lease, cancel_ready, cancel_receipt, CancelReply, CancelSearch,
    CancelStage, CancelStep, Cancellation, OpenReceipt, ReceiptClosure,
};
use crate::clock;
use crate::clock::{Span, Timestamp};
use crate::dlq::{
    bulk_retry_from_dlq, bury_failed, discard_releases, retry_from_dlq, RetryFromDlqOpts, Revived,
};
use crate::enqueue::RoutedRow;
use crate::error::AwaError;
use crate::hydrate;
use crate::hydrate::{hydrate_deleted_leases, lease_pairs};
use crate::intake::{assign_job_ids, intake_row, split_job_ids, IntakeRow, PreparedJob};
use crate::job::{JobRow, JobState};
use crate::json;
use crate::json::JsonNode;
use crate::keeping;
use crate::keeping::JobEssence;
use crate::lookup;
use crate::lookup::{latest_job, JobFact};
use crate::moves;
use crate::moves::{
    age_rows, aging_cutoff, check_move, check_priority, promote_rows, promotes, retry_step,
    retry_terminal, Relocation, RetryReply, RetryStep, Waiting,
};
use crate::order;
use crate::payload;
use crate::payload::PayloadView;
use crate::placement;
use crate::placement::{
    place_existing_rows, plan_ready_rows, plan_ready_rows_copy, EnqueuePlan, PlacedLane,
};
use crate::rows::{
    AttemptStateRow, DeferredJobRow, DeletedLeaseRow, DlqJobRow, DoneJobRow, ExistingReadyRow,
    LeaseJobRow, LeaseTransitionRow, ReadyJobLeaseRow, ReadyJobRow, ReadySnapshotRow,
    ReadyTransitionRow, RuntimeReadyInsert, RuntimeReadyRow,
};
use crate::storage::QueueStorage;
use crate::unique;
use crate::unique::{
    check_claim_acquired, check_claims_applied, check_distinct_keys, deferred_enqueue_claims,
    ready_enqueue_claims, sync_unique_claim, unique_state_claims, ClaimChange, KeyClaim,
};
use serde_json::Value;
use vstd::prelude::*;

verus! {

/// The states in the order in which a unique-states mask has them.
pub open spec fn mask_order() -> Seq<JobState> {
    seq![
        JobState::Scheduled,
        JobState::Available,
        JobState::Running,
        JobState::Completed,
        JobState::Retryable,
        JobState::Failed,
        JobState::Cancelled,
        JobState::WaitingExternal,
    ]
}

/// The mask has a one where the order has the state.
pub open spec fn mask_covers(mask: Option<String>, state: JobState) -> bool {
    mask matches Some(text) && exists|at: int|
        0 <= at < 8 && at < vstd::utf8::encode_utf8(text@).len() && #[trigger] mask_order()[at]
            == state && vstd::utf8::encode_utf8(text@)[at] == 0x31u8
}

/// A state stands at its place in the mask's order.
pub proof fn law_state_has_its_place_in_the_mask(state: JobState, at: u8)
    requires
        call_ensures(JobState::bit_position, (state,), at),
    ensures
        at < 8,
        mask_order()[at as int] == state,
{
}

/// The names of the states are those of their places, and no two are the same.
pub proof fn law_state_names_are_distinct(a: JobState, b: JobState, x: &str, y: &str)
    requires
        call_ensures(JobState::as_str, (a,), x),
        call_ensures(JobState::as_str, (b,), y),
        a != b,
    ensures
        x@ != y@,
{
    reveal_strlit("scheduled");
    reveal_strlit("available");
    reveal_strlit("running");
    reveal_strlit("completed");
    reveal_strlit("retryable");
    reveal_strlit("failed");
    reveal_strlit("cancelled");
    reveal_strlit("waiting_external");
    assert("scheduled"@[0] == 's' && "scheduled"@.len() == 9);
    assert("available"@[0] == 'a' && "available"@.len() == 9);
    assert("running"@.len() == 7);
    assert("completed"@[0] == 'c' && "completed"@[1] == 'o' && "completed"@.len() == 9);
    assert("retryable"@[0] == 'r' && "retryable"@.len() == 9);
    assert("failed"@.len() == 6);
    assert("cancelled"@[0] == 'c' && "cancelled"@[1] == 'a' && "cancelled"@.len() == 9);
    assert("waiting_external"@.len() == 16);
}

proof fn lemma_mask_covers(mask: Option<String>, state: JobState)
    ensures
        unique::state_claims(mask, state) == mask_covers(mask, state),
{
    assert(mask_order()[state.bit()] == state);
    if mask_covers(mask, state) {
        let text = mask->0;
        let at = choose|at: int|
            0 <= at < 8 && at < vstd::utf8::encode_utf8(text@).len() && #[trigger] mask_order()[at]
                == state && vstd::utf8::encode_utf8(text@)[at] == 0x31u8;
        assert(at == state.bit());
    }
}

/// A job holds its key in exactly the states that its mask covers.
pub proof fn law_mask_tells_the_claiming_states(
    mask: Option<String>,
    state: JobState,
    claims: bool,
)
    requires
        call_ensures(unique_state_claims, (&mask, state), claims),
    ensures
        claims == mask_covers(mask, state),
{
    lemma_mask_covers(mask, state);
}

/// A change of state moves the claim on a key as the mask has it: it is acquired
/// on the way into the covered states, released on the way out, and else left
/// alone. Without a key there is none.
pub proof fn law_claim_moves_with_the_state(
    key: Option<Vec<u8>>,
    mask: Option<String>,
    before: Option<JobState>,
    after: Option<JobState>,
    change: ClaimChange,
)
    requires
        call_ensures(sync_unique_claim, (&key, &mask, before, after), change),
    ensures
        ({
            let held = before matches Some(state) && mask_covers(mask, state);
            let wanted = after matches Some(state) && mask_covers(mask, state);
            &&& change is Acquire <==> key is Some && !held && wanted
            &&& change is Release <==> key is Some && held && !wanted
        }),
{
    if before is Some {
        lemma_mask_covers(mask, before->0);
    }
    if after is Some {
        lemma_mask_covers(mask, after->0);
    }
}

/// A job that is discarded gives its key up wherever it held it.
pub proof fn law_discarding_releases_the_key(
    done: Vec<DoneJobRow>,
    dead: Vec<DlqJobRow>,
    changes: Vec<ClaimChange>,
    i: int,
)
    requires
        call_ensures(discard_releases, (&done, &dead), changes),
    ensures
        changes@.len() == done@.len() + dead@.len(),
        0 <= i < done@.len() ==> (changes@[i] is Release <==> done@[i].unique_key is Some
            && mask_covers(done@[i].unique_states, done@[i].state)) && !(changes@[i] is Acquire),
        0 <= i < dead@.len() ==> (changes@[done@.len() + i] is Release <==> dead@[i].unique_key
            is Some && mask_covers(dead@[i].unique_states, dead@[i].state)) && !(changes@[done@.len()
            + i] is Acquire),
{
    if 0 <= i < done@.len() {
        lemma_mask_covers(done@[i].unique_states, done@[i].state);
    }
    if 0 <= i < dead@.len() {
        lemma_mask_covers(dead@[i].unique_states, dead@[i].state);
    }
}

proof fn lemma_claimant_is_listed(rows: Seq<unique::ClaimantView>, i: int)
    requires
        0 <= i < rows.len(),
        rows[i].claims,
        rows[i].key is Some,
    ensures
        unique::batch_claims(rows).contains((rows[i].key->0, rows[i].job_id)),
    decreases rows.len(),
{
    let rest = rows.drop_last();
    let list = unique::batch_claims(rows);
    let pair = (rows[i].key->0, rows[i].job_id);
    if i == rows.len() - 1 {
        assert(list[unique::batch_claims(rest).len() as int] == pair);
    } else {
        assert(rest[i] == rows[i]);
        lemma_claimant_is_listed(rest, i);
        let c = choose|c: int|
            0 <= c < unique::batch_claims(rest).len() && unique::batch_claims(rest)[c] == pair;
        assert(list[c] == pair);
    }
}

proof fn lemma_listed_is_claimant(rows: Seq<unique::ClaimantView>, c: int)
    requires
        0 <= c < unique::batch_claims(rows).len(),
    ensures
        exists|i: int|
            0 <= i < rows.len() && (#[trigger] rows[i]).claims && rows[i].key is Some && (
                rows[i].key->0,
                rows[i].job_id,
            ) == unique::batch_claims(rows)[c],
    decreases rows.len(),
{
    if rows.len() > 0 {
        let rest = rows.drop_last();
        if c < unique::batch_claims(rest).len() {
            lemma_listed_is_claimant(rest, c);
            let i = choose|i: int|
                0 <= i < rest.len() && (#[trigger] rest[i]).claims && rest[i].key is Some && (
                    rest[i].key->0,
                    rest[i].job_id,
                ) == unique::batch_claims(rest)[c];
            assert(rows[i] == rest[i]);
        } else {
            assert(rows[rows.len() - 1] == rows.last());
        }
    }
}

/// A deferred job with a key whose mask covers its state is among the claims of
/// its batch, and every claim is such a job's.
pub proof fn law_deferred_jobs_claim_their_keys(
    rows: Vec<DeferredJobRow>,
    claims: Vec<KeyClaim>,
    i: int,
    c: int,
)
    requires
        call_ensures(deferred_enqueue_claims, (&rows,), claims),
    ensures
        0 <= i < rows@.len() && rows@[i].unique_key is Some && mask_covers(
            rows@[i].unique_states,
            rows@[i].state,
        ) ==> exists|k: int|
            0 <= k < claims@.len() && (#[trigger] claims@[k]).key@ == rows@[i].unique_key->0@
                && claims@[k].job_id == rows@[i].job_id,
        0 <= c < claims@.len() ==> exists|k: int|
            #![trigger rows@[k]]
            0 <= k < rows@.len() && mask_covers(rows@[k].unique_states, rows@[k].state)
                && rows@[k].unique_key is Some && rows@[k].unique_key->0@ == claims@[c].key@
                && rows@[k].job_id == claims@[c].job_id,
{
    let claimants = unique::deferred_claimants(rows@);
    let views = unique::claim_views(claims@);
    if 0 <= i < rows@.len() && rows@[i].unique_key is Some && mask_covers(
        rows@[i].unique_states,
        rows@[i].state,
    ) {
        lemma_mask_covers(rows@[i].unique_states, rows@[i].state);
        lemma_claimant_is_listed(claimants, i);
        let pair = (claimants[i].key->0, claimants[i].job_id);
        let k = choose|k: int| 0 <= k < views.len() && views[k] == pair;
        assert(views[k] == (claims@[k].key@, claims@[k].job_id));
    }
    if 0 <= c < claims@.len() {
        lemma_listed_is_claimant(claimants, c);
        let k = choose|k: int|
            0 <= k < claimants.len() && (#[trigger] claimants[k]).claims && claimants[k].key is Some
                && (claimants[k].key->0, claimants[k].job_id) == unique::batch_claims(claimants)[c];
        assert(views[c] == (claims@[c].key@, claims@[c].job_id));
        lemma_mask_covers(rows@[k].unique_states, rows@[k].state);
        assert(rows@[k] == rows@[k]);
    }
}

/// A ready job with a key whose mask covers the available state is among the
/// claims of its batch, and every claim is such a job's.
pub proof fn law_ready_jobs_claim_their_keys(
    rows: Vec<RuntimeReadyInsert>,
    claims: Vec<KeyClaim>,
    i: int,
    c: int,
)
    requires
        call_ensures(ready_enqueue_claims, (&rows,), claims),
    ensures
        0 <= i < rows@.len() && rows@[i].unique_key is Some && mask_covers(
            rows@[i].unique_states,
            JobState::Available,
        ) ==> exists|k: int|
            0 <= k < claims@.len() && (#[trigger] claims@[k]).key@ == rows@[i].unique_key->0@
                && claims@[k].job_id == rows@[i].job_id,
        0 <= c < claims@.len() ==> exists|k: int|
            #![trigger rows@[k]]
            0 <= k < rows@.len() && mask_covers(rows@[k].unique_states, JobState::Available)
                && rows@[k].unique_key is Some && rows@[k].unique_key->0@ == claims@[c].key@
                && rows@[k].job_id == claims@[c].job_id,
{
    let claimants = unique::ready_claimants(rows@);
    let views = unique::claim_views(claims@);
    if 0 <= i < rows@.len() && rows@[i].unique_key is Some && mask_covers(
        rows@[i].unique_states,
        JobState::Available,
    ) {
        lemma_mask_covers(rows@[i].unique_states, JobState::Available);
        lemma_claimant_is_listed(claimants, i);
        let pair = (claimants[i].key->0, claimants[i].job_id);
        let k = choose|k: int| 0 <= k < views.len() && views[k] == pair;
        assert(views[k] == (claims@[k].key@, claims@[k].job_id));
    }
    if 0 <= c < claims@.len() {
        lemma_listed_is_claimant(claimants, c);
        let k = choose|k: int|
            0 <= k < claimants.len() && (#[trigger] claimants[k]).claims && claimants[k].key is Some
                && (claimants[k].key->0, claimants[k].job_id) == unique::batch_claims(claimants)[c];
        assert(views[c] == (claims@[c].key@, claims@[c].job_id));
        lemma_mask_covers(rows@[k].unique_states, JobState::Available);
        assert(rows@[k] == rows@[k]);
    }
}

proof fn lemma_ready_behind(ready: Seq<ReadySnapshotRow>, deleted: DeletedLeaseRow)
    ensures
        match hydrate::ready_behind(ready, deleted) {
            Some(found) => exists|r: int|
                0 <= r < ready.len() && #[trigger] ready[r] == found && hydrate::leased_from(
                    deleted,
                    found,
                ),
            None => forall|r: int|
                0 <= r < ready.len() ==> !hydrate::leased_from(deleted, #[trigger] ready[r]),
        },
    decreases ready.len(),
{
    if ready.len() > 0 {
        let rest = ready.drop_last();
        lemma_ready_behind(rest, deleted);
        assert(ready[ready.len() - 1] == ready.last());
        if !hydrate::leased_from(deleted, ready.last()) {
            match hydrate::ready_behind(rest, deleted) {
                Some(found) => {
                    let r = choose|r: int| 0 <= r < rest.len() && #[trigger] rest[r] == found;
                    assert(ready[r] == found);
                },
                None => {
                    assert forall|r: int| 0 <= r < ready.len() implies !hydrate::leased_from(
                        deleted,
                        #[trigger] ready[r],
                    ) by {
                        if r < rest.len() {
                            assert(rest[r] == ready[r]);
                        }
                    }
                },
            }
        }
    }
}

proof fn lemma_progress_is_of_the_attempt(
    attempts: Seq<AttemptStateRow>,
    job_id: i64,
    run_lease: i64,
    a: int,
)
    requires
        0 <= a < attempts.len(),
        attempts[a].job_id == job_id && attempts[a].run_lease == run_lease,
        forall|b: int|
            a < b < attempts.len() ==> !((#[trigger] attempts[b]).job_id == job_id
                && attempts[b].run_lease == run_lease),
    ensures
        hydrate::reported_progress(attempts, job_id, run_lease) == attempts[a].progress,
    decreases attempts.len(),
{
    if a < attempts.len() - 1 {
        let rest = attempts.drop_last();
        assert(attempts[attempts.len() - 1] == attempts.last());
        assert(rest[a] == attempts[a]);
        lemma_progress_is_of_the_attempt(rest, job_id, run_lease, a);
    }
}

proof fn lemma_no_progress(attempts: Seq<AttemptStateRow>, job_id: i64, run_lease: i64)
    requires
        forall|b: int|
            0 <= b < attempts.len() ==> !((#[trigger] attempts[b]).job_id == job_id
                && attempts[b].run_lease == run_lease),
    ensures
        hydrate::reported_progress(attempts, job_id, run_lease) is None,
    decreases attempts.len(),
{
    if attempts.len() > 0 {
        assert(attempts[attempts.len() - 1] == attempts.last());
        lemma_no_progress(attempts.drop_last(), job_id, run_lease);
    }
}

/// An attempt that has left the lease plane is put together from its lease and
/// from the ready row on the very place that the lease was taken on: the job from
/// there, the attempt from the lease.
pub proof fn law_attempt_is_put_together(
    deleted: Vec<DeletedLeaseRow>,
    ready: Vec<ReadySnapshotRow>,
    attempts: Vec<AttemptStateRow>,
    rows: Vec<LeaseTransitionRow>,
    i: int,
)
    requires
        call_ensures(hydrate_deleted_leases, (deleted, &ready, &attempts), Ok(rows)),
        0 <= i < deleted@.len(),
    ensures
        rows@.len() == deleted@.len(),
        rows@[i].job_id == deleted@[i].job_id,
        rows@[i].run_lease == deleted@[i].run_lease,
        rows@[i].attempt == deleted@[i].attempt,
        rows@[i].max_attempts == deleted@[i].max_attempts,
        rows@[i].priority == deleted@[i].priority,
        rows@[i].state == deleted@[i].state,
        rows@[i].attempted_at == deleted@[i].attempted_at,
        rows@[i].queue@ == deleted@[i].queue@,
        keeping::place(
            rows@[i].ready_slot,
            rows@[i].ready_generation,
            rows@[i].lane_seq,
            rows@[i].enqueue_shard,
        ) == keeping::place(
            deleted@[i].ready_slot,
            deleted@[i].ready_generation,
            deleted@[i].lane_seq,
            deleted@[i].enqueue_shard,
        ),
        exists|r: int|
            #![trigger ready@[r]]
            0 <= r < ready@.len() && ready@[r].job_id == deleted@[i].job_id && keeping::place(
                ready@[r].ready_slot,
                ready@[r].ready_generation,
                ready@[r].lane_seq,
                ready@[r].enqueue_shard,
            ) == keeping::place(
                deleted@[i].ready_slot,
                deleted@[i].ready_generation,
                deleted@[i].lane_seq,
                deleted@[i].enqueue_shard,
            ) && ready@[r].queue@ == deleted@[i].queue@ && rows@[i].kind@ == ready@[r].kind@
                && rows@[i].args == ready@[r].args && rows@[i].run_at == ready@[r].run_at
                && rows@[i].created_at == ready@[r].created_at && rows@[i].payload
                == ready@[r].payload && keeping::bytes_of(rows@[i].unique_key)
                == keeping::bytes_of(ready@[r].unique_key) && keeping::chars_of(
                rows@[i].unique_states,
            ) == keeping::chars_of(ready@[r].unique_states),
{
    assert(rows@[i] == rows@[i]);
    lemma_ready_behind(ready@, deleted@[i]);
    let found = hydrate::ready_behind(ready@, deleted@[i])->0;
    let r = choose|r: int| 0 <= r < ready@.len() && #[trigger] ready@[r] == found;
    assert(ready@[r] == found);
}

/// The progress of an attempt that is put together is what its own state says
/// last, and none where it has no state: that of another attempt never counts.
pub proof fn law_attempt_has_its_own_progress(
    deleted: Vec<DeletedLeaseRow>,
    ready: Vec<ReadySnapshotRow>,
    attempts: Vec<AttemptStateRow>,
    rows: Vec<LeaseTransitionRow>,
    i: int,
    a: int,
)
    requires
        call_ensures(hydrate_deleted_leases, (deleted, &ready, &attempts), Ok(rows)),
        0 <= i < deleted@.len(),
    ensures
        0 <= a < attempts@.len() && attempts@[a].job_id == deleted@[i].job_id
            && attempts@[a].run_lease == deleted@[i].run_lease && (forall|b: int|
            a < b < attempts@.len() ==> !((#[trigger] attempts@[b]).job_id == deleted@[i].job_id
                && attempts@[b].run_lease == deleted@[i].run_lease)) ==> rows@[i].progress
            == attempts@[a].progress,
        (forall|b: int|
            0 <= b < attempts@.len() ==> !((#[trigger] attempts@[b]).job_id == deleted@[i].job_id
                && attempts@[b].run_lease == deleted@[i].run_lease)) ==> rows@[i].progress is None,
{
    assert(rows@[i] == rows@[i]);
    let job_id = deleted@[i].job_id;
    let run_lease = deleted@[i].run_lease;
    if 0 <= a < attempts@.len() && attempts@[a].job_id == job_id && attempts@[a].run_lease
        == run_lease && (forall|b: int|
        a < b < attempts@.len() ==> !((#[trigger] attempts@[b]).job_id == job_id
            && attempts@[b].run_lease == run_lease)) {
        lemma_progress_is_of_the_attempt(attempts@, job_id, run_lease, a);
    }
    if forall|b: int|
        0 <= b < attempts@.len() ==> !((#[trigger] attempts@[b]).job_id == job_id
            && attempts@[b].run_lease == run_lease) {
        lemma_no_progress(attempts@, job_id, run_lease);
    }
}

/// A promoted job is the deferred job, due now: its attempts go on from where they
/// were, and its payload is untouched.
pub proof fn law_promotion_keeps_the_job(
    rows: Vec<DeferredJobRow>,
    now: Timestamp,
    out: Vec<ExistingReadyRow>,
    i: int,
)
    requires
        call_ensures(promote_rows, (rows, now), out),
        0 <= i < rows@.len(),
    ensures
        out@.len() == rows@.len(),
        out@[i].essence() == (JobEssence { run_at: now, ..rows@[i].essence() }),
        out@[i].payload == rows@[i].payload,
{
}

/// `after` is the metadata of `before`, with a reserved name added at most: it has
/// every entry that was there, and none but those and the two reserved ones.
pub open spec fn keeps_metadata(before: JsonNode, after: JsonNode) -> bool {
    &&& after is Object
    &&& forall|name: Seq<char>| #[trigger]
        before->Object_0.dom().contains(name) ==> after->Object_0.dom().contains(name)
            && after->Object_0[name] == before->Object_0[name]
    &&& forall|name: Seq<char>| #[trigger]
        after->Object_0.dom().contains(name) ==> before->Object_0.dom().contains(name) || name
            == "_awa_original_queue"@ || name == "_awa_original_priority"@
}

proof fn lemma_origin(
    base: PayloadView,
    queue: Option<Seq<char>>,
    priority: Option<i16>,
    out: Value,
)
    requires
        base.metadata is Object,
        !keeping::is_nothing(base.progress) || base.progress is None,
        moves::moves_payload(base, queue, priority, out),
    ensures
        payload::payload_readable(out),
        payload::payload_of(out).errors == base.errors,
        payload::payload_of(out).tags == base.tags,
        payload::payload_of(out).progress == base.progress,
        keeps_metadata(base.metadata, payload::payload_of(out).metadata),
        ({
            let before = base.metadata->Object_0;
            let after = payload::payload_of(out).metadata->Object_0;
            &&& queue matches Some(name) ==> after.dom().contains("_awa_original_queue"@) && (
            !before.dom().contains("_awa_original_queue"@) ==> json::node(
                after["_awa_original_queue"@],
            ) == JsonNode::Text(name))
            &&& queue is None ==> after.dom().contains("_awa_original_queue"@)
                == before.dom().contains("_awa_original_queue"@)
            &&& priority matches Some(p) ==> after.dom().contains("_awa_original_priority"@) && (
            !before.dom().contains("_awa_original_priority"@) ==> json::node(
                after["_awa_original_priority"@],
            ) == JsonNode::Int(p as int))
            &&& priority is None ==> after.dom().contains("_awa_original_priority"@)
                == before.dom().contains("_awa_original_priority"@)
        }),
{
    reveal_strlit("_awa_original_queue");
    reveal_strlit("_awa_original_priority");
    assert("_awa_original_queue"@.len() == 19 && "_awa_original_priority"@.len() == 22);
    let metadata = choose|metadata: JsonNode| #[trigger]
        moves::origin_noted(base.metadata, queue, priority, metadata) && payload::payload_writes(
            base.with_metadata(metadata),
            out,
        );
    payload::law_payload_round_trip(base.with_metadata(metadata), out);
}

/// A job that ages goes up by exactly one priority and is otherwise the same job,
/// with its whole record; where it first came from is noted once and for all.
pub proof fn law_aging_raises_by_one(
    rows: Vec<ReadyTransitionRow>,
    aged: Vec<ExistingReadyRow>,
    i: int,
)
    requires
        call_ensures(age_rows, (rows,), Ok(aged)),
        0 <= i < rows@.len(),
        rows@[i].priority > i16::MIN,
    ensures
        aged@.len() == rows@.len(),
        aged@[i].priority + 1 == rows@[i].priority,
        aged@[i].essence() == (JobEssence { priority: aged@[i].priority, ..rows@[i].essence() }),
        ({
            let before = payload::payload_of(rows@[i].payload);
            let after = payload::payload_of(aged@[i].payload);
            &&& payload::payload_readable(aged@[i].payload)
            &&& after.errors == before.errors
            &&& after.tags == before.tags
            &&& after.progress == before.progress
            &&& keeps_metadata(before.metadata, after.metadata)
            &&& after.metadata->Object_0.dom().contains("_awa_original_priority"@)
            &&& !before.metadata->Object_0.dom().contains("_awa_original_priority"@)
                ==> json::node(after.metadata->Object_0["_awa_original_priority"@])
                == JsonNode::Int(rows@[i].priority as int)
        }),
{
    assert(moves::ages(rows@[i], aged@[i]));
    lemma_origin(
        payload::payload_of(rows@[i].payload),
        None,
        Some(rows@[i].priority),
        aged@[i].payload,
    );
}

/// A moved job goes where it was asked to go: to the priority that was given, to
/// the queue that was given, and else it stays. What it has recorded goes with it,
/// and where it first came from is noted once and for all.
pub proof fn law_move_goes_where_asked(
    storage: QueueStorage,
    waiting: Waiting,
    payload: Value,
    queue: Option<&str>,
    priority: Option<i16>,
    hash: Option<u64>,
    to: Relocation,
)
    requires
        call_ensures(
            QueueStorage::plan_move_for_hash,
            (&storage, &waiting, payload, queue, priority, hash),
            Ok(Some(to)),
        ),
    ensures
        goes_where_asked(storage, waiting, payload, queue, priority, to),
{
    lemma_move(storage, waiting, payload, queue, priority, hash, to);
}

/// The move of a job with a unique key goes where it was asked to go, too.
pub proof fn law_keyed_move_goes_where_asked(
    storage: QueueStorage,
    waiting: Waiting,
    payload: Value,
    queue: Option<&str>,
    priority: Option<i16>,
    to: Relocation,
)
    requires
        call_ensures(
            QueueStorage::plan_move,
            (&storage, &waiting, payload, queue, priority),
            Ok(Some(to)),
        ),
    ensures
        goes_where_asked(storage, waiting, payload, queue, priority, to),
{
    let moved: Result<Option<Relocation>, AwaError> = Ok(Some(to));
    let hash = choose|hash: Option<u64>|
        (hash is Some == *waiting.unique_key is Some) && #[trigger] storage.plans_move(
            waiting,
            payload,
            queue,
            priority,
            hash,
            moved,
        );
    lemma_move(storage, waiting, payload, queue, priority, hash, to);
}

pub open spec fn goes_where_asked(
    storage: QueueStorage,
    waiting: Waiting,
    payload: Value,
    queue: Option<&str>,
    priority: Option<i16>,
    to: Relocation,
) -> bool {
    let before = payload::payload_of(payload);
    let after = payload::payload_of(to.payload);
    let own = queue matches Some(name) && (name@ == waiting.queue@ || name@ == storage.logical(
        waiting.queue@,
    ));
    &&& priority matches Some(p) ==> to.priority == p
    &&& priority is None ==> to.priority == waiting.priority
    &&& queue is None || own ==> to.queue@ == waiting.queue@
    &&& queue is Some && !own ==> storage.logical(to.queue@) == storage.logical((queue->0)@)
    &&& to.queue@ != waiting.queue@ || to.priority != waiting.priority
    &&& payload::payload_readable(to.payload)
    &&& after.errors == before.errors
    &&& after.tags == before.tags
    &&& after.progress == before.progress
    &&& keeps_metadata(before.metadata, after.metadata)
    &&& queue is Some ==> after.metadata->Object_0.dom().contains("_awa_original_queue"@)
    &&& queue is Some && !before.metadata->Object_0.dom().contains("_awa_original_queue"@)
        ==> json::node(after.metadata->Object_0["_awa_original_queue"@]) == JsonNode::Text(
        storage.logical(waiting.queue@),
    )
    &&& priority is Some ==> after.metadata->Object_0.dom().contains("_awa_original_priority"@)
    &&& priority is Some && !before.metadata->Object_0.dom().contains("_awa_original_priority"@)
        ==> json::node(after.metadata->Object_0["_awa_original_priority"@]) == JsonNode::Int(
        waiting.priority as int,
    )
}

proof fn lemma_move(
    storage: QueueStorage,
    waiting: Waiting,
    payload: Value,
    queue: Option<&str>,
    priority: Option<i16>,
    hash: Option<u64>,
    to: Relocation,
)
    requires
        storage.plans_move(waiting, payload, queue, priority, hash, Ok(Some(to))),
    ensures
        goes_where_asked(storage, waiting, payload, queue, priority, to),
{
    if queue is Some {
        keeping::lemma_stripe_is_of_the_queue(&storage, (queue->0)@, hash, waiting.job_id);
    }
    lemma_origin(
        payload::payload_of(payload),
        if queue is Some {
            Some(storage.logical(waiting.queue@))
        } else {
            None
        },
        if priority is Some {
            Some(waiting.priority)
        } else {
            None
        },
        to.payload,
    );
}

/// A job that is retried from a terminal state is the same job as if it had never
/// been attempted: due now, with its whole record.
pub proof fn law_terminal_retry_keeps_the_job(
    row: DoneJobRow,
    now: Timestamp,
    ready: ExistingReadyRow,
)
    requires
        call_ensures(retry_terminal, (row, now), ready),
    ensures
        ready.essence() == (JobEssence {
            attempt: 0,
            run_at: now,
            attempted_at: None,
            ..row.essence()
        }),
        ready.payload == row.payload,
{
}

/// A retry puts the job that was found back on the ready plane: a parked attempt
/// before any terminal row, and with the state that it leaves.
pub proof fn law_retry_requeues_what_was_found(
    reply: RetryReply,
    now: Timestamp,
    step: RetryStep,
)
    requires
        call_ensures(retry_step, (reply, now), step),
    ensures
        reply matches RetryReply::Parked(None) ==> step is AskTerminal,
        reply matches RetryReply::Terminal(None) ==> step is NotFound,
        (reply matches RetryReply::Terminal(Some(row)) ==> (step matches RetryStep::Requeue {
            ready,
            old_state,
            terminal_removed,
        } && old_state == row.state && terminal_removed && ready.payload == row.payload
            && ready.essence() == (JobEssence {
            attempt: 0,
            run_at: now,
            attempted_at: None,
            ..row.essence()
        }))),
        (reply matches RetryReply::Parked(Some(row)) ==> (step matches RetryStep::Requeue {
            ready,
            old_state,
            terminal_removed,
        } ==> old_state == row.state && !terminal_removed && keeping::keeps_record(
            row.payload,
            ready.payload,
        ) && payload::payload_of(ready.payload).progress == keeping::found_progress(row)
            && keeping::is_restarted(row, now, None, ready))),
        (reply matches RetryReply::Parked(Some(row)) ==> step is Requeue || step is Failed),
{
    if let RetryReply::Parked(Some(row)) = reply {
        if let RetryStep::Requeue { ready, old_state, terminal_removed } = step {
            keeping::lemma_record_is_kept(row.payload, row.abandoned(), ready.payload);
        }
    }
}

/// A failed job is buried as it is, with the reason and the time, and with the
/// lease under which it failed.
pub proof fn law_burial_keeps_the_job(
    rows: Vec<DoneJobRow>,
    reason: &str,
    at: Timestamp,
    dead: Vec<DlqJobRow>,
    i: int,
)
    requires
        call_ensures(bury_failed, (rows, reason, at), dead),
        0 <= i < rows@.len(),
    ensures
        dead@.len() == rows@.len(),
        dead@[i].essence() == rows@[i].essence(),
        dead@[i].state == rows@[i].state,
        dead@[i].finalized_at == rows@[i].finalized_at,
        dead@[i].payload == rows@[i].payload,
        dead@[i].original_run_lease == rows@[i].run_lease,
        dead@[i].dlq_reason@ == reason@,
        dead@[i].dlq_at == at,
{
    assert(dead@[i] == dead@[i]);
}

/// `revived` is the dead job, revived from `run_at` on: the same job with its
/// attempts counted afresh, and with its record but its progress.
pub open spec fn is_revived(dead: DlqJobRow, essence: JobEssence, stored: Value) -> bool {
    &&& essence == (JobEssence {
        queue: essence.queue,
        priority: essence.priority,
        run_at: essence.run_at,
        attempt: 0,
        attempted_at: None,
        ..dead.essence()
    })
    &&& keeping::keeps_record(dead.payload, stored)
    &&& payload::payload_of(stored).progress is None
}

/// A job that is revived from the dead-letter queue is the same job with its
/// attempts counted afresh. It goes to the queue and the priority that are asked
/// for, or to its own; it waits until a time that lies ahead, and else it is due
/// now.
pub proof fn law_revival_keeps_the_job(
    dead: DlqJobRow,
    opts: RetryFromDlqOpts,
    now: Timestamp,
    revived: Revived,
)
    requires
        call_ensures(retry_from_dlq, (dead, &opts, now), Ok(revived)),
    ensures
        ({
            let (essence, stored) = match revived {
                Revived::Ready(ready) => (ready.essence(), ready.payload),
                Revived::Scheduled(deferred) => (deferred.essence(), deferred.payload),
            };
            &&& is_revived(dead, essence, stored)
            &&& opts.queue matches Some(queue) ==> essence.queue == queue@
            &&& opts.queue is None ==> essence.queue == dead.queue@
            &&& opts.priority matches Some(priority) ==> essence.priority == priority
            &&& opts.priority is None ==> essence.priority == dead.priority
            &&& revived is Ready ==> essence.run_at == now
            &&& revived is Scheduled ==> Some(essence.run_at) == opts.run_at
            &&& revived is Scheduled <==> (opts.run_at matches Some(at) && (at.secs > now.secs || (
            at.secs == now.secs && at.nanos > now.nanos)))
        }),
        revived matches Revived::Scheduled(deferred) ==> deferred.state is Scheduled
            && deferred.finalized_at is None,
{
    let base = payload::payload_of(dead.payload).with_progress(None);
    match revived {
        Revived::Ready(ready) => keeping::lemma_record_is_kept(dead.payload, base, ready.payload),
        Revived::Scheduled(deferred) => keeping::lemma_record_is_kept(
            dead.payload,
            base,
            deferred.payload,
        ),
    }
}

/// Jobs that are revived together come back each on its own lane, due now.
pub proof fn law_bulk_revival_keeps_the_jobs(
    dead: Vec<DlqJobRow>,
    now: Timestamp,
    ready: Vec<ExistingReadyRow>,
    i: int,
)
    requires
        call_ensures(bulk_retry_from_dlq, (dead, now), Ok(ready)),
        0 <= i < dead@.len(),
    ensures
        ready@.len() == dead@.len(),
        is_revived(dead@[i], ready@[i].essence(), ready@[i].payload),
        ready@[i].queue@ == dead@[i].queue@,
        ready@[i].priority == dead@[i].priority,
        ready@[i].run_at == now,
{
    assert(ready@[i] == ready@[i]);
    let base = payload::payload_of(dead@[i].payload).with_progress(None);
    keeping::lemma_record_is_kept(dead@[i].payload, base, ready@[i].payload);
}

/// `c` ends a job: cancelled now, under the state that it leaves.
pub open spec fn cancels_now(c: Cancellation, now: Timestamp, left: JobState) -> bool {
    c.done.state is Cancelled && c.done.finalized_at == now && c.old_state == left
}

/// A job that is cancelled on the ready plane is cancelled as it stands, and its
/// lane's cursor steps over it and over nothing else.
pub proof fn law_ready_job_is_cancelled(
    row: ReadyTransitionRow,
    now: Timestamp,
    c: Cancellation,
)
    requires
        call_ensures(cancel_ready, (row, now), c),
        row.lane_seq < i64::MAX,
    ensures
        cancels_now(c, now, JobState::Available),
        c.done.essence() == row.essence(),
        c.done.payload == row.payload,
        keeping::place(
            c.done.ready_slot,
            c.done.ready_generation,
            c.done.lane_seq,
            c.done.enqueue_shard,
        ) == keeping::place(
            row.ready_slot,
            row.ready_generation,
            row.lane_seq,
            row.enqueue_shard,
        ),
        c.closure is Nothing,
        c.wake is None,
        c.sweep is None,
        c.advance matches Some(advance) && advance.queue@ == row.queue@ && advance.priority
            == row.priority && advance.enqueue_shard == row.enqueue_shard && advance.next_seq
            == row.lane_seq + 1 && advance.only_if_current == Some(row.lane_seq),
{
}

/// An attempt that is cancelled on its lease keeps its record and its progress;
/// its receipt is closed and its worker is woken.
pub proof fn law_leased_job_is_cancelled(
    row: LeaseTransitionRow,
    now: Timestamp,
    c: Cancellation,
)
    requires
        call_ensures(cancel_lease, (row, now), Ok(c)),
    ensures
        cancels_now(c, now, row.state),
        keeping::is_ended(row, JobState::Cancelled, now, c.done),
        keeping::keeps_record(row.payload, c.done.payload),
        payload::payload_of(c.done.payload).progress == keeping::found_progress(row),
        c.closure matches ReceiptClosure::Attempt { job_id, run_lease } && job_id == row.job_id
            && run_lease == row.run_lease,
        c.wake == Some((row.job_id, row.run_lease)),
        c.sweep is None,
        c.advance is None,
{
    keeping::lemma_record_is_kept(row.payload, row.abandoned(), c.done.payload);
}

/// An attempt that is cancelled on its receipt is the job of the ready row behind
/// it, in the attempt of the receipt: that receipt is closed, where it lies, and
/// its worker is woken.
pub proof fn law_received_job_is_cancelled(
    job_id: i64,
    receipt: OpenReceipt,
    row: ReadyTransitionRow,
    now: Timestamp,
    c: Cancellation,
)
    requires
        call_ensures(cancel_receipt, (job_id, receipt, Some(row), now), Some(c)),
    ensures
        cancels_now(c, now, JobState::Running),
        c.done.essence() == (JobEssence {
            job_id,
            queue: receipt.queue@,
            priority: receipt.priority,
            attempt: receipt.attempt,
            run_lease: receipt.run_lease,
            max_attempts: receipt.max_attempts,
            attempted_at: Some(receipt.claimed_at),
            ..row.essence()
        }),
        c.done.payload == row.payload,
        keeping::place(
            c.done.ready_slot,
            c.done.ready_generation,
            c.done.lane_seq,
            c.done.enqueue_shard,
        ) == keeping::place(
            receipt.ready_slot,
            receipt.ready_generation,
            receipt.lane_seq,
            row.enqueue_shard,
        ),
        !receipt.compact_batch ==> (c.closure matches ReceiptClosure::Row {
            claim_slot,
            job_id: id,
            run_lease,
        } && claim_slot == receipt.claim_slot && id == job_id && run_lease == receipt.run_lease),
        receipt.compact_batch ==> (c.closure matches ReceiptClosure::Batch {
            claim_slot,
            ready_slot,
            ready_generation,
            receipt_id,
        } && claim_slot == receipt.claim_slot && ready_slot == receipt.ready_slot
            && ready_generation == receipt.ready_generation && receipt_id == receipt.receipt_id),
        c.wake == Some((job_id, receipt.run_lease)),
        c.sweep == Some((job_id, receipt.run_lease)),
        c.advance is None,
{
}

/// A deferred job that is cancelled is cancelled as it stands; its row is parked
/// where no claimed row can be.
pub proof fn law_deferred_job_is_cancelled(
    row: DeferredJobRow,
    slot: i32,
    generation: i64,
    now: Timestamp,
    c: Cancellation,
)
    requires
        call_ensures(cancel_deferred, (row, slot, generation, now), c),
        row.job_id > i64::MIN,
    ensures
        cancels_now(c, now, row.state),
        c.done.essence() == row.essence(),
        c.done.payload == row.payload,
        c.done.ready_slot == slot,
        c.done.ready_generation == generation,
        c.done.lane_seq + row.job_id == 0,
        c.done.enqueue_shard == 0,
        c.closure is Nothing,
        c.wake is None,
        c.sweep is None,
        c.advance is None,
{
}

/// The place of the job to cancel is searched in order, ready plane, leases,
/// receipts where they are in use, and schedule; the first that holds the job
/// decides, and what is cancelled is the job that was found there.
pub proof fn law_first_place_decides(
    search: CancelSearch,
    reply: CancelReply,
    now: Timestamp,
    step: CancelStep,
)
    requires
        call_ensures(CancelSearch::step, (search, reply, now), step),
        search.fits(reply),
    ensures
        reply matches CancelReply::Ready(None) ==> (step matches CancelStep::Ask(next)
            && next.stage is Lease && next.job_id == search.job_id && next.receipts
            == search.receipts),
        reply matches CancelReply::Lease(None) ==> (step matches CancelStep::Ask(next)
            && next.job_id == search.job_id && next.receipts == search.receipts && (
        if search.receipts {
            next.stage is Receipt
        } else {
            next.stage is Deferred
        })),
        reply matches CancelReply::Receipt(None) ==> (step matches CancelStep::Ask(next)
            && next.stage is Deferred && next.job_id == search.job_id && next.receipts
            == search.receipts),
        reply matches CancelReply::Receipt(Some(open)) ==> (step matches CancelStep::Ask(next)
            && next.job_id == search.job_id && next.receipts == search.receipts && (next.stage
            matches CancelStage::Behind { receipt } && receipt == open)),
        reply matches CancelReply::Behind(None) ==> step is NotFound,
        reply matches CancelReply::Deferred(None) ==> step is NotFound,
        reply matches CancelReply::Ready(Some(row)) ==> (step matches CancelStep::Cancel(c)
            && cancels_now(c, now, JobState::Available) && c.done.essence() == row.essence()
            && c.done.payload == row.payload),
        reply matches CancelReply::Lease(Some(row)) ==> (step matches CancelStep::Cancel(c)
            ==> cancels_now(c, now, row.state) && c.done.essence() == row.essence()
            && keeping::keeps_record(row.payload, c.done.payload)),
        reply matches CancelReply::Lease(Some(row)) ==> step is Cancel || step is Failed,
        reply matches CancelReply::Behind(Some(row)) ==> (step matches CancelStep::Cancel(c)
            && cancels_now(c, now, JobState::Running) && c.done.job_id == search.job_id
            && c.done.kind@ == row.kind@ && c.done.args == row.args && c.done.payload
            == row.payload && c.done.run_lease == search.stage->receipt.run_lease),
        reply matches CancelReply::Deferred(Some((row, slot, generation))) ==> (step matches
            CancelStep::Cancel(c) && cancels_now(c, now, row.state) && c.done.essence()
            == row.essence() && c.done.payload == row.payload),
{
    if let CancelReply::Lease(Some(row)) = reply {
        if let CancelStep::Cancel(c) = step {
            keeping::lemma_record_is_kept(row.payload, row.abandoned(), c.done.payload);
        }
    }
}

/// A search begins on the ready plane.
pub proof fn law_search_begins_with_ready_rows(
    job_id: i64,
    receipts: bool,
    search: CancelSearch,
)
    requires
        call_ensures(CancelSearch::start, (job_id, receipts), search),
    ensures
        search.job_id == job_id,
        search.receipts == receipts,
        search.stage is Ready,
{
}

/// A ready row is shown as the available job that it is, with its whole record.
pub proof fn law_ready_row_is_shown(row: ReadyJobRow, job: JobRow)
    requires
        call_ensures(ReadyJobRow::into_job_row, (row,), Ok(job)),
    ensures
        job.essence() == (JobEssence { unique_states: None, ..row.essence() }),
        job.state == JobState::Available,
        job.finalized_at == None::<Timestamp>,
        job.shows_record(row.payload),
        job.progress == payload::payload_of(row.payload).progress,
        job.heartbeat_at is None,
        job.deadline_at is None,
        job.callback_id is None,
        job.callback_timeout_at is None,
{
    assert(job.history() =~= payload::payload_of(row.payload).errors);
}

/// A deferred row is shown as the waiting job that it is, with its whole record.
pub proof fn law_deferred_row_is_shown(row: DeferredJobRow, job: JobRow)
    requires
        call_ensures(DeferredJobRow::into_job_row, (row,), Ok(job)),
    ensures
        job.essence() == (JobEssence { unique_states: None, ..row.essence() }),
        job.state == row.state,
        job.finalized_at == row.finalized_at,
        job.shows_record(row.payload),
        job.progress == payload::payload_of(row.payload).progress,
        job.heartbeat_at is None,
        job.deadline_at is None,
        job.callback_id is None,
        job.callback_timeout_at is None,
{
    assert(job.history() =~= payload::payload_of(row.payload).errors);
}

/// A terminal row is shown as the job that ended, with its whole record.
pub proof fn law_terminal_row_is_shown(row: DoneJobRow, job: JobRow)
    requires
        call_ensures(DoneJobRow::into_job_row, (row,), Ok(job)),
    ensures
        job.essence() == (JobEssence { unique_states: None, ..row.essence() }),
        job.state == row.state,
        job.finalized_at == Some(row.finalized_at),
        job.shows_record(row.payload),
        job.progress == payload::payload_of(row.payload).progress,
        job.heartbeat_at is None,
        job.deadline_at is None,
        job.callback_id is None,
        job.callback_timeout_at is None,
{
    assert(job.history() =~= payload::payload_of(row.payload).errors);
}

/// A dead row is shown as the job that failed, with its whole record.
pub proof fn law_dead_row_is_shown(row: DlqJobRow, job: JobRow)
    requires
        call_ensures(DlqJobRow::into_job_row, (row,), Ok(job)),
    ensures
        job.essence() == (JobEssence { unique_states: None, ..row.essence() }),
        job.state == row.state,
        job.finalized_at == Some(row.finalized_at),
        job.shows_record(row.payload),
        job.progress == payload::payload_of(row.payload).progress,
        job.heartbeat_at is None,
        job.deadline_at is None,
        job.callback_id is None,
        job.callback_timeout_at is None,
{
    assert(job.history() =~= payload::payload_of(row.payload).errors);
}

/// A leased job is shown as the attempt that it is: with its record, with the
/// progress that was reported last or else the stored one, and with the callback
/// that it waits for. A result that a callback has delivered is shown in its
/// metadata.
pub proof fn law_leased_row_is_shown(row: LeaseJobRow, job: JobRow, name: Seq<char>)
    requires
        call_ensures(LeaseJobRow::into_job_row, (row,), Ok(job)),
    ensures
        job.essence() == (JobEssence { unique_states: None, ..row.essence() }),
        job.state == row.state,
        job.finalized_at == row.finalized_at,
        job.heartbeat_at == row.heartbeat_at,
        job.deadline_at == row.deadline_at,
        job.callback_id == row.callback_id,
        job.callback_timeout_at == row.callback_timeout_at,
        keeping::chars_of(job.callback_filter) == keeping::chars_of(row.callback_filter),
        keeping::chars_of(job.callback_on_complete) == keeping::chars_of(row.callback_on_complete),
        keeping::chars_of(job.callback_on_fail) == keeping::chars_of(row.callback_on_fail),
        keeping::chars_of(job.callback_transform) == keeping::chars_of(row.callback_transform),
        job.history() == payload::payload_of(row.payload).errors,
        payload::texts(job.tags@) == payload::payload_of(row.payload).tags,
        row.progress is Some ==> job.progress == row.progress,
        row.progress is None ==> job.progress == payload::payload_of(row.payload).progress,
        row.callback_result is None ==> json::node(job.metadata) == payload::payload_of(
            row.payload,
        ).metadata,
        row.callback_result matches Some(result) ==> ({
            let stored = payload::payload_of(row.payload).metadata->Object_0;
            let shown = json::node(job.metadata)->Object_0;
            &&& json::node(job.metadata) is Object
            &&& shown.dom().contains("_awa_callback_result"@)
            &&& shown["_awa_callback_result"@] == result
            &&& name != "_awa_callback_result"@ ==> shown.dom().contains(name)
                == stored.dom().contains(name)
            &&& name != "_awa_callback_result"@ && stored.dom().contains(name) ==> shown[name]
                == stored[name]
        }),
{
    let seen = choose|seen: PayloadView| #[trigger]
        payload::materialized(row.payload, row.progress, row.callback_result, seen) && job.shows(
            seen,
        );
    assert(job.history() =~= seen.errors);
}

/// The lease number of the attempt that a fact tells of.
pub open spec fn lease_of(fact: JobFact) -> i64 {
    match fact {
        JobFact::Ready(row) => row.run_lease,
        JobFact::Deferred(row) => row.run_lease,
        JobFact::Lease(row) => row.run_lease,
        JobFact::Done(row) => row.run_lease,
        JobFact::Dlq(row) => row.run_lease,
    }
}

/// What a fact says of its job.
pub open spec fn told_by(fact: JobFact) -> JobEssence {
    let essence = match fact {
        JobFact::Ready(row) => row.essence(),
        JobFact::Deferred(row) => row.essence(),
        JobFact::Lease(row) => row.essence(),
        JobFact::Done(row) => row.essence(),
        JobFact::Dlq(row) => row.essence(),
    };
    JobEssence { unique_states: None, ..essence }
}

/// A lookup finds a fact that is there, and none of the facts tells of a later
/// attempt. With no facts it finds nothing.
pub proof fn law_lookup_finds_the_latest_attempt(
    facts: Vec<JobFact>,
    found: Option<JobRow>,
    i: int,
)
    requires
        call_ensures(latest_job, (facts,), Ok(found)),
    ensures
        found is None <==> facts@.len() == 0,
        found matches Some(job) ==> exists|k: int|
            0 <= k < facts@.len() && told_by(#[trigger] facts@[k]) == job.essence(),
        found is Some && 0 <= i < facts@.len() ==> lease_of(facts@[i]) <= found->0.run_lease,
{
    if let Some(job) = found {
        let (jobs, k) = choose|jobs: Seq<JobRow>, k: int| #[trigger]
            lookup::shown_as(facts@, jobs) && #[trigger] lookup::is_latest(jobs, k) && jobs[k]
                == job;
        assert(facts@[k].becomes(jobs[k]));
        assert(told_by(facts@[k]) == job.essence());
        if 0 <= i < facts@.len() {
            assert(facts@[i].becomes(jobs[i]));
            assert(jobs[i].run_lease == lease_of(facts@[i]));
            if i != k && jobs[i].run_lease > job.run_lease {
                let a = jobs[i].recency();
                let b = jobs[k].recency();
                assert(a[0] > b[0]);
                assert(order::lex_lt(b, a));
                if i > k {
                    assert(order::lex_lt(a, b));
                }
            }
        }
    }
}

/// `insert` is the routed row under this id: the same job with the same payload.
pub open spec fn is_numbered(routed: RoutedRow, id: i64, insert: RuntimeReadyInsert) -> bool {
    let row = routed.row;
    &&& insert.essence() == (JobEssence {
        job_id: id,
        kind: row.kind@,
        queue: row.queue@,
        args: row.args,
        priority: row.priority,
        attempt: row.attempt,
        run_lease: row.run_lease,
        max_attempts: row.max_attempts,
        run_at: row.run_at,
        attempted_at: row.attempted_at,
        created_at: row.created_at,
        unique_key: keeping::bytes_of(row.unique_key),
        unique_states: keeping::chars_of(row.unique_states),
    })
    &&& insert.enqueue_shard == routed.enqueue_shard
    &&& insert.payload == row.payload
}

/// A planned batch has every routed row, in order, under the id of its place,
/// whether it is inserted or copied in.
pub proof fn law_plan_numbers_the_rows(
    routed: Vec<RoutedRow>,
    ids: Vec<i64>,
    plan: EnqueuePlan,
    i: int,
)
    requires
        call_ensures(plan_ready_rows, (routed, ids), Ok(plan)) || call_ensures(
            plan_ready_rows_copy,
            (routed, ids),
            Ok(plan),
        ),
        0 <= i < routed@.len(),
    ensures
        plan.rows@.len() == routed@.len(),
        routed@.len() <= ids@.len(),
        is_numbered(routed@[i], ids@[i], plan.rows@[i]),
{
    assert(plan.rows@[i] == placement::unplaced(routed@[i], ids@[i]));
}

/// Scheduled rows get their ids in order, and nothing else changes.
pub proof fn law_scheduled_rows_are_numbered(
    rows: Vec<DeferredJobRow>,
    ids: Vec<i64>,
    out: Vec<DeferredJobRow>,
    i: int,
)
    requires
        call_ensures(assign_job_ids, (rows, &ids), out),
        ids@.len() == rows@.len(),
        0 <= i < rows@.len(),
    ensures
        out@.len() == rows@.len(),
        out@[i].essence() == (JobEssence { job_id: ids@[i], ..rows@[i].essence() }),
        out@[i].state == rows@[i].state,
        out@[i].finalized_at == rows@[i].finalized_at,
        out@[i].payload == rows@[i].payload,
{
    assert(out@[i] == out@[i]);
}

/// Parting the ids of a batch loses and doubles none: the two parts together are
/// the ids.
pub proof fn law_ids_are_parted(
    ids: Vec<i64>,
    ready: usize,
    first: Vec<i64>,
    rest: Vec<i64>,
)
    requires
        call_ensures(split_job_ids, (&ids, ready), (first, rest)),
        ready <= ids@.len(),
    ensures
        first@ + rest@ == ids@,
        first@.len() == ready,
{
    assert(first@ + rest@ =~= ids@);
}

/// A job that is put back on the ready plane is placed as it is: a lane position
/// and a shard are all that it is given.
pub proof fn law_requeued_rows_are_placed(
    rows: Vec<ExistingReadyRow>,
    lanes: Vec<PlacedLane>,
    out: Vec<RuntimeReadyInsert>,
    i: int,
)
    requires
        call_ensures(place_existing_rows, (rows, &lanes), out),
        placement::lanes_chain(lanes@, rows@.len() as int),
        0 <= i < rows@.len(),
    ensures
        out@.len() == rows@.len(),
        out@[i].essence() == rows@[i].essence(),
        out@[i].payload == rows@[i].payload,
        exists|r: int|
            0 <= r < lanes@.len() && (#[trigger] lanes@[r]).lane.start <= i < lanes@[r].lane.end
                && out@[i].enqueue_shard == lanes@[r].enqueue_shard && out@[i].lane_seq
                == lanes@[r].start_seq + (i - lanes@[r].lane.start),
{
    assert(placement::placed_in(rows@, lanes@, i, out@[i]));
    let r = choose|r: int|
        0 <= r < lanes@.len() && (#[trigger] lanes@[r]).lane.start <= i < lanes@[r].lane.end
            && out@[i] == placement::requeued(
            rows@[i],
            lanes@[r].enqueue_shard,
            lanes@[r].start_seq + (i - lanes@[r].lane.start),
        );
    assert(lanes@[r].start_seq + (lanes@[r].lane.end - lanes@[r].lane.start) <= i64::MAX);
}

/// A claim reads this inserted row back: the same job with the same payload, on
/// the lane that it was inserted on. Attempt, lease and priority are the claim's.
pub open spec fn is_claim_of(insert: RuntimeReadyInsert, row: ReadyJobLeaseRow) -> bool {
    &&& row.essence() == (JobEssence {
        attempt: row.attempt,
        run_lease: row.run_lease,
        priority: row.priority,
        attempted_at: row.attempted_at,
        ..insert.essence()
    })
    &&& row.payload == insert.payload
    &&& row.lane_priority == insert.priority
    &&& row.enqueue_shard == insert.enqueue_shard
}

/// What is enqueued is what runs: a job that is taken in, numbered, inserted and
/// claimed comes out with the kind, the arguments, the unique key, the attempts,
/// the tags and the metadata that its producer gave, on the queue that it was
/// taken in on, with no error and no progress.
pub proof fn law_enqueued_job_is_what_runs(
    job: PreparedJob,
    queue: String,
    now: Timestamp,
    ready: RuntimeReadyRow,
    routed: Vec<RoutedRow>,
    ids: Vec<i64>,
    plan: EnqueuePlan,
    i: int,
    row: ReadyJobLeaseRow,
    running: JobRow,
)
    requires
        call_ensures(intake_row, (job, queue, now), Ok(IntakeRow::Ready(ready))),
        call_ensures(plan_ready_rows, (routed, ids), Ok(plan)),
        0 <= i < routed@.len(),
        routed@[i].row == ready,
        is_claim_of(plan.rows@[i], row),
        call_ensures(ReadyJobLeaseRow::into_job_row, (row,), Ok(running)),
    ensures
        running.id == ids@[i],
        running.kind@ == job.kind@,
        running.queue@ == queue@,
        running.args == job.args,
        running.max_attempts == job.max_attempts,
        running.created_at == now,
        keeping::bytes_of(running.unique_key) == keeping::bytes_of(job.unique_key),
        payload::texts(running.tags@) == payload::texts(job.tags@),
        running.history() == Seq::<Value>::empty(),
        running.progress is None,
        running.state is Running,
        row.priority >= job.priority ==> json::node(running.metadata) == json::node(job.metadata),
{
    law_plan_numbers_the_rows(routed, ids, plan, i);
    keeping::law_intake_keeps_the_job(job, queue, now, IntakeRow::Ready(ready));
    keeping::law_claim_hands_out_the_row(row, running);
    keeping::law_claim_notes_the_lane(row, running, job.kind@);
    let stored = row.payload;
    let read = payload::payload_of(stored);
    assert(stored == ready.payload);
    assert(read.tags =~= payload::texts(job.tags@)) by {
        assert forall|k: int| 0 <= k < read.tags.len() implies read.tags[k] == payload::texts(
            job.tags@,
        )[k] by {
            assert(json::node(keeping::items(keeping::entry(stored, "tags"@))[k])
                == JsonNode::Text(job.tags@[k]@));
        }
    }
    assert(read.errors =~= Seq::<Value>::empty());
}

/// A priority is one of four.
pub proof fn law_priorities_are_four(priority: i16, checked: Result<(), AwaError>)
    requires
        call_ensures(check_priority, (priority,), checked),
    ensures
        checked is Ok <==> priority == 1 || priority == 2 || priority == 3 || priority == 4,
        checked matches Err(err) ==> err is Validation,
{
}

/// A job may move to a queue with a name of at most two hundred bytes and, where it
/// changes its priority, to one of the four.
pub proof fn law_moves_need_a_destination(
    queue: &str,
    priority: Option<i16>,
    checked: Result<(), AwaError>,
)
    requires
        call_ensures(check_move, (queue, priority), checked),
    ensures
        checked is Ok <==> 1 <= vstd::utf8::encode_utf8(queue@).len() <= 200 && (priority is None
            || 1 <= priority->0 <= 4),
        checked matches Err(err) ==> err is Validation,
{
}

/// A job has aged once it has waited for the interval; without a limit none has.
pub proof fn law_jobs_age_by_the_interval(
    now: Timestamp,
    interval: Span,
    limit: i64,
    cutoff: Result<Option<Timestamp>, AwaError>,
)
    requires
        now.valid(),
        now.nanos < 1_000_000_000,
        interval.wf(),
        limit > 0 && interval.representable() ==> clock::reaches_before(now, interval),
        call_ensures(aging_cutoff, (now, interval, limit), cutoff),
    ensures
        limit <= 0 <==> cutoff is Ok && cutoff->Ok_0 is None,
        cutoff is Ok && cutoff->Ok_0 is Some ==> {
            let at = cutoff->Ok_0->0;
            (at.secs as int + interval.secs as int) * 1_000_000_000 + at.nanos as int
                + interval.nanos as int == now.secs as int * 1_000_000_000 + now.nanos as int
        },
        cutoff matches Err(err) ==> err is Validation,
{
}

/// Only jobs that are put off are promoted, and only where some are asked for.
pub proof fn law_only_put_off_jobs_are_promoted(state: JobState, batch_size: i64, goes: bool)
    requires
        call_ensures(promotes, (state, batch_size), goes),
    ensures
        goes <==> batch_size > 0 && (state == JobState::Scheduled || state == JobState::Retryable),
{
}

/// The attempts of deleted leases are named in their order.
pub proof fn law_lease_pairs_name_the_attempts(
    deleted: Vec<DeletedLeaseRow>,
    pairs: Vec<(i64, i64)>,
    i: int,
)
    requires
        call_ensures(lease_pairs, (&deleted,), pairs),
        0 <= i < deleted@.len(),
    ensures
        pairs@.len() == deleted@.len(),
        pairs@[i].0 == deleted@[i].job_id,
        pairs@[i].1 == deleted@[i].run_lease,
{
}

/// A key is claimed exactly where its row was written; claims are applied exactly
/// where all that were asked for were; else the jobs' keys conflict.
pub proof fn law_claims_are_applied_or_conflict(
    rows_affected: u64,
    acquired: Result<(), AwaError>,
    requested: i64,
    applied: i64,
    settled: Result<(), AwaError>,
)
    requires
        call_ensures(check_claim_acquired, (rows_affected,), acquired),
        call_ensures(check_claims_applied, (requested, applied), settled),
    ensures
        acquired is Ok <==> rows_affected > 0,
        acquired matches Err(err) ==> err is UniqueConflict,
        settled is Ok <==> applied == requested,
        settled matches Err(err) ==> err is UniqueConflict,
{
}

/// A batch may not claim one key for two jobs.
pub proof fn law_batch_claims_each_key_once(
    claims: Vec<KeyClaim>,
    checked: Result<(), AwaError>,
    i: int,
    j: int,
)
    requires
        call_ensures(check_distinct_keys, (&claims,), checked),
        0 <= i < j < claims@.len(),
    ensures
        checked is Ok ==> claims@[i].key@ != claims@[j].key@,
        claims@[i].key@ == claims@[j].key@ ==> checked is Err,
        checked matches Err(err) ==> err is UniqueConflict && exists|a: int, b: int|
            #![trigger claims@[a], claims@[b]]
            0 <= a < b < claims@.len() && claims@[a].key@ == claims@[b].key@,
{
}

/// Jobs made for a benchmark are numbered, due at once, first attempts of the kind
/// and priority asked for, on stripes of the queue.
pub proof fn law_bench_jobs_are_numbered(
    engine: QueueStorage,
    queue: &str,
    priority: i16,
    count: i64,
    now: Timestamp,
    rows: Vec<RuntimeReadyRow>,
    i: int,
    stripe: String,
)
    requires
        engine.layout().queue_stripe_count <= i64::MAX,
        call_ensures(QueueStorage::bench_rows, (&engine, queue, priority, count, now), rows),
        0 <= i < rows@.len(),
        call_ensures(
            QueueStorage::queue_stripe_for_hash,
            (&engine, queue, None::<u64>, i as i64),
            stripe,
        ),
    ensures
        rows@.len() == count,
        rows@[i].kind@ == "bench_job"@,
        rows@[i].queue@ == stripe@,
        rows@[i].priority == priority,
        rows@[i].attempt == 0,
        rows@[i].run_lease == 0,
        rows@[i].max_attempts == 25,
        rows@[i].run_at == now,
        rows@[i].created_at == now,
        rows@[i].attempted_at is None,
        rows@[i].unique_key is None,
        rows@[i].unique_states is None,
        rows@[i].ordering_key is None,
        keeping::entry(rows@[i].args, "seq"@) is Some,
        json::node(keeping::entry(rows@[i].args, "seq"@)->0) == JsonNode::Int(i),
        json::is_empty_object(rows@[i].payload),
{
    let args = (&engine, queue, priority, count, now);
    assert(args.0.is_bench_row(args.1@, args.2, i, args.4, rows@[i]));
    let entries = json::node(rows@[i].args)->Object_0;
    assert(entries.dom().contains("seq"@));
}

} // verus!
