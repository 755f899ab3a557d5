//! Attempts that have left the lease plane, put together again from what was
//! deleted, the ready rows behind them, and their attempt state.
use crate::claims;
use crate::error;
use crate::error::AwaError;
use crate::json;
use crate::rows::AttemptStateRow;
use crate::rows::DeletedLeaseRow;
use crate::rows::LeaseTransitionRow;
use crate::rows::ReadySnapshotRow;
use crate::text;
use crate::unique;
use serde_json::Value;
use vstd::prelude::*;
use vstd::string::*;

verus! {

/// The ready row is the one that the lease was taken on.
pub open spec fn leased_from(deleted: DeletedLeaseRow, ready: ReadySnapshotRow) -> bool {
    &&& ready.ready_slot == deleted.ready_slot
    &&& ready.ready_generation == deleted.ready_generation
    &&& ready.queue@ == deleted.queue@
    &&& ready.enqueue_shard == deleted.enqueue_shard
    &&& ready.lane_seq == deleted.lane_seq
    &&& ready.job_id == deleted.job_id
}

/// The ready row behind a lease, the last one if it is listed twice.
pub open spec fn ready_behind(ready: Seq<ReadySnapshotRow>, deleted: DeletedLeaseRow) -> Option<
    ReadySnapshotRow,
>
    decreases ready.len(),
{
    if ready.len() == 0 {
        None
    } else if leased_from(deleted, ready.last()) {
        Some(ready.last())
    } else {
        ready_behind(ready.drop_last(), deleted)
    }
}

/// The progress that an attempt reported, by its last listed state.
pub open spec fn reported_progress(
    attempts: Seq<AttemptStateRow>,
    job_id: i64,
    run_lease: i64,
) -> Option<Value>
    decreases attempts.len(),
{
    if attempts.len() == 0 {
        None
    } else if attempts.last().job_id == job_id && attempts.last().run_lease == run_lease {
        attempts.last().progress
    } else {
        reported_progress(attempts.drop_last(), job_id, run_lease)
    }
}

/// `row` is the attempt: position, state, and counters from the lease; kind,
/// arguments, times, uniqueness, and payload from the ready row.
pub open spec fn is_attempt(
    deleted: DeletedLeaseRow,
    ready: ReadySnapshotRow,
    progress: Option<Value>,
    row: LeaseTransitionRow,
) -> bool {
    &&& row == (LeaseTransitionRow {
        ready_slot: deleted.ready_slot,
        ready_generation: deleted.ready_generation,
        job_id: deleted.job_id,
        kind: ready.kind,
        queue: ready.queue,
        args: ready.args,
        state: deleted.state,
        priority: deleted.priority,
        attempt: deleted.attempt,
        run_lease: deleted.run_lease,
        max_attempts: deleted.max_attempts,
        lane_seq: deleted.lane_seq,
        enqueue_shard: deleted.enqueue_shard,
        run_at: ready.run_at,
        attempted_at: deleted.attempted_at,
        created_at: ready.created_at,
        unique_key: row.unique_key,
        unique_states: ready.unique_states,
        payload: ready.payload,
        progress,
    })
    &&& unique::key_view(row.unique_key) == unique::key_view(ready.unique_key)
}

/// The error for a lease without its ready row.
pub open spec fn missing_ready_text(deleted: DeletedLeaseRow) -> Seq<char> {
    "queue storage ready row missing for deleted lease job "@ + text::int_text(
        deleted.job_id as int,
    ) + " run_lease "@ + text::int_text(deleted.run_lease as int)
}

fn find_ready(ready: &Vec<ReadySnapshotRow>, deleted: &DeletedLeaseRow) -> (r: Option<usize>)
    ensures
        match r {
            Some(at) => at < ready@.len() && ready_behind(ready@, *deleted) == Some(
                ready@[at as int],
            ),
            None => ready_behind(ready@, *deleted) is None,
        },
{
    let mut i: usize = ready.len();
    assert(ready@.subrange(0, i as int) =~= ready@);
    while i > 0
        invariant
            i <= ready@.len(),
            ready_behind(ready@, *deleted) == ready_behind(
                ready@.subrange(0, i as int),
                *deleted,
            ),
        decreases i,
    {
        let row = &ready[i - 1];
        proof {
            let seen = ready@.subrange(0, i as int);
            assert(seen.last() == *row);
            assert(seen.drop_last() =~= ready@.subrange(0, i - 1));
        }
        if row.ready_slot == deleted.ready_slot && row.ready_generation == deleted.ready_generation
            && row.enqueue_shard == deleted.enqueue_shard && row.lane_seq == deleted.lane_seq
            && row.job_id == deleted.job_id && row.queue == deleted.queue {
            return Some(i - 1);
        }
        i = i - 1;
    }
    None
}

fn find_progress(attempts: &Vec<AttemptStateRow>, job_id: i64, run_lease: i64) -> (r: Option<
    Value,
>)
    ensures
        r == reported_progress(attempts@, job_id, run_lease),
{
    let mut i: usize = attempts.len();
    assert(attempts@.subrange(0, i as int) =~= attempts@);
    while i > 0
        invariant
            i <= attempts@.len(),
            reported_progress(attempts@, job_id, run_lease) == reported_progress(
                attempts@.subrange(0, i as int),
                job_id,
                run_lease,
            ),
        decreases i,
    {
        let row = &attempts[i - 1];
        proof {
            let seen = attempts@.subrange(0, i as int);
            assert(seen.last() == *row);
            assert(seen.drop_last() =~= attempts@.subrange(0, i - 1));
        }
        if row.job_id == job_id && row.run_lease == run_lease {
            return json::clone_opt(&row.progress);
        }
        i = i - 1;
    }
    None
}

/// Clones an optional unique key.
pub fn clone_key(key: &Option<Vec<u8>>) -> (r: Option<Vec<u8>>)
    ensures
        unique::key_view(r) == unique::key_view(*key),
{
    match key {
        Some(bytes) => Some(unique::clone_bytes(bytes)),
        None => None,
    }
}

/// Puts attempts together again, in the order of the deleted leases. A lease
/// whose ready row is missing fails the whole batch.
pub fn hydrate_deleted_leases(
    deleted: Vec<DeletedLeaseRow>,
    ready: &Vec<ReadySnapshotRow>,
    attempts: &Vec<AttemptStateRow>,
) -> (r: Result<Vec<LeaseTransitionRow>, AwaError>)
    ensures
        match r {
            Ok(rows) => rows@.len() == deleted@.len() && forall|i: int|
                #![trigger rows@[i]]
                #![trigger deleted@[i]]
                0 <= i < deleted@.len() ==> {
                    &&& ready_behind(ready@, deleted@[i]) matches Some(behind)
                    &&& is_attempt(
                        deleted@[i],
                        behind,
                        reported_progress(attempts@, deleted@[i].job_id, deleted@[i].run_lease),
                        rows@[i],
                    )
                },
            Err(err) => exists|i: int|
                #![trigger deleted@[i]]
                0 <= i < deleted@.len() && ready_behind(ready@, deleted@[i]) is None
                    && error::is_validation(err, missing_ready_text(deleted@[i])) && forall|j: int|
                    #![trigger deleted@[j]]
                    0 <= j < i ==> ready_behind(ready@, deleted@[j]) is Some,
        },
{
    let ghost all = deleted@;
    let mut rows: Vec<LeaseTransitionRow> = Vec::new();
    for lease in it: deleted
        invariant
            it.seq() == all,
            rows@.len() == it.index(),
            forall|i: int|
                #![trigger rows@[i]]
                #![trigger all[i]]
                0 <= i < it.index() ==> {
                    &&& ready_behind(ready@, all[i]) matches Some(behind)
                    &&& is_attempt(
                        all[i],
                        behind,
                        reported_progress(attempts@, all[i].job_id, all[i].run_lease),
                        rows@[i],
                    )
                },
    {
        assert(lease == all[it.index()]);
        let at: usize = match find_ready(ready, &lease) {
            Some(at) => at,
            None => {
                let err = AwaError::Validation(
                    "queue storage ready row missing for deleted lease job ".to_owned().concat(
                        text::i64_text(lease.job_id).as_str(),
                    ).concat(" run_lease ").concat(text::i64_text(lease.run_lease).as_str()),
                );
                return Err(err);
            },
        };
        let behind = &ready[at];
        let progress = find_progress(attempts, lease.job_id, lease.run_lease);
        rows.push(
            LeaseTransitionRow {
                ready_slot: lease.ready_slot,
                ready_generation: lease.ready_generation,
                job_id: lease.job_id,
                kind: behind.kind.clone(),
                queue: behind.queue.clone(),
                args: behind.args.clone(),
                state: lease.state,
                priority: lease.priority,
                attempt: lease.attempt,
                run_lease: lease.run_lease,
                max_attempts: lease.max_attempts,
                lane_seq: lease.lane_seq,
                enqueue_shard: lease.enqueue_shard,
                run_at: behind.run_at,
                attempted_at: lease.attempted_at,
                created_at: behind.created_at,
                unique_key: clone_key(&behind.unique_key),
                unique_states: claims::clone_text_opt(&behind.unique_states),
                payload: behind.payload.clone(),
                progress,
            },
        );
    }
    Ok(rows)
}

/// The attempts of deleted leases, pair by pair.
pub fn lease_pairs(deleted: &Vec<DeletedLeaseRow>) -> (pairs: Vec<(i64, i64)>)
    ensures
        pairs@ == deleted@.map_values(|row: DeletedLeaseRow| (row.job_id, row.run_lease)),
{
    let mut pairs: Vec<(i64, i64)> = Vec::new();
    let mut i: usize = 0;
    while i < deleted.len()
        invariant
            i <= deleted@.len(),
            pairs@.len() == i,
            forall|k: int|
                0 <= k < i ==> #[trigger] pairs@[k] == (deleted@[k].job_id, deleted@[k].run_lease),
        decreases deleted.len() - i,
    {
        pairs.push((deleted[i].job_id, deleted[i].run_lease));
        i = i + 1;
    }
    assert(pairs@ =~= deleted@.map_values(|row: DeletedLeaseRow| (row.job_id, row.run_lease)));
    pairs
}

} // verus!
