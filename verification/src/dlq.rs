//! The dead-letter queue: moving failed jobs there, reviving them, and
//! discarding failed jobs.
use crate::clock::Timestamp;
use crate::error::AwaError;
use crate::job::JobState;
use crate::json;
use crate::payload;
use crate::rows::DeferredJobRow;
use crate::rows::DlqJobRow;
use crate::rows::DoneJobRow;
use crate::rows::ExistingReadyRow;
use crate::unique;
use crate::unique::ClaimChange;
use vstd::prelude::*;
use vstd::string::*;

verus! {

/// The failed row in the dead-letter queue.
pub open spec fn buried(done: DoneJobRow, reason: String, at: Timestamp) -> DlqJobRow {
    DlqJobRow {
        job_id: done.job_id,
        kind: done.kind,
        queue: done.queue,
        args: done.args,
        state: done.state,
        priority: done.priority,
        attempt: done.attempt,
        run_lease: done.run_lease,
        max_attempts: done.max_attempts,
        run_at: done.run_at,
        attempted_at: done.attempted_at,
        finalized_at: done.finalized_at,
        created_at: done.created_at,
        unique_key: done.unique_key,
        unique_states: done.unique_states,
        payload: done.payload,
        dlq_reason: reason,
        dlq_at: at,
        original_run_lease: done.run_lease,
    }
}

/// Moves failed rows to the dead-letter queue, all for one reason and at one
/// time.
pub fn bury_failed(rows: Vec<DoneJobRow>, reason: &str, at: Timestamp) -> (out: Vec<DlqJobRow>)
    ensures
        out@.len() == rows@.len(),
        forall|i: int|
            #![trigger out@[i]]
            0 <= i < rows@.len() ==> out@[i] == buried(rows@[i], out@[i].dlq_reason, at)
                && out@[i].dlq_reason@ == reason@,
{
    let ghost all = rows@;
    let mut out: Vec<DlqJobRow> = Vec::new();
    for row in it: rows
        invariant
            it.seq() == all,
            out@.len() == it.index(),
            forall|i: int|
                #![trigger out@[i]]
                0 <= i < it.index() ==> out@[i] == buried(all[i], out@[i].dlq_reason, at)
                    && out@[i].dlq_reason@ == reason@,
    {
        assert(row == all[it.index()]);
        out.push(row.into_dlq_row(reason.to_owned(), at));
    }
    out
}

/// How a job is to be revived; what is not given stays as it was.
#[derive(Debug)]
pub struct RetryFromDlqOpts {
    pub run_at: Option<Timestamp>,
    pub priority: Option<i16>,
    pub queue: Option<String>,
}

/// A revived job: ready at once, or scheduled.
#[derive(Debug)]
pub enum Revived {
    Ready(ExistingReadyRow),
    Scheduled(DeferredJobRow),
}

/// The row was put on the ready plane: its attempts are counted afresh, and its
/// progress is dropped.
pub open spec fn revives(
    dead: DlqJobRow,
    queue: Seq<char>,
    priority: i16,
    run_at: Timestamp,
    ready: ExistingReadyRow,
) -> bool {
    &&& ready == (ExistingReadyRow {
        job_id: dead.job_id,
        kind: dead.kind,
        queue: ready.queue,
        args: dead.args,
        priority,
        attempt: 0,
        run_lease: dead.run_lease,
        max_attempts: dead.max_attempts,
        run_at,
        attempted_at: None,
        created_at: dead.created_at,
        unique_key: dead.unique_key,
        unique_states: dead.unique_states,
        payload: ready.payload,
    })
    &&& ready.queue@ == queue
    &&& payload::payload_writes(
        payload::payload_of(dead.payload).with_progress(None),
        ready.payload,
    )
}

/// The row was put among the scheduled jobs.
pub open spec fn reschedules(
    dead: DlqJobRow,
    queue: Seq<char>,
    priority: i16,
    run_at: Timestamp,
    deferred: DeferredJobRow,
) -> bool {
    &&& deferred == (DeferredJobRow {
        job_id: dead.job_id,
        kind: dead.kind,
        queue: deferred.queue,
        args: dead.args,
        state: JobState::Scheduled,
        priority,
        attempt: 0,
        run_lease: dead.run_lease,
        max_attempts: dead.max_attempts,
        run_at,
        attempted_at: None,
        finalized_at: None,
        created_at: dead.created_at,
        unique_key: dead.unique_key,
        unique_states: dead.unique_states,
        payload: deferred.payload,
    })
    &&& deferred.queue@ == queue
    &&& payload::payload_writes(
        payload::payload_of(dead.payload).with_progress(None),
        deferred.payload,
    )
}

impl RetryFromDlqOpts {
    pub open spec fn queue_for(self, dead: DlqJobRow) -> Seq<char> {
        match self.queue {
            Some(queue) => queue@,
            None => dead.queue@,
        }
    }

    pub open spec fn priority_for(self, dead: DlqJobRow) -> i16 {
        match self.priority {
            Some(priority) => priority,
            None => dead.priority,
        }
    }
}

/// Revives a job: on the schedule when a time is given that lies ahead, and
/// otherwise at once.
pub fn retry_from_dlq(dead: DlqJobRow, opts: &RetryFromDlqOpts, now: Timestamp) -> (r: Result<
    Revived,
    AwaError,
>)
    ensures
        match r {
            Ok(Revived::Scheduled(deferred)) => {
                &&& payload::payload_readable(dead.payload)
                &&& opts.run_at matches Some(run_at)
                &&& !run_at.le(now)
                &&& reschedules(
                    dead,
                    opts.queue_for(dead),
                    opts.priority_for(dead),
                    run_at,
                    deferred,
                )
            },
            Ok(Revived::Ready(ready)) => {
                &&& payload::payload_readable(dead.payload)
                &&& opts.run_at matches Some(run_at) ==> run_at.le(now)
                &&& revives(dead, opts.queue_for(dead), opts.priority_for(dead), now, ready)
            },
            Err(err) => !payload::payload_readable(dead.payload) && payload::is_payload_error(
                dead.payload,
                err,
            ),
        },
{
    let queue = match &opts.queue {
        Some(queue) => queue.clone(),
        None => dead.queue.clone(),
    };
    let priority: i16 = match opts.priority {
        Some(priority) => priority,
        None => dead.priority,
    };
    let mut dead = dead;
    let mut stored = json::null();
    std::mem::swap(&mut stored, &mut dead.payload);
    let payload = match payload::with_progress(stored, None) {
        Ok(payload) => payload,
        Err(err) => return Err(err),
    };
    match opts.run_at {
        Some(run_at) => {
            if run_at.after(now) {
                return Ok(
                    Revived::Scheduled(
                        dead.into_retry_deferred_row(queue, priority, run_at, payload),
                    ),
                );
            }
        },
        None => {},
    }
    Ok(Revived::Ready(dead.into_retry_ready_row(queue, priority, now, payload)))
}

/// Revives a batch at once, each job on the lane it came from. A job whose
/// payload cannot be read fails the batch.
pub fn bulk_retry_from_dlq(dead: Vec<DlqJobRow>, now: Timestamp) -> (r: Result<
    Vec<ExistingReadyRow>,
    AwaError,
>)
    ensures
        match r {
            Ok(ready) => ready@.len() == dead@.len() && forall|i: int|
                #![trigger ready@[i]]
                0 <= i < dead@.len() ==> payload::payload_readable(dead@[i].payload) && revives(
                    dead@[i],
                    dead@[i].queue@,
                    dead@[i].priority,
                    now,
                    ready@[i],
                ),
            Err(err) => exists|i: int|
                #![trigger dead@[i]]
                0 <= i < dead@.len() && !payload::payload_readable(dead@[i].payload)
                    && payload::is_payload_error(dead@[i].payload, err) && forall|j: int|
                    #![trigger dead@[j]]
                    0 <= j < i ==> payload::payload_readable(dead@[j].payload),
        },
{
    let ghost all = dead@;
    let mut ready: Vec<ExistingReadyRow> = Vec::new();
    for row in it: dead
        invariant
            it.seq() == all,
            ready@.len() == it.index(),
            forall|i: int|
                #![trigger ready@[i]]
                0 <= i < it.index() ==> payload::payload_readable(all[i].payload) && revives(
                    all[i],
                    all[i].queue@,
                    all[i].priority,
                    now,
                    ready@[i],
                ),
            forall|j: int|
                #![trigger all[j]]
                0 <= j < it.index() ==> payload::payload_readable(all[j].payload),
    {
        assert(row == all[it.index()]);
        let mut row = row;
        let mut stored = json::null();
        std::mem::swap(&mut stored, &mut row.payload);
        let payload = match payload::with_progress(stored, None) {
            Ok(payload) => payload,
            Err(err) => return Err(err),
        };
        let queue = row.queue.clone();
        let priority: i16 = row.priority;
        ready.push(row.into_retry_ready_row(queue, priority, now, payload));
    }
    Ok(ready)
}

/// A job that goes through the dead-letter queue comes back as the same job: by
/// default on the lane it failed on, with its history and its uniqueness, and
/// under the same lease number.
pub proof fn law_dlq_round_trip(
    done: DoneJobRow,
    reason: String,
    buried_at: Timestamp,
    now: Timestamp,
    ready: ExistingReadyRow,
)
    requires
        payload::payload_readable(done.payload),
        revives(
            buried(done, reason, buried_at),
            done.queue@,
            done.priority,
            now,
            ready,
        ),
    ensures
        ready.job_id == done.job_id,
        ready.run_lease == done.run_lease,
        ready.kind == done.kind,
        ready.args == done.args,
        ready.queue@ == done.queue@,
        ready.priority == done.priority,
        ready.max_attempts == done.max_attempts,
        ready.created_at == done.created_at,
        ready.unique_key == done.unique_key,
        ready.unique_states == done.unique_states,
        payload::payload_readable(ready.payload),
        payload::payload_of(ready.payload) == payload::payload_of(done.payload).with_progress(None),
{
    payload::law_payload_round_trip(
        payload::payload_of(done.payload).with_progress(None),
        ready.payload,
    );
}

/// What discarding failed jobs does to their claims on unique keys, terminal
/// rows first, then those of the dead-letter queue: nothing holds them after.
pub fn discard_releases(done: &Vec<DoneJobRow>, dead: &Vec<DlqJobRow>) -> (out: Vec<ClaimChange>)
    ensures
        out@.len() == done@.len() + dead@.len(),
        forall|i: int|
            0 <= i < done@.len() ==> #[trigger] out@[i] == unique::claim_change(
                done@[i].unique_key is Some,
                done@[i].unique_states,
                Some(done@[i].state),
                None,
            ),
        forall|i: int|
            0 <= i < dead@.len() ==> #[trigger] out@[done@.len() + i] == unique::claim_change(
                dead@[i].unique_key is Some,
                dead@[i].unique_states,
                Some(dead@[i].state),
                None,
            ),
{
    let mut out: Vec<ClaimChange> = Vec::new();
    let mut i: usize = 0;
    while i < done.len()
        invariant
            i <= done@.len(),
            out@.len() == i,
            forall|k: int|
                0 <= k < i ==> #[trigger] out@[k] == unique::claim_change(
                    done@[k].unique_key is Some,
                    done@[k].unique_states,
                    Some(done@[k].state),
                    None,
                ),
        decreases done.len() - i,
    {
        let row = &done[i];
        out.push(
            unique::sync_unique_claim(&row.unique_key, &row.unique_states, Some(row.state), None),
        );
        i = i + 1;
    }
    let mut n: usize = 0;
    while n < dead.len()
        invariant
            n <= dead@.len(),
            out@.len() == done@.len() + n,
            forall|k: int|
                0 <= k < done@.len() ==> #[trigger] out@[k] == unique::claim_change(
                    done@[k].unique_key is Some,
                    done@[k].unique_states,
                    Some(done@[k].state),
                    None,
                ),
            forall|k: int|
                0 <= k < n ==> #[trigger] out@[done@.len() + k] == unique::claim_change(
                    dead@[k].unique_key is Some,
                    dead@[k].unique_states,
                    Some(dead@[k].state),
                    None,
                ),
        decreases dead.len() - n,
    {
        let row = &dead[n];
        out.push(
            unique::sync_unique_claim(&row.unique_key, &row.unique_states, Some(row.state), None),
        );
        n = n + 1;
    }
    out
}

} // verus!
