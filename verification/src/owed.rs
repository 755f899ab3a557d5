//! Where success is owed: what is stored and can be read is never refused, and what
//! cannot be read is refused for what is wrong with it.

use crate::cancel::{cancel_lease, Cancellation};
use crate::claims::{claimed_runtime_jobs, ClaimedRuntimeJob};
use crate::clock;
use crate::clock::{Span, Timestamp};
use crate::completion::{complete_attempts, Completion};
use crate::dlq::{bulk_retry_from_dlq, retry_from_dlq, RetryFromDlqOpts, Revived};
use crate::enqueue::RoutedRow;
use crate::error::AwaError;
use crate::hydrate;
use crate::hydrate::hydrate_deleted_leases;
use crate::intake;
use crate::intake::{intake_row, Intake, IntakeRow, PreparedJob};
use crate::job::{older_fact, JobRow, JobState};
use crate::lookup;
use crate::lookup::{latest_job, JobFact};
use crate::moves::{age_rows, retry_step, Relocation, RetryReply, RetryStep, Waiting};
use crate::payload;
use crate::payload::{
    materialize_runtime_payload, payload_with_attempt_state, with_progress, RuntimePayload,
};
use crate::placement;
use crate::placement::{plan_ready_rows, plan_ready_rows_copy, EnqueuePlan};
use crate::rows::{
    AttemptStateRow, DeferredJobRow, DeletedLeaseRow, DlqJobRow, DoneJobRow, ExistingReadyRow,
    LeaseJobRow, LeaseTransitionRow, ReadyJobLeaseRow, ReadyJobRow, ReadySnapshotRow,
    ReadyTransitionRow,
};
use crate::storage::QueueStorage;
use crate::transitions::{FailedAttempt, RescueCause};
use serde_json::Value;
use vstd::prelude::*;

verus! {

/// An outcome that follows the reading of a payload: it succeeds exactly where the
/// payload is read, and fails as the reading did.
pub open spec fn follows_reading<T>(
    read: Result<RuntimePayload, AwaError>,
    out: Result<T, AwaError>,
) -> bool {
    &&& out is Ok <==> read is Ok
    &&& out is Err ==> {
        &&& out->Err_0 is Serialization || out->Err_0 is Validation
        &&& out->Err_0 is Serialization <==> read->Err_0 is Serialization
        &&& out->Err_0 is Serialization ==> out->Err_0 == read->Err_0
    }
}

/// A ready row is shown wherever its payload can be read.
pub proof fn law_ready_row_shows_if_readable(
    row: ReadyJobRow,
    read: Result<RuntimePayload, AwaError>,
    out: Result<JobRow, AwaError>,
)
    requires
        call_ensures(RuntimePayload::from_json, (row.payload,), read),
        call_ensures(ReadyJobRow::into_job_row, (row,), out),
    ensures
        follows_reading(read, out),
{
}

/// A deferred row is shown wherever its payload can be read.
pub proof fn law_deferred_row_shows_if_readable(
    row: DeferredJobRow,
    read: Result<RuntimePayload, AwaError>,
    out: Result<JobRow, AwaError>,
)
    requires
        call_ensures(RuntimePayload::from_json, (row.payload,), read),
        call_ensures(DeferredJobRow::into_job_row, (row,), out),
    ensures
        follows_reading(read, out),
{
}

/// A leased row is shown wherever its payload can be read.
pub proof fn law_leased_row_shows_if_readable(
    row: LeaseJobRow,
    read: Result<RuntimePayload, AwaError>,
    out: Result<JobRow, AwaError>,
)
    requires
        call_ensures(RuntimePayload::from_json, (row.payload,), read),
        call_ensures(LeaseJobRow::into_job_row, (row,), out),
    ensures
        follows_reading(read, out),
{
}

/// A terminal row is shown wherever its payload can be read.
pub proof fn law_terminal_row_shows_if_readable(
    row: DoneJobRow,
    read: Result<RuntimePayload, AwaError>,
    out: Result<JobRow, AwaError>,
)
    requires
        call_ensures(RuntimePayload::from_json, (row.payload,), read),
        call_ensures(DoneJobRow::into_job_row, (row,), out),
    ensures
        follows_reading(read, out),
{
}

/// A dead row is shown wherever its payload can be read.
pub proof fn law_dead_row_shows_if_readable(
    row: DlqJobRow,
    read: Result<RuntimePayload, AwaError>,
    out: Result<JobRow, AwaError>,
)
    requires
        call_ensures(RuntimePayload::from_json, (row.payload,), read),
        call_ensures(DlqJobRow::into_job_row, (row,), out),
    ensures
        follows_reading(read, out),
{
}

/// A claimed row is shown wherever its payload can be read.
pub proof fn law_claim_shows_if_readable(
    row: ReadyJobLeaseRow,
    read: Result<RuntimePayload, AwaError>,
    out: Result<JobRow, AwaError>,
)
    requires
        call_ensures(RuntimePayload::from_json, (row.payload,), read),
        call_ensures(ReadyJobLeaseRow::into_job_row, (row,), out),
    ensures
        follows_reading(read, out),
{
}

/// A claimed row is handed out wherever its payload can be read.
pub proof fn law_claim_runs_if_readable(
    row: ReadyJobLeaseRow,
    receipt: bool,
    read: Result<RuntimePayload, AwaError>,
    out: Result<ClaimedRuntimeJob, AwaError>,
)
    requires
        call_ensures(RuntimePayload::from_json, (row.payload,), read),
        call_ensures(ReadyJobLeaseRow::into_claimed_runtime_job, (row, receipt), out),
    ensures
        follows_reading(read, out),
{
}

/// A running attempt that gives up is cancelled wherever its payload can be read.
pub proof fn law_cancellation_is_owed(
    row: LeaseTransitionRow,
    now: Timestamp,
    reason: &str,
    report: Option<Value>,
    read: Result<RuntimePayload, AwaError>,
    out: Result<DoneJobRow, AwaError>,
)
    requires
        now.valid(),
        call_ensures(RuntimePayload::from_json, (row.payload,), read),
        call_ensures(LeaseTransitionRow::cancel_running, (row, now, reason, report), out),
    ensures
        follows_reading(read, out),
{
}

/// An attempt fails for good wherever its payload can be read.
pub proof fn law_terminal_failure_is_owed(
    row: LeaseTransitionRow,
    now: Timestamp,
    error: &str,
    report: Option<Value>,
    read: Result<RuntimePayload, AwaError>,
    out: Result<DoneJobRow, AwaError>,
)
    requires
        now.valid(),
        call_ensures(RuntimePayload::from_json, (row.payload,), read),
        call_ensures(LeaseTransitionRow::fail_terminal, (row, now, error, report), out),
    ensures
        follows_reading(read, out),
{
}

/// An attempt is buried wherever its payload can be read.
pub proof fn law_burial_is_owed(
    row: LeaseTransitionRow,
    now: Timestamp,
    reason: &str,
    error: &str,
    report: Option<Value>,
    read: Result<RuntimePayload, AwaError>,
    out: Result<DlqJobRow, AwaError>,
)
    requires
        now.valid(),
        call_ensures(RuntimePayload::from_json, (row.payload,), read),
        call_ensures(LeaseTransitionRow::fail_to_dlq, (row, now, reason, error, report), out),
    ensures
        follows_reading(read, out),
{
}

/// An attempt fails, or is put off, wherever its payload can be read.
pub proof fn law_failure_is_owed(
    row: LeaseTransitionRow,
    now: Timestamp,
    error: &str,
    report: Option<Value>,
    retry_at: Timestamp,
    read: Result<RuntimePayload, AwaError>,
    out: Result<FailedAttempt, AwaError>,
)
    requires
        now.valid(),
        call_ensures(RuntimePayload::from_json, (row.payload,), read),
        call_ensures(LeaseTransitionRow::fail_retryable, (row, now, error, report, retry_at), out),
    ensures
        follows_reading(read, out),
{
}

/// An attempt is rescued wherever its payload can be read.
pub proof fn law_rescue_is_owed(
    row: LeaseTransitionRow,
    cause: RescueCause,
    now: Timestamp,
    retry_at: Timestamp,
    read: Result<RuntimePayload, AwaError>,
    out: Result<FailedAttempt, AwaError>,
)
    requires
        now.valid(),
        call_ensures(RuntimePayload::from_json, (row.payload,), read),
        call_ensures(LeaseTransitionRow::rescue, (row, cause, now, retry_at), out),
    ensures
        follows_reading(read, out),
{
}

/// An attempt is completed from outside wherever its payload can be read.
pub proof fn law_outside_completion_is_owed(
    row: LeaseTransitionRow,
    now: Timestamp,
    read: Result<RuntimePayload, AwaError>,
    out: Result<DoneJobRow, AwaError>,
)
    requires
        call_ensures(RuntimePayload::from_json, (row.payload,), read),
        call_ensures(LeaseTransitionRow::complete_external, (row, now), out),
    ensures
        follows_reading(read, out),
{
}

/// An attempt is failed from outside wherever its payload can be read.
pub proof fn law_outside_failure_is_owed(
    row: LeaseTransitionRow,
    entry: Value,
    now: Timestamp,
    read: Result<RuntimePayload, AwaError>,
    out: Result<DoneJobRow, AwaError>,
)
    requires
        now.valid(),
        call_ensures(RuntimePayload::from_json, (row.payload,), read),
        call_ensures(LeaseTransitionRow::fail_external, (row, entry, now), out),
    ensures
        follows_reading(read, out),
{
}

/// An attempt is retried from outside wherever its payload can be read.
pub proof fn law_outside_retry_is_owed(
    row: LeaseTransitionRow,
    now: Timestamp,
    read: Result<RuntimePayload, AwaError>,
    out: Result<ExistingReadyRow, AwaError>,
)
    requires
        call_ensures(RuntimePayload::from_json, (row.payload,), read),
        call_ensures(LeaseTransitionRow::retry_external, (row, now), out),
    ensures
        follows_reading(read, out),
{
}

/// A parked attempt is retried wherever its payload can be read.
pub proof fn law_parked_retry_is_owed(
    row: LeaseTransitionRow,
    now: Timestamp,
    read: Result<RuntimePayload, AwaError>,
    out: Result<ExistingReadyRow, AwaError>,
)
    requires
        call_ensures(RuntimePayload::from_json, (row.payload,), read),
        call_ensures(LeaseTransitionRow::retry_parked, (row, now), out),
    ensures
        follows_reading(read, out),
{
}

/// An attempt is cancelled wherever its payload can be read.
pub proof fn law_leased_cancellation_is_owed(
    row: LeaseTransitionRow,
    now: Timestamp,
    read: Result<RuntimePayload, AwaError>,
    out: Result<DoneJobRow, AwaError>,
)
    requires
        call_ensures(RuntimePayload::from_json, (row.payload,), read),
        call_ensures(LeaseTransitionRow::cancel, (row, now), out),
    ensures
        follows_reading(read, out),
{
}

/// A job found leased is cancelled wherever its payload can be read.
pub proof fn law_found_lease_is_cancelled(
    row: LeaseTransitionRow,
    now: Timestamp,
    read: Result<RuntimePayload, AwaError>,
    out: Result<Cancellation, AwaError>,
)
    requires
        call_ensures(RuntimePayload::from_json, (row.payload,), read),
        call_ensures(cancel_lease, (row, now), out),
    ensures
        follows_reading(read, out),
{
}

/// A dead job is revived wherever its payload can be read.
pub proof fn law_revival_is_owed(
    row: DlqJobRow,
    opts: RetryFromDlqOpts,
    now: Timestamp,
    read: Result<RuntimePayload, AwaError>,
    out: Result<Revived, AwaError>,
)
    requires
        call_ensures(RuntimePayload::from_json, (row.payload,), read),
        call_ensures(retry_from_dlq, (row, &opts, now), out),
    ensures
        follows_reading(read, out),
{
}

/// A retry, and a snooze, are owed wherever the payload can be read and the delay
/// can be taken.
pub proof fn law_delayed_retry_is_owed(
    row: LeaseTransitionRow,
    now: Timestamp,
    delay: Span,
    report: Option<Value>,
    read: Result<RuntimePayload, AwaError>,
    fits: bool,
    retried: Result<DeferredJobRow, AwaError>,
    snoozed: Result<DeferredJobRow, AwaError>,
)
    requires
        now.valid(),
        delay.wf(),
        delay.representable() ==> clock::reaches_after(now, delay),
        call_ensures(RuntimePayload::from_json, (row.payload,), read),
        call_ensures(Span::is_representable, (delay,), fits),
        call_ensures(LeaseTransitionRow::retry_after, (row, now, delay, report), retried),
        call_ensures(LeaseTransitionRow::snooze, (row, now, delay, report), snoozed),
    ensures
        retried is Ok <==> read is Ok && fits,
        snoozed is Ok <==> read is Ok && fits,
        read is Err ==> follows_reading(read, retried) && follows_reading(read, snoozed),
        read is Ok && !fits ==> retried->Err_0 is Validation && snoozed->Err_0 is Validation,
{
}

/// Progress is written, and a payload made whole, wherever it can be read.
pub proof fn law_progress_is_taken_if_readable(
    stored: Value,
    progress: Option<Value>,
    callback_result: Option<Value>,
    read: Result<RuntimePayload, AwaError>,
    replaced: Result<Value, AwaError>,
    reported: Result<Value, AwaError>,
    seen: Result<RuntimePayload, AwaError>,
)
    requires
        call_ensures(RuntimePayload::from_json, (stored,), read),
        call_ensures(with_progress, (stored, progress), replaced),
        call_ensures(payload_with_attempt_state, (stored, progress), reported),
        call_ensures(materialize_runtime_payload, (stored, progress, callback_result), seen),
    ensures
        follows_reading(read, replaced),
        follows_reading(read, reported),
        follows_reading(read, seen),
{
}

/// The payloads of a batch, read one by one.
pub open spec fn all_read(payloads: Seq<Value>, reads: Seq<RuntimePayload>) -> bool {
    &&& reads.len() == payloads.len()
    &&& forall|i: int|
        0 <= i < payloads.len() ==> call_ensures(
            RuntimePayload::from_json,
            (payloads[i],),
            Ok::<RuntimePayload, AwaError>(#[trigger] reads[i]),
        )
}

/// Claimed rows are handed out, all of them, wherever each can be read. One that
/// cannot be read stops them.
pub proof fn law_claims_run_if_readable(
    rows: Vec<ReadyJobLeaseRow>,
    receipt: bool,
    reads: Seq<RuntimePayload>,
    out: Result<Vec<ClaimedRuntimeJob>, AwaError>,
    at_row: int,
    fault: AwaError,
)
    requires
        call_ensures(claimed_runtime_jobs, (rows, receipt), out),
    ensures
        all_read(rows@.map_values(|row: ReadyJobLeaseRow| row.payload), reads) ==> out is Ok,
        0 <= at_row < rows@.len() && call_ensures(
            RuntimePayload::from_json,
            (rows@[at_row].payload,),
            Err::<RuntimePayload, AwaError>(fault),
        ) ==> out is Err,
        out matches Err(err) ==> err is Serialization || err is Validation,
{
    let payloads = rows@.map_values(|row: ReadyJobLeaseRow| row.payload);
    if all_read(payloads, reads) {
        assert forall|i: int| 0 <= i < rows@.len() implies payload::payload_readable(
            (#[trigger] rows@[i]).payload,
        ) by {
            assert(payloads[i] == rows@[i].payload);
            assert(call_ensures(
                RuntimePayload::from_json,
                (payloads[i],),
                Ok::<RuntimePayload, AwaError>(reads[i]),
            ));
        }
    }
    if out is Ok && 0 <= at_row < rows@.len() {
        let row = rows@[at_row];
        let made = out->Ok_0;
        assert(made@.len() == rows@.len());
        let job = made@[at_row];
    }
}

/// Attempts are completed, all of them, wherever each can be read. One that cannot
/// be read stops them.
pub proof fn law_attempts_complete_if_readable(
    rows: Vec<LeaseTransitionRow>,
    at: Timestamp,
    reads: Seq<RuntimePayload>,
    out: Result<Completion, AwaError>,
    at_row: int,
    fault: AwaError,
)
    requires
        call_ensures(complete_attempts, (rows, at), out),
    ensures
        all_read(rows@.map_values(|row: LeaseTransitionRow| row.payload), reads) ==> out is Ok,
        0 <= at_row < rows@.len() && call_ensures(
            RuntimePayload::from_json,
            (rows@[at_row].payload,),
            Err::<RuntimePayload, AwaError>(fault),
        ) ==> out is Err,
        out matches Err(err) ==> err is Serialization || err is Validation,
{
    let payloads = rows@.map_values(|row: LeaseTransitionRow| row.payload);
    if all_read(payloads, reads) {
        assert forall|i: int| 0 <= i < rows@.len() implies payload::payload_readable(
            (#[trigger] rows@[i]).payload,
        ) by {
            assert(payloads[i] == rows@[i].payload);
            assert(call_ensures(
                RuntimePayload::from_json,
                (payloads[i],),
                Ok::<RuntimePayload, AwaError>(reads[i]),
            ));
        }
    }
    if out is Ok && 0 <= at_row < rows@.len() {
        let row = rows@[at_row];
        let made = out->Ok_0;
        let done = made.done@[at_row];
    }
}

/// Rows age, all of them, wherever each can be read. One that cannot be read stops
/// them.
pub proof fn law_rows_age_if_readable(
    rows: Vec<ReadyTransitionRow>,
    reads: Seq<RuntimePayload>,
    out: Result<Vec<ExistingReadyRow>, AwaError>,
    at_row: int,
    fault: AwaError,
)
    requires
        forall|i: int| 0 <= i < rows@.len() ==> (#[trigger] rows@[i]).priority > i16::MIN,
        call_ensures(age_rows, (rows,), out),
    ensures
        all_read(rows@.map_values(|row: ReadyTransitionRow| row.payload), reads) ==> out is Ok,
        0 <= at_row < rows@.len() && call_ensures(
            RuntimePayload::from_json,
            (rows@[at_row].payload,),
            Err::<RuntimePayload, AwaError>(fault),
        ) ==> out is Err,
        out matches Err(err) ==> err is Serialization || err is Validation,
{
    let payloads = rows@.map_values(|row: ReadyTransitionRow| row.payload);
    if all_read(payloads, reads) {
        assert forall|i: int| 0 <= i < rows@.len() implies payload::payload_readable(
            (#[trigger] rows@[i]).payload,
        ) by {
            assert(payloads[i] == rows@[i].payload);
            assert(call_ensures(
                RuntimePayload::from_json,
                (payloads[i],),
                Ok::<RuntimePayload, AwaError>(reads[i]),
            ));
        }
    }
    if out is Ok && 0 <= at_row < rows@.len() {
        let row = rows@[at_row];
        let made = out->Ok_0;
        let aged = made@[at_row];
    }
}

/// Dead jobs are revived, all of them, wherever each can be read. One that cannot
/// be read stops them.
pub proof fn law_dead_jobs_revive_if_readable(
    rows: Vec<DlqJobRow>,
    now: Timestamp,
    reads: Seq<RuntimePayload>,
    out: Result<Vec<ExistingReadyRow>, AwaError>,
    at_row: int,
    fault: AwaError,
)
    requires
        call_ensures(bulk_retry_from_dlq, (rows, now), out),
    ensures
        all_read(rows@.map_values(|row: DlqJobRow| row.payload), reads) ==> out is Ok,
        0 <= at_row < rows@.len() && call_ensures(
            RuntimePayload::from_json,
            (rows@[at_row].payload,),
            Err::<RuntimePayload, AwaError>(fault),
        ) ==> out is Err,
        out matches Err(err) ==> err is Serialization || err is Validation,
{
    let payloads = rows@.map_values(|row: DlqJobRow| row.payload);
    if all_read(payloads, reads) {
        assert forall|i: int| 0 <= i < rows@.len() implies payload::payload_readable(
            (#[trigger] rows@[i]).payload,
        ) by {
            assert(payloads[i] == rows@[i].payload);
            assert(call_ensures(
                RuntimePayload::from_json,
                (payloads[i],),
                Ok::<RuntimePayload, AwaError>(reads[i]),
            ));
        }
    }
    if out is Ok && 0 <= at_row < rows@.len() {
        let row = rows@[at_row];
        let made = out->Ok_0;
        let ready = made@[at_row];
    }
}

/// A job is found wherever there is a fact about it and each can be read.
pub proof fn law_lookup_finds_if_readable(
    facts: Vec<JobFact>,
    found: Result<Option<JobRow>, AwaError>,
    shown: Seq<JobRow>,
)
    requires
        call_ensures(latest_job, (facts,), found),
    ensures
        facts@.len() == 0 <==> found == Ok::<Option<JobRow>, AwaError>(None),
        shown.len() == facts@.len() && (forall|i: int|
            0 <= i < facts@.len() ==> call_ensures(
                JobFact::into_job_row,
                (facts@[i],),
                Ok::<JobRow, AwaError>(#[trigger] shown[i]),
            )) ==> found is Ok,
{
    if found is Err && shown.len() == facts@.len() && (forall|i: int|
        0 <= i < facts@.len() ==> call_ensures(
            JobFact::into_job_row,
            (facts@[i],),
            Ok::<JobRow, AwaError>(#[trigger] shown[i]),
        )) {
        let err = found->Err_0;
        let i = choose|i: int|
            #![trigger facts@[i]]
            0 <= i < facts@.len() && !payload::payload_readable(facts@[i].stored())
                && payload::is_payload_error(facts@[i].stored(), err) && forall|j: int|
                #![trigger facts@[j]]
                0 <= j < i ==> payload::payload_readable(facts@[j].stored());
        assert(call_ensures(
            JobFact::into_job_row,
            (facts@[i],),
            Ok::<JobRow, AwaError>(shown[i]),
        ));
    }
}

/// A fact about a job is shown as the row that it is.
pub proof fn law_fact_is_shown_as_its_row(
    fact: JobFact,
    shown: JobRow,
    row: Result<JobRow, AwaError>,
)
    requires
        call_ensures(JobFact::into_job_row, (fact,), Ok(shown)),
        match fact {
            JobFact::Ready(r) => call_ensures(ReadyJobRow::into_job_row, (r,), row),
            JobFact::Deferred(r) => call_ensures(DeferredJobRow::into_job_row, (r,), row),
            JobFact::Lease(r) => call_ensures(LeaseJobRow::into_job_row, (r,), row),
            JobFact::Done(r) => call_ensures(DoneJobRow::into_job_row, (r,), row),
            JobFact::Dlq(r) => call_ensures(DlqJobRow::into_job_row, (r,), row),
        },
    ensures
        row is Ok,
        shown.essence() == row->Ok_0.essence(),
        shown.state == row->Ok_0.state,
        shown.finalized_at == row->Ok_0.finalized_at,
        shown.history() == row->Ok_0.history(),
{
}

/// A ready row at the place that a deleted lease was taken from.
pub open spec fn is_behind(ready: ReadySnapshotRow, deleted: DeletedLeaseRow) -> bool {
    &&& ready.job_id == deleted.job_id
    &&& ready.ready_slot == deleted.ready_slot
    &&& ready.ready_generation == deleted.ready_generation
    &&& ready.queue@ == deleted.queue@
    &&& ready.enqueue_shard == deleted.enqueue_shard
    &&& ready.lane_seq == deleted.lane_seq
}

proof fn lemma_behind(ready: Seq<ReadySnapshotRow>, deleted: DeletedLeaseRow, k: int)
    requires
        0 <= k < ready.len(),
        is_behind(ready[k], deleted),
    ensures
        hydrate::ready_behind(ready, deleted) is Some,
    decreases ready.len(),
{
    if !hydrate::leased_from(deleted, ready.last()) {
        assert(k < ready.len() - 1);
        assert(ready.drop_last()[k] == ready[k]);
        lemma_behind(ready.drop_last(), deleted, k);
    }
}

/// Deleted leases are put together again wherever each has its ready row.
pub proof fn law_attempts_are_put_together_if_all_is_there(
    deleted: Vec<DeletedLeaseRow>,
    ready: Vec<ReadySnapshotRow>,
    attempts: Vec<AttemptStateRow>,
    behind: Seq<int>,
    out: Result<Vec<LeaseTransitionRow>, AwaError>,
)
    requires
        call_ensures(hydrate_deleted_leases, (deleted, &ready, &attempts), out),
        behind.len() == deleted@.len(),
        forall|i: int|
            0 <= i < deleted@.len() ==> 0 <= #[trigger] behind[i] < ready@.len() && is_behind(
                ready@[behind[i]],
                deleted@[i],
            ),
    ensures
        out is Ok,
{
    assert forall|i: int| 0 <= i < deleted@.len() implies hydrate::ready_behind(
        ready@,
        #[trigger] deleted@[i],
    ) is Some by {
        let k = behind[i];
        lemma_behind(ready@, deleted@[i], k);
    }
}

/// A job is taken in exactly where it starts ready or scheduled.
pub proof fn law_jobs_start_ready_or_scheduled(
    job: PreparedJob,
    queue: String,
    now: Timestamp,
    taken: Result<IntakeRow, AwaError>,
)
    requires
        call_ensures(intake_row, (job, queue, now), taken),
    ensures
        taken is Ok <==> job.state == JobState::Available || job.state == JobState::Scheduled,
        taken is Ok ==> (taken->Ok_0 is Ready <==> job.state == JobState::Available),
        taken matches Err(err) ==> err is Validation,
{
}

/// A batch is taken in exactly where each of its jobs starts ready or scheduled.
pub proof fn law_batch_starts_ready_or_scheduled(
    engine: QueueStorage,
    jobs: Vec<PreparedJob>,
    now: Timestamp,
    taken: Result<Intake, AwaError>,
)
    requires
        engine.layout().queue_stripe_count <= i64::MAX,
        jobs@.len() <= i64::MAX,
        call_ensures(QueueStorage::take_in, (&engine, jobs, now), taken),
    ensures
        taken is Ok <==> forall|i: int|
            0 <= i < jobs@.len() ==> (#[trigger] jobs@[i]).state == JobState::Available
                || jobs@[i].state == JobState::Scheduled,
        taken matches Err(err) ==> err is Validation,
{
    if taken is Ok {
        assert forall|i: int| 0 <= i < jobs@.len() implies (#[trigger] jobs@[i]).state
            == JobState::Available || jobs@[i].state == JobState::Scheduled by {
            assert(intake::can_start(jobs@[i].state));
        }
    }
}

/// Rows are planned exactly where there are ids enough, and for a copy as many as
/// there are rows.
pub proof fn law_rows_are_planned_if_there_are_ids(
    routed: Vec<RoutedRow>,
    ids: Vec<i64>,
    insert: Result<EnqueuePlan, AwaError>,
    copied: Result<EnqueuePlan, AwaError>,
)
    requires
        call_ensures(plan_ready_rows, (routed, ids), insert),
        call_ensures(plan_ready_rows_copy, (routed, ids), copied),
    ensures
        insert is Ok <==> routed@.len() <= ids@.len(),
        copied is Ok <==> routed@.len() == ids@.len(),
        insert matches Err(err) ==> err is Validation,
        copied matches Err(err) ==> err is Validation,
        insert is Ok && copied is Ok ==> insert->Ok_0.rows@ == copied->Ok_0.rows@
            && insert->Ok_0.lanes@ == copied->Ok_0.lanes@,
{
    if insert is Ok && copied is Ok {
        placement::law_insert_and_copy_plan_alike(
            routed@,
            ids@,
            ids@,
            insert->Ok_0,
            copied->Ok_0,
        );
    }
}

/// A retry goes from the parked attempts to the terminal rows, requeues what it
/// finds wherever it can be read, and says so where there is nothing.
pub proof fn law_retry_looks_in_both_places(
    parked: LeaseTransitionRow,
    terminal: DoneJobRow,
    now: Timestamp,
    read: Result<RuntimePayload, AwaError>,
    first: RetryStep,
    second: RetryStep,
    third: RetryStep,
    fourth: RetryStep,
)
    requires
        call_ensures(RuntimePayload::from_json, (parked.payload,), read),
        call_ensures(retry_step, (RetryReply::Parked(None), now), first),
        call_ensures(retry_step, (RetryReply::Parked(Some(parked)), now), second),
        call_ensures(retry_step, (RetryReply::Terminal(None), now), third),
        call_ensures(retry_step, (RetryReply::Terminal(Some(terminal)), now), fourth),
    ensures
        first is AskTerminal,
        read is Ok <==> second is Requeue,
        read is Err <==> second is Failed,
        third is NotFound,
        fourth is Requeue,
{
}

/// A move is made wherever it changes something and the payload can be read; one
/// that changes nothing needs no reading.
pub proof fn law_moves_are_owed(
    engine: QueueStorage,
    waiting: Waiting,
    stored: Value,
    priority: i16,
    read: Result<RuntimePayload, AwaError>,
    out: Result<Option<Relocation>, AwaError>,
)
    requires
        engine.layout().queue_stripe_count <= i64::MAX,
        call_ensures(RuntimePayload::from_json, (stored,), read),
        call_ensures(
            QueueStorage::plan_move_for_hash,
            (&engine, &waiting, stored, None::<&str>, Some(priority), None::<u64>),
            out,
        ),
    ensures
        priority == waiting.priority ==> out == Ok::<Option<Relocation>, AwaError>(None),
        priority != waiting.priority ==> follows_reading(read, out) && (out is Ok
            ==> out->Ok_0 is Some),
{
}

proof fn lemma_shown_alike(fact: JobFact, a: JobRow, b: JobRow)
    requires
        fact.becomes(a),
        fact.becomes(b),
    ensures
        a.recency() == b.recency(),
        a.essence() == b.essence(),
        a.state == b.state,
{
}

/// Of facts that are equally recent the one listed last is found: where none is
/// newer than the last one, the last one is.
pub proof fn law_last_of_equal_facts_is_found(
    facts: Vec<JobFact>,
    found: JobRow,
    shown: Seq<JobRow>,
)
    requires
        call_ensures(latest_job, (facts,), Ok(Some(found))),
        shown.len() == facts@.len(),
        facts@.len() > 0,
        forall|i: int|
            0 <= i < facts@.len() ==> call_ensures(
                JobFact::into_job_row,
                (facts@[i],),
                Ok::<JobRow, AwaError>(#[trigger] shown[i]),
            ) && call_ensures(older_fact, (&shown[facts@.len() - 1], &shown[i]), false),
    ensures
        found.essence() == shown[facts@.len() - 1].essence(),
        found.state == shown[facts@.len() - 1].state,
{
    let (jobs, k) = choose|jobs: Seq<JobRow>, k: int| #[trigger]
        lookup::shown_as(facts@, jobs) && #[trigger] lookup::is_latest(jobs, k) && jobs[k] == found;
    let last = facts@.len() - 1;
    assert(call_ensures(
        JobFact::into_job_row,
        (facts@[last],),
        Ok::<JobRow, AwaError>(shown[last]),
    ));
    assert(call_ensures(JobFact::into_job_row, (facts@[k],), Ok::<JobRow, AwaError>(shown[k])));
    assert(facts@[last].becomes(jobs[last]));
    assert(facts@[k].becomes(jobs[k]));
    lemma_shown_alike(facts@[last], jobs[last], shown[last]);
    lemma_shown_alike(facts@[k], jobs[k], shown[k]);
    assert(call_ensures(older_fact, (&shown[last], &shown[k]), false));
}

} // verus!
