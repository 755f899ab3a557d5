//! What a job keeps on its way through the engine: what is enqueued is what runs,
//! and what is recorded for it stays recorded.

use crate::claims::{claimed_runtime_jobs, ClaimedEntry, ClaimedRuntimeJob};
use crate::clock;
use crate::clock::{Span, Timestamp};
use crate::completion;
use crate::completion::{complete_attempts, complete_claims, Completion};
use crate::intake;
use crate::intake::{intake_row, Intake, IntakeRow, PreparedJob};
use crate::job::{JobRow, JobState};
use crate::json;
use crate::json::JsonNode;
use crate::payload;
use crate::payload::{PayloadView, RuntimePayload};
use crate::rows::{
    DeferredJobRow, DlqJobRow, DoneJobRow, ExistingReadyRow, LeaseJobRow, LeaseTransitionRow,
    ReadyJobLeaseRow, ReadyJobRow, ReadyTransitionRow, RuntimeReadyInsert, RuntimeReadyRow,
};
use crate::storage;
use crate::storage::QueueStorage;
use crate::transitions;
use crate::transitions::{FailedAttempt, RescueCause};
use serde_json::Value;
use vstd::prelude::*;

verus! {

/// The entry that a JSON object has under a name.
pub open spec fn entry(value: Value, name: Seq<char>) -> Option<Value> {
    if json::node(value) is Object && json::node(value)->Object_0.dom().contains(name) {
        Some(json::node(value)->Object_0[name])
    } else {
        None
    }
}

/// The items of a JSON array; of nothing, none.
pub open spec fn items(value: Option<Value>) -> Seq<Value> {
    match value {
        Some(v) => json::node(v)->Array_0,
        None => Seq::empty(),
    }
}

/// A value that says nothing: none, or JSON null.
pub open spec fn is_nothing(value: Option<Value>) -> bool {
    value matches Some(v) ==> json::node(v) is Null
}

/// A payload that is stored as an object is read name by name: `metadata` and
/// `tags` as they stand, `errors` as the error history, and `progress` unless it
/// is null.
pub proof fn law_stored_payload_is_read_by_name(value: Value, read: RuntimePayload)
    requires
        call_ensures(RuntimePayload::from_json, (value,), Ok(read)),
        json::node(value) is Object,
    ensures
        entry(value, "metadata"@) matches Some(v) ==> json::node(read.metadata) == json::node(v),
        entry(value, "metadata"@) is None ==> json::is_empty_object(read.metadata),
        read.errors@ == items(entry(value, "errors"@)),
        entry(value, "errors"@) matches Some(v) ==> json::node(v) is Array,
        read.tags@.len() == items(entry(value, "tags"@)).len(),
        forall|i: int|
            0 <= i < read.tags@.len() ==> json::node(#[trigger] items(entry(value, "tags"@))[i])
                == JsonNode::Text(read.tags@[i]@),
        read.progress is None <==> is_nothing(entry(value, "progress"@)),
        read.progress is Some ==> read.progress == entry(value, "progress"@),
{
    let seen = read@;
    assert(seen.tags == payload::texts(read.tags@));
    assert forall|i: int| 0 <= i < read.tags@.len() implies json::node(
        #[trigger] items(entry(value, "tags"@))[i],
    ) == JsonNode::Text(read.tags@[i]@) by {
        assert(seen.tags[i] == read.tags@[i]@);
        let v = entry(value, "tags"@)->0;
        assert(json::node(json::node(v)->Array_0[i]) is Text);
        assert(seen.tags[i] == payload::text_of(json::node(v)->Array_0[i]));
    }
}

/// A payload is stored under the names under which it is read, and what is empty
/// is not stored.
pub proof fn law_payload_is_stored_by_name(kept: RuntimePayload, out: Value)
    requires
        call_ensures(RuntimePayload::into_json, (kept,), out),
    ensures
        json::node(out) is Object,
        json::is_empty_object(kept.metadata) ==> entry(out, "metadata"@) is None,
        !json::is_empty_object(kept.metadata) ==> entry(out, "metadata"@) is Some && json::node(
            entry(out, "metadata"@)->0,
        ) == json::node(kept.metadata),
        kept.errors@.len() == 0 <==> entry(out, "errors"@) is None,
        items(entry(out, "errors"@)) == kept.errors@,
        kept.tags@.len() == 0 <==> entry(out, "tags"@) is None,
        items(entry(out, "tags"@)).len() == kept.tags@.len(),
        forall|i: int|
            0 <= i < kept.tags@.len() ==> json::node(#[trigger] items(entry(out, "tags"@))[i])
                == JsonNode::Text(kept.tags@[i]@),
        entry(out, "progress"@) == kept.progress,
        forall|name: Seq<char>| #[trigger]
            json::node(out)->Object_0.dom().contains(name) ==> name == "metadata"@ || name
                == "tags"@ || name == "errors"@ || name == "progress"@,
{
    payload::lemma_field_names();
    let seen = kept@;
    let entries = json::node(out)->Object_0;
    assert(entries.dom().contains("metadata"@) || !entries.dom().contains("metadata"@));
    assert(entries.dom().contains("errors"@) || !entries.dom().contains("errors"@));
    assert(entries.dom().contains("tags"@) || !entries.dom().contains("tags"@));
    assert(entries.dom().contains("progress"@) || !entries.dom().contains("progress"@));
    assert(items(entry(out, "errors"@)) =~= kept.errors@);
    assert forall|i: int| 0 <= i < kept.tags@.len() implies json::node(
        #[trigger] items(entry(out, "tags"@))[i],
    ) == JsonNode::Text(kept.tags@[i]@) by {
        assert(seen.tags[i] == kept.tags@[i]@);
    }
}

/// What is stored reads back: metadata, tags and error history as they were, and
/// the progress unless it was null.
pub proof fn law_stored_payload_reads_back(kept: RuntimePayload, out: Value, read: RuntimePayload)
    requires
        call_ensures(RuntimePayload::into_json, (kept,), out),
        call_ensures(RuntimePayload::from_json, (out,), Ok(read)),
    ensures
        json::node(read.metadata) == json::node(kept.metadata),
        payload::texts(read.tags@) == payload::texts(kept.tags@),
        read.errors@ == kept.errors@,
        read.progress == (if is_nothing(kept.progress) {
            None
        } else {
            kept.progress
        }),
{
    law_payload_is_stored_by_name(kept, out);
    law_stored_payload_is_read_by_name(out, read);
    assert forall|i: int| 0 <= i < read.tags@.len() implies read.tags@[i]@ == kept.tags@[i]@ by {
        assert(json::node(items(entry(out, "tags"@))[i]) == JsonNode::Text(kept.tags@[i]@));
    }
    assert(payload::texts(read.tags@) =~= payload::texts(kept.tags@));
}

/// What makes a row this job and no other, wherever it stands.
pub struct JobEssence {
    pub job_id: i64,
    pub kind: Seq<char>,
    pub queue: Seq<char>,
    pub args: Value,
    pub priority: i16,
    pub attempt: i16,
    pub run_lease: i64,
    pub max_attempts: i16,
    pub run_at: Timestamp,
    pub attempted_at: Option<Timestamp>,
    pub created_at: Timestamp,
    pub unique_key: Option<Seq<u8>>,
    /// Not every row has them.
    pub unique_states: Option<Seq<char>>,
}

/// The bytes of a key.
pub open spec fn bytes_of(key: Option<Vec<u8>>) -> Option<Seq<u8>> {
    match key {
        Some(bytes) => Some(bytes@),
        None => None,
    }
}

/// The characters of a text.
pub open spec fn chars_of(text: Option<String>) -> Option<Seq<char>> {
    match text {
        Some(chars) => Some(chars@),
        None => None,
    }
}

impl ReadyJobRow {
    pub open spec fn essence(self) -> JobEssence {
        JobEssence {
            job_id: self.job_id,
            kind: self.kind@,
            queue: self.queue@,
            args: self.args,
            priority: self.priority,
            attempt: self.attempt,
            run_lease: self.run_lease,
            max_attempts: self.max_attempts,
            run_at: self.run_at,
            attempted_at: self.attempted_at,
            created_at: self.created_at,
            unique_key: bytes_of(self.unique_key),
            unique_states: None,
        }
    }
}

impl ReadyTransitionRow {
    pub open spec fn essence(self) -> JobEssence {
        JobEssence {
            job_id: self.job_id,
            kind: self.kind@,
            queue: self.queue@,
            args: self.args,
            priority: self.priority,
            attempt: self.attempt,
            run_lease: self.run_lease,
            max_attempts: self.max_attempts,
            run_at: self.run_at,
            attempted_at: self.attempted_at,
            created_at: self.created_at,
            unique_key: bytes_of(self.unique_key),
            unique_states: chars_of(self.unique_states),
        }
    }
}

impl ReadyJobLeaseRow {
    pub open spec fn essence(self) -> JobEssence {
        JobEssence {
            job_id: self.job_id,
            kind: self.kind@,
            queue: self.queue@,
            args: self.args,
            priority: self.priority,
            attempt: self.attempt,
            run_lease: self.run_lease,
            max_attempts: self.max_attempts,
            run_at: self.run_at,
            attempted_at: self.attempted_at,
            created_at: self.created_at,
            unique_key: bytes_of(self.unique_key),
            unique_states: chars_of(self.unique_states),
        }
    }
}

impl RuntimeReadyInsert {
    pub open spec fn essence(self) -> JobEssence {
        JobEssence {
            job_id: self.job_id,
            kind: self.kind@,
            queue: self.queue@,
            args: self.args,
            priority: self.priority,
            attempt: self.attempt,
            run_lease: self.run_lease,
            max_attempts: self.max_attempts,
            run_at: self.run_at,
            attempted_at: self.attempted_at,
            created_at: self.created_at,
            unique_key: bytes_of(self.unique_key),
            unique_states: chars_of(self.unique_states),
        }
    }
}

impl ExistingReadyRow {
    pub open spec fn essence(self) -> JobEssence {
        JobEssence {
            job_id: self.job_id,
            kind: self.kind@,
            queue: self.queue@,
            args: self.args,
            priority: self.priority,
            attempt: self.attempt,
            run_lease: self.run_lease,
            max_attempts: self.max_attempts,
            run_at: self.run_at,
            attempted_at: self.attempted_at,
            created_at: self.created_at,
            unique_key: bytes_of(self.unique_key),
            unique_states: chars_of(self.unique_states),
        }
    }
}

impl DeferredJobRow {
    pub open spec fn essence(self) -> JobEssence {
        JobEssence {
            job_id: self.job_id,
            kind: self.kind@,
            queue: self.queue@,
            args: self.args,
            priority: self.priority,
            attempt: self.attempt,
            run_lease: self.run_lease,
            max_attempts: self.max_attempts,
            run_at: self.run_at,
            attempted_at: self.attempted_at,
            created_at: self.created_at,
            unique_key: bytes_of(self.unique_key),
            unique_states: chars_of(self.unique_states),
        }
    }
}

impl DoneJobRow {
    pub open spec fn essence(self) -> JobEssence {
        JobEssence {
            job_id: self.job_id,
            kind: self.kind@,
            queue: self.queue@,
            args: self.args,
            priority: self.priority,
            attempt: self.attempt,
            run_lease: self.run_lease,
            max_attempts: self.max_attempts,
            run_at: self.run_at,
            attempted_at: self.attempted_at,
            created_at: self.created_at,
            unique_key: bytes_of(self.unique_key),
            unique_states: chars_of(self.unique_states),
        }
    }
}

impl DlqJobRow {
    pub open spec fn essence(self) -> JobEssence {
        JobEssence {
            job_id: self.job_id,
            kind: self.kind@,
            queue: self.queue@,
            args: self.args,
            priority: self.priority,
            attempt: self.attempt,
            run_lease: self.run_lease,
            max_attempts: self.max_attempts,
            run_at: self.run_at,
            attempted_at: self.attempted_at,
            created_at: self.created_at,
            unique_key: bytes_of(self.unique_key),
            unique_states: chars_of(self.unique_states),
        }
    }
}

impl LeaseTransitionRow {
    pub open spec fn essence(self) -> JobEssence {
        JobEssence {
            job_id: self.job_id,
            kind: self.kind@,
            queue: self.queue@,
            args: self.args,
            priority: self.priority,
            attempt: self.attempt,
            run_lease: self.run_lease,
            max_attempts: self.max_attempts,
            run_at: self.run_at,
            attempted_at: self.attempted_at,
            created_at: self.created_at,
            unique_key: bytes_of(self.unique_key),
            unique_states: chars_of(self.unique_states),
        }
    }
}

impl LeaseJobRow {
    pub open spec fn essence(self) -> JobEssence {
        JobEssence {
            job_id: self.job_id,
            kind: self.kind@,
            queue: self.queue@,
            args: self.args,
            priority: self.priority,
            attempt: self.attempt,
            run_lease: self.run_lease,
            max_attempts: self.max_attempts,
            run_at: self.run_at,
            attempted_at: self.attempted_at,
            created_at: self.created_at,
            unique_key: bytes_of(self.unique_key),
            unique_states: None,
        }
    }
}

impl JobRow {
    pub open spec fn essence(self) -> JobEssence {
        JobEssence {
            job_id: self.id,
            kind: self.kind@,
            queue: self.queue@,
            args: self.args,
            priority: self.priority,
            attempt: self.attempt,
            run_lease: self.run_lease,
            max_attempts: self.max_attempts,
            run_at: self.run_at,
            attempted_at: self.attempted_at,
            created_at: self.created_at,
            unique_key: bytes_of(self.unique_key),
            unique_states: None,
        }
    }

    /// The error history that the row shows.
    pub open spec fn history(self) -> Seq<Value> {
        match self.errors {
            Some(errors) => errors@,
            None => Seq::empty(),
        }
    }

    /// The row shows what is recorded in the payload.
    pub open spec fn shows_record(self, stored: Value) -> bool {
        &&& json::node(self.metadata) == payload::payload_of(stored).metadata
        &&& payload::texts(self.tags@) == payload::payload_of(stored).tags
        &&& self.history() == payload::payload_of(stored).errors
        &&& self.errors matches Some(errors) ==> errors@.len() > 0
    }
}

/// The slot and the lane position of a row.
pub open spec fn place(slot: i32, generation: i64, lane_seq: i64, shard: i16) -> (int, int, int, int) {
    (slot as int, generation as int, lane_seq as int, shard as int)
}

/// What a progress report says: nothing when it is null.
pub open spec fn said(report: Option<Value>) -> Option<Value> {
    if is_nothing(report) {
        None
    } else {
        report
    }
}

/// `after` has the metadata, the tags and the error history of `before`.
pub open spec fn keeps_record(before: Value, after: Value) -> bool {
    let b = payload::payload_of(before);
    let a = payload::payload_of(after);
    &&& payload::payload_readable(after)
    &&& a.metadata == b.metadata
    &&& a.tags == b.tags
    &&& a.errors == b.errors
}

/// The entry of the error history for `error` in `attempt` at `at`. Only one that
/// ends the job is marked.
pub open spec fn is_error_entry(
    value: Value,
    error: Seq<char>,
    attempt: i16,
    at: Timestamp,
    terminal: bool,
) -> bool {
    &&& entry(value, "error"@) matches Some(v) && json::node(v) == JsonNode::Text(error)
    &&& entry(value, "attempt"@) matches Some(v) && json::node(v) == JsonNode::Int(attempt as int)
    &&& entry(value, "at"@) matches Some(v) && json::node(v) == JsonNode::Text(
        clock::rfc3339_text(at.secs, at.nanos),
    )
    &&& terminal ==> (entry(value, "terminal"@) matches Some(v) && json::node(v)
        == JsonNode::Bool(true))
    &&& !terminal ==> entry(value, "terminal"@) is None
}

/// `after` is the record of `before` with this error added at its end.
pub open spec fn adds_error(
    before: Value,
    error: Seq<char>,
    attempt: i16,
    at: Timestamp,
    terminal: bool,
    after: Value,
) -> bool {
    let b = payload::payload_of(before);
    let a = payload::payload_of(after);
    &&& payload::payload_readable(after)
    &&& a.metadata == b.metadata
    &&& a.tags == b.tags
    &&& a.errors.len() == b.errors.len() + 1
    &&& a.errors.drop_last() == b.errors
    &&& is_error_entry(a.errors.last(), error, attempt, at, terminal)
}

/// The progress that a worker leaves behind: what it reports now, or else what it
/// reported last.
pub open spec fn last_said(row: LeaseTransitionRow, report: Option<Value>) -> Option<Value> {
    if report is Some {
        said(report)
    } else {
        said(row.progress)
    }
}

/// The progress of an attempt whose worker is gone: what it reported last, or
/// what is stored when it has reported nothing.
pub open spec fn found_progress(row: LeaseTransitionRow) -> Option<Value> {
    if row.progress is Some {
        said(row.progress)
    } else {
        payload::payload_of(row.payload).progress
    }
}

pub proof fn lemma_error_is_added(
    before: Value,
    base: PayloadView,
    error: Seq<char>,
    attempt: i16,
    at: Timestamp,
    terminal: bool,
    after: Value,
)
    requires
        payload::payload_readable(before),
        base.metadata == payload::payload_of(before).metadata,
        base.tags == payload::payload_of(before).tags,
        base.errors == payload::payload_of(before).errors,
        !is_nothing(base.progress) || base.progress is None,
        transitions::records_error(base, error, attempt, at, terminal, after),
    ensures
        adds_error(before, error, attempt, at, terminal, after),
        payload::payload_of(after).progress == base.progress,
{
    let noted = choose|noted: Value| #[trigger]
        payload::is_lifecycle_error(noted, error, attempt, at, terminal)
            && payload::payload_writes(base.with_error(noted), after);
    payload::law_payload_round_trip(base.with_error(noted), after);
    payload::lemma_error_entry_names();
    assert(base.with_error(noted).errors.drop_last() =~= base.errors);
    let entries = json::node(noted)->Object_0;
    assert(entries.dom().contains("error"@));
    assert(entries.dom().contains("attempt"@));
    assert(entries.dom().contains("at"@));
    assert(entries.dom().contains("terminal"@) == terminal);
}

pub proof fn lemma_record_is_kept(before: Value, base: PayloadView, after: Value)
    requires
        payload::payload_readable(before),
        base.metadata == payload::payload_of(before).metadata,
        base.tags == payload::payload_of(before).tags,
        base.errors == payload::payload_of(before).errors,
        payload::payload_writes(base, after),
    ensures
        keeps_record(before, after),
        payload::payload_of(after).progress == said(base.progress),
{
    payload::lemma_field_names();
    let read = payload::payload_of(after);
    let entries = json::node(after)->Object_0;
    assert(entries.dom().contains("tags"@) == (base.tags.len() > 0));
    assert(entries.dom().contains("errors"@) == (base.errors.len() > 0));
    assert(entries.dom().contains("progress"@) == (base.progress is Some));
    assert(entries.dom().contains("metadata"@) == (base.metadata != JsonNode::Object(
        json::no_entries(),
    )));
    assert(read.tags =~= base.tags);
    assert(read.errors =~= base.errors);
}

/// A claimed job is the enqueued job: kind, queue, arguments, attempts and all the
/// rest are those of the row that was claimed, and the job runs.
pub proof fn law_claim_hands_out_the_row(row: ReadyJobLeaseRow, job: JobRow)
    requires
        call_ensures(ReadyJobLeaseRow::into_job_row, (row,), Ok(job)),
    ensures
        job.essence() == (JobEssence { unique_states: None, ..row.essence() }),
        job.state is Running,
        job.heartbeat_at == row.heartbeat_at,
        job.deadline_at == row.deadline_at,
        job.finalized_at is None,
        job.callback_id is None,
        job.callback_timeout_at is None,
        job.history() == payload::payload_of(row.payload).errors,
        payload::texts(job.tags@) == payload::payload_of(row.payload).tags,
        job.progress == payload::payload_of(row.payload).progress,
{
    let seen = choose|seen: PayloadView| #[trigger] row.starts_from(seen) && job.shows(seen);
    assert(job.history() =~= seen.errors);
}

/// The metadata of a claimed job are those that are stored. A job that was raised
/// above its lane has the lane's priority noted beside them, unless one is noted
/// already.
pub proof fn law_claim_notes_the_lane(row: ReadyJobLeaseRow, job: JobRow, name: Seq<char>)
    requires
        call_ensures(ReadyJobLeaseRow::into_job_row, (row,), Ok(job)),
    ensures
        json::node(job.metadata) is Object,
        row.priority >= row.lane_priority ==> json::node(job.metadata) == payload::payload_of(
            row.payload,
        ).metadata,
        row.priority < row.lane_priority ==> ({
            let stored = payload::payload_of(row.payload).metadata->Object_0;
            let shown = json::node(job.metadata)->Object_0;
            &&& stored.dom().contains(name) ==> shown.dom().contains(name) && shown[name]
                == stored[name]
            &&& name != "_awa_original_priority"@ && shown.dom().contains(name)
                ==> stored.dom().contains(name)
            &&& shown.dom().contains("_awa_original_priority"@)
            &&& !stored.dom().contains("_awa_original_priority"@) ==> json::node(
                shown["_awa_original_priority"@],
            ) == JsonNode::Int(row.lane_priority as int)
        }),
{
    let seen = choose|seen: PayloadView| #[trigger] row.starts_from(seen) && job.shows(seen);
}

/// The claim stands where the row stood on its lane, and says whether it was made
/// by receipt.
pub proof fn law_claim_is_on_the_row(
    row: ReadyJobLeaseRow,
    by_receipt: bool,
    claim: ClaimedEntry,
)
    requires
        call_ensures(ReadyJobLeaseRow::claim_ref, (&row, by_receipt), claim),
    ensures
        place(
            claim.ready_slot,
            claim.ready_generation,
            claim.lane_seq,
            claim.enqueue_shard,
        ) == place(row.ready_slot, row.ready_generation, row.lane_seq, row.enqueue_shard),
        claim.queue@ == row.queue@,
        claim.priority == row.lane_priority,
        claim.lease_slot == row.lease_slot,
        claim.lease_generation == row.lease_generation,
        claim.claim_slot == row.claim_slot,
        claim.receipt_id == row.receipt_id,
        claim.claim_batch_id == row.claim_batch_id,
        claim.claim_batch_index == row.claim_batch_index,
        claim.lease_claim_receipt == by_receipt,
{
}

/// A claim of many rows hands out each of them, in order: the job as it was
/// enqueued, and the claim on its place.
pub proof fn law_claims_hand_out_the_rows(
    rows: Vec<ReadyJobLeaseRow>,
    by_receipt: bool,
    jobs: Vec<ClaimedRuntimeJob>,
    i: int,
)
    requires
        call_ensures(claimed_runtime_jobs, (rows, by_receipt), Ok(jobs)),
        0 <= i < rows@.len(),
    ensures
        jobs@.len() == rows@.len(),
        jobs@[i].job.essence() == (JobEssence { unique_states: None, ..rows@[i].essence() }),
        chars_of(jobs@[i].unique_states) == rows@[i].essence().unique_states,
        jobs@[i].job.state is Running,
        jobs@[i].job.heartbeat_at == rows@[i].heartbeat_at,
        jobs@[i].job.deadline_at == rows@[i].deadline_at,
        jobs@[i].job.history() == payload::payload_of(rows@[i].payload).errors,
        payload::texts(jobs@[i].job.tags@) == payload::payload_of(rows@[i].payload).tags,
        jobs@[i].job.progress == payload::payload_of(rows@[i].payload).progress,
        jobs@[i].claim.queue@ == rows@[i].queue@,
        jobs@[i].claim.priority == rows@[i].lane_priority,
        place(
            jobs@[i].claim.ready_slot,
            jobs@[i].claim.ready_generation,
            jobs@[i].claim.lane_seq,
            jobs@[i].claim.enqueue_shard,
        ) == place(
            rows@[i].ready_slot,
            rows@[i].ready_generation,
            rows@[i].lane_seq,
            rows@[i].enqueue_shard,
        ),
        jobs@[i].claim.claim_slot == rows@[i].claim_slot,
        jobs@[i].claim.receipt_id == rows@[i].receipt_id,
        jobs@[i].claim.lease_slot == rows@[i].lease_slot,
        jobs@[i].claim.lease_generation == rows@[i].lease_generation,
        jobs@[i].claim.claim_batch_id == rows@[i].claim_batch_id,
        jobs@[i].claim.claim_batch_index == rows@[i].claim_batch_index,
        jobs@[i].claim.lease_claim_receipt == by_receipt,
{
    let row = rows@[i];
    let job = jobs@[i].job;
    let seen = choose|seen: PayloadView| #[trigger] row.starts_from(seen) && job.shows(seen);
    assert(job.history() =~= seen.errors);
}

/// Completing keeps what the job has recorded: the completed row is the claimed
/// job on its place, and reads back with its metadata, its tags and its error
/// history, and without progress.
pub proof fn law_completion_keeps_the_record(
    claimed: ClaimedRuntimeJob,
    at: Timestamp,
    done: DoneJobRow,
)
    requires
        call_ensures(ClaimedRuntimeJob::done_row, (&claimed, at), done)
            || call_ensures(ClaimedRuntimeJob::into_done_row, (claimed, at), done),
    ensures
        is_completed_form(claimed, at, done),
{
    lemma_completed_form(claimed, at, done);
}

/// `done` is the claimed job, completed: the same job on the same place, with all
/// that it has recorded but its progress.
pub open spec fn is_completed_form(
    claimed: ClaimedRuntimeJob,
    at: Timestamp,
    done: DoneJobRow,
) -> bool {
    &&& done.state is Completed
    &&& done.finalized_at == at
    &&& done.essence() == (JobEssence {
        priority: claimed.claim.priority,
        unique_states: chars_of(claimed.unique_states),
        ..claimed.job.essence()
    })
    &&& place(done.ready_slot, done.ready_generation, done.lane_seq, done.enqueue_shard) == place(
        claimed.claim.ready_slot,
        claimed.claim.ready_generation,
        claimed.claim.lane_seq,
        claimed.claim.enqueue_shard,
    )
    &&& items(entry(done.payload, "errors"@)) == claimed.job.history()
    &&& items(entry(done.payload, "tags"@)).len() == claimed.job.tags@.len()
    &&& forall|i: int|
        0 <= i < claimed.job.tags@.len() ==> json::node(
            #[trigger] items(entry(done.payload, "tags"@))[i],
        ) == JsonNode::Text(claimed.job.tags@[i]@)
    &&& entry(done.payload, "metadata"@) matches Some(v) ==> json::node(v) == json::node(
        claimed.job.metadata,
    )
    &&& entry(done.payload, "metadata"@) is None ==> json::is_empty_object(claimed.job.metadata)
    &&& entry(done.payload, "progress"@) is None
    &&& json::node(claimed.job.metadata) is Object ==> {
        let read = payload::payload_of(done.payload);
        &&& payload::payload_readable(done.payload)
        &&& read.metadata == json::node(claimed.job.metadata)
        &&& read.tags == payload::texts(claimed.job.tags@)
        &&& read.errors == claimed.job.history()
        &&& read.progress is None
    }
}

pub proof fn lemma_completed_form(claimed: ClaimedRuntimeJob, at: Timestamp, done: DoneJobRow)
    requires
        claimed.completes_as(at, done),
    ensures
        is_completed_form(claimed, at, done),
{
    payload::lemma_field_names();
    let kept = PayloadView {
        metadata: json::node(claimed.job.metadata),
        tags: payload::texts(claimed.job.tags@),
        errors: match claimed.job.errors {
            Some(errors) => errors@,
            None => Seq::empty(),
        },
        progress: None,
    };
    let entries = json::node(done.payload)->Object_0;
    assert(entries.dom().contains("tags"@) == (kept.tags.len() > 0));
    assert(entries.dom().contains("errors"@) == (kept.errors.len() > 0));
    assert(!entries.dom().contains("progress"@));
    assert(entries.dom().contains("metadata"@) == (kept.metadata != JsonNode::Object(
        json::no_entries(),
    )));
    assert(items(entry(done.payload, "errors"@)) =~= claimed.job.history());
    assert forall|i: int| 0 <= i < claimed.job.tags@.len() implies json::node(
        #[trigger] items(entry(done.payload, "tags"@))[i],
    ) == JsonNode::Text(claimed.job.tags@[i]@) by {
        assert(kept.tags[i] == claimed.job.tags@[i]@);
    }
    if json::node(claimed.job.metadata) is Object {
        payload::law_payload_round_trip(kept, done.payload);
    }
}

/// Closing attempts completes the jobs that were claimed under them and no
/// others: each row written is one of the claimed jobs in its completed form,
/// under the very attempt that was closed.
pub proof fn law_closed_claims_are_completed(
    claimed: Vec<ClaimedRuntimeJob>,
    closed: Vec<(i64, i64)>,
    at: Timestamp,
    completion: Completion,
    k: int,
)
    requires
        call_ensures(complete_claims, (&claimed, &closed, at), completion),
        0 <= k < completion.done@.len(),
    ensures
        completion.pairs@.len() == completion.done@.len(),
        closed@.contains(completion.pairs@[k]),
        completion.pairs@[k] == (completion.done@[k].job_id, completion.done@[k].run_lease),
        exists|i: int|
            #![trigger claimed@[i]]
            0 <= i < claimed@.len() && (claimed@[i].job.id, claimed@[i].job.run_lease)
                == completion.pairs@[k] && is_completed_form(
                claimed@[i],
                at,
                completion.done@[k],
            ),
{
    completion::law_completion_is_of_claims(claimed@, closed@, at, completion, k);
    let pair = completion.pairs@[k];
    completion::lemma_claim_on(claimed@, pair);
    let found = completion::claim_on(claimed@, pair)->0;
    assert(found.completes_as(at, completion.done@[k]));
    lemma_completed_form(found, at, completion.done@[k]);
    let i = choose|i: int| 0 <= i < claimed@.len() && claimed@[i] == found;
    assert(claimed@[i] == found);
}

/// No attempt that was closed is forgotten: if it was claimed, it is completed.
pub proof fn law_every_closed_claim_is_completed(
    claimed: Vec<ClaimedRuntimeJob>,
    closed: Vec<(i64, i64)>,
    at: Timestamp,
    completion: Completion,
    i: int,
    c: int,
)
    requires
        call_ensures(complete_claims, (&claimed, &closed, at), completion),
        0 <= i < claimed@.len(),
        0 <= c < closed@.len(),
        closed@[c] == (claimed@[i].job.id, claimed@[i].job.run_lease),
    ensures
        completion.pairs@.contains(closed@[c]),
        completion.done@.len() == completion.pairs@.len(),
{
    broadcast use vstd::seq_lib::group_filter_ensures;

    let known = |pair: (i64, i64)| completion::claim_on(claimed@, pair) is Some;
    completion::lemma_claim_on(claimed@, closed@[c]);
    assert(completion::attempt_of(claimed@[i]) == closed@[c]);
    assert(known(closed@[c]));
    assert(completion.pairs@ == closed@.filter(known));
    assert(closed@.filter(known).contains(closed@[c]));
}

/// Attempts that are completed off the lease plane keep their record too, one row
/// each, in order.
pub proof fn law_completed_attempts_keep_the_record(
    moved: Vec<LeaseTransitionRow>,
    at: Timestamp,
    completion: Completion,
    i: int,
)
    requires
        call_ensures(complete_attempts, (moved, at), Ok(completion)),
        0 <= i < moved@.len(),
    ensures
        completion.done@.len() == moved@.len(),
        completion.pairs@.len() == moved@.len(),
        completion.pairs@[i] == (moved@[i].job_id, moved@[i].run_lease),
        is_ended(moved@[i], JobState::Completed, at, completion.done@[i]),
        keeps_record(moved@[i].payload, completion.done@[i].payload),
        payload::payload_of(completion.done@[i].payload).progress is None,
{
    let row = moved@[i];
    let done = completion.done@[i];
    assert(completion::completes_attempt(row, at, done));
    let base = payload::payload_of(row.payload).with_progress(None);
    lemma_record_is_kept(row.payload, base, done.payload);
}

/// `done` is the attempt in this terminal state, at this time: the same job on
/// the same place.
pub open spec fn is_ended(
    row: LeaseTransitionRow,
    state: JobState,
    at: Timestamp,
    done: DoneJobRow,
) -> bool {
    &&& done.state == state
    &&& done.finalized_at == at
    &&& done.essence() == row.essence()
    &&& place(done.ready_slot, done.ready_generation, done.lane_seq, done.enqueue_shard) == place(
        row.ready_slot,
        row.ready_generation,
        row.lane_seq,
        row.enqueue_shard,
    )
}

/// `deferred` is the job waiting for another attempt from `run_at` on.
pub open spec fn is_put_off(
    row: LeaseTransitionRow,
    state: JobState,
    run_at: Timestamp,
    finalized_at: Option<Timestamp>,
    deferred: DeferredJobRow,
) -> bool {
    &&& deferred.state == state
    &&& deferred.finalized_at == finalized_at
    &&& deferred.essence() == (JobEssence { run_at, ..row.essence() })
}

/// Whichever way a failure goes, the row that it leaves reads back as the earlier
/// error history with exactly one entry more, of the given text, attempt and time,
/// marked terminal exactly when no attempt is left; with the metadata and the tags
/// as they were, and the progress that the worker left.
pub proof fn law_failure_is_recorded(
    row: LeaseTransitionRow,
    now: Timestamp,
    error: &str,
    report: Option<Value>,
    retry_at: Timestamp,
    out: FailedAttempt,
)
    requires
        call_ensures(
            LeaseTransitionRow::fail_retryable,
            (row, now, error, report, retry_at),
            Ok(out),
        ),
    ensures
        match out {
            FailedAttempt::Done(done) => {
                &&& row.attempt >= row.max_attempts
                &&& is_ended(row, JobState::Failed, now, done)
                &&& adds_error(row.payload, error@, row.attempt, now, true, done.payload)
                &&& payload::payload_of(done.payload).progress == last_said(row, report)
            },
            FailedAttempt::Deferred(deferred) => {
                &&& row.attempt < row.max_attempts
                &&& is_put_off(row, JobState::Retryable, retry_at, Some(now), deferred)
                &&& adds_error(row.payload, error@, row.attempt, now, false, deferred.payload)
                &&& payload::payload_of(deferred.payload).progress == last_said(row, report)
            },
        },
{
    let base = row.left_behind(report).settled();
    let terminal = row.attempt >= row.max_attempts;
    match out {
        FailedAttempt::Done(done) => {
            lemma_error_is_added(
                row.payload,
                base,
                error@,
                row.attempt,
                now,
                terminal,
                done.payload,
            );
        },
        FailedAttempt::Deferred(deferred) => {
            lemma_error_is_added(
                row.payload,
                base,
                error@,
                row.attempt,
                now,
                terminal,
                deferred.payload,
            );
        },
    }
}

/// A failure for good ends the job as failed, and says why.
pub proof fn law_terminal_failure_is_recorded(
    row: LeaseTransitionRow,
    now: Timestamp,
    error: &str,
    report: Option<Value>,
    done: DoneJobRow,
)
    requires
        call_ensures(LeaseTransitionRow::fail_terminal, (row, now, error, report), Ok(done)),
    ensures
        is_ended(row, JobState::Failed, now, done),
        adds_error(row.payload, error@, row.attempt, now, true, done.payload),
        payload::payload_of(done.payload).progress == last_said(row, report),
{
    let base = row.left_behind(report).settled();
    lemma_error_is_added(row.payload, base, error@, row.attempt, now, true, done.payload);
}

/// A failure into the dead-letter queue keeps the whole job, says why it failed
/// and why it is there, and remembers the lease under which it failed.
pub proof fn law_dead_letter_is_recorded(
    row: LeaseTransitionRow,
    now: Timestamp,
    reason: &str,
    error: &str,
    report: Option<Value>,
    dead: DlqJobRow,
)
    requires
        call_ensures(LeaseTransitionRow::fail_to_dlq, (row, now, reason, error, report), Ok(dead)),
    ensures
        dead.essence() == row.essence(),
        dead.state is Failed,
        dead.finalized_at == now,
        dead.dlq_at == now,
        dead.dlq_reason@ == reason@,
        dead.original_run_lease == row.run_lease,
        adds_error(row.payload, error@, row.attempt, now, true, dead.payload),
        payload::payload_of(dead.payload).progress == last_said(row, report),
{
    let base = row.left_behind(report).settled();
    lemma_error_is_added(row.payload, base, error@, row.attempt, now, true, dead.payload);
}

/// A job that its worker cancels is cancelled with the reason in its error
/// history, which does not count as a failure.
pub proof fn law_own_cancellation_is_recorded(
    row: LeaseTransitionRow,
    now: Timestamp,
    reason: &str,
    report: Option<Value>,
    done: DoneJobRow,
)
    requires
        call_ensures(LeaseTransitionRow::cancel_running, (row, now, reason, report), Ok(done)),
    ensures
        is_ended(row, JobState::Cancelled, now, done),
        adds_error(
            row.payload,
            "cancelled: "@ + reason@,
            row.attempt,
            now,
            false,
            done.payload,
        ),
        payload::payload_of(done.payload).progress == last_said(row, report),
{
    let base = row.left_behind(report).settled();
    let text = "cancelled: "@ + reason@;
    lemma_error_is_added(row.payload, base, text, row.attempt, now, false, done.payload);
}

/// A rescue keeps the checkpoint of the worker that is gone: the row that it
/// leaves reads back with the progress that was reported last, or else with the
/// stored one, and with the cause added to the error history. Only a callback
/// that timed out ends a job, and only on its last attempt.
pub proof fn law_rescue_keeps_the_checkpoint(
    row: LeaseTransitionRow,
    cause: RescueCause,
    now: Timestamp,
    retry_at: Timestamp,
    out: FailedAttempt,
)
    requires
        call_ensures(LeaseTransitionRow::rescue, (row, cause, now, retry_at), Ok(out)),
    ensures
        out is Done <==> cause is CallbackTimeout && row.attempt >= row.max_attempts,
        match out {
            FailedAttempt::Done(done) => {
                &&& is_ended(row, JobState::Failed, now, done)
                &&& adds_error(row.payload, cause.text(), row.attempt, now, true, done.payload)
                &&& payload::payload_of(done.payload).progress == found_progress(row)
            },
            FailedAttempt::Deferred(deferred) => {
                &&& is_put_off(row, JobState::Retryable, retry_at, Some(now), deferred)
                &&& adds_error(
                    row.payload,
                    cause.text(),
                    row.attempt,
                    now,
                    false,
                    deferred.payload,
                )
                &&& payload::payload_of(deferred.payload).progress == found_progress(row)
            },
        },
{
    let base = row.abandoned().settled();
    let terminal = cause.can_exhaust() && row.exhausted();
    lemma_stored_progress_is_not_null(row.payload);
    match out {
        FailedAttempt::Done(done) => {
            lemma_error_is_added(
                row.payload,
                base,
                cause.text(),
                row.attempt,
                now,
                terminal,
                done.payload,
            );
        },
        FailedAttempt::Deferred(deferred) => {
            lemma_error_is_added(
                row.payload,
                base,
                cause.text(),
                row.attempt,
                now,
                terminal,
                deferred.payload,
            );
        },
    }
}

pub proof fn lemma_stored_progress_is_not_null(stored: Value)
    ensures
        !is_nothing(payload::payload_of(stored).progress) || payload::payload_of(stored).progress
            is None,
{
}

/// The causes of a rescue can be told apart in the error history.
pub proof fn law_rescue_causes_are_distinct(a: RescueCause, b: RescueCause)
    requires
        a != b,
    ensures
        a.text() != b.text(),
        a.text().len() > 0,
{
    reveal_strlit("heartbeat stale: worker presumed dead");
    reveal_strlit("receipt claim stale: worker presumed dead");
    reveal_strlit("hard deadline exceeded");
    reveal_strlit("callback timed out");
    assert("heartbeat stale: worker presumed dead"@.len() == 37);
    assert("receipt claim stale: worker presumed dead"@.len() == 41);
    assert("hard deadline exceeded"@.len() == 22);
    assert("callback timed out"@.len() == 18);
}

/// A retry after a delay keeps the job and its record; it waits from now on for
/// the delay, with the progress that the worker left.
pub proof fn law_retry_after_keeps_the_job(
    row: LeaseTransitionRow,
    now: Timestamp,
    delay: Span,
    report: Option<Value>,
    deferred: DeferredJobRow,
)
    requires
        call_ensures(LeaseTransitionRow::retry_after, (row, now, delay, report), Ok(deferred)),
    ensures
        is_put_off(row, JobState::Retryable, clock::ahead(now, delay), Some(now), deferred),
        keeps_record(row.payload, deferred.payload),
        payload::payload_of(deferred.payload).progress == last_said(row, report),
{
    lemma_record_is_kept(row.payload, row.left_behind(report), deferred.payload);
}

/// A snoozed job waits as if the attempt had not been made: its count goes back
/// by one, and nothing else changes but the time.
pub proof fn law_snooze_takes_the_attempt_back(
    row: LeaseTransitionRow,
    now: Timestamp,
    delay: Span,
    report: Option<Value>,
    deferred: DeferredJobRow,
)
    requires
        call_ensures(LeaseTransitionRow::snooze, (row, now, delay, report), Ok(deferred)),
    ensures
        deferred.state is Scheduled,
        deferred.finalized_at is None,
        row.attempt > i16::MIN ==> deferred.attempt == row.attempt - 1,
        row.attempt == i16::MIN ==> deferred.attempt == row.attempt,
        deferred.essence() == (JobEssence {
            run_at: clock::ahead(now, delay),
            attempt: deferred.attempt,
            ..row.essence()
        }),
        keeps_record(row.payload, deferred.payload),
        payload::payload_of(deferred.payload).progress == last_said(row, report),
{
    lemma_record_is_kept(row.payload, row.left_behind(report), deferred.payload);
}

/// A parked attempt that a callback completes keeps its record, without progress.
pub proof fn law_outside_completion_keeps_the_record(
    row: LeaseTransitionRow,
    now: Timestamp,
    done: DoneJobRow,
)
    requires
        call_ensures(LeaseTransitionRow::complete_external, (row, now), Ok(done)),
    ensures
        is_ended(row, JobState::Completed, now, done),
        keeps_record(row.payload, done.payload),
        payload::payload_of(done.payload).progress is None,
{
    let base = payload::payload_of(row.payload).with_progress(None);
    lemma_record_is_kept(row.payload, base, done.payload);
}

/// A parked attempt that a callback fails has the callback's own error added to
/// its history: every entry of it that the callback gave, and attempt, time and
/// the mark of an end where it gave none.
pub proof fn law_outside_failure_is_recorded(
    row: LeaseTransitionRow,
    given: Value,
    now: Timestamp,
    done: DoneJobRow,
)
    requires
        call_ensures(LeaseTransitionRow::fail_external, (row, given, now), Ok(done)),
    ensures
        is_ended(row, JobState::Failed, now, done),
        payload::payload_readable(done.payload),
        payload::payload_of(done.payload).metadata == payload::payload_of(row.payload).metadata,
        payload::payload_of(done.payload).tags == payload::payload_of(row.payload).tags,
        payload::payload_of(done.payload).progress == found_progress(row),
        payload::payload_of(done.payload).errors.len() == payload::payload_of(
            row.payload,
        ).errors.len() + 1,
        payload::payload_of(done.payload).errors.drop_last() == payload::payload_of(
            row.payload,
        ).errors,
        ({
            let noted = payload::payload_of(done.payload).errors.last();
            &&& json::node(noted) is Object
            &&& json::node(given) is Object ==> forall|name: Seq<char>|
                json::node(given)->Object_0.dom().contains(name) ==> #[trigger] entry(noted, name)
                    == Some(json::node(given)->Object_0[name])
            &&& !(json::node(given) is Object) ==> entry(noted, "error"@) == Some(given)
            &&& entry(given, "attempt"@) is None ==> (entry(noted, "attempt"@) matches Some(v)
                && json::node(v) == JsonNode::Int(row.attempt as int))
            &&& entry(given, "at"@) is None ==> (entry(noted, "at"@) matches Some(v)
                && json::node(v) == JsonNode::Text(clock::rfc3339_text(now.secs, now.nanos)))
            &&& entry(given, "terminal"@) is None ==> (entry(noted, "terminal"@) matches Some(v)
                && json::node(v) == JsonNode::Bool(true))
        }),
{
    payload::lemma_error_entry_names();
    lemma_stored_progress_is_not_null(row.payload);
    let base = row.abandoned().settled();
    let noted = choose|noted: Value| #[trigger]
        transitions::is_callback_error(given, row.attempt, now, noted) && payload::payload_writes(
            base.with_error(noted),
            done.payload,
        );
    payload::law_payload_round_trip(base.with_error(noted), done.payload);
    assert(base.with_error(noted).errors.drop_last() =~= base.errors);
    let own = transitions::callback_entries(given);
    let entries = json::node(noted)->Object_0;
    assert(own.dom().contains("error"@) || !own.dom().contains("error"@));
    assert(entries.dom().contains("attempt"@));
    assert(entries.dom().contains("at"@));
    assert(entries.dom().contains("terminal"@));
    if json::node(given) is Object {
        assert forall|name: Seq<char>|
            json::node(given)->Object_0.dom().contains(name) implies #[trigger] entry(noted, name)
            == Some(json::node(given)->Object_0[name]) by {
            assert(own.dom().contains(name));
            assert(entries.dom().contains(name));
        }
    } else {
        assert(own.dom().contains("error"@));
        assert(entries.dom().contains("error"@));
    }
}

/// `ready` is the attempt's job back on the ready plane, due now, with its
/// attempts counted afresh.
pub open spec fn is_restarted(
    row: LeaseTransitionRow,
    now: Timestamp,
    attempted_at: Option<Timestamp>,
    ready: ExistingReadyRow,
) -> bool {
    ready.essence() == (JobEssence { attempt: 0, run_at: now, attempted_at, ..row.essence() })
}

/// A parked job that is retried is the same job with its record and the progress
/// that was found; a callback leaves the time of its last attempt, an operator
/// does not.
pub proof fn law_parked_retry_keeps_the_record(
    row: LeaseTransitionRow,
    now: Timestamp,
    by_callback: bool,
    ready: ExistingReadyRow,
)
    requires
        by_callback ==> call_ensures(LeaseTransitionRow::retry_external, (row, now), Ok(ready)),
        !by_callback ==> call_ensures(LeaseTransitionRow::retry_parked, (row, now), Ok(ready)),
    ensures
        is_restarted(
            row,
            now,
            if by_callback {
                row.attempted_at
            } else {
                None
            },
            ready,
        ),
        keeps_record(row.payload, ready.payload),
        payload::payload_of(ready.payload).progress == found_progress(row),
{
    lemma_stored_progress_is_not_null(row.payload);
    lemma_record_is_kept(row.payload, row.abandoned(), ready.payload);
}

/// An attempt that an operator cancels ends as it was found, with its record and
/// its progress.
pub proof fn law_cancelled_attempt_keeps_the_record(
    row: LeaseTransitionRow,
    now: Timestamp,
    done: DoneJobRow,
)
    requires
        call_ensures(LeaseTransitionRow::cancel, (row, now), Ok(done)),
    ensures
        is_ended(row, JobState::Cancelled, now, done),
        keeps_record(row.payload, done.payload),
        payload::payload_of(done.payload).progress == found_progress(row),
{
    lemma_stored_progress_is_not_null(row.payload);
    lemma_record_is_kept(row.payload, row.abandoned(), done.payload);
}

/// `stored` is what a new job starts with: its metadata and its tags, no error
/// and no progress.
pub open spec fn is_first_record(job: PreparedJob, stored: Value) -> bool {
    &&& json::node(stored) is Object
    &&& items(entry(stored, "errors"@)) == Seq::<Value>::empty()
    &&& entry(stored, "progress"@) is None
    &&& items(entry(stored, "tags"@)).len() == job.tags@.len()
    &&& forall|i: int|
        0 <= i < job.tags@.len() ==> json::node(#[trigger] items(entry(stored, "tags"@))[i])
            == JsonNode::Text(job.tags@[i]@)
    &&& entry(stored, "metadata"@) matches Some(v) ==> json::node(v) == json::node(job.metadata)
    &&& entry(stored, "metadata"@) is None ==> json::is_empty_object(job.metadata)
}

/// `row` is the job on the ready plane: what the producer gave, on this queue,
/// with no attempt made.
pub open spec fn is_ready_form(
    job: PreparedJob,
    queue: Seq<char>,
    now: Timestamp,
    row: RuntimeReadyRow,
) -> bool {
    &&& row.kind@ == job.kind@
    &&& row.queue@ == queue
    &&& row.args == job.args
    &&& row.priority == job.priority
    &&& row.max_attempts == job.max_attempts
    &&& row.attempt == 0
    &&& row.run_lease == 0
    &&& row.attempted_at is None
    &&& row.created_at == now
    &&& job.run_at is Some ==> Some(row.run_at) == job.run_at
    &&& job.run_at is None ==> row.run_at == now
    &&& bytes_of(row.unique_key) == bytes_of(job.unique_key)
    &&& chars_of(row.unique_states) == chars_of(job.unique_states)
    &&& bytes_of(row.ordering_key) == bytes_of(job.ordering_key)
    &&& is_first_record(job, row.payload)
}

/// `row` is the job on the schedule: what the producer gave, on this queue, with
/// no attempt made.
pub open spec fn is_scheduled_form(
    job: PreparedJob,
    queue: Seq<char>,
    now: Timestamp,
    row: DeferredJobRow,
) -> bool {
    &&& row.state is Scheduled
    &&& row.kind@ == job.kind@
    &&& row.queue@ == queue
    &&& row.args == job.args
    &&& row.priority == job.priority
    &&& row.max_attempts == job.max_attempts
    &&& row.attempt == 0
    &&& row.run_lease == 0
    &&& row.attempted_at is None
    &&& row.finalized_at is None
    &&& row.created_at == now
    &&& job.run_at is Some ==> Some(row.run_at) == job.run_at
    &&& job.run_at is None ==> row.run_at == now
    &&& bytes_of(row.unique_key) == bytes_of(job.unique_key)
    &&& chars_of(row.unique_states) == chars_of(job.unique_states)
    &&& is_first_record(job, row.payload)
}

proof fn lemma_first_record(job: PreparedJob, stored: Value)
    requires
        job.payload_stored(stored),
    ensures
        is_first_record(job, stored),
{
    payload::lemma_field_names();
    let entries = json::node(stored)->Object_0;
    let tags = payload::texts(job.tags@);
    assert(entries.dom().contains("tags"@) == (tags.len() > 0));
    assert(!entries.dom().contains("errors"@));
    assert(!entries.dom().contains("progress"@));
    assert(entries.dom().contains("metadata"@) == (json::node(job.metadata) != JsonNode::Object(
        json::no_entries(),
    )));
    assert forall|i: int| 0 <= i < job.tags@.len() implies json::node(
        #[trigger] items(entry(stored, "tags"@))[i],
    ) == JsonNode::Text(job.tags@[i]@) by {
        assert(tags[i] == job.tags@[i]@);
    }
}

/// Whichever plane a job is taken in on, its row has what the producer gave: kind,
/// arguments, priority, attempts, unique key and unique states, metadata and tags.
/// A job that can run is ready, and one that waits is scheduled.
pub proof fn law_intake_keeps_the_job(
    job: PreparedJob,
    queue: String,
    now: Timestamp,
    row: IntakeRow,
)
    requires
        call_ensures(intake_row, (job, queue, now), Ok(row)),
    ensures
        match row {
            IntakeRow::Ready(ready) => job.state is Available && is_ready_form(
                job,
                queue@,
                now,
                ready,
            ),
            IntakeRow::Scheduled(deferred) => job.state is Scheduled && is_scheduled_form(
                job,
                queue@,
                now,
                deferred,
            ),
        },
{
    match row {
        IntakeRow::Ready(ready) => lemma_first_record(job, ready.payload),
        IntakeRow::Scheduled(deferred) => lemma_first_record(job, deferred.payload),
    }
}

/// A batch takes in every job: as many rows as jobs, and each job has its row on
/// the plane of its state.
pub proof fn law_batch_takes_in_every_job(
    storage: QueueStorage,
    jobs: Vec<PreparedJob>,
    now: Timestamp,
    taken: Intake,
    i: int,
)
    requires
        call_ensures(QueueStorage::take_in, (&storage, jobs, now), Ok(taken)),
        0 <= i < jobs@.len() <= usize::MAX,
    ensures
        taken.ready@.len() + taken.scheduled@.len() == jobs@.len(),
        jobs@[i].state is Available || jobs@[i].state is Scheduled,
        jobs@[i].state is Available ==> exists|k: int|
            #![trigger taken.ready@[k]]
            0 <= k < taken.ready@.len() && is_ready_form(
                jobs@[i],
                taken.ready@[k].queue@,
                now,
                taken.ready@[k],
            ) && storage.logical(taken.ready@[k].queue@) == storage.logical(jobs@[i].queue@),
        jobs@[i].state is Scheduled ==> exists|k: int|
            #![trigger taken.scheduled@[k]]
            0 <= k < taken.scheduled@.len() && is_scheduled_form(
                jobs@[i],
                taken.scheduled@[k].queue@,
                now,
                taken.scheduled@[k],
            ) && storage.logical(taken.scheduled@[k].queue@) == storage.logical(jobs@[i].queue@),
{
    intake::law_every_job_is_taken_in(&storage, jobs@, now, taken);
    assert(intake::can_start(jobs@[i].state));
    let (ready_at, scheduled_at) = choose|ready_at: Seq<usize>, scheduled_at: Seq<usize>|
        #[trigger] storage.sorts_in(jobs@, now, taken, ready_at, scheduled_at);
    let available = |i: int| jobs@[i].state == JobState::Available;
    let waiting = |i: int| jobs@[i].state == JobState::Scheduled;
    if available(i) {
        assert(ready_at.contains(i as usize));
        let k = choose|k: int| 0 <= k < ready_at.len() && ready_at[k] == i as usize;
        let row = taken.ready@[k];
        lemma_first_record(jobs@[i], row.payload);
        lemma_taken_in_on_its_queue(&storage, jobs@[i], i, row.queue@);
    } else {
        assert(waiting(i));
        assert(scheduled_at.contains(i as usize));
        let k = choose|k: int| 0 <= k < scheduled_at.len() && scheduled_at[k] == i as usize;
        let row = taken.scheduled@[k];
        lemma_first_record(jobs@[i], row.payload);
        lemma_taken_in_on_its_queue(&storage, jobs@[i], i, row.queue@);
    }
}

proof fn lemma_taken_in_on_its_queue(
    storage: &QueueStorage,
    job: PreparedJob,
    place: int,
    queue: Seq<char>,
)
    requires
        storage.takes_in_at(job, place, queue),
    ensures
        storage.logical(queue) == storage.logical(job.queue@),
{
    let stripes = storage.layout().queue_stripe_count;
    match job.unique_key {
        Some(_) => {
            let hash = choose|hash: u64|
                queue == #[trigger] storage.striped_queue(job.queue@, Some(hash), place as i64);
            lemma_stripe_is_of_the_queue(storage, job.queue@, Some(hash), place as i64);
        },
        None => lemma_stripe_is_of_the_queue(storage, job.queue@, None, place as i64),
    }
}

pub proof fn lemma_stripe_is_of_the_queue(
    storage: &QueueStorage,
    queue: Seq<char>,
    hash: Option<u64>,
    salt: i64,
)
    ensures
        storage.logical(storage.striped_queue(queue, hash, salt)) == storage.logical(queue),
{
    let stripes = storage.layout().queue_stripe_count;
    if storage.striped() && !storage.physical(queue) {
        match hash {
            Some(h) => storage::law_stripe_leads_back(queue, (h as usize) % stripes),
            None => {
                vstd::arithmetic::div_mod::lemma_mod_bound(salt as int, stripes as int);
                storage::law_stripe_leads_back(queue, (salt as int % stripes as int) as usize);
            },
        }
    }
}

} // verus!
