//! Claimed jobs: what a claim hands to the runtime, and what the runtime hands
//! back when the attempt has succeeded.
use crate::clock::Timestamp;
use crate::error::AwaError;
use crate::job::{JobRow, JobState};
use crate::json;
use crate::json::JsonNode;
use crate::payload;
use crate::payload::{PayloadView, RuntimePayload};
use crate::rows::{DoneJobRow, ReadyJobLeaseRow};
use crate::unique;
use serde_json::Value;
use vstd::prelude::*;
use vstd::string::*;

verus! {

/// A claim on a ready row.
#[derive(Debug, Clone, PartialEq, Eq)]
pub struct ClaimedEntry {
    pub queue: String,
    pub priority: i16,
    pub lane_seq: i64,
    pub ready_slot: i32,
    pub ready_generation: i64,
    pub lease_slot: i32,
    pub lease_generation: i64,
    /// The partition of the claim ring that holds the attempt's receipt.
    pub claim_slot: i32,
    /// Identity of the receipt, for receipt-backed claims.
    pub receipt_id: Option<i64>,
    /// The compact claim batch that holds the receipt, when one does.
    pub claim_batch_id: Option<i64>,
    /// One-based position inside that batch.
    pub claim_batch_index: Option<i32>,
    pub lease_claim_receipt: bool,
    /// The enqueue shard that the row was claimed from.
    pub enqueue_shard: i16,
}

/// A claimed job, ready to run.
#[derive(Debug, Clone)]
pub struct ClaimedRuntimeJob {
    pub claim: ClaimedEntry,
    pub job: JobRow,
    pub unique_states: Option<String>,
}

impl ClaimedRuntimeJob {
    /// `done` is the claimed job in its completed form: the claim's position,
    /// the job's own fields, and its payload without progress.
    pub open spec fn completes_as(self, finalized_at: Timestamp, done: DoneJobRow) -> bool {
        &&& done == (DoneJobRow {
            ready_slot: self.claim.ready_slot,
            ready_generation: self.claim.ready_generation,
            job_id: self.job.id,
            kind: self.job.kind,
            queue: self.job.queue,
            args: self.job.args,
            state: JobState::Completed,
            priority: self.claim.priority,
            attempt: self.job.attempt,
            run_lease: self.job.run_lease,
            max_attempts: self.job.max_attempts,
            lane_seq: self.claim.lane_seq,
            enqueue_shard: self.claim.enqueue_shard,
            run_at: self.job.run_at,
            attempted_at: self.job.attempted_at,
            finalized_at,
            created_at: self.job.created_at,
            unique_key: done.unique_key,
            unique_states: self.unique_states,
            payload: done.payload,
        })
        &&& unique::key_view(done.unique_key) == unique::key_view(self.job.unique_key)
        &&& payload::payload_writes(
            PayloadView {
                metadata: json::node(self.job.metadata),
                tags: payload::texts(self.job.tags@),
                errors: match self.job.errors {
                    Some(errors) => errors@,
                    None => Seq::empty(),
                },
                progress: None,
            },
            done.payload,
        )
    }

    /// The claimed job in its completed form.
    pub fn done_row(&self, finalized_at: Timestamp) -> (done: DoneJobRow)
        ensures
            self.completes_as(finalized_at, done),
    {
        let errors = match &self.job.errors {
            Some(errors) => Some(json::clone_items(errors)),
            None => None,
        };
        let payload = payload::payload_from_parts(
            self.job.metadata.clone(),
            clone_texts(&self.job.tags),
            errors,
            None,
        );
        let unique_key = match &self.job.unique_key {
            Some(bytes) => Some(unique::clone_bytes(bytes)),
            None => None,
        };
        DoneJobRow {
            ready_slot: self.claim.ready_slot,
            ready_generation: self.claim.ready_generation,
            job_id: self.job.id,
            kind: self.job.kind.clone(),
            queue: self.job.queue.clone(),
            args: self.job.args.clone(),
            state: JobState::Completed,
            priority: self.claim.priority,
            attempt: self.job.attempt,
            run_lease: self.job.run_lease,
            max_attempts: self.job.max_attempts,
            lane_seq: self.claim.lane_seq,
            enqueue_shard: self.claim.enqueue_shard,
            run_at: self.job.run_at,
            attempted_at: self.job.attempted_at,
            finalized_at,
            created_at: self.job.created_at,
            unique_key,
            unique_states: clone_text_opt(&self.unique_states),
            payload,
        }
    }

    /// The claimed job in its completed form.
    pub fn into_done_row(self, finalized_at: Timestamp) -> (done: DoneJobRow)
        ensures
            self.completes_as(finalized_at, done),
    {
        self.done_row(finalized_at)
    }
}

/// Clones a list of texts.
pub fn clone_texts(items: &Vec<String>) -> (r: Vec<String>)
    ensures
        r@ == items@,
{
    let mut out: Vec<String> = Vec::new();
    let mut i: usize = 0;
    while i < items.len()
        invariant
            i <= items@.len(),
            out@ == items@.subrange(0, i as int),
        decreases items.len() - i,
    {
        out.push(items[i].clone());
        i = i + 1;
        assert(items@.subrange(0, i as int) =~= items@.subrange(0, i - 1).push(items@[i - 1]));
    }
    assert(items@.subrange(0, items@.len() as int) =~= items@);
    out
}

impl ReadyJobLeaseRow {
    /// The claim that was taken on the row.
    pub open spec fn claim(self, lease_claim_receipt: bool) -> ClaimedEntry {
        ClaimedEntry {
            queue: self.queue,
            priority: self.lane_priority,
            lane_seq: self.lane_seq,
            ready_slot: self.ready_slot,
            ready_generation: self.ready_generation,
            lease_slot: self.lease_slot,
            lease_generation: self.lease_generation,
            claim_slot: self.claim_slot,
            receipt_id: self.receipt_id,
            claim_batch_id: self.claim_batch_id,
            claim_batch_index: self.claim_batch_index,
            lease_claim_receipt,
            enqueue_shard: self.enqueue_shard,
        }
    }

    /// The claim that was taken on the row.
    pub fn claim_ref(&self, lease_claim_receipt: bool) -> (r: ClaimedEntry)
        ensures
            r == self.claim(lease_claim_receipt),
    {
        ClaimedEntry {
            queue: self.queue.clone(),
            priority: self.lane_priority,
            lane_seq: self.lane_seq,
            ready_slot: self.ready_slot,
            ready_generation: self.ready_generation,
            lease_slot: self.lease_slot,
            lease_generation: self.lease_generation,
            claim_slot: self.claim_slot,
            receipt_id: self.receipt_id,
            claim_batch_id: self.claim_batch_id,
            claim_batch_index: self.claim_batch_index,
            lease_claim_receipt,
            enqueue_shard: self.enqueue_shard,
        }
    }

    /// The payload that the attempt starts from. When aging has raised the
    /// job above its lane, the lane's priority is noted as the original one,
    /// unless one is noted already.
    pub open spec fn starts_from(self, seen: PayloadView) -> bool {
        let stored = payload::payload_of(self.payload);
        if self.priority < self.lane_priority {
            exists|original: Value|
                json::node(original) == JsonNode::Int(self.lane_priority as int) && seen
                    == stored.with_metadata(
                    #[trigger] payload::with_entry_if_absent(
                        stored.metadata,
                        "_awa_original_priority"@,
                        original,
                    ),
                )
        } else {
            seen == stored
        }
    }

    /// `job` is the row as the runtime sees it.
    pub open spec fn becomes(self, job: JobRow) -> bool {
        &&& job == (JobRow {
            id: self.job_id,
            kind: self.kind,
            queue: self.queue,
            args: self.args,
            state: JobState::Running,
            priority: self.priority,
            attempt: self.attempt,
            run_lease: self.run_lease,
            max_attempts: self.max_attempts,
            run_at: self.run_at,
            heartbeat_at: self.heartbeat_at,
            deadline_at: self.deadline_at,
            attempted_at: self.attempted_at,
            finalized_at: None,
            created_at: self.created_at,
            errors: job.errors,
            metadata: job.metadata,
            tags: job.tags,
            unique_key: self.unique_key,
            unique_states: None,
            callback_id: None,
            callback_timeout_at: None,
            callback_filter: None,
            callback_on_complete: None,
            callback_on_fail: None,
            callback_transform: None,
            progress: job.progress,
        })
        &&& exists|seen: PayloadView| #[trigger] self.starts_from(seen) && job.shows(seen)
    }

    /// The row as the runtime sees it.
    pub fn into_job_row(self) -> (r: Result<JobRow, AwaError>)
        ensures
            match r {
                Ok(job) => payload::payload_readable(self.payload) && self.becomes(job),
                Err(err) => !payload::payload_readable(self.payload) && payload::is_payload_error(
                    self.payload,
                    err,
                ),
            },
    {
        let mut payload = match RuntimePayload::from_json(self.payload) {
            Ok(payload) => payload,
            Err(err) => return Err(err),
        };
        if self.priority < self.lane_priority {
            let original = json::int_value(self.lane_priority as i64);
            payload.note_metadata_entry("_awa_original_priority", original);
        }
        let ghost seen = payload@;
        let job = JobRow {
            id: self.job_id,
            kind: self.kind,
            queue: self.queue,
            args: self.args,
            state: JobState::Running,
            priority: self.priority,
            attempt: self.attempt,
            run_lease: self.run_lease,
            max_attempts: self.max_attempts,
            run_at: self.run_at,
            heartbeat_at: self.heartbeat_at,
            deadline_at: self.deadline_at,
            attempted_at: self.attempted_at,
            finalized_at: None,
            created_at: self.created_at,
            errors: payload.errors_option(),
            metadata: payload.metadata,
            tags: payload.tags,
            unique_key: self.unique_key,
            unique_states: None,
            callback_id: None,
            callback_timeout_at: None,
            callback_filter: None,
            callback_on_complete: None,
            callback_on_fail: None,
            callback_transform: None,
            progress: payload.progress,
        };
        assert(job.shows(seen));
        assert(self.starts_from(seen));
        Ok(job)
    }

    /// The claimed job that the runtime is handed.
    pub fn into_claimed_runtime_job(self, lease_claim_receipt: bool) -> (r: Result<
        ClaimedRuntimeJob,
        AwaError,
    >)
        ensures
            match r {
                Ok(claimed) => {
                    &&& payload::payload_readable(self.payload)
                    &&& claimed.claim == self.claim(lease_claim_receipt)
                    &&& self.becomes(claimed.job)
                    &&& claimed.unique_states == self.unique_states
                },
                Err(err) => !payload::payload_readable(self.payload) && payload::is_payload_error(
                    self.payload,
                    err,
                ),
            },
    {
        let claim = self.claim_ref(lease_claim_receipt);
        let unique_states = clone_text_opt(&self.unique_states);
        match self.into_job_row() {
            Ok(job) => Ok(ClaimedRuntimeJob { claim, job, unique_states }),
            Err(err) => Err(err),
        }
    }
}

/// Clones an optional string.
pub fn clone_text_opt(text: &Option<String>) -> (r: Option<String>)
    ensures
        r == *text,
{
    match text {
        Some(s) => Some(s.clone()),
        None => None,
    }
}

/// Turns the rows of one claim statement into claimed jobs, in order. A row
/// that cannot be read fails the whole batch, with the error of the first one.
pub fn claimed_runtime_jobs(rows: Vec<ReadyJobLeaseRow>, lease_claim_receipt: bool) -> (r: Result<
    Vec<ClaimedRuntimeJob>,
    AwaError,
>)
    ensures
        match r {
            Ok(jobs) => jobs@.len() == rows@.len() && forall|i: int|
                #![trigger jobs@[i]]
                #![trigger rows@[i]]
                0 <= i < rows@.len() ==> {
                    &&& payload::payload_readable(rows@[i].payload)
                    &&& jobs@[i].claim == rows@[i].claim(lease_claim_receipt)
                    &&& rows@[i].becomes(jobs@[i].job)
                    &&& jobs@[i].unique_states == rows@[i].unique_states
                },
            Err(err) => exists|i: int|
                #![trigger rows@[i]]
                0 <= i < rows@.len() && !payload::payload_readable(rows@[i].payload)
                    && payload::is_payload_error(rows@[i].payload, err) && forall|j: int|
                    #![trigger rows@[j]]
                    0 <= j < i ==> payload::payload_readable(rows@[j].payload),
        },
{
    let mut jobs: Vec<ClaimedRuntimeJob> = Vec::new();
    for row in it: rows
        invariant
            it.seq() == rows@,
            jobs@.len() == it.index(),
            forall|i: int|
                #![trigger jobs@[i]]
                #![trigger rows@[i]]
                0 <= i < it.index() ==> {
                    &&& payload::payload_readable(rows@[i].payload)
                    &&& jobs@[i].claim == rows@[i].claim(lease_claim_receipt)
                    &&& rows@[i].becomes(jobs@[i].job)
                    &&& jobs@[i].unique_states == rows@[i].unique_states
                },
    {
        assert(row == rows@[it.index()]);
        match row.into_claimed_runtime_job(lease_claim_receipt) {
            Ok(job) => jobs.push(job),
            Err(err) => return Err(err),
        }
    }
    Ok(jobs)
}

} // verus!
