//! The rows of the engine's tables, and how a job moves between them.
use crate::clock::Timestamp;
use crate::error;
use crate::error::AwaError;
use crate::job;
use crate::job::{JobRow, JobState};
use crate::json;
use crate::payload;
use crate::payload::{PayloadView, RuntimePayload};
use serde_json::Value;
use vstd::prelude::*;
use vstd::string::*;

verus! {

/// A row of the ready plane, as a lookup by job id finds it.
#[derive(Debug)]
pub struct ReadyJobRow {
    pub job_id: i64,
    pub kind: String,
    pub queue: String,
    pub args: Value,
    pub priority: i16,
    pub attempt: i16,
    pub run_lease: i64,
    pub max_attempts: i16,
    pub run_at: Timestamp,
    pub attempted_at: Option<Timestamp>,
    pub created_at: Timestamp,
    pub unique_key: Option<Vec<u8>>,
    pub payload: Value,
}

impl ReadyJobRow {
    /// `job` is the row as its callers see it.
    pub open spec fn becomes(self, job: JobRow) -> bool {
        &&& job == (JobRow {
            id: self.job_id,
            kind: self.kind,
            queue: self.queue,
            args: self.args,
            state: JobState::Available,
            priority: self.priority,
            attempt: self.attempt,
            run_lease: self.run_lease,
            max_attempts: self.max_attempts,
            run_at: self.run_at,
            heartbeat_at: None,
            deadline_at: None,
            attempted_at: self.attempted_at,
            finalized_at: None,
            created_at: self.created_at,
            errors: job.errors,
            metadata: job.metadata,
            tags: job.tags,
            unique_key: self.unique_key,
            unique_states: None,
            callback_id: None,
            callback_timeout_at: None,
            callback_filter: None,
            callback_on_complete: None,
            callback_on_fail: None,
            callback_transform: None,
            progress: job.progress,
        })
        &&& job.shows(payload::payload_of(self.payload))
    }

    /// The row as its callers see it.
    pub fn into_job_row(self) -> (r: Result<JobRow, AwaError>)
        ensures
            match r {
                Ok(job) => payload::payload_readable(self.payload) && self.becomes(job),
                Err(err) => !payload::payload_readable(self.payload)
                    && payload::is_payload_error(self.payload, err),
            },
    {
        match RuntimePayload::from_json(self.payload) {
            Err(err) => Err(err),
            Ok(payload) => Ok(
                JobRow {
                    id: self.job_id,
                    kind: self.kind,
                    queue: self.queue,
                    args: self.args,
                    state: JobState::Available,
                    priority: self.priority,
                    attempt: self.attempt,
                    run_lease: self.run_lease,
                    max_attempts: self.max_attempts,
                    run_at: self.run_at,
                    heartbeat_at: None,
                    deadline_at: None,
                    attempted_at: self.attempted_at,
                    finalized_at: None,
                    created_at: self.created_at,
                    errors: payload.errors_option(),
                    metadata: payload.metadata,
                    tags: payload.tags,
                    unique_key: self.unique_key,
                    unique_states: None,
                    callback_id: None,
                    callback_timeout_at: None,
                    callback_filter: None,
                    callback_on_complete: None,
                    callback_on_fail: None,
                    callback_transform: None,
                    progress: payload.progress,
                },
            ),
        }
    }
}

/// A ready row that is about to leave its lane position.
#[derive(Debug)]
pub struct ReadyTransitionRow {
    pub ready_slot: i32,
    pub ready_generation: i64,
    pub job_id: i64,
    pub kind: String,
    pub queue: String,
    pub args: Value,
    pub priority: i16,
    pub attempt: i16,
    pub run_lease: i64,
    pub max_attempts: i16,
    pub lane_seq: i64,
    pub enqueue_shard: i16,
    pub run_at: Timestamp,
    pub attempted_at: Option<Timestamp>,
    pub created_at: Timestamp,
    pub unique_key: Option<Vec<u8>>,
    pub unique_states: Option<String>,
    pub payload: Value,
}

/// A ready row together with the claim that has just been taken on it.
#[derive(Debug)]
pub struct ReadyJobLeaseRow {
    pub ready_slot: i32,
    pub ready_generation: i64,
    pub lane_seq: i64,
    pub enqueue_shard: i16,
    pub lease_slot: i32,
    pub lease_generation: i64,
    pub claim_slot: i32,
    pub receipt_id: Option<i64>,
    pub claim_batch_id: Option<i64>,
    pub claim_batch_index: Option<i32>,
    pub job_id: i64,
    pub kind: String,
    pub queue: String,
    pub args: Value,
    /// The priority of the lane that the row was claimed from.
    pub lane_priority: i16,
    /// The priority at which the attempt runs, which aging may have raised
    /// above the lane's.
    pub priority: i16,
    pub attempt: i16,
    pub run_lease: i64,
    pub max_attempts: i16,
    pub run_at: Timestamp,
    pub heartbeat_at: Option<Timestamp>,
    pub deadline_at: Option<Timestamp>,
    pub attempted_at: Option<Timestamp>,
    pub created_at: Timestamp,
    pub unique_key: Option<Vec<u8>>,
    pub unique_states: Option<String>,
    pub payload: Value,
}

/// A row to be enqueued, before it has an id and a lane position.
#[derive(Debug)]
pub struct RuntimeReadyRow {
    pub kind: String,
    pub queue: String,
    pub args: Value,
    pub priority: i16,
    pub attempt: i16,
    pub run_lease: i64,
    pub max_attempts: i16,
    pub run_at: Timestamp,
    pub attempted_at: Option<Timestamp>,
    pub created_at: Timestamp,
    pub unique_key: Option<Vec<u8>>,
    pub unique_states: Option<String>,
    pub payload: Value,
    /// Rows that share a key go to one shard of their lane, so that they keep
    /// their order; rows without one share the rotor's pick.
    pub ordering_key: Option<Vec<u8>>,
}

/// A row of the ready plane with its id and its lane position.
#[derive(Debug)]
pub struct RuntimeReadyInsert {
    pub job_id: i64,
    pub kind: String,
    pub queue: String,
    pub args: Value,
    pub priority: i16,
    pub attempt: i16,
    pub run_lease: i64,
    pub max_attempts: i16,
    pub run_at: Timestamp,
    pub attempted_at: Option<Timestamp>,
    pub lane_seq: i64,
    pub enqueue_shard: i16,
    pub created_at: Timestamp,
    pub unique_key: Option<Vec<u8>>,
    pub unique_states: Option<String>,
    pub payload: Value,
}

/// A run of consecutive lane positions whose rows may run from the same time.
#[derive(Debug)]
pub struct ReadySegmentInsert {
    pub queue: String,
    pub priority: i16,
    pub enqueue_shard: i16,
    pub first_lane_seq: i64,
    /// One past the last lane position.
    pub next_lane_seq: i64,
    pub first_run_at: Timestamp,
}

/// A terminal row.
#[derive(Debug)]
pub struct DoneJobRow {
    pub ready_slot: i32,
    pub ready_generation: i64,
    pub job_id: i64,
    pub kind: String,
    pub queue: String,
    pub args: Value,
    pub state: JobState,
    pub priority: i16,
    pub attempt: i16,
    pub run_lease: i64,
    pub max_attempts: i16,
    pub lane_seq: i64,
    pub enqueue_shard: i16,
    pub run_at: Timestamp,
    pub attempted_at: Option<Timestamp>,
    pub finalized_at: Timestamp,
    pub created_at: Timestamp,
    pub unique_key: Option<Vec<u8>>,
    pub unique_states: Option<String>,
    pub payload: Value,
}

impl DoneJobRow {
    /// `job` is the row as its callers see it.
    pub open spec fn becomes(self, job: JobRow) -> bool {
        &&& job == (JobRow {
            id: self.job_id,
            kind: self.kind,
            queue: self.queue,
            args: self.args,
            state: self.state,
            priority: self.priority,
            attempt: self.attempt,
            run_lease: self.run_lease,
            max_attempts: self.max_attempts,
            run_at: self.run_at,
            heartbeat_at: None,
            deadline_at: None,
            attempted_at: self.attempted_at,
            finalized_at: Some(self.finalized_at),
            created_at: self.created_at,
            errors: job.errors,
            metadata: job.metadata,
            tags: job.tags,
            unique_key: self.unique_key,
            unique_states: None,
            callback_id: None,
            callback_timeout_at: None,
            callback_filter: None,
            callback_on_complete: None,
            callback_on_fail: None,
            callback_transform: None,
            progress: job.progress,
        })
        &&& job.shows(payload::payload_of(self.payload))
    }

    /// The row as its callers see it.
    pub fn into_job_row(self) -> (r: Result<JobRow, AwaError>)
        ensures
            match r {
                Ok(job) => payload::payload_readable(self.payload) && self.becomes(job),
                Err(err) => !payload::payload_readable(self.payload)
                    && payload::is_payload_error(self.payload, err),
            },
    {
        match RuntimePayload::from_json(self.payload) {
            Err(err) => Err(err),
            Ok(payload) => Ok(
                JobRow {
                    id: self.job_id,
                    kind: self.kind,
                    queue: self.queue,
                    args: self.args,
                    state: self.state,
                    priority: self.priority,
                    attempt: self.attempt,
                    run_lease: self.run_lease,
                    max_attempts: self.max_attempts,
                    run_at: self.run_at,
                    heartbeat_at: None,
                    deadline_at: None,
                    attempted_at: self.attempted_at,
                    finalized_at: Some(self.finalized_at),
                    created_at: self.created_at,
                    errors: payload.errors_option(),
                    metadata: payload.metadata,
                    tags: payload.tags,
                    unique_key: self.unique_key,
                    unique_states: None,
                    callback_id: None,
                    callback_timeout_at: None,
                    callback_filter: None,
                    callback_on_complete: None,
                    callback_on_fail: None,
                    callback_transform: None,
                    progress: payload.progress,
                },
            ),
        }
    }
}

/// A row of the dead-letter queue.
#[derive(Debug)]
pub struct DlqJobRow {
    pub job_id: i64,
    pub kind: String,
    pub queue: String,
    pub args: Value,
    pub state: JobState,
    pub priority: i16,
    pub attempt: i16,
    pub run_lease: i64,
    pub max_attempts: i16,
    pub run_at: Timestamp,
    pub attempted_at: Option<Timestamp>,
    pub finalized_at: Timestamp,
    pub created_at: Timestamp,
    pub unique_key: Option<Vec<u8>>,
    pub unique_states: Option<String>,
    pub payload: Value,
    pub dlq_reason: String,
    pub dlq_at: Timestamp,
    pub original_run_lease: i64,
}

impl DlqJobRow {
    /// `job` is the row as its callers see it.
    pub open spec fn becomes(self, job: JobRow) -> bool {
        &&& job == (JobRow {
            id: self.job_id,
            kind: self.kind,
            queue: self.queue,
            args: self.args,
            state: self.state,
            priority: self.priority,
            attempt: self.attempt,
            run_lease: self.run_lease,
            max_attempts: self.max_attempts,
            run_at: self.run_at,
            heartbeat_at: None,
            deadline_at: None,
            attempted_at: self.attempted_at,
            finalized_at: Some(self.finalized_at),
            created_at: self.created_at,
            errors: job.errors,
            metadata: job.metadata,
            tags: job.tags,
            unique_key: self.unique_key,
            unique_states: None,
            callback_id: None,
            callback_timeout_at: None,
            callback_filter: None,
            callback_on_complete: None,
            callback_on_fail: None,
            callback_transform: None,
            progress: job.progress,
        })
        &&& job.shows(payload::payload_of(self.payload))
    }

    /// The row as its callers see it.
    pub fn into_job_row(self) -> (r: Result<JobRow, AwaError>)
        ensures
            match r {
                Ok(job) => payload::payload_readable(self.payload) && self.becomes(job),
                Err(err) => !payload::payload_readable(self.payload)
                    && payload::is_payload_error(self.payload, err),
            },
    {
        match RuntimePayload::from_json(self.payload) {
            Err(err) => Err(err),
            Ok(payload) => Ok(
                JobRow {
                    id: self.job_id,
                    kind: self.kind,
                    queue: self.queue,
                    args: self.args,
                    state: self.state,
                    priority: self.priority,
                    attempt: self.attempt,
                    run_lease: self.run_lease,
                    max_attempts: self.max_attempts,
                    run_at: self.run_at,
                    heartbeat_at: None,
                    deadline_at: None,
                    attempted_at: self.attempted_at,
                    finalized_at: Some(self.finalized_at),
                    created_at: self.created_at,
                    errors: payload.errors_option(),
                    metadata: payload.metadata,
                    tags: payload.tags,
                    unique_key: self.unique_key,
                    unique_states: None,
                    callback_id: None,
                    callback_timeout_at: None,
                    callback_filter: None,
                    callback_on_complete: None,
                    callback_on_fail: None,
                    callback_transform: None,
                    progress: payload.progress,
                },
            ),
        }
    }
}

/// A job that goes back to the ready plane under its id.
#[derive(Debug, Clone)]
pub struct ExistingReadyRow {
    pub job_id: i64,
    pub kind: String,
    pub queue: String,
    pub args: Value,
    pub priority: i16,
    pub attempt: i16,
    pub run_lease: i64,
    pub max_attempts: i16,
    pub run_at: Timestamp,
    pub attempted_at: Option<Timestamp>,
    pub created_at: Timestamp,
    pub unique_key: Option<Vec<u8>>,
    pub unique_states: Option<String>,
    pub payload: Value,
}

/// A lease or claim that has just been taken out of its table.
#[derive(Debug)]
pub struct DeletedLeaseRow {
    pub ready_slot: i32,
    pub ready_generation: i64,
    pub job_id: i64,
    pub queue: String,
    pub state: JobState,
    pub priority: i16,
    pub attempt: i16,
    pub run_lease: i64,
    pub max_attempts: i16,
    pub lane_seq: i64,
    pub enqueue_shard: i16,
    pub attempted_at: Option<Timestamp>,
}

/// What the ready plane knows of a leased job.
#[derive(Debug)]
pub struct ReadySnapshotRow {
    pub ready_slot: i32,
    pub ready_generation: i64,
    pub job_id: i64,
    pub kind: String,
    pub queue: String,
    pub args: Value,
    pub lane_seq: i64,
    pub enqueue_shard: i16,
    pub run_at: Timestamp,
    pub created_at: Timestamp,
    pub unique_key: Option<Vec<u8>>,
    pub unique_states: Option<String>,
    pub payload: Value,
}

/// The mutable state of an attempt.
#[derive(Debug)]
pub struct AttemptStateRow {
    pub job_id: i64,
    pub run_lease: i64,
    pub progress: Option<Value>,
    pub callback_filter: Option<String>,
    pub callback_on_complete: Option<String>,
    pub callback_on_fail: Option<String>,
    pub callback_transform: Option<String>,
    pub callback_result: Option<Value>,
}

/// An attempt that has been taken out of its lease, with all that is known of it.
#[derive(Debug)]
pub struct LeaseTransitionRow {
    pub ready_slot: i32,
    pub ready_generation: i64,
    pub job_id: i64,
    pub kind: String,
    pub queue: String,
    pub args: Value,
    pub state: JobState,
    pub priority: i16,
    pub attempt: i16,
    pub run_lease: i64,
    pub max_attempts: i16,
    pub lane_seq: i64,
    pub enqueue_shard: i16,
    pub run_at: Timestamp,
    pub attempted_at: Option<Timestamp>,
    pub created_at: Timestamp,
    pub unique_key: Option<Vec<u8>>,
    pub unique_states: Option<String>,
    pub payload: Value,
    pub progress: Option<Value>,
}

/// An attempt under way, as a lookup finds it.
#[derive(Debug)]
pub struct LeaseJobRow {
    pub job_id: i64,
    pub kind: String,
    pub queue: String,
    pub args: Value,
    pub state: JobState,
    pub priority: i16,
    pub attempt: i16,
    pub run_lease: i64,
    pub max_attempts: i16,
    pub run_at: Timestamp,
    pub heartbeat_at: Option<Timestamp>,
    pub deadline_at: Option<Timestamp>,
    pub attempted_at: Option<Timestamp>,
    pub finalized_at: Option<Timestamp>,
    pub created_at: Timestamp,
    pub unique_key: Option<Vec<u8>>,
    pub callback_id: Option<u128>,
    pub callback_timeout_at: Option<Timestamp>,
    pub callback_filter: Option<String>,
    pub callback_on_complete: Option<String>,
    pub callback_on_fail: Option<String>,
    pub callback_transform: Option<String>,
    pub payload: Value,
    pub progress: Option<Value>,
    pub callback_result: Option<Value>,
}

/// A job that waits for its time.
#[derive(Debug)]
pub struct DeferredJobRow {
    pub job_id: i64,
    pub kind: String,
    pub queue: String,
    pub args: Value,
    pub state: JobState,
    pub priority: i16,
    pub attempt: i16,
    pub run_lease: i64,
    pub max_attempts: i16,
    pub run_at: Timestamp,
    pub attempted_at: Option<Timestamp>,
    pub finalized_at: Option<Timestamp>,
    pub created_at: Timestamp,
    pub unique_key: Option<Vec<u8>>,
    pub unique_states: Option<String>,
    pub payload: Value,
}

impl DeferredJobRow {
    /// `job` is the row as its callers see it.
    pub open spec fn becomes(self, job: JobRow) -> bool {
        &&& job == (JobRow {
            id: self.job_id,
            kind: self.kind,
            queue: self.queue,
            args: self.args,
            state: self.state,
            priority: self.priority,
            attempt: self.attempt,
            run_lease: self.run_lease,
            max_attempts: self.max_attempts,
            run_at: self.run_at,
            heartbeat_at: None,
            deadline_at: None,
            attempted_at: self.attempted_at,
            finalized_at: self.finalized_at,
            created_at: self.created_at,
            errors: job.errors,
            metadata: job.metadata,
            tags: job.tags,
            unique_key: self.unique_key,
            unique_states: None,
            callback_id: None,
            callback_timeout_at: None,
            callback_filter: None,
            callback_on_complete: None,
            callback_on_fail: None,
            callback_transform: None,
            progress: job.progress,
        })
        &&& job.shows(payload::payload_of(self.payload))
    }

    /// The row as its callers see it.
    pub fn into_job_row(self) -> (r: Result<JobRow, AwaError>)
        ensures
            match r {
                Ok(job) => payload::payload_readable(self.payload) && self.becomes(job),
                Err(err) => !payload::payload_readable(self.payload)
                    && payload::is_payload_error(self.payload, err),
            },
    {
        match RuntimePayload::from_json(self.payload) {
            Err(err) => Err(err),
            Ok(payload) => Ok(
                JobRow {
                    id: self.job_id,
                    kind: self.kind,
                    queue: self.queue,
                    args: self.args,
                    state: self.state,
                    priority: self.priority,
                    attempt: self.attempt,
                    run_lease: self.run_lease,
                    max_attempts: self.max_attempts,
                    run_at: self.run_at,
                    heartbeat_at: None,
                    deadline_at: None,
                    attempted_at: self.attempted_at,
                    finalized_at: self.finalized_at,
                    created_at: self.created_at,
                    errors: payload.errors_option(),
                    metadata: payload.metadata,
                    tags: payload.tags,
                    unique_key: self.unique_key,
                    unique_states: None,
                    callback_id: None,
                    callback_timeout_at: None,
                    callback_filter: None,
                    callback_on_complete: None,
                    callback_on_fail: None,
                    callback_transform: None,
                    progress: payload.progress,
                },
            ),
        }
    }
}

impl ReadyTransitionRow {
    /// The row on its way back into the ready plane, on another lane.
    pub fn into_existing_ready_row(self, queue: String, priority: i16, payload: Value) -> (r: ExistingReadyRow)
        ensures
            r == (ExistingReadyRow {
                job_id: self.job_id,
                kind: self.kind,
                queue,
                args: self.args,
                priority,
                attempt: self.attempt,
                run_lease: self.run_lease,
                max_attempts: self.max_attempts,
                run_at: self.run_at,
                attempted_at: self.attempted_at,
                created_at: self.created_at,
                unique_key: self.unique_key,
                unique_states: self.unique_states,
                payload,
            }),
    {
        ExistingReadyRow {
            job_id: self.job_id,
            kind: self.kind,
            queue,
            args: self.args,
            priority,
            attempt: self.attempt,
            run_lease: self.run_lease,
            max_attempts: self.max_attempts,
            run_at: self.run_at,
            attempted_at: self.attempted_at,
            created_at: self.created_at,
            unique_key: self.unique_key,
            unique_states: self.unique_states,
            payload,
        }
    }

    /// The row in a terminal state.
    pub fn into_done_row(self, state: JobState, finalized_at: Timestamp, payload: Value) -> (r: DoneJobRow)
        ensures
            r == (DoneJobRow {
                ready_slot: self.ready_slot,
                ready_generation: self.ready_generation,
                job_id: self.job_id,
                kind: self.kind,
                queue: self.queue,
                args: self.args,
                state,
                priority: self.priority,
                attempt: self.attempt,
                run_lease: self.run_lease,
                max_attempts: self.max_attempts,
                lane_seq: self.lane_seq,
                enqueue_shard: self.enqueue_shard,
                run_at: self.run_at,
                attempted_at: self.attempted_at,
                finalized_at,
                created_at: self.created_at,
                unique_key: self.unique_key,
                unique_states: self.unique_states,
                payload,
            }),
    {
        DoneJobRow {
            ready_slot: self.ready_slot,
            ready_generation: self.ready_generation,
            job_id: self.job_id,
            kind: self.kind,
            queue: self.queue,
            args: self.args,
            state,
            priority: self.priority,
            attempt: self.attempt,
            run_lease: self.run_lease,
            max_attempts: self.max_attempts,
            lane_seq: self.lane_seq,
            enqueue_shard: self.enqueue_shard,
            run_at: self.run_at,
            attempted_at: self.attempted_at,
            finalized_at,
            created_at: self.created_at,
            unique_key: self.unique_key,
            unique_states: self.unique_states,
            payload,
        }
    }
}

impl DoneJobRow {
    /// The row in the dead-letter queue.
    pub fn into_dlq_row(self, dlq_reason: String, dlq_at: Timestamp) -> (r: DlqJobRow)
        ensures
            r == (DlqJobRow {
                job_id: self.job_id,
                kind: self.kind,
                queue: self.queue,
                args: self.args,
                state: self.state,
                priority: self.priority,
                attempt: self.attempt,
                run_lease: self.run_lease,
                max_attempts: self.max_attempts,
                run_at: self.run_at,
                attempted_at: self.attempted_at,
                finalized_at: self.finalized_at,
                created_at: self.created_at,
                unique_key: self.unique_key,
                unique_states: self.unique_states,
                payload: self.payload,
                dlq_reason,
                dlq_at,
                original_run_lease: self.run_lease,
            }),
    {
        DlqJobRow {
            job_id: self.job_id,
            kind: self.kind,
            queue: self.queue,
            args: self.args,
            state: self.state,
            priority: self.priority,
            attempt: self.attempt,
            run_lease: self.run_lease,
            max_attempts: self.max_attempts,
            run_at: self.run_at,
            attempted_at: self.attempted_at,
            finalized_at: self.finalized_at,
            created_at: self.created_at,
            unique_key: self.unique_key,
            unique_states: self.unique_states,
            payload: self.payload,
            dlq_reason,
            dlq_at,
            original_run_lease: self.run_lease,
        }
    }
}

impl DlqJobRow {
    /// The job back on the ready plane, with its attempts counted afresh.
    pub fn into_retry_ready_row(self, queue: String, priority: i16, run_at: Timestamp, payload: Value) -> (r: ExistingReadyRow)
        ensures
            r == (ExistingReadyRow {
                job_id: self.job_id,
                kind: self.kind,
                queue,
                args: self.args,
                priority,
                attempt: 0,
                run_lease: self.run_lease,
                max_attempts: self.max_attempts,
                run_at,
                attempted_at: None,
                created_at: self.created_at,
                unique_key: self.unique_key,
                unique_states: self.unique_states,
                payload,
            }),
    {
        ExistingReadyRow {
            job_id: self.job_id,
            kind: self.kind,
            queue,
            args: self.args,
            priority,
            attempt: 0,
            run_lease: self.run_lease,
            max_attempts: self.max_attempts,
            run_at,
            attempted_at: None,
            created_at: self.created_at,
            unique_key: self.unique_key,
            unique_states: self.unique_states,
            payload,
        }
    }

    /// The job back among the scheduled ones, with its attempts counted afresh.
    pub fn into_retry_deferred_row(self, queue: String, priority: i16, run_at: Timestamp, payload: Value) -> (r: DeferredJobRow)
        ensures
            r == (DeferredJobRow {
                job_id: self.job_id,
                kind: self.kind,
                queue,
                args: self.args,
                state: JobState::Scheduled,
                priority,
                attempt: 0,
                run_lease: self.run_lease,
                max_attempts: self.max_attempts,
                run_at,
                attempted_at: None,
                finalized_at: None,
                created_at: self.created_at,
                unique_key: self.unique_key,
                unique_states: self.unique_states,
                payload,
            }),
    {
        DeferredJobRow {
            job_id: self.job_id,
            kind: self.kind,
            queue,
            args: self.args,
            state: JobState::Scheduled,
            priority,
            attempt: 0,
            run_lease: self.run_lease,
            max_attempts: self.max_attempts,
            run_at,
            attempted_at: None,
            finalized_at: None,
            created_at: self.created_at,
            unique_key: self.unique_key,
            unique_states: self.unique_states,
            payload,
        }
    }
}

impl LeaseTransitionRow {
    /// The attempt in a terminal state.
    pub fn into_done_row(self, state: JobState, finalized_at: Timestamp, payload: Value) -> (r: DoneJobRow)
        ensures
            r == (DoneJobRow {
                ready_slot: self.ready_slot,
                ready_generation: self.ready_generation,
                job_id: self.job_id,
                kind: self.kind,
                queue: self.queue,
                args: self.args,
                state,
                priority: self.priority,
                attempt: self.attempt,
                run_lease: self.run_lease,
                max_attempts: self.max_attempts,
                lane_seq: self.lane_seq,
                enqueue_shard: self.enqueue_shard,
                run_at: self.run_at,
                attempted_at: self.attempted_at,
                finalized_at,
                created_at: self.created_at,
                unique_key: self.unique_key,
                unique_states: self.unique_states,
                payload,
            }),
    {
        DoneJobRow {
            ready_slot: self.ready_slot,
            ready_generation: self.ready_generation,
            job_id: self.job_id,
            kind: self.kind,
            queue: self.queue,
            args: self.args,
            state,
            priority: self.priority,
            attempt: self.attempt,
            run_lease: self.run_lease,
            max_attempts: self.max_attempts,
            lane_seq: self.lane_seq,
            enqueue_shard: self.enqueue_shard,
            run_at: self.run_at,
            attempted_at: self.attempted_at,
            finalized_at,
            created_at: self.created_at,
            unique_key: self.unique_key,
            unique_states: self.unique_states,
            payload,
        }
    }

    /// The job waiting for its next attempt.
    pub fn into_deferred_row(self, state: JobState, run_at: Timestamp, finalized_at: Option<Timestamp>, payload: Value) -> (r: DeferredJobRow)
        ensures
            r == (DeferredJobRow {
                job_id: self.job_id,
                kind: self.kind,
                queue: self.queue,
                args: self.args,
                state,
                priority: self.priority,
                attempt: self.attempt,
                run_lease: self.run_lease,
                max_attempts: self.max_attempts,
                run_at,
                attempted_at: self.attempted_at,
                finalized_at,
                created_at: self.created_at,
                unique_key: self.unique_key,
                unique_states: self.unique_states,
                payload,
            }),
    {
        DeferredJobRow {
            job_id: self.job_id,
            kind: self.kind,
            queue: self.queue,
            args: self.args,
            state,
            priority: self.priority,
            attempt: self.attempt,
            run_lease: self.run_lease,
            max_attempts: self.max_attempts,
            run_at,
            attempted_at: self.attempted_at,
            finalized_at,
            created_at: self.created_at,
            unique_key: self.unique_key,
            unique_states: self.unique_states,
            payload,
        }
    }

    /// The job back on the ready plane.
    pub fn into_ready_row(self, run_at: Timestamp, payload: Value) -> (r: ExistingReadyRow)
        ensures
            r == (ExistingReadyRow {
                job_id: self.job_id,
                kind: self.kind,
                queue: self.queue,
                args: self.args,
                priority: self.priority,
                attempt: self.attempt,
                run_lease: self.run_lease,
                max_attempts: self.max_attempts,
                run_at,
                attempted_at: self.attempted_at,
                created_at: self.created_at,
                unique_key: self.unique_key,
                unique_states: self.unique_states,
                payload,
            }),
    {
        ExistingReadyRow {
            job_id: self.job_id,
            kind: self.kind,
            queue: self.queue,
            args: self.args,
            priority: self.priority,
            attempt: self.attempt,
            run_lease: self.run_lease,
            max_attempts: self.max_attempts,
            run_at,
            attempted_at: self.attempted_at,
            created_at: self.created_at,
            unique_key: self.unique_key,
            unique_states: self.unique_states,
            payload,
        }
    }

    /// The failed attempt in the dead-letter queue.
    pub fn into_dlq_row(self, finalized_at: Timestamp, payload: Value, dlq_reason: String, dlq_at: Timestamp) -> (r: DlqJobRow)
        ensures
            r == (DlqJobRow {
                job_id: self.job_id,
                kind: self.kind,
                queue: self.queue,
                args: self.args,
                state: JobState::Failed,
                priority: self.priority,
                attempt: self.attempt,
                run_lease: self.run_lease,
                max_attempts: self.max_attempts,
                run_at: self.run_at,
                attempted_at: self.attempted_at,
                finalized_at,
                created_at: self.created_at,
                unique_key: self.unique_key,
                unique_states: self.unique_states,
                payload,
                dlq_reason,
                dlq_at,
                original_run_lease: self.run_lease,
            }),
    {
        DlqJobRow {
            job_id: self.job_id,
            kind: self.kind,
            queue: self.queue,
            args: self.args,
            state: JobState::Failed,
            priority: self.priority,
            attempt: self.attempt,
            run_lease: self.run_lease,
            max_attempts: self.max_attempts,
            run_at: self.run_at,
            attempted_at: self.attempted_at,
            finalized_at,
            created_at: self.created_at,
            unique_key: self.unique_key,
            unique_states: self.unique_states,
            payload,
            dlq_reason,
            dlq_at,
            original_run_lease: self.run_lease,
        }
    }
}

impl ExistingReadyRow {
    /// The row as a lookup by job id would find it.
    pub fn into_ready_job_row(self) -> (r: ReadyJobRow)
        ensures
            r == (ReadyJobRow {
                job_id: self.job_id,
                kind: self.kind,
                queue: self.queue,
                args: self.args,
                priority: self.priority,
                attempt: self.attempt,
                run_lease: self.run_lease,
                max_attempts: self.max_attempts,
                run_at: self.run_at,
                attempted_at: self.attempted_at,
                created_at: self.created_at,
                unique_key: self.unique_key,
                payload: self.payload,
            }),
    {
        ReadyJobRow {
            job_id: self.job_id,
            kind: self.kind,
            queue: self.queue,
            args: self.args,
            priority: self.priority,
            attempt: self.attempt,
            run_lease: self.run_lease,
            max_attempts: self.max_attempts,
            run_at: self.run_at,
            attempted_at: self.attempted_at,
            created_at: self.created_at,
            unique_key: self.unique_key,
            payload: self.payload,
        }
    }
}

impl DeferredJobRow {
    /// The job on the ready plane, due from `run_at`.
    pub fn into_promoted_row(self, run_at: Timestamp) -> (r: ExistingReadyRow)
        ensures
            r == (ExistingReadyRow {
                job_id: self.job_id,
                kind: self.kind,
                queue: self.queue,
                args: self.args,
                priority: self.priority,
                attempt: self.attempt,
                run_lease: self.run_lease,
                max_attempts: self.max_attempts,
                run_at,
                attempted_at: self.attempted_at,
                created_at: self.created_at,
                unique_key: self.unique_key,
                unique_states: self.unique_states,
                payload: self.payload,
            }),
    {
        ExistingReadyRow {
            job_id: self.job_id,
            kind: self.kind,
            queue: self.queue,
            args: self.args,
            priority: self.priority,
            attempt: self.attempt,
            run_lease: self.run_lease,
            max_attempts: self.max_attempts,
            run_at,
            attempted_at: self.attempted_at,
            created_at: self.created_at,
            unique_key: self.unique_key,
            unique_states: self.unique_states,
            payload: self.payload,
        }
    }
}

impl LeaseJobRow {
    /// `job` is the row as its callers see it.
    pub open spec fn becomes(self, job: JobRow) -> bool {
        &&& job == (JobRow {
            id: self.job_id,
            kind: self.kind,
            queue: self.queue,
            args: self.args,
            state: self.state,
            priority: self.priority,
            attempt: self.attempt,
            run_lease: self.run_lease,
            max_attempts: self.max_attempts,
            run_at: self.run_at,
            heartbeat_at: self.heartbeat_at,
            deadline_at: self.deadline_at,
            attempted_at: self.attempted_at,
            finalized_at: self.finalized_at,
            created_at: self.created_at,
            errors: job.errors,
            metadata: job.metadata,
            tags: job.tags,
            unique_key: self.unique_key,
            unique_states: None,
            callback_id: self.callback_id,
            callback_timeout_at: self.callback_timeout_at,
            callback_filter: self.callback_filter,
            callback_on_complete: self.callback_on_complete,
            callback_on_fail: self.callback_on_fail,
            callback_transform: self.callback_transform,
            progress: job.progress,
        })
        &&& exists|seen: PayloadView| #[trigger]
            payload::materialized(self.payload, self.progress, self.callback_result, seen)
                && job.shows(seen)
    }

    /// The row as its callers see it.
    pub fn into_job_row(self) -> (r: Result<JobRow, AwaError>)
        ensures
            match r {
                Ok(job) => payload::payload_readable(self.payload) && self.becomes(job),
                Err(err) => !payload::payload_readable(self.payload)
                    && payload::is_payload_error(self.payload, err),
            },
    {
        match payload::materialize_runtime_payload(
            self.payload,
            self.progress,
            self.callback_result,
        ) {
            Err(err) => Err(err),
            Ok(payload) => {
                let ghost seen = payload@;
                let job = JobRow {
                    id: self.job_id,
                    kind: self.kind,
                    queue: self.queue,
                    args: self.args,
                    state: self.state,
                    priority: self.priority,
                    attempt: self.attempt,
                    run_lease: self.run_lease,
                    max_attempts: self.max_attempts,
                    run_at: self.run_at,
                    heartbeat_at: self.heartbeat_at,
                    deadline_at: self.deadline_at,
                    attempted_at: self.attempted_at,
                    finalized_at: self.finalized_at,
                    created_at: self.created_at,
                    errors: payload.errors_option(),
                    metadata: payload.metadata,
                    tags: payload.tags,
                    unique_key: self.unique_key,
                    unique_states: None,
                    callback_id: self.callback_id,
                    callback_timeout_at: self.callback_timeout_at,
                    callback_filter: self.callback_filter,
                    callback_on_complete: self.callback_on_complete,
                    callback_on_fail: self.callback_on_fail,
                    callback_transform: self.callback_transform,
                    progress: payload.progress,
                };
                assert(job.shows(seen));
                Ok(job)
            },
        }
    }
}

} // verus!
