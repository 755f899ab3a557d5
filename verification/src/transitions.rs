//! What becomes of an attempt: retried, snoozed, cancelled, failed, rescued, or
//! settled from outside.
use crate::clock;
use crate::clock::Span;
use crate::clock::Timestamp;
use crate::completion;
use crate::error;
use crate::error::AwaError;
use crate::job::JobState;
use crate::json;
use crate::json::JsonNode;
use crate::payload;
use crate::payload::PayloadView;
use crate::payload::RuntimePayload;
use crate::rows::DeferredJobRow;
use crate::rows::DlqJobRow;
use crate::rows::DoneJobRow;
use crate::rows::ExistingReadyRow;
use crate::rows::LeaseTransitionRow;
use serde_json::Value;
use vstd::prelude::*;
use vstd::string::*;

verus! {

impl LeaseTransitionRow {
    /// The attempt in a terminal state.
    pub open spec fn done(self, state: JobState, finalized_at: Timestamp, payload: Value) -> DoneJobRow {
        DoneJobRow {
            ready_slot: self.ready_slot,
            ready_generation: self.ready_generation,
            job_id: self.job_id,
            kind: self.kind,
            queue: self.queue,
            args: self.args,
            state,
            priority: self.priority,
            attempt: self.attempt,
            run_lease: self.run_lease,
            max_attempts: self.max_attempts,
            lane_seq: self.lane_seq,
            enqueue_shard: self.enqueue_shard,
            run_at: self.run_at,
            attempted_at: self.attempted_at,
            finalized_at,
            created_at: self.created_at,
            unique_key: self.unique_key,
            unique_states: self.unique_states,
            payload,
        }
    }

    /// The job waiting for its next attempt.
    pub open spec fn deferred(
        self,
        state: JobState,
        run_at: Timestamp,
        finalized_at: Option<Timestamp>,
        payload: Value,
    ) -> DeferredJobRow {
        DeferredJobRow {
            job_id: self.job_id,
            kind: self.kind,
            queue: self.queue,
            args: self.args,
            state,
            priority: self.priority,
            attempt: self.attempt,
            run_lease: self.run_lease,
            max_attempts: self.max_attempts,
            run_at,
            attempted_at: self.attempted_at,
            finalized_at,
            created_at: self.created_at,
            unique_key: self.unique_key,
            unique_states: self.unique_states,
            payload,
        }
    }

    /// The job back on the ready plane, with its attempts counted afresh.
    pub open spec fn restarted(
        self,
        run_at: Timestamp,
        attempted_at: Option<Timestamp>,
        payload: Value,
    ) -> ExistingReadyRow {
        ExistingReadyRow {
            job_id: self.job_id,
            kind: self.kind,
            queue: self.queue,
            args: self.args,
            priority: self.priority,
            attempt: 0,
            run_lease: self.run_lease,
            max_attempts: self.max_attempts,
            run_at,
            attempted_at,
            created_at: self.created_at,
            unique_key: self.unique_key,
            unique_states: self.unique_states,
            payload,
        }
    }

    /// The payload that a worker leaves behind: the stored one, with the
    /// progress it reports now or else reported last.
    pub open spec fn left_behind(self, report: Option<Value>) -> PayloadView {
        payload::payload_of(self.payload).with_progress(
            if report is Some {
                report
            } else {
                self.progress
            },
        )
    }

    /// The payload that an attempt leaves behind when its worker says nothing:
    /// the stored one, with the progress reported last.
    pub open spec fn abandoned(self) -> PayloadView {
        payload::payload_of(self.payload).with_reported_progress(self.progress)
    }

    /// The job has no attempt left.
    pub open spec fn exhausted(self) -> bool {
        self.attempt >= self.max_attempts
    }

    /// Whether the job has no attempt left.
    pub fn is_exhausted(&self) -> (r: bool)
        ensures
            r == self.exhausted(),
    {
        self.attempt >= self.max_attempts
    }
}

/// The stored payload `out` is `base` with an error entry added: this text, in
/// this attempt, at this time; only a terminal one says so.
pub open spec fn records_error(
    base: PayloadView,
    error: Seq<char>,
    attempt: i16,
    at: Timestamp,
    terminal: bool,
    out: Value,
) -> bool {
    exists|entry: Value| #[trigger]
        payload::is_lifecycle_error(entry, error, attempt, at, terminal) && payload::payload_writes(
            base.with_error(entry),
            out,
        )
}

/// Takes the stored payload out of the row and reads it as its worker leaves it
/// behind.
fn take_left_behind(row: &mut LeaseTransitionRow, report: Option<Value>) -> (r: Result<
    RuntimePayload,
    AwaError,
>)
    ensures
        *final(row) == (LeaseTransitionRow {
            payload: final(row).payload,
            progress: final(row).progress,
            ..*old(row)
        }),
        match r {
            Ok(p) => payload::payload_readable(old(row).payload) && p@ == old(row).left_behind(
                report,
            ),
            Err(err) => !payload::payload_readable(old(row).payload) && payload::is_payload_error(
                old(row).payload,
                err,
            ),
        },
{
    let mut stored = json::null();
    std::mem::swap(&mut stored, &mut row.payload);
    let mut reported: Option<Value> = None;
    std::mem::swap(&mut reported, &mut row.progress);
    match RuntimePayload::from_json(stored) {
        Err(err) => Err(err),
        Ok(mut p) => {
            if report.is_some() {
                p.set_progress(report);
            } else {
                p.set_progress(reported);
            }
            Ok(p)
        },
    }
}

/// Takes the stored payload out of the row and reads it with the progress
/// reported last.
fn take_abandoned(row: &mut LeaseTransitionRow) -> (r: Result<RuntimePayload, AwaError>)
    ensures
        *final(row) == (LeaseTransitionRow {
            payload: final(row).payload,
            progress: final(row).progress,
            ..*old(row)
        }),
        match r {
            Ok(p) => payload::payload_readable(old(row).payload) && p@ == old(row).abandoned(),
            Err(err) => !payload::payload_readable(old(row).payload) && payload::is_payload_error(
                old(row).payload,
                err,
            ),
        },
{
    let mut stored = json::null();
    std::mem::swap(&mut stored, &mut row.payload);
    let mut reported: Option<Value> = None;
    std::mem::swap(&mut reported, &mut row.progress);
    match RuntimePayload::from_json(stored) {
        Err(err) => Err(err),
        Ok(mut p) => {
            if reported.is_some() {
                p.set_progress(reported);
            }
            Ok(p)
        },
    }
}

/// What an attempt that did not succeed becomes: a terminal row, or a row that
/// waits for the next attempt.
#[derive(Debug)]
pub enum FailedAttempt {
    Done(DoneJobRow),
    Deferred(DeferredJobRow),
}

/// Why an attempt is taken from its worker.
#[derive(Debug, Clone, Copy, PartialEq, Eq, Structural)]
pub enum RescueCause {
    StaleHeartbeat,
    StaleReceipt,
    DeadlineExceeded,
    CallbackTimeout,
}

impl RescueCause {
    /// The cause, as it is noted in the error history.
    pub open spec fn text(self) -> Seq<char> {
        match self {
            RescueCause::StaleHeartbeat => "heartbeat stale: worker presumed dead"@,
            RescueCause::StaleReceipt => "receipt claim stale: worker presumed dead"@,
            RescueCause::DeadlineExceeded => "hard deadline exceeded"@,
            RescueCause::CallbackTimeout => "callback timed out"@,
        }
    }

    pub fn as_str(self) -> (s: &'static str)
        ensures
            s@ == self.text(),
    {
        match self {
            RescueCause::StaleHeartbeat => "heartbeat stale: worker presumed dead",
            RescueCause::StaleReceipt => "receipt claim stale: worker presumed dead",
            RescueCause::DeadlineExceeded => "hard deadline exceeded",
            RescueCause::CallbackTimeout => "callback timed out",
        }
    }

    /// Only a callback that timed out can use up the job's last attempt; a dead
    /// worker or a missed deadline always leads to another.
    pub open spec fn can_exhaust(self) -> bool {
        self == RescueCause::CallbackTimeout
    }

    /// Whether taking the attempt for this cause ends the job; otherwise it is
    /// retried.
    pub fn ends(self, row: &LeaseTransitionRow) -> (r: bool)
        ensures
            r == (self.can_exhaust() && row.exhausted()),
    {
        match self {
            RescueCause::CallbackTimeout => row.is_exhausted(),
            _ => false,
        }
    }
}

/// `out` is the attempt after a failure: failed for good when `terminal`, and
/// otherwise retried at `retry_at`. The error history says which.
pub open spec fn fails_as(
    row: LeaseTransitionRow,
    base: PayloadView,
    error: Seq<char>,
    terminal: bool,
    now: Timestamp,
    retry_at: Timestamp,
    out: FailedAttempt,
) -> bool {
    match out {
        FailedAttempt::Done(done) => {
            &&& terminal
            &&& done == row.done(JobState::Failed, now, done.payload)
            &&& records_error(base, error, row.attempt, now, true, done.payload)
        },
        FailedAttempt::Deferred(deferred) => {
            &&& !terminal
            &&& deferred == row.deferred(
                JobState::Retryable,
                retry_at,
                Some(now),
                deferred.payload,
            )
            &&& records_error(base, error, row.attempt, now, false, deferred.payload)
        },
    }
}

impl LeaseTransitionRow {
    /// The job retries after `delay`.
    pub fn retry_after(self, now: Timestamp, delay: Span, report: Option<Value>) -> (r: Result<
        DeferredJobRow,
        AwaError,
    >)
        requires
            now.valid(),
            delay.wf(),
            delay.representable() ==> clock::reaches_after(now, delay),
        ensures
            match r {
                Ok(deferred) => {
                    &&& payload::payload_readable(self.payload)
                    &&& delay.representable()
                    &&& deferred.run_at == clock::ahead(now, delay)
                    &&& deferred == self.deferred(
                        JobState::Retryable,
                        deferred.run_at,
                        Some(now),
                        deferred.payload,
                    )
                    &&& payload::payload_writes(self.left_behind(report), deferred.payload)
                },
                Err(err) => if payload::payload_readable(self.payload) {
                    !delay.representable() && error::is_validation(
                        err,
                        "invalid retry_after duration"@ + ": "@ + clock::span_out_of_range_text(),
                    )
                } else {
                    payload::is_payload_error(self.payload, err)
                },
            },
    {
        let mut row = self;
        let payload = match take_left_behind(&mut row, report) {
            Ok(payload) => payload,
            Err(err) => return Err(err),
        };
        let run_at = match clock::later(now, delay, "invalid retry_after duration") {
            Ok(run_at) => run_at,
            Err(err) => return Err(err),
        };
        Ok(row.into_deferred_row(JobState::Retryable, run_at, Some(now), payload.into_json()))
    }

    /// The job sleeps for `delay`; the attempt does not count.
    pub fn snooze(self, now: Timestamp, delay: Span, report: Option<Value>) -> (r: Result<
        DeferredJobRow,
        AwaError,
    >)
        requires
            now.valid(),
            delay.wf(),
            delay.representable() ==> clock::reaches_after(now, delay),
        ensures
            match r {
                Ok(deferred) => {
                    &&& payload::payload_readable(self.payload)
                    &&& delay.representable()
                    &&& deferred.run_at == clock::ahead(now, delay)
                    &&& deferred == (DeferredJobRow {
                        attempt: if self.attempt == i16::MIN {
                            i16::MIN
                        } else {
                            (self.attempt - 1) as i16
                        },
                        ..self.deferred(
                            JobState::Scheduled,
                            deferred.run_at,
                            None,
                            deferred.payload,
                        )
                    })
                    &&& payload::payload_writes(self.left_behind(report), deferred.payload)
                },
                Err(err) => if payload::payload_readable(self.payload) {
                    !delay.representable() && error::is_validation(
                        err,
                        "invalid snooze duration"@ + ": "@ + clock::span_out_of_range_text(),
                    )
                } else {
                    payload::is_payload_error(self.payload, err)
                },
            },
    {
        let mut row = self;
        let payload = match take_left_behind(&mut row, report) {
            Ok(payload) => payload,
            Err(err) => return Err(err),
        };
        let run_at = match clock::later(now, delay, "invalid snooze duration") {
            Ok(run_at) => run_at,
            Err(err) => return Err(err),
        };
        let mut deferred = row.into_deferred_row(
            JobState::Scheduled,
            run_at,
            None,
            payload.into_json(),
        );
        if deferred.attempt > i16::MIN {
            deferred.attempt = deferred.attempt - 1;
        }
        Ok(deferred)
    }

    /// The running job is cancelled by its worker.
    pub fn cancel_running(self, now: Timestamp, reason: &str, report: Option<Value>) -> (r: Result<
        DoneJobRow,
        AwaError,
    >)
        requires
            now.valid(),
        ensures
            match r {
                Ok(done) => {
                    &&& payload::payload_readable(self.payload)
                    &&& done == self.done(JobState::Cancelled, now, done.payload)
                    &&& records_error(
                        self.left_behind(report).settled(),
                        "cancelled: "@ + reason@,
                        self.attempt,
                        now,
                        false,
                        done.payload,
                    )
                },
                Err(err) => !payload::payload_readable(self.payload) && payload::is_payload_error(
                    self.payload,
                    err,
                ),
            },
    {
        let mut row = self;
        let mut payload = match take_left_behind(&mut row, report) {
            Ok(payload) => payload,
            Err(err) => return Err(err),
        };
        let text = "cancelled: ".to_owned().concat(reason);
        let entry = payload::lifecycle_error(text.as_str(), row.attempt, now, false);
        payload.settle();
        payload.push_error(entry);
        let out = payload.into_json();
        Ok(row.into_done_row(JobState::Cancelled, now, out))
    }

    /// The running job fails for good.
    pub fn fail_terminal(self, now: Timestamp, error: &str, report: Option<Value>) -> (r: Result<
        DoneJobRow,
        AwaError,
    >)
        requires
            now.valid(),
        ensures
            match r {
                Ok(done) => {
                    &&& payload::payload_readable(self.payload)
                    &&& done == self.done(JobState::Failed, now, done.payload)
                    &&& records_error(
                        self.left_behind(report).settled(),
                        error@,
                        self.attempt,
                        now,
                        true,
                        done.payload,
                    )
                },
                Err(err) => !payload::payload_readable(self.payload) && payload::is_payload_error(
                    self.payload,
                    err,
                ),
            },
    {
        let mut row = self;
        let mut payload = match take_left_behind(&mut row, report) {
            Ok(payload) => payload,
            Err(err) => return Err(err),
        };
        let entry = payload::lifecycle_error(error, row.attempt, now, true);
        payload.settle();
        payload.push_error(entry);
        let out = payload.into_json();
        Ok(row.into_done_row(JobState::Failed, now, out))
    }

    /// The running job fails into the dead-letter queue.
    pub fn fail_to_dlq(
        self,
        now: Timestamp,
        dlq_reason: &str,
        error: &str,
        report: Option<Value>,
    ) -> (r: Result<DlqJobRow, AwaError>)
        requires
            now.valid(),
        ensures
            match r {
                Ok(dead) => {
                    &&& payload::payload_readable(self.payload)
                    &&& dead == (DlqJobRow {
                        job_id: self.job_id,
                        kind: self.kind,
                        queue: self.queue,
                        args: self.args,
                        state: JobState::Failed,
                        priority: self.priority,
                        attempt: self.attempt,
                        run_lease: self.run_lease,
                        max_attempts: self.max_attempts,
                        run_at: self.run_at,
                        attempted_at: self.attempted_at,
                        finalized_at: now,
                        created_at: self.created_at,
                        unique_key: self.unique_key,
                        unique_states: self.unique_states,
                        payload: dead.payload,
                        dlq_reason: dead.dlq_reason,
                        dlq_at: now,
                        original_run_lease: self.run_lease,
                    })
                    &&& dead.dlq_reason@ == dlq_reason@
                    &&& records_error(
                        self.left_behind(report).settled(),
                        error@,
                        self.attempt,
                        now,
                        true,
                        dead.payload,
                    )
                },
                Err(err) => !payload::payload_readable(self.payload) && payload::is_payload_error(
                    self.payload,
                    err,
                ),
            },
    {
        let mut row = self;
        let mut payload = match take_left_behind(&mut row, report) {
            Ok(payload) => payload,
            Err(err) => return Err(err),
        };
        let entry = payload::lifecycle_error(error, row.attempt, now, true);
        payload.settle();
        payload.push_error(entry);
        let out = payload.into_json();
        Ok(row.into_dlq_row(now, out, dlq_reason.to_owned(), now))
    }

    /// The running job fails: for good when this was its last attempt, and
    /// otherwise until `retry_at`.
    pub fn fail_retryable(
        self,
        now: Timestamp,
        error: &str,
        report: Option<Value>,
        retry_at: Timestamp,
    ) -> (r: Result<FailedAttempt, AwaError>)
        requires
            now.valid(),
        ensures
            match r {
                Ok(out) => payload::payload_readable(self.payload) && fails_as(
                    self,
                    self.left_behind(report).settled(),
                    error@,
                    self.exhausted(),
                    now,
                    retry_at,
                    out,
                ),
                Err(err) => !payload::payload_readable(self.payload) && payload::is_payload_error(
                    self.payload,
                    err,
                ),
            },
    {
        let exhausted = self.is_exhausted();
        let mut row = self;
        let mut payload = match take_left_behind(&mut row, report) {
            Ok(payload) => payload,
            Err(err) => return Err(err),
        };
        let entry = payload::lifecycle_error(error, row.attempt, now, exhausted);
        payload.settle();
        payload.push_error(entry);
        let out = payload.into_json();
        if exhausted {
            Ok(FailedAttempt::Done(row.into_done_row(JobState::Failed, now, out)))
        } else {
            Ok(
                FailedAttempt::Deferred(
                    row.into_deferred_row(JobState::Retryable, retry_at, Some(now), out),
                ),
            )
        }
    }

    /// The attempt is taken from its worker.
    pub fn rescue(self, cause: RescueCause, now: Timestamp, retry_at: Timestamp) -> (r: Result<
        FailedAttempt,
        AwaError,
    >)
        requires
            now.valid(),
        ensures
            match r {
                Ok(out) => payload::payload_readable(self.payload) && fails_as(
                    self,
                    self.abandoned().settled(),
                    cause.text(),
                    cause.can_exhaust() && self.exhausted(),
                    now,
                    retry_at,
                    out,
                ),
                Err(err) => !payload::payload_readable(self.payload) && payload::is_payload_error(
                    self.payload,
                    err,
                ),
            },
    {
        let terminal = cause.ends(&self);
        let mut row = self;
        let mut payload = match take_abandoned(&mut row) {
            Ok(payload) => payload,
            Err(err) => return Err(err),
        };
        let entry = payload::lifecycle_error(cause.as_str(), row.attempt, now, terminal);
        payload.settle();
        payload.push_error(entry);
        let out = payload.into_json();
        if terminal {
            Ok(FailedAttempt::Done(row.into_done_row(JobState::Failed, now, out)))
        } else {
            Ok(
                FailedAttempt::Deferred(
                    row.into_deferred_row(JobState::Retryable, retry_at, Some(now), out),
                ),
            )
        }
    }

    /// A callback completes the parked attempt.
    pub fn complete_external(self, now: Timestamp) -> (r: Result<DoneJobRow, AwaError>)
        ensures
            match r {
                Ok(done) => completion::completes_attempt(self, now, done),
                Err(err) => !payload::payload_readable(self.payload) && payload::is_payload_error(
                    self.payload,
                    err,
                ),
            },
    {
        let mut row = self;
        let mut payload = match take_abandoned(&mut row) {
            Ok(payload) => payload,
            Err(err) => return Err(err),
        };
        payload.set_progress(None);
        let out = payload.into_json();
        Ok(row.into_done_row(JobState::Completed, now, out))
    }

    /// A callback fails the parked attempt, with an error entry of its own.
    pub fn fail_external(self, entry: Value, now: Timestamp) -> (r: Result<DoneJobRow, AwaError>)
        requires
            now.valid(),
        ensures
            match r {
                Ok(done) => {
                    &&& payload::payload_readable(self.payload)
                    &&& done == self.done(JobState::Failed, now, done.payload)
                    &&& exists|noted: Value| #[trigger]
                        is_callback_error(entry, self.attempt, now, noted)
                            && payload::payload_writes(
                            self.abandoned().settled().with_error(noted),
                            done.payload,
                        )
                },
                Err(err) => !payload::payload_readable(self.payload) && payload::is_payload_error(
                    self.payload,
                    err,
                ),
            },
    {
        let mut row = self;
        let mut payload = match take_abandoned(&mut row) {
            Ok(payload) => payload,
            Err(err) => return Err(err),
        };
        let noted = callback_error(entry, row.attempt, now);
        payload.settle();
        payload.push_error(noted);
        let out = payload.into_json();
        Ok(row.into_done_row(JobState::Failed, now, out))
    }

    /// A callback sends the parked job back to the ready plane, with its
    /// attempts counted afresh.
    pub fn retry_external(self, now: Timestamp) -> (r: Result<ExistingReadyRow, AwaError>)
        ensures
            match r {
                Ok(ready) => {
                    &&& payload::payload_readable(self.payload)
                    &&& ready == self.restarted(now, self.attempted_at, ready.payload)
                    &&& payload::payload_writes(self.abandoned(), ready.payload)
                },
                Err(err) => !payload::payload_readable(self.payload) && payload::is_payload_error(
                    self.payload,
                    err,
                ),
            },
    {
        let mut row = self;
        let payload = match take_abandoned(&mut row) {
            Ok(payload) => payload,
            Err(err) => return Err(err),
        };
        let out = payload.into_json();
        let mut ready = row.into_ready_row(now, out);
        ready.attempt = 0;
        Ok(ready)
    }

    /// An operator sends the parked job back to the ready plane, as if it had
    /// never been attempted.
    pub fn retry_parked(self, now: Timestamp) -> (r: Result<ExistingReadyRow, AwaError>)
        ensures
            match r {
                Ok(ready) => {
                    &&& payload::payload_readable(self.payload)
                    &&& ready == self.restarted(now, None, ready.payload)
                    &&& payload::payload_writes(self.abandoned(), ready.payload)
                },
                Err(err) => !payload::payload_readable(self.payload) && payload::is_payload_error(
                    self.payload,
                    err,
                ),
            },
    {
        match self.retry_external(now) {
            Ok(mut ready) => {
                ready.attempted_at = None;
                Ok(ready)
            },
            Err(err) => Err(err),
        }
    }

    /// An operator cancels the attempt.
    pub fn cancel(self, now: Timestamp) -> (r: Result<DoneJobRow, AwaError>)
        ensures
            match r {
                Ok(done) => {
                    &&& payload::payload_readable(self.payload)
                    &&& done == self.done(JobState::Cancelled, now, done.payload)
                    &&& payload::payload_writes(self.abandoned(), done.payload)
                },
                Err(err) => !payload::payload_readable(self.payload) && payload::is_payload_error(
                    self.payload,
                    err,
                ),
            },
    {
        let mut row = self;
        let payload = match take_abandoned(&mut row) {
            Ok(payload) => payload,
            Err(err) => return Err(err),
        };
        let out = payload.into_json();
        Ok(row.into_done_row(JobState::Cancelled, now, out))
    }
}

/// The entries of an error that a callback reported: its own when it is an
/// object, and otherwise the value under `error`.
pub open spec fn callback_entries(entry: Value) -> Map<Seq<char>, Value> {
    match json::node(entry) {
        JsonNode::Object(entries) => entries,
        _ => json::no_entries().insert("error"@, entry),
    }
}

/// `noted` is the error that a callback reported, with attempt, time, and the
/// mark of a terminal error added where it does not have them.
pub open spec fn is_callback_error(entry: Value, attempt: i16, at: Timestamp, noted: Value) -> bool {
    json::node(noted) matches JsonNode::Object(entries) && {
        let own = callback_entries(entry);
        &&& forall|key: Seq<char>| #[trigger]
            entries.dom().contains(key) <==> own.dom().contains(key) || key == "attempt"@ || key
                == "at"@ || key == "terminal"@
        &&& forall|key: Seq<char>| #[trigger] own.dom().contains(key) ==> entries[key] == own[key]
        &&& !own.dom().contains("attempt"@) ==> json::node(entries["attempt"@]) == JsonNode::Int(
            attempt as int,
        )
        &&& !own.dom().contains("at"@) ==> json::node(entries["at"@]) == JsonNode::Text(
            clock::rfc3339_text(at.secs, at.nanos),
        )
        &&& !own.dom().contains("terminal"@) ==> json::node(entries["terminal"@])
            == JsonNode::Bool(true)
    }
}

/// Completes the error that a callback reported.
pub fn callback_error(entry: Value, attempt: i16, at: Timestamp) -> (noted: Value)
    requires
        at.valid(),
    ensures
        is_callback_error(entry, attempt, at, noted),
{
    proof {
        payload::lemma_error_entry_names();
    }
    let mut map = match json::into_object(entry) {
        Ok(map) => map,
        Err(other) => {
            let mut map = json::map_new();
            json::map_insert(&mut map, "error".to_owned(), other);
            map
        },
    };
    if json::map_get(&map, "attempt").is_none() {
        json::map_insert(&mut map, "attempt".to_owned(), json::int_value(attempt as i64));
    }
    if json::map_get(&map, "at").is_none() {
        let text = clock::timestamp_rfc3339(at);
        json::map_insert(&mut map, "at".to_owned(), json::string_value(text));
    }
    if json::map_get(&map, "terminal").is_none() {
        json::map_insert(&mut map, "terminal".to_owned(), json::bool_value(true));
    }
    json::object_value(map)
}

/// The error entry for a callback that reports a text.
pub fn callback_error_text(error: &str) -> (entry: Value)
    ensures
        json::node(entry) matches JsonNode::Object(entries) && entries.dom() == set!["error"@]
            && json::node(entries["error"@]) == JsonNode::Text(error@),
{
    let mut map = json::map_new();
    json::map_insert(&mut map, "error".to_owned(), json::string_value(error.to_owned()));
    json::object_value(map)
}

/// A failure either ends the job or defers it, never both, and it ends the job
/// exactly when no attempt is left.
pub proof fn law_failure_ends_exhausted_jobs(
    row: LeaseTransitionRow,
    base: PayloadView,
    error: Seq<char>,
    now: Timestamp,
    retry_at: Timestamp,
    out: FailedAttempt,
)
    requires
        fails_as(row, base, error, row.exhausted(), now, retry_at, out),
    ensures
        out is Done <==> row.attempt >= row.max_attempts,
        out matches FailedAttempt::Done(done) ==> done.job_id == row.job_id && done.run_lease
            == row.run_lease && done.state == JobState::Failed,
        out matches FailedAttempt::Deferred(deferred) ==> deferred.job_id == row.job_id
            && deferred.run_lease == row.run_lease && deferred.state == JobState::Retryable
            && deferred.run_at == retry_at,
{
}

/// A dead worker or a missed deadline never costs a job its last attempt.
pub proof fn law_rescue_defers(
    row: LeaseTransitionRow,
    cause: RescueCause,
    now: Timestamp,
    retry_at: Timestamp,
    out: FailedAttempt,
)
    requires
        cause != RescueCause::CallbackTimeout,
        fails_as(
            row,
            row.abandoned().settled(),
            cause.text(),
            cause.can_exhaust() && row.exhausted(),
            now,
            retry_at,
            out,
        ),
    ensures
        out is Deferred,
{
}

/// The error history only grows: what a failure leaves behind reads back as the
/// stored payload with one more error, and with the progress last reported.
pub proof fn law_failure_keeps_error_history(
    row: LeaseTransitionRow,
    report: Option<Value>,
    error: Seq<char>,
    at: Timestamp,
    terminal: bool,
    out: Value,
)
    requires
        payload::payload_readable(row.payload),
        records_error(row.left_behind(report).settled(), error, row.attempt, at, terminal, out),
    ensures
        payload::payload_readable(out),
        ({
            let before = payload::payload_of(row.payload);
            let after = payload::payload_of(out);
            &&& after.errors.len() == before.errors.len() + 1
            &&& after.errors.drop_last() == before.errors
            &&& payload::is_lifecycle_error(after.errors.last(), error, row.attempt, at, terminal)
            &&& after.metadata == before.metadata
            &&& after.tags == before.tags
            &&& after.progress == row.left_behind(report).settled().progress
        }),
{
    let base = row.left_behind(report).settled();
    let entry = choose|entry: Value| #[trigger]
        payload::is_lifecycle_error(entry, error, row.attempt, at, terminal)
            && payload::payload_writes(base.with_error(entry), out);
    payload::law_payload_round_trip(base.with_error(entry), out);
    assert(base.with_error(entry).errors.drop_last() =~= base.errors);
}

} // verus!
