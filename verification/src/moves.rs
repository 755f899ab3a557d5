//! Moving waiting jobs: to another queue or priority, up by age, or on to the
//! ready plane when they are due or retried.
use crate::clock;
use crate::clock::Span;
use crate::clock::Timestamp;
use crate::error;
use crate::error::AwaError;
use crate::job::JobState;
use crate::json;
use crate::json::JsonNode;
use crate::payload;
use crate::payload::PayloadView;
use crate::payload::RuntimePayload;
use crate::routing;
use crate::rows::DeferredJobRow;
use crate::rows::DoneJobRow;
use crate::rows::ExistingReadyRow;
use crate::rows::LeaseTransitionRow;
use crate::rows::ReadyTransitionRow;
use crate::storage::QueueStorage;
use crate::text;
use serde_json::Value;
use vstd::prelude::*;
use vstd::string::*;
use vstd::utf8::*;

verus! {

/// Refuses a priority outside of one to four.
pub fn check_priority(priority: i16) -> (r: Result<(), AwaError>)
    ensures
        match r {
            Ok(_) => 1 <= priority <= 4,
            Err(err) => !(1 <= priority <= 4) && error::is_validation(
                err,
                "priority must be between 1 and 4"@,
            ),
        },
{
    if priority < 1 || priority > 4 {
        Err(error::validation("priority must be between 1 and 4"))
    } else {
        Ok(())
    }
}

/// A queue name that a job can be moved to: one to 200 bytes.
pub open spec fn is_destination(queue: Seq<char>) -> bool {
    1 <= encode_utf8(queue).len() <= 200
}

/// Refuses a destination that is no queue name, and then a priority that is
/// none.
pub fn check_move(queue: &str, priority: Option<i16>) -> (r: Result<(), AwaError>)
    ensures
        match r {
            Ok(_) => is_destination(queue@) && (priority matches Some(p) ==> 1 <= p <= 4),
            Err(err) => if !is_destination(queue@) {
                error::is_validation(err, "destination queue must be 1..=200 characters"@)
            } else {
                priority matches Some(p) && !(1 <= p <= 4) && error::is_validation(
                    err,
                    "priority must be between 1 and 4"@,
                )
            },
        },
{
    let length: usize = queue.as_bytes().len();
    if length < 1 || length > 200 {
        return Err(error::validation("destination queue must be 1..=200 characters"));
    }
    match priority {
        Some(p) => check_priority(p),
        None => Ok(()),
    }
}

/// A waiting job as a move sees it.
#[derive(Debug)]
pub struct Waiting<'a> {
    pub job_id: i64,
    pub queue: &'a str,
    pub priority: i16,
    pub unique_key: &'a Option<Vec<u8>>,
}

/// Where a job is to be moved.
#[derive(Debug)]
pub struct Relocation {
    pub queue: String,
    pub priority: i16,
    pub payload: Value,
}

/// `after` is the metadata `before` with the job's origin noted: its queue when
/// the queue was to change, its priority when the priority was. What is noted
/// already stays.
pub open spec fn origin_noted(
    before: JsonNode,
    queue: Option<Seq<char>>,
    priority: Option<i16>,
    after: JsonNode,
) -> bool {
    exists|from_queue: Value, from_priority: Value|
        {
            let between = match queue {
                Some(name) => #[trigger] payload::with_entry_if_absent(
                    before,
                    "_awa_original_queue"@,
                    from_queue,
                ),
                None => before,
            };
            &&& queue matches Some(name) ==> json::node(from_queue) == JsonNode::Text(name)
            &&& priority matches Some(p) ==> #[trigger] json::node(from_priority) == JsonNode::Int(
                p as int,
            )
            &&& after == (match priority {
                Some(p) => payload::with_entry_if_absent(
                    between,
                    "_awa_original_priority"@,
                    from_priority,
                ),
                None => between,
            })
        }
}

fn note_origin(payload: &mut RuntimePayload, queue: Option<&str>, priority: Option<i16>)
    requires
        old(payload)@.metadata is Object,
    ensures
        final(payload)@ == old(payload)@.with_metadata(final(payload)@.metadata),
        origin_noted(
            old(payload)@.metadata,
            match queue {
                Some(name) => Some(name@),
                None => None,
            },
            priority,
            final(payload)@.metadata,
        ),
{
    let ghost before = payload@.metadata;
    let ghost mut from_queue: Value = arbitrary();
    let ghost mut from_priority: Value = arbitrary();
    match queue {
        Some(name) => {
            let value = json::string_value(name.to_owned());
            proof {
                from_queue = value;
            }
            payload.note_metadata_entry("_awa_original_queue", value);
        },
        None => {},
    }
    let ghost between = payload@.metadata;
    assert(between is Object);
    match priority {
        Some(p) => {
            let value = json::int_value(p as i64);
            proof {
                from_priority = value;
            }
            payload.note_metadata_entry("_awa_original_priority", value);
        },
        None => {},
    }
    proof {
        assert(between == (match queue {
            Some(name) => payload::with_entry_if_absent(
                before,
                "_awa_original_queue"@,
                from_queue,
            ),
            None => before,
        }));
        let noted = payload::with_entry_if_absent(before, "_awa_original_queue"@, from_queue);
        let number = json::node(from_priority);
        assert(origin_noted(
            before,
            match queue {
                Some(name) => Some(name@),
                None => None,
            },
            priority,
            payload@.metadata,
        ));
    }
}

impl QueueStorage {
    /// The physical queue that a job on `old` is moved to: it stays where it is
    /// when no queue is asked for, or its own by either name.
    pub open spec fn destination(
        &self,
        old: Seq<char>,
        asked: Option<Seq<char>>,
        hash: Option<u64>,
        job_id: i64,
    ) -> Seq<char> {
        match asked {
            Some(queue) => if queue != old && queue != self.logical(old) {
                self.striped_queue(queue, hash, job_id)
            } else {
                old
            },
            None => old,
        }
    }

    /// `r` is the plan for a move: nothing when the job would stay on its lane,
    /// and else the new lane and the payload with the job's origin noted. The
    /// payload is read only for a move.
    pub open spec fn plans_move(
        &self,
        waiting: Waiting,
        payload: Value,
        queue: Option<&str>,
        priority: Option<i16>,
        hash: Option<u64>,
        r: Result<Option<Relocation>, AwaError>,
    ) -> bool {
        let asked = match queue {
            Some(name) => Some(name@),
            None => None,
        };
        let new_queue = self.destination(waiting.queue@, asked, hash, waiting.job_id);
        let new_priority = match priority {
            Some(p) => p,
            None => waiting.priority,
        };
        let stays = new_queue == waiting.queue@ && new_priority == waiting.priority;
        match r {
            Ok(None) => stays,
            Ok(Some(to)) => {
                &&& !stays
                &&& payload::payload_readable(payload)
                &&& to.queue@ == new_queue
                &&& to.priority == new_priority
                &&& moves_payload(
                    payload::payload_of(payload),
                    if queue is Some {
                        Some(self.logical(waiting.queue@))
                    } else {
                        None
                    },
                    if priority is Some {
                        Some(waiting.priority)
                    } else {
                        None
                    },
                    to.payload,
                )
            },
            Err(err) => !stays && !payload::payload_readable(payload) && payload::is_payload_error(
                payload,
                err,
            ),
        }
    }

    /// Plans a move, given the hash of the job's unique key. Nothing is planned
    /// when the job would stay on its lane.
    pub fn plan_move_for_hash(
        &self,
        waiting: &Waiting,
        payload: Value,
        queue: Option<&str>,
        priority: Option<i16>,
        hash: Option<u64>,
    ) -> (r: Result<Option<Relocation>, AwaError>)
        requires
            self.layout().queue_stripe_count <= i64::MAX,
        ensures
            self.plans_move(*waiting, payload, queue, priority, hash, r),
    {
        let logical = self.logical_queue_name(waiting.queue);
        let new_queue = match queue {
            Some(name) => {
                if !text::same_text(name, waiting.queue) && !text::same_text(name, logical) {
                    self.queue_stripe_for_hash(name, hash, waiting.job_id)
                } else {
                    waiting.queue.to_owned()
                }
            },
            None => waiting.queue.to_owned(),
        };
        let new_priority: i16 = match priority {
            Some(p) => p,
            None => waiting.priority,
        };
        if text::same_text(new_queue.as_str(), waiting.queue) && new_priority == waiting.priority {
            return Ok(None);
        }
        let mut read = match RuntimePayload::from_json(payload) {
            Ok(read) => read,
            Err(err) => return Err(err),
        };
        let from_queue = match queue {
            Some(_) => Some(logical),
            None => None,
        };
        let from_priority = match priority {
            Some(_) => Some(waiting.priority),
            None => None,
        };
        note_origin(&mut read, from_queue, from_priority);
        let ghost seen = read@;
        let out = read.into_json();
        assert(payload::payload_writes(
            payload::payload_of(payload).with_metadata(seen.metadata),
            out,
        ));
        Ok(Some(Relocation { queue: new_queue, priority: new_priority, payload: out }))
    }

    /// Plans a move. A job with a unique key goes to the stripe that the key's
    /// hash picks, whatever that hash is.
    pub fn plan_move(
        &self,
        waiting: &Waiting,
        payload: Value,
        queue: Option<&str>,
        priority: Option<i16>,
    ) -> (r: Result<Option<Relocation>, AwaError>)
        requires
            self.layout().queue_stripe_count <= i64::MAX,
        ensures
            exists|hash: Option<u64>|
                (hash is Some == *waiting.unique_key is Some) && #[trigger] self.plans_move(
                    *waiting,
                    payload,
                    queue,
                    priority,
                    hash,
                    r,
                ),
    {
        let hash: Option<u64> = match waiting.unique_key {
            Some(key) => Some(routing::unique_key_hash(key)),
            None => None,
        };
        self.plan_move_for_hash(waiting, payload, queue, priority, hash)
    }
}

/// The stored payload `out` is `base` with the job's origin noted.
pub open spec fn moves_payload(
    base: PayloadView,
    queue: Option<Seq<char>>,
    priority: Option<i16>,
    out: Value,
) -> bool {
    exists|metadata: JsonNode| #[trigger]
        origin_noted(base.metadata, queue, priority, metadata) && payload::payload_writes(
            base.with_metadata(metadata),
            out,
        )
}

/// The first move writes down where a job came from; later moves leave that
/// alone.
pub proof fn law_origin_is_noted_once(
    before: JsonNode,
    queue: Seq<char>,
    priority: i16,
    after: JsonNode,
)
    requires
        before is Object,
        origin_noted(before, Some(queue), Some(priority), after),
    ensures
        after is Object,
        after->Object_0.dom().contains("_awa_original_queue"@),
        after->Object_0.dom().contains("_awa_original_priority"@),
        before->Object_0.dom().contains("_awa_original_queue"@)
            ==> after->Object_0["_awa_original_queue"@] == before->Object_0["_awa_original_queue"@],
        before->Object_0.dom().contains("_awa_original_priority"@)
            ==> after->Object_0["_awa_original_priority"@]
            == before->Object_0["_awa_original_priority"@],
        !before->Object_0.dom().contains("_awa_original_queue"@) ==> json::node(
            after->Object_0["_awa_original_queue"@],
        ) == JsonNode::Text(queue),
        !before->Object_0.dom().contains("_awa_original_priority"@) ==> json::node(
            after->Object_0["_awa_original_priority"@],
        ) == JsonNode::Int(priority as int),
{
    reveal_strlit("_awa_original_queue");
    reveal_strlit("_awa_original_priority");
    assert("_awa_original_queue"@.len() == 19 && "_awa_original_priority"@.len() == 22);
}

/// The instant up to which a job must have been due to be aged; none when
/// nothing is to be aged.
pub fn aging_cutoff(now: Timestamp, interval: Span, limit: i64) -> (r: Result<
    Option<Timestamp>,
    AwaError,
>)
    requires
        now.valid(),
        interval.wf(),
        limit > 0 && interval.representable() ==> clock::reaches_before(now, interval),
    ensures
        match r {
            Ok(None) => limit <= 0,
            Ok(Some(cutoff)) => limit > 0 && interval.representable() && cutoff
                == clock::behind(now, interval) && cutoff.valid(),
            Err(err) => limit > 0 && !interval.representable() && error::is_validation(
                err,
                "invalid aging interval"@ + ": "@ + clock::span_out_of_range_text(),
            ),
        },
{
    if limit <= 0 {
        return Ok(None);
    }
    match clock::earlier(now, interval, "invalid aging interval") {
        Ok(cutoff) => Ok(Some(cutoff)),
        Err(err) => Err(err),
    }
}

/// `aged` is the row one priority up, on its own queue, with the priority that
/// it came from noted.
pub open spec fn ages(row: ReadyTransitionRow, aged: ExistingReadyRow) -> bool {
    &&& payload::payload_readable(row.payload)
    &&& aged == (ExistingReadyRow {
        job_id: row.job_id,
        kind: row.kind,
        queue: row.queue,
        args: row.args,
        priority: (row.priority - 1) as i16,
        attempt: row.attempt,
        run_lease: row.run_lease,
        max_attempts: row.max_attempts,
        run_at: row.run_at,
        attempted_at: row.attempted_at,
        created_at: row.created_at,
        unique_key: row.unique_key,
        unique_states: row.unique_states,
        payload: aged.payload,
    })
    &&& moves_payload(
        payload::payload_of(row.payload),
        None,
        Some(row.priority),
        aged.payload,
    )
}

/// Raises waiting jobs by one priority, in order. A job whose payload cannot be
/// read fails the batch.
pub fn age_rows(rows: Vec<ReadyTransitionRow>) -> (r: Result<Vec<ExistingReadyRow>, AwaError>)
    requires
        forall|i: int| 0 <= i < rows@.len() ==> (#[trigger] rows@[i]).priority > i16::MIN,
    ensures
        match r {
            Ok(aged) => aged@.len() == rows@.len() && forall|i: int|
                #![trigger aged@[i]]
                0 <= i < rows@.len() ==> ages(rows@[i], aged@[i]),
            Err(err) => exists|i: int|
                #![trigger rows@[i]]
                0 <= i < rows@.len() && !payload::payload_readable(rows@[i].payload)
                    && payload::is_payload_error(rows@[i].payload, err) && forall|j: int|
                    #![trigger rows@[j]]
                    0 <= j < i ==> payload::payload_readable(rows@[j].payload),
        },
{
    let ghost all = rows@;
    let mut aged: Vec<ExistingReadyRow> = Vec::new();
    for row in it: rows
        invariant
            it.seq() == all,
            forall|i: int| 0 <= i < all.len() ==> (#[trigger] all[i]).priority > i16::MIN,
            aged@.len() == it.index(),
            forall|i: int|
                #![trigger aged@[i]]
                0 <= i < it.index() ==> ages(all[i], aged@[i]),
            forall|j: int|
                #![trigger all[j]]
                0 <= j < it.index() ==> payload::payload_readable(all[j].payload),
    {
        assert(row == all[it.index()]);
        let mut row = row;
        let mut stored = json::null();
        std::mem::swap(&mut stored, &mut row.payload);
        let ghost before = stored;
        let mut read = match RuntimePayload::from_json(stored) {
            Ok(read) => read,
            Err(err) => return Err(err),
        };
        let old: i16 = row.priority;
        note_origin(&mut read, None, Some(old));
        let ghost seen = read@;
        let out = read.into_json();
        assert(payload::payload_writes(
            payload::payload_of(before).with_metadata(seen.metadata),
            out,
        ));
        let queue = row.queue.clone();
        aged.push(row.into_existing_ready_row(queue, old - 1, out));
    }
    Ok(aged)
}

/// Whether jobs in this state can be promoted, in a batch of this size.
pub fn promotes(state: JobState, batch_size: i64) -> (r: bool)
    ensures
        r == ((state == JobState::Scheduled || state == JobState::Retryable) && batch_size > 0),
{
    match state {
        JobState::Scheduled | JobState::Retryable => batch_size > 0,
        _ => false,
    }
}

/// The deferred job on the ready plane.
pub open spec fn promoted(row: DeferredJobRow, now: Timestamp) -> ExistingReadyRow {
    ExistingReadyRow {
        job_id: row.job_id,
        kind: row.kind,
        queue: row.queue,
        args: row.args,
        priority: row.priority,
        attempt: row.attempt,
        run_lease: row.run_lease,
        max_attempts: row.max_attempts,
        run_at: now,
        attempted_at: row.attempted_at,
        created_at: row.created_at,
        unique_key: row.unique_key,
        unique_states: row.unique_states,
        payload: row.payload,
    }
}

/// Puts deferred jobs on the ready plane, due now.
pub fn promote_rows(rows: Vec<DeferredJobRow>, now: Timestamp) -> (out: Vec<ExistingReadyRow>)
    ensures
        out@ == rows@.map_values(|row: DeferredJobRow| promoted(row, now)),
{
    let ghost all = rows@;
    let mut out: Vec<ExistingReadyRow> = Vec::new();
    for row in it: rows
        invariant
            it.seq() == all,
            out@.len() == it.index(),
            forall|i: int| 0 <= i < it.index() ==> #[trigger] out@[i] == promoted(all[i], now),
    {
        assert(row == all[it.index()]);
        out.push(row.into_promoted_row(now));
    }
    assert(out@ =~= all.map_values(|row: DeferredJobRow| promoted(row, now)));
    out
}

/// The terminal row's job on the ready plane, as if it had never been attempted.
pub open spec fn restarted_terminal(terminal: DoneJobRow, now: Timestamp) -> ExistingReadyRow {
    ExistingReadyRow {
        job_id: terminal.job_id,
        kind: terminal.kind,
        queue: terminal.queue,
        args: terminal.args,
        priority: terminal.priority,
        attempt: 0,
        run_lease: terminal.run_lease,
        max_attempts: terminal.max_attempts,
        run_at: now,
        attempted_at: None,
        created_at: terminal.created_at,
        unique_key: terminal.unique_key,
        unique_states: terminal.unique_states,
        payload: terminal.payload,
    }
}

/// A job that is retried from a terminal state: ready now, as if it had never
/// been attempted, with its history kept.
pub fn retry_terminal(terminal: DoneJobRow, now: Timestamp) -> (ready: ExistingReadyRow)
    ensures
        ready == restarted_terminal(terminal, now),
{
    ExistingReadyRow {
        job_id: terminal.job_id,
        kind: terminal.kind,
        queue: terminal.queue,
        args: terminal.args,
        priority: terminal.priority,
        attempt: 0,
        run_lease: terminal.run_lease,
        max_attempts: terminal.max_attempts,
        run_at: now,
        attempted_at: None,
        created_at: terminal.created_at,
        unique_key: terminal.unique_key,
        unique_states: terminal.unique_states,
        payload: terminal.payload,
    }
}

/// What is found of a job that is to be retried: first a parked attempt, then,
/// without one, the latest failed or cancelled row.
#[derive(Debug)]
pub enum RetryReply {
    Parked(Option<LeaseTransitionRow>),
    Terminal(Option<DoneJobRow>),
}

/// What a retry does next.
#[derive(Debug)]
pub enum RetryStep {
    AskTerminal,
    /// Put the job on the ready plane. When it comes from a terminal row, that
    /// row is gone, and its receipt and its counter have to follow.
    Requeue { ready: ExistingReadyRow, old_state: JobState, terminal_removed: bool },
    NotFound,
    Failed(AwaError),
}

/// Decides a retry by what is found.
pub fn retry_step(reply: RetryReply, now: Timestamp) -> (r: RetryStep)
    ensures
        match reply {
            RetryReply::Parked(None) => r is AskTerminal,
            RetryReply::Parked(Some(row)) => match r {
                RetryStep::Requeue { ready, old_state, terminal_removed } => {
                    &&& payload::payload_readable(row.payload)
                    &&& ready == row.restarted(now, None, ready.payload)
                    &&& payload::payload_writes(row.abandoned(), ready.payload)
                    &&& old_state == row.state
                    &&& !terminal_removed
                },
                RetryStep::Failed(err) => !payload::payload_readable(row.payload)
                    && payload::is_payload_error(row.payload, err),
                _ => false,
            },
            RetryReply::Terminal(None) => r is NotFound,
            RetryReply::Terminal(Some(row)) => r matches RetryStep::Requeue {
                ready,
                old_state,
                terminal_removed,
            } && ready == restarted_terminal(row, now) && old_state == row.state
                && terminal_removed,
        },
{
    match reply {
        RetryReply::Parked(None) => RetryStep::AskTerminal,
        RetryReply::Parked(Some(row)) => {
            let old_state = row.state;
            match row.retry_parked(now) {
                Ok(ready) => RetryStep::Requeue { ready, old_state, terminal_removed: false },
                Err(err) => RetryStep::Failed(err),
            }
        },
        RetryReply::Terminal(None) => RetryStep::NotFound,
        RetryReply::Terminal(Some(row)) => {
            let old_state = row.state;
            RetryStep::Requeue {
                ready: retry_terminal(row, now),
                old_state,
                terminal_removed: true,
            }
        },
    }
}

/// A retried job is the same job with its attempts counted afresh, and what it
/// has recorded stays.
pub proof fn law_retry_keeps_the_job(row: DoneJobRow, now: Timestamp)
    ensures
        ({
            let ready = restarted_terminal(row, now);
            &&& ready.job_id == row.job_id
            &&& ready.run_lease == row.run_lease
            &&& ready.payload == row.payload
            &&& ready.queue == row.queue
            &&& ready.priority == row.priority
            &&& ready.attempt == 0
            &&& ready.run_at == now
        }),
{
}

} // verus!
