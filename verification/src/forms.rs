//! A row in one form and in the next: what is said of the job is said again.

use crate::clock;
use crate::clock::Timestamp;
use crate::job::JobState;
use crate::json;
use crate::json::JsonNode;
use crate::keeping;
use crate::keeping::JobEssence;
use crate::rows::{
    DeferredJobRow, DlqJobRow, DoneJobRow, ExistingReadyRow, LeaseTransitionRow, ReadyJobRow,
    ReadyTransitionRow,
};
use crate::transitions;
use crate::transitions::{callback_error, callback_error_text, RescueCause};
use serde_json::Value;
use vstd::prelude::*;

verus! {

/// A ready row that goes back to a queue is the same job, there and with the
/// payload that it was given.
pub proof fn law_ready_row_goes_back_as_it_was(
    row: ReadyTransitionRow,
    queue: String,
    priority: i16,
    payload: Value,
    out: ExistingReadyRow,
)
    requires
        call_ensures(
            ReadyTransitionRow::into_existing_ready_row,
            (row, queue, priority, payload),
            out,
        ),
    ensures
        out.essence() == (JobEssence { queue: queue@, priority, ..row.essence() }),
        out.payload == payload,
{
}

/// A ready row that ends keeps its job and its place, and has the state, the time
/// and the payload that it was given.
pub proof fn law_ready_row_ends_as_it_was(
    row: ReadyTransitionRow,
    state: JobState,
    finalized_at: Timestamp,
    payload: Value,
    out: DoneJobRow,
)
    requires
        call_ensures(
            ReadyTransitionRow::into_done_row,
            (row, state, finalized_at, payload),
            out,
        ),
    ensures
        out.essence() == row.essence(),
        out.state == state,
        out.finalized_at == finalized_at,
        out.payload == payload,
        out.ready_slot == row.ready_slot,
        out.ready_generation == row.ready_generation,
        out.lane_seq == row.lane_seq,
        out.enqueue_shard == row.enqueue_shard,
{
}

/// A terminal row that is buried keeps its job, state, end and payload, and notes
/// the reason, the time and the lease.
pub proof fn law_terminal_row_is_buried_as_it_was(
    row: DoneJobRow,
    reason: String,
    at: Timestamp,
    out: DlqJobRow,
)
    requires
        call_ensures(DoneJobRow::into_dlq_row, (row, reason, at), out),
    ensures
        out.essence() == row.essence(),
        out.state == row.state,
        out.finalized_at == row.finalized_at,
        out.payload == row.payload,
        out.dlq_reason@ == reason@,
        out.dlq_at == at,
        out.original_run_lease == row.run_lease,
{
}

/// A dead row comes back ready as the same job with no attempt made, on the queue
/// and priority and with the time and payload that it was given.
pub proof fn law_dead_row_comes_back_ready(
    row: DlqJobRow,
    queue: String,
    priority: i16,
    run_at: Timestamp,
    payload: Value,
    out: ExistingReadyRow,
)
    requires
        call_ensures(
            DlqJobRow::into_retry_ready_row,
            (row, queue, priority, run_at, payload),
            out,
        ),
    ensures
        out.essence() == (JobEssence {
            queue: queue@,
            priority,
            run_at,
            attempt: 0,
            attempted_at: None,
            ..row.essence()
        }),
        out.payload == payload,
{
}

/// A dead row comes back scheduled as the same job with no attempt made, on the
/// queue and priority and with the time and payload that it was given.
pub proof fn law_dead_row_comes_back_scheduled(
    row: DlqJobRow,
    queue: String,
    priority: i16,
    run_at: Timestamp,
    payload: Value,
    out: DeferredJobRow,
)
    requires
        call_ensures(
            DlqJobRow::into_retry_deferred_row,
            (row, queue, priority, run_at, payload),
            out,
        ),
    ensures
        out.essence() == (JobEssence {
            queue: queue@,
            priority,
            run_at,
            attempt: 0,
            attempted_at: None,
            ..row.essence()
        }),
        out.state == JobState::Scheduled,
        out.finalized_at is None,
        out.payload == payload,
{
}

/// An attempt that ends keeps its job and its place, and has the state, the time
/// and the payload that it was given.
pub proof fn law_attempt_ends_as_it_was(
    row: LeaseTransitionRow,
    state: JobState,
    finalized_at: Timestamp,
    payload: Value,
    out: DoneJobRow,
)
    requires
        call_ensures(
            LeaseTransitionRow::into_done_row,
            (row, state, finalized_at, payload),
            out,
        ),
    ensures
        out.essence() == row.essence(),
        out.state == state,
        out.finalized_at == finalized_at,
        out.payload == payload,
        out.ready_slot == row.ready_slot,
        out.ready_generation == row.ready_generation,
        out.lane_seq == row.lane_seq,
        out.enqueue_shard == row.enqueue_shard,
{
}

/// An attempt that is put off keeps its job, and has the state, the times and the
/// payload that it was given.
pub proof fn law_attempt_is_put_off_as_it_was(
    row: LeaseTransitionRow,
    state: JobState,
    run_at: Timestamp,
    finalized_at: Option<Timestamp>,
    payload: Value,
    out: DeferredJobRow,
)
    requires
        call_ensures(
            LeaseTransitionRow::into_deferred_row,
            (row, state, run_at, finalized_at, payload),
            out,
        ),
    ensures
        out.essence() == (JobEssence { run_at, ..row.essence() }),
        out.state == state,
        out.finalized_at == finalized_at,
        out.payload == payload,
{
}

/// An attempt that goes back to its queue keeps its job, and has the time and the
/// payload that it was given.
pub proof fn law_attempt_goes_back_as_it_was(
    row: LeaseTransitionRow,
    run_at: Timestamp,
    payload: Value,
    out: ExistingReadyRow,
)
    requires
        call_ensures(LeaseTransitionRow::into_ready_row, (row, run_at, payload), out),
    ensures
        out.essence() == (JobEssence { run_at, ..row.essence() }),
        out.payload == payload,
{
}

/// An attempt that is buried keeps its job, failed, and notes the reason, the times
/// and the lease.
pub proof fn law_attempt_is_buried_as_it_was(
    row: LeaseTransitionRow,
    finalized_at: Timestamp,
    payload: Value,
    reason: String,
    at: Timestamp,
    out: DlqJobRow,
)
    requires
        call_ensures(
            LeaseTransitionRow::into_dlq_row,
            (row, finalized_at, payload, reason, at),
            out,
        ),
    ensures
        out.essence() == row.essence(),
        out.state == JobState::Failed,
        out.finalized_at == finalized_at,
        out.payload == payload,
        out.dlq_reason@ == reason@,
        out.dlq_at == at,
        out.original_run_lease == row.run_lease,
{
}

/// A row that went back to its queue shows the same job, but for its mask.
pub proof fn law_requeued_row_shows_the_job(row: ExistingReadyRow, out: ReadyJobRow)
    requires
        call_ensures(ExistingReadyRow::into_ready_job_row, (row,), out),
    ensures
        out.essence() == (JobEssence { unique_states: None, ..row.essence() }),
        out.payload == row.payload,
{
}

/// A deferred row that comes due keeps its job and its payload, due at the time
/// that it was given.
pub proof fn law_deferred_row_comes_due_as_it_was(
    row: DeferredJobRow,
    run_at: Timestamp,
    out: ExistingReadyRow,
)
    requires
        call_ensures(DeferredJobRow::into_promoted_row, (row, run_at), out),
    ensures
        out.essence() == (JobEssence { run_at, ..row.essence() }),
        out.payload == row.payload,
{
}

/// A job has no attempt left exactly where it has made as many as it may; and of
/// the causes of a rescue only an overdue callback then ends it.
pub proof fn law_last_attempt_exhausts_the_job(
    row: LeaseTransitionRow,
    cause: RescueCause,
    exhausted: bool,
    ends: bool,
)
    requires
        call_ensures(LeaseTransitionRow::is_exhausted, (&row,), exhausted),
        call_ensures(RescueCause::ends, (cause, &row), ends),
    ensures
        exhausted <==> row.attempt >= row.max_attempts,
        ends <==> exhausted && cause == RescueCause::CallbackTimeout,
{
}

/// An error that came with a callback is noted as it came, with the attempt, the
/// time, and that it was the last, where it did not say so itself.
pub proof fn law_callback_error_is_noted_as_it_came(
    entry: Value,
    attempt: i16,
    at: Timestamp,
    noted: Value,
    name: Seq<char>,
)
    requires
        at.valid(),
        call_ensures(callback_error, (entry, attempt, at), noted),
    ensures
        json::node(entry) is Object && keeping::entry(entry, name) is Some ==> keeping::entry(
            noted,
            name,
        ) == keeping::entry(entry, name),
        !(json::node(entry) is Object) ==> keeping::entry(noted, "error"@) == Some(entry),
        keeping::entry(entry, "attempt"@) is None ==> keeping::entry(noted, "attempt"@) is Some
            && json::node(keeping::entry(noted, "attempt"@)->0) == JsonNode::Int(attempt as int),
        keeping::entry(entry, "at"@) is None ==> keeping::entry(noted, "at"@) is Some
            && json::node(keeping::entry(noted, "at"@)->0) == JsonNode::Text(
            clock::rfc3339_text(at.secs, at.nanos),
        ),
        keeping::entry(entry, "terminal"@) is None ==> keeping::entry(noted, "terminal"@) is Some
            && json::node(keeping::entry(noted, "terminal"@)->0) == JsonNode::Bool(true),
{
    let own = transitions::callback_entries(entry);
    let entries = json::node(noted)->Object_0;
    assert(entries.dom().contains("attempt"@));
    assert(entries.dom().contains("at"@));
    assert(entries.dom().contains("terminal"@));
    reveal_strlit("error");
    reveal_strlit("attempt");
    reveal_strlit("at");
    reveal_strlit("terminal");
    assert("error"@.len() == 5 && "attempt"@.len() == 7 && "at"@.len() == 2 && "terminal"@.len()
        == 8);
    if json::node(entry) is Object {
        assert(own == json::node(entry)->Object_0);
        if keeping::entry(entry, name) is Some {
            assert(own.dom().contains(name));
            assert(entries.dom().contains(name));
        }
    } else {
        assert(own.dom().contains("error"@));
        assert(entries.dom().contains("error"@));
        assert(!own.dom().contains("attempt"@));
        assert(!own.dom().contains("at"@));
        assert(!own.dom().contains("terminal"@));
    }
}

/// The text of an error is told as the error.
pub proof fn law_error_text_is_told_as_the_error(error: &str, entry: Value, name: Seq<char>)
    requires
        call_ensures(callback_error_text, (error,), entry),
    ensures
        keeping::entry(entry, "error"@) is Some,
        json::node(keeping::entry(entry, "error"@)->0) == JsonNode::Text(error@),
        name != "error"@ ==> keeping::entry(entry, name) is None,
{
    let entries = json::node(entry)->Object_0;
    assert(entries.dom().contains("error"@));
    assert(name != "error"@ ==> !entries.dom().contains(name));
}

} // verus!
