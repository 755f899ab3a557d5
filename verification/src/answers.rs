//! What callers are told: the state of a job, the outcome of a callback, the cause
//! of a failure; and what a stored payload and a copied line say.

use crate::callback;
use crate::callback::{
    callback_lock_clause, callback_not_found, check_callback_config, check_expression,
    check_registered, judge_expression, poll_callback, poll_without_lease, take_callback_result,
    CallbackConfig, CallbackPollResult, Leftover, PollStep, PolledLease,
};
use crate::clock;
use crate::clock::Timestamp;
use crate::copy;
use crate::copy::FieldReading;
use crate::error::{
    is_lock_contention, job_unique_conflict, map_database_error, validation, AwaError,
    DatabaseFailure,
};
use crate::job;
use crate::job::{older_fact, state_rank, transition_timestamp, JobRow, JobState};
use crate::json;
use crate::json::JsonNode;
use crate::keeping;
use crate::order;
use crate::outside;
use crate::payload;
use crate::payload::{
    is_compact_receipt_completion_metadata, is_storage_payload_empty, lifecycle_error,
    materialize_runtime_payload, payload_from_parts, payload_with_attempt_state, storage_payload,
    terminal_storage_payload, with_progress, RuntimePayload,
};
use crate::ring::{lock_reply, LockReply};
use crate::rows::{AttemptStateRow, DeferredJobRow, RuntimeReadyInsert};
use crate::text;
use serde_json::Value;
use vstd::prelude::*;
use vstd::utf8::*;

verus! {

/// A state is in flight exactly while an attempt runs or waits for an outside
/// answer.
pub proof fn law_in_flight_is_running_or_waiting(state: JobState, flying: bool)
    requires
        call_ensures(JobState::is_in_flight, (state,), flying),
    ensures
        flying <==> state == JobState::Running || state == JobState::WaitingExternal,
{
}

/// Of two states that a job is found in, the one of a running attempt counts most,
/// then one in which the job is put off, then one in which it waits, then one in
/// which it ended.
pub proof fn law_states_outrank_each_other(a: JobState, b: JobState, x: u8, y: u8)
    requires
        call_ensures(state_rank, (a,), x),
        call_ensures(state_rank, (b,), y),
    ensures
        a == JobState::Running || a == JobState::WaitingExternal ==> (y == x <==> b
            == JobState::Running || b == JobState::WaitingExternal) && y <= x,
        a == JobState::Scheduled || a == JobState::Retryable ==> (y == x <==> b
            == JobState::Scheduled || b == JobState::Retryable),
        (a == JobState::Scheduled || a == JobState::Retryable) && b == JobState::Available ==> y
            < x,
        a == JobState::Available && (b == JobState::Completed || b == JobState::Failed || b
            == JobState::Cancelled) ==> y < x,
        (a == JobState::Completed || a == JobState::Failed || a == JobState::Cancelled) && (b
            == JobState::Completed || b == JobState::Failed || b == JobState::Cancelled) ==> x == y,
{
}

/// A job's last change is its end; failing that its heartbeat, its deadline, the
/// start of its attempt, the time it is due.
pub proof fn law_last_change_is_the_latest_kind(job: JobRow, at: Timestamp)
    requires
        call_ensures(transition_timestamp, (&job,), at),
    ensures
        job.finalized_at is Some ==> Some(at) == job.finalized_at,
        job.finalized_at is None && job.heartbeat_at is Some ==> Some(at) == job.heartbeat_at,
        job.finalized_at is None && job.heartbeat_at is None && job.deadline_at is Some ==> Some(at)
            == job.deadline_at,
        job.finalized_at is None && job.heartbeat_at is None && job.deadline_at is None
            && job.attempted_at is Some ==> Some(at) == job.attempted_at,
        job.finalized_at is None && job.heartbeat_at is None && job.deadline_at is None
            && job.attempted_at is None ==> at == job.run_at,
{
}

/// Of two facts about a job, the one with the lower run lease is older, whatever
/// else they say; with the same lease, the one that changed earlier; with the same
/// change, the one in the lesser state. None is older than itself, and of two only
/// one can be the older.
pub proof fn law_older_facts_give_way(
    a: JobRow,
    b: JobRow,
    older: bool,
    reverse: bool,
    x: Timestamp,
    y: Timestamp,
    m: u8,
    n: u8,
)
    requires
        call_ensures(older_fact, (&a, &b), older),
        call_ensures(older_fact, (&b, &a), reverse),
        call_ensures(transition_timestamp, (&a,), x),
        call_ensures(transition_timestamp, (&b,), y),
        call_ensures(state_rank, (a.state,), m),
        call_ensures(state_rank, (b.state,), n),
    ensures
        a.run_lease < b.run_lease ==> older,
        a.run_lease > b.run_lease ==> !older,
        a.run_lease == b.run_lease && (x.secs < y.secs || (x.secs == y.secs && x.nanos < y.nanos))
            ==> older,
        a.run_lease == b.run_lease && x == y ==> older == (m < n),
        !(older && reverse),
        a == b ==> !older,
{
    let p = a.recency();
    let q = b.recency();
    order::lemma_lex_four(
        a.run_lease as int,
        x.secs as int,
        x.nanos as int,
        m as int,
        b.run_lease as int,
        y.secs as int,
        y.nanos as int,
        n as int,
    );
    order::lemma_lex_irreflexive(p);
    if older && reverse {
        order::lemma_lex_asymmetric(p, q);
    }
}

/// A poll on a callback takes the result where the attempt runs again with one and
/// waits for no other; it waits where the attempt is parked on that very callback;
/// it is stale where the attempt has gone on to another; and it says the state
/// otherwise. Without a lease the job is looked up.
pub proof fn law_poll_answers_for_its_own_callback(
    lease: Option<PolledLease>,
    token: u128,
    step: PollStep,
)
    requires
        call_ensures(poll_callback, (lease, token), step),
    ensures
        lease is None <==> step is LoadJob,
        step matches PollStep::TakeResult { run_lease } ==> lease is Some && run_lease
            == lease->0.run_lease && lease->0.has_result && lease->0.callback_id is None
            && lease->0.state == JobState::Running,
        lease is Some && lease->0.has_result && lease->0.callback_id is None && lease->0.state
            == JobState::Running ==> step is TakeResult,
        step matches PollStep::Done(CallbackPollResult::Pending) ==> lease is Some
            && lease->0.callback_id == Some(token) && lease->0.state == JobState::WaitingExternal,
        lease is Some && lease->0.callback_id == Some(token) && lease->0.state
            == JobState::WaitingExternal ==> step == PollStep::Done(CallbackPollResult::Pending),
        step matches PollStep::Done(CallbackPollResult::Stale { token: asked, current, state }) ==> {
            &&& asked == token
            &&& lease is Some && lease->0.callback_id == Some(current)
            &&& current != token
            &&& state == lease->0.state
        },
        lease is Some && lease->0.callback_id is Some && lease->0.callback_id != Some(token)
            ==> step is Done && step->Done_0 is Stale,
        step matches PollStep::Done(CallbackPollResult::UnexpectedState { token: asked, state })
            ==> asked == token && lease is Some && state == lease->0.state,
        !(step matches PollStep::Done(CallbackPollResult::NotFound)),
        !(step matches PollStep::Done(CallbackPollResult::Resolved(_))),
{
}

/// A poll without a lease says the state of the job, or that there is none.
pub proof fn law_poll_without_a_lease_says_the_state(
    state: Option<JobState>,
    token: u128,
    told: CallbackPollResult,
)
    requires
        call_ensures(poll_without_lease, (state, token), told),
    ensures
        state is None <==> told is NotFound,
        state matches Some(s) ==> told == (CallbackPollResult::UnexpectedState { token, state: s }),
{
}

/// The result of a callback is handed over as it came; what it leaves behind goes
/// only where the attempt has nothing else to keep.
pub proof fn law_callback_result_is_handed_over(
    row: AttemptStateRow,
    taken: (Value, Leftover),
    nothing: (Value, Leftover),
)
    requires
        call_ensures(take_callback_result, (Some(row),), taken),
        call_ensures(take_callback_result, (None::<AttemptStateRow>,), nothing),
    ensures
        row.callback_result matches Some(result) ==> taken.0 == result,
        row.callback_result is None ==> json::node(taken.0) is Null,
        taken.1 == Leftover::Delete <==> row.progress is None && row.callback_filter is None
            && row.callback_on_complete is None && row.callback_on_fail is None
            && row.callback_transform is None,
        taken.1 == Leftover::Delete || taken.1 == Leftover::Clear,
        json::node(nothing.0) is Null,
        nothing.1 == Leftover::Nothing,
{
}

/// A callback is registered exactly where a lease was found to hold it.
pub proof fn law_registration_needs_a_running_job(rows_affected: u64, done: Result<(), AwaError>)
    requires
        call_ensures(check_registered, (rows_affected,), done),
    ensures
        done is Ok <==> rows_affected > 0,
        done matches Err(err) ==> err is Validation,
{
}

/// A callback that is not there is named by the text of its id.
pub proof fn law_missing_callback_is_named(callback_id: u128, err: AwaError)
    requires
        call_ensures(callback_not_found, (callback_id,), err),
    ensures
        err is CallbackNotFound,
        err->callback_id@ == outside::uuid_text(callback_id),
{
}

/// A configuration is empty exactly where it has none of its expressions.
pub proof fn law_empty_configuration_has_no_expressions(config: CallbackConfig, empty: bool)
    requires
        call_ensures(CallbackConfig::is_empty, (&config,), empty),
    ensures
        empty <==> config.filter is None && config.on_complete is None && config.on_fail is None
            && config.transform is None,
{
}

/// An expression passes exactly where it compiles and refers to nothing but the
/// payload.
pub proof fn law_expressions_see_the_payload_alone(
    name: &str,
    compiled: Result<Vec<String>, String>,
    judged: Result<(), AwaError>,
)
    requires
        call_ensures(judge_expression, (name, compiled), judged),
    ensures
        compiled is Err ==> judged is Err,
        compiled matches Ok(variables) ==> (judged is Ok <==> forall|i: int|
            0 <= i < variables@.len() ==> (#[trigger] variables@[i])@ == "payload"@),
        judged matches Err(err) ==> err is Validation,
{
    broadcast use vstd::seq_lib::group_filter_ensures;

    if let Ok(variables) = compiled {
        let stray = |v: String| v@ != "payload"@;
        let found = variables@.filter(stray);
        if found.len() > 0 {
            assert(found.contains(found[0]));
            assert(stray(found[0]));
            variables@.lemma_filter_contains_rev(stray, found[0]);
            let i = choose|i: int| 0 <= i < variables@.len() && variables@[i] == found[0];
            assert(variables@[i]@ != "payload"@);
        }
        if exists|i: int| 0 <= i < variables@.len() && (#[trigger] variables@[i])@ != "payload"@ {
            let i = choose|i: int|
                0 <= i < variables@.len() && (#[trigger] variables@[i])@ != "payload"@;
            assert(stray(variables@[i]));
            assert(found.contains(variables@[i]));
        }
    }
}

/// An expression that is checked and passes compiles and refers to nothing but the
/// payload; one that does not is refused.
pub proof fn law_sound_expressions_pass(
    name: &str,
    source: &str,
    checked: Option<Result<(), AwaError>>,
)
    requires
        call_ensures(check_expression, (name, source), checked),
    ensures
        checked is Some && checked->0 is Ok <==> outside::cel_error_columns(source@) is None
            && forall|variable: Seq<char>| #[trigger]
            outside::cel_variables(source@).contains(variable) ==> variable == "payload"@,
        checked is Some && checked->0 is Err ==> checked->0->Err_0 is Validation,
        checked is None ==> outside::cel_error_columns(source@) is Some,
{
    assert(callback::is_sound(source@) == (outside::cel_error_columns(source@) is None
        && forall|variable: Seq<char>| #[trigger]
        outside::cel_variables(source@).contains(variable) ==> variable == "payload"@));
}

/// A failure of the database is a conflict exactly where a unique constraint was
/// broken, which is then named; otherwise it is told as it came.
pub proof fn law_database_failures_are_told(failure: DatabaseFailure, err: AwaError)
    requires
        call_ensures(map_database_error, (failure,), err),
    ensures
        err is UniqueConflict <==> failure.code is Some && failure.code->0@ == "23505"@,
        err matches AwaError::UniqueConflict { constraint } ==> constraint == failure.constraint,
        err matches AwaError::Database { code, message } ==> code == failure.code && message
            == failure.message,
        err is UniqueConflict || err is Database,
{
}

/// A lock is taken, held elsewhere, or failed; and only the code for a lock that
/// cannot be had says that it is held elsewhere.
pub proof fn law_lock_is_taken_or_contended(
    reply: Result<(), DatabaseFailure>,
    told: LockReply,
)
    requires
        call_ensures(lock_reply, (reply,), told),
    ensures
        reply is Ok <==> told is Taken,
        told is Contended <==> reply is Err && reply->Err_0.code is Some && reply->Err_0.code->0@
            == "55P03"@,
        told matches LockReply::Failed(err) ==> reply is Err && (err is UniqueConflict <==> (
        reply->Err_0.code is Some && reply->Err_0.code->0@ == "23505"@)),
{
    reveal_strlit("55P03");
    reveal_strlit("23505");
}

/// Whether a lock could not be had, and the conflict that a job's key makes.
pub proof fn law_contention_and_conflicts_have_their_names(
    failure: DatabaseFailure,
    contended: bool,
    conflict: AwaError,
)
    requires
        call_ensures(is_lock_contention, (&failure,), contended),
        call_ensures(job_unique_conflict, (), conflict),
    ensures
        contended <==> failure.code is Some && failure.code->0@ == "55P03"@,
        conflict matches AwaError::UniqueConflict { constraint } && constraint is Some
            && constraint->0@ == "idx_awa_jobs_unique"@,
{
}

/// What an error says tells what it is about.
pub proof fn law_errors_say_what_they_are_about(err: AwaError, said: String)
    requires
        call_ensures(AwaError::message, (&err,), said),
    ensures
        err matches AwaError::Validation(text) ==> said@ == text@,
        err matches AwaError::Database { code, message } ==> said@ == message@,
        err matches AwaError::CallbackNotFound { callback_id } ==> said@ == "callback not found: "@
            + callback_id@,
        err matches AwaError::UniqueConflict { constraint: Some(name) } ==> said@
            == "unique conflict on "@ + name@,
{
}

/// A payload may also be a list: metadata, tags, errors and progress in this order,
/// and nothing after them.
pub proof fn law_listed_payload_is_read_in_order(value: Value, read: RuntimePayload)
    requires
        call_ensures(RuntimePayload::from_json, (value,), Ok(read)),
        json::node(value) is Array,
    ensures
        ({
            let parts = json::node(value)->Array_0;
            &&& parts.len() <= 4
            &&& parts.len() > 0 ==> json::node(read.metadata) == json::node(parts[0])
            &&& parts.len() == 0 ==> json::is_empty_object(read.metadata)
            &&& parts.len() > 1 ==> json::node(parts[1]) is Array && read.tags@.len()
                == json::node(parts[1])->Array_0.len()
            &&& parts.len() <= 1 ==> read.tags@.len() == 0
            &&& parts.len() > 2 ==> json::node(parts[2]) == JsonNode::Array(read.errors@)
            &&& parts.len() <= 2 ==> read.errors@.len() == 0
            &&& read.progress is Some <==> parts.len() > 3 && !(json::node(parts[3]) is Null)
            &&& read.progress matches Some(progress) ==> progress == parts[3]
        }),
{
    let seen = read@;
    assert(seen.tags.len() == read.tags@.len());
}

/// Nothing stored is read as nothing said.
pub proof fn law_null_payload_says_nothing(value: Value, read: RuntimePayload)
    requires
        call_ensures(RuntimePayload::from_json, (value,), Ok(read)),
        json::node(value) is Null,
    ensures
        json::is_empty_object(read.metadata),
        read.tags@.len() == 0,
        read.errors@.len() == 0,
        read.progress is None,
{
    let seen = read@;
    assert(seen.tags.len() == read.tags@.len());
}

/// A payload that is no record, or whose tags or errors are no lists, is refused.
pub proof fn law_broken_payload_is_refused(
    value: Value,
    read: Result<RuntimePayload, AwaError>,
)
    requires
        call_ensures(RuntimePayload::from_json, (value,), read),
    ensures
        read is Ok ==> json::node(value) is Object || json::node(value) is Array || json::node(
            value,
        ) is Null,
        json::node(value) is Object && (keeping::entry(value, "tags"@) is Some && !(json::node(
            keeping::entry(value, "tags"@)->0,
        ) is Array) || keeping::entry(value, "errors"@) is Some && !(json::node(
            keeping::entry(value, "errors"@)->0,
        ) is Array)) ==> read is Err && read->Err_0 is Serialization,
        json::node(value) is Object && keeping::entry(value, "metadata"@) is Some && !(json::node(
            keeping::entry(value, "metadata"@)->0,
        ) is Object) ==> read is Err,
        json::node(value) is Object && keeping::entry(value, "tags"@) is None && keeping::entry(
            value,
            "errors"@,
        ) is None && keeping::entry(value, "metadata"@) is None ==> read is Ok,
{
}

/// The parts of a payload are stored each under its name.
pub proof fn law_parts_are_stored_by_name(
    metadata: Value,
    tags: Vec<String>,
    errors: Option<Vec<Value>>,
    progress: Option<Value>,
    stored: Value,
    read: RuntimePayload,
)
    requires
        json::node(metadata) is Object,
        call_ensures(payload_from_parts, (metadata, tags, errors, progress), stored),
        call_ensures(RuntimePayload::from_json, (stored,), Ok(read)),
    ensures
        json::node(read.metadata) == json::node(metadata),
        payload::texts(read.tags@) == payload::texts(tags@),
        errors matches Some(history) ==> read.errors@ == history@,
        errors is None ==> read.errors@.len() == 0,
        keeping::entry(stored, "progress"@) == progress,
        progress matches Some(p) ==> (read.progress == (if json::node(p) is Null {
            None
        } else {
            Some(p)
        })),
        progress is None ==> read.progress is None,
{
    payload::lemma_field_names();
    lemma_written_reads_back(
        payload::PayloadView {
            metadata: json::node(metadata),
            tags: payload::texts(tags@),
            errors: match errors {
                Some(e) => e@,
                None => Seq::empty(),
            },
            progress,
        },
        stored,
    );
}

proof fn lemma_written_reads_back(kept: payload::PayloadView, stored: Value)
    requires
        kept.metadata is Object,
        payload::payload_writes(kept, stored),
    ensures
        payload::payload_readable(stored),
        payload::payload_of(stored).metadata == kept.metadata,
        payload::payload_of(stored).tags == kept.tags,
        payload::payload_of(stored).errors == kept.errors,
        keeping::entry(stored, "progress"@) == kept.progress,
{
    payload::lemma_field_names();
    let entries = json::node(stored)->Object_0;
    assert(entries.dom().contains("progress"@) == (kept.progress is Some));
    assert(entries.dom().contains("metadata"@) || !entries.dom().contains("metadata"@));
    assert(entries.dom().contains("errors"@) || !entries.dom().contains("errors"@));
    assert(entries.dom().contains("tags"@) || !entries.dom().contains("tags"@));
    assert(payload::payload_of(stored).tags =~= kept.tags);
    assert(payload::payload_of(stored).errors =~= kept.errors);
}

/// A payload into which progress is written says the rest as before, and the
/// progress as written.
pub proof fn law_progress_is_replaced(
    before: Value,
    progress: Option<Value>,
    after: Value,
    first: RuntimePayload,
    second: RuntimePayload,
)
    requires
        call_ensures(with_progress, (before, progress), Ok(after)),
        call_ensures(RuntimePayload::from_json, (before,), Ok(first)),
        call_ensures(RuntimePayload::from_json, (after,), Ok(second)),
    ensures
        json::node(second.metadata) == json::node(first.metadata),
        payload::texts(second.tags@) == payload::texts(first.tags@),
        second.errors@ == first.errors@,
        keeping::entry(after, "progress"@) == progress,
        progress is None ==> second.progress is None,
        progress matches Some(p) ==> (second.progress == (if json::node(p) is Null {
            None
        } else {
            Some(p)
        })),
{
    lemma_written_reads_back(payload::payload_of(before).with_progress(progress), after);
}

/// What an attempt reported takes the place of the progress stored before it; where
/// it reported nothing, what was stored stays.
pub proof fn law_reported_progress_wins(
    before: Value,
    progress: Option<Value>,
    after: Value,
    first: RuntimePayload,
    second: RuntimePayload,
)
    requires
        call_ensures(payload_with_attempt_state, (before, progress), Ok(after)),
        call_ensures(RuntimePayload::from_json, (before,), Ok(first)),
        call_ensures(RuntimePayload::from_json, (after,), Ok(second)),
    ensures
        json::node(second.metadata) == json::node(first.metadata),
        payload::texts(second.tags@) == payload::texts(first.tags@),
        second.errors@ == first.errors@,
        progress is None ==> second.progress == first.progress,
        progress matches Some(p) ==> (second.progress == (if json::node(p) is Null {
            None
        } else {
            Some(p)
        })),
{
    lemma_written_reads_back(payload::payload_of(before).with_reported_progress(progress), after);
}

/// A running attempt sees what is stored, its own progress where it reported some,
/// and the result of its callback among the metadata, beside all that was there.
pub proof fn law_attempt_sees_its_callback_result(
    stored: Value,
    progress: Option<Value>,
    callback_result: Option<Value>,
    first: RuntimePayload,
    seen: RuntimePayload,
    name: Seq<char>,
)
    requires
        call_ensures(
            materialize_runtime_payload,
            (stored, progress, callback_result),
            Ok(seen),
        ),
        call_ensures(RuntimePayload::from_json, (stored,), Ok(first)),
    ensures
        payload::texts(seen.tags@) == payload::texts(first.tags@),
        seen.errors@ == first.errors@,
        progress is Some ==> seen.progress == progress,
        progress is None ==> seen.progress == first.progress,
        callback_result is Some ==> keeping::entry(seen.metadata, "_awa_callback_result"@)
            == callback_result,
        callback_result is None ==> json::node(seen.metadata) == json::node(first.metadata),
        name != "_awa_callback_result"@ ==> keeping::entry(seen.metadata, name) == keeping::entry(
            first.metadata,
            name,
        ),
{
    let base = payload::payload_of(stored).with_reported_progress(progress);
    assert(base.metadata == json::node(first.metadata));
    assert(base.metadata is Object);
    assert(seen@.metadata == json::node(seen.metadata));
}

/// A payload is stored unless it says nothing.
pub proof fn law_only_empty_payloads_are_left_out(
    value: Value,
    empty: bool,
    stored: Option<&Value>,
    beside: Option<&Value>,
    ready: Value,
)
    requires
        call_ensures(is_storage_payload_empty, (&value,), empty),
        call_ensures(storage_payload, (&value,), stored),
        call_ensures(terminal_storage_payload, (&value, Some(&ready)), beside),
    ensures
        empty <==> json::node(value) is Null || json::is_empty_object(value),
        stored is None <==> empty,
        stored matches Some(v) ==> *v == value,
        beside is None <==> empty || json::equal(ready, value),
        beside matches Some(v) ==> *v == value,
{
}

/// The entry of an error history says the error, the attempt and the time, and that
/// it was the last where it was.
pub proof fn law_error_entry_says_what_failed(
    error: &str,
    attempt: i16,
    at: Timestamp,
    terminal: bool,
    entry: Value,
)
    requires
        at.valid(),
        call_ensures(lifecycle_error, (error, attempt, at, terminal), entry),
    ensures
        keeping::entry(entry, "error"@) is Some && json::node(keeping::entry(entry, "error"@)->0)
            == JsonNode::Text(error@),
        keeping::entry(entry, "attempt"@) is Some && json::node(
            keeping::entry(entry, "attempt"@)->0,
        ) == JsonNode::Int(attempt as int),
        keeping::entry(entry, "at"@) is Some && json::node(keeping::entry(entry, "at"@)->0)
            == JsonNode::Text(clock::rfc3339_text(at.secs, at.nanos)),
        terminal <==> keeping::entry(entry, "terminal"@) is Some,
        terminal ==> json::node(keeping::entry(entry, "terminal"@)->0) == JsonNode::Bool(true),
{
    let entries = json::node(entry)->Object_0;
    assert(entries.dom().contains("error"@));
    assert(entries.dom().contains("attempt"@));
    assert(entries.dom().contains("at"@));
    reveal_strlit("terminal");
    reveal_strlit("error");
    reveal_strlit("attempt");
    reveal_strlit("at");
    assert("terminal"@.len() == 8);
    assert(entries.dom().contains("terminal"@) == terminal);
}

/// The text of a column of a copied line.
pub open spec fn says_text(field: Seq<u8>, text: Seq<char>) -> bool {
    copy::reads_as(field) == FieldReading::Bytes(encode_utf8(text))
}

/// The number of a column of a copied line.
pub open spec fn says_number(field: Seq<u8>, n: int) -> bool {
    field == encode_utf8(text::int_text(n))
}

/// A column of a copied line that is left null.
pub open spec fn is_left_null(field: Seq<u8>) -> bool {
    field == encode_utf8("__AWA_NULL__"@)
}

/// The time of a column of a copied line.
pub open spec fn says_time(field: Seq<u8>, at: Option<Timestamp>) -> bool {
    match at {
        Some(t) => says_text(field, clock::rfc3339_text(t.secs, t.nanos)),
        None => is_left_null(field),
    }
}

/// The key of a column of a copied line, in hexadecimal.
pub open spec fn says_key(field: Seq<u8>, key: Option<Vec<u8>>) -> bool {
    match key {
        Some(bytes) => says_text(field, "\\x"@ + outside::hex_text(bytes@)),
        None => is_left_null(field),
    }
}

/// The mask of a column of a copied line.
pub open spec fn says_mask(field: Seq<u8>, mask: Option<String>) -> bool {
    match mask {
        Some(bits) => says_text(field, bits@),
        None => is_left_null(field),
    }
}

/// The payload of a column of a copied line.
pub open spec fn says_payload(field: Seq<u8>, stored: Value) -> bool {
    if json::node(stored) is Null || json::is_empty_object(stored) {
        is_left_null(field)
    } else {
        says_text(field, json::text(stored))
    }
}

/// A line that ends and that, split at its commas and read, says a ready row: slot,
/// generation, id, kind, queue, arguments, priority, attempt, run lease, most
/// attempts, number in the lane, shard, when due, when attempted, when made, key,
/// mask, payload.
pub open spec fn says_ready_row(
    line: Seq<u8>,
    ready_slot: i32,
    ready_generation: i64,
    row: RuntimeReadyInsert,
) -> bool {
    let said = copy::split_fields(line.drop_last(), false, Seq::empty());
    &&& line.len() > 0
    &&& line.last() == 0x0au8
    &&& said.len() == 18
    &&& says_number(said[0], ready_slot as int)
    &&& says_number(said[1], ready_generation as int)
    &&& says_number(said[2], row.job_id as int)
    &&& says_text(said[3], row.kind@)
    &&& says_text(said[4], row.queue@)
    &&& says_text(said[5], json::text(row.args))
    &&& says_number(said[6], row.priority as int)
    &&& says_number(said[7], row.attempt as int)
    &&& says_number(said[8], row.run_lease as int)
    &&& says_number(said[9], row.max_attempts as int)
    &&& says_number(said[10], row.lane_seq as int)
    &&& says_number(said[11], row.enqueue_shard as int)
    &&& says_time(said[12], Some(row.run_at))
    &&& says_time(said[13], row.attempted_at)
    &&& says_time(said[14], Some(row.created_at))
    &&& says_key(said[15], row.unique_key)
    &&& says_mask(said[16], row.unique_states)
    &&& says_payload(said[17], row.payload)
}

/// The line of a ready row says the row, whatever the texts in it hold.
pub proof fn law_copied_ready_row_says_the_row(
    ready_slot: i32,
    ready_generation: i64,
    row: RuntimeReadyInsert,
)
    ensures
        says_ready_row(
            copy::line(copy::ready_fields(ready_slot, ready_generation, row)),
            ready_slot,
            ready_generation,
            row,
        ),
{
    let fields = copy::ready_fields(ready_slot, ready_generation, row);
    let line = copy::line(fields);
    assert(line.drop_last() =~= copy::joined(fields));
    copy::law_ready_line_splits(ready_slot, ready_generation, row);
    copy::law_copy_field_reads_back(encode_utf8(row.kind@));
    copy::law_copy_field_reads_back(encode_utf8(row.queue@));
    copy::law_copy_field_reads_back(encode_utf8(json::text(row.args)));
    copy::law_copy_field_reads_back(encode_utf8(json::text(row.payload)));
    lemma_time_is_said(Some(row.run_at));
    lemma_time_is_said(row.attempted_at);
    lemma_time_is_said(Some(row.created_at));
    lemma_key_is_said(row.unique_key, row.unique_states);
}

pub proof fn lemma_time_is_said(at: Option<Timestamp>)
    ensures
        says_time(copy::optional_datetime_field(at), at),
{
    if let Some(t) = at {
        copy::law_copy_field_reads_back(encode_utf8(clock::rfc3339_text(t.secs, t.nanos)));
    }
}

pub proof fn lemma_key_is_said(key: Option<Vec<u8>>, mask: Option<String>)
    ensures
        says_key(copy::optional_bytes_field(key), key),
        says_mask(copy::optional_text_field(mask), mask),
{
    if let Some(bytes) = key {
        copy::law_copy_field_reads_back(encode_utf8("\\x"@ + outside::hex_text(bytes@)));
    }
    if let Some(bits) = mask {
        copy::law_copy_field_reads_back(encode_utf8(bits@));
    }
}

/// A line that ends and that, split at its commas and read, says a deferred row:
/// id, kind, queue, arguments, state, priority, attempt, run lease, most attempts,
/// when due, when attempted, when ended, when made, key, mask, payload.
pub open spec fn says_deferred_row(line: Seq<u8>, row: DeferredJobRow) -> bool {
    let said = copy::split_fields(line.drop_last(), false, Seq::empty());
    &&& line.len() > 0
    &&& line.last() == 0x0au8
    &&& said.len() == 16
    &&& says_number(said[0], row.job_id as int)
    &&& says_text(said[1], row.kind@)
    &&& says_text(said[2], row.queue@)
    &&& says_text(said[3], json::text(row.args))
    &&& says_text(said[4], row.state.label())
    &&& says_number(said[5], row.priority as int)
    &&& says_number(said[6], row.attempt as int)
    &&& says_number(said[7], row.run_lease as int)
    &&& says_number(said[8], row.max_attempts as int)
    &&& says_time(said[9], Some(row.run_at))
    &&& says_time(said[10], row.attempted_at)
    &&& says_time(said[11], row.finalized_at)
    &&& says_time(said[12], Some(row.created_at))
    &&& says_key(said[13], row.unique_key)
    &&& says_mask(said[14], row.unique_states)
    &&& says_payload(said[15], row.payload)
}

/// The line of a deferred row says the row, whatever the texts in it hold.
pub proof fn law_copied_deferred_row_says_the_row(row: DeferredJobRow)
    ensures
        says_deferred_row(copy::line(copy::deferred_fields(row)), row),
{
    let fields = copy::deferred_fields(row);
    let line = copy::line(fields);
    assert(line.drop_last() =~= copy::joined(fields));
    copy::law_deferred_line_splits(row);
    copy::law_copy_field_reads_back(encode_utf8(row.kind@));
    copy::law_copy_field_reads_back(encode_utf8(row.queue@));
    copy::law_copy_field_reads_back(encode_utf8(json::text(row.args)));
    copy::law_copy_field_reads_back(encode_utf8(row.state.label()));
    copy::law_copy_field_reads_back(encode_utf8(json::text(row.payload)));
    lemma_time_is_said(Some(row.run_at));
    lemma_time_is_said(row.attempted_at);
    lemma_time_is_said(row.finalized_at);
    lemma_time_is_said(Some(row.created_at));
    lemma_key_is_said(row.unique_key, row.unique_states);
}

/// A chunk that is sent off and what is kept back are all that was written, in its
/// order.
pub proof fn law_chunks_lose_nothing(all: Seq<u8>, kept: Seq<u8>, chunk: Option<Vec<u8>>)
    requires
        copy::chunked(all, kept, chunk),
    ensures
        chunk is Some ==> chunk->0@ + kept == all && chunk->0@.len() >= 262_144,
        chunk is None ==> kept == all && all.len() < 262_144,
{
    if chunk is Some {
        assert(chunk->0@ + kept =~= all);
    }
}

/// An expression that is there compiles and refers to nothing but the payload.
pub open spec fn is_fit(source: Option<String>) -> bool {
    source is Some ==> outside::cel_error_columns(source->0@) is None && forall|variable: Seq<char>|
     #[trigger]
        outside::cel_variables(source->0@).contains(variable) ==> variable == "payload"@
}

/// A configuration passes exactly where each of its expressions does.
pub proof fn law_configuration_passes_as_a_whole(
    config: CallbackConfig,
    checked: Option<Result<(), AwaError>>,
)
    requires
        call_ensures(check_callback_config, (&config,), checked),
    ensures
        checked is Some && checked->0 is Ok <==> is_fit(config.filter) && is_fit(
            config.on_complete,
        ) && is_fit(config.on_fail) && is_fit(config.transform),
        checked is Some && checked->0 is Err ==> checked->0->Err_0 is Validation,
{
    let args = (&config,);
    let four = config.expressions();
    assert(four[0].1 == config.filter);
    assert(four[1].1 == config.on_complete);
    assert(four[2].1 == config.on_fail);
    assert(four[3].1 == config.transform);
    assert forall|i: int| 0 <= i < 4 implies callback::passes((#[trigger] four[i]).1) == is_fit(
        four[i].1,
    ) by {
        if let Some(source) = four[i].1 {
            assert(callback::is_sound(source@) == is_fit(four[i].1));
        }
    }
    if checked is Some && checked->0 is Ok {
        assert(callback::passes(args.0.expressions()[0].1));
        assert(callback::passes(args.0.expressions()[1].1));
        assert(callback::passes(args.0.expressions()[2].1));
        assert(callback::passes(args.0.expressions()[3].1));
    }
    if checked is Some && checked->0 is Err {
        let err = checked->0->Err_0;
        let i = choose|i: int| #[trigger]
            callback::is_first_unsound(*args.0, i) && callback::is_reportable(
                args.0.expressions()[i].1->0@,
            ) && callback::objects_to(
                args.0.expressions()[i].0,
                args.0.expressions()[i].1->0@,
                err,
            );
        assert(callback::is_first_unsound(config, i));
        assert(!is_fit(four[i].1));
    }
    if checked is None {
        let i = choose|i: int| #[trigger]
            callback::is_first_unsound(*args.0, i) && !callback::is_reportable(
                args.0.expressions()[i].1->0@,
            );
        assert(callback::is_first_unsound(config, i));
        assert(!is_fit(four[i].1));
    }
}

/// A payload begins with nothing said; its error history is shown where it has one.
pub proof fn law_first_payload_says_nothing(
    first: RuntimePayload,
    kept: RuntimePayload,
    shown: Option<Vec<Value>>,
)
    requires
        call_ensures(RuntimePayload::initial, (), first),
        call_ensures(RuntimePayload::errors_option, (&kept,), shown),
    ensures
        json::is_empty_object(first.metadata),
        first.tags@.len() == 0,
        first.errors@.len() == 0,
        first.progress is None,
        shown is None <==> kept.errors@.len() == 0,
        shown matches Some(errors) ==> errors@ == kept.errors@,
{
    let seen = first@;
    assert(seen.tags.len() == first.tags@.len());
}

/// Metadata is no loss exactly where it says no more than where the job came from.
pub proof fn law_provenance_alone_is_no_loss(metadata: Value, small: bool)
    requires
        call_ensures(is_compact_receipt_completion_metadata, (&metadata,), small),
    ensures
        small <==> json::node(metadata) is Object && forall|name: Seq<char>| #[trigger]
            keeping::entry(metadata, name) is Some ==> name == "_awa_original_priority"@ || name
                == "_awa_original_queue"@,
{
    if json::node(metadata) is Object {
        let entries = json::node(metadata)->Object_0;
        if small {
            assert forall|name: Seq<char>| #[trigger]
                keeping::entry(metadata, name) is Some implies name == "_awa_original_priority"@
                || name == "_awa_original_queue"@ by {
                assert(entries.dom().contains(name));
            }
        } else {
            let odd = choose|key: Seq<char>| #[trigger]
                entries.dom().contains(key) && key != "_awa_original_priority"@ && key
                    != "_awa_original_queue"@;
            assert(keeping::entry(metadata, odd) is Some);
        }
    }
}

/// A refusal says what it was given to say; and a lease is locked exactly where it
/// is to be changed.
pub proof fn law_refusal_says_its_text(text: &str, err: AwaError, change: bool, clause: &str)
    requires
        call_ensures(validation, (text,), err),
        call_ensures(callback_lock_clause, (change,), clause),
    ensures
        err is Validation,
        err->Validation_0@ == text@,
        change ==> clause@ == "FOR UPDATE OF lease"@,
        !change ==> clause@.len() == 0,
{
    reveal_strlit("");
}

/// The states are told by the names that the tables know.
pub proof fn law_states_have_their_names(state: JobState, name: &str)
    requires
        call_ensures(JobState::as_str, (state,), name),
    ensures
        state == JobState::Scheduled ==> name@ == "scheduled"@,
        state == JobState::Available ==> name@ == "available"@,
        state == JobState::Running ==> name@ == "running"@,
        state == JobState::Completed ==> name@ == "completed"@,
        state == JobState::Retryable ==> name@ == "retryable"@,
        state == JobState::Failed ==> name@ == "failed"@,
        state == JobState::Cancelled ==> name@ == "cancelled"@,
        state == JobState::WaitingExternal ==> name@ == "waiting_external"@,
{
}

} // verus!
