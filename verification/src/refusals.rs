//! What refusals say: each names what was asked and why it is refused.

use crate::callback;
use crate::callback::{check_callback_config, check_registered, judge_expression, CallbackConfig};
use crate::claiming::{plan_acquire, AcquirePlan};
use crate::clock;
use crate::clock::{Span, Timestamp};
use crate::enqueue::RoutedRow;
use crate::error;
use crate::error::AwaError;
use crate::hydrate;
use crate::hydrate::hydrate_deleted_leases;
use crate::install::{check_activated, retire_open_claims, InstallStatement};
use crate::intake::{intake_row, IntakeRow, PreparedJob};
use crate::job::JobState;
use crate::moves::{aging_cutoff, check_move, check_priority};
use crate::names::validate_ident;
use crate::outside;
use crate::payload::RuntimePayload;
use crate::placement::{plan_ready_rows, plan_ready_rows_copy, EnqueuePlan};
use crate::ring::ring_slot_index;
use crate::rows::{
    AttemptStateRow, DeferredJobRow, DeletedLeaseRow, LeaseTransitionRow, ReadySnapshotRow,
};
use crate::storage::{QueueStorage, QueueStorageConfig};
use crate::text;
use serde_json::Value;
use std::time::Duration;
use vstd::prelude::*;

verus! {

/// What a refusal says.
pub open spec fn says<T>(out: Result<T, AwaError>, text: Seq<char>) -> bool {
    out is Err && out->Err_0 is Validation && out->Err_0->Validation_0@ == text
}

/// A configuration is refused for the first thing that is wrong with it: its slots,
/// its stripes, the shape of the schema `awa`, the name of the schema.
pub proof fn law_configuration_is_refused_for_a_reason(
    config: QueueStorageConfig,
    made: Result<QueueStorage, AwaError>,
)
    requires
        call_ensures(QueueStorage::new, (config,), made),
    ensures
        config.queue_slot_count < 4 ==> says(
            made,
            "queue storage requires at least 4 queue slots"@,
        ),
        config.queue_slot_count >= 4 && config.lease_slot_count < 2 ==> says(
            made,
            "queue storage requires at least 2 lease slots"@,
        ),
        config.queue_slot_count >= 4 && config.lease_slot_count >= 2 && config.claim_slot_count < 2
            ==> says(made, "queue storage requires at least 2 claim slots"@),
        config.queue_slot_count >= 4 && config.lease_slot_count >= 2 && config.claim_slot_count
            >= 2 && config.queue_stripe_count == 0 ==> says(
            made,
            "queue storage requires at least 1 queue stripe"@,
        ),
        made is Err && config.queue_slot_count >= 4 && config.lease_slot_count >= 2
            && config.claim_slot_count >= 2 && config.queue_stripe_count >= 1 && config.schema@
            != "awa"@ ==> says(made, "invalid SQL identifier: "@ + config.schema@),
{
}

/// An identifier, a lock timeout and a slot are refused by name.
pub proof fn law_names_and_slots_are_refused_for_a_reason(
    ident: &str,
    checked: Result<(), AwaError>,
    engine: QueueStorage,
    timeout: Duration,
    made: Result<QueueStorage, AwaError>,
    slot: i32,
    slot_count: usize,
    ring: &str,
    index: Result<usize, AwaError>,
)
    requires
        call_ensures(validate_ident, (ident,), checked),
        call_ensures(QueueStorage::with_prune_lock_timeout, (engine, timeout), made),
        call_ensures(ring_slot_index, (slot, slot_count, ring), index),
    ensures
        checked is Err ==> says(checked, "invalid SQL identifier: "@ + ident@),
        made is Err ==> says(made, "queue storage prune lock timeout must be greater than zero"@),
        slot < 0 ==> says(
            index,
            "invalid "@ + ring@ + " ring slot "@ + text::int_text(slot as int)
                + ": slot must be non-negative"@,
        ),
        slot >= slot_count ==> says(
            index,
            "invalid "@ + ring@ + " ring slot "@ + text::int_text(slot as int)
                + ": configured slot count is "@ + text::nat_text(slot_count as nat),
        ),
{
}

/// Priorities, destinations and aging intervals are refused for what they are.
pub proof fn law_moves_are_refused_for_a_reason(
    priority: i16,
    checked: Result<(), AwaError>,
    queue: &str,
    asked: Option<i16>,
    moved: Result<(), AwaError>,
    now: Timestamp,
    interval: Span,
    limit: i64,
    cutoff: Result<Option<Timestamp>, AwaError>,
)
    requires
        now.valid(),
        interval.wf(),
        limit > 0 && interval.representable() ==> clock::reaches_before(now, interval),
        call_ensures(check_priority, (priority,), checked),
        call_ensures(check_move, (queue, asked), moved),
        call_ensures(aging_cutoff, (now, interval, limit), cutoff),
    ensures
        checked is Err ==> says(checked, "priority must be between 1 and 4"@),
        vstd::utf8::encode_utf8(queue@).len() == 0 || vstd::utf8::encode_utf8(queue@).len() > 200
            ==> says(moved, "destination queue must be 1..=200 characters"@),
        1 <= vstd::utf8::encode_utf8(queue@).len() <= 200 && moved is Err ==> says(
            moved,
            "priority must be between 1 and 4"@,
        ),
        cutoff is Err ==> says(
            cutoff,
            "invalid aging interval"@ + ": "@ + clock::span_out_of_range_text(),
        ),
{
}

/// A claimer's spans are refused each under its name, the time to live first.
pub proof fn law_claimer_spans_are_refused_by_name(
    now: Timestamp,
    instance_id: u128,
    max_claimers: i16,
    lease_ttl: Span,
    idle_threshold: Span,
    ttl_fits: bool,
    idle_fits: bool,
    plan: Result<Option<AcquirePlan>, AwaError>,
)
    requires
        now.valid(),
        lease_ttl.wf(),
        idle_threshold.wf(),
        max_claimers > 0,
        lease_ttl.representable() ==> clock::reaches_after(now, lease_ttl),
        idle_threshold.representable() ==> clock::reaches_before(now, idle_threshold),
        call_ensures(Span::is_representable, (lease_ttl,), ttl_fits),
        call_ensures(Span::is_representable, (idle_threshold,), idle_fits),
        call_ensures(
            plan_acquire,
            (now, instance_id, max_claimers, lease_ttl, idle_threshold),
            plan,
        ),
    ensures
        plan is Ok <==> ttl_fits && idle_fits,
        plan matches Ok(made) ==> made is Some,
        !ttl_fits ==> says(
            plan,
            "invalid claimer lease ttl"@ + ": "@ + clock::span_out_of_range_text(),
        ),
        ttl_fits && !idle_fits ==> says(
            plan,
            "invalid claimer idle threshold"@ + ": "@ + clock::span_out_of_range_text(),
        ),
{
}

/// Delays are refused each under its name.
pub proof fn law_delays_are_refused_by_name(
    row: LeaseTransitionRow,
    now: Timestamp,
    delay: Span,
    report: Option<Value>,
    read: RuntimePayload,
    retried: Result<DeferredJobRow, AwaError>,
    snoozed: Result<DeferredJobRow, AwaError>,
)
    requires
        now.valid(),
        delay.wf(),
        delay.representable() ==> clock::reaches_after(now, delay),
        call_ensures(RuntimePayload::from_json, (row.payload,), Ok(read)),
        call_ensures(LeaseTransitionRow::retry_after, (row, now, delay, report), retried),
        call_ensures(LeaseTransitionRow::snooze, (row, now, delay, report), snoozed),
    ensures
        retried is Err ==> says(
            retried,
            "invalid retry_after duration"@ + ": "@ + clock::span_out_of_range_text(),
        ),
        snoozed is Err ==> says(
            snoozed,
            "invalid snooze duration"@ + ": "@ + clock::span_out_of_range_text(),
        ),
{
}

/// A job that cannot start in its state is refused by the name of the state.
pub proof fn law_initial_states_are_refused_by_name(
    job: PreparedJob,
    queue: String,
    now: Timestamp,
    taken: Result<IntakeRow, AwaError>,
    name: &str,
)
    requires
        call_ensures(intake_row, (job, queue, now), taken),
        call_ensures(JobState::as_str, (job.state,), name),
    ensures
        taken is Err ==> says(
            taken,
            "queue storage does not support initial state "@ + name@,
        ),
{
}

/// Too few ids, and ids that are not as many as the rows, are refused as such.
pub proof fn law_missing_ids_are_refused_for_a_reason(
    routed: Vec<RoutedRow>,
    ids: Vec<i64>,
    insert: Result<EnqueuePlan, AwaError>,
    copied: Result<EnqueuePlan, AwaError>,
)
    requires
        call_ensures(plan_ready_rows, (routed, ids), insert),
        call_ensures(plan_ready_rows_copy, (routed, ids), copied),
    ensures
        insert is Err ==> says(insert, "queue storage job id allocation underflow"@),
        copied is Err ==> says(copied, "queue storage job id allocation count mismatch"@),
{
}

/// A deleted lease without its ready row is refused by the attempt.
pub proof fn law_lost_ready_row_is_named(
    deleted: Vec<DeletedLeaseRow>,
    ready: Vec<ReadySnapshotRow>,
    attempts: Vec<AttemptStateRow>,
    out: Result<Vec<LeaseTransitionRow>, AwaError>,
)
    requires
        call_ensures(hydrate_deleted_leases, (deleted, &ready, &attempts), out),
        out is Err,
    ensures
        exists|i: int|
            #![trigger deleted@[i]]
            0 <= i < deleted@.len() && says(
                out,
                "queue storage ready row missing for deleted lease job "@ + text::int_text(
                    deleted@[i].job_id as int,
                ) + " run_lease "@ + text::int_text(deleted@[i].run_lease as int),
            ),
{
    let err = out->Err_0;
    let args = (deleted, &ready, &attempts);
    let i = choose|i: int|
        #![trigger deleted@[i]]
        0 <= i < deleted@.len() && hydrate::ready_behind(args.1@, deleted@[i]) is None
            && error::is_validation(err, hydrate::missing_ready_text(deleted@[i]))
            && forall|j: int|
            #![trigger deleted@[j]]
            0 <= j < i ==> hydrate::ready_behind(args.1@, deleted@[j]) is Some;
    assert(says(out, hydrate::missing_ready_text(deleted@[i])));
}

/// An activation that found no row, and a registration that found no running job,
/// are refused as such; open receipts are counted.
pub proof fn law_missing_rows_are_refused_for_a_reason(
    rows_affected: u64,
    activated: Result<(), AwaError>,
    registered: Result<(), AwaError>,
    schema: &str,
    rows: i64,
    plan: Result<Vec<InstallStatement>, AwaError>,
)
    requires
        call_ensures(check_activated, (rows_affected,), activated),
        call_ensures(check_registered, (rows_affected,), registered),
        call_ensures(retire_open_claims, (schema, Some(rows)), plan),
    ensures
        activated is Err ==> says(
            activated,
            "queue storage activation requires the storage transition state row"@,
        ),
        registered is Err ==> says(registered, "job is not in running state"@),
        plan is Err ==> plan->Err_0 is Validation && ({
            let lead = schema@ + ".open_receipt_claims has "@ + text::int_text(rows as int);
            let said = plan->Err_0->Validation_0@;
            lead.len() <= said.len() && said.subrange(0, lead.len() as int) == lead
        }),
{
    if plan is Err {
        let lead = schema@ + ".open_receipt_claims has "@ + text::int_text(rows as int);
        let said = plan->Err_0->Validation_0@;
        assert(said.subrange(0, lead.len() as int) =~= lead);
    }
}

/// An expression that does not compile is refused with its name and the fault.
pub proof fn law_faulty_expression_is_named(
    name: &str,
    fault: String,
    judged: Result<(), AwaError>,
)
    requires
        call_ensures(judge_expression, (name, Err::<Vec<String>, String>(fault)), judged),
    ensures
        says(judged, "invalid CEL expression for "@ + name@ + ": "@ + fault@),
{
}

/// An expression that refers to a single variable other than the payload is refused
/// with its name and that of the variable.
pub proof fn law_stray_variable_is_named(
    name: &str,
    variables: Vec<String>,
    judged: Result<(), AwaError>,
)
    requires
        variables@.len() == 1,
        variables@[0]@ != "payload"@,
        call_ensures(judge_expression, (name, Ok::<Vec<String>, String>(variables)), judged),
    ensures
        says(
            judged,
            "CEL expression for "@ + name@ + " references undeclared variable(s): "@
                + variables@[0]@ + "; only 'payload' is available"@,
        ),
{
    let stray = |v: String| v@ != "payload"@;
    let found = variables@.filter(stray);
    reveal(Seq::filter);
    assert(variables@.drop_last() =~= Seq::empty());
    reveal_with_fuel(Seq::filter, 2);
    assert(found =~= variables@);
    assert(callback::listed(found) == variables@[0]@);
}

/// A configuration with a faulty expression is refused with the name of the first
/// such expression: the filter, then those for completion and failure, then the
/// transformation.
pub proof fn law_first_faulty_expression_is_named(
    config: CallbackConfig,
    checked: Result<(), AwaError>,
    faulty: String,
)
    requires
        call_ensures(check_callback_config, (&config,), Some(checked)),
        outside::cel_error_columns(faulty@) is Some,
    ensures
        config.filter is Some && config.filter->0@ == faulty@ ==> says(
            checked,
            "invalid CEL expression for "@ + "filter"@ + ": "@ + outside::cel_error_text(faulty@),
        ),
        config.filter is None && config.on_complete is Some && config.on_complete->0@ == faulty@
            ==> says(
            checked,
            "invalid CEL expression for "@ + "on_complete"@ + ": "@ + outside::cel_error_text(
                faulty@,
            ),
        ),
        config.filter is None && config.on_complete is None && config.on_fail is Some
            && config.on_fail->0@ == faulty@ ==> says(
            checked,
            "invalid CEL expression for "@ + "on_fail"@ + ": "@ + outside::cel_error_text(faulty@),
        ),
        config.filter is None && config.on_complete is None && config.on_fail is None
            && config.transform is Some && config.transform->0@ == faulty@ ==> says(
            checked,
            "invalid CEL expression for "@ + "transform"@ + ": "@ + outside::cel_error_text(
                faulty@,
            ),
        ),
{
    let args = (&config,);
    let four = args.0.expressions();
    assert(four[0] == ("filter"@, config.filter));
    assert(four[1] == ("on_complete"@, config.on_complete));
    assert(four[2] == ("on_fail"@, config.on_fail));
    assert(four[3] == ("transform"@, config.transform));
    if checked is Ok {
        assert(callback::passes(four[0].1));
        assert(callback::passes(four[1].1));
        assert(callback::passes(four[2].1));
        assert(callback::passes(four[3].1));
    } else {
        let err = checked->Err_0;
        let i = choose|i: int| #[trigger]
            callback::is_first_unsound(*args.0, i) && callback::is_reportable(
                args.0.expressions()[i].1->0@,
            ) && callback::objects_to(
                args.0.expressions()[i].0,
                args.0.expressions()[i].1->0@,
                err,
            );
        assert(callback::objects_to(four[i].0, four[i].1->0@, err));
        assert(i == 0 || i == 1 || i == 2 || i == 3);
        assert(forall|j: int| 0 <= j < i ==> callback::passes((#[trigger] four[j]).1));
    }
}

} // verus!
