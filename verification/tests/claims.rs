use awa_model::callback::{
    callback_lock_clause, callback_not_found, check_callback_config, check_expression,
    check_registered, judge_expression, poll_callback, poll_without_lease, take_callback_result,
    CallbackConfig, CallbackPollResult, Leftover, PollStep, PolledLease,
};
use awa_model::claiming::{
    bound_claimers, desired_queue_claimer_target, plan_acquire, probe_slot, settle_claimer_target,
    ClaimSweep, QueueClaimerLease, QueueClaimerLeaseRow,
};
use awa_model::claims::{claimed_runtime_jobs, ClaimedRuntimeJob};
use awa_model::clock::{checked_add, checked_sub, Span, Timestamp, MAX_SECS, MIN_SECS};
use awa_model::completion::{
    complete_claims, missed_claims, needs_second_pass, receipt_columns,
    receipt_fast_complete_candidate, split_claims, SlowRun, SlowStage,
};
use awa_model::copy::{write_copy_optional_bytes, write_deferred_copy_row, CopyBuffer};
use awa_model::counts::{
    counter_trusted, exact_counts, fast_counts, pruned_failed_count, CountParts, QueueCounts,
};
use awa_model::cursor::claim_cursor_advances;
use awa_model::distinct::{distinct_attempts, distinct_ids, distinct_texts};
use awa_model::error::{map_database_error, AwaError, DatabaseFailure};
use awa_model::intake::{assign_job_ids, intake_row, split_job_ids, IntakeRow, PreparedJob};
use awa_model::job::JobState;
use awa_model::rows::{AttemptStateRow, DeferredJobRow, ReadyJobLeaseRow};
use awa_model::sql::{counted_terminal_cte, done_ready_join, live_terminal_cte, scanned_terminal_cte};
use awa_model::storage::{QueueStorage, QueueStorageConfig};
use awa_model::tally::Tally;
use awa_model::terminal::{
    done_rows_to_counter_keys, needs_ready_payloads, plan_done_rows, rollup_adjustments,
    terminal_count_decrements, terminal_count_increments, RollupKey,
};
use awa_model::unique::{
    check_claim_acquired, check_claims_applied, check_distinct_keys, sync_unique_claim,
    unique_state_claims, ClaimChange, KeyClaim,
};
use chrono::{DateTime, TimeDelta, Utc};
use serde_json::Value;
use std::time::Duration;

fn json(text: &str) -> Value {
    serde_json::from_str(text).expect("test JSON")
}

fn at(secs: i64) -> Timestamp {
    Timestamp { secs, nanos: 0 }
}

fn span(secs: u64) -> Span {
    Span { secs, nanos: 0 }
}

fn storage(stripes: usize) -> QueueStorage {
    QueueStorage::new(QueueStorageConfig {
        schema: "custom".to_string(),
        queue_stripe_count: stripes,
        ..Default::default()
    })
    .unwrap()
}

fn claimed_row(job_id: i64, lane_seq: i64, payload: &str) -> ReadyJobLeaseRow {
    ReadyJobLeaseRow {
        ready_slot: 3,
        ready_generation: 11,
        lane_seq,
        enqueue_shard: 0,
        lease_slot: 0,
        lease_generation: 0,
        claim_slot: 1,
        receipt_id: Some(70 + job_id),
        claim_batch_id: None,
        claim_batch_index: None,
        job_id,
        kind: "mail".to_string(),
        queue: "q".to_string(),
        args: json("{}"),
        lane_priority: 2,
        priority: 1,
        attempt: 1,
        run_lease: 5,
        max_attempts: 3,
        run_at: at(100),
        heartbeat_at: None,
        deadline_at: None,
        attempted_at: Some(at(110)),
        created_at: at(90),
        unique_key: None,
        unique_states: None,
        payload: json(payload),
    }
}

fn claimed(receipt: bool) -> Vec<ClaimedRuntimeJob> {
    claimed_runtime_jobs(
        vec![claimed_row(1, 9, "{}"), claimed_row(2, 10, "{}")],
        receipt,
    )
    .unwrap()
}

#[test]
fn claimed_rows_keep_their_lane() {
    let jobs = claimed(true);
    assert_eq!(jobs[0].claim.priority, 2);
    assert_eq!(jobs[0].job.priority, 1);
    assert_eq!(jobs[0].job.state, JobState::Running);
    assert!(jobs[0].claim.lease_claim_receipt);
    assert_eq!(
        jobs[0].job.metadata,
        json(r#"{ "_awa_original_priority": 2 }"#)
    );
    assert!(claimed_runtime_jobs(vec![claimed_row(1, 9, "3")], true).is_err());
}

#[test]
fn claimed_runs_move_the_cursor() {
    let advances = claim_cursor_advances(&[
        claimed_row(1, 9, "{}"),
        claimed_row(2, 10, "{}"),
        claimed_row(3, 12, "{}"),
    ]);
    let steps: Vec<(Option<i64>, i64)> = advances
        .iter()
        .map(|a| (a.only_if_current, a.next_seq))
        .collect();
    assert_eq!(advances[0].priority, 2);
    assert_eq!(steps, vec![(None, 13)]);
}

#[test]
fn plain_receipts_are_completed_compactly() {
    let jobs = claimed(true);
    assert!(receipt_fast_complete_candidate(&jobs[0]));
    assert!(storage(1).completes_compactly(&jobs));
    let parts = storage(1).partition_by_claim_slot(&jobs).unwrap();
    assert_eq!(parts.len(), 1);
    assert_eq!((parts[0].slot, parts[0].members.clone()), (1, vec![0, 1]));
    let columns = receipt_columns(&jobs, &parts[0].members, at(200));
    assert_eq!(columns.job_ids, vec![1, 2]);
    assert_eq!(columns.receipt_ids, vec![71, 72]);
    assert_eq!(columns.finalized_ats, vec![at(200), at(200)]);
    let leased = claimed(false);
    assert!(!receipt_fast_complete_candidate(&leased[0]));
    assert!(!storage(1).completes_compactly(&leased));
}

#[test]
fn stale_claims_complete_nothing() {
    let jobs = claimed(true);
    assert!(needs_second_pass(&jobs, &vec![(1, 5)]));
    assert!(!needs_second_pass(&jobs, &vec![(1, 5), (2, 5)]));
    assert_eq!(missed_claims(&jobs, &vec![(1, 5)]), vec![1]);
    assert!(missed_claims(&jobs, &vec![(1, 5), (2, 5)]).is_empty());
    let done = complete_claims(&jobs, &vec![(2, 5)], at(200));
    assert_eq!(done.pairs, vec![(2, 5)]);
    assert_eq!(done.done.len(), 1);
    assert_eq!(done.done[0].job_id, 2);
    assert_eq!(done.done[0].state, JobState::Completed);
    let none = complete_claims(&jobs, &vec![(2, 6)], at(200));
    assert!(none.done.is_empty() && none.pairs.is_empty());
}

#[test]
fn missed_receipts_are_tried_as_leases() {
    let split = split_claims(&claimed(true));
    assert_eq!(split.receipts, vec![0, 1]);
    assert!(split.leases.is_empty());
    let run = SlowRun::start(claimed(true), true);
    assert!(matches!(run.stage, SlowStage::Receipts { .. }));
    let (run, done) = run.take(vec![(1, 5)], at(200));
    assert_eq!(done.len(), 1);
    match &run.stage {
        SlowStage::Leases { members } => assert_eq!(members, &vec![1]),
        _ => panic!("one receipt was missed"),
    }
    let (run, _) = run.take(vec![(2, 5)], at(200));
    assert!(matches!(run.stage, SlowStage::Finished));
    assert_eq!(run.updated, vec![(1, 5), (2, 5)]);
}

#[test]
fn completion_reports_each_closed_claim_once() {
    for receipts in [true, false] {
        let mut run = SlowRun::start(claimed(true), receipts);
        let mut rows = Vec::new();
        let mut open = vec![(2, 5), (1, 5)];
        while !matches!(run.stage, SlowStage::Finished) {
            let closed: Vec<(i64, i64)> = open.pop().into_iter().collect();
            let (next, done) = run.take(closed, at(200));
            rows.extend(done.iter().map(|row| (row.job_id, row.run_lease)));
            run = next;
        }
        let expected = if receipts { vec![(1, 5), (2, 5)] } else { vec![(1, 5)] };
        assert_eq!(run.updated, expected);
        assert_eq!(rows, expected);
    }
}

#[test]
fn completing_again_completes_nothing() {
    let mut run = SlowRun::start(claimed(true), true);
    while !matches!(run.stage, SlowStage::Finished) {
        let (next, done) = run.take(Vec::new(), at(200));
        assert!(done.is_empty());
        run = next;
    }
    assert!(run.updated.is_empty());
    let empty = SlowRun::start(Vec::new(), true);
    assert!(matches!(empty.stage, SlowStage::Finished));
    assert!(empty.updated.is_empty());
}

#[test]
fn counters_go_up_and_down_together() {
    let jobs = claimed(true);
    let done = complete_claims(&jobs, &vec![(1, 5), (2, 5)], at(200)).done;
    let up = terminal_count_increments(&done);
    assert_eq!(up.len(), 2);
    assert!(up.iter().all(|t| t.first == 1));
    let down = terminal_count_decrements(done_rows_to_counter_keys(&done));
    assert_eq!(down.len(), 2);
    for (a, b) in up.iter().zip(&down) {
        assert_eq!(a.key.counter_bucket, b.key.counter_bucket);
        assert_eq!(a.first + b.first, 0);
    }
    let plan = plan_done_rows(&done, None);
    assert_eq!(plan.ready_backed.len() + plan.synthetic.len(), 2);
    assert!(needs_ready_payloads(&done));
    assert!(!needs_ready_payloads(&vec![]));
}

#[test]
fn rollup_adjustments_are_summed_by_queue_and_priority() {
    let delta = |queue: &str, priority: i16, first: i64, second: i64| Tally {
        key: RollupKey {
            queue: queue.to_string(),
            priority,
        },
        first,
        second,
    };
    let out = rollup_adjustments(vec![
        delta("b", 1, 2, 1),
        delta("a", 1, 1, 0),
        delta("b", 1, 3, 0),
        delta("a", 2, 0, 0),
    ]);
    let rows: Vec<(&str, i16, i64, i64)> = out
        .iter()
        .map(|t| (t.key.queue.as_str(), t.key.priority, t.first, t.second))
        .collect();
    assert_eq!(rows, vec![("a", 1, 1, 0), ("b", 1, 5, 1)]);
}

#[test]
fn claims_follow_the_state_mask() {
    let mask = Some("01000000".to_string());
    assert!(unique_state_claims(&mask, JobState::Available));
    assert!(!unique_state_claims(&mask, JobState::Running));
    assert!(!unique_state_claims(&None, JobState::Available));
    let key = Some(vec![1]);
    assert_eq!(
        sync_unique_claim(&key, &mask, Some(JobState::Available), Some(JobState::Running)),
        ClaimChange::Release
    );
    assert_eq!(
        sync_unique_claim(&key, &mask, None, Some(JobState::Available)),
        ClaimChange::Acquire
    );
    assert_eq!(
        sync_unique_claim(&None, &mask, None, Some(JobState::Available)),
        ClaimChange::Keep
    );
}

#[test]
fn lost_claims_are_conflicts() {
    assert!(check_claim_acquired(1).is_ok());
    assert!(matches!(
        check_claim_acquired(0),
        Err(AwaError::UniqueConflict { .. })
    ));
    assert!(check_claims_applied(2, 2).is_ok());
    assert!(check_claims_applied(2, 1).is_err());
    let claim = |key: u8, job_id: i64| KeyClaim {
        key: vec![key],
        job_id,
    };
    assert!(check_distinct_keys(&vec![claim(1, 1), claim(2, 2)]).is_ok());
    assert!(check_distinct_keys(&vec![claim(1, 1), claim(1, 2)]).is_err());
}

#[test]
fn database_errors_are_mapped() {
    let failure = |code: Option<&str>| DatabaseFailure {
        code: code.map(str::to_string),
        constraint: Some("c".to_string()),
        message: "boom".to_string(),
    };
    assert!(matches!(
        map_database_error(failure(Some("23505"))),
        AwaError::UniqueConflict { constraint: Some(name) } if name == "c"
    ));
    assert!(matches!(
        map_database_error(failure(None)),
        AwaError::Database { code: None, .. }
    ));
}

#[test]
fn claim_round_asks_each_stripe_once() {
    let mut sweep = ClaimSweep::new(4, 2, 10);
    let mut asked = Vec::new();
    while let Some((stripe, limit)) = sweep.next() {
        assert_eq!(sweep.failure_is_fatal(), asked.is_empty());
        asked.push((stripe, limit));
        sweep.book(3);
    }
    assert_eq!(asked, vec![(2, 10), (3, 7), (0, 4), (1, 1)]);
}

#[test]
fn claimer_targets_are_bounded() {
    assert_eq!(bound_claimers(9, 4), 4);
    assert_eq!(bound_claimers(0, 4), 1);
    assert_eq!(probe_slot(3, 2, 4), 1);
    for current in [None, Some(1), Some(4)] {
        for available in [0, 10, 1_000_000] {
            let target = desired_queue_claimer_target(current, available, 4);
            assert!((1..=4).contains(&target));
        }
    }
    assert!(
        desired_queue_claimer_target(None, 0, 4)
            <= desired_queue_claimer_target(None, 1_000_000, 4)
    );
    assert_eq!(settle_claimer_target(Some(2), 2, None, 4), 2);
    assert_eq!(settle_claimer_target(Some(1), 3, Some(3), 4), 3);
}

#[test]
fn claimer_leases_are_refreshed_at_half_time() {
    let row = QueueClaimerLeaseRow {
        claimer_slot: 2,
        lease_epoch: 7,
        last_claimed_at: at(1000),
        expires_at: at(1010),
    };
    assert_eq!(
        row.lease(),
        QueueClaimerLease {
            claimer_slot: 2,
            lease_epoch: 7
        }
    );
    assert!(!row.needs_refresh(at(1001), span(10), span(60)));
    assert!(row.needs_refresh(at(1009), span(10), span(60)));
    let idle_at_once = QueueClaimerLeaseRow {
        last_claimed_at: Timestamp { secs: 59, nanos: 1_500_000_000 },
        expires_at: at(5000),
        ..row
    };
    assert!(idle_at_once.needs_refresh(at(60), span(0), span(0)));
    assert!(!idle_at_once.needs_refresh(at(59), span(0), span(0)));
    let endless = Span { secs: u64::MAX, nanos: 0 };
    assert!(row.needs_refresh(at(1001), endless, span(60)));
    let plan = plan_acquire(at(1000), 5, 4, span(10), span(60))
        .unwrap()
        .unwrap();
    assert_eq!(plan.expires_at, at(1010));
    assert_eq!(plan.idle_cutoff, at(940));
    assert!((0..4).contains(&plan.probe_start));
    assert!(plan_acquire(at(1000), 5, 0, span(10), span(60))
        .unwrap()
        .is_none());
}

fn config(filter: &str) -> CallbackConfig {
    CallbackConfig {
        filter: Some(filter.to_string()),
        on_complete: None,
        on_fail: None,
        transform: None,
    }
}

#[test]
fn callback_expressions_are_checked() {
    assert!(check_expression("filter", "payload.ok == true").unwrap().is_ok());
    assert!(check_expression("filter", "other.ok").unwrap().is_err());
    assert!(check_expression("filter", "payload.").unwrap().is_err());
    assert!(check_callback_config(&config("payload.ok")).unwrap().is_ok());
    assert!(check_callback_config(&config("x")).unwrap().is_err());
    assert!(!config("x").is_empty());
    assert!(judge_expression("filter", Ok(vec!["payload".to_string()])).is_ok());
    let err = judge_expression("filter", Ok(vec!["zeta".to_string()])).unwrap_err();
    assert!(err.message().contains("zeta"));
    let err = judge_expression("filter", Err("bad".to_string())).unwrap_err();
    assert!(err.message().contains("bad"));
    assert!(check_registered(1).is_ok());
    assert!(check_registered(0).is_err());
}

#[test]
fn faults_in_expressions_are_reported_as_they_are() {
    for source in ["payload.", "1 +", "payload.a = 1", "(payload"] {
        let fault = cel::Program::compile(source).unwrap_err();
        let err = check_expression("filter", source).unwrap().unwrap_err();
        assert_eq!(
            err.message(),
            format!("invalid CEL expression for filter: {fault}")
        );
    }
}

#[test]
fn faults_that_lie_too_far_out_are_not_reported() {
    let near = format!("{})", " ".repeat(65_000));
    assert!(check_expression("filter", &near).unwrap().is_err());
    let far = format!("{})", " ".repeat(70_000));
    assert!(check_expression("filter", &far).is_none());
    assert!(check_callback_config(&config(&far)).is_none());
}

#[test]
fn unknown_callbacks_are_named_in_full() {
    let err = callback_not_found(0x1234_5678_9abc_def0_1234_5678_9abc_def0);
    assert!(matches!(err, AwaError::CallbackNotFound { callback_id }
        if callback_id == "12345678-9abc-def0-1234-56789abcdef0"));
    assert_eq!(callback_lock_clause(true), "FOR UPDATE OF lease");
    assert_eq!(callback_lock_clause(false), "");
}

#[test]
fn polls_tell_the_states_apart() {
    let lease = |callback_id: Option<u128>, has_result: bool| PolledLease {
        state: JobState::WaitingExternal,
        callback_id,
        run_lease: 5,
        has_result,
    };
    assert!(matches!(
        poll_callback(Some(lease(Some(7), false)), 7),
        PollStep::Done(CallbackPollResult::Pending)
    ));
    assert!(matches!(
        poll_callback(Some(lease(Some(8), false)), 7),
        PollStep::Done(CallbackPollResult::Stale {
            token: 7,
            current: 8,
            ..
        })
    ));
    assert!(matches!(
        poll_callback(
            Some(PolledLease {
                state: JobState::Running,
                ..lease(None, true)
            }),
            7
        ),
        PollStep::TakeResult { run_lease: 5 }
    ));
    assert!(matches!(poll_callback(None, 7), PollStep::LoadJob));
    assert!(matches!(
        poll_without_lease(None, 7),
        CallbackPollResult::NotFound
    ));
    assert!(matches!(
        poll_without_lease(Some(JobState::Completed), 7),
        CallbackPollResult::UnexpectedState {
            token: 7,
            state: JobState::Completed
        }
    ));
}

#[test]
fn callback_results_are_taken_once() {
    let row = |progress: Option<Value>| AttemptStateRow {
        job_id: 1,
        run_lease: 5,
        progress,
        callback_filter: None,
        callback_on_complete: None,
        callback_on_fail: None,
        callback_transform: None,
        callback_result: Some(json("9")),
    };
    assert_eq!(
        take_callback_result(Some(row(None))),
        (json("9"), Leftover::Delete)
    );
    assert_eq!(
        take_callback_result(Some(row(Some(json("1"))))),
        (json("9"), Leftover::Clear)
    );
    assert_eq!(take_callback_result(None), (Value::Null, Leftover::Nothing));
}

fn prepared(state: JobState) -> PreparedJob {
    PreparedJob {
        kind: "mail".to_string(),
        queue: "q".to_string(),
        args: json("{}"),
        priority: 2,
        max_attempts: 3,
        run_at: Some(at(900)),
        state,
        metadata: json(r#"{ "a": 1 }"#),
        tags: vec!["t".to_string()],
        unique_key: None,
        unique_states: None,
        ordering_key: None,
    }
}

#[test]
fn new_jobs_go_to_their_plane() {
    match intake_row(prepared(JobState::Available), "q#1".to_string(), at(500)).unwrap() {
        IntakeRow::Ready(row) => {
            assert_eq!(row.queue, "q#1");
            assert_eq!(row.created_at, at(500));
            assert_eq!(
                row.payload,
                json(r#"{ "metadata": { "a": 1 }, "tags": ["t"] }"#)
            );
        }
        IntakeRow::Scheduled(_) => panic!("the job is available"),
    }
    match intake_row(prepared(JobState::Scheduled), "q".to_string(), at(500)).unwrap() {
        IntakeRow::Scheduled(row) => assert_eq!(row.run_at, at(900)),
        IntakeRow::Ready(_) => panic!("the job waits"),
    }
    assert!(intake_row(prepared(JobState::Running), "q".to_string(), at(500)).is_err());
    let taken = storage(1)
        .take_in(
            vec![prepared(JobState::Scheduled), prepared(JobState::Available)],
            at(500),
        )
        .unwrap();
    assert_eq!((taken.ready.len(), taken.scheduled.len()), (1, 1));
    let refused = storage(1)
        .take_in(
            vec![prepared(JobState::Available), prepared(JobState::Failed)],
            at(500),
        )
        .unwrap_err();
    assert_eq!(
        refused.message(),
        "queue storage does not support initial state failed"
    );
    let nothing = storage(1).take_in(Vec::new(), at(500)).unwrap();
    assert!(nothing.ready.is_empty() && nothing.scheduled.is_empty());
    let rows = assign_job_ids(taken.scheduled, &vec![31]);
    assert_eq!(rows[0].job_id, 31);
    assert_eq!(
        split_job_ids(&vec![1, 2, 3], 1),
        (vec![1], vec![2, 3])
    );
    let bench = storage(1).bench_rows("q", 2, 3, at(500));
    assert_eq!(bench.len(), 3);
}

#[test]
fn sorted_lists_hold_each_item_once() {
    assert_eq!(
        distinct_attempts(&vec![(2, 1), (1, 9), (2, 1)]),
        vec![(1, 9), (2, 1)]
    );
    assert_eq!(distinct_ids(vec![3, 1, 3]), vec![1, 3]);
    assert_eq!(
        distinct_texts(vec!["b".to_string(), "a".to_string(), "b".to_string()]),
        vec!["a", "b"]
    );
    assert_eq!(
        storage(4).notify_channels(&vec!["mail#1".to_string(), "mail#0".to_string()]),
        vec!["awa:mail"]
    );
}

fn scheduled() -> DeferredJobRow {
    DeferredJobRow {
        job_id: 1,
        kind: "k\"\\".to_string(),
        queue: "q".to_string(),
        args: json(r#"{ "a": 1 }"#),
        state: JobState::Scheduled,
        priority: 2,
        attempt: 0,
        run_lease: 0,
        max_attempts: 3,
        run_at: at(0),
        attempted_at: None,
        finalized_at: None,
        created_at: at(0),
        unique_key: Some(vec![0xde, 0xad]),
        unique_states: None,
        payload: json("{}"),
    }
}

#[test]
fn copy_lines_escape_what_they_must() {
    let mut line = Vec::new();
    write_deferred_copy_row(&mut line, &scheduled());
    let line = String::from_utf8(line).unwrap();
    assert!(line.ends_with('\n'));
    assert!(line.starts_with(r#"1,"k""\",q,"{""a"":1}","#));
    let fields: Vec<&str> = line.trim_end_matches('\n').split(',').collect();
    assert!(fields.contains(&"1970-01-01T00:00:00+00:00"));
    assert!(fields.contains(&r#""\xdead""#));
    assert!(fields.contains(&"__AWA_NULL__"));
    let mut null = Vec::new();
    write_copy_optional_bytes(&mut null, &None);
    assert_eq!(null, b"__AWA_NULL__");
}

#[test]
fn copy_buffer_hands_out_what_was_pushed() {
    let mut buffer = CopyBuffer::new();
    assert!(buffer.push_deferred_row(&scheduled()).is_none());
    assert!(buffer.push_deferred_row(&scheduled()).is_none());
    let mut line = Vec::new();
    write_deferred_copy_row(&mut line, &scheduled());
    let chunk = buffer.finish().unwrap();
    assert_eq!(chunk.len(), 2 * line.len());
    assert!(CopyBuffer::new().finish().is_none());
}

#[test]
fn exact_counts_add_up_and_fast_counts_bound_them() {
    let parts = CountParts {
        available: 4,
        leases: 3,
        receipts: 2,
        batched_receipts: 5,
        pruned_completed: 7,
        pruned_failed: 1,
        live_terminal: 6,
    };
    let exact = exact_counts(parts).unwrap();
    assert_eq!(
        exact,
        QueueCounts {
            available: 4,
            running: 10,
            terminal: 14,
            pruned_failed: 1
        }
    );
    let fast = fast_counts(9, 3, 7, 1);
    assert!(fast.available >= exact.available);
    assert!(fast.running <= exact.running);
    assert!(fast.terminal <= exact.terminal);
    assert!(fast.pruned_failed == exact.pruned_failed && exact.pruned_failed <= fast.terminal);
    let running = CountParts { leases: i64::MAX, receipts: 1, ..parts };
    assert!(exact_counts(running).is_none());
    let finished = CountParts { live_terminal: i64::MAX, ..parts };
    assert!(exact_counts(finished).is_none());
}

#[test]
fn queue_counts_come_from_the_counters() {
    assert_eq!(
        fast_counts(4, 3, 2, 1),
        QueueCounts {
            available: 4,
            running: 3,
            terminal: 3,
            pruned_failed: 1
        }
    );
    assert_eq!(pruned_failed_count(-3), 0);
    assert_eq!(pruned_failed_count(3), 3);
    assert!(counter_trusted(Some(true)));
    assert!(!counter_trusted(Some(false)));
    assert!(!counter_trusted(None));
    assert_eq!(live_terminal_cte("s", true), counted_terminal_cte("s"));
    assert_eq!(live_terminal_cte("s", false), scanned_terminal_cte("s"));
    assert!(done_ready_join("s", "done", "ready").contains("s.ready_entries AS ready"));
}

#[test]
fn durations_are_read_in_full() {
    let half = Span::from_duration(Duration::from_millis(2500)).half();
    assert_eq!(
        half,
        Span {
            secs: 1,
            nanos: 250_000_000
        }
    );
    assert!(Span::from_duration(Duration::ZERO).is_zero());
    assert_eq!(Span::from_duration(Duration::from_micros(1500)).as_millis(), 1);
    assert!(span(60).is_representable());
    assert!(!Span {
        secs: u64::MAX,
        nanos: 0
    }
    .is_representable());
}

#[test]
fn offsets_are_those_of_the_calendar() {
    let instants = [(0, 0), (59, 0), (59, 999_999_999), (59, 1_000_000_000), (59, 1_500_000_000)];
    let spans = [(0, 0), (0, 1), (0, 499_999_999), (0, 500_000_000), (0, 999_999_999), (1, 0)];
    for (secs, nanos) in instants {
        for (span_secs, span_nanos) in spans {
            let instant = Timestamp { secs, nanos };
            let span = Span { secs: span_secs, nanos: span_nanos };
            let utc = DateTime::from_timestamp(secs, nanos).unwrap();
            let delta = TimeDelta::new(span_secs as i64, span_nanos).unwrap();
            let stamp = |at: DateTime<Utc>| Timestamp {
                secs: at.timestamp(),
                nanos: at.timestamp_subsec_nanos(),
            };
            assert_eq!(checked_add(instant, span), Some(stamp(utc + delta)));
            assert_eq!(checked_sub(instant, span), Some(stamp(utc - delta)));
        }
    }
    let last = Timestamp { secs: MAX_SECS, nanos: 999_999_999 };
    assert_eq!(checked_add(last, Span { secs: 0, nanos: 1 }), None);
    assert_eq!(checked_add(last, span(0)), Some(last));
    let first = Timestamp { secs: MIN_SECS, nanos: 0 };
    assert_eq!(checked_sub(first, Span { secs: 0, nanos: 1 }), None);
    assert_eq!(checked_sub(first, span(0)), Some(first));
}
