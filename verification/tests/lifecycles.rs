use awa_model::cancel::{
    cancel_deferred, cancel_lease, cancel_ready, cancel_receipt, CancelReply, CancelSearch,
    CancelStage, CancelStep, OpenReceipt, ReceiptClosure,
};
use awa_model::clock::{Span, Timestamp};
use awa_model::dlq::{
    bulk_retry_from_dlq, bury_failed, discard_releases, retry_from_dlq, RetryFromDlqOpts, Revived,
};
use awa_model::error::AwaError;
use awa_model::hydrate::{hydrate_deleted_leases, lease_pairs};
use awa_model::job::{state_rank, JobState};
use awa_model::lookup::{latest_job, JobFact};
use awa_model::moves::{
    age_rows, aging_cutoff, check_move, check_priority, promote_rows, promotes, retry_step,
    RetryReply, RetryStep, Waiting,
};
use awa_model::rows::{
    AttemptStateRow, DeferredJobRow, DeletedLeaseRow, DlqJobRow, DoneJobRow, LeaseJobRow,
    LeaseTransitionRow, ReadySnapshotRow, ReadyTransitionRow,
};
use awa_model::storage::{QueueStorage, QueueStorageConfig};
use awa_model::transitions::{
    callback_error, callback_error_text, FailedAttempt, RescueCause,
};
use awa_model::unique::ClaimChange;
use serde_json::Value;

fn json(text: &str) -> Value {
    serde_json::from_str(text).expect("test JSON")
}

fn at(secs: i64) -> Timestamp {
    Timestamp { secs, nanos: 0 }
}

fn span(secs: u64) -> Span {
    Span { secs, nanos: 0 }
}

fn lease(attempt: i16) -> LeaseTransitionRow {
    LeaseTransitionRow {
        ready_slot: 3,
        ready_generation: 11,
        job_id: 42,
        kind: "mail".to_string(),
        queue: "q".to_string(),
        args: json("{}"),
        state: JobState::Running,
        priority: 2,
        attempt,
        run_lease: 5,
        max_attempts: 3,
        lane_seq: 9,
        enqueue_shard: 1,
        run_at: at(100),
        attempted_at: Some(at(110)),
        created_at: at(90),
        unique_key: Some(vec![1]),
        unique_states: Some("111".to_string()),
        payload: json(r#"{ "errors": [{ "error": "old" }] }"#),
        progress: Some(json("7")),
    }
}

fn ready() -> ReadyTransitionRow {
    ReadyTransitionRow {
        ready_slot: 3,
        ready_generation: 11,
        job_id: 42,
        kind: "mail".to_string(),
        queue: "q".to_string(),
        args: json("{}"),
        priority: 2,
        attempt: 0,
        run_lease: 0,
        max_attempts: 3,
        lane_seq: 9,
        enqueue_shard: 1,
        run_at: at(100),
        attempted_at: None,
        created_at: at(90),
        unique_key: None,
        unique_states: None,
        payload: json("{}"),
    }
}

fn deferred() -> DeferredJobRow {
    DeferredJobRow {
        job_id: 42,
        kind: "mail".to_string(),
        queue: "q".to_string(),
        args: json("{}"),
        state: JobState::Scheduled,
        priority: 2,
        attempt: 1,
        run_lease: 5,
        max_attempts: 3,
        run_at: at(100),
        attempted_at: None,
        finalized_at: None,
        created_at: at(90),
        unique_key: None,
        unique_states: None,
        payload: json("{}"),
    }
}

fn failed() -> DoneJobRow {
    lease(3)
        .fail_terminal(at(200), "boom", None)
        .expect("readable payload")
}

fn dead() -> DlqJobRow {
    bury_failed(vec![failed()], "gone", at(300)).remove(0)
}

#[test]
fn retries_wait_for_their_delay() {
    let row = lease(1).retry_after(at(200), span(30), None).unwrap();
    assert_eq!(row.state, JobState::Retryable);
    assert_eq!(row.run_at, at(230));
    assert_eq!(row.finalized_at, Some(at(200)));
    assert_eq!(row.attempt, 1);
    assert_eq!(
        row.payload,
        json(r#"{ "errors": [{ "error": "old" }], "progress": 7 }"#)
    );
}

#[test]
fn spans_out_of_range_are_refused() {
    let err = lease(1)
        .retry_after(
            at(200),
            Span {
                secs: u64::MAX,
                nanos: 0,
            },
            None,
        )
        .unwrap_err();
    assert_eq!(
        err.message(),
        "invalid retry_after duration: Source duration value is out of range for the target type"
    );
}

#[test]
fn snoozed_attempts_do_not_count() {
    let row = lease(2)
        .snooze(at(200), span(60), Some(json("1")))
        .unwrap();
    assert_eq!(row.state, JobState::Scheduled);
    assert_eq!(row.run_at, at(260));
    assert_eq!(row.attempt, 1);
    assert_eq!(
        row.payload,
        json(r#"{ "errors": [{ "error": "old" }], "progress": 1 }"#)
    );
}

#[test]
fn failures_end_exhausted_jobs_and_defer_the_others() {
    assert!(lease(3).is_exhausted());
    assert!(!lease(2).is_exhausted());
    let ended = lease(3)
        .fail_retryable(at(200), "boom", None, at(500))
        .unwrap();
    assert!(matches!(ended, FailedAttempt::Done(row)
        if row.state == JobState::Failed && row.finalized_at == at(200)));
    let put_off = lease(2)
        .fail_retryable(at(200), "boom", None, at(500))
        .unwrap();
    match put_off {
        FailedAttempt::Deferred(row) => {
            assert_eq!(row.state, JobState::Retryable);
            assert_eq!(row.run_at, at(500));
            assert_eq!(
                row.payload,
                json(
                    r#"{
                        "errors": [
                            { "error": "old" },
                            { "error": "boom", "attempt": 2, "at": "1970-01-01T00:03:20+00:00" }
                        ],
                        "progress": 7
                    }"#
                )
            );
        }
        FailedAttempt::Done(_) => panic!("two of three attempts are used"),
    }
}

#[test]
fn terminal_failures_are_marked() {
    let row = failed();
    assert_eq!(row.state, JobState::Failed);
    assert_eq!(
        row.payload,
        json(
            r#"{
                "errors": [
                    { "error": "old" },
                    {
                        "error": "boom",
                        "attempt": 3,
                        "at": "1970-01-01T00:03:20+00:00",
                        "terminal": true
                    }
                ],
                "progress": 7
            }"#
        )
    );
    let unreadable = LeaseTransitionRow {
        payload: json("5"),
        ..lease(1)
    };
    assert!(matches!(
        unreadable.fail_terminal(at(200), "boom", None),
        Err(AwaError::Serialization(_))
    ));
}

#[test]
fn running_jobs_are_cancelled_with_a_reason() {
    let row = lease(1)
        .cancel_running(at(200), "stop", Some(Value::Null))
        .unwrap();
    assert_eq!(row.state, JobState::Cancelled);
    assert_eq!(row.payload["errors"][1]["error"], json(r#""cancelled: stop""#));
    assert_eq!(row.payload.get("progress"), None);
    let row = lease(1).cancel(at(200)).unwrap();
    assert_eq!(row.state, JobState::Cancelled);
}

#[test]
fn rescued_jobs_are_deferred() {
    for cause in [
        RescueCause::StaleHeartbeat,
        RescueCause::StaleReceipt,
        RescueCause::DeadlineExceeded,
    ] {
        match lease(1).rescue(cause, at(200), at(210)).unwrap() {
            FailedAttempt::Deferred(row) => {
                assert_eq!(row.run_at, at(210));
                assert_eq!(
                    row.payload["errors"][1]["error"],
                    Value::String(cause.as_str().to_string())
                );
            }
            FailedAttempt::Done(_) => panic!("a rescued attempt is retried"),
        }
    }
    assert!(matches!(
        lease(3)
            .rescue(RescueCause::CallbackTimeout, at(200), at(210))
            .unwrap(),
        FailedAttempt::Done(_)
    ));
}

#[test]
fn callbacks_settle_parked_jobs() {
    let done = lease(1).complete_external(at(200)).unwrap();
    assert_eq!(done.state, JobState::Completed);
    let entry = callback_error_text("refused");
    assert_eq!(entry, json(r#"{ "error": "refused" }"#));
    assert_eq!(
        callback_error(entry, 2, at(0)),
        json(r#"{ "error": "refused", "attempt": 2, "at": "1970-01-01T00:00:00+00:00", "terminal": true }"#)
    );
    let done = lease(1)
        .fail_external(callback_error_text("refused"), at(200))
        .unwrap();
    assert_eq!(done.state, JobState::Failed);
    assert_eq!(done.payload["errors"][1]["error"], json(r#""refused""#));
    let again = lease(2).retry_external(at(200)).unwrap();
    assert_eq!((again.run_at, again.attempt), (at(200), 0));
    let again = lease(2).retry_parked(at(200)).unwrap();
    assert_eq!((again.run_at, again.attempt), (at(200), 0));
}

#[test]
fn dead_jobs_come_back_fresh() {
    let row = dead();
    assert_eq!(row.dlq_reason, "gone");
    assert_eq!(row.dlq_at, at(300));
    assert_eq!(row.original_run_lease, 5);
    let opts = RetryFromDlqOpts {
        run_at: None,
        priority: None,
        queue: None,
    };
    match retry_from_dlq(dead(), &opts, at(400)).unwrap() {
        Revived::Ready(row) => {
            assert_eq!((row.job_id, row.attempt, row.run_lease), (42, 0, 5));
            assert_eq!((row.queue.as_str(), row.priority), ("q", 2));
            assert_eq!(row.run_at, at(400));
        }
        Revived::Scheduled(_) => panic!("nothing asks to wait"),
    }
    let opts = RetryFromDlqOpts {
        run_at: Some(at(900)),
        priority: Some(1),
        queue: Some("other".to_string()),
    };
    match retry_from_dlq(dead(), &opts, at(400)).unwrap() {
        Revived::Scheduled(row) => {
            assert_eq!((row.queue.as_str(), row.priority), ("other", 1));
            assert_eq!(row.run_at, at(900));
            assert_eq!(row.state, JobState::Scheduled);
        }
        Revived::Ready(_) => panic!("the job waits"),
    }
    let many = bulk_retry_from_dlq(vec![dead(), dead()], at(400)).unwrap();
    assert_eq!(many.len(), 2);
    assert_eq!(many[1].run_at, at(400));
}

#[test]
fn discarded_jobs_release_their_claims() {
    let changes = discard_releases(
        &vec![DoneJobRow {
            unique_states: Some("00000100".to_string()),
            ..failed()
        }],
        &vec![DlqJobRow {
            unique_key: None,
            ..dead()
        }],
    );
    assert_eq!(changes, vec![ClaimChange::Release, ClaimChange::Keep]);
}

#[test]
fn waiting_jobs_are_cancelled_in_place() {
    let gone = cancel_ready(ready(), at(200));
    assert_eq!(gone.done.state, JobState::Cancelled);
    assert_eq!(gone.done.lane_seq, 9);
    assert_eq!(gone.old_state, JobState::Available);
    assert_eq!(gone.closure, ReceiptClosure::Nothing);
    let advance = gone.advance.unwrap();
    assert_eq!((advance.next_seq, advance.only_if_current), (10, Some(9)));

    let gone = cancel_deferred(deferred(), 4, 6, at(200));
    assert_eq!(gone.old_state, JobState::Scheduled);
    assert_eq!((gone.done.ready_slot, gone.done.ready_generation), (4, 6));
    assert_eq!(gone.done.lane_seq, -42);
    assert!(gone.advance.is_none());
}

fn receipt(compact_batch: bool) -> OpenReceipt {
    OpenReceipt {
        claim_slot: 1,
        run_lease: 5,
        ready_slot: 3,
        ready_generation: 11,
        queue: "q".to_string(),
        priority: 2,
        attempt: 1,
        max_attempts: 3,
        lane_seq: 9,
        claimed_at: at(150),
        receipt_id: 77,
        compact_batch,
    }
}

#[test]
fn claimed_jobs_are_cancelled_with_their_receipt() {
    let gone = cancel_receipt(42, receipt(true), Some(ready()), at(200)).unwrap();
    assert_eq!(
        gone.closure,
        ReceiptClosure::Batch {
            claim_slot: 1,
            ready_slot: 3,
            ready_generation: 11,
            receipt_id: 77
        }
    );
    assert_eq!(gone.done.run_lease, 5);
    assert_eq!(gone.done.attempted_at, Some(at(150)));
    let gone = cancel_receipt(42, receipt(false), Some(ready()), at(200)).unwrap();
    assert_eq!(
        gone.closure,
        ReceiptClosure::Row {
            claim_slot: 1,
            job_id: 42,
            run_lease: 5
        }
    );
    assert!(cancel_receipt(42, receipt(true), None, at(200)).is_none());
    let gone = cancel_lease(lease(1), at(200)).unwrap();
    assert_eq!(gone.done.state, JobState::Cancelled);
    assert_eq!(gone.old_state, JobState::Running);
}

#[test]
fn cancel_search_asks_each_plane_in_turn() {
    let mut search = CancelSearch::start(42, true);
    assert!(matches!(search.stage, CancelStage::Ready));
    let mut planes = 0;
    loop {
        planes += 1;
        let reply = match search.stage {
            CancelStage::Ready => CancelReply::Ready(None),
            CancelStage::Lease => CancelReply::Lease(None),
            CancelStage::Receipt => CancelReply::Receipt(None),
            CancelStage::Behind { .. } => CancelReply::Behind(None),
            CancelStage::Deferred => CancelReply::Deferred(None),
        };
        match search.step(reply, at(200)) {
            CancelStep::Ask(next) => search = next,
            CancelStep::NotFound => break,
            _ => panic!("nothing was found"),
        }
    }
    assert_eq!(planes, 4);
    assert!(matches!(
        CancelSearch::start(42, false).step(CancelReply::Ready(Some(ready())), at(200)),
        CancelStep::Cancel(gone) if gone.done.job_id == 42
    ));
}

#[test]
fn moves_are_checked() {
    assert!(check_priority(1).is_ok());
    assert!(check_priority(4).is_ok());
    assert!(check_priority(0).is_err());
    assert!(check_priority(5).is_err());
    assert!(check_move("q", None).is_ok());
    assert!(check_move("", None).is_err());
    assert!(check_move("q", Some(9)).is_err());
}

#[test]
fn moved_jobs_remember_where_they_came_from() {
    let storage = QueueStorage::new(QueueStorageConfig {
        schema: "custom".to_string(),
        queue_stripe_count: 4,
        ..Default::default()
    })
    .unwrap();
    let key = None;
    let waiting = Waiting {
        job_id: 6,
        queue: "mail#1",
        priority: 2,
        unique_key: &key,
    };
    let moved = storage
        .plan_move_for_hash(&waiting, json("{}"), Some("bulk"), Some(4), None)
        .unwrap()
        .unwrap();
    assert_eq!(moved.queue, "bulk#2");
    assert_eq!(moved.priority, 4);
    assert_eq!(
        moved.payload,
        json(
            r#"{ "metadata": {
                "_awa_original_queue": "mail",
                "_awa_original_priority": 2
            } }"#
        )
    );
    let moved = storage
        .plan_move(&waiting, moved.payload, None, Some(1))
        .unwrap()
        .unwrap();
    assert_eq!(
        moved.payload["metadata"]["_awa_original_priority"],
        json("2")
    );
    assert!(storage
        .plan_move(&waiting, json("{}"), None, Some(2))
        .unwrap()
        .is_none());
}

#[test]
fn old_rows_rise_one_priority() {
    assert_eq!(
        aging_cutoff(at(1000), span(60), 10).unwrap(),
        Some(at(940))
    );
    assert_eq!(aging_cutoff(at(1000), span(60), 0).unwrap(), None);
    let rows = age_rows(vec![ready()]).unwrap();
    assert_eq!(rows[0].priority, 1);
    assert_eq!(
        rows[0].payload,
        json(r#"{ "metadata": { "_awa_original_priority": 2 } }"#)
    );
    assert_eq!(rows[0].run_at, at(100));
}

#[test]
fn due_rows_are_promoted() {
    assert!(promotes(JobState::Scheduled, 1));
    assert!(promotes(JobState::Retryable, 1));
    assert!(!promotes(JobState::Running, 1));
    assert!(!promotes(JobState::Scheduled, 0));
    let rows = promote_rows(vec![deferred()], at(500));
    assert_eq!((rows[0].run_at, rows[0].attempt), (at(500), 1));
}

#[test]
fn finished_jobs_are_retried_from_the_start() {
    assert!(matches!(
        retry_step(RetryReply::Parked(None), at(500)),
        RetryStep::AskTerminal
    ));
    assert!(matches!(
        retry_step(RetryReply::Terminal(None), at(500)),
        RetryStep::NotFound
    ));
    match retry_step(RetryReply::Terminal(Some(failed())), at(500)) {
        RetryStep::Requeue {
            ready,
            old_state,
            terminal_removed,
        } => {
            assert_eq!((ready.job_id, ready.attempt, ready.run_lease), (42, 0, 5));
            assert_eq!(ready.run_at, at(500));
            assert_eq!(old_state, JobState::Failed);
            assert!(terminal_removed);
        }
        _ => panic!("the job should be queued again"),
    }
}

fn deleted() -> DeletedLeaseRow {
    DeletedLeaseRow {
        ready_slot: 3,
        ready_generation: 11,
        job_id: 42,
        queue: "q".to_string(),
        state: JobState::Running,
        priority: 2,
        attempt: 1,
        run_lease: 5,
        max_attempts: 3,
        lane_seq: 9,
        enqueue_shard: 1,
        attempted_at: None,
    }
}

#[test]
fn closed_leases_find_their_job_again() {
    let snapshot = ReadySnapshotRow {
        ready_slot: 3,
        ready_generation: 11,
        job_id: 42,
        kind: "mail".to_string(),
        queue: "q".to_string(),
        args: json("[1]"),
        lane_seq: 9,
        enqueue_shard: 1,
        run_at: at(100),
        created_at: at(90),
        unique_key: None,
        unique_states: None,
        payload: json("{}"),
    };
    let attempt = AttemptStateRow {
        job_id: 42,
        run_lease: 5,
        progress: Some(json("3")),
        callback_filter: None,
        callback_on_complete: None,
        callback_on_fail: None,
        callback_transform: None,
        callback_result: None,
    };
    assert_eq!(lease_pairs(&vec![deleted()]), vec![(42, 5)]);
    let rows = hydrate_deleted_leases(vec![deleted()], &vec![snapshot], &vec![attempt]).unwrap();
    assert_eq!(rows[0].kind, "mail");
    assert_eq!(rows[0].args, json("[1]"));
    assert_eq!(rows[0].progress, Some(json("3")));
    assert!(hydrate_deleted_leases(vec![deleted()], &vec![], &vec![]).is_err());
}

fn leased(state: JobState, run_lease: i64) -> LeaseJobRow {
    LeaseJobRow {
        job_id: 42,
        kind: "mail".to_string(),
        queue: "q".to_string(),
        args: json("{}"),
        state,
        priority: 2,
        attempt: 1,
        run_lease,
        max_attempts: 3,
        run_at: at(100),
        heartbeat_at: None,
        deadline_at: None,
        attempted_at: Some(at(110)),
        finalized_at: None,
        created_at: at(90),
        unique_key: None,
        callback_id: None,
        callback_timeout_at: None,
        callback_filter: None,
        callback_on_complete: None,
        callback_on_fail: None,
        callback_transform: None,
        payload: json("{}"),
        progress: None,
        callback_result: None,
    }
}

#[test]
fn newest_fact_about_a_job_wins() {
    assert!(latest_job(vec![]).unwrap().is_none());
    let job = latest_job(vec![
        JobFact::Done(failed()),
        JobFact::Lease(leased(JobState::Running, 6)),
    ])
    .unwrap()
    .unwrap();
    assert_eq!((job.state, job.run_lease), (JobState::Running, 6));
    let job = latest_job(vec![
        JobFact::Lease(leased(JobState::Running, 5)),
        JobFact::Done(failed()),
    ])
    .unwrap()
    .unwrap();
    assert_eq!(job.state, JobState::Failed);
    assert!(state_rank(JobState::Running) > state_rank(JobState::Available));
}
