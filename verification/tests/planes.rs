use awa_model::claiming::undoes_unreadable;
use awa_model::clock::{Span, Timestamp};
use awa_model::completion::{claimed_pairs, complete_attempts, missed_claims};
use awa_model::claims::{claimed_runtime_jobs, ClaimedRuntimeJob};
use awa_model::copy::{write_ready_copy_row, CopyBuffer};
use awa_model::enqueue::RoutedRow;
use awa_model::error::AwaError;
use awa_model::job::JobState;
use awa_model::names::{
    claim_batch_child_name, claim_child_name, claim_closure_batch_child_name, closure_child_name,
    done_child_name, lease_child_name, ready_claim_attempt_batch_child_name,
    ready_segment_child_name, ready_tombstone_child_name, receipt_completion_batch_child_name,
    receipt_completion_tombstone_child_name,
};
use awa_model::placement::{
    place_existing_rows, plan_existing_ready_rows, plan_ready_rows_copy, PlacedLane,
};
use awa_model::rows::{
    DeferredJobRow, DoneJobRow, ExistingReadyRow, LeaseTransitionRow, ReadyJobLeaseRow,
    RuntimeReadyInsert, RuntimeReadyRow,
};
use awa_model::sql::{done_row_projection, receipt_closed_evidence_sql};
use awa_model::storage::{QueueStorage, QueueStorageConfig};
use awa_model::terminal::{done_row_payload, ReadyPayload};
use awa_model::unique::{deferred_enqueue_claims, ready_enqueue_claims};
use serde_json::Value;
use std::time::Duration;

fn json(text: &str) -> Value {
    serde_json::from_str(text).expect("test JSON")
}

fn at(secs: i64) -> Timestamp {
    Timestamp { secs, nanos: 0 }
}

fn lease(job_id: i64, payload: &str) -> LeaseTransitionRow {
    LeaseTransitionRow {
        ready_slot: 3,
        ready_generation: 11,
        job_id,
        kind: "mail".to_string(),
        queue: "q".to_string(),
        args: json("{}"),
        state: JobState::Running,
        priority: 2,
        attempt: 2,
        run_lease: 5,
        max_attempts: 3,
        lane_seq: 9,
        enqueue_shard: 1,
        run_at: at(100),
        attempted_at: Some(at(110)),
        created_at: at(90),
        unique_key: None,
        unique_states: None,
        payload: json(payload),
        progress: Some(json("7")),
    }
}

fn terminal(payload: &str) -> DoneJobRow {
    lease(42, "{}").into_done_row(JobState::Completed, at(200), json(payload))
}

fn backing(lane_seq: i64, payload: &str) -> ReadyPayload {
    ReadyPayload {
        ready_slot: 3,
        ready_generation: 11,
        queue: "q".to_string(),
        priority: 2,
        enqueue_shard: 1,
        lane_seq,
        payload: json(payload),
    }
}

fn existing(queue: &str, job_id: i64) -> ExistingReadyRow {
    ExistingReadyRow {
        job_id,
        kind: "k".to_string(),
        queue: queue.to_string(),
        args: json("{}"),
        priority: 1,
        attempt: 0,
        run_lease: 4,
        max_attempts: 25,
        run_at: at(50),
        attempted_at: None,
        created_at: at(40),
        unique_key: None,
        unique_states: None,
        payload: json("{}"),
    }
}

fn insert(job_id: i64, unique_key: Option<Vec<u8>>, unique_states: &str) -> RuntimeReadyInsert {
    RuntimeReadyInsert {
        job_id,
        kind: "k".to_string(),
        queue: "q".to_string(),
        args: json("[1]"),
        priority: 1,
        attempt: 0,
        run_lease: 0,
        max_attempts: 25,
        run_at: at(0),
        attempted_at: None,
        lane_seq: 8,
        enqueue_shard: 2,
        created_at: at(0),
        unique_key,
        unique_states: Some(unique_states.to_string()),
        payload: json("{}"),
    }
}

fn scheduled(job_id: i64, unique_key: Option<Vec<u8>>) -> DeferredJobRow {
    DeferredJobRow {
        job_id,
        kind: "k".to_string(),
        queue: "q".to_string(),
        args: json("{}"),
        state: JobState::Scheduled,
        priority: 1,
        attempt: 0,
        run_lease: 0,
        max_attempts: 3,
        run_at: at(0),
        attempted_at: None,
        finalized_at: None,
        created_at: at(0),
        unique_key,
        unique_states: Some("11111000".to_string()),
        payload: json("{}"),
    }
}

fn claimed() -> Vec<ClaimedRuntimeJob> {
    let row = |job_id: i64| ReadyJobLeaseRow {
        ready_slot: 3,
        ready_generation: 11,
        lane_seq: job_id,
        enqueue_shard: 0,
        lease_slot: 0,
        lease_generation: 0,
        claim_slot: 1,
        receipt_id: None,
        claim_batch_id: None,
        claim_batch_index: None,
        job_id,
        kind: "mail".to_string(),
        queue: "q".to_string(),
        args: json("{}"),
        lane_priority: 1,
        priority: 1,
        attempt: 1,
        run_lease: 5,
        max_attempts: 3,
        run_at: at(100),
        heartbeat_at: None,
        deadline_at: None,
        attempted_at: None,
        created_at: at(90),
        unique_key: None,
        unique_states: None,
        payload: json("{}"),
    };
    claimed_runtime_jobs(vec![row(1), row(2), row(3)], false).unwrap()
}

fn compact(text: &str) -> String {
    text.split_whitespace().collect::<Vec<_>>().join(" ")
}

#[test]
fn terminal_rows_leave_out_what_the_ready_row_holds() {
    let row = terminal(r#"{ "tags": ["a"] }"#);
    let same = backing(9, r#"{ "tags": ["a"] }"#);
    let other = backing(9, r#"{ "tags": ["b"] }"#);
    let elsewhere = backing(10, r#"{ "tags": ["a"] }"#);
    assert_eq!(done_row_payload(&row, &vec![]), Some(&row.payload));
    assert_eq!(done_row_payload(&row, &vec![elsewhere]), Some(&row.payload));
    assert_eq!(done_row_payload(&row, &vec![other, same]), None);
    let same = backing(9, r#"{ "tags": ["a"] }"#);
    let other = backing(9, r#"{ "tags": ["b"] }"#);
    assert_eq!(done_row_payload(&row, &vec![same, other]), Some(&row.payload));
    assert_eq!(done_row_payload(&terminal("{}"), &vec![]), None);
    assert_eq!(done_row_payload(&terminal("null"), &vec![]), None);
}

#[test]
fn missed_claims_are_the_ones_that_did_not_close() {
    let jobs = claimed();
    assert_eq!(claimed_pairs(&jobs), vec![(1, 5), (2, 5), (3, 5)]);
    assert_eq!(missed_claims(&jobs, &vec![(2, 5), (3, 6)]), vec![0, 2]);
    assert!(missed_claims(&jobs, &claimed_pairs(&jobs)).is_empty());
}

#[test]
fn completed_attempts_drop_their_progress() {
    let moved = vec![lease(1, r#"{ "progress": 3 }"#), lease(2, "null")];
    let completion = complete_attempts(moved, at(200)).unwrap();
    assert_eq!(completion.pairs, vec![(1, 5), (2, 5)]);
    for row in &completion.done {
        assert_eq!(row.state, JobState::Completed);
        assert_eq!(row.finalized_at, at(200));
        assert_eq!(row.payload, json("{}"));
    }
    assert!(matches!(
        complete_attempts(vec![lease(1, "{}"), lease(2, "7")], at(200)),
        Err(AwaError::Serialization(_))
    ));
}

#[test]
fn failures_can_go_straight_to_the_dead_letter_queue() {
    let dead = lease(42, "{}")
        .fail_to_dlq(at(200), "poison", "boom", None)
        .unwrap();
    assert_eq!((dead.job_id, dead.state), (42, JobState::Failed));
    assert_eq!(dead.dlq_reason, "poison");
    assert_eq!((dead.dlq_at, dead.finalized_at), (at(200), at(200)));
    assert_eq!((dead.run_lease, dead.original_run_lease), (5, 5));
    assert_eq!(dead.payload["errors"][0]["error"], json(r#""boom""#));
    assert_eq!(dead.payload["errors"][0]["terminal"], json("true"));
    assert_eq!(dead.payload["progress"], json("7"));
}

#[test]
fn requeued_rows_take_the_places_of_their_lanes() {
    let plan = plan_existing_ready_rows(vec![
        existing("b", 1),
        existing("a", 2),
        existing("b", 3),
    ]);
    let lanes = vec![
        PlacedLane {
            lane: plan.lanes[0],
            enqueue_shard: 4,
            start_seq: 70,
        },
        PlacedLane {
            lane: plan.lanes[1],
            enqueue_shard: 0,
            start_seq: 5,
        },
    ];
    let placed: Vec<(i64, i64, i16)> = place_existing_rows(plan.rows, &lanes)
        .iter()
        .map(|row| (row.job_id, row.lane_seq, row.enqueue_shard))
        .collect();
    assert_eq!(placed, vec![(2, 70, 4), (1, 5, 0), (3, 6, 0)]);
}

#[test]
fn copied_rows_need_one_id_each() {
    let routed = |kind: &str| RoutedRow {
        row: RuntimeReadyRow {
            kind: kind.to_string(),
            queue: "q".to_string(),
            args: json("{}"),
            priority: 1,
            attempt: 0,
            run_lease: 0,
            max_attempts: 25,
            run_at: at(0),
            attempted_at: None,
            created_at: at(0),
            unique_key: None,
            unique_states: None,
            payload: json("{}"),
            ordering_key: None,
        },
        enqueue_shard: 0,
    };
    let plan = plan_ready_rows_copy(vec![routed("a"), routed("b")], vec![30, 31]).unwrap();
    let ids: Vec<i64> = plan.rows.iter().map(|row| row.job_id).collect();
    assert_eq!(ids, vec![30, 31]);
    assert_eq!(plan.lanes.len(), 1);
    assert_eq!(
        plan_ready_rows_copy(vec![routed("a")], vec![30, 31])
            .unwrap_err()
            .message(),
        "queue storage job id allocation count mismatch"
    );
}

#[test]
fn enqueued_rows_claim_the_keys_that_their_state_covers() {
    let rows = vec![
        insert(1, Some(vec![7]), "11111000"),
        insert(2, None, "11111000"),
        insert(3, Some(vec![8]), "10000000"),
    ];
    let claims: Vec<(Vec<u8>, i64)> = ready_enqueue_claims(&rows)
        .into_iter()
        .map(|claim| (claim.key, claim.job_id))
        .collect();
    assert_eq!(claims, vec![(vec![7], 1)]);
    let rows = vec![scheduled(4, Some(vec![9])), scheduled(5, None)];
    let claims: Vec<(Vec<u8>, i64)> = deferred_enqueue_claims(&rows)
        .into_iter()
        .map(|claim| (claim.key, claim.job_id))
        .collect();
    assert_eq!(claims, vec![(vec![9], 4)]);
}

#[test]
fn ready_rows_are_copied_field_by_field() {
    let mut line = Vec::new();
    write_ready_copy_row(&mut line, 3, 11, &insert(1, Some(vec![0x0f]), "1"));
    let line = String::from_utf8(line).unwrap();
    assert_eq!(
        line,
        concat_fields(&[
            "3",
            "11",
            "1",
            "k",
            "q",
            "[1]",
            "1",
            "0",
            "0",
            "25",
            "8",
            "2",
            "1970-01-01T00:00:00+00:00",
            "__AWA_NULL__",
            "1970-01-01T00:00:00+00:00",
            r#""\x0f""#,
            "1",
            "__AWA_NULL__",
        ])
    );
    let mut buffer = CopyBuffer::new();
    let row = insert(1, Some(vec![0x0f]), "1");
    assert!(buffer.push_ready_row(3, 11, &row).is_none());
    assert_eq!(buffer.finish().unwrap(), line.into_bytes());
}

fn concat_fields(fields: &[&str]) -> String {
    format!("{}\n", fields.join(","))
}

#[test]
fn every_ring_table_has_its_child_name() {
    assert_eq!(
        ready_claim_attempt_batch_child_name("s", 1),
        "s.ready_claim_attempt_batches_1"
    );
    assert_eq!(done_child_name("s", 1), "s.done_entries_1");
    assert_eq!(ready_tombstone_child_name("s", 1), "s.ready_tombstones_1");
    assert_eq!(ready_segment_child_name("s", 1), "s.ready_segments_1");
    assert_eq!(
        receipt_completion_batch_child_name("s", 1),
        "s.receipt_completion_batches_1"
    );
    assert_eq!(
        receipt_completion_tombstone_child_name("s", 1),
        "s.receipt_completion_tombstones_1"
    );
    assert_eq!(lease_child_name("s", 1), "s.leases_1");
    assert_eq!(claim_child_name("s", 1), "s.lease_claims_1");
    assert_eq!(claim_batch_child_name("s", 1), "s.lease_claim_batches_1");
    assert_eq!(closure_child_name("s", 1), "s.lease_claim_closures_1");
    assert_eq!(
        claim_closure_batch_child_name("s", 1),
        "s.lease_claim_closure_batches_1"
    );
}

#[test]
fn closed_claims_are_told_by_any_evidence() {
    assert_eq!(
        compact(&receipt_closed_evidence_sql("s", "s.c", "s.cb", "claims")),
        "( claims.closed_at IS NOT NULL \
         OR EXISTS ( SELECT 1 FROM s.c AS closures WHERE closures.claim_slot = claims.claim_slot \
         AND closures.job_id = claims.job_id AND closures.run_lease = claims.run_lease ) \
         OR EXISTS ( SELECT 1 FROM s.cb AS closure_batches \
         WHERE closure_batches.receipt_ranges @> claims.receipt_id ) \
         OR EXISTS ( SELECT 1 FROM s.done_entries AS done WHERE done.job_id = claims.job_id \
         AND done.run_lease = claims.run_lease ) \
         OR EXISTS ( SELECT 1 FROM s.deferred_jobs AS deferred \
         WHERE deferred.job_id = claims.job_id AND deferred.run_lease = claims.run_lease ) \
         OR EXISTS ( SELECT 1 FROM s.dlq_entries AS dlq WHERE dlq.job_id = claims.job_id \
         AND dlq.run_lease = claims.run_lease ) )"
    );
    let projection = compact(&done_row_projection("d", "r"));
    assert!(projection.ends_with(
        "COALESCE(d.unique_states, r.unique_states) AS unique_states, \
         COALESCE(d.payload, r.payload, '{}'::jsonb) AS payload"
    ));
}

#[test]
fn requeued_rows_read_as_available_jobs() {
    let job = existing("q", 7).into_ready_job_row().into_job_row().unwrap();
    assert_eq!((job.id, job.state), (7, JobState::Available));
    assert_eq!((job.run_lease, job.run_at), (4, at(50)));
}

#[test]
fn receipts_are_used_when_the_layout_says_so() {
    for lease_claim_receipts in [true, false] {
        let storage = QueueStorage::new(QueueStorageConfig {
            schema: "custom".to_string(),
            lease_claim_receipts,
            ..Default::default()
        })
        .unwrap();
        assert_eq!(
            storage.use_lease_claim_receipts_for_runtime(Duration::ZERO),
            lease_claim_receipts
        );
        assert_eq!(
            storage.use_lease_claim_receipts_for_runtime(Duration::from_secs(9)),
            lease_claim_receipts
        );
    }
}

#[test]
fn unreadable_claims_are_undone_where_nothing_frees_them() {
    assert!(undoes_unreadable(false, Span { secs: 0, nanos: 0 }));
    assert!(!undoes_unreadable(false, Span { secs: 0, nanos: 1 }));
    assert!(!undoes_unreadable(true, Span { secs: 0, nanos: 0 }));
}
