use awa_model::clock::Timestamp;
use awa_model::enqueue::RoutedRow;
use awa_model::lanes::{LaneSet, Rotors, ShardCounts};
use awa_model::placement::{
    place_lane, plan_existing_ready_rows, plan_ready_rows, plan_ready_rows_copy,
    ready_segments_from_rows,
};
use awa_model::routing::shard_for_ordering_key;
use awa_model::rows::{ExistingReadyRow, RuntimeReadyInsert, RuntimeReadyRow};
use awa_model::storage::QueueStorage;
use awa_model::unique::ready_enqueue_claims;
use chrono::{Duration, TimeZone, Utc};
use serde_json::Value;

fn json(text: &str) -> Value {
    serde_json::from_str(text).expect("test JSON")
}

fn stamp(at: chrono::DateTime<Utc>) -> Timestamp {
    Timestamp {
        secs: at.timestamp(),
        nanos: at.timestamp_subsec_nanos(),
    }
}

fn ready_row(lane_seq: i64, run_at: Timestamp) -> RuntimeReadyInsert {
    RuntimeReadyInsert {
        job_id: lane_seq,
        kind: "segment_test".to_string(),
        queue: "segment-q".to_string(),
        args: json("{}"),
        priority: 2,
        attempt: 0,
        run_lease: 0,
        max_attempts: 25,
        run_at,
        attempted_at: None,
        lane_seq,
        enqueue_shard: 0,
        created_at: run_at,
        unique_key: None,
        unique_states: None,
        payload: json("{}"),
    }
}

#[test]
fn ready_segments_split_on_run_at_boundaries() {
    let first = Utc
        .with_ymd_and_hms(2026, 6, 14, 12, 0, 0)
        .single()
        .expect("valid test timestamp");
    let second = stamp(first + Duration::seconds(1));
    let first = stamp(first);
    let rows = vec![
        ready_row(1, first),
        ready_row(2, first),
        ready_row(3, second),
        ready_row(4, first),
    ];

    let segments = ready_segments_from_rows(&rows);
    let ranges: Vec<_> = segments
        .iter()
        .map(|segment| {
            (
                segment.first_lane_seq,
                segment.next_lane_seq,
                segment.first_run_at,
            )
        })
        .collect();

    assert_eq!(ranges, vec![(1, 3, first), (3, 4, second), (4, 5, first)]);
}

fn runtime_row(queue: &str, priority: i16, kind: &str, key: Option<&[u8]>) -> RuntimeReadyRow {
    let at = Timestamp { secs: 0, nanos: 0 };
    RuntimeReadyRow {
        kind: kind.to_string(),
        queue: queue.to_string(),
        args: json("{}"),
        priority,
        attempt: 0,
        run_lease: 0,
        max_attempts: 25,
        run_at: at,
        attempted_at: None,
        created_at: at,
        unique_key: None,
        unique_states: None,
        payload: json("{}"),
        ordering_key: key.map(|k| k.to_vec()),
    }
}

#[test]
fn enqueued_rows_get_consecutive_places_on_their_lanes() {
    let storage = QueueStorage::from_existing_schema("custom".to_string()).unwrap();
    let mut shards = ShardCounts::new();
    assert_eq!(shards.remember("a", 0), 1);
    assert_eq!(shards.remember("b", 1), 1);
    let rows = vec![
        runtime_row("b", 1, "first", None),
        runtime_row("a", 2, "second", None),
        runtime_row("b", 1, "third", None),
    ];
    let routed = storage.group_ready_rows_by_shard(rows, &shards, &mut Rotors::new());
    let plan = plan_ready_rows(routed, vec![10, 11, 12]).unwrap();
    let kinds: Vec<&str> = plan.rows.iter().map(|r| r.kind.as_str()).collect();
    assert_eq!(kinds, vec!["second", "first", "third"]);
    let ids: Vec<i64> = plan.rows.iter().map(|r| r.job_id).collect();
    assert_eq!(ids, vec![10, 11, 12]);
    assert_eq!(plan.lanes.len(), 2);
    let mut placed = plan.rows;
    place_lane(&mut placed, plan.lanes[0], 5);
    place_lane(&mut placed, plan.lanes[1], 100);
    let seqs: Vec<i64> = placed.iter().map(|r| r.lane_seq).collect();
    assert_eq!(seqs, vec![5, 100, 101]);
}

#[test]
fn rows_with_one_key_share_a_shard_and_keep_their_order() {
    let storage = QueueStorage::from_existing_schema("custom".to_string()).unwrap();
    let mut shards = ShardCounts::new();
    shards.remember("q", 8);
    let rows = (0..6)
        .map(|n| runtime_row("q", 1, &format!("job-{n}"), Some(b"customer-42")))
        .collect();
    let routed = storage.group_ready_rows_by_shard(rows, &shards, &mut Rotors::new());
    let shard = routed[0].enqueue_shard;
    for (n, row) in routed.iter().enumerate() {
        assert_eq!(row.enqueue_shard, shard);
        assert_eq!(row.row.kind, format!("job-{n}"));
    }
}

fn routed_batch(rotors: &mut Rotors) -> Vec<RoutedRow> {
    let storage = QueueStorage::from_existing_schema("custom".to_string()).unwrap();
    let mut shards = ShardCounts::new();
    shards.remember("a", 4);
    shards.remember("b", 4);
    shards.remember("c", 1);
    let mut rows = vec![
        runtime_row("b", 1, "b-first", None),
        runtime_row("c", 1, "c", None),
        runtime_row("a", 2, "a-low", None),
        runtime_row("b", 1, "b-keyed", Some(b"customer-42")),
        runtime_row("a", 1, "a", None),
        runtime_row("b", 1, "b-second", None),
    ];
    rows[0].unique_key = Some(b"one".to_vec());
    rows[0].unique_states = Some("11111000".to_string());
    storage.group_ready_rows_by_shard(rows, &shards, rotors)
}

#[test]
fn unkeyed_rows_take_one_turn_for_each_queue_and_priority() {
    let mut rotors = Rotors::new();
    rotors.shard_rotor = 2;
    let routed = routed_batch(&mut rotors);
    let shard = |kind: &str| {
        routed
            .iter()
            .find(|routed| routed.row.kind == kind)
            .map(|routed| routed.enqueue_shard)
    };
    assert_eq!(shard("a"), Some(2));
    assert_eq!(shard("a-low"), Some(3));
    assert_eq!(shard("b-first"), Some(0));
    assert_eq!(shard("b-second"), Some(0));
    assert_eq!(shard("b-keyed"), Some(shard_for_ordering_key(b"customer-42", 4)));
    assert_eq!(shard("c"), Some(0));
    assert_eq!(rotors.shard_rotor, 5);
}

#[test]
fn inserted_and_copied_batches_are_planned_alike() {
    let ids = vec![21, 22, 23, 24, 25, 26];
    let insert = plan_ready_rows(routed_batch(&mut Rotors::new()), ids.clone()).unwrap();
    let copy = plan_ready_rows_copy(routed_batch(&mut Rotors::new()), ids.clone()).unwrap();
    assert_eq!(insert.lanes, copy.lanes);
    assert_eq!(format!("{:?}", insert.rows), format!("{:?}", copy.rows));
    let claims = |rows: &Vec<RuntimeReadyInsert>| -> Vec<(Vec<u8>, i64)> {
        ready_enqueue_claims(rows)
            .into_iter()
            .map(|claim| (claim.key, claim.job_id))
            .collect()
    };
    assert_eq!(claims(&insert.rows).len(), 1);
    assert_eq!(claims(&insert.rows), claims(&copy.rows));
    let mut more = ids.clone();
    more.push(27);
    assert!(plan_ready_rows(routed_batch(&mut Rotors::new()), more.clone()).is_ok());
    let err = plan_ready_rows_copy(routed_batch(&mut Rotors::new()), more).unwrap_err();
    assert_eq!(
        err.message(),
        "queue storage job id allocation count mismatch"
    );
    let err = plan_ready_rows(routed_batch(&mut Rotors::new()), vec![21]).unwrap_err();
    assert_eq!(err.message(), "queue storage job id allocation underflow");
}

#[test]
fn requeued_rows_are_grouped_by_lane() {
    let at = Timestamp { secs: 0, nanos: 0 };
    let row = |queue: &str, priority: i16, job_id: i64| ExistingReadyRow {
        job_id,
        kind: "k".to_string(),
        queue: queue.to_string(),
        args: json("{}"),
        priority,
        attempt: 0,
        run_lease: 0,
        max_attempts: 25,
        run_at: at,
        attempted_at: None,
        created_at: at,
        unique_key: None,
        unique_states: None,
        payload: json("{}"),
    };
    let plan = plan_existing_ready_rows(vec![row("b", 1, 1), row("a", 1, 2), row("b", 1, 3)]);
    let ids: Vec<i64> = plan.rows.iter().map(|r| r.job_id).collect();
    assert_eq!(ids, vec![2, 1, 3]);
    assert_eq!(plan.lanes.len(), 2);
}

#[test]
fn cached_lanes_are_trusted_only_while_visible() {
    let mut lanes = LaneSet::new();
    assert!(!lanes.lane_is_ready("q", 1, 0, true));
    lanes.mark_lane_ensured("q", 1, 0);
    assert!(lanes.lane_is_ready("q", 1, 0, true));
    assert!(!lanes.lane_is_ready("q", 1, 1, true));
    assert!(!lanes.lane_is_ready("q", 1, 0, false));
    assert!(!lanes.lane_is_cached("q", 1, 0));
    lanes.mark_lane_ensured("q", 1, 0);
    lanes.clear_lane_cache();
    assert!(!lanes.lane_is_cached("q", 1, 0));
}
