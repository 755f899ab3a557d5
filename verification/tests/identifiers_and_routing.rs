use awa_model::cursor::{
    cursor_retry_millis, normalize_claim_cursor_advances, ClaimCursorAdvance,
};
use awa_model::lanes::Rotors;
use awa_model::names::{child_name, ready_child_name, terminal_delta_child_name, validate_ident};
use awa_model::ring::{
    busy_indicator, oldest_initialized_ring_slot, prune_lock_timeout_setting, ring_slot_index,
};
use awa_model::routing::{
    ordering_key_hash64, shard_for_ordering_key, shard_for_rotor, stripe_for_hash,
    stripe_for_salt, terminal_counter_bucket,
};
use awa_model::storage::{QueueStorage, QueueStorageConfig};
use awa_model::clock::Span;
use std::collections::HashSet;
use std::time::Duration;

#[test]
fn queue_storage_schema_identifiers_are_lowercase_unquoted_names() {
    for ident in ["awa", "awa_queue_storage", "_awa123"] {
        validate_ident(ident).expect("identifier should be accepted");
    }

    for ident in ["Awa", "awa-queue", "123awa", "awa.queue"] {
        assert!(
            validate_ident(ident).is_err(),
            "identifier should be rejected: {ident}"
        );
    }
}

#[test]
fn default_queue_storage_schema_requires_default_physical_shape() {
    for config in [
        QueueStorageConfig {
            queue_slot_count: 32,
            ..Default::default()
        },
        QueueStorageConfig {
            lease_slot_count: 4,
            ..Default::default()
        },
        QueueStorageConfig {
            claim_slot_count: 4,
            ..Default::default()
        },
        QueueStorageConfig {
            lease_claim_receipts: false,
            ..Default::default()
        },
    ] {
        let err = QueueStorage::new(config).expect_err("default awa schema shape must reject");
        assert!(
            err.message().contains("default `awa` queue-storage schema"),
            "unexpected error: {}",
            err.message()
        );
    }

    QueueStorage::new(QueueStorageConfig {
        schema: "awa_custom".to_string(),
        queue_slot_count: 4,
        lease_slot_count: 2,
        claim_slot_count: 2,
        lease_claim_receipts: false,
        ..Default::default()
    })
    .expect("custom schema should allow custom physical shape");
}

#[test]
fn shards_le_one_collapse_to_zero() {
    assert_eq!(shard_for_ordering_key(b"customer-42", 1), 0);
    assert_eq!(shard_for_ordering_key(b"", 1), 0);
    assert_eq!(shard_for_ordering_key(b"customer-42", 0), 0);
}

#[test]
fn same_key_lands_on_same_shard() {
    let key = b"customer-42";
    let first = shard_for_ordering_key(key, 8);
    for _ in 0..100 {
        assert_eq!(shard_for_ordering_key(key, 8), first);
    }
}

#[test]
fn shard_is_within_range() {
    for n in 0..256u32 {
        let key = format!("order-{n}");
        let shard = shard_for_ordering_key(key.as_bytes(), 8);
        assert!((0..8).contains(&shard));
    }
}

#[test]
fn distinct_keys_spread_across_shards() {
    let mut hit: HashSet<i16> = HashSet::new();
    for n in 0..1024u32 {
        let key = format!("order-{n}");
        hit.insert(shard_for_ordering_key(key.as_bytes(), 8));
    }
    assert_eq!(hit.len(), 8, "1024 distinct keys should cover all 8 shards");
}

#[test]
fn oldest_initialized_ring_slot_is_none_until_second_slot_exists() {
    assert_eq!(oldest_initialized_ring_slot(0, 0, 8), None);
}

#[test]
fn oldest_initialized_ring_slot_tracks_partial_ring_startup() {
    assert_eq!(oldest_initialized_ring_slot(1, 1, 8), Some((0, 0)));
    assert_eq!(oldest_initialized_ring_slot(2, 2, 8), Some((0, 0)));
    assert_eq!(oldest_initialized_ring_slot(3, 3, 8), Some((0, 0)));
}

#[test]
fn oldest_initialized_ring_slot_wraps_after_full_rotation() {
    assert_eq!(oldest_initialized_ring_slot(7, 7, 8), Some((0, 0)));
    assert_eq!(oldest_initialized_ring_slot(0, 8, 8), Some((1, 1)));
    assert_eq!(oldest_initialized_ring_slot(1, 9, 8), Some((2, 2)));
}

fn advance(next_seq: i64, only_if_current: Option<i64>) -> ClaimCursorAdvance {
    ClaimCursorAdvance {
        queue: "queue".to_string(),
        priority: 2,
        enqueue_shard: 0,
        next_seq,
        only_if_current,
    }
}

#[test]
fn normalize_claim_cursor_advances_sorts_conditional_lane_updates() {
    let normalized = normalize_claim_cursor_advances(&[
        advance(7, Some(6)),
        advance(6, Some(5)),
        advance(8, Some(7)),
    ]);

    let ordered: Vec<(i64, i64)> = normalized
        .iter()
        .map(|advance| (advance.only_if_current.unwrap(), advance.next_seq))
        .collect();
    assert_eq!(ordered, vec![(5, 6), (6, 7), (7, 8)]);
}

#[test]
fn normalize_claim_cursor_advances_coalesces_unconditional_lane_updates() {
    let normalized = normalize_claim_cursor_advances(&[
        advance(3, None),
        advance(5, None),
        advance(4, Some(3)),
    ]);

    assert_eq!(normalized.len(), 1);
    assert_eq!(normalized[0].next_seq, 5);
    assert_eq!(normalized[0].only_if_current, None);
}

#[test]
fn normalizing_orders_lanes_by_queue_then_priority_then_shard() {
    let lane = |queue: &str, priority: i16, enqueue_shard: i16| ClaimCursorAdvance {
        queue: queue.to_string(),
        priority,
        enqueue_shard,
        next_seq: 1,
        only_if_current: None,
    };
    let normalized = normalize_claim_cursor_advances(&[
        lane("b", 1, 0),
        lane("a", 2, 1),
        lane("a", 2, 0),
        lane("a", 1, 3),
    ]);
    let lanes: Vec<(&str, i16, i16)> = normalized
        .iter()
        .map(|a| (a.queue.as_str(), a.priority, a.enqueue_shard))
        .collect();
    assert_eq!(
        lanes,
        vec![("a", 1, 3), ("a", 2, 0), ("a", 2, 1), ("b", 1, 0)]
    );
    let again = normalize_claim_cursor_advances(&normalized);
    assert_eq!(again.len(), normalized.len());
}

#[test]
fn cursor_retries_wait_longer_and_stop() {
    assert_eq!(cursor_retry_millis(1), Some(25));
    assert_eq!(cursor_retry_millis(2), Some(50));
    assert_eq!(cursor_retry_millis(3), None);
}

#[test]
fn ordering_keys_hash_to_fixed_values() {
    assert_eq!(ordering_key_hash64(b""), 14_695_981_039_346_656_037);
    assert_eq!(ordering_key_hash64(b"a"), 12_638_153_115_695_167_552);
    assert_eq!(ordering_key_hash64(b"foobar"), 436_243_915_356_610_218);
}

#[test]
fn rotor_and_buckets_are_euclidean() {
    assert_eq!(shard_for_rotor(9, 4), 1);
    assert_eq!(shard_for_rotor(9, 1), 0);
    assert_eq!(terminal_counter_bucket(257), 1);
    assert_eq!(terminal_counter_bucket(-1), 255);
    assert_eq!(stripe_for_hash(10, 4), 2);
    assert_eq!(stripe_for_salt(-1, 4), 3);
}

#[test]
fn children_are_named_by_schema_table_and_slot() {
    assert_eq!(ready_child_name("awa", 3), "awa.ready_entries_3");
    assert_eq!(
        terminal_delta_child_name("s", 12),
        "s.queue_terminal_count_deltas_12"
    );
    assert_eq!(child_name("x", "leases", 0), "x.leases_0");
}

#[test]
fn rejected_layouts_name_the_first_broken_rule() {
    let message = |config: QueueStorageConfig| QueueStorage::new(config).unwrap_err().message();
    let base = || QueueStorageConfig {
        schema: "custom".to_string(),
        ..Default::default()
    };
    assert_eq!(
        message(QueueStorageConfig {
            queue_slot_count: 3,
            lease_slot_count: 1,
            ..base()
        }),
        "queue storage requires at least 4 queue slots"
    );
    assert_eq!(
        message(QueueStorageConfig {
            lease_slot_count: 1,
            ..base()
        }),
        "queue storage requires at least 2 lease slots"
    );
    assert_eq!(
        message(QueueStorageConfig {
            claim_slot_count: 1,
            ..base()
        }),
        "queue storage requires at least 2 claim slots"
    );
    assert_eq!(
        message(QueueStorageConfig {
            queue_stripe_count: 0,
            ..base()
        }),
        "queue storage requires at least 1 queue stripe"
    );
    assert_eq!(
        message(QueueStorageConfig {
            schema: "Bad-Name".to_string(),
            ..Default::default()
        }),
        "invalid SQL identifier: Bad-Name"
    );
}

#[test]
fn getters_show_the_layout() {
    let storage = QueueStorage::from_existing_schema("custom".to_string()).unwrap();
    assert_eq!(storage.schema(), "custom");
    assert_eq!(storage.slot_count(), storage.queue_slot_count());
    assert_eq!(storage.queue_slot_count(), 16);
    assert_eq!(storage.lease_slot_count(), 8);
    assert_eq!(storage.claim_slot_count(), 8);
    assert_eq!(storage.queue_stripe_count(), 1);
    assert!(storage.lease_claim_receipts());
    assert_eq!(storage.ready_child_relname(2), "ready_entries_2");
    assert_eq!(storage.done_child_relname(2), "done_entries_2");
    assert_eq!(storage.leases_child_relname(1), "leases_1");
    assert_eq!(storage.leases_relname(), "leases");
    assert_eq!(storage.lease_claims_relname(), "lease_claims");
    assert_eq!(
        storage.lease_claim_closures_relname(),
        "lease_claim_closures"
    );
    assert_eq!(storage.attempt_state_relname(), "attempt_state");
    assert_eq!(storage.job_id_sequence(), "custom.job_id_seq");
    assert_eq!(storage.leases_table(), "custom.leases");
    assert_eq!(storage.attempt_state_table(), "custom.attempt_state");
}

#[test]
fn prune_lock_timeout_is_set_and_written_in_milliseconds() {
    let storage = QueueStorage::from_existing_schema("custom".to_string()).unwrap();
    assert_eq!(
        storage.prune_lock_timeout(),
        Span {
            secs: 0,
            nanos: 10_000_000
        }
    );
    let storage = storage
        .with_prune_lock_timeout(Duration::from_millis(1500))
        .unwrap();
    assert_eq!(
        prune_lock_timeout_setting(&storage.prune_lock_timeout()),
        "1500ms"
    );
    assert_eq!(
        prune_lock_timeout_setting(&Span { secs: 0, nanos: 10 }),
        "1ms"
    );
    assert_eq!(
        prune_lock_timeout_setting(&Span {
            secs: u64::MAX,
            nanos: 0
        }),
        "9223372036854775807ms"
    );
    assert!(storage.with_prune_lock_timeout(Duration::ZERO).is_err());
}

#[test]
fn ring_slots_are_checked_against_the_ring() {
    assert_eq!(ring_slot_index(3, 8, "claim").unwrap(), 3);
    assert_eq!(
        ring_slot_index(-1, 8, "claim").unwrap_err().message(),
        "invalid claim ring slot -1: slot must be non-negative"
    );
    assert_eq!(
        ring_slot_index(8, 8, "claim").unwrap_err().message(),
        "invalid claim ring slot 8: configured slot count is 8"
    );
    assert_eq!(busy_indicator(true), 1);
    assert_eq!(busy_indicator(false), 0);
}

#[test]
fn striped_queues_lead_back_to_their_logical_queue() {
    let storage = QueueStorage::new(QueueStorageConfig {
        schema: "custom".to_string(),
        queue_stripe_count: 4,
        ..Default::default()
    })
    .unwrap();
    let stripes = storage.physical_queues_for_logical("mail");
    assert_eq!(stripes, vec!["mail#0", "mail#1", "mail#2", "mail#3"]);
    for stripe in &stripes {
        assert!(storage.is_physical_stripe_queue(stripe));
        assert_eq!(storage.logical_queue_name(stripe), "mail");
        assert_eq!(
            storage.physical_queues_for_logical(stripe),
            vec![stripe.clone()]
        );
    }
    assert_eq!(storage.queue_stripe_for_hash("mail", Some(6), 0), "mail#2");
    assert_eq!(storage.queue_stripe_for_hash("mail", None, -1), "mail#3");
    let key = Some(b"customer".to_vec());
    let first = storage.queue_stripe_for_enqueue("mail", &key, 0);
    assert!(stripes.contains(&first));
    assert_eq!(storage.queue_stripe_for_enqueue("mail", &key, 7), first);
    let mut rotors = Rotors::new();
    let starts: Vec<usize> = (0..5)
        .map(|_| storage.stripe_probe_start(4, &mut rotors))
        .collect();
    assert_eq!(starts, vec![0, 1, 2, 3, 0]);
    assert_eq!(storage.stripe_probe_start(1, &mut rotors), 0);
    assert_eq!(rotors.stripe_probe, 5);
    rotors.stripe_probe = usize::MAX;
    assert_eq!(storage.stripe_probe_start(4, &mut rotors), 3);
    assert_eq!(rotors.stripe_probe, 0);
}

#[test]
fn batches_take_turns_over_the_shards() {
    let storage = QueueStorage::from_existing_schema("custom".to_string()).unwrap();
    let mut rotors = Rotors::new();
    let picks: Vec<i16> = (0..4)
        .map(|_| storage.pick_shard(3, None, &mut rotors))
        .collect();
    assert_eq!(picks, vec![0, 1, 2, 0]);
    assert_eq!(rotors.shard_rotor, 4);
    let key: &[u8] = b"customer-42";
    let shard = storage.pick_shard(8, Some(key), &mut rotors);
    assert_eq!(shard, shard_for_ordering_key(key, 8));
    assert_eq!(storage.pick_shard(1, None, &mut rotors), 0);
    assert_eq!(rotors.shard_rotor, 4);
    rotors.shard_rotor = u16::MAX;
    assert_eq!(storage.pick_shard(4, None, &mut rotors), 3);
    assert_eq!(rotors.shard_rotor, 0);
}
