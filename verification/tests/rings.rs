use awa_model::clock::Span;
use awa_model::error::{is_lock_contention, AwaError, DatabaseFailure};
use awa_model::install::{
    bring_back_statements, build_statements, check_activated, install_lock_name, lane_lock_key,
    rebuild_lock_name, retire_open_claims, ring_seed, InstallStatement,
};
use awa_model::prune::{
    AttemptPrune, AttemptPruneStage, AttemptRing, QueuePrune, QueuePruneStage, Reply, Sealed, Step,
};
use awa_model::rescue::SlotSweep;
use awa_model::ring::{
    lock_reply, BusyCounts, ClaimSlotPresence, LockReply, PruneOutcome, QueueSlotPresence,
    RingState, RotateOutcome, SkipReason,
};
use awa_model::rollup::{
    sealed_slots, RollupPass, RollupReply, RollupStage, RollupStep, SlotRollup,
    TerminalDeltaRollupOutcome, TerminalDeltaSlotRollup,
};
use awa_model::storage::QueueStorage;

const EMPTY: QueueSlotPresence = QueueSlotPresence {
    ready: false,
    claim_attempt_batches: false,
    done: false,
    tombstones: false,
    segments: false,
    receipt_batches: false,
    receipt_tombstones: false,
    terminal_deltas: false,
};

fn ring(current_slot: i32, generation: i64, slot_count: i32) -> RingState {
    RingState {
        current_slot,
        generation,
        slot_count,
    }
}

fn failure(code: &str) -> DatabaseFailure {
    DatabaseFailure {
        code: Some(code.to_string()),
        constraint: None,
        message: "boom".to_string(),
    }
}

#[test]
fn queue_ring_turns_into_an_empty_slot() {
    assert_eq!(
        ring(7, 7, 8).rotate_queue(&EMPTY),
        RotateOutcome::Rotated {
            slot: 0,
            generation: 8
        }
    );
    let busy = QueueSlotPresence {
        done: true,
        terminal_deltas: true,
        ..EMPTY
    };
    assert_eq!(
        ring(2, 10, 8).rotate_queue(&busy),
        RotateOutcome::SkippedBusy {
            slot: 3,
            busy: BusyCounts {
                queue_done: 1,
                queue_terminal_deltas: 1,
                ..BusyCounts::default()
            }
        }
    );
}

#[test]
fn lease_and_claim_rings_need_the_swap() {
    assert_eq!(
        ring(0, 4, 4).rotate_leases(false, 1),
        RotateOutcome::Rotated {
            slot: 1,
            generation: 5
        }
    );
    assert!(matches!(
        ring(0, 4, 4).rotate_leases(true, 1),
        RotateOutcome::SkippedBusy { slot: 1, busy } if busy.leases == 1
    ));
    assert!(matches!(
        ring(0, 4, 4).rotate_leases(false, 0),
        RotateOutcome::SkippedBusy { slot: 1, .. }
    ));
    let presence = ClaimSlotPresence {
        claims: false,
        claim_batches: false,
        closures: true,
        closure_batches: false,
    };
    assert!(matches!(
        ring(3, 3, 4).rotate_claims(&presence, 1),
        RotateOutcome::SkippedBusy { slot: 0, busy } if busy.closures == 1 && busy.claims == 0
    ));
}

#[test]
fn skip_reasons_have_distinct_labels() {
    let labels = [
        SkipReason::QueueActiveLeases.as_str(),
        SkipReason::QueueUnclosedClaimRefs.as_str(),
        SkipReason::QueuePendingReady.as_str(),
        SkipReason::LeaseCurrent.as_str(),
        SkipReason::LeaseActive.as_str(),
        SkipReason::ClaimCurrent.as_str(),
        SkipReason::ClaimOpen.as_str(),
    ];
    for i in 0..labels.len() {
        for j in 0..i {
            assert_ne!(labels[i], labels[j]);
        }
    }
}

#[test]
fn lock_failures_are_told_apart() {
    assert!(is_lock_contention(&failure("55P03")));
    assert!(!is_lock_contention(&failure("23505")));
    assert!(matches!(lock_reply(Ok(())), LockReply::Taken));
    assert!(matches!(
        lock_reply(Err(failure("55P03"))),
        LockReply::Contended
    ));
    assert!(matches!(
        lock_reply(Err(failure("23505"))),
        LockReply::Failed(AwaError::UniqueConflict { .. })
    ));
    assert!(matches!(
        lock_reply(Err(failure("42P01"))),
        LockReply::Failed(AwaError::Database { .. })
    ));
}

fn asked<S>(step: Step<S>) -> S {
    match step {
        Step::Ask(next) => next,
        _ => panic!("the prune should go on"),
    }
}

fn outcome<S>(step: Step<S>) -> PruneOutcome {
    match step {
        Step::Done(outcome) => outcome,
        _ => panic!("the prune should be over"),
    }
}

#[test]
fn drained_queue_slot_is_pruned() {
    let target = Sealed {
        slot: 2,
        generation: 9,
    };
    let mut prune = QueuePrune::start(&Span {
        secs: 60,
        nanos: 0,
    });
    assert_eq!(prune.retention_secs, 60);
    assert_eq!(prune.stage, QueuePruneStage::Locate);
    prune = asked(prune.step(Reply::Target(Some((2, 9)))));
    let mut seen = Vec::new();
    let last = loop {
        seen.push(prune.stage);
        let reply = match prune.stage {
            QueuePruneStage::Lock { .. } => Reply::Lock(LockReply::Taken),
            QueuePruneStage::Carry { .. } => Reply::Rows(3),
            QueuePruneStage::Truncate { .. } => Reply::Lock(LockReply::Taken),
            QueuePruneStage::Settle { .. } => Reply::Settled,
            _ => Reply::Found(false),
        };
        match prune.step(reply) {
            Step::Ask(next) => prune = next,
            step => break step,
        }
    };
    assert_eq!(
        outcome(last),
        PruneOutcome::Pruned {
            slot: 2,
            carried_failed_rows: 3
        }
    );
    assert!(seen.contains(&QueuePruneStage::Lock { target }));
    assert!(seen.contains(&QueuePruneStage::Leases {
        target,
        locked: true
    }));
    assert!(seen.contains(&QueuePruneStage::Truncate { target, carried: 3 }));
}

#[test]
fn busy_queue_slot_is_left_alone() {
    let span = Span { secs: 1, nanos: 0 };
    assert_eq!(
        outcome(QueuePrune::start(&span).step(Reply::Target(None))),
        PruneOutcome::Noop
    );
    let prune = asked(QueuePrune::start(&span).step(Reply::Target(Some((4, 1)))));
    assert_eq!(
        outcome(prune.step(Reply::Found(true))),
        PruneOutcome::SkippedActive {
            slot: 4,
            reason: SkipReason::QueueActiveLeases,
            count: 1
        }
    );
}

#[test]
fn contended_attempt_slot_is_blocked() {
    let start = AttemptPrune::start(AttemptRing::Claim);
    assert_eq!(start.stage, AttemptPruneStage::Oldest);
    assert_eq!(
        outcome(start.step(Reply::Ring(ring(0, 0, 4)))),
        PruneOutcome::Noop
    );
    let mut prune = asked(AttemptPrune::start(AttemptRing::Claim).step(Reply::Ring(ring(2, 2, 4))));
    let last = loop {
        let reply = match prune.stage {
            AttemptPruneStage::Lock { .. } => Reply::Lock(LockReply::Contended),
            AttemptPruneStage::SlotRow { .. } => Reply::Found(true),
            AttemptPruneStage::Current { .. } => Reply::CurrentSlot(2),
            _ => Reply::Found(false),
        };
        match prune.step(reply) {
            Step::Ask(next) => prune = next,
            step => break step,
        }
    };
    assert_eq!(outcome(last), PruneOutcome::Blocked { slot: 0 });
    assert!(!PruneOutcome::Blocked { slot: 0 }.commits());
    assert!(PruneOutcome::Pruned {
        slot: 0,
        carried_failed_rows: 0
    }
    .commits());
}

#[test]
fn rollup_pass_books_each_slot() {
    assert_eq!(
        sealed_slots(vec![(-1, 4), (1, 5), (2, 0)]),
        vec![(1, 5), (2, 0)]
    );
    let mut pass = RollupPass::new(vec![(0, 7), (1, 4), (2, 5), (3, 6)], 1);
    assert_eq!(pass.outcome(), TerminalDeltaRollupOutcome::default());
    assert_eq!(pass.target(), Some((0, 7)));
    pass.book(TerminalDeltaSlotRollup::SkippedActive);
    assert_eq!(pass.target(), Some((1, 4)));
    pass.book(TerminalDeltaSlotRollup::Rolled {
        delta_rows: 10,
        grouped_keys: 2,
    });
    assert_eq!(pass.target(), None);
    assert_eq!(
        pass.outcome(),
        TerminalDeltaRollupOutcome {
            rolled_slots: 1,
            delta_rows: 10,
            grouped_keys: 2,
            skipped_active_slots: 1,
            blocked_slots: 0,
            skipped_mvcc_pinned: false,
        }
    );
}

#[test]
fn current_slot_is_not_rolled_up() {
    let rollup = SlotRollup::start(3, 11);
    assert_eq!(rollup.stage, RollupStage::Locate);
    assert!(matches!(
        rollup.step(RollupReply::Located {
            current_slot: 3,
            slot_generation: Some(11)
        }),
        RollupStep::Done(TerminalDeltaSlotRollup::SkippedActive)
    ));
    assert!(matches!(
        SlotRollup::start(3, 11).step(RollupReply::Located {
            current_slot: 4,
            slot_generation: Some(11)
        }),
        RollupStep::Ask(SlotRollup {
            slot: 3,
            generation: 11,
            ..
        })
    ));
    assert!(TerminalDeltaSlotRollup::Rolled {
        delta_rows: 1,
        grouped_keys: 1
    }
    .commits());
    assert!(!TerminalDeltaSlotRollup::Blocked.commits());
}

#[test]
fn rescue_sweep_starts_at_the_preferred_slot() {
    let mut sweep = SlotSweep::new(Some(2), 4);
    let mut visited = Vec::new();
    while let Some((slot, limit)) = sweep.next() {
        visited.push((slot, limit));
        sweep.book(100);
    }
    assert_eq!(visited, vec![(2, 500), (0, 400), (1, 300), (3, 200)]);
    let mut sweep = SlotSweep::new(None, 3);
    assert_eq!(sweep.next(), Some((0, 500)));
    sweep.book(500);
    assert_eq!(sweep.next(), None);
}

#[test]
fn oldest_claim_slot_is_preferred() {
    let storage = QueueStorage::from_existing_schema("custom".to_string()).unwrap();
    assert_eq!(storage.preferred_claim_slot(Some(ring(1, 9, 8))), Some(2));
    assert_eq!(storage.preferred_claim_slot(Some(ring(0, 0, 8))), None);
    assert_eq!(storage.preferred_claim_slot(None), None);
}

#[test]
fn reset_rings_hold_one_sealed_slot_less() {
    assert_eq!(ring_seed(4), vec![(0, 0), (1, -1), (2, -1), (3, -1)]);
}

#[test]
fn install_steps_copy_rows_before_dropping_them() {
    assert_eq!(
        bring_back_statements(true, true),
        vec![
            InstallStatement::AddClaimShard,
            InstallStatement::AddClaimDeadline,
            InstallStatement::CopyClaims,
            InstallStatement::DropClaimsAside,
            InstallStatement::CopyClosures,
            InstallStatement::DropClosuresAside,
        ]
    );
    assert_eq!(bring_back_statements(false, false), vec![]);
    let fresh = build_statements(&None, &None);
    assert!(!fresh.contains(&InstallStatement::SetClaimsAside));
    assert!(!fresh.contains(&InstallStatement::SetClosuresAside));
    let flat = build_statements(&Some("r".to_string()), &Some("p".to_string()));
    assert!(flat.contains(&InstallStatement::SetClaimsAside));
    assert!(!flat.contains(&InstallStatement::SetClosuresAside));
    assert_eq!(
        InstallStatement::CreateSchema.sql("custom"),
        "CREATE SCHEMA IF NOT EXISTS custom"
    );
}

#[test]
fn install_refuses_populated_open_claims() {
    assert_eq!(retire_open_claims("s", None).unwrap(), vec![]);
    assert_eq!(
        retire_open_claims("s", Some(0)).unwrap(),
        vec![InstallStatement::DropOpenReceiptClaims]
    );
    assert!(retire_open_claims("s", Some(2)).is_err());
    assert!(check_activated(1).is_ok());
    assert!(check_activated(0).is_err());
}

#[test]
fn advisory_locks_are_named_by_schema() {
    assert!(install_lock_name("custom").contains("custom"));
    assert!(rebuild_lock_name("custom").contains("custom"));
    assert_ne!(install_lock_name("custom"), rebuild_lock_name("custom"));
    assert_ne!(
        lane_lock_key("s", "q", 1, 2),
        lane_lock_key("s", "q", 2, 1)
    );
}
