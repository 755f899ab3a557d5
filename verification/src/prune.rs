//! Pruning: which questions a prune pass asks the database, in which order, and
//! what it makes of the replies.
use crate::clock::Span;
use crate::error::AwaError;
use crate::ring;
use crate::ring::LockReply;
use crate::ring::PruneOutcome;
use crate::ring::RingState;
use crate::ring::SkipReason;
use vstd::prelude::*;

verus! {

/// What the database replied to a prune pass.
#[derive(Debug)]
pub enum Reply {
    /// The oldest sealed slot of the queue ring and its generation, if any.
    Target(Option<(i32, i64)>),
    /// The cursor of the ring.
    Ring(RingState),
    /// Whether there is such a row.
    Found(bool),
    /// What a lock or truncate statement came to.
    Lock(LockReply),
    /// The current slot of the ring.
    CurrentSlot(i32),
    /// How many rows a statement wrote.
    Rows(u64),
    /// The closing statements went through.
    Settled,
}

/// Where a pass stands after a reply.
#[derive(Debug)]
pub enum Step<S> {
    /// It asks on.
    Ask(S),
    /// It is over.
    Done(PruneOutcome),
    /// It failed, and rolls back.
    Failed(AwaError),
}

pub open spec fn skip(slot: i32, reason: SkipReason) -> PruneOutcome {
    PruneOutcome::SkippedActive { slot, reason, count: 1 }
}

/// A slot of the queue ring, with the generation it held when it was chosen.
#[derive(Debug, Clone, Copy, PartialEq, Eq, Structural)]
pub struct Sealed {
    pub slot: i32,
    pub generation: i64,
}

/// The question that a queue prune asks next. The three gates are asked before
/// the lock and, because they were a snapshot only, once more behind it.
#[derive(Debug, Clone, Copy, PartialEq, Eq, Structural)]
pub enum QueuePruneStage {
    /// Which slot is the oldest sealed one?
    Locate,
    /// Does a lease point at the slot's generation?
    Leases { target: Sealed, locked: bool },
    /// Does the slot hold ready rows without terminal evidence?
    Pending { target: Sealed, locked: bool },
    /// Does a receipt claim still need evidence in the slot?
    Unclosed { target: Sealed, locked: bool },
    /// Lock the slot's children.
    Lock { target: Sealed },
    /// Move failed rows inside the retention floor to the live segment.
    Carry { target: Sealed },
    /// Sum up the terminal rows and truncate the slot's children.
    Truncate { target: Sealed, carried: u64 },
    /// Fold the sums into the permanent rollups and drop the live counters.
    Settle { target: Sealed, carried: u64 },
}

/// A prune pass over the queue ring.
#[derive(Debug, Clone, Copy, PartialEq, Eq, Structural)]
pub struct QueuePrune {
    /// The retention floor of failed rows, in whole seconds; zero for none.
    pub retention_secs: i64,
    pub stage: QueuePruneStage,
}

impl QueuePrune {
    pub open spec fn at(self, stage: QueuePruneStage) -> QueuePrune {
        QueuePrune { retention_secs: self.retention_secs, stage }
    }

    /// The retention floor in the seconds that the database can hold.
    pub open spec fn floor_of(failed_retention: Span) -> int {
        if failed_retention.secs > i64::MAX {
            i64::MAX as int
        } else {
            failed_retention.secs as int
        }
    }

    /// A pass before its first question.
    pub fn start(failed_retention: &Span) -> (r: QueuePrune)
        ensures
            r.stage == QueuePruneStage::Locate,
            r.retention_secs == QueuePrune::floor_of(*failed_retention),
    {
        let retention_secs: i64 = if failed_retention.secs > 0x7fff_ffff_ffff_ffff {
            i64::MAX
        } else {
            failed_retention.secs as i64
        };
        QueuePrune { retention_secs, stage: QueuePruneStage::Locate }
    }

    /// The reply answers the question.
    pub open spec fn fits(self, reply: Reply) -> bool {
        match self.stage {
            QueuePruneStage::Locate => reply is Target,
            QueuePruneStage::Leases { .. } => reply is Found,
            QueuePruneStage::Pending { .. } => reply is Found,
            QueuePruneStage::Unclosed { .. } => reply is Found,
            QueuePruneStage::Lock { .. } => reply is Lock,
            QueuePruneStage::Carry { .. } => reply is Rows,
            QueuePruneStage::Truncate { .. } => reply is Lock,
            QueuePruneStage::Settle { .. } => reply is Settled,
        }
    }

    /// A gate: rows in its way end the pass, else it goes on.
    pub open spec fn gate(
        self,
        target: Sealed,
        reason: SkipReason,
        reply: Reply,
        onward: QueuePruneStage,
    ) -> Step<QueuePrune> {
        if reply->Found_0 {
            Step::Done(skip(target.slot, reason))
        } else {
            Step::Ask(self.at(onward))
        }
    }

    /// A statement that may meet contention.
    pub open spec fn locking(self, target: Sealed, reply: Reply, onward: QueuePruneStage) -> Step<
        QueuePrune,
    > {
        match reply->Lock_0 {
            LockReply::Taken => Step::Ask(self.at(onward)),
            LockReply::Contended => Step::Done(PruneOutcome::Blocked { slot: target.slot }),
            LockReply::Failed(err) => Step::Failed(err),
        }
    }

    /// The stage behind the gates.
    pub open spec fn cleared(self, target: Sealed, locked: bool) -> QueuePruneStage {
        if !locked {
            QueuePruneStage::Lock { target }
        } else if self.retention_secs > 0 {
            QueuePruneStage::Carry { target }
        } else {
            QueuePruneStage::Truncate { target, carried: 0 }
        }
    }

    /// Where the reply leads.
    pub open spec fn next(self, reply: Reply) -> Step<QueuePrune> {
        match self.stage {
            QueuePruneStage::Locate => match reply->Target_0 {
                None => Step::Done(PruneOutcome::Noop),
                Some((slot, generation)) => Step::Ask(
                    self.at(
                        QueuePruneStage::Leases {
                            target: Sealed { slot, generation },
                            locked: false,
                        },
                    ),
                ),
            },
            QueuePruneStage::Leases { target, locked } => self.gate(
                target,
                SkipReason::QueueActiveLeases,
                reply,
                QueuePruneStage::Pending { target, locked },
            ),
            QueuePruneStage::Pending { target, locked } => self.gate(
                target,
                SkipReason::QueuePendingReady,
                reply,
                QueuePruneStage::Unclosed { target, locked },
            ),
            QueuePruneStage::Unclosed { target, locked } => self.gate(
                target,
                SkipReason::QueueUnclosedClaimRefs,
                reply,
                self.cleared(target, locked),
            ),
            QueuePruneStage::Lock { target } => self.locking(
                target,
                reply,
                QueuePruneStage::Leases { target, locked: true },
            ),
            QueuePruneStage::Carry { target } => Step::Ask(
                self.at(QueuePruneStage::Truncate { target, carried: reply->Rows_0 }),
            ),
            QueuePruneStage::Truncate { target, carried } => self.locking(
                target,
                reply,
                QueuePruneStage::Settle { target, carried },
            ),
            QueuePruneStage::Settle { target, carried } => Step::Done(
                PruneOutcome::Pruned { slot: target.slot, carried_failed_rows: carried },
            ),
        }
    }

    /// A bound on the questions that are left.
    pub open spec fn remaining(self) -> nat {
        match self.stage {
            QueuePruneStage::Locate => 11,
            QueuePruneStage::Leases { locked, .. } => if locked {
                6
            } else {
                10
            },
            QueuePruneStage::Pending { locked, .. } => if locked {
                5
            } else {
                9
            },
            QueuePruneStage::Unclosed { locked, .. } => if locked {
                4
            } else {
                8
            },
            QueuePruneStage::Lock { .. } => 7,
            QueuePruneStage::Carry { .. } => 3,
            QueuePruneStage::Truncate { .. } => 2,
            QueuePruneStage::Settle { .. } => 1,
        }
    }

    /// Takes a reply.
    pub fn step(self, reply: Reply) -> (r: Step<QueuePrune>)
        requires
            self.fits(reply),
        ensures
            r == self.next(reply),
            r matches Step::Ask(onward) ==> onward.remaining() < self.remaining(),
    {
        let retention_secs: i64 = self.retention_secs;
        match (self.stage, reply) {
            (QueuePruneStage::Locate, Reply::Target(found)) => match found {
                None => Step::Done(PruneOutcome::Noop),
                Some((slot, generation)) => Step::Ask(
                    QueuePrune {
                        retention_secs,
                        stage: QueuePruneStage::Leases {
                            target: Sealed { slot, generation },
                            locked: false,
                        },
                    },
                ),
            },
            (QueuePruneStage::Leases { target, locked }, Reply::Found(busy)) => gate(
                retention_secs,
                target,
                SkipReason::QueueActiveLeases,
                busy,
                QueuePruneStage::Pending { target, locked },
            ),
            (QueuePruneStage::Pending { target, locked }, Reply::Found(busy)) => gate(
                retention_secs,
                target,
                SkipReason::QueuePendingReady,
                busy,
                QueuePruneStage::Unclosed { target, locked },
            ),
            (QueuePruneStage::Unclosed { target, locked }, Reply::Found(busy)) => {
                let onward = if !locked {
                    QueuePruneStage::Lock { target }
                } else if retention_secs > 0 {
                    QueuePruneStage::Carry { target }
                } else {
                    QueuePruneStage::Truncate { target, carried: 0 }
                };
                gate(retention_secs, target, SkipReason::QueueUnclosedClaimRefs, busy, onward)
            },
            (QueuePruneStage::Lock { target }, Reply::Lock(lock)) => locking(
                retention_secs,
                target,
                lock,
                QueuePruneStage::Leases { target, locked: true },
            ),
            (QueuePruneStage::Carry { target }, Reply::Rows(carried)) => Step::Ask(
                QueuePrune { retention_secs, stage: QueuePruneStage::Truncate { target, carried } },
            ),
            (QueuePruneStage::Truncate { target, carried }, Reply::Lock(lock)) => locking(
                retention_secs,
                target,
                lock,
                QueuePruneStage::Settle { target, carried },
            ),
            (QueuePruneStage::Settle { target, carried }, _) => Step::Done(
                PruneOutcome::Pruned { slot: target.slot, carried_failed_rows: carried },
            ),
            _ => Step::Done(PruneOutcome::Noop),
        }
    }
}

fn gate(
    retention_secs: i64,
    target: Sealed,
    reason: SkipReason,
    busy: bool,
    onward: QueuePruneStage,
) -> (r: Step<QueuePrune>)
    ensures
        r == (if busy {
            Step::Done(skip(target.slot, reason))
        } else {
            Step::Ask(QueuePrune { retention_secs, stage: onward })
        }),
{
    if busy {
        Step::Done(
            PruneOutcome::SkippedActive {
                slot: target.slot,
                reason,
                count: ring::busy_indicator(busy),
            },
        )
    } else {
        Step::Ask(QueuePrune { retention_secs, stage: onward })
    }
}

fn locking(retention_secs: i64, target: Sealed, lock: LockReply, onward: QueuePruneStage) -> (r:
    Step<QueuePrune>)
    ensures
        r == (match lock {
            LockReply::Taken => Step::Ask(QueuePrune { retention_secs, stage: onward }),
            LockReply::Contended => Step::Done(PruneOutcome::Blocked { slot: target.slot }),
            LockReply::Failed(err) => Step::Failed(err),
        }),
{
    match lock {
        LockReply::Taken => Step::Ask(QueuePrune { retention_secs, stage: onward }),
        LockReply::Contended => Step::Done(PruneOutcome::Blocked { slot: target.slot }),
        LockReply::Failed(err) => Step::Failed(err),
    }
}

/// Where a pass stands after a list of replies; nothing when a reply does not
/// answer the question, or comes after the end.
pub open spec fn queue_run(prune: QueuePrune, replies: Seq<Reply>) -> Option<Step<QueuePrune>>
    decreases replies.len(),
{
    if replies.len() == 0 {
        Some(Step::Ask(prune))
    } else if !prune.fits(replies[0]) {
        None
    } else {
        match prune.next(replies[0]) {
            Step::Ask(onward) => queue_run(onward, replies.skip(1)),
            ending => if replies.len() == 1 {
                Some(ending)
            } else {
                None
            },
        }
    }
}

/// The three gates were found clear, at this place of the replies.
pub open spec fn gates_clear(replies: Seq<Reply>, at: int) -> bool {
    &&& replies[at] == Reply::Found(false)
    &&& replies[at + 1] == Reply::Found(false)
    &&& replies[at + 2] == Reply::Found(false)
}

/// The steps of a pass from the gates on.
proof fn lemma_gates(prune: QueuePrune, replies: Seq<Reply>, target: Sealed, locked: bool)
    requires
        prune.stage == (QueuePruneStage::Leases { target, locked }),
        queue_run(prune, replies) matches Some(Step::Done(PruneOutcome::Pruned { .. })),
    ensures
        replies.len() > 3,
        gates_clear(replies, 0),
        queue_run(prune, replies) == queue_run(
            prune.at(prune.cleared(target, locked)),
            replies.skip(3),
        ),
{
    let second = prune.at(QueuePruneStage::Pending { target, locked });
    let third = prune.at(QueuePruneStage::Unclosed { target, locked });
    let onward = prune.at(prune.cleared(target, locked));
    let after_one = replies.skip(1);
    let after_two = after_one.skip(1);
    assert(queue_run(prune, replies) == queue_run(second, after_one));
    assert(queue_run(second, after_one) == queue_run(third, after_two));
    assert(queue_run(third, after_two) == queue_run(onward, after_two.skip(1)));
    assert(after_two.skip(1) =~= replies.skip(3));
    assert(after_one[0] == replies[1] && after_two[0] == replies[2]);
    assert(replies.skip(3).len() > 0) by {
        if replies.skip(3).len() == 0 {
            assert(queue_run(onward, replies.skip(3)) == Some(Step::Ask(onward)));
        }
    }
}

/// A slot is pruned only when it was found drained twice, before its children
/// were locked and again behind the lock, and when the truncate went through.
/// Rows are carried over only under a retention floor.
pub proof fn law_pruned_slot_was_drained(prune: QueuePrune, replies: Seq<Reply>, slot: i32, carried: u64)
    requires
        prune.stage == QueuePruneStage::Locate,
        queue_run(prune, replies) == Some(
            Step::<QueuePrune>::Done(PruneOutcome::Pruned { slot, carried_failed_rows: carried }),
        ),
    ensures
        replies.len() == (if prune.retention_secs > 0 {
            11int
        } else {
            10
        }),
        replies[0] matches Reply::Target(Some((found, generation))) && found == slot,
        gates_clear(replies, 1),
        replies[4] == Reply::Lock(LockReply::Taken),
        gates_clear(replies, 5),
        prune.retention_secs > 0 ==> replies[8] == Reply::Rows(carried),
        prune.retention_secs <= 0 ==> carried == 0,
        replies[replies.len() - 2] == Reply::Lock(LockReply::Taken),
        replies.last() is Settled,
{
    assert(replies.len() > 0);
    assert(prune.fits(replies[0]));
    let (found, generation) = replies[0]->Target_0->Some_0;
    let target = Sealed { slot: found, generation };
    let first = prune.at(QueuePruneStage::Leases { target, locked: false });
    let from_one = replies.skip(1);
    assert(queue_run(prune, replies) == queue_run(first, from_one));
    lemma_gates(first, from_one, target, false);
    let lock = prune.at(QueuePruneStage::Lock { target });
    let from_four = from_one.skip(3);
    assert(from_four =~= replies.skip(4));
    let again = prune.at(QueuePruneStage::Leases { target, locked: true });
    let from_five = from_four.skip(1);
    assert(queue_run(lock, from_four) == queue_run(again, from_five));
    assert(from_five =~= replies.skip(5));
    lemma_gates(again, from_five, target, true);
    let from_eight = from_five.skip(3);
    assert(from_eight =~= replies.skip(8));
    let cleared = again.at(again.cleared(target, true));
    if prune.retention_secs > 0 {
        let truncate = prune.at(
            QueuePruneStage::Truncate { target, carried: from_eight[0]->Rows_0 },
        );
        assert(queue_run(cleared, from_eight) == queue_run(truncate, from_eight.skip(1)));
        assert(from_eight.skip(1) =~= replies.skip(9));
        lemma_tail(truncate, replies.skip(9), target, from_eight[0]->Rows_0);
    } else {
        lemma_tail(cleared, from_eight, target, 0);
    }
}

proof fn lemma_tail(prune: QueuePrune, replies: Seq<Reply>, target: Sealed, carried: u64)
    requires
        prune.stage == (QueuePruneStage::Truncate { target, carried }),
        queue_run(prune, replies) matches Some(Step::Done(PruneOutcome::Pruned { .. })),
    ensures
        replies.len() == 2,
        replies[0] == Reply::Lock(LockReply::Taken),
        replies[1] is Settled,
        queue_run(prune, replies) == Some(
            Step::<QueuePrune>::Done(
                PruneOutcome::Pruned { slot: target.slot, carried_failed_rows: carried },
            ),
        ),
{
    let settle = prune.at(QueuePruneStage::Settle { target, carried });
    assert(replies.len() > 0);
    assert(queue_run(prune, replies) == queue_run(settle, replies.skip(1)));
    assert(replies.skip(1).len() > 0);
    assert(replies.skip(1)[0] == replies[1]);
}

/// The two rings whose slots hold attempts.
#[derive(Debug, Clone, Copy, PartialEq, Eq, Structural)]
pub enum AttemptRing {
    Lease,
    Claim,
}

impl AttemptRing {
    /// Why a prune stays away from the current slot.
    pub open spec fn current_reason(self) -> SkipReason {
        match self {
            AttemptRing::Lease => SkipReason::LeaseCurrent,
            AttemptRing::Claim => SkipReason::ClaimCurrent,
        }
    }

    /// Why a prune stays away from a slot with live attempts.
    pub open spec fn live_reason(self) -> SkipReason {
        match self {
            AttemptRing::Lease => SkipReason::LeaseActive,
            AttemptRing::Claim => SkipReason::ClaimOpen,
        }
    }
}

/// The question that a prune of the lease or the claim ring asks next.
#[derive(Debug, Clone, Copy, PartialEq, Eq, Structural)]
pub enum AttemptPruneStage {
    /// Where does the ring stand?
    Oldest,
    /// Lock the slot's row: is there one?
    SlotRow { slot: i32 },
    /// Does the slot hold live attempts: leases, or claims without closure
    /// evidence? The claim ring is asked before the lock too.
    Live { slot: i32, locked: bool },
    /// Lock the slot's children.
    Lock { slot: i32 },
    /// Which slot is the current one?
    Current { slot: i32 },
    /// Truncate the slot's children.
    Truncate { slot: i32 },
    /// Claim ring: reset the slot's rescue and deadline cursors.
    Settle { slot: i32 },
}

/// A prune pass over the lease or the claim ring.
#[derive(Debug, Clone, Copy, PartialEq, Eq, Structural)]
pub struct AttemptPrune {
    pub ring: AttemptRing,
    pub stage: AttemptPruneStage,
}

pub open spec fn emptied(slot: i32) -> PruneOutcome {
    PruneOutcome::Pruned { slot, carried_failed_rows: 0 }
}

impl AttemptPrune {
    pub open spec fn at(self, stage: AttemptPruneStage) -> AttemptPrune {
        AttemptPrune { ring: self.ring, stage }
    }

    /// A pass before its first question.
    pub fn start(ring: AttemptRing) -> (r: AttemptPrune)
        ensures
            r == (AttemptPrune { ring, stage: AttemptPruneStage::Oldest }),
    {
        AttemptPrune { ring, stage: AttemptPruneStage::Oldest }
    }

    /// The reply answers the question.
    pub open spec fn fits(self, reply: Reply) -> bool {
        match self.stage {
            AttemptPruneStage::Oldest => reply is Ring,
            AttemptPruneStage::SlotRow { .. } => reply is Found,
            AttemptPruneStage::Live { .. } => reply is Found,
            AttemptPruneStage::Lock { .. } => reply is Lock,
            AttemptPruneStage::Current { .. } => reply is CurrentSlot,
            AttemptPruneStage::Truncate { .. } => reply is Lock,
            AttemptPruneStage::Settle { .. } => reply is Settled,
        }
    }

    /// The first question about a slot that has a row.
    pub open spec fn opening(self, slot: i32) -> AttemptPruneStage {
        match self.ring {
            AttemptRing::Lease => AttemptPruneStage::Lock { slot },
            AttemptRing::Claim => AttemptPruneStage::Live { slot, locked: false },
        }
    }

    /// Where the reply leads.
    pub open spec fn next(self, reply: Reply) -> Step<AttemptPrune> {
        match self.stage {
            AttemptPruneStage::Oldest => {
                let state = reply->Ring_0;
                match ring::oldest_slot(state.current_slot, state.generation, state.slot_count) {
                    None => Step::Done(PruneOutcome::Noop),
                    Some((slot, _)) => Step::Ask(
                        self.at(AttemptPruneStage::SlotRow { slot: slot as i32 }),
                    ),
                }
            },
            AttemptPruneStage::SlotRow { slot } => if reply->Found_0 {
                Step::Ask(self.at(self.opening(slot)))
            } else {
                Step::Done(PruneOutcome::Noop)
            },
            AttemptPruneStage::Live { slot, locked } => if reply->Found_0 {
                Step::Done(skip(slot, self.ring.live_reason()))
            } else if locked {
                Step::Ask(self.at(AttemptPruneStage::Truncate { slot }))
            } else {
                Step::Ask(self.at(AttemptPruneStage::Lock { slot }))
            },
            AttemptPruneStage::Lock { slot } => match reply->Lock_0 {
                LockReply::Taken => Step::Ask(self.at(AttemptPruneStage::Current { slot })),
                LockReply::Contended => Step::Done(PruneOutcome::Blocked { slot }),
                LockReply::Failed(err) => Step::Failed(err),
            },
            AttemptPruneStage::Current { slot } => if reply->CurrentSlot_0 == slot {
                Step::Done(
                    PruneOutcome::SkippedActive {
                        slot,
                        reason: self.ring.current_reason(),
                        count: 0,
                    },
                )
            } else {
                Step::Ask(self.at(AttemptPruneStage::Live { slot, locked: true }))
            },
            AttemptPruneStage::Truncate { slot } => match reply->Lock_0 {
                LockReply::Taken => match self.ring {
                    AttemptRing::Lease => Step::Done(emptied(slot)),
                    AttemptRing::Claim => Step::Ask(self.at(AttemptPruneStage::Settle { slot })),
                },
                LockReply::Contended => Step::Done(PruneOutcome::Blocked { slot }),
                LockReply::Failed(err) => Step::Failed(err),
            },
            AttemptPruneStage::Settle { slot } => Step::Done(emptied(slot)),
        }
    }

    /// A bound on the questions that are left.
    pub open spec fn remaining(self) -> nat {
        match self.stage {
            AttemptPruneStage::Oldest => 8,
            AttemptPruneStage::SlotRow { .. } => 7,
            AttemptPruneStage::Live { locked, .. } => if locked {
                3
            } else {
                6
            },
            AttemptPruneStage::Lock { .. } => 5,
            AttemptPruneStage::Current { .. } => 4,
            AttemptPruneStage::Truncate { .. } => 2,
            AttemptPruneStage::Settle { .. } => 1,
        }
    }

    /// Takes a reply.
    pub fn step(self, reply: Reply) -> (r: Step<AttemptPrune>)
        requires
            self.fits(reply),
        ensures
            r == self.next(reply),
            r matches Step::Ask(onward) ==> onward.remaining() < self.remaining(),
    {
        let ring = self.ring;
        match (self.stage, reply) {
            (AttemptPruneStage::Oldest, Reply::Ring(state)) => {
                match ring::oldest_initialized_ring_slot(
                    state.current_slot,
                    state.generation,
                    state.slot_count,
                ) {
                    None => Step::Done(PruneOutcome::Noop),
                    Some((slot, _)) => Step::Ask(
                        AttemptPrune { ring, stage: AttemptPruneStage::SlotRow { slot } },
                    ),
                }
            },
            (AttemptPruneStage::SlotRow { slot }, Reply::Found(found)) => {
                if !found {
                    return Step::Done(PruneOutcome::Noop);
                }
                let stage = match ring {
                    AttemptRing::Lease => AttemptPruneStage::Lock { slot },
                    AttemptRing::Claim => AttemptPruneStage::Live { slot, locked: false },
                };
                Step::Ask(AttemptPrune { ring, stage })
            },
            (AttemptPruneStage::Live { slot, locked }, Reply::Found(live)) => {
                if live {
                    let reason = match ring {
                        AttemptRing::Lease => SkipReason::LeaseActive,
                        AttemptRing::Claim => SkipReason::ClaimOpen,
                    };
                    let count: i64 = ring::busy_indicator(live);
                    return Step::Done(PruneOutcome::SkippedActive { slot, reason, count });
                }
                let stage = if locked {
                    AttemptPruneStage::Truncate { slot }
                } else {
                    AttemptPruneStage::Lock { slot }
                };
                Step::Ask(AttemptPrune { ring, stage })
            },
            (AttemptPruneStage::Lock { slot }, Reply::Lock(lock)) => match lock {
                LockReply::Taken => Step::Ask(
                    AttemptPrune { ring, stage: AttemptPruneStage::Current { slot } },
                ),
                LockReply::Contended => Step::Done(PruneOutcome::Blocked { slot }),
                LockReply::Failed(err) => Step::Failed(err),
            },
            (AttemptPruneStage::Current { slot }, Reply::CurrentSlot(current)) => {
                if current == slot {
                    let reason = match ring {
                        AttemptRing::Lease => SkipReason::LeaseCurrent,
                        AttemptRing::Claim => SkipReason::ClaimCurrent,
                    };
                    return Step::Done(PruneOutcome::SkippedActive { slot, reason, count: 0 });
                }
                Step::Ask(
                    AttemptPrune { ring, stage: AttemptPruneStage::Live { slot, locked: true } },
                )
            },
            (AttemptPruneStage::Truncate { slot }, Reply::Lock(lock)) => match lock {
                LockReply::Taken => match ring {
                    AttemptRing::Lease => Step::Done(
                        PruneOutcome::Pruned { slot, carried_failed_rows: 0 },
                    ),
                    AttemptRing::Claim => Step::Ask(
                        AttemptPrune { ring, stage: AttemptPruneStage::Settle { slot } },
                    ),
                },
                LockReply::Contended => Step::Done(PruneOutcome::Blocked { slot }),
                LockReply::Failed(err) => Step::Failed(err),
            },
            (AttemptPruneStage::Settle { slot }, _) => Step::Done(
                PruneOutcome::Pruned { slot, carried_failed_rows: 0 },
            ),
            _ => Step::Done(PruneOutcome::Noop),
        }
    }
}

/// Where a pass stands after a list of replies.
pub open spec fn attempt_run(prune: AttemptPrune, replies: Seq<Reply>) -> Option<
    Step<AttemptPrune>,
>
    decreases replies.len(),
{
    if replies.len() == 0 {
        Some(Step::Ask(prune))
    } else if !prune.fits(replies[0]) {
        None
    } else {
        match prune.next(replies[0]) {
            Step::Ask(onward) => attempt_run(onward, replies.skip(1)),
            ending => if replies.len() == 1 {
                Some(ending)
            } else {
                None
            },
        }
    }
}

/// A pass that holds the lock prunes only when the slot is not the current one,
/// when it was found without live attempts, and when the truncate went through.
proof fn lemma_attempt_tail(prune: AttemptPrune, replies: Seq<Reply>, slot: i32)
    requires
        prune.stage == (AttemptPruneStage::Lock { slot }),
        attempt_run(prune, replies) matches Some(Step::Done(PruneOutcome::Pruned { .. })),
    ensures
        attempt_run(prune, replies) == Some(Step::<AttemptPrune>::Done(emptied(slot))),
        replies.len() >= 4,
        replies[0] == Reply::Lock(LockReply::Taken),
        replies[1] matches Reply::CurrentSlot(current) && current != slot,
        replies[2] == Reply::Found(false),
        replies[3] == Reply::Lock(LockReply::Taken),
{
    let current = prune.at(AttemptPruneStage::Current { slot });
    let live = prune.at(AttemptPruneStage::Live { slot, locked: true });
    let truncate = prune.at(AttemptPruneStage::Truncate { slot });
    let settle = prune.at(AttemptPruneStage::Settle { slot });
    let from_one = replies.skip(1);
    let from_two = from_one.skip(1);
    let from_three = from_two.skip(1);
    assert(attempt_run(prune, replies) == attempt_run(current, from_one));
    assert(from_one[0] == replies[1]);
    assert(attempt_run(current, from_one) == attempt_run(live, from_two));
    assert(from_two[0] == replies[2]);
    assert(attempt_run(live, from_two) == attempt_run(truncate, from_three));
    assert(from_three.len() > 0);
    assert(from_three[0] == replies[3]);
    if prune.ring == AttemptRing::Claim {
        assert(attempt_run(truncate, from_three) == attempt_run(settle, from_three.skip(1)));
    }
}

/// A lease or claim slot is pruned only when it is the oldest of its ring, is
/// not the current slot behind the lock, and holds no live attempt there; a
/// claim slot had none before the lock either.
pub proof fn law_pruned_attempts_were_drained(
    ring: AttemptRing,
    replies: Seq<Reply>,
    slot: i32,
    carried: u64,
)
    requires
        attempt_run(AttemptPrune { ring, stage: AttemptPruneStage::Oldest }, replies) == Some(
            Step::<AttemptPrune>::Done(PruneOutcome::Pruned { slot, carried_failed_rows: carried }),
        ),
    ensures
        carried == 0,
        replies[0] matches Reply::Ring(state) && (ring::oldest_slot(
            state.current_slot,
            state.generation,
            state.slot_count,
        ) matches Some((oldest, _)) && oldest == slot),
        replies[1] == Reply::Found(true),
        ring == AttemptRing::Claim ==> replies[2] == Reply::Found(false),
        ({
            let at: int = if ring == AttemptRing::Claim {
                3
            } else {
                2
            };
            &&& replies.len() >= at + 4
            &&& replies[at] == Reply::Lock(LockReply::Taken)
            &&& replies[at + 1] matches Reply::CurrentSlot(current) && current != slot
            &&& replies[at + 2] == Reply::Found(false)
            &&& replies[at + 3] == Reply::Lock(LockReply::Taken)
        }),
{
    let prune = AttemptPrune { ring, stage: AttemptPruneStage::Oldest };
    assert(replies.len() > 0);
    let state = replies[0]->Ring_0;
    let (oldest, at) = ring::oldest_slot(
        state.current_slot,
        state.generation,
        state.slot_count,
    )->Some_0;
    assert(0 <= oldest < state.slot_count) by {
        vstd::arithmetic::div_mod::lemma_mod_bound(
            state.current_slot - (state.generation - at),
            state.slot_count as int,
        );
    }
    let found: i32 = oldest as i32;
    let row = prune.at(AttemptPruneStage::SlotRow { slot: found });
    let from_one = replies.skip(1);
    assert(attempt_run(prune, replies) == attempt_run(row, from_one));
    assert(from_one.len() > 0);
    assert(from_one[0] == replies[1]);
    let from_two = from_one.skip(1);
    assert(from_two =~= replies.skip(2));
    let opening = prune.at(prune.opening(found));
    assert(attempt_run(row, from_one) == attempt_run(opening, from_two));
    let lock = prune.at(AttemptPruneStage::Lock { slot: found });
    if ring == AttemptRing::Claim {
        let from_three = from_two.skip(1);
        assert(from_three =~= replies.skip(3));
        assert(from_two.len() > 0);
        assert(attempt_run(opening, from_two) == attempt_run(lock, from_three));
        lemma_attempt_tail(lock, from_three, found);
    } else {
        lemma_attempt_tail(lock, from_two, found);
    }
}

} // verus!
