//! Folding terminal-count deltas of sealed queue slots into the live counters.
use crate::error::AwaError;
use crate::ring::LockReply;
use vstd::prelude::*;

verus! {

/// What a rollup pass came to.
#[derive(Debug, Clone, Copy, PartialEq, Eq, Structural)]
pub struct TerminalDeltaRollupOutcome {
    pub rolled_slots: usize,
    pub delta_rows: i64,
    pub grouped_keys: i64,
    pub skipped_active_slots: usize,
    pub blocked_slots: usize,
    pub skipped_mvcc_pinned: bool,
}

impl TerminalDeltaRollupOutcome {
    pub open spec fn nothing() -> TerminalDeltaRollupOutcome {
        TerminalDeltaRollupOutcome {
            rolled_slots: 0,
            delta_rows: 0,
            grouped_keys: 0,
            skipped_active_slots: 0,
            blocked_slots: 0,
            skipped_mvcc_pinned: false,
        }
    }
}

impl Default for TerminalDeltaRollupOutcome {
    fn default() -> (r: TerminalDeltaRollupOutcome)
        ensures
            r == TerminalDeltaRollupOutcome::nothing(),
    {
        TerminalDeltaRollupOutcome {
            rolled_slots: 0,
            delta_rows: 0,
            grouped_keys: 0,
            skipped_active_slots: 0,
            blocked_slots: 0,
            skipped_mvcc_pinned: false,
        }
    }
}

/// What the rollup of one slot came to.
#[derive(Debug, Clone, Copy, PartialEq, Eq, Structural)]
pub enum TerminalDeltaSlotRollup {
    Empty,
    Rolled { delta_rows: i64, grouped_keys: i64 },
    SkippedActive,
    SkippedMvccPinned,
    Blocked,
}

impl TerminalDeltaSlotRollup {
    /// Whether the slot's transaction ends with a commit.
    pub fn commits(&self) -> (r: bool)
        ensures
            r == !(*self is Blocked),
    {
        match self {
            TerminalDeltaSlotRollup::Blocked => false,
            _ => true,
        }
    }
}

/// The question that the rollup of a slot asks next.
#[derive(Debug, Clone, Copy, PartialEq, Eq, Structural)]
pub enum RollupStage {
    /// Which slot is current, and which generation does this slot hold?
    Locate,
    /// Does another backend pin the horizon?
    Horizon,
    /// Does the slot hold ready rows ahead of the claim cursors?
    Pending,
    /// Lock the slot's deltas.
    Lock,
    /// Does a lease point at the slot's generation?
    Leases,
    /// Does a receipt claim still need evidence in the slot?
    Unclosed,
    /// How many delta rows are there?
    Count,
    /// Fold the deltas, grouped by counter.
    Fold { delta_rows: i64 },
    /// Truncate the slot's deltas.
    Truncate { delta_rows: i64, grouped_keys: i64 },
}

/// What the database replied to the rollup of a slot.
#[derive(Debug)]
pub enum RollupReply {
    /// The current slot, and the generation that the slot holds if it exists.
    Located { current_slot: i32, slot_generation: Option<i64> },
    Found(bool),
    Lock(LockReply),
    Count(i64),
}

/// Where the rollup of a slot stands after a reply.
#[derive(Debug)]
pub enum RollupStep {
    Ask(SlotRollup),
    Done(TerminalDeltaSlotRollup),
    Failed(AwaError),
}

/// The rollup of one slot, as it was chosen: slot and generation.
#[derive(Debug, Clone, Copy, PartialEq, Eq, Structural)]
pub struct SlotRollup {
    pub slot: i32,
    pub generation: i64,
    pub stage: RollupStage,
}

impl SlotRollup {
    pub fn start(slot: i32, generation: i64) -> (r: SlotRollup)
        ensures
            r == (SlotRollup { slot, generation, stage: RollupStage::Locate }),
    {
        SlotRollup { slot, generation, stage: RollupStage::Locate }
    }

    /// The reply answers the question.
    pub open spec fn fits(self, reply: RollupReply) -> bool {
        match self.stage {
            RollupStage::Locate => reply is Located,
            RollupStage::Horizon => reply is Found,
            RollupStage::Pending => reply is Found,
            RollupStage::Lock => reply is Lock,
            RollupStage::Leases => reply is Found,
            RollupStage::Unclosed => reply is Found,
            RollupStage::Count => reply is Count,
            RollupStage::Fold { .. } => reply is Count,
            RollupStage::Truncate { .. } => reply is Lock,
        }
    }

    pub open spec fn at(self, stage: RollupStage) -> RollupStep {
        RollupStep::Ask(SlotRollup { slot: self.slot, generation: self.generation, stage })
    }

    /// A gate: a hit ends the rollup of the slot, else it goes on.
    pub open spec fn gate(
        self,
        reply: RollupReply,
        hit: TerminalDeltaSlotRollup,
        onward: RollupStage,
    ) -> RollupStep {
        if reply->Found_0 {
            RollupStep::Done(hit)
        } else {
            self.at(onward)
        }
    }

    /// Where the reply leads.
    pub open spec fn next(self, reply: RollupReply) -> RollupStep {
        match self.stage {
            RollupStage::Locate => match reply->slot_generation {
                None => RollupStep::Done(TerminalDeltaSlotRollup::Empty),
                Some(held) => if reply->current_slot == self.slot {
                    RollupStep::Done(TerminalDeltaSlotRollup::SkippedActive)
                } else if held != self.generation {
                    RollupStep::Done(TerminalDeltaSlotRollup::Empty)
                } else {
                    self.at(RollupStage::Horizon)
                },
            },
            RollupStage::Horizon => self.gate(
                reply,
                TerminalDeltaSlotRollup::SkippedMvccPinned,
                RollupStage::Pending,
            ),
            RollupStage::Pending => self.gate(
                reply,
                TerminalDeltaSlotRollup::SkippedActive,
                RollupStage::Lock,
            ),
            RollupStage::Lock => match reply->Lock_0 {
                LockReply::Taken => self.at(RollupStage::Leases),
                LockReply::Contended => RollupStep::Done(TerminalDeltaSlotRollup::Blocked),
                LockReply::Failed(err) => RollupStep::Failed(err),
            },
            RollupStage::Leases => self.gate(
                reply,
                TerminalDeltaSlotRollup::SkippedActive,
                RollupStage::Unclosed,
            ),
            RollupStage::Unclosed => self.gate(
                reply,
                TerminalDeltaSlotRollup::SkippedActive,
                RollupStage::Count,
            ),
            RollupStage::Count => if reply->Count_0 == 0 {
                RollupStep::Done(TerminalDeltaSlotRollup::Empty)
            } else {
                self.at(RollupStage::Fold { delta_rows: reply->Count_0 })
            },
            RollupStage::Fold { delta_rows } => self.at(
                RollupStage::Truncate { delta_rows, grouped_keys: reply->Count_0 },
            ),
            RollupStage::Truncate { delta_rows, grouped_keys } => match reply->Lock_0 {
                LockReply::Taken => RollupStep::Done(
                    TerminalDeltaSlotRollup::Rolled { delta_rows, grouped_keys },
                ),
                LockReply::Contended => RollupStep::Done(TerminalDeltaSlotRollup::Blocked),
                LockReply::Failed(err) => RollupStep::Failed(err),
            },
        }
    }

    /// A bound on the questions that are left.
    pub open spec fn remaining(self) -> nat {
        match self.stage {
            RollupStage::Locate => 9,
            RollupStage::Horizon => 8,
            RollupStage::Pending => 7,
            RollupStage::Lock => 6,
            RollupStage::Leases => 5,
            RollupStage::Unclosed => 4,
            RollupStage::Count => 3,
            RollupStage::Fold { .. } => 2,
            RollupStage::Truncate { .. } => 1,
        }
    }

    fn go(self, stage: RollupStage) -> (r: RollupStep)
        ensures
            r == self.at(stage),
    {
        RollupStep::Ask(SlotRollup { slot: self.slot, generation: self.generation, stage })
    }

    /// Takes a reply.
    pub fn step(self, reply: RollupReply) -> (r: RollupStep)
        requires
            self.fits(reply),
        ensures
            r == self.next(reply),
            r matches RollupStep::Ask(onward) ==> onward.remaining() < self.remaining(),
    {
        match (self.stage, reply) {
            (RollupStage::Locate, RollupReply::Located { current_slot, slot_generation }) => {
                match slot_generation {
                    None => RollupStep::Done(TerminalDeltaSlotRollup::Empty),
                    Some(held) => {
                        if current_slot == self.slot {
                            RollupStep::Done(TerminalDeltaSlotRollup::SkippedActive)
                        } else if held != self.generation {
                            RollupStep::Done(TerminalDeltaSlotRollup::Empty)
                        } else {
                            self.go(RollupStage::Horizon)
                        }
                    },
                }
            },
            (RollupStage::Horizon, RollupReply::Found(pinned)) => {
                if pinned {
                    RollupStep::Done(TerminalDeltaSlotRollup::SkippedMvccPinned)
                } else {
                    self.go(RollupStage::Pending)
                }
            },
            (RollupStage::Pending, RollupReply::Found(pending)) => {
                if pending {
                    RollupStep::Done(TerminalDeltaSlotRollup::SkippedActive)
                } else {
                    self.go(RollupStage::Lock)
                }
            },
            (RollupStage::Lock, RollupReply::Lock(lock)) => match lock {
                LockReply::Taken => self.go(RollupStage::Leases),
                LockReply::Contended => RollupStep::Done(TerminalDeltaSlotRollup::Blocked),
                LockReply::Failed(err) => RollupStep::Failed(err),
            },
            (RollupStage::Leases, RollupReply::Found(active)) => {
                if active {
                    RollupStep::Done(TerminalDeltaSlotRollup::SkippedActive)
                } else {
                    self.go(RollupStage::Unclosed)
                }
            },
            (RollupStage::Unclosed, RollupReply::Found(unclosed)) => {
                if unclosed {
                    RollupStep::Done(TerminalDeltaSlotRollup::SkippedActive)
                } else {
                    self.go(RollupStage::Count)
                }
            },
            (RollupStage::Count, RollupReply::Count(delta_rows)) => {
                if delta_rows == 0 {
                    RollupStep::Done(TerminalDeltaSlotRollup::Empty)
                } else {
                    self.go(RollupStage::Fold { delta_rows })
                }
            },
            (RollupStage::Fold { delta_rows }, RollupReply::Count(grouped_keys)) => self.go(
                RollupStage::Truncate { delta_rows, grouped_keys },
            ),
            (RollupStage::Truncate { delta_rows, grouped_keys }, RollupReply::Lock(lock)) =>
                match lock {
                    LockReply::Taken => RollupStep::Done(
                        TerminalDeltaSlotRollup::Rolled { delta_rows, grouped_keys },
                    ),
                    LockReply::Contended => RollupStep::Done(TerminalDeltaSlotRollup::Blocked),
                    LockReply::Failed(err) => RollupStep::Failed(err),
                },
            _ => RollupStep::Done(TerminalDeltaSlotRollup::Empty),
        }
    }
}

/// Where the rollup of a slot stands after a list of replies.
pub open spec fn rollup_run(rollup: SlotRollup, replies: Seq<RollupReply>) -> Option<RollupStep>
    decreases replies.len(),
{
    if replies.len() == 0 {
        Some(RollupStep::Ask(rollup))
    } else if !rollup.fits(replies[0]) {
        None
    } else {
        match rollup.next(replies[0]) {
            RollupStep::Ask(onward) => rollup_run(onward, replies.skip(1)),
            ending => if replies.len() == 1 {
                Some(ending)
            } else {
                None
            },
        }
    }
}

spec fn at(rollup: SlotRollup, stage: RollupStage) -> SlotRollup {
    SlotRollup { slot: rollup.slot, generation: rollup.generation, stage }
}

proof fn lemma_ask(rollup: SlotRollup, stage: RollupStage, onward: RollupStage, replies: Seq<RollupReply>, k: int)
    requires
        0 <= k < replies.len(),
        at(rollup, stage).fits(replies[k]),
        at(rollup, stage).next(replies[k]) == RollupStep::Ask(at(rollup, onward)),
    ensures
        rollup_run(at(rollup, stage), replies.skip(k)) == rollup_run(
            at(rollup, onward),
            replies.skip(k + 1),
        ),
{
    assert(replies.skip(k)[0] == replies[k]);
    assert(replies.skip(k).skip(1) =~= replies.skip(k + 1));
}

/// Deltas are folded only for a sealed slot: it is not the current one, it still
/// holds the generation it was chosen for, nothing pins the horizon, no ready
/// row is pending, and behind the lock no lease and no unclosed claim points at
/// it. What is reported is what was counted.
pub proof fn law_rolled_slot_was_sealed(
    rollup: SlotRollup,
    replies: Seq<RollupReply>,
    delta_rows: i64,
    grouped_keys: i64,
)
    requires
        rollup.stage == RollupStage::Locate,
        rollup_run(rollup, replies) == Some(
            RollupStep::Done(TerminalDeltaSlotRollup::Rolled { delta_rows, grouped_keys }),
        ),
    ensures
        replies.len() == 9,
        replies[0] matches RollupReply::Located { current_slot, slot_generation } && current_slot
            != rollup.slot && slot_generation == Some(rollup.generation),
        replies[1] == RollupReply::Found(false),
        replies[2] == RollupReply::Found(false),
        replies[3] == RollupReply::Lock(LockReply::Taken),
        replies[4] == RollupReply::Found(false),
        replies[5] == RollupReply::Found(false),
        replies[6] == RollupReply::Count(delta_rows) && delta_rows != 0,
        replies[7] == RollupReply::Count(grouped_keys),
        replies[8] == RollupReply::Lock(LockReply::Taken),
{
    assert(replies.skip(0) =~= replies);
    assert(replies.len() > 0);
    lemma_ask(rollup, RollupStage::Locate, RollupStage::Horizon, replies, 0);
    assert(replies.skip(1).len() > 0);
    lemma_one(at(rollup, RollupStage::Horizon), replies, 1);
    lemma_ask(rollup, RollupStage::Horizon, RollupStage::Pending, replies, 1);
    lemma_one(at(rollup, RollupStage::Pending), replies, 2);
    lemma_ask(rollup, RollupStage::Pending, RollupStage::Lock, replies, 2);
    lemma_one(at(rollup, RollupStage::Lock), replies, 3);
    lemma_ask(rollup, RollupStage::Lock, RollupStage::Leases, replies, 3);
    lemma_one(at(rollup, RollupStage::Leases), replies, 4);
    lemma_ask(rollup, RollupStage::Leases, RollupStage::Unclosed, replies, 4);
    lemma_one(at(rollup, RollupStage::Unclosed), replies, 5);
    lemma_ask(rollup, RollupStage::Unclosed, RollupStage::Count, replies, 5);
    lemma_one(at(rollup, RollupStage::Count), replies, 6);
    let rows = replies[6]->Count_0;
    let fold = RollupStage::Fold { delta_rows: rows };
    lemma_ask(rollup, RollupStage::Count, fold, replies, 6);
    lemma_one(at(rollup, fold), replies, 7);
    let truncate = RollupStage::Truncate { delta_rows: rows, grouped_keys: replies[7]->Count_0 };
    lemma_ask(rollup, fold, truncate, replies, 7);
    lemma_one(at(rollup, truncate), replies, 8);
}

/// A run that ends in a fold has a fitting reply at its front, and that reply
/// either ends the run or leads on.
proof fn lemma_one(rollup: SlotRollup, replies: Seq<RollupReply>, k: int)
    requires
        0 <= k <= replies.len(),
        rollup_run(rollup, replies.skip(k)) matches Some(
            RollupStep::Done(TerminalDeltaSlotRollup::Rolled { .. }),
        ),
    ensures
        k < replies.len(),
        rollup.fits(replies[k]),
        match rollup.next(replies[k]) {
            RollupStep::Ask(_) => true,
            ending => k + 1 == replies.len() && rollup_run(rollup, replies.skip(k)) == Some(ending),
        },
{
    assert(replies.skip(k).len() == replies.len() - k);
    if k < replies.len() {
        assert(replies.skip(k)[0] == replies[k]);
    }
}

/// The sealed slots whose number is a table's, with their generations, in the
/// order in which they were listed.
pub fn sealed_slots(slots: Vec<(i32, i64)>) -> (r: Vec<(i32, i64)>)
    ensures
        r@ == slots@.filter(|s: (i32, i64)| s.0 >= 0),
{
    let ghost all = slots@;
    let ghost named = |s: (i32, i64)| s.0 >= 0;
    let mut kept: Vec<(i32, i64)> = Vec::new();
    proof {
        reveal(Seq::filter);
        assert(all.subrange(0, 0).filter(named) =~= Seq::empty());
    }
    for slot in it: slots
        invariant
            it.seq() == all,
            named == (|s: (i32, i64)| s.0 >= 0),
            kept@ == all.subrange(0, it.index()).filter(named),
    {
        assert(slot == all[it.index()]);
        proof {
            reveal(Seq::filter);
            let next = all.subrange(0, it.index() + 1);
            assert(next.drop_last() =~= all.subrange(0, it.index()));
            assert(next.last() == slot);
        }
        if slot.0 >= 0 {
            kept.push(slot);
        }
    }
    assert(all.subrange(0, all.len() as int) =~= all);
    kept
}

/// A rollup pass over the slots with pending deltas.
#[derive(Debug)]
pub struct RollupPass {
    slots: Vec<(i32, i64)>,
    at: usize,
    max_slots: usize,
    outcome: TerminalDeltaRollupOutcome,
}

/// The outcome after one more slot.
pub open spec fn absorbed(
    outcome: TerminalDeltaRollupOutcome,
    slot: TerminalDeltaSlotRollup,
) -> TerminalDeltaRollupOutcome {
    match slot {
        TerminalDeltaSlotRollup::Empty => outcome,
        TerminalDeltaSlotRollup::Rolled { delta_rows, grouped_keys } =>
            TerminalDeltaRollupOutcome {
                rolled_slots: (outcome.rolled_slots + 1) as usize,
                delta_rows: (outcome.delta_rows + delta_rows) as i64,
                grouped_keys: (outcome.grouped_keys + grouped_keys) as i64,
                ..outcome
            },
        TerminalDeltaSlotRollup::SkippedActive => TerminalDeltaRollupOutcome {
            skipped_active_slots: (outcome.skipped_active_slots + 1) as usize,
            ..outcome
        },
        TerminalDeltaSlotRollup::SkippedMvccPinned => TerminalDeltaRollupOutcome {
            skipped_mvcc_pinned: true,
            ..outcome
        },
        TerminalDeltaSlotRollup::Blocked => TerminalDeltaRollupOutcome {
            blocked_slots: (outcome.blocked_slots + 1) as usize,
            ..outcome
        },
    }
}

impl RollupPass {
    #[verifier::type_invariant]
    spec fn wf(self) -> bool {
        &&& self.at <= self.slots@.len()
        &&& self.outcome.rolled_slots + self.outcome.skipped_active_slots
            + self.outcome.blocked_slots <= self.at
        &&& self.outcome.rolled_slots <= self.max_slots
    }

    pub closed spec fn targets(self) -> Seq<(i32, i64)> {
        self.slots@
    }

    /// How many slots the pass has been through.
    pub closed spec fn done(self) -> nat {
        self.at as nat
    }

    pub closed spec fn limit(self) -> nat {
        self.max_slots as nat
    }

    pub closed spec fn result(self) -> TerminalDeltaRollupOutcome {
        self.outcome
    }

    /// The pass goes on: there is a slot left, fewer than the limit were rolled,
    /// and nothing pins the horizon.
    pub open spec fn goes_on(self) -> bool {
        &&& self.done() < self.targets().len()
        &&& self.result().rolled_slots < self.limit()
        &&& !self.result().skipped_mvcc_pinned
    }

    pub fn new(slots: Vec<(i32, i64)>, max_slots: usize) -> (pass: RollupPass)
        ensures
            pass.targets() == slots@,
            pass.done() == 0,
            pass.limit() == max_slots,
            pass.result() == TerminalDeltaRollupOutcome::nothing(),
    {
        RollupPass { slots, at: 0, max_slots, outcome: TerminalDeltaRollupOutcome::default() }
    }

    /// The slot to roll up next, if the pass goes on.
    pub fn target(&self) -> (r: Option<(i32, i64)>)
        ensures
            r == (if self.goes_on() {
                Some(self.targets()[self.done() as int])
            } else {
                None
            }),
    {
        proof {
            use_type_invariant(self);
        }
        if self.at < self.slots.len() && self.outcome.rolled_slots < self.max_slots
            && !self.outcome.skipped_mvcc_pinned {
            Some(self.slots[self.at])
        } else {
            None
        }
    }

    /// Books what the rollup of the next slot came to.
    pub fn book(&mut self, slot: TerminalDeltaSlotRollup)
        requires
            old(self).goes_on(),
            slot matches TerminalDeltaSlotRollup::Rolled { delta_rows, grouped_keys } ==> {
                &&& i64::MIN <= old(self).result().delta_rows + delta_rows <= i64::MAX
                &&& i64::MIN <= old(self).result().grouped_keys + grouped_keys <= i64::MAX
            },
        ensures
            final(self).targets() == old(self).targets(),
            final(self).limit() == old(self).limit(),
            final(self).done() == old(self).done() + 1,
            final(self).result() == absorbed(old(self).result(), slot),
            final(self).result().rolled_slots <= final(self).limit(),
    {
        proof {
            use_type_invariant(&*self);
        }
        let mut outcome = self.outcome;
        assert(self.slots.len() <= usize::MAX);
        match slot {
            TerminalDeltaSlotRollup::Empty => {},
            TerminalDeltaSlotRollup::Rolled { delta_rows, grouped_keys } => {
                outcome.rolled_slots = outcome.rolled_slots + 1;
                outcome.delta_rows = outcome.delta_rows + delta_rows;
                outcome.grouped_keys = outcome.grouped_keys + grouped_keys;
            },
            TerminalDeltaSlotRollup::SkippedActive => {
                outcome.skipped_active_slots = outcome.skipped_active_slots + 1;
            },
            TerminalDeltaSlotRollup::SkippedMvccPinned => {
                outcome.skipped_mvcc_pinned = true;
            },
            TerminalDeltaSlotRollup::Blocked => {
                outcome.blocked_slots = outcome.blocked_slots + 1;
            },
        }
        let at: usize = self.at;
        let max_slots: usize = self.max_slots;
        let mut rest = RollupPass {
            slots: Vec::new(),
            at: 0,
            max_slots: 0,
            outcome: TerminalDeltaRollupOutcome::default(),
        };
        std::mem::swap(self, &mut rest);
        *self = RollupPass { slots: rest.slots, at: at + 1, max_slots, outcome };
    }

    /// What the pass came to.
    pub fn outcome(&self) -> (r: TerminalDeltaRollupOutcome)
        ensures
            r == self.result(),
    {
        self.outcome
    }
}

} // verus!
