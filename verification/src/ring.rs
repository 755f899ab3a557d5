//! Ring slots: which slot is next, which is oldest, and what a rotation or a
//! maintenance pass came to.
use crate::clock::Span;
use crate::error;
use crate::error::AwaError;
use crate::error::DatabaseFailure;
use crate::text;
use vstd::prelude::*;
use vstd::string::*;

verus! {

/// Per-table presence at a rotation gate. A non-zero value means that the table
/// was not empty; it is no row count. Fields of other rings stay zero.
#[derive(Debug, Clone, Copy, PartialEq, Eq, Structural)]
pub struct BusyCounts {
    /// Queue ring: the next `ready_entries` child.
    pub queue_ready: i64,
    /// Queue ring: the next `ready_claim_attempt_batches` child.
    pub queue_claim_attempt_batches: i64,
    /// Queue ring: the next `done_entries` child.
    pub queue_done: i64,
    /// Queue ring: the next `ready_tombstones` child.
    pub queue_tombstones: i64,
    /// Queue ring: the next `ready_segments` child.
    pub queue_ready_segments: i64,
    /// Queue ring: the next `receipt_completion_batches` child.
    pub queue_receipt_completion_batches: i64,
    /// Queue ring: the next `receipt_completion_tombstones` child.
    pub queue_receipt_completion_tombstones: i64,
    /// Queue ring: the next `queue_terminal_count_deltas` child.
    pub queue_terminal_deltas: i64,
    /// Lease ring: the next `leases` child.
    pub leases: i64,
    /// Claim ring: the next `lease_claims` and claim-batch children.
    pub claims: i64,
    /// Claim ring: the next `lease_claim_closures` child.
    pub closures: i64,
    /// Claim ring: the next compact closure-batch child.
    pub closure_batches: i64,
}

impl BusyCounts {
    /// Nothing present.
    pub open spec fn idle() -> BusyCounts {
        BusyCounts {
            queue_ready: 0,
            queue_claim_attempt_batches: 0,
            queue_done: 0,
            queue_tombstones: 0,
            queue_ready_segments: 0,
            queue_receipt_completion_batches: 0,
            queue_receipt_completion_tombstones: 0,
            queue_terminal_deltas: 0,
            leases: 0,
            claims: 0,
            closures: 0,
            closure_batches: 0,
        }
    }
}

impl Default for BusyCounts {
    fn default() -> (r: BusyCounts)
        ensures
            r == BusyCounts::idle(),
    {
        BusyCounts {
            queue_ready: 0,
            queue_claim_attempt_batches: 0,
            queue_done: 0,
            queue_tombstones: 0,
            queue_ready_segments: 0,
            queue_receipt_completion_batches: 0,
            queue_receipt_completion_tombstones: 0,
            queue_terminal_deltas: 0,
            leases: 0,
            claims: 0,
            closures: 0,
            closure_batches: 0,
        }
    }
}

/// What a rotation came to.
#[derive(Debug, Clone, Copy, PartialEq, Eq, Structural)]
pub enum RotateOutcome {
    Rotated { slot: i32, generation: i64 },
    /// The target slot has live state, or another rotator was faster.
    SkippedBusy { slot: i32, busy: BusyCounts },
}

/// Which gate kept a prune from going on.
#[derive(Debug, Clone, Copy, PartialEq, Eq, Structural)]
pub enum SkipReason {
    /// Queue prune: leases on the slot's generation persist.
    QueueActiveLeases,
    /// Queue prune: receipt claims still need terminal evidence in the slot.
    QueueUnclosedClaimRefs,
    /// Queue prune: ready rows without done or tombstone evidence.
    QueuePendingReady,
    /// Lease prune: the target is the current slot.
    LeaseCurrent,
    /// Lease prune: leases remain in the target slot.
    LeaseActive,
    /// Claim prune: the target is the current slot.
    ClaimCurrent,
    /// Claim prune: a claim in the target slot has no closure evidence.
    ClaimOpen,
}

impl SkipReason {
    /// A stable, low-cardinality label.
    pub open spec fn label(self) -> Seq<char> {
        match self {
            SkipReason::QueueActiveLeases => "queue.active_leases"@,
            SkipReason::QueueUnclosedClaimRefs => "queue.unclosed_claim_refs"@,
            SkipReason::QueuePendingReady => "queue.pending_ready"@,
            SkipReason::LeaseCurrent => "lease.current"@,
            SkipReason::LeaseActive => "lease.active"@,
            SkipReason::ClaimCurrent => "claim.current"@,
            SkipReason::ClaimOpen => "claim.open"@,
        }
    }

    pub fn as_str(self) -> (s: &'static str)
        ensures
            s@ == self.label(),
    {
        match self {
            SkipReason::QueueActiveLeases => "queue.active_leases",
            SkipReason::QueueUnclosedClaimRefs => "queue.unclosed_claim_refs",
            SkipReason::QueuePendingReady => "queue.pending_ready",
            SkipReason::LeaseCurrent => "lease.current",
            SkipReason::LeaseActive => "lease.active",
            SkipReason::ClaimCurrent => "claim.current",
            SkipReason::ClaimOpen => "claim.open",
        }
    }
}

/// Labels tell the reasons apart.
pub proof fn law_labels_are_distinct(a: SkipReason, b: SkipReason)
    requires
        a.label() == b.label(),
    ensures
        a == b,
{
    reveal_strlit("queue.active_leases");
    reveal_strlit("queue.unclosed_claim_refs");
    reveal_strlit("queue.pending_ready");
    reveal_strlit("lease.current");
    reveal_strlit("lease.active");
    reveal_strlit("claim.current");
    reveal_strlit("claim.open");
    assert("queue.active_leases"@[6] == 'a' && "queue.pending_ready"@[6] == 'p');
    assert("lease.current"@[0] == 'l' && "claim.current"@[0] == 'c');
    assert("queue.active_leases"@.len() == 19 && "queue.pending_ready"@.len() == 19);
    assert("queue.unclosed_claim_refs"@.len() == 25);
    assert("lease.current"@.len() == 13 && "claim.current"@.len() == 13);
    assert("lease.active"@.len() == 12 && "claim.open"@.len() == 10);
}

/// What a prune came to.
#[derive(Debug, Clone, Copy, PartialEq, Eq, Structural)]
pub enum PruneOutcome {
    Noop,
    Pruned {
        slot: i32,
        /// Failed rows inside the retention floor that were moved to the live
        /// segment. Zero for the lease and claim rings.
        carried_failed_rows: u64,
    },
    /// A lock could not be had in time.
    Blocked { slot: i32 },
    /// The target slot still has live state.
    SkippedActive { slot: i32, reason: SkipReason, count: i64 },
}

impl PruneOutcome {
    /// Whether the pass ends its transaction with a commit; a blocked pass
    /// rolls back.
    pub fn commits(&self) -> (r: bool)
        ensures
            r == !(*self is Blocked),
    {
        match self {
            PruneOutcome::Blocked { .. } => false,
            _ => true,
        }
    }
}

pub open spec fn indicator(has_rows: bool) -> i64 {
    if has_rows {
        1
    } else {
        0
    }
}

/// One for a table with rows, zero for an empty one.
pub fn busy_indicator(has_rows: bool) -> (r: i64)
    ensures
        r == indicator(has_rows),
{
    if has_rows {
        1
    } else {
        0
    }
}

/// What a lock or truncate statement came to.
#[derive(Debug)]
pub enum LockReply {
    Taken,
    Contended,
    Failed(AwaError),
}

pub open spec fn lock_outcome(reply: Result<(), DatabaseFailure>) -> LockReply {
    match reply {
        Ok(_) => LockReply::Taken,
        Err(failure) => if error::has_code(failure, "55P03"@) {
            LockReply::Contended
        } else {
            LockReply::Failed(error::mapped(failure))
        },
    }
}

/// Sorts a statement's result into lock taken, lock contended, and failure.
pub fn lock_reply(reply: Result<(), DatabaseFailure>) -> (r: LockReply)
    ensures
        r == lock_outcome(reply),
{
    match reply {
        Ok(_) => LockReply::Taken,
        Err(failure) => {
            if error::is_lock_contention(&failure) {
                LockReply::Contended
            } else {
                LockReply::Failed(error::map_database_error(failure))
            }
        },
    }
}

/// How long a prune waits for a lock, in milliseconds: at least one, and no more
/// than the database can hold.
pub open spec fn lock_timeout_millis(timeout: Span) -> int {
    let millis = timeout.total() / 1_000_000;
    if millis < 1 {
        1
    } else if millis > i64::MAX {
        i64::MAX as int
    } else {
        millis
    }
}

/// The `lock_timeout` setting for a prune.
pub fn prune_lock_timeout_setting(timeout: &Span) -> (s: String)
    requires
        timeout.wf(),
    ensures
        s@ == text::int_text(lock_timeout_millis(*timeout)) + "ms"@,
{
    let millis: u128 = timeout.as_millis();
    let bounded: i64 = if millis < 1 {
        1
    } else if millis > 0x7fff_ffff_ffff_ffff {
        i64::MAX
    } else {
        millis as i64
    };
    text::i64_text(bounded).concat("ms")
}

/// Why a slot number does not name a slot of a ring.
pub open spec fn slot_objection(slot: i32, slot_count: usize, ring: Seq<char>) -> Option<
    Seq<char>,
> {
    let lead = "invalid "@ + ring + " ring slot "@ + text::int_text(slot as int);
    if slot < 0 {
        Some(lead + ": slot must be non-negative"@)
    } else if slot >= slot_count {
        Some(lead + ": configured slot count is "@ + text::nat_text(slot_count as nat))
    } else {
        None
    }
}

/// A slot number as an index, or the reason why it is none.
pub fn ring_slot_index(slot: i32, slot_count: usize, ring: &str) -> (r: Result<usize, AwaError>)
    ensures
        match slot_objection(slot, slot_count, ring@) {
            None => r matches Ok(index) && index == slot,
            Some(text) => r matches Err(err) && error::is_validation(err, text),
        },
{
    if slot < 0 || slot as usize >= slot_count {
        let lead = "invalid ".to_owned().concat(ring).concat(" ring slot ").concat(
            text::i64_text(slot as i64).as_str(),
        );
        if slot < 0 {
            return Err(AwaError::Validation(lead.concat(": slot must be non-negative")));
        }
        return Err(
            AwaError::Validation(
                lead.concat(": configured slot count is ").concat(
                    text::usize_text(slot_count).as_str(),
                ),
            ),
        );
    }
    Ok(slot as usize)
}

/// The slot after `slot` in a ring.
pub open spec fn next_slot(slot: i32, slot_count: i32) -> int {
    (slot + 1) % slot_count as int
}

/// The oldest slot of a ring that holds a generation, besides the current one,
/// and that generation. In a ring on its first lap the slots from zero on hold
/// generations; later all do.
pub open spec fn oldest_slot(current_slot: i32, generation: i64, slot_count: i32) -> Option<
    (int, int),
> {
    if slot_count <= 1 || generation < 1 {
        None
    } else {
        let offset = if generation < slot_count - 1 {
            generation as int
        } else {
            slot_count - 1
        };
        Some(((current_slot - offset) % slot_count as int, generation - offset))
    }
}

/// Finds the oldest initialised slot of a ring.
pub fn oldest_initialized_ring_slot(current_slot: i32, generation: i64, slot_count: i32) -> (r:
    Option<(i32, i64)>)
    ensures
        match oldest_slot(current_slot, generation, slot_count) {
            None => r is None,
            Some((slot, at)) => r matches Some(found) && found.0 == slot && found.1 == at,
        },
{
    if slot_count <= 1 || generation < 1 {
        return None;
    }
    let last: i64 = slot_count as i64 - 1;
    let offset: i64 = if generation < last {
        generation
    } else {
        last
    };
    match (current_slot as i64 - offset).checked_rem_euclid(slot_count as i64) {
        Some(slot) => Some((slot as i32, generation - offset)),
        None => None,
    }
}

/// The oldest slot is a slot of the ring, is not the current one, and holds an
/// older generation.
pub proof fn law_oldest_slot_is_not_current(current_slot: i32, generation: i64, slot_count: i32)
    requires
        0 <= current_slot < slot_count,
    ensures
        oldest_slot(current_slot, generation, slot_count) matches Some((slot, at)) ==> {
            &&& 0 <= slot < slot_count
            &&& slot != current_slot
            &&& 0 <= at < generation
        },
{
    if let Some((slot, at)) = oldest_slot(current_slot, generation, slot_count) {
        let offset = generation - at;
        lemma_wrap(current_slot as int, offset, slot_count as int);
    }
}

proof fn lemma_wrap(current: int, offset: int, count: int)
    requires
        0 <= current < count,
        0 < offset < count,
    ensures
        (current - offset) % count == (if offset <= current {
            current - offset
        } else {
            current - offset + count
        }),
{
    if offset <= current {
        vstd::arithmetic::div_mod::lemma_small_mod((current - offset) as nat, count as nat);
    } else {
        vstd::arithmetic::div_mod::lemma_mod_add_multiples_vanish(current - offset, count);
        vstd::arithmetic::div_mod::lemma_small_mod((current - offset + count) as nat, count as nat);
    }
}

/// A ring is in phase when its current slot is its generation's place on the
/// ring. A fresh ring is: slot zero, generation zero.
pub open spec fn in_phase(current_slot: i32, generation: i64, slot_count: i32) -> bool {
    &&& 0 < slot_count
    &&& 0 <= generation
    &&& current_slot == generation as int % slot_count as int
}

/// Rotating keeps a ring in phase.
pub proof fn law_rotation_keeps_phase(
    current_slot: i32,
    generation: i64,
    slot_count: i32,
    outcome: RotateOutcome,
)
    requires
        in_phase(current_slot, generation, slot_count),
        outcome matches RotateOutcome::Rotated { slot, generation: at } && slot == next_slot(
            current_slot,
            slot_count,
        ) && at == generation + 1,
    ensures
        outcome matches RotateOutcome::Rotated { slot, generation: at } && in_phase(
            slot,
            at,
            slot_count,
        ),
{
    vstd::arithmetic::div_mod::lemma_add_mod_noop(generation as int, 1, slot_count as int);
    vstd::arithmetic::div_mod::lemma_mod_twice(generation as int, slot_count as int);
    vstd::arithmetic::div_mod::lemma_add_mod_noop(
        generation as int % slot_count as int,
        1,
        slot_count as int,
    );
}

/// In a ring in phase, the oldest slot is where its generation was put.
pub proof fn law_oldest_slot_is_in_phase(current_slot: i32, generation: i64, slot_count: i32)
    requires
        in_phase(current_slot, generation, slot_count),
    ensures
        oldest_slot(current_slot, generation, slot_count) matches Some((slot, at)) ==> slot == at
            % slot_count as int,
{
    if let Some((slot, at)) = oldest_slot(current_slot, generation, slot_count) {
        vstd::arithmetic::div_mod::lemma_sub_mod_noop(
            generation as int,
            generation - at,
            slot_count as int,
        );
        vstd::arithmetic::div_mod::lemma_mod_twice(generation as int, slot_count as int);
        vstd::arithmetic::div_mod::lemma_sub_mod_noop(
            generation as int % slot_count as int,
            generation - at,
            slot_count as int,
        );
    }
}

/// Once a ring has gone round, the slot that a prune reclaims is the one that
/// the next rotation hands out.
pub proof fn law_prune_frees_the_next_slot(current_slot: i32, generation: i64, slot_count: i32)
    requires
        0 <= current_slot < slot_count,
        1 < slot_count <= generation + 1,
    ensures
        oldest_slot(current_slot, generation, slot_count) matches Some((slot, at)) && slot
            == next_slot(current_slot, slot_count),
{
    vstd::arithmetic::div_mod::lemma_mod_add_multiples_vanish(
        current_slot - (slot_count - 1),
        slot_count as int,
    );
}

/// Which children of the queue ring's next slot have rows.
#[derive(Debug, Clone, Copy)]
pub struct QueueSlotPresence {
    pub ready: bool,
    pub claim_attempt_batches: bool,
    pub done: bool,
    pub tombstones: bool,
    pub segments: bool,
    pub receipt_batches: bool,
    pub receipt_tombstones: bool,
    pub terminal_deltas: bool,
}

impl QueueSlotPresence {
    pub open spec fn any(self) -> bool {
        ||| self.ready
        ||| self.claim_attempt_batches
        ||| self.done
        ||| self.tombstones
        ||| self.segments
        ||| self.receipt_batches
        ||| self.receipt_tombstones
        ||| self.terminal_deltas
    }

    pub open spec fn counts(self) -> BusyCounts {
        BusyCounts {
            queue_ready: indicator(self.ready),
            queue_claim_attempt_batches: indicator(self.claim_attempt_batches),
            queue_done: indicator(self.done),
            queue_tombstones: indicator(self.tombstones),
            queue_ready_segments: indicator(self.segments),
            queue_receipt_completion_batches: indicator(self.receipt_batches),
            queue_receipt_completion_tombstones: indicator(self.receipt_tombstones),
            queue_terminal_deltas: indicator(self.terminal_deltas),
            ..BusyCounts::idle()
        }
    }
}

/// Which children of the claim ring's next slot have rows.
#[derive(Debug, Clone, Copy)]
pub struct ClaimSlotPresence {
    pub claims: bool,
    pub claim_batches: bool,
    pub closures: bool,
    pub closure_batches: bool,
}

impl ClaimSlotPresence {
    pub open spec fn any(self) -> bool {
        self.claims || self.claim_batches || self.closures || self.closure_batches
    }

    /// Whether some child has rows; the ring's cursor is then left alone.
    pub fn is_busy(&self) -> (r: bool)
        ensures
            r == self.any(),
    {
        self.claims || self.claim_batches || self.closures || self.closure_batches
    }

    pub open spec fn counts(self) -> BusyCounts {
        BusyCounts {
            claims: indicator(self.claims || self.claim_batches),
            closures: indicator(self.closures),
            closure_batches: indicator(self.closure_batches),
            ..BusyCounts::idle()
        }
    }
}

/// A ring's cursor: its current slot, its generation, and its size.
#[derive(Debug, Clone, Copy)]
pub struct RingState {
    pub current_slot: i32,
    pub generation: i64,
    pub slot_count: i32,
}

impl RingState {
    /// The ring has a next slot and a next generation.
    pub open spec fn can_turn(self) -> bool {
        &&& self.slot_count > 0
        &&& self.current_slot < i32::MAX
        &&& self.generation < i64::MAX
    }

    /// The slot that the next rotation would hand out.
    pub fn next_slot(&self) -> (slot: i32)
        requires
            self.slot_count > 0,
            self.current_slot < i32::MAX,
        ensures
            slot == next_slot(self.current_slot, self.slot_count),
            0 <= slot < self.slot_count,
    {
        match (self.current_slot + 1).checked_rem_euclid(self.slot_count) {
            Some(slot) => slot,
            None => 0,
        }
    }

    /// The rotation's result when nothing stands in its way.
    pub open spec fn turned(self) -> RotateOutcome {
        RotateOutcome::Rotated {
            slot: next_slot(self.current_slot, self.slot_count) as i32,
            generation: (self.generation + 1) as i64,
        }
    }

    /// The rotation's result when the next slot holds `busy`.
    pub open spec fn skipped(self, busy: BusyCounts) -> RotateOutcome {
        RotateOutcome::SkippedBusy {
            slot: next_slot(self.current_slot, self.slot_count) as i32,
            busy,
        }
    }

    fn turn(&self) -> (r: RotateOutcome)
        requires
            self.can_turn(),
        ensures
            r == self.turned(),
    {
        RotateOutcome::Rotated { slot: self.next_slot(), generation: self.generation + 1 }
    }

    /// Rotates the queue ring, unless a child of its next slot has rows.
    pub fn rotate_queue(&self, presence: &QueueSlotPresence) -> (r: RotateOutcome)
        requires
            self.can_turn(),
        ensures
            r == (if presence.any() {
                self.skipped(presence.counts())
            } else {
                self.turned()
            }),
    {
        if presence.ready || presence.claim_attempt_batches || presence.done || presence.tombstones
            || presence.segments || presence.receipt_batches || presence.receipt_tombstones
            || presence.terminal_deltas {
            return RotateOutcome::SkippedBusy {
                slot: self.next_slot(),
                busy: BusyCounts {
                    queue_ready: busy_indicator(presence.ready),
                    queue_claim_attempt_batches: busy_indicator(presence.claim_attempt_batches),
                    queue_done: busy_indicator(presence.done),
                    queue_tombstones: busy_indicator(presence.tombstones),
                    queue_ready_segments: busy_indicator(presence.segments),
                    queue_receipt_completion_batches: busy_indicator(presence.receipt_batches),
                    queue_receipt_completion_tombstones: busy_indicator(
                        presence.receipt_tombstones,
                    ),
                    queue_terminal_deltas: busy_indicator(presence.terminal_deltas),
                    ..BusyCounts::default()
                },
            };
        }
        self.turn()
    }

    /// Rotates the lease ring, unless its next slot has leases. `swapped` counts
    /// the rows that the compare-and-swap of the cursor changed: with none,
    /// another rotator was faster.
    pub fn rotate_leases(&self, leases: bool, swapped: u64) -> (r: RotateOutcome)
        requires
            self.can_turn(),
        ensures
            r == (if leases || swapped == 0 {
                self.skipped(BusyCounts { leases: indicator(leases), ..BusyCounts::idle() })
            } else {
                self.turned()
            }),
    {
        if leases || swapped == 0 {
            return RotateOutcome::SkippedBusy {
                slot: self.next_slot(),
                busy: BusyCounts { leases: busy_indicator(leases), ..BusyCounts::default() },
            };
        }
        self.turn()
    }

    /// Rotates the claim ring, unless a child of its next slot has rows or
    /// another rotator was faster.
    pub fn rotate_claims(&self, presence: &ClaimSlotPresence, swapped: u64) -> (r: RotateOutcome)
        requires
            self.can_turn(),
        ensures
            r == (if presence.any() || swapped == 0 {
                self.skipped(presence.counts())
            } else {
                self.turned()
            }),
    {
        if presence.is_busy() || swapped == 0 {
            return RotateOutcome::SkippedBusy {
                slot: self.next_slot(),
                busy: BusyCounts {
                    claims: busy_indicator(presence.claims || presence.claim_batches),
                    closures: busy_indicator(presence.closures),
                    closure_batches: busy_indicator(presence.closure_batches),
                    ..BusyCounts::default()
                },
            };
        }
        self.turn()
    }
}

/// A rotation goes ahead only into an empty slot, and is then a turn of the
/// ring by one; what it reports as busy is what was found.
pub proof fn law_rotation_needs_an_empty_slot(
    ring: RingState,
    presence: QueueSlotPresence,
    outcome: RotateOutcome,
)
    requires
        outcome == (if presence.any() {
            ring.skipped(presence.counts())
        } else {
            ring.turned()
        }),
    ensures
        outcome is Rotated <==> !presence.any(),
        outcome matches RotateOutcome::SkippedBusy { busy, .. } ==> busy != BusyCounts::idle(),
{
}

} // verus!
