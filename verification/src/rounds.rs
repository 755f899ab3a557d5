//! What the rounds of upkeep come to: claimers and their leases, sweeps over
//! stripes and slots, rotations, prunes, roll-ups, counts, and the installation.

use crate::claiming;
use crate::claiming::{
    bound_claimers, desired_queue_claimer_target, plan_acquire, probe_slot, settle_claimer_target,
    undoes_unreadable, AcquirePlan, ClaimSweep, QueueClaimerLease, QueueClaimerLeaseRow,
};
use crate::clock;
use crate::clock::{Span, Timestamp};
use crate::counts::{
    counter_trusted, exact_counts, fast_counts, pruned_failed_count, CountParts, QueueCounts,
};
use crate::error::AwaError;
use crate::install::{
    bring_back_statements, build_statements, check_activated, retire_open_claims, ring_seed,
    InstallStatement,
};
use crate::prune::{
    AttemptPrune, AttemptPruneStage, AttemptRing, QueuePrune, QueuePruneStage, Reply, Sealed, Step,
};
use crate::rescue;
use crate::rescue::SlotSweep;
use crate::ring;
use crate::ring::{
    busy_indicator, oldest_initialized_ring_slot, prune_lock_timeout_setting, ring_slot_index,
    BusyCounts, ClaimSlotPresence, LockReply, PruneOutcome, QueueSlotPresence, RingState,
    RotateOutcome, SkipReason,
};
use crate::rollup::{
    sealed_slots, RollupPass, RollupReply, RollupStep, SlotRollup, TerminalDeltaRollupOutcome,
    TerminalDeltaSlotRollup,
};
use crate::storage::QueueStorage;
use crate::text;
use vstd::prelude::*;

verus! {

/// A time in an ordinary second, not in a leap second.
pub open spec fn is_plain(at: Timestamp) -> bool {
    at.nanos < 1_000_000_000
}

/// The nanoseconds from the epoch to a time in an ordinary second.
pub open spec fn nanos_to(at: Timestamp) -> int {
    at.secs as int * 1_000_000_000 + at.nanos as int
}

/// How long a span is, in nanoseconds.
pub open spec fn nanos_in(span: Span) -> int {
    span.secs as int * 1_000_000_000 + span.nanos as int
}

/// Adding a span to a time goes that far ahead, and taking it off again comes back.
pub proof fn law_spans_go_there_and_back(
    at: Timestamp,
    span: Span,
    there: Timestamp,
    back: Timestamp,
)
    requires
        at.valid(),
        is_plain(at),
        span.nanos < 1_000_000_000,
        call_ensures(clock::checked_add, (at, span), Some(there)),
        call_ensures(clock::checked_sub, (there, span), Some(back)),
    ensures
        is_plain(there),
        nanos_to(there) == nanos_to(at) + nanos_in(span),
        back == at,
{
}

/// Half a span, twice, is the span but for the odd nanosecond.
pub proof fn law_half_is_half(span: Span, half: Span)
    requires
        span.nanos < 1_000_000_000,
        call_ensures(Span::half, (span,), half),
    ensures
        half.nanos < 1_000_000_000,
        2 * nanos_in(half) <= nanos_in(span) <= 2 * nanos_in(half) + 1,
{
}

/// A span is told in whole milliseconds, rounded down.
pub proof fn law_millis_round_down(span: Span, millis: u128)
    requires
        span.nanos < 1_000_000_000,
        call_ensures(Span::as_millis, (span,), millis),
    ensures
        millis * 1_000_000 <= nanos_in(span) < (millis + 1) * 1_000_000,
{
}

/// Of two times in ordinary seconds, one is at or before the other exactly where
/// no more nanoseconds lead up to it.
pub proof fn law_times_are_ordered(a: Timestamp, b: Timestamp, before: bool, after: bool)
    requires
        is_plain(a),
        is_plain(b),
        call_ensures(Timestamp::at_or_before, (a, b), before),
        call_ensures(Timestamp::after, (a, b), after),
    ensures
        before <==> nanos_to(a) <= nanos_to(b),
        after <==> nanos_to(a) > nanos_to(b),
{
}

/// A lease is refreshed where its claimer has not claimed for half the idle
/// threshold, or it has half its time to live left or less, and not otherwise.
pub proof fn law_lease_is_refreshed_in_time(
    row: QueueClaimerLeaseRow,
    now: Timestamp,
    lease_ttl: Span,
    idle_threshold: Span,
    half_ttl: Span,
    half_idle: Span,
    refresh: bool,
)
    requires
        now.valid(),
        is_plain(now),
        is_plain(row.last_claimed_at),
        is_plain(row.expires_at),
        lease_ttl.wf(),
        idle_threshold.wf(),
        lease_ttl.representable(),
        idle_threshold.representable(),
        row.decidable(now, lease_ttl, idle_threshold),
        call_ensures(Span::half, (lease_ttl,), half_ttl),
        call_ensures(Span::half, (idle_threshold,), half_idle),
        call_ensures(
            QueueClaimerLeaseRow::needs_refresh,
            (row, now, lease_ttl, idle_threshold),
            refresh,
        ),
        clock::reaches_after(now, half_ttl),
    ensures
        refresh <==> nanos_to(row.last_claimed_at) + nanos_in(half_idle) <= nanos_to(now)
            || nanos_to(row.expires_at) <= nanos_to(now) + nanos_in(half_ttl),
{
    assert(half_ttl.total() <= lease_ttl.total());
    assert(half_idle.total() <= idle_threshold.total());
    let late = clock::ahead(now, half_ttl);
    assert(late.valid() ==> late.total() == now.total() + half_ttl.total());
    assert(late.total() == now.total() + half_ttl.total());
    let early = clock::behind(now, half_idle);
    assert(early.total() == now.total() - half_idle.total());
}

/// The lease of a row is that of its slot and epoch.
pub proof fn law_lease_is_of_the_row(row: QueueClaimerLeaseRow, lease: QueueClaimerLease)
    requires
        call_ensures(QueueClaimerLeaseRow::lease, (row,), lease),
    ensures
        lease.claimer_slot == row.claimer_slot,
        lease.lease_epoch == row.lease_epoch,
{
}

/// A claimer asks for a slot for its time to live from now, over claimers that have
/// been idle for the threshold, and starts at one of the slots.
pub proof fn law_acquisition_reaches_as_far_as_asked(
    now: Timestamp,
    instance_id: u128,
    max_claimers: i16,
    lease_ttl: Span,
    idle_threshold: Span,
    plan: AcquirePlan,
)
    requires
        now.valid(),
        is_plain(now),
        lease_ttl.wf(),
        idle_threshold.wf(),
        max_claimers > 0 && lease_ttl.representable() ==> clock::reaches_after(now, lease_ttl),
        max_claimers > 0 && idle_threshold.representable() ==> clock::reaches_before(
            now,
            idle_threshold,
        ),
        call_ensures(
            plan_acquire,
            (now, instance_id, max_claimers, lease_ttl, idle_threshold),
            Ok(Some(plan)),
        ),
    ensures
        max_claimers > 0,
        nanos_to(plan.expires_at) == nanos_to(now) + nanos_in(lease_ttl),
        nanos_to(plan.idle_cutoff) + nanos_in(idle_threshold) == nanos_to(now),
        0 <= plan.probe_start < max_claimers,
{
}

/// Without claimers nothing is asked for.
pub proof fn law_no_claimers_acquire_nothing(
    now: Timestamp,
    instance_id: u128,
    max_claimers: i16,
    lease_ttl: Span,
    idle_threshold: Span,
    plan: Result<Option<AcquirePlan>, AwaError>,
)
    requires
        now.valid(),
        lease_ttl.wf(),
        idle_threshold.wf(),
        max_claimers <= 0,
        call_ensures(
            plan_acquire,
            (now, instance_id, max_claimers, lease_ttl, idle_threshold),
            plan,
        ),
    ensures
        plan == Ok::<Option<AcquirePlan>, AwaError>(None),
{
}

/// Slots are tried in turn from the first on, around the end, no slot twice.
pub proof fn law_slots_are_tried_in_turn(
    probe_start: i16,
    max_claimers: i16,
    a: i16,
    b: i16,
    first: i16,
    second: i16,
)
    requires
        0 <= probe_start < max_claimers,
        0 <= a < b < max_claimers,
        call_ensures(probe_slot, (probe_start, a, max_claimers), first),
        call_ensures(probe_slot, (probe_start, b, max_claimers), second),
    ensures
        0 <= first < max_claimers,
        0 <= second < max_claimers,
        first != second,
        a == 0 ==> first == probe_start,
        b == a + 1 ==> second == (if first == max_claimers - 1 {
            0
        } else {
            first + 1
        }),
{
    claiming::law_round_tries_each_slot_once(probe_start, a, b, max_claimers);
    assert(probe_start + a < 2 * max_claimers);
    vstd::arithmetic::div_mod::lemma_fundamental_div_mod(probe_start + a, max_claimers as int);
    assert(first == (if probe_start + a < max_claimers {
        probe_start + a
    } else {
        probe_start + a - max_claimers
    })) by {
        if probe_start + a < max_claimers {
            vstd::arithmetic::div_mod::lemma_small_mod(
                (probe_start + a) as nat,
                max_claimers as nat,
            );
        } else {
            vstd::arithmetic::div_mod::lemma_small_mod(
                (probe_start + a - max_claimers) as nat,
                max_claimers as nat,
            );
            vstd::arithmetic::div_mod::lemma_mod_sub_multiples_vanish(
                probe_start + a,
                max_claimers as int,
            );
        }
    }
    assert(second == (if probe_start + b < max_claimers {
        probe_start + b
    } else {
        probe_start + b - max_claimers
    })) by {
        if probe_start + b < max_claimers {
            vstd::arithmetic::div_mod::lemma_small_mod(
                (probe_start + b) as nat,
                max_claimers as nat,
            );
        } else {
            vstd::arithmetic::div_mod::lemma_small_mod(
                (probe_start + b - max_claimers) as nat,
                max_claimers as nat,
            );
            vstd::arithmetic::div_mod::lemma_mod_sub_multiples_vanish(
                probe_start + b,
                max_claimers as int,
            );
        }
    }
}

/// A target within one claimer and the most there may be stays; one beyond is
/// brought to the nearer end.
pub proof fn law_targets_stay_in_bounds(target: i16, max_claimers: i16, bounded: i16)
    requires
        call_ensures(bound_claimers, (target, max_claimers), bounded),
    ensures
        bounded >= 1,
        max_claimers >= 1 ==> bounded <= max_claimers,
        1 <= target <= max_claimers ==> bounded == target,
        target <= 1 || max_claimers <= 1 ==> bounded == 1,
        1 <= max_claimers <= target ==> bounded == max_claimers,
{
}

/// The target grows with the backlog: from one claimer to two at four jobs and to
/// four at thirty-two; from two, back to one below two jobs and on to four at
/// sixty-four; from four, back to two below sixteen and to one below four. It stays
/// within the most there may be.
pub proof fn law_target_follows_the_backlog(
    current_target: Option<i16>,
    available: i64,
    max_claimers: i16,
    target: i16,
)
    requires
        call_ensures(
            desired_queue_claimer_target,
            (current_target, available, max_claimers),
            target,
        ),
    ensures
        target >= 1,
        max_claimers <= 1 ==> target == 1,
        max_claimers >= 1 ==> target <= max_claimers,
        max_claimers >= 4 && (current_target is None || current_target->0 <= 1) ==> target == (
        if available >= 32 {
            4
        } else if available >= 4 {
            2
        } else {
            1int
        }),
        max_claimers >= 4 && (current_target matches Some(c) && 2 <= c <= 3) ==> target == (
        if available >= 64 {
            4
        } else if available >= 2 {
            2
        } else {
            1int
        }),
        max_claimers >= 4 && (current_target matches Some(c) && c >= 4) ==> target == (
        if available >= 16 {
            4
        } else if available >= 4 {
            2
        } else {
            1int
        }),
{
}

/// A target that was written wins over the one that was read, and that over the
/// one that was wanted.
pub proof fn law_written_target_wins(
    current_target: Option<i16>,
    desired: i16,
    written: Option<i16>,
    max_claimers: i16,
    settled: i16,
)
    requires
        call_ensures(
            settle_claimer_target,
            (current_target, desired, written, max_claimers),
            settled,
        ),
    ensures
        written is Some && 1 <= written->0 <= max_claimers ==> settled == written->0,
        written is None && current_target is Some && 1 <= current_target->0 <= max_claimers
            ==> settled == current_target->0,
        written is None && current_target is None && 1 <= desired <= max_claimers ==> settled
            == desired,
        settled >= 1,
        max_claimers >= 1 ==> settled <= max_claimers,
{
}

/// An unreadable claim is undone only where nothing else would give the job back:
/// neither a receipt nor a deadline.
pub proof fn law_unreadable_claims_are_undone(receipts: bool, deadline: Span, undone: bool)
    requires
        call_ensures(undoes_unreadable, (receipts, deadline), undone),
    ensures
        undone <==> !receipts && deadline.secs == 0 && deadline.nanos == 0,
{
}

/// A round over the stripes begins at the stripe it was told to, with the whole
/// batch; without stripes or with nothing wanted it does not begin.
pub proof fn law_round_begins_as_told(
    stripes: usize,
    start: usize,
    max_batch: i64,
    sweep: ClaimSweep,
    asked: Option<(usize, i64)>,
    fatal: bool,
)
    requires
        stripes > 0 ==> start < stripes,
        call_ensures(ClaimSweep::new, (stripes, start, max_batch), sweep),
        call_ensures(ClaimSweep::next, (&sweep,), asked),
        call_ensures(ClaimSweep::failure_is_fatal, (&sweep,), fatal),
    ensures
        asked is Some <==> stripes > 0 && max_batch > 0,
        asked is Some ==> asked->0 == (start, max_batch),
        fatal,
{
    if stripes > 0 {
        vstd::arithmetic::div_mod::lemma_small_mod(start as nat, stripes as nat);
    }
}

/// A rescue begins with the preferred slot, over every slot of the ring once, with
/// five hundred to rescue.
pub proof fn law_rescue_begins_with_the_preferred_slot(
    preferred: Option<i32>,
    count: usize,
    sweep: SlotSweep,
    asked: Option<(i32, i64)>,
    slot: i32,
)
    requires
        count <= i32::MAX,
        preferred matches Some(first) ==> 0 <= first < count,
        0 <= slot < count,
        call_ensures(SlotSweep::new, (preferred, count), sweep),
        call_ensures(SlotSweep::next, (&sweep,), asked),
    ensures
        asked is Some,
        (asked->0).1 == 500,
        preferred is Some ==> (asked->0).0 == preferred->0,
        preferred is None ==> (asked->0).0 == 0,
        sweep.slots().contains(slot),
        sweep.slots().no_duplicates(),
        sweep.slots().len() == count,
{
    rescue::law_sweep_visits_each_slot_once(preferred, count as int, slot);
    lemma_slots_len(0, count as int, preferred);
}

proof fn lemma_slots_len(from: int, count: int, preferred: Option<i32>)
    requires
        0 <= from <= count <= i32::MAX,
    ensures
        rescue::slots_from(from, count, preferred).len() == count - from - (if preferred is Some
            && from <= preferred->0 < count {
            1int
        } else {
            0
        }),
    decreases count - from,
{
    if from < count {
        lemma_slots_len(from + 1, count, preferred);
    }
}

/// The slot with the oldest jobs is so many turns behind the current one as its
/// generation is, and as far behind as the ring and its age allow.
pub proof fn law_oldest_slot_lies_behind(
    current_slot: i32,
    generation: i64,
    slot_count: i32,
    oldest: Option<(i32, i64)>,
)
    requires
        0 <= current_slot < slot_count,
        call_ensures(
            oldest_initialized_ring_slot,
            (current_slot, generation, slot_count),
            oldest,
        ),
    ensures
        oldest is Some <==> slot_count > 1 && generation >= 1,
        oldest matches Some((slot, at)) ==> {
            &&& 0 <= slot < slot_count
            &&& slot != current_slot
            &&& 0 <= at < generation
            &&& at == 0 || generation - at == slot_count - 1
            &&& generation - at <= slot_count - 1
            &&& (slot + (generation - at)) % slot_count as int == current_slot
        },
{
    ring::law_oldest_slot_is_not_current(current_slot, generation, slot_count);
    if let Some((slot, at)) = oldest {
        let offset = generation - at;
        vstd::arithmetic::div_mod::lemma_mod_adds(
            current_slot - offset,
            offset,
            slot_count as int,
        );
        vstd::arithmetic::div_mod::lemma_add_mod_noop(
            current_slot - offset,
            offset,
            slot_count as int,
        );
        vstd::arithmetic::div_mod::lemma_small_mod(current_slot as nat, slot_count as nat);
        vstd::arithmetic::div_mod::lemma_small_mod(offset as nat, slot_count as nat);
    }
}

/// A rescue prefers the slot with the oldest claims, where the ring has one.
pub proof fn law_rescue_prefers_the_oldest_slot(
    storage: QueueStorage,
    state: RingState,
    preferred: Option<i32>,
    oldest: Option<(i32, i64)>,
)
    requires
        call_ensures(QueueStorage::preferred_claim_slot, (&storage, Some(state)), preferred),
        call_ensures(
            oldest_initialized_ring_slot,
            (state.current_slot, state.generation, state.slot_count),
            oldest,
        ),
    ensures
        preferred matches Some(slot) ==> 0 <= slot < storage.layout().claim_slot_count && (
        oldest matches Some((found, _)) && found == slot),
        oldest matches Some((found, _)) ==> (0 <= found < storage.layout().claim_slot_count
            ==> preferred == Some(found)),
{
}

/// A slot of a ring is its own index where the ring has it, and refused otherwise.
pub proof fn law_slot_is_its_index(
    slot: i32,
    slot_count: usize,
    name: &str,
    index: Result<usize, AwaError>,
)
    requires
        call_ensures(ring_slot_index, (slot, slot_count, name), index),
    ensures
        index is Ok <==> 0 <= slot < slot_count,
        index matches Ok(at) ==> at == slot,
        index matches Err(err) ==> err is Validation,
{
}

/// Where a ring turned to: the slot after the current one, around the end, and one
/// generation on.
pub open spec fn is_turn(ring: RingState, slot: i32, generation: i64) -> bool {
    &&& slot == (if ring.current_slot == ring.slot_count - 1 {
        0
    } else {
        ring.current_slot + 1
    })
    &&& generation == ring.generation + 1
}

/// The slot that a ring would turn to.
pub open spec fn is_after(ring: RingState, slot: i32) -> bool {
    slot == (if ring.current_slot == ring.slot_count - 1 {
        0
    } else {
        ring.current_slot + 1
    })
}

/// A flag told as a number of rows.
pub open spec fn tells(count: i64, found: bool) -> bool {
    count == (if found {
        1int
    } else {
        0
    })
}

/// Nothing was found in way of a turn but what is told of the queue ring.
pub open spec fn only_queue_rows(busy: BusyCounts) -> bool {
    busy.leases == 0 && busy.claims == 0 && busy.closures == 0 && busy.closure_batches == 0
}

/// Nothing was found in way of a turn in the queue ring.
pub open spec fn no_queue_rows(busy: BusyCounts) -> bool {
    &&& busy.queue_ready == 0
    &&& busy.queue_claim_attempt_batches == 0
    &&& busy.queue_done == 0
    &&& busy.queue_tombstones == 0
    &&& busy.queue_ready_segments == 0
    &&& busy.queue_receipt_completion_batches == 0
    &&& busy.queue_receipt_completion_tombstones == 0
    &&& busy.queue_terminal_deltas == 0
}

proof fn lemma_next_slot(ring: RingState)
    requires
        0 <= ring.current_slot < ring.slot_count,
    ensures
        ring::next_slot(ring.current_slot, ring.slot_count) == (if ring.current_slot
            == ring.slot_count - 1 {
            0
        } else {
            ring.current_slot + 1
        }),
{
    if ring.current_slot == ring.slot_count - 1 {
        vstd::arithmetic::div_mod::lemma_mod_self_0(ring.slot_count as int);
    } else {
        vstd::arithmetic::div_mod::lemma_small_mod(
            (ring.current_slot + 1) as nat,
            ring.slot_count as nat,
        );
    }
}

/// The queue ring turns exactly where the next slot holds nothing; what stands in
/// the way is told, each kind of row under its name.
pub proof fn law_queue_ring_turns_into_an_empty_slot(
    ring: RingState,
    presence: QueueSlotPresence,
    outcome: RotateOutcome,
)
    requires
        0 <= ring.current_slot < ring.slot_count,
        ring.generation < i64::MAX,
        call_ensures(RingState::rotate_queue, (&ring, &presence), outcome),
    ensures
        outcome is Rotated <==> !presence.ready && !presence.claim_attempt_batches
            && !presence.done && !presence.tombstones && !presence.segments
            && !presence.receipt_batches && !presence.receipt_tombstones
            && !presence.terminal_deltas,
        outcome matches RotateOutcome::Rotated { slot, generation } ==> is_turn(
            ring,
            slot,
            generation,
        ),
        outcome matches RotateOutcome::SkippedBusy { slot, busy } ==> {
            &&& is_after(ring, slot)
            &&& only_queue_rows(busy)
            &&& tells(busy.queue_ready, presence.ready)
            &&& tells(busy.queue_claim_attempt_batches, presence.claim_attempt_batches)
            &&& tells(busy.queue_done, presence.done)
            &&& tells(busy.queue_tombstones, presence.tombstones)
            &&& tells(busy.queue_ready_segments, presence.segments)
            &&& tells(busy.queue_receipt_completion_batches, presence.receipt_batches)
            &&& tells(busy.queue_receipt_completion_tombstones, presence.receipt_tombstones)
            &&& tells(busy.queue_terminal_deltas, presence.terminal_deltas)
        },
{
    lemma_next_slot(ring);
}

/// The lease ring turns exactly where the next slot holds no lease and no one else
/// turned it first.
pub proof fn law_lease_ring_turns_into_an_empty_slot(
    ring: RingState,
    leases: bool,
    swapped: u64,
    outcome: RotateOutcome,
)
    requires
        0 <= ring.current_slot < ring.slot_count,
        ring.generation < i64::MAX,
        call_ensures(RingState::rotate_leases, (&ring, leases, swapped), outcome),
    ensures
        outcome is Rotated <==> !leases && swapped > 0,
        outcome matches RotateOutcome::Rotated { slot, generation } ==> is_turn(
            ring,
            slot,
            generation,
        ),
        outcome matches RotateOutcome::SkippedBusy { slot, busy } ==> {
            &&& is_after(ring, slot)
            &&& no_queue_rows(busy)
            &&& tells(busy.leases, leases)
            &&& busy.claims == 0 && busy.closures == 0 && busy.closure_batches == 0
        },
{
    lemma_next_slot(ring);
}

/// The claim ring turns exactly where the next slot holds neither claims nor
/// closures, alone or in batches, and no one else turned it first.
pub proof fn law_claim_ring_turns_into_an_empty_slot(
    ring: RingState,
    presence: ClaimSlotPresence,
    swapped: u64,
    outcome: RotateOutcome,
    busy_slot: bool,
)
    requires
        0 <= ring.current_slot < ring.slot_count,
        ring.generation < i64::MAX,
        call_ensures(RingState::rotate_claims, (&ring, &presence, swapped), outcome),
        call_ensures(ClaimSlotPresence::is_busy, (&presence,), busy_slot),
    ensures
        busy_slot <==> presence.claims || presence.claim_batches || presence.closures
            || presence.closure_batches,
        outcome is Rotated <==> !busy_slot && swapped > 0,
        outcome matches RotateOutcome::Rotated { slot, generation } ==> is_turn(
            ring,
            slot,
            generation,
        ),
        outcome matches RotateOutcome::SkippedBusy { slot, busy } ==> {
            &&& is_after(ring, slot)
            &&& no_queue_rows(busy)
            &&& busy.leases == 0
            &&& tells(busy.claims, presence.claims || presence.claim_batches)
            &&& tells(busy.closures, presence.closures)
            &&& tells(busy.closure_batches, presence.closure_batches)
        },
{
    lemma_next_slot(ring);
}

/// Whether a prune or a roll-up is kept: all but a blocked one.
pub proof fn law_only_blocked_passes_are_undone(
    outcome: PruneOutcome,
    kept: bool,
    rolled: TerminalDeltaSlotRollup,
    kept_rolled: bool,
)
    requires
        call_ensures(PruneOutcome::commits, (&outcome,), kept),
        call_ensures(TerminalDeltaSlotRollup::commits, (&rolled,), kept_rolled),
    ensures
        kept <==> !(outcome is Blocked),
        kept_rolled <==> !(rolled is Blocked),
{
}

/// The slot that a stage of a queue prune is about.
pub open spec fn slot_of(stage: QueuePruneStage) -> Option<Sealed> {
    match stage {
        QueuePruneStage::Locate => None,
        QueuePruneStage::Leases { target, .. } => Some(target),
        QueuePruneStage::Pending { target, .. } => Some(target),
        QueuePruneStage::Unclosed { target, .. } => Some(target),
        QueuePruneStage::Lock { target } => Some(target),
        QueuePruneStage::Carry { target } => Some(target),
        QueuePruneStage::Truncate { target, .. } => Some(target),
        QueuePruneStage::Settle { target, .. } => Some(target),
    }
}

/// A queue prune stays with the slot that it found, keeps its retention, and names
/// what it met: leases, jobs that wait, claims not closed, or a lock held
/// elsewhere.
pub proof fn law_queue_prune_stays_with_its_slot(
    prune: QueuePrune,
    reply: Reply,
    step: Step<QueuePrune>,
)
    requires
        prune.fits(reply),
        call_ensures(QueuePrune::step, (prune, reply), step),
    ensures
        step matches Step::Ask(onward) ==> {
            &&& onward.retention_secs == prune.retention_secs
            &&& slot_of(prune.stage) is Some ==> slot_of(onward.stage) == slot_of(prune.stage)
            &&& slot_of(prune.stage) is None ==> (reply matches Reply::Target(Some((slot, at)))
                && slot_of(onward.stage) == Some(Sealed { slot, generation: at }))
            &&& reply is Found ==> !reply->Found_0
            &&& reply is Lock ==> reply->Lock_0 is Taken
            &&& onward.stage is Carry ==> prune.retention_secs > 0
            &&& onward.stage is Truncate && prune.stage is Carry ==> reply is Rows
                && onward.stage->Truncate_carried == reply->Rows_0
            &&& onward.stage is Truncate && !(prune.stage is Carry) ==> prune.retention_secs <= 0
                && onward.stage->Truncate_carried == 0
            &&& onward.stage is Settle ==> prune.stage is Truncate
                && onward.stage->Settle_carried == prune.stage->Truncate_carried
        },
        step matches Step::Done(PruneOutcome::SkippedActive { slot, reason, count }) ==> {
            &&& count == 1
            &&& slot_of(prune.stage) matches Some(target) && target.slot == slot
            &&& reply == Reply::Found(true)
            &&& prune.stage is Leases ==> reason == SkipReason::QueueActiveLeases
            &&& prune.stage is Pending ==> reason == SkipReason::QueuePendingReady
            &&& prune.stage is Unclosed ==> reason == SkipReason::QueueUnclosedClaimRefs
        },
        step matches Step::Done(PruneOutcome::Blocked { slot }) ==> (slot_of(
            prune.stage,
        ) matches Some(target) && target.slot == slot) && reply is Lock
            && reply->Lock_0 is Contended,
        step matches Step::Done(PruneOutcome::Pruned { slot, carried_failed_rows }) ==> {
            &&& prune.stage is Settle
            &&& slot_of(prune.stage) matches Some(target) && target.slot == slot
            &&& carried_failed_rows == prune.stage->Settle_carried
        },
        step matches Step::Done(PruneOutcome::Noop) ==> prune.stage is Locate && reply
            == Reply::Target(None),
        step matches Step::Failed(err) ==> reply == Reply::Lock(LockReply::Failed(err)),
{
}

/// A queue prune carries failed rows over where they are kept for a second or more.
pub proof fn law_queue_prune_begins_by_looking(failed_retention: Span, prune: QueuePrune)
    requires
        call_ensures(QueuePrune::start, (&failed_retention,), prune),
    ensures
        prune.stage is Locate,
        prune.retention_secs > 0 <==> failed_retention.secs > 0,
        failed_retention.secs <= i64::MAX ==> prune.retention_secs == failed_retention.secs,
        failed_retention.secs > i64::MAX ==> prune.retention_secs == i64::MAX,
{
}

/// The slot that a stage of a prune of attempts is about.
pub open spec fn attempt_slot(stage: AttemptPruneStage) -> Option<i32> {
    match stage {
        AttemptPruneStage::Oldest => None,
        AttemptPruneStage::SlotRow { slot } => Some(slot),
        AttemptPruneStage::Live { slot, .. } => Some(slot),
        AttemptPruneStage::Lock { slot } => Some(slot),
        AttemptPruneStage::Current { slot } => Some(slot),
        AttemptPruneStage::Truncate { slot } => Some(slot),
        AttemptPruneStage::Settle { slot } => Some(slot),
    }
}

/// A prune of attempts stays with its slot and its ring, empties a slot only after
/// it was found to be neither current nor in use under the lock, and names what it
/// met.
pub proof fn law_attempt_prune_stays_with_its_slot(
    prune: AttemptPrune,
    reply: Reply,
    step: Step<AttemptPrune>,
)
    requires
        prune.fits(reply),
        call_ensures(AttemptPrune::step, (prune, reply), step),
    ensures
        step matches Step::Ask(onward) ==> {
            &&& onward.ring == prune.ring
            &&& attempt_slot(prune.stage) is Some ==> attempt_slot(onward.stage) == attempt_slot(
                prune.stage,
            )
            &&& onward.stage is Truncate ==> prune.stage is Live && prune.stage->Live_locked
                && reply == Reply::Found(false)
            &&& onward.stage is Live && onward.stage->Live_locked ==> prune.stage is Current
                && reply is CurrentSlot && Some(reply->CurrentSlot_0) != attempt_slot(prune.stage)
            &&& onward.stage is Current ==> reply is Lock && reply->Lock_0 is Taken
            &&& onward.stage is Settle ==> prune.stage is Truncate && prune.ring
                == AttemptRing::Claim && reply is Lock && reply->Lock_0 is Taken
        },
        step matches Step::Done(PruneOutcome::SkippedActive { slot, reason, count }) ==> {
            &&& attempt_slot(prune.stage) == Some(slot)
            &&& prune.stage is Live || prune.stage is Current
            &&& prune.stage is Live ==> count == 1 && reply == Reply::Found(true) && reason == (
            if prune.ring == AttemptRing::Lease {
                SkipReason::LeaseActive
            } else {
                SkipReason::ClaimOpen
            })
            &&& prune.stage is Current ==> count == 0 && reply == Reply::CurrentSlot(slot)
                && reason == (if prune.ring == AttemptRing::Lease {
                SkipReason::LeaseCurrent
            } else {
                SkipReason::ClaimCurrent
            })
        },
        step matches Step::Done(PruneOutcome::Blocked { slot }) ==> attempt_slot(prune.stage)
            == Some(slot) && reply is Lock && reply->Lock_0 is Contended,
        step matches Step::Done(PruneOutcome::Pruned { slot, carried_failed_rows }) ==> {
            &&& attempt_slot(prune.stage) == Some(slot)
            &&& carried_failed_rows == 0
            &&& prune.stage is Settle || (prune.ring == AttemptRing::Lease && prune.stage
                is Truncate && reply is Lock && reply->Lock_0 is Taken)
        },
        step matches Step::Done(PruneOutcome::Noop) ==> prune.stage is Oldest || prune.stage
            is SlotRow && reply == Reply::Found(false),
        step matches Step::Failed(err) ==> reply == Reply::Lock(LockReply::Failed(err)),
{
}

/// A prune of attempts begins with the oldest slot of its ring.
pub proof fn law_attempt_prune_begins_with_the_oldest(
    ring: AttemptRing,
    prune: AttemptPrune,
    state: RingState,
    step: Step<AttemptPrune>,
    oldest: Option<(i32, i64)>,
)
    requires
        call_ensures(AttemptPrune::start, (ring,), prune),
        prune.fits(Reply::Ring(state)),
        call_ensures(AttemptPrune::step, (prune, Reply::Ring(state)), step),
        call_ensures(
            oldest_initialized_ring_slot,
            (state.current_slot, state.generation, state.slot_count),
            oldest,
        ),
    ensures
        prune.ring == ring,
        oldest is None ==> step == Step::<AttemptPrune>::Done(PruneOutcome::Noop),
        oldest is Some ==> (step matches Step::Ask(onward) && onward.ring == ring && attempt_slot(
            onward.stage,
        ) == Some((oldest->0).0)),
{
}

/// A roll-up of a slot stays with it, goes on only where nothing stands in the way,
/// folds what it counted, and says what it met.
pub proof fn law_rollup_stays_with_its_slot(
    rollup: SlotRollup,
    reply: RollupReply,
    step: RollupStep,
)
    requires
        rollup.fits(reply),
        call_ensures(SlotRollup::step, (rollup, reply), step),
    ensures
        step matches RollupStep::Ask(onward) ==> {
            &&& onward.slot == rollup.slot
            &&& onward.generation == rollup.generation
            &&& rollup.stage is Locate ==> reply->current_slot != rollup.slot
                && reply->slot_generation == Some(rollup.generation)
            &&& reply is Found ==> !reply->Found_0
            &&& reply is Lock ==> reply->Lock_0 is Taken
            &&& onward.stage is Fold ==> rollup.stage is Count && onward.stage->Fold_delta_rows
                == reply->Count_0 && reply->Count_0 != 0
            &&& onward.stage is Truncate ==> rollup.stage is Fold
                && onward.stage->Truncate_delta_rows == rollup.stage->Fold_delta_rows
                && onward.stage->Truncate_grouped_keys == reply->Count_0
        },
        step matches RollupStep::Done(TerminalDeltaSlotRollup::Rolled { delta_rows, grouped_keys })
            ==> {
            &&& rollup.stage is Truncate
            &&& reply is Lock && reply->Lock_0 is Taken
            &&& delta_rows == rollup.stage->Truncate_delta_rows
            &&& grouped_keys == rollup.stage->Truncate_grouped_keys
        },
        step matches RollupStep::Done(TerminalDeltaSlotRollup::Blocked) ==> reply is Lock
            && reply->Lock_0 is Contended,
        step matches RollupStep::Done(TerminalDeltaSlotRollup::SkippedMvccPinned) ==> rollup.stage
            is Horizon && reply == RollupReply::Found(true),
        step matches RollupStep::Done(TerminalDeltaSlotRollup::SkippedActive) ==> (rollup.stage
            is Locate && reply->current_slot == rollup.slot) || ((rollup.stage is Pending
            || rollup.stage is Leases || rollup.stage is Unclosed) && reply == RollupReply::Found(
            true,
        )),
        step matches RollupStep::Done(TerminalDeltaSlotRollup::Empty) ==> (rollup.stage is Locate
            && reply->slot_generation != Some(rollup.generation)) || (rollup.stage is Count
            && reply == RollupReply::Count(0)),
        step matches RollupStep::Failed(err) ==> reply == RollupReply::Lock(
            LockReply::Failed(err),
        ),
{
}

/// A roll-up of a slot begins by looking where the slot stands.
pub proof fn law_rollup_begins_by_looking(slot: i32, generation: i64, rollup: SlotRollup)
    requires
        call_ensures(SlotRollup::start, (slot, generation), rollup),
    ensures
        rollup.slot == slot,
        rollup.generation == generation,
        rollup.stage is Locate,
{
}

/// A roll-up pass goes over the slots it was given, one after the other, up to the
/// number it was told, and has counted nothing when it begins.
pub proof fn law_rollup_pass_begins_with_the_first_slot(
    slots: Vec<(i32, i64)>,
    max_slots: usize,
    pass: RollupPass,
    target: Option<(i32, i64)>,
    outcome: TerminalDeltaRollupOutcome,
)
    requires
        call_ensures(RollupPass::new, (slots, max_slots), pass),
        call_ensures(RollupPass::target, (&pass,), target),
        call_ensures(RollupPass::outcome, (&pass,), outcome),
    ensures
        target == (if slots@.len() > 0 && max_slots > 0 {
            Some(slots@[0])
        } else {
            None
        }),
        outcome.rolled_slots == 0,
        outcome.delta_rows == 0,
        outcome.grouped_keys == 0,
        outcome.skipped_active_slots == 0,
        outcome.blocked_slots == 0,
        !outcome.skipped_mvcc_pinned,
{
}

/// A slot takes part in a roll-up exactly where it is a slot of the ring.
pub proof fn law_sealed_slots_are_slots(
    slots: Vec<(i32, i64)>,
    sealed: Vec<(i32, i64)>,
    slot: (i32, i64),
)
    requires
        call_ensures(sealed_slots, (slots,), sealed),
    ensures
        sealed@.contains(slot) <==> slots@.contains(slot) && slot.0 >= 0,
{
    broadcast use vstd::seq_lib::group_filter_ensures;

    let is_slot = |s: (i32, i64)| s.0 >= 0;
    assert(sealed@ == slots@.filter(is_slot));
    if sealed@.contains(slot) {
        assert(slots@.filter(is_slot).contains(slot));
        assert(is_slot(slot));
        slots@.lemma_filter_contains_rev(is_slot, slot);
    }
    if slots@.contains(slot) && slot.0 >= 0 {
        assert(is_slot(slot));
        assert(slots@.filter(is_slot).contains(slot));
    }
}

/// Exact counts are sums: what runs is leased or claimed by receipt, alone or in a
/// batch; what is done is pruned or still there.
pub proof fn law_exact_counts_are_sums(parts: CountParts, counts: QueueCounts)
    requires
        call_ensures(exact_counts, (parts,), Some(counts)),
    ensures
        counts.available == parts.available,
        counts.running == parts.leases + parts.receipts + parts.batched_receipts,
        counts.terminal == parts.pruned_completed + parts.pruned_failed + parts.live_terminal,
        counts.pruned_failed == parts.pruned_failed,
{
}

/// Fast counts agree with exact ones on what both see: a queue without receipts
/// whose terminal rows were all pruned.
pub proof fn law_fast_counts_agree_with_exact_ones(
    parts: CountParts,
    fast: QueueCounts,
    exact: Option<QueueCounts>,
)
    requires
        parts.receipts == 0,
        parts.batched_receipts == 0,
        parts.live_terminal == 0,
        i64::MIN <= parts.pruned_completed + parts.pruned_failed <= i64::MAX,
        call_ensures(
            fast_counts,
            (parts.available, parts.leases, parts.pruned_completed, parts.pruned_failed),
            fast,
        ),
        call_ensures(exact_counts, (parts,), exact),
    ensures
        exact == Some(fast),
{
}

/// Counts that fit are told.
pub proof fn law_counts_that_fit_are_told(parts: CountParts, counts: Option<QueueCounts>)
    requires
        call_ensures(exact_counts, (parts,), counts),
        i64::MIN <= parts.leases + parts.receipts + parts.batched_receipts <= i64::MAX,
        i64::MIN <= parts.pruned_completed + parts.pruned_failed + parts.live_terminal <= i64::MAX,
    ensures
        counts is Some,
{
}

/// The number of failed rows that were pruned is the sum, and never below zero.
pub proof fn law_pruned_failures_are_counted(sum: i64, count: u64, marker: Option<bool>, sure: bool)
    requires
        call_ensures(pruned_failed_count, (sum,), count),
        call_ensures(counter_trusted, (marker,), sure),
    ensures
        sum >= 0 ==> count == sum,
        sum < 0 ==> count == 0,
        sure <==> marker == Some(true),
{
}

/// A ring begins with its first slot open in generation zero and the others never
/// opened.
pub proof fn law_ring_begins_in_its_first_slot(slot_count: usize, rows: Vec<(i32, i64)>, i: int)
    requires
        slot_count <= i32::MAX,
        call_ensures(ring_seed, (slot_count,), rows),
        0 <= i < slot_count,
    ensures
        rows@.len() == slot_count,
        rows@[i].0 == i,
        i == 0 ==> rows@[i].1 == 0,
        i > 0 ==> rows@[i].1 == -1,
{
}

/// The table of open receipts goes only when it is empty; a row in it stops the
/// installation.
pub proof fn law_open_receipts_are_not_dropped(
    schema: &str,
    rows: Option<i64>,
    plan: Result<Vec<InstallStatement>, AwaError>,
)
    requires
        call_ensures(retire_open_claims, (schema, rows), plan),
    ensures
        plan is Err <==> rows is Some && rows->0 > 0,
        plan matches Err(err) ==> err is Validation,
        plan matches Ok(statements) ==> (statements@.contains(
            InstallStatement::DropOpenReceiptClaims,
        ) <==> rows is Some),
        plan matches Ok(statements) ==> forall|s: InstallStatement| #[trigger]
            statements@.contains(s) ==> s == InstallStatement::DropOpenReceiptClaims,
{
    if plan is Ok && rows is Some {
        let statements = plan->Ok_0;
        assert(statements@[0] == InstallStatement::DropOpenReceiptClaims);
    }
}

/// A table is set aside exactly where it is a plain one, before the tables of the
/// engine are installed.
pub proof fn law_plain_tables_are_set_aside(
    claims: Option<String>,
    closures: Option<String>,
    plan: Vec<InstallStatement>,
)
    requires
        call_ensures(build_statements, (&claims, &closures), plan),
    ensures
        plan@.contains(InstallStatement::SetClaimsAside) <==> claims is Some && claims->0@ == "r"@,
        plan@.contains(InstallStatement::SetClosuresAside) <==> closures is Some && closures->0@
            == "r"@,
        plan@.len() >= 3,
        plan@[plan@.len() - 3] == InstallStatement::DropCountSnapshots,
        plan@[plan@.len() - 2] == InstallStatement::InstallSubstrate,
        plan@[plan@.len() - 1] == InstallStatement::TuneReceiptPlane,
        !plan@.contains(InstallStatement::DropClaimsAside),
        !plan@.contains(InstallStatement::DropClosuresAside),
        !plan@.contains(InstallStatement::DropOpenReceiptClaims),
{
    if claims is Some && claims->0@ == "r"@ {
        assert(plan@[0] == InstallStatement::SetClaimsAside);
    }
    if closures is Some && closures->0@ == "r"@ {
        assert(plan@[plan@.len() - 4] == InstallStatement::SetClosuresAside);
    }
}

/// What was set aside is brought back, completed and copied, before it is dropped;
/// what was not set aside is left alone.
pub proof fn law_set_aside_rows_are_brought_back(
    claims_aside: bool,
    closures_aside: bool,
    plan: Vec<InstallStatement>,
)
    requires
        call_ensures(bring_back_statements, (claims_aside, closures_aside), plan),
    ensures
        claims_aside ==> {
            &&& plan@.len() >= 4
            &&& plan@[0] == InstallStatement::AddClaimShard
            &&& plan@[1] == InstallStatement::AddClaimDeadline
            &&& plan@[2] == InstallStatement::CopyClaims
            &&& plan@[3] == InstallStatement::DropClaimsAside
        },
        closures_aside ==> {
            &&& plan@.len() >= 2
            &&& plan@[plan@.len() - 2] == InstallStatement::CopyClosures
            &&& plan@[plan@.len() - 1] == InstallStatement::DropClosuresAside
        },
        plan@.len() == (if claims_aside {
            4int
        } else {
            0
        }) + (if closures_aside {
            2int
        } else {
            0
        }),
{
}

/// An activation counts exactly where it wrote the one row that it is about.
pub proof fn law_activation_writes_one_row(rows_affected: u64, done: Result<(), AwaError>)
    requires
        call_ensures(check_activated, (rows_affected,), done),
    ensures
        done is Ok <==> rows_affected == 1,
        done matches Err(err) ==> err is Validation,
{
}

/// Adding a span to a time goes that far ahead, and taking one off that far back,
/// where the span is one that can be taken.
pub proof fn law_times_are_moved_by_the_span(
    at: Timestamp,
    span: Span,
    label: &str,
    ahead: Result<Timestamp, AwaError>,
    back: Result<Timestamp, AwaError>,
    fits: bool,
    none: bool,
)
    requires
        at.valid(),
        is_plain(at),
        span.wf(),
        span.representable() ==> clock::reaches_after(at, span) && clock::reaches_before(at, span),
        call_ensures(clock::later, (at, span, label), ahead),
        call_ensures(clock::earlier, (at, span, label), back),
        call_ensures(Span::is_representable, (span,), fits),
        call_ensures(Span::is_zero, (span,), none),
    ensures
        ahead is Ok <==> fits,
        back is Ok <==> fits,
        ahead matches Ok(t) ==> nanos_to(t) == nanos_to(at) + nanos_in(span),
        back matches Ok(t) ==> nanos_to(t) + nanos_in(span) == nanos_to(at),
        none <==> span.secs == 0 && span.nanos == 0,
        fits <==> nanos_in(span) <= 9_223_372_036_854_775_807_000_000,
{
}

/// A lock is waited for at least a millisecond, and for the whole milliseconds of
/// the timeout otherwise.
pub proof fn law_lock_timeout_is_told_in_millis(timeout: Span, millis: u128, setting: String)
    requires
        timeout.wf(),
        call_ensures(Span::as_millis, (timeout,), millis),
        call_ensures(prune_lock_timeout_setting, (&timeout,), setting),
    ensures
        millis < 1 ==> setting@ == text::int_text(1) + "ms"@,
        1 <= millis <= i64::MAX ==> setting@ == text::int_text(millis as int) + "ms"@,
        millis > i64::MAX ==> setting@ == text::int_text(i64::MAX as int) + "ms"@,
{
}

/// The slot after the current one, and a flag told as a number.
pub proof fn law_next_slot_follows_the_current(ring: RingState, slot: i32, found: bool, count: i64)
    requires
        0 <= ring.current_slot < ring.slot_count,
        ring.current_slot < i32::MAX,
        call_ensures(RingState::next_slot, (&ring,), slot),
        call_ensures(busy_indicator, (found,), count),
    ensures
        is_after(ring, slot),
        0 <= slot < ring.slot_count,
        tells(count, found),
{
    lemma_next_slot(ring);
}

/// What keeps a slot from being emptied is told by names that differ.
pub proof fn law_skip_reasons_have_their_names(a: SkipReason, b: SkipReason, x: &str, y: &str)
    requires
        call_ensures(SkipReason::as_str, (a,), x),
        call_ensures(SkipReason::as_str, (b,), y),
    ensures
        a != b ==> x@ != y@,
        a == SkipReason::QueueActiveLeases ==> x@ == "queue.active_leases"@,
        a == SkipReason::QueueUnclosedClaimRefs ==> x@ == "queue.unclosed_claim_refs"@,
        a == SkipReason::QueuePendingReady ==> x@ == "queue.pending_ready"@,
        a == SkipReason::LeaseCurrent ==> x@ == "lease.current"@,
        a == SkipReason::LeaseActive ==> x@ == "lease.active"@,
        a == SkipReason::ClaimCurrent ==> x@ == "claim.current"@,
        a == SkipReason::ClaimOpen ==> x@ == "claim.open"@,
{
    if x@ == y@ {
        ring::law_labels_are_distinct(a, b);
    }
}

/// What is set aside is the table that is replaced, under the name that its rows
/// are brought back from and dropped under, each in the schema.
pub proof fn law_statements_name_their_tables(
    schema: &str,
    claims_aside: String,
    closures_aside: String,
    shard: String,
    deadline: String,
    claims_dropped: String,
    closures_dropped: String,
    open_dropped: String,
)
    requires
        call_ensures(
            InstallStatement::sql,
            (InstallStatement::SetClaimsAside, schema),
            claims_aside,
        ),
        call_ensures(
            InstallStatement::sql,
            (InstallStatement::SetClosuresAside, schema),
            closures_aside,
        ),
        call_ensures(InstallStatement::sql, (InstallStatement::AddClaimShard, schema), shard),
        call_ensures(InstallStatement::sql, (InstallStatement::AddClaimDeadline, schema), deadline),
        call_ensures(
            InstallStatement::sql,
            (InstallStatement::DropClaimsAside, schema),
            claims_dropped,
        ),
        call_ensures(
            InstallStatement::sql,
            (InstallStatement::DropClosuresAside, schema),
            closures_dropped,
        ),
        call_ensures(
            InstallStatement::sql,
            (InstallStatement::DropOpenReceiptClaims, schema),
            open_dropped,
        ),
    ensures
        claims_aside@ == "ALTER TABLE "@ + schema@
            + ".lease_claims RENAME TO lease_claims_legacy"@,
        closures_aside@ == "ALTER TABLE "@ + schema@
            + ".lease_claim_closures RENAME TO lease_claim_closures_legacy"@,
        shard@ == "ALTER TABLE "@ + schema@
            + ".lease_claims_legacy ADD COLUMN IF NOT EXISTS enqueue_shard SMALLINT NOT NULL DEFAULT 0"@,
        deadline@ == "ALTER TABLE "@ + schema@
            + ".lease_claims_legacy ADD COLUMN IF NOT EXISTS deadline_at TIMESTAMPTZ"@,
        claims_dropped@ == "DROP TABLE "@ + schema@ + ".lease_claims_legacy"@,
        closures_dropped@ == "DROP TABLE "@ + schema@ + ".lease_claim_closures_legacy"@,
        open_dropped@ == "DROP TABLE IF EXISTS "@ + schema@ + ".open_receipt_claims CASCADE"@,
{
}

/// Within a leap second a short span stays in it; a longer one leaves it as if it
/// had not been, and going back counts it.
pub proof fn law_leap_seconds_are_stepped_over(
    at: Timestamp,
    span: Span,
    ahead: Option<Timestamp>,
    back: Option<Timestamp>,
)
    requires
        at.valid(),
        !is_plain(at),
        span.wf(),
        call_ensures(clock::checked_add, (at, span), ahead),
        call_ensures(clock::checked_sub, (at, span), back),
    ensures
        span.secs == 0 && at.nanos + span.nanos < 2_000_000_000 ==> ahead == Some(
            Timestamp { secs: at.secs, nanos: (at.nanos + span.nanos) as u32 },
        ),
        span.secs == 0 ==> back == Some(
            Timestamp { secs: at.secs, nanos: (at.nanos - span.nanos) as u32 },
        ),
        ahead is Some && !(span.secs == 0 && at.nanos + span.nanos < 2_000_000_000) ==> is_plain(
            ahead->0,
        ) && nanos_to(ahead->0) == nanos_to(at) - 1_000_000_000 + nanos_in(span),
        back is Some && span.secs > 0 ==> is_plain(back->0) && nanos_to(back->0) == nanos_to(at)
            - nanos_in(span),
{
}

/// A time can be moved by a span exactly as far as there is time.
pub proof fn law_time_has_its_ends(
    at: Timestamp,
    span: Span,
    ahead: Option<Timestamp>,
    back: Option<Timestamp>,
)
    requires
        at.valid(),
        is_plain(at),
        span.wf(),
        call_ensures(clock::checked_add, (at, span), ahead),
        call_ensures(clock::checked_sub, (at, span), back),
    ensures
        ahead is Some <==> nanos_to(at) + nanos_in(span) < 8_210_266_876_800 * 1_000_000_000,
        back is Some <==> nanos_to(at) - nanos_in(span) >= -8_334_601_228_800 * 1_000_000_000,
{
}

} // verus!
