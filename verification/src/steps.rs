//! What single steps change, and what they leave as it was: memories of lanes,
//! turns of rotors, rows on their way into a lane, bytes on their way to a copy, and
//! the parts of a payload.

use crate::answers;
use crate::claiming::ClaimSweep;
use crate::clock::Timestamp;
use crate::copy;
use crate::copy::{
    write_copy_datetime, write_copy_field, write_copy_json, write_copy_optional_bytes,
    write_copy_optional_datetime, write_copy_optional_string, write_copy_storage_payload,
    write_deferred_copy_row, write_ready_copy_row, CopyBuffer,
};
use crate::enqueue;
use crate::enqueue::RoutedRow;
use crate::json;
use crate::json::JsonNode;
use crate::keeping;
use crate::lanes::{LaneSet, Rotors, ShardCounts};
use crate::order;
use crate::payload;
use crate::payload::RuntimePayload;
use crate::placement;
use crate::placement::{
    place_lane, plan_existing_ready_rows, ready_segments_from_rows, RequeuePlan, Run,
};
use crate::rescue::SlotSweep;
use crate::rollup::{RollupPass, TerminalDeltaRollupOutcome, TerminalDeltaSlotRollup};
use crate::routing;
use crate::routing::{shard_for_ordering_key, shard_for_rotor};
use crate::rows::{
    DeferredJobRow, ExistingReadyRow, ReadySegmentInsert, RuntimeReadyInsert, RuntimeReadyRow,
};
use crate::storage::QueueStorage;
use serde_json::Value;
use vstd::prelude::*;

verus! {

/// After a stripe was asked, the next one is, around the end, for what is still
/// wanted; once nothing is wanted the round is over.
pub proof fn law_round_goes_on_for_the_rest(
    sweep: &mut ClaimSweep,
    claimed: usize,
    asked: (usize, i64),
    next: Option<(usize, i64)>,
    fatal: bool,
)
    requires
        call_ensures(ClaimSweep::next, (&*old(sweep),), Some(asked)),
        old(sweep).goes_on(),
        old(sweep).taken() + claimed <= usize::MAX,
        old(sweep).first() < old(sweep).stripe_count(),
        call_ensures(ClaimSweep::book, (sweep, claimed), ()),
        call_ensures(ClaimSweep::next, (&*final(sweep),), next),
        call_ensures(ClaimSweep::failure_is_fatal, (&*final(sweep),), fatal),
    ensures
        next matches Some((stripe, wanted)) ==> {
            &&& wanted == asked.1 - claimed
            &&& stripe == (if asked.0 == old(sweep).stripe_count() - 1 {
                0
            } else {
                asked.0 + 1
            })
        },
        claimed >= asked.1 ==> next is None,
        claimed < asked.1 && old(sweep).done() + 1 < old(sweep).stripe_count() ==> next is Some,
        claimed > 0 ==> !fatal,
{
    let n = old(sweep).stripe_count() as int;
    let at = old(sweep).first() + old(sweep).done();
    vstd::arithmetic::div_mod::lemma_add_mod_noop(at as int, 1, n);
    if n > 1 {
        vstd::arithmetic::div_mod::lemma_small_mod(1, n as nat);
    }
    if next is Some {
        assert(n > 1);
        let here = at as int % n;
        assert(0 <= here < n);
        if here == n - 1 {
            vstd::arithmetic::div_mod::lemma_mod_self_0(n);
        } else {
            vstd::arithmetic::div_mod::lemma_small_mod((here + 1) as nat, n as nat);
        }
    }
}

/// After a slot was swept, the next one is, for what may still be rescued; once
/// that is nothing the sweep is over.
pub proof fn law_sweep_goes_on_for_the_rest(
    sweep: &mut SlotSweep,
    rescued: usize,
    asked: (i32, i64),
    next: Option<(i32, i64)>,
)
    requires
        call_ensures(SlotSweep::next, (&*old(sweep),), Some(asked)),
        old(sweep).goes_on(),
        rescued <= asked.1,
        call_ensures(SlotSweep::book, (sweep, rescued), ()),
        call_ensures(SlotSweep::next, (&*final(sweep),), next),
    ensures
        next matches Some((slot, most)) ==> most == asked.1 - rescued && slot
            == old(sweep).slots()[old(sweep).done() as int + 1],
        rescued == asked.1 ==> next is None,
        rescued < asked.1 && old(sweep).done() + 1 < old(sweep).slots().len() ==> next is Some,
{
}

/// What a pass has counted grows by what came of each slot, under its name, and by
/// nothing else.
pub proof fn law_rollup_pass_counts_each_slot(
    pass: &mut RollupPass,
    slot: TerminalDeltaSlotRollup,
    before: TerminalDeltaRollupOutcome,
    after: TerminalDeltaRollupOutcome,
)
    requires
        old(pass).goes_on(),
        slot matches TerminalDeltaSlotRollup::Rolled { delta_rows, grouped_keys } ==> {
            &&& i64::MIN <= old(pass).result().delta_rows + delta_rows <= i64::MAX
            &&& i64::MIN <= old(pass).result().grouped_keys + grouped_keys <= i64::MAX
        },
        call_ensures(RollupPass::outcome, (&*old(pass),), before),
        before.rolled_slots < usize::MAX,
        before.skipped_active_slots < usize::MAX,
        before.blocked_slots < usize::MAX,
        call_ensures(RollupPass::book, (pass, slot), ()),
        call_ensures(RollupPass::outcome, (&*final(pass),), after),
    ensures
        after.rolled_slots == before.rolled_slots + (if slot is Rolled {
            1int
        } else {
            0
        }),
        after.skipped_active_slots == before.skipped_active_slots + (if slot is SkippedActive {
            1int
        } else {
            0
        }),
        after.blocked_slots == before.blocked_slots + (if slot is Blocked {
            1int
        } else {
            0
        }),
        after.skipped_mvcc_pinned == (before.skipped_mvcc_pinned || slot is SkippedMvccPinned),
        slot matches TerminalDeltaSlotRollup::Rolled { delta_rows, grouped_keys } ==> {
            &&& after.delta_rows == before.delta_rows + delta_rows
            &&& after.grouped_keys == before.grouped_keys + grouped_keys
        },
        !(slot is Rolled) ==> after.delta_rows == before.delta_rows && after.grouped_keys
            == before.grouped_keys,
{
}

/// After a slot was rolled up the pass goes on to the next one; once it met a
/// pinned horizon it goes no further.
pub proof fn law_rollup_pass_goes_on(
    pass: &mut RollupPass,
    slot: TerminalDeltaSlotRollup,
    next: Option<(i32, i64)>,
)
    requires
        old(pass).goes_on(),
        slot matches TerminalDeltaSlotRollup::Rolled { delta_rows, grouped_keys } ==> {
            &&& i64::MIN <= old(pass).result().delta_rows + delta_rows <= i64::MAX
            &&& i64::MIN <= old(pass).result().grouped_keys + grouped_keys <= i64::MAX
        },
        call_ensures(RollupPass::book, (pass, slot), ()),
        call_ensures(RollupPass::target, (&*final(pass),), next),
    ensures
        next is Some ==> next->0 == old(pass).targets()[old(pass).done() as int + 1],
        slot is SkippedMvccPinned ==> next is None,
        (slot is Empty || slot is SkippedActive || slot is Blocked) && old(pass).done() + 1
            < old(pass).targets().len() ==> next is Some,
{
}

/// The number of shards of a queue is remembered, at least one, and nothing about
/// other queues is forgotten.
pub proof fn law_shards_are_remembered(
    memory: &mut ShardCounts,
    queue: &str,
    found: i16,
    told: i16,
    again: Option<i16>,
    other: &str,
    before: Option<i16>,
    after: Option<i16>,
)
    requires
        call_ensures(ShardCounts::get, (&*old(memory), other), before),
        call_ensures(ShardCounts::remember, (memory, queue, found), told),
        call_ensures(ShardCounts::get, (&*final(memory), queue), again),
        call_ensures(ShardCounts::get, (&*final(memory), other), after),
    ensures
        again == Some(told),
        found >= 1 ==> told == found,
        found < 1 ==> told == 1,
        other@ != queue@ ==> after == before,
{
}

/// A memory that was cleared or just made knows no queue.
pub proof fn law_cleared_memory_knows_nothing(
    memory: &mut ShardCounts,
    fresh: ShardCounts,
    queue: &str,
    told: Option<i16>,
    first: Option<i16>,
)
    requires
        call_ensures(ShardCounts::clear, (memory,), ()),
        call_ensures(ShardCounts::get, (&*final(memory), queue), told),
        call_ensures(ShardCounts::new, (), fresh),
        call_ensures(ShardCounts::get, (&fresh, queue), first),
    ensures
        told is None,
        first is None,
{
}

/// A lane that was marked is known; what was known of others stays.
pub proof fn law_marked_lane_is_known(
    lanes: &mut LaneSet,
    queue: &str,
    priority: i16,
    shard: i16,
    known: bool,
    other: &str,
    other_priority: i16,
    other_shard: i16,
    before: bool,
    after: bool,
)
    requires
        call_ensures(
            LaneSet::lane_is_cached,
            (&*old(lanes), other, other_priority, other_shard),
            before,
        ),
        call_ensures(LaneSet::mark_lane_ensured, (lanes, queue, priority, shard), ()),
        call_ensures(LaneSet::lane_is_cached, (&*final(lanes), queue, priority, shard), known),
        call_ensures(
            LaneSet::lane_is_cached,
            (&*final(lanes), other, other_priority, other_shard),
            after,
        ),
    ensures
        known,
        other@ != queue@ || other_priority != priority || other_shard != shard ==> after == before,
{
}

/// A lane that was invalidated is not known; what was known of others stays.
pub proof fn law_invalidated_lane_is_forgotten(
    lanes: &mut LaneSet,
    queue: &str,
    priority: i16,
    shard: i16,
    known: bool,
    other: &str,
    other_priority: i16,
    other_shard: i16,
    before: bool,
    after: bool,
)
    requires
        call_ensures(
            LaneSet::lane_is_cached,
            (&*old(lanes), other, other_priority, other_shard),
            before,
        ),
        call_ensures(LaneSet::invalidate_cached_lane, (lanes, queue, priority, shard), ()),
        call_ensures(LaneSet::lane_is_cached, (&*final(lanes), queue, priority, shard), known),
        call_ensures(
            LaneSet::lane_is_cached,
            (&*final(lanes), other, other_priority, other_shard),
            after,
        ),
    ensures
        !known,
        other@ != queue@ || other_priority != priority || other_shard != shard ==> after == before,
{
}

/// A lane is ready where it is known and its rows are seen; one whose rows are not
/// seen is forgotten.
pub proof fn law_unseen_lane_is_not_ready(
    lanes: &mut LaneSet,
    queue: &str,
    priority: i16,
    shard: i16,
    visible: bool,
    ready: bool,
    before: bool,
    after: bool,
)
    requires
        call_ensures(LaneSet::lane_is_cached, (&*old(lanes), queue, priority, shard), before),
        call_ensures(LaneSet::lane_is_ready, (lanes, queue, priority, shard, visible), ready),
        call_ensures(LaneSet::lane_is_cached, (&*final(lanes), queue, priority, shard), after),
    ensures
        ready <==> before && visible,
        visible ==> after == before,
        !visible ==> !after,
{
}

/// A set of lanes that was cleared or just made knows no lane.
pub proof fn law_cleared_lanes_are_forgotten(
    lanes: &mut LaneSet,
    fresh: LaneSet,
    queue: &str,
    priority: i16,
    shard: i16,
    known: bool,
    first: bool,
)
    requires
        call_ensures(LaneSet::clear_lane_cache, (lanes,), ()),
        call_ensures(LaneSet::lane_is_cached, (&*final(lanes), queue, priority, shard), known),
        call_ensures(LaneSet::new, (), fresh),
        call_ensures(LaneSet::lane_is_cached, (&fresh, queue, priority, shard), first),
    ensures
        !known,
        !first,
{
}

/// A rotor hands out its number and goes one on, and back to nothing after the
/// last; the other rotor stays.
pub proof fn law_rotors_turn_one_by_one(rotors: &mut Rotors, probe: usize)
    requires
        call_ensures(Rotors::next_probe, (rotors,), probe),
    ensures
        probe == old(rotors).stripe_probe,
        final(rotors).stripe_probe == (if probe == usize::MAX {
            0
        } else {
            probe + 1
        }),
        final(rotors).shard_rotor == old(rotors).shard_rotor,
{
}

/// The rotor of the shards hands out its number and goes one on, and back to
/// nothing after the last; the other rotor stays.
pub proof fn law_shard_rotor_turns_one_by_one(rotors: &mut Rotors, pick: u16)
    requires
        call_ensures(Rotors::next_pick, (rotors,), pick),
    ensures
        pick == old(rotors).shard_rotor,
        final(rotors).shard_rotor == (if pick == u16::MAX {
            0
        } else {
            pick + 1
        }),
        final(rotors).stripe_probe == old(rotors).stripe_probe,
{
}

/// Rotors begin at nothing.
pub proof fn law_rotors_begin_at_nothing(rotors: Rotors)
    requires
        call_ensures(Rotors::new, (), rotors),
    ensures
        rotors.stripe_probe == 0,
        rotors.shard_rotor == 0,
{
}

/// A batch with an ordering key goes to the shard of the key and turns nothing.
pub proof fn law_ordering_key_picks_the_shard(
    engine: QueueStorage,
    shards: i16,
    key: &[u8],
    rotors: &mut Rotors,
    picked: i16,
    shard: i16,
)
    requires
        call_ensures(QueueStorage::pick_shard, (&engine, shards, Some(key), rotors), picked),
        call_ensures(shard_for_ordering_key, (key, shards), shard),
    ensures
        picked == shard,
        *final(rotors) == *old(rotors),
{
}

/// A batch without an ordering key goes where the rotor points, and turns it where
/// there is more than one shard.
pub proof fn law_rotor_picks_the_shard(
    engine: QueueStorage,
    shards: i16,
    rotors: &mut Rotors,
    picked: i16,
    shard: i16,
)
    requires
        call_ensures(
            QueueStorage::pick_shard,
            (&engine, shards, None::<&[u8]>, rotors),
            picked,
        ),
        call_ensures(shard_for_rotor, (old(rotors).shard_rotor, shards), shard),
    ensures
        picked == shard,
        final(rotors).stripe_probe == old(rotors).stripe_probe,
        shards <= 1 ==> final(rotors).shard_rotor == old(rotors).shard_rotor,
        shards > 1 ==> final(rotors).shard_rotor == (if old(rotors).shard_rotor == u16::MAX {
            0
        } else {
            old(rotors).shard_rotor + 1
        }),
{
}

/// A round over the stripes starts at one of them, the next each time.
pub proof fn law_probe_starts_at_a_stripe(
    engine: QueueStorage,
    stripe_count: usize,
    rotors: &mut Rotors,
    start: usize,
)
    requires
        call_ensures(QueueStorage::stripe_probe_start, (&engine, stripe_count, rotors), start),
    ensures
        stripe_count > 0 ==> start < stripe_count,
        stripe_count <= 1 ==> start == 0 && *final(rotors) == *old(rotors),
        stripe_count > 1 ==> start == old(rotors).stripe_probe as int % stripe_count as int
            && final(rotors).stripe_probe == (if old(rotors).stripe_probe == usize::MAX {
            0
        } else {
            old(rotors).stripe_probe + 1
        }),
        final(rotors).shard_rotor == old(rotors).shard_rotor,
{
}

/// Rows of a lane get the numbers from the first on; all else about them, and every
/// other row, stays.
pub proof fn law_lane_rows_are_numbered(
    rows: &mut Vec<RuntimeReadyInsert>,
    lane: Run,
    start_seq: i64,
    i: int,
)
    requires
        lane.start <= lane.end <= old(rows)@.len(),
        start_seq + (lane.end - lane.start) <= i64::MAX,
        call_ensures(place_lane, (rows, lane, start_seq), ()),
        0 <= i < old(rows)@.len(),
    ensures
        final(rows)@.len() == old(rows)@.len(),
        lane.start <= i < lane.end ==> final(rows)@[i].lane_seq == start_seq + (i - lane.start),
        !(lane.start <= i < lane.end) ==> final(rows)@[i] == old(rows)@[i],
        final(rows)@[i].essence() == old(rows)@[i].essence(),
        final(rows)@[i].enqueue_shard == old(rows)@[i].enqueue_shard,
        final(rows)@[i].attempted_at == old(rows)@[i].attempted_at,
        final(rows)@[i].payload == old(rows)@[i].payload,
{
}

/// Routing loses no row and makes none: each goes, as it is, to a shard that its
/// queue has.
pub proof fn law_routing_keeps_every_row(
    engine: QueueStorage,
    rows: Vec<RuntimeReadyRow>,
    counts: ShardCounts,
    rotors: &mut Rotors,
    out: Vec<RoutedRow>,
    i: int,
    k: int,
)
    requires
        forall|j: int|
            0 <= j < rows@.len() ==> counts@.dom().contains((#[trigger] rows@[j]).queue@),
        call_ensures(
            QueueStorage::group_ready_rows_by_shard,
            (&engine, rows, &counts, rotors),
            out,
        ),
        0 <= i < rows@.len(),
        0 <= k < out@.len(),
    ensures
        out@.len() == rows@.len(),
        exists|j: int| 0 <= j < out@.len() && (#[trigger] out@[j]).row == rows@[i],
        exists|j: int| 0 <= j < rows@.len() && out@[k].row == (#[trigger] rows@[j]),
        ({
            let shards = counts@[out@[k].row.queue@];
            &&& shards <= 1 ==> out@[k].enqueue_shard == 0
            &&& shards > 1 ==> 0 <= out@[k].enqueue_shard < shards
        }),
        final(rotors).stripe_probe == old(rotors).stripe_probe,
{
    let args = (&engine, rows, &counts, rotors);
    let (picks, source) = choose|picks: Seq<enqueue::RotorPick>, source: Seq<int>|
        enqueue::is_routed(args.1@, args.2@, *old(rotors), picks, out@, source) && *final(rotors)
            == old(rotors).after_picks(enqueue::turns(picks, args.2@));
    assert(enqueue::is_routed(rows@, counts@, *old(rotors), picks, out@, source));
    order::lemma_indices_covered(source, rows@.len(), i);
    let j = choose|j: int| 0 <= j < source.len() && #[trigger] source[j] == i;
    assert(out@[j].row == rows@[i]);
    assert(out@[k].row == rows@[source[k]]);
    let row = out@[k].row;
    let shards = counts@[row.queue@] as int;
    assert(enqueue::shard_fits(row, out@[k].enqueue_shard, counts@, picks));
    if let Some(key) = row.ordering_key {
        routing::law_shard_in_range(key@, shards);
    } else {
        let p = choose|p: int|
            0 <= p < picks.len() && enqueue::pick_fits(#[trigger] picks[p], row)
                && picks[p].enqueue_shard == out@[k].enqueue_shard;
        assert(picks[p].queue@ == row.queue@);
        let raw = old(rotors).after_picks(
            enqueue::turns(picks.subrange(0, p), counts@),
        ).shard_rotor;
        assert(out@[k].enqueue_shard == routing::shard_of_rotor(raw, shards));
        if shards > 1 {
            assert(0 <= raw as int % shards < shards) by (nonlinear_arith)
                requires
                    shards > 1,
            ;
        }
    }
}

/// Rows with an ordering key go to the shard of the key; rows without one that are
/// of one queue and priority stay together.
pub proof fn law_routing_follows_the_keys(
    engine: QueueStorage,
    rows: Vec<RuntimeReadyRow>,
    counts: ShardCounts,
    rotors: &mut Rotors,
    out: Vec<RoutedRow>,
    j: int,
    k: int,
    key: &[u8],
    shard: i16,
)
    requires
        forall|j: int|
            0 <= j < rows@.len() ==> counts@.dom().contains((#[trigger] rows@[j]).queue@),
        call_ensures(
            QueueStorage::group_ready_rows_by_shard,
            (&engine, rows, &counts, rotors),
            out,
        ),
        0 <= j < out@.len(),
        0 <= k < out@.len(),
        call_ensures(shard_for_ordering_key, (key, counts@[out@[k].row.queue@]), shard),
    ensures
        out@[k].row.ordering_key is Some && out@[k].row.ordering_key->0@ == key@
            ==> out@[k].enqueue_shard == shard,
        out@[j].row.ordering_key is None && out@[k].row.ordering_key is None
            && out@[j].row.queue@ == out@[k].row.queue@ && out@[j].row.priority
            == out@[k].row.priority ==> out@[j].enqueue_shard == out@[k].enqueue_shard,
{
    let args = (&engine, rows, &counts, rotors);
    let (picks, source) = choose|picks: Seq<enqueue::RotorPick>, source: Seq<int>|
        enqueue::is_routed(args.1@, args.2@, *old(rotors), picks, out@, source) && *final(rotors)
            == old(rotors).after_picks(enqueue::turns(picks, args.2@));
    assert(enqueue::is_routed(rows@, counts@, *old(rotors), picks, out@, source));
    assert(enqueue::shard_fits(out@[k].row, out@[k].enqueue_shard, counts@, picks));
    if enqueue::share_rotor(out@[j].row, out@[k].row) {
        enqueue::law_unkeyed_rows_share_a_lane(
            rows@,
            counts@,
            *old(rotors),
            picks,
            out@,
            source,
            j,
            k,
        );
    }
}

/// Rows that go back to their queues are sorted into lanes: none is lost, none is
/// changed, and each lane is of one queue and priority.
pub proof fn law_requeued_rows_are_sorted_into_lanes(
    rows: Vec<ExistingReadyRow>,
    plan: RequeuePlan,
    i: int,
    l: int,
    j: int,
)
    requires
        call_ensures(plan_existing_ready_rows, (rows,), plan),
        0 <= i < rows@.len(),
        0 <= l < plan.lanes@.len(),
        plan.lanes@[l].start <= j < plan.lanes@[l].end,
    ensures
        plan.rows@.len() == rows@.len(),
        exists|k: int| 0 <= k < plan.rows@.len() && #[trigger] plan.rows@[k] == rows@[i],
        plan.lanes@[0].start == 0,
        plan.lanes@[plan.lanes@.len() - 1].end == rows@.len(),
        l + 1 < plan.lanes@.len() ==> plan.lanes@[l].end == plan.lanes@[l + 1].start,
        j < plan.rows@.len(),
        plan.rows@[j].queue@ == plan.rows@[plan.lanes@[l].start as int].queue@,
        plan.rows@[j].priority == plan.rows@[plan.lanes@[l].start as int].priority,
{
    let source = choose|source: Seq<int>| order::is_stable_sort(rows@, plan.rows@, source);
    order::lemma_sort_covers(rows@, plan.rows@, source, i);
    let k = choose|k: int| 0 <= k < source.len() && #[trigger] source[k] == i;
    assert(plan.rows@[k] == rows@[i]);
    if l + 1 < plan.lanes@.len() {
        let next = plan.lanes@[l + 1];
        assert(plan.lanes@[l].end == next.start);
    }
    lemma_run_is_of_one_lane(plan.rows@, plan.lanes@, l, j);
}

proof fn lemma_run_is_of_one_lane(rows: Seq<ExistingReadyRow>, lanes: Seq<Run>, l: int, j: int)
    requires
        placement::are_runs(rows, lanes),
        0 <= l < lanes.len(),
        lanes[l].start <= j < lanes[l].end,
    ensures
        rows[j].queue@ == rows[lanes[l].start as int].queue@,
        rows[j].priority == rows[lanes[l].start as int].priority,
    decreases j,
{
    if j > lanes[l].start {
        lemma_run_is_of_one_lane(rows, lanes, l, j - 1);
        let here = rows[j];
        assert(placement::Adjacent::joins(&rows[j - 1], &here));
    }
}

/// The segments of a batch tell where its rows are: each row is in one of its lane
/// that is due when it is.
pub proof fn law_segments_tell_where_rows_are(
    rows: Vec<RuntimeReadyInsert>,
    segments: Vec<ReadySegmentInsert>,
    i: int,
)
    requires
        forall|j: int| 0 <= j < rows@.len() ==> (#[trigger] rows@[j]).lane_seq < i64::MAX,
        call_ensures(ready_segments_from_rows, (&rows,), segments),
        0 <= i < rows@.len(),
    ensures
        exists|s: int|
            0 <= s < segments@.len() && (#[trigger] segments@[s]).queue@ == rows@[i].queue@
                && segments@[s].priority == rows@[i].priority && segments@[s].enqueue_shard
                == rows@[i].enqueue_shard && segments@[s].first_lane_seq <= rows@[i].lane_seq
                < segments@[s].next_lane_seq && segments@[s].first_run_at == rows@[i].run_at,
{
    let args = (&rows,);
    let runs = choose|runs: Seq<Run>| placement::are_segments(args.0@, runs, segments@);
    assert(placement::are_segments(rows@, runs, segments@));
    let s = lemma_run_of(rows@, runs, i);
    placement::law_segment_holds_its_rows(rows@, runs, segments@, s, i);
    assert(segments@[s].queue@ == rows@[i].queue@);
}

proof fn lemma_run_of(rows: Seq<RuntimeReadyInsert>, runs: Seq<Run>, i: int) -> (s: int)
    requires
        placement::are_runs(rows, runs),
        0 <= i < rows.len(),
    ensures
        0 <= s < runs.len(),
        runs[s].start <= i < runs[s].end,
{
    lemma_run_from(rows, runs, 0, i)
}

proof fn lemma_run_from(rows: Seq<RuntimeReadyInsert>, runs: Seq<Run>, from: int, i: int) -> (s:
    int)
    requires
        placement::are_runs(rows, runs),
        0 <= from < runs.len(),
        runs[from].start <= i < rows.len(),
    ensures
        0 <= s < runs.len(),
        runs[s].start <= i < runs[s].end,
    decreases runs.len() - from,
{
    if i < runs[from].end {
        from
    } else {
        if from + 1 < runs.len() {
            let next = runs[from + 1];
            assert(runs[from].end == next.start);
        }
        lemma_run_from(rows, runs, from + 1, i)
    }
}

/// What is written to a copy follows what was there, and reads back: a text, a JSON
/// value, a payload.
pub proof fn law_written_texts_read_back(
    buf: &mut Vec<u8>,
    text: &str,
    field: Seq<u8>,
)
    requires
        call_ensures(write_copy_field, (buf, text), ()),
        final(buf)@ == old(buf)@ + field,
    ensures
        answers::says_text(field, text@),
        final(buf)@.len() >= old(buf)@.len(),
{
    copy::law_copy_field_reads_back(vstd::utf8::encode_utf8(text@));
    assert(field =~= copy::copy_text(text@)) by {
        lemma_same_tail(old(buf)@, field, copy::copy_text(text@));
    }
}

proof fn lemma_same_tail(head: Seq<u8>, a: Seq<u8>, b: Seq<u8>)
    requires
        head + a == head + b,
    ensures
        a == b,
{
    assert((head + a).subrange(head.len() as int, (head + a).len() as int) =~= a);
    assert((head + b).subrange(head.len() as int, (head + b).len() as int) =~= b);
}

/// A JSON value written to a copy reads back as its text.
pub proof fn law_written_values_read_back(buf: &mut Vec<u8>, value: Value, field: Seq<u8>)
    requires
        call_ensures(write_copy_json, (buf, &value), ()),
        final(buf)@ == old(buf)@ + field,
    ensures
        answers::says_text(field, json::text(value)),
{
    copy::law_copy_field_reads_back(vstd::utf8::encode_utf8(json::text(value)));
    lemma_same_tail(old(buf)@, field, copy::json_field(value));
}

/// A payload written to a copy reads back as its text, and is left null where it
/// says nothing.
pub proof fn law_written_payloads_read_back(buf: &mut Vec<u8>, value: Value, field: Seq<u8>)
    requires
        call_ensures(write_copy_storage_payload, (buf, &value), ()),
        final(buf)@ == old(buf)@ + field,
    ensures
        answers::says_payload(field, value),
{
    copy::law_copy_field_reads_back(vstd::utf8::encode_utf8(json::text(value)));
    lemma_same_tail(old(buf)@, field, copy::payload_field(value));
}

/// A time written to a copy reads back.
pub proof fn law_written_times_read_back(buf: &mut Vec<u8>, at: Timestamp, field: Seq<u8>)
    requires
        at.valid(),
        call_ensures(write_copy_datetime, (buf, at), ()),
        final(buf)@ == old(buf)@ + field,
    ensures
        answers::says_time(field, Some(at)),
{
    answers::lemma_time_is_said(Some(at));
    lemma_same_tail(old(buf)@, field, copy::datetime_field(at));
}

/// A time that may be missing reads back, and is left null where it is.
pub proof fn law_written_optional_times_read_back(
    buf: &mut Vec<u8>,
    at: Option<Timestamp>,
    field: Seq<u8>,
)
    requires
        copy::optional_valid(at),
        call_ensures(write_copy_optional_datetime, (buf, at), ()),
        final(buf)@ == old(buf)@ + field,
    ensures
        answers::says_time(field, at),
{
    answers::lemma_time_is_said(at);
    lemma_same_tail(old(buf)@, field, copy::optional_datetime_field(at));
}

/// A key that may be missing reads back, and is left null where it is.
pub proof fn law_written_keys_read_back(
    buf: &mut Vec<u8>,
    key: Option<Vec<u8>>,
    field: Seq<u8>,
)
    requires
        call_ensures(write_copy_optional_bytes, (buf, &key), ()),
        final(buf)@ == old(buf)@ + field,
    ensures
        answers::says_key(field, key),
{
    answers::lemma_key_is_said(key, None);
    lemma_same_tail(old(buf)@, field, copy::optional_bytes_field(key));
}

/// A text that may be missing reads back, and is left null where it is.
pub proof fn law_written_optional_texts_read_back(
    buf: &mut Vec<u8>,
    text: Option<String>,
    field: Seq<u8>,
)
    requires
        call_ensures(write_copy_optional_string, (buf, &text), ()),
        final(buf)@ == old(buf)@ + field,
    ensures
        answers::says_mask(field, text),
{
    answers::lemma_key_is_said(None, text);
    lemma_same_tail(old(buf)@, field, copy::optional_text_field(text));
}

/// A ready row is written to a copy as a line that says it.
pub proof fn law_written_ready_row_says_the_row(
    buf: &mut Vec<u8>,
    ready_slot: i32,
    ready_generation: i64,
    row: RuntimeReadyInsert,
    line: Seq<u8>,
)
    requires
        row.run_at.valid(),
        row.created_at.valid(),
        copy::optional_valid(row.attempted_at),
        call_ensures(write_ready_copy_row, (buf, ready_slot, ready_generation, &row), ()),
        final(buf)@ == old(buf)@ + line,
    ensures
        answers::says_ready_row(line, ready_slot, ready_generation, row),
{
    answers::law_copied_ready_row_says_the_row(ready_slot, ready_generation, row);
    lemma_same_tail(
        old(buf)@,
        line,
        copy::line(copy::ready_fields(ready_slot, ready_generation, row)),
    );
}

/// A deferred row is written to a copy as a line that says it.
pub proof fn law_written_deferred_row_says_the_row(
    buf: &mut Vec<u8>,
    row: DeferredJobRow,
    line: Seq<u8>,
)
    requires
        row.run_at.valid(),
        row.created_at.valid(),
        copy::optional_valid(row.attempted_at),
        copy::optional_valid(row.finalized_at),
        call_ensures(write_deferred_copy_row, (buf, &row), ()),
        final(buf)@ == old(buf)@ + line,
    ensures
        answers::says_deferred_row(line, row),
{
    answers::law_copied_deferred_row_says_the_row(row);
    lemma_same_tail(old(buf)@, line, copy::line(copy::deferred_fields(row)));
}

/// What has left a buffer, by a chunk that it gave up.
pub open spec fn sent(chunk: Option<Vec<u8>>) -> Seq<u8> {
    match chunk {
        Some(bytes) => bytes@,
        None => Seq::empty(),
    }
}

/// A row pushed into a buffer goes after what was there, as a line that says it;
/// what the buffer gives up and what it keeps are all of it, in its order.
pub proof fn law_buffered_ready_row_is_not_lost(
    buffer: &mut CopyBuffer,
    ready_slot: i32,
    ready_generation: i64,
    row: RuntimeReadyInsert,
    chunk: Option<Vec<u8>>,
    line: Seq<u8>,
)
    requires
        row.run_at.valid(),
        row.created_at.valid(),
        copy::optional_valid(row.attempted_at),
        call_ensures(
            CopyBuffer::push_ready_row,
            (buffer, ready_slot, ready_generation, &row),
            chunk,
        ),
        sent(chunk) + final(buffer)@ == old(buffer)@ + line,
    ensures
        answers::says_ready_row(line, ready_slot, ready_generation, row),
        chunk is Some ==> final(buffer)@.len() == 0,
        chunk is None ==> final(buffer)@.len() < 262_144,
{
    let own = copy::line(copy::ready_fields(ready_slot, ready_generation, row));
    answers::law_copied_ready_row_says_the_row(ready_slot, ready_generation, row);
    assert(sent(chunk) + final(buffer)@ =~= old(buffer)@ + own);
    lemma_same_tail(old(buffer)@, line, own);
}

/// The same of a deferred row.
pub proof fn law_buffered_deferred_row_is_not_lost(
    buffer: &mut CopyBuffer,
    row: DeferredJobRow,
    chunk: Option<Vec<u8>>,
    line: Seq<u8>,
)
    requires
        row.run_at.valid(),
        row.created_at.valid(),
        copy::optional_valid(row.attempted_at),
        copy::optional_valid(row.finalized_at),
        call_ensures(CopyBuffer::push_deferred_row, (buffer, &row), chunk),
        sent(chunk) + final(buffer)@ == old(buffer)@ + line,
    ensures
        answers::says_deferred_row(line, row),
        chunk is Some ==> final(buffer)@.len() == 0,
        chunk is None ==> final(buffer)@.len() < 262_144,
{
    let own = copy::line(copy::deferred_fields(row));
    answers::law_copied_deferred_row_says_the_row(row);
    assert(sent(chunk) + final(buffer)@ =~= old(buffer)@ + own);
    lemma_same_tail(old(buffer)@, line, own);
}

/// A buffer begins empty, and gives up in the end all that it still holds.
pub proof fn law_buffer_gives_up_the_rest(
    fresh: CopyBuffer,
    buffer: CopyBuffer,
    last: Option<Vec<u8>>,
)
    requires
        call_ensures(CopyBuffer::new, (), fresh),
        call_ensures(CopyBuffer::finish, (buffer,), last),
    ensures
        fresh@.len() == 0,
        sent(last) == buffer@,
        last is None <==> buffer@.len() == 0,
{
    assert(sent(last) =~= buffer@);
}

/// An error is added after those that were there; all else stays.
pub proof fn law_pushed_error_is_the_last(kept: &mut RuntimePayload, error: Value)
    requires
        call_ensures(RuntimePayload::push_error, (kept, error), ()),
    ensures
        final(kept).errors@ == old(kept).errors@.push(error),
        json::node(final(kept).metadata) == json::node(old(kept).metadata),
        payload::texts(final(kept).tags@) == payload::texts(old(kept).tags@),
        final(kept).progress == old(kept).progress,
{
    let after = final(kept)@;
    let before = old(kept)@;
    assert(after == before.with_error(error));
}

/// Progress is set as given; all else stays.
pub proof fn law_set_progress_is_the_progress(kept: &mut RuntimePayload, progress: Option<Value>)
    requires
        call_ensures(RuntimePayload::set_progress, (kept, progress), ()),
    ensures
        final(kept).progress == progress,
        final(kept).errors@ == old(kept).errors@,
        json::node(final(kept).metadata) == json::node(old(kept).metadata),
        payload::texts(final(kept).tags@) == payload::texts(old(kept).tags@),
{
    assert(final(kept)@ == old(kept)@.with_progress(progress));
}

/// Settling a payload takes out progress that is null, and nothing else.
pub proof fn law_settled_progress_is_not_null(kept: &mut RuntimePayload)
    requires
        call_ensures(RuntimePayload::settle, (kept,), ()),
    ensures
        final(kept).progress matches Some(p) ==> !(json::node(p) is Null),
        old(kept).progress matches Some(p) ==> (!(json::node(p) is Null) ==> final(kept).progress
            == Some(p)),
        old(kept).progress is None ==> final(kept).progress is None,
        final(kept).errors@ == old(kept).errors@,
        json::node(final(kept).metadata) == json::node(old(kept).metadata),
        payload::texts(final(kept).tags@) == payload::texts(old(kept).tags@),
{
    assert(final(kept)@ == old(kept)@.settled());
}

/// A metadata entry is set under its name; all other entries stay.
pub proof fn law_metadata_entry_is_set(
    kept: &mut RuntimePayload,
    key: &str,
    value: Value,
    name: Seq<char>,
)
    requires
        json::node(old(kept).metadata) is Object,
        call_ensures(RuntimePayload::set_metadata_entry, (kept, key, value), ()),
    ensures
        keeping::entry(final(kept).metadata, key@) == Some(value),
        name != key@ ==> keeping::entry(final(kept).metadata, name) == keeping::entry(
            old(kept).metadata,
            name,
        ),
        final(kept).errors@ == old(kept).errors@,
        payload::texts(final(kept).tags@) == payload::texts(old(kept).tags@),
        final(kept).progress == old(kept).progress,
{
    let after = final(kept)@;
    assert(after.metadata == JsonNode::Object(
        json::node(old(kept).metadata)->Object_0.insert(key@, value),
    ));
}

/// A metadata entry is noted under its name unless there is one; all other entries
/// stay.
pub proof fn law_metadata_entry_is_noted_once(
    kept: &mut RuntimePayload,
    key: &str,
    value: Value,
    name: Seq<char>,
)
    requires
        json::node(old(kept).metadata) is Object,
        call_ensures(RuntimePayload::note_metadata_entry, (kept, key, value), ()),
    ensures
        keeping::entry(old(kept).metadata, key@) is None ==> keeping::entry(
            final(kept).metadata,
            key@,
        ) == Some(value),
        keeping::entry(old(kept).metadata, key@) is Some ==> keeping::entry(
            final(kept).metadata,
            key@,
        ) == keeping::entry(old(kept).metadata, key@),
        name != key@ ==> keeping::entry(final(kept).metadata, name) == keeping::entry(
            old(kept).metadata,
            name,
        ),
        final(kept).errors@ == old(kept).errors@,
        payload::texts(final(kept).tags@) == payload::texts(old(kept).tags@),
        final(kept).progress == old(kept).progress,
{
    let after = final(kept)@;
    assert(after.metadata == payload::with_entry_if_absent(
        json::node(old(kept).metadata),
        key@,
        value,
    ));
}

/// The result of a callback is noted among the metadata, null where there is none.
pub proof fn law_callback_result_is_noted(
    kept: &mut RuntimePayload,
    result: Option<Value>,
    name: Seq<char>,
)
    requires
        json::node(old(kept).metadata) is Object,
        call_ensures(RuntimePayload::insert_callback_result, (kept, result), ()),
    ensures
        keeping::entry(final(kept).metadata, "_awa_callback_result"@) is Some,
        result is Some ==> keeping::entry(final(kept).metadata, "_awa_callback_result"@) == result,
        result is None ==> json::node(
            keeping::entry(final(kept).metadata, "_awa_callback_result"@)->0,
        ) is Null,
        name != "_awa_callback_result"@ ==> keeping::entry(final(kept).metadata, name)
            == keeping::entry(old(kept).metadata, name),
        final(kept).errors@ == old(kept).errors@,
        payload::texts(final(kept).tags@) == payload::texts(old(kept).tags@),
        final(kept).progress == old(kept).progress,
{
    let after = final(kept)@;
    let before = old(kept)@;
    assert(payload::callback_result_noted(before.metadata, result, after.metadata));
    assert(after == before.with_metadata(after.metadata));
}

/// Routing keeps the order of rows that go one after the other: rows of one queue,
/// priority and ordering key, and rows of one queue and priority without a key.
pub proof fn law_routing_keeps_the_order(
    engine: QueueStorage,
    rows: Vec<RuntimeReadyRow>,
    counts: ShardCounts,
    rotors: &mut Rotors,
    out: Vec<RoutedRow>,
)
    requires
        forall|j: int|
            0 <= j < rows@.len() ==> counts@.dom().contains((#[trigger] rows@[j]).queue@),
        call_ensures(
            QueueStorage::group_ready_rows_by_shard,
            (&engine, rows, &counts, rotors),
            out,
        ),
    ensures
        exists|source: Seq<int>| #[trigger] comes_in_order(rows@, out@, source),
{
    let args = (&engine, rows, &counts, rotors);
    let (picks, source) = choose|picks: Seq<enqueue::RotorPick>, source: Seq<int>|
        enqueue::is_routed(args.1@, args.2@, *old(rotors), picks, out@, source) && *final(rotors)
            == old(rotors).after_picks(enqueue::turns(picks, args.2@));
    assert(enqueue::is_routed(rows@, counts@, *old(rotors), picks, out@, source));
    assert forall|j: int, k: int|
        #![trigger out@[j], out@[k]]
        0 <= j < out@.len() && 0 <= k < out@.len() && source[j] < source[k] && go_together(
            out@[j].row,
            out@[k].row,
        ) implies j < k by {
        if out@[j].row.ordering_key is Some {
            enqueue::law_keyed_rows_keep_order(
                rows@,
                counts@,
                *old(rotors),
                picks,
                out@,
                source,
                j,
                k,
            );
        } else {
            enqueue::law_unkeyed_rows_share_a_lane(
                rows@,
                counts@,
                *old(rotors),
                picks,
                out@,
                source,
                j,
                k,
            );
            if k < j {
                let a = order::Ranked::rank(&out@[j]);
                assert(order::Ranked::rank(&out@[k]) == a);
                order::lemma_lex_irreflexive(a);
            }
        }
    }
    assert(comes_in_order(rows@, out@, source));
}

/// Rows that go one after the other: of one queue, priority and ordering key, or
/// of one queue and priority without a key.
pub open spec fn go_together(a: RuntimeReadyRow, b: RuntimeReadyRow) -> bool {
    &&& a.queue@ == b.queue@
    &&& a.priority == b.priority
    &&& a.ordering_key is Some == b.ordering_key is Some
    &&& a.ordering_key is Some ==> a.ordering_key->0@ == b.ordering_key->0@
}

/// `out` is `rows`, each once, with those that go together in their order.
pub open spec fn comes_in_order(
    rows: Seq<RuntimeReadyRow>,
    out: Seq<RoutedRow>,
    source: Seq<int>,
) -> bool {
    &&& out.len() == rows.len()
    &&& source.len() == rows.len()
    &&& source.no_duplicates()
    &&& forall|k: int|
        0 <= k < out.len() ==> 0 <= source[k] < rows.len() && (#[trigger] out[k]).row
            == rows[source[k]]
    &&& forall|j: int, k: int|
        #![trigger out[j], out[k]]
        0 <= j < out.len() && 0 <= k < out.len() && source[j] < source[k] && go_together(
            out[j].row,
            out[k].row,
        ) ==> j < k
}

/// Rows that go back to their queues keep their order within a queue and priority.
pub proof fn law_requeued_rows_keep_their_order(rows: Vec<ExistingReadyRow>, plan: RequeuePlan)
    requires
        call_ensures(plan_existing_ready_rows, (rows,), plan),
    ensures
        exists|source: Seq<int>| #[trigger] goes_back_in_order(rows@, plan.rows@, source),
{
    let source = choose|source: Seq<int>| order::is_stable_sort(rows@, plan.rows@, source);
    assert forall|j: int, k: int|
        #![trigger plan.rows@[j], plan.rows@[k]]
        0 <= j < plan.rows@.len() && 0 <= k < plan.rows@.len() && source[j] < source[k]
            && plan.rows@[j].queue@ == plan.rows@[k].queue@ && plan.rows@[j].priority
            == plan.rows@[k].priority implies j < k by {
        if k < j {
            let a = order::Ranked::rank(&plan.rows@[j]);
            assert(order::Ranked::rank(&plan.rows@[k]) == a);
            order::lemma_lex_irreflexive(a);
        }
    }
    assert(goes_back_in_order(rows@, plan.rows@, source));
}

/// `out` is `rows`, each once, with those of one queue and priority in their order.
pub open spec fn goes_back_in_order(
    rows: Seq<ExistingReadyRow>,
    out: Seq<ExistingReadyRow>,
    source: Seq<int>,
) -> bool {
    &&& out.len() == rows.len()
    &&& source.len() == rows.len()
    &&& source.no_duplicates()
    &&& forall|k: int|
        0 <= k < out.len() ==> 0 <= source[k] < rows.len() && (#[trigger] out[k])
            == rows[source[k]]
    &&& forall|j: int, k: int|
        #![trigger out[j], out[k]]
        0 <= j < out.len() && 0 <= k < out.len() && source[j] < source[k] && out[j].queue@
            == out[k].queue@ && out[j].priority == out[k].priority ==> j < k
}

/// A batch without ordering keys for one queue and priority goes where the rotor
/// points, and turns it once where the queue has more than one shard.
pub proof fn law_plain_batch_follows_the_rotor(
    engine: QueueStorage,
    rows: Vec<RuntimeReadyRow>,
    counts: ShardCounts,
    rotors: &mut Rotors,
    out: Vec<RoutedRow>,
    shard: i16,
    k: int,
)
    requires
        forall|j: int|
            0 <= j < rows@.len() ==> counts@.dom().contains((#[trigger] rows@[j]).queue@)
                && rows@[j].ordering_key is None && rows@[j].queue@ == rows@[0].queue@
                && rows@[j].priority == rows@[0].priority,
        call_ensures(
            QueueStorage::group_ready_rows_by_shard,
            (&engine, rows, &counts, rotors),
            out,
        ),
        call_ensures(
            shard_for_rotor,
            (old(rotors).shard_rotor, counts@[rows@[0].queue@]),
            shard,
        ),
        0 <= k < out@.len(),
    ensures
        out@[k].enqueue_shard == shard,
        counts@[rows@[0].queue@] <= 1 ==> final(rotors).shard_rotor == old(rotors).shard_rotor,
        counts@[rows@[0].queue@] > 1 ==> final(rotors).shard_rotor == (old(rotors).shard_rotor + 1)
            % 0x1_0000,
{
    let args = (&engine, rows, &counts, rotors);
    let (picks, source) = choose|picks: Seq<enqueue::RotorPick>, source: Seq<int>|
        enqueue::is_routed(args.1@, args.2@, *old(rotors), picks, out@, source) && *final(rotors)
            == old(rotors).after_picks(enqueue::turns(picks, args.2@));
    assert(enqueue::is_routed(rows@, counts@, *old(rotors), picks, out@, source));
    let row = out@[k].row;
    assert(row == rows@[source[k]]);
    assert(enqueue::shard_fits(row, out@[k].enqueue_shard, counts@, picks));
    let p = choose|p: int|
        0 <= p < picks.len() && enqueue::pick_fits(#[trigger] picks[p], row)
            && picks[p].enqueue_shard == out@[k].enqueue_shard;
    assert forall|i: int| 0 <= i < picks.len() implies (#[trigger] picks[i]).queue@
        == rows@[0].queue@ && picks[i].priority == rows@[0].priority by {
        assert(enqueue::is_wanted(picks[i], rows@));
    }
    if picks.len() > 1 {
        assert(picks[0].rank() == picks[1].rank());
        order::lemma_lex_irreflexive(picks[0].rank());
    }
    assert(picks.len() == 1);
    assert(p == 0);
    reveal_with_fuel(enqueue::turns, 2);
    assert(picks.subrange(0, 0) =~= Seq::empty());
    assert(picks.drop_last() =~= Seq::empty());
    assert(enqueue::turns(picks.subrange(0, 0), counts@) == 0);
    assert(old(rotors).shard_rotor as int % 0x1_0000 == old(rotors).shard_rotor);
}

} // verus!
