//! How an attempt is settled: which way a batch of completions takes, what is
//! written and counted for it, and how far the cursors move.

use crate::claims::ClaimedRuntimeJob;
use crate::clock::Timestamp;
use crate::completion;
use crate::completion::{
    claimed_pairs, escalate_receipts, missed_claims, needs_second_pass, receipt_columns,
    receipt_fast_complete_candidate, split_claims, ReceiptColumns, ReceiptPartition, SlowCompletion,
    SlowRun,
};
use crate::cursor;
use crate::cursor::{
    claim_cursor_advances, cursor_retry_millis, normalize_claim_cursor_advances, ClaimCursorAdvance,
};
use crate::distinct;
use crate::distinct::{distinct_attempts, distinct_ids, distinct_texts};
use crate::enqueue;
use crate::error::AwaError;
use crate::job::JobState;
use crate::json;
use crate::keeping;
use crate::order;
use crate::payload;
use crate::rows::{DoneJobRow, ReadyJobLeaseRow};
use crate::storage::QueueStorage;
use crate::tally;
use crate::tally::Tally;
use crate::terminal;
use crate::terminal::{
    done_row_payload, done_rows_to_counter_keys, needs_ready_payloads, plan_done_rows,
    rollup_adjustments, terminal_count_decrements, terminal_count_increments, DonePlan,
    ReadyPayload, RollupKey, TerminalCounterKey,
};
use serde_json::Value;
use vstd::prelude::*;

verus! {

/// A claimed job with nothing to say beyond its place: no key, no tags, no errors,
/// and no metadata but where it came from.
pub open spec fn says_nothing_more(entry: ClaimedRuntimeJob) -> bool {
    &&& entry.job.unique_key is None
    &&& entry.job.tags@.len() == 0
    &&& entry.job.history().len() == 0
    &&& json::node(entry.job.metadata) is Object
    &&& forall|name: Seq<char>| #[trigger]
        keeping::entry(entry.job.metadata, name) is Some ==> name == "_awa_original_priority"@
            || name == "_awa_original_queue"@
}

proof fn lemma_compact_entry(entry: ClaimedRuntimeJob)
    ensures
        completion::is_compact(entry) == (entry.claim.lease_claim_receipt
            && entry.claim.receipt_id is Some && says_nothing_more(entry)),
{
    let node = json::node(entry.job.metadata);
    if node is Object {
        let entries = node->Object_0;
        if payload::only_provenance(entry.job.metadata) {
            assert forall|name: Seq<char>| #[trigger]
                keeping::entry(entry.job.metadata, name) is Some implies name
                == "_awa_original_priority"@ || name == "_awa_original_queue"@ by {
                assert(entries.dom().contains(name));
            }
        }
        if says_nothing_more(entry) {
            assert forall|key: Seq<char>| #[trigger] entries.dom().contains(key) implies key
                == "_awa_original_priority"@ || key == "_awa_original_queue"@ by {
                assert(keeping::entry(entry.job.metadata, key) is Some);
            }
        }
    }
}

/// A completion is written compactly exactly for a job claimed by a receipt with
/// an id that has nothing to lose by it.
pub proof fn law_compact_completion_loses_nothing(entry: ClaimedRuntimeJob, compact: bool)
    requires
        call_ensures(receipt_fast_complete_candidate, (&entry,), compact),
    ensures
        compact <==> entry.claim.lease_claim_receipt && entry.claim.receipt_id is Some
            && says_nothing_more(entry),
{
    lemma_compact_entry(entry);
}

/// A batch completes compactly exactly where claims leave receipts and each of its
/// claims may.
pub proof fn law_batch_completes_compactly(
    storage: QueueStorage,
    claimed: Vec<ClaimedRuntimeJob>,
    compact: bool,
)
    requires
        call_ensures(QueueStorage::completes_compactly, (&storage, &claimed), compact),
    ensures
        compact <==> storage.layout().lease_claim_receipts && forall|i: int|
            0 <= i < claimed@.len() ==> (#[trigger] claimed@[i]).claim.lease_claim_receipt
                && claimed@[i].claim.receipt_id is Some && says_nothing_more(claimed@[i]),
{
    assert forall|i: int| 0 <= i < claimed@.len() implies completion::is_compact(
        #[trigger] claimed@[i],
    ) == (claimed@[i].claim.lease_claim_receipt && claimed@[i].claim.receipt_id is Some
        && says_nothing_more(claimed@[i])) by {
        lemma_compact_entry(claimed@[i]);
    }
    let each = forall|i: int|
        0 <= i < claimed@.len() ==> completion::is_compact(#[trigger] claimed@[i]);
    let said = forall|i: int|
        0 <= i < claimed@.len() ==> (#[trigger] claimed@[i]).claim.lease_claim_receipt
            && claimed@[i].claim.receipt_id is Some && says_nothing_more(claimed@[i]);
    assert(each == said);
    let args = (&storage, &claimed);
    if compact {
        assert forall|i: int| 0 <= i < claimed@.len() implies completion::is_compact(
            #[trigger] claimed@[i],
        ) by {
            assert(completion::is_compact(args.1@[i]));
        }
    }
}

/// Line `k` of the columns is about the claim of the member at `k`: its place, its
/// attempt, its receipt, and the time at which it completed.
pub proof fn law_receipt_columns_tell_the_claims(
    claimed: Vec<ClaimedRuntimeJob>,
    members: Vec<usize>,
    finalized_at: Timestamp,
    columns: ReceiptColumns,
    k: int,
)
    requires
        call_ensures(receipt_columns, (&claimed, &members, finalized_at), columns),
        forall|j: int|
            0 <= j < members@.len() ==> (#[trigger] members@[j]) < claimed@.len()
                && claimed@[members@[j] as int].claim.receipt_id is Some,
        0 <= k < members@.len(),
    ensures
        ({
            let entry = claimed@[members@[k] as int];
            &&& columns.job_ids@[k] == entry.job.id
            &&& columns.run_leases@[k] == entry.job.run_lease
            &&& columns.attempts@[k] == entry.job.attempt
            &&& columns.attempted_ats@[k] == entry.job.attempted_at
            &&& columns.queues@[k]@ == entry.job.queue@
            &&& columns.priorities@[k] == entry.claim.priority
            &&& columns.enqueue_shards@[k] == entry.claim.enqueue_shard
            &&& columns.lane_seqs@[k] == entry.claim.lane_seq
            &&& columns.ready_slots@[k] == entry.claim.ready_slot
            &&& columns.ready_generations@[k] == entry.claim.ready_generation
            &&& columns.claim_slots@[k] == entry.claim.claim_slot
            &&& entry.claim.receipt_id == Some(columns.receipt_ids@[k])
            &&& columns.claim_batch_ids@[k] == entry.claim.claim_batch_id
            &&& columns.claim_batch_indices@[k] == entry.claim.claim_batch_index
            &&& columns.finalized_ats@[k] == finalized_at
        }),
        columns.job_ids@.len() == members@.len(),
        columns.run_leases@.len() == members@.len(),
        columns.attempts@.len() == members@.len(),
        columns.attempted_ats@.len() == members@.len(),
        columns.queues@.len() == members@.len(),
        columns.priorities@.len() == members@.len(),
        columns.enqueue_shards@.len() == members@.len(),
        columns.lane_seqs@.len() == members@.len(),
        columns.ready_slots@.len() == members@.len(),
        columns.ready_generations@.len() == members@.len(),
        columns.claim_slots@.len() == members@.len(),
        columns.receipt_ids@.len() == members@.len(),
        columns.claim_batch_ids@.len() == members@.len(),
        columns.claim_batch_indices@.len() == members@.len(),
        columns.finalized_ats@.len() == members@.len(),
{
    let args = (&claimed, &members, finalized_at);
    assert(columns.row_is(k, args.0@[args.1@[k] as int], args.2));
    assert(columns.row_is(k, claimed@[members@[k] as int], finalized_at));
}

/// A batch of claims is parted by claim slot: each claim is in exactly one part,
/// the part of its slot. A refusal names a claim on a slot that the ring lacks.
pub proof fn law_claims_are_parted_by_slot(
    storage: QueueStorage,
    claimed: Vec<ClaimedRuntimeJob>,
    parts: Vec<ReceiptPartition>,
    i: int,
    k: int,
)
    requires
        call_ensures(
            QueueStorage::partition_by_claim_slot,
            (&storage, &claimed),
            Ok::<Vec<ReceiptPartition>, AwaError>(parts),
        ),
        claimed@.len() <= usize::MAX,
        0 <= i < claimed@.len(),
        0 <= k < parts@.len(),
    ensures
        0 <= claimed@[i].claim.claim_slot < storage.layout().claim_slot_count,
        parts@[k].members@.contains(i as usize) <==> parts@[k].slot == claimed@[i].claim.claim_slot,
        exists|j: int|
            0 <= j < parts@.len() && (#[trigger] parts@[j]).slot == claimed@[i].claim.claim_slot,
        forall|j: int|
            0 <= j < parts@.len() && j != k ==> (#[trigger] parts@[j]).slot != parts@[k].slot,
        parts@[k].members@.len() > 0,
{
    let count = storage.layout().claim_slot_count;
    assert(completion::placed_in_some(claimed@, parts@, i));
    let j = choose|j: int|
        0 <= j < parts@.len() && (#[trigger] parts@[j]).slot == claimed@[i].claim.claim_slot;
    assert(completion::is_partition(claimed@, count, parts@[j]));
    assert(completion::is_partition(claimed@, count, parts@[k]));
    let here = |at: int| claimed@[at].claim.claim_slot == parts@[k].slot;
    if parts@[k].members@.contains(i as usize) {
        let m = choose|m: int|
            0 <= m < parts@[k].members@.len() && parts@[k].members@[m] == i as usize;
        assert(here(parts@[k].members@[m] as int));
    }
    if parts@[k].slot == claimed@[i].claim.claim_slot {
        assert(here(i));
    }
}

/// A batch is refused only where a claim of it is on a slot that the ring lacks.
pub proof fn law_parting_refuses_unknown_slots(
    storage: QueueStorage,
    claimed: Vec<ClaimedRuntimeJob>,
    err: AwaError,
)
    requires
        call_ensures(
            QueueStorage::partition_by_claim_slot,
            (&storage, &claimed),
            Err::<Vec<ReceiptPartition>, AwaError>(err),
        ),
    ensures
        err is Validation,
        exists|i: int|
            0 <= i < claimed@.len() && !(0 <= (#[trigger] claimed@[i]).claim.claim_slot
                < storage.layout().claim_slot_count),
{
}

/// The attempts of a batch are those of its claims, in their order.
pub proof fn law_pairs_name_the_attempts(
    claimed: Vec<ClaimedRuntimeJob>,
    pairs: Vec<(i64, i64)>,
    i: int,
)
    requires
        call_ensures(claimed_pairs, (&claimed,), pairs),
        0 <= i < claimed@.len(),
    ensures
        pairs@.len() == claimed@.len(),
        pairs@[i].0 == claimed@[i].job.id,
        pairs@[i].1 == claimed@[i].job.run_lease,
{
}

/// A claim was missed exactly where its attempt is not among those that were
/// closed; nothing is missed twice.
pub proof fn law_missed_claims_are_the_unclosed(
    claimed: Vec<ClaimedRuntimeJob>,
    updated: Vec<(i64, i64)>,
    missed: Vec<usize>,
    i: int,
)
    requires
        call_ensures(missed_claims, (&claimed, &updated), missed),
        claimed@.len() <= usize::MAX,
        0 <= i < claimed@.len(),
    ensures
        missed@.contains(i as usize) <==> !updated@.contains(
            (claimed@[i].job.id, claimed@[i].job.run_lease),
        ),
        forall|j: int, k: int|
            0 <= j < k < missed@.len() ==> (#[trigger] missed@[j]) < (#[trigger] missed@[k]),
        forall|k: int| 0 <= k < missed@.len() ==> (#[trigger] missed@[k]) < claimed@.len(),
{
    let open = |at: int| !updated@.contains(completion::attempt_of(claimed@[at]));
    assert(open(i) == !updated@.contains((claimed@[i].job.id, claimed@[i].job.run_lease)));
    if missed@.contains(i as usize) {
        let m = choose|m: int| 0 <= m < missed@.len() && missed@[m] == i as usize;
        assert(open(missed@[m] as int));
    }
}

/// A second pass is made unless as many attempts were closed as were claimed.
pub proof fn law_second_pass_follows_a_shortfall(
    claimed: Vec<ClaimedRuntimeJob>,
    updated: Vec<(i64, i64)>,
    again: bool,
)
    requires
        call_ensures(needs_second_pass, (&claimed, &updated), again),
    ensures
        updated@.len() < claimed@.len() ==> again,
        updated@.len() == claimed@.len() ==> !again,
{
}

/// Claims by receipt are settled as receipts first; what that leaves open is
/// settled as leases, with the claims by lease, and nothing else is.
pub proof fn law_open_receipts_go_to_the_leases(
    claimed: Vec<ClaimedRuntimeJob>,
    split: SlowCompletion,
    updated: Vec<(i64, i64)>,
    leases: Vec<usize>,
    i: int,
)
    requires
        call_ensures(split_claims, (&claimed,), split),
        call_ensures(escalate_receipts, (&claimed, split, &updated), leases),
        claimed@.len() <= usize::MAX,
        0 <= i < claimed@.len(),
    ensures
        split.receipts@.contains(i as usize) <==> claimed@[i].claim.lease_claim_receipt,
        split.leases@.contains(i as usize) <==> !claimed@[i].claim.lease_claim_receipt,
        leases@.contains(i as usize) <==> !claimed@[i].claim.lease_claim_receipt
            || !updated@.contains((claimed@[i].job.id, claimed@[i].job.run_lease)),
{
    let by_receipt = |at: int| claimed@[at].claim.lease_claim_receipt;
    let by_lease = |at: int| !claimed@[at].claim.lease_claim_receipt;
    let at = i as usize;
    if split.receipts@.contains(at) {
        let m = choose|m: int| 0 <= m < split.receipts@.len() && split.receipts@[m] == at;
        assert(by_receipt(split.receipts@[m] as int));
    }
    if split.leases@.contains(at) {
        let m = choose|m: int| 0 <= m < split.leases@.len() && split.leases@[m] == at;
        assert(by_lease(split.leases@[m] as int));
    }
    assert(by_receipt(i) || by_lease(i));
    let open = |p: usize| !updated@.contains(completion::attempt_of(claimed@[p as int]));
    let rest = split.receipts@.filter(open);
    broadcast use vstd::seq_lib::group_filter_ensures;

    assert(leases@.contains(at) <==> split.leases@.contains(at) || rest.contains(at)) by {
        if split.leases@.contains(at) {
            let m = choose|m: int| 0 <= m < split.leases@.len() && split.leases@[m] == at;
            assert(leases@[m] == at);
        }
        if rest.contains(at) {
            let m = choose|m: int| 0 <= m < rest.len() && rest[m] == at;
            assert(leases@[split.leases@.len() + m] == at);
        }
    }
}

/// Which counter a terminal row is counted under: its place, its lane, and its id
/// modulo 256.
pub open spec fn is_counted_under(row: DoneJobRow, key: TerminalCounterKey) -> bool {
    &&& key.ready_slot == row.ready_slot
    &&& key.ready_generation == row.ready_generation
    &&& key.queue@ == row.queue@
    &&& key.priority == row.priority
    &&& key.enqueue_shard == row.enqueue_shard
    &&& key.counter_bucket == row.job_id as int % 256
}

proof fn lemma_counted(row: DoneJobRow, key: TerminalCounterKey)
    ensures
        is_counted_under(row, key) == (terminal::counter_key(row) == key@),
{
    assert(0 <= row.job_id as int % 256 < 256);
}

proof fn lemma_rows_under(rows: Seq<DoneJobRow>, key: TerminalCounterKey)
    ensures
        terminal::count_key(terminal::counter_keys(rows), key@) == rows.filter(
            |row: DoneJobRow| is_counted_under(row, key),
        ).len(),
    decreases rows.len(),
{
    reveal(Seq::filter);
    if rows.len() > 0 {
        lemma_rows_under(rows.drop_last(), key);
        lemma_counted(rows.last(), key);
        assert(terminal::counter_keys(rows).drop_last() =~= terminal::counter_keys(
            rows.drop_last(),
        ));
    }
}

proof fn lemma_keys_under(keys: Seq<TerminalCounterKey>, key: TerminalCounterKey)
    ensures
        terminal::count_key(terminal::key_views(keys), key@) == keys.filter(
            |other: TerminalCounterKey| other@ == key@,
        ).len(),
    decreases keys.len(),
{
    reveal(Seq::filter);
    if keys.len() > 0 {
        lemma_keys_under(keys.drop_last(), key);
        assert(terminal::key_views(keys).drop_last() =~= terminal::key_views(keys.drop_last()));
    }
}

proof fn lemma_sum_has_an_entry(out: Seq<Tally<TerminalCounterKey>>, key: terminal::CounterKeyView)
    requires
        terminal::delta_under(out, key) != 0,
    ensures
        exists|k: int|
            0 <= k < out.len() && terminal::counter_rank((#[trigger] out[k]).key@)
                == terminal::counter_rank(key),
    decreases out.len(),
{
    if out.len() > 0 && terminal::counter_rank(out.last().key@) != terminal::counter_rank(key) {
        lemma_sum_has_an_entry(out.drop_last(), key);
        let k = choose|k: int|
            0 <= k < out.drop_last().len() && terminal::counter_rank(
                (#[trigger] out.drop_last()[k]).key@,
            ) == terminal::counter_rank(key);
        assert(out[k] == out.drop_last()[k]);
    } else if out.len() > 0 {
        assert(terminal::counter_rank(out[out.len() - 1].key@) == terminal::counter_rank(key));
    }
}

/// Each terminal row has its counter key: that of its place, its lane, and its id
/// modulo 256.
pub proof fn law_counter_keys_are_of_the_rows(
    rows: Vec<DoneJobRow>,
    keys: Vec<TerminalCounterKey>,
    i: int,
)
    requires
        call_ensures(done_rows_to_counter_keys, (&rows,), keys),
        0 <= i < rows@.len(),
    ensures
        keys@.len() == rows@.len(),
        is_counted_under(rows@[i], keys@[i]),
        0 <= keys@[i].counter_bucket < 256,
{
    assert(terminal::key_views(keys@).len() == terminal::counter_keys(rows@).len());
    assert(terminal::key_views(keys@)[i] == keys@[i]@);
    assert(terminal::counter_keys(rows@)[i] == terminal::counter_key(rows@[i]));
    lemma_counted(rows@[i], keys@[i]);
}

/// What terminal rows add to the counters: under each key as many as there are
/// rows of it, each key once.
pub proof fn law_terminal_rows_are_counted(
    rows: Vec<DoneJobRow>,
    added: Vec<Tally<TerminalCounterKey>>,
    j: int,
    k: int,
)
    requires
        call_ensures(terminal_count_increments, (&rows,), added),
        rows@.len() <= i64::MAX,
        0 <= j < added@.len(),
        0 <= k < added@.len(),
    ensures
        added@[k].first > 0,
        added@[k].first == rows@.filter(
            |row: DoneJobRow| is_counted_under(row, added@[k].key),
        ).len(),
        added@[j].key@ == added@[k].key@ ==> j == k,
{
    lemma_rows_under(rows@, added@[k].key);
    if j < k {
        order::lemma_lex_irreflexive(terminal::counter_rank(added@[k].key@));
    } else if k < j {
        order::lemma_lex_irreflexive(terminal::counter_rank(added@[k].key@));
    }
}

/// What keys take off the counters: under each key as many as there are of it,
/// each key once.
pub proof fn law_removed_rows_are_counted(
    keys: Vec<TerminalCounterKey>,
    removed: Vec<Tally<TerminalCounterKey>>,
    j: int,
    k: int,
)
    requires
        call_ensures(terminal_count_decrements, (keys,), removed),
        keys@.len() <= i64::MAX,
        0 <= j < removed@.len(),
        0 <= k < removed@.len(),
    ensures
        removed@[k].first < 0,
        -removed@[k].first == keys@.filter(
            |key: TerminalCounterKey| key@ == removed@[k].key@,
        ).len(),
        removed@[j].key@ == removed@[k].key@ ==> j == k,
{
    lemma_keys_under(keys@, removed@[k].key);
    if j < k {
        order::lemma_lex_irreflexive(terminal::counter_rank(removed@[k].key@));
    } else if k < j {
        order::lemma_lex_irreflexive(terminal::counter_rank(removed@[k].key@));
    }
}

/// No terminal row goes uncounted.
pub proof fn law_every_terminal_row_is_counted(
    rows: Vec<DoneJobRow>,
    added: Vec<Tally<TerminalCounterKey>>,
    i: int,
)
    requires
        call_ensures(terminal_count_increments, (&rows,), added),
        rows@.len() <= i64::MAX,
        0 <= i < rows@.len(),
    ensures
        exists|k: int|
            0 <= k < added@.len() && is_counted_under(rows@[i], #[trigger] added@[k].key),
{
    let keys = terminal::counter_keys(rows@);
    let key = terminal::counter_key(rows@[i]);
    assert(keys[i] == key);
    terminal::lemma_count_positive(keys, i);
    assert(terminal::delta_under(added@, key) == terminal::count_key(keys, key));
    lemma_sum_has_an_entry(added@, key);
    let k = choose|k: int|
        0 <= k < added@.len() && terminal::counter_rank((#[trigger] added@[k]).key@)
            == terminal::counter_rank(key);
    terminal::lemma_counter_rank_injective(added@[k].key@, key);
    lemma_counted(rows@[i], added@[k].key);
}

/// Taking terminal rows away takes back what writing them added.
pub proof fn law_removal_undoes_the_count(
    rows: Vec<DoneJobRow>,
    keys: Vec<TerminalCounterKey>,
    added: Vec<Tally<TerminalCounterKey>>,
    removed: Vec<Tally<TerminalCounterKey>>,
    k: int,
)
    requires
        call_ensures(done_rows_to_counter_keys, (&rows,), keys),
        call_ensures(terminal_count_increments, (&rows,), added),
        call_ensures(terminal_count_decrements, (keys,), removed),
        rows@.len() <= i64::MAX,
        0 <= k < added@.len(),
    ensures
        exists|j: int|
            0 <= j < removed@.len() && (#[trigger] removed@[j]).key@ == added@[k].key@
                && removed@[j].first == -added@[k].first,
{
    let key = added@[k].key@;
    assert(keys@.len() == rows@.len()) by {
        assert(terminal::key_views(keys@).len() == terminal::counter_keys(rows@).len());
    }
    assert(terminal::delta_under(removed@, key) == -terminal::count_key(
        terminal::key_views(keys@),
        key,
    ));
    lemma_sum_has_an_entry(removed@, key);
    let j = choose|j: int|
        0 <= j < removed@.len() && terminal::counter_rank((#[trigger] removed@[j]).key@)
            == terminal::counter_rank(key);
    terminal::lemma_counter_rank_injective(removed@[j].key@, key);
}

/// Every terminal row is written once, on the one side or the other: with the
/// ready row that it came from where it comes out of a running attempt that has
/// one, by itself otherwise.
pub proof fn law_every_terminal_row_is_written_once(
    rows: Vec<DoneJobRow>,
    old_state: Option<JobState>,
    plan: DonePlan,
    i: int,
)
    requires
        call_ensures(plan_done_rows, (&rows, old_state), plan),
        0 <= i < rows@.len() <= usize::MAX,
    ensures
        plan.ready_backed@.contains(i as usize) <==> (old_state == Some(JobState::Running)
            || old_state == Some(JobState::WaitingExternal)) && rows@[i].lane_seq >= 0,
        plan.synthetic@.contains(i as usize) <==> !plan.ready_backed@.contains(i as usize),
        plan.ready_backed@.no_duplicates(),
        plan.synthetic@.no_duplicates(),
        plan.ready_backed@.len() + plan.synthetic@.len() == rows@.len(),
{
    terminal::law_done_plan_covers(rows@, old_state, plan, i);
    assert(terminal::is_ready_backed(old_state, rows@[i]) == ((old_state == Some(JobState::Running)
        || old_state == Some(JobState::WaitingExternal)) && rows@[i].lane_seq >= 0));
    if plan.ready_backed@.contains(i as usize) {
        let m = choose|m: int| 0 <= m < plan.ready_backed@.len() && plan.ready_backed@[m] == i;
        assert(terminal::is_ready_backed(old_state, rows@[plan.ready_backed@[m] as int]));
    }
    if plan.synthetic@.contains(i as usize) {
        let m = choose|m: int| 0 <= m < plan.synthetic@.len() && plan.synthetic@[m] == i;
        assert(!terminal::is_ready_backed(old_state, rows@[plan.synthetic@[m] as int]));
    }
}

/// A ready row at the place of a terminal row: slot, generation, lane, and number.
pub open spec fn is_at_the_place(ready: ReadyPayload, row: DoneJobRow) -> bool {
    &&& ready.queue@ == row.queue@
    &&& ready.priority == row.priority
    &&& ready.enqueue_shard == row.enqueue_shard
    &&& ready.lane_seq == row.lane_seq
    &&& ready.ready_slot == row.ready_slot
    &&& ready.ready_generation == row.ready_generation
}

proof fn lemma_backing(ready: Seq<ReadyPayload>, row: DoneJobRow)
    ensures
        terminal::backing_payload(ready, row) matches Some(stored) ==> exists|k: int|
            0 <= k < ready.len() && is_at_the_place(#[trigger] ready[k], row) && ready[k].payload
                == stored,
    decreases ready.len(),
{
    if ready.len() > 0 {
        if terminal::backs(ready.last(), row) {
            assert(is_at_the_place(ready[ready.len() - 1], row));
        } else {
            lemma_backing(ready.drop_last(), row);
            if let Some(stored) = terminal::backing_payload(ready.drop_last(), row) {
                let k = choose|k: int|
                    0 <= k < ready.drop_last().len() && is_at_the_place(
                        #[trigger] ready.drop_last()[k],
                        row,
                    ) && ready.drop_last()[k].payload == stored;
                assert(is_at_the_place(ready[k], row));
            }
        }
    }
}

/// A terminal row goes without its payload only where that is empty, or the ready
/// row at its place holds the same; what is written is the row's own payload.
pub proof fn law_terminal_payload_is_not_lost(
    row: DoneJobRow,
    ready: Vec<ReadyPayload>,
    written: Option<&Value>,
)
    requires
        call_ensures(done_row_payload, (&row, &ready), written),
    ensures
        written matches Some(v) ==> *v == row.payload,
        written is None ==> json::node(row.payload) is Null || json::is_empty_object(row.payload)
            || exists|k: int|
            0 <= k < ready@.len() && is_at_the_place(#[trigger] ready@[k], row) && json::equal(
                ready@[k].payload,
                row.payload,
            ),
        json::node(row.payload) is Null || json::is_empty_object(row.payload) ==> written is None,
        (forall|k: int| 0 <= k < ready@.len() ==> !is_at_the_place(#[trigger] ready@[k], row)) && !(
        json::node(row.payload) is Null || json::is_empty_object(row.payload)) ==> written is Some,
{
    lemma_backing(ready@, row);
}

/// Ready payloads are read only where a terminal row has something to compare.
pub proof fn law_empty_payloads_need_no_ready_rows(rows: Vec<DoneJobRow>, needed: bool)
    requires
        call_ensures(needs_ready_payloads, (&rows,), needed),
    ensures
        !needed <==> forall|i: int|
            0 <= i < rows@.len() ==> json::node((#[trigger] rows@[i]).payload) is Null
                || json::is_empty_object(rows@[i].payload),
{
    let args = (&rows,);
    if !needed {
        assert forall|i: int| 0 <= i < rows@.len() implies json::node(
            (#[trigger] rows@[i]).payload,
        ) is Null || json::is_empty_object(rows@[i].payload) by {
            assert(payload::storage_payload_empty(args.0@[i].payload));
        }
    }
}

/// An advance of the lane that a claimed row is in.
pub open spec fn is_in_lane(advance: ClaimCursorAdvance, row: ReadyJobLeaseRow) -> bool {
    &&& advance.queue@ == row.queue@
    &&& advance.priority == row.lane_priority
    &&& advance.enqueue_shard == row.enqueue_shard
}

/// The cursor of a lane moves past every row claimed from it, and no farther than
/// just past one of them.
pub proof fn law_cursor_passes_what_was_claimed(
    rows: &[ReadyJobLeaseRow],
    moves: Vec<ClaimCursorAdvance>,
    i: int,
    k: int,
)
    requires
        call_ensures(claim_cursor_advances, (rows,), moves),
        forall|j: int| 0 <= j < rows@.len() ==> (#[trigger] rows@[j]).lane_seq < i64::MAX,
        0 <= i < rows@.len(),
        0 <= k < moves@.len(),
    ensures
        exists|j: int|
            0 <= j < moves@.len() && is_in_lane(#[trigger] moves@[j], rows@[i]) && rows@[i].lane_seq
                < moves@[j].next_seq,
        is_in_lane(moves@[k], rows@[i]) ==> rows@[i].lane_seq < moves@[k].next_seq,
        exists|j: int|
            0 <= j < rows@.len() && is_in_lane(moves@[k], #[trigger] rows@[j]) && moves@[k].next_seq
                == rows@[j].lane_seq + 1,
        moves@[k].only_if_current is None,
        forall|j: int|
            0 <= j < moves@.len() && (#[trigger] moves@[j]).queue@ == moves@[k].queue@
                && moves@[j].priority == moves@[k].priority && moves@[j].enqueue_shard
                == moves@[k].enqueue_shard ==> j == k,
{
    assert(cursor::passes_claims(rows@, moves@));
    assert(cursor::passes_row(moves@, rows@[i]));
    assert(cursor::follows_claim(rows@, moves@[k]));
    let j = choose|j: int|
        0 <= j < moves@.len() && (#[trigger] moves@[j]).lane() == cursor::claimed_lane(rows@[i])
            && moves@[j].next_seq > rows@[i].lane_seq;
    assert(is_in_lane(moves@[j], rows@[i]));
    let m = choose|m: int|
        0 <= m < rows@.len() && cursor::claimed_lane(#[trigger] rows@[m]) == moves@[k].lane()
            && moves@[k].next_seq == rows@[m].lane_seq + 1;
    assert(is_in_lane(moves@[k], rows@[m]));
    assert forall|n: int|
        0 <= n < moves@.len() && (#[trigger] moves@[n]).queue@ == moves@[k].queue@
            && moves@[n].priority == moves@[k].priority && moves@[n].enqueue_shard
            == moves@[k].enqueue_shard implies n == k by {
        assert(moves@[n].lane() == moves@[k].lane());
        order::lemma_lex_irreflexive(cursor::lane_rank(moves@[k].lane()));
    }
    if is_in_lane(moves@[k], rows@[i]) {
        assert(j == k);
    }
}

/// Two requests about one lane.
pub open spec fn share_a_lane(a: ClaimCursorAdvance, b: ClaimCursorAdvance) -> bool {
    a.queue@ == b.queue@ && a.priority == b.priority && a.enqueue_shard == b.enqueue_shard
}

/// Requests to move cursors are merged: a lane that is to move outright moves
/// outright, as far as the farthest such request says; a conditional request is
/// kept where nothing moves its lane outright.
pub proof fn law_merged_requests_move_as_far(
    requests: &[ClaimCursorAdvance],
    merged: Vec<ClaimCursorAdvance>,
    i: int,
    k: int,
)
    requires
        call_ensures(normalize_claim_cursor_advances, (requests,), merged),
        0 <= i < requests@.len(),
        0 <= k < merged@.len(),
    ensures
        requests@[i].only_if_current is None ==> exists|j: int|
            0 <= j < merged@.len() && share_a_lane(#[trigger] merged@[j], requests@[i])
                && merged@[j].only_if_current is None && requests@[i].next_seq
                <= merged@[j].next_seq,
        exists|j: int|
            0 <= j < requests@.len() && share_a_lane(merged@[k], #[trigger] requests@[j])
                && requests@[j].only_if_current == merged@[k].only_if_current
                && requests@[j].next_seq == merged@[k].next_seq,
        share_a_lane(merged@[k], requests@[i]) && requests@[i].only_if_current is None
            ==> merged@[k].only_if_current is None && requests@[i].next_seq <= merged@[k].next_seq,
        (forall|j: int|
            0 <= j < requests@.len() && share_a_lane(#[trigger] requests@[j], requests@[i])
                ==> requests@[j].only_if_current is Some) ==> exists|j: int|
            0 <= j < merged@.len() && share_a_lane(#[trigger] merged@[j], requests@[i])
                && merged@[j].only_if_current == requests@[i].only_if_current
                && requests@[i].next_seq <= merged@[j].next_seq,
{
    assert(cursor::is_normalized(requests@, merged@));
    assert(cursor::farthest(requests@, merged@[k]));
    assert(cursor::effective(requests@, merged@[k]));
    let from = choose|j: int|
        0 <= j < requests@.len() && merged@[k].same_request(#[trigger] requests@[j])
            && merged@[k].next_seq == requests@[j].next_seq;
    assert(share_a_lane(merged@[k], requests@[from]));
    if share_a_lane(merged@[k], requests@[i]) && requests@[i].only_if_current is None {
        assert(requests@[i].lane() == merged@[k].lane());
        assert(cursor::moved_outright(requests@, merged@[k].lane()));
        assert(merged@[k].same_request(requests@[i]));
    }
    let alone = forall|j: int|
        0 <= j < requests@.len() && share_a_lane(#[trigger] requests@[j], requests@[i])
            ==> requests@[j].only_if_current is Some;
    if requests@[i].only_if_current is None || alone {
        if alone && cursor::moved_outright(requests@, requests@[i].lane()) {
            let j = choose|j: int|
                0 <= j < requests@.len() && (#[trigger] requests@[j]).lane() == requests@[i].lane()
                    && requests@[j].only_if_current is None;
            assert(share_a_lane(requests@[j], requests@[i]));
        }
        assert(cursor::effective(requests@, requests@[i]));
        assert(cursor::covers(merged@, requests@[i]));
        let j = choose|j: int|
            0 <= j < merged@.len() && (#[trigger] merged@[j]).same_request(requests@[i]);
        assert(share_a_lane(merged@[j], requests@[i]));
        assert(cursor::farthest(requests@, merged@[j]));
        assert(merged@[j].same_request(requests@[i]));
    }
}

/// A cursor is tried three times, at once first and each time a little later.
pub proof fn law_cursor_retries_are_three(attempt: u32, pause: Option<u64>, next: Option<u64>)
    requires
        attempt < u32::MAX,
        call_ensures(cursor_retry_millis, (attempt,), pause),
        call_ensures(cursor_retry_millis, ((attempt + 1) as u32,), next),
    ensures
        pause is Some <==> attempt < 3,
        attempt == 0 ==> pause == Some(0u64),
        pause is Some && next is Some ==> next->0 == pause->0 + 25,
{
}

/// A slow completion of nothing is over at once; without receipts all claims are
/// settled as leases; with them, claims by receipt come first where there are any.
pub proof fn law_slow_completion_begins_with_the_receipts(
    claimed: Vec<ClaimedRuntimeJob>,
    receipts: bool,
    run: SlowRun,
    i: int,
)
    requires
        call_ensures(SlowRun::start, (claimed, receipts), run),
        0 <= i < claimed@.len() <= usize::MAX,
    ensures
        run.claimed@ == claimed@,
        run.updated@.len() == 0,
        !(run.stage is Finished),
        run.stage is ClaimedLeases <==> !receipts,
        run.stage is Receipts && claimed@[i].claim.lease_claim_receipt
            ==> run.stage->split.receipts@.contains(i as usize),
        run.stage is Receipts && !claimed@[i].claim.lease_claim_receipt
            ==> run.stage->split.leases@.contains(i as usize)
            && !run.stage->split.receipts@.contains(i as usize),
        run.stage is Leases ==> !claimed@[i].claim.lease_claim_receipt
            && run.stage->members@.contains(i as usize),
{
    let by_receipt = |at: int| claimed@[at].claim.lease_claim_receipt;
    let by_lease = |at: int| !claimed@[at].claim.lease_claim_receipt;
    assert(run.begins(claimed, receipts));
    assert(by_receipt(i) || by_lease(i));
    if run.stage is Receipts {
        let held = run.stage->split.receipts@;
        if held.contains(i as usize) {
            let m = choose|m: int| 0 <= m < held.len() && held[m] == i as usize;
            assert(by_receipt(held[m] as int));
        }
    }
}

/// Each stage writes, for the attempts that it closed, the claimed jobs in their
/// completed form, and goes on: after the receipts to whatever they left open, and
/// then to the end.
pub proof fn law_slow_stage_completes_what_it_closed(
    run: SlowRun,
    closed: Vec<(i64, i64)>,
    finalized_at: Timestamp,
    next: SlowRun,
    done: Vec<DoneJobRow>,
    k: int,
)
    requires
        run.wf(),
        call_ensures(SlowRun::take, (run, closed, finalized_at), (next, done)),
        0 <= k < done@.len(),
    ensures
        next.claimed@ == run.claimed@,
        closed@.contains((done@[k].job_id, done@[k].run_lease)),
        exists|i: int|
            #![trigger run.claimed@[i]]
            0 <= i < run.claimed@.len() && keeping::is_completed_form(
                run.claimed@[i],
                finalized_at,
                done@[k],
            ),
        next.updated@.contains((done@[k].job_id, done@[k].run_lease)),
        next.stage is Leases ==> run.stage is Receipts,
        next.stage is Leases || next.stage is Finished,
{
    broadcast use vstd::seq_lib::group_filter_ensures;

    assert(run.goes_on_to(closed@, finalized_at, next, done));
    let on_claim = |pair: (i64, i64)| completion::claim_on(run.claimed@, pair) is Some;
    let known = closed@.filter(on_claim);
    let entry = completion::claim_on(run.claimed@, known[k])->0;
    assert(entry.completes_as(finalized_at, done@[k]));
    completion::lemma_claim_on(run.claimed@, known[k]);
    keeping::lemma_completed_form(entry, finalized_at, done@[k]);
    let i = choose|i: int| 0 <= i < run.claimed@.len() && run.claimed@[i] == entry;
    assert(run.claimed@[i] == entry);
    assert(known[k] == (done@[k].job_id, done@[k].run_lease));
    assert(known.contains(known[k]));
    closed@.lemma_filter_contains_rev(on_claim, known[k]);
    if run.stage is Receipts {
        let c = choose|c: int| 0 <= c < closed@.len() && closed@[c] == known[k];
        assert((run.updated@ + closed@)[run.updated@.len() + c] == known[k]);
    } else {
        assert((run.updated@ + known)[run.updated@.len() + k] == known[k]);
    }
}

/// What the receipts leave open is asked for as leases.
pub proof fn law_open_receipts_are_asked_for_again(
    run: SlowRun,
    closed: Vec<(i64, i64)>,
    finalized_at: Timestamp,
    next: SlowRun,
    done: Vec<DoneJobRow>,
    r: int,
)
    requires
        run.wf(),
        run.stage is Receipts,
        call_ensures(SlowRun::take, (run, closed, finalized_at), (next, done)),
        0 <= r < run.stage->split.receipts@.len(),
    ensures
        ({
            let at = run.stage->split.receipts@[r];
            let pair = (
                run.claimed@[at as int].job.id,
                run.claimed@[at as int].job.run_lease,
            );
            !run.updated@.contains(pair) && !closed@.contains(pair) ==> next.stage is Leases
                && next.stage->members@.contains(at)
        }),
{
    broadcast use vstd::seq_lib::group_filter_ensures;

    assert(run.goes_on_to(closed@, finalized_at, next, done));
    let split = run.stage->split;
    let at = split.receipts@[r];
    let pair = (run.claimed@[at as int].job.id, run.claimed@[at as int].job.run_lease);
    if !run.updated@.contains(pair) && !closed@.contains(pair) {
        let all = run.updated@ + closed@;
        if all.contains(pair) {
            let c = choose|c: int| 0 <= c < all.len() && all[c] == pair;
            if c < run.updated@.len() {
                assert(run.updated@[c] == pair);
            } else {
                assert(closed@[c - run.updated@.len()] == pair);
            }
        }
        let open = |i: usize| !all.contains(completion::attempt_of(run.claimed@[i as int]));
        assert(open(at));
        let rest = split.receipts@.filter(open);
        assert(rest.contains(at));
        let m = choose|m: int| 0 <= m < rest.len() && rest[m] == at;
        let leases = split.leases@ + rest;
        assert(leases[split.leases@.len() + m] == at);
    }
}

/// Attempts to lock, ids and texts are gone through in order, each once, none left
/// out and none added.
pub proof fn law_lists_are_gone_through_in_order(
    pairs: Vec<(i64, i64)>,
    locked: Vec<(i64, i64)>,
    ids: Vec<i64>,
    sorted: Vec<i64>,
    pair: (i64, i64),
    id: i64,
)
    requires
        call_ensures(distinct_attempts, (&pairs,), locked),
        call_ensures(distinct_ids, (ids,), sorted),
    ensures
        locked@.contains(pair) <==> pairs@.contains(pair),
        locked@.no_duplicates(),
        forall|j: int, k: int|
            0 <= j < k < locked@.len() ==> (#[trigger] locked@[j]).0 <= (#[trigger] locked@[k]).0,
        sorted@.contains(id) <==> ids@.contains(id),
        forall|j: int, k: int|
            0 <= j < k < sorted@.len() ==> (#[trigger] sorted@[j]) < (#[trigger] sorted@[k]),
{
    let args = (&pairs,);
    assert(locked@.contains(pair) <==> args.0@.contains(pair));
}

/// Texts are listed each once, none left out and none added.
pub proof fn law_texts_are_listed_once(
    items: Vec<String>,
    listed: Vec<String>,
    i: int,
    j: int,
    k: int,
)
    requires
        call_ensures(distinct_texts, (items,), listed),
        0 <= i < items@.len(),
        0 <= j < k < listed@.len(),
    ensures
        exists|n: int| 0 <= n < listed@.len() && (#[trigger] listed@[n])@ == items@[i]@,
        exists|n: int| 0 <= n < items@.len() && (#[trigger] items@[n])@ == listed@[j]@,
        listed@[j]@ != listed@[k]@,
{
    assert(distinct::lists(items@, items@[i]@));
    assert(distinct::lists(listed@, items@[i]@));
    assert(distinct::lists(listed@, listed@[j]@));
    assert(distinct::lists(items@, listed@[j]@));
    order::lemma_lex_irreflexive(order::text_rank(listed@[k]@));
}

/// Two keys of roll-ups for one queue and priority.
pub open spec fn same_rollup(a: RollupKey, b: RollupKey) -> bool {
    a.queue@ == b.queue@ && a.priority == b.priority
}

/// What changes come to for a queue and priority, all of them taken together.
pub open spec fn changes_for(deltas: Seq<Tally<RollupKey>>, key: RollupKey) -> (int, int)
    decreases deltas.len(),
{
    if deltas.len() == 0 {
        (0, 0)
    } else {
        let before = changes_for(deltas.drop_last(), key);
        let last = deltas.last();
        if same_rollup(last.key, key) {
            (before.0 + last.first, before.1 + last.second)
        } else {
            before
        }
    }
}

proof fn lemma_rollup_rank(a: RollupKey, b: RollupKey)
    ensures
        same_rollup(a, b) == (enqueue::queue_rank(a.queue@, seq![a.priority as int])
            == enqueue::queue_rank(b.queue@, seq![b.priority as int])),
{
    let na = seq![a.priority as int];
    let nb = seq![b.priority as int];
    if enqueue::queue_rank(a.queue@, na) == enqueue::queue_rank(b.queue@, nb) {
        enqueue::lemma_queue_rank_injective(a.queue@, na, b.queue@, nb);
        assert(na[0] == nb[0]);
    }
}

proof fn lemma_changes(deltas: Seq<Tally<RollupKey>>, key: RollupKey)
    ensures
        ({
            let rank = enqueue::queue_rank(key.queue@, seq![key.priority as int]);
            let actual = deltas.filter(|item: Tally<RollupKey>| terminal::is_change(item));
            changes_for(deltas, key) == (
                tally::sum_first(actual, rank),
                tally::sum_second(actual, rank),
            )
        }),
    decreases deltas.len(),
{
    reveal(Seq::filter);
    if deltas.len() > 0 {
        lemma_changes(deltas.drop_last(), key);
        lemma_rollup_rank(deltas.last().key, key);
        let changing = |item: Tally<RollupKey>| terminal::is_change(item);
        let rest = deltas.drop_last().filter(changing);
        let actual = deltas.filter(changing);
        if changing(deltas.last()) {
            assert(actual == rest.push(deltas.last()));
            assert(actual.drop_last() =~= rest);
            assert(actual.last() == deltas.last());
        } else {
            assert(actual == rest);
        }
    }
}

/// Adjustments of the roll-ups come to the changes, one for each queue and priority
/// that changes.
pub proof fn law_adjustments_come_to_the_changes(
    deltas: Vec<Tally<RollupKey>>,
    out: Vec<Tally<RollupKey>>,
    j: int,
    k: int,
    i: int,
)
    requires
        tally::sums_fit(
            deltas@.filter(|item: Tally<RollupKey>| terminal::is_change(item)),
        ),
        call_ensures(rollup_adjustments, (deltas,), out),
        0 <= j < out@.len(),
        0 <= k < out@.len(),
        0 <= i < deltas@.len(),
    ensures
        (out@[k].first as int, out@[k].second as int) == changes_for(deltas@, out@[k].key),
        same_rollup(out@[j].key, out@[k].key) ==> j == k,
        deltas@[i].first != 0 || deltas@[i].second != 0 ==> exists|n: int|
            0 <= n < out@.len() && same_rollup((#[trigger] out@[n]).key, deltas@[i].key),
{
    broadcast use vstd::seq_lib::group_filter_ensures;

    let changing = |item: Tally<RollupKey>| terminal::is_change(item);
    let actual = deltas@.filter(changing);
    assert(tally::is_tally(actual, out@));
    lemma_changes(deltas@, out@[k].key);
    assert(tally::holds_sums(actual, out@[k]));
    lemma_rollup_rank(out@[j].key, out@[k].key);
    order::lemma_lex_irreflexive(
        enqueue::queue_rank(out@[k].key.queue@, seq![out@[k].key.priority as int]),
    );
    if deltas@[i].first != 0 || deltas@[i].second != 0 {
        assert(changing(deltas@[i]));
        assert(actual.contains(deltas@[i]));
        let r = choose|r: int| 0 <= r < actual.len() && actual[r] == deltas@[i];
        let rank = enqueue::queue_rank(
            deltas@[i].key.queue@,
            seq![deltas@[i].key.priority as int],
        );
        assert(tally::occurs(out@, order::Ranked::rank(&actual[r].key)));
        let n = choose|n: int|
            0 <= n < out@.len() && order::Ranked::rank(&(#[trigger] out@[n]).key) == rank;
        lemma_rollup_rank(out@[n].key, deltas@[i].key);
        assert(same_rollup(out@[n].key, deltas@[i].key));
    }
}

} // verus!
