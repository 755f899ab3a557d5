//! Terminal rows: in which form they are written, and what they add to the
//! terminal counters.
use crate::enqueue;
use crate::job::JobState;
use crate::order;
use crate::order::Ranked;
use crate::payload;
use crate::routing;
use crate::rows::DoneJobRow;
use crate::tally;
use crate::tally::Tally;
use serde_json::Value;
use vstd::prelude::*;
use vstd::string::*;

verus! {

/// What a terminal counter is kept under: the ready slot and generation, the
/// lane, and the job's bucket.
pub type CounterKeyView = (i32, i64, Seq<char>, i16, i16, i16);

#[derive(Debug)]
pub struct TerminalCounterKey {
    pub ready_slot: i32,
    pub ready_generation: i64,
    pub queue: String,
    pub priority: i16,
    pub enqueue_shard: i16,
    pub counter_bucket: i16,
}

impl View for TerminalCounterKey {
    type V = CounterKeyView;

    open spec fn view(&self) -> CounterKeyView {
        (
            self.ready_slot,
            self.ready_generation,
            self.queue@,
            self.priority,
            self.enqueue_shard,
            self.counter_bucket,
        )
    }
}

/// The sequence by which counter keys are ordered.
pub open spec fn counter_rank(key: CounterKeyView) -> Seq<int> {
    seq![key.0 as int] + (seq![key.1 as int] + enqueue::queue_rank(
        key.2,
        seq![key.3 as int, key.4 as int, key.5 as int],
    ))
}

pub proof fn lemma_counter_rank_injective(a: CounterKeyView, b: CounterKeyView)
    requires
        counter_rank(a) == counter_rank(b),
    ensures
        a == b,
{
    let ra = counter_rank(a);
    let rb = counter_rank(b);
    let ta = enqueue::queue_rank(a.2, seq![a.3 as int, a.4 as int, a.5 as int]);
    let tb = enqueue::queue_rank(b.2, seq![b.3 as int, b.4 as int, b.5 as int]);
    assert(ra[0] == a.0 && rb[0] == b.0);
    assert(ra[1] == a.1 && rb[1] == b.1);
    assert(ta =~= ra.subrange(2, ra.len() as int));
    assert(tb =~= rb.subrange(2, rb.len() as int));
    let na = seq![a.3 as int, a.4 as int, a.5 as int];
    let nb = seq![b.3 as int, b.4 as int, b.5 as int];
    enqueue::lemma_queue_rank_injective(a.2, na, b.2, nb);
    assert(na[0] == nb[0] && na[1] == nb[1] && na[2] == nb[2]);
}

impl Ranked for TerminalCounterKey {
    open spec fn rank(&self) -> Seq<int> {
        counter_rank(self@)
    }

    fn before(&self, other: &Self) -> (r: bool) {
        proof {
            let na = seq![
                self.priority as int,
                self.enqueue_shard as int,
                self.counter_bucket as int,
            ];
            let nb = seq![
                other.priority as int,
                other.enqueue_shard as int,
                other.counter_bucket as int,
            ];
            let qa = enqueue::queue_rank(self.queue@, na);
            let qb = enqueue::queue_rank(other.queue@, nb);
            enqueue::lemma_queue_rank(self.queue@, na, other.queue@, nb);
            order::lemma_lex_three(na[0], na[1], na[2], nb[0], nb[1], nb[2]);
            order::lemma_lex_head(
                self.ready_generation as int,
                qa,
                other.ready_generation as int,
                qb,
            );
            order::lemma_lex_head(
                self.ready_slot as int,
                seq![self.ready_generation as int] + qa,
                other.ready_slot as int,
                seq![other.ready_generation as int] + qb,
            );
        }
        if self.ready_slot != other.ready_slot {
            self.ready_slot < other.ready_slot
        } else if self.ready_generation != other.ready_generation {
            self.ready_generation < other.ready_generation
        } else if self.queue == other.queue {
            if self.priority != other.priority {
                self.priority < other.priority
            } else if self.enqueue_shard != other.enqueue_shard {
                self.enqueue_shard < other.enqueue_shard
            } else {
                self.counter_bucket < other.counter_bucket
            }
        } else {
            order::text_before(self.queue.as_str(), other.queue.as_str())
        }
    }
}

/// The counter that a terminal row belongs to.
pub open spec fn counter_key(row: DoneJobRow) -> CounterKeyView {
    (
        row.ready_slot,
        row.ready_generation,
        row.queue@,
        row.priority,
        row.enqueue_shard,
        (row.job_id as int % 256) as i16,
    )
}

pub open spec fn counter_keys(rows: Seq<DoneJobRow>) -> Seq<CounterKeyView> {
    rows.map_values(|row: DoneJobRow| counter_key(row))
}

pub open spec fn key_views(keys: Seq<TerminalCounterKey>) -> Seq<CounterKeyView> {
    keys.map_values(|key: TerminalCounterKey| key@)
}

/// The counters that terminal rows belong to, row by row.
pub fn done_rows_to_counter_keys(rows: &Vec<DoneJobRow>) -> (keys: Vec<TerminalCounterKey>)
    ensures
        key_views(keys@) == counter_keys(rows@),
{
    let mut keys: Vec<TerminalCounterKey> = Vec::new();
    let mut i: usize = 0;
    while i < rows.len()
        invariant
            i <= rows@.len(),
            keys@.len() == i,
            forall|k: int| 0 <= k < i ==> (#[trigger] keys@[k])@ == counter_key(rows@[k]),
        decreases rows.len() - i,
    {
        let row = &rows[i];
        keys.push(
            TerminalCounterKey {
                ready_slot: row.ready_slot,
                ready_generation: row.ready_generation,
                queue: row.queue.clone(),
                priority: row.priority,
                enqueue_shard: row.enqueue_shard,
                counter_bucket: routing::terminal_counter_bucket(row.job_id),
            },
        );
        i = i + 1;
    }
    assert(key_views(keys@) =~= counter_keys(rows@));
    keys
}

/// How many rows belong to a counter.
pub open spec fn count_key(keys: Seq<CounterKeyView>, key: CounterKeyView) -> nat
    decreases keys.len(),
{
    if keys.len() == 0 {
        0
    } else {
        count_key(keys.drop_last(), key) + (if keys.last() == key {
            1nat
        } else {
            0nat
        })
    }
}

/// The delta that a list of changes holds for a counter.
pub open spec fn delta_under(out: Seq<Tally<TerminalCounterKey>>, key: CounterKeyView) -> int {
    tally::sum_first(out, counter_rank(key))
}

/// `out` changes the counter of each row by one in the direction of `sign`: one
/// change for each counter, by the number of its rows, in the order of the
/// counters.
pub open spec fn counts_rows(
    keys: Seq<CounterKeyView>,
    sign: int,
    out: Seq<Tally<TerminalCounterKey>>,
) -> bool {
    &&& forall|k: int|
        0 <= k < out.len() ==> (#[trigger] out[k]).first == sign * count_key(keys, out[k].key@)
            && count_key(keys, out[k].key@) > 0
    &&& forall|key: CounterKeyView| #[trigger] delta_under(out, key) == sign * count_key(keys, key)
    &&& forall|j: int, k: int|
        0 <= j < k < out.len() ==> order::lex_lt(
            counter_rank((#[trigger] out[j]).key@),
            counter_rank((#[trigger] out[k]).key@),
        )
    &&& tally::total_first(out) == sign * keys.len()
}

spec fn unit_items(
    items: Seq<Tally<TerminalCounterKey>>,
    keys: Seq<CounterKeyView>,
    sign: int,
) -> bool {
    &&& items.len() == keys.len()
    &&& forall|i: int|
        0 <= i < items.len() ==> (#[trigger] items[i]).key@ == keys[i] && items[i].first == sign
            && items[i].second == 0
}

proof fn lemma_unit_sums(
    items: Seq<Tally<TerminalCounterKey>>,
    keys: Seq<CounterKeyView>,
    sign: int,
    key: CounterKeyView,
)
    requires
        unit_items(items, keys, sign),
    ensures
        tally::sum_first(items, counter_rank(key)) == sign * count_key(keys, key),
        tally::sum_second(items, counter_rank(key)) == 0,
        count_key(keys, key) <= keys.len(),
    decreases items.len(),
{
    if items.len() > 0 {
        let rest = items.drop_last();
        let rest_keys = keys.drop_last();
        assert forall|i: int| 0 <= i < rest.len() implies (#[trigger] rest[i]).key@ == rest_keys[i]
            && rest[i].first == sign && rest[i].second == 0 by {
            assert(items[i].key@ == keys[i]);
        }
        lemma_unit_sums(rest, rest_keys, sign, key);
        assert(items[items.len() - 1].key@ == keys[keys.len() - 1]);
        if items.last().key.rank() == counter_rank(key) {
            lemma_counter_rank_injective(items.last().key@, key);
        }
        let c = count_key(rest_keys, key);
        assert(sign * (c + 1) == sign * c + sign) by (nonlinear_arith);
        assert(sign * (c + 0) == sign * c) by (nonlinear_arith);
    } else {
        assert(sign * 0 == 0) by (nonlinear_arith);
    }
}

proof fn lemma_unit_sums_fit(
    items: Seq<Tally<TerminalCounterKey>>,
    keys: Seq<CounterKeyView>,
    sign: int,
)
    requires
        unit_items(items, keys, sign),
        sign == 1 || sign == -1,
        items.len() <= i64::MAX,
    ensures
        tally::sums_fit(items),
{
    assert forall|n: int, rank: Seq<int>| 0 <= n <= items.len() implies i64::MIN
        <= #[trigger] tally::sum_first(items.subrange(0, n), rank) <= i64::MAX && i64::MIN
        <= tally::sum_second(items.subrange(0, n), rank) <= i64::MAX by {
        lemma_unit_sums_bounded(items.subrange(0, n), sign, rank);
    }
}

proof fn lemma_unit_sums_bounded(
    items: Seq<Tally<TerminalCounterKey>>,
    sign: int,
    rank: Seq<int>,
)
    requires
        forall|i: int|
            0 <= i < items.len() ==> (#[trigger] items[i]).first == sign && items[i].second == 0,
        sign == 1 || sign == -1,
    ensures
        -items.len() <= tally::sum_first(items, rank) <= items.len(),
        tally::sum_second(items, rank) == 0,
    decreases items.len(),
{
    if items.len() > 0 {
        let rest = items.drop_last();
        assert forall|i: int| 0 <= i < rest.len() implies (#[trigger] rest[i]).first == sign
            && rest[i].second == 0 by {
            assert(items[i].first == sign);
        }
        lemma_unit_sums_bounded(rest, sign, rank);
        assert(items[items.len() - 1].first == sign);
    }
}

proof fn lemma_unit_total(items: Seq<Tally<TerminalCounterKey>>, sign: int)
    requires
        forall|i: int| 0 <= i < items.len() ==> (#[trigger] items[i]).first == sign,
    ensures
        tally::total_first(items) == sign * items.len(),
    decreases items.len(),
{
    if items.len() > 0 {
        let rest = items.drop_last();
        assert forall|i: int| 0 <= i < rest.len() implies (#[trigger] rest[i]).first == sign by {
            assert(items[i].first == sign);
        }
        lemma_unit_total(rest, sign);
        assert(items[items.len() - 1].first == sign);
        let n = rest.len() as int;
        assert(sign * (n + 1) == sign * n + sign) by (nonlinear_arith);
    } else {
        assert(sign * 0 == 0) by (nonlinear_arith);
    }
}

proof fn lemma_sum_of_tally(
    items: Seq<Tally<TerminalCounterKey>>,
    out: Seq<Tally<TerminalCounterKey>>,
    n: int,
    rank: Seq<int>,
)
    requires
        tally::is_tally(items, out),
        0 <= n <= out.len(),
    ensures
        tally::sum_first(out.subrange(0, n), rank) == (if exists|k: int|
            0 <= k < n && (#[trigger] out[k]).key.rank() == rank {
            tally::sum_first(items, rank)
        } else {
            0
        }),
    decreases n,
{
    if n > 0 {
        lemma_sum_of_tally(items, out, n - 1, rank);
        assert(out.subrange(0, n).drop_last() =~= out.subrange(0, n - 1));
        assert(out.subrange(0, n).last() == out[n - 1]);
        assert(tally::holds_sums(items, out[n - 1]));
        if out[n - 1].key.rank() == rank {
            assert forall|k: int| 0 <= k < n - 1 implies (#[trigger] out[k]).key.rank() != rank by {
                assert(order::lex_lt(out[k].key.rank(), out[n - 1].key.rank()));
                order::lemma_lex_irreflexive(rank);
            }
        }
    }
}

proof fn lemma_counts_rows(
    items: Seq<Tally<TerminalCounterKey>>,
    keys: Seq<CounterKeyView>,
    sign: int,
    out: Seq<Tally<TerminalCounterKey>>,
)
    requires
        unit_items(items, keys, sign),
        sign == 1 || sign == -1,
        tally::is_tally(items, out),
    ensures
        counts_rows(keys, sign, out),
{
    assert forall|k: int| 0 <= k < out.len() implies (#[trigger] out[k]).first == sign * count_key(
        keys,
        out[k].key@,
    ) && count_key(keys, out[k].key@) > 0 by {
        assert(tally::holds_sums(items, out[k]));
        lemma_unit_sums(items, keys, sign, out[k].key@);
        assert(tally::occurs(items, out[k].key.rank()));
        let i = choose|i: int|
            0 <= i < items.len() && (#[trigger] items[i]).key.rank() == out[k].key.rank();
        lemma_counter_rank_injective(items[i].key@, out[k].key@);
        assert(keys[i] == out[k].key@);
        lemma_count_positive(keys, i);
    }
    assert forall|key: CounterKeyView| #[trigger] delta_under(out, key) == sign * count_key(
        keys,
        key,
    ) by {
        let rank = counter_rank(key);
        lemma_sum_of_tally(items, out, out.len() as int, rank);
        assert(out.subrange(0, out.len() as int) =~= out);
        lemma_unit_sums(items, keys, sign, key);
        if !(exists|k: int| 0 <= k < out.len() && (#[trigger] out[k]).key.rank() == rank) {
            assert(!tally::occurs(items, rank)) by {
                if tally::occurs(items, rank) {
                    let i = choose|i: int|
                        0 <= i < items.len() && (#[trigger] items[i]).key.rank() == rank;
                    assert(tally::occurs(out, items[i].key.rank()));
                }
            }
            tally::lemma_sum_absent(items, rank);
        }
    }
    tally::law_tally_conserves(items, out);
    assert forall|i: int| 0 <= i < items.len() implies (#[trigger] items[i]).first == sign by {
        assert(items[i].key@ == keys[i]);
    }
    lemma_unit_total(items, sign);
}

pub proof fn lemma_count_positive(keys: Seq<CounterKeyView>, i: int)
    requires
        0 <= i < keys.len(),
    ensures
        count_key(keys, keys[i]) > 0,
    decreases keys.len(),
{
    if i < keys.len() - 1 {
        assert(keys.drop_last()[i] == keys[i]);
        lemma_count_positive(keys.drop_last(), i);
    }
}

fn counter_changes(keys: Vec<TerminalCounterKey>, sign: i64) -> (out: Vec<
    Tally<TerminalCounterKey>,
>)
    requires
        sign == 1 || sign == -1,
        keys@.len() <= i64::MAX,
    ensures
        counts_rows(key_views(keys@), sign as int, out@),
{
    let ghost all = keys@;
    let mut items: Vec<Tally<TerminalCounterKey>> = Vec::new();
    for key in it: keys
        invariant
            it.seq() == all,
            items@.len() == it.index(),
            forall|i: int|
                0 <= i < items@.len() ==> (#[trigger] items@[i]).key@ == key_views(all)[i]
                    && items@[i].first == sign && items@[i].second == 0,
    {
        assert(key == all[it.index()]);
        items.push(Tally { key, first: sign, second: 0 });
    }
    proof {
        lemma_unit_sums_fit(items@, key_views(all), sign as int);
    }
    let ghost items_seq = items@;
    let out = tally::tally(items);
    proof {
        lemma_counts_rows(items_seq, key_views(all), sign as int, out@);
    }
    out
}

/// The counter changes for terminal rows that have been added.
pub fn terminal_count_increments(rows: &Vec<DoneJobRow>) -> (out: Vec<Tally<TerminalCounterKey>>)
    requires
        rows@.len() <= i64::MAX,
    ensures
        counts_rows(counter_keys(rows@), 1, out@),
{
    let keys = done_rows_to_counter_keys(rows);
    proof {
        assert(key_views(keys@).len() == keys@.len());
        assert(counter_keys(rows@).len() == rows@.len());
    }
    counter_changes(keys, 1)
}

/// The counter changes for terminal rows that have been removed.
pub fn terminal_count_decrements(keys: Vec<TerminalCounterKey>) -> (out: Vec<
    Tally<TerminalCounterKey>,
>)
    requires
        keys@.len() <= i64::MAX,
    ensures
        counts_rows(key_views(keys@), -1, out@),
{
    counter_changes(keys, -1)
}

/// Removing rows takes back exactly what adding them counted, counter by
/// counter and in total.
pub proof fn law_removal_takes_back(
    keys: Seq<CounterKeyView>,
    added: Seq<Tally<TerminalCounterKey>>,
    removed: Seq<Tally<TerminalCounterKey>>,
    key: CounterKeyView,
)
    requires
        counts_rows(keys, 1, added),
        counts_rows(keys, -1, removed),
    ensures
        delta_under(added, key) + delta_under(removed, key) == 0,
        tally::total_first(added) + tally::total_first(removed) == 0,
{
    assert(delta_under(added, key) == 1 * count_key(keys, key));
    assert(delta_under(removed, key) == -1 * count_key(keys, key));
}

/// A permanent rollup is kept under a queue and a priority.
#[derive(Debug)]
pub struct RollupKey {
    pub queue: String,
    pub priority: i16,
}

impl Ranked for RollupKey {
    open spec fn rank(&self) -> Seq<int> {
        enqueue::queue_rank(self.queue@, seq![self.priority as int])
    }

    fn before(&self, other: &Self) -> (r: bool) {
        proof {
            let none = Seq::<int>::empty();
            enqueue::lemma_queue_rank(
                self.queue@,
                seq![self.priority as int],
                other.queue@,
                seq![other.priority as int],
            );
            order::lemma_lex_head(self.priority as int, none, other.priority as int, none);
            assert(seq![self.priority as int] + none =~= seq![self.priority as int]);
            assert(seq![other.priority as int] + none =~= seq![other.priority as int]);
        }
        if self.queue == other.queue {
            self.priority < other.priority
        } else {
            order::text_before(self.queue.as_str(), other.queue.as_str())
        }
    }
}

/// The change adds something to the completed or the failed count.
pub open spec fn is_change(item: Tally<RollupKey>) -> bool {
    item.first != 0 || item.second != 0
}

/// Sums what a prune folds into the permanent rollups, per queue and priority:
/// completed rows first, failed rows second. Changes by nothing are left out.
pub fn rollup_adjustments(deltas: Vec<Tally<RollupKey>>) -> (out: Vec<Tally<RollupKey>>)
    requires
        tally::sums_fit(deltas@.filter(|item: Tally<RollupKey>| is_change(item))),
    ensures
        tally::is_tally(deltas@.filter(|item: Tally<RollupKey>| is_change(item)), out@),
{
    let ghost all = deltas@;
    let ghost changes = |item: Tally<RollupKey>| is_change(item);
    let mut kept: Vec<Tally<RollupKey>> = Vec::new();
    proof {
        reveal(Seq::filter);
        assert(all.subrange(0, 0).filter(changes) =~= Seq::empty());
    }
    for item in it: deltas
        invariant
            it.seq() == all,
            changes == (|item: Tally<RollupKey>| is_change(item)),
            kept@ == all.subrange(0, it.index()).filter(changes),
    {
        assert(item == all[it.index()]);
        proof {
            reveal(Seq::filter);
            let next = all.subrange(0, it.index() + 1);
            assert(next.drop_last() =~= all.subrange(0, it.index()));
            assert(next.last() == item);
        }
        if item.first != 0 || item.second != 0 {
            kept.push(item);
        }
    }
    assert(all.subrange(0, all.len() as int) =~= all);
    tally::tally(kept)
}

/// A terminal row's place in the order in which rows are written.
struct DoneKey {
    ready_slot: i32,
    ready_generation: i64,
    queue: String,
    priority: i16,
    enqueue_shard: i16,
    lane_seq: i64,
    job_id: i64,
    index: usize,
}

/// The sequence by which terminal rows are written: ready slot, generation,
/// queue, priority, shard, lane position, job id.
pub open spec fn done_rank(row: DoneJobRow) -> Seq<int> {
    done_rank_parts(
        row.ready_slot,
        row.ready_generation,
        row.queue@,
        row.priority,
        row.enqueue_shard,
        row.lane_seq,
        row.job_id,
    )
}

pub open spec fn done_rank_parts(
    ready_slot: i32,
    ready_generation: i64,
    queue: Seq<char>,
    priority: i16,
    enqueue_shard: i16,
    lane_seq: i64,
    job_id: i64,
) -> Seq<int> {
    seq![ready_slot as int] + (seq![ready_generation as int] + enqueue::queue_rank(
        queue,
        seq![priority as int, enqueue_shard as int, lane_seq as int, job_id as int],
    ))
}

impl Ranked for DoneKey {
    closed spec fn rank(&self) -> Seq<int> {
        done_rank_parts(
            self.ready_slot,
            self.ready_generation,
            self.queue@,
            self.priority,
            self.enqueue_shard,
            self.lane_seq,
            self.job_id,
        )
    }

    fn before(&self, other: &Self) -> (r: bool) {
        proof {
            let na = seq![
                self.priority as int,
                self.enqueue_shard as int,
                self.lane_seq as int,
                self.job_id as int,
            ];
            let nb = seq![
                other.priority as int,
                other.enqueue_shard as int,
                other.lane_seq as int,
                other.job_id as int,
            ];
            let qa = enqueue::queue_rank(self.queue@, na);
            let qb = enqueue::queue_rank(other.queue@, nb);
            enqueue::lemma_queue_rank(self.queue@, na, other.queue@, nb);
            order::lemma_lex_four(na[0], na[1], na[2], na[3], nb[0], nb[1], nb[2], nb[3]);
            order::lemma_lex_head(
                self.ready_generation as int,
                qa,
                other.ready_generation as int,
                qb,
            );
            order::lemma_lex_head(
                self.ready_slot as int,
                seq![self.ready_generation as int] + qa,
                other.ready_slot as int,
                seq![other.ready_generation as int] + qb,
            );
        }
        if self.ready_slot != other.ready_slot {
            self.ready_slot < other.ready_slot
        } else if self.ready_generation != other.ready_generation {
            self.ready_generation < other.ready_generation
        } else if self.queue == other.queue {
            if self.priority != other.priority {
                self.priority < other.priority
            } else if self.enqueue_shard != other.enqueue_shard {
                self.enqueue_shard < other.enqueue_shard
            } else if self.lane_seq != other.lane_seq {
                self.lane_seq < other.lane_seq
            } else {
                self.job_id < other.job_id
            }
        } else {
            order::text_before(self.queue.as_str(), other.queue.as_str())
        }
    }
}

/// How a batch of terminal rows is written, as positions in the batch: the rows
/// that the ready plane backs, which are written narrow, and the others, which
/// are written in full.
#[derive(Debug)]
pub struct DonePlan {
    pub ready_backed: Vec<usize>,
    pub synthetic: Vec<usize>,
}

/// The row may rely on its ready row: its attempt was under way, and it holds a
/// lane position.
pub open spec fn is_ready_backed(old_state: Option<JobState>, row: DoneJobRow) -> bool {
    (old_state matches Some(state) && state.in_flight()) && row.lane_seq >= 0
}

/// `places` lists different positions of the batch in the order in which rows
/// are written.
pub open spec fn in_write_order(rows: Seq<DoneJobRow>, places: Seq<usize>) -> bool {
    &&& forall|i: int| 0 <= i < places.len() ==> (#[trigger] places[i]) < rows.len()
    &&& forall|i: int, j: int|
        #![trigger places[i], places[j]]
        0 <= i < j < places.len() ==> places[i] != places[j] && !order::lex_lt(
            done_rank(rows[places[j] as int]),
            done_rank(rows[places[i] as int]),
        )
}

/// `plan` writes every row of the batch once, in order, in the form that its
/// backing allows.
pub open spec fn is_done_plan(
    rows: Seq<DoneJobRow>,
    old_state: Option<JobState>,
    plan: DonePlan,
) -> bool {
    &&& in_write_order(rows, plan.ready_backed@)
    &&& in_write_order(rows, plan.synthetic@)
    &&& forall|i: int|
        0 <= i < plan.ready_backed@.len() ==> is_ready_backed(
            old_state,
            rows[(#[trigger] plan.ready_backed@[i]) as int],
        )
    &&& forall|i: int|
        0 <= i < plan.synthetic@.len() ==> !is_ready_backed(
            old_state,
            rows[(#[trigger] plan.synthetic@[i]) as int],
        )
    &&& plan.ready_backed@.len() + plan.synthetic@.len() == rows.len()
}

spec fn mirrors_rows(rows: Seq<DoneJobRow>, keys: Seq<DoneKey>) -> bool {
    &&& keys.len() == rows.len()
    &&& forall|i: int|
        0 <= i < keys.len() ==> (#[trigger] keys[i]).index == i && keys[i].rank() == done_rank(
            rows[i],
        ) && keys[i].lane_seq == rows[i].lane_seq
}

/// Decides how a batch of terminal rows is written.
pub fn plan_done_rows(rows: &Vec<DoneJobRow>, old_state: Option<JobState>) -> (plan: DonePlan)
    ensures
        is_done_plan(rows@, old_state, plan),
{
    let keep_ready_backing = match old_state {
        Some(state) => state.is_in_flight(),
        None => false,
    };
    let mut keys: Vec<DoneKey> = Vec::new();
    let mut i: usize = 0;
    while i < rows.len()
        invariant
            i <= rows@.len(),
            keys@.len() == i,
            forall|k: int|
                0 <= k < i ==> (#[trigger] keys@[k]).index == k && keys@[k].rank() == done_rank(
                    rows@[k],
                ) && keys@[k].lane_seq == rows@[k].lane_seq,
        decreases rows.len() - i,
    {
        let row = &rows[i];
        keys.push(
            DoneKey {
                ready_slot: row.ready_slot,
                ready_generation: row.ready_generation,
                queue: row.queue.clone(),
                priority: row.priority,
                enqueue_shard: row.enqueue_shard,
                lane_seq: row.lane_seq,
                job_id: row.job_id,
                index: i,
            },
        );
        i = i + 1;
    }
    let ghost keys_seq = keys@;
    assert(mirrors_rows(rows@, keys_seq));
    let sorted = order::sort_ranked(keys);
    let ghost source = choose|source: Seq<int>| order::is_stable_sort(keys_seq, sorted@, source);
    let mut plan = DonePlan { ready_backed: Vec::new(), synthetic: Vec::new() };
    let ghost mut backed_at: Seq<int> = Seq::empty();
    let ghost mut synthetic_at: Seq<int> = Seq::empty();
    let mut n: usize = 0;
    while n < sorted.len()
        invariant
            n <= sorted@.len(),
            mirrors_rows(rows@, keys_seq),
            order::is_stable_sort(keys_seq, sorted@, source),
            keep_ready_backing == (old_state matches Some(state) && state.in_flight()),
            plan.ready_backed@.len() + plan.synthetic@.len() == n,
            picks_places(sorted@, plan.ready_backed@, backed_at, n as int),
            picks_places(sorted@, plan.synthetic@, synthetic_at, n as int),
            forall|k: int|
                0 <= k < plan.ready_backed@.len() ==> is_ready_backed(
                    old_state,
                    rows@[(#[trigger] plan.ready_backed@[k]) as int],
                ),
            forall|k: int|
                0 <= k < plan.synthetic@.len() ==> !is_ready_backed(
                    old_state,
                    rows@[(#[trigger] plan.synthetic@[k]) as int],
                ),
        decreases sorted.len() - n,
    {
        let key = &sorted[n];
        proof {
            assert(sorted@[n as int] == keys_seq[source[n as int]]);
            assert(keys_seq[source[n as int]].index == source[n as int]);
        }
        if keep_ready_backing && key.lane_seq >= 0 {
            plan.ready_backed.push(key.index);
            proof {
                backed_at = backed_at.push(n as int);
            }
        } else {
            plan.synthetic.push(key.index);
            proof {
                synthetic_at = synthetic_at.push(n as int);
            }
        }
        n = n + 1;
    }
    proof {
        lemma_picks_in_order(rows@, keys_seq, sorted@, source, plan.ready_backed@, backed_at);
        lemma_picks_in_order(rows@, keys_seq, sorted@, source, plan.synthetic@, synthetic_at);
    }
    plan
}

/// `places` are the batch positions of the sorted keys at `at`, which grow and
/// stay below `n`.
spec fn picks_places(sorted: Seq<DoneKey>, places: Seq<usize>, at: Seq<int>, n: int) -> bool {
    &&& places.len() == at.len()
    &&& forall|k: int|
        #![trigger places[k]]
        #![trigger at[k]]
        0 <= k < at.len() ==> 0 <= at[k] < n && places[k] == sorted[at[k]].index
    &&& forall|j: int, k: int|
        0 <= j < k < at.len() ==> (#[trigger] at[j]) < (#[trigger] at[k])
}

proof fn lemma_picks_in_order(
    rows: Seq<DoneJobRow>,
    keys: Seq<DoneKey>,
    sorted: Seq<DoneKey>,
    source: Seq<int>,
    places: Seq<usize>,
    at: Seq<int>,
)
    requires
        mirrors_rows(rows, keys),
        order::is_stable_sort(keys, sorted, source),
        picks_places(sorted, places, at, sorted.len() as int),
    ensures
        in_write_order(rows, places),
{
    assert forall|i: int| 0 <= i < places.len() implies (#[trigger] places[i]) < rows.len() by {
        assert(sorted[at[i]] == keys[source[at[i]]]);
        assert(keys[source[at[i]]].index == source[at[i]]);
    }
    assert forall|i: int, j: int|
        #![trigger places[i], places[j]]
        0 <= i < j < places.len() implies places[i] != places[j] && !order::lex_lt(
        done_rank(rows[places[j] as int]),
        done_rank(rows[places[i] as int]),
    ) by {
        let a = at[i];
        let b = at[j];
        assert(a < b);
        assert(sorted[a] == keys[source[a]] && sorted[b] == keys[source[b]]);
        assert(keys[source[a]].index == source[a] && keys[source[b]].index == source[b]);
        assert(source[a] != source[b]);
        assert(sorted[a].rank() == done_rank(rows[places[i] as int]));
        assert(sorted[b].rank() == done_rank(rows[places[j] as int]));
        if order::lex_lt(sorted[b].rank(), sorted[a].rank()) {
            order::lemma_lex_asymmetric(sorted[b].rank(), sorted[a].rank());
        }
    }
}

/// Every row of the batch is written.
pub proof fn law_done_plan_covers(
    rows: Seq<DoneJobRow>,
    old_state: Option<JobState>,
    plan: DonePlan,
    i: int,
)
    requires
        is_done_plan(rows, old_state, plan),
        0 <= i < rows.len(),
    ensures
        plan.ready_backed@.contains(i as usize) || plan.synthetic@.contains(i as usize),
{
    let backed = plan.ready_backed@;
    let other = plan.synthetic@;
    let places = Seq::new(
        rows.len(),
        |k: int|
            if k < backed.len() {
                backed[k] as int
            } else {
                other[k - backed.len()] as int
            },
    );
    assert forall|j: int, k: int| 0 <= j < k < places.len() implies places[j] != places[k] by {
        if k < backed.len() {
            assert(backed[j] != backed[k]);
        } else if j >= backed.len() {
            assert(other[j - backed.len()] != other[k - backed.len()]);
        } else {
            assert(is_ready_backed(old_state, rows[backed[j] as int]));
            assert(!is_ready_backed(old_state, rows[other[k - backed.len()] as int]));
        }
    }
    assert forall|k: int| 0 <= k < places.len() implies 0 <= #[trigger] places[k] < rows.len() by {
        if k < backed.len() {
            assert(backed[k] < rows.len());
        } else {
            assert(other[k - backed.len()] < rows.len());
        }
    }
    order::lemma_indices_covered(places, rows.len(), i);
    let k = choose|k: int| 0 <= k < places.len() && #[trigger] places[k] == i;
    if k < backed.len() {
        assert(backed[k] == i as usize);
    } else {
        assert(other[k - backed.len()] == i as usize);
    }
}

/// The payload that a ready row holds, under its place in the ready plane.
#[derive(Debug)]
pub struct ReadyPayload {
    pub ready_slot: i32,
    pub ready_generation: i64,
    pub queue: String,
    pub priority: i16,
    pub enqueue_shard: i16,
    pub lane_seq: i64,
    pub payload: Value,
}

/// The payload belongs to the ready row behind a terminal row.
pub open spec fn backs(ready: ReadyPayload, row: DoneJobRow) -> bool {
    &&& ready.ready_slot == row.ready_slot
    &&& ready.ready_generation == row.ready_generation
    &&& ready.queue@ == row.queue@
    &&& ready.priority == row.priority
    &&& ready.enqueue_shard == row.enqueue_shard
    &&& ready.lane_seq == row.lane_seq
}

/// The payload of the ready row behind a terminal row, the last one if there
/// are several.
pub open spec fn backing_payload(ready: Seq<ReadyPayload>, row: DoneJobRow) -> Option<Value>
    decreases ready.len(),
{
    if ready.len() == 0 {
        None
    } else if backs(ready.last(), row) {
        Some(ready.last().payload)
    } else {
        backing_payload(ready.drop_last(), row)
    }
}

/// Whether the payloads of the ready rows are needed: some terminal row has a
/// payload that is worth storing.
pub fn needs_ready_payloads(rows: &Vec<DoneJobRow>) -> (r: bool)
    ensures
        r == exists|i: int|
            0 <= i < rows@.len() && !payload::storage_payload_empty((#[trigger] rows@[i]).payload),
{
    let mut i: usize = 0;
    while i < rows.len()
        invariant
            i <= rows@.len(),
            forall|k: int|
                0 <= k < i ==> payload::storage_payload_empty((#[trigger] rows@[k]).payload),
        decreases rows.len() - i,
    {
        if !payload::is_storage_payload_empty(&rows[i].payload) {
            return true;
        }
        i = i + 1;
    }
    false
}

/// The payload to store with a terminal row: nothing when it is empty or when
/// the ready row behind it holds the same.
pub fn done_row_payload<'a>(row: &'a DoneJobRow, ready: &Vec<ReadyPayload>) -> (r: Option<
    &'a Value,
>)
    ensures
        r == (if payload::terminal_payload_stored(row.payload, backing_payload(ready@, *row)) {
            Some(&row.payload)
        } else {
            None
        }),
        backing_payload(ready@, *row) == Some(row.payload) ==> r is None,
{
    let mut i: usize = ready.len();
    assert(ready@.subrange(0, i as int) =~= ready@);
    while i > 0
        invariant
            i <= ready@.len(),
            backing_payload(ready@, *row) == backing_payload(ready@.subrange(0, i as int), *row),
        decreases i,
    {
        let candidate = &ready[i - 1];
        proof {
            let seen = ready@.subrange(0, i as int);
            assert(seen.last() == *candidate);
            assert(seen.drop_last() =~= ready@.subrange(0, i - 1));
        }
        if candidate.ready_slot == row.ready_slot && candidate.ready_generation
            == row.ready_generation && candidate.priority == row.priority
            && candidate.enqueue_shard == row.enqueue_shard && candidate.lane_seq == row.lane_seq
            && candidate.queue == row.queue {
            return payload::terminal_storage_payload(&row.payload, Some(&candidate.payload));
        }
        i = i - 1;
    }
    assert(ready@.subrange(0, 0) =~= Seq::empty());
    payload::terminal_storage_payload(&row.payload, None)
}

} // verus!
