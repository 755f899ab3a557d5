//! Enqueueing: the order of a batch, and how it is spread over the shards of
//! its queues.
use crate::cursor::LaneView;
use crate::lanes::{Rotors, ShardCounts};
use crate::order;
use crate::order::Ranked;
use crate::routing;
use crate::rows::{ExistingReadyRow, RuntimeReadyRow};
use crate::storage::QueueStorage;
use vstd::prelude::*;
use vstd::string::*;

verus! {

/// The sequence by which rows are ordered: the queue's name byte by byte, then
/// some numbers.
pub open spec fn queue_rank(queue: Seq<char>, numbers: Seq<int>) -> Seq<int> {
    order::text_rank(queue) + numbers
}

/// Rows of different queues are ordered by name, rows of one queue by numbers.
pub proof fn lemma_queue_rank(a: Seq<char>, na: Seq<int>, b: Seq<char>, nb: Seq<int>)
    ensures
        order::lex_lt(queue_rank(a, na), queue_rank(b, nb)) == (order::lex_lt(
            order::text_rank(a),
            order::text_rank(b),
        ) || (a == b && order::lex_lt(na, nb))),
        a == b ==> !order::lex_lt(order::text_rank(a), order::text_rank(b)),
{
    order::lemma_text_rank_ends_once(a);
    order::lemma_text_rank_ends_once(b);
    order::lemma_lex_ended(order::text_rank(a), na, order::text_rank(b), nb);
    if order::text_rank(a) == order::text_rank(b) {
        order::lemma_text_rank_injective(a, b);
    }
    order::lemma_lex_irreflexive(order::text_rank(a));
}

/// Equal ranks mean equal queues and equal numbers.
pub proof fn lemma_queue_rank_injective(a: Seq<char>, na: Seq<int>, b: Seq<char>, nb: Seq<int>)
    requires
        queue_rank(a, na) == queue_rank(b, nb),
        na.len() == nb.len(),
    ensures
        a == b,
        na == nb,
{
    let ra = queue_rank(a, na);
    let rb = queue_rank(b, nb);
    let ta = order::text_rank(a);
    let tb = order::text_rank(b);
    assert(ra.len() == ta.len() + na.len());
    assert(rb.len() == tb.len() + nb.len());
    assert(ta =~= ra.subrange(0, ta.len() as int));
    assert(tb =~= rb.subrange(0, tb.len() as int));
    assert(na =~= ra.subrange(ta.len() as int, ra.len() as int));
    assert(nb =~= rb.subrange(tb.len() as int, rb.len() as int));
    order::lemma_text_rank_injective(a, b);
}

impl Ranked for RuntimeReadyRow {
    open spec fn rank(&self) -> Seq<int> {
        queue_rank(self.queue@, seq![self.priority as int])
    }

    fn before(&self, other: &Self) -> (r: bool) {
        proof {
            lemma_queue_rank(
                self.queue@,
                seq![self.priority as int],
                other.queue@,
                seq![other.priority as int],
            );
            let none = Seq::<int>::empty();
            order::lemma_lex_head(self.priority as int, none, other.priority as int, none);
            assert(seq![self.priority as int] + none =~= seq![self.priority as int]);
            assert(seq![other.priority as int] + none =~= seq![other.priority as int]);
        }
        if self.queue == other.queue {
            self.priority < other.priority
        } else {
            order::text_before(self.queue.as_str(), other.queue.as_str())
        }
    }
}

impl Ranked for ExistingReadyRow {
    open spec fn rank(&self) -> Seq<int> {
        queue_rank(self.queue@, seq![self.priority as int])
    }

    fn before(&self, other: &Self) -> (r: bool) {
        proof {
            lemma_queue_rank(
                self.queue@,
                seq![self.priority as int],
                other.queue@,
                seq![other.priority as int],
            );
            let none = Seq::<int>::empty();
            order::lemma_lex_head(self.priority as int, none, other.priority as int, none);
            assert(seq![self.priority as int] + none =~= seq![self.priority as int]);
            assert(seq![other.priority as int] + none =~= seq![other.priority as int]);
        }
        if self.queue == other.queue {
            self.priority < other.priority
        } else {
            order::text_before(self.queue.as_str(), other.queue.as_str())
        }
    }
}

/// A row with the shard of its lane that it goes to.
#[derive(Debug)]
pub struct RoutedRow {
    pub row: RuntimeReadyRow,
    pub enqueue_shard: i16,
}

impl RoutedRow {
    pub open spec fn lane(self) -> LaneView {
        (self.row.queue@, self.row.priority, self.enqueue_shard)
    }

    /// Within a lane, rows with an ordering key come first.
    pub open spec fn key_rank(self) -> int {
        if self.row.ordering_key is Some {
            0
        } else {
            1
        }
    }
}

impl Ranked for RoutedRow {
    open spec fn rank(&self) -> Seq<int> {
        queue_rank(
            self.row.queue@,
            seq![self.row.priority as int, self.enqueue_shard as int, self.key_rank()],
        )
    }

    fn before(&self, other: &Self) -> (r: bool) {
        let mine: i16 = if self.row.ordering_key.is_some() {
            0
        } else {
            1
        };
        let theirs: i16 = if other.row.ordering_key.is_some() {
            0
        } else {
            1
        };
        proof {
            lemma_queue_rank(
                self.row.queue@,
                seq![self.row.priority as int, self.enqueue_shard as int, mine as int],
                other.row.queue@,
                seq![other.row.priority as int, other.enqueue_shard as int, theirs as int],
            );
            order::lemma_lex_three(
                self.row.priority as int,
                self.enqueue_shard as int,
                mine as int,
                other.row.priority as int,
                other.enqueue_shard as int,
                theirs as int,
            );
        }
        if self.row.queue == other.row.queue {
            if self.row.priority != other.row.priority {
                self.row.priority < other.row.priority
            } else if self.enqueue_shard != other.enqueue_shard {
                self.enqueue_shard < other.enqueue_shard
            } else {
                mine < theirs
            }
        } else {
            order::text_before(self.row.queue.as_str(), other.row.queue.as_str())
        }
    }
}

/// The rows have no ordering key and go to the same queue and priority.
pub open spec fn share_rotor(a: RuntimeReadyRow, b: RuntimeReadyRow) -> bool {
    a.ordering_key is None && b.ordering_key is None && a.queue@ == b.queue@ && a.priority
        == b.priority
}

/// One turn: the shard that the rows of a queue and priority without an ordering
/// key go to.
#[derive(Debug)]
pub struct RotorPick {
    pub queue: String,
    pub priority: i16,
    pub enqueue_shard: i16,
}

impl RotorPick {
    pub open spec fn rank(self) -> Seq<int> {
        queue_rank(self.queue@, seq![self.priority as int])
    }
}

/// The pick is for the row's queue and priority.
pub open spec fn pick_fits(pick: RotorPick, row: RuntimeReadyRow) -> bool {
    pick.queue@ == row.queue@ && pick.priority == row.priority
}

/// The pick for the row's queue and priority has this shard.
pub open spec fn picked(picks: Seq<RotorPick>, row: RuntimeReadyRow, shard: i16) -> bool {
    exists|i: int|
        0 <= i < picks.len() && pick_fits(#[trigger] picks[i], row) && picks[i].enqueue_shard
            == shard
}

/// How many numbers the picks take: one for each queue that has shards to choose
/// from.
pub open spec fn turns(picks: Seq<RotorPick>, counts: Map<Seq<char>, i16>) -> nat
    decreases picks.len(),
{
    if picks.len() == 0 {
        0
    } else {
        turns(picks.drop_last(), counts) + if counts[picks.last().queue@] > 1 {
            1nat
        } else {
            0nat
        }
    }
}

/// The picks are in lane order, and their shards are dealt out in turn.
pub open spec fn are_dealt(
    picks: Seq<RotorPick>,
    counts: Map<Seq<char>, i16>,
    rotors: Rotors,
) -> bool {
    &&& forall|i: int, j: int|
        0 <= i < j < picks.len() ==> order::lex_lt(
            (#[trigger] picks[i]).rank(),
            (#[trigger] picks[j]).rank(),
        )
    &&& forall|i: int|
        0 <= i < picks.len() ==> (#[trigger] picks[i]).enqueue_shard == routing::shard_of_rotor(
            rotors.after_picks(turns(picks.subrange(0, i), counts)).shard_rotor,
            counts[picks[i].queue@] as int,
        )
}

/// The pick is for some of the rows.
pub open spec fn is_wanted(pick: RotorPick, rows: Seq<RuntimeReadyRow>) -> bool {
    exists|m: int|
        0 <= m < rows.len() && (#[trigger] rows[m]).ordering_key is None && pick_fits(
            pick,
            rows[m],
        )
}

/// The shard is the one that the row goes to: its key's own, or the one that was
/// picked for its queue and priority.
pub open spec fn shard_fits(
    row: RuntimeReadyRow,
    shard: i16,
    counts: Map<Seq<char>, i16>,
    picks: Seq<RotorPick>,
) -> bool {
    match row.ordering_key {
        Some(key) => shard == routing::shard_of_key(key@, counts[row.queue@] as int),
        None => picked(picks, row, shard),
    }
}

/// `out` is `rows` with shards, brought into lane order: position `k` of `out`
/// holds the row that stood at `source[k]`. A row with an ordering key goes to
/// the key's shard, the rows without one go to the shard that is picked for
/// their queue and priority: one pick each, and none for nothing. Lanes follow
/// each other in order; within a lane the keyed rows come first, and otherwise
/// rows keep their order.
pub open spec fn is_routed(
    rows: Seq<RuntimeReadyRow>,
    counts: Map<Seq<char>, i16>,
    rotors: Rotors,
    picks: Seq<RotorPick>,
    out: Seq<RoutedRow>,
    source: Seq<int>,
) -> bool {
    &&& are_dealt(picks, counts, rotors)
    &&& forall|i: int| 0 <= i < picks.len() ==> is_wanted(#[trigger] picks[i], rows)
    &&& out.len() == rows.len()
    &&& source.len() == rows.len()
    &&& source.no_duplicates()
    &&& forall|k: int|
        #![trigger out[k]]
        #![trigger source[k]]
        0 <= k < out.len() ==> {
            &&& 0 <= source[k] < rows.len()
            &&& out[k].row == rows[source[k]]
            &&& shard_fits(out[k].row, out[k].enqueue_shard, counts, picks)
        }
    &&& forall|j: int, k: int|
        #![trigger out[j], out[k]]
        0 <= j < k < out.len() ==> order::lex_lt(out[j].rank(), out[k].rank()) || (out[j].rank()
            == out[k].rank() && source[j] < source[k])
}

/// The rows of a queue and priority that have no ordering key stay together: they
/// go to the same lane.
pub proof fn law_unkeyed_rows_share_a_lane(
    rows: Seq<RuntimeReadyRow>,
    counts: Map<Seq<char>, i16>,
    rotors: Rotors,
    picks: Seq<RotorPick>,
    out: Seq<RoutedRow>,
    source: Seq<int>,
    j: int,
    k: int,
)
    requires
        is_routed(rows, counts, rotors, picks, out, source),
        0 <= j < out.len(),
        0 <= k < out.len(),
        share_rotor(out[j].row, out[k].row),
    ensures
        out[j].lane() == out[k].lane(),
{
    assert(picked(picks, out[j].row, out[j].enqueue_shard));
    assert(picked(picks, out[k].row, out[k].enqueue_shard));
    let x = choose|x: int|
        0 <= x < picks.len() && pick_fits(#[trigger] picks[x], out[j].row)
            && picks[x].enqueue_shard == out[j].enqueue_shard;
    let y = choose|y: int|
        0 <= y < picks.len() && pick_fits(#[trigger] picks[y], out[k].row)
            && picks[y].enqueue_shard == out[k].enqueue_shard;
    assert(picks[x].rank() == picks[y].rank());
    order::lemma_lex_irreflexive(picks[x].rank());
    if x < y {
        assert(order::lex_lt(picks[x].rank(), picks[y].rank()));
    } else if y < x {
        assert(order::lex_lt(picks[y].rank(), picks[x].rank()));
    }
}

/// Rows that share an ordering key on one queue and priority stay in order:
/// they go to the same lane, and the earlier one comes first.
pub proof fn law_keyed_rows_keep_order(
    rows: Seq<RuntimeReadyRow>,
    counts: Map<Seq<char>, i16>,
    rotors: Rotors,
    picks: Seq<RotorPick>,
    out: Seq<RoutedRow>,
    source: Seq<int>,
    j: int,
    k: int,
)
    requires
        is_routed(rows, counts, rotors, picks, out, source),
        0 <= j < out.len(),
        0 <= k < out.len(),
        source[j] < source[k],
        out[j].row.queue@ == out[k].row.queue@,
        out[j].row.priority == out[k].row.priority,
        out[j].row.ordering_key is Some,
        out[k].row.ordering_key is Some,
        out[j].row.ordering_key->0@ == out[k].row.ordering_key->0@,
    ensures
        out[j].lane() == out[k].lane(),
        j < k,
{
    assert(out[j].enqueue_shard == out[k].enqueue_shard);
    assert(out[j].rank() == out[k].rank());
    if k < j {
        assert(order::lex_lt(out[k].rank(), out[j].rank()) || source[k] < source[j]);
        order::lemma_lex_irreflexive(out[j].rank());
    }
}

/// `routed` are the first rows of `sorted` with shards that fit.
spec fn is_sharded(
    sorted: Seq<RuntimeReadyRow>,
    counts: Map<Seq<char>, i16>,
    picks: Seq<RotorPick>,
    routed: Seq<RoutedRow>,
) -> bool {
    &&& routed.len() <= sorted.len()
    &&& forall|k: int|
        0 <= k < routed.len() ==> (#[trigger] routed[k]).row == sorted[k] && shard_fits(
            routed[k].row,
            routed[k].enqueue_shard,
            counts,
            picks,
        )
}

/// The rows are in lane order.
#[verifier::opaque]
spec fn in_lane_order(rows: Seq<RuntimeReadyRow>) -> bool {
    forall|i: int, j: int|
        0 <= i < j < rows.len() ==> order::lex_lt(
            (#[trigger] rows[i]).rank(),
            (#[trigger] rows[j]).rank(),
        ) || rows[i].rank() == rows[j].rank()
}

#[verifier::opaque]
spec fn dealt(picks: Seq<RotorPick>, counts: Map<Seq<char>, i16>, rotors: Rotors) -> bool {
    are_dealt(picks, counts, rotors)
}

/// One more pick, for the next row of a batch in lane order.
proof fn lemma_one_more_pick(
    sorted: Seq<RuntimeReadyRow>,
    counts: Map<Seq<char>, i16>,
    rotors: Rotors,
    picks: Seq<RotorPick>,
    at: int,
    pick: RotorPick,
)
    requires
        in_lane_order(sorted),
        dealt(picks, counts, rotors),
        0 <= at < sorted.len(),
        sorted[at].ordering_key is None,
        forall|i: int|
            0 <= i < picks.len() ==> is_wanted(#[trigger] picks[i], sorted.subrange(0, at)),
        forall|i: int| 0 <= i < picks.len() ==> !pick_fits(#[trigger] picks[i], sorted[at]),
        pick_fits(pick, sorted[at]),
        pick.enqueue_shard == routing::shard_of_rotor(
            rotors.after_picks(turns(picks, counts)).shard_rotor,
            counts[pick.queue@] as int,
        ),
    ensures
        dealt(picks.push(pick), counts, rotors),
        turns(picks.push(pick), counts) == turns(picks, counts) + if counts[pick.queue@] > 1 {
            1nat
        } else {
            0nat
        },
{
    reveal(in_lane_order);
    reveal(dealt);
    let more = picks.push(pick);
    assert(more.drop_last() =~= picks);
    assert forall|i: int, j: int| 0 <= i < j < more.len() implies order::lex_lt(
        (#[trigger] more[i]).rank(),
        (#[trigger] more[j]).rank(),
    ) by {
        if j == picks.len() {
            let done = sorted.subrange(0, at);
            assert(is_wanted(picks[i], done));
            let m = choose|m: int|
                0 <= m < done.len() && (#[trigger] done[m]).ordering_key is None && pick_fits(
                    picks[i],
                    done[m],
                );
            assert(done[m] == sorted[m]);
            assert(sorted[m].rank() == picks[i].rank());
            assert(sorted[at].rank() == pick.rank());
            assert(order::lex_lt(sorted[m].rank(), sorted[at].rank()) || sorted[m].rank()
                == sorted[at].rank());
            if sorted[m].rank() == sorted[at].rank() {
                let a = seq![sorted[m].priority as int];
                let b = seq![sorted[at].priority as int];
                lemma_queue_rank_injective(sorted[m].queue@, a, sorted[at].queue@, b);
                assert(a[0] == b[0]);
                assert(pick_fits(picks[i], sorted[at]));
            }
        } else {
            assert(more[i] == picks[i] && more[j] == picks[j]);
        }
    }
    assert forall|i: int| 0 <= i < more.len() implies (#[trigger] more[i]).enqueue_shard
        == routing::shard_of_rotor(
        rotors.after_picks(turns(more.subrange(0, i), counts)).shard_rotor,
        counts[more[i].queue@] as int,
    ) by {
        if i < picks.len() {
            assert(more.subrange(0, i) =~= picks.subrange(0, i));
            assert(more[i] == picks[i]);
        } else {
            assert(more.subrange(0, i) =~= picks);
        }
    }
}

/// A row goes to this shard: its key's own, the one that was picked for its queue
/// and priority, or a new pick.
spec fn takes_shard(
    row: RuntimeReadyRow,
    shards: i16,
    before: Seq<RotorPick>,
    after: Seq<RotorPick>,
    was: Rotors,
    now: Rotors,
    shard: i16,
) -> bool {
    match row.ordering_key {
        Some(key) => {
            &&& shard == routing::shard_of_key(key@, shards as int)
            &&& after == before
            &&& now == was
        },
        None => {
            ||| picked(before, row, shard) && after == before && now == was
            ||| {
                &&& forall|i: int|
                    0 <= i < before.len() ==> !pick_fits(#[trigger] before[i], row)
                &&& after.len() == before.len() + 1
                &&& after == before.push(after.last())
                &&& pick_fits(after.last(), row)
                &&& after.last().enqueue_shard == shard == routing::shard_of_rotor(
                    was.shard_rotor,
                    shards as int,
                )
                &&& now == (if shards > 1 {
                    was.after_picks(1)
                } else {
                    was
                })
            }
        },
    }
}

/// The first rows of a batch in lane order have their shards.
spec fn routes_so_far(
    sorted: Seq<RuntimeReadyRow>,
    counts: Map<Seq<char>, i16>,
    start: Rotors,
    picks: Seq<RotorPick>,
    routed: Seq<RoutedRow>,
    now: Rotors,
) -> bool {
    &&& is_sharded(sorted, counts, picks, routed)
    &&& dealt(picks, counts, start)
    &&& forall|i: int|
        0 <= i < picks.len() ==> is_wanted(
            #[trigger] picks[i],
            sorted.subrange(0, routed.len() as int),
        )
    &&& now == start.after_picks(turns(picks, counts))
}

impl QueueStorage {
    /// The shard that a row goes to, with the picks that were made so far.
    fn shard_for_row(
        &self,
        row: &RuntimeReadyRow,
        shards: i16,
        picks: &mut Vec<RotorPick>,
        rotors: &mut Rotors,
    ) -> (r: i16)
        ensures
            takes_shard(
                *row,
                shards,
                old(picks)@,
                final(picks)@,
                *old(rotors),
                *final(rotors),
                r,
            ),
    {
        match &row.ordering_key {
            Some(key) => return self.pick_shard(shards, Some(key.as_slice()), rotors),
            None => {},
        }
        let mut at: usize = 0;
        while at < picks.len() && !(picks[at].priority == row.priority && picks[at].queue
            == row.queue)
            invariant
                at <= picks@.len(),
                forall|k: int| 0 <= k < at ==> !pick_fits(#[trigger] picks@[k], *row),
            decreases picks.len() - at,
        {
            at = at + 1;
        }
        if at < picks.len() {
            assert(pick_fits(picks@[at as int], *row));
            return picks[at].enqueue_shard;
        }
        let shard: i16 = self.pick_shard(shards, None, rotors);
        picks.push(
            RotorPick { queue: row.queue.clone(), priority: row.priority, enqueue_shard: shard },
        );
        shard
    }

    /// Spreads a batch over shards and brings it into lane order. The shard
    /// counts of all its queues must have been looked up.
    pub fn group_ready_rows_by_shard(
        &self,
        rows: Vec<RuntimeReadyRow>,
        counts: &ShardCounts,
        rotors: &mut Rotors,
    ) -> (out: Vec<RoutedRow>)
        requires
            forall|i: int|
                0 <= i < rows@.len() ==> counts@.dom().contains((#[trigger] rows@[i]).queue@),
        ensures
            exists|picks: Seq<RotorPick>, source: Seq<int>|
                is_routed(rows@, counts@, *old(rotors), picks, out@, source) && *final(rotors)
                    == old(rotors).after_picks(turns(picks, counts@)),
    {
        let ghost input = rows@;
        let ghost start = *rotors;
        let sorted = order::sort_ranked(rows);
        let ghost first = choose|first: Seq<int>| order::is_stable_sort(input, sorted@, first);
        let ghost sorted_seq = sorted@;
        proof {
            assert forall|i: int| 0 <= i < sorted_seq.len() implies counts@.dom().contains(
                (#[trigger] sorted_seq[i]).queue@,
            ) by {
                assert(sorted_seq[i] == input[first[i]]);
            }
            reveal(in_lane_order);
            reveal(dealt);
        }
        let mut picks: Vec<RotorPick> = Vec::new();
        let mut routed: Vec<RoutedRow> = Vec::new();
        for row in it: sorted
            invariant
                it.seq() == sorted_seq,
                in_lane_order(sorted_seq),
                forall|i: int|
                    0 <= i < sorted_seq.len() ==> counts@.dom().contains(
                        (#[trigger] sorted_seq[i]).queue@,
                    ),
                routed@.len() == it.index(),
                routes_so_far(sorted_seq, counts@, start, picks@, routed@, *rotors),
        {
            assert(row == sorted_seq[it.index()]);
            let ghost before = picks@;
            let ghost was = *rotors;
            let shards: i16 = match counts.get(row.queue.as_str()) {
                Some(shards) => shards,
                None => 1,
            };
            let shard: i16 = self.shard_for_row(&row, shards, &mut picks, rotors);
            let next = RoutedRow { row, enqueue_shard: shard };
            proof {
                lemma_one_more_row(
                    sorted_seq,
                    counts@,
                    start,
                    before,
                    picks@,
                    was,
                    *rotors,
                    routed@,
                    next,
                );
            }
            routed.push(next);
        }
        let ghost routed_seq = routed@;
        let out = order::sort_ranked(routed);
        proof {
            assert(sorted_seq.subrange(0, sorted_seq.len() as int) =~= sorted_seq);
            let second = choose|second: Seq<int>|
                order::is_stable_sort(routed_seq, out@, second);
            let source = Seq::new(out@.len(), |k: int| first[second[k]]);
            lemma_routed(
                input,
                counts@,
                start,
                sorted_seq,
                first,
                routed_seq,
                out@,
                second,
                picks@,
                source,
            );
            assert(is_routed(rows@, counts@, *old(rotors), picks@, out@, source));
        }
        out
    }
}

/// One more row has its shard; the shards of the others still fit.
proof fn lemma_one_more_row(
    sorted: Seq<RuntimeReadyRow>,
    counts: Map<Seq<char>, i16>,
    start: Rotors,
    before: Seq<RotorPick>,
    after: Seq<RotorPick>,
    was: Rotors,
    now: Rotors,
    routed: Seq<RoutedRow>,
    next: RoutedRow,
)
    requires
        in_lane_order(sorted),
        routes_so_far(sorted, counts, start, before, routed, was),
        routed.len() < sorted.len(),
        next.row == sorted[routed.len() as int],
        takes_shard(
            next.row,
            counts[next.row.queue@],
            before,
            after,
            was,
            now,
            next.enqueue_shard,
        ),
    ensures
        routes_so_far(sorted, counts, start, after, routed.push(next), now),
{
    let at = routed.len() as int;
    assert(extends(before, after));
    if after.len() > before.len() {
        lemma_one_more_pick(sorted, counts, start, before, at, after.last());
        assert(pick_fits(after[before.len() as int], next.row));
    }
    assert(shard_fits(next.row, next.enqueue_shard, counts, after));
    lemma_sharded_still(sorted, counts, before, after, routed, next);
    lemma_wanted_still(sorted, at, before, after);
}

/// `after` are the picks `before`, with one more at most.
spec fn extends(before: Seq<RotorPick>, after: Seq<RotorPick>) -> bool {
    &&& before.len() <= after.len() <= before.len() + 1
    &&& forall|i: int| 0 <= i < before.len() ==> #[trigger] after[i] == before[i]
}

proof fn lemma_sharded_still(
    sorted: Seq<RuntimeReadyRow>,
    counts: Map<Seq<char>, i16>,
    before: Seq<RotorPick>,
    after: Seq<RotorPick>,
    routed: Seq<RoutedRow>,
    next: RoutedRow,
)
    requires
        is_sharded(sorted, counts, before, routed),
        routed.len() < sorted.len(),
        extends(before, after),
        next.row == sorted[routed.len() as int],
        shard_fits(next.row, next.enqueue_shard, counts, after),
    ensures
        is_sharded(sorted, counts, after, routed.push(next)),
{
    let more = routed.push(next);
    assert forall|k: int| 0 <= k < more.len() implies (#[trigger] more[k]).row == sorted[k]
        && shard_fits(more[k].row, more[k].enqueue_shard, counts, after) by {
        if k < routed.len() {
            assert(more[k] == routed[k]);
            if routed[k].row.ordering_key is None {
                assert(picked(before, routed[k].row, routed[k].enqueue_shard));
                let i = choose|i: int|
                    0 <= i < before.len() && pick_fits(#[trigger] before[i], routed[k].row)
                        && before[i].enqueue_shard == routed[k].enqueue_shard;
                assert(after[i] == before[i]);
            }
        }
    }
}

/// Picks that were wanted by the rows so far are wanted with one row more.
proof fn lemma_wanted_still(
    sorted: Seq<RuntimeReadyRow>,
    at: int,
    before: Seq<RotorPick>,
    after: Seq<RotorPick>,
)
    requires
        0 <= at < sorted.len(),
        forall|i: int|
            0 <= i < before.len() ==> is_wanted(#[trigger] before[i], sorted.subrange(0, at)),
        extends(before, after),
        after.len() > before.len() ==> sorted[at].ordering_key is None && pick_fits(
            after[before.len() as int],
            sorted[at],
        ),
    ensures
        forall|i: int|
            0 <= i < after.len() ==> is_wanted(#[trigger] after[i], sorted.subrange(0, at + 1)),
{
    let done = sorted.subrange(0, at);
    let further = sorted.subrange(0, at + 1);
    assert forall|i: int| 0 <= i < after.len() implies is_wanted(
        #[trigger] after[i],
        further,
    ) by {
        if i < before.len() {
            assert(after[i] == before[i]);
            assert(is_wanted(before[i], done));
            let m = choose|m: int|
                0 <= m < done.len() && (#[trigger] done[m]).ordering_key is None && pick_fits(
                    before[i],
                    done[m],
                );
            assert(further[m] == done[m]);
        } else {
            assert(further[at] == sorted[at]);
        }
    }
}

proof fn lemma_routed(
    input: Seq<RuntimeReadyRow>,
    counts: Map<Seq<char>, i16>,
    rotors: Rotors,
    sorted: Seq<RuntimeReadyRow>,
    first: Seq<int>,
    routed: Seq<RoutedRow>,
    out: Seq<RoutedRow>,
    second: Seq<int>,
    picks: Seq<RotorPick>,
    source: Seq<int>,
)
    requires
        order::is_stable_sort(input, sorted, first),
        routed.len() == sorted.len(),
        is_sharded(sorted, counts, picks, routed),
        order::is_stable_sort(routed, out, second),
        are_dealt(picks, counts, rotors),
        forall|i: int| 0 <= i < picks.len() ==> is_wanted(#[trigger] picks[i], sorted),
        source == Seq::new(out.len(), |k: int| first[second[k]]),
    ensures
        is_routed(input, counts, rotors, picks, out, source),
{
    assert forall|i: int| 0 <= i < picks.len() implies is_wanted(#[trigger] picks[i], input) by {
        let m = choose|m: int|
            0 <= m < sorted.len() && (#[trigger] sorted[m]).ordering_key is None && pick_fits(
                picks[i],
                sorted[m],
            );
        assert(sorted[m] == input[first[m]]);
    }
    assert forall|k: int| 0 <= k < out.len() implies {
        &&& 0 <= #[trigger] source[k] < input.len()
        &&& out[k].row == input[source[k]]
        &&& shard_fits(out[k].row, out[k].enqueue_shard, counts, picks)
    } by {
        assert(out[k] == routed[second[k]]);
        assert(routed[second[k]].row == sorted[second[k]]);
        assert(sorted[second[k]] == input[first[second[k]]]);
    }
    assert forall|i: int, j: int| 0 <= i < source.len() && 0 <= j < source.len() && i
        != j implies source[i] != source[j] by {
        assert(second[i] != second[j]);
        assert(out[i] == routed[second[i]] && out[j] == routed[second[j]]);
        assert(0 <= second[i] < first.len() && 0 <= second[j] < first.len());
        assert(first[second[i]] != first[second[j]]);
    }
    assert forall|j: int, k: int|
        #![trigger out[j], out[k]]
        0 <= j < k < out.len() implies order::lex_lt(out[j].rank(), out[k].rank()) || (
    out[j].rank() == out[k].rank() && source[j] < source[k]) by {
        assert(out[j] == routed[second[j]]);
        assert(out[k] == routed[second[k]]);
        let a = second[j];
        let b = second[k];
        assert(routed[a].row == sorted[a] && routed[b].row == sorted[b]);
        if !order::lex_lt(out[j].rank(), out[k].rank()) {
            assert(out[j].rank() == out[k].rank() && a < b);
            let ja = seq![out[j].row.priority as int, out[j].enqueue_shard as int, out[j].key_rank()];
            let kb = seq![out[k].row.priority as int, out[k].enqueue_shard as int, out[k].key_rank()];
            lemma_queue_rank_injective(out[j].row.queue@, ja, out[k].row.queue@, kb);
            assert(ja[0] == kb[0]);
            assert(sorted[a].rank() == sorted[b].rank());
            order::lemma_lex_irreflexive(sorted[a].rank());
            assert(first[a] < first[b]);
        }
    }
}

} // verus!
