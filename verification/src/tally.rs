//! Tallies: sums grouped by key, in the order of the keys.
use crate::order;
use crate::order::Ranked;
use vstd::prelude::*;

verus! {

/// Two amounts under a key.
#[derive(Debug)]
pub struct Tally<K> {
    pub key: K,
    pub first: i64,
    pub second: i64,
}

impl<K: Ranked> Ranked for Tally<K> {
    open spec fn rank(&self) -> Seq<int> {
        self.key.rank()
    }

    fn before(&self, other: &Self) -> (r: bool) {
        self.key.before(&other.key)
    }
}

/// The sum of the first amounts under one key.
pub open spec fn sum_first<K: Ranked>(items: Seq<Tally<K>>, rank: Seq<int>) -> int
    decreases items.len(),
{
    if items.len() == 0 {
        0
    } else {
        sum_first(items.drop_last(), rank) + (if items.last().key.rank() == rank {
            items.last().first as int
        } else {
            0
        })
    }
}

/// The sum of the second amounts under one key.
pub open spec fn sum_second<K: Ranked>(items: Seq<Tally<K>>, rank: Seq<int>) -> int
    decreases items.len(),
{
    if items.len() == 0 {
        0
    } else {
        sum_second(items.drop_last(), rank) + (if items.last().key.rank() == rank {
            items.last().second as int
        } else {
            0
        })
    }
}

/// The key occurs among the items.
pub open spec fn occurs<K: Ranked>(items: Seq<Tally<K>>, rank: Seq<int>) -> bool {
    exists|i: int| 0 <= i < items.len() && (#[trigger] items[i]).key.rank() == rank
}

/// Neither sum leaves the range of the counters on the way.
pub open spec fn sums_fit<K: Ranked>(items: Seq<Tally<K>>) -> bool {
    forall|n: int, rank: Seq<int>|
        0 <= n <= items.len() ==> i64::MIN <= #[trigger] sum_first(items.subrange(0, n), rank)
            <= i64::MAX && i64::MIN <= sum_second(items.subrange(0, n), rank) <= i64::MAX
}

/// The entry holds the sums of its key.
pub open spec fn holds_sums<K: Ranked>(items: Seq<Tally<K>>, entry: Tally<K>) -> bool {
    &&& occurs(items, entry.key.rank())
    &&& entry.first == sum_first(items, entry.key.rank())
    &&& entry.second == sum_second(items, entry.key.rank())
}

/// `out` holds one entry for each key that occurs, with the sums of that key,
/// in the order of the keys.
pub open spec fn is_tally<K: Ranked>(items: Seq<Tally<K>>, out: Seq<Tally<K>>) -> bool {
    &&& forall|k: int| 0 <= k < out.len() ==> #[trigger] holds_sums(items, out[k])
    &&& forall|i: int| 0 <= i < items.len() ==> #[trigger] occurs(out, items[i].key.rank())
    &&& forall|j: int, k: int|
        0 <= j < k < out.len() ==> order::lex_lt(
            (#[trigger] out[j]).key.rank(),
            (#[trigger] out[k]).key.rank(),
        )
}

spec fn is_unordered_tally<K: Ranked>(items: Seq<Tally<K>>, out: Seq<Tally<K>>) -> bool {
    &&& forall|k: int| 0 <= k < out.len() ==> #[trigger] holds_sums(items, out[k])
    &&& forall|i: int| 0 <= i < items.len() ==> #[trigger] occurs(out, items[i].key.rank())
    &&& forall|j: int, k: int|
        0 <= j < k < out.len() ==> (#[trigger] out[j]).key.rank() != (
        #[trigger] out[k]).key.rank()
}

pub proof fn lemma_sum_absent<K: Ranked>(items: Seq<Tally<K>>, rank: Seq<int>)
    requires
        !occurs(items, rank),
    ensures
        sum_first(items, rank) == 0,
        sum_second(items, rank) == 0,
    decreases items.len(),
{
    if items.len() > 0 {
        let rest = items.drop_last();
        assert(items[items.len() - 1].key.rank() != rank);
        if occurs(rest, rank) {
            let i = choose|i: int| 0 <= i < rest.len() && (#[trigger] rest[i]).key.rank() == rank;
            assert(items[i].key.rank() == rank);
        }
        lemma_sum_absent(rest, rank);
    }
}

proof fn lemma_occurs_push<K: Ranked>(items: Seq<Tally<K>>, more: Tally<K>, rank: Seq<int>)
    ensures
        occurs(items.push(more), rank) == (occurs(items, rank) || more.key.rank() == rank),
{
    let all = items.push(more);
    if occurs(items, rank) {
        let i = choose|i: int| 0 <= i < items.len() && (#[trigger] items[i]).key.rank() == rank;
        assert(all[i].key.rank() == rank);
    }
    if more.key.rank() == rank {
        assert(all[items.len() as int].key.rank() == rank);
    }
    if occurs(all, rank) {
        let i = choose|i: int| 0 <= i < all.len() && (#[trigger] all[i]).key.rank() == rank;
        if i < items.len() {
            assert(items[i].key.rank() == rank);
        }
    }
}

proof fn lemma_holds_sums_push<K: Ranked>(
    items: Seq<Tally<K>>,
    more: Tally<K>,
    entry: Tally<K>,
)
    requires
        holds_sums(items, entry),
        entry.key.rank() != more.key.rank(),
    ensures
        holds_sums(items.push(more), entry),
{
    lemma_occurs_push(items, more, entry.key.rank());
    assert(items.push(more).drop_last() =~= items);
}

proof fn lemma_tally_update<K: Ranked>(
    items: Seq<Tally<K>>,
    out: Seq<Tally<K>>,
    at: int,
    more: Tally<K>,
    entry: Tally<K>,
)
    requires
        is_unordered_tally(items, out),
        0 <= at < out.len(),
        out[at].key.rank() == more.key.rank(),
        entry.key == out[at].key,
        entry.first == out[at].first + more.first,
        entry.second == out[at].second + more.second,
    ensures
        is_unordered_tally(items.push(more), out.update(at, entry)),
{
    let all = items.push(more);
    let out2 = out.update(at, entry);
    assert(all.drop_last() =~= items);
    assert(holds_sums(items, out[at]));
    lemma_occurs_push(items, more, entry.key.rank());
    assert(holds_sums(all, entry));
    assert forall|k: int| 0 <= k < out2.len() implies #[trigger] holds_sums(all, out2[k]) by {
        if k != at {
            assert(holds_sums(items, out[k]));
            if k < at {
                assert(out[k].key.rank() != out[at].key.rank());
            } else {
                assert(out[at].key.rank() != out[k].key.rank());
            }
            lemma_holds_sums_push(items, more, out[k]);
        }
    }
    assert forall|i: int| 0 <= i < all.len() implies #[trigger] occurs(
        out2,
        all[i].key.rank(),
    ) by {
        if i < items.len() {
            assert(occurs(out, items[i].key.rank()));
            let k = choose|k: int|
                0 <= k < out.len() && (#[trigger] out[k]).key.rank() == items[i].key.rank();
            assert(out2[k].key.rank() == all[i].key.rank());
        } else {
            assert(out2[at].key.rank() == all[i].key.rank());
        }
    }
    assert forall|j: int, k: int| 0 <= j < k < out2.len() implies (
    #[trigger] out2[j]).key.rank() != (#[trigger] out2[k]).key.rank() by {
        assert(out[j].key.rank() != out[k].key.rank());
    }
}

proof fn lemma_tally_push<K: Ranked>(items: Seq<Tally<K>>, out: Seq<Tally<K>>, more: Tally<K>)
    requires
        is_unordered_tally(items, out),
        !occurs(out, more.key.rank()),
    ensures
        is_unordered_tally(items.push(more), out.push(more)),
{
    let all = items.push(more);
    let out2 = out.push(more);
    assert(all.drop_last() =~= items);
    if occurs(items, more.key.rank()) {
        let i = choose|i: int|
            0 <= i < items.len() && (#[trigger] items[i]).key.rank() == more.key.rank();
        assert(occurs(out, items[i].key.rank()));
    }
    lemma_sum_absent(items, more.key.rank());
    lemma_occurs_push(items, more, more.key.rank());
    assert(holds_sums(all, more));
    assert forall|k: int| 0 <= k < out2.len() implies #[trigger] holds_sums(all, out2[k]) by {
        if k < out.len() {
            assert(holds_sums(items, out[k]));
            assert(out[k].key.rank() != more.key.rank());
            lemma_holds_sums_push(items, more, out[k]);
        }
    }
    assert forall|i: int| 0 <= i < all.len() implies #[trigger] occurs(
        out2,
        all[i].key.rank(),
    ) by {
        lemma_occurs_push(out, more, all[i].key.rank());
        if i < items.len() {
            assert(occurs(out, items[i].key.rank()));
        }
    }
    assert forall|j: int, k: int| 0 <= j < k < out2.len() implies (
    #[trigger] out2[j]).key.rank() != (#[trigger] out2[k]).key.rank() by {
        if k < out.len() {
            assert(out[j].key.rank() != out[k].key.rank());
        } else {
            assert(out[j].key.rank() != more.key.rank());
        }
    }
}

proof fn lemma_tally_sorted<K: Ranked>(
    items: Seq<Tally<K>>,
    loose: Seq<Tally<K>>,
    out: Seq<Tally<K>>,
    source: Seq<int>,
)
    requires
        is_unordered_tally(items, loose),
        order::is_stable_sort(loose, out, source),
    ensures
        is_tally(items, out),
{
    assert forall|k: int| 0 <= k < out.len() implies #[trigger] holds_sums(items, out[k]) by {
        assert(out[k] == loose[source[k]]);
        assert(holds_sums(items, loose[source[k]]));
    }
    assert forall|i: int| 0 <= i < items.len() implies #[trigger] occurs(
        out,
        items[i].key.rank(),
    ) by {
        assert(occurs(loose, items[i].key.rank()));
        let h = choose|h: int|
            0 <= h < loose.len() && (#[trigger] loose[h]).key.rank() == items[i].key.rank();
        order::lemma_sort_covers(loose, out, source, h);
        let k = choose|k: int| 0 <= k < source.len() && #[trigger] source[k] == h;
        assert(out[k].key.rank() == items[i].key.rank());
    }
    assert forall|j: int, k: int| 0 <= j < k < out.len() implies order::lex_lt(
        (#[trigger] out[j]).key.rank(),
        (#[trigger] out[k]).key.rank(),
    ) by {
        assert(out[j] == loose[source[j]] && out[k] == loose[source[k]]);
        if !order::lex_lt(out[j].rank(), out[k].rank()) {
            assert(out[j].rank() == out[k].rank());
            assert(source[j] < source[k]);
            assert(loose[source[j]].key.rank() != loose[source[k]].key.rank());
        }
    }
}

/// The sum of all first amounts.
pub open spec fn total_first<K: Ranked>(items: Seq<Tally<K>>) -> int
    decreases items.len(),
{
    if items.len() == 0 {
        0
    } else {
        total_first(items.drop_last()) + items.last().first
    }
}

/// Summed over the first `n` entries of `out`: the amounts of `items` under
/// their keys.
spec fn sum_over<K: Ranked>(items: Seq<Tally<K>>, out: Seq<Tally<K>>, n: int) -> int
    decreases n,
{
    if n <= 0 {
        0
    } else {
        sum_over(items, out, n - 1) + sum_first(items, out[n - 1].key.rank())
    }
}

proof fn lemma_sum_over_none<K: Ranked>(items: Seq<Tally<K>>, out: Seq<Tally<K>>, n: int)
    requires
        items.len() == 0,
        0 <= n <= out.len(),
    ensures
        sum_over(items, out, n) == 0,
    decreases n,
{
    if n > 0 {
        lemma_sum_over_none(items, out, n - 1);
    }
}

proof fn lemma_sum_over_push<K: Ranked>(
    items: Seq<Tally<K>>,
    more: Tally<K>,
    out: Seq<Tally<K>>,
    n: int,
    at: int,
)
    requires
        0 <= n <= out.len(),
        0 <= at < out.len(),
        out[at].key.rank() == more.key.rank(),
        forall|j: int, k: int|
            0 <= j < k < out.len() ==> (#[trigger] out[j]).key.rank() != (
            #[trigger] out[k]).key.rank(),
    ensures
        sum_over(items.push(more), out, n) == sum_over(items, out, n) + (if at < n {
            more.first as int
        } else {
            0
        }),
    decreases n,
{
    assert(items.push(more).drop_last() =~= items);
    if n > 0 {
        lemma_sum_over_push(items, more, out, n - 1, at);
        if n - 1 != at {
            if n - 1 < at {
                assert(out[n - 1].key.rank() != out[at].key.rank());
            } else {
                assert(out[at].key.rank() != out[n - 1].key.rank());
            }
        }
    }
}

proof fn lemma_sum_over_total<K: Ranked>(items: Seq<Tally<K>>, out: Seq<Tally<K>>)
    requires
        forall|i: int| 0 <= i < items.len() ==> #[trigger] occurs(out, items[i].key.rank()),
        forall|j: int, k: int|
            0 <= j < k < out.len() ==> (#[trigger] out[j]).key.rank() != (
            #[trigger] out[k]).key.rank(),
    ensures
        sum_over(items, out, out.len() as int) == total_first(items),
    decreases items.len(),
{
    if items.len() == 0 {
        lemma_sum_over_none(items, out, out.len() as int);
    } else {
        let rest = items.drop_last();
        let more = items.last();
        assert forall|i: int| 0 <= i < rest.len() implies #[trigger] occurs(
            out,
            rest[i].key.rank(),
        ) by {
            assert(occurs(out, items[i].key.rank()));
        }
        lemma_sum_over_total(rest, out);
        assert(occurs(out, items[items.len() - 1].key.rank()));
        let at = choose|at: int|
            0 <= at < out.len() && (#[trigger] out[at]).key.rank() == more.key.rank();
        lemma_sum_over_push(rest, more, out, out.len() as int, at);
        assert(rest.push(more) =~= items);
    }
}

proof fn lemma_total_is_sum_over<K: Ranked>(items: Seq<Tally<K>>, out: Seq<Tally<K>>, n: int)
    requires
        is_tally(items, out),
        0 <= n <= out.len(),
    ensures
        total_first(out.subrange(0, n)) == sum_over(items, out, n),
    decreases n,
{
    if n > 0 {
        lemma_total_is_sum_over(items, out, n - 1);
        assert(out.subrange(0, n).drop_last() =~= out.subrange(0, n - 1));
        assert(out.subrange(0, n).last() == out[n - 1]);
        assert(holds_sums(items, out[n - 1]));
    }
}

/// Nothing is lost and nothing is counted twice: the entries add up to what the
/// items add up to.
pub proof fn law_tally_conserves<K: Ranked>(items: Seq<Tally<K>>, out: Seq<Tally<K>>)
    requires
        is_tally(items, out),
    ensures
        total_first(out) == total_first(items),
{
    assert forall|j: int, k: int| 0 <= j < k < out.len() implies (
    #[trigger] out[j]).key.rank() != (#[trigger] out[k]).key.rank() by {
        order::lemma_lex_irreflexive(out[j].key.rank());
    }
    lemma_sum_over_total(items, out);
    lemma_total_is_sum_over(items, out, out.len() as int);
    assert(out.subrange(0, out.len() as int) =~= out);
}

fn same_rank<K: Ranked>(a: &K, b: &K) -> (r: bool)
    ensures
        r == (a.rank() == b.rank()),
{
    proof {
        order::lemma_lex_total(a.rank(), b.rank());
        order::lemma_lex_irreflexive(a.rank());
    }
    !a.before(b) && !b.before(a)
}

/// Sums amounts by key.
pub fn tally<K: Ranked>(items: Vec<Tally<K>>) -> (out: Vec<Tally<K>>)
    requires
        sums_fit(items@),
    ensures
        is_tally(items@, out@),
{
    let ghost all = items@;
    let mut loose: Vec<Tally<K>> = Vec::new();
    for item in it: items
        invariant
            it.seq() == all,
            sums_fit(all),
            is_unordered_tally(all.subrange(0, it.index()), loose@),
    {
        assert(item == all[it.index()]);
        let ghost seen = all.subrange(0, it.index());
        assert(all.subrange(0, it.index() + 1) =~= seen.push(item));
        let mut at: usize = 0;
        while at < loose.len() && !same_rank(&loose[at].key, &item.key)
            invariant
                at <= loose@.len(),
                forall|k: int|
                    0 <= k < at ==> (#[trigger] loose@[k]).key.rank() != item.key.rank(),
            decreases loose.len() - at,
        {
            at = at + 1;
        }
        if at < loose.len() {
            proof {
                let rank = item.key.rank();
                assert(holds_sums(seen, loose@[at as int]));
                assert(all.subrange(0, it.index() + 1).drop_last() =~= seen);
                assert(i64::MIN <= sum_first(all.subrange(0, it.index() + 1), rank) <= i64::MAX);
                assert(sum_first(seen.push(item), rank) == sum_first(seen, rank) + item.first);
                assert(sum_second(seen.push(item), rank) == sum_second(seen, rank) + item.second);
            }
            let ghost before = loose@;
            let first: i64 = loose[at].first + item.first;
            let second: i64 = loose[at].second + item.second;
            loose[at].first = first;
            loose[at].second = second;
            proof {
                lemma_tally_update(seen, before, at as int, item, loose@[at as int]);
                assert(loose@ =~= before.update(at as int, loose@[at as int]));
            }
        } else {
            proof {
                assert(!occurs(loose@, item.key.rank()));
                lemma_tally_push(seen, loose@, item);
            }
            loose.push(item);
        }
    }
    assert(all.subrange(0, all.len() as int) =~= all);
    let ghost loose_seq = loose@;
    let out = order::sort_ranked(loose);
    proof {
        let source = choose|source: Seq<int>| order::is_stable_sort(loose_seq, out@, source);
        lemma_tally_sorted(all, loose_seq, out@, source);
    }
    out
}

} // verus!
