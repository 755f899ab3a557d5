//! Ordered lists without repetitions: attempts to lock, channels to notify, ids
//! to work through.
use crate::order;
use crate::order::Ranked;
use crate::storage::QueueStorage;
use vstd::prelude::*;
use vstd::string::*;

verus! {

impl Ranked for i64 {
    open spec fn rank(&self) -> Seq<int> {
        seq![*self as int]
    }

    fn before(&self, other: &Self) -> (r: bool) {
        proof {
            let none = Seq::<int>::empty();
            order::lemma_lex_head(*self as int, none, *other as int, none);
            assert(seq![*self as int] + none =~= seq![*self as int]);
            assert(seq![*other as int] + none =~= seq![*other as int]);
        }
        *self < *other
    }
}

/// An attempt is known by its job and its lease number.
impl Ranked for (i64, i64) {
    open spec fn rank(&self) -> Seq<int> {
        seq![self.0 as int, self.1 as int]
    }

    fn before(&self, other: &Self) -> (r: bool) {
        proof {
            order::lemma_lex_two(self.0 as int, self.1 as int, other.0 as int, other.1 as int);
        }
        if self.0 != other.0 {
            self.0 < other.0
        } else {
            self.1 < other.1
        }
    }
}

impl Ranked for String {
    open spec fn rank(&self) -> Seq<int> {
        order::text_rank(self@)
    }

    fn before(&self, other: &Self) -> (r: bool) {
        order::text_before(self.as_str(), other.as_str())
    }
}

/// The rank occurs among the items.
pub open spec fn ranked_among<K: Ranked>(items: Seq<K>, rank: Seq<int>) -> bool {
    exists|i: int| 0 <= i < items.len() && (#[trigger] items[i]).rank() == rank
}

/// `out` holds each item once, in ascending order.
pub open spec fn is_distinct<K: Ranked>(items: Seq<K>, out: Seq<K>) -> bool {
    &&& forall|j: int, k: int|
        0 <= j < k < out.len() ==> order::lex_lt(
            (#[trigger] out[j]).rank(),
            (#[trigger] out[k]).rank(),
        )
    &&& forall|rank: Seq<int>| #[trigger] ranked_among(out, rank) == ranked_among(items, rank)
}

proof fn lemma_sorted_ranks<K: Ranked>(input: Seq<K>, out: Seq<K>, source: Seq<int>)
    requires
        order::is_stable_sort(input, out, source),
    ensures
        forall|rank: Seq<int>| #[trigger] ranked_among(out, rank) == ranked_among(input, rank),
        forall|j: int, k: int|
            #![trigger out[j], out[k]]
            0 <= j < k < out.len() ==> !order::lex_lt(out[k].rank(), out[j].rank()),
{
    assert forall|rank: Seq<int>| #[trigger] ranked_among(out, rank) == ranked_among(
        input,
        rank,
    ) by {
        if ranked_among(out, rank) {
            let k = choose|k: int| 0 <= k < out.len() && (#[trigger] out[k]).rank() == rank;
            assert(input[source[k]].rank() == rank);
        }
        if ranked_among(input, rank) {
            let i = choose|i: int| 0 <= i < input.len() && (#[trigger] input[i]).rank() == rank;
            order::lemma_sort_covers(input, out, source, i);
            let k = choose|k: int| 0 <= k < source.len() && #[trigger] source[k] == i;
            assert(out[k].rank() == rank);
        }
    }
    assert forall|j: int, k: int|
        #![trigger out[j], out[k]]
        0 <= j < k < out.len() implies !order::lex_lt(out[k].rank(), out[j].rank()) by {
        if order::lex_lt(out[k].rank(), out[j].rank()) {
            order::lemma_lex_asymmetric(out[k].rank(), out[j].rank());
        }
    }
}

/// Sorts the items and drops repetitions.
pub fn distinct_sorted<K: Ranked>(items: Vec<K>) -> (out: Vec<K>)
    ensures
        is_distinct(items@, out@),
{
    let ghost all = items@;
    let sorted = order::sort_ranked(items);
    let ghost source = choose|source: Seq<int>| order::is_stable_sort(all, sorted@, source);
    proof {
        lemma_sorted_ranks(all, sorted@, source);
    }
    let ghost order = sorted@;
    let mut out: Vec<K> = Vec::new();
    for item in it: sorted
        invariant
            it.seq() == order,
            forall|j: int, k: int|
                #![trigger order[j], order[k]]
                0 <= j < k < order.len() ==> !order::lex_lt(order[k].rank(), order[j].rank()),
            forall|j: int, k: int|
                0 <= j < k < out@.len() ==> order::lex_lt(
                    (#[trigger] out@[j]).rank(),
                    (#[trigger] out@[k]).rank(),
                ),
            forall|rank: Seq<int>| #[trigger]
                ranked_among(out@, rank) == ranked_among(order.subrange(0, it.index()), rank),
            out@.len() > 0 ==> it.index() > 0 && out@.last().rank() == order[it.index()
                - 1].rank(),
            it.index() > 0 ==> out@.len() > 0,
    {
        let ghost at = it.index();
        assert(item == order[at]);
        let ghost seen = order.subrange(0, at);
        let ghost next = order.subrange(0, at + 1);
        proof {
            assert(next =~= seen.push(item));
            lemma_push_ranked(seen, item);
        }
        let repeated = out.len() > 0 && !out[out.len() - 1].before(&item);
        if repeated {
            proof {
                assert(order[at - 1].rank() == out@.last().rank());
                order::lemma_lex_total(out@.last().rank(), item.rank());
                assert(out@.last().rank() == item.rank());
                assert(ranked_among(out@, item.rank())) by {
                    assert(out@[out@.len() - 1].rank() == item.rank());
                }
                assert(forall|rank: Seq<int>| #[trigger]
                    ranked_among(out@, rank) == ranked_among(next, rank));
            }
        } else {
            proof {
                lemma_push_ranked(out@, item);
                if out@.len() > 0 {
                    assert forall|j: int| 0 <= j < out@.len() implies order::lex_lt(
                        (#[trigger] out@[j]).rank(),
                        item.rank(),
                    ) by {
                        if j < out@.len() - 1 {
                            order::lemma_lex_transitive(
                                out@[j].rank(),
                                out@.last().rank(),
                                item.rank(),
                            );
                        }
                    }
                }
            }
            out.push(item);
        }
    }
    assert(order.subrange(0, order.len() as int) =~= order);
    out
}

proof fn lemma_push_ranked<K: Ranked>(items: Seq<K>, item: K)
    ensures
        forall|rank: Seq<int>| #[trigger]
            ranked_among(items.push(item), rank) == (ranked_among(items, rank) || rank
                == item.rank()),
{
    assert forall|rank: Seq<int>| #[trigger] ranked_among(items.push(item), rank) == (ranked_among(
        items,
        rank,
    ) || rank == item.rank()) by {
        let more = items.push(item);
        if ranked_among(items, rank) {
            let i = choose|i: int| 0 <= i < items.len() && (#[trigger] items[i]).rank() == rank;
            assert(more[i].rank() == rank);
        }
        if rank == item.rank() {
            assert(more[items.len() as int].rank() == rank);
        }
        if ranked_among(more, rank) {
            let i = choose|i: int| 0 <= i < more.len() && (#[trigger] more[i]).rank() == rank;
            if i < items.len() {
                assert(items[i].rank() == rank);
            }
        }
    }
}

proof fn lemma_attempt_ranks(items: Seq<(i64, i64)>, pair: (i64, i64))
    ensures
        ranked_among(items, pair.rank()) == items.contains(pair),
{
    if ranked_among(items, pair.rank()) {
        let i = choose|i: int|
            0 <= i < items.len() && (#[trigger] items[i]).rank() == pair.rank();
        assert(items[i].rank()[0] == pair.rank()[0] && items[i].rank()[1] == pair.rank()[1]);
        assert(items[i] == pair);
    }
    if items.contains(pair) {
        let i = choose|i: int| 0 <= i < items.len() && #[trigger] items[i] == pair;
        assert(items[i].rank() == pair.rank());
    }
}

/// Ascending by job, then by lease number.
pub open spec fn attempts_ascend(pairs: Seq<(i64, i64)>) -> bool {
    forall|j: int, k: int|
        #![trigger pairs[j], pairs[k]]
        0 <= j < k < pairs.len() ==> pairs[j].0 < pairs[k].0 || (pairs[j].0 == pairs[k].0
            && pairs[j].1 < pairs[k].1)
}

fn copy_attempts(pairs: &Vec<(i64, i64)>) -> (r: Vec<(i64, i64)>)
    ensures
        r@ == pairs@,
{
    let mut out: Vec<(i64, i64)> = Vec::new();
    let mut i: usize = 0;
    while i < pairs.len()
        invariant
            i <= pairs@.len(),
            out@ == pairs@.subrange(0, i as int),
        decreases pairs.len() - i,
    {
        out.push(pairs[i]);
        i = i + 1;
        assert(pairs@.subrange(0, i as int) =~= pairs@.subrange(0, i - 1).push(pairs@[i - 1]));
    }
    assert(pairs@.subrange(0, pairs@.len() as int) =~= pairs@);
    out
}

/// The attempts to lock: each once, in ascending order, so that concurrent
/// callers take their locks in the same order.
pub fn distinct_attempts(pairs: &Vec<(i64, i64)>) -> (out: Vec<(i64, i64)>)
    ensures
        attempts_ascend(out@),
        forall|pair: (i64, i64)| #[trigger] out@.contains(pair) <==> pairs@.contains(pair),
{
    let out = distinct_sorted(copy_attempts(pairs));
    proof {
        assert forall|pair: (i64, i64)| #[trigger]
            out@.contains(pair) <==> pairs@.contains(pair) by {
            lemma_attempt_ranks(out@, pair);
            lemma_attempt_ranks(pairs@, pair);
        }
        assert forall|j: int, k: int|
            #![trigger out@[j], out@[k]]
            0 <= j < k < out@.len() implies out@[j].0 < out@[k].0 || (out@[j].0 == out@[k].0
            && out@[j].1 < out@[k].1) by {
            order::lemma_lex_two(
                out@[j].0 as int,
                out@[j].1 as int,
                out@[k].0 as int,
                out@[k].1 as int,
            );
        }
    }
    out
}

proof fn lemma_id_ranks(items: Seq<i64>, id: i64)
    ensures
        ranked_among(items, id.rank()) == items.contains(id),
{
    if ranked_among(items, id.rank()) {
        let i = choose|i: int| 0 <= i < items.len() && (#[trigger] items[i]).rank() == id.rank();
        assert(items[i].rank()[0] == id.rank()[0]);
        assert(items[i] == id);
    }
    if items.contains(id) {
        let i = choose|i: int| 0 <= i < items.len() && #[trigger] items[i] == id;
        assert(items[i].rank() == id.rank());
    }
}

/// The job ids to work through: each once, in ascending order.
pub fn distinct_ids(ids: Vec<i64>) -> (out: Vec<i64>)
    ensures
        forall|j: int, k: int|
            #![trigger out@[j], out@[k]]
            0 <= j < k < out@.len() ==> out@[j] < out@[k],
        forall|id: i64| #[trigger] out@.contains(id) <==> ids@.contains(id),
{
    let ghost all = ids@;
    let out = distinct_sorted(ids);
    proof {
        assert forall|id: i64| #[trigger] out@.contains(id) <==> all.contains(id) by {
            lemma_id_ranks(out@, id);
            lemma_id_ranks(all, id);
        }
        assert forall|j: int, k: int|
            #![trigger out@[j], out@[k]]
            0 <= j < k < out@.len() implies out@[j] < out@[k] by {
            let none = Seq::<int>::empty();
            order::lemma_lex_head(out@[j] as int, none, out@[k] as int, none);
            assert(seq![out@[j] as int] + none =~= out@[j].rank());
            assert(seq![out@[k] as int] + none =~= out@[k].rank());
        }
    }
    out
}

/// The text occurs in the list.
pub open spec fn lists(items: Seq<String>, text: Seq<char>) -> bool {
    exists|i: int| 0 <= i < items.len() && (#[trigger] items[i])@ == text
}

proof fn lemma_text_ranks(items: Seq<String>, text: Seq<char>)
    ensures
        ranked_among(items, order::text_rank(text)) == lists(items, text),
{
    if ranked_among(items, order::text_rank(text)) {
        let i = choose|i: int|
            0 <= i < items.len() && (#[trigger] items[i]).rank() == order::text_rank(text);
        order::lemma_text_rank_injective(items[i]@, text);
    }
    if lists(items, text) {
        let i = choose|i: int| 0 <= i < items.len() && (#[trigger] items[i])@ == text;
        assert(items[i].rank() == order::text_rank(text));
    }
}

/// Texts in ascending order of their bytes, none twice.
pub open spec fn texts_ascend(items: Seq<String>) -> bool {
    forall|j: int, k: int|
        #![trigger items[j], items[k]]
        0 <= j < k < items.len() ==> order::lex_lt(
            order::text_rank(items[j]@),
            order::text_rank(items[k]@),
        )
}

/// The texts, each once, in ascending order.
pub fn distinct_texts(items: Vec<String>) -> (out: Vec<String>)
    ensures
        texts_ascend(out@),
        forall|text: Seq<char>| #[trigger] lists(out@, text) <==> lists(items@, text),
{
    let ghost all = items@;
    let out = distinct_sorted(items);
    proof {
        assert forall|text: Seq<char>| #[trigger] lists(out@, text) <==> lists(all, text) by {
            lemma_text_ranks(out@, text);
            lemma_text_ranks(all, text);
        }
    }
    out
}

impl QueueStorage {
    /// The channel on which a queue's workers are woken.
    pub open spec fn channel(&self, queue: Seq<char>) -> Seq<char> {
        "awa:"@ + self.logical(queue)
    }

    /// The channels to notify for these queues: the stripes of a queue share
    /// one, and each is notified once.
    pub fn notify_channels(&self, queues: &Vec<String>) -> (out: Vec<String>)
        ensures
            texts_ascend(out@),
            forall|text: Seq<char>| #[trigger]
                lists(out@, text) <==> exists|i: int|
                    #![trigger queues@[i]]
                    0 <= i < queues@.len() && self.channel(queues@[i]@) == text,
    {
        let mut channels: Vec<String> = Vec::new();
        let mut i: usize = 0;
        while i < queues.len()
            invariant
                i <= queues@.len(),
                channels@.len() == i,
                forall|k: int|
                    0 <= k < i ==> (#[trigger] channels@[k])@ == self.channel(queues@[k]@),
            decreases queues.len() - i,
        {
            let channel = "awa:".to_owned().concat(self.logical_queue_name(queues[i].as_str()));
            channels.push(channel);
            i = i + 1;
        }
        let ghost all = channels@;
        let out = distinct_texts(channels);
        proof {
            assert forall|text: Seq<char>| #[trigger]
                lists(out@, text) <==> exists|i: int|
                    #![trigger queues@[i]]
                    0 <= i < queues@.len() && self.channel(queues@[i]@) == text by {
                assert(lists(out@, text) <==> lists(all, text));
                if lists(all, text) {
                    let k = choose|k: int| 0 <= k < all.len() && (#[trigger] all[k])@ == text;
                    assert(self.channel(queues@[k]@) == text);
                }
                if exists|i: int|
                    #![trigger queues@[i]]
                    0 <= i < queues@.len() && self.channel(queues@[i]@) == text {
                    let k = choose|i: int|
                        #![trigger queues@[i]]
                        0 <= i < queues@.len() && self.channel(queues@[i]@) == text;
                    assert(all[k]@ == text);
                }
            }
        }
        out
    }
}

} // verus!
