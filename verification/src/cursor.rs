//! Claim cursors: which lanes advance after a claim or a cancel, and how far.
use crate::order;
use crate::order::Ranked;
use crate::rows::ReadyJobLeaseRow;
use vstd::prelude::*;
use vstd::string::*;

verus! {

/// A lane: queue, priority, and enqueue shard.
pub type LaneView = (Seq<char>, i16, i16);

/// The sequence by which lanes are ordered: the queue's name byte by byte,
/// then the priority, then the shard.
pub open spec fn lane_rank(lane: LaneView) -> Seq<int> {
    order::text_rank(lane.0) + seq![lane.1 as int, lane.2 as int]
}

/// A request to move the claim cursor of a lane to `next_seq`, outright or only
/// when the cursor still stands at `only_if_current`.
#[derive(Debug)]
pub struct ClaimCursorAdvance {
    pub queue: String,
    pub priority: i16,
    pub enqueue_shard: i16,
    pub next_seq: i64,
    pub only_if_current: Option<i64>,
}

impl ClaimCursorAdvance {
    pub open spec fn lane(self) -> LaneView {
        (self.queue@, self.priority, self.enqueue_shard)
    }

    /// The two requests are for the same lane under the same condition.
    pub open spec fn same_request(self, other: ClaimCursorAdvance) -> bool {
        self.lane() == other.lane() && self.only_if_current == other.only_if_current
    }

    pub open spec fn condition_rank(self) -> int {
        match self.only_if_current {
            Some(current) => current as int,
            None => 0,
        }
    }

    fn same_lane_as(&self, other: &ClaimCursorAdvance) -> (r: bool)
        ensures
            r == (self.lane() == other.lane()),
    {
        self.priority == other.priority && self.enqueue_shard == other.enqueue_shard && self.queue
            == other.queue
    }

    fn copy(&self) -> (r: ClaimCursorAdvance)
        ensures
            r == *self,
    {
        ClaimCursorAdvance {
            queue: self.queue.clone(),
            priority: self.priority,
            enqueue_shard: self.enqueue_shard,
            next_seq: self.next_seq,
            only_if_current: self.only_if_current,
        }
    }
}

fn same_condition(a: Option<i64>, b: Option<i64>) -> (r: bool)
    ensures
        r == (a == b),
{
    match (a, b) {
        (Some(x), Some(y)) => x == y,
        (None, None) => true,
        _ => false,
    }
}

impl Ranked for ClaimCursorAdvance {
    open spec fn rank(&self) -> Seq<int> {
        order::text_rank(self.queue@) + seq![
            self.priority as int,
            self.enqueue_shard as int,
            self.condition_rank(),
        ]
    }

    fn before(&self, other: &Self) -> (r: bool) {
        let mine: i64 = match self.only_if_current {
            Some(current) => current,
            None => 0,
        };
        let theirs: i64 = match other.only_if_current {
            Some(current) => current,
            None => 0,
        };
        proof {
            let a = seq![self.priority as int, self.enqueue_shard as int, mine as int];
            let b = seq![other.priority as int, other.enqueue_shard as int, theirs as int];
            order::lemma_text_rank_ends_once(self.queue@);
            order::lemma_text_rank_ends_once(other.queue@);
            order::lemma_lex_ended(
                order::text_rank(self.queue@),
                a,
                order::text_rank(other.queue@),
                b,
            );
            order::lemma_lex_three(a[0], a[1], a[2], b[0], b[1], b[2]);
            if order::text_rank(self.queue@) == order::text_rank(other.queue@) {
                order::lemma_text_rank_injective(self.queue@, other.queue@);
            }
            order::lemma_lex_irreflexive(order::text_rank(self.queue@));
        }
        if self.queue == other.queue {
            if self.priority != other.priority {
                self.priority < other.priority
            } else if self.enqueue_shard != other.enqueue_shard {
                self.enqueue_shard < other.enqueue_shard
            } else {
                mine < theirs
            }
        } else {
            order::text_before(self.queue.as_str(), other.queue.as_str())
        }
    }
}

/// Some request moves the lane's cursor outright.
pub open spec fn moved_outright(advances: Seq<ClaimCursorAdvance>, lane: LaneView) -> bool {
    exists|i: int|
        0 <= i < advances.len() && (#[trigger] advances[i]).lane() == lane
            && advances[i].only_if_current is None
}

/// The request counts: it is outright, or nothing moves its lane outright.
pub open spec fn effective(
    advances: Seq<ClaimCursorAdvance>,
    request: ClaimCursorAdvance,
) -> bool {
    request.only_if_current is None || !moved_outright(advances, request.lane())
}

/// `kept` goes as far as the farthest of the requests like it, and no farther.
pub open spec fn farthest(advances: Seq<ClaimCursorAdvance>, kept: ClaimCursorAdvance) -> bool {
    &&& exists|i: int|
        0 <= i < advances.len() && kept.same_request(#[trigger] advances[i]) && kept.next_seq
            == advances[i].next_seq
    &&& forall|i: int|
        0 <= i < advances.len() && kept.same_request(#[trigger] advances[i]) ==> kept.next_seq
            >= advances[i].next_seq
}

/// `out` holds one request for each lane and condition that counts, as far as
/// the farthest one like it, in the order of the lanes and, within a lane, of
/// the conditions.
pub open spec fn is_normalized(
    advances: Seq<ClaimCursorAdvance>,
    out: Seq<ClaimCursorAdvance>,
) -> bool {
    &&& forall|k: int|
        0 <= k < out.len() ==> #[trigger] farthest(advances, out[k]) && effective(advances, out[k])
    &&& forall|i: int|
        0 <= i < advances.len() && effective(advances, advances[i]) ==> #[trigger] covers(
            out,
            advances[i],
        )
    &&& forall|j: int, k: int|
        0 <= j < k < out.len() ==> order::lex_lt(
            (#[trigger] out[j]).rank(),
            (#[trigger] out[k]).rank(),
        )
}

/// Requests for one lane have the same rank only under the same condition, and
/// requests for different lanes never have the same rank.
proof fn lemma_rank_tells_requests_apart(a: ClaimCursorAdvance, b: ClaimCursorAdvance)
    requires
        a.rank() == b.rank(),
        (a.only_if_current is Some) == (b.only_if_current is Some),
    ensures
        a.same_request(b),
{
    let ta = order::text_rank(a.queue@);
    let tb = order::text_rank(b.queue@);
    let ra = seq![a.priority as int, a.enqueue_shard as int, a.condition_rank()];
    let rb = seq![b.priority as int, b.enqueue_shard as int, b.condition_rank()];
    assert(a.rank().len() == ta.len() + 3);
    assert(b.rank().len() == tb.len() + 3);
    assert(ta =~= a.rank().subrange(0, ta.len() as int));
    assert(tb =~= b.rank().subrange(0, tb.len() as int));
    assert(ra =~= a.rank().subrange(ta.len() as int, a.rank().len() as int));
    assert(rb =~= b.rank().subrange(tb.len() as int, b.rank().len() as int));
    order::lemma_text_rank_injective(a.queue@, b.queue@);
    assert(ra[0] == rb[0] && ra[1] == rb[1] && ra[2] == rb[2]);
}

/// Normalizing what is normalized changes nothing.
pub proof fn law_normalized_is_stable(
    advances: Seq<ClaimCursorAdvance>,
    out: Seq<ClaimCursorAdvance>,
)
    requires
        is_normalized(advances, out),
    ensures
        is_normalized(out, out),
{
    assert forall|k: int| 0 <= k < out.len() implies #[trigger] farthest(out, out[k]) && effective(
        out,
        out[k],
    ) by {
        assert(out[k].same_request(out[k]));
        assert forall|i: int| 0 <= i < out.len() && out[k].same_request(
            #[trigger] out[i],
        ) implies out[k].next_seq >= out[i].next_seq by {
            assert(farthest(advances, out[i]));
            assert(farthest(advances, out[k]));
            let w = choose|w: int|
                0 <= w < advances.len() && out[i].same_request(#[trigger] advances[w])
                    && out[i].next_seq == advances[w].next_seq;
            assert(out[k].same_request(advances[w]));
        }
        if out[k].only_if_current is Some && moved_outright(out, out[k].lane()) {
            let i = choose|i: int|
                0 <= i < out.len() && (#[trigger] out[i]).lane() == out[k].lane()
                    && out[i].only_if_current is None;
            assert(farthest(advances, out[i]));
            let w = choose|w: int|
                0 <= w < advances.len() && out[i].same_request(#[trigger] advances[w])
                    && out[i].next_seq == advances[w].next_seq;
            assert(moved_outright(advances, out[k].lane()));
            assert(farthest(advances, out[k]));
            assert(effective(advances, out[k]));
        }
    }
    assert forall|i: int| 0 <= i < out.len() && effective(out, out[i]) implies #[trigger] covers(
        out,
        out[i],
    ) by {
        assert(out[i].same_request(out[i]));
    }
}

/// The requests alone decide the result: two normal forms of one list ask for
/// the same moves.
pub proof fn law_normal_form_is_unique(
    advances: Seq<ClaimCursorAdvance>,
    out: Seq<ClaimCursorAdvance>,
    other: Seq<ClaimCursorAdvance>,
    k: int,
)
    requires
        is_normalized(advances, out),
        is_normalized(advances, other),
        0 <= k < out.len(),
    ensures
        exists|j: int|
            0 <= j < other.len() && (#[trigger] other[j]).same_request(out[k]) && other[j].next_seq
                == out[k].next_seq,
{
    assert(farthest(advances, out[k]) && effective(advances, out[k]));
    let w = choose|w: int|
        0 <= w < advances.len() && out[k].same_request(#[trigger] advances[w]) && out[k].next_seq
            == advances[w].next_seq;
    assert(effective(advances, advances[w]));
    assert(covers(other, advances[w]));
    let j = choose|j: int| 0 <= j < other.len() && (#[trigger] other[j]).same_request(advances[w]);
    assert(farthest(advances, other[j]));
    let v = choose|v: int|
        0 <= v < advances.len() && other[j].same_request(#[trigger] advances[v])
            && other[j].next_seq == advances[v].next_seq;
    assert(out[k].same_request(advances[v]));
}

/// Some request of `out` is for the same lane under the same condition.
pub open spec fn covers(out: Seq<ClaimCursorAdvance>, request: ClaimCursorAdvance) -> bool {
    exists|k: int| 0 <= k < out.len() && (#[trigger] out[k]).same_request(request)
}

/// `out` holds the farthest request for each lane and condition, once.
spec fn is_collapsed(advances: Seq<ClaimCursorAdvance>, out: Seq<ClaimCursorAdvance>) -> bool {
    &&& forall|k: int| 0 <= k < out.len() ==> #[trigger] farthest(advances, out[k])
    &&& forall|i: int| 0 <= i < advances.len() ==> #[trigger] covers(out, advances[i])
    &&& forall|j: int, k: int|
        0 <= j < k < out.len() ==> !(#[trigger] out[j]).same_request(#[trigger] out[k])
}

proof fn lemma_farthest_extends(
    advances: Seq<ClaimCursorAdvance>,
    more: ClaimCursorAdvance,
    kept: ClaimCursorAdvance,
)
    requires
        farthest(advances, kept),
        kept.same_request(more) ==> more.next_seq <= kept.next_seq,
    ensures
        farthest(advances.push(more), kept),
{
    let all = advances.push(more);
    let w = choose|w: int|
        0 <= w < advances.len() && kept.same_request(#[trigger] advances[w]) && kept.next_seq
            == advances[w].next_seq;
    assert(all[w] == advances[w]);
    assert forall|i: int| 0 <= i < all.len() && kept.same_request(
        #[trigger] all[i],
    ) implies kept.next_seq >= all[i].next_seq by {
        if i < advances.len() {
            assert(all[i] == advances[i]);
        }
    }
}

proof fn lemma_collapse_update(
    advances: Seq<ClaimCursorAdvance>,
    out: Seq<ClaimCursorAdvance>,
    at: int,
    more: ClaimCursorAdvance,
    kept: ClaimCursorAdvance,
)
    requires
        is_collapsed(advances, out),
        0 <= at < out.len(),
        out[at].same_request(more),
        kept.same_request(out[at]),
        kept.next_seq == (if out[at].next_seq < more.next_seq {
            more.next_seq
        } else {
            out[at].next_seq
        }),
    ensures
        is_collapsed(advances.push(more), out.update(at, kept)),
{
    let all = advances.push(more);
    let out2 = out.update(at, kept);
    assert(farthest(advances, out[at]));
    let w = choose|w: int|
        0 <= w < advances.len() && out[at].same_request(#[trigger] advances[w]) && out[at].next_seq
            == advances[w].next_seq;
    assert(all[w] == advances[w]);
    assert(all[advances.len() as int] == more);
    assert(kept.same_request(all[w]));
    assert(kept.same_request(all[advances.len() as int]));
    assert forall|i: int| 0 <= i < all.len() && kept.same_request(
        #[trigger] all[i],
    ) implies kept.next_seq >= all[i].next_seq by {
        if i < advances.len() {
            assert(all[i] == advances[i]);
            assert(out[at].same_request(advances[i]));
        }
    }
    assert(farthest(all, kept));
    assert forall|k: int| 0 <= k < out2.len() implies #[trigger] farthest(all, out2[k]) by {
        if k != at {
            assert(out2[k] == out[k]);
            assert(!out[k].same_request(more)) by {
                if k < at {
                    assert(!out[k].same_request(out[at]));
                } else {
                    assert(!out[at].same_request(out[k]));
                }
            }
            lemma_farthest_extends(advances, more, out[k]);
        }
    }
    assert forall|i: int| 0 <= i < all.len() implies #[trigger] covers(out2, all[i]) by {
        if i < advances.len() {
            assert(all[i] == advances[i]);
            assert(covers(out, advances[i]));
            let k = choose|k: int|
                0 <= k < out.len() && (#[trigger] out[k]).same_request(advances[i]);
            assert(out2[k].same_request(advances[i]));
        } else {
            assert(out2[at].same_request(all[i]));
        }
    }
    assert forall|j: int, k: int| 0 <= j < k < out2.len() implies !(
    #[trigger] out2[j]).same_request(#[trigger] out2[k]) by {
        assert(!out[j].same_request(out[k]));
    }
}

proof fn lemma_collapse_push(
    advances: Seq<ClaimCursorAdvance>,
    out: Seq<ClaimCursorAdvance>,
    more: ClaimCursorAdvance,
)
    requires
        is_collapsed(advances, out),
        !covers(out, more),
    ensures
        is_collapsed(advances.push(more), out.push(more)),
{
    let all = advances.push(more);
    let out2 = out.push(more);
    assert(all[advances.len() as int] == more);
    assert forall|i: int| 0 <= i < all.len() && more.same_request(
        #[trigger] all[i],
    ) implies more.next_seq >= all[i].next_seq by {
        if i < advances.len() {
            assert(all[i] == advances[i]);
            assert(covers(out, advances[i]));
            let k = choose|k: int|
                0 <= k < out.len() && (#[trigger] out[k]).same_request(advances[i]);
            assert(out[k].same_request(more));
        }
    }
    assert(more.same_request(all[advances.len() as int]));
    assert(farthest(all, more));
    assert forall|k: int| 0 <= k < out2.len() implies #[trigger] farthest(all, out2[k]) by {
        if k < out.len() {
            assert(out2[k] == out[k]);
            assert(!out[k].same_request(more));
            lemma_farthest_extends(advances, more, out[k]);
        }
    }
    assert forall|i: int| 0 <= i < all.len() implies #[trigger] covers(out2, all[i]) by {
        if i < advances.len() {
            assert(all[i] == advances[i]);
            assert(covers(out, advances[i]));
            let k = choose|k: int|
                0 <= k < out.len() && (#[trigger] out[k]).same_request(advances[i]);
            assert(out2[k].same_request(advances[i]));
        } else {
            assert(out2[out.len() as int].same_request(all[i]));
        }
    }
    assert forall|j: int, k: int| 0 <= j < k < out2.len() implies !(
    #[trigger] out2[j]).same_request(#[trigger] out2[k]) by {
        if k < out.len() {
            assert(!out[j].same_request(out[k]));
        } else {
            assert(!out[j].same_request(more));
        }
    }
}

/// The farthest request for each lane and condition, in no particular order.
fn collapse(advances: &[ClaimCursorAdvance]) -> (out: Vec<ClaimCursorAdvance>)
    ensures
        is_collapsed(advances@, out@),
{
    let mut out: Vec<ClaimCursorAdvance> = Vec::new();
    let mut i: usize = 0;
    while i < advances.len()
        invariant
            i <= advances.len(),
            is_collapsed(advances@.subrange(0, i as int), out@),
        decreases advances.len() - i,
    {
        let advance = &advances[i];
        let ghost seen = advances@.subrange(0, i as int);
        assert(advances@.subrange(0, i as int + 1) =~= seen.push(*advance));
        let mut at: usize = 0;
        while at < out.len() && !(out[at].same_lane_as(advance) && same_condition(
            out[at].only_if_current,
            advance.only_if_current,
        ))
            invariant
                at <= out.len(),
                forall|k: int| 0 <= k < at ==> !(#[trigger] out@[k]).same_request(*advance),
            decreases out.len() - at,
        {
            at = at + 1;
        }
        if at < out.len() {
            let mut kept = out[at].copy();
            if kept.next_seq < advance.next_seq {
                kept.next_seq = advance.next_seq;
            }
            proof {
                lemma_collapse_update(seen, out@, at as int, *advance, kept);
            }
            out.set(at, kept);
        } else {
            proof {
                lemma_collapse_push(seen, out@, *advance);
            }
            out.push(advance.copy());
        }
        i = i + 1;
    }
    assert(advances@.subrange(0, advances@.len() as int) =~= advances@);
    out
}

fn is_moved_outright(advances: &Vec<ClaimCursorAdvance>, like: &ClaimCursorAdvance) -> (r: bool)
    ensures
        r == moved_outright(advances@, like.lane()),
{
    let mut i: usize = 0;
    while i < advances.len()
        invariant
            i <= advances.len(),
            forall|k: int|
                0 <= k < i ==> !((#[trigger] advances@[k]).lane() == like.lane()
                    && advances@[k].only_if_current is None),
        decreases advances.len() - i,
    {
        if advances[i].only_if_current.is_none() && advances[i].same_lane_as(like) {
            return true;
        }
        i = i + 1;
    }
    false
}

/// Brings cursor requests into normal form: per lane the farthest outright one
/// or, where there is none, the farthest one for each condition.
pub fn normalize_claim_cursor_advances(advances: &[ClaimCursorAdvance]) -> (out: Vec<
    ClaimCursorAdvance,
>)
    ensures
        is_normalized(advances@, out@),
{
    let collapsed = collapse(advances);
    let mut kept: Vec<ClaimCursorAdvance> = Vec::new();
    let ghost mut origin: Seq<int> = Seq::empty();
    let mut i: usize = 0;
    proof {
        assert forall|lane: LaneView| moved_outright(collapsed@, lane) == moved_outright(
            advances@,
            lane,
        ) by {
            lemma_collapse_keeps_outright(advances@, collapsed@, lane);
        }
    }
    while i < collapsed.len()
        invariant
            i <= collapsed.len(),
            forall|lane: LaneView|
                moved_outright(collapsed@, lane) == #[trigger] moved_outright(advances@, lane),
            origin.len() == kept@.len(),
            forall|k: int|
                #![trigger kept@[k]]
                #![trigger origin[k]]
                0 <= k < kept@.len() ==> 0 <= origin[k] < i && kept@[k] == collapsed@[origin[k]]
                    && effective(advances@, kept@[k]),
            forall|j: int, k: int|
                0 <= j < k < kept@.len() ==> #[trigger] origin[j] < #[trigger] origin[k],
            forall|c: int|
                0 <= c < i && effective(advances@, #[trigger] collapsed@[c]) ==> exists|k: int|
                    0 <= k < kept@.len() && #[trigger] origin[k] == c,
        decreases collapsed.len() - i,
    {
        let item = &collapsed[i];
        let ghost before = kept@;
        let ghost origin_before = origin;
        if item.only_if_current.is_none() || !is_moved_outright(&collapsed, item) {
            assert(moved_outright(collapsed@, item.lane()) == moved_outright(
                advances@,
                item.lane(),
            ));
            kept.push(item.copy());
            proof {
                origin = origin.push(i as int);
                assert(origin[origin.len() - 1] == i);
                assert forall|c: int| 0 <= c < i + 1 && effective(
                    advances@,
                    #[trigger] collapsed@[c],
                ) implies exists|k: int| 0 <= k < kept@.len() && #[trigger] origin[k] == c by {
                    if c < i {
                        let k = choose|k: int|
                            0 <= k < before.len() && #[trigger] origin_before[k] == c;
                        assert(origin[k] == c);
                    } else {
                        assert(origin[kept@.len() - 1] == c);
                    }
                }
            }
        } else {
            assert(moved_outright(collapsed@, item.lane()) == moved_outright(
                advances@,
                item.lane(),
            ));
        }
        i = i + 1;
    }
    let ghost kept_seq = kept@;
    let out = order::sort_ranked(kept);
    proof {
        let source = choose|source: Seq<int>| order::is_stable_sort(kept_seq, out@, source);
        lemma_sorted_requests(advances@, collapsed@, kept_seq, origin, out@, source);
    }
    out
}

proof fn lemma_collapse_keeps_outright(
    advances: Seq<ClaimCursorAdvance>,
    collapsed: Seq<ClaimCursorAdvance>,
    lane: LaneView,
)
    requires
        is_collapsed(advances, collapsed),
    ensures
        moved_outright(collapsed, lane) == moved_outright(advances, lane),
{
    if moved_outright(collapsed, lane) {
        let k = choose|k: int|
            0 <= k < collapsed.len() && (#[trigger] collapsed[k]).lane() == lane
                && collapsed[k].only_if_current is None;
        assert(farthest(advances, collapsed[k]));
    }
    if moved_outright(advances, lane) {
        let i = choose|i: int|
            0 <= i < advances.len() && (#[trigger] advances[i]).lane() == lane
                && advances[i].only_if_current is None;
        assert(covers(collapsed, advances[i]));
        let k = choose|k: int|
            0 <= k < collapsed.len() && (#[trigger] collapsed[k]).same_request(advances[i]);
        assert(collapsed[k].lane() == lane);
    }
}

proof fn lemma_sorted_requests(
    advances: Seq<ClaimCursorAdvance>,
    collapsed: Seq<ClaimCursorAdvance>,
    kept: Seq<ClaimCursorAdvance>,
    origin: Seq<int>,
    out: Seq<ClaimCursorAdvance>,
    source: Seq<int>,
)
    requires
        is_collapsed(advances, collapsed),
        origin.len() == kept.len(),
        forall|k: int|
            #![trigger kept[k]]
            #![trigger origin[k]]
            0 <= k < kept.len() ==> 0 <= origin[k] < collapsed.len() && kept[k]
                == collapsed[origin[k]] && effective(advances, kept[k]),
        forall|j: int, k: int|
            0 <= j < k < kept.len() ==> #[trigger] origin[j] < #[trigger] origin[k],
        forall|c: int|
            0 <= c < collapsed.len() && effective(advances, #[trigger] collapsed[c])
                ==> exists|k: int| 0 <= k < kept.len() && #[trigger] origin[k] == c,
        order::is_stable_sort(kept, out, source),
    ensures
        is_normalized(advances, out),
{
    assert forall|k: int| 0 <= k < out.len() implies #[trigger] farthest(advances, out[k])
        && effective(advances, out[k]) by {
        assert(out[k] == kept[source[k]]);
        assert(kept[source[k]] == collapsed[origin[source[k]]]);
    }
    assert forall|j: int, k: int| 0 <= j < k < out.len() implies order::lex_lt(
        (#[trigger] out[j]).rank(),
        (#[trigger] out[k]).rank(),
    ) by {
        assert(out[j] == kept[source[j]]);
        assert(out[k] == kept[source[k]]);
        if !order::lex_lt(out[j].rank(), out[k].rank()) {
            assert(out[j].rank() == out[k].rank());
            assert(source[j] < source[k]);
            assert(origin[source[j]] < origin[source[k]]);
            lemma_equal_rank_same_lane(out[j], out[k]);
            if (out[j].only_if_current is Some) == (out[k].only_if_current is Some) {
                lemma_rank_tells_requests_apart(out[j], out[k]);
                assert(collapsed[origin[source[j]]].same_request(collapsed[origin[source[k]]]));
                assert(false);
            } else {
                // One of the two is outright, so the other one does not count.
                let (outright, other) = if out[j].only_if_current is None {
                    (out[j], out[k])
                } else {
                    (out[k], out[j])
                };
                assert(farthest(advances, outright));
                let w = choose|w: int|
                    0 <= w < advances.len() && outright.same_request(#[trigger] advances[w])
                        && outright.next_seq == advances[w].next_seq;
                assert(moved_outright(advances, other.lane()));
                assert(!effective(advances, other));
                assert(false);
            }
        }
    }
    assert forall|i: int| 0 <= i < advances.len() && effective(
        advances,
        advances[i],
    ) implies #[trigger] covers(out, advances[i]) by {
        assert(covers(collapsed, advances[i]));
        let c = choose|c: int|
            0 <= c < collapsed.len() && (#[trigger] collapsed[c]).same_request(advances[i]);
        assert(effective(advances, collapsed[c]));
        let h = choose|h: int| 0 <= h < kept.len() && #[trigger] origin[h] == c;
        order::lemma_sort_covers(kept, out, source, h);
        let k = choose|k: int| 0 <= k < source.len() && #[trigger] source[k] == h;
        assert(out[k] == kept[h]);
        assert(out[k].same_request(advances[i]));
    }
}

proof fn lemma_equal_rank_same_lane(a: ClaimCursorAdvance, b: ClaimCursorAdvance)
    requires
        a.rank() == b.rank(),
    ensures
        a.lane() == b.lane(),
{
    let ta = order::text_rank(a.queue@);
    let tb = order::text_rank(b.queue@);
    assert(a.rank().len() == ta.len() + 3);
    assert(b.rank().len() == tb.len() + 3);
    assert(ta =~= a.rank().subrange(0, ta.len() as int));
    assert(tb =~= b.rank().subrange(0, tb.len() as int));
    order::lemma_text_rank_injective(a.queue@, b.queue@);
    assert(a.rank()[ta.len() as int] == a.priority as int);
    assert(b.rank()[tb.len() as int] == b.priority as int);
    assert(a.rank()[ta.len() as int + 1] == a.enqueue_shard as int);
    assert(b.rank()[tb.len() as int + 1] == b.enqueue_shard as int);
}

/// The lane that a claimed row was taken from.
pub open spec fn claimed_lane(row: ReadyJobLeaseRow) -> LaneView {
    (row.queue@, row.lane_priority, row.enqueue_shard)
}

/// Some row was claimed from the lane just before the position that the
/// request moves its cursor to.
pub open spec fn follows_claim(rows: Seq<ReadyJobLeaseRow>, advance: ClaimCursorAdvance) -> bool {
    exists|i: int|
        0 <= i < rows.len() && claimed_lane(#[trigger] rows[i]) == advance.lane()
            && advance.next_seq == rows[i].lane_seq + 1
}

/// Some request moves the cursor of the row's lane past the row.
pub open spec fn passes_row(out: Seq<ClaimCursorAdvance>, row: ReadyJobLeaseRow) -> bool {
    exists|k: int|
        0 <= k < out.len() && (#[trigger] out[k]).lane() == claimed_lane(row) && out[k].next_seq
            > row.lane_seq
}

/// `out` moves the cursor of every lane that a row was claimed from, outright,
/// to just past the last claimed position, in the order of the lanes.
pub open spec fn passes_claims(rows: Seq<ReadyJobLeaseRow>, out: Seq<ClaimCursorAdvance>) -> bool {
    &&& forall|k: int|
        0 <= k < out.len() ==> #[trigger] follows_claim(rows, out[k]) && out[k].only_if_current
            is None
    &&& forall|i: int| 0 <= i < rows.len() ==> #[trigger] passes_row(out, rows[i])
    &&& forall|j: int, k: int|
        0 <= j < k < out.len() ==> order::lex_lt(
            lane_rank((#[trigger] out[j]).lane()),
            lane_rank((#[trigger] out[k]).lane()),
        )
}

/// Between outright requests the lane alone decides the order.
proof fn lemma_outright_rank(a: ClaimCursorAdvance, b: ClaimCursorAdvance)
    requires
        a.only_if_current is None,
        b.only_if_current is None,
        order::lex_lt(a.rank(), b.rank()),
    ensures
        order::lex_lt(lane_rank(a.lane()), lane_rank(b.lane())),
{
    let (pa, sa) = (a.priority as int, a.enqueue_shard as int);
    let (pb, sb) = (b.priority as int, b.enqueue_shard as int);
    order::lemma_text_rank_ends_once(a.queue@);
    order::lemma_text_rank_ends_once(b.queue@);
    order::lemma_lex_ended(
        order::text_rank(a.queue@),
        seq![pa, sa, 0],
        order::text_rank(b.queue@),
        seq![pb, sb, 0],
    );
    order::lemma_lex_ended(
        order::text_rank(a.queue@),
        seq![pa, sa],
        order::text_rank(b.queue@),
        seq![pb, sb],
    );
    order::lemma_lex_three(pa, sa, 0, pb, sb, 0);
    order::lemma_lex_two(pa, sa, pb, sb);
}

/// The requests are the outright ones that follow from claiming `rows`.
spec fn mirrors(rows: Seq<ReadyJobLeaseRow>, advances: Seq<ClaimCursorAdvance>, n: int) -> bool {
    &&& advances.len() == n
    &&& forall|k: int|
        0 <= k < n ==> (#[trigger] advances[k]).lane() == claimed_lane(rows[k])
            && advances[k].next_seq == rows[k].lane_seq + 1 && advances[k].only_if_current is None
}

proof fn lemma_normalized_claims(
    rows: Seq<ReadyJobLeaseRow>,
    advances: Seq<ClaimCursorAdvance>,
    out: Seq<ClaimCursorAdvance>,
)
    requires
        mirrors(rows, advances, rows.len() as int),
        is_normalized(advances, out),
    ensures
        passes_claims(rows, out),
{
    assert forall|k: int| 0 <= k < out.len() implies #[trigger] follows_claim(rows, out[k])
        && out[k].only_if_current is None by {
        assert(farthest(advances, out[k]));
        let w = choose|w: int|
            0 <= w < advances.len() && out[k].same_request(#[trigger] advances[w])
                && out[k].next_seq == advances[w].next_seq;
        assert(claimed_lane(rows[w]) == out[k].lane());
    }
    assert forall|i: int| 0 <= i < rows.len() implies #[trigger] passes_row(out, rows[i]) by {
        assert(advances[i].only_if_current is None);
        assert(effective(advances, advances[i]));
        assert(covers(out, advances[i]));
        let k = choose|k: int| 0 <= k < out.len() && (#[trigger] out[k]).same_request(advances[i]);
        assert(farthest(advances, out[k]));
        assert(out[k].lane() == claimed_lane(rows[i]));
    }
    assert forall|j: int, k: int| 0 <= j < k < out.len() implies order::lex_lt(
        lane_rank((#[trigger] out[j]).lane()),
        lane_rank((#[trigger] out[k]).lane()),
    ) by {
        assert(follows_claim(rows, out[j]));
        assert(follows_claim(rows, out[k]));
        lemma_outright_rank(out[j], out[k]);
    }
}

/// The cursor moves that follow from a claim.
pub fn claim_cursor_advances(rows: &[ReadyJobLeaseRow]) -> (out: Vec<ClaimCursorAdvance>)
    requires
        forall|i: int| 0 <= i < rows@.len() ==> (#[trigger] rows@[i]).lane_seq < i64::MAX,
    ensures
        passes_claims(rows@, out@),
{
    let mut advances: Vec<ClaimCursorAdvance> = Vec::new();
    let mut i: usize = 0;
    while i < rows.len()
        invariant
            i <= rows.len(),
            forall|k: int| 0 <= k < rows@.len() ==> (#[trigger] rows@[k]).lane_seq < i64::MAX,
            mirrors(rows@, advances@, i as int),
        decreases rows.len() - i,
    {
        let row = &rows[i];
        assert(rows@[i as int].lane_seq < i64::MAX);
        advances.push(
            ClaimCursorAdvance {
                queue: row.queue.clone(),
                priority: row.lane_priority,
                enqueue_shard: row.enqueue_shard,
                next_seq: row.lane_seq + 1,
                only_if_current: None,
            },
        );
        i = i + 1;
    }
    let out = normalize_claim_cursor_advances(advances.as_slice());
    proof {
        lemma_normalized_claims(rows@, advances@, out@);
    }
    out
}

/// How long to wait, in milliseconds, before claim cursors are advanced again
/// after a failed try: a little longer each time, and no more after the third.
pub fn cursor_retry_millis(attempt: u32) -> (r: Option<u64>)
    ensures
        r == (if attempt < 3 {
            Some((25 * attempt) as u64)
        } else {
            None
        }),
{
    if attempt < 3 {
        Some(25 * (attempt as u64))
    } else {
        None
    }
}

} // verus!
