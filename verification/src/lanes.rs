//! What the engine remembers about lanes: how many shards a queue has, which
//! lanes have their rows in place, and whose turn it is.
use crate::cursor::LaneView;
use crate::routing;
use vstd::prelude::*;
use vstd::string::*;

verus! {

/// Shard counts by queue, as far as they have been looked up.
pub struct ShardCounts {
    entries: Vec<(String, i16)>,
}

impl View for ShardCounts {
    type V = Map<Seq<char>, i16>;

    closed spec fn view(&self) -> Map<Seq<char>, i16> {
        Map::new(
            |queue: Seq<char>|
                exists|i: int|
                    0 <= i < self.entries@.len() && (#[trigger] self.entries@[i]).0@ == queue,
            |queue: Seq<char>|
                self.entries@[choose|i: int|
                    0 <= i < self.entries@.len() && (#[trigger] self.entries@[i]).0@ == queue].1,
        )
    }
}

impl ShardCounts {
    #[verifier::type_invariant]
    spec fn no_repeats(&self) -> bool {
        forall|i: int, j: int|
            0 <= i < j < self.entries@.len() ==> (#[trigger] self.entries@[i]).0@ != (
            #[trigger] self.entries@[j]).0@
    }

    proof fn lemma_entry(&self, i: int)
        requires
            self.no_repeats(),
            0 <= i < self.entries@.len(),
        ensures
            self@.dom().contains(self.entries@[i].0@),
            self@[self.entries@[i].0@] == self.entries@[i].1,
    {
        let queue = self.entries@[i].0@;
        let k = choose|k: int|
            0 <= k < self.entries@.len() && (#[trigger] self.entries@[k]).0@ == queue;
        assert(self.entries@[i].0@ == queue);
        assert(k == i) by {
            if k < i {
                assert(self.entries@[k].0@ != self.entries@[i].0@);
            } else if i < k {
                assert(self.entries@[i].0@ != self.entries@[k].0@);
            }
        }
    }

    pub fn new() -> (r: ShardCounts)
        ensures
            r@ == Map::<Seq<char>, i16>::empty(),
    {
        let r = ShardCounts { entries: Vec::new() };
        assert(r@ =~= Map::<Seq<char>, i16>::empty());
        r
    }

    fn position(&self, queue: &str) -> (r: Option<usize>)
        ensures
            match r {
                Some(i) => i < self.entries@.len() && self.entries@[i as int].0@ == queue@,
                None => forall|i: int|
                    0 <= i < self.entries@.len() ==> (#[trigger] self.entries@[i]).0@ != queue@,
            },
    {
        let name = queue.to_owned();
        let mut i: usize = 0;
        while i < self.entries.len()
            invariant
                i <= self.entries@.len(),
                name@ == queue@,
                forall|k: int| 0 <= k < i ==> (#[trigger] self.entries@[k]).0@ != queue@,
            decreases self.entries.len() - i,
        {
            if self.entries[i].0 == name {
                return Some(i);
            }
            i = i + 1;
        }
        None
    }

    /// The shard count of a queue, when it has been looked up.
    pub fn get(&self, queue: &str) -> (r: Option<i16>)
        ensures
            match r {
                Some(shards) => self@.dom().contains(queue@) && shards == self@[queue@],
                None => !self@.dom().contains(queue@),
            },
    {
        proof {
            use_type_invariant(self);
        }
        match self.position(queue) {
            Some(i) => {
                proof {
                    self.lemma_entry(i as int);
                }
                Some(self.entries[i].1)
            },
            None => None,
        }
    }

    /// Remembers what a lookup found; a queue has at least one shard. Returns
    /// the count that was remembered.
    pub fn remember(&mut self, queue: &str, found: i16) -> (r: i16)
        ensures
            r == (if found < 1 {
                1
            } else {
                found
            }),
            final(self)@ == old(self)@.insert(queue@, r),
    {
        proof {
            use_type_invariant(&*self);
        }
        let shards: i16 = if found < 1 {
            1
        } else {
            found
        };
        let ghost before = *self;
        let at = self.position(queue);
        let mut entries: Vec<(String, i16)> = Vec::new();
        std::mem::swap(&mut entries, &mut self.entries);
        match at {
            Some(i) => {
                entries.set(i, (queue.to_owned(), shards));
            },
            None => {
                entries.push((queue.to_owned(), shards));
            },
        }
        let ghost after = ShardCounts { entries };
        proof {
            assert(after.no_repeats()) by {
                assert forall|i: int, j: int| 0 <= i < j < after.entries@.len() implies (
                #[trigger] after.entries@[i]).0@ != (#[trigger] after.entries@[j]).0@ by {
                    if j < before.entries@.len() {
                        assert(before.entries@[i].0@ != before.entries@[j].0@);
                    }
                }
            }
            let expected = before@.insert(queue@, shards);
            assert forall|q: Seq<char>| #[trigger] after@.dom().contains(q)
                == expected.dom().contains(q) && (after@.dom().contains(q) ==> after@[q]
                == expected[q]) by {
                if before@.dom().contains(q) {
                    let i = choose|i: int|
                        0 <= i < before.entries@.len() && (#[trigger] before.entries@[i]).0@ == q;
                    before.lemma_entry(i);
                    assert(after.entries@[i].0@ == q);
                    after.lemma_entry(i);
                }
                if after@.dom().contains(q) {
                    let i = choose|i: int|
                        0 <= i < after.entries@.len() && (#[trigger] after.entries@[i]).0@ == q;
                    after.lemma_entry(i);
                    if i < before.entries@.len() {
                        assert(before.entries@[i].0@ == q);
                        before.lemma_entry(i);
                    }
                }
                if q == queue@ {
                    let i = match at {
                        Some(i) => i as int,
                        None => before.entries@.len() as int,
                    };
                    assert(after.entries@[i].0@ == q);
                    after.lemma_entry(i);
                }
            }
            assert(after@ =~= expected);
        }
        self.entries = entries;
        shards
    }

    /// Forgets everything.
    pub fn clear(&mut self)
        ensures
            final(self)@ == Map::<Seq<char>, i16>::empty(),
    {
        *self = ShardCounts::new();
    }
}

/// Lanes whose rows were seen in place. An entry may be stale; it is only a
/// hint that inserting the rows again can be skipped.
pub struct LaneSet {
    lanes: Vec<(String, i16, i16)>,
}

impl View for LaneSet {
    type V = Set<LaneView>;

    closed spec fn view(&self) -> Set<LaneView> {
        Set::new(
            |lane: LaneView|
                exists|i: int|
                    0 <= i < self.lanes@.len() && lane_of(#[trigger] self.lanes@[i]) == lane,
        )
    }
}

spec fn lane_of(entry: (String, i16, i16)) -> LaneView {
    (entry.0@, entry.1, entry.2)
}

impl LaneSet {
    #[verifier::type_invariant]
    spec fn no_repeats(&self) -> bool {
        forall|i: int, j: int|
            0 <= i < j < self.lanes@.len() ==> lane_of(#[trigger] self.lanes@[i]) != lane_of(
                #[trigger] self.lanes@[j],
            )
    }

    pub fn new() -> (r: LaneSet)
        ensures
            r@ == Set::<LaneView>::empty(),
    {
        let r = LaneSet { lanes: Vec::new() };
        assert(r@ =~= Set::<LaneView>::empty());
        r
    }

    fn position(&self, queue: &str, priority: i16, enqueue_shard: i16) -> (r: Option<usize>)
        ensures
            match r {
                Some(i) => i < self.lanes@.len() && lane_of(self.lanes@[i as int]) == (
                    queue@,
                    priority,
                    enqueue_shard,
                ),
                None => forall|i: int|
                    0 <= i < self.lanes@.len() ==> lane_of(#[trigger] self.lanes@[i]) != (
                        queue@,
                        priority,
                        enqueue_shard,
                    ),
            },
    {
        let name = queue.to_owned();
        let mut i: usize = 0;
        while i < self.lanes.len()
            invariant
                i <= self.lanes@.len(),
                name@ == queue@,
                forall|k: int|
                    0 <= k < i ==> lane_of(#[trigger] self.lanes@[k]) != (
                        queue@,
                        priority,
                        enqueue_shard,
                    ),
            decreases self.lanes.len() - i,
        {
            if self.lanes[i].1 == priority && self.lanes[i].2 == enqueue_shard && self.lanes[i].0
                == name {
                return Some(i);
            }
            i = i + 1;
        }
        None
    }

    /// Whether the lane's rows were seen in place.
    pub fn lane_is_cached(&self, queue: &str, priority: i16, enqueue_shard: i16) -> (r: bool)
        ensures
            r == self@.contains((queue@, priority, enqueue_shard)),
    {
        self.position(queue, priority, enqueue_shard).is_some()
    }

    /// Notes that the lane's rows are in place.
    pub fn mark_lane_ensured(&mut self, queue: &str, priority: i16, enqueue_shard: i16)
        ensures
            final(self)@ == old(self)@.insert((queue@, priority, enqueue_shard)),
    {
        proof {
            use_type_invariant(&*self);
        }
        let ghost lane = (queue@, priority, enqueue_shard);
        let ghost before = *self;
        let at = self.position(queue, priority, enqueue_shard);
        if at.is_some() {
            assert(before@.insert(lane) =~= before@);
            return;
        }
        let mut lanes: Vec<(String, i16, i16)> = Vec::new();
        std::mem::swap(&mut lanes, &mut self.lanes);
        lanes.push((queue.to_owned(), priority, enqueue_shard));
        let ghost after = LaneSet { lanes };
        proof {
            assert forall|l: LaneView| #[trigger] after@.contains(l) == before@.insert(lane).contains(
                l,
            ) by {
                if before@.contains(l) {
                    let i = choose|i: int|
                        0 <= i < before.lanes@.len() && lane_of(#[trigger] before.lanes@[i]) == l;
                    assert(lane_of(after.lanes@[i]) == l);
                }
                if l == lane {
                    assert(lane_of(after.lanes@[before.lanes@.len() as int]) == l);
                }
                if after@.contains(l) {
                    let i = choose|i: int|
                        0 <= i < after.lanes@.len() && lane_of(#[trigger] after.lanes@[i]) == l;
                    if i < before.lanes@.len() {
                        assert(lane_of(before.lanes@[i]) == l);
                    }
                }
            }
            assert(after@ =~= before@.insert(lane));
            assert forall|i: int, j: int| 0 <= i < j < after.lanes@.len() implies lane_of(
                #[trigger] after.lanes@[i],
            ) != lane_of(#[trigger] after.lanes@[j]) by {
                assert(after.lanes@[i] == before.lanes@[i]);
                if j < before.lanes@.len() {
                    assert(after.lanes@[j] == before.lanes@[j]);
                }
            }
        }
        self.lanes = lanes;
    }

    /// Notes that the lane's rows may be gone.
    pub fn invalidate_cached_lane(&mut self, queue: &str, priority: i16, enqueue_shard: i16)
        ensures
            final(self)@ == old(self)@.remove((queue@, priority, enqueue_shard)),
    {
        proof {
            use_type_invariant(&*self);
        }
        let ghost lane = (queue@, priority, enqueue_shard);
        let ghost before = *self;
        match self.position(queue, priority, enqueue_shard) {
            None => {
                assert(before@.remove(lane) =~= before@);
            },
            Some(at) => {
                let mut lanes: Vec<(String, i16, i16)> = Vec::new();
                std::mem::swap(&mut lanes, &mut self.lanes);
                let _removed = lanes.remove(at);
                let ghost after = LaneSet { lanes };
                proof {
                    assert forall|i: int, j: int| 0 <= i < j < after.lanes@.len() implies lane_of(
                        #[trigger] after.lanes@[i],
                    ) != lane_of(#[trigger] after.lanes@[j]) by {
                        let i0 = if i < at { i } else { i + 1 };
                        let j0 = if j < at { j } else { j + 1 };
                        assert(after.lanes@[i] == before.lanes@[i0]);
                        assert(after.lanes@[j] == before.lanes@[j0]);
                    }
                    assert forall|l: LaneView| #[trigger]
                        after@.contains(l) == before@.remove(lane).contains(l) by {
                        if before@.contains(l) && l != lane {
                            let i = choose|i: int|
                                0 <= i < before.lanes@.len() && lane_of(
                                    #[trigger] before.lanes@[i],
                                ) == l;
                            let i1 = if i < at { i } else { i - 1 };
                            assert(after.lanes@[i1] == before.lanes@[i]);
                            assert(lane_of(after.lanes@[i1]) == l);
                        }
                        if after@.contains(l) {
                            let i = choose|i: int|
                                0 <= i < after.lanes@.len() && lane_of(#[trigger] after.lanes@[i])
                                    == l;
                            let i0 = if i < at { i } else { i + 1 };
                            assert(after.lanes@[i] == before.lanes@[i0]);
                            assert(lane_of(before.lanes@[i0]) == l);
                            if i0 < at {
                                assert(lane_of(before.lanes@[i0]) != lane_of(before.lanes@[at as int]));
                            } else {
                                assert(lane_of(before.lanes@[at as int]) != lane_of(before.lanes@[i0]));
                            }
                        }
                    }
                    assert(after@ =~= before@.remove(lane));
                }
                self.lanes = lanes;
            },
        }
    }

    /// Settles whether a lane is set up. A cached lane is trusted only when its
    /// row is visible: a transaction that marked it may have been rolled back,
    /// and then the mark goes.
    pub fn lane_is_ready(&mut self, queue: &str, priority: i16, enqueue_shard: i16, visible: bool) -> (r:
        bool)
        ensures
            r == (old(self)@.contains((queue@, priority, enqueue_shard)) && visible),
            final(self)@ == (if visible {
                old(self)@
            } else {
                old(self)@.remove((queue@, priority, enqueue_shard))
            }),
    {
        let cached = self.lane_is_cached(queue, priority, enqueue_shard);
        if !visible {
            self.invalidate_cached_lane(queue, priority, enqueue_shard);
        }
        cached && visible
    }

    /// Forgets everything.
    pub fn clear_lane_cache(&mut self)
        ensures
            final(self)@ == Set::<LaneView>::empty(),
    {
        *self = LaneSet::new();
    }
}

/// Counters that spread work: probes over stripes, and batches without ordering
/// keys over shards. Both start over after their largest value.
#[derive(Debug, Clone, Copy, PartialEq, Eq, Structural)]
pub struct Rotors {
    /// The number of the next probe.
    pub stripe_probe: usize,
    /// The number of the next batch.
    pub shard_rotor: u16,
}

impl Rotors {
    pub fn new() -> (r: Rotors)
        ensures
            r == (Rotors { stripe_probe: 0, shard_rotor: 0 }),
    {
        Rotors { stripe_probe: 0, shard_rotor: 0 }
    }

    /// After one more probe.
    pub open spec fn after_probe(self) -> Rotors {
        Rotors {
            stripe_probe: if self.stripe_probe == usize::MAX {
                0
            } else {
                (self.stripe_probe + 1) as usize
            },
            ..self
        }
    }

    /// After that many more batches.
    pub open spec fn after_picks(self, picks: nat) -> Rotors {
        Rotors { shard_rotor: ((self.shard_rotor + picks) % 0x1_0000) as u16, ..self }
    }

    /// Takes the number of a probe.
    pub fn next_probe(&mut self) -> (r: usize)
        ensures
            r == old(self).stripe_probe,
            *final(self) == old(self).after_probe(),
    {
        let number: usize = self.stripe_probe;
        self.stripe_probe = number.wrapping_add(1);
        number
    }

    /// Takes the number of a batch.
    pub fn next_pick(&mut self) -> (r: u16)
        ensures
            r == old(self).shard_rotor,
            *final(self) == old(self).after_picks(1),
    {
        let number: u16 = self.shard_rotor;
        self.shard_rotor = number.wrapping_add(1);
        number
    }
}

/// Probes go round: each starts one stripe further than the one before, except
/// where the counter starts over.
pub proof fn law_probes_go_round(rotors: Rotors, stripe_count: usize)
    requires
        stripe_count > 0,
        rotors.stripe_probe < usize::MAX,
    ensures
        rotors.after_probe().stripe_probe as int % stripe_count as int == (
        rotors.stripe_probe as int % stripe_count as int + 1) % stripe_count as int,
{
    vstd::arithmetic::div_mod::lemma_add_mod_noop_right(
        1,
        rotors.stripe_probe as int,
        stripe_count as int,
    );
}

/// Batches go round: each goes one shard further than the one before, except
/// where the counter starts over.
pub proof fn law_batches_go_round(rotors: Rotors, shards: int)
    requires
        shards > 1,
        rotors.shard_rotor < u16::MAX,
    ensures
        routing::shard_of_rotor(rotors.after_picks(1).shard_rotor, shards) == (
        routing::shard_of_rotor(rotors.shard_rotor, shards) + 1) % shards,
{
    vstd::arithmetic::div_mod::lemma_add_mod_noop_right(1, rotors.shard_rotor as int, shards);
}

} // verus!
