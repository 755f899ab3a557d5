//! Rescuing open receipts: over which slots of the claim ring, and how many.
use crate::ring;
use crate::ring::RingState;
use crate::storage::QueueStorage;
use vstd::prelude::*;

verus! {

/// How many receipts one pass rescues at most.
pub const RECEIPT_RESCUE_BATCH_LIMIT: i64 = 500;

/// The slots from `from` on, without the preferred one.
pub open spec fn slots_from(from: int, count: int, preferred: Option<i32>) -> Seq<i32>
    decreases count - from,
{
    if from >= count {
        Seq::empty()
    } else if preferred == Some(from as i32) {
        slots_from(from + 1, count, preferred)
    } else {
        seq![from as i32] + slots_from(from + 1, count, preferred)
    }
}

/// The order in which slots are rescued: the preferred one first, then the
/// others from zero on.
pub open spec fn sweep_order(preferred: Option<i32>, count: int) -> Seq<i32> {
    match preferred {
        Some(slot) => seq![slot] + slots_from(0, count, preferred),
        None => slots_from(0, count, preferred),
    }
}

/// A rescue pass over the slots of the claim ring.
#[derive(Debug)]
pub struct SlotSweep {
    order: Vec<i32>,
    at: usize,
    remaining: i64,
}

impl SlotSweep {
    #[verifier::type_invariant]
    spec fn wf(self) -> bool {
        self.at <= self.order@.len()
    }

    pub closed spec fn slots(self) -> Seq<i32> {
        self.order@
    }

    /// How many slots the pass has been through.
    pub closed spec fn done(self) -> nat {
        self.at as nat
    }

    /// How many receipts may still be rescued.
    pub closed spec fn budget(self) -> int {
        self.remaining as int
    }

    /// There is a slot left, and the budget is not used up.
    pub open spec fn goes_on(self) -> bool {
        self.done() < self.slots().len() && self.budget() != 0
    }

    /// A pass over `count` slots.
    pub fn new(preferred: Option<i32>, count: usize) -> (r: SlotSweep)
        requires
            count <= i32::MAX,
        ensures
            r.slots() == sweep_order(preferred, count as int),
            r.done() == 0,
            r.budget() == RECEIPT_RESCUE_BATCH_LIMIT,
    {
        let mut order: Vec<i32> = Vec::new();
        match preferred {
            Some(slot) => order.push(slot),
            None => {},
        }
        let ghost lead = order@;
        proof {
            assert(lead + slots_from(0, count as int, preferred) =~= sweep_order(
                preferred,
                count as int,
            ));
        }
        let mut slot: usize = 0;
        while slot < count
            invariant
                slot <= count,
                count <= i32::MAX,
                order@ + slots_from(slot as int, count as int, preferred) == sweep_order(
                    preferred,
                    count as int,
                ),
            decreases count - slot,
        {
            let number: i32 = slot as i32;
            let skip = match preferred {
                Some(first) => first == number,
                None => false,
            };
            proof {
                let rest = slots_from(slot + 1, count as int, preferred);
                assert(order@.push(number) + rest =~= order@ + (seq![number] + rest));
            }
            if !skip {
                order.push(number);
            }
            slot = slot + 1;
        }
        proof {
            assert(order@ + Seq::<i32>::empty() =~= order@);
        }
        SlotSweep { order, at: 0, remaining: RECEIPT_RESCUE_BATCH_LIMIT }
    }

    /// The next slot to rescue from, and how many receipts at most.
    pub fn next(&self) -> (r: Option<(i32, i64)>)
        ensures
            match r {
                Some((slot, limit)) => self.goes_on() && slot == self.slots()[self.done() as int]
                    && limit == self.budget(),
                None => !self.goes_on(),
            },
    {
        proof {
            use_type_invariant(self);
        }
        if self.at < self.order.len() && self.remaining != 0 {
            Some((self.order[self.at], self.remaining))
        } else {
            None
        }
    }

    /// Books how many receipts the slot gave.
    pub fn book(&mut self, rescued: usize)
        requires
            old(self).goes_on(),
            rescued <= i64::MAX,
        ensures
            final(self).slots() == old(self).slots(),
            final(self).done() == old(self).done() + 1,
            final(self).budget() == (if old(self).budget() - rescued < i64::MIN {
                i64::MIN as int
            } else {
                old(self).budget() - rescued
            }),
    {
        proof {
            use_type_invariant(&*self);
        }
        assert(self.order.len() <= usize::MAX);
        let left: i128 = self.remaining as i128 - rescued as i128;
        let remaining: i64 = if left < i64::MIN as i128 {
            i64::MIN
        } else {
            left as i64
        };
        let at: usize = self.at;
        let mut rest = SlotSweep { order: Vec::new(), at: 0, remaining: 0 };
        std::mem::swap(self, &mut rest);
        *self = SlotSweep { order: rest.order, at: at + 1, remaining };
    }
}

proof fn lemma_slots_from(from: int, count: int, preferred: Option<i32>)
    requires
        0 <= from,
        count <= i32::MAX,
    ensures
        forall|i: int|
            0 <= i < slots_from(from, count, preferred).len() ==> from <= #[trigger] slots_from(
                from,
                count,
                preferred,
            )[i] < count && preferred != Some(slots_from(from, count, preferred)[i]),
        forall|i: int, j: int|
            0 <= i < j < slots_from(from, count, preferred).len() ==> (#[trigger] slots_from(
                from,
                count,
                preferred,
            )[i]) < (#[trigger] slots_from(from, count, preferred)[j]),
        forall|slot: i32|
            from <= slot < count && preferred != Some(slot) ==> #[trigger] slots_from(
                from,
                count,
                preferred,
            ).contains(slot),
    decreases count - from,
{
    if from < count {
        let rest = slots_from(from + 1, count, preferred);
        lemma_slots_from(from + 1, count, preferred);
        let all = slots_from(from, count, preferred);
        if preferred != Some(from as i32) {
            assert(all =~= seq![from as i32] + rest);
            assert forall|i: int| 0 <= i < all.len() implies from <= #[trigger] all[i] < count
                && preferred != Some(all[i]) by {
                if i > 0 {
                    assert(all[i] == rest[i - 1]);
                }
            }
            assert forall|i: int, j: int| 0 <= i < j < all.len() implies (#[trigger] all[i]) < (
            #[trigger] all[j]) by {
                assert(all[j] == rest[j - 1]);
                if i > 0 {
                    assert(all[i] == rest[i - 1]);
                }
            }
            assert forall|slot: i32|
                from <= slot < count && preferred != Some(slot) implies #[trigger] all.contains(
                slot,
            ) by {
                if slot == from {
                    assert(all[0] == slot);
                } else {
                    assert(rest.contains(slot));
                    let k = choose|k: int| 0 <= k < rest.len() && rest[k] == slot;
                    assert(all[k + 1] == slot);
                }
            }
        }
    }
}

/// A full pass goes through every slot of the ring, and through none twice.
pub proof fn law_sweep_visits_each_slot_once(preferred: Option<i32>, count: int, slot: i32)
    requires
        0 <= count <= i32::MAX,
        preferred matches Some(first) ==> 0 <= first < count,
        0 <= slot < count,
    ensures
        sweep_order(preferred, count).contains(slot),
        forall|i: int, j: int|
            0 <= i < j < sweep_order(preferred, count).len() ==> (#[trigger] sweep_order(
                preferred,
                count,
            )[i]) != (#[trigger] sweep_order(preferred, count)[j]),
{
    lemma_slots_from(0, count, preferred);
    let rest = slots_from(0, count, preferred);
    let order = sweep_order(preferred, count);
    if preferred is Some {
        let first = preferred->0;
        assert(order =~= seq![first] + rest);
        assert forall|i: int, j: int| 0 <= i < j < order.len() implies (#[trigger] order[i]) != (
        #[trigger] order[j]) by {
            assert(order[j] == rest[j - 1]);
            if i > 0 {
                assert(order[i] == rest[i - 1]);
            }
        }
        if slot == first {
            assert(order[0] == slot);
        } else {
            assert(rest.contains(slot));
            let k = choose|k: int| 0 <= k < rest.len() && rest[k] == slot;
            assert(order[k + 1] == slot);
        }
    } else {
        assert(rest.contains(slot));
    }
}

/// A pass never rescues more than its limit, as long as no slot gives more than
/// it is asked for.
pub proof fn law_rescues_stay_within_limit(before: SlotSweep, after: SlotSweep, given: nat)
    requires
        before.goes_on(),
        0 <= before.budget(),
        given <= before.budget(),
        after.budget() == before.budget() - given,
    ensures
        0 <= after.budget() <= before.budget(),
        after.budget() == 0 ==> !after.goes_on(),
{
}

impl QueueStorage {
    /// The slot that a rescue starts with: the oldest initialised one of the
    /// claim ring, if the ring is set up and has that slot.
    pub fn preferred_claim_slot(&self, state: Option<RingState>) -> (r: Option<i32>)
        ensures
            r == (match state {
                None => None,
                Some(s) => match ring::oldest_slot(s.current_slot, s.generation, s.slot_count) {
                    Some((slot, _)) => if 0 <= slot < self.layout().claim_slot_count {
                        Some(slot as i32)
                    } else {
                        None
                    },
                    None => None,
                },
            }),
    {
        match state {
            None => None,
            Some(s) => match ring::oldest_initialized_ring_slot(
                s.current_slot,
                s.generation,
                s.slot_count,
            ) {
                Some((slot, _)) => {
                    if slot >= 0 && (slot as usize) < self.claim_slot_count() {
                        Some(slot)
                    } else {
                        None
                    }
                },
                None => None,
            },
        }
    }
}

} // verus!
