//! Completing claimed jobs: which path a batch takes, what is written for it,
//! and which claims are still to be settled.
use crate::claims::ClaimedRuntimeJob;
use crate::clock::Timestamp;
use crate::distinct;
use crate::error;
use crate::error::AwaError;
use crate::job::JobState;
use crate::payload;
use crate::ring;
use crate::rows::DoneJobRow;
use crate::rows::LeaseTransitionRow;
use crate::select;
use crate::storage::QueueStorage;
use vstd::prelude::*;
use vstd::string::*;

verus! {

/// The attempt that a claimed job is known by: job id and lease number.
pub open spec fn attempt_of(entry: ClaimedRuntimeJob) -> (i64, i64) {
    (entry.job.id, entry.job.run_lease)
}

/// A claim whose completion can be recorded in compact form: it has a receipt,
/// and the job carries nothing that only a full terminal row could hold.
pub open spec fn is_compact(entry: ClaimedRuntimeJob) -> bool {
    &&& entry.claim.lease_claim_receipt
    &&& entry.claim.receipt_id is Some
    &&& entry.job.unique_key is None
    &&& payload::only_provenance(entry.job.metadata)
    &&& entry.job.tags@.len() == 0
    &&& entry.job.errors matches Some(errors) ==> errors@.len() == 0
}

/// Whether a claim's completion can be recorded in compact form.
pub fn receipt_fast_complete_candidate(entry: &ClaimedRuntimeJob) -> (r: bool)
    ensures
        r == is_compact(*entry),
{
    let no_errors = match &entry.job.errors {
        Some(errors) => errors.len() == 0,
        None => true,
    };
    entry.claim.lease_claim_receipt && entry.claim.receipt_id.is_some()
        && entry.job.unique_key.is_none() && payload::is_compact_receipt_completion_metadata(
        &entry.job.metadata,
    ) && entry.job.tags.len() == 0 && no_errors
}

impl QueueStorage {
    /// Whether a batch takes the compact path: receipts are in use and every
    /// claim qualifies.
    pub fn completes_compactly(&self, claimed: &Vec<ClaimedRuntimeJob>) -> (r: bool)
        ensures
            r == (self.layout().lease_claim_receipts && forall|i: int|
                0 <= i < claimed@.len() ==> is_compact(#[trigger] claimed@[i])),
    {
        if !self.lease_claim_receipts() {
            return false;
        }
        let mut i: usize = 0;
        while i < claimed.len()
            invariant
                i <= claimed@.len(),
                forall|k: int| 0 <= k < i ==> is_compact(#[trigger] claimed@[k]),
            decreases claimed.len() - i,
        {
            if !receipt_fast_complete_candidate(&claimed[i]) {
                return false;
            }
            i = i + 1;
        }
        true
    }

    /// Groups a batch by the partition of the claim ring that holds each
    /// receipt, in the order of the partitions. A claim slot that the ring does
    /// not have fails the batch.
    pub fn partition_by_claim_slot(&self, claimed: &Vec<ClaimedRuntimeJob>) -> (r: Result<
        Vec<ReceiptPartition>,
        AwaError,
    >)
        ensures
            match r {
                Ok(parts) => are_partitions(
                    claimed@,
                    self.layout().claim_slot_count,
                    parts@,
                ),
                Err(err) => exists|i: int|
                    #![trigger claimed@[i]]
                    0 <= i < claimed@.len() && (ring::slot_objection(
                        claimed@[i].claim.claim_slot,
                        self.layout().claim_slot_count,
                        "claim"@,
                    ) matches Some(text) && error::is_validation(err, text)) && forall|j: int|
                        #![trigger claimed@[j]]
                        0 <= j < i ==> ring::slot_objection(
                            claimed@[j].claim.claim_slot,
                            self.layout().claim_slot_count,
                            "claim"@,
                        ) is None,
            },
    {
        let count: usize = self.claim_slot_count();
        let mut slots: Vec<i64> = Vec::new();
        let mut i: usize = 0;
        while i < claimed.len()
            invariant
                i <= claimed@.len(),
                count == self.layout().claim_slot_count,
                slots@.len() == i,
                forall|k: int|
                    0 <= k < i ==> #[trigger] slots@[k] == claimed@[k].claim.claim_slot,
                forall|k: int|
                    #![trigger claimed@[k]]
                    0 <= k < i ==> ring::slot_objection(
                        claimed@[k].claim.claim_slot,
                        count,
                        "claim"@,
                    ) is None,
            decreases claimed.len() - i,
        {
            match ring::ring_slot_index(claimed[i].claim.claim_slot, count, "claim") {
                Ok(index) => slots.push(claimed[i].claim.claim_slot as i64),
                Err(err) => {
                    return Err(err);
                },
            }
            i = i + 1;
        }
        let ghost all = slots@;
        let slots = distinct::distinct_ids(slots);
        let mut parts: Vec<ReceiptPartition> = Vec::new();
        let mut n: usize = 0;
        while n < slots.len()
            invariant
                n <= slots@.len(),
                all.len() == claimed@.len(),
                forall|k: int|
                    0 <= k < all.len() ==> #[trigger] all[k] == claimed@[k].claim.claim_slot,
                forall|k: int|
                    #![trigger claimed@[k]]
                    0 <= k < claimed@.len() ==> ring::slot_objection(
                        claimed@[k].claim.claim_slot,
                        count,
                        "claim"@,
                    ) is None,
                forall|id: i64| #[trigger] slots@.contains(id) <==> all.contains(id),
                parts@.len() == n,
                forall|k: int|
                    0 <= k < n ==> is_partition(claimed@, count, #[trigger] parts@[k])
                        && parts@[k].slot == slots@[k],
            decreases slots.len() - n,
        {
            let slot: i64 = slots[n];
            let mut members: Vec<usize> = Vec::new();
            let ghost here = |i: int| claimed@[i].claim.claim_slot == slot;
            let mut m: usize = 0;
            while m < claimed.len()
                invariant
                    m <= claimed@.len(),
                    here == (|i: int| claimed@[i].claim.claim_slot == slot),
                    select::selects(m as int, here, members@),
                decreases claimed.len() - m,
            {
                proof {
                    select::lemma_selects_step(m as int, here, members@);
                }
                if claimed[m].claim.claim_slot as i64 == slot {
                    members.push(m);
                }
                m = m + 1;
            }
            proof {
                assert(slots@.contains(slots@[n as int]));
                let k = choose|k: int| 0 <= k < all.len() && all[k] == slot;
                assert(all[k] == claimed@[k].claim.claim_slot);
                assert(here(k));
                assert(members@.contains(k as usize));
                let part = ReceiptPartition { slot: slot as usize, members };
                assert(claimed@[k].claim.claim_slot >= 0);
                assert(select::selects(
                    claimed@.len() as int,
                    |i: int| claimed@[i].claim.claim_slot == part.slot,
                    part.members@,
                )) by {
                    assert(here =~= (|i: int| claimed@[i].claim.claim_slot == part.slot));
                }
            }
            parts.push(ReceiptPartition { slot: slot as usize, members });
            n = n + 1;
        }
        proof {
            assert forall|i: int| 0 <= i < claimed@.len() implies #[trigger] placed_in_some(
                claimed@,
                parts@,
                i,
            ) by {
                let slot = claimed@[i].claim.claim_slot as i64;
                assert(all[i] == slot);
                assert(all.contains(slot));
                assert(slots@.contains(slot));
                let k = choose|k: int| 0 <= k < slots@.len() && slots@[k] == slot;
                assert(parts@[k].slot == slot);
            }
        }
        Ok(parts)
    }
}

/// The claims of a batch whose receipts lie in one partition of the claim ring,
/// by their positions in the batch.
#[derive(Debug)]
pub struct ReceiptPartition {
    pub slot: usize,
    pub members: Vec<usize>,
}

/// The partition lists its claims, at least one.
pub open spec fn is_partition(
    claimed: Seq<ClaimedRuntimeJob>,
    slot_count: usize,
    part: ReceiptPartition,
) -> bool {
    &&& part.slot < slot_count
    &&& part.members@.len() > 0
    &&& select::selects(
        claimed.len() as int,
        |i: int| claimed[i].claim.claim_slot == part.slot,
        part.members@,
    )
}

/// Some partition is the claim's.
pub open spec fn placed_in_some(
    claimed: Seq<ClaimedRuntimeJob>,
    parts: Seq<ReceiptPartition>,
    i: int,
) -> bool {
    exists|k: int| 0 <= k < parts.len() && (#[trigger] parts[k]).slot == claimed[i].claim.claim_slot
}

/// `parts` groups the whole batch, in ascending order of the partitions.
pub open spec fn are_partitions(
    claimed: Seq<ClaimedRuntimeJob>,
    slot_count: usize,
    parts: Seq<ReceiptPartition>,
) -> bool {
    &&& forall|k: int|
        0 <= k < parts.len() ==> is_partition(claimed, slot_count, #[trigger] parts[k])
    &&& forall|j: int, k: int|
        0 <= j < k < parts.len() ==> (#[trigger] parts[j]).slot < (#[trigger] parts[k]).slot
    &&& forall|i: int| 0 <= i < claimed.len() ==> #[trigger] placed_in_some(claimed, parts, i)
}

/// Each claim of a batch is in exactly one partition.
pub proof fn law_partitions_share_nothing(
    claimed: Seq<ClaimedRuntimeJob>,
    slot_count: usize,
    parts: Seq<ReceiptPartition>,
    i: int,
)
    requires
        are_partitions(claimed, slot_count, parts),
        claimed.len() <= usize::MAX,
        0 <= i < claimed.len(),
    ensures
        exists|k: int| 0 <= k < parts.len() && (#[trigger] parts[k]).members@.contains(i as usize),
        forall|j: int, k: int|
            #![trigger parts[j], parts[k]]
            0 <= j < k < parts.len() ==> !(parts[j].members@.contains(i as usize)
                && parts[k].members@.contains(i as usize)),
{
    assert(placed_in_some(claimed, parts, i));
    let k = choose|k: int|
        0 <= k < parts.len() && (#[trigger] parts[k]).slot == claimed[i].claim.claim_slot;
    assert(is_partition(claimed, slot_count, parts[k]));
    let here = |i: int| claimed[i].claim.claim_slot == parts[k].slot;
    assert(here(i));
    assert(parts[k].members@.contains(i as usize));
    assert forall|j: int, k: int|
        #![trigger parts[j], parts[k]]
        0 <= j < k < parts.len() implies !(parts[j].members@.contains(i as usize)
        && parts[k].members@.contains(i as usize)) by {
        assert(is_partition(claimed, slot_count, parts[j]));
        assert(is_partition(claimed, slot_count, parts[k]));
        if parts[j].members@.contains(i as usize) && parts[k].members@.contains(i as usize) {
            let a = choose|a: int|
                0 <= a < parts[j].members@.len() && parts[j].members@[a] == i as usize;
            let b = choose|b: int|
                0 <= b < parts[k].members@.len() && parts[k].members@[b] == i as usize;
            assert(claimed[parts[j].members@[a] as int].claim.claim_slot == parts[j].slot);
            assert(claimed[parts[k].members@[b] as int].claim.claim_slot == parts[k].slot);
        }
    }
}

/// What the compact completion of a partition binds, claim by claim.
#[derive(Debug)]
pub struct ReceiptColumns {
    pub claim_slots: Vec<i32>,
    pub ready_slots: Vec<i32>,
    pub ready_generations: Vec<i64>,
    pub job_ids: Vec<i64>,
    pub queues: Vec<String>,
    pub priorities: Vec<i16>,
    pub attempts: Vec<i16>,
    pub run_leases: Vec<i64>,
    pub receipt_ids: Vec<i64>,
    pub claim_batch_ids: Vec<Option<i64>>,
    pub claim_batch_indices: Vec<Option<i32>>,
    pub lane_seqs: Vec<i64>,
    pub enqueue_shards: Vec<i16>,
    pub attempted_ats: Vec<Option<Timestamp>>,
    pub finalized_ats: Vec<Timestamp>,
}

impl ReceiptColumns {
    pub open spec fn holds(self, n: int) -> bool {
        &&& self.claim_slots@.len() == n
        &&& self.ready_slots@.len() == n
        &&& self.ready_generations@.len() == n
        &&& self.job_ids@.len() == n
        &&& self.queues@.len() == n
        &&& self.priorities@.len() == n
        &&& self.attempts@.len() == n
        &&& self.run_leases@.len() == n
        &&& self.receipt_ids@.len() == n
        &&& self.claim_batch_ids@.len() == n
        &&& self.claim_batch_indices@.len() == n
        &&& self.lane_seqs@.len() == n
        &&& self.enqueue_shards@.len() == n
        &&& self.attempted_ats@.len() == n
        &&& self.finalized_ats@.len() == n
    }

    /// Row `k` of the columns is this claim.
    pub open spec fn row_is(self, k: int, entry: ClaimedRuntimeJob, finalized_at: Timestamp) -> bool {
        &&& self.claim_slots@[k] == entry.claim.claim_slot
        &&& self.ready_slots@[k] == entry.claim.ready_slot
        &&& self.ready_generations@[k] == entry.claim.ready_generation
        &&& self.job_ids@[k] == entry.job.id
        &&& self.queues@[k] == entry.job.queue
        &&& self.priorities@[k] == entry.claim.priority
        &&& self.attempts@[k] == entry.job.attempt
        &&& self.run_leases@[k] == entry.job.run_lease
        &&& Some(self.receipt_ids@[k]) == entry.claim.receipt_id
        &&& self.claim_batch_ids@[k] == entry.claim.claim_batch_id
        &&& self.claim_batch_indices@[k] == entry.claim.claim_batch_index
        &&& self.lane_seqs@[k] == entry.claim.lane_seq
        &&& self.enqueue_shards@[k] == entry.claim.enqueue_shard
        &&& self.attempted_ats@[k] == entry.job.attempted_at
        &&& self.finalized_ats@[k] == finalized_at
    }
}

/// Lays the claims of a partition out in columns.
pub fn receipt_columns(
    claimed: &Vec<ClaimedRuntimeJob>,
    members: &Vec<usize>,
    finalized_at: Timestamp,
) -> (r: ReceiptColumns)
    requires
        forall|k: int|
            0 <= k < members@.len() ==> (#[trigger] members@[k]) < claimed@.len()
                && claimed@[members@[k] as int].claim.receipt_id is Some,
    ensures
        r.holds(members@.len() as int),
        forall|k: int|
            0 <= k < members@.len() ==> #[trigger] r.row_is(
                k,
                claimed@[members@[k] as int],
                finalized_at,
            ),
{
    let mut r = ReceiptColumns {
        claim_slots: Vec::new(),
        ready_slots: Vec::new(),
        ready_generations: Vec::new(),
        job_ids: Vec::new(),
        queues: Vec::new(),
        priorities: Vec::new(),
        attempts: Vec::new(),
        run_leases: Vec::new(),
        receipt_ids: Vec::new(),
        claim_batch_ids: Vec::new(),
        claim_batch_indices: Vec::new(),
        lane_seqs: Vec::new(),
        enqueue_shards: Vec::new(),
        attempted_ats: Vec::new(),
        finalized_ats: Vec::new(),
    };
    let mut i: usize = 0;
    while i < members.len()
        invariant
            i <= members@.len(),
            forall|k: int|
                0 <= k < members@.len() ==> (#[trigger] members@[k]) < claimed@.len()
                    && claimed@[members@[k] as int].claim.receipt_id is Some,
            r.holds(i as int),
            forall|k: int|
                0 <= k < i ==> #[trigger] r.row_is(k, claimed@[members@[k] as int], finalized_at),
        decreases members.len() - i,
    {
        let ghost before = r;
        let entry = &claimed[members[i]];
        r.claim_slots.push(entry.claim.claim_slot);
        r.ready_slots.push(entry.claim.ready_slot);
        r.ready_generations.push(entry.claim.ready_generation);
        r.job_ids.push(entry.job.id);
        r.queues.push(entry.job.queue.clone());
        r.priorities.push(entry.claim.priority);
        r.attempts.push(entry.job.attempt);
        r.run_leases.push(entry.job.run_lease);
        match entry.claim.receipt_id {
            Some(receipt_id) => r.receipt_ids.push(receipt_id),
            None => {},
        }
        r.claim_batch_ids.push(entry.claim.claim_batch_id);
        r.claim_batch_indices.push(entry.claim.claim_batch_index);
        r.lane_seqs.push(entry.claim.lane_seq);
        r.enqueue_shards.push(entry.claim.enqueue_shard);
        r.attempted_ats.push(entry.job.attempted_at);
        r.finalized_ats.push(finalized_at);
        proof {
            assert forall|k: int| 0 <= k < i + 1 implies #[trigger] r.row_is(
                k,
                claimed@[members@[k] as int],
                finalized_at,
            ) by {
                if k < i {
                    assert(before.row_is(k, claimed@[members@[k] as int], finalized_at));
                }
            }
        }
        i = i + 1;
    }
    r
}

/// The attempts of a batch, claim by claim.
pub fn claimed_pairs(claimed: &Vec<ClaimedRuntimeJob>) -> (pairs: Vec<(i64, i64)>)
    ensures
        pairs@ == claimed@.map_values(|entry: ClaimedRuntimeJob| attempt_of(entry)),
{
    let mut pairs: Vec<(i64, i64)> = Vec::new();
    let mut i: usize = 0;
    while i < claimed.len()
        invariant
            i <= claimed@.len(),
            pairs@.len() == i,
            forall|k: int| 0 <= k < i ==> #[trigger] pairs@[k] == attempt_of(claimed@[k]),
        decreases claimed.len() - i,
    {
        pairs.push((claimed[i].job.id, claimed[i].job.run_lease));
        i = i + 1;
    }
    assert(pairs@ =~= claimed@.map_values(|entry: ClaimedRuntimeJob| attempt_of(entry)));
    pairs
}

fn has_pair(pairs: &Vec<(i64, i64)>, job_id: i64, run_lease: i64) -> (r: bool)
    ensures
        r == pairs@.contains((job_id, run_lease)),
{
    let mut i: usize = 0;
    while i < pairs.len()
        invariant
            i <= pairs@.len(),
            forall|k: int| 0 <= k < i ==> #[trigger] pairs@[k] != (job_id, run_lease),
        decreases pairs.len() - i,
    {
        if pairs[i].0 == job_id && pairs[i].1 == run_lease {
            assert(pairs@[i as int] == (job_id, run_lease));
            return true;
        }
        i = i + 1;
    }
    false
}

/// The claims of a batch that an earlier pass did not complete, by position.
pub fn missed_claims(claimed: &Vec<ClaimedRuntimeJob>, updated: &Vec<(i64, i64)>) -> (missed: Vec<
    usize,
>)
    ensures
        select::selects(
            claimed@.len() as int,
            |i: int| !updated@.contains(attempt_of(claimed@[i])),
            missed@,
        ),
{
    let ghost open = |i: int| !updated@.contains(attempt_of(claimed@[i]));
    let mut missed: Vec<usize> = Vec::new();
    let mut i: usize = 0;
    while i < claimed.len()
        invariant
            i <= claimed@.len(),
            open == (|i: int| !updated@.contains(attempt_of(claimed@[i]))),
            select::selects(i as int, open, missed@),
        decreases claimed.len() - i,
    {
        proof {
            select::lemma_selects_step(i as int, open, missed@);
        }
        if !has_pair(updated, claimed[i].job.id, claimed[i].job.run_lease) {
            missed.push(i);
        }
        i = i + 1;
    }
    missed
}

/// After the compact path, a second pass is needed unless every claim was
/// completed.
pub fn needs_second_pass(claimed: &Vec<ClaimedRuntimeJob>, updated: &Vec<(i64, i64)>) -> (r: bool)
    ensures
        r == (updated@.len() != claimed@.len()),
{
    updated.len() != claimed.len()
}

/// How the ordinary path takes a batch on: the claims to close by receipt and
/// those to close by lease, by position.
#[derive(Debug)]
pub struct SlowCompletion {
    pub receipts: Vec<usize>,
    pub leases: Vec<usize>,
}

/// Parts a batch into receipt claims and lease claims.
pub fn split_claims(claimed: &Vec<ClaimedRuntimeJob>) -> (r: SlowCompletion)
    ensures
        select::selects(
            claimed@.len() as int,
            |i: int| claimed@[i].claim.lease_claim_receipt,
            r.receipts@,
        ),
        select::selects(
            claimed@.len() as int,
            |i: int| !claimed@[i].claim.lease_claim_receipt,
            r.leases@,
        ),
{
    let ghost receipt = |i: int| claimed@[i].claim.lease_claim_receipt;
    let ghost lease = |i: int| !claimed@[i].claim.lease_claim_receipt;
    let mut r = SlowCompletion { receipts: Vec::new(), leases: Vec::new() };
    let mut i: usize = 0;
    while i < claimed.len()
        invariant
            i <= claimed@.len(),
            receipt == (|i: int| claimed@[i].claim.lease_claim_receipt),
            lease == (|i: int| !claimed@[i].claim.lease_claim_receipt),
            select::selects(i as int, receipt, r.receipts@),
            select::selects(i as int, lease, r.leases@),
        decreases claimed.len() - i,
    {
        proof {
            select::lemma_selects_step(i as int, receipt, r.receipts@);
            select::lemma_selects_step(i as int, lease, r.leases@);
        }
        if claimed[i].claim.lease_claim_receipt {
            r.receipts.push(i);
        } else {
            r.leases.push(i);
        }
        i = i + 1;
    }
    r
}

/// The receipt claims that did not close by receipt join the lease claims: a
/// receipt may have been turned into a lease since it was claimed.
pub fn escalate_receipts(
    claimed: &Vec<ClaimedRuntimeJob>,
    split: SlowCompletion,
    updated: &Vec<(i64, i64)>,
) -> (leases: Vec<usize>)
    requires
        forall|k: int|
            0 <= k < split.receipts@.len() ==> (#[trigger] split.receipts@[k]) < claimed@.len(),
    ensures
        leases@ == split.leases@ + split.receipts@.filter(
            |i: usize| !updated@.contains(attempt_of(claimed@[i as int])),
        ),
{
    let ghost open = |i: usize| !updated@.contains(attempt_of(claimed@[i as int]));
    let receipts = split.receipts;
    let mut leases = split.leases;
    let ghost before = leases@;
    proof {
        reveal(Seq::filter);
        assert(receipts@.subrange(0, 0).filter(open) =~= Seq::empty());
        assert(before + Seq::empty() =~= before);
    }
    let mut n: usize = 0;
    while n < receipts.len()
        invariant
            n <= receipts@.len(),
            open == (|i: usize| !updated@.contains(attempt_of(claimed@[i as int]))),
            forall|k: int|
                0 <= k < receipts@.len() ==> (#[trigger] receipts@[k]) < claimed@.len(),
            leases@ == before + receipts@.subrange(0, n as int).filter(open),
        decreases receipts.len() - n,
    {
        let at: usize = receipts[n];
        proof {
            reveal(Seq::filter);
            let next = receipts@.subrange(0, n + 1);
            assert(next.drop_last() =~= receipts@.subrange(0, n as int));
            assert(next.last() == at);
            assert(before + receipts@.subrange(0, n as int).filter(open).push(at) =~= (before
                + receipts@.subrange(0, n as int).filter(open)).push(at));
        }
        if !has_pair(updated, claimed[at].job.id, claimed[at].job.run_lease) {
            leases.push(at);
        }
        n = n + 1;
    }
    assert(receipts@.subrange(0, receipts@.len() as int) =~= receipts@);
    leases
}

/// No claim of a batch is dropped: after the receipts were closed, each claim is
/// either done with or among those that are closed by lease.
pub proof fn law_every_claim_is_settled_or_tried(
    claimed: Seq<ClaimedRuntimeJob>,
    split: SlowCompletion,
    updated: Seq<(i64, i64)>,
    leases: Seq<usize>,
    i: int,
)
    requires
        claimed.len() <= usize::MAX,
        select::selects(
            claimed.len() as int,
            |i: int| claimed[i].claim.lease_claim_receipt,
            split.receipts@,
        ),
        select::selects(
            claimed.len() as int,
            |i: int| !claimed[i].claim.lease_claim_receipt,
            split.leases@,
        ),
        leases == split.leases@ + split.receipts@.filter(
            |i: usize| !updated.contains(attempt_of(claimed[i as int])),
        ),
        0 <= i < claimed.len(),
    ensures
        updated.contains(attempt_of(claimed[i])) || leases.contains(i as usize),
{
    let receipt = |i: int| claimed[i].claim.lease_claim_receipt;
    let lease = |i: int| !claimed[i].claim.lease_claim_receipt;
    let open = |i: usize| !updated.contains(attempt_of(claimed[i as int]));
    if receipt(i) {
        assert(split.receipts@.contains(i as usize));
        if open(i as usize) {
            lemma_filter_keeps(split.receipts@, open, i as usize);
            let kept = split.receipts@.filter(open);
            let k = choose|k: int| 0 <= k < kept.len() && kept[k] == i as usize;
            assert(leases[split.leases@.len() + k] == i as usize);
        }
    } else {
        assert(lease(i));
        assert(split.leases@.contains(i as usize));
        let k = choose|k: int| 0 <= k < split.leases@.len() && split.leases@[k] == i as usize;
        assert(leases[k] == i as usize);
    }
}

proof fn lemma_filter_keeps(items: Seq<usize>, keep: spec_fn(usize) -> bool, item: usize)
    requires
        items.contains(item),
        keep(item),
    ensures
        items.filter(keep).contains(item),
    decreases items.len(),
{
    reveal(Seq::filter);
    let rest = items.drop_last();
    if items.last() == item {
        assert(items.filter(keep)[rest.filter(keep).len() as int] == item);
    } else {
        let i = choose|i: int| 0 <= i < items.len() && items[i] == item;
        assert(rest[i] == item);
        lemma_filter_keeps(rest, keep, item);
        let kept = rest.filter(keep);
        let k = choose|k: int| 0 <= k < kept.len() && kept[k] == item;
        assert(items.filter(keep)[k] == item);
    }
}

proof fn lemma_kept_member(items: Seq<usize>, keep: spec_fn(usize) -> bool, k: int)
    requires
        0 <= k < items.filter(keep).len(),
    ensures
        items.contains(items.filter(keep)[k]),
        keep(items.filter(keep)[k]),
    decreases items.len(),
{
    reveal(Seq::filter);
    if items.len() > 0 {
        let rest = items.drop_last();
        if k < rest.filter(keep).len() {
            lemma_kept_member(rest, keep, k);
            let i = choose|i: int| 0 <= i < rest.len() && rest[i] == rest.filter(keep)[k];
            assert(items[i] == items.filter(keep)[k]);
        } else {
            assert(items[items.len() - 1] == items.filter(keep)[k]);
        }
    }
}

/// The claim on an attempt, the last one if it is listed twice.
pub open spec fn claim_on(claimed: Seq<ClaimedRuntimeJob>, pair: (i64, i64)) -> Option<
    ClaimedRuntimeJob,
>
    decreases claimed.len(),
{
    if claimed.len() == 0 {
        None
    } else if attempt_of(claimed.last()) == pair {
        Some(claimed.last())
    } else {
        claim_on(claimed.drop_last(), pair)
    }
}

pub proof fn lemma_claim_on(claimed: Seq<ClaimedRuntimeJob>, pair: (i64, i64))
    ensures
        match claim_on(claimed, pair) {
            Some(entry) => claimed.contains(entry) && attempt_of(entry) == pair,
            None => forall|i: int|
                0 <= i < claimed.len() ==> attempt_of(#[trigger] claimed[i]) != pair,
        },
    decreases claimed.len(),
{
    if claimed.len() > 0 {
        if attempt_of(claimed.last()) == pair {
            assert(claimed[claimed.len() - 1] == claimed.last());
        } else {
            let rest = claimed.drop_last();
            lemma_claim_on(rest, pair);
            match claim_on(rest, pair) {
                Some(entry) => {
                    let i = choose|i: int| 0 <= i < rest.len() && rest[i] == entry;
                    assert(claimed[i] == entry);
                },
                None => {
                    assert forall|i: int| 0 <= i < claimed.len() implies attempt_of(
                        #[trigger] claimed[i],
                    ) != pair by {
                        if i < rest.len() {
                            assert(rest[i] == claimed[i]);
                        }
                    }
                },
            }
        }
    }
}

fn find_claim(claimed: &Vec<ClaimedRuntimeJob>, pair: (i64, i64)) -> (r: Option<usize>)
    ensures
        match r {
            Some(at) => at < claimed@.len() && claim_on(claimed@, pair) == Some(
                claimed@[at as int],
            ),
            None => claim_on(claimed@, pair) is None,
        },
{
    let mut i: usize = claimed.len();
    assert(claimed@.subrange(0, i as int) =~= claimed@);
    while i > 0
        invariant
            i <= claimed@.len(),
            claim_on(claimed@, pair) == claim_on(claimed@.subrange(0, i as int), pair),
        decreases i,
    {
        let entry = &claimed[i - 1];
        proof {
            let seen = claimed@.subrange(0, i as int);
            assert(seen.last() == *entry);
            assert(seen.drop_last() =~= claimed@.subrange(0, i - 1));
        }
        if entry.job.id == pair.0 && entry.job.run_lease == pair.1 {
            return Some(i - 1);
        }
        i = i - 1;
    }
    None
}

/// What the closing of attempts writes and reports.
#[derive(Debug)]
pub struct Completion {
    pub done: Vec<DoneJobRow>,
    /// The attempts behind the rows, row by row.
    pub pairs: Vec<(i64, i64)>,
}

/// `completion` has, for each closed attempt that was claimed, the claimed job
/// in its completed form, in the order in which the attempts were closed.
pub open spec fn completes_claims(
    claimed: Seq<ClaimedRuntimeJob>,
    closed: Seq<(i64, i64)>,
    finalized_at: Timestamp,
    completion: Completion,
) -> bool {
    &&& completion.pairs@ == closed.filter(|pair: (i64, i64)| claim_on(claimed, pair) is Some)
    &&& completion.done@.len() == completion.pairs@.len()
    &&& forall|k: int|
        0 <= k < completion.done@.len() ==> {
            &&& claim_on(claimed, completion.pairs@[k]) matches Some(entry)
            &&& entry.completes_as(finalized_at, #[trigger] completion.done@[k])
        }
}

/// Completes the claims whose attempts were closed.
pub fn complete_claims(
    claimed: &Vec<ClaimedRuntimeJob>,
    closed: &Vec<(i64, i64)>,
    finalized_at: Timestamp,
) -> (r: Completion)
    ensures
        completes_claims(claimed@, closed@, finalized_at, r),
{
    let ghost known = |pair: (i64, i64)| claim_on(claimed@, pair) is Some;
    let mut done: Vec<DoneJobRow> = Vec::new();
    let mut pairs: Vec<(i64, i64)> = Vec::new();
    proof {
        reveal(Seq::filter);
        assert(closed@.subrange(0, 0).filter(known) =~= Seq::empty());
    }
    let mut i: usize = 0;
    while i < closed.len()
        invariant
            i <= closed@.len(),
            known == (|pair: (i64, i64)| claim_on(claimed@, pair) is Some),
            pairs@ == closed@.subrange(0, i as int).filter(known),
            done@.len() == pairs@.len(),
            forall|k: int|
                0 <= k < done@.len() ==> {
                    &&& claim_on(claimed@, pairs@[k]) matches Some(entry)
                    &&& entry.completes_as(finalized_at, #[trigger] done@[k])
                },
        decreases closed.len() - i,
    {
        let pair: (i64, i64) = closed[i];
        proof {
            reveal(Seq::filter);
            let next = closed@.subrange(0, i + 1);
            assert(next.drop_last() =~= closed@.subrange(0, i as int));
            assert(next.last() == pair);
        }
        match find_claim(claimed, pair) {
            Some(at) => {
                done.push(claimed[at].done_row(finalized_at));
                pairs.push(pair);
            },
            None => {},
        }
        i = i + 1;
    }
    assert(closed@.subrange(0, closed@.len() as int) =~= closed@);
    Completion { done, pairs }
}

/// A completion writes only what was claimed and closed: each of its rows is a
/// job of the batch, under the attempt for which it was claimed.
pub proof fn law_completion_is_of_claims(
    claimed: Seq<ClaimedRuntimeJob>,
    closed: Seq<(i64, i64)>,
    finalized_at: Timestamp,
    completion: Completion,
    k: int,
)
    requires
        completes_claims(claimed, closed, finalized_at, completion),
        0 <= k < completion.done@.len(),
    ensures
        ({
            let row = completion.done@[k];
            let pair = (row.job_id, row.run_lease);
            &&& pair == completion.pairs@[k]
            &&& closed.contains(pair)
            &&& row.state == JobState::Completed
            &&& exists|i: int|
                0 <= i < claimed.len() && attempt_of(#[trigger] claimed[i]) == pair
        }),
{
    let pair = completion.pairs@[k];
    let known = |pair: (i64, i64)| claim_on(claimed, pair) is Some;
    assert(completion.done@[k].job_id == pair.0) by {
        lemma_claim_on(claimed, pair);
    }
    lemma_claim_on(claimed, pair);
    let entry = claim_on(claimed, pair)->Some_0;
    assert(entry.completes_as(finalized_at, completion.done@[k]));
    lemma_filter_contains(closed, known, k);
    let i = choose|i: int| 0 <= i < claimed.len() && claimed[i] == entry;
    assert(attempt_of(claimed[i]) == pair);
}

proof fn lemma_filter_contains(
    items: Seq<(i64, i64)>,
    keep: spec_fn((i64, i64)) -> bool,
    k: int,
)
    requires
        0 <= k < items.filter(keep).len(),
    ensures
        items.contains(items.filter(keep)[k]),
    decreases items.len(),
{
    reveal(Seq::filter);
    if items.len() > 0 {
        let rest = items.drop_last();
        if k < rest.filter(keep).len() {
            lemma_filter_contains(rest, keep, k);
            let i = choose|i: int| 0 <= i < rest.len() && rest[i] == rest.filter(keep)[k];
            assert(items[i] == items.filter(keep)[k]);
        } else {
            assert(items[items.len() - 1] == items.filter(keep)[k]);
        }
    }
}

/// An attempt that was taken over is not completed: once the job runs under
/// another lease number, a claim under the old one writes nothing.
pub proof fn law_stale_claim_writes_nothing(
    claimed: Seq<ClaimedRuntimeJob>,
    closed: Seq<(i64, i64)>,
    finalized_at: Timestamp,
    completion: Completion,
    stale: (i64, i64),
)
    requires
        completes_claims(claimed, closed, finalized_at, completion),
        !closed.contains(stale),
    ensures
        forall|k: int|
            #![trigger completion.done@[k]]
            0 <= k < completion.done@.len() ==> (
                completion.done@[k].job_id,
                completion.done@[k].run_lease,
            ) != stale,
{
    assert forall|k: int|
        #![trigger completion.done@[k]]
        0 <= k < completion.done@.len() implies (
        completion.done@[k].job_id,
        completion.done@[k].run_lease,
    ) != stale by {
        law_completion_is_of_claims(claimed, closed, finalized_at, completion, k);
    }
}

/// Every position is that of a claim.
pub open spec fn are_members(members: Seq<usize>, claimed: Seq<ClaimedRuntimeJob>) -> bool {
    forall|k: int| 0 <= k < members.len() ==> (#[trigger] members[k]) < claimed.len()
}

/// One of the members is a claim on the attempt.
pub open spec fn claims_attempt(
    members: Seq<usize>,
    claimed: Seq<ClaimedRuntimeJob>,
    pair: (i64, i64),
) -> bool {
    exists|k: int|
        0 <= k < members.len() && attempt_of(claimed[#[trigger] members[k] as int]) == pair
}

/// The attempts that are claimed, claim by claim.
pub open spec fn attempts(claimed: Seq<ClaimedRuntimeJob>) -> Seq<(i64, i64)> {
    claimed.map_values(|entry: ClaimedRuntimeJob| attempt_of(entry))
}

/// What the ordinary completion of a batch closes next.
#[derive(Debug)]
pub enum SlowStage {
    /// The receipts of these claims; the others have leases.
    Receipts { split: SlowCompletion },
    /// The leases of these claims, wherever they are now.
    Leases { members: Vec<usize> },
    /// The leases of all claims, where they were taken: receipts are not in use.
    ClaimedLeases,
    Finished,
}

/// The ordinary completion of a batch.
#[derive(Debug)]
pub struct SlowRun {
    pub claimed: Vec<ClaimedRuntimeJob>,
    /// The attempts that have been completed.
    pub updated: Vec<(i64, i64)>,
    pub stage: SlowStage,
}

impl SlowRun {
    /// The members of every stage are claims of the batch.
    pub open spec fn wf(self) -> bool {
        match self.stage {
            SlowStage::Receipts { split } => {
                &&& are_members(split.receipts@, self.claimed@)
                &&& are_members(split.leases@, self.claimed@)
            },
            SlowStage::Leases { members } => are_members(members@, self.claimed@),
            _ => true,
        }
    }

    /// The completion of `claimed` as it starts: nothing is completed, and the
    /// receipts come first where there are any.
    pub open spec fn begins(self, claimed: Vec<ClaimedRuntimeJob>, receipts: bool) -> bool {
        &&& self.claimed == claimed
        &&& self.updated@.len() == 0
        &&& match self.stage {
            SlowStage::Finished => claimed@.len() == 0,
            SlowStage::ClaimedLeases => claimed@.len() > 0 && !receipts,
            SlowStage::Receipts { split } => {
                &&& receipts
                &&& claimed@.len() > 0
                &&& split.receipts@.len() > 0
                &&& select::selects(
                    claimed@.len() as int,
                    |i: int| claimed@[i].claim.lease_claim_receipt,
                    split.receipts@,
                )
                &&& select::selects(
                    claimed@.len() as int,
                    |i: int| !claimed@[i].claim.lease_claim_receipt,
                    split.leases@,
                )
            },
            SlowStage::Leases { members } => {
                &&& receipts
                &&& claimed@.len() > 0
                &&& forall|i: int|
                    0 <= i < claimed@.len() ==> !(
                    #[trigger] claimed@[i]).claim.lease_claim_receipt
                &&& select::selects(
                    claimed@.len() as int,
                    |i: int| !claimed@[i].claim.lease_claim_receipt,
                    members@,
                )
            },
        }
    }

    /// The stage asks for the attempt to be closed.
    pub open spec fn asks_for(self, pair: (i64, i64)) -> bool {
        match self.stage {
            SlowStage::Receipts { split } => claims_attempt(split.receipts@, self.claimed@, pair),
            SlowStage::Leases { members } => claims_attempt(members@, self.claimed@, pair),
            SlowStage::ClaimedLeases => attempts(self.claimed@).contains(pair),
            SlowStage::Finished => false,
        }
    }

    /// Starts the completion of a batch.
    pub fn start(claimed: Vec<ClaimedRuntimeJob>, receipts: bool) -> (r: SlowRun)
        ensures
            r.wf(),
            r.begins(claimed, receipts),
    {
        let updated: Vec<(i64, i64)> = Vec::new();
        if claimed.len() == 0 {
            return SlowRun { claimed, updated, stage: SlowStage::Finished };
        }
        if !receipts {
            return SlowRun { claimed, updated, stage: SlowStage::ClaimedLeases };
        }
        let split = split_claims(&claimed);
        if split.receipts.len() > 0 {
            return SlowRun { claimed, updated, stage: SlowStage::Receipts { split } };
        }
        proof {
            let receipt = |i: int| claimed@[i].claim.lease_claim_receipt;
            assert forall|i: int| 0 <= i < claimed@.len() implies !(
            #[trigger] claimed@[i]).claim.lease_claim_receipt by {
                if receipt(i) {
                    assert(split.receipts@.contains(i as usize));
                }
            }
        }
        SlowRun { claimed, updated, stage: SlowStage::Leases { members: split.leases } }
    }

    /// `next` is the run after attempts were closed, and `done` what is written
    /// for them.
    pub open spec fn goes_on_to(
        self,
        closed: Seq<(i64, i64)>,
        finalized_at: Timestamp,
        next: SlowRun,
        done: Vec<DoneJobRow>,
    ) -> bool {
        let known = closed.filter(|pair: (i64, i64)| claim_on(self.claimed@, pair) is Some);
        &&& next.claimed == self.claimed
        &&& done@.len() == known.len()
        &&& forall|k: int|
            0 <= k < done@.len() ==> {
                &&& claim_on(self.claimed@, known[k]) matches Some(entry)
                &&& entry.completes_as(finalized_at, #[trigger] done@[k])
            }
        &&& match self.stage {
            SlowStage::Receipts { split } => {
                let leases = split.leases@ + split.receipts@.filter(
                    |i: usize|
                        !(self.updated@ + closed).contains(attempt_of(self.claimed@[i as int])),
                );
                &&& next.updated@ == self.updated@ + closed
                &&& if leases.len() == 0 {
                    next.stage is Finished
                } else {
                    next.stage matches SlowStage::Leases { members } && members@ == leases
                }
            },
            _ => next.updated@ == self.updated@ + known && next.stage is Finished,
        }
    }

    /// Takes the attempts that were closed for the stage, and gives the rows to
    /// write. Receipts that did not close are tried as leases.
    pub fn take(self, closed: Vec<(i64, i64)>, finalized_at: Timestamp) -> (r: (
        SlowRun,
        Vec<DoneJobRow>,
    ))
        requires
            self.wf(),
        ensures
            self.goes_on_to(closed@, finalized_at, r.0, r.1),
            r.0.wf(),
            !(self.stage is Receipts) ==> r.0.stage is Finished,
            !(r.0.stage is Receipts),
    {
        let ghost before = self.updated@;
        let completion = complete_claims(&self.claimed, &closed, finalized_at);
        let claimed = self.claimed;
        let mut updated = self.updated;
        match self.stage {
            SlowStage::Receipts { split } => {
                append_pairs(&mut updated, &closed);
                let members = escalate_receipts(&claimed, split, &updated);
                proof {
                    let open = |i: usize| !updated@.contains(attempt_of(claimed@[i as int]));
                    assert forall|k: int| 0 <= k < members@.len() implies (
                    #[trigger] members@[k]) < claimed@.len() by {
                        if k >= split.leases@.len() {
                            lemma_kept_member(split.receipts@, open, k - split.leases@.len());
                            let j = choose|j: int|
                                0 <= j < split.receipts@.len() && split.receipts@[j] == members@[k];
                            assert(split.receipts@[j] < claimed@.len());
                        } else {
                            assert(split.leases@[k] < claimed@.len());
                        }
                    }
                }
                let stage = if members.len() == 0 {
                    SlowStage::Finished
                } else {
                    SlowStage::Leases { members }
                };
                (SlowRun { claimed, updated, stage }, completion.done)
            },
            _ => {
                append_pairs(&mut updated, &completion.pairs);
                (SlowRun { claimed, updated, stage: SlowStage::Finished }, completion.done)
            },
        }
    }
}

/// A stage of a completion that was gone through: what was closed and when,
/// what was written for it, and the run after it.
pub struct StageTaken {
    pub closed: Seq<(i64, i64)>,
    pub finalized_at: Timestamp,
    pub done: Vec<DoneJobRow>,
    pub next: SlowRun,
}

/// The run goes through the stages to its end, and at each closes attempts that
/// were asked for, none twice.
pub open spec fn runs_through(run: SlowRun, stages: Seq<StageTaken>) -> bool
    decreases stages.len(),
{
    if stages.len() == 0 {
        run.stage is Finished
    } else {
        let taken = stages[0];
        &&& !(run.stage is Finished)
        &&& taken.closed.no_duplicates()
        &&& forall|i: int| 0 <= i < taken.closed.len() ==> run.asks_for(#[trigger] taken.closed[i])
        &&& run.goes_on_to(taken.closed, taken.finalized_at, taken.next, taken.done)
        &&& runs_through(taken.next, stages.skip(1))
    }
}

/// The run after the stages.
pub open spec fn run_after(run: SlowRun, stages: Seq<StageTaken>) -> SlowRun {
    if stages.len() == 0 {
        run
    } else {
        stages.last().next
    }
}

/// All that was closed, stage by stage.
pub open spec fn closed_over(stages: Seq<StageTaken>) -> Seq<(i64, i64)>
    decreases stages.len(),
{
    if stages.len() == 0 {
        Seq::empty()
    } else {
        stages[0].closed + closed_over(stages.skip(1))
    }
}

/// All rows that were written, stage by stage.
pub open spec fn rows_over(stages: Seq<StageTaken>) -> Seq<DoneJobRow>
    decreases stages.len(),
{
    if stages.len() == 0 {
        Seq::empty()
    } else {
        stages[0].done@ + rows_over(stages.skip(1))
    }
}

/// One row for each attempt, in order, and each a completed one.
pub open spec fn rows_complete(rows: Seq<DoneJobRow>, pairs: Seq<(i64, i64)>) -> bool {
    &&& rows.len() == pairs.len()
    &&& forall|k: int|
        0 <= k < rows.len() ==> {
            &&& ((#[trigger] rows[k]).job_id, rows[k].run_lease) == pairs[k]
            &&& rows[k].state is Completed
        }
}

/// No attempt is claimed both by receipt and by lease.
pub open spec fn claims_agree(claimed: Seq<ClaimedRuntimeJob>) -> bool {
    forall|i: int, j: int|
        #![trigger claimed[i], claimed[j]]
        0 <= i < claimed.len() && 0 <= j < claimed.len() && attempt_of(claimed[i]) == attempt_of(
            claimed[j],
        ) ==> claimed[i].claim.lease_claim_receipt == claimed[j].claim.lease_claim_receipt
}

/// What holds of a run between its stages: what is completed was claimed, once
/// each, and nothing of it is or will be asked for again.
spec fn is_sound(run: SlowRun) -> bool {
    let claimed = run.claimed@;
    &&& run.wf()
    &&& run.updated@.no_duplicates()
    &&& forall|k: int|
        0 <= k < run.updated@.len() ==> attempts(claimed).contains(#[trigger] run.updated@[k])
    &&& forall|pair: (i64, i64)|
        #[trigger] run.asks_for(pair) ==> !run.updated@.contains(pair)
    &&& run.stage matches SlowStage::Receipts { split } ==> {
        &&& forall|pair: (i64, i64)|
            #[trigger] claims_attempt(split.leases@, claimed, pair)
                ==> !run.updated@.contains(pair)
        &&& claims_agree(claimed)
        &&& forall|j: int|
            0 <= j < split.receipts@.len() ==> claimed[(
            #[trigger] split.receipts@[j]) as int].claim.lease_claim_receipt
        &&& forall|k: int|
            0 <= k < split.leases@.len() ==> !claimed[(
            #[trigger] split.leases@[k]) as int].claim.lease_claim_receipt
    }
}

proof fn lemma_start_is_sound(run: SlowRun, claimed: Vec<ClaimedRuntimeJob>, receipts: bool)
    requires
        run.begins(claimed, receipts),
        receipts ==> claims_agree(claimed@),
    ensures
        is_sound(run),
{
    if let SlowStage::Receipts { split } = run.stage {
        let receipt = |i: int| claimed@[i].claim.lease_claim_receipt;
        let lease = |i: int| !claimed@[i].claim.lease_claim_receipt;
        assert forall|j: int| 0 <= j < split.receipts@.len() implies claimed@[(
        #[trigger] split.receipts@[j]) as int].claim.lease_claim_receipt by {
            assert(receipt(split.receipts@[j] as int));
        }
        assert forall|k: int| 0 <= k < split.leases@.len() implies !claimed@[(
        #[trigger] split.leases@[k]) as int].claim.lease_claim_receipt by {
            assert(lease(split.leases@[k] as int));
        }
    }
}

proof fn lemma_asked_is_claimed(run: SlowRun, pair: (i64, i64))
    requires
        run.wf(),
        run.asks_for(pair),
    ensures
        attempts(run.claimed@).contains(pair),
        claim_on(run.claimed@, pair) is Some,
{
    let claimed = run.claimed@;
    lemma_claim_on(claimed, pair);
    match run.stage {
        SlowStage::Receipts { split } => {
            let k = choose|k: int|
                0 <= k < split.receipts@.len() && attempt_of(
                    claimed[#[trigger] split.receipts@[k] as int],
                ) == pair;
            assert(attempts(claimed)[split.receipts@[k] as int] == pair);
            assert(attempt_of(claimed[split.receipts@[k] as int]) == pair);
        },
        SlowStage::Leases { members } => {
            let k = choose|k: int|
                0 <= k < members@.len() && attempt_of(claimed[#[trigger] members@[k] as int])
                    == pair;
            assert(attempts(claimed)[members@[k] as int] == pair);
            assert(attempt_of(claimed[members@[k] as int]) == pair);
        },
        _ => {
            let i = choose|i: int|
                0 <= i < attempts(claimed).len() && attempts(claimed)[i] == pair;
            assert(attempt_of(claimed[i]) == pair);
        },
    }
}

proof fn lemma_filter_all(items: Seq<(i64, i64)>, keep: spec_fn((i64, i64)) -> bool)
    requires
        forall|i: int| 0 <= i < items.len() ==> keep(#[trigger] items[i]),
    ensures
        items.filter(keep) == items,
    decreases items.len(),
{
    reveal(Seq::filter);
    if items.len() > 0 {
        lemma_filter_all(items.drop_last(), keep);
        assert(items.drop_last().push(items.last()) =~= items);
    }
}

/// One stage: all that was closed is completed and gets its row, and the run
/// stays sound.
proof fn lemma_stage(run: SlowRun, taken: StageTaken)
    requires
        is_sound(run),
        !(run.stage is Finished),
        taken.closed.no_duplicates(),
        forall|i: int| 0 <= i < taken.closed.len() ==> run.asks_for(#[trigger] taken.closed[i]),
        run.goes_on_to(taken.closed, taken.finalized_at, taken.next, taken.done),
    ensures
        is_sound(taken.next),
        taken.next.claimed == run.claimed,
        taken.next.updated@ == run.updated@ + taken.closed,
        rows_complete(taken.done@, taken.closed),
{
    let claimed = run.claimed@;
    let closed = taken.closed;
    let known = |pair: (i64, i64)| claim_on(claimed, pair) is Some;
    assert forall|i: int| 0 <= i < closed.len() implies known(#[trigger] closed[i])
        && attempts(claimed).contains(closed[i]) by {
        assert(run.asks_for(closed[i]));
        lemma_asked_is_claimed(run, closed[i]);
    }
    lemma_filter_all(closed, known);
    let rows = taken.done@;
    assert forall|k: int| 0 <= k < rows.len() implies ((#[trigger] rows[k]).job_id, rows[k].run_lease)
        == closed[k] && rows[k].state is Completed by {
        lemma_claim_on(claimed, closed[k]);
    }
    let updated = taken.next.updated@;
    assert(updated.no_duplicates()) by {
        assert forall|i: int, j: int|
            0 <= i < updated.len() && 0 <= j < updated.len() && i != j implies updated[i]
            != updated[j] by {
            let n = run.updated@.len();
            if i >= n && j < n {
                assert(run.asks_for(closed[i - n]));
                assert(run.updated@.contains(run.updated@[j]));
            } else if i < n && j >= n {
                assert(run.asks_for(closed[j - n]));
                assert(run.updated@.contains(run.updated@[i]));
            }
        }
    }
    assert forall|k: int| 0 <= k < updated.len() implies attempts(claimed).contains(
        #[trigger] updated[k],
    ) by {
        let n = run.updated@.len();
        if k >= n {
            assert(attempts(claimed).contains(closed[k - n]));
        } else {
            assert(attempts(claimed).contains(run.updated@[k]));
        }
    }
    if let SlowStage::Receipts { split } = run.stage {
        lemma_leases_left(run, split, closed, updated);
        if let SlowStage::Leases { members } = taken.next.stage {
            assert forall|pair: (i64, i64)| #[trigger] taken.next.asks_for(pair) implies
                !updated.contains(pair) by {
                assert(claims_attempt(members@, claimed, pair));
            }
        }
    }
}

/// The claims that are left for the leases are those of the batch, and none of
/// their attempts is completed.
proof fn lemma_leases_left(
    run: SlowRun,
    split: SlowCompletion,
    closed: Seq<(i64, i64)>,
    updated: Seq<(i64, i64)>,
)
    requires
        is_sound(run),
        run.stage == (SlowStage::Receipts { split }),
        forall|i: int| 0 <= i < closed.len() ==> run.asks_for(#[trigger] closed[i]),
        updated == run.updated@ + closed,
    ensures
        ({
            let leases = split.leases@ + split.receipts@.filter(
                |i: usize| !updated.contains(attempt_of(run.claimed@[i as int])),
            );
            &&& are_members(leases, run.claimed@)
            &&& forall|pair: (i64, i64)|
                #[trigger] claims_attempt(leases, run.claimed@, pair) ==> !updated.contains(pair)
        }),
{
    let claimed = run.claimed@;
    let open = |i: usize| !updated.contains(attempt_of(claimed[i as int]));
    let kept = split.receipts@.filter(open);
    let leases = split.leases@ + kept;
    assert forall|k: int| 0 <= k < leases.len() implies (#[trigger] leases[k]) < claimed.len()
        && !updated.contains(attempt_of(claimed[leases[k] as int])) by {
        let m = leases[k] as int;
        let pair = attempt_of(claimed[m]);
        if k >= split.leases@.len() {
            lemma_kept_member(split.receipts@, open, k - split.leases@.len());
            let j = choose|j: int| 0 <= j < split.receipts@.len() && split.receipts@[j] == leases[k];
            assert(split.receipts@[j] < claimed.len());
        } else {
            assert(split.leases@[k] < claimed.len());
            assert(attempt_of(claimed[split.leases@[k] as int]) == pair);
            assert(claims_attempt(split.leases@, claimed, pair));
            if updated.contains(pair) {
                let u = choose|u: int| 0 <= u < updated.len() && updated[u] == pair;
                let n = run.updated@.len();
                if u < n {
                    assert(run.updated@.contains(run.updated@[u]));
                } else {
                    assert(run.asks_for(closed[u - n]));
                    let j = choose|j: int|
                        0 <= j < split.receipts@.len() && attempt_of(
                            claimed[#[trigger] split.receipts@[j] as int],
                        ) == pair;
                    assert(claimed[split.receipts@[j] as int].claim.lease_claim_receipt);
                    assert(!claimed[split.leases@[k] as int].claim.lease_claim_receipt);
                }
            }
        }
    }
    assert forall|pair: (i64, i64)| #[trigger] claims_attempt(leases, claimed, pair) implies
        !updated.contains(pair) by {
        let k = choose|k: int|
            0 <= k < leases.len() && attempt_of(claimed[#[trigger] leases[k] as int]) == pair;
        assert(!updated.contains(attempt_of(claimed[leases[k] as int])));
    }
}

proof fn lemma_run(run: SlowRun, stages: Seq<StageTaken>)
    requires
        is_sound(run),
        runs_through(run, stages),
    ensures
        is_sound(run_after(run, stages)),
        run_after(run, stages).claimed == run.claimed,
        run_after(run, stages).stage is Finished,
        run_after(run, stages).updated@ == run.updated@ + closed_over(stages),
        rows_complete(rows_over(stages), closed_over(stages)),
    decreases stages.len(),
{
    if stages.len() == 0 {
        assert(run.updated@ + closed_over(stages) =~= run.updated@);
    } else {
        let taken = stages[0];
        let rest = stages.skip(1);
        lemma_stage(run, taken);
        lemma_run(taken.next, rest);
        if rest.len() > 0 {
            assert(rest.last() == stages.last());
        }
        assert(run_after(taken.next, rest) == run_after(run, stages));
        assert((run.updated@ + taken.closed) + closed_over(rest) =~= run.updated@ + closed_over(
            stages,
        ));
        let rows = rows_over(stages);
        let pairs = closed_over(stages);
        assert forall|k: int| 0 <= k < rows.len() implies ((#[trigger] rows[k]).job_id, rows[k].run_lease)
            == pairs[k] && rows[k].state is Completed by {
            let n = taken.done@.len();
            if k < n {
                assert(rows[k] == taken.done@[k]);
            } else {
                assert(rows[k] == rows_over(rest)[k - n]);
            }
        }
    }
}

/// What a completion reports is what was closed: a part of the claimed attempts,
/// none of them twice, and for each one completed row. An empty batch reports
/// nothing. (An attempt that a batch claims both ways is closed once as a receipt
/// and may be closed again as a lease.)
pub proof fn law_completion_reports_each_closed_claim_once(
    run: SlowRun,
    claimed: Vec<ClaimedRuntimeJob>,
    receipts: bool,
    stages: Seq<StageTaken>,
)
    requires
        run.begins(claimed, receipts),
        receipts ==> claims_agree(claimed@),
        runs_through(run, stages),
    ensures
        run_after(run, stages).updated@ == closed_over(stages),
        run_after(run, stages).updated@.no_duplicates(),
        forall|k: int|
            0 <= k < closed_over(stages).len() ==> attempts(claimed@).contains(
                #[trigger] closed_over(stages)[k],
            ),
        rows_complete(rows_over(stages), run_after(run, stages).updated@),
        claimed@.len() == 0 ==> run_after(run, stages).updated@.len() == 0,
{
    lemma_start_is_sound(run, claimed, receipts);
    lemma_run(run, stages);
    let end = run_after(run, stages);
    assert(run.updated@ + closed_over(stages) =~= closed_over(stages));
    assert(end.updated@ == closed_over(stages));
    assert forall|k: int| 0 <= k < closed_over(stages).len() implies attempts(claimed@).contains(
        #[trigger] closed_over(stages)[k],
    ) by {
        assert(attempts(end.claimed@).contains(end.updated@[k]));
    }
    if claimed@.len() == 0 && end.updated@.len() > 0 {
        assert(attempts(claimed@).contains(closed_over(stages)[0]));
    }
}

/// A completion in which nothing closes, as a second one of the same claims,
/// reports nothing and writes nothing.
pub proof fn law_nothing_closed_completes_nothing(
    run: SlowRun,
    claimed: Vec<ClaimedRuntimeJob>,
    receipts: bool,
    stages: Seq<StageTaken>,
)
    requires
        run.begins(claimed, receipts),
        runs_through(run, stages),
        forall|i: int| 0 <= i < stages.len() ==> (#[trigger] stages[i]).closed.len() == 0,
    ensures
        run_after(run, stages).updated@.len() == 0,
        rows_over(stages).len() == 0,
{
    lemma_nothing_closed(run, stages);
}

proof fn lemma_nothing_closed(run: SlowRun, stages: Seq<StageTaken>)
    requires
        run.updated@.len() == 0,
        runs_through(run, stages),
        forall|i: int| 0 <= i < stages.len() ==> (#[trigger] stages[i]).closed.len() == 0,
    ensures
        run_after(run, stages).updated@.len() == 0,
        rows_over(stages).len() == 0,
    decreases stages.len(),
{
    if stages.len() > 0 {
        let taken = stages[0];
        let rest = stages.skip(1);
        let known = |pair: (i64, i64)| claim_on(run.claimed@, pair) is Some;
        lemma_filter_all(taken.closed, known);
        assert forall|i: int| 0 <= i < rest.len() implies (#[trigger] rest[i]).closed.len()
            == 0 by {
            assert(rest[i] == stages[i + 1]);
        }
        lemma_nothing_closed(taken.next, rest);
        if rest.len() > 0 {
            assert(rest.last() == stages.last());
        }
    }
}

/// A second pass over the claims that a first one missed repeats nothing: both
/// together report a part of the claimed attempts, none of them twice.
pub proof fn law_second_pass_repeats_nothing(
    claimed: Seq<ClaimedRuntimeJob>,
    updated: Seq<(i64, i64)>,
    missed: Seq<usize>,
    again: Seq<ClaimedRuntimeJob>,
    more: Seq<(i64, i64)>,
)
    requires
        updated.no_duplicates(),
        forall|k: int|
            0 <= k < updated.len() ==> attempts(claimed).contains(#[trigger] updated[k]),
        select::selects(
            claimed.len() as int,
            |i: int| !updated.contains(attempt_of(claimed[i])),
            missed,
        ),
        again == missed.map_values(|at: usize| claimed[at as int]),
        more.no_duplicates(),
        forall|k: int| 0 <= k < more.len() ==> attempts(again).contains(#[trigger] more[k]),
    ensures
        (updated + more).no_duplicates(),
        forall|k: int|
            0 <= k < (updated + more).len() ==> attempts(claimed).contains(
                #[trigger] (updated + more)[k],
            ),
{
    let open = |i: int| !updated.contains(attempt_of(claimed[i]));
    assert forall|k: int| 0 <= k < more.len() implies !updated.contains(#[trigger] more[k])
        && attempts(claimed).contains(more[k]) by {
        let j = choose|j: int| 0 <= j < attempts(again).len() && attempts(again)[j] == more[k];
        let at = missed[j] as int;
        assert(open(at));
        assert(attempts(claimed)[at] == more[k]);
    }
    let all = updated + more;
    assert forall|i: int, j: int|
        0 <= i < all.len() && 0 <= j < all.len() && i != j implies all[i] != all[j] by {
        let n = updated.len();
        if i < n && j >= n {
            assert(updated.contains(updated[i]));
            assert(!updated.contains(more[j - n]));
        } else if i >= n && j < n {
            assert(updated.contains(updated[j]));
            assert(!updated.contains(more[i - n]));
        }
    }
    assert forall|k: int| 0 <= k < all.len() implies attempts(claimed).contains(
        #[trigger] all[k],
    ) by {
        let n = updated.len();
        if k < n {
            assert(attempts(claimed).contains(updated[k]));
        } else {
            assert(attempts(claimed).contains(more[k - n]));
        }
    }
}

fn append_pairs(pairs: &mut Vec<(i64, i64)>, more: &Vec<(i64, i64)>)
    ensures
        final(pairs)@ == old(pairs)@ + more@,
{
    let ghost before = pairs@;
    let mut i: usize = 0;
    assert(before + more@.subrange(0, 0) =~= before);
    while i < more.len()
        invariant
            i <= more@.len(),
            pairs@ == before + more@.subrange(0, i as int),
        decreases more.len() - i,
    {
        pairs.push(more[i]);
        i = i + 1;
        assert(before + more@.subrange(0, i as int) =~= (before + more@.subrange(0, i - 1)).push(
            more@[i - 1],
        ));
    }
    assert(more@.subrange(0, more@.len() as int) =~= more@);
}

/// `row` is the attempt in its completed form: its payload without progress.
pub open spec fn completes_attempt(
    moved: LeaseTransitionRow,
    finalized_at: Timestamp,
    row: DoneJobRow,
) -> bool {
    &&& payload::payload_readable(moved.payload)
    &&& row == (DoneJobRow {
        ready_slot: moved.ready_slot,
        ready_generation: moved.ready_generation,
        job_id: moved.job_id,
        kind: moved.kind,
        queue: moved.queue,
        args: moved.args,
        state: JobState::Completed,
        priority: moved.priority,
        attempt: moved.attempt,
        run_lease: moved.run_lease,
        max_attempts: moved.max_attempts,
        lane_seq: moved.lane_seq,
        enqueue_shard: moved.enqueue_shard,
        run_at: moved.run_at,
        attempted_at: moved.attempted_at,
        finalized_at,
        created_at: moved.created_at,
        unique_key: moved.unique_key,
        unique_states: moved.unique_states,
        payload: row.payload,
    })
    &&& payload::payload_writes(
        payload::payload_of(moved.payload).with_progress(None),
        row.payload,
    )
}

/// Completes attempts that were taken off the lease plane, in order. An attempt
/// whose payload cannot be read fails the batch.
pub fn complete_attempts(moved: Vec<LeaseTransitionRow>, finalized_at: Timestamp) -> (r: Result<
    Completion,
    AwaError,
>)
    ensures
        match r {
            Ok(completion) => {
                &&& completion.done@.len() == moved@.len()
                &&& completion.pairs@ == moved@.map_values(
                    |row: LeaseTransitionRow| (row.job_id, row.run_lease),
                )
                &&& forall|i: int|
                    0 <= i < moved@.len() ==> completes_attempt(
                        moved@[i],
                        finalized_at,
                        #[trigger] completion.done@[i],
                    )
            },
            Err(err) => exists|i: int|
                #![trigger moved@[i]]
                0 <= i < moved@.len() && !payload::payload_readable(moved@[i].payload)
                    && payload::is_payload_error(moved@[i].payload, err) && forall|j: int|
                    #![trigger moved@[j]]
                    0 <= j < i ==> payload::payload_readable(moved@[j].payload),
        },
{
    let ghost all = moved@;
    let mut done: Vec<DoneJobRow> = Vec::new();
    let mut pairs: Vec<(i64, i64)> = Vec::new();
    for entry in it: moved
        invariant
            it.seq() == all,
            done@.len() == it.index(),
            pairs@.len() == it.index(),
            forall|i: int|
                0 <= i < it.index() ==> #[trigger] pairs@[i] == (all[i].job_id, all[i].run_lease),
            forall|i: int|
                0 <= i < it.index() ==> completes_attempt(
                    all[i],
                    finalized_at,
                    #[trigger] done@[i],
                ),
            forall|j: int|
                #![trigger all[j]]
                0 <= j < it.index() ==> payload::payload_readable(all[j].payload),
    {
        assert(entry == all[it.index()]);
        let mut entry = entry;
        let mut stored = crate::json::null();
        std::mem::swap(&mut stored, &mut entry.payload);
        let payload = match payload::with_progress(stored, None) {
            Ok(payload) => payload,
            Err(err) => return Err(err),
        };
        pairs.push((entry.job_id, entry.run_lease));
        done.push(entry.into_done_row(JobState::Completed, finalized_at, payload));
    }
    assert(pairs@ =~= all.map_values(|row: LeaseTransitionRow| (row.job_id, row.run_lease)));
    Ok(Completion { done, pairs })
}

} // verus!
