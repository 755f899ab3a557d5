//! Cancelling a job wherever it is found: ready, leased, claimed by receipt, or
//! deferred.
use crate::clock::Timestamp;
use crate::cursor::ClaimCursorAdvance;
use crate::error::AwaError;
use crate::job::JobState;
use crate::payload;
use crate::rows::DeferredJobRow;
use crate::rows::DoneJobRow;
use crate::rows::LeaseTransitionRow;
use crate::rows::ReadyTransitionRow;
use vstd::prelude::*;
use vstd::string::*;

verus! {

/// How the receipt of a cancelled attempt is closed.
#[derive(Debug, Clone, Copy, PartialEq, Eq, Structural)]
pub enum ReceiptClosure {
    /// There is nothing to close.
    Nothing,
    /// Close whatever receipt the attempt has open.
    Attempt { job_id: i64, run_lease: i64 },
    /// A receipt of its own is closed by a closure row in its partition.
    Row { claim_slot: i32, job_id: i64, run_lease: i64 },
    /// A receipt inside a compact batch has no row to close, and is closed in
    /// the batch ledger.
    Batch { claim_slot: i32, ready_slot: i32, ready_generation: i64, receipt_id: i64 },
}

/// What a cancellation writes.
#[derive(Debug)]
pub struct Cancellation {
    pub done: DoneJobRow,
    /// The state that the job leaves.
    pub old_state: JobState,
    pub closure: ReceiptClosure,
    /// The attempt whose worker is to be woken.
    pub wake: Option<(i64, i64)>,
    /// The attempt whose lease, should it have come about meanwhile, is to be
    /// swept away.
    pub sweep: Option<(i64, i64)>,
    /// How the claim cursor of the lane moves.
    pub advance: Option<ClaimCursorAdvance>,
}

/// An open receipt of the job.
#[derive(Debug)]
pub struct OpenReceipt {
    pub claim_slot: i32,
    pub run_lease: i64,
    pub ready_slot: i32,
    pub ready_generation: i64,
    pub queue: String,
    pub priority: i16,
    pub attempt: i16,
    pub max_attempts: i16,
    pub lane_seq: i64,
    pub claimed_at: Timestamp,
    pub receipt_id: i64,
    /// The receipt lies in a compact batch.
    pub compact_batch: bool,
}

/// `c` cancels a job on the ready plane.
pub open spec fn cancels_ready(ready: ReadyTransitionRow, now: Timestamp, c: Cancellation) -> bool {
    &&& c.done == (DoneJobRow {
        ready_slot: ready.ready_slot,
        ready_generation: ready.ready_generation,
        job_id: ready.job_id,
        kind: ready.kind,
        queue: ready.queue,
        args: ready.args,
        state: JobState::Cancelled,
        priority: ready.priority,
        attempt: ready.attempt,
        run_lease: ready.run_lease,
        max_attempts: ready.max_attempts,
        lane_seq: ready.lane_seq,
        enqueue_shard: ready.enqueue_shard,
        run_at: ready.run_at,
        attempted_at: ready.attempted_at,
        finalized_at: now,
        created_at: ready.created_at,
        unique_key: ready.unique_key,
        unique_states: ready.unique_states,
        payload: ready.payload,
    })
    &&& c.old_state == JobState::Available
    &&& c.closure == ReceiptClosure::Nothing
    &&& c.wake is None
    &&& c.sweep is None
    &&& c.advance == Some(
        ClaimCursorAdvance {
            queue: ready.queue,
            priority: ready.priority,
            enqueue_shard: ready.enqueue_shard,
            next_seq: (ready.lane_seq + 1) as i64,
            only_if_current: Some(ready.lane_seq),
        },
    )
}

/// Cancels a job on the ready plane. The claim cursor steps over the job when it
/// stands exactly there, so that no claimable row behind is skipped.
pub fn cancel_ready(ready: ReadyTransitionRow, now: Timestamp) -> (r: Cancellation)
    requires
        ready.lane_seq < i64::MAX,
    ensures
        cancels_ready(ready, now, r),
{
    let advance = ClaimCursorAdvance {
        queue: ready.queue.clone(),
        priority: ready.priority,
        enqueue_shard: ready.enqueue_shard,
        next_seq: ready.lane_seq + 1,
        only_if_current: Some(ready.lane_seq),
    };
    let mut ready = ready;
    let mut payload = crate::json::null();
    std::mem::swap(&mut payload, &mut ready.payload);
    Cancellation {
        done: ready.into_done_row(JobState::Cancelled, now, payload),
        old_state: JobState::Available,
        closure: ReceiptClosure::Nothing,
        wake: None,
        sweep: None,
        advance: Some(advance),
    }
}

/// `c` cancels an attempt that has a lease.
pub open spec fn cancels_lease(lease: LeaseTransitionRow, now: Timestamp, c: Cancellation) -> bool {
    &&& payload::payload_readable(lease.payload)
    &&& c.done == lease.done(JobState::Cancelled, now, c.done.payload)
    &&& payload::payload_writes(lease.abandoned(), c.done.payload)
    &&& c.old_state == lease.state
    &&& c.closure == (ReceiptClosure::Attempt {
        job_id: lease.job_id,
        run_lease: lease.run_lease,
    })
    &&& c.wake == Some((lease.job_id, lease.run_lease))
    &&& c.sweep is None
    &&& c.advance is None
}

/// Cancels an attempt that has a lease.
pub fn cancel_lease(lease: LeaseTransitionRow, now: Timestamp) -> (r: Result<
    Cancellation,
    AwaError,
>)
    ensures
        match r {
            Ok(c) => cancels_lease(lease, now, c),
            Err(err) => !payload::payload_readable(lease.payload) && payload::is_payload_error(
                lease.payload,
                err,
            ),
        },
{
    let old_state = lease.state;
    let job_id: i64 = lease.job_id;
    let run_lease: i64 = lease.run_lease;
    match lease.cancel(now) {
        Ok(done) => Ok(
            Cancellation {
                done,
                old_state,
                closure: ReceiptClosure::Attempt { job_id, run_lease },
                wake: Some((job_id, run_lease)),
                sweep: None,
                advance: None,
            },
        ),
        Err(err) => Err(err),
    }
}

/// `c` cancels the attempt that runs on this receipt.
pub open spec fn cancels_receipt(
    job_id: i64,
    receipt: OpenReceipt,
    ready: ReadyTransitionRow,
    now: Timestamp,
    c: Cancellation,
) -> bool {
    &&& c.done == (DoneJobRow {
        ready_slot: receipt.ready_slot,
        ready_generation: receipt.ready_generation,
        job_id,
        kind: ready.kind,
        queue: receipt.queue,
        args: ready.args,
        state: JobState::Cancelled,
        priority: receipt.priority,
        attempt: receipt.attempt,
        run_lease: receipt.run_lease,
        max_attempts: receipt.max_attempts,
        lane_seq: receipt.lane_seq,
        enqueue_shard: ready.enqueue_shard,
        run_at: ready.run_at,
        attempted_at: Some(receipt.claimed_at),
        finalized_at: now,
        created_at: ready.created_at,
        unique_key: ready.unique_key,
        unique_states: ready.unique_states,
        payload: ready.payload,
    })
    &&& c.old_state == JobState::Running
    &&& c.closure == (if receipt.compact_batch {
        ReceiptClosure::Batch {
            claim_slot: receipt.claim_slot,
            ready_slot: receipt.ready_slot,
            ready_generation: receipt.ready_generation,
            receipt_id: receipt.receipt_id,
        }
    } else {
        ReceiptClosure::Row {
            claim_slot: receipt.claim_slot,
            job_id,
            run_lease: receipt.run_lease,
        }
    })
    &&& c.wake == Some((job_id, receipt.run_lease))
    &&& c.sweep == Some((job_id, receipt.run_lease))
    &&& c.advance is None
}

/// Cancels an attempt that runs on a receipt alone, with the ready row that the
/// claim was taken on. A receipt without its ready row ends the search: nothing
/// is cancelled.
pub fn cancel_receipt(
    job_id: i64,
    receipt: OpenReceipt,
    ready: Option<ReadyTransitionRow>,
    now: Timestamp,
) -> (r: Option<Cancellation>)
    ensures
        match ready {
            Some(row) => r matches Some(c) && cancels_receipt(job_id, receipt, row, now, c),
            None => r is None,
        },
{
    let ready = match ready {
        Some(ready) => ready,
        None => return None,
    };
    let closure = if receipt.compact_batch {
        ReceiptClosure::Batch {
            claim_slot: receipt.claim_slot,
            ready_slot: receipt.ready_slot,
            ready_generation: receipt.ready_generation,
            receipt_id: receipt.receipt_id,
        }
    } else {
        ReceiptClosure::Row {
            claim_slot: receipt.claim_slot,
            job_id,
            run_lease: receipt.run_lease,
        }
    };
    let run_lease: i64 = receipt.run_lease;
    let cancellation = Cancellation {
        done: DoneJobRow {
            ready_slot: receipt.ready_slot,
            ready_generation: receipt.ready_generation,
            job_id,
            kind: ready.kind,
            queue: receipt.queue,
            args: ready.args,
            state: JobState::Cancelled,
            priority: receipt.priority,
            attempt: receipt.attempt,
            run_lease,
            max_attempts: receipt.max_attempts,
            lane_seq: receipt.lane_seq,
            enqueue_shard: ready.enqueue_shard,
            run_at: ready.run_at,
            attempted_at: Some(receipt.claimed_at),
            finalized_at: now,
            created_at: ready.created_at,
            unique_key: ready.unique_key,
            unique_states: ready.unique_states,
            payload: ready.payload,
        },
        old_state: JobState::Running,
        closure,
        wake: Some((job_id, run_lease)),
        sweep: Some((job_id, run_lease)),
        advance: None,
    };
    Some(cancellation)
}

/// `c` cancels a deferred job.
pub open spec fn cancels_deferred(deferred: DeferredJobRow, ready_slot: i32, ready_generation: i64, now: Timestamp, c: Cancellation) -> bool {
    &&& c.done == (DoneJobRow {
        ready_slot,
        ready_generation,
        job_id: deferred.job_id,
        kind: deferred.kind,
        queue: deferred.queue,
        args: deferred.args,
        state: JobState::Cancelled,
        priority: deferred.priority,
        attempt: deferred.attempt,
        run_lease: deferred.run_lease,
        max_attempts: deferred.max_attempts,
        lane_seq: (-deferred.job_id) as i64,
        enqueue_shard: 0,
        run_at: deferred.run_at,
        attempted_at: deferred.attempted_at,
        finalized_at: now,
        created_at: deferred.created_at,
        unique_key: deferred.unique_key,
        unique_states: deferred.unique_states,
        payload: deferred.payload,
    })
    &&& c.old_state == deferred.state
    &&& c.closure == ReceiptClosure::Nothing
    &&& c.wake is None
    &&& c.sweep is None
    &&& c.advance is None
}

/// Cancels a deferred job. It has no lane position to inherit: its terminal row
/// is parked in the current slot, on shard zero, under the negated job id, which
/// no claimed row can have.
pub fn cancel_deferred(
    deferred: DeferredJobRow,
    ready_slot: i32,
    ready_generation: i64,
    now: Timestamp,
) -> (r: Cancellation)
    requires
        deferred.job_id > i64::MIN,
    ensures
        cancels_deferred(deferred, ready_slot, ready_generation, now, r),
{
    let old_state = deferred.state;
    Cancellation {
        done: DoneJobRow {
            ready_slot,
            ready_generation,
            job_id: deferred.job_id,
            kind: deferred.kind,
            queue: deferred.queue,
            args: deferred.args,
            state: JobState::Cancelled,
            priority: deferred.priority,
            attempt: deferred.attempt,
            run_lease: deferred.run_lease,
            max_attempts: deferred.max_attempts,
            lane_seq: -deferred.job_id,
            enqueue_shard: 0,
            run_at: deferred.run_at,
            attempted_at: deferred.attempted_at,
            finalized_at: now,
            created_at: deferred.created_at,
            unique_key: deferred.unique_key,
            unique_states: deferred.unique_states,
            payload: deferred.payload,
        },
        old_state,
        closure: ReceiptClosure::Nothing,
        wake: None,
        sweep: None,
        advance: None,
    }
}

/// Deferred cancellations do not run into each other, nor into rows with a lane
/// position: different jobs get different positions, all below zero.
pub proof fn law_parked_positions_are_apart(a: i64, b: i64)
    requires
        a > 0,
        b > 0,
        a != b,
    ensures
        -a != -b,
        -a < 0,
{
}

/// The cursor moves past a cancelled job only when it stands exactly there:
/// applied to any cursor, the advance skips no position but the job's own.
pub proof fn law_cancel_skips_nothing_else(advance: ClaimCursorAdvance, lane_seq: i64, cursor: i64, position: i64)
    requires
        advance.next_seq == lane_seq + 1,
        advance.only_if_current == Some(lane_seq),
        cursor <= position,
        position != lane_seq,
    ensures
        ({
            let after = if advance.only_if_current == Some(cursor) {
                advance.next_seq
            } else {
                cursor
            };
            after <= position
        }),
{
}

/// A search for a job to cancel: the place that is asked next.
#[derive(Debug)]
pub enum CancelStage {
    /// A claimable ready row, which the same statement tombstones.
    Ready,
    /// A lease, which the same statement deletes.
    Lease,
    /// An open receipt.
    Receipt,
    /// The ready row behind an open receipt.
    Behind { receipt: OpenReceipt },
    /// A deferred row, which the same statement deletes.
    Deferred,
}

/// What a place holds of the job.
#[derive(Debug)]
pub enum CancelReply {
    Ready(Option<ReadyTransitionRow>),
    Lease(Option<LeaseTransitionRow>),
    Receipt(Option<OpenReceipt>),
    Behind(Option<ReadyTransitionRow>),
    /// A deferred row comes with the current slot and generation of the queue
    /// ring.
    Deferred(Option<(DeferredJobRow, i32, i64)>),
}

/// Where a search stands after a reply.
#[derive(Debug)]
pub enum CancelStep {
    Ask(CancelSearch),
    Cancel(Cancellation),
    NotFound,
    Failed(AwaError),
}

/// A search for a job to cancel.
#[derive(Debug)]
pub struct CancelSearch {
    pub job_id: i64,
    /// Whether receipts are in use.
    pub receipts: bool,
    pub stage: CancelStage,
}

impl CancelSearch {
    pub fn start(job_id: i64, receipts: bool) -> (r: CancelSearch)
        ensures
            r == (CancelSearch { job_id, receipts, stage: CancelStage::Ready }),
    {
        CancelSearch { job_id, receipts, stage: CancelStage::Ready }
    }

    /// The reply answers the question, with numbers that can be counted on.
    pub open spec fn fits(self, reply: CancelReply) -> bool {
        match (self.stage, reply) {
            (CancelStage::Ready, CancelReply::Ready(found)) => found matches Some(row)
                ==> row.lane_seq < i64::MAX,
            (CancelStage::Lease, CancelReply::Lease(_)) => true,
            (CancelStage::Receipt, CancelReply::Receipt(_)) => true,
            (CancelStage::Behind { .. }, CancelReply::Behind(_)) => true,
            (CancelStage::Deferred, CancelReply::Deferred(found)) => found matches Some(row)
                ==> row.0.job_id > i64::MIN,
            _ => false,
        }
    }

    pub open spec fn at(self, stage: CancelStage) -> CancelStep {
        CancelStep::Ask(CancelSearch { job_id: self.job_id, receipts: self.receipts, stage })
    }

    /// `step` is where the reply leads: the first place that holds the job
    /// decides.
    pub open spec fn leads_to(self, reply: CancelReply, now: Timestamp, step: CancelStep) -> bool {
        match reply {
            CancelReply::Ready(Some(row)) => step matches CancelStep::Cancel(c) && cancels_ready(
                row,
                now,
                c,
            ),
            CancelReply::Ready(None) => step == self.at(CancelStage::Lease),
            CancelReply::Lease(Some(row)) => match step {
                CancelStep::Cancel(c) => cancels_lease(row, now, c),
                CancelStep::Failed(err) => !payload::payload_readable(row.payload)
                    && payload::is_payload_error(row.payload, err),
                _ => false,
            },
            CancelReply::Lease(None) => step == self.at(
                if self.receipts {
                    CancelStage::Receipt
                } else {
                    CancelStage::Deferred
                },
            ),
            CancelReply::Receipt(Some(receipt)) => step == self.at(CancelStage::Behind { receipt }),
            CancelReply::Receipt(None) => step == self.at(CancelStage::Deferred),
            CancelReply::Behind(Some(row)) => step matches CancelStep::Cancel(c)
                && cancels_receipt(self.job_id, self.stage->receipt, row, now, c),
            CancelReply::Behind(None) => step is NotFound,
            CancelReply::Deferred(Some((row, slot, generation))) => step matches
                CancelStep::Cancel(c) && cancels_deferred(row, slot, generation, now, c),
            CancelReply::Deferred(None) => step is NotFound,
        }
    }

    /// A bound on the questions that are left.
    pub open spec fn remaining(self) -> nat {
        match self.stage {
            CancelStage::Ready => 5,
            CancelStage::Lease => 4,
            CancelStage::Receipt => 3,
            CancelStage::Behind { .. } => 1,
            CancelStage::Deferred => 1,
        }
    }

    /// Takes a reply.
    pub fn step(self, reply: CancelReply, now: Timestamp) -> (r: CancelStep)
        requires
            self.fits(reply),
        ensures
            self.leads_to(reply, now, r),
            r matches CancelStep::Ask(onward) ==> onward.remaining() < self.remaining(),
    {
        let job_id: i64 = self.job_id;
        let receipts = self.receipts;
        match (self.stage, reply) {
            (CancelStage::Ready, CancelReply::Ready(found)) => match found {
                Some(row) => CancelStep::Cancel(cancel_ready(row, now)),
                None => CancelStep::Ask(CancelSearch { job_id, receipts, stage: CancelStage::Lease }),
            },
            (CancelStage::Lease, CancelReply::Lease(found)) => match found {
                Some(row) => match cancel_lease(row, now) {
                    Ok(cancellation) => CancelStep::Cancel(cancellation),
                    Err(err) => CancelStep::Failed(err),
                },
                None => {
                    let stage = if receipts {
                        CancelStage::Receipt
                    } else {
                        CancelStage::Deferred
                    };
                    CancelStep::Ask(CancelSearch { job_id, receipts, stage })
                },
            },
            (CancelStage::Receipt, CancelReply::Receipt(found)) => {
                let stage = match found {
                    Some(receipt) => CancelStage::Behind { receipt },
                    None => CancelStage::Deferred,
                };
                CancelStep::Ask(CancelSearch { job_id, receipts, stage })
            },
            (CancelStage::Behind { receipt }, CancelReply::Behind(found)) => {
                match cancel_receipt(job_id, receipt, found, now) {
                    Some(cancellation) => CancelStep::Cancel(cancellation),
                    None => CancelStep::NotFound,
                }
            },
            (CancelStage::Deferred, CancelReply::Deferred(found)) => match found {
                Some((row, slot, generation)) => CancelStep::Cancel(
                    cancel_deferred(row, slot, generation, now),
                ),
                None => CancelStep::NotFound,
            },
            _ => CancelStep::NotFound,
        }
    }
}

/// Whatever the place, what is written is the job itself, cancelled now: it
/// leaves a state that can be cancelled, and only a job from the ready plane
/// moves a claim cursor.
pub proof fn law_cancellation_is_of_the_job(
    search: CancelSearch,
    reply: CancelReply,
    now: Timestamp,
    c: Cancellation,
)
    requires
        search.fits(reply),
        search.leads_to(reply, now, CancelStep::Cancel(c)),
        reply matches CancelReply::Ready(Some(row)) ==> row.job_id == search.job_id,
        reply matches CancelReply::Lease(Some(row)) ==> row.job_id == search.job_id
            && row.state.in_flight(),
        reply matches CancelReply::Deferred(Some((row, slot, generation))) ==> row.job_id
            == search.job_id && !row.state.terminal(),
    ensures
        c.done.job_id == search.job_id,
        c.done.state == JobState::Cancelled,
        c.done.finalized_at == now,
        !c.old_state.terminal(),
        c.advance is Some <==> reply is Ready,
        c.wake is Some <==> c.old_state.in_flight() && !(reply is Deferred),
{
}

} // verus!
