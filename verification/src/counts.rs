//! Queue counts.
use vstd::prelude::*;

verus! {

/// How many jobs of a queue are available, running, and finished.
#[derive(Debug, Clone, Copy, PartialEq, Eq, Structural)]
pub struct QueueCounts {
    pub available: i64,
    pub running: i64,
    /// Jobs in any terminal state: completed, failed, or cancelled.
    pub terminal: i64,
    /// Failed jobs that were pruned past their retention, and cannot be
    /// retried. Never shrinks.
    pub pruned_failed: i64,
}

/// Jobs of a queue, counted where they stand.
#[derive(Debug, Clone, Copy, PartialEq, Eq, Structural)]
pub struct CountParts {
    /// Ready rows that have not been claimed.
    pub available: i64,
    /// Running jobs that hold a lease.
    pub leases: i64,
    /// Running jobs that hold an open receipt and no lease.
    pub receipts: i64,
    /// Running jobs that are listed in a compact batch of receipts only.
    pub batched_receipts: i64,
    /// Finished jobs that were pruned, but for the failed ones.
    pub pruned_completed: i64,
    pub pruned_failed: i64,
    /// Finished jobs that are still stored.
    pub live_terminal: i64,
}

impl CountParts {
    pub open spec fn running(self) -> int {
        self.leases + self.receipts + self.batched_receipts
    }

    pub open spec fn terminal(self) -> int {
        self.pruned_completed + self.pruned_failed + self.live_terminal
    }
}

/// `counts` are exact: every job is counted, wherever it stands.
pub open spec fn are_exact(counts: QueueCounts, parts: CountParts) -> bool {
    &&& counts.available == parts.available
    &&& counts.running == parts.running()
    &&& counts.terminal == parts.terminal()
    &&& counts.pruned_failed == parts.pruned_failed
}

/// `counts` are those of a cheap probe: of the running jobs it counts the leases,
/// and of the finished ones those that were pruned.
pub open spec fn are_fast(
    counts: QueueCounts,
    available: int,
    leases: int,
    pruned_completed: int,
    pruned_failed: int,
) -> bool {
    &&& counts.available == available
    &&& counts.running == leases
    &&& counts.terminal == pruned_completed + pruned_failed
    &&& counts.pruned_failed == pruned_failed
}

/// Adds up the exact counts; there are none when a sum does not fit.
pub fn exact_counts(parts: CountParts) -> (r: Option<QueueCounts>)
    ensures
        match r {
            Some(counts) => are_exact(counts, parts),
            None => !(i64::MIN <= parts.running() <= i64::MAX) || !(i64::MIN <= parts.terminal()
                <= i64::MAX),
        },
{
    let running: i128 = parts.leases as i128 + parts.receipts as i128
        + parts.batched_receipts as i128;
    let terminal: i128 = parts.pruned_completed as i128 + parts.pruned_failed as i128
        + parts.live_terminal as i128;
    if running < i64::MIN as i128 || running > i64::MAX as i128 || terminal < i64::MIN as i128
        || terminal > i64::MAX as i128 {
        return None;
    }
    Some(
        QueueCounts {
            available: parts.available,
            running: running as i64,
            terminal: terminal as i64,
            pruned_failed: parts.pruned_failed,
        },
    )
}

/// The counts for a cheap probe: the terminal jobs are those that were pruned,
/// which is a lower bound.
pub fn fast_counts(available: i64, running: i64, pruned_completed: i64, pruned_failed: i64) -> (r:
    QueueCounts)
    requires
        i64::MIN <= pruned_completed + pruned_failed <= i64::MAX,
    ensures
        are_fast(
            r,
            available as int,
            running as int,
            pruned_completed as int,
            pruned_failed as int,
        ),
{
    QueueCounts { available, running, terminal: pruned_completed + pruned_failed, pruned_failed }
}

/// A lane: the next positions to enqueue and to claim, and the positions at which
/// ready rows wait.
pub struct LaneDepth {
    pub enqueue_next: int,
    pub claim_next: int,
    pub waiting: Set<int>,
}

impl LaneDepth {
    /// Rows wait between the two cursors: those before have been claimed, and
    /// those after have not been enqueued.
    pub open spec fn wf(self) -> bool {
        forall|position: int| #[trigger]
            self.waiting.contains(position) ==> self.claim_next <= position < self.enqueue_next
    }

    /// How far the cursors are apart.
    pub open spec fn signal(self) -> int {
        if self.enqueue_next > self.claim_next {
            self.enqueue_next - self.claim_next
        } else {
            0
        }
    }
}

/// The distance of the cursors over all lanes.
pub open spec fn total_signal(lanes: Seq<LaneDepth>) -> int
    decreases lanes.len(),
{
    if lanes.len() == 0 {
        0
    } else {
        total_signal(lanes.drop_last()) + lanes.last().signal()
    }
}

/// The rows that wait over all lanes.
pub open spec fn total_waiting(lanes: Seq<LaneDepth>) -> int
    decreases lanes.len(),
{
    if lanes.len() == 0 {
        0
    } else {
        total_waiting(lanes.drop_last()) + lanes.last().waiting.len()
    }
}

/// The distance of the cursors bounds the rows that wait.
pub proof fn law_signal_bounds_waiting(lanes: Seq<LaneDepth>)
    requires
        forall|i: int| 0 <= i < lanes.len() ==> (#[trigger] lanes[i]).wf(),
    ensures
        total_waiting(lanes) <= total_signal(lanes),
    decreases lanes.len(),
{
    if lanes.len() > 0 {
        let front = lanes.drop_last();
        let lane = lanes[lanes.len() - 1];
        assert forall|i: int| 0 <= i < front.len() implies (#[trigger] front[i]).wf() by {
            assert(lanes[i].wf());
        }
        law_signal_bounds_waiting(front);
        assert(lane.wf());
        let from = lane.claim_next;
        let to = from + lane.signal();
        let range = vstd::set_lib::set_int_range(from, to);
        vstd::set_lib::lemma_int_range(from, to);
        assert(lane.waiting.subset_of(range)) by {
            assert forall|position: int| lane.waiting.contains(position) implies range.contains(
                position,
            ) by {}
        }
        vstd::set_lib::lemma_len_subset(lane.waiting, range);
    }
}

/// On one state of a queue the cheap probe bounds the exact counts: it counts no
/// fewer available jobs, no more running and no more finished ones, and as many
/// pruned failures. Pruned failures are finished jobs in both.
pub proof fn law_fast_counts_bound_exact_counts(
    lanes: Seq<LaneDepth>,
    parts: CountParts,
    fast: QueueCounts,
    exact: QueueCounts,
)
    requires
        forall|i: int| 0 <= i < lanes.len() ==> (#[trigger] lanes[i]).wf(),
        parts.available == total_waiting(lanes),
        parts.receipts >= 0,
        parts.batched_receipts >= 0,
        parts.pruned_completed >= 0,
        parts.live_terminal >= 0,
        are_fast(
            fast,
            total_signal(lanes),
            parts.leases as int,
            parts.pruned_completed as int,
            parts.pruned_failed as int,
        ),
        are_exact(exact, parts),
    ensures
        fast.available >= exact.available,
        fast.running <= exact.running,
        fast.terminal <= exact.terminal,
        fast.pruned_failed == exact.pruned_failed,
        fast.pruned_failed <= fast.terminal,
        exact.pruned_failed <= exact.terminal,
{
    law_signal_bounds_waiting(lanes);
}

/// When every finished job has been pruned, and every running one holds a lease,
/// the cheap probe counts running and finished jobs exactly.
pub proof fn law_fast_counts_converge(parts: CountParts, available: int, fast: QueueCounts, exact: QueueCounts)
    requires
        parts.receipts == 0,
        parts.batched_receipts == 0,
        parts.live_terminal == 0,
        are_fast(
            fast,
            available,
            parts.leases as int,
            parts.pruned_completed as int,
            parts.pruned_failed as int,
        ),
        are_exact(exact, parts),
    ensures
        fast.running == exact.running,
        fast.terminal == exact.terminal,
        fast.pruned_failed == exact.pruned_failed,
{
}

/// The pruned failed jobs of a queue as a count.
pub fn pruned_failed_count(sum: i64) -> (r: u64)
    ensures
        r == (if sum < 0 {
            0
        } else {
            sum as int
        }),
{
    if sum < 0 {
        0
    } else {
        sum as u64
    }
}

/// Whether the live terminal counters can be trusted for exact reads. A store
/// without the marker's row has not been rebuilt, and is not.
pub fn counter_trusted(marker: Option<bool>) -> (r: bool)
    ensures
        r == (marker == Some(true)),
{
    match marker {
        Some(trusted) => trusted,
        None => false,
    }
}

} // verus!
