//! Placement: runs of rows that belong together, the job ids and lane
//! positions that a batch takes, and the segments that describe it.
use crate::cursor::LaneView;
use crate::enqueue;
use crate::enqueue::RoutedRow;
use crate::error;
use crate::error::AwaError;
use crate::order;
use crate::rows::{ExistingReadyRow, ReadySegmentInsert, RuntimeReadyInsert};
use crate::unique;
use vstd::prelude::*;
use vstd::string::*;

verus! {

/// A value that may continue the one before it.
pub trait Adjacent: Sized {
    /// `next` continues `self`.
    spec fn joins(&self, next: &Self) -> bool;

    /// Whether `next` continues `self`.
    fn is_joined(&self, next: &Self) -> (r: bool)
        ensures
            r == self.joins(next),
    ;
}

/// A half-open range of positions.
#[derive(Debug, Clone, Copy, PartialEq, Eq, Structural)]
pub struct Run {
    pub start: usize,
    pub end: usize,
}

/// `runs` cut `rows` into its longest runs: within a run each row continues the
/// one before it, and no run continues the one before it.
pub open spec fn are_runs<T: Adjacent>(rows: Seq<T>, runs: Seq<Run>) -> bool {
    &&& (rows.len() == 0) == (runs.len() == 0)
    &&& runs.len() > 0 ==> runs[0].start == 0 && runs.last().end == rows.len()
    &&& forall|r: int|
        #![trigger runs[r]]
        0 <= r < runs.len() ==> runs[r].start < runs[r].end <= rows.len()
    &&& forall|r: int, s: int|
        #![trigger runs[r], runs[s]]
        0 <= r && s == r + 1 && s < runs.len() ==> runs[r].end == runs[s].start
            && !rows[runs[s].start - 1].joins(&rows[runs[s].start as int])
    &&& forall|r: int, i: int|
        #![trigger runs[r], rows[i]]
        0 <= r < runs.len() && runs[r].start < i < runs[r].end ==> rows[i - 1].joins(&rows[i])
}

/// Cuts rows into their longest runs.
pub fn runs_of<T: Adjacent>(rows: &Vec<T>) -> (runs: Vec<Run>)
    ensures
        are_runs(rows@, runs@),
{
    let mut runs: Vec<Run> = Vec::new();
    if rows.len() == 0 {
        return runs;
    }
    let mut start: usize = 0;
    let mut i: usize = 1;
    while i < rows.len()
        invariant
            start < i <= rows@.len(),
            runs@.len() > 0 ==> runs@[0].start == 0 && runs@.last().end == start,
            runs@.len() == 0 ==> start == 0,
            runs@.len() > 0 ==> start > 0 && !rows@[start - 1].joins(&rows@[start as int]),
            forall|r: int|
                #![trigger runs@[r]]
                0 <= r < runs@.len() ==> runs@[r].start < runs@[r].end <= start,
            forall|r: int, s: int|
                #![trigger runs@[r], runs@[s]]
                0 <= r && s == r + 1 && s < runs@.len() ==> runs@[r].end == runs@[s].start
                    && !rows@[runs@[s].start - 1].joins(&rows@[runs@[s].start as int]),
            forall|r: int, k: int|
                #![trigger runs@[r], rows@[k]]
                0 <= r < runs@.len() && runs@[r].start < k < runs@[r].end ==> rows@[k - 1].joins(
                    &rows@[k],
                ),
            forall|k: int| #![trigger rows@[k]] start < k < i ==> rows@[k - 1].joins(&rows@[k]),
        decreases rows.len() - i,
    {
        if !rows[i - 1].is_joined(&rows[i]) {
            runs.push(Run { start, end: i });
            start = i;
        }
        i = i + 1;
    }
    runs.push(Run { start, end: rows.len() });
    runs
}

/// Every position lies in one of the runs.
pub proof fn lemma_position_in_run<T: Adjacent>(rows: Seq<T>, runs: Seq<Run>, i: int)
    requires
        are_runs(rows, runs),
        0 <= i < rows.len(),
    ensures
        exists|r: int| 0 <= r < runs.len() && (#[trigger] runs[r]).start <= i < runs[r].end,
{
    lemma_position_in_prefix(rows, runs, runs.len() as int, i);
}

proof fn lemma_position_in_prefix<T: Adjacent>(rows: Seq<T>, runs: Seq<Run>, n: int, i: int)
    requires
        are_runs(rows, runs),
        0 < n <= runs.len(),
        0 <= i < runs[n - 1].end,
    ensures
        exists|r: int| 0 <= r < runs.len() && (#[trigger] runs[r]).start <= i < runs[r].end,
    decreases n,
{
    if runs[n - 1].start <= i {
    } else {
        assert(n > 1);
        assert(runs[n - 2].end == runs[n - 1].start);
        lemma_position_in_prefix(rows, runs, n - 1, i);
    }
}

/// Rows have only one cut into longest runs.
pub proof fn law_runs_are_unique<T: Adjacent>(rows: Seq<T>, a: Seq<Run>, b: Seq<Run>)
    requires
        are_runs(rows, a),
        are_runs(rows, b),
    ensures
        a == b,
{
    if rows.len() > 0 {
        let shorter = if a.len() < b.len() {
            a.len()
        } else {
            b.len()
        };
        assert forall|k: int| 0 <= k < shorter implies #[trigger] a[k] == b[k] by {
            lemma_runs_agree(rows, a, b, k);
        }
        if a.len() < b.len() {
            assert(a[shorter - 1] == b[shorter - 1]);
            assert(b[shorter - 1].end == b[shorter as int].start);
        } else if b.len() < a.len() {
            assert(a[shorter - 1] == b[shorter - 1]);
            assert(a[shorter - 1].end == a[shorter as int].start);
        }
    }
    assert(a =~= b);
}

proof fn lemma_runs_agree<T: Adjacent>(rows: Seq<T>, a: Seq<Run>, b: Seq<Run>, k: int)
    requires
        are_runs(rows, a),
        are_runs(rows, b),
        0 <= k < a.len(),
        k < b.len(),
    ensures
        a[k] == b[k],
    decreases k,
{
    if k > 0 {
        lemma_runs_agree(rows, a, b, k - 1);
        assert(a[k - 1].end == a[k].start);
        assert(b[k - 1].end == b[k].start);
    }
    assert(a[k].start == b[k].start);
    if a[k].end < b[k].end {
        assert(a[k + 1].start == a[k].end);
        assert(rows[a[k].end - 1].joins(&rows[a[k].end as int]));
    } else if b[k].end < a[k].end {
        assert(b[k + 1].start == b[k].end);
        assert(rows[b[k].end - 1].joins(&rows[b[k].end as int]));
    }
}

impl Adjacent for RoutedRow {
    open spec fn joins(&self, next: &Self) -> bool {
        self.lane() == next.lane()
    }

    fn is_joined(&self, next: &Self) -> (r: bool) {
        self.enqueue_shard == next.enqueue_shard && self.row.priority == next.row.priority
            && self.row.queue == next.row.queue
    }
}

impl Adjacent for ExistingReadyRow {
    open spec fn joins(&self, next: &Self) -> bool {
        self.queue@ == next.queue@ && self.priority == next.priority
    }

    fn is_joined(&self, next: &Self) -> (r: bool) {
        self.priority == next.priority && self.queue == next.queue
    }
}

impl RuntimeReadyInsert {
    pub open spec fn lane(self) -> LaneView {
        (self.queue@, self.priority, self.enqueue_shard)
    }
}

impl Adjacent for RuntimeReadyInsert {
    /// `next` takes the next position of the same lane and may run from the
    /// same time.
    open spec fn joins(&self, next: &Self) -> bool {
        &&& self.lane() == next.lane()
        &&& self.lane_seq + 1 == next.lane_seq
        &&& self.run_at == next.run_at
    }

    fn is_joined(&self, next: &Self) -> (r: bool) {
        self.priority == next.priority && self.enqueue_shard == next.enqueue_shard && self.lane_seq
            < i64::MAX && self.lane_seq + 1 == next.lane_seq && self.run_at == next.run_at
            && self.queue == next.queue
    }
}

/// The routed row with its job id, still without a lane position.
pub open spec fn unplaced(routed: RoutedRow, job_id: i64) -> RuntimeReadyInsert {
    RuntimeReadyInsert {
        job_id,
        kind: routed.row.kind,
        queue: routed.row.queue,
        args: routed.row.args,
        priority: routed.row.priority,
        attempt: routed.row.attempt,
        run_lease: routed.row.run_lease,
        max_attempts: routed.row.max_attempts,
        run_at: routed.row.run_at,
        attempted_at: routed.row.attempted_at,
        lane_seq: 0,
        enqueue_shard: routed.enqueue_shard,
        created_at: routed.row.created_at,
        unique_key: routed.row.unique_key,
        unique_states: routed.row.unique_states,
        payload: routed.row.payload,
    }
}

/// A batch with its job ids, cut into lanes.
#[derive(Debug)]
pub struct EnqueuePlan {
    pub rows: Vec<RuntimeReadyInsert>,
    pub lanes: Vec<Run>,
}

/// `plan` holds the routed rows in order, each with the job id of its position,
/// and cuts them into their lanes.
pub open spec fn is_plan(routed: Seq<RoutedRow>, job_ids: Seq<i64>, plan: EnqueuePlan) -> bool {
    &&& plan.rows@.len() == routed.len()
    &&& forall|i: int|
        0 <= i < routed.len() ==> (#[trigger] plan.rows@[i]) == unplaced(routed[i], job_ids[i])
    &&& are_runs(routed, plan.lanes@)
}

fn assign_job_ids(routed: Vec<RoutedRow>, job_ids: Vec<i64>) -> (r: Option<EnqueuePlan>)
    ensures
        match r {
            Some(plan) => routed@.len() <= job_ids@.len() && is_plan(routed@, job_ids@, plan),
            None => job_ids@.len() < routed@.len(),
        },
{
    let lanes = runs_of(&routed);
    let mut rows: Vec<RuntimeReadyInsert> = Vec::new();
    let ghost all = routed@;
    if job_ids.len() < routed.len() {
        return None;
    }
    for item in it: routed
        invariant
            it.seq() == all,
            all.len() <= job_ids@.len(),
            rows@.len() == it.index(),
            forall|i: int|
                0 <= i < it.index() ==> (#[trigger] rows@[i]) == unplaced(all[i], job_ids@[i]),
    {
        assert(item == all[it.index()]);
        let at: usize = rows.len();
        rows.push(
            RuntimeReadyInsert {
                job_id: job_ids[at],
                kind: item.row.kind,
                queue: item.row.queue,
                args: item.row.args,
                priority: item.row.priority,
                attempt: item.row.attempt,
                run_lease: item.row.run_lease,
                max_attempts: item.row.max_attempts,
                run_at: item.row.run_at,
                attempted_at: item.row.attempted_at,
                lane_seq: 0,
                enqueue_shard: item.enqueue_shard,
                created_at: item.row.created_at,
                unique_key: item.row.unique_key,
                unique_states: item.row.unique_states,
                payload: item.row.payload,
            },
        );
    }
    Some(EnqueuePlan { rows, lanes })
}

/// Gives a routed batch its job ids, in order.
pub fn plan_ready_rows(routed: Vec<RoutedRow>, job_ids: Vec<i64>) -> (r: Result<
    EnqueuePlan,
    AwaError,
>)
    ensures
        match r {
            Ok(plan) => routed@.len() <= job_ids@.len() && is_plan(routed@, job_ids@, plan),
            Err(err) => job_ids@.len() < routed@.len() && error::is_validation(
                err,
                "queue storage job id allocation underflow"@,
            ),
        },
{
    match assign_job_ids(routed, job_ids) {
        Some(plan) => Ok(plan),
        None => Err(error::validation("queue storage job id allocation underflow")),
    }
}

/// Gives a routed batch the job ids that were allocated for it, of which there
/// must be exactly as many as rows.
pub fn plan_ready_rows_copy(routed: Vec<RoutedRow>, job_ids: Vec<i64>) -> (r: Result<
    EnqueuePlan,
    AwaError,
>)
    ensures
        match r {
            Ok(plan) => routed@.len() == job_ids@.len() && is_plan(routed@, job_ids@, plan),
            Err(err) => job_ids@.len() != routed@.len() && error::is_validation(
                err,
                "queue storage job id allocation count mismatch"@,
            ),
        },
{
    if job_ids.len() != routed.len() {
        return Err(error::validation("queue storage job id allocation count mismatch"));
    }
    match assign_job_ids(routed, job_ids) {
        Some(plan) => Ok(plan),
        None => Err(error::validation("queue storage job id allocation underflow")),
    }
}

/// A routed batch is planned the same way whether its rows are inserted or
/// copied in: cut into the same lanes, with rows that differ in their job ids at
/// most. Given the same job ids, both make the same rows and claim the same
/// unique keys.
pub proof fn law_insert_and_copy_plan_alike(
    routed: Seq<RoutedRow>,
    insert_ids: Seq<i64>,
    copy_ids: Seq<i64>,
    insert: EnqueuePlan,
    copy: EnqueuePlan,
)
    requires
        is_plan(routed, insert_ids, insert),
        is_plan(routed, copy_ids, copy),
    ensures
        insert.lanes@ == copy.lanes@,
        insert.rows@.len() == copy.rows@.len() == routed.len(),
        forall|i: int|
            0 <= i < routed.len() ==> (#[trigger] copy.rows@[i]) == (RuntimeReadyInsert {
                job_id: copy_ids[i],
                ..insert.rows@[i]
            }),
        (forall|i: int| 0 <= i < routed.len() ==> (#[trigger] insert_ids[i]) == copy_ids[i]) ==> {
            &&& insert.rows@ == copy.rows@
            &&& unique::batch_claims(unique::ready_claimants(insert.rows@))
                == unique::batch_claims(unique::ready_claimants(copy.rows@))
        },
{
    law_runs_are_unique(routed, insert.lanes@, copy.lanes@);
    assert forall|i: int| 0 <= i < routed.len() implies (#[trigger] copy.rows@[i]) == (
    RuntimeReadyInsert { job_id: copy_ids[i], ..insert.rows@[i] }) by {
        assert(insert.rows@[i] == unplaced(routed[i], insert_ids[i]));
    }
    if forall|i: int| 0 <= i < routed.len() ==> (#[trigger] insert_ids[i]) == copy_ids[i] {
        assert forall|i: int| 0 <= i < routed.len() implies insert.rows@[i] == copy.rows@[i] by {
            assert(insert_ids[i] == copy_ids[i]);
        }
        assert(insert.rows@ =~= copy.rows@);
    }
}

/// The row at a lane position.
pub open spec fn placed(row: RuntimeReadyInsert, lane_seq: int) -> RuntimeReadyInsert {
    RuntimeReadyInsert { lane_seq: lane_seq as i64, ..row }
}

/// Gives the rows of one lane their positions, one after the other from
/// `start_seq` on.
pub fn place_lane(rows: &mut Vec<RuntimeReadyInsert>, lane: Run, start_seq: i64)
    requires
        lane.start <= lane.end <= old(rows)@.len(),
        start_seq + (lane.end - lane.start) <= i64::MAX,
    ensures
        final(rows)@.len() == old(rows)@.len(),
        forall|i: int|
            0 <= i < old(rows)@.len() ==> #[trigger] final(rows)@[i] == (if lane.start <= i
                < lane.end {
                placed(old(rows)@[i], start_seq + (i - lane.start))
            } else {
                old(rows)@[i]
            }),
{
    let ghost before = rows@;
    let mut i: usize = lane.start;
    while i < lane.end
        invariant
            lane.start <= i <= lane.end <= rows@.len(),
            rows@.len() == before.len(),
            start_seq + (lane.end - lane.start) <= i64::MAX,
            forall|k: int|
                0 <= k < before.len() ==> #[trigger] rows@[k] == (if lane.start <= k < i {
                    placed(before[k], start_seq + (k - lane.start))
                } else {
                    before[k]
                }),
        decreases lane.end - i,
    {
        let position: i128 = start_seq as i128 + (i - lane.start) as i128;
        rows[i].lane_seq = position as i64;
        i = i + 1;
    }
}

/// In a placed lane, positions grow with the order of the rows.
pub proof fn law_lane_positions_grow(
    before: Seq<RuntimeReadyInsert>,
    after: Seq<RuntimeReadyInsert>,
    lane: Run,
    start_seq: i64,
    i: int,
    j: int,
)
    requires
        lane.start <= i < j < lane.end <= before.len(),
        start_seq + (lane.end - lane.start) <= i64::MAX,
        after.len() == before.len(),
        forall|k: int|
            lane.start <= k < lane.end ==> #[trigger] after[k] == placed(
                before[k],
                start_seq + (k - lane.start),
            ),
    ensures
        after[i].lane_seq < after[j].lane_seq,
        after[i].lane() == before[i].lane(),
{
    assert(after[i] == placed(before[i], start_seq + (i - lane.start)));
    assert(after[j] == placed(before[j], start_seq + (j - lane.start)));
}

/// Rows that go back to the ready plane, in lane order and cut into lanes.
#[derive(Debug)]
pub struct RequeuePlan {
    pub rows: Vec<ExistingReadyRow>,
    pub lanes: Vec<Run>,
}

/// Brings rows that go back to the ready plane into the order of their queues
/// and priorities.
pub fn plan_existing_ready_rows(rows: Vec<ExistingReadyRow>) -> (plan: RequeuePlan)
    ensures
        exists|source: Seq<int>| order::is_stable_sort(rows@, plan.rows@, source),
        are_runs(plan.rows@, plan.lanes@),
{
    let ghost input = rows@;
    let sorted = order::sort_ranked(rows);
    let lanes = runs_of(&sorted);
    let plan = RequeuePlan { rows: sorted, lanes };
    proof {
        let source = choose|source: Seq<int>| order::is_stable_sort(input, sorted@, source);
        assert(order::is_stable_sort(rows@, plan.rows@, source));
    }
    plan
}

/// A lane of a requeued batch with the shard and the first position that it was
/// given.
#[derive(Debug, Clone, Copy, PartialEq, Eq, Structural)]
pub struct PlacedLane {
    pub lane: Run,
    pub enqueue_shard: i16,
    pub start_seq: i64,
}

/// The requeued row at its lane position.
pub open spec fn requeued(row: ExistingReadyRow, enqueue_shard: i16, lane_seq: int) -> RuntimeReadyInsert {
    RuntimeReadyInsert {
        job_id: row.job_id,
        kind: row.kind,
        queue: row.queue,
        args: row.args,
        priority: row.priority,
        attempt: row.attempt,
        run_lease: row.run_lease,
        max_attempts: row.max_attempts,
        run_at: row.run_at,
        attempted_at: row.attempted_at,
        lane_seq: lane_seq as i64,
        enqueue_shard,
        created_at: row.created_at,
        unique_key: row.unique_key,
        unique_states: row.unique_states,
        payload: row.payload,
    }
}

/// The lanes follow each other without a gap from the first row to the last.
pub open spec fn lanes_chain(lanes: Seq<PlacedLane>, count: int) -> bool {
    &&& (count == 0) == (lanes.len() == 0)
    &&& lanes.len() > 0 ==> lanes[0].lane.start == 0 && lanes.last().lane.end == count
    &&& forall|r: int|
        #![trigger lanes[r]]
        0 <= r < lanes.len() ==> lanes[r].lane.start < lanes[r].lane.end && lanes[r].start_seq + (
        lanes[r].lane.end - lanes[r].lane.start) <= i64::MAX
    &&& forall|r: int, s: int|
        #![trigger lanes[r], lanes[s]]
        0 <= r && s == r + 1 && s < lanes.len() ==> lanes[r].lane.end == lanes[s].lane.start
}

/// Position `i` of a requeued batch has been placed: its lane gives it the
/// shard and the position.
pub open spec fn placed_in(
    rows: Seq<ExistingReadyRow>,
    lanes: Seq<PlacedLane>,
    i: int,
    out: RuntimeReadyInsert,
) -> bool {
    exists|r: int|
        0 <= r < lanes.len() && (#[trigger] lanes[r]).lane.start <= i < lanes[r].lane.end && out
            == requeued(
            rows[i],
            lanes[r].enqueue_shard,
            lanes[r].start_seq + (i - lanes[r].lane.start),
        )
}

/// Places a requeued batch lane by lane.
pub fn place_existing_rows(rows: Vec<ExistingReadyRow>, lanes: &Vec<PlacedLane>) -> (out: Vec<
    RuntimeReadyInsert,
>)
    requires
        lanes_chain(lanes@, rows@.len() as int),
    ensures
        out@.len() == rows@.len(),
        forall|i: int|
            0 <= i < rows@.len() ==> placed_in(rows@, lanes@, i, #[trigger] out@[i]),
{
    let mut out: Vec<RuntimeReadyInsert> = Vec::new();
    let ghost all = rows@;
    let mut r: usize = 0;
    for row in it: rows
        invariant
            it.seq() == all,
            lanes_chain(lanes@, all.len() as int),
            out@.len() == it.index(),
            forall|i: int|
                0 <= i < out@.len() ==> placed_in(all, lanes@, i, #[trigger] out@[i]),
            it.index() < all.len() ==> r < lanes@.len() && lanes@[r as int].lane.start
                <= it.index() < lanes@[r as int].lane.end,
    {
        assert(row == all[it.index()]);
        let lane = lanes[r];
        let at: usize = out.len();
        let position: i128 = lane.start_seq as i128 + (at - lane.lane.start) as i128;
        let ghost before = out@;
        out.push(
            RuntimeReadyInsert {
                job_id: row.job_id,
                kind: row.kind,
                queue: row.queue,
                args: row.args,
                priority: row.priority,
                attempt: row.attempt,
                run_lease: row.run_lease,
                max_attempts: row.max_attempts,
                run_at: row.run_at,
                attempted_at: row.attempted_at,
                lane_seq: position as i64,
                enqueue_shard: lane.enqueue_shard,
                created_at: row.created_at,
                unique_key: row.unique_key,
                unique_states: row.unique_states,
                payload: row.payload,
            },
        );
        proof {
            assert(placed_in(all, lanes@, at as int, out@[at as int])) by {
                assert(lanes@[r as int] == lane);
            }
            assert forall|i: int| 0 <= i < out@.len() implies placed_in(
                all,
                lanes@,
                i,
                #[trigger] out@[i],
            ) by {
                if i < before.len() {
                    assert(out@[i] == before[i]);
                }
            }
        }
        if r < lanes.len() - 1 && at + 1 == lane.lane.end {
            proof {
                assert(lanes@[r as int].lane.end == lanes@[r + 1].lane.start);
            }
            r = r + 1;
        }
    }
    out
}

/// `segment` describes the rows of one run: their lane, their time, and their
/// positions from the first to just past the last.
pub open spec fn describes(
    rows: Seq<RuntimeReadyInsert>,
    run: Run,
    segment: ReadySegmentInsert,
) -> bool {
    let first = rows[run.start as int];
    let last = rows[run.end - 1];
    &&& segment.queue@ == first.queue@
    &&& segment.priority == first.priority
    &&& segment.enqueue_shard == first.enqueue_shard
    &&& segment.first_lane_seq == first.lane_seq
    &&& segment.next_lane_seq == last.lane_seq + 1
    &&& segment.first_run_at == first.run_at
}

/// `segments` describe the longest runs of consecutive rows, in order.
pub open spec fn are_segments(
    rows: Seq<RuntimeReadyInsert>,
    runs: Seq<Run>,
    segments: Seq<ReadySegmentInsert>,
) -> bool {
    &&& are_runs(rows, runs)
    &&& segments.len() == runs.len()
    &&& forall|s: int| 0 <= s < segments.len() ==> describes(rows, runs[s], #[trigger] segments[s])
}

/// Describes a placed batch by segments. A segment ends where the lane, the
/// position, or the time from which rows may run does not carry on.
pub fn ready_segments_from_rows(rows: &Vec<RuntimeReadyInsert>) -> (segments: Vec<
    ReadySegmentInsert,
>)
    requires
        forall|i: int| 0 <= i < rows@.len() ==> (#[trigger] rows@[i]).lane_seq < i64::MAX,
    ensures
        exists|runs: Seq<Run>| are_segments(rows@, runs, segments@),
{
    let runs = runs_of(rows);
    let mut segments: Vec<ReadySegmentInsert> = Vec::new();
    let mut s: usize = 0;
    while s < runs.len()
        invariant
            s <= runs@.len(),
            are_runs(rows@, runs@),
            forall|i: int| 0 <= i < rows@.len() ==> (#[trigger] rows@[i]).lane_seq < i64::MAX,
            segments@.len() == s,
            forall|k: int| 0 <= k < s ==> describes(rows@, runs@[k], #[trigger] segments@[k]),
        decreases runs.len() - s,
    {
        let run = runs[s];
        assert(runs@[s as int] == run);
        let first = &rows[run.start];
        let last = &rows[run.end - 1];
        segments.push(
            ReadySegmentInsert {
                queue: first.queue.clone(),
                priority: first.priority,
                enqueue_shard: first.enqueue_shard,
                first_lane_seq: first.lane_seq,
                next_lane_seq: last.lane_seq + 1,
                first_run_at: first.run_at,
            },
        );
        s = s + 1;
    }
    assert(are_segments(rows@, runs@, segments@));
    segments
}

/// Every row lies in exactly the place that its segment gives it: same lane,
/// same time, and a position within the segment.
pub proof fn law_segment_holds_its_rows(
    rows: Seq<RuntimeReadyInsert>,
    runs: Seq<Run>,
    segments: Seq<ReadySegmentInsert>,
    s: int,
    i: int,
)
    requires
        are_segments(rows, runs, segments),
        0 <= s < segments.len(),
        runs[s].start <= i < runs[s].end,
    ensures
        rows[i].lane() == (
            segments[s].queue@,
            segments[s].priority,
            segments[s].enqueue_shard,
        ),
        rows[i].run_at == segments[s].first_run_at,
        rows[i].lane_seq == segments[s].first_lane_seq + (i - runs[s].start),
        segments[s].first_lane_seq <= rows[i].lane_seq < segments[s].next_lane_seq,
        segments[s].next_lane_seq - segments[s].first_lane_seq == runs[s].end - runs[s].start,
{
    assert(describes(rows, runs[s], segments[s]));
    lemma_run_positions(rows, runs, s, i);
    lemma_run_positions(rows, runs, s, runs[s].end - 1);
}

proof fn lemma_run_positions(rows: Seq<RuntimeReadyInsert>, runs: Seq<Run>, s: int, i: int)
    requires
        are_runs(rows, runs),
        0 <= s < runs.len(),
        runs[s].start <= i < runs[s].end,
    ensures
        rows[i].lane() == rows[runs[s].start as int].lane(),
        rows[i].run_at == rows[runs[s].start as int].run_at,
        rows[i].lane_seq == rows[runs[s].start as int].lane_seq + (i - runs[s].start),
    decreases i,
{
    if i > runs[s].start {
        lemma_run_positions(rows, runs, s, i - 1);
        assert(rows[i - 1].joins(&rows[i]));
    }
}

/// Every row is described by a segment.
pub proof fn law_segments_cover_rows(
    rows: Seq<RuntimeReadyInsert>,
    runs: Seq<Run>,
    segments: Seq<ReadySegmentInsert>,
    i: int,
)
    requires
        are_segments(rows, runs, segments),
        0 <= i < rows.len(),
    ensures
        exists|s: int|
            0 <= s < segments.len() && (#[trigger] segments[s]).first_lane_seq <= rows[i].lane_seq
                < segments[s].next_lane_seq && segments[s].first_run_at == rows[i].run_at,
{
    lemma_position_in_run(rows, runs, i);
    let s = choose|s: int| 0 <= s < runs.len() && (#[trigger] runs[s]).start <= i < runs[s].end;
    law_segment_holds_its_rows(rows, runs, segments, s, i);
    assert(segments[s].first_lane_seq <= rows[i].lane_seq);
}

} // verus!
