//! Jobs as producers hand them in: sorted into ready and scheduled rows, and
//! given their queues and ids.
use crate::clock::Timestamp;
use crate::error;
use crate::error::AwaError;
use crate::job::JobState;
use crate::json;
use crate::json::JsonNode;
use crate::payload;
use crate::payload::PayloadView;
use crate::payload::RuntimePayload;
use crate::rows::DeferredJobRow;
use crate::rows::RuntimeReadyRow;
use crate::select;
use crate::storage::QueueStorage;
use serde_json::Value;
use vstd::prelude::*;
use vstd::string::*;

verus! {

/// A job that has passed the checks on its arguments and options.
#[derive(Debug)]
pub struct PreparedJob {
    pub kind: String,
    pub queue: String,
    pub args: Value,
    pub priority: i16,
    pub max_attempts: i16,
    pub run_at: Option<Timestamp>,
    pub state: JobState,
    pub metadata: Value,
    pub tags: Vec<String>,
    pub unique_key: Option<Vec<u8>>,
    pub unique_states: Option<String>,
    pub ordering_key: Option<Vec<u8>>,
}

impl PreparedJob {
    /// When the job may run: at its own time, or from now on.
    pub open spec fn starts(self, now: Timestamp) -> Timestamp {
        match self.run_at {
            Some(at) => at,
            None => now,
        }
    }

    /// `row` is the job as a ready row on this physical queue.
    pub open spec fn enters(self, queue: Seq<char>, now: Timestamp, row: RuntimeReadyRow) -> bool {
        &&& row == (RuntimeReadyRow {
            kind: self.kind,
            queue: row.queue,
            args: self.args,
            priority: self.priority,
            attempt: 0,
            run_lease: 0,
            max_attempts: self.max_attempts,
            run_at: self.starts(now),
            attempted_at: None,
            created_at: now,
            unique_key: self.unique_key,
            unique_states: self.unique_states,
            payload: row.payload,
            ordering_key: self.ordering_key,
        })
        &&& row.queue@ == queue
        &&& self.payload_stored(row.payload)
    }

    /// `row` is the job as a scheduled row on this physical queue, still
    /// without an id.
    pub open spec fn waits(self, queue: Seq<char>, now: Timestamp, row: DeferredJobRow) -> bool {
        &&& row == (DeferredJobRow {
            job_id: 0,
            kind: self.kind,
            queue: row.queue,
            args: self.args,
            state: JobState::Scheduled,
            priority: self.priority,
            attempt: 0,
            run_lease: 0,
            max_attempts: self.max_attempts,
            run_at: self.starts(now),
            attempted_at: None,
            finalized_at: None,
            created_at: now,
            unique_key: self.unique_key,
            unique_states: self.unique_states,
            payload: row.payload,
        })
        &&& row.queue@ == queue
        &&& self.payload_stored(row.payload)
    }

    /// The payload that the job starts with: its metadata and its tags.
    pub open spec fn payload_stored(self, out: Value) -> bool {
        payload::payload_writes(
            PayloadView {
                metadata: json::node(self.metadata),
                tags: payload::texts(self.tags@),
                errors: Seq::empty(),
                progress: None,
            },
            out,
        )
    }
}

/// The error for a job that cannot start in its state.
pub open spec fn unsupported_text(state: JobState) -> Seq<char> {
    "queue storage does not support initial state "@ + state.label()
}

/// A prepared job in the form in which it is inserted.
#[derive(Debug)]
pub enum IntakeRow {
    Ready(RuntimeReadyRow),
    Scheduled(DeferredJobRow),
}

/// Turns a prepared job into its row on the given physical queue.
pub fn intake_row(job: PreparedJob, queue: String, now: Timestamp) -> (r: Result<IntakeRow, AwaError>)
    ensures
        match job.state {
            JobState::Available => r matches Ok(IntakeRow::Ready(row)) && job.enters(
                queue@,
                now,
                row,
            ),
            JobState::Scheduled => r matches Ok(IntakeRow::Scheduled(row)) && job.waits(
                queue@,
                now,
                row,
            ),
            other => r matches Err(err) && error::is_validation(err, unsupported_text(other)),
        },
{
    let run_at = match job.run_at {
        Some(at) => at,
        None => now,
    };
    match job.state {
        JobState::Available => {
            let payload = payload::payload_from_parts(job.metadata, job.tags, None, None);
            Ok(
                IntakeRow::Ready(
                    RuntimeReadyRow {
                        kind: job.kind,
                        queue,
                        args: job.args,
                        priority: job.priority,
                        attempt: 0,
                        run_lease: 0,
                        max_attempts: job.max_attempts,
                        run_at,
                        attempted_at: None,
                        created_at: now,
                        unique_key: job.unique_key,
                        unique_states: job.unique_states,
                        payload,
                        ordering_key: job.ordering_key,
                    },
                ),
            )
        },
        JobState::Scheduled => {
            let payload = payload::payload_from_parts(job.metadata, job.tags, None, None);
            Ok(
                IntakeRow::Scheduled(
                    DeferredJobRow {
                        job_id: 0,
                        kind: job.kind,
                        queue,
                        args: job.args,
                        state: JobState::Scheduled,
                        priority: job.priority,
                        attempt: 0,
                        run_lease: 0,
                        max_attempts: job.max_attempts,
                        run_at,
                        attempted_at: None,
                        finalized_at: None,
                        created_at: now,
                        unique_key: job.unique_key,
                        unique_states: job.unique_states,
                        payload,
                    },
                ),
            )
        },
        other => Err(
            AwaError::Validation(
                "queue storage does not support initial state ".to_owned().concat(other.as_str()),
            ),
        ),
    }
}

/// A batch of jobs on its way in.
#[derive(Debug)]
pub struct Intake {
    pub ready: Vec<RuntimeReadyRow>,
    pub scheduled: Vec<DeferredJobRow>,
}

/// The state is one that a job can start in.
pub open spec fn can_start(state: JobState) -> bool {
    state == JobState::Available || state == JobState::Scheduled
}

impl QueueStorage {
    /// The physical queue of the job at this place of a batch: with a unique
    /// key the key's hash picks the stripe, whatever it is; without one the
    /// place does.
    pub open spec fn takes_in_at(&self, job: PreparedJob, place: int, queue: Seq<char>) -> bool {
        match job.unique_key {
            Some(_) => exists|hash: u64|
                queue == #[trigger] self.striped_queue(job.queue@, Some(hash), place as i64),
            None => queue == self.striped_queue(job.queue@, None, place as i64),
        }
    }

    /// `intake` holds the jobs that can run as ready rows and the others as
    /// scheduled rows, each list in the order of the batch.
    pub open spec fn sorts_in(
        &self,
        jobs: Seq<PreparedJob>,
        now: Timestamp,
        intake: Intake,
        ready_at: Seq<usize>,
        scheduled_at: Seq<usize>,
    ) -> bool {
        &&& select::selects(
            jobs.len() as int,
            |i: int| jobs[i].state == JobState::Available,
            ready_at,
        )
        &&& select::selects(
            jobs.len() as int,
            |i: int| jobs[i].state == JobState::Scheduled,
            scheduled_at,
        )
        &&& intake.ready@.len() == ready_at.len()
        &&& intake.scheduled@.len() == scheduled_at.len()
        &&& forall|k: int|
            #![trigger intake.ready@[k]]
            0 <= k < ready_at.len() ==> jobs[ready_at[k] as int].enters(
                intake.ready@[k].queue@,
                now,
                intake.ready@[k],
            ) && self.takes_in_at(
                jobs[ready_at[k] as int],
                ready_at[k] as int,
                intake.ready@[k].queue@,
            )
        &&& forall|k: int|
            #![trigger intake.scheduled@[k]]
            0 <= k < scheduled_at.len() ==> jobs[scheduled_at[k] as int].waits(
                intake.scheduled@[k].queue@,
                now,
                intake.scheduled@[k],
            ) && self.takes_in_at(
                jobs[scheduled_at[k] as int],
                scheduled_at[k] as int,
                intake.scheduled@[k].queue@,
            )
    }

    /// `intake` is the batch, sorted into ready and scheduled rows.
    pub open spec fn is_intake(&self, jobs: Seq<PreparedJob>, now: Timestamp, intake: Intake) -> bool {
        exists|ready_at: Seq<usize>, scheduled_at: Seq<usize>| #[trigger]
            self.sorts_in(jobs, now, intake, ready_at, scheduled_at)
    }

    /// Sorts a batch of prepared jobs into ready and scheduled rows. A job that
    /// cannot start in its state fails the batch.
    pub fn take_in(&self, jobs: Vec<PreparedJob>, now: Timestamp) -> (r: Result<Intake, AwaError>)
        requires
            self.layout().queue_stripe_count <= i64::MAX,
            jobs@.len() <= i64::MAX,
        ensures
            match r {
                Ok(sorted) => {
                    &&& forall|i: int|
                        0 <= i < jobs@.len() ==> can_start((#[trigger] jobs@[i]).state)
                    &&& self.is_intake(jobs@, now, sorted)
                },
                Err(err) => exists|i: int|
                    #![trigger jobs@[i]]
                    0 <= i < jobs@.len() && !can_start(jobs@[i].state) && error::is_validation(
                        err,
                        unsupported_text(jobs@[i].state),
                    ) && forall|j: int|
                        #![trigger jobs@[j]]
                        0 <= j < i ==> can_start(jobs@[j].state),
            },
    {
        let ghost all = jobs@;
        let ghost available = |i: int| all[i].state == JobState::Available;
        let ghost waiting = |i: int| all[i].state == JobState::Scheduled;
        let ghost mut ready_at: Seq<usize> = Seq::empty();
        let ghost mut scheduled_at: Seq<usize> = Seq::empty();
        let mut intake = Intake { ready: Vec::new(), scheduled: Vec::new() };
        let mut place: usize = 0;
        let count: usize = jobs.len();
        for job in it: jobs
            invariant
                it.seq() == all,
                place == it.index(),
                count == all.len(),
                all.len() <= i64::MAX,
                self.layout().queue_stripe_count <= i64::MAX,
                available == (|i: int| all[i].state == JobState::Available),
                waiting == (|i: int| all[i].state == JobState::Scheduled),
                forall|i: int| 0 <= i < it.index() ==> can_start((#[trigger] all[i]).state),
                select::selects(it.index(), available, ready_at),
                select::selects(it.index(), waiting, scheduled_at),
                intake.ready@.len() == ready_at.len(),
                intake.scheduled@.len() == scheduled_at.len(),
                forall|k: int|
                    #![trigger intake.ready@[k]]
                    0 <= k < ready_at.len() ==> all[ready_at[k] as int].enters(
                        intake.ready@[k].queue@,
                        now,
                        intake.ready@[k],
                    ) && self.takes_in_at(
                        all[ready_at[k] as int],
                        ready_at[k] as int,
                        intake.ready@[k].queue@,
                    ),
                forall|k: int|
                    #![trigger intake.scheduled@[k]]
                    0 <= k < scheduled_at.len() ==> all[scheduled_at[k] as int].waits(
                        intake.scheduled@[k].queue@,
                        now,
                        intake.scheduled@[k],
                    ) && self.takes_in_at(
                        all[scheduled_at[k] as int],
                        scheduled_at[k] as int,
                        intake.scheduled@[k].queue@,
                    ),
        {
            assert(job == all[it.index()]);
            proof {
                select::lemma_selects_step(it.index(), available, ready_at);
                select::lemma_selects_step(it.index(), waiting, scheduled_at);
            }
            let queue = self.queue_stripe_for_enqueue(
                job.queue.as_str(),
                &job.unique_key,
                place as i64,
            );
            assert(self.takes_in_at(job, place as int, queue@));
            match intake_row(job, queue, now) {
                Ok(IntakeRow::Ready(row)) => {
                    intake.ready.push(row);
                    proof {
                        ready_at = ready_at.push(place);
                    }
                },
                Ok(IntakeRow::Scheduled(row)) => {
                    intake.scheduled.push(row);
                    proof {
                        scheduled_at = scheduled_at.push(place);
                    }
                },
                Err(err) => return Err(err),
            }
            place = place + 1;
        }
        assert(self.sorts_in(jobs@, now, intake, ready_at, scheduled_at));
        assert(self.is_intake(jobs@, now, intake));
        Ok(intake)
    }

    /// `row` is the load-test job with this number.
    pub open spec fn is_bench_row(
        &self,
        queue: Seq<char>,
        priority: i16,
        number: int,
        now: Timestamp,
        row: RuntimeReadyRow,
    ) -> bool {
        &&& row == (RuntimeReadyRow {
            kind: row.kind,
            queue: row.queue,
            args: row.args,
            priority,
            attempt: 0,
            run_lease: 0,
            max_attempts: 25,
            run_at: now,
            attempted_at: None,
            created_at: now,
            unique_key: None,
            unique_states: None,
            payload: row.payload,
            ordering_key: None,
        })
        &&& row.kind@ == "bench_job"@
        &&& row.queue@ == self.striped_queue(queue, None, number as i64)
        &&& json::node(row.args) matches JsonNode::Object(entries) && entries.dom() == set!["seq"@]
            && json::node(entries["seq"@]) == JsonNode::Int(number)
        &&& json::is_empty_object(row.payload)
    }

    /// The rows of a load test: `count` jobs, spread over the stripes of the
    /// queue in turn.
    pub fn bench_rows(&self, queue: &str, priority: i16, count: i64, now: Timestamp) -> (rows: Vec<
        RuntimeReadyRow,
    >)
        requires
            self.layout().queue_stripe_count <= i64::MAX,
        ensures
            count <= 0 ==> rows@.len() == 0,
            count > 0 ==> rows@.len() == count,
            forall|i: int|
                0 <= i < rows@.len() ==> self.is_bench_row(
                    queue@,
                    priority,
                    i,
                    now,
                    #[trigger] rows@[i],
                ),
    {
        let mut rows: Vec<RuntimeReadyRow> = Vec::new();
        let mut number: i64 = 0;
        while number < count
            invariant
                0 <= number,
                count > 0 ==> number <= count,
                count <= 0 ==> number == 0,
                rows@.len() == number,
                self.layout().queue_stripe_count <= i64::MAX,
                forall|i: int|
                    0 <= i < number ==> self.is_bench_row(
                        queue@,
                        priority,
                        i,
                        now,
                        #[trigger] rows@[i],
                    ),
            decreases count - number,
        {
            let mut args = json::map_new();
            json::map_insert(&mut args, "seq".to_owned(), json::int_value(number));
            let payload = RuntimePayload::initial().into_json();
            proof {
                payload::law_initial_payload_is_compact(payload);
            }
            let row = RuntimeReadyRow {
                kind: "bench_job".to_owned(),
                queue: self.queue_stripe_for_hash(queue, None, number),
                args: json::object_value(args),
                priority,
                attempt: 0,
                run_lease: 0,
                max_attempts: 25,
                run_at: now,
                attempted_at: None,
                created_at: now,
                unique_key: None,
                unique_states: None,
                payload,
                ordering_key: None,
            };
            assert(json::node(row.args)->Object_0.dom() =~= set!["seq"@]);
            rows.push(row);
            number = number + 1;
        }
        rows
    }
}

/// No job of a batch is lost or doubled on its way in: there are as many rows as
/// jobs.
pub proof fn law_every_job_is_taken_in(
    storage: &QueueStorage,
    jobs: Seq<PreparedJob>,
    now: Timestamp,
    intake: Intake,
)
    requires
        jobs.len() <= usize::MAX,
        forall|i: int| 0 <= i < jobs.len() ==> can_start((#[trigger] jobs[i]).state),
        storage.is_intake(jobs, now, intake),
    ensures
        intake.ready@.len() + intake.scheduled@.len() == jobs.len(),
{
    let (ready_at, scheduled_at) = choose|ready_at: Seq<usize>, scheduled_at: Seq<usize>|
        #[trigger] storage.sorts_in(jobs, now, intake, ready_at, scheduled_at);
    let available = |i: int| jobs[i].state == JobState::Available;
    let waiting = |i: int| jobs[i].state == JobState::Scheduled;
    assert forall|i: int|
        #![trigger available(i)]
        #![trigger waiting(i)]
        0 <= i < jobs.len() implies available(i) != waiting(i) by {
        assert(can_start(jobs[i].state));
    }
    select::law_selections_part(jobs.len() as int, available, waiting, ready_at, scheduled_at);
}

/// Gives scheduled rows their ids, in order; rows and ids are paired up as far
/// as both go.
pub fn assign_job_ids(rows: Vec<DeferredJobRow>, ids: &Vec<i64>) -> (out: Vec<DeferredJobRow>)
    ensures
        out@.len() == (if rows@.len() < ids@.len() {
            rows@.len()
        } else {
            ids@.len()
        }),
        forall|i: int|
            0 <= i < out@.len() ==> #[trigger] out@[i] == (DeferredJobRow {
                job_id: ids@[i],
                ..rows@[i]
            }),
{
    let ghost all = rows@;
    let mut out: Vec<DeferredJobRow> = Vec::new();
    let mut i: usize = 0;
    for row in it: rows
        invariant
            it.seq() == all,
            i == out@.len(),
            i <= ids@.len(),
            i == it.index() || (i == ids@.len() && i <= it.index()),
            forall|k: int|
                0 <= k < out@.len() ==> #[trigger] out@[k] == (DeferredJobRow {
                    job_id: ids@[k],
                    ..all[k]
                }),
    {
        assert(row == all[it.index()]);
        if i < ids.len() {
            let mut row = row;
            row.job_id = ids[i];
            out.push(row);
            i = i + 1;
        }
    }
    out
}

/// Parts the ids drawn for a batch: the ready rows get the first, the scheduled
/// rows the rest.
pub fn split_job_ids(ids: &Vec<i64>, ready: usize) -> (r: (Vec<i64>, Vec<i64>))
    requires
        ready <= ids@.len(),
    ensures
        r.0@ == ids@.subrange(0, ready as int),
        r.1@ == ids@.subrange(ready as int, ids@.len() as int),
{
    let mut first: Vec<i64> = Vec::new();
    let mut rest: Vec<i64> = Vec::new();
    let mut i: usize = 0;
    while i < ids.len()
        invariant
            i <= ids@.len(),
            ready <= ids@.len(),
            i <= ready ==> first@ == ids@.subrange(0, i as int) && rest@.len() == 0,
            i >= ready ==> first@ == ids@.subrange(0, ready as int) && rest@ == ids@.subrange(
                ready as int,
                i as int,
            ),
        decreases ids.len() - i,
    {
        if i < ready {
            first.push(ids[i]);
        } else {
            rest.push(ids[i]);
        }
        i = i + 1;
        proof {
            if i <= ready {
                assert(ids@.subrange(0, i as int) =~= ids@.subrange(0, i - 1).push(ids@[i - 1]));
                assert(ids@.subrange(ready as int, ready as int) =~= Seq::<i64>::empty());
            } else {
                assert(ids@.subrange(ready as int, i as int) =~= ids@.subrange(
                    ready as int,
                    i - 1,
                ).push(ids@[i - 1]));
            }
        }
    }
    (first, rest)
}

} // verus!
