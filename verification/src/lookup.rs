//! Finding a job: its latest fact among all that the storage holds.
use crate::error::AwaError;
use crate::job;
use crate::job::JobRow;
use crate::order;
use crate::payload;
use crate::rows::DeferredJobRow;
use crate::rows::DlqJobRow;
use crate::rows::DoneJobRow;
use crate::rows::LeaseJobRow;
use crate::rows::ReadyJobRow;
use serde_json::Value;
use vstd::prelude::*;

verus! {

/// A fact about a job, from one of the places that hold jobs.
#[derive(Debug)]
pub enum JobFact {
    Ready(ReadyJobRow),
    Deferred(DeferredJobRow),
    Lease(LeaseJobRow),
    Done(DoneJobRow),
    Dlq(DlqJobRow),
}

impl JobFact {
    pub open spec fn becomes(self, job: JobRow) -> bool {
        match self {
            JobFact::Ready(row) => row.becomes(job),
            JobFact::Deferred(row) => row.becomes(job),
            JobFact::Lease(row) => row.becomes(job),
            JobFact::Done(row) => row.becomes(job),
            JobFact::Dlq(row) => row.becomes(job),
        }
    }

    pub open spec fn stored(self) -> Value {
        match self {
            JobFact::Ready(row) => row.payload,
            JobFact::Deferred(row) => row.payload,
            JobFact::Lease(row) => row.payload,
            JobFact::Done(row) => row.payload,
            JobFact::Dlq(row) => row.payload,
        }
    }

    /// The fact as callers see it.
    pub fn into_job_row(self) -> (r: Result<JobRow, AwaError>)
        ensures
            match r {
                Ok(job) => payload::payload_readable(self.stored()) && self.becomes(job),
                Err(err) => !payload::payload_readable(self.stored())
                    && payload::is_payload_error(self.stored(), err),
            },
    {
        match self {
            JobFact::Ready(row) => row.into_job_row(),
            JobFact::Deferred(row) => row.into_job_row(),
            JobFact::Lease(row) => row.into_job_row(),
            JobFact::Done(row) => row.into_job_row(),
            JobFact::Dlq(row) => row.into_job_row(),
        }
    }
}

/// `jobs` are the facts as callers see them.
pub open spec fn shown_as(facts: Seq<JobFact>, jobs: Seq<JobRow>) -> bool {
    &&& jobs.len() == facts.len()
    &&& forall|i: int|
        0 <= i < facts.len() ==> payload::payload_readable(facts[i].stored()) && facts[i].becomes(
            #[trigger] jobs[i],
        )
}

/// `k` is the most recent of the facts, the last one among equals: by lease
/// number, then by the time of the transition, then by the weight of the state.
pub open spec fn is_latest(jobs: Seq<JobRow>, k: int) -> bool {
    &&& 0 <= k < jobs.len()
    &&& forall|j: int|
        #![trigger jobs[j]]
        0 <= j < k ==> !order::lex_lt(jobs[k].recency(), jobs[j].recency())
    &&& forall|j: int|
        #![trigger jobs[j]]
        k < j < jobs.len() ==> order::lex_lt(jobs[j].recency(), jobs[k].recency())
}

proof fn lemma_latest_step(jobs: Seq<JobRow>, k: int, next: JobRow)
    requires
        is_latest(jobs, k),
    ensures
        order::lex_lt(next.recency(), jobs[k].recency()) ==> is_latest(jobs.push(next), k),
        !order::lex_lt(next.recency(), jobs[k].recency()) ==> is_latest(
            jobs.push(next),
            jobs.len() as int,
        ),
{
    let more = jobs.push(next);
    if !order::lex_lt(next.recency(), jobs[k].recency()) {
        assert forall|j: int|
            #![trigger more[j]]
            0 <= j < jobs.len() implies !order::lex_lt(next.recency(), more[j].recency()) by {
            assert(more[j] == jobs[j]);
            if order::lex_lt(next.recency(), jobs[j].recency()) {
                if j > k {
                    order::lemma_lex_transitive(
                        next.recency(),
                        jobs[j].recency(),
                        jobs[k].recency(),
                    );
                } else if j < k {
                    order::lemma_lex_total(jobs[j].recency(), jobs[k].recency());
                    if jobs[j].recency() != jobs[k].recency() {
                        order::lemma_lex_transitive(
                            next.recency(),
                            jobs[j].recency(),
                            jobs[k].recency(),
                        );
                    }
                }
            }
        }
    }
}

/// Finds the latest fact about a job. A fact whose payload cannot be read fails
/// the lookup, with the error of the first one.
pub fn latest_job(facts: Vec<JobFact>) -> (r: Result<Option<JobRow>, AwaError>)
    ensures
        match r {
            Ok(None) => facts@.len() == 0,
            Ok(Some(job)) => exists|jobs: Seq<JobRow>, k: int| #[trigger]
                shown_as(facts@, jobs) && #[trigger] is_latest(jobs, k) && jobs[k] == job,
            Err(err) => exists|i: int|
                #![trigger facts@[i]]
                0 <= i < facts@.len() && !payload::payload_readable(facts@[i].stored())
                    && payload::is_payload_error(facts@[i].stored(), err) && forall|j: int|
                    #![trigger facts@[j]]
                    0 <= j < i ==> payload::payload_readable(facts@[j].stored()),
        },
{
    let ghost all = facts@;
    let ghost mut jobs: Seq<JobRow> = Seq::empty();
    let ghost mut at: int = 0;
    let mut latest: Option<JobRow> = None;
    for fact in it: facts
        invariant
            it.seq() == all,
            jobs.len() == it.index(),
            forall|i: int|
                0 <= i < it.index() ==> payload::payload_readable(all[i].stored())
                    && all[i].becomes(#[trigger] jobs[i]),
            forall|j: int|
                #![trigger all[j]]
                0 <= j < it.index() ==> payload::payload_readable(all[j].stored()),
            match latest {
                None => it.index() == 0,
                Some(job) => is_latest(jobs, at) && jobs[at] == job,
            },
    {
        assert(fact == all[it.index()]);
        let job = match fact.into_job_row() {
            Ok(job) => job,
            Err(err) => return Err(err),
        };
        let keep = match &latest {
            Some(best) => job::older_fact(&job, best),
            None => false,
        };
        proof {
            if latest is Some {
                lemma_latest_step(jobs, at, job);
            }
            jobs = jobs.push(job);
            if !keep {
                at = it.index();
            }
        }
        if !keep {
            latest = Some(job);
        }
    }
    assert(latest is Some ==> shown_as(all, jobs));
    Ok(latest)
}

/// A newer attempt outweighs anything known of an older one: facts under a
/// smaller lease number are never the latest.
pub proof fn law_newer_lease_wins(facts: Seq<JobFact>, jobs: Seq<JobRow>, k: int, j: int)
    requires
        shown_as(facts, jobs),
        is_latest(jobs, k),
        0 <= j < jobs.len(),
    ensures
        jobs[j].run_lease <= jobs[k].run_lease,
{
    if j != k {
        let a = jobs[j];
        let b = jobs[k];
        order::lemma_lex_four(
            b.run_lease as int,
            b.transition().secs as int,
            b.transition().nanos as int,
            job::rank_of_state(b.state),
            a.run_lease as int,
            a.transition().secs as int,
            a.transition().nanos as int,
            job::rank_of_state(a.state),
        );
        order::lemma_lex_four(
            a.run_lease as int,
            a.transition().secs as int,
            a.transition().nanos as int,
            job::rank_of_state(a.state),
            b.run_lease as int,
            b.transition().secs as int,
            b.transition().nanos as int,
            job::rank_of_state(b.state),
        );
    }
}

} // verus!
