//! A job as the engine shows it to its callers.
use crate::clock::Timestamp;
use crate::json;
use crate::order;
use crate::payload;
use crate::payload::PayloadView;
use serde_json::Value;
use vstd::prelude::*;
use vstd::string::*;

verus! {

/// The state of a job.
#[derive(Debug, Clone, Copy, PartialEq, Eq, Structural)]
pub enum JobState {
    Scheduled,
    Available,
    Running,
    Completed,
    Retryable,
    Failed,
    Cancelled,
    WaitingExternal,
}

impl JobState {
    /// The state's position in a unique-states bitmask.
    pub open spec fn bit(self) -> int {
        match self {
            JobState::Scheduled => 0,
            JobState::Available => 1,
            JobState::Running => 2,
            JobState::Completed => 3,
            JobState::Retryable => 4,
            JobState::Failed => 5,
            JobState::Cancelled => 6,
            JobState::WaitingExternal => 7,
        }
    }

    /// The state's position in a unique-states bitmask.
    pub fn bit_position(self) -> (r: u8)
        ensures
            r == self.bit(),
    {
        match self {
            JobState::Scheduled => 0,
            JobState::Available => 1,
            JobState::Running => 2,
            JobState::Completed => 3,
            JobState::Retryable => 4,
            JobState::Failed => 5,
            JobState::Cancelled => 6,
            JobState::WaitingExternal => 7,
        }
    }

    /// The state's name in the database.
    pub open spec fn label(self) -> Seq<char> {
        match self {
            JobState::Scheduled => "scheduled"@,
            JobState::Available => "available"@,
            JobState::Running => "running"@,
            JobState::Completed => "completed"@,
            JobState::Retryable => "retryable"@,
            JobState::Failed => "failed"@,
            JobState::Cancelled => "cancelled"@,
            JobState::WaitingExternal => "waiting_external"@,
        }
    }

    /// The state's name in the database.
    pub fn as_str(self) -> (r: &'static str)
        ensures
            r@ == self.label(),
    {
        match self {
            JobState::Scheduled => "scheduled",
            JobState::Available => "available",
            JobState::Running => "running",
            JobState::Completed => "completed",
            JobState::Retryable => "retryable",
            JobState::Failed => "failed",
            JobState::Cancelled => "cancelled",
            JobState::WaitingExternal => "waiting_external",
        }
    }

    /// The attempt is under way: a worker runs it, or it waits for a callback.
    pub open spec fn in_flight(self) -> bool {
        self == JobState::Running || self == JobState::WaitingExternal
    }

    pub open spec fn terminal(self) -> bool {
        self == JobState::Completed || self == JobState::Failed || self == JobState::Cancelled
    }

    /// Whether the attempt is under way.
    pub fn is_in_flight(self) -> (r: bool)
        ensures
            r == self.in_flight(),
    {
        match self {
            JobState::Running | JobState::WaitingExternal => true,
            _ => false,
        }
    }
}

/// How strongly a state counts when two facts about a job are equally recent:
/// attempts under way first, then deferred, ready, and terminal ones.
pub open spec fn rank_of_state(state: JobState) -> int {
    if state.in_flight() {
        4
    } else if state == JobState::Retryable || state == JobState::Scheduled {
        3
    } else if state == JobState::Available {
        2
    } else {
        1
    }
}

/// How strongly a state counts when two facts about a job are equally recent.
pub fn state_rank(state: JobState) -> (r: u8)
    ensures
        r == rank_of_state(state),
{
    match state {
        JobState::Running | JobState::WaitingExternal => 4,
        JobState::Retryable | JobState::Scheduled => 3,
        JobState::Available => 2,
        JobState::Completed | JobState::Failed | JobState::Cancelled => 1,
    }
}

/// A job as the engine shows it to its callers.
#[derive(Debug, Clone)]
pub struct JobRow {
    pub id: i64,
    pub kind: String,
    pub queue: String,
    pub args: Value,
    pub state: JobState,
    pub priority: i16,
    pub attempt: i16,
    pub run_lease: i64,
    pub max_attempts: i16,
    pub run_at: Timestamp,
    pub heartbeat_at: Option<Timestamp>,
    pub deadline_at: Option<Timestamp>,
    pub attempted_at: Option<Timestamp>,
    pub finalized_at: Option<Timestamp>,
    pub created_at: Timestamp,
    pub errors: Option<Vec<Value>>,
    pub metadata: Value,
    pub tags: Vec<String>,
    pub unique_key: Option<Vec<u8>>,
    pub unique_states: Option<String>,
    pub callback_id: Option<u128>,
    pub callback_timeout_at: Option<Timestamp>,
    pub callback_filter: Option<String>,
    pub callback_on_complete: Option<String>,
    pub callback_on_fail: Option<String>,
    pub callback_transform: Option<String>,
    pub progress: Option<Value>,
}

impl JobRow {
    /// The row shows exactly what the payload holds; an empty error history is
    /// shown as none.
    pub open spec fn shows(self, payload: PayloadView) -> bool {
        &&& json::node(self.metadata) == payload.metadata
        &&& payload::texts(self.tags@) == payload.tags
        &&& self.progress == payload.progress
        &&& match self.errors {
            Some(errors) => payload.errors.len() > 0 && errors@ == payload.errors,
            None => payload.errors.len() == 0,
        }
    }

    /// When the fact that the row reports came about: the first that is set of
    /// the end of the attempt, its last heartbeat, its deadline, its start, and
    /// the time from which the job may run.
    pub open spec fn transition(self) -> Timestamp {
        if self.finalized_at is Some {
            self.finalized_at->0
        } else if self.heartbeat_at is Some {
            self.heartbeat_at->0
        } else if self.deadline_at is Some {
            self.deadline_at->0
        } else if self.attempted_at is Some {
            self.attempted_at->0
        } else {
            self.run_at
        }
    }

    /// The sequence by which facts about one job are ordered, oldest first: the
    /// attempt's lease number, the time of the transition, the weight of the
    /// state.
    pub open spec fn recency(self) -> Seq<int> {
        seq![
            self.run_lease as int,
            self.transition().secs as int,
            self.transition().nanos as int,
            rank_of_state(self.state),
        ]
    }
}

/// When the fact that the row reports came about.
pub fn transition_timestamp(job: &JobRow) -> (r: Timestamp)
    ensures
        r == job.transition(),
{
    match job.finalized_at {
        Some(at) => at,
        None => match job.heartbeat_at {
            Some(at) => at,
            None => match job.deadline_at {
                Some(at) => at,
                None => match job.attempted_at {
                    Some(at) => at,
                    None => job.run_at,
                },
            },
        },
    }
}

/// Whether `a` is an older fact than `b`.
pub fn older_fact(a: &JobRow, b: &JobRow) -> (r: bool)
    ensures
        r == order::lex_lt(a.recency(), b.recency()),
{
    let at_a = transition_timestamp(a);
    let at_b = transition_timestamp(b);
    let rank_a: u8 = state_rank(a.state);
    let rank_b: u8 = state_rank(b.state);
    proof {
        order::lemma_lex_four(
            a.run_lease as int,
            at_a.secs as int,
            at_a.nanos as int,
            rank_a as int,
            b.run_lease as int,
            at_b.secs as int,
            at_b.nanos as int,
            rank_b as int,
        );
    }
    if a.run_lease != b.run_lease {
        a.run_lease < b.run_lease
    } else if at_a.secs != at_b.secs {
        at_a.secs < at_b.secs
    } else if at_a.nanos != at_b.nanos {
        at_a.nanos < at_b.nanos
    } else {
        rank_a < rank_b
    }
}

} // verus!
