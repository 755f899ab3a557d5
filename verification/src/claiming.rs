//! Claiming from a striped queue: which stripe is asked next and for how many
//! jobs; and the claimers that share a queue: how many, and on which slots.
use crate::clock;
use crate::clock::Span;
use crate::clock::Timestamp;
use crate::error;
use crate::error::AwaError;
use vstd::prelude::*;
use vstd::string::*;

verus! {

/// A claim of up to `max_batch` jobs over the stripes of a queue. It starts at
/// some stripe, goes round once, and asks each for what is still missing.
#[derive(Debug)]
pub struct ClaimSweep {
    stripes: usize,
    start: usize,
    asked: usize,
    max_batch: i64,
    claimed: usize,
}

impl ClaimSweep {
    #[verifier::type_invariant]
    spec fn wf(self) -> bool {
        &&& self.asked <= self.stripes
        &&& self.stripes > 0 ==> self.start < self.stripes
    }

    pub closed spec fn stripe_count(self) -> nat {
        self.stripes as nat
    }

    pub closed spec fn first(self) -> nat {
        self.start as nat
    }

    /// How many stripes have been asked.
    pub closed spec fn done(self) -> nat {
        self.asked as nat
    }

    pub closed spec fn limit(self) -> int {
        self.max_batch as int
    }

    /// How many jobs have been claimed.
    pub closed spec fn taken(self) -> nat {
        self.claimed as nat
    }

    /// There is a stripe left, and fewer jobs were claimed than wanted.
    pub open spec fn goes_on(self) -> bool {
        self.done() < self.stripe_count() && self.taken() < self.limit()
    }

    /// The stripe that is asked at this place of the round.
    pub open spec fn stripe_at(self, place: int) -> int {
        (self.first() + place) % self.stripe_count() as int
    }

    /// A claim over `stripes` stripes from `start` on.
    pub fn new(stripes: usize, start: usize, max_batch: i64) -> (r: ClaimSweep)
        requires
            stripes > 0 ==> start < stripes,
        ensures
            r.stripe_count() == stripes,
            r.first() == start,
            r.done() == 0,
            r.limit() == max_batch,
            r.taken() == 0,
    {
        ClaimSweep { stripes, start, asked: 0, max_batch, claimed: 0 }
    }

    /// The next stripe to ask, and for how many jobs.
    pub fn next(&self) -> (r: Option<(usize, i64)>)
        ensures
            match r {
                Some((stripe, wanted)) => {
                    &&& self.goes_on()
                    &&& stripe == self.stripe_at(self.done() as int)
                    &&& stripe < self.stripe_count()
                    &&& wanted == self.limit() - self.taken()
                    &&& wanted >= 1
                },
                None => !self.goes_on(),
            },
    {
        proof {
            use_type_invariant(self);
        }
        if self.asked >= self.stripes || self.claimed as i128 >= self.max_batch as i128 {
            return None;
        }
        let stripe: usize = if self.asked >= self.stripes - self.start {
            self.asked - (self.stripes - self.start)
        } else {
            self.start + self.asked
        };
        proof {
            let place = self.start + self.asked;
            let count = self.stripes as int;
            if place >= count {
                vstd::arithmetic::div_mod::lemma_mod_add_multiples_vanish(place - count, count);
                vstd::arithmetic::div_mod::lemma_small_mod((place - count) as nat, count as nat);
            } else {
                vstd::arithmetic::div_mod::lemma_small_mod(place as nat, count as nat);
            }
        }
        Some((stripe, self.max_batch - self.claimed as i64))
    }

    /// Books what the stripe gave.
    pub fn book(&mut self, claimed: usize)
        requires
            old(self).goes_on(),
            old(self).taken() + claimed <= usize::MAX,
        ensures
            final(self).stripe_count() == old(self).stripe_count(),
            final(self).first() == old(self).first(),
            final(self).limit() == old(self).limit(),
            final(self).done() == old(self).done() + 1,
            final(self).taken() == old(self).taken() + claimed,
    {
        proof {
            use_type_invariant(&*self);
        }
        *self = ClaimSweep {
            stripes: self.stripes,
            start: self.start,
            asked: self.asked + 1,
            max_batch: self.max_batch,
            claimed: self.claimed + claimed,
        };
    }

    /// Whether a failing stripe fails the claim: only when nothing has been
    /// claimed yet, since claimed jobs have to reach their worker.
    pub fn failure_is_fatal(&self) -> (r: bool)
        ensures
            r == (self.taken() == 0),
    {
        self.claimed == 0
    }
}

/// A round asks each stripe at most once: different places of the round are
/// different stripes.
pub proof fn law_round_asks_each_stripe_once(sweep: ClaimSweep, a: int, b: int)
    requires
        0 <= a < b < sweep.stripe_count(),
    ensures
        sweep.stripe_at(a) != sweep.stripe_at(b),
        0 <= sweep.stripe_at(a) < sweep.stripe_count(),
{
    let count = sweep.stripe_count() as int;
    let x = sweep.first() + a;
    let y = sweep.first() + b;
    vstd::arithmetic::div_mod::lemma_mod_bound(x, count);
    if x % count == y % count {
        vstd::arithmetic::div_mod::lemma_mod_equivalence(y, x, count);
        vstd::arithmetic::div_mod::lemma_small_mod((y - x) as nat, count as nat);
    }
}

/// A claim never takes more than was wanted, as long as no stripe gives more
/// than it is asked for.
pub proof fn law_claims_stay_within_limit(before: ClaimSweep, after: ClaimSweep, given: nat)
    requires
        before.goes_on(),
        given <= before.limit() - before.taken(),
        after.limit() == before.limit(),
        after.taken() == before.taken() + given,
    ensures
        after.taken() <= after.limit(),
{
}

/// Whether a claim is undone as a whole when a job of it cannot be read: a lease
/// without a deadline has nothing that would free it later.
pub fn undoes_unreadable(receipts: bool, deadline: Span) -> (r: bool)
    ensures
        r == (!receipts && deadline.total() == 0),
{
    !receipts && deadline.is_zero()
}

/// A claimer's lease on a slot of a queue.
#[derive(Debug, Clone, Copy, PartialEq, Eq, Structural)]
pub struct QueueClaimerLease {
    pub claimer_slot: i16,
    pub lease_epoch: i64,
}

/// How many claimers a queue should have.
#[derive(Debug, Clone, Copy, PartialEq, Eq, Structural)]
pub struct QueueClaimerState {
    pub target_claimers: i16,
}

/// A claimer's lease with the times that decide when it is refreshed.
#[derive(Debug, Clone, Copy, PartialEq, Eq, Structural)]
pub struct QueueClaimerLeaseRow {
    pub claimer_slot: i16,
    pub lease_epoch: i64,
    pub last_claimed_at: Timestamp,
    pub expires_at: Timestamp,
}

impl QueueClaimerLeaseRow {
    pub fn lease(self) -> (r: QueueClaimerLease)
        ensures
            r == (QueueClaimerLease {
                claimer_slot: self.claimer_slot,
                lease_epoch: self.lease_epoch,
            }),
    {
        QueueClaimerLease { claimer_slot: self.claimer_slot, lease_epoch: self.lease_epoch }
    }

    /// Half of the idle threshold has gone by since the last claim, or half of
    /// the lease's time at most is left. A span that the calendar arithmetic
    /// cannot carry counts as due.
    pub open spec fn due(self, now: Timestamp, lease_ttl: Span, idle_threshold: Span) -> bool {
        ||| !idle_threshold.halved().representable()
        ||| !lease_ttl.halved().representable()
        ||| self.is_idle(now, idle_threshold)
        ||| self.expires_at.le(clock::ahead(now, lease_ttl.halved()))
    }

    /// Half of the idle threshold has gone by since the last claim.
    pub open spec fn is_idle(self, now: Timestamp, idle_threshold: Span) -> bool {
        self.last_claimed_at.le(clock::behind(now, idle_threshold.halved()))
    }

    /// The calendar reaches the instants that the decision looks at. The second
    /// is looked at only for a lease that is not idle.
    pub open spec fn decidable(self, now: Timestamp, lease_ttl: Span, idle_threshold: Span) -> bool {
        &&& clock::reaches_before(now, idle_threshold.halved())
        &&& self.is_idle(now, idle_threshold) || clock::reaches_after(now, lease_ttl.halved())
    }

    /// Whether the lease is due for a refresh.
    pub fn needs_refresh(self, now: Timestamp, lease_ttl: Span, idle_threshold: Span) -> (r: bool)
        requires
            now.valid(),
            lease_ttl.wf(),
            idle_threshold.wf(),
            idle_threshold.halved().representable() && lease_ttl.halved().representable()
                ==> self.decidable(now, lease_ttl, idle_threshold),
        ensures
            r == self.due(now, lease_ttl, idle_threshold),
    {
        let idle = idle_threshold.half();
        let ttl = lease_ttl.half();
        if !idle.is_representable() || !ttl.is_representable() {
            return true;
        }
        match clock::checked_sub(now, idle) {
            Some(cutoff) => if self.last_claimed_at.at_or_before(cutoff) {
                return true;
            },
            None => {},
        }
        match clock::checked_add(now, ttl) {
            Some(horizon) => self.expires_at.at_or_before(horizon),
            None => false,
        }
    }
}

/// The milliseconds of an instant since the Unix epoch.
pub open spec fn millis_of(at: Timestamp) -> int {
    at.secs * 1000 + at.nanos as int / 1_000_000
}

/// How a claimer goes about getting a slot.
#[derive(Debug, Clone, Copy, PartialEq, Eq, Structural)]
pub struct AcquirePlan {
    /// Until when a lease taken now lasts.
    pub expires_at: Timestamp,
    /// A slot whose claimer has not claimed since may be taken over.
    pub idle_cutoff: Timestamp,
    /// The slot that is tried first.
    pub probe_start: i16,
}

/// The slot that an instance tries first: instances and instants spread over
/// the slots.
pub open spec fn first_probe(instance_id: u128, millis: i64, max_claimers: i16) -> int {
    if max_claimers > 1 {
        (instance_id ^ (millis as u128)) as int % max_claimers as int
    } else {
        0
    }
}

/// Plans how an instance gets a slot among `max_claimers`; there is none to get
/// when that is not positive.
pub fn plan_acquire(
    now: Timestamp,
    instance_id: u128,
    max_claimers: i16,
    lease_ttl: Span,
    idle_threshold: Span,
) -> (r: Result<Option<AcquirePlan>, AwaError>)
    requires
        now.valid(),
        lease_ttl.wf(),
        idle_threshold.wf(),
        max_claimers > 0 && lease_ttl.representable() ==> clock::reaches_after(now, lease_ttl),
        max_claimers > 0 && idle_threshold.representable() ==> clock::reaches_before(
            now,
            idle_threshold,
        ),
    ensures
        match r {
            Ok(None) => max_claimers <= 0,
            Ok(Some(plan)) => {
                &&& max_claimers > 0
                &&& lease_ttl.representable()
                &&& idle_threshold.representable()
                &&& plan.expires_at == clock::ahead(now, lease_ttl)
                &&& plan.idle_cutoff == clock::behind(now, idle_threshold)
                &&& plan.probe_start == first_probe(
                    instance_id,
                    millis_of(now) as i64,
                    max_claimers,
                )
                &&& 0 <= plan.probe_start < max_claimers
            },
            Err(err) => max_claimers > 0 && (if !lease_ttl.representable() {
                error::is_validation(
                    err,
                    "invalid claimer lease ttl"@ + ": "@ + clock::span_out_of_range_text(),
                )
            } else {
                !idle_threshold.representable() && error::is_validation(
                    err,
                    "invalid claimer idle threshold"@ + ": "@ + clock::span_out_of_range_text(),
                )
            }),
        },
{
    if max_claimers <= 0 {
        return Ok(None);
    }
    let expires_at = match clock::later(now, lease_ttl, "invalid claimer lease ttl") {
        Ok(at) => at,
        Err(err) => return Err(err),
    };
    let idle_cutoff = match clock::earlier(now, idle_threshold, "invalid claimer idle threshold") {
        Ok(at) => at,
        Err(err) => return Err(err),
    };
    let millis: i64 = now.secs * 1000 + (now.nanos / 1_000_000) as i64;
    let probe_start: i16 = if max_claimers > 1 {
        let mixed: u128 = instance_id ^ (millis as u128);
        (mixed % (max_claimers as u128)) as i16
    } else {
        0
    };
    Ok(Some(AcquirePlan { expires_at, idle_cutoff, probe_start }))
}

/// The slot that is tried at this place of a round over the slots.
pub open spec fn probe_at(probe_start: i16, offset: i16, max_claimers: i16) -> int {
    (probe_start + offset) % max_claimers as int
}

/// The slot that is tried at this place of a round over the slots.
pub fn probe_slot(probe_start: i16, offset: i16, max_claimers: i16) -> (slot: i16)
    requires
        0 <= probe_start < max_claimers,
        0 <= offset < max_claimers,
    ensures
        slot == probe_at(probe_start, offset, max_claimers),
        0 <= slot < max_claimers,
{
    let place: i32 = probe_start as i32 + offset as i32;
    let count: i32 = max_claimers as i32;
    let slot: i32 = place % count;
    slot as i16
}

/// A round over the slots tries each once.
pub proof fn law_round_tries_each_slot_once(probe_start: i16, a: i16, b: i16, max_claimers: i16)
    requires
        0 <= probe_start < max_claimers,
        0 <= a < b < max_claimers,
    ensures
        probe_at(probe_start, a, max_claimers) != probe_at(probe_start, b, max_claimers),
{
    let count = max_claimers as int;
    let x = probe_start + a;
    let y = probe_start + b;
    if x % count == y % count {
        vstd::arithmetic::div_mod::lemma_mod_equivalence(y, x, count);
        vstd::arithmetic::div_mod::lemma_small_mod((y - x) as nat, count as nat);
    }
}

/// A number of claimers brought into bounds: at least one, and no more than
/// allowed.
pub open spec fn bounded_claimers(target: i16, max_claimers: i16) -> i16 {
    let most: i16 = if max_claimers > 1 {
        max_claimers
    } else {
        1
    };
    if target < 1 {
        1
    } else if target > most {
        most
    } else {
        target
    }
}

/// Brings a number of claimers into bounds.
pub fn bound_claimers(target: i16, max_claimers: i16) -> (r: i16)
    ensures
        r == bounded_claimers(target, max_claimers),
{
    let most: i16 = if max_claimers > 1 {
        max_claimers
    } else {
        1
    };
    if target < 1 {
        1
    } else if target > most {
        most
    } else {
        target
    }
}

/// The backlog from which a queue wants four claimers, and the one from which
/// it wants two, given how many it has.
pub open spec fn claimer_thresholds(current: i16) -> (int, int) {
    if current >= 4 {
        (16, 4)
    } else if current >= 2 {
        (64, 2)
    } else {
        (32, 4)
    }
}

/// How many claimers a queue should have, given how many it has and how many
/// jobs are available.
pub open spec fn desired_claimers(current_target: Option<i16>, available: i64, max_claimers: i16) -> i16 {
    let current = bounded_claimers(
        match current_target {
            Some(target) => target,
            None => 1,
        },
        max_claimers,
    );
    let (four, two) = claimer_thresholds(current);
    if available >= four {
        bounded_claimers(4, max_claimers)
    } else if available >= two {
        bounded_claimers(2, max_claimers)
    } else {
        1
    }
}

/// Decides how many claimers a queue should have.
pub fn desired_queue_claimer_target(
    current_target: Option<i16>,
    available: i64,
    max_claimers: i16,
) -> (r: i16)
    ensures
        r == desired_claimers(current_target, available, max_claimers),
{
    let asked: i16 = match current_target {
        Some(target) => target,
        None => 1,
    };
    let current: i16 = bound_claimers(asked, max_claimers);
    let max_four: i16 = bound_claimers(4, max_claimers);
    let max_two: i16 = bound_claimers(2, max_claimers);
    if current >= 4 {
        if available >= 16 {
            max_four
        } else if available >= 4 {
            max_two
        } else {
            1
        }
    } else if current >= 2 {
        if available >= 64 {
            max_four
        } else if available >= 2 {
            max_two
        } else {
            1
        }
    } else {
        if available >= 32 {
            max_four
        } else if available >= 4 {
            max_two
        } else {
            1
        }
    }
}

/// The target stays within bounds, and more backlog never asks for fewer
/// claimers.
pub proof fn law_target_is_bounded_and_monotone(
    current_target: Option<i16>,
    less: i64,
    more: i64,
    max_claimers: i16,
)
    requires
        less <= more,
    ensures
        1 <= desired_claimers(current_target, less, max_claimers),
        desired_claimers(current_target, less, max_claimers) <= (if max_claimers > 1 {
            max_claimers
        } else {
            1
        }),
        desired_claimers(current_target, less, max_claimers) <= desired_claimers(
            current_target,
            more,
            max_claimers,
        ),
{
}

/// The target does not flap: a queue that a backlog brought to four claimers
/// keeps them at that backlog, and one that it brought to two does not drop to
/// one.
pub proof fn law_target_has_hysteresis(current_target: Option<i16>, available: i64, max_claimers: i16)
    requires
        desired_claimers(current_target, available, max_claimers) > 1,
    ensures
        ({
            let first = desired_claimers(current_target, available, max_claimers);
            let second = desired_claimers(Some(first), available, max_claimers);
            &&& second > 1
            &&& first >= 4 ==> second == first
        }),
{
}

/// The target to use after a round of the control loop: what was written, or,
/// when another instance wrote first, the target as it was read.
pub fn settle_claimer_target(
    current_target: Option<i16>,
    desired: i16,
    written: Option<i16>,
    max_claimers: i16,
) -> (r: i16)
    ensures
        r == bounded_claimers(
            match written {
                Some(target) => target,
                None => match current_target {
                    Some(target) => target,
                    None => desired,
                },
            },
            max_claimers,
        ),
{
    let target: i16 = match written {
        Some(target) => target,
        None => match current_target {
            Some(target) => target,
            None => desired,
        },
    };
    bound_claimers(target, max_claimers)
}

} // verus!
