//! The storage engine's configuration, and the names that follow from it.
use crate::clock::Span;
use crate::error;
use crate::error::AwaError;
use crate::lanes::Rotors;
use crate::names;
use crate::routing;
use crate::text;
use std::time::Duration;
use vstd::prelude::*;
use vstd::string::*;

verus! {

pub const DEFAULT_QUEUE_SLOT_COUNT: usize = 16;

pub const DEFAULT_LEASE_SLOT_COUNT: usize = 8;

pub const DEFAULT_CLAIM_SLOT_COUNT: usize = 8;

pub const DEFAULT_QUEUE_STRIPE_COUNT: usize = 1;

/// How the engine's tables are laid out.
#[derive(Debug)]
pub struct QueueStorageConfig {
    pub schema: String,
    pub queue_slot_count: usize,
    pub lease_slot_count: usize,
    /// How many partitions the claim ring has.
    pub claim_slot_count: usize,
    pub queue_stripe_count: usize,
    /// Keep claims as receipts, and materialize a lease only when an attempt
    /// needs mutable state.
    pub lease_claim_receipts: bool,
}

impl QueueStorageConfig {
    /// The layout that the default schema is installed with.
    pub open spec fn has_default_shape(self) -> bool {
        &&& self.queue_slot_count == 16
        &&& self.lease_slot_count == 8
        &&& self.claim_slot_count == 8
        &&& self.lease_claim_receipts
    }

    /// The layout can be installed.
    pub open spec fn acceptable(self) -> bool {
        &&& self.queue_slot_count >= 4
        &&& self.lease_slot_count >= 2
        &&& self.claim_slot_count >= 2
        &&& self.queue_stripe_count >= 1
        &&& self.schema@ == "awa"@ ==> self.has_default_shape()
        &&& names::is_ident(self.schema@)
    }

    /// The text of the error for a layout that cannot be installed: the first
    /// rule that it breaks.
    pub open spec fn objection(self) -> Seq<char> {
        if self.queue_slot_count < 4 {
            "queue storage requires at least 4 queue slots"@
        } else if self.lease_slot_count < 2 {
            "queue storage requires at least 2 lease slots"@
        } else if self.claim_slot_count < 2 {
            "queue storage requires at least 2 claim slots"@
        } else if self.queue_stripe_count == 0 {
            "queue storage requires at least 1 queue stripe"@
        } else if self.schema@ == "awa"@ && !self.has_default_shape() {
            "the default `awa` queue-storage schema must use the default slot counts and lease_claim_receipts=true"@
        } else {
            "invalid SQL identifier: "@ + self.schema@
        }
    }

    /// The default layout, in the given schema.
    pub fn in_schema(schema: String) -> (r: QueueStorageConfig)
        ensures
            r.schema == schema,
            r.has_default_shape(),
            r.queue_stripe_count == 1,
    {
        QueueStorageConfig {
            schema,
            queue_slot_count: DEFAULT_QUEUE_SLOT_COUNT,
            lease_slot_count: DEFAULT_LEASE_SLOT_COUNT,
            claim_slot_count: DEFAULT_CLAIM_SLOT_COUNT,
            queue_stripe_count: DEFAULT_QUEUE_STRIPE_COUNT,
            lease_claim_receipts: true,
        }
    }
}

impl Default for QueueStorageConfig {
    fn default() -> (r: Self)
        ensures
            r.schema@ == "awa"@,
            r.has_default_shape(),
            r.queue_stripe_count == 1,
    {
        QueueStorageConfig::in_schema("awa".to_owned())
    }
}

/// The position of the last stripe delimiter, or -1.
pub open spec fn last_delimiter(queue: Seq<char>) -> int
    decreases queue.len(),
{
    if queue.len() == 0 {
        -1
    } else if queue.last() == '#' {
        queue.len() - 1
    } else {
        last_delimiter(queue.drop_last())
    }
}

proof fn lemma_last_delimiter(queue: Seq<char>)
    ensures
        -1 <= last_delimiter(queue) < queue.len(),
        last_delimiter(queue) >= 0 ==> queue[last_delimiter(queue)] == '#',
        forall|i: int| last_delimiter(queue) < i < queue.len() ==> #[trigger] queue[i] != '#',
    decreases queue.len(),
{
    if queue.len() > 0 && queue.last() != '#' {
        let rest = queue.drop_last();
        lemma_last_delimiter(rest);
        assert forall|i: int| last_delimiter(queue) < i < queue.len() implies #[trigger] queue[i]
            != '#' by {
            if i < rest.len() {
                assert(queue[i] == rest[i]);
            }
        }
        if last_delimiter(rest) >= 0 {
            assert(queue[last_delimiter(rest)] == rest[last_delimiter(rest)]);
        }
    }
}

proof fn lemma_last_delimiter_is(queue: Seq<char>, at: int)
    requires
        0 <= at < queue.len(),
        queue[at] == '#',
        forall|i: int| at < i < queue.len() ==> #[trigger] queue[i] != '#',
    ensures
        last_delimiter(queue) == at,
{
    lemma_last_delimiter(queue);
}

/// The queue's name ends in a stripe: a delimiter and a number behind it.
pub open spec fn names_stripe(queue: Seq<char>) -> bool {
    let at = last_delimiter(queue);
    at >= 0 && text::parses_as_usize(queue.subrange(at + 1, queue.len() as int))
}

/// The queue's name without its stripe.
pub open spec fn without_stripe(queue: Seq<char>) -> Seq<char> {
    if names_stripe(queue) {
        queue.subrange(0, last_delimiter(queue))
    } else {
        queue
    }
}

/// The physical queue for a stripe of a logical one.
pub open spec fn stripe_text(queue: Seq<char>, stripe: nat) -> Seq<char> {
    queue + "#"@ + text::nat_text(stripe)
}

/// The name of a stripe leads back to its queue.
pub proof fn law_stripe_leads_back(queue: Seq<char>, stripe: usize)
    ensures
        names_stripe(stripe_text(queue, stripe as nat)),
        without_stripe(stripe_text(queue, stripe as nat)) == queue,
{
    let whole = stripe_text(queue, stripe as nat);
    let digits = text::nat_text(stripe as nat);
    reveal_strlit("#");
    text::lemma_nat_text_digits(stripe as nat);
    text::lemma_usize_text_parses(stripe);
    assert(whole[queue.len() as int] == '#');
    assert forall|i: int| queue.len() < i < whole.len() implies #[trigger] whole[i] != '#' by {
        assert(whole[i] == digits[i - queue.len() - 1]);
        assert(text::is_digit(digits[i - queue.len() - 1]));
    }
    lemma_last_delimiter_is(whole, queue.len() as int);
    assert(whole.subrange(queue.len() as int + 1, whole.len() as int) =~= digits);
    assert(whole.subrange(0, queue.len() as int) =~= queue);
}

/// Different stripes of one queue are different physical queues.
pub proof fn law_stripes_are_distinct(queue: Seq<char>, a: nat, b: nat)
    requires
        a != b,
    ensures
        stripe_text(queue, a) != stripe_text(queue, b),
{
    let head = queue + "#"@;
    let ta = stripe_text(queue, a);
    let tb = stripe_text(queue, b);
    if ta == tb {
        assert(text::nat_text(a) =~= ta.subrange(head.len() as int, ta.len() as int));
        assert(text::nat_text(b) =~= tb.subrange(head.len() as int, tb.len() as int));
        text::lemma_nat_text_injective(a, b);
    }
}

fn stripe_delimiter(queue: &str) -> (r: Option<usize>)
    ensures
        r matches Some(at) ==> names_stripe(queue@) && at == last_delimiter(queue@),
        r is None ==> !names_stripe(queue@),
{
    let chars = text::chars_of(queue);
    proof {
        lemma_last_delimiter(queue@);
    }
    let mut i: usize = chars.len();
    while i > 0 && chars[i - 1] != '#'
        invariant
            i <= chars@.len(),
            forall|k: int| i <= k < chars@.len() ==> #[trigger] chars@[k] != '#',
        decreases i,
    {
        i = i - 1;
    }
    if i == 0 {
        return None;
    }
    proof {
        lemma_last_delimiter_is(queue@, i - 1);
    }
    if text::suffix_parses_as_usize(&chars, i) {
        Some(i - 1)
    } else {
        None
    }
}

/// The segmented queue storage engine.
#[derive(Debug)]
pub struct QueueStorage {
    config: QueueStorageConfig,
    prune_lock_timeout: Span,
}

impl QueueStorage {
    #[verifier::type_invariant]
    spec fn valid(&self) -> bool {
        self.config.acceptable() && self.prune_lock_timeout.wf()
            && self.prune_lock_timeout.total() > 0
    }

    /// How the engine's tables are laid out.
    pub closed spec fn layout(&self) -> QueueStorageConfig {
        self.config
    }

    /// How long a prune waits for its table locks.
    pub closed spec fn lock_timeout(&self) -> Span {
        self.prune_lock_timeout
    }

    /// Accepts a layout that can be installed, and refuses any other with the
    /// first rule that it breaks.
    pub fn new(config: QueueStorageConfig) -> (r: Result<QueueStorage, AwaError>)
        ensures
            match r {
                Ok(storage) => {
                    &&& config.acceptable()
                    &&& storage.layout() == config
                    &&& storage.lock_timeout() == (Span { secs: 0, nanos: 10_000_000 })
                },
                Err(err) => !config.acceptable() && error::is_validation(err, config.objection()),
            },
    {
        if config.queue_slot_count < 4 {
            return Err(error::validation("queue storage requires at least 4 queue slots"));
        }
        if config.lease_slot_count < 2 {
            return Err(error::validation("queue storage requires at least 2 lease slots"));
        }
        if config.claim_slot_count < 2 {
            return Err(error::validation("queue storage requires at least 2 claim slots"));
        }
        if config.queue_stripe_count == 0 {
            return Err(error::validation("queue storage requires at least 1 queue stripe"));
        }
        if text::same_text(config.schema.as_str(), "awa") && (config.queue_slot_count
            != DEFAULT_QUEUE_SLOT_COUNT || config.lease_slot_count != DEFAULT_LEASE_SLOT_COUNT
            || config.claim_slot_count != DEFAULT_CLAIM_SLOT_COUNT
            || !config.lease_claim_receipts) {
            return Err(
                error::validation(
                    "the default `awa` queue-storage schema must use the default slot counts and lease_claim_receipts=true",
                ),
            );
        }
        match names::validate_ident(config.schema.as_str()) {
            Ok(()) => {},
            Err(err) => return Err(err),
        }
        Ok(
            QueueStorage {
                config,
                prune_lock_timeout: Span { secs: 0, nanos: 10_000_000 },
            },
        )
    }

    /// Sets how long a prune waits for its table locks; zero is refused.
    pub fn with_prune_lock_timeout(self, timeout: Duration) -> (r: Result<QueueStorage, AwaError>)
        ensures
            match r {
                Ok(storage) => {
                    &&& Span::of_duration(timeout).total() > 0
                    &&& storage.layout() == self.layout()
                    &&& storage.lock_timeout() == Span::of_duration(timeout)
                },
                Err(err) => Span::of_duration(timeout).total() == 0 && error::is_validation(
                    err,
                    "queue storage prune lock timeout must be greater than zero"@,
                ),
            },
    {
        let span = Span::from_duration(timeout);
        if span.is_zero() {
            return Err(
                error::validation("queue storage prune lock timeout must be greater than zero"),
            );
        }
        proof {
            use_type_invariant(&self);
        }
        Ok(
            QueueStorage {
                config: self.config,
                prune_lock_timeout: span,
            },
        )
    }

    /// The engine on a schema that was installed with the default layout.
    pub fn from_existing_schema(schema: String) -> (r: Result<QueueStorage, AwaError>)
        ensures
            match r {
                Ok(storage) => {
                    &&& names::is_ident(schema@)
                    &&& storage.layout().schema == schema
                    &&& storage.layout().has_default_shape()
                    &&& storage.layout().queue_stripe_count == 1
                    &&& storage.lock_timeout() == (Span { secs: 0, nanos: 10_000_000 })
                },
                Err(err) => !names::is_ident(schema@) && error::is_validation(
                    err,
                    "invalid SQL identifier: "@ + schema@,
                ),
            },
    {
        QueueStorage::new(QueueStorageConfig::in_schema(schema))
    }

    pub fn schema(&self) -> (r: &str)
        ensures
            r@ == self.layout().schema@,
    {
        self.config.schema.as_str()
    }

    pub fn slot_count(&self) -> (r: usize)
        ensures
            r == self.layout().queue_slot_count,
    {
        self.queue_slot_count()
    }

    pub fn queue_slot_count(&self) -> (r: usize)
        ensures
            r == self.layout().queue_slot_count,
    {
        self.config.queue_slot_count
    }

    pub fn lease_slot_count(&self) -> (r: usize)
        ensures
            r == self.layout().lease_slot_count,
    {
        self.config.lease_slot_count
    }

    pub fn claim_slot_count(&self) -> (r: usize)
        ensures
            r == self.layout().claim_slot_count,
    {
        self.config.claim_slot_count
    }

    pub fn queue_stripe_count(&self) -> (r: usize)
        ensures
            r == self.layout().queue_stripe_count,
            r >= 1,
    {
        proof {
            use_type_invariant(self);
        }
        self.config.queue_stripe_count
    }

    pub fn lease_claim_receipts(&self) -> (r: bool)
        ensures
            r == self.layout().lease_claim_receipts,
    {
        self.config.lease_claim_receipts
    }

    /// How long a prune waits for its table locks.
    pub fn prune_lock_timeout(&self) -> (r: Span)
        ensures
            r == self.lock_timeout(),
            r.wf(),
    {
        proof {
            use_type_invariant(self);
        }
        self.prune_lock_timeout
    }

    /// Queues are split into stripes.
    pub open spec fn striped(&self) -> bool {
        self.layout().queue_stripe_count > 1
    }

    pub fn uses_queue_striping(&self) -> (r: bool)
        ensures
            r == self.striped(),
    {
        self.queue_stripe_count() > 1
    }

    /// The name is that of a stripe, not of a logical queue.
    pub open spec fn physical(&self, queue: Seq<char>) -> bool {
        self.striped() && names_stripe(queue)
    }

    pub fn is_physical_stripe_queue(&self, queue: &str) -> (r: bool)
        ensures
            r == self.physical(queue@),
    {
        self.uses_queue_striping() && stripe_delimiter(queue).is_some()
    }

    pub fn physical_queue_for_stripe(&self, queue: &str, stripe: usize) -> (r: String)
        ensures
            r@ == stripe_text(queue@, stripe as nat),
    {
        queue.to_owned().concat("#").concat(text::usize_text(stripe).as_str())
    }

    /// The physical queues of a queue: all its stripes, or the queue itself
    /// when queues are not striped or the name is already that of a stripe.
    pub fn physical_queues_for_logical(&self, queue: &str) -> (r: Vec<String>)
        ensures
            !self.striped() || self.physical(queue@) ==> r@.len() == 1 && r@[0]@ == queue@,
            self.striped() && !self.physical(queue@) ==> {
                &&& r@.len() == self.layout().queue_stripe_count
                &&& forall|i: int|
                    0 <= i < r@.len() ==> (#[trigger] r@[i])@ == stripe_text(queue@, i as nat)
            },
    {
        let mut out: Vec<String> = Vec::new();
        if !self.uses_queue_striping() || self.is_physical_stripe_queue(queue) {
            out.push(queue.to_owned());
            return out;
        }
        let count: usize = self.queue_stripe_count();
        let mut stripe: usize = 0;
        while stripe < count
            invariant
                stripe <= count,
                out@.len() == stripe,
                forall|i: int|
                    0 <= i < stripe ==> (#[trigger] out@[i])@ == stripe_text(queue@, i as nat),
            decreases count - stripe,
        {
            out.push(self.physical_queue_for_stripe(queue, stripe));
            stripe = stripe + 1;
        }
        out
    }

    /// Where the next probe over `stripe_count` stripes starts: each probe takes
    /// its number, unless there is nothing to choose from.
    pub fn stripe_probe_start(&self, stripe_count: usize, rotors: &mut Rotors) -> (r: usize)
        ensures
            stripe_count <= 1 ==> r == 0 && *final(rotors) == *old(rotors),
            stripe_count > 1 ==> r == old(rotors).stripe_probe as int % stripe_count as int
                && *final(rotors) == old(rotors).after_probe(),
    {
        if stripe_count <= 1 {
            return 0;
        }
        rotors.next_probe() % stripe_count
    }

    /// The logical queue that a queue belongs to.
    pub open spec fn logical(&self, queue: Seq<char>) -> Seq<char> {
        if self.striped() {
            without_stripe(queue)
        } else {
            queue
        }
    }

    pub fn logical_queue_name<'a>(&self, queue: &'a str) -> (r: &'a str)
        ensures
            r@ == self.logical(queue@),
    {
        if !self.uses_queue_striping() {
            return queue;
        }
        match stripe_delimiter(queue) {
            Some(at) => {
                proof {
                    lemma_last_delimiter(queue@);
                }
                queue.substring_char(0, at)
            },
            None => queue,
        }
    }

    /// The physical queue that a job goes to, given the hash of its unique
    /// key, if it has one: the queue itself when queues are not striped or the
    /// name is already that of a stripe, else the stripe that the hash, or
    /// without a key the salt, picks.
    pub open spec fn striped_queue(
        &self,
        queue: Seq<char>,
        hash: Option<u64>,
        salt: i64,
    ) -> Seq<char> {
        let stripes = self.layout().queue_stripe_count;
        if !self.striped() || self.physical(queue) {
            queue
        } else {
            stripe_text(
                queue,
                match hash {
                    Some(h) => ((h as usize) % stripes) as nat,
                    None => (salt as int % stripes as int) as nat,
                },
            )
        }
    }

    /// The physical queue that a job goes to, given the hash of its unique key.
    pub fn queue_stripe_for_hash(&self, queue: &str, hash: Option<u64>, salt: i64) -> (r: String)
        requires
            self.layout().queue_stripe_count <= i64::MAX,
        ensures
            r@ == self.striped_queue(queue@, hash, salt),
    {
        if !self.uses_queue_striping() || self.is_physical_stripe_queue(queue) {
            return queue.to_owned();
        }
        let stripes: usize = self.queue_stripe_count();
        let stripe: usize = match hash {
            Some(h) => routing::stripe_for_hash(h, stripes),
            None => routing::stripe_for_salt(salt, stripes),
        };
        self.physical_queue_for_stripe(queue, stripe)
    }

    /// The physical queue that a job goes to. With a unique key the key's hash
    /// picks the stripe, whatever that hash is; without one the salt does.
    pub fn queue_stripe_for_enqueue(
        &self,
        queue: &str,
        unique_key: &Option<Vec<u8>>,
        salt: i64,
    ) -> (r: String)
        requires
            self.layout().queue_stripe_count <= i64::MAX,
        ensures
            unique_key is None ==> r@ == self.striped_queue(queue@, None, salt),
            unique_key is Some ==> exists|hash: u64|
                r@ == #[trigger] self.striped_queue(queue@, Some(hash), salt),
    {
        let hash: Option<u64> = match unique_key {
            Some(key) => Some(routing::unique_key_hash(key)),
            None => None,
        };
        self.queue_stripe_for_hash(queue, hash, salt)
    }

    /// The shard for the next batch to a queue with `shards` shards: the key's
    /// own shard, or without a key the one whose turn it is. A batch without a
    /// key takes its number, unless there is nothing to choose from.
    pub fn pick_shard(
        &self,
        shards: i16,
        ordering_key: Option<&[u8]>,
        rotors: &mut Rotors,
    ) -> (r: i16)
        ensures
            match ordering_key {
                Some(key) => r == routing::shard_of_key(key@, shards as int) && *final(rotors)
                    == *old(rotors),
                None => {
                    &&& r == routing::shard_of_rotor(old(rotors).shard_rotor, shards as int)
                    &&& *final(rotors) == (if shards > 1 {
                        old(rotors).after_picks(1)
                    } else {
                        *old(rotors)
                    })
                },
            },
    {
        match ordering_key {
            Some(key) => routing::shard_for_ordering_key(key, shards),
            None => {
                if shards <= 1 {
                    return 0;
                }
                routing::shard_for_rotor(rotors.next_pick(), shards)
            },
        }
    }

    /// Whether the runtime claims by receipt; the queue's deadline has no say
    /// in it.
    pub fn use_lease_claim_receipts_for_runtime(&self, _deadline_duration: Duration) -> (r: bool)
        ensures
            r == self.layout().lease_claim_receipts,
    {
        self.lease_claim_receipts()
    }

    pub fn ready_child_relname(&self, slot: usize) -> (r: String)
        ensures
            r@ == names::relname_text("ready_entries"@, slot as nat),
    {
        names::child_relname("ready_entries", slot)
    }

    pub fn done_child_relname(&self, slot: usize) -> (r: String)
        ensures
            r@ == names::relname_text("done_entries"@, slot as nat),
    {
        names::child_relname("done_entries", slot)
    }

    pub fn leases_relname(&self) -> (r: &'static str)
        ensures
            r@ == "leases"@,
    {
        "leases"
    }

    pub fn lease_claims_relname(&self) -> (r: &'static str)
        ensures
            r@ == "lease_claims"@,
    {
        "lease_claims"
    }

    pub fn lease_claim_closures_relname(&self) -> (r: &'static str)
        ensures
            r@ == "lease_claim_closures"@,
    {
        "lease_claim_closures"
    }

    pub fn leases_child_relname(&self, slot: usize) -> (r: String)
        ensures
            r@ == names::relname_text("leases"@, slot as nat),
    {
        names::child_relname("leases", slot)
    }

    pub fn attempt_state_relname(&self) -> (r: &'static str)
        ensures
            r@ == "attempt_state"@,
    {
        "attempt_state"
    }

    pub fn job_id_sequence(&self) -> (r: String)
        ensures
            r@ == self.layout().schema@ + ".job_id_seq"@,
    {
        self.schema().to_owned().concat(".job_id_seq")
    }

    pub fn leases_table(&self) -> (r: String)
        ensures
            r@ == self.layout().schema@ + "."@ + "leases"@,
    {
        self.schema().to_owned().concat(".").concat(self.leases_relname())
    }

    pub fn attempt_state_table(&self) -> (r: String)
        ensures
            r@ == self.layout().schema@ + "."@ + "attempt_state"@,
    {
        self.schema().to_owned().concat(".").concat(self.attempt_state_relname())
    }
}

} // verus!
