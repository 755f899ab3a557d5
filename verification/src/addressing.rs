//! Where things are addressed: tables by their slots, queues by their stripes, jobs
//! by their shards and buckets, and listeners by their channels.

use crate::clock::Span;
use crate::distinct;
use crate::error::AwaError;
use crate::install::{install_lock_name, lane_lock_key, rebuild_lock_name};
use crate::names;
use crate::names::{
    child_name, child_relname, claim_batch_child_name, claim_child_name,
    claim_closure_batch_child_name, closure_child_name, done_child_name, lease_child_name,
    ready_child_name, ready_claim_attempt_batch_child_name, ready_segment_child_name,
    ready_tombstone_child_name, receipt_completion_batch_child_name,
    receipt_completion_tombstone_child_name, terminal_delta_child_name, validate_ident,
};
use crate::order;
use crate::routing;
use crate::routing::{
    ordering_key_hash64, shard_for_ordering_key, shard_for_rotor, stripe_for_hash, stripe_for_salt,
    terminal_counter_bucket,
};
use crate::storage;
use crate::storage::{QueueStorage, QueueStorageConfig};
use crate::text;
use crate::text::{i64_text, suffix_parses_as_usize, u64_text, usize_text};
use std::time::Duration;
use vstd::prelude::*;

verus! {

/// What a numeral says: the digits from the left, each ten times what comes after.
pub open spec fn numeral(digits: Seq<char>) -> nat
    decreases digits.len(),
{
    if digits.len() == 0 {
        0
    } else {
        numeral(digits.drop_last()) * 10 + (digits.last() as int - 48) as nat
    }
}

/// A numeral as it is usually written: digits, with no needless zero before them.
pub open spec fn is_numeral(digits: Seq<char>) -> bool {
    &&& digits.len() > 0
    &&& forall|i: int| 0 <= i < digits.len() ==> '0' <= (#[trigger] digits[i]) <= '9'
    &&& digits.len() > 1 ==> digits[0] != '0'
}

proof fn lemma_numeral(digits: Seq<char>)
    ensures
        numeral(digits) == text::decimal_value(digits),
    decreases digits.len(),
{
    if digits.len() > 0 {
        lemma_numeral(digits.drop_last());
    }
}

proof fn lemma_nat_text_is_numeral(n: nat)
    ensures
        is_numeral(text::nat_text(n)),
        numeral(text::nat_text(n)) == n,
        n > 0 ==> text::nat_text(n)[0] != '0',
    decreases n,
{
    lemma_numeral(text::nat_text(n));
    text::lemma_nat_text_value(n);
    if n >= 10 {
        lemma_nat_text_is_numeral(n / 10);
        let head = text::nat_text(n / 10);
        assert(text::nat_text(n) == head.push(text::digit_char((n % 10) as int)));
        assert(text::nat_text(n)[0] == head[0]);
        assert forall|i: int| 0 <= i < text::nat_text(n).len() implies '0' <= (
        #[trigger] text::nat_text(n)[i]) <= '9' by {
            if i < head.len() {
                assert(text::nat_text(n)[i] == head[i]);
            }
        }
    }
}

/// A number is written as a numeral that says it.
pub proof fn law_numbers_are_written_out(n: u64, m: usize, a: String, b: String)
    requires
        call_ensures(u64_text, (n,), a),
        call_ensures(usize_text, (m,), b),
    ensures
        is_numeral(a@),
        numeral(a@) == n,
        is_numeral(b@),
        numeral(b@) == m,
{
    lemma_nat_text_is_numeral(n as nat);
    lemma_nat_text_is_numeral(m as nat);
}

/// A number with a sign is written as the numeral of its size, after a minus where
/// it is below zero.
pub proof fn law_signed_numbers_are_written_out(n: i64, s: String)
    requires
        call_ensures(i64_text, (n,), s),
    ensures
        n >= 0 ==> is_numeral(s@) && numeral(s@) == n,
        n < 0 ==> s@.len() > 1 && s@[0] == '-' && is_numeral(s@.drop_first()) && numeral(
            s@.drop_first(),
        ) == -n,
{
    if n >= 0 {
        lemma_nat_text_is_numeral(n as nat);
    } else {
        lemma_nat_text_is_numeral((-n) as nat);
        assert(s@.drop_first() =~= text::nat_text((-n) as nat));
    }
}

/// What is written out is read as a number again.
pub proof fn law_written_numbers_are_read(n: usize, s: String, chars: Vec<char>, read: bool)
    requires
        call_ensures(usize_text, (n,), s),
        chars@ == s@,
        call_ensures(suffix_parses_as_usize, (&chars, 0usize), read),
    ensures
        read,
{
    text::lemma_usize_text_parses(n);
    assert(chars@.subrange(0, chars@.len() as int) =~= s@);
}

/// An identifier is a lower-case letter or an underscore, and then letters, digits
/// and underscores.
pub proof fn law_identifiers_are_plain(ident: &str, checked: Result<(), AwaError>)
    requires
        call_ensures(validate_ident, (ident,), checked),
    ensures
        checked is Ok <==> ident@.len() > 0 && !('0' <= ident@[0] <= '9') && forall|i: int|
            0 <= i < ident@.len() ==> 'a' <= (#[trigger] ident@[i]) <= 'z' || '0' <= ident@[i]
                <= '9' || ident@[i] == '_',
        checked matches Err(err) ==> err is Validation,
{
    if checked is Err && ident@.len() > 0 && !('0' <= ident@[0] <= '9') && (forall|i: int|
        0 <= i < ident@.len() ==> 'a' <= (#[trigger] ident@[i]) <= 'z' || '0' <= ident@[i] <= '9'
            || ident@[i] == '_') {
        assert(names::starts_ident(ident@[0]));
        assert forall|i: int| 1 <= i < ident@.len() implies names::continues_ident(
            #[trigger] ident@[i],
        ) by {}
        assert(names::is_ident(ident@));
    }
}

/// The name of a table's child in a slot: schema, table and slot, each told apart
/// from the next.
pub open spec fn names_child(
    name: Seq<char>,
    schema: Seq<char>,
    table: Seq<char>,
    slot: nat,
) -> bool {
    exists|digits: Seq<char>| #[trigger]
        is_numeral(digits) && numeral(digits) == slot && name == schema + "."@ + table + "_"@
            + digits
}

proof fn lemma_names_child(name: Seq<char>, schema: Seq<char>, table: Seq<char>, slot: nat)
    requires
        name == names::child_text(schema, table, slot),
    ensures
        names_child(name, schema, table, slot),
{
    lemma_nat_text_is_numeral(slot);
    assert(is_numeral(text::nat_text(slot)));
}

/// The children of a ready slot are those of the tables of ready rows and of what
/// is left of them.
pub proof fn law_queue_children_are_named(
    schema: &str,
    slot: usize,
    ready: String,
    attempts: String,
    done: String,
    tombstones: String,
    segments: String,
)
    requires
        call_ensures(ready_child_name, (schema, slot), ready),
        call_ensures(ready_claim_attempt_batch_child_name, (schema, slot), attempts),
        call_ensures(done_child_name, (schema, slot), done),
        call_ensures(ready_tombstone_child_name, (schema, slot), tombstones),
        call_ensures(ready_segment_child_name, (schema, slot), segments),
    ensures
        names_child(ready@, schema@, "ready_entries"@, slot as nat),
        names_child(attempts@, schema@, "ready_claim_attempt_batches"@, slot as nat),
        names_child(done@, schema@, "done_entries"@, slot as nat),
        names_child(tombstones@, schema@, "ready_tombstones"@, slot as nat),
        names_child(segments@, schema@, "ready_segments"@, slot as nat),
{
    lemma_names_child(ready@, schema@, "ready_entries"@, slot as nat);
    lemma_names_child(attempts@, schema@, "ready_claim_attempt_batches"@, slot as nat);
    lemma_names_child(done@, schema@, "done_entries"@, slot as nat);
    lemma_names_child(tombstones@, schema@, "ready_tombstones"@, slot as nat);
    lemma_names_child(segments@, schema@, "ready_segments"@, slot as nat);
}

/// The children of a ready slot that completions by receipt and counts write to.
pub proof fn law_completion_children_are_named(
    schema: &str,
    slot: usize,
    batches: String,
    tombstones: String,
    deltas: String,
)
    requires
        call_ensures(receipt_completion_batch_child_name, (schema, slot), batches),
        call_ensures(receipt_completion_tombstone_child_name, (schema, slot), tombstones),
        call_ensures(terminal_delta_child_name, (schema, slot), deltas),
    ensures
        names_child(batches@, schema@, "receipt_completion_batches"@, slot as nat),
        names_child(tombstones@, schema@, "receipt_completion_tombstones"@, slot as nat),
        names_child(deltas@, schema@, "queue_terminal_count_deltas"@, slot as nat),
{
    lemma_names_child(batches@, schema@, "receipt_completion_batches"@, slot as nat);
    lemma_names_child(tombstones@, schema@, "receipt_completion_tombstones"@, slot as nat);
    lemma_names_child(deltas@, schema@, "queue_terminal_count_deltas"@, slot as nat);
}

/// The children of a lease slot and of a claim slot.
pub proof fn law_attempt_children_are_named(
    schema: &str,
    slot: usize,
    leases: String,
    claims: String,
    claim_batches: String,
    closures: String,
    closure_batches: String,
)
    requires
        call_ensures(lease_child_name, (schema, slot), leases),
        call_ensures(claim_child_name, (schema, slot), claims),
        call_ensures(claim_batch_child_name, (schema, slot), claim_batches),
        call_ensures(closure_child_name, (schema, slot), closures),
        call_ensures(claim_closure_batch_child_name, (schema, slot), closure_batches),
    ensures
        names_child(leases@, schema@, "leases"@, slot as nat),
        names_child(claims@, schema@, "lease_claims"@, slot as nat),
        names_child(claim_batches@, schema@, "lease_claim_batches"@, slot as nat),
        names_child(closures@, schema@, "lease_claim_closures"@, slot as nat),
        names_child(closure_batches@, schema@, "lease_claim_closure_batches"@, slot as nat),
{
    lemma_names_child(leases@, schema@, "leases"@, slot as nat);
    lemma_names_child(claims@, schema@, "lease_claims"@, slot as nat);
    lemma_names_child(claim_batches@, schema@, "lease_claim_batches"@, slot as nat);
    lemma_names_child(closures@, schema@, "lease_claim_closures"@, slot as nat);
    lemma_names_child(closure_batches@, schema@, "lease_claim_closure_batches"@, slot as nat);
}

/// The name of a child is that of its relation, after the schema; two slots never
/// share a child.
pub proof fn law_child_is_its_relation_in_the_schema(
    schema: &str,
    table: &str,
    a: usize,
    b: usize,
    full: String,
    bare: String,
    other: String,
)
    requires
        call_ensures(child_name, (schema, table, a), full),
        call_ensures(child_relname, (table, a), bare),
        call_ensures(child_relname, (table, b), other),
    ensures
        full@ == schema@ + "."@ + bare@,
        a != b ==> bare@ != other@,
        names_child(full@, schema@, table@, a as nat),
{
    assert(full@ =~= schema@ + "."@ + bare@);
    lemma_names_child(full@, schema@, table@, a as nat);
    if bare@ == other@ {
        let lead = table@ + "_"@;
        assert(bare@.subrange(lead.len() as int, bare@.len() as int) =~= text::nat_text(a as nat));
        assert(other@.subrange(lead.len() as int, other@.len() as int) =~= text::nat_text(
            b as nat,
        ));
        text::lemma_nat_text_injective(a as nat, b as nat);
    }
}

/// A configuration is accepted exactly where each ring has slots enough, there is a
/// stripe, the schema is an identifier, and the schema `awa` has the usual shape;
/// it is then kept as it was given.
pub proof fn law_configuration_is_kept(
    config: QueueStorageConfig,
    made: Result<QueueStorage, AwaError>,
    ident: Result<(), AwaError>,
    schema: &str,
)
    requires
        schema@ == config.schema@,
        call_ensures(QueueStorage::new, (config,), made),
        call_ensures(validate_ident, (schema,), ident),
    ensures
        made is Ok <==> config.queue_slot_count >= 4 && config.lease_slot_count >= 2
            && config.claim_slot_count >= 2 && config.queue_stripe_count >= 1 && ident is Ok && (
        config.schema@ == "awa"@ ==> config.queue_slot_count == 16 && config.lease_slot_count == 8
            && config.claim_slot_count == 8 && config.lease_claim_receipts),
        made matches Ok(engine) ==> engine.layout() == config,
        made matches Err(err) ==> err is Validation,
{
}

/// What an engine tells of itself is its configuration.
pub proof fn law_engine_tells_its_configuration(
    engine: QueueStorage,
    schema: &str,
    slots: usize,
    queue_slots: usize,
    lease_slots: usize,
    claim_slots: usize,
    stripes: usize,
    receipts: bool,
    striped: bool,
)
    requires
        call_ensures(QueueStorage::schema, (&engine,), schema),
        call_ensures(QueueStorage::slot_count, (&engine,), slots),
        call_ensures(QueueStorage::queue_slot_count, (&engine,), queue_slots),
        call_ensures(QueueStorage::lease_slot_count, (&engine,), lease_slots),
        call_ensures(QueueStorage::claim_slot_count, (&engine,), claim_slots),
        call_ensures(QueueStorage::queue_stripe_count, (&engine,), stripes),
        call_ensures(QueueStorage::lease_claim_receipts, (&engine,), receipts),
        call_ensures(QueueStorage::uses_queue_striping, (&engine,), striped),
    ensures
        schema@ == engine.layout().schema@,
        slots == engine.layout().queue_slot_count,
        queue_slots == engine.layout().queue_slot_count,
        lease_slots == engine.layout().lease_slot_count,
        claim_slots == engine.layout().claim_slot_count,
        stripes == engine.layout().queue_stripe_count,
        receipts == engine.layout().lease_claim_receipts,
        striped <==> stripes > 1,
{
}

/// A lock timeout is taken over unless it is nothing, and changes nothing else.
pub proof fn law_lock_timeout_is_taken_over(
    engine: QueueStorage,
    timeout: Duration,
    span: Span,
    made: Result<QueueStorage, AwaError>,
)
    requires
        call_ensures(Span::from_duration, (timeout,), span),
        call_ensures(QueueStorage::with_prune_lock_timeout, (engine, timeout), made),
    ensures
        made is Ok <==> span.secs > 0 || span.nanos > 0,
        made matches Ok(changed) ==> {
            &&& changed.layout() == engine.layout()
            &&& forall|told: Span| #[trigger]
                call_ensures(QueueStorage::prune_lock_timeout, (&changed,), told) ==> told == span
        },
{
}

/// A schema that is there already has the usual shape and one stripe.
pub proof fn law_existing_schema_has_the_usual_shape(
    schema: String,
    name: &str,
    made: Result<QueueStorage, AwaError>,
    ident: Result<(), AwaError>,
)
    requires
        name@ == schema@,
        call_ensures(QueueStorage::from_existing_schema, (schema,), made),
        call_ensures(validate_ident, (name,), ident),
    ensures
        made is Ok <==> ident is Ok,
        made matches Ok(engine) ==> {
            &&& engine.layout().schema@ == schema@
            &&& engine.layout().queue_slot_count == 16
            &&& engine.layout().lease_slot_count == 8
            &&& engine.layout().claim_slot_count == 8
            &&& engine.layout().queue_stripe_count == 1
            &&& engine.layout().lease_claim_receipts
        },
{
}

/// The stripe of a queue is a queue of its own that leads back to it.
pub proof fn law_stripe_leads_back_to_its_queue(
    engine: QueueStorage,
    queue: &str,
    stripe: usize,
    physical: String,
    named: &str,
    is_stripe: bool,
    back: &str,
)
    requires
        engine.layout().queue_stripe_count > 1,
        call_ensures(QueueStorage::physical_queue_for_stripe, (&engine, queue, stripe), physical),
        named@ == physical@,
        call_ensures(QueueStorage::is_physical_stripe_queue, (&engine, named), is_stripe),
        call_ensures(QueueStorage::logical_queue_name, (&engine, named), back),
    ensures
        is_stripe,
        back@ == queue@,
        physical@ != queue@,
{
    storage::law_stripe_leads_back(queue@, stripe);
    reveal_strlit("#");
    assert(physical@.len() > queue@.len());
}

/// Without stripes every queue is itself.
pub proof fn law_queue_without_stripes_is_itself(
    engine: QueueStorage,
    queue: &str,
    hash: Option<u64>,
    salt: i64,
    logical: &str,
    is_stripe: bool,
    all: Vec<String>,
    striped: String,
)
    requires
        engine.layout().queue_stripe_count == 1,
        call_ensures(QueueStorage::logical_queue_name, (&engine, queue), logical),
        call_ensures(QueueStorage::is_physical_stripe_queue, (&engine, queue), is_stripe),
        call_ensures(QueueStorage::physical_queues_for_logical, (&engine, queue), all),
        call_ensures(QueueStorage::queue_stripe_for_hash, (&engine, queue, hash, salt), striped),
    ensures
        logical@ == queue@,
        !is_stripe,
        all@.len() == 1,
        all@[0]@ == queue@,
        striped@ == queue@,
{
}

/// The stripes of a queue are as many as the engine has, all different, and each
/// leads back to the queue; a stripe stands for itself.
pub proof fn law_queue_has_its_stripes(
    engine: QueueStorage,
    queue: &str,
    all: Vec<String>,
    i: int,
    j: int,
    named: &str,
    back: &str,
    is_stripe: bool,
)
    requires
        engine.layout().queue_stripe_count > 1,
        call_ensures(QueueStorage::physical_queues_for_logical, (&engine, queue), all),
        call_ensures(QueueStorage::is_physical_stripe_queue, (&engine, queue), is_stripe),
        0 <= i < all@.len(),
        0 <= j < all@.len(),
        i != j,
        named@ == all@[i]@,
        call_ensures(QueueStorage::logical_queue_name, (&engine, named), back),
    ensures
        !is_stripe,
        all@.len() == engine.layout().queue_stripe_count,
        back@ == queue@,
        all@[i]@ != all@[j]@,
{
    let args = (&engine, queue);
    assert(i <= usize::MAX && j <= usize::MAX);
    assert(all@[i]@ == storage::stripe_text(args.1@, i as nat));
    assert(all@[j]@ == storage::stripe_text(args.1@, j as nat));
    storage::law_stripe_leads_back(queue@, i as usize);
    storage::law_stripes_are_distinct(queue@, i as nat, j as nat);
}

/// A job is put on a stripe of its queue that the engine has, the same one for the
/// same key; a job that names a stripe stays on it.
pub proof fn law_jobs_of_a_key_share_a_stripe(
    engine: QueueStorage,
    queue: &str,
    hash: u64,
    one: i64,
    other: i64,
    a: String,
    b: String,
    is_stripe: bool,
)
    requires
        1 < engine.layout().queue_stripe_count <= i64::MAX,
        call_ensures(QueueStorage::queue_stripe_for_hash, (&engine, queue, Some(hash), one), a),
        call_ensures(QueueStorage::queue_stripe_for_hash, (&engine, queue, Some(hash), other), b),
        call_ensures(QueueStorage::is_physical_stripe_queue, (&engine, queue), is_stripe),
    ensures
        a@ == b@,
        is_stripe ==> a@ == queue@,
        !is_stripe ==> exists|stripe: nat|
            stripe < engine.layout().queue_stripe_count && a@ == #[trigger] storage::stripe_text(
                queue@,
                stripe,
            ),
{
    if !is_stripe {
        let stripe = ((hash as usize) % engine.layout().queue_stripe_count) as nat;
        assert(a@ == storage::stripe_text(queue@, stripe));
    }
}

/// Jobs without a key go round the stripes with their salt.
pub proof fn law_jobs_without_a_key_go_round(
    engine: QueueStorage,
    queue: &str,
    salt: i64,
    a: String,
    is_stripe: bool,
    stripe: usize,
    named: String,
)
    requires
        1 < engine.layout().queue_stripe_count <= i64::MAX,
        call_ensures(QueueStorage::queue_stripe_for_hash, (&engine, queue, None::<u64>, salt), a),
        call_ensures(QueueStorage::is_physical_stripe_queue, (&engine, queue), is_stripe),
        call_ensures(stripe_for_salt, (salt, engine.layout().queue_stripe_count), stripe),
        call_ensures(QueueStorage::physical_queue_for_stripe, (&engine, queue, stripe), named),
    ensures
        a@ == (if is_stripe {
            queue@
        } else {
            named@
        }),
{
}

/// The hash of an ordering key takes up one byte after the other.
pub proof fn law_key_hash_takes_up_bytes(key: &[u8], more: &[u8], byte: u8, one: u64, other: u64)
    requires
        more@ == key@.push(byte),
        call_ensures(ordering_key_hash64, (key,), one),
        call_ensures(ordering_key_hash64, (more,), other),
    ensures
        other == (one as int * 1_099_511_628_211 + byte as int) % 0x1_0000_0000_0000_0000,
        key@.len() == 0 ==> one == 14_695_981_039_346_656_037u64,
{
    assert(more@.drop_last() =~= key@);
    assert(more@.last() == byte);
}

/// Jobs of one ordering key share a shard, that of the key's hash.
pub proof fn law_jobs_of_a_key_share_a_shard(
    key: &[u8],
    shards: i16,
    hash: u64,
    shard: i16,
    again: i16,
)
    requires
        call_ensures(ordering_key_hash64, (key,), hash),
        call_ensures(shard_for_ordering_key, (key, shards), shard),
        call_ensures(shard_for_ordering_key, (key, shards), again),
    ensures
        shard == again,
        shards <= 1 ==> shard == 0,
        shards > 1 ==> 0 <= shard < shards && shard == hash as int % shards as int,
{
    routing::law_shard_in_range(key@, shards as int);
}

/// Jobs without an ordering key go round the shards.
pub proof fn law_rotor_goes_round_the_shards(raw: u16, shards: i16, shard: i16, next: i16)
    requires
        raw < u16::MAX,
        call_ensures(shard_for_rotor, (raw, shards), shard),
        call_ensures(shard_for_rotor, ((raw + 1) as u16, shards), next),
    ensures
        shards <= 1 ==> shard == 0,
        shards > 1 ==> 0 <= shard < shards && next == (if shard == shards - 1 {
            0
        } else {
            shard + 1
        }),
        raw == 0 ==> shard == 0,
{
    if shards > 1 {
        let n = shards as int;
        let r = raw as int;
        assert(0 <= r % n < n);
        vstd::arithmetic::div_mod::lemma_add_mod_noop(r, 1, n);
        if n > 1 {
            vstd::arithmetic::div_mod::lemma_small_mod(1, n as nat);
        }
        if r % n == n - 1 {
            vstd::arithmetic::div_mod::lemma_mod_self_0(n);
        } else {
            vstd::arithmetic::div_mod::lemma_small_mod((r % n + 1) as nat, n as nat);
        }
        if r == 0 {
            vstd::arithmetic::div_mod::lemma_small_mod(0, n as nat);
        }
    }
}

/// Terminal rows are counted in 256 buckets, by their ids in turn.
pub proof fn law_buckets_go_round(job_id: i64, bucket: i16, next: i16)
    requires
        job_id < i64::MAX,
        call_ensures(terminal_counter_bucket, (job_id,), bucket),
        call_ensures(terminal_counter_bucket, ((job_id + 1) as i64,), next),
    ensures
        0 <= bucket < 256,
        (job_id - bucket) % 256 == 0,
        next == (if bucket == 255 {
            0
        } else {
            bucket + 1
        }),
{
}

/// A stripe is one that there is, and for a salt the remainder of it.
pub proof fn law_stripes_are_those_there_are(
    hash: u64,
    salt: i64,
    stripes: usize,
    by_hash: usize,
    by_salt: usize,
)
    requires
        0 < stripes <= i64::MAX,
        call_ensures(stripe_for_hash, (hash, stripes), by_hash),
        call_ensures(stripe_for_salt, (salt, stripes), by_salt),
    ensures
        by_hash < stripes,
        by_salt < stripes,
        (salt - by_salt) % stripes as int == 0,
        hash < stripes ==> by_hash == hash,
{
    vstd::arithmetic::div_mod::lemma_fundamental_div_mod(salt as int, stripes as int);
    vstd::arithmetic::div_mod::lemma_mod_multiples_basic(
        salt as int / stripes as int,
        stripes as int,
    );
    assert(salt - by_salt == (salt as int / stripes as int) * stripes as int) by (nonlinear_arith)
        requires
            salt as int == stripes as int * (salt as int / stripes as int) + by_salt,
    ;
    if hash < stripes {
        vstd::arithmetic::div_mod::lemma_small_mod(hash as nat, stripes as nat);
    }
}

/// The listeners of a queue are told on its channel, whichever stripe the job is
/// on: every queue has its channel among them, and no channel is told twice.
pub proof fn law_every_queue_is_told(
    engine: QueueStorage,
    queues: Vec<String>,
    channels: Vec<String>,
    i: int,
    queue: &str,
    logical: &str,
    j: int,
    k: int,
)
    requires
        call_ensures(QueueStorage::notify_channels, (&engine, &queues), channels),
        0 <= i < queues@.len(),
        queue@ == queues@[i]@,
        call_ensures(QueueStorage::logical_queue_name, (&engine, queue), logical),
        0 <= j < k < channels@.len(),
    ensures
        exists|n: int|
            0 <= n < channels@.len() && (#[trigger] channels@[n])@ == "awa:"@ + logical@,
        channels@[j]@ != channels@[k]@,
{
    let args = (&engine, &queues);
    let channel = "awa:"@ + logical@;
    assert(args.0.channel(args.1@[i]@) == channel);
    assert(distinct::lists(channels@, channel));
    let n = choose|n: int| 0 <= n < channels@.len() && (#[trigger] channels@[n])@ == channel;
    assert(channels@[n]@ == "awa:"@ + logical@);
    order::lemma_lex_irreflexive(order::text_rank(channels@[k]@));
}

/// The relations of the engine are told by their own names, those of a slot with
/// the slot.
pub proof fn law_relations_are_told_by_name(
    engine: QueueStorage,
    slot: usize,
    ready: String,
    done: String,
    lease: String,
    leases: &str,
    claims: &str,
    closures: &str,
    state: &str,
)
    requires
        call_ensures(QueueStorage::ready_child_relname, (&engine, slot), ready),
        call_ensures(QueueStorage::done_child_relname, (&engine, slot), done),
        call_ensures(QueueStorage::leases_child_relname, (&engine, slot), lease),
        call_ensures(QueueStorage::leases_relname, (&engine,), leases),
        call_ensures(QueueStorage::lease_claims_relname, (&engine,), claims),
        call_ensures(QueueStorage::lease_claim_closures_relname, (&engine,), closures),
        call_ensures(QueueStorage::attempt_state_relname, (&engine,), state),
    ensures
        forall|name: String| #[trigger]
            call_ensures(child_relname, ("ready_entries", slot), name) ==> name@ == ready@,
        forall|name: String| #[trigger]
            call_ensures(child_relname, ("done_entries", slot), name) ==> name@ == done@,
        forall|name: String| #[trigger]
            call_ensures(child_relname, ("leases", slot), name) ==> name@ == lease@,
        leases@ == "leases"@,
        claims@ == "lease_claims"@,
        closures@ == "lease_claim_closures"@,
        state@ == "attempt_state"@,
{
}

/// The tables of the engine are those of its schema.
pub proof fn law_tables_are_in_the_schema(
    engine: QueueStorage,
    schema: &str,
    ids: String,
    leases: String,
    state: String,
)
    requires
        call_ensures(QueueStorage::schema, (&engine,), schema),
        call_ensures(QueueStorage::job_id_sequence, (&engine,), ids),
        call_ensures(QueueStorage::leases_table, (&engine,), leases),
        call_ensures(QueueStorage::attempt_state_table, (&engine,), state),
    ensures
        ids@ == schema@ + ".job_id_seq"@,
        leases@ == schema@ + ".leases"@,
        state@ == schema@ + ".attempt_state"@,
{
    reveal_strlit(".");
    reveal_strlit("leases");
    reveal_strlit(".leases");
    reveal_strlit("attempt_state");
    reveal_strlit(".attempt_state");
    assert(leases@ =~= schema@ + ".leases"@);
    assert(state@ =~= schema@ + ".attempt_state"@);
}

/// A lock on an installation is not one on a rebuild, and each schema has its own.
pub proof fn law_lock_names_are_apart(
    a: &str,
    b: &str,
    install: String,
    other_install: String,
    rebuild: String,
    other_rebuild: String,
)
    requires
        call_ensures(install_lock_name, (a,), install),
        call_ensures(install_lock_name, (b,), other_install),
        call_ensures(rebuild_lock_name, (a,), rebuild),
        call_ensures(rebuild_lock_name, (b,), other_rebuild),
    ensures
        a@ != b@ ==> install@ != other_install@ && rebuild@ != other_rebuild@,
        install@ != other_rebuild@,
        install@ == "awa.queue_storage.install:"@ + a@,
        rebuild@ == "awa.queue_storage.rebuild_terminal_counters:"@ + a@,
{
    let p = "awa.queue_storage.install:"@;
    let q = "awa.queue_storage.rebuild_terminal_counters:"@;
    assert((p + a@).subrange(p.len() as int, (p + a@).len() as int) =~= a@);
    assert((p + b@).subrange(p.len() as int, (p + b@).len() as int) =~= b@);
    assert((q + a@).subrange(q.len() as int, (q + a@).len() as int) =~= a@);
    assert((q + b@).subrange(q.len() as int, (q + b@).len() as int) =~= b@);
    reveal_strlit("awa.queue_storage.install:");
    reveal_strlit("awa.queue_storage.rebuild_terminal_counters:");
    assert(p[18] == 'i' && q[18] == 'r');
    assert((p + a@)[18] == 'i');
    assert((q + b@)[18] == 'r');
}

/// A lane's lock is keyed by its schema, queue, priority and shard, in this order.
pub proof fn law_lane_lock_names_the_lane(
    schema: &str,
    queue: &str,
    priority: i16,
    shard: i16,
    key: String,
    priority_text: String,
    shard_text: String,
)
    requires
        call_ensures(lane_lock_key, (schema, queue, priority, shard), key),
        call_ensures(i64_text, (priority as i64,), priority_text),
        call_ensures(i64_text, (shard as i64,), shard_text),
    ensures
        key@ == schema@ + ":"@ + queue@ + ":"@ + priority_text@ + ":"@ + shard_text@,
{
}

/// A configuration in a schema, or by default in `awa`, has the usual shape.
pub proof fn law_default_configuration_has_the_usual_shape(
    schema: String,
    config: QueueStorageConfig,
)
    requires
        call_ensures(QueueStorageConfig::in_schema, (schema,), config),
    ensures
        config.schema@ == schema@,
        config.queue_slot_count == 16,
        config.lease_slot_count == 8,
        config.claim_slot_count == 8,
        config.queue_stripe_count == 1,
        config.lease_claim_receipts,
{
}

/// A job goes to a stripe of its queue: by its salt where it has no key.
pub proof fn law_enqueued_job_goes_to_a_stripe(
    engine: QueueStorage,
    queue: &str,
    salt: i64,
    by_salt: String,
    plain: String,
    deadline: Duration,
    receipts: bool,
)
    requires
        engine.layout().queue_stripe_count <= i64::MAX,
        call_ensures(
            QueueStorage::queue_stripe_for_enqueue,
            (&engine, queue, &None::<Vec<u8>>, salt),
            by_salt,
        ),
        call_ensures(
            QueueStorage::queue_stripe_for_hash,
            (&engine, queue, None::<u64>, salt),
            plain,
        ),
        call_ensures(
            QueueStorage::use_lease_claim_receipts_for_runtime,
            (&engine, deadline),
            receipts,
        ),
    ensures
        by_salt@ == plain@,
        receipts == engine.layout().lease_claim_receipts,
{
}

/// A job with a key goes to a stripe of its queue that the engine has, or stays
/// where it named one.
pub proof fn law_keyed_job_goes_to_a_stripe(
    engine: QueueStorage,
    queue: &str,
    key: Vec<u8>,
    salt: i64,
    striped: String,
    named: &str,
    back: &str,
    logical: &str,
)
    requires
        engine.layout().queue_stripe_count <= i64::MAX,
        call_ensures(
            QueueStorage::queue_stripe_for_enqueue,
            (&engine, queue, &Some(key), salt),
            striped,
        ),
        named@ == striped@,
        call_ensures(QueueStorage::logical_queue_name, (&engine, named), back),
        call_ensures(QueueStorage::logical_queue_name, (&engine, queue), logical),
    ensures
        back@ == logical@ || back@ == queue@,
        engine.layout().queue_stripe_count <= 1 ==> striped@ == queue@,
{
    let args = (&engine, queue, &Some(key), salt);
    let hash = choose|hash: u64|
        striped@ == #[trigger] args.0.striped_queue(args.1@, Some(hash), args.3);
    assert(striped@ == engine.striped_queue(queue@, Some(hash), salt));
    let stripe = ((hash as usize) % engine.layout().queue_stripe_count) as nat;
    if engine.layout().queue_stripe_count > 1 {
        assert(stripe <= usize::MAX);
        storage::law_stripe_leads_back(queue@, stripe as usize);
    }
}

} // verus!
