//! Identifiers and relation names.
use crate::error;
use crate::error::AwaError;
use crate::text;
use vstd::prelude::*;
use vstd::string::*;

verus! {

/// May start an identifier: a lower-case letter or an underscore.
pub open spec fn starts_ident(c: char) -> bool {
    'a' <= c <= 'z' || c == '_'
}

/// May continue an identifier: a lower-case letter, a digit, or an underscore.
pub open spec fn continues_ident(c: char) -> bool {
    'a' <= c <= 'z' || '0' <= c <= '9' || c == '_'
}

/// An identifier that SQL accepts without quotes and does not fold.
pub open spec fn is_ident(s: Seq<char>) -> bool {
    &&& s.len() > 0
    &&& starts_ident(s[0])
    &&& forall|i: int| 1 <= i < s.len() ==> continues_ident(#[trigger] s[i])
}

/// Accepts lower-case unquoted identifiers and refuses everything else.
pub fn validate_ident(ident: &str) -> (r: Result<(), AwaError>)
    ensures
        match r {
            Ok(()) => is_ident(ident@),
            Err(err) => !is_ident(ident@) && error::is_validation(
                err,
                "invalid SQL identifier: "@ + ident@,
            ),
        },
{
    let chars = text::chars_of(ident);
    let mut good = chars.len() > 0 && (('a' <= chars[0] && chars[0] <= 'z') || chars[0] == '_');
    let mut i: usize = 1;
    while good && i < chars.len()
        invariant
            1 <= i,
            good ==> chars@.len() > 0 && starts_ident(chars@[0]) && i <= chars@.len(),
            good ==> forall|k: int| 1 <= k < i ==> continues_ident(#[trigger] chars@[k]),
            !good ==> !is_ident(chars@),
        decreases chars.len() - i + (if good { 1int } else { 0int }),
    {
        let c = chars[i];
        if ('a' <= c && c <= 'z') || ('0' <= c && c <= '9') || c == '_' {
            i = i + 1;
        } else {
            assert(!continues_ident(chars@[i as int]));
            good = false;
        }
    }
    if good {
        Ok(())
    } else {
        Err(AwaError::Validation("invalid SQL identifier: ".to_owned().concat(ident)))
    }
}

/// The qualified name of a ring child: `schema.table_slot`.
pub open spec fn child_text(schema: Seq<char>, table: Seq<char>, slot: nat) -> Seq<char> {
    schema + "."@ + table + "_"@ + text::nat_text(slot)
}

/// The unqualified name of a ring child: `table_slot`.
pub open spec fn relname_text(table: Seq<char>, slot: nat) -> Seq<char> {
    table + "_"@ + text::nat_text(slot)
}

/// The unqualified name of a ring child.
pub fn child_relname(table: &str, slot: usize) -> (r: String)
    ensures
        r@ == relname_text(table@, slot as nat),
{
    table.to_owned().concat("_").concat(text::usize_text(slot).as_str())
}

/// The qualified name of a ring child.
pub fn child_name(schema: &str, table: &str, slot: usize) -> (r: String)
    ensures
        r@ == child_text(schema@, table@, slot as nat),
{
    schema.to_owned().concat(".").concat(table).concat("_").concat(text::usize_text(slot).as_str())
}

pub fn ready_child_name(schema: &str, slot: usize) -> (r: String)
    ensures
        r@ == child_text(schema@, "ready_entries"@, slot as nat),
{
    child_name(schema, "ready_entries", slot)
}

pub fn ready_claim_attempt_batch_child_name(schema: &str, slot: usize) -> (r: String)
    ensures
        r@ == child_text(schema@, "ready_claim_attempt_batches"@, slot as nat),
{
    child_name(schema, "ready_claim_attempt_batches", slot)
}

pub fn done_child_name(schema: &str, slot: usize) -> (r: String)
    ensures
        r@ == child_text(schema@, "done_entries"@, slot as nat),
{
    child_name(schema, "done_entries", slot)
}

pub fn ready_tombstone_child_name(schema: &str, slot: usize) -> (r: String)
    ensures
        r@ == child_text(schema@, "ready_tombstones"@, slot as nat),
{
    child_name(schema, "ready_tombstones", slot)
}

pub fn ready_segment_child_name(schema: &str, slot: usize) -> (r: String)
    ensures
        r@ == child_text(schema@, "ready_segments"@, slot as nat),
{
    child_name(schema, "ready_segments", slot)
}

pub fn receipt_completion_batch_child_name(schema: &str, slot: usize) -> (r: String)
    ensures
        r@ == child_text(schema@, "receipt_completion_batches"@, slot as nat),
{
    child_name(schema, "receipt_completion_batches", slot)
}

pub fn receipt_completion_tombstone_child_name(schema: &str, slot: usize) -> (r: String)
    ensures
        r@ == child_text(schema@, "receipt_completion_tombstones"@, slot as nat),
{
    child_name(schema, "receipt_completion_tombstones", slot)
}

pub fn terminal_delta_child_name(schema: &str, slot: usize) -> (r: String)
    ensures
        r@ == child_text(schema@, "queue_terminal_count_deltas"@, slot as nat),
{
    child_name(schema, "queue_terminal_count_deltas", slot)
}

pub fn lease_child_name(schema: &str, slot: usize) -> (r: String)
    ensures
        r@ == child_text(schema@, "leases"@, slot as nat),
{
    child_name(schema, "leases", slot)
}

pub fn claim_child_name(schema: &str, slot: usize) -> (r: String)
    ensures
        r@ == child_text(schema@, "lease_claims"@, slot as nat),
{
    child_name(schema, "lease_claims", slot)
}

pub fn claim_batch_child_name(schema: &str, slot: usize) -> (r: String)
    ensures
        r@ == child_text(schema@, "lease_claim_batches"@, slot as nat),
{
    child_name(schema, "lease_claim_batches", slot)
}

pub fn closure_child_name(schema: &str, slot: usize) -> (r: String)
    ensures
        r@ == child_text(schema@, "lease_claim_closures"@, slot as nat),
{
    child_name(schema, "lease_claim_closures", slot)
}

pub fn claim_closure_batch_child_name(schema: &str, slot: usize) -> (r: String)
    ensures
        r@ == child_text(schema@, "lease_claim_closure_batches"@, slot as nat),
{
    child_name(schema, "lease_claim_closure_batches", slot)
}

/// Within one schema and table, different slots have different children.
pub proof fn law_children_are_distinct(schema: Seq<char>, table: Seq<char>, a: nat, b: nat)
    requires
        a != b,
    ensures
        child_text(schema, table, a) != child_text(schema, table, b),
{
    let head = schema + "."@ + table + "_"@;
    if child_text(schema, table, a) == child_text(schema, table, b) {
        let ta = child_text(schema, table, a);
        let tb = child_text(schema, table, b);
        assert(text::nat_text(a) =~= ta.subrange(head.len() as int, ta.len() as int));
        assert(text::nat_text(b) =~= tb.subrange(head.len() as int, tb.len() as int));
        text::lemma_nat_text_injective(a, b);
    }
}

} // verus!
