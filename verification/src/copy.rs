//! The CSV text of `COPY ... FROM STDIN`: fields, rows, and chunks.
use crate::clock;
use crate::clock::Timestamp;
use crate::json;
use crate::outside;
use crate::payload;
use crate::rows::{DeferredJobRow, RuntimeReadyInsert};
use crate::text;
use serde_json::Value;
use vstd::prelude::*;
use vstd::string::*;
use vstd::utf8::*;

verus! {

pub const COPY_CHUNK_TARGET_BYTES: usize = 256 * 1024;

/// The text that stands for SQL null.
pub open spec fn null_sentinel() -> Seq<u8> {
    encode_utf8("__AWA_NULL__"@)
}

/// A byte that cannot stand in an unquoted field.
pub open spec fn is_special(b: u8) -> bool {
    b == 0x2cu8 || b == 0x22u8 || b == 0x0au8 || b == 0x0du8 || b == 0x5cu8
}

/// The field has to be quoted: it holds a comma, a quote, a line break, or a
/// backslash, or could be taken for null.
pub open spec fn needs_quotes(value: Seq<u8>) -> bool {
    value == null_sentinel() || exists|i: int| 0 <= i < value.len() && is_special(#[trigger] value[i])
}

/// Every quote doubled.
pub open spec fn doubled(value: Seq<u8>) -> Seq<u8>
    decreases value.len(),
{
    if value.len() == 0 {
        Seq::empty()
    } else if value.last() == 0x22u8 {
        doubled(value.drop_last()).push(0x22u8).push(0x22u8)
    } else {
        doubled(value.drop_last()).push(value.last())
    }
}

/// The CSV text of a field.
pub open spec fn copy_field(value: Seq<u8>) -> Seq<u8> {
    if needs_quotes(value) {
        seq![0x22u8] + doubled(value) + seq![0x22u8]
    } else {
        value
    }
}

/// The CSV text of a field given as characters.
pub open spec fn copy_text(value: Seq<char>) -> Seq<u8> {
    copy_field(encode_utf8(value))
}

fn append_bytes(buf: &mut Vec<u8>, bytes: &[u8])
    ensures
        final(buf)@ == old(buf)@ + bytes@,
{
    let ghost before = buf@;
    let mut i: usize = 0;
    while i < bytes.len()
        invariant
            i <= bytes@.len(),
            buf@ == before + bytes@.subrange(0, i as int),
        decreases bytes.len() - i,
    {
        buf.push(bytes[i]);
        i = i + 1;
        assert(bytes@.subrange(0, i as int) =~= bytes@.subrange(0, i as int - 1).push(bytes@[i - 1]));
    }
    assert(bytes@.subrange(0, bytes@.len() as int) =~= bytes@);
}

fn same_slice(a: &[u8], b: &[u8]) -> (r: bool)
    ensures
        r == (a@ == b@),
{
    if a.len() != b.len() {
        return false;
    }
    let mut i: usize = 0;
    while i < a.len()
        invariant
            i <= a@.len(),
            a@.len() == b@.len(),
            forall|k: int| 0 <= k < i ==> a@[k] == b@[k],
        decreases a.len() - i,
    {
        if a[i] != b[i] {
            return false;
        }
        i = i + 1;
    }
    assert(a@ =~= b@);
    true
}

fn has_special(bytes: &[u8]) -> (r: bool)
    ensures
        r == (exists|i: int| 0 <= i < bytes@.len() && is_special(#[trigger] bytes@[i])),
{
    let mut i: usize = 0;
    while i < bytes.len()
        invariant
            i <= bytes@.len(),
            forall|k: int| 0 <= k < i ==> !is_special(#[trigger] bytes@[k]),
        decreases bytes.len() - i,
    {
        let b = bytes[i];
        if b == 0x2cu8 || b == 0x22u8 || b == 0x0au8 || b == 0x0du8 || b == 0x5cu8 {
            assert(is_special(bytes@[i as int]));
            return true;
        }
        i = i + 1;
    }
    false
}

/// Appends a field.
pub fn write_copy_field(buf: &mut Vec<u8>, value: &str)
    ensures
        final(buf)@ == old(buf)@ + copy_text(value@),
{
    let bytes = value.as_bytes();
    let ghost before = buf@;
    if has_special(bytes) || same_slice(bytes, "__AWA_NULL__".as_bytes()) {
        buf.push(0x22u8);
        let mut i: usize = 0;
        while i < bytes.len()
            invariant
                i <= bytes@.len(),
                buf@ == before + seq![0x22u8] + doubled(bytes@.subrange(0, i as int)),
            decreases bytes.len() - i,
        {
            let b = bytes[i];
            proof {
                let next = bytes@.subrange(0, i as int + 1);
                assert(next.drop_last() =~= bytes@.subrange(0, i as int));
                assert(next.last() == b);
            }
            if b == 0x22u8 {
                buf.push(0x22u8);
            }
            buf.push(b);
            i = i + 1;
        }
        assert(bytes@.subrange(0, bytes@.len() as int) =~= bytes@);
        buf.push(0x22u8);
        assert(buf@ =~= before + (seq![0x22u8] + doubled(bytes@) + seq![0x22u8]));
    } else {
        append_bytes(buf, bytes);
    }
}

/// A field that reads as null.
pub open spec fn null_field() -> Seq<u8> {
    null_sentinel()
}

fn write_null(buf: &mut Vec<u8>)
    ensures
        final(buf)@ == old(buf)@ + null_field(),
{
    append_bytes(buf, "__AWA_NULL__".as_bytes());
}

/// The text of a number as a field; it never needs quotes.
pub open spec fn number_field(n: int) -> Seq<u8> {
    encode_utf8(text::int_text(n))
}

fn write_number(buf: &mut Vec<u8>, n: i64)
    ensures
        final(buf)@ == old(buf)@ + number_field(n as int),
{
    let digits = text::i64_text(n);
    append_bytes(buf, digits.as_str().as_bytes());
}

pub open spec fn json_field(value: Value) -> Seq<u8> {
    copy_text(json::text(value))
}

/// Appends a JSON field.
pub fn write_copy_json(buf: &mut Vec<u8>, value: &Value)
    ensures
        final(buf)@ == old(buf)@ + json_field(*value),
{
    let json = json::to_text(value);
    write_copy_field(buf, json.as_str());
}

/// A payload field: null for a payload that is not worth storing.
pub open spec fn payload_field(value: Value) -> Seq<u8> {
    if payload::storage_payload_empty(value) {
        null_field()
    } else {
        json_field(value)
    }
}

/// Appends a payload field.
pub fn write_copy_storage_payload(buf: &mut Vec<u8>, value: &Value)
    ensures
        final(buf)@ == old(buf)@ + payload_field(*value),
{
    match payload::storage_payload(value) {
        Some(value) => write_copy_json(buf, value),
        None => write_null(buf),
    }
}

pub open spec fn datetime_field(at: Timestamp) -> Seq<u8> {
    copy_text(clock::rfc3339_text(at.secs, at.nanos))
}

/// Appends a timestamp field.
pub fn write_copy_datetime(buf: &mut Vec<u8>, value: Timestamp)
    requires
        value.valid(),
    ensures
        final(buf)@ == old(buf)@ + datetime_field(value),
{
    let at = clock::timestamp_rfc3339(value);
    write_copy_field(buf, at.as_str());
}

pub open spec fn optional_datetime_field(value: Option<Timestamp>) -> Seq<u8> {
    match value {
        Some(at) => datetime_field(at),
        None => null_field(),
    }
}

pub open spec fn optional_valid(value: Option<Timestamp>) -> bool {
    value matches Some(at) ==> at.valid()
}

/// Appends a timestamp field that may be null.
pub fn write_copy_optional_datetime(buf: &mut Vec<u8>, value: Option<Timestamp>)
    requires
        optional_valid(value),
    ensures
        final(buf)@ == old(buf)@ + optional_datetime_field(value),
{
    match value {
        Some(at) => write_copy_datetime(buf, at),
        None => write_null(buf),
    }
}

/// A byte string as a field: `\x` and its hexadecimal digits.
pub open spec fn optional_bytes_field(value: Option<Vec<u8>>) -> Seq<u8> {
    match value {
        Some(bytes) => copy_text("\\x"@ + outside::hex_text(bytes@)),
        None => null_field(),
    }
}

/// Appends a byte-string field that may be null.
pub fn write_copy_optional_bytes(buf: &mut Vec<u8>, value: &Option<Vec<u8>>)
    ensures
        final(buf)@ == old(buf)@ + optional_bytes_field(*value),
{
    match value {
        Some(bytes) => {
            let hex = "\\x".to_owned().concat(outside::hex_encode(bytes).as_str());
            write_copy_field(buf, hex.as_str());
        },
        None => write_null(buf),
    }
}

pub open spec fn optional_text_field(value: Option<String>) -> Seq<u8> {
    match value {
        Some(s) => copy_text(s@),
        None => null_field(),
    }
}

/// Appends a text field that may be null.
pub fn write_copy_optional_string(buf: &mut Vec<u8>, value: &Option<String>)
    ensures
        final(buf)@ == old(buf)@ + optional_text_field(*value),
{
    match value {
        Some(s) => write_copy_field(buf, s.as_str()),
        None => write_null(buf),
    }
}

/// Fields separated by commas.
pub open spec fn joined(fields: Seq<Seq<u8>>) -> Seq<u8>
    decreases fields.len(),
{
    if fields.len() == 0 {
        Seq::empty()
    } else if fields.len() == 1 {
        fields[0]
    } else {
        joined(fields.drop_last()) + seq![0x2cu8] + fields.last()
    }
}

/// The fields of a ready row.
pub open spec fn ready_fields(
    ready_slot: i32,
    ready_generation: i64,
    row: RuntimeReadyInsert,
) -> Seq<Seq<u8>> {
    seq![
        number_field(ready_slot as int),
        number_field(ready_generation as int),
        number_field(row.job_id as int),
        copy_text(row.kind@),
        copy_text(row.queue@),
        json_field(row.args),
        number_field(row.priority as int),
        number_field(row.attempt as int),
        number_field(row.run_lease as int),
        number_field(row.max_attempts as int),
        number_field(row.lane_seq as int),
        number_field(row.enqueue_shard as int),
        datetime_field(row.run_at),
        optional_datetime_field(row.attempted_at),
        datetime_field(row.created_at),
        optional_bytes_field(row.unique_key),
        optional_text_field(row.unique_states),
        payload_field(row.payload),
    ]
}

/// The fields of a deferred row.
pub open spec fn deferred_fields(row: DeferredJobRow) -> Seq<Seq<u8>> {
    seq![
        number_field(row.job_id as int),
        copy_text(row.kind@),
        copy_text(row.queue@),
        json_field(row.args),
        copy_text(row.state.label()),
        number_field(row.priority as int),
        number_field(row.attempt as int),
        number_field(row.run_lease as int),
        number_field(row.max_attempts as int),
        datetime_field(row.run_at),
        optional_datetime_field(row.attempted_at),
        optional_datetime_field(row.finalized_at),
        datetime_field(row.created_at),
        optional_bytes_field(row.unique_key),
        optional_text_field(row.unique_states),
        payload_field(row.payload),
    ]
}

/// A line of CSV text.
pub open spec fn line(fields: Seq<Seq<u8>>) -> Seq<u8> {
    joined(fields).push(0x0au8)
}

/// The text so far is `base` followed by the first `n` fields.
spec fn written(base: Seq<u8>, fields: Seq<Seq<u8>>, n: int, buf: Seq<u8>) -> bool {
    buf == base + joined(fields.subrange(0, n))
}

proof fn lemma_written_first(base: Seq<u8>, fields: Seq<Seq<u8>>, buf: Seq<u8>)
    requires
        fields.len() > 0,
        buf == base + fields[0],
    ensures
        written(base, fields, 1, buf),
{
    assert(fields.subrange(0, 1)[0] == fields[0]);
}

proof fn lemma_written_next(
    base: Seq<u8>,
    fields: Seq<Seq<u8>>,
    n: int,
    before: Seq<u8>,
    after: Seq<u8>,
)
    requires
        0 < n < fields.len(),
        written(base, fields, n, before),
        after == before.push(0x2cu8) + fields[n],
    ensures
        written(base, fields, n + 1, after),
{
    let next = fields.subrange(0, n + 1);
    assert(next.drop_last() =~= fields.subrange(0, n));
    assert(next.last() == fields[n]);
    assert(after =~= base + joined(next));
}

proof fn lemma_written_all(base: Seq<u8>, fields: Seq<Seq<u8>>, before: Seq<u8>, after: Seq<u8>)
    requires
        written(base, fields, fields.len() as int, before),
        after == before.push(0x0au8),
    ensures
        after == base + line(fields),
{
    assert(fields.subrange(0, fields.len() as int) =~= fields);
    assert(after =~= base + line(fields));
}

/// Appends a ready row.
pub fn write_ready_copy_row(
    buf: &mut Vec<u8>,
    ready_slot: i32,
    ready_generation: i64,
    row: &RuntimeReadyInsert,
)
    requires
        row.run_at.valid(),
        row.created_at.valid(),
        optional_valid(row.attempted_at),
    ensures
        final(buf)@ == old(buf)@ + line(ready_fields(ready_slot, ready_generation, *row)),
{
    let ghost base = buf@;
    let ghost fields = ready_fields(ready_slot, ready_generation, *row);
    write_number(buf, ready_slot as i64);
    proof {
        lemma_written_first(base, fields, buf@);
    }
    let ghost so_far = buf@;
    buf.push(0x2cu8);
    write_number(buf, ready_generation);
    proof {
        lemma_written_next(base, fields, 1, so_far, buf@);
    }
    let ghost so_far = buf@;
    buf.push(0x2cu8);
    write_number(buf, row.job_id);
    proof {
        lemma_written_next(base, fields, 2, so_far, buf@);
    }
    let ghost so_far = buf@;
    buf.push(0x2cu8);
    write_copy_field(buf, row.kind.as_str());
    proof {
        lemma_written_next(base, fields, 3, so_far, buf@);
    }
    let ghost so_far = buf@;
    buf.push(0x2cu8);
    write_copy_field(buf, row.queue.as_str());
    proof {
        lemma_written_next(base, fields, 4, so_far, buf@);
    }
    let ghost so_far = buf@;
    buf.push(0x2cu8);
    write_copy_json(buf, &row.args);
    proof {
        lemma_written_next(base, fields, 5, so_far, buf@);
    }
    let ghost so_far = buf@;
    buf.push(0x2cu8);
    write_number(buf, row.priority as i64);
    proof {
        lemma_written_next(base, fields, 6, so_far, buf@);
    }
    let ghost so_far = buf@;
    buf.push(0x2cu8);
    write_number(buf, row.attempt as i64);
    proof {
        lemma_written_next(base, fields, 7, so_far, buf@);
    }
    let ghost so_far = buf@;
    buf.push(0x2cu8);
    write_number(buf, row.run_lease);
    proof {
        lemma_written_next(base, fields, 8, so_far, buf@);
    }
    let ghost so_far = buf@;
    buf.push(0x2cu8);
    write_number(buf, row.max_attempts as i64);
    proof {
        lemma_written_next(base, fields, 9, so_far, buf@);
    }
    let ghost so_far = buf@;
    buf.push(0x2cu8);
    write_number(buf, row.lane_seq);
    proof {
        lemma_written_next(base, fields, 10, so_far, buf@);
    }
    let ghost so_far = buf@;
    buf.push(0x2cu8);
    write_number(buf, row.enqueue_shard as i64);
    proof {
        lemma_written_next(base, fields, 11, so_far, buf@);
    }
    let ghost so_far = buf@;
    buf.push(0x2cu8);
    write_copy_datetime(buf, row.run_at);
    proof {
        lemma_written_next(base, fields, 12, so_far, buf@);
    }
    let ghost so_far = buf@;
    buf.push(0x2cu8);
    write_copy_optional_datetime(buf, row.attempted_at);
    proof {
        lemma_written_next(base, fields, 13, so_far, buf@);
    }
    let ghost so_far = buf@;
    buf.push(0x2cu8);
    write_copy_datetime(buf, row.created_at);
    proof {
        lemma_written_next(base, fields, 14, so_far, buf@);
    }
    let ghost so_far = buf@;
    buf.push(0x2cu8);
    write_copy_optional_bytes(buf, &row.unique_key);
    proof {
        lemma_written_next(base, fields, 15, so_far, buf@);
    }
    let ghost so_far = buf@;
    buf.push(0x2cu8);
    write_copy_optional_string(buf, &row.unique_states);
    proof {
        lemma_written_next(base, fields, 16, so_far, buf@);
    }
    let ghost so_far = buf@;
    buf.push(0x2cu8);
    write_copy_storage_payload(buf, &row.payload);
    proof {
        lemma_written_next(base, fields, 17, so_far, buf@);
    }
    let ghost so_far = buf@;
    buf.push(0x0au8);
    proof {
        lemma_written_all(base, fields, so_far, buf@);
    }
}

/// Appends a deferred row.
pub fn write_deferred_copy_row(
    buf: &mut Vec<u8>,
    row: &DeferredJobRow,
)
    requires
        row.run_at.valid(),
        row.created_at.valid(),
        optional_valid(row.attempted_at),
        optional_valid(row.finalized_at),
    ensures
        final(buf)@ == old(buf)@ + line(deferred_fields(*row)),
{
    let ghost base = buf@;
    let ghost fields = deferred_fields(*row);
    write_number(buf, row.job_id);
    proof {
        lemma_written_first(base, fields, buf@);
    }
    let ghost so_far = buf@;
    buf.push(0x2cu8);
    write_copy_field(buf, row.kind.as_str());
    proof {
        lemma_written_next(base, fields, 1, so_far, buf@);
    }
    let ghost so_far = buf@;
    buf.push(0x2cu8);
    write_copy_field(buf, row.queue.as_str());
    proof {
        lemma_written_next(base, fields, 2, so_far, buf@);
    }
    let ghost so_far = buf@;
    buf.push(0x2cu8);
    write_copy_json(buf, &row.args);
    proof {
        lemma_written_next(base, fields, 3, so_far, buf@);
    }
    let ghost so_far = buf@;
    buf.push(0x2cu8);
    write_copy_field(buf, row.state.as_str());
    proof {
        lemma_written_next(base, fields, 4, so_far, buf@);
    }
    let ghost so_far = buf@;
    buf.push(0x2cu8);
    write_number(buf, row.priority as i64);
    proof {
        lemma_written_next(base, fields, 5, so_far, buf@);
    }
    let ghost so_far = buf@;
    buf.push(0x2cu8);
    write_number(buf, row.attempt as i64);
    proof {
        lemma_written_next(base, fields, 6, so_far, buf@);
    }
    let ghost so_far = buf@;
    buf.push(0x2cu8);
    write_number(buf, row.run_lease);
    proof {
        lemma_written_next(base, fields, 7, so_far, buf@);
    }
    let ghost so_far = buf@;
    buf.push(0x2cu8);
    write_number(buf, row.max_attempts as i64);
    proof {
        lemma_written_next(base, fields, 8, so_far, buf@);
    }
    let ghost so_far = buf@;
    buf.push(0x2cu8);
    write_copy_datetime(buf, row.run_at);
    proof {
        lemma_written_next(base, fields, 9, so_far, buf@);
    }
    let ghost so_far = buf@;
    buf.push(0x2cu8);
    write_copy_optional_datetime(buf, row.attempted_at);
    proof {
        lemma_written_next(base, fields, 10, so_far, buf@);
    }
    let ghost so_far = buf@;
    buf.push(0x2cu8);
    write_copy_optional_datetime(buf, row.finalized_at);
    proof {
        lemma_written_next(base, fields, 11, so_far, buf@);
    }
    let ghost so_far = buf@;
    buf.push(0x2cu8);
    write_copy_datetime(buf, row.created_at);
    proof {
        lemma_written_next(base, fields, 12, so_far, buf@);
    }
    let ghost so_far = buf@;
    buf.push(0x2cu8);
    write_copy_optional_bytes(buf, &row.unique_key);
    proof {
        lemma_written_next(base, fields, 13, so_far, buf@);
    }
    let ghost so_far = buf@;
    buf.push(0x2cu8);
    write_copy_optional_string(buf, &row.unique_states);
    proof {
        lemma_written_next(base, fields, 14, so_far, buf@);
    }
    let ghost so_far = buf@;
    buf.push(0x2cu8);
    write_copy_storage_payload(buf, &row.payload);
    proof {
        lemma_written_next(base, fields, 15, so_far, buf@);
    }
    let ghost so_far = buf@;
    buf.push(0x0au8);
    proof {
        lemma_written_all(base, fields, so_far, buf@);
    }
}

/// CSV text on its way out, handed over in chunks.
#[derive(Debug)]
pub struct CopyBuffer {
    bytes: Vec<u8>,
}

impl View for CopyBuffer {
    type V = Seq<u8>;

    closed spec fn view(&self) -> Seq<u8> {
        self.bytes@
    }
}

/// After adding a line the text is handed over once it has reached the target
/// size, and kept otherwise.
pub open spec fn chunked(all: Seq<u8>, kept: Seq<u8>, chunk: Option<Vec<u8>>) -> bool {
    if all.len() >= COPY_CHUNK_TARGET_BYTES {
        chunk matches Some(c) && c@ == all && kept == Seq::<u8>::empty()
    } else {
        chunk is None && kept == all
    }
}

impl CopyBuffer {
    pub fn new() -> (r: CopyBuffer)
        ensures
            r@ == Seq::<u8>::empty(),
    {
        CopyBuffer { bytes: Vec::new() }
    }

    fn take_if_full(&mut self) -> (chunk: Option<Vec<u8>>)
        ensures
            chunked(old(self)@, final(self)@, chunk),
    {
        if self.bytes.len() >= COPY_CHUNK_TARGET_BYTES {
            let mut chunk: Vec<u8> = Vec::new();
            std::mem::swap(&mut chunk, &mut self.bytes);
            Some(chunk)
        } else {
            None
        }
    }

    /// Adds a ready row; hands over the text once there is enough of it.
    pub fn push_ready_row(
        &mut self,
        ready_slot: i32,
        ready_generation: i64,
        row: &RuntimeReadyInsert,
    ) -> (chunk: Option<Vec<u8>>)
        requires
            row.run_at.valid(),
            row.created_at.valid(),
            optional_valid(row.attempted_at),
        ensures
            chunked(
                old(self)@ + line(ready_fields(ready_slot, ready_generation, *row)),
                final(self)@,
                chunk,
            ),
    {
        write_ready_copy_row(&mut self.bytes, ready_slot, ready_generation, row);
        self.take_if_full()
    }

    /// Adds a deferred row; hands over the text once there is enough of it.
    pub fn push_deferred_row(&mut self, row: &DeferredJobRow) -> (chunk: Option<Vec<u8>>)
        requires
            row.run_at.valid(),
            row.created_at.valid(),
            optional_valid(row.attempted_at),
            optional_valid(row.finalized_at),
        ensures
            chunked(old(self)@ + line(deferred_fields(*row)), final(self)@, chunk),
    {
        write_deferred_copy_row(&mut self.bytes, row);
        self.take_if_full()
    }

    /// The rest of the text, if there is any.
    pub fn finish(self) -> (chunk: Option<Vec<u8>>)
        ensures
            match chunk {
                Some(c) => c@ == self@ && self@.len() > 0,
                None => self@.len() == 0,
            },
    {
        if self.bytes.len() > 0 {
            Some(self.bytes)
        } else {
            None
        }
    }
}

/// What a reader of CSV text makes of a field.
pub enum FieldReading {
    Null,
    Bytes(Seq<u8>),
}

/// Doubled quotes read as single ones.
pub open spec fn undoubled(quoted: Seq<u8>) -> Seq<u8>
    decreases quoted.len(),
{
    if quoted.len() == 0 {
        Seq::empty()
    } else if quoted.len() >= 2 && quoted.last() == 0x22u8 && quoted[quoted.len() - 2] == 0x22u8 {
        undoubled(quoted.subrange(0, quoted.len() - 2)).push(0x22u8)
    } else {
        undoubled(quoted.drop_last()).push(quoted.last())
    }
}

/// How a field reads: a quoted one without its quotes, an unquoted one as it
/// is, and the sentinel without quotes as null.
pub open spec fn reads_as(field: Seq<u8>) -> FieldReading {
    if field.len() >= 2 && field[0] == 0x22u8 {
        FieldReading::Bytes(undoubled(field.subrange(1, field.len() - 1)))
    } else if field == null_sentinel() {
        FieldReading::Null
    } else {
        FieldReading::Bytes(field)
    }
}

proof fn lemma_undoubled(value: Seq<u8>)
    ensures
        undoubled(doubled(value)) == value,
    decreases value.len(),
{
    let d = doubled(value);
    if value.len() > 0 {
        let rest = value.drop_last();
        lemma_undoubled(rest);
        if value.last() == 0x22u8 {
            assert(d.subrange(0, d.len() - 2) =~= doubled(rest));
            assert(undoubled(d) =~= rest.push(0x22u8));
        } else {
            assert(d.drop_last() =~= doubled(rest));
            assert(d.last() == value.last());
        }
        assert(rest.push(value.last()) =~= value);
    }
}

/// A written field reads back as what was written, and never as null.
pub proof fn law_copy_field_reads_back(value: Seq<u8>)
    ensures
        reads_as(copy_field(value)) == FieldReading::Bytes(value),
{
    let field = copy_field(value);
    if needs_quotes(value) {
        let d = doubled(value);
        assert(field[0] == 0x22u8);
        assert(field.subrange(1, field.len() - 1) =~= d);
        lemma_undoubled(value);
    } else {
        if value.len() > 0 && value[0] == 0x22u8 {
            assert(is_special(value[0]));
        }
    }
}

/// Cuts a line into fields at the commas outside quotes.
pub open spec fn split_fields(rest: Seq<u8>, quoted: bool, field: Seq<u8>) -> Seq<Seq<u8>>
    decreases rest.len(),
{
    if rest.len() == 0 {
        seq![field]
    } else if rest[0] == 0x22u8 {
        split_fields(rest.drop_first(), !quoted, field.push(rest[0]))
    } else if rest[0] == 0x2cu8 && !quoted {
        seq![field] + split_fields(rest.drop_first(), false, Seq::empty())
    } else {
        split_fields(rest.drop_first(), quoted, field.push(rest[0]))
    }
}

/// The bytes hold no comma outside quotes, and every quote is closed.
pub open spec fn is_closed(field: Seq<u8>, quoted: bool) -> bool
    decreases field.len(),
{
    if field.len() == 0 {
        !quoted
    } else if field[0] == 0x22u8 {
        is_closed(field.drop_first(), !quoted)
    } else if field[0] == 0x2cu8 && !quoted {
        false
    } else {
        is_closed(field.drop_first(), quoted)
    }
}

proof fn lemma_split_closed(field: Seq<u8>, quoted: bool, rest: Seq<u8>, head: Seq<u8>)
    requires
        is_closed(field, quoted),
    ensures
        split_fields(field + rest, quoted, head) == split_fields(rest, false, head + field),
    decreases field.len(),
{
    let all = field + rest;
    if field.len() == 0 {
        assert(all =~= rest);
        assert(head + field =~= head);
    } else {
        assert(all[0] == field[0]);
        assert(all.drop_first() =~= field.drop_first() + rest);
        let flips = field[0] == 0x22u8;
        lemma_split_closed(
            field.drop_first(),
            if flips {
                !quoted
            } else {
                quoted
            },
            rest,
            head.push(field[0]),
        );
        assert(head.push(field[0]) + field.drop_first() =~= head + field);
    }
}

proof fn lemma_plain_is_closed(field: Seq<u8>)
    requires
        forall|i: int| 0 <= i < field.len() ==> !is_special(#[trigger] field[i]),
    ensures
        is_closed(field, false),
    decreases field.len(),
{
    if field.len() > 0 {
        assert(!is_special(field[0]));
        let rest = field.drop_first();
        assert forall|i: int| 0 <= i < rest.len() implies !is_special(#[trigger] rest[i]) by {
            assert(rest[i] == field[i + 1]);
        }
        lemma_plain_is_closed(rest);
    }
}

proof fn lemma_doubled_first(value: Seq<u8>)
    requires
        value.len() > 0,
    ensures
        doubled(value) == (if value[0] == 0x22u8 {
            seq![0x22u8, 0x22u8]
        } else {
            seq![value[0]]
        }) + doubled(value.drop_first()),
    decreases value.len(),
{
    if value.len() == 1 {
        assert(value.drop_first() =~= Seq::empty());
        assert(value.drop_last() =~= Seq::empty());
        assert(doubled(value.drop_last()) =~= Seq::empty());
        assert(doubled(value) =~= (if value[0] == 0x22u8 {
            seq![0x22u8, 0x22u8]
        } else {
            seq![value[0]]
        }) + doubled(value.drop_first()));
    } else {
        let shorter = value.drop_last();
        lemma_doubled_first(shorter);
        assert(shorter.drop_first() =~= value.drop_first().drop_last());
        assert(shorter[0] == value[0]);
        assert(value.drop_first().last() == value.last());
        assert(doubled(value) =~= (if value[0] == 0x22u8 {
            seq![0x22u8, 0x22u8]
        } else {
            seq![value[0]]
        }) + doubled(value.drop_first()));
    }
}

proof fn lemma_doubled_inside_quotes(value: Seq<u8>, rest: Seq<u8>)
    ensures
        is_closed(doubled(value) + rest, true) == is_closed(rest, true),
    decreases value.len(),
{
    let d = doubled(value);
    let all = d + rest;
    if value.len() == 0 {
        assert(all =~= rest);
    } else {
        lemma_doubled_first(value);
        let tail = doubled(value.drop_first());
        lemma_doubled_inside_quotes(value.drop_first(), rest);
        if value[0] == 0x22u8 {
            assert(all[0] == 0x22u8);
            assert(all.drop_first()[0] == 0x22u8);
            assert(all.drop_first().drop_first() =~= tail + rest);
            assert(is_closed(all, true) == is_closed(all.drop_first(), false));
            assert(is_closed(all.drop_first(), false) == is_closed(tail + rest, true));
        } else {
            assert(all[0] == value[0]);
            assert(all.drop_first() =~= tail + rest);
        }
    }
}

proof fn lemma_copy_field_is_closed(value: Seq<u8>)
    ensures
        is_closed(copy_field(value), false),
{
    let field = copy_field(value);
    if needs_quotes(value) {
        let tail = doubled(value) + seq![0x22u8];
        assert(field[0] == 0x22u8);
        assert(field.drop_first() =~= tail);
        lemma_doubled_inside_quotes(value, seq![0x22u8]);
        let quote = seq![0x22u8];
        assert(quote[0] == 0x22u8);
        assert(quote.drop_first() =~= Seq::empty());
        assert(is_closed(quote.drop_first(), false));
        assert(is_closed(quote, true));
    } else {
        lemma_plain_is_closed(value);
    }
}

/// A line splits into exactly the fields that it was made of.
pub proof fn law_copy_line_splits_into_fields(fields: Seq<Seq<u8>>)
    requires
        fields.len() > 0,
        forall|i: int| 0 <= i < fields.len() ==> is_closed(#[trigger] fields[i], false),
    ensures
        split_fields(joined(fields), false, Seq::empty()) == fields,
    decreases fields.len(),
{
    let none = Seq::<u8>::empty();
    if fields.len() == 1 {
        assert(is_closed(fields[0], false));
        lemma_split_closed(fields[0], false, none, none);
        assert(fields[0] + none =~= fields[0]);
        assert(none + fields[0] =~= fields[0]);
        assert(fields =~= seq![fields[0]]);
    } else {
        lemma_joined_first(fields);
        let rest = fields.drop_first();
        assert forall|i: int| 0 <= i < rest.len() implies is_closed(#[trigger] rest[i], false) by {
            assert(rest[i] == fields[i + 1]);
        }
        law_copy_line_splits_into_fields(rest);
        let tail = seq![0x2cu8] + joined(rest);
        assert(is_closed(fields[0], false));
        lemma_split_closed(fields[0], false, tail, none);
        assert(none + fields[0] =~= fields[0]);
        assert(tail[0] == 0x2cu8);
        assert(tail.drop_first() =~= joined(rest));
        assert(seq![fields[0]] + rest =~= fields);
    }
}

proof fn lemma_joined_first(fields: Seq<Seq<u8>>)
    requires
        fields.len() >= 2,
    ensures
        joined(fields) == fields[0] + (seq![0x2cu8] + joined(fields.drop_first())),
    decreases fields.len(),
{
    let rest = fields.drop_first();
    if fields.len() == 2 {
        assert(fields.drop_last()[0] == fields[0]);
        assert(rest[0] == fields[1]);
        assert(joined(fields.drop_last()) == fields[0]);
        assert(joined(rest) == fields[1]);
        assert(joined(fields) =~= fields[0] + (seq![0x2cu8] + joined(rest)));
    } else {
        let shorter = fields.drop_last();
        lemma_joined_first(shorter);
        assert(shorter.drop_first() =~= rest.drop_last());
        assert(shorter[0] == fields[0]);
        assert(rest.last() == fields.last());
        assert(joined(fields) =~= fields[0] + (seq![0x2cu8] + joined(rest)));
    }
}

proof fn lemma_number_field_is_closed(n: int)
    ensures
        is_closed(number_field(n), false),
{
    let t = text::int_text(n);
    text::lemma_nat_text_digits(
        if n < 0 {
            (-n) as nat
        } else {
            n as nat
        },
    );
    assert(is_ascii_chars(t)) by {
        assert forall|i: int| 0 <= i < t.len() implies (#[trigger] t[i]) as u32 <= 0x7f by {
            if n < 0 {
                if i > 0 {
                    assert(t[i] == text::nat_text((-n) as nat)[i - 1]);
                    assert(text::is_digit(text::nat_text((-n) as nat)[i - 1]));
                }
            } else {
                assert(text::is_digit(text::nat_text(n as nat)[i]));
            }
        }
    }
    is_ascii_chars_encode_utf8(t);
    assert forall|i: int| 0 <= i < number_field(n).len() implies !is_special(
        #[trigger] number_field(n)[i],
    ) by {
        assert(number_field(n)[i] == t[i] as u8);
        if n < 0 {
            if i > 0 {
                assert(t[i] == text::nat_text((-n) as nat)[i - 1]);
                assert(text::is_digit(text::nat_text((-n) as nat)[i - 1]));
            } else {
                assert(t[0] == '-');
            }
        } else {
            assert(text::is_digit(text::nat_text(n as nat)[i]));
        }
    }
    lemma_plain_is_closed(number_field(n));
}

proof fn lemma_null_field_is_closed()
    ensures
        is_closed(null_field(), false),
{
    let t = "__AWA_NULL__"@;
    reveal_strlit("__AWA_NULL__");
    assert(is_ascii_chars(t));
    is_ascii_chars_encode_utf8(t);
    assert forall|i: int| 0 <= i < null_field().len() implies !is_special(
        #[trigger] null_field()[i],
    ) by {
        assert(null_field()[i] == t[i] as u8);
    }
    lemma_plain_is_closed(null_field());
}

/// The line of a ready row splits into that row's fields, whatever the texts in
/// it hold.
pub proof fn law_ready_line_splits(
    ready_slot: i32,
    ready_generation: i64,
    row: RuntimeReadyInsert,
)
    ensures
        split_fields(
            joined(ready_fields(ready_slot, ready_generation, row)),
            false,
            Seq::empty(),
        ) == ready_fields(ready_slot, ready_generation, row),
{
    let fields = ready_fields(ready_slot, ready_generation, row);
    lemma_null_field_is_closed();
    assert forall|i: int| 0 <= i < fields.len() implies is_closed(#[trigger] fields[i], false) by {
        lemma_number_field_is_closed(ready_slot as int);
        lemma_number_field_is_closed(ready_generation as int);
        lemma_number_field_is_closed(row.job_id as int);
        lemma_number_field_is_closed(row.priority as int);
        lemma_number_field_is_closed(row.attempt as int);
        lemma_number_field_is_closed(row.run_lease as int);
        lemma_number_field_is_closed(row.max_attempts as int);
        lemma_number_field_is_closed(row.lane_seq as int);
        lemma_number_field_is_closed(row.enqueue_shard as int);
        lemma_copy_field_is_closed(encode_utf8(row.kind@));
        lemma_copy_field_is_closed(encode_utf8(row.queue@));
        lemma_copy_field_is_closed(encode_utf8(json::text(row.args)));
        lemma_copy_field_is_closed(encode_utf8(json::text(row.payload)));
        lemma_copy_field_is_closed(
            encode_utf8(clock::rfc3339_text(row.run_at.secs, row.run_at.nanos)),
        );
        lemma_copy_field_is_closed(
            encode_utf8(clock::rfc3339_text(row.created_at.secs, row.created_at.nanos)),
        );
        if row.attempted_at is Some {
            let at = row.attempted_at->0;
            lemma_copy_field_is_closed(encode_utf8(clock::rfc3339_text(at.secs, at.nanos)));
        }
        if row.unique_key is Some {
            lemma_copy_field_is_closed(
                encode_utf8("\\x"@ + outside::hex_text(row.unique_key->0@)),
            );
        }
        if row.unique_states is Some {
            lemma_copy_field_is_closed(encode_utf8(row.unique_states->0@));
        }
    }
    law_copy_line_splits_into_fields(fields);
}

/// The line of a deferred row splits into that row's fields, whatever the texts
/// in it hold.
pub proof fn law_deferred_line_splits(row: DeferredJobRow)
    ensures
        split_fields(joined(deferred_fields(row)), false, Seq::empty()) == deferred_fields(row),
{
    let fields = deferred_fields(row);
    lemma_null_field_is_closed();
    assert forall|i: int| 0 <= i < fields.len() implies is_closed(#[trigger] fields[i], false) by {
        lemma_number_field_is_closed(row.job_id as int);
        lemma_number_field_is_closed(row.priority as int);
        lemma_number_field_is_closed(row.attempt as int);
        lemma_number_field_is_closed(row.run_lease as int);
        lemma_number_field_is_closed(row.max_attempts as int);
        lemma_copy_field_is_closed(encode_utf8(row.kind@));
        lemma_copy_field_is_closed(encode_utf8(row.queue@));
        lemma_copy_field_is_closed(encode_utf8(json::text(row.args)));
        lemma_copy_field_is_closed(encode_utf8(row.state.label()));
        lemma_copy_field_is_closed(encode_utf8(json::text(row.payload)));
        lemma_copy_field_is_closed(
            encode_utf8(clock::rfc3339_text(row.run_at.secs, row.run_at.nanos)),
        );
        lemma_copy_field_is_closed(
            encode_utf8(clock::rfc3339_text(row.created_at.secs, row.created_at.nanos)),
        );
        if row.attempted_at is Some {
            let at = row.attempted_at->0;
            lemma_copy_field_is_closed(encode_utf8(clock::rfc3339_text(at.secs, at.nanos)));
        }
        if row.finalized_at is Some {
            let at = row.finalized_at->0;
            lemma_copy_field_is_closed(encode_utf8(clock::rfc3339_text(at.secs, at.nanos)));
        }
        if row.unique_key is Some {
            lemma_copy_field_is_closed(
                encode_utf8("\\x"@ + outside::hex_text(row.unique_key->0@)),
            );
        }
        if row.unique_states is Some {
            lemma_copy_field_is_closed(encode_utf8(row.unique_states->0@));
        }
    }
    law_copy_line_splits_into_fields(fields);
}

} // verus!
