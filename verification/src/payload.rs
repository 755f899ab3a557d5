//! The runtime payload stored beside each job: user metadata, tags, the error
//! history, and the progress of the current attempt.
use crate::clock;
use crate::clock::Timestamp;
use crate::error;
use crate::error::{AwaError, PayloadFault};
use crate::json;
use crate::json::JsonNode;
use serde_json::Value;
use vstd::prelude::*;
use vstd::string::*;

verus! {

/// The characters of each string.
pub open spec fn texts(items: Seq<String>) -> Seq<Seq<char>> {
    items.map_values(|s: String| s@)
}

/// A runtime payload.
#[derive(Debug)]
pub struct RuntimePayload {
    pub metadata: Value,
    pub tags: Vec<String>,
    pub errors: Vec<Value>,
    pub progress: Option<Value>,
}

/// What a runtime payload holds.
pub struct PayloadView {
    pub metadata: JsonNode,
    pub tags: Seq<Seq<char>>,
    pub errors: Seq<Value>,
    pub progress: Option<Value>,
}

impl PayloadView {
    /// The payload of a job that nothing has been recorded for.
    pub open spec fn initial() -> PayloadView {
        PayloadView {
            metadata: JsonNode::Object(json::no_entries()),
            tags: Seq::empty(),
            errors: Seq::empty(),
            progress: None,
        }
    }

    pub open spec fn with_progress(self, progress: Option<Value>) -> PayloadView {
        PayloadView { progress, ..self }
    }

    /// A progress report replaces the stored one; without a report it stays.
    pub open spec fn with_reported_progress(self, report: Option<Value>) -> PayloadView {
        if report is Some {
            self.with_progress(report)
        } else {
            self
        }
    }

    /// The payload as it reads back once stored: null progress is none.
    pub open spec fn settled(self) -> PayloadView {
        if self.progress matches Some(progress) && json::node(progress) is Null {
            self.with_progress(None)
        } else {
            self
        }
    }

    pub open spec fn with_error(self, error: Value) -> PayloadView {
        PayloadView { errors: self.errors.push(error), ..self }
    }

    pub open spec fn with_metadata(self, metadata: JsonNode) -> PayloadView {
        PayloadView { metadata, ..self }
    }
}

impl View for RuntimePayload {
    type V = PayloadView;

    open spec fn view(&self) -> PayloadView {
        PayloadView {
            metadata: json::node(self.metadata),
            tags: texts(self.tags@),
            errors: self.errors@,
            progress: self.progress,
        }
    }
}

/// A field of a stored payload: by name in an object, by position in an array.
pub open spec fn stored_field(value: Value, name: Seq<char>, position: int) -> Option<Value> {
    match json::node(value) {
        JsonNode::Object(entries) => if entries.dom().contains(name) {
            Some(entries[name])
        } else {
            None
        },
        JsonNode::Array(items) => if position < items.len() {
            Some(items[position])
        } else {
            None
        },
        _ => None,
    }
}

pub open spec fn metadata_field(value: Value) -> Option<Value> {
    stored_field(value, "metadata"@, 0)
}

pub open spec fn tags_field(value: Value) -> Option<Value> {
    stored_field(value, "tags"@, 1)
}

pub open spec fn errors_field(value: Value) -> Option<Value> {
    stored_field(value, "errors"@, 2)
}

pub open spec fn progress_field(value: Value) -> Option<Value> {
    stored_field(value, "progress"@, 3)
}

/// The text of a JSON string.
pub open spec fn text_of(value: Value) -> Seq<char> {
    json::node(value)->Text_0
}

/// What is wrong with a stored `tags` field.
pub open spec fn tags_fault(field: Option<Value>) -> Option<PayloadFault> {
    match field {
        None => None,
        Some(v) => match json::node(v) {
            JsonNode::Array(items) => if forall|i: int|
                0 <= i < items.len() ==> json::node(#[trigger] items[i]) is Text {
                None
            } else {
                Some(PayloadFault::TagNotAString)
            },
            _ => Some(PayloadFault::TagsNotAnArray),
        },
    }
}

/// What is wrong with a stored `errors` field.
pub open spec fn errors_fault(field: Option<Value>) -> Option<PayloadFault> {
    match field {
        None => None,
        Some(v) => if json::node(v) is Array {
            None
        } else {
            Some(PayloadFault::ErrorsNotAnArray)
        },
    }
}

/// What keeps a stored value from being read as a payload, in the order in
/// which it is noticed: an object's fields are read in the order of their
/// names, an array's in the order of their positions.
pub open spec fn payload_fault(value: Value) -> Option<PayloadFault> {
    let tags = tags_fault(tags_field(value));
    let errors = errors_fault(errors_field(value));
    match json::node(value) {
        JsonNode::Null => None,
        JsonNode::Object(_) => if errors is Some {
            errors
        } else {
            tags
        },
        JsonNode::Array(items) => if tags is Some {
            tags
        } else if errors is Some {
            errors
        } else if items.len() > 4 {
            Some(PayloadFault::TooManyFields)
        } else {
            None
        },
        _ => Some(PayloadFault::NotARecord),
    }
}

/// The stored metadata, when there is any, is a JSON object.
pub open spec fn metadata_is_object(value: Value) -> bool {
    match metadata_field(value) {
        Some(v) => json::node(v) is Object,
        None => true,
    }
}

/// A stored value can be read as a payload.
pub open spec fn payload_readable(value: Value) -> bool {
    payload_fault(value) is None && metadata_is_object(value)
}

/// The payload that a readable value holds. Missing fields read as empty, and
/// a null progress as none.
pub open spec fn payload_of(value: Value) -> PayloadView {
    PayloadView {
        metadata: match metadata_field(value) {
            Some(v) => json::node(v),
            None => JsonNode::Object(json::no_entries()),
        },
        tags: match tags_field(value) {
            Some(v) => json::node(v)->Array_0.map_values(|item: Value| text_of(item)),
            None => Seq::empty(),
        },
        errors: match errors_field(value) {
            Some(v) => json::node(v)->Array_0,
            None => Seq::empty(),
        },
        progress: match progress_field(value) {
            Some(v) => if json::node(v) is Null {
                None
            } else {
                Some(v)
            },
            None => None,
        },
    }
}

/// The text of the error for metadata that is not an object.
pub open spec fn metadata_error_text() -> Seq<char> {
    "queue storage payload metadata must be a JSON object"@
}

/// `err` is the error with which `value` fails to be read as a payload.
pub open spec fn is_payload_error(value: Value, err: AwaError) -> bool {
    match payload_fault(value) {
        Some(fault) => err == AwaError::Serialization(fault),
        None => error::is_validation(err, metadata_error_text()),
    }
}

/// `out` is the compact stored form of `payload`: an object that holds the
/// non-empty fields and nothing else.
pub open spec fn payload_writes(payload: PayloadView, out: Value) -> bool {
    &&& json::node(out) is Object
    &&& ({
        let entries = json::node(out)->Object_0;
        &&& forall|key: Seq<char>| #[trigger]
            entries.dom().contains(key) <==> {
                ||| key == "metadata"@ && payload.metadata != JsonNode::Object(json::no_entries())
                ||| key == "tags"@ && payload.tags.len() > 0
                ||| key == "errors"@ && payload.errors.len() > 0
                ||| key == "progress"@ && payload.progress is Some
            }
        &&& entries.dom().contains("metadata"@) ==> json::node(entries["metadata"@])
            == payload.metadata
        &&& entries.dom().contains("tags"@) ==> (json::node(entries["tags"@]) matches
            JsonNode::Array(items) && items.len() == payload.tags.len() && forall|i: int|
            0 <= i < items.len() ==> json::node(#[trigger] items[i]) == JsonNode::Text(
                payload.tags[i],
            ))
        &&& entries.dom().contains("errors"@) ==> json::node(entries["errors"@])
            == JsonNode::Array(payload.errors)
        &&& entries.dom().contains("progress"@) ==> entries["progress"@] == payload.progress->0
    })
}

pub proof fn lemma_field_names()
    ensures
        "metadata"@ != "tags"@,
        "metadata"@ != "errors"@,
        "metadata"@ != "progress"@,
        "tags"@ != "errors"@,
        "tags"@ != "progress"@,
        "errors"@ != "progress"@,
{
    reveal_strlit("metadata");
    reveal_strlit("tags");
    reveal_strlit("errors");
    reveal_strlit("progress");
    assert("metadata"@[0] == 'm');
    assert("progress"@[0] == 'p');
    assert("tags"@.len() == 4);
    assert("errors"@.len() == 6);
}

/// Reading back what was written gives the same payload. Left out is a payload
/// whose metadata is no object, which is refused on reading, and one whose
/// progress is JSON null, which reads as no progress.
pub proof fn law_payload_round_trip(payload: PayloadView, out: Value)
    requires
        payload_writes(payload, out),
        payload.metadata is Object,
        payload.progress matches Some(p) ==> !(json::node(p) is Null),
    ensures
        payload_readable(out),
        payload_of(out) == payload,
{
    lemma_field_names();
    let read = payload_of(out);
    let entries = json::node(out)->Object_0;
    assert(entries.dom().contains("tags"@) == (payload.tags.len() > 0));
    assert(entries.dom().contains("errors"@) == (payload.errors.len() > 0));
    assert(entries.dom().contains("progress"@) == (payload.progress is Some));
    assert(entries.dom().contains("metadata"@) == (payload.metadata != JsonNode::Object(
        json::no_entries(),
    )));
    assert(read.tags =~= payload.tags);
    assert(read.errors =~= payload.errors);
}

/// The initial payload is stored as `{}`.
pub proof fn law_initial_payload_is_compact(out: Value)
    requires
        payload_writes(PayloadView::initial(), out),
    ensures
        json::is_empty_object(out),
{
    let entries = json::node(out)->Object_0;
    assert forall|key: Seq<char>| !entries.dom().contains(key) by {}
    assert(entries =~= json::no_entries());
}

fn read_tags(field: Option<&Value>) -> (r: Result<Vec<String>, PayloadFault>)
    ensures
        ({
            let stored = match field {
                Some(v) => Some(*v),
                None => None,
            };
            match r {
                Ok(tags) => tags_fault(stored) is None && texts(tags@) == (match stored {
                    Some(v) => json::node(v)->Array_0.map_values(|item: Value| text_of(item)),
                    None => Seq::empty(),
                }),
                Err(fault) => tags_fault(stored) == Some(fault),
            }
        }),
{
    let mut tags: Vec<String> = Vec::new();
    match field {
        None => {
            assert(texts(tags@) =~= Seq::empty());
            Ok(tags)
        },
        Some(v) => match json::as_array(v) {
            None => Err(PayloadFault::TagsNotAnArray),
            Some(items) => {
                let mut i: usize = 0;
                while i < items.len()
                    invariant
                        i <= items.len(),
                        field == Some(v),
                        json::node(*v) == JsonNode::Array(items@),
                        tags@.len() == i,
                        forall|k: int| 0 <= k < i ==> json::node(#[trigger] items@[k]) is Text,
                        forall|k: int|
                            0 <= k < i ==> #[trigger] tags@[k]@ == text_of(items@[k]),
                    decreases items.len() - i,
                {
                    match json::as_str(&items[i]) {
                        None => {
                            assert(!(json::node(items@[i as int]) is Text));
                            return Err(PayloadFault::TagNotAString);
                        },
                        Some(text) => {
                            tags.push(text.to_owned());
                        },
                    }
                    i = i + 1;
                }
                assert(texts(tags@) =~= items@.map_values(|item: Value| text_of(item)));
                Ok(tags)
            },
        },
    }
}

fn read_errors(field: Option<&Value>) -> (r: Result<Vec<Value>, PayloadFault>)
    ensures
        ({
            let stored = match field {
                Some(v) => Some(*v),
                None => None,
            };
            match r {
                Ok(errors) => errors_fault(stored) is None && errors@ == (match stored {
                    Some(v) => json::node(v)->Array_0,
                    None => Seq::empty(),
                }),
                Err(fault) => errors_fault(stored) == Some(fault),
            }
        }),
{
    match field {
        None => Ok(Vec::new()),
        Some(v) => match json::as_array(v) {
            None => Err(PayloadFault::ErrorsNotAnArray),
            Some(items) => Ok(json::clone_items(items)),
        },
    }
}

fn read_progress(field: Option<&Value>) -> (r: Option<Value>)
    ensures
        r == (match field {
            Some(v) => if json::node(*v) is Null {
                None
            } else {
                Some(*v)
            },
            None => None,
        }),
{
    match field {
        None => None,
        Some(v) => if json::is_null(v) {
            None
        } else {
            Some(v.clone())
        },
    }
}

fn read_metadata(field: Option<&Value>) -> (r: Value)
    ensures
        json::node(r) == (match field {
            Some(v) => json::node(*v),
            None => JsonNode::Object(json::no_entries()),
        }),
{
    match field {
        None => json::empty_object(),
        Some(v) => v.clone(),
    }
}

fn nth_item(items: &Vec<Value>, position: usize) -> (r: Option<&Value>)
    ensures
        match r {
            Some(v) => position < items@.len() && *v == items@[position as int],
            None => position >= items@.len(),
        },
{
    if position < items.len() {
        Some(&items[position])
    } else {
        None
    }
}

impl Default for RuntimePayload {
    fn default() -> (r: RuntimePayload)
        ensures
            r@ == PayloadView::initial(),
    {
        RuntimePayload::initial()
    }
}

impl RuntimePayload {
    /// The payload of a job that nothing has been recorded for.
    pub fn initial() -> (r: RuntimePayload)
        ensures
            r@ == PayloadView::initial(),
    {
        let r = RuntimePayload {
            metadata: json::empty_object(),
            tags: Vec::new(),
            errors: Vec::new(),
            progress: None,
        };
        assert(r@.tags =~= PayloadView::initial().tags);
        r
    }

    /// Reads a stored payload. Null reads as the initial payload, missing
    /// fields as empty; metadata has to be an object.
    pub fn from_json(value: Value) -> (r: Result<RuntimePayload, AwaError>)
        ensures
            match r {
                Ok(p) => payload_readable(value) && p@ == payload_of(value),
                Err(err) => !payload_readable(value) && is_payload_error(value, err),
            },
    {
        if json::is_null(&value) {
            let p = RuntimePayload::initial();
            return Ok(p);
        }
        let (metadata, tags, errors, progress) = match json::as_object(&value) {
            Some(map) => {
                let errors = match read_errors(json::map_get(map, "errors")) {
                    Ok(errors) => errors,
                    Err(fault) => return Err(AwaError::Serialization(fault)),
                };
                let tags = match read_tags(json::map_get(map, "tags")) {
                    Ok(tags) => tags,
                    Err(fault) => return Err(AwaError::Serialization(fault)),
                };
                (
                    read_metadata(json::map_get(map, "metadata")),
                    tags,
                    errors,
                    read_progress(json::map_get(map, "progress")),
                )
            },
            None => match json::as_array(&value) {
                Some(items) => {
                    let tags = match read_tags(nth_item(items, 1)) {
                        Ok(tags) => tags,
                        Err(fault) => return Err(AwaError::Serialization(fault)),
                    };
                    let errors = match read_errors(nth_item(items, 2)) {
                        Ok(errors) => errors,
                        Err(fault) => return Err(AwaError::Serialization(fault)),
                    };
                    if items.len() > 4 {
                        return Err(AwaError::Serialization(PayloadFault::TooManyFields));
                    }
                    (
                        read_metadata(nth_item(items, 0)),
                        tags,
                        errors,
                        read_progress(nth_item(items, 3)),
                    )
                },
                None => return Err(AwaError::Serialization(PayloadFault::NotARecord)),
            },
        };
        if json::as_object(&metadata).is_none() {
            return Err(error::validation("queue storage payload metadata must be a JSON object"));
        }
        Ok(RuntimePayload { metadata, tags, errors, progress })
    }

    /// The stored form: an object with the non-empty fields only.
    pub fn into_json(self) -> (r: Value)
        ensures
            payload_writes(self@, r),
    {
        let ghost view = self@;
        proof {
            lemma_field_names();
        }
        let mut map = json::map_new();
        if !json::is_empty_json_object(&self.metadata) {
            json::map_insert(&mut map, "metadata".to_owned(), self.metadata);
        }
        if self.tags.len() > 0 {
            let mut items: Vec<Value> = Vec::new();
            let mut i: usize = 0;
            while i < self.tags.len()
                invariant
                    i <= self.tags.len(),
                    items@.len() == i,
                    forall|k: int|
                        0 <= k < i ==> json::node(#[trigger] items@[k]) == JsonNode::Text(
                            self.tags@[k]@,
                        ),
                decreases self.tags.len() - i,
            {
                items.push(json::string_value(self.tags[i].clone()));
                i = i + 1;
            }
            json::map_insert(&mut map, "tags".to_owned(), json::array_value(items));
        }
        if self.errors.len() > 0 {
            json::map_insert(&mut map, "errors".to_owned(), json::array_value(self.errors));
        }
        match self.progress {
            Some(progress) => {
                json::map_insert(&mut map, "progress".to_owned(), progress);
            },
            None => {},
        }
        json::object_value(map)
    }

    /// The error history, or nothing when it is empty.
    pub fn errors_option(&self) -> (r: Option<Vec<Value>>)
        ensures
            match r {
                Some(errors) => self@.errors.len() > 0 && errors@ == self@.errors,
                None => self@.errors.len() == 0,
            },
    {
        if self.errors.len() > 0 {
            Some(json::clone_items(&self.errors))
        } else {
            None
        }
    }

    /// Appends to the error history.
    pub fn push_error(&mut self, error: Value)
        ensures
            final(self)@ == old(self)@.with_error(error),
    {
        self.errors.push(error);
    }

    /// Replaces the progress.
    pub fn set_progress(&mut self, progress: Option<Value>)
        ensures
            final(self)@ == old(self)@.with_progress(progress),
    {
        self.progress = progress;
    }

    /// Drops null progress, as storing and reading back would.
    pub fn settle(&mut self)
        ensures
            final(self)@ == old(self)@.settled(),
    {
        let absent = match &self.progress {
            Some(progress) => json::is_null(progress),
            None => false,
        };
        if absent {
            self.progress = None;
        }
    }

    /// Sets a metadata entry.
    pub fn set_metadata_entry(&mut self, key: &str, value: Value)
        requires
            old(self)@.metadata is Object,
        ensures
            final(self)@ == old(self)@.with_metadata(
                JsonNode::Object(old(self)@.metadata->Object_0.insert(key@, value)),
            ),
    {
        let mut metadata = json::null();
        std::mem::swap(&mut metadata, &mut self.metadata);
        match json::into_object(metadata) {
            Ok(mut map) => {
                json::map_insert(&mut map, key.to_owned(), value);
                self.metadata = json::object_value(map);
            },
            Err(other) => {
                self.metadata = other;
            },
        }
    }

    /// Sets a metadata entry unless the key already has one.
    pub fn note_metadata_entry(&mut self, key: &str, value: Value)
        requires
            old(self)@.metadata is Object,
        ensures
            final(self)@ == old(self)@.with_metadata(
                with_entry_if_absent(old(self)@.metadata, key@, value),
            ),
    {
        let present = match json::as_object(&self.metadata) {
            Some(map) => json::map_get(map, key).is_some(),
            None => true,
        };
        if !present {
            self.set_metadata_entry(key, value);
        }
    }

    /// Records the result that a callback delivered in the metadata.
    pub fn insert_callback_result(&mut self, result: Option<Value>)
        requires
            old(self)@.metadata is Object,
        ensures
            final(self)@.metadata is Object,
            final(self)@ == old(self)@.with_metadata(final(self)@.metadata),
            callback_result_noted(old(self)@.metadata, result, final(self)@.metadata),
    {
        let value = match result {
            Some(value) => value,
            None => json::null(),
        };
        self.set_metadata_entry("_awa_callback_result", value);
    }
}

/// An object with an entry added unless its key is taken.
pub open spec fn with_entry_if_absent(node: JsonNode, key: Seq<char>, value: Value) -> JsonNode {
    let entries = node->Object_0;
    if entries.dom().contains(key) {
        node
    } else {
        JsonNode::Object(entries.insert(key, value))
    }
}

/// `after` is `before` with the callback result under its reserved key; no
/// result counts as null.
pub open spec fn callback_result_noted(
    before: JsonNode,
    result: Option<Value>,
    after: JsonNode,
) -> bool {
    exists|value: Value|
        #![trigger before->Object_0.insert("_awa_callback_result"@, value)]
        (match result {
            Some(v) => value == v,
            None => json::node(value) is Null,
        }) && after == JsonNode::Object(before->Object_0.insert("_awa_callback_result"@, value))
}

/// The payload that a reader of an attempt sees: the stored payload, with the
/// attempt's progress over it, and the callback result in the metadata.
pub open spec fn materialized(
    stored: Value,
    progress: Option<Value>,
    callback_result: Option<Value>,
    seen: PayloadView,
) -> bool {
    let base = payload_of(stored).with_reported_progress(progress);
    match callback_result {
        None => seen == base,
        Some(result) => seen == base.with_metadata(
            JsonNode::Object(base.metadata->Object_0.insert("_awa_callback_result"@, result)),
        ),
    }
}

/// Builds the payload that a reader of an attempt sees.
pub fn materialize_runtime_payload(
    payload: Value,
    progress: Option<Value>,
    callback_result: Option<Value>,
) -> (r: Result<RuntimePayload, AwaError>)
    ensures
        match r {
            Ok(p) => payload_readable(payload) && materialized(
                payload,
                progress,
                callback_result,
                p@,
            ),
            Err(err) => !payload_readable(payload) && is_payload_error(payload, err),
        },
{
    match RuntimePayload::from_json(payload) {
        Err(err) => Err(err),
        Ok(mut p) => {
            if progress.is_some() {
                p.set_progress(progress);
            }
            if callback_result.is_some() {
                p.insert_callback_result(callback_result);
            }
            Ok(p)
        },
    }
}

/// Stores an attempt's progress into a payload; without progress the stored
/// one stays.
pub fn payload_with_attempt_state(payload: Value, progress: Option<Value>) -> (r: Result<
    Value,
    AwaError,
>)
    ensures
        match r {
            Ok(out) => payload_readable(payload) && payload_writes(
                payload_of(payload).with_reported_progress(progress),
                out,
            ),
            Err(err) => !payload_readable(payload) && is_payload_error(payload, err),
        },
{
    match RuntimePayload::from_json(payload) {
        Err(err) => Err(err),
        Ok(mut p) => {
            if progress.is_some() {
                p.set_progress(progress);
            }
            Ok(p.into_json())
        },
    }
}

/// Replaces the progress of a payload, also by none.
pub fn with_progress(payload: Value, progress: Option<Value>) -> (r: Result<Value, AwaError>)
    ensures
        match r {
            Ok(out) => payload_readable(payload) && payload_writes(
                payload_of(payload).with_progress(progress),
                out,
            ),
            Err(err) => !payload_readable(payload) && is_payload_error(payload, err),
        },
{
    match RuntimePayload::from_json(payload) {
        Err(err) => Err(err),
        Ok(mut p) => {
            p.set_progress(progress);
            Ok(p.into_json())
        },
    }
}

/// Builds a stored payload from its parts.
pub fn payload_from_parts(
    metadata: Value,
    tags: Vec<String>,
    errors: Option<Vec<Value>>,
    progress: Option<Value>,
) -> (r: Value)
    ensures
        payload_writes(
            PayloadView {
                metadata: json::node(metadata),
                tags: texts(tags@),
                errors: match errors {
                    Some(e) => e@,
                    None => Seq::empty(),
                },
                progress,
            },
            r,
        ),
{
    let errors = match errors {
        Some(errors) => errors,
        None => Vec::new(),
    };
    RuntimePayload { metadata, tags, errors, progress }.into_json()
}

/// A payload that is not worth a stored copy: null or `{}`.
pub open spec fn storage_payload_empty(value: Value) -> bool {
    json::node(value) is Null || json::is_empty_object(value)
}

/// Whether a payload is not worth a stored copy.
pub fn is_storage_payload_empty(value: &Value) -> (r: bool)
    ensures
        r == storage_payload_empty(*value),
{
    json::is_null(value) || json::is_empty_json_object(value)
}

/// The payload to store: nothing for an empty one.
pub fn storage_payload(value: &Value) -> (r: Option<&Value>)
    ensures
        r == (if storage_payload_empty(*value) {
            None
        } else {
            Some(value)
        }),
{
    if is_storage_payload_empty(value) {
        None
    } else {
        Some(value)
    }
}

/// The payload to store with a terminal row: nothing for an empty one, nor for
/// one that the ready row already holds.
pub open spec fn terminal_payload_stored(value: Value, ready_payload: Option<Value>) -> bool {
    !storage_payload_empty(value) && !(ready_payload matches Some(ready) && json::equal(ready, value))
}

/// The payload to store with a terminal row.
pub fn terminal_storage_payload<'a>(value: &'a Value, ready_payload: Option<&Value>) -> (r: Option<
    &'a Value,
>)
    ensures
        ({
            let ready = match ready_payload {
                Some(v) => Some(*v),
                None => None,
            };
            r == (if terminal_payload_stored(*value, ready) {
                Some(value)
            } else {
                None
            })
        }),
        ready_payload matches Some(ready) && *ready == *value ==> r is None,
{
    if is_storage_payload_empty(value) {
        return None;
    }
    match ready_payload {
        Some(ready) => if json::eq_value(ready, value) {
            None
        } else {
            Some(value)
        },
        None => Some(value),
    }
}

/// Metadata that a compact completion can do without: an object with no keys
/// but those under which the engine keeps a job's provenance.
pub open spec fn only_provenance(value: Value) -> bool {
    json::node(value) matches JsonNode::Object(entries) && forall|key: Seq<char>| #[trigger]
        entries.dom().contains(key) ==> key == "_awa_original_priority"@ || key
            == "_awa_original_queue"@
}

/// Whether a compact completion can do without this metadata.
pub fn is_compact_receipt_completion_metadata(value: &Value) -> (r: bool)
    ensures
        r == only_provenance(*value),
{
    let map = match json::as_object(value) {
        Some(map) => map,
        None => return false,
    };
    let keys = json::map_keys(map);
    let mut i: usize = 0;
    while i < keys.len()
        invariant
            i <= keys.len(),
            forall|k: int|
                0 <= k < i ==> (#[trigger] keys@[k])@ == "_awa_original_priority"@ || keys@[k]@
                    == "_awa_original_queue"@,
            json::node(*value) == JsonNode::Object(json::entries(*map)),
            forall|key: Seq<char>|
                #![trigger json::entries(*map).dom().contains(key)]
                json::entries(*map).dom().contains(key) <==> exists|k: int|
                    0 <= k < keys@.len() && (#[trigger] keys@[k])@ == key,
        decreases keys.len() - i,
    {
        let provenance = keys[i] == "_awa_original_priority".to_owned() || keys[i]
            == "_awa_original_queue".to_owned();
        if !provenance {
            proof {
                let key = keys@[i as int]@;
                assert(json::entries(*map).dom().contains(key));
                assert(key != "_awa_original_priority"@);
                assert(key != "_awa_original_queue"@);
                let entries = json::node(*value)->Object_0;
                assert(entries.dom().contains(key));
            }
            return false;
        }
        i = i + 1;
    }
    true
}

/// `entry` is the error-history entry for `error` in `attempt` at `at`; only a
/// terminal one says so.
pub open spec fn is_lifecycle_error(
    entry: Value,
    error: Seq<char>,
    attempt: i16,
    at: Timestamp,
    terminal: bool,
) -> bool {
    json::node(entry) matches JsonNode::Object(entries) && {
        &&& forall|key: Seq<char>| #[trigger]
            entries.dom().contains(key) <==> key == "error"@ || key == "attempt"@ || key == "at"@
                || (terminal && key == "terminal"@)
        &&& json::node(entries["error"@]) == JsonNode::Text(error)
        &&& json::node(entries["attempt"@]) == JsonNode::Int(attempt as int)
        &&& json::node(entries["at"@]) == JsonNode::Text(clock::rfc3339_text(at.secs, at.nanos))
        &&& terminal ==> json::node(entries["terminal"@]) == JsonNode::Bool(true)
    }
}

pub proof fn lemma_error_entry_names()
    ensures
        "error"@ != "attempt"@,
        "error"@ != "at"@,
        "error"@ != "terminal"@,
        "attempt"@ != "at"@,
        "attempt"@ != "terminal"@,
        "at"@ != "terminal"@,
{
    reveal_strlit("error");
    reveal_strlit("attempt");
    reveal_strlit("at");
    reveal_strlit("terminal");
    assert("error"@.len() == 5);
    assert("attempt"@.len() == 7);
    assert("at"@.len() == 2);
    assert("terminal"@.len() == 8);
}

/// Builds the error-history entry for `error` in `attempt` at `at`.
pub fn lifecycle_error(error: &str, attempt: i16, at: Timestamp, terminal: bool) -> (r: Value)
    requires
        at.valid(),
    ensures
        is_lifecycle_error(r, error@, attempt, at, terminal),
{
    proof {
        lemma_error_entry_names();
    }
    let mut map = json::map_new();
    json::map_insert(&mut map, "error".to_owned(), json::string_value(error.to_owned()));
    json::map_insert(&mut map, "attempt".to_owned(), json::int_value(attempt as i64));
    json::map_insert(&mut map, "at".to_owned(), json::string_value(clock::timestamp_rfc3339(at)));
    if terminal {
        json::map_insert(&mut map, "terminal".to_owned(), json::bool_value(true));
    }
    json::object_value(map)
}

} // verus!
