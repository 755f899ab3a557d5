use awa_model::clock::Timestamp;
use awa_model::payload::{
    is_compact_receipt_completion_metadata, lifecycle_error, materialize_runtime_payload,
    payload_from_parts, payload_with_attempt_state, storage_payload, terminal_storage_payload,
    with_progress, RuntimePayload,
};
use serde_json::Value;

fn json(text: &str) -> Value {
    serde_json::from_str(text).expect("test JSON")
}

#[test]
fn default_runtime_payload_serializes_compactly() {
    assert_eq!(
        RuntimePayload::default().into_json(),
        json("{}"),
        "default payloads should not write empty metadata/tags/errors/progress"
    );
    assert_eq!(
        storage_payload(&RuntimePayload::default().into_json()),
        None
    );
}

#[test]
fn missing_runtime_payload_fields_round_trip_with_defaults() {
    let payload = RuntimePayload::from_json(json("{}")).unwrap();

    assert_eq!(payload.metadata, json("{}"));
    assert!(payload.tags.is_empty());
    assert!(payload.errors.is_empty());
    assert_eq!(payload.progress, None);
    assert_eq!(payload.into_json(), json("{}"));
}

#[test]
fn null_runtime_payload_round_trips_with_defaults() {
    let payload = RuntimePayload::from_json(Value::Null).unwrap();

    assert_eq!(payload.metadata, json("{}"));
    assert!(payload.tags.is_empty());
    assert!(payload.errors.is_empty());
    assert_eq!(payload.progress, None);
    assert_eq!(storage_payload(&payload.into_json()), None);
}

#[test]
fn compact_receipt_completion_metadata_only_allows_awa_provenance() {
    assert!(is_compact_receipt_completion_metadata(&json("{}")));
    assert!(is_compact_receipt_completion_metadata(&json(
        r#"{ "_awa_original_priority": 4 }"#
    )));
    assert!(is_compact_receipt_completion_metadata(&json(
        r#"{ "_awa_original_queue": "default", "_awa_original_priority": 4 }"#
    )));
    assert!(!is_compact_receipt_completion_metadata(&json(
        r#"{ "tenant": "acme" }"#
    )));
    assert!(!is_compact_receipt_completion_metadata(&json("null")));
}

#[test]
fn legacy_expanded_runtime_payload_round_trips_to_compact_form() {
    let payload = RuntimePayload::from_json(json(
        r#"{ "metadata": {}, "tags": [], "errors": [], "progress": null }"#,
    ))
    .unwrap();

    assert_eq!(payload.metadata, json("{}"));
    assert!(payload.tags.is_empty());
    assert!(payload.errors.is_empty());
    assert_eq!(payload.progress, None);
    assert_eq!(payload.into_json(), json("{}"));
}

#[test]
fn non_default_runtime_payload_fields_are_preserved() {
    let stored = r#"{
        "metadata": { "source": "test" },
        "tags": ["fast"],
        "errors": [{ "message": "boom" }],
        "progress": { "step": 1 }
    }"#;
    let payload = RuntimePayload::from_json(json(stored)).unwrap();

    assert_eq!(payload.into_json(), json(stored));
}

#[test]
fn unchanged_terminal_payload_elides_storage_copy() {
    let payload = json(r#"{ "metadata": { "source": "test" }, "tags": ["fast"] }"#);

    assert_eq!(terminal_storage_payload(&payload, Some(&payload)), None);

    let changed = json(
        r#"{
            "metadata": { "source": "test" },
            "tags": ["fast"],
            "errors": [{ "message": "boom" }]
        }"#,
    );
    assert_eq!(
        terminal_storage_payload(&changed, Some(&payload)),
        Some(&changed)
    );
}

#[test]
fn unreadable_payloads_are_refused() {
    let message = |text: &str| RuntimePayload::from_json(json(text)).unwrap_err().message();
    assert_eq!(message("7"), "payload is not a record");
    assert_eq!(message("[{}, [], [], null, 1]"), "payload has too many fields");
    assert_eq!(message(r#"{ "tags": 1 }"#), "payload tags must be an array");
    assert_eq!(message(r#"{ "tags": [1] }"#), "payload tags must be strings");
    assert_eq!(message(r#"{ "errors": {} }"#), "payload errors must be an array");
    assert_eq!(
        message(r#"{ "metadata": [] }"#),
        "queue storage payload metadata must be a JSON object"
    );
}

#[test]
fn positional_payloads_are_read() {
    let payload = RuntimePayload::from_json(json(r#"[{ "a": 1 }, ["x"], [2], 3]"#)).unwrap();
    assert_eq!(payload.metadata, json(r#"{ "a": 1 }"#));
    assert_eq!(payload.tags, vec!["x".to_string()]);
    assert_eq!(payload.errors, vec![json("2")]);
    assert_eq!(payload.progress, Some(json("3")));
}

#[test]
fn progress_is_replaced_or_kept() {
    let stored = || json(r#"{ "progress": 1 }"#);
    assert_eq!(
        payload_with_attempt_state(stored(), None).unwrap(),
        json(r#"{ "progress": 1 }"#)
    );
    assert_eq!(
        payload_with_attempt_state(stored(), Some(json("2"))).unwrap(),
        json(r#"{ "progress": 2 }"#)
    );
    assert_eq!(with_progress(stored(), None).unwrap(), json("{}"));
}

#[test]
fn settling_drops_null_progress() {
    let mut payload = RuntimePayload::default();
    payload.set_progress(Some(Value::Null));
    payload.settle();
    assert_eq!(payload.progress, None);
    payload.set_progress(Some(json("5")));
    payload.settle();
    assert_eq!(payload.progress, Some(json("5")));
}

#[test]
fn callback_results_are_shown_in_the_metadata() {
    let seen = materialize_runtime_payload(
        json(r#"{ "metadata": { "a": 1 } }"#),
        Some(json("7")),
        Some(json(r#""ok""#)),
    )
    .unwrap();
    assert_eq!(
        seen.metadata,
        json(r#"{ "a": 1, "_awa_callback_result": "ok" }"#)
    );
    assert_eq!(seen.progress, Some(json("7")));
}

#[test]
fn payload_parts_are_joined() {
    assert_eq!(
        payload_from_parts(
            json(r#"{ "k": true }"#),
            vec!["t".to_string()],
            None,
            Some(json("1"))
        ),
        json(r#"{ "metadata": { "k": true }, "tags": ["t"], "progress": 1 }"#)
    );
}

#[test]
fn lifecycle_errors_carry_attempt_and_time() {
    let at = Timestamp {
        secs: 1_781_438_400,
        nanos: 0,
    };
    assert_eq!(
        lifecycle_error("boom", 3, at, false),
        json(r#"{ "error": "boom", "attempt": 3, "at": "2026-06-14T12:00:00+00:00" }"#)
    );
    assert_eq!(
        lifecycle_error("boom", 3, at, true),
        json(
            r#"{ "error": "boom", "attempt": 3, "at": "2026-06-14T12:00:00+00:00", "terminal": true }"#
        )
    );
}

#[test]
fn metadata_entries_are_noted_once() {
    let mut payload = RuntimePayload::default();
    payload.note_metadata_entry("_awa_original_priority", json("4"));
    payload.note_metadata_entry("_awa_original_priority", json("2"));
    assert_eq!(payload.metadata, json(r#"{ "_awa_original_priority": 4 }"#));
    payload.push_error(json("1"));
    assert_eq!(payload.errors_option(), Some(vec![json("1")]));
}
