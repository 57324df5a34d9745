use change_data_capture_demo::event::{
    ChangeKey, DebeziumUpdateEvent, DebeziumUpdateValue, EventDecodeError, EventValidationError,
    SourceMetadata, UserDocument, UserDocumentBefore, EXPECTED_SCHEMA, EXPECTED_TABLE,
    UPDATE_OPERATION,
};

#[test]
fn deserializes_debezium_style_update_event() {
    let json = r#"{
        "topic": "app.public.users",
        "key": { "id": 42 },
        "value": {
            "before": { "id": 42, "name": "Ada", "plan": "free" },
            "after": { "id": 42, "name": "Ada", "plan": "pro" },
            "source": {
                "schema": "public",
                "table": "users",
                "lsn": 24023128
            },
            "op": "u"
        }
    }"#;

    let event = DebeziumUpdateEvent::from_json(json).expect("event should deserialize");

    assert_eq!(event.key.id, 42);
    assert_eq!(event.before_plan(), Some("free"));
    assert_eq!(event.after_plan(), Some("pro"));
}

#[test]
fn decodes_real_debezium_postgres_update_from_kafka_key_and_value() {
    let key = r#"{"id":42}"#;
    let value = r#"{
        "before": { "id": 42, "name": "Ada", "plan": "free" },
        "after": { "id": 42, "name": "Ada", "plan": "pro" },
        "source": {
            "version": "3.4.0.Final",
            "connector": "postgresql",
            "name": "app",
            "ts_ms": 1778980000000,
            "snapshot": "false",
            "db": "app",
            "sequence": "[null,\"24023128\"]",
            "schema": "public",
            "table": "users",
            "txId": 771,
            "lsn": 24023128,
            "xmin": null
        },
        "transaction": null,
        "op": "u",
        "ts_ms": 1778980001000
    }"#;

    let event = DebeziumUpdateEvent::from_kafka_json("app.public.users", Some(key), Some(value))
        .expect("real Debezium JSON should decode");

    assert_eq!(event.topic, "app.public.users");
    assert_eq!(event.key.id, 42);
    assert_eq!(event.before_plan(), Some("free"));
    assert_eq!(event.after_plan(), Some("pro"));
    assert_eq!(event.value.source.lsn, 24_023_128);
}

#[test]
fn decodes_schema_enabled_json_converter_payloads() {
    let key = r#"{
        "schema": { "type": "struct" },
        "payload": { "id": 42 }
    }"#;
    let value = r#"{
        "schema": { "type": "struct" },
        "payload": {
            "before": { "id": 42 },
            "after": { "id": 42, "name": "Ada", "plan": "pro" },
            "source": { "schema": "public", "table": "users", "lsn": 24023128 },
            "op": "u"
        }
    }"#;

    let event = DebeziumUpdateEvent::from_kafka_json("app.public.users", Some(key), Some(value))
        .expect("schema-enabled JSON converter payload should decode");

    assert_eq!(event.key.id, 42);
    assert_eq!(event.before_plan(), None);
    assert_eq!(
        event.after_document().expect("update should include after"),
        UserDocument::new(42, "Ada", "pro")
    );
}

#[test]
fn rejects_tombstone_value_payloads() {
    let error =
        DebeziumUpdateEvent::from_kafka_json("app.public.users", Some(r#"{"id":42}"#), None)
            .expect_err("tombstone should not decode as a user update");

    assert!(matches!(error, EventDecodeError::MissingValue));
}

#[test]
fn rejects_missing_kafka_key() {
    let value = r#"{
        "before": { "id": 42, "name": "Ada", "plan": "free" },
        "after": { "id": 42, "name": "Ada", "plan": "pro" },
        "source": { "schema": "public", "table": "users", "lsn": 24023128 },
        "op": "u"
    }"#;

    let error = DebeziumUpdateEvent::from_kafka_json("app.public.users", None, Some(value))
        .expect_err("keyless user update should fail");

    assert!(matches!(error, EventDecodeError::MissingKey));
}

#[test]
fn rejects_create_events_for_indexer_updates() {
    let event = DebeziumUpdateEvent {
        topic: "app.public.users".to_owned(),
        key: ChangeKey { id: 42 },
        value: DebeziumUpdateValue {
            before: None,
            after: Some(UserDocument::new(42, "Ada", "free")),
            source: SourceMetadata {
                schema: EXPECTED_SCHEMA.to_owned(),
                table: EXPECTED_TABLE.to_owned(),
                lsn: 24_023_128,
            },
            op: "c".to_owned(),
        },
    };

    let error = event
        .validate_expected_users_update()
        .expect_err("create events are not update events");

    assert!(matches!(
        error,
        EventValidationError::UnexpectedOperation { actual, .. } if actual == "c"
    ));
}

#[test]
fn rejects_delete_events_without_after_document() {
    let event = DebeziumUpdateEvent {
        topic: "app.public.users".to_owned(),
        key: ChangeKey { id: 42 },
        value: DebeziumUpdateValue {
            before: Some(UserDocumentBefore::from_document(&UserDocument::new(
                42, "Ada", "pro",
            ))),
            after: None,
            source: SourceMetadata {
                schema: EXPECTED_SCHEMA.to_owned(),
                table: EXPECTED_TABLE.to_owned(),
                lsn: 24_023_128,
            },
            op: UPDATE_OPERATION.to_owned(),
        },
    };

    let error = event
        .validate_expected_users_update()
        .expect_err("updates require an after document");

    assert!(matches!(error, EventValidationError::MissingAfter));
}

#[test]
fn rejects_key_after_mismatches() {
    let event = DebeziumUpdateEvent {
        topic: "app.public.users".to_owned(),
        key: ChangeKey { id: 42 },
        value: DebeziumUpdateValue {
            before: None,
            after: Some(UserDocument::new(7, "Ada", "pro")),
            source: SourceMetadata {
                schema: EXPECTED_SCHEMA.to_owned(),
                table: EXPECTED_TABLE.to_owned(),
                lsn: 24_023_128,
            },
            op: UPDATE_OPERATION.to_owned(),
        },
    };

    let error = event
        .validate_expected_users_update()
        .expect_err("key and after id must match");

    assert!(matches!(
        error,
        EventValidationError::KeyAfterMismatch {
            key_id: 42,
            after_id: 7
        }
    ));
}

#[test]
fn maps_after_value_to_user_document() {
    let event = DebeziumUpdateEvent::user_plan_update_with_lsn(
        "app.public.users",
        42,
        "Ada",
        "free",
        "pro",
        24_023_128,
    );

    assert_eq!(
        event.after_document().expect("event should target users"),
        UserDocument::new(42, "Ada", "pro")
    );
}

#[test]
fn rejects_events_for_unexpected_tables() {
    let mut event = DebeziumUpdateEvent::user_plan_update_with_lsn(
        "app.public.users",
        42,
        "Ada",
        "free",
        "pro",
        24_023_128,
    );
    event.value.source.table = "orders".to_owned();

    let error = event
        .validate_expected_users_update()
        .expect_err("orders should not be accepted as users");

    assert!(matches!(
        error,
        EventValidationError::UnexpectedTable {
            expected,
            actual
        } if expected == "users" && actual == "orders"
    ));
}
