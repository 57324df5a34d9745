use change_data_capture_demo::event::{
    current_lsn, lsn_from_elapsed, lsn_from_millis, ChangeKey, DebeziumUpdateEvent, EventDecodeError,
    EventValidationError, UserDocument, UserDocumentBefore,
};
use change_data_capture_demo::json::{parse_json, JsonNumber, JsonValue};

#[test]
fn builds_plan_updates_that_validate() {
    let event = DebeziumUpdateEvent::user_plan_update_with_lsn("t", 7, "Bo", "free", "pro", 5);
    assert_eq!(event.topic, "t");
    assert_eq!(event.key, ChangeKey { id: 7 });
    assert_eq!(event.value.source.schema, "public");
    assert_eq!(event.value.source.table, "users");
    assert_eq!(event.value.source.lsn, 5);
    assert_eq!(event.value.op, "u");
    assert_eq!(
        event.value.before,
        Some(UserDocumentBefore {
            id: Some(7),
            name: Some("Bo".to_owned()),
            plan: Some("free".to_owned())
        })
    );
    assert_eq!(event.validate_expected_users_update(), Ok(()));
    assert_eq!(event.after_document(), Ok(UserDocument::new(7, "Bo", "pro")));
}

#[test]
fn builds_plan_updates_from_the_clock() {
    let event = DebeziumUpdateEvent::user_plan_update("app.public.users", 42, "Ada", "free", "pro");
    assert!(event.value.source.lsn > 0);
    assert_eq!(event.before_plan(), Some("free"));
    assert_eq!(event.after_plan(), Some("pro"));
    assert!(current_lsn() > 1_600_000_000_000);
}

#[test]
fn saturates_lsn_from_millis() {
    assert_eq!(lsn_from_millis(12), 12);
    assert_eq!(lsn_from_millis(u64::MAX as u128), u64::MAX);
    assert_eq!(lsn_from_millis(u64::MAX as u128 + 1), u64::MAX);
}

#[test]
fn rejects_unexpected_schema_first() {
    let mut event = DebeziumUpdateEvent::user_plan_update_with_lsn("t", 1, "A", "a", "b", 1);
    event.value.source.schema = "private".to_owned();
    event.value.source.table = "orders".to_owned();
    let error = event.validate_expected_users_update().unwrap_err();
    assert_eq!(
        error,
        EventValidationError::UnexpectedSchema {
            expected: "public".to_owned(),
            actual: "private".to_owned()
        }
    );
    assert_eq!(error.message(), "expected schema `public`, got `private`");
}

#[test]
fn validation_messages() {
    let mismatch = EventValidationError::KeyAfterMismatch { key_id: 42, after_id: -7 };
    assert_eq!(
        mismatch.message(),
        "event key id `42` does not match after id `-7`"
    );
    assert_eq!(
        EventValidationError::MissingAfter.message(),
        "update event did not include `after`"
    );
    let table = EventValidationError::UnexpectedTable {
        expected: "users".to_owned(),
        actual: "orders".to_owned(),
    };
    assert_eq!(table.message(), "expected table `users`, got `orders`");
    let op = EventValidationError::UnexpectedOperation {
        expected: "u".to_owned(),
        actual: "d".to_owned(),
    };
    assert_eq!(op.message(), "expected operation `u`, got `d`");
}

#[test]
fn decode_messages() {
    assert_eq!(EventDecodeError::MissingKey.message(), "Kafka message did not include a key");
    assert_eq!(
        EventDecodeError::MissingValue.message(),
        "Kafka message did not include a value"
    );
    assert_eq!(
        EventDecodeError::InvalidKeyJson("x".to_owned()).message(),
        "invalid Kafka key JSON: x"
    );
    assert_eq!(
        EventDecodeError::InvalidValueJson("y".to_owned()).message(),
        "invalid Kafka value JSON: y"
    );
}

#[test]
fn rejects_value_text_that_is_not_json() {
    let error = DebeziumUpdateEvent::from_kafka_json("t", Some(r#"{"id":1}"#), Some("{not json"))
        .unwrap_err();
    assert!(matches!(error, EventDecodeError::InvalidValueJson(_)));
}

#[test]
fn rejects_key_text_that_is_not_json() {
    let value = r#"{"after":{"id":1,"name":"A","plan":"p"},"source":{"schema":"public","table":"users","lsn":1},"op":"u"}"#;
    let error = DebeziumUpdateEvent::from_kafka_json("t", Some("[1,"), Some(value)).unwrap_err();
    assert!(matches!(error, EventDecodeError::InvalidKeyJson(_)));
}

#[test]
fn rejects_null_payloads() {
    let value = r#"{"after":{"id":1,"name":"A","plan":"p"},"source":{"schema":"public","table":"users","lsn":1},"op":"u"}"#;
    let error = DebeziumUpdateEvent::from_kafka_json("t", Some("null"), Some(value)).unwrap_err();
    assert_eq!(
        error,
        EventDecodeError::InvalidKeyJson("Kafka key payload was null".to_owned())
    );
    let error =
        DebeziumUpdateEvent::from_kafka_json("t", Some(r#"{"id":1}"#), Some("null")).unwrap_err();
    assert_eq!(
        error,
        EventDecodeError::InvalidValueJson("Kafka value payload was null".to_owned())
    );
    let error = DebeziumUpdateEvent::from_kafka_json(
        "t",
        Some(r#"{"schema":{},"payload":null}"#),
        Some(value),
    )
    .unwrap_err();
    assert_eq!(
        error,
        EventDecodeError::InvalidKeyJson("Kafka key payload was null".to_owned())
    );
}

#[test]
fn reports_missing_and_mistyped_fields() {
    let value = r#"{"after":{"id":1,"name":"A","plan":"p"},"source":{"schema":"public","table":"users","lsn":1}}"#;
    let error = DebeziumUpdateEvent::from_kafka_json("t", Some(r#"{"id":1}"#), Some(value))
        .unwrap_err();
    assert_eq!(
        error,
        EventDecodeError::InvalidValueJson("missing field `op`".to_owned())
    );
    let error = DebeziumUpdateEvent::from_kafka_json("t", Some(r#"{"id":"1"}"#), Some(value))
        .unwrap_err();
    assert_eq!(
        error,
        EventDecodeError::InvalidKeyJson(r#"invalid type: string "1", expected i64"#.to_owned())
    );
    let negative_lsn = r#"{"source":{"schema":"public","table":"users","lsn":-1},"op":"u"}"#;
    let error = DebeziumUpdateEvent::from_kafka_json("t", Some(r#"{"id":1}"#), Some(negative_lsn))
        .unwrap_err();
    assert_eq!(
        error,
        EventDecodeError::InvalidValueJson("invalid value: integer `-1`, expected u64".to_owned())
    );
}

#[test]
fn decodes_whole_events_from_the_value_alone() {
    let value = r#"{"topic":"x","key":{"id":3},"value":{"after":null,"source":{"schema":"public","table":"users","lsn":2},"op":"d"}}"#;
    let event = DebeziumUpdateEvent::from_kafka_json("ignored", None, Some(value)).unwrap();
    assert_eq!(event.topic, "x");
    assert_eq!(event.key.id, 3);
    assert_eq!(event.value.after, None);
    assert_eq!(event.value.before, None);
    assert_eq!(event.after_document(), Err(EventValidationError::UnexpectedOperation {
        expected: "u".to_owned(),
        actual: "d".to_owned()
    }));
}

#[test]
fn reads_records_written_as_arrays() {
    let event = DebeziumUpdateEvent::from_kafka_json(
        "t",
        Some("[9]"),
        Some(r#"[null, [9, "N", "P"], ["public", "users", 4], "u"]"#),
    )
    .unwrap();
    assert_eq!(event.key.id, 9);
    assert_eq!(event.after_document(), Ok(UserDocument::new(9, "N", "P")));
    let error = DebeziumUpdateEvent::from_kafka_json("t", Some("[]"), Some("[]")).unwrap_err();
    assert_eq!(
        error,
        EventDecodeError::InvalidKeyJson(
            "invalid length 0, expected struct ChangeKey with 1 element".to_owned()
        )
    );
    let error = DebeziumUpdateEvent::from_kafka_json("t", Some("[1, 2]"), Some("[]")).unwrap_err();
    assert_eq!(
        error,
        EventDecodeError::InvalidKeyJson(
            "invalid length 2, expected fewer elements in array".to_owned()
        )
    );
}

#[test]
fn decodes_records_from_parsed_json() {
    let key = JsonValue::Object(vec![("id".to_owned(), JsonValue::Number(JsonNumber::NegInt(-5)))]);
    assert_eq!(ChangeKey::from_json_value(&key), Ok(ChangeKey { id: -5 }));
    let big = JsonValue::Object(vec![(
        "id".to_owned(),
        JsonValue::Number(JsonNumber::PosInt(u64::MAX)),
    )]);
    assert_eq!(
        ChangeKey::from_json_value(&big),
        Err("invalid value: integer `18446744073709551615`, expected i64".to_owned())
    );
    let parsed = parse_json(r#"{"id": 1.5}"#).unwrap();
    assert_eq!(
        ChangeKey::from_json_value(&parsed),
        Err("invalid type: floating point `1.5`, expected i64".to_owned())
    );
    assert_eq!(
        UserDocument::from_json_value(&JsonValue::Str("x".to_owned())),
        Err(r#"invalid type: string "x", expected struct UserDocument"#.to_owned())
    );
    let event = DebeziumUpdateEvent::from_parsed_kafka_json(
        "t",
        Some(Err("bad key".to_owned())),
        Some(Ok(JsonValue::Object(vec![]))),
    );
    assert_eq!(event, Err(EventDecodeError::InvalidKeyJson("bad key".to_owned())));
}

#[test]
fn parse_json_reads_numbers_by_class() {
    let v = parse_json("[1, -2, 2.5, 18446744073709551615]").unwrap();
    match v {
        JsonValue::Array(items) => {
            assert_eq!(items.len(), 4);
            assert_eq!(items[0], JsonValue::Number(JsonNumber::PosInt(1)));
            assert_eq!(items[1], JsonValue::Number(JsonNumber::NegInt(-2)));
            assert_eq!(items[2], JsonValue::Number(JsonNumber::Float("2.5".to_owned())));
            assert_eq!(items[3], JsonValue::Number(JsonNumber::PosInt(u64::MAX)));
        }
        other => panic!("expected an array, got {other:?}"),
    }
    assert!(parse_json("").is_err());
}

#[test]
fn lsn_from_elapsed_clock_readings() {
    assert_eq!(lsn_from_elapsed(None), 0);
    assert_eq!(lsn_from_elapsed(Some(24_023_128)), 24_023_128);
    assert_eq!(lsn_from_elapsed(Some(u128::MAX)), u64::MAX);
}

#[test]
fn reports_the_first_failing_member_in_key_order() {
    // serde_json keeps object members sorted by name, and serde reads them in
    // that order: `op` comes before `source`.
    let value = r#"{"source":{"schema":1,"table":"users","lsn":1},"op":2}"#;
    let error = DebeziumUpdateEvent::from_kafka_json("t", Some(r#"{"id":1}"#), Some(value))
        .unwrap_err();
    assert_eq!(
        error,
        EventDecodeError::InvalidValueJson("invalid type: integer `2`, expected a string".to_owned())
    );
    let value = r#"{"source":{"table":7,"schema":true,"lsn":1},"op":"u"}"#;
    let error = DebeziumUpdateEvent::from_kafka_json("t", Some(r#"{"id":1}"#), Some(value))
        .unwrap_err();
    assert_eq!(
        error,
        EventDecodeError::InvalidValueJson("invalid type: boolean `true`, expected a string".to_owned())
    );
}

#[test]
fn names_unexpected_values_as_serde_does() {
    let key = |text: &str| ChangeKey::from_json_value(&parse_json(text).unwrap());
    assert_eq!(key(r#"{"id":null}"#), Err("invalid type: unit value, expected i64".to_owned()));
    assert_eq!(key(r#"{"id":false}"#), Err("invalid type: boolean `false`, expected i64".to_owned()));
    assert_eq!(key(r#"{"id":1e2}"#), Err("invalid type: floating point `100.0`, expected i64".to_owned()));
    assert_eq!(key(r#"{"id":[]}"#), Err("invalid type: sequence, expected i64".to_owned()));
    assert_eq!(key(r#"{"id":{}}"#), Err("invalid type: map, expected i64".to_owned()));
    assert_eq!(
        key(r#"{"id":"a\"b"}"#),
        Err(r#"invalid type: string "a\"b", expected i64"#.to_owned())
    );
    assert_eq!(key("7"), Err("invalid type: integer `7`, expected struct ChangeKey".to_owned()));
    assert_eq!(key("-7"), Err("invalid type: integer `-7`, expected struct ChangeKey".to_owned()));
    assert_eq!(
        UserDocument::from_json_value(&parse_json(r#"[1]"#).unwrap()),
        Err("invalid length 1, expected struct UserDocument with 3 elements".to_owned())
    );
}

#[test]
fn refuses_a_field_given_twice() {
    let key = JsonValue::Object(vec![
        ("id".to_owned(), JsonValue::Number(JsonNumber::PosInt(1))),
        ("id".to_owned(), JsonValue::Number(JsonNumber::PosInt(2))),
    ]);
    assert_eq!(ChangeKey::from_json_value(&key), Err("duplicate field `id`".to_owned()));
    let key = JsonValue::Object(vec![
        ("id".to_owned(), JsonValue::Str("x".to_owned())),
        ("id".to_owned(), JsonValue::Number(JsonNumber::PosInt(2))),
    ]);
    assert_eq!(
        ChangeKey::from_json_value(&key),
        Err(r#"invalid type: string "x", expected i64"#.to_owned())
    );
}
