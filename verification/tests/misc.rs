use change_data_capture_demo::config::{DemoConfig, DEFAULT_TOPIC};
use change_data_capture_demo::event::{DebeziumUpdateEvent, EventDecodeError, EventValidationError, UserDocument};
use change_data_capture_demo::http::{classify_reply, removal_reply, RemovalOutcome, ReplyClass};
use change_data_capture_demo::kafka::{decode_record, RecordDecodeError};
use change_data_capture_demo::search::{
    document_from_event, document_id, prepare_index, user_from_get_body, IndexPreparation,
    SearchReplyError,
};
use change_data_capture_demo::source::updated_user;
use change_data_capture_demo::text::{i64_text, parse_i64, parse_u64, u64_text};

#[test]
fn reads_settings_from_variables() {
    let config = DemoConfig::from_vars(&vec![]);
    assert_eq!(config.topic, DEFAULT_TOPIC);
    assert_eq!(config.index, "users");
    assert_eq!(config.kafka_brokers, "localhost:19092");
    assert_eq!(config.consumer_group, "cdc-demo-indexer");
    assert_eq!(config.opensearch_url, "http://localhost:9200");
    assert_eq!(config.consume_timeout_ms, 10_000);
    let config = DemoConfig::from_vars(&vec![
        ("CDC_TOPIC".to_owned(), "other".to_owned()),
        ("CDC_CONSUME_TIMEOUT_MS".to_owned(), "250".to_owned()),
        ("CDC_POSTGRES_PORT".to_owned(), "70000".to_owned()),
        ("CDC_TOPIC".to_owned(), "ignored".to_owned()),
    ]);
    assert_eq!(config.topic, "other");
    assert_eq!(config.consume_timeout_ms, 250);
    assert_eq!(config.postgres_port, 5432);
    let config = DemoConfig::from_vars(&vec![("CDC_CONSUME_TIMEOUT_MS".to_owned(), "soon".to_owned())]);
    assert_eq!(config.consume_timeout_ms, 10_000);
    assert_eq!(
        config.postgres_connection_string(),
        "host=localhost port=5432 user=postgres password=postgres dbname=app"
    );
}

#[test]
fn renders_and_parses_integers() {
    assert_eq!(u64_text(0), "0");
    assert_eq!(u64_text(1234567890), "1234567890");
    assert_eq!(i64_text(-42), "-42");
    assert_eq!(i64_text(i64::MIN), "-9223372036854775808");
    assert_eq!(parse_u64("+17"), Some(17));
    assert_eq!(parse_u64("18446744073709551615"), Some(u64::MAX));
    assert_eq!(parse_u64("18446744073709551616"), None);
    assert_eq!(parse_u64(""), None);
    assert_eq!(parse_u64("+"), None);
    assert_eq!(parse_u64("1a"), None);
    assert_eq!(parse_i64("-9223372036854775808"), Some(i64::MIN));
    assert_eq!(parse_i64("9223372036854775808"), None);
    assert_eq!(parse_i64("-"), None);
}

#[test]
fn classifies_replies() {
    assert_eq!(classify_reply(200), ReplyClass::Success);
    assert_eq!(classify_reply(204), ReplyClass::Success);
    assert_eq!(classify_reply(404), ReplyClass::NotFound);
    assert_eq!(classify_reply(500), ReplyClass::Failure);
    assert_eq!(prepare_index(200), IndexPreparation::Ready);
    assert_eq!(prepare_index(404), IndexPreparation::Create);
    assert_eq!(prepare_index(403), IndexPreparation::Failed);
}

#[test]
fn maps_events_to_documents() {
    let event = DebeziumUpdateEvent::user_plan_update_with_lsn("t", 42, "Ada", "free", "pro", 1);
    assert_eq!(document_from_event(&event), Ok(UserDocument::new(42, "Ada", "pro")));
    assert_eq!(document_id(42), "42");
    let mut other = event.clone();
    other.value.op = "c".to_owned();
    assert!(matches!(
        document_from_event(&other),
        Err(EventValidationError::UnexpectedOperation { .. })
    ));
}

#[test]
fn reads_get_replies() {
    let found = r#"{"_index":"users","_id":"42","found":true,"_source":{"id":42,"name":"Ada","plan":"pro"}}"#;
    assert_eq!(user_from_get_body(found), Ok(Some(UserDocument::new(42, "Ada", "pro"))));
    assert_eq!(user_from_get_body(r#"{"found":false}"#), Ok(None));
    assert_eq!(user_from_get_body(r#"{"found":true}"#), Err(SearchReplyError::MissingSource));
    assert!(matches!(
        user_from_get_body(r#"{"_source":{"id":42}}"#),
        Err(SearchReplyError::InvalidDocument(m)) if m == "missing field `name`"
    ));
    assert!(matches!(user_from_get_body("not json"), Err(SearchReplyError::InvalidJson(_))));
    assert_eq!(
        SearchReplyError::MissingSource.message(),
        "OpenSearch response did not include `_source`"
    );
}

#[test]
fn decodes_consumed_records() {
    let value = br#"{"after":{"id":1,"name":"A","plan":"p"},"source":{"schema":"public","table":"users","lsn":1},"op":"u"}"#;
    let event = decode_record("topic", Some(br#"{"id":1}"#), Some(value)).unwrap();
    assert_eq!(event.topic, "topic");
    assert_eq!(event.after_document(), Ok(UserDocument::new(1, "A", "p")));
    assert_eq!(
        decode_record("topic", Some(br#"{"id":1}"#), None),
        Err(RecordDecodeError::MissingPayload)
    );
    assert!(matches!(
        decode_record("topic", Some(&[0xff, 0xfe]), Some(value)),
        Err(RecordDecodeError::KeyNotUtf8(_))
    ));
    assert!(matches!(
        decode_record("topic", None, Some(&[0xc3])),
        Err(RecordDecodeError::PayloadNotUtf8(_))
    ));
    assert_eq!(
        decode_record("topic", None, Some(value)),
        Err(RecordDecodeError::Event(EventDecodeError::MissingKey))
    );
    assert_eq!(
        RecordDecodeError::MissingPayload.message(),
        "Kafka message did not include a payload"
    );
}

#[test]
fn reports_updated_rows() {
    assert_eq!(updated_user(1, 42, "Ada", "pro"), Some(UserDocument::new(42, "Ada", "pro")));
    assert_eq!(updated_user(0, 42, "Ada", "pro"), None);
}

#[test]
fn removals_of_absent_things_succeed() {
    assert_eq!(removal_reply(200), RemovalOutcome::Done);
    assert_eq!(removal_reply(404), RemovalOutcome::Done);
    assert_eq!(removal_reply(409), RemovalOutcome::Failed);
}
