use change_data_capture_demo::event::{DebeziumUpdateEvent, UserDocumentBefore};
use change_data_capture_demo::kafka::{receive_step, ReceiveStep, UNKNOWN_TOPIC_RETRY_MS};
use change_data_capture_demo::text::{i64_text, parse_i64};

#[test]
fn validation_ignores_before_and_topic() {
    let a = DebeziumUpdateEvent::user_plan_update_with_lsn("one", 42, "Ada", "free", "pro", 1);
    let mut b = a.clone();
    b.topic = "two".to_owned();
    b.value.before = Some(UserDocumentBefore { id: None, name: None, plan: None });
    assert_eq!(a.validate_expected_users_update(), b.validate_expected_users_update());
    assert_eq!(a.after_document(), b.after_document());
    b.value.before = None;
    assert_eq!(a.after_document(), b.after_document());
}

#[test]
fn schema_envelopes_decode_like_their_payloads() {
    let value = r#"{"after":{"id":5,"name":"E","plan":"p"},"source":{"schema":"public","table":"users","lsn":3},"op":"u"}"#;
    let wrapped = format!(r#"{{"schema":{{"type":"struct"}},"payload":{value}}}"#);
    let plain = DebeziumUpdateEvent::from_kafka_json("t", Some(r#"{"id":5}"#), Some(value));
    let enveloped = DebeziumUpdateEvent::from_kafka_json(
        "t",
        Some(r#"{"schema":{"type":"struct"},"payload":{"id":5}}"#),
        Some(&wrapped),
    );
    assert_eq!(plain, enveloped);
    assert!(plain.is_ok());
}

#[test]
fn extra_members_do_not_change_the_event() {
    let value = r#"{"after":{"id":5,"name":"E","plan":"p"},"source":{"schema":"public","table":"users","lsn":3},"op":"u"}"#;
    let noisy = r#"{"ts_ms":1,"after":{"id":5,"name":"E","plan":"p"},"source":{"schema":"public","table":"users","lsn":3,"db":"app"},"op":"u","transaction":null}"#;
    assert_eq!(
        DebeziumUpdateEvent::from_kafka_json("t", Some(r#"{"id":5}"#), Some(value)),
        DebeziumUpdateEvent::from_kafka_json("t", Some(r#"{"id":5}"#), Some(noisy))
    );
}

#[test]
fn whole_events_ignore_the_record_topic_and_key() {
    let value = r#"{"topic":"x","key":{"id":3},"value":{"source":{"schema":"public","table":"users","lsn":2},"op":"u"}}"#;
    assert_eq!(
        DebeziumUpdateEvent::from_kafka_json("a", None, Some(value)),
        DebeziumUpdateEvent::from_kafka_json("b", Some("not json"), Some(value))
    );
}

#[test]
fn integer_text_reads_back() {
    for i in [0, 7, -1, 42, i64::MAX, i64::MIN, -100] {
        assert_eq!(parse_i64(&i64_text(i)), Some(i));
    }
}

#[test]
fn written_records_read_back() {
    let event =
        DebeziumUpdateEvent::user_plan_update_with_lsn("app.public.users", -42, "Ada", "free", "pro", 24_023_128);
    // The key and value texts that serde_json writes for `event.key` and `event.value`.
    let key = r#"{"id":-42}"#;
    let value = r#"{"before":{"id":-42,"name":"Ada","plan":"free"},"after":{"id":-42,"name":"Ada","plan":"pro"},"source":{"schema":"public","table":"users","lsn":24023128},"op":"u"}"#;
    assert_eq!(
        DebeziumUpdateEvent::from_kafka_json("app.public.users", Some(key), Some(value)),
        Ok(event.clone())
    );
    let mut moved = event.clone();
    moved.topic = "elsewhere".to_owned();
    assert_eq!(
        DebeziumUpdateEvent::from_kafka_json("elsewhere", Some(key), Some(value)),
        Ok(moved)
    );
    let whole = format!(r#"{{"topic":"app.public.users","key":{key},"value":{value}}}"#);
    assert_eq!(DebeziumUpdateEvent::from_kafka_json("other", None, Some(&whole)), Ok(event.clone()));
    assert_eq!(DebeziumUpdateEvent::from_kafka_json("other", Some("[]"), Some(&whole)), Ok(event));
}

#[test]
fn a_missing_topic_is_waited_for() {
    assert_eq!(receive_step(true), ReceiveStep::RetryAfterMs(UNKNOWN_TOPIC_RETRY_MS));
    assert_eq!(UNKNOWN_TOPIC_RETRY_MS, 250);
    assert_eq!(receive_step(false), ReceiveStep::Fail);
}
