use change_data_capture_demo::config::{DemoConfig, DEFAULT_CONSUME_TIMEOUT_MS};
use change_data_capture_demo::connect::{
    connect_base_url, connector_config_url, connector_status_url, connector_url,
    missing_connector_message, postgres_connector_config, wait_step, ConnectorState,
    ConnectorStatus, WaitStep,
};

fn status(connector: &str, tasks: &[&str]) -> ConnectorStatus {
    ConnectorStatus {
        name: "users".to_owned(),
        connector: ConnectorState { state: connector.to_owned() },
        tasks: tasks.iter().map(|t| ConnectorState { state: (*t).to_owned() }).collect(),
    }
}

#[test]
fn running_needs_connector_and_every_task() {
    assert!(status("RUNNING", &["RUNNING"]).is_running());
    assert!(status("RUNNING", &["RUNNING", "RUNNING"]).is_running());
    assert!(!status("RUNNING", &[]).is_running());
    assert!(!status("PAUSED", &["RUNNING"]).is_running());
    assert!(!status("RUNNING", &["RUNNING", "FAILED"]).is_running());
}

#[test]
fn summarizes_status() {
    assert_eq!(
        status("RUNNING", &["RUNNING", "FAILED"]).summary(),
        "users connector=RUNNING, tasks=[RUNNING,FAILED]"
    );
    assert_eq!(status("UNASSIGNED", &[]).summary(), "users connector=UNASSIGNED, tasks=[]");
}

#[test]
fn decodes_status_replies() {
    let reply = r#"{"name":"users","connector":{"state":"RUNNING","worker_id":"w"},"tasks":[{"id":0,"state":"RUNNING"}],"type":"source"}"#;
    let s = ConnectorStatus::from_json(reply).unwrap();
    assert_eq!(s, status("RUNNING", &["RUNNING"]));
    let s = ConnectorStatus::from_json(r#"{"name":"users","connector":{"state":"PAUSED"}}"#).unwrap();
    assert_eq!(s, status("PAUSED", &[]));
    assert_eq!(
        ConnectorStatus::from_json(r#"{"name":"users"}"#),
        Err("missing field `connector`".to_owned())
    );
    assert_eq!(
        ConnectorStatus::from_json(r#"{"name":"users","connector":{"state":"R"},"tasks":{}}"#),
        Err("invalid type: map, expected a sequence".to_owned())
    );
    assert_eq!(
        ConnectorStatus::from_json(r#"{"name":"users","connector":{"state":"R"},"tasks":[{"state":1}]}"#),
        Err("invalid type: integer `1`, expected a string".to_owned())
    );
    assert!(ConnectorStatus::from_json("<html>").is_err());
    let s = ConnectorStatus::from_json(r#"["users", {"state":"RUNNING"}]"#).unwrap();
    assert_eq!(s, status("RUNNING", &[]));
    assert_eq!(
        ConnectorStatus::from_json(r#"["users"]"#),
        Err("invalid length 1, expected struct ConnectorStatus with 3 elements".to_owned())
    );
}

#[test]
fn builds_connector_urls() {
    let base = connect_base_url("http://localhost:8083//");
    assert_eq!(base, "http://localhost:8083");
    assert_eq!(connect_base_url("http://h"), "http://h");
    assert_eq!(connector_url(&base, "c"), "http://localhost:8083/connectors/c");
    assert_eq!(connector_config_url(&base, "c"), "http://localhost:8083/connectors/c/config");
    assert_eq!(connector_status_url(&base, "c"), "http://localhost:8083/connectors/c/status");
    assert_eq!(
        missing_connector_message("c"),
        "Kafka Connect connector `c` does not exist"
    );
}

#[test]
fn configures_the_debezium_connector() {
    let config = DemoConfig::from_vars(&vec![
        ("CDC_CONNECT_POSTGRES_PORT".to_owned(), "6543".to_owned()),
        ("CDC_TOPIC_PREFIX".to_owned(), "demo".to_owned()),
    ]);
    assert_eq!(config.consume_timeout_ms, DEFAULT_CONSUME_TIMEOUT_MS);
    let entries = postgres_connector_config(&config);
    assert_eq!(entries.len(), 23);
    let get = |k: &str| entries.iter().find(|(key, _)| key == k).map(|(_, v)| v.clone());
    assert_eq!(get("database.port"), Some("6543".to_owned()));
    assert_eq!(get("topic.prefix"), Some("demo".to_owned()));
    assert_eq!(get("table.include.list"), Some("public.users".to_owned()));
    assert_eq!(get("value.converter.schemas.enable"), Some("false".to_owned()));
    assert_eq!(get("database.hostname"), Some("postgres".to_owned()));
}

#[test]
fn waits_until_running() {
    let ready = wait_step("c", Ok(status("RUNNING", &["RUNNING"])), true);
    assert!(matches!(ready, WaitStep::Ready(s) if s.is_running()));
    let retry = wait_step("c", Ok(status("RUNNING", &[])), false);
    assert!(matches!(retry, WaitStep::RetryAfterMs(500)));
    let give_up = wait_step("c", Ok(status("FAILED", &["FAILED"])), true);
    match give_up {
        WaitStep::GiveUp(m) => assert_eq!(
            m,
            "timed out waiting for connector `c` to run: connector status was `users connector=FAILED, tasks=[FAILED]`"
        ),
        other => panic!("unexpected {other:?}"),
    }
    let give_up = wait_step("c", Err("refused".to_owned()), true);
    assert!(matches!(give_up, WaitStep::GiveUp(m) if m == "timed out waiting for connector `c` to run: refused"));
}
