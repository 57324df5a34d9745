# change_data_capture_demo

A small change data capture demo: a Postgres row update travels through
Debezium and Kafka into an OpenSearch read model. This crate holds the demo's
logic as a Verus-verified library, and the two programs that drive it.

- `src/` — the library, verified by Verus:
  - `event.rs`: Debezium-style update events; building, validating and
    decoding them from Kafka key/value JSON (plain or schema-enabled JSON
    converter payloads).
  - `json.rs`: a JSON tree read by serde_json, and the rules for reading
    records out of it, with the error texts that serde gives.
  - `indexer.rs`: the indexer as a state machine — receive, index, commit,
    in that order.
  - `connect.rs`: Kafka Connect status, URLs, connector configuration, and the
    wait for a running connector.
  - `search.rs`, `source.rs`, `kafka.rs`, `http.rs`: the decisions taken on
    OpenSearch replies, Postgres updates, consumed records and HTTP statuses.
  - `cli.rs`: the command lines of `cdc` and `indexer`.
  - `config.rs`: settings from `CDC_*` environment variables.
  - `text.rs`, `clock.rs`: decimal text, and the wall clock.
- `app/` — the programs `cdc` and `indexer` (chosen by the executable's
  name): network and database I/O with reqwest, opensearch, tokio-postgres and
  rdkafka, serde copies of the records, logging.
- `tests/` — tests of the library.
