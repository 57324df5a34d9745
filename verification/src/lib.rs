//! A change data capture demo library: Debezium-style update events, their
//! decoding and validation, and the small decisions of the CLI and the indexer.

pub mod cli;
pub mod clock;
pub mod config;
pub mod connect;
pub mod event;
pub mod http;
pub mod indexer;
pub mod json;
pub mod kafka;
pub mod search;
pub mod source;
pub mod text;
