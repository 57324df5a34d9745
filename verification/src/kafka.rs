//! Kafka records: how the bytes of a consumed record become a change event.

use vstd::prelude::*;
use vstd::string::*;
use vstd::utf8::{decode_utf8, valid_utf8};

use crate::event::{kafka_event, DebeziumUpdateEvent, DebeziumUpdateEventView, EventDecodeError, EventDecodeErrorView};
use crate::json::parsed_json;

verus! {

/// The display text of the error that `std::str::from_utf8` reports for bytes
/// that are not UTF-8.
pub uninterp spec fn utf8_error_text(bytes: Seq<u8>) -> Seq<char>;

/// `std::str::from_utf8`, with the text copied into a `String` and the error
/// into its display text: the bytes are accepted exactly when they are UTF-8,
/// and then the text is what they encode.
#[verifier::external_body]
fn utf8_text(bytes: &[u8]) -> (res: Result<String, String>)
    ensures
        match res {
            Ok(s) => valid_utf8(bytes@) && s@ == decode_utf8(bytes@),
            Err(e) => !valid_utf8(bytes@) && e@ == utf8_error_text(bytes@),
        },
{
    match std::str::from_utf8(bytes) {
        Ok(text) => Ok(text.to_owned()),
        Err(error) => Err(error.to_string()),
    }
}

/// Why a consumed record is not a change event.
#[derive(Debug, Clone, PartialEq, Eq)]
pub enum RecordDecodeError {
    KeyNotUtf8(String),
    MissingPayload,
    PayloadNotUtf8(String),
    Event(EventDecodeError),
}

pub enum RecordDecodeErrorView {
    KeyNotUtf8(Seq<char>),
    MissingPayload,
    PayloadNotUtf8(Seq<char>),
    Event(EventDecodeErrorView),
}

impl View for RecordDecodeError {
    type V = RecordDecodeErrorView;

    open spec fn view(&self) -> RecordDecodeErrorView {
        match self {
            RecordDecodeError::KeyNotUtf8(m) => RecordDecodeErrorView::KeyNotUtf8(m@),
            RecordDecodeError::MissingPayload => RecordDecodeErrorView::MissingPayload,
            RecordDecodeError::PayloadNotUtf8(m) => RecordDecodeErrorView::PayloadNotUtf8(m@),
            RecordDecodeError::Event(e) => RecordDecodeErrorView::Event(e@),
        }
    }
}

impl RecordDecodeErrorView {
    pub open spec fn message(self) -> Seq<char> {
        match self {
            RecordDecodeErrorView::KeyNotUtf8(m) => "Kafka message key was not UTF-8: "@ + m,
            RecordDecodeErrorView::MissingPayload => "Kafka message did not include a payload"@,
            RecordDecodeErrorView::PayloadNotUtf8(m) => "Kafka message payload was not UTF-8: "@
                + m,
            RecordDecodeErrorView::Event(e) => "failed to decode CDC event payload: "@
                + e.message(),
        }
    }
}

impl RecordDecodeError {
    /// The text that describes the error.
    pub fn message(&self) -> (res: String)
        ensures
            res@ == self@.message(),
    {
        match self {
            RecordDecodeError::KeyNotUtf8(m) => {
                let mut s = "Kafka message key was not UTF-8: ".to_owned();
                s.append(m.as_str());
                s
            },
            RecordDecodeError::MissingPayload => "Kafka message did not include a payload".to_owned(),
            RecordDecodeError::PayloadNotUtf8(m) => {
                let mut s = "Kafka message payload was not UTF-8: ".to_owned();
                s.append(m.as_str());
                s
            },
            RecordDecodeError::Event(e) => {
                let mut s = "failed to decode CDC event payload: ".to_owned();
                s.append(e.message().as_str());
                s
            },
        }
    }
}

/// The text of a record part, when it is there and is UTF-8.
pub open spec fn part_text(bytes: Option<Seq<u8>>) -> Option<Seq<char>> {
    match bytes {
        Some(b) => Some(decode_utf8(b)),
        None => None,
    }
}

/// What serde_json makes of an optional text.
pub open spec fn parsed_part(t: Option<Seq<char>>) -> Option<Result<crate::json::JsonValue, Seq<char>>> {
    match t {
        Some(t) => Some(parsed_json(t)),
        None => None,
    }
}

/// The event that a consumed record holds, from its topic and the bytes of its
/// key and payload: the key, when there is one, must be UTF-8; the payload
/// must be there and be UTF-8; then both are decoded as JSON.
pub open spec fn record_event(
    topic: Seq<char>,
    key: Option<Seq<u8>>,
    payload: Option<Seq<u8>>,
) -> Result<DebeziumUpdateEventView, RecordDecodeErrorView> {
    if key matches Some(k) && !valid_utf8(k) {
        Err(RecordDecodeErrorView::KeyNotUtf8(utf8_error_text(key.unwrap())))
    } else {
        match payload {
            None => Err(RecordDecodeErrorView::MissingPayload),
            Some(p) => if !valid_utf8(p) {
                Err(RecordDecodeErrorView::PayloadNotUtf8(utf8_error_text(p)))
            } else {
                match kafka_event(topic, parsed_part(part_text(key)), Some(parsed_json(decode_utf8(p)))) {
                    Ok(e) => Ok(e),
                    Err(e) => Err(RecordDecodeErrorView::Event(e)),
                }
            },
        }
    }
}

/// Bytes of a record part taken by view.
pub open spec fn bytes_view(b: Option<&[u8]>) -> Option<Seq<u8>> {
    match b {
        Some(b) => Some(b@),
        None => None,
    }
}

/// A record result taken by view.
pub open spec fn record_view(r: Result<DebeziumUpdateEvent, RecordDecodeError>) -> Result<
    DebeziumUpdateEventView,
    RecordDecodeErrorView,
> {
    match r {
        Ok(e) => Ok(e@),
        Err(e) => Err(e@),
    }
}

/// Decodes a consumed record from its topic and the bytes of its key and
/// payload (`None` where the record has none).
pub fn decode_record(topic: &str, key: Option<&[u8]>, payload: Option<&[u8]>) -> (res: Result<
    DebeziumUpdateEvent,
    RecordDecodeError,
>)
    ensures
        record_view(res) == record_event(topic@, bytes_view(key), bytes_view(payload)),
{
    let key_text = match key {
        None => None,
        Some(bytes) => match utf8_text(bytes) {
            Ok(text) => Some(text),
            Err(e) => return Err(RecordDecodeError::KeyNotUtf8(e)),
        },
    };
    let payload_text = match payload {
        None => return Err(RecordDecodeError::MissingPayload),
        Some(bytes) => match utf8_text(bytes) {
            Ok(text) => text,
            Err(e) => return Err(RecordDecodeError::PayloadNotUtf8(e)),
        },
    };
    let key_ref: Option<&str> = match &key_text {
        Some(text) => Some(text.as_str()),
        None => None,
    };
    match DebeziumUpdateEvent::from_kafka_json(topic, key_ref, Some(payload_text.as_str())) {
        Ok(event) => Ok(event),
        Err(e) => Err(RecordDecodeError::Event(e)),
    }
}

/// What the consumer does after a receive fails.
#[derive(Debug, Clone, Copy, PartialEq, Eq)]
pub enum ReceiveStep {
    /// Wait this many milliseconds and receive again.
    RetryAfterMs(u64),
    /// Give up with the error.
    Fail,
}

/// The pause before receiving again when the topic does not exist yet.
pub const UNKNOWN_TOPIC_RETRY_MS: u64 = 250;

/// A receive that failed because the topic or partition is not known yet is
/// retried after a short pause (Debezium creates the topic with its first
/// change); any other failure ends the wait.
pub open spec fn receive_step_for(unknown_topic: bool) -> ReceiveStep {
    if unknown_topic {
        ReceiveStep::RetryAfterMs(UNKNOWN_TOPIC_RETRY_MS)
    } else {
        ReceiveStep::Fail
    }
}

/// The step after a failed receive, given whether the broker reported an
/// unknown topic or partition.
pub fn receive_step(unknown_topic: bool) -> (res: ReceiveStep)
    ensures
        res == receive_step_for(unknown_topic),
{
    if unknown_topic {
        ReceiveStep::RetryAfterMs(UNKNOWN_TOPIC_RETRY_MS)
    } else {
        ReceiveStep::Fail
    }
}

} // verus!
