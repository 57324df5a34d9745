//! Debezium-style user update events: their records, how they are built,
//! validated against the `public.users` update contract, and decoded from the
//! JSON that Kafka Connect's JSON converter writes.

use vstd::prelude::*;
use vstd::string::*;


use crate::json::{
    decode_i64, decode_opt_i64, decode_opt_string, decode_string, decode_u64, error_text,
    errors_view, field, get_field, is_null, json_i64, json_opt_i64, json_opt_string, json_string,
    json_u64, lemma_distinct_four, lemma_distinct_three, lemma_foreign_name_absent,
    lemma_record_readable, lemma_unknown_member_ignored, lemma_well_formed_record, name_index,
    names_view, parse_json, parse_view, parsed_json, present_error, record_failure,
    record_failure_text, record_object, record_slot, result_view, slot, JsonNumber, JsonValue,
};
use crate::text::{integer_text, i64_text, opt_text, str_eq};

verus! {

/// The source schema that the indexer accepts.
pub const EXPECTED_SCHEMA: &'static str = "public";

/// The source table that the indexer accepts.
pub const EXPECTED_TABLE: &'static str = "users";

/// Debezium's operation code for an update.
pub const UPDATE_OPERATION: &'static str = "u";

/// A user row as the read model stores it.
#[derive(Debug, Clone, PartialEq, Eq)]
pub struct UserDocument {
    pub id: i64,
    pub name: String,
    pub plan: String,
}

pub struct UserDocumentView {
    pub id: i64,
    pub name: Seq<char>,
    pub plan: Seq<char>,
}

impl View for UserDocument {
    type V = UserDocumentView;

    open spec fn view(&self) -> UserDocumentView {
        UserDocumentView { id: self.id, name: self.name@, plan: self.plan@ }
    }
}

/// The Kafka key of a change event: the primary key of the row.
#[derive(Debug, Clone, Copy, PartialEq, Eq)]
pub struct ChangeKey {
    pub id: i64,
}

impl View for ChangeKey {
    type V = ChangeKey;

    open spec fn view(&self) -> ChangeKey {
        *self
    }
}

/// Where a change event came from in the source database.
#[derive(Debug, Clone, PartialEq, Eq)]
pub struct SourceMetadata {
    pub schema: String,
    pub table: String,
    pub lsn: u64,
}

pub struct SourceMetadataView {
    pub schema: Seq<char>,
    pub table: Seq<char>,
    pub lsn: u64,
}

impl View for SourceMetadata {
    type V = SourceMetadataView;

    open spec fn view(&self) -> SourceMetadataView {
        SourceMetadataView { schema: self.schema@, table: self.table@, lsn: self.lsn }
    }
}

/// The previous row of an update; Debezium may send it partially.
#[derive(Debug, Clone, PartialEq, Eq)]
pub struct UserDocumentBefore {
    pub id: Option<i64>,
    pub name: Option<String>,
    pub plan: Option<String>,
}

pub struct UserDocumentBeforeView {
    pub id: Option<i64>,
    pub name: Option<Seq<char>>,
    pub plan: Option<Seq<char>>,
}

/// The view of an optional string slice.
pub open spec fn opt_str_view(s: Option<&str>) -> Option<Seq<char>> {
    match s {
        Some(s) => Some(s@),
        None => None,
    }
}

impl View for UserDocumentBefore {
    type V = UserDocumentBeforeView;

    open spec fn view(&self) -> UserDocumentBeforeView {
        UserDocumentBeforeView {
            id: self.id,
            name: opt_text(self.name),
            plan: opt_text(self.plan),
        }
    }
}

/// The value part of a Debezium change event.
#[derive(Debug, Clone, PartialEq, Eq)]
pub struct DebeziumUpdateValue {
    pub before: Option<UserDocumentBefore>,
    pub after: Option<UserDocument>,
    pub source: SourceMetadata,
    pub op: String,
}

pub struct DebeziumUpdateValueView {
    pub before: Option<UserDocumentBeforeView>,
    pub after: Option<UserDocumentView>,
    pub source: SourceMetadataView,
    pub op: Seq<char>,
}

impl View for DebeziumUpdateValue {
    type V = DebeziumUpdateValueView;

    open spec fn view(&self) -> DebeziumUpdateValueView {
        DebeziumUpdateValueView {
            before: match self.before {
                Some(b) => Some(b@),
                None => None,
            },
            after: match self.after {
                Some(a) => Some(a@),
                None => None,
            },
            source: self.source@,
            op: self.op@,
        }
    }
}

/// A change event as the indexer sees it: topic, key and value.
#[derive(Debug, Clone, PartialEq, Eq)]
pub struct DebeziumUpdateEvent {
    pub topic: String,
    pub key: ChangeKey,
    pub value: DebeziumUpdateValue,
}

pub struct DebeziumUpdateEventView {
    pub topic: Seq<char>,
    pub key: ChangeKey,
    pub value: DebeziumUpdateValueView,
}

impl View for DebeziumUpdateEvent {
    type V = DebeziumUpdateEventView;

    open spec fn view(&self) -> DebeziumUpdateEventView {
        DebeziumUpdateEventView { topic: self.topic@, key: self.key, value: self.value@ }
    }
}

/// Why an event is not an update of `public.users` that the indexer can apply.
#[derive(Debug, Clone, PartialEq, Eq)]
pub enum EventValidationError {
    UnexpectedSchema { expected: String, actual: String },
    UnexpectedTable { expected: String, actual: String },
    UnexpectedOperation { expected: String, actual: String },
    MissingAfter,
    KeyAfterMismatch { key_id: i64, after_id: i64 },
}

pub enum EventValidationErrorView {
    UnexpectedSchema { expected: Seq<char>, actual: Seq<char> },
    UnexpectedTable { expected: Seq<char>, actual: Seq<char> },
    UnexpectedOperation { expected: Seq<char>, actual: Seq<char> },
    MissingAfter,
    KeyAfterMismatch { key_id: i64, after_id: i64 },
}

impl View for EventValidationError {
    type V = EventValidationErrorView;

    open spec fn view(&self) -> EventValidationErrorView {
        match self {
            EventValidationError::UnexpectedSchema { expected, actual } =>
                EventValidationErrorView::UnexpectedSchema { expected: expected@, actual: actual@ },
            EventValidationError::UnexpectedTable { expected, actual } =>
                EventValidationErrorView::UnexpectedTable { expected: expected@, actual: actual@ },
            EventValidationError::UnexpectedOperation { expected, actual } =>
                EventValidationErrorView::UnexpectedOperation { expected: expected@, actual: actual@ },
            EventValidationError::MissingAfter => EventValidationErrorView::MissingAfter,
            EventValidationError::KeyAfterMismatch { key_id, after_id } =>
                EventValidationErrorView::KeyAfterMismatch { key_id: *key_id, after_id: *after_id },
        }
    }
}

/// Why a Kafka record could not be decoded into a change event.
#[derive(Debug, Clone, PartialEq, Eq)]
pub enum EventDecodeError {
    MissingKey,
    MissingValue,
    InvalidKeyJson(String),
    InvalidValueJson(String),
}

pub enum EventDecodeErrorView {
    MissingKey,
    MissingValue,
    InvalidKeyJson(Seq<char>),
    InvalidValueJson(Seq<char>),
}

impl View for EventDecodeError {
    type V = EventDecodeErrorView;

    open spec fn view(&self) -> EventDecodeErrorView {
        match self {
            EventDecodeError::MissingKey => EventDecodeErrorView::MissingKey,
            EventDecodeError::MissingValue => EventDecodeErrorView::MissingValue,
            EventDecodeError::InvalidKeyJson(m) => EventDecodeErrorView::InvalidKeyJson(m@),
            EventDecodeError::InvalidValueJson(m) => EventDecodeErrorView::InvalidValueJson(m@),
        }
    }
}

/// The `before` record that carries every field of a document.
pub open spec fn before_of(document: UserDocumentView) -> UserDocumentBeforeView {
    UserDocumentBeforeView {
        id: Some(document.id),
        name: Some(document.name),
        plan: Some(document.plan),
    }
}

/// The update event that moves user `user_id` from `from_plan` to `to_plan`.
pub open spec fn plan_update_event(
    topic: Seq<char>,
    user_id: i64,
    name: Seq<char>,
    from_plan: Seq<char>,
    to_plan: Seq<char>,
    lsn: u64,
) -> DebeziumUpdateEventView {
    DebeziumUpdateEventView {
        topic,
        key: ChangeKey { id: user_id },
        value: DebeziumUpdateValueView {
            before: Some(before_of(UserDocumentView { id: user_id, name, plan: from_plan })),
            after: Some(UserDocumentView { id: user_id, name, plan: to_plan }),
            source: SourceMetadataView {
                schema: EXPECTED_SCHEMA@,
                table: EXPECTED_TABLE@,
                lsn,
            },
            op: UPDATE_OPERATION@,
        },
    }
}

impl DebeziumUpdateEventView {
    /// The update contract of the indexer: checked in this order, the first
    /// failing check gives the error.
    pub open spec fn validation(self) -> Result<(), EventValidationErrorView> {
        if self.value.source.schema != EXPECTED_SCHEMA@ {
            Err(
                EventValidationErrorView::UnexpectedSchema {
                    expected: EXPECTED_SCHEMA@,
                    actual: self.value.source.schema,
                },
            )
        } else if self.value.source.table != EXPECTED_TABLE@ {
            Err(
                EventValidationErrorView::UnexpectedTable {
                    expected: EXPECTED_TABLE@,
                    actual: self.value.source.table,
                },
            )
        } else if self.value.op != UPDATE_OPERATION@ {
            Err(
                EventValidationErrorView::UnexpectedOperation {
                    expected: UPDATE_OPERATION@,
                    actual: self.value.op,
                },
            )
        } else {
            match self.value.after {
                None => Err(EventValidationErrorView::MissingAfter),
                Some(after) => if self.key.id != after.id {
                    Err(
                        EventValidationErrorView::KeyAfterMismatch {
                            key_id: self.key.id,
                            after_id: after.id,
                        },
                    )
                } else {
                    Ok(())
                },
            }
        }
    }

    /// The document that applying the event writes to the read model.
    pub open spec fn after_document(self) -> Result<UserDocumentView, EventValidationErrorView> {
        match self.validation() {
            Err(e) => Err(e),
            Ok(_) => Ok(self.value.after.unwrap()),
        }
    }

    /// The plan of the `before` record, when it carries one.
    pub open spec fn before_plan(self) -> Option<Seq<char>> {
        match self.value.before {
            Some(before) => before.plan,
            None => None,
        }
    }

    /// The plan of the `after` record, when there is one.
    pub open spec fn after_plan(self) -> Option<Seq<char>> {
        match self.value.after {
            Some(after) => Some(after.plan),
            None => None,
        }
    }
}

impl UserDocument {
    pub fn new(id: i64, name: &str, plan: &str) -> (res: Self)
        ensures
            res@ == (UserDocumentView { id, name: name@, plan: plan@ }),
    {
        UserDocument { id, name: name.to_owned(), plan: plan.to_owned() }
    }

    /// A field-by-field copy.
    pub(crate) fn copy(&self) -> (res: Self)
        ensures
            res@ == self@,
    {
        UserDocument { id: self.id, name: self.name.clone(), plan: self.plan.clone() }
    }
}

impl UserDocumentBefore {
    pub fn from_document(document: &UserDocument) -> (res: Self)
        ensures
            res@ == before_of(document@),
    {
        UserDocumentBefore {
            id: Some(document.id),
            name: Some(document.name.clone()),
            plan: Some(document.plan.clone()),
        }
    }
}

/// Converts milliseconds since the epoch into a source ordering marker,
/// saturating at `u64::MAX`.
pub fn lsn_from_millis(millis: u128) -> (res: u64)
    ensures
        res == (if millis > u64::MAX as u128 { u64::MAX as int } else { millis as int }),
{
    if millis > u64::MAX as u128 {
        u64::MAX
    } else {
        millis as u64
    }
}

/// The source ordering marker for a clock reading: the milliseconds since the
/// epoch, saturating at `u64::MAX`, or 0 when the clock reads before the epoch
/// (`None`).
pub fn lsn_from_elapsed(elapsed_millis: Option<u128>) -> (res: u64)
    ensures
        res == match elapsed_millis {
            None => 0,
            Some(m) => if m > u64::MAX as u128 {
                u64::MAX as int
            } else {
                m as int
            },
        },
{
    match elapsed_millis {
        None => 0,
        Some(millis) => lsn_from_millis(millis),
    }
}

/// A source ordering marker taken from the wall clock.
pub fn current_lsn() -> u64 {
    let now = crate::clock::system_now();
    let millis: Option<u128> = match crate::clock::elapsed_since_unix_epoch(&now) {
        Some(elapsed) => Some(crate::clock::duration_millis(&elapsed)),
        None => None,
    };
    lsn_from_elapsed(millis)
}

impl DebeziumUpdateEvent {
    /// An update event for a user plan change, ordered by the wall clock.
    pub fn user_plan_update(
        topic: &str,
        user_id: i64,
        name: &str,
        from_plan: &str,
        to_plan: &str,
    ) -> (res: Self)
        ensures
            res@ == plan_update_event(
                topic@,
                user_id,
                name@,
                from_plan@,
                to_plan@,
                res@.value.source.lsn,
            ),
    {
        Self::user_plan_update_with_lsn(topic, user_id, name, from_plan, to_plan, current_lsn())
    }

    /// An update event for a user plan change at source position `lsn`.
    pub fn user_plan_update_with_lsn(
        topic: &str,
        user_id: i64,
        name: &str,
        from_plan: &str,
        to_plan: &str,
        lsn: u64,
    ) -> (res: Self)
        ensures
            res@ == plan_update_event(topic@, user_id, name@, from_plan@, to_plan@, lsn),
    {
        let before = UserDocumentBefore::from_document(&UserDocument::new(user_id, name, from_plan));
        DebeziumUpdateEvent {
            topic: topic.to_owned(),
            key: ChangeKey { id: user_id },
            value: DebeziumUpdateValue {
                before: Some(before),
                after: Some(UserDocument::new(user_id, name, to_plan)),
                source: SourceMetadata {
                    schema: EXPECTED_SCHEMA.to_owned(),
                    table: EXPECTED_TABLE.to_owned(),
                    lsn,
                },
                op: UPDATE_OPERATION.to_owned(),
            },
        }
    }

    /// The document to index: `value.after` of a valid update.
    pub fn after_document(&self) -> (res: Result<UserDocument, EventValidationError>)
        ensures
            match res {
                Ok(document) => self@.after_document() == Ok::<
                    UserDocumentView,
                    EventValidationErrorView,
                >(document@),
                Err(e) => self@.after_document() == Err::<
                    UserDocumentView,
                    EventValidationErrorView,
                >(e@),
            },
    {
        match self.validate_expected_users_update() {
            Err(e) => Err(e),
            Ok(()) => match &self.value.after {
                Some(after) => Ok(after.copy()),
                None => Err(EventValidationError::MissingAfter),
            },
        }
    }

    pub fn before_plan(&self) -> (res: Option<&str>)
        ensures
            opt_str_view(res) == self@.before_plan(),
    {
        match &self.value.before {
            Some(before) => match &before.plan {
                Some(plan) => Some(plan.as_str()),
                None => None,
            },
            None => None,
        }
    }

    pub fn after_plan(&self) -> (res: Option<&str>)
        ensures
            opt_str_view(res) == self@.after_plan(),
    {
        match &self.value.after {
            Some(after) => Some(after.plan.as_str()),
            None => None,
        }
    }

    /// Checks that the event is an update of `public.users` whose key matches
    /// its `after` record.
    pub fn validate_expected_users_update(&self) -> (res: Result<(), EventValidationError>)
        ensures
            match res {
                Ok(()) => self@.validation() is Ok,
                Err(e) => self@.validation() == Err::<(), EventValidationErrorView>(e@),
            },
    {
        if !str_eq(self.value.source.schema.as_str(), EXPECTED_SCHEMA) {
            return Err(
                EventValidationError::UnexpectedSchema {
                    expected: EXPECTED_SCHEMA.to_owned(),
                    actual: self.value.source.schema.clone(),
                },
            );
        }
        if !str_eq(self.value.source.table.as_str(), EXPECTED_TABLE) {
            return Err(
                EventValidationError::UnexpectedTable {
                    expected: EXPECTED_TABLE.to_owned(),
                    actual: self.value.source.table.clone(),
                },
            );
        }
        if !str_eq(self.value.op.as_str(), UPDATE_OPERATION) {
            return Err(
                EventValidationError::UnexpectedOperation {
                    expected: UPDATE_OPERATION.to_owned(),
                    actual: self.value.op.clone(),
                },
            );
        }
        match &self.value.after {
            None => Err(EventValidationError::MissingAfter),
            Some(after) => {
                if self.key.id != after.id {
                    Err(EventValidationError::KeyAfterMismatch { key_id: self.key.id, after_id: after.id })
                } else {
                    Ok(())
                }
            },
        }
    }
}

/// `ChangeKey` read from a JSON record.
pub open spec fn json_change_key(v: JsonValue) -> Result<ChangeKey, Seq<char>> {
    let id = slot(v, "id"@, 0);
    match record_failure(
        v,
        "ChangeKey"@,
        seq!["id"@],
        seq![false],
        seq![false],
        seq![present_error(id, |x: JsonValue| decode_i64(x))],
    ) {
        Some(e) => Err(e),
        None => Ok(ChangeKey { id: decode_i64(id.unwrap())->Ok_0 }),
    }
}

/// `UserDocument` read from a JSON record.
pub open spec fn json_user_document(v: JsonValue) -> Result<UserDocumentView, Seq<char>> {
    let id = slot(v, "id"@, 0);
    let name = slot(v, "name"@, 1);
    let plan = slot(v, "plan"@, 2);
    match record_failure(
        v,
        "UserDocument"@,
        seq!["id"@, "name"@, "plan"@],
        seq![false, false, false],
        seq![false, false, false],
        seq![
            present_error(id, |x: JsonValue| decode_i64(x)),
            present_error(name, |x: JsonValue| decode_string(x)),
            present_error(plan, |x: JsonValue| decode_string(x)),
        ],
    ) {
        Some(e) => Err(e),
        None => Ok(
            UserDocumentView {
                id: decode_i64(id.unwrap())->Ok_0,
                name: decode_string(name.unwrap())->Ok_0,
                plan: decode_string(plan.unwrap())->Ok_0,
            },
        ),
    }
}

/// `UserDocumentBefore` read from a JSON record; its fields are optional.
pub open spec fn json_user_document_before(v: JsonValue) -> Result<
    UserDocumentBeforeView,
    Seq<char>,
> {
    let id = slot(v, "id"@, 0);
    let name = slot(v, "name"@, 1);
    let plan = slot(v, "plan"@, 2);
    match record_failure(
        v,
        "UserDocumentBefore"@,
        seq!["id"@, "name"@, "plan"@],
        seq![true, true, true],
        seq![false, false, false],
        seq![
            present_error(id, |x: JsonValue| decode_opt_i64(x)),
            present_error(name, |x: JsonValue| decode_opt_string(x)),
            present_error(plan, |x: JsonValue| decode_opt_string(x)),
        ],
    ) {
        Some(e) => Err(e),
        None => Ok(
            UserDocumentBeforeView {
                id: if id is Some {
                    decode_opt_i64(id.unwrap())->Ok_0
                } else {
                    None
                },
                name: if name is Some {
                    decode_opt_string(name.unwrap())->Ok_0
                } else {
                    None
                },
                plan: if plan is Some {
                    decode_opt_string(plan.unwrap())->Ok_0
                } else {
                    None
                },
            },
        ),
    }
}

/// `SourceMetadata` read from a JSON record.
pub open spec fn json_source_metadata(v: JsonValue) -> Result<SourceMetadataView, Seq<char>> {
    let schema = slot(v, "schema"@, 0);
    let table = slot(v, "table"@, 1);
    let lsn = slot(v, "lsn"@, 2);
    match record_failure(
        v,
        "SourceMetadata"@,
        seq!["schema"@, "table"@, "lsn"@],
        seq![false, false, false],
        seq![false, false, false],
        seq![
            present_error(schema, |x: JsonValue| decode_string(x)),
            present_error(table, |x: JsonValue| decode_string(x)),
            present_error(lsn, |x: JsonValue| decode_u64(x)),
        ],
    ) {
        Some(e) => Err(e),
        None => Ok(
            SourceMetadataView {
                schema: decode_string(schema.unwrap())->Ok_0,
                table: decode_string(table.unwrap())->Ok_0,
                lsn: decode_u64(lsn.unwrap())->Ok_0,
            },
        ),
    }
}

/// An optional `before` record: `null` is `None`.
pub open spec fn json_opt_before(v: JsonValue) -> Result<Option<UserDocumentBeforeView>, Seq<char>> {
    if v is Null {
        Ok(None)
    } else {
        match json_user_document_before(v) {
            Ok(b) => Ok(Some(b)),
            Err(e) => Err(e),
        }
    }
}

/// An optional `after` record: `null` is `None`.
pub open spec fn json_opt_after(v: JsonValue) -> Result<Option<UserDocumentView>, Seq<char>> {
    if v is Null {
        Ok(None)
    } else {
        match json_user_document(v) {
            Ok(a) => Ok(Some(a)),
            Err(e) => Err(e),
        }
    }
}

/// `DebeziumUpdateValue` read from a JSON record.
pub open spec fn json_update_value(v: JsonValue) -> Result<DebeziumUpdateValueView, Seq<char>> {
    let before = slot(v, "before"@, 0);
    let after = slot(v, "after"@, 1);
    let source = slot(v, "source"@, 2);
    let op = slot(v, "op"@, 3);
    match record_failure(
        v,
        "DebeziumUpdateValue"@,
        seq!["before"@, "after"@, "source"@, "op"@],
        seq![true, true, false, false],
        seq![false, false, false, false],
        seq![
            present_error(before, |x: JsonValue| json_opt_before(x)),
            present_error(after, |x: JsonValue| json_opt_after(x)),
            present_error(source, |x: JsonValue| json_source_metadata(x)),
            present_error(op, |x: JsonValue| decode_string(x)),
        ],
    ) {
        Some(e) => Err(e),
        None => Ok(
            DebeziumUpdateValueView {
                before: if before is Some {
                    json_opt_before(before.unwrap())->Ok_0
                } else {
                    None
                },
                after: if after is Some {
                    json_opt_after(after.unwrap())->Ok_0
                } else {
                    None
                },
                source: json_source_metadata(source.unwrap())->Ok_0,
                op: decode_string(op.unwrap())->Ok_0,
            },
        ),
    }
}

/// `DebeziumUpdateEvent` read from a JSON record.
pub open spec fn json_update_event(v: JsonValue) -> Result<DebeziumUpdateEventView, Seq<char>> {
    let topic = slot(v, "topic"@, 0);
    let key = slot(v, "key"@, 1);
    let value = slot(v, "value"@, 2);
    match record_failure(
        v,
        "DebeziumUpdateEvent"@,
        seq!["topic"@, "key"@, "value"@],
        seq![false, false, false],
        seq![false, false, false],
        seq![
            present_error(topic, |x: JsonValue| decode_string(x)),
            present_error(key, |x: JsonValue| json_change_key(x)),
            present_error(value, |x: JsonValue| json_update_value(x)),
        ],
    ) {
        Some(e) => Err(e),
        None => Ok(
            DebeziumUpdateEventView {
                topic: decode_string(topic.unwrap())->Ok_0,
                key: json_change_key(key.unwrap())->Ok_0,
                value: json_update_value(value.unwrap())->Ok_0,
            },
        ),
    }
}

impl ChangeKey {
    /// Reads the key from a JSON record.
    pub fn from_json_value(v: &JsonValue) -> (res: Result<ChangeKey, String>)
        ensures
            result_view(res) == json_change_key(*v),
    {
        let id = match record_slot(v, "id", 0) {
            Some(x) => Some(json_i64(x)),
            None => None,
        };
        let names = vec!["id"];
        let optional = vec![false];
        let errors = vec![error_text(&id)];
        let ghost nv = seq!["id"@];
        let ghost ev = seq![present_error(slot(*v, "id"@, 0), |x: JsonValue| decode_i64(x))];
        proof {
            assert(names_view(names@) =~= nv);
            assert(errors_view(errors@) =~= ev);
            assert(optional@ =~= seq![false]);
        }
        if let Some(e) = record_failure_text(v, "ChangeKey", &names, &optional, &optional, &errors) {
            return Err(e);
        }
        proof {
            lemma_record_readable(*v, "ChangeKey"@, nv, optional@, optional@, ev, 0);
        }
        Ok(ChangeKey { id: id.unwrap().unwrap() })
    }
}

impl UserDocument {
    /// Reads the document from a JSON record.
    pub fn from_json_value(v: &JsonValue) -> (res: Result<UserDocument, String>)
        ensures
            result_view(res) == json_user_document(*v),
    {
        let id = match record_slot(v, "id", 0) {
            Some(x) => Some(json_i64(x)),
            None => None,
        };
        let name = match record_slot(v, "name", 1) {
            Some(x) => Some(json_string(x)),
            None => None,
        };
        let plan = match record_slot(v, "plan", 2) {
            Some(x) => Some(json_string(x)),
            None => None,
        };
        let names = vec!["id", "name", "plan"];
        let optional = vec![false, false, false];
        let errors = vec![error_text(&id), error_text(&name), error_text(&plan)];
        let ghost nv = seq!["id"@, "name"@, "plan"@];
        let ghost ev = seq![
            present_error(slot(*v, "id"@, 0), |x: JsonValue| decode_i64(x)),
            present_error(slot(*v, "name"@, 1), |x: JsonValue| decode_string(x)),
            present_error(slot(*v, "plan"@, 2), |x: JsonValue| decode_string(x)),
        ];
        proof {
            assert(names_view(names@) =~= nv);
            assert(errors_view(errors@) =~= ev);
            assert(optional@ =~= seq![false, false, false]);
        }
        if let Some(e) = record_failure_text(
            v,
            "UserDocument",
            &names,
            &optional,
            &optional,
            &errors,
        ) {
            return Err(e);
        }
        proof {
            reveal_strlit("id");
            reveal_strlit("name");
            reveal_strlit("plan");
            assert("id"@.len() != "name"@.len());
            assert("id"@.len() != "plan"@.len());
            assert("name"@[0] != "plan"@[0]);
            lemma_distinct_three("id"@, "name"@, "plan"@);
            lemma_record_readable(*v, "UserDocument"@, nv, optional@, optional@, ev, 0);
            lemma_record_readable(*v, "UserDocument"@, nv, optional@, optional@, ev, 1);
            lemma_record_readable(*v, "UserDocument"@, nv, optional@, optional@, ev, 2);
        }
        Ok(
            UserDocument {
                id: id.unwrap().unwrap(),
                name: name.unwrap().unwrap(),
                plan: plan.unwrap().unwrap(),
            },
        )
    }
}

impl UserDocumentBefore {
    /// Reads the `before` record from a JSON record.
    pub fn from_json_value(v: &JsonValue) -> (res: Result<UserDocumentBefore, String>)
        ensures
            result_view(res) == json_user_document_before(*v),
    {
        let id = match record_slot(v, "id", 0) {
            Some(x) => Some(json_opt_i64(x)),
            None => None,
        };
        let name = match record_slot(v, "name", 1) {
            Some(x) => Some(json_opt_string(x)),
            None => None,
        };
        let plan = match record_slot(v, "plan", 2) {
            Some(x) => Some(json_opt_string(x)),
            None => None,
        };
        let names = vec!["id", "name", "plan"];
        let optional = vec![true, true, true];
        let defaulted = vec![false, false, false];
        let errors = vec![error_text(&id), error_text(&name), error_text(&plan)];
        let ghost nv = seq!["id"@, "name"@, "plan"@];
        let ghost ev = seq![
            present_error(slot(*v, "id"@, 0), |x: JsonValue| decode_opt_i64(x)),
            present_error(slot(*v, "name"@, 1), |x: JsonValue| decode_opt_string(x)),
            present_error(slot(*v, "plan"@, 2), |x: JsonValue| decode_opt_string(x)),
        ];
        proof {
            assert(names_view(names@) =~= nv);
            assert(errors_view(errors@) =~= ev);
            assert(optional@ =~= seq![true, true, true]);
            assert(defaulted@ =~= seq![false, false, false]);
        }
        if let Some(e) = record_failure_text(
            v,
            "UserDocumentBefore",
            &names,
            &optional,
            &defaulted,
            &errors,
        ) {
            return Err(e);
        }
        proof {
            reveal_strlit("id");
            reveal_strlit("name");
            reveal_strlit("plan");
            assert("id"@.len() != "name"@.len());
            assert("id"@.len() != "plan"@.len());
            assert("name"@[0] != "plan"@[0]);
            lemma_distinct_three("id"@, "name"@, "plan"@);
            lemma_record_readable(*v, "UserDocumentBefore"@, nv, optional@, defaulted@, ev, 0);
            lemma_record_readable(*v, "UserDocumentBefore"@, nv, optional@, defaulted@, ev, 1);
            lemma_record_readable(*v, "UserDocumentBefore"@, nv, optional@, defaulted@, ev, 2);
        }
        let id = match id {
            Some(r) => r.unwrap(),
            None => None,
        };
        let name = match name {
            Some(r) => r.unwrap(),
            None => None,
        };
        let plan = match plan {
            Some(r) => r.unwrap(),
            None => None,
        };
        Ok(UserDocumentBefore { id, name, plan })
    }
}

impl SourceMetadata {
    /// Reads the source metadata from a JSON record.
    pub fn from_json_value(v: &JsonValue) -> (res: Result<SourceMetadata, String>)
        ensures
            result_view(res) == json_source_metadata(*v),
    {
        let schema = match record_slot(v, "schema", 0) {
            Some(x) => Some(json_string(x)),
            None => None,
        };
        let table = match record_slot(v, "table", 1) {
            Some(x) => Some(json_string(x)),
            None => None,
        };
        let lsn = match record_slot(v, "lsn", 2) {
            Some(x) => Some(json_u64(x)),
            None => None,
        };
        let names = vec!["schema", "table", "lsn"];
        let optional = vec![false, false, false];
        let errors = vec![error_text(&schema), error_text(&table), error_text(&lsn)];
        let ghost nv = seq!["schema"@, "table"@, "lsn"@];
        let ghost ev = seq![
            present_error(slot(*v, "schema"@, 0), |x: JsonValue| decode_string(x)),
            present_error(slot(*v, "table"@, 1), |x: JsonValue| decode_string(x)),
            present_error(slot(*v, "lsn"@, 2), |x: JsonValue| decode_u64(x)),
        ];
        proof {
            assert(names_view(names@) =~= nv);
            assert(errors_view(errors@) =~= ev);
            assert(optional@ =~= seq![false, false, false]);
        }
        if let Some(e) = record_failure_text(
            v,
            "SourceMetadata",
            &names,
            &optional,
            &optional,
            &errors,
        ) {
            return Err(e);
        }
        proof {
            reveal_strlit("schema");
            reveal_strlit("table");
            reveal_strlit("lsn");
            assert("schema"@.len() != "table"@.len());
            assert("schema"@.len() != "lsn"@.len());
            assert("table"@.len() != "lsn"@.len());
            lemma_distinct_three("schema"@, "table"@, "lsn"@);
            lemma_record_readable(*v, "SourceMetadata"@, nv, optional@, optional@, ev, 0);
            lemma_record_readable(*v, "SourceMetadata"@, nv, optional@, optional@, ev, 1);
            lemma_record_readable(*v, "SourceMetadata"@, nv, optional@, optional@, ev, 2);
        }
        Ok(
            SourceMetadata {
                schema: schema.unwrap().unwrap(),
                table: table.unwrap().unwrap(),
                lsn: lsn.unwrap().unwrap(),
            },
        )
    }
}

fn json_opt_before_value(v: &JsonValue) -> (res: Result<Option<UserDocumentBefore>, String>)
    ensures
        match res {
            Ok(Some(b)) => json_opt_before(*v) == Ok::<Option<UserDocumentBeforeView>, Seq<char>>(
                Some(b@),
            ),
            Ok(None) => json_opt_before(*v) == Ok::<Option<UserDocumentBeforeView>, Seq<char>>(
                None,
            ),
            Err(e) => json_opt_before(*v) == Err::<Option<UserDocumentBeforeView>, Seq<char>>(
                e@,
            ),
        },
{
    if is_null(v) {
        Ok(None)
    } else {
        match UserDocumentBefore::from_json_value(v) {
            Ok(b) => Ok(Some(b)),
            Err(e) => Err(e),
        }
    }
}

fn json_opt_after_value(v: &JsonValue) -> (res: Result<Option<UserDocument>, String>)
    ensures
        match res {
            Ok(Some(a)) => json_opt_after(*v) == Ok::<Option<UserDocumentView>, Seq<char>>(
                Some(a@),
            ),
            Ok(None) => json_opt_after(*v) == Ok::<Option<UserDocumentView>, Seq<char>>(None),
            Err(e) => json_opt_after(*v) == Err::<Option<UserDocumentView>, Seq<char>>(e@),
        },
{
    if is_null(v) {
        Ok(None)
    } else {
        match UserDocument::from_json_value(v) {
            Ok(a) => Ok(Some(a)),
            Err(e) => Err(e),
        }
    }
}

impl DebeziumUpdateValue {
    /// Reads the event value from a JSON record.
    pub fn from_json_value(v: &JsonValue) -> (res: Result<DebeziumUpdateValue, String>)
        ensures
            result_view(res) == json_update_value(*v),
    {
        let before = match record_slot(v, "before", 0) {
            Some(x) => Some(json_opt_before_value(x)),
            None => None,
        };
        let after = match record_slot(v, "after", 1) {
            Some(x) => Some(json_opt_after_value(x)),
            None => None,
        };
        let source = match record_slot(v, "source", 2) {
            Some(x) => Some(SourceMetadata::from_json_value(x)),
            None => None,
        };
        let op = match record_slot(v, "op", 3) {
            Some(x) => Some(json_string(x)),
            None => None,
        };
        let names = vec!["before", "after", "source", "op"];
        let optional = vec![true, true, false, false];
        let defaulted = vec![false, false, false, false];
        let errors = vec![
            error_text(&before),
            error_text(&after),
            error_text(&source),
            error_text(&op),
        ];
        let ghost nv = seq!["before"@, "after"@, "source"@, "op"@];
        let ghost ev = seq![
            present_error(slot(*v, "before"@, 0), |x: JsonValue| json_opt_before(x)),
            present_error(slot(*v, "after"@, 1), |x: JsonValue| json_opt_after(x)),
            present_error(slot(*v, "source"@, 2), |x: JsonValue| json_source_metadata(x)),
            present_error(slot(*v, "op"@, 3), |x: JsonValue| decode_string(x)),
        ];
        proof {
            assert(names_view(names@) =~= nv);
            assert(errors_view(errors@) =~= ev);
            assert(optional@ =~= seq![true, true, false, false]);
            assert(defaulted@ =~= seq![false, false, false, false]);
        }
        if let Some(e) = record_failure_text(
            v,
            "DebeziumUpdateValue",
            &names,
            &optional,
            &defaulted,
            &errors,
        ) {
            return Err(e);
        }
        proof {
            reveal_strlit("before");
            reveal_strlit("after");
            reveal_strlit("source");
            reveal_strlit("op");
            assert("before"@.len() != "after"@.len());
            assert("before"@[0] != "source"@[0]);
            assert("before"@.len() != "op"@.len());
            assert("after"@.len() != "source"@.len());
            assert("after"@.len() != "op"@.len());
            assert("source"@.len() != "op"@.len());
            lemma_distinct_four("before"@, "after"@, "source"@, "op"@);
            lemma_record_readable(*v, "DebeziumUpdateValue"@, nv, optional@, defaulted@, ev, 0);
            lemma_record_readable(*v, "DebeziumUpdateValue"@, nv, optional@, defaulted@, ev, 1);
            lemma_record_readable(*v, "DebeziumUpdateValue"@, nv, optional@, defaulted@, ev, 2);
            lemma_record_readable(*v, "DebeziumUpdateValue"@, nv, optional@, defaulted@, ev, 3);
        }
        let before = match before {
            Some(r) => r.unwrap(),
            None => None,
        };
        let after = match after {
            Some(r) => r.unwrap(),
            None => None,
        };
        Ok(
            DebeziumUpdateValue {
                before,
                after,
                source: source.unwrap().unwrap(),
                op: op.unwrap().unwrap(),
            },
        )
    }
}

impl DebeziumUpdateEvent {
    /// Reads a whole event (topic, key and value) from a JSON record.
    pub fn from_json_value(v: &JsonValue) -> (res: Result<DebeziumUpdateEvent, String>)
        ensures
            result_view(res) == json_update_event(*v),
    {
        let topic = match record_slot(v, "topic", 0) {
            Some(x) => Some(json_string(x)),
            None => None,
        };
        let key = match record_slot(v, "key", 1) {
            Some(x) => Some(ChangeKey::from_json_value(x)),
            None => None,
        };
        let value = match record_slot(v, "value", 2) {
            Some(x) => Some(DebeziumUpdateValue::from_json_value(x)),
            None => None,
        };
        let names = vec!["topic", "key", "value"];
        let optional = vec![false, false, false];
        let errors = vec![error_text(&topic), error_text(&key), error_text(&value)];
        let ghost nv = seq!["topic"@, "key"@, "value"@];
        let ghost ev = seq![
            present_error(slot(*v, "topic"@, 0), |x: JsonValue| decode_string(x)),
            present_error(slot(*v, "key"@, 1), |x: JsonValue| json_change_key(x)),
            present_error(slot(*v, "value"@, 2), |x: JsonValue| json_update_value(x)),
        ];
        proof {
            assert(names_view(names@) =~= nv);
            assert(errors_view(errors@) =~= ev);
            assert(optional@ =~= seq![false, false, false]);
        }
        if let Some(e) = record_failure_text(
            v,
            "DebeziumUpdateEvent",
            &names,
            &optional,
            &optional,
            &errors,
        ) {
            return Err(e);
        }
        proof {
            reveal_strlit("topic");
            reveal_strlit("key");
            reveal_strlit("value");
            assert("topic"@.len() != "key"@.len());
            assert("topic"@[0] != "value"@[0]);
            assert("key"@.len() != "value"@.len());
            lemma_distinct_three("topic"@, "key"@, "value"@);
            lemma_record_readable(*v, "DebeziumUpdateEvent"@, nv, optional@, optional@, ev, 0);
            lemma_record_readable(*v, "DebeziumUpdateEvent"@, nv, optional@, optional@, ev, 1);
            lemma_record_readable(*v, "DebeziumUpdateEvent"@, nv, optional@, optional@, ev, 2);
        }
        Ok(
            DebeziumUpdateEvent {
                topic: topic.unwrap().unwrap(),
                key: key.unwrap().unwrap(),
                value: value.unwrap().unwrap(),
            },
        )
    }

    /// Reads a whole event from JSON text.
    pub fn from_json(text: &str) -> (res: Result<DebeziumUpdateEvent, String>)
        ensures
            result_view(res) == match parsed_json(text@) {
                Ok(v) => json_update_event(v),
                Err(e) => Err(e),
            },
    {
        match parse_json(text) {
            Ok(v) => Self::from_json_value(&v),
            Err(e) => Err(e),
        }
    }
}

/// The part of a Kafka record that a payload came from.
#[derive(Debug, Clone, Copy, PartialEq, Eq)]
pub enum PayloadPart {
    Key,
    Value,
}

/// The error for a JSON problem in one part of a record.
pub open spec fn part_error(part: PayloadPart, message: Seq<char>) -> EventDecodeErrorView {
    match part {
        PayloadPart::Key => EventDecodeErrorView::InvalidKeyJson(message),
        PayloadPart::Value => EventDecodeErrorView::InvalidValueJson(message),
    }
}

/// The error for a payload that is JSON `null`.
pub open spec fn null_payload_error(part: PayloadPart) -> EventDecodeErrorView {
    match part {
        PayloadPart::Key => EventDecodeErrorView::InvalidKeyJson("Kafka key payload was null"@),
        PayloadPart::Value => EventDecodeErrorView::InvalidValueJson(
            "Kafka value payload was null"@,
        ),
    }
}

impl EventDecodeError {
    /// The error for a JSON problem in one part of a record.
    pub fn invalid_json(part: PayloadPart, message: String) -> (res: Self)
        ensures
            res@ == part_error(part, message@),
    {
        match part {
            PayloadPart::Key => EventDecodeError::InvalidKeyJson(message),
            PayloadPart::Value => EventDecodeError::InvalidValueJson(message),
        }
    }

    /// The error for a payload that is JSON `null`.
    pub fn null_payload(part: PayloadPart) -> (res: Self)
        ensures
            res@ == null_payload_error(part),
    {
        match part {
            PayloadPart::Key => EventDecodeError::InvalidKeyJson(
                "Kafka key payload was null".to_owned(),
            ),
            PayloadPart::Value => EventDecodeError::InvalidValueJson(
                "Kafka value payload was null".to_owned(),
            ),
        }
    }
}

/// The record that a JSON converter payload carries: the `payload` member of a
/// schema-enabled envelope (an object with both `schema` and `payload`), else
/// the value itself; `None` when that is `null`.
pub open spec fn converter_payload(v: JsonValue) -> Option<JsonValue> {
    if v is Null {
        None
    } else {
        let payload = if field(v, "schema"@) is Some && field(v, "payload"@) is Some {
            field(v, "payload"@).unwrap()
        } else {
            v
        };
        if payload is Null {
            None
        } else {
            Some(payload)
        }
    }
}

/// The Kafka key read from a JSON converter payload.
pub open spec fn key_from_payload(v: JsonValue) -> Result<ChangeKey, EventDecodeErrorView> {
    match converter_payload(v) {
        None => Err(null_payload_error(PayloadPart::Key)),
        Some(p) => match json_change_key(p) {
            Ok(k) => Ok(k),
            Err(m) => Err(part_error(PayloadPart::Key, m)),
        },
    }
}

/// The event value read from a JSON converter payload.
pub open spec fn value_from_payload(v: JsonValue) -> Result<
    DebeziumUpdateValueView,
    EventDecodeErrorView,
> {
    match converter_payload(v) {
        None => Err(null_payload_error(PayloadPart::Value)),
        Some(p) => match json_update_value(p) {
            Ok(u) => Ok(u),
            Err(m) => Err(part_error(PayloadPart::Value, m)),
        },
    }
}

/// Whether a record value is a whole event (`topic`, `key` and `value` in one
/// object): it has both a `key` and a `value` member.
pub open spec fn is_whole_event(v: JsonValue) -> bool {
    field(v, "key"@) is Some && field(v, "value"@) is Some
}

/// The event that a Kafka record holds, from its topic and the parsed JSON of
/// its key and value (`None` where the record has no key or no value).
pub open spec fn kafka_event(
    topic: Seq<char>,
    key: Option<Result<JsonValue, Seq<char>>>,
    value: Option<Result<JsonValue, Seq<char>>>,
) -> Result<DebeziumUpdateEventView, EventDecodeErrorView> {
    match value {
        None => Err(EventDecodeErrorView::MissingValue),
        Some(Err(m)) => Err(EventDecodeErrorView::InvalidValueJson(m)),
        Some(Ok(v)) => if is_whole_event(v) {
            match json_update_event(v) {
                Ok(e) => Ok(e),
                Err(m) => Err(EventDecodeErrorView::InvalidValueJson(m)),
            }
        } else {
            match key {
                None => Err(EventDecodeErrorView::MissingKey),
                Some(Err(m)) => Err(EventDecodeErrorView::InvalidKeyJson(m)),
                Some(Ok(k)) => match key_from_payload(k) {
                    Err(e) => Err(e),
                    Ok(key) => match value_from_payload(v) {
                        Err(e) => Err(e),
                        Ok(value) => Ok(DebeziumUpdateEventView { topic, key, value }),
                    },
                },
            }
        },
    }
}

/// A decoding result taken by view.
pub open spec fn decode_view(r: Result<DebeziumUpdateEvent, EventDecodeError>) -> Result<
    DebeziumUpdateEventView,
    EventDecodeErrorView,
> {
    match r {
        Ok(e) => Ok(e@),
        Err(e) => Err(e@),
    }
}

/// Parse results taken by view.
pub open spec fn parsed_view(r: Option<Result<JsonValue, String>>) -> Option<
    Result<JsonValue, Seq<char>>,
> {
    match r {
        Some(r) => Some(parse_view(r)),
        None => None,
    }
}

/// What serde_json makes of an optional text.
pub open spec fn parsed_text(t: Option<&str>) -> Option<Result<JsonValue, Seq<char>>> {
    match t {
        Some(t) => Some(parsed_json(t@)),
        None => None,
    }
}

fn payload_record(v: &JsonValue) -> (res: Option<&JsonValue>)
    ensures
        match res {
            Some(p) => converter_payload(*v) == Some(*p),
            None => converter_payload(*v) is None,
        },
{
    if is_null(v) {
        return None;
    }
    let payload = match (get_field(v, "schema"), get_field(v, "payload")) {
        (Some(_), Some(p)) => p,
        _ => v,
    };
    if is_null(payload) {
        None
    } else {
        Some(payload)
    }
}

fn key_from_payload_value(v: &JsonValue) -> (res: Result<ChangeKey, EventDecodeError>)
    ensures
        match res {
            Ok(k) => key_from_payload(*v) == Ok::<ChangeKey, EventDecodeErrorView>(k),
            Err(e) => key_from_payload(*v) == Err::<ChangeKey, EventDecodeErrorView>(e@),
        },
{
    match payload_record(v) {
        None => Err(EventDecodeError::null_payload(PayloadPart::Key)),
        Some(p) => match ChangeKey::from_json_value(p) {
            Ok(k) => Ok(k),
            Err(m) => Err(EventDecodeError::invalid_json(PayloadPart::Key, m)),
        },
    }
}

fn value_from_payload_value(v: &JsonValue) -> (res: Result<DebeziumUpdateValue, EventDecodeError>)
    ensures
        match res {
            Ok(u) => value_from_payload(*v) == Ok::<
                DebeziumUpdateValueView,
                EventDecodeErrorView,
            >(u@),
            Err(e) => value_from_payload(*v) == Err::<
                DebeziumUpdateValueView,
                EventDecodeErrorView,
            >(e@),
        },
{
    match payload_record(v) {
        None => Err(EventDecodeError::null_payload(PayloadPart::Value)),
        Some(p) => match DebeziumUpdateValue::from_json_value(p) {
            Ok(u) => Ok(u),
            Err(m) => Err(EventDecodeError::invalid_json(PayloadPart::Value, m)),
        },
    }
}

impl DebeziumUpdateEvent {
    /// Builds the event from a Kafka record whose key and value JSON were
    /// already parsed (`None` where the record has no key or no value).
    pub fn from_parsed_kafka_json(
        topic: &str,
        key: Option<Result<JsonValue, String>>,
        value: Option<Result<JsonValue, String>>,
    ) -> (res: Result<DebeziumUpdateEvent, EventDecodeError>)
        ensures
            decode_view(res) == kafka_event(topic@, parsed_view(key), parsed_view(value)),
    {
        let value = match value {
            None => return Err(EventDecodeError::MissingValue),
            Some(Err(m)) => return Err(EventDecodeError::InvalidValueJson(m)),
            Some(Ok(v)) => v,
        };
        if get_field(&value, "key").is_some() && get_field(&value, "value").is_some() {
            return match DebeziumUpdateEvent::from_json_value(&value) {
                Ok(e) => Ok(e),
                Err(m) => Err(EventDecodeError::InvalidValueJson(m)),
            };
        }
        let key = match key {
            None => return Err(EventDecodeError::MissingKey),
            Some(Err(m)) => return Err(EventDecodeError::InvalidKeyJson(m)),
            Some(Ok(k)) => k,
        };
        let key = match key_from_payload_value(&key) {
            Ok(k) => k,
            Err(e) => return Err(e),
        };
        let value = match value_from_payload_value(&value) {
            Ok(u) => u,
            Err(e) => return Err(e),
        };
        Ok(DebeziumUpdateEvent { topic: topic.to_owned(), key, value })
    }

    /// Decodes a Kafka record: its topic and the JSON text of its key and value
    /// (`None` where the record has none). A value that holds a whole event is
    /// read as one; otherwise the key and the value are read as JSON converter
    /// payloads, with or without a schema envelope.
    pub fn from_kafka_json(
        topic: &str,
        key_payload: Option<&str>,
        value_payload: Option<&str>,
    ) -> (res: Result<DebeziumUpdateEvent, EventDecodeError>)
        ensures
            decode_view(res) == kafka_event(
                topic@,
                parsed_text(key_payload),
                parsed_text(value_payload),
            ),
    {
        let value = match value_payload {
            Some(text) => Some(parse_json(text)),
            None => None,
        };
        let key = match key_payload {
            Some(text) => Some(parse_json(text)),
            None => None,
        };
        Self::from_parsed_kafka_json(topic, key, value)
    }
}

impl EventValidationErrorView {
    /// The text that describes the error.
    pub open spec fn message(self) -> Seq<char> {
        match self {
            EventValidationErrorView::UnexpectedSchema { expected, actual } => "expected schema `"@
                + expected + "`, got `"@ + actual + "`"@,
            EventValidationErrorView::UnexpectedTable { expected, actual } => "expected table `"@
                + expected + "`, got `"@ + actual + "`"@,
            EventValidationErrorView::UnexpectedOperation { expected, actual } =>
                "expected operation `"@ + expected + "`, got `"@ + actual + "`"@,
            EventValidationErrorView::MissingAfter => "update event did not include `after`"@,
            EventValidationErrorView::KeyAfterMismatch { key_id, after_id } => "event key id `"@
                + integer_text(key_id as int) + "` does not match after id `"@ + integer_text(
                after_id as int,
            ) + "`"@,
        }
    }
}

fn expected_got(kind: &str, expected: &String, actual: &String) -> (res: String)
    ensures
        res@ == "expected "@ + kind@ + " `"@ + expected@ + "`, got `"@ + actual@ + "`"@,
{
    let mut s = "expected ".to_owned();
    s.append(kind);
    s.append(" `");
    s.append(expected.as_str());
    s.append("`, got `");
    s.append(actual.as_str());
    s.append("`");
    s
}

impl EventValidationError {
    /// The text that describes the error.
    pub fn message(&self) -> (res: String)
        ensures
            res@ == self@.message(),
    {
        match self {
            EventValidationError::UnexpectedSchema { expected, actual } => {
                let s = expected_got("schema", expected, actual);
                proof {
                    reveal_strlit("expected ");
                    reveal_strlit(" `");
                    reveal_strlit("schema");
                    reveal_strlit("expected schema `");
                    assert(s@ =~= self@.message());
                }
                s
            },
            EventValidationError::UnexpectedTable { expected, actual } => {
                let s = expected_got("table", expected, actual);
                proof {
                    reveal_strlit("expected ");
                    reveal_strlit(" `");
                    reveal_strlit("table");
                    reveal_strlit("expected table `");
                    assert(s@ =~= self@.message());
                }
                s
            },
            EventValidationError::UnexpectedOperation { expected, actual } => {
                let s = expected_got("operation", expected, actual);
                proof {
                    reveal_strlit("expected ");
                    reveal_strlit(" `");
                    reveal_strlit("operation");
                    reveal_strlit("expected operation `");
                    assert(s@ =~= self@.message());
                }
                s
            },
            EventValidationError::MissingAfter => "update event did not include `after`".to_owned(),
            EventValidationError::KeyAfterMismatch { key_id, after_id } => {
                let mut s = "event key id `".to_owned();
                s.append(i64_text(*key_id).as_str());
                s.append("` does not match after id `");
                s.append(i64_text(*after_id).as_str());
                s.append("`");
                s
            },
        }
    }
}

impl EventDecodeErrorView {
    /// The text that describes the error.
    pub open spec fn message(self) -> Seq<char> {
        match self {
            EventDecodeErrorView::MissingKey => "Kafka message did not include a key"@,
            EventDecodeErrorView::MissingValue => "Kafka message did not include a value"@,
            EventDecodeErrorView::InvalidKeyJson(e) => "invalid Kafka key JSON: "@ + e,
            EventDecodeErrorView::InvalidValueJson(e) => "invalid Kafka value JSON: "@ + e,
        }
    }
}

impl EventDecodeError {
    /// The text that describes the error.
    pub fn message(&self) -> (res: String)
        ensures
            res@ == self@.message(),
    {
        match self {
            EventDecodeError::MissingKey => "Kafka message did not include a key".to_owned(),
            EventDecodeError::MissingValue => "Kafka message did not include a value".to_owned(),
            EventDecodeError::InvalidKeyJson(e) => {
                let mut s = "invalid Kafka key JSON: ".to_owned();
                s.append(e.as_str());
                s
            },
            EventDecodeError::InvalidValueJson(e) => {
                let mut s = "invalid Kafka value JSON: ".to_owned();
                s.append(e.as_str());
                s
            },
        }
    }
}

/// An update event built by `user_plan_update_with_lsn` is one that the
/// indexer accepts: it passes validation, the document it writes is the user
/// with the new plan, and it reports the old and the new plan.
pub proof fn lemma_plan_update_is_indexable(
    topic: Seq<char>,
    user_id: i64,
    name: Seq<char>,
    from_plan: Seq<char>,
    to_plan: Seq<char>,
    lsn: u64,
)
    ensures
        plan_update_event(topic, user_id, name, from_plan, to_plan, lsn).validation() is Ok,
        plan_update_event(topic, user_id, name, from_plan, to_plan, lsn).after_document() == Ok::<
            UserDocumentView,
            EventValidationErrorView,
        >(UserDocumentView { id: user_id, name, plan: to_plan }),
        plan_update_event(topic, user_id, name, from_plan, to_plan, lsn).before_plan() == Some(
            from_plan,
        ),
        plan_update_event(topic, user_id, name, from_plan, to_plan, lsn).after_plan() == Some(
            to_plan,
        ),
{
}

/// Validation reads only the source, the operation, the key and the `after`
/// record: two events that agree on those are accepted or refused alike.
pub proof fn lemma_validation_ignores_before_and_topic(
    a: DebeziumUpdateEventView,
    b: DebeziumUpdateEventView,
)
    requires
        a.value.source.schema == b.value.source.schema,
        a.value.source.table == b.value.source.table,
        a.value.op == b.value.op,
        a.key == b.key,
        a.value.after == b.value.after,
    ensures
        a.validation() == b.validation(),
        a.after_document() == b.after_document(),
{
}

/// A schema-enabled JSON converter envelope (an object with a `schema` and a
/// `payload` member) decodes to what its payload alone decodes to, for keys
/// and for values, whenever the payload is not itself such an envelope.
pub proof fn lemma_schema_envelope_is_transparent(envelope: JsonValue, payload: JsonValue)
    requires
        field(envelope, "schema"@) is Some,
        field(envelope, "payload"@) == Some(payload),
        !(field(payload, "schema"@) is Some && field(payload, "payload"@) is Some),
    ensures
        key_from_payload(envelope) == key_from_payload(payload),
        value_from_payload(envelope) == value_from_payload(payload),
{
}

/// A record value that holds a whole event decodes to that event (or its
/// error) whatever the record's topic and key are.
pub proof fn lemma_whole_event_ignores_topic_and_key(
    topic_a: Seq<char>,
    topic_b: Seq<char>,
    key_a: Option<Result<JsonValue, Seq<char>>>,
    key_b: Option<Result<JsonValue, Seq<char>>>,
    value: JsonValue,
)
    requires
        is_whole_event(value),
    ensures
        kafka_event(topic_a, key_a, Some(Ok(value))) == kafka_event(topic_b, key_b, Some(Ok(value))),
{
}

/// A record that is not a whole event takes its topic from the record: a
/// decoded event carries the topic it was consumed from.
pub proof fn lemma_decoded_event_keeps_topic(
    topic: Seq<char>,
    key: Option<Result<JsonValue, Seq<char>>>,
    value: JsonValue,
)
    requires
        !is_whole_event(value),
        kafka_event(topic, key, Some(Ok(value))) is Ok,
    ensures
        kafka_event(topic, key, Some(Ok(value)))->Ok_0.topic == topic,
{
}

/// Members that a record does not name are ignored: appending one to the
/// `value` of an event, or to its `source`, changes nothing in what is
/// decoded (Debezium adds metadata such as `ts_ms` and `transaction`).
pub proof fn lemma_extra_members_are_ignored(
    a: JsonValue,
    b: JsonValue,
    member: (String, JsonValue),
)
    requires
        a matches JsonValue::Object(ea) && b matches JsonValue::Object(eb) && eb@ == ea@.push(
            member,
        ),
    ensures
        member.0@ != "before"@ && member.0@ != "after"@ && member.0@ != "source"@ && member.0@
            != "op"@ ==> json_update_value(a) == json_update_value(b),
        member.0@ != "schema"@ && member.0@ != "table"@ && member.0@ != "lsn"@
            ==> json_source_metadata(a) == json_source_metadata(b),
{
    let ea = a->Object_0@;
    reveal_with_fuel(name_index, 5);
    crate::json::lemma_entry_lookup_push(ea, member, "before"@);
    crate::json::lemma_entry_lookup_push(ea, member, "after"@);
    crate::json::lemma_entry_lookup_push(ea, member, "source"@);
    crate::json::lemma_entry_lookup_push(ea, member, "op"@);
    crate::json::lemma_entry_lookup_push(ea, member, "schema"@);
    crate::json::lemma_entry_lookup_push(ea, member, "table"@);
    crate::json::lemma_entry_lookup_push(ea, member, "lsn"@);
    if member.0@ != "before"@ && member.0@ != "after"@ && member.0@ != "source"@ && member.0@
        != "op"@ {
        lemma_unknown_member_ignored(
            ea,
            member,
            seq!["before"@, "after"@, "source"@, "op"@],
            seq![true, true, false, false],
            seq![
                present_error(slot(a, "before"@, 0), |x: JsonValue| json_opt_before(x)),
                present_error(slot(a, "after"@, 1), |x: JsonValue| json_opt_after(x)),
                present_error(slot(a, "source"@, 2), |x: JsonValue| json_source_metadata(x)),
                present_error(slot(a, "op"@, 3), |x: JsonValue| decode_string(x)),
            ],
        );
    }
    if member.0@ != "schema"@ && member.0@ != "table"@ && member.0@ != "lsn"@ {
        lemma_unknown_member_ignored(
            ea,
            member,
            seq!["schema"@, "table"@, "lsn"@],
            seq![false, false, false],
            seq![
                present_error(slot(a, "schema"@, 0), |x: JsonValue| decode_string(x)),
                present_error(slot(a, "table"@, 1), |x: JsonValue| decode_string(x)),
                present_error(slot(a, "lsn"@, 2), |x: JsonValue| decode_u64(x)),
            ],
        );
    }
}


/// The JSON of an `i64` as serde_json writes it and reads it back.
pub open spec fn i64_json(v: JsonValue, i: i64) -> bool {
    match v {
        JsonValue::Number(JsonNumber::PosInt(u)) => 0 <= i && u == i,
        JsonValue::Number(JsonNumber::NegInt(n)) => i < 0 && n == i,
        _ => false,
    }
}

/// The JSON of a string.
pub open spec fn string_json(v: JsonValue, s: Seq<char>) -> bool {
    v matches JsonValue::Str(t) && t@ == s
}

/// The JSON of an optional integer: `null` for none.
pub open spec fn opt_i64_json(v: JsonValue, o: Option<i64>) -> bool {
    match o {
        None => v is Null,
        Some(i) => i64_json(v, i),
    }
}

/// The JSON of an optional string: `null` for none.
pub open spec fn opt_string_json(v: JsonValue, o: Option<Seq<char>>) -> bool {
    match o {
        None => v is Null,
        Some(s) => string_json(v, s),
    }
}

/// The JSON of a key: `{"id": ..}`.
pub open spec fn key_json(v: JsonValue, key: ChangeKey) -> bool {
    &&& record_object(v, seq!["id"@])
    &&& field(v, "id"@) matches Some(x) && i64_json(x, key.id)
}

/// The JSON of a user document: `{"id": .., "name": .., "plan": ..}`.
pub open spec fn document_json(v: JsonValue, d: UserDocumentView) -> bool {
    &&& record_object(v, seq!["id"@, "name"@, "plan"@])
    &&& field(v, "id"@) matches Some(x) && i64_json(x, d.id)
    &&& field(v, "name"@) matches Some(x) && string_json(x, d.name)
    &&& field(v, "plan"@) matches Some(x) && string_json(x, d.plan)
}

/// The JSON of a `before` record, its missing fields written as `null`.
pub open spec fn before_json(v: JsonValue, b: UserDocumentBeforeView) -> bool {
    &&& record_object(v, seq!["id"@, "name"@, "plan"@])
    &&& field(v, "id"@) matches Some(x) && opt_i64_json(x, b.id)
    &&& field(v, "name"@) matches Some(x) && opt_string_json(x, b.name)
    &&& field(v, "plan"@) matches Some(x) && opt_string_json(x, b.plan)
}

/// The JSON of the source metadata.
pub open spec fn source_json(v: JsonValue, s: SourceMetadataView) -> bool {
    &&& record_object(v, seq!["schema"@, "table"@, "lsn"@])
    &&& field(v, "schema"@) matches Some(x) && string_json(x, s.schema)
    &&& field(v, "table"@) matches Some(x) && string_json(x, s.table)
    &&& field(v, "lsn"@) == Some(JsonValue::Number(JsonNumber::PosInt(s.lsn)))
}

/// The JSON of an event value: every field written, `null` for an absent
/// `before` or `after`.
pub open spec fn value_json(v: JsonValue, u: DebeziumUpdateValueView) -> bool {
    &&& record_object(v, seq!["before"@, "after"@, "source"@, "op"@])
    &&& field(v, "before"@) matches Some(x) && match u.before {
        None => x is Null,
        Some(b) => before_json(x, b),
    }
    &&& field(v, "after"@) matches Some(x) && match u.after {
        None => x is Null,
        Some(a) => document_json(x, a),
    }
    &&& field(v, "source"@) matches Some(x) && source_json(x, u.source)
    &&& field(v, "op"@) matches Some(x) && string_json(x, u.op)
}

/// The JSON of a whole event: `{"topic": .., "key": .., "value": ..}`.
pub open spec fn event_json(v: JsonValue, e: DebeziumUpdateEventView) -> bool {
    &&& record_object(v, seq!["topic"@, "key"@, "value"@])
    &&& field(v, "topic"@) matches Some(x) && string_json(x, e.topic)
    &&& field(v, "key"@) matches Some(x) && key_json(x, e.key)
    &&& field(v, "value"@) matches Some(x) && value_json(x, e.value)
}

proof fn lemma_key_json_reads(v: JsonValue, key: ChangeKey)
    requires
        key_json(v, key),
    ensures
        json_change_key(v) == Ok::<ChangeKey, Seq<char>>(key),
{
    lemma_well_formed_record(
        v,
        "ChangeKey"@,
        seq!["id"@],
        seq![false],
        seq![false],
        seq![present_error(slot(v, "id"@, 0), |x: JsonValue| decode_i64(x))],
    );
}

proof fn lemma_document_json_reads(v: JsonValue, d: UserDocumentView)
    requires
        document_json(v, d),
    ensures
        json_user_document(v) == Ok::<UserDocumentView, Seq<char>>(d),
{
    lemma_well_formed_record(
        v,
        "UserDocument"@,
        seq!["id"@, "name"@, "plan"@],
        seq![false, false, false],
        seq![false, false, false],
        seq![
            present_error(slot(v, "id"@, 0), |x: JsonValue| decode_i64(x)),
            present_error(slot(v, "name"@, 1), |x: JsonValue| decode_string(x)),
            present_error(slot(v, "plan"@, 2), |x: JsonValue| decode_string(x)),
        ],
    );
}

proof fn lemma_before_json_reads(v: JsonValue, b: UserDocumentBeforeView)
    requires
        before_json(v, b),
    ensures
        json_user_document_before(v) == Ok::<UserDocumentBeforeView, Seq<char>>(b),
{
    lemma_well_formed_record(
        v,
        "UserDocumentBefore"@,
        seq!["id"@, "name"@, "plan"@],
        seq![true, true, true],
        seq![false, false, false],
        seq![
            present_error(slot(v, "id"@, 0), |x: JsonValue| decode_opt_i64(x)),
            present_error(slot(v, "name"@, 1), |x: JsonValue| decode_opt_string(x)),
            present_error(slot(v, "plan"@, 2), |x: JsonValue| decode_opt_string(x)),
        ],
    );
}

proof fn lemma_source_json_reads(v: JsonValue, s: SourceMetadataView)
    requires
        source_json(v, s),
    ensures
        json_source_metadata(v) == Ok::<SourceMetadataView, Seq<char>>(s),
{
    lemma_well_formed_record(
        v,
        "SourceMetadata"@,
        seq!["schema"@, "table"@, "lsn"@],
        seq![false, false, false],
        seq![false, false, false],
        seq![
            present_error(slot(v, "schema"@, 0), |x: JsonValue| decode_string(x)),
            present_error(slot(v, "table"@, 1), |x: JsonValue| decode_string(x)),
            present_error(slot(v, "lsn"@, 2), |x: JsonValue| decode_u64(x)),
        ],
    );
}

proof fn lemma_value_json_reads(v: JsonValue, u: DebeziumUpdateValueView)
    requires
        value_json(v, u),
    ensures
        json_update_value(v) == Ok::<DebeziumUpdateValueView, Seq<char>>(u),
{
    let before = field(v, "before"@).unwrap();
    let after = field(v, "after"@).unwrap();
    if let Some(b) = u.before {
        lemma_before_json_reads(before, b);
    }
    if let Some(a) = u.after {
        lemma_document_json_reads(after, a);
    }
    lemma_source_json_reads(field(v, "source"@).unwrap(), u.source);
    lemma_well_formed_record(
        v,
        "DebeziumUpdateValue"@,
        seq!["before"@, "after"@, "source"@, "op"@],
        seq![true, true, false, false],
        seq![false, false, false, false],
        seq![
            present_error(slot(v, "before"@, 0), |x: JsonValue| json_opt_before(x)),
            present_error(slot(v, "after"@, 1), |x: JsonValue| json_opt_after(x)),
            present_error(slot(v, "source"@, 2), |x: JsonValue| json_source_metadata(x)),
            present_error(slot(v, "op"@, 3), |x: JsonValue| decode_string(x)),
        ],
    );
}

/// What a producer writes reads back: a Kafka key that holds the JSON of an
/// event's key and a value that holds the JSON of its value, each an object
/// with one member per field as serde_json writes them, decode to that event
/// under the topic the record came from.
pub proof fn lemma_written_record_reads_back(
    topic: Seq<char>,
    event: DebeziumUpdateEventView,
    key: JsonValue,
    value: JsonValue,
)
    requires
        key_json(key, event.key),
        value_json(value, event.value),
    ensures
        kafka_event(topic, Some(Ok(key)), Some(Ok(value))) == Ok::<
            DebeziumUpdateEventView,
            EventDecodeErrorView,
        >(DebeziumUpdateEventView { topic, key: event.key, value: event.value }),
{
    reveal_with_fuel(name_index, 5);
    reveal_strlit("key");
    reveal_strlit("schema");
    reveal_strlit("id");
    reveal_strlit("before");
    reveal_strlit("after");
    reveal_strlit("source");
    reveal_strlit("op");
    assert("key"@.len() != "before"@.len() && "key"@.len() != "after"@.len());
    assert("key"@.len() != "source"@.len() && "key"@.len() != "op"@.len());
    assert("schema"@.len() != "after"@.len() && "schema"@[0] != "before"@[0]);
    assert("schema"@[1] != "source"@[1] && "schema"@.len() != "op"@.len());
    assert("schema"@.len() != "id"@.len());
    lemma_foreign_name_absent(value, seq!["before"@, "after"@, "source"@, "op"@], "key"@);
    lemma_foreign_name_absent(value, seq!["before"@, "after"@, "source"@, "op"@], "schema"@);
    lemma_foreign_name_absent(key, seq!["id"@], "schema"@);
    lemma_key_json_reads(key, event.key);
    lemma_value_json_reads(value, event.value);
}

/// A whole event written as one JSON object reads back as itself, whatever the
/// record's topic and key.
pub proof fn lemma_written_event_reads_back(
    topic: Seq<char>,
    key: Option<Result<JsonValue, Seq<char>>>,
    event: DebeziumUpdateEventView,
    value: JsonValue,
)
    requires
        event_json(value, event),
    ensures
        kafka_event(topic, key, Some(Ok(value))) == Ok::<
            DebeziumUpdateEventView,
            EventDecodeErrorView,
        >(event),
{
    lemma_key_json_reads(field(value, "key"@).unwrap(), event.key);
    lemma_value_json_reads(field(value, "value"@).unwrap(), event.value);
    lemma_well_formed_record(
        value,
        "DebeziumUpdateEvent"@,
        seq!["topic"@, "key"@, "value"@],
        seq![false, false, false],
        seq![false, false, false],
        seq![
            present_error(slot(value, "topic"@, 0), |x: JsonValue| decode_string(x)),
            present_error(slot(value, "key"@, 1), |x: JsonValue| json_change_key(x)),
            present_error(slot(value, "value"@, 2), |x: JsonValue| json_update_value(x)),
        ],
    );
}

} // verus!
