//! The OpenSearch read model: which document an event writes, where it is
//! stored, and what a `get` reply says about a user.

use vstd::prelude::*;
use vstd::string::*;

use crate::event::{
    json_user_document, DebeziumUpdateEvent, EventValidationError, EventValidationErrorView,
    UserDocument, UserDocumentView,
};
use crate::json::{field, get_field, parse_json, parsed_json, JsonValue};
use crate::text::{i64_text, integer_text};

verus! {

/// The document that applying `event` writes: `value.after` of a valid
/// update of `public.users`.
pub fn document_from_event(event: &DebeziumUpdateEvent) -> (res: Result<
    UserDocument,
    EventValidationError,
>)
    ensures
        match res {
            Ok(document) => event@.after_document() == Ok::<
                UserDocumentView,
                EventValidationErrorView,
            >(document@),
            Err(e) => event@.after_document() == Err::<UserDocumentView, EventValidationErrorView>(
                e@,
            ),
        },
{
    event.after_document()
}

/// The id of the document that stores user `user_id`: the id in decimal.
pub fn document_id(user_id: i64) -> (res: String)
    ensures
        res@ == integer_text(user_id as int),
{
    i64_text(user_id)
}

/// What to do after asking whether the index exists.
#[derive(Debug, Clone, Copy, PartialEq, Eq)]
pub enum IndexPreparation {
    /// The index is there.
    Ready,
    /// The index is missing: create it.
    Create,
    /// The request failed.
    Failed,
}

/// 200 and any other 2xx mean the index exists, 404 that it must be created.
pub open spec fn index_preparation(code: u16) -> IndexPreparation {
    if code == 404 {
        IndexPreparation::Create
    } else if 200 <= code <= 299 {
        IndexPreparation::Ready
    } else {
        IndexPreparation::Failed
    }
}

pub fn prepare_index(exists_status: u16) -> (res: IndexPreparation)
    ensures
        res == index_preparation(exists_status),
{
    if exists_status == 404 {
        IndexPreparation::Create
    } else if 200 <= exists_status && exists_status <= 299 {
        IndexPreparation::Ready
    } else {
        IndexPreparation::Failed
    }
}

/// Why the body of a successful `get` reply yields no user.
#[derive(Debug, Clone, PartialEq, Eq)]
pub enum SearchReplyError {
    /// The body is not JSON.
    InvalidJson(String),
    /// The body lacks `_source`.
    MissingSource,
    /// `_source` is not a user document.
    InvalidDocument(String),
}

pub enum SearchReplyErrorView {
    InvalidJson(Seq<char>),
    MissingSource,
    InvalidDocument(Seq<char>),
}

impl View for SearchReplyError {
    type V = SearchReplyErrorView;

    open spec fn view(&self) -> SearchReplyErrorView {
        match self {
            SearchReplyError::InvalidJson(m) => SearchReplyErrorView::InvalidJson(m@),
            SearchReplyError::MissingSource => SearchReplyErrorView::MissingSource,
            SearchReplyError::InvalidDocument(m) => SearchReplyErrorView::InvalidDocument(m@),
        }
    }
}

impl SearchReplyErrorView {
    pub open spec fn message(self) -> Seq<char> {
        match self {
            SearchReplyErrorView::InvalidJson(m) => "failed to decode OpenSearch get response: "@
                + m,
            SearchReplyErrorView::MissingSource => "OpenSearch response did not include `_source`"@,
            SearchReplyErrorView::InvalidDocument(m) => "failed to decode user document: "@ + m,
        }
    }
}

impl SearchReplyError {
    /// The text that describes the error.
    pub fn message(&self) -> (res: String)
        ensures
            res@ == self@.message(),
    {
        match self {
            SearchReplyError::InvalidJson(m) => {
                let mut s = "failed to decode OpenSearch get response: ".to_owned();
                s.append(m.as_str());
                s
            },
            SearchReplyError::MissingSource => "OpenSearch response did not include `_source`".to_owned(),
            SearchReplyError::InvalidDocument(m) => {
                let mut s = "failed to decode user document: ".to_owned();
                s.append(m.as_str());
                s
            },
        }
    }
}

/// The user that a `get` reply body reports: none when it says
/// `"found": false`, else the document in `_source`.
pub open spec fn user_from_reply(body: JsonValue) -> Result<
    Option<UserDocumentView>,
    SearchReplyErrorView,
> {
    if field(body, "found"@) == Some(JsonValue::Bool(false)) {
        Ok(None)
    } else {
        match field(body, "_source"@) {
            None => Err(SearchReplyErrorView::MissingSource),
            Some(source) => match json_user_document(source) {
                Ok(d) => Ok(Some(d)),
                Err(m) => Err(SearchReplyErrorView::InvalidDocument(m)),
            },
        }
    }
}

/// A reply result taken by view.
pub open spec fn reply_view(r: Result<Option<UserDocument>, SearchReplyError>) -> Result<
    Option<UserDocumentView>,
    SearchReplyErrorView,
> {
    match r {
        Ok(Some(d)) => Ok(Some(d@)),
        Ok(None) => Ok(None),
        Err(e) => Err(e@),
    }
}

/// The user that the parsed body of a successful `get` reply reports.
pub fn user_from_get_value(body: &JsonValue) -> (res: Result<Option<UserDocument>, SearchReplyError>)
    ensures
        reply_view(res) == user_from_reply(*body),
{
    if let Some(found) = get_field(body, "found") {
        if let JsonValue::Bool(false) = found {
            return Ok(None);
        }
    }
    match get_field(body, "_source") {
        None => Err(SearchReplyError::MissingSource),
        Some(source) => match UserDocument::from_json_value(source) {
            Ok(d) => Ok(Some(d)),
            Err(m) => Err(SearchReplyError::InvalidDocument(m)),
        },
    }
}

/// The user that the body text of a successful `get` reply reports.
pub fn user_from_get_body(body: &str) -> (res: Result<Option<UserDocument>, SearchReplyError>)
    ensures
        reply_view(res) == match parsed_json(body@) {
            Ok(v) => user_from_reply(v),
            Err(m) => Err(SearchReplyErrorView::InvalidJson(m)),
        },
{
    match parse_json(body) {
        Ok(v) => user_from_get_value(&v),
        Err(m) => Err(SearchReplyError::InvalidJson(m)),
    }
}

/// The index is ready exactly on a 2xx answer to the existence check, to be
/// created exactly on 404, and the check failed on any other status.
pub proof fn lemma_index_preparation_by_status(code: u16)
    ensures
        index_preparation(code) == IndexPreparation::Ready <==> 200 <= code <= 299,
        index_preparation(code) == IndexPreparation::Create <==> code == 404,
        index_preparation(code) == IndexPreparation::Failed <==> !(200 <= code <= 299 || code
            == 404),
{
}

} // verus!
