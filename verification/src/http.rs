//! How the replies of the REST services are told apart by status code.

use vstd::prelude::*;

verus! {

/// The classes of HTTP replies that the demo's decisions depend on.
#[derive(Debug, Clone, Copy, PartialEq, Eq)]
pub enum ReplyClass {
    /// A 2xx status.
    Success,
    /// 404 Not Found.
    NotFound,
    /// Any other status.
    Failure,
}

/// The class of a status code: 200 to 299 succeed, 404 is "not found".
pub open spec fn reply_class(code: u16) -> ReplyClass {
    if 200 <= code <= 299 {
        ReplyClass::Success
    } else if code == 404 {
        ReplyClass::NotFound
    } else {
        ReplyClass::Failure
    }
}

pub fn classify_reply(code: u16) -> (res: ReplyClass)
    ensures
        res == reply_class(code),
{
    if 200 <= code && code <= 299 {
        ReplyClass::Success
    } else if code == 404 {
        ReplyClass::NotFound
    } else {
        ReplyClass::Failure
    }
}

/// How a request that removes something (an index, a connector) ended.
#[derive(Debug, Clone, Copy, PartialEq, Eq)]
pub enum RemovalOutcome {
    /// It is gone: removed now (2xx), or it was not there (404).
    Done,
    /// The request failed.
    Failed,
}

/// A removal succeeds on any 2xx status and on 404: what is absent needs no removal.
pub open spec fn removal_outcome(code: u16) -> RemovalOutcome {
    match reply_class(code) {
        ReplyClass::Success => RemovalOutcome::Done,
        ReplyClass::NotFound => RemovalOutcome::Done,
        ReplyClass::Failure => RemovalOutcome::Failed,
    }
}

/// The outcome of a delete-index or delete-connector request from its status.
pub fn removal_reply(code: u16) -> (res: RemovalOutcome)
    ensures
        res == removal_outcome(code),
{
    match classify_reply(code) {
        ReplyClass::Success => RemovalOutcome::Done,
        ReplyClass::NotFound => RemovalOutcome::Done,
        ReplyClass::Failure => RemovalOutcome::Failed,
    }
}

/// Removing again what a first removal took away succeeds: once the thing is
/// gone the server answers 404, which counts as done, as does the 2xx of the
/// first removal. (That the server answers 404 for what is gone is the
/// server's side and not stated here.)
pub proof fn lemma_removal_twice_succeeds(first: u16)
    requires
        removal_outcome(first) == RemovalOutcome::Done,
    ensures
        removal_outcome(404) == RemovalOutcome::Done,
        200 <= first <= 299 || first == 404,
{
}

/// A removal is done exactly on a 2xx status (removed now) or on 404 (it was
/// not there); every other status is a failure.
pub proof fn lemma_removal_outcome_by_status(code: u16)
    ensures
        removal_outcome(code) == RemovalOutcome::Done <==> (200 <= code <= 299 || code == 404),
        removal_outcome(code) == RemovalOutcome::Failed <==> !(200 <= code <= 299 || code == 404),
{
}

/// Every 2xx status is a success, 404 is "not found", and every other status
/// is a failure.
pub proof fn lemma_reply_class_by_status(code: u16)
    ensures
        reply_class(code) == ReplyClass::Success <==> 200 <= code <= 299,
        reply_class(code) == ReplyClass::NotFound <==> code == 404,
        reply_class(code) == ReplyClass::Failure <==> !(200 <= code <= 299 || code == 404),
{
}

} // verus!
