//! The indexer's decisions: receive an event, index its `after` document,
//! commit the Kafka offset, and only in that order.

use vstd::prelude::*;
use vstd::string::*;

use crate::cli::IndexerCommand;
use crate::event::{DebeziumUpdateEvent, DebeziumUpdateEventView, EventValidationErrorView, UserDocument, UserDocumentView};

verus! {

/// Where the indexer is in handling an event.
#[derive(Debug)]
pub enum IndexerState {
    /// Waiting for the next event.
    Receiving,
    /// The document is being written to OpenSearch.
    Indexing(UserDocument),
    /// The document is written; the offset is being committed.
    Committing(UserDocument),
    /// One event has been applied and committed (mode `once`).
    Finished(UserDocument),
    /// The indexer stopped on an error.
    Failed(String),
}

/// What the outside world reports back to the indexer.
#[derive(Debug)]
pub enum IndexerEvent {
    /// The consumer delivered an event.
    Received(DebeziumUpdateEvent),
    /// The consumer failed (or timed out).
    ReceiveFailed(String),
    /// OpenSearch stored the document.
    Indexed,
    /// OpenSearch refused the document.
    IndexFailed(String),
    /// The offset is committed.
    Committed,
    /// The commit failed.
    CommitFailed(String),
}

/// What the indexer asks the outside world to do next.
#[derive(Debug)]
pub enum IndexerAction {
    /// Receive the next event.
    Receive,
    /// Write this document to OpenSearch.
    Index(UserDocument),
    /// Commit the offset of the event being handled.
    Commit,
    /// Report the committed document, then receive the next event.
    ReportAndReceive(UserDocument),
    /// Report the committed document and stop.
    Finish(UserDocument),
    /// Stop with this error.
    Halt(String),
}

pub enum IndexerStateView {
    Receiving,
    Indexing(UserDocumentView),
    Committing(UserDocumentView),
    Finished(UserDocumentView),
    Failed(Seq<char>),
}

pub enum IndexerEventView {
    Received(DebeziumUpdateEventView),
    ReceiveFailed(Seq<char>),
    Indexed,
    IndexFailed(Seq<char>),
    Committed,
    CommitFailed(Seq<char>),
}

pub enum IndexerActionView {
    Receive,
    Index(UserDocumentView),
    Commit,
    ReportAndReceive(UserDocumentView),
    Finish(UserDocumentView),
    Halt(Seq<char>),
}

impl View for IndexerState {
    type V = IndexerStateView;

    open spec fn view(&self) -> IndexerStateView {
        match self {
            IndexerState::Receiving => IndexerStateView::Receiving,
            IndexerState::Indexing(d) => IndexerStateView::Indexing(d@),
            IndexerState::Committing(d) => IndexerStateView::Committing(d@),
            IndexerState::Finished(d) => IndexerStateView::Finished(d@),
            IndexerState::Failed(m) => IndexerStateView::Failed(m@),
        }
    }
}

impl View for IndexerEvent {
    type V = IndexerEventView;

    open spec fn view(&self) -> IndexerEventView {
        match self {
            IndexerEvent::Received(e) => IndexerEventView::Received(e@),
            IndexerEvent::ReceiveFailed(m) => IndexerEventView::ReceiveFailed(m@),
            IndexerEvent::Indexed => IndexerEventView::Indexed,
            IndexerEvent::IndexFailed(m) => IndexerEventView::IndexFailed(m@),
            IndexerEvent::Committed => IndexerEventView::Committed,
            IndexerEvent::CommitFailed(m) => IndexerEventView::CommitFailed(m@),
        }
    }
}

impl View for IndexerAction {
    type V = IndexerActionView;

    open spec fn view(&self) -> IndexerActionView {
        match self {
            IndexerAction::Receive => IndexerActionView::Receive,
            IndexerAction::Index(d) => IndexerActionView::Index(d@),
            IndexerAction::Commit => IndexerActionView::Commit,
            IndexerAction::ReportAndReceive(d) => IndexerActionView::ReportAndReceive(d@),
            IndexerAction::Finish(d) => IndexerActionView::Finish(d@),
            IndexerAction::Halt(m) => IndexerActionView::Halt(m@),
        }
    }
}

/// The error for an event that the indexer cannot apply.
pub open spec fn not_applicable_message(e: EventValidationErrorView) -> Seq<char> {
    "CDC event did not target public.users: "@ + e.message()
}

/// The error for a report that does not fit the indexer's state.
pub open spec fn out_of_order_message() -> Seq<char> {
    "indexer received a report it was not waiting for"@
}

/// The indexer's transition: from a state and what the outside world
/// reported, the next state and the next action.
pub open spec fn indexer_transition(
    mode: IndexerCommand,
    state: IndexerStateView,
    event: IndexerEventView,
) -> (IndexerStateView, IndexerActionView) {
    match state {
        IndexerStateView::Receiving => match event {
            IndexerEventView::Received(e) => match e.after_document() {
                Ok(d) => (IndexerStateView::Indexing(d), IndexerActionView::Index(d)),
                Err(v) => (
                    IndexerStateView::Failed(not_applicable_message(v)),
                    IndexerActionView::Halt(not_applicable_message(v)),
                ),
            },
            IndexerEventView::ReceiveFailed(m) => (
                IndexerStateView::Failed(m),
                IndexerActionView::Halt(m),
            ),
            _ => (
                IndexerStateView::Failed(out_of_order_message()),
                IndexerActionView::Halt(out_of_order_message()),
            ),
        },
        IndexerStateView::Indexing(d) => match event {
            IndexerEventView::Indexed => (IndexerStateView::Committing(d), IndexerActionView::Commit),
            IndexerEventView::IndexFailed(m) => (
                IndexerStateView::Failed(m),
                IndexerActionView::Halt(m),
            ),
            _ => (
                IndexerStateView::Failed(out_of_order_message()),
                IndexerActionView::Halt(out_of_order_message()),
            ),
        },
        IndexerStateView::Committing(d) => match event {
            IndexerEventView::Committed => match mode {
                IndexerCommand::Once => (
                    IndexerStateView::Finished(d),
                    IndexerActionView::Finish(d),
                ),
                IndexerCommand::Run => (
                    IndexerStateView::Receiving,
                    IndexerActionView::ReportAndReceive(d),
                ),
            },
            IndexerEventView::CommitFailed(m) => (
                IndexerStateView::Failed(m),
                IndexerActionView::Halt(m),
            ),
            _ => (
                IndexerStateView::Failed(out_of_order_message()),
                IndexerActionView::Halt(out_of_order_message()),
            ),
        },
        IndexerStateView::Finished(d) => (IndexerStateView::Finished(d), IndexerActionView::Finish(d)),
        IndexerStateView::Failed(m) => (IndexerStateView::Failed(m), IndexerActionView::Halt(m)),
    }
}

/// The indexer's first state and action: receive an event.
pub fn indexer_start() -> (res: (IndexerState, IndexerAction))
    ensures
        res.0@ == IndexerStateView::Receiving,
        res.1@ == IndexerActionView::Receive,
{
    (IndexerState::Receiving, IndexerAction::Receive)
}

fn out_of_order() -> (res: (IndexerState, IndexerAction))
    ensures
        res.0@ == IndexerStateView::Failed(out_of_order_message()),
        res.1@ == IndexerActionView::Halt(out_of_order_message()),
{
    let m = "indexer received a report it was not waiting for".to_owned();
    (IndexerState::Failed(m.clone()), IndexerAction::Halt(m))
}

fn halt(m: String) -> (res: (IndexerState, IndexerAction))
    ensures
        res.0@ == IndexerStateView::Failed(m@),
        res.1@ == IndexerActionView::Halt(m@),
{
    (IndexerState::Failed(m.clone()), IndexerAction::Halt(m))
}

/// One decision of the indexer.
pub fn indexer_step(mode: IndexerCommand, state: IndexerState, event: IndexerEvent) -> (res: (
    IndexerState,
    IndexerAction,
))
    ensures
        (res.0@, res.1@) == indexer_transition(mode, state@, event@),
{
    match state {
        IndexerState::Receiving => match event {
            IndexerEvent::Received(e) => match e.after_document() {
                Ok(d) => {
                    let copy = d.copy();
                    (IndexerState::Indexing(d), IndexerAction::Index(copy))
                },
                Err(v) => {
                    let mut m = "CDC event did not target public.users: ".to_owned();
                    m.append(v.message().as_str());
                    halt(m)
                },
            },
            IndexerEvent::ReceiveFailed(m) => halt(m),
            _ => out_of_order(),
        },
        IndexerState::Indexing(d) => match event {
            IndexerEvent::Indexed => (IndexerState::Committing(d), IndexerAction::Commit),
            IndexerEvent::IndexFailed(m) => halt(m),
            _ => out_of_order(),
        },
        IndexerState::Committing(d) => match event {
            IndexerEvent::Committed => {
                let copy = d.copy();
                match mode {
                    IndexerCommand::Once => (IndexerState::Finished(d), IndexerAction::Finish(copy)),
                    IndexerCommand::Run => (IndexerState::Receiving, IndexerAction::ReportAndReceive(copy)),
                }
            },
            IndexerEvent::CommitFailed(m) => halt(m),
            _ => out_of_order(),
        },
        IndexerState::Finished(d) => {
            let copy = d.copy();
            (IndexerState::Finished(d), IndexerAction::Finish(copy))
        },
        IndexerState::Failed(m) => halt(m),
    }
}

/// The offset is committed only once OpenSearch has stored the document: a
/// `Commit` action comes only from the `Indexing` state on an `Indexed`
/// report, and the indexer then waits for the commit of that same document.
pub proof fn lemma_commit_only_after_index(
    mode: IndexerCommand,
    state: IndexerStateView,
    event: IndexerEventView,
)
    ensures
        indexer_transition(mode, state, event).1 is Commit ==> state is Indexing && event is Indexed
            && indexer_transition(mode, state, event).0 == IndexerStateView::Committing(
            state->Indexing_0,
        ),
{
}

/// The document written to OpenSearch is `value.after` of a received event
/// that passed validation, and the indexer then waits for exactly that write.
pub proof fn lemma_indexed_document_is_after(
    mode: IndexerCommand,
    state: IndexerStateView,
    event: IndexerEventView,
)
    ensures
        indexer_transition(mode, state, event).1 matches IndexerActionView::Index(d) ==> {
            &&& state is Receiving
            &&& event matches IndexerEventView::Received(e) && e.after_document() == Ok::<
                UserDocumentView,
                EventValidationErrorView,
            >(d)
            &&& indexer_transition(mode, state, event).0 == IndexerStateView::Indexing(d)
        },
        indexer_transition(mode, state, event).0 matches IndexerStateView::Indexing(d)
            ==> indexer_transition(mode, state, event).1 == IndexerActionView::Index(d),
{
}

/// A failed or refused step never leads to a commit: an event that fails
/// validation, a failed write, or a failed receive stops the indexer.
pub proof fn lemma_failures_halt(
    mode: IndexerCommand,
    state: IndexerStateView,
    event: IndexerEventView,
)
    ensures
        state is Receiving ==> (event matches IndexerEventView::Received(e) && e.validation() is Err
            ==> indexer_transition(mode, state, event).1 is Halt),
        state is Indexing && event is IndexFailed ==> indexer_transition(mode, state, event).1 is Halt,
        state is Failed ==> indexer_transition(mode, state, event) == (state, IndexerActionView::Halt(state->Failed_0)),
{
}

/// After a commit the `once` mode stops with the committed document and the
/// `run` mode reports it and goes on receiving.
pub proof fn lemma_after_commit(state: IndexerStateView)
    requires
        state is Committing,
    ensures
        indexer_transition(IndexerCommand::Once, state, IndexerEventView::Committed)
            == (IndexerStateView::Finished(state->Committing_0), IndexerActionView::Finish(state->Committing_0)),
        indexer_transition(IndexerCommand::Run, state, IndexerEventView::Committed)
            == (IndexerStateView::Receiving, IndexerActionView::ReportAndReceive(state->Committing_0)),
{
}

/// The states and actions of a run of the indexer: the start, then one entry
/// per report, each the transition from the entry before.
pub open spec fn indexer_run(mode: IndexerCommand, reports: Seq<IndexerEventView>) -> Seq<
    (IndexerStateView, IndexerActionView),
>
    decreases reports.len(),
{
    if reports.len() == 0 {
        seq![(IndexerStateView::Receiving, IndexerActionView::Receive)]
    } else {
        let before = indexer_run(mode, reports.drop_last());
        before.push(indexer_transition(mode, before.last().0, reports.last()))
    }
}

proof fn lemma_run_steps(mode: IndexerCommand, reports: Seq<IndexerEventView>)
    ensures
        indexer_run(mode, reports).len() == reports.len() + 1,
        indexer_run(mode, reports)[0] == (IndexerStateView::Receiving, IndexerActionView::Receive),
        forall|i: int|
            1 <= i <= reports.len() ==> #[trigger] indexer_run(mode, reports)[i]
                == indexer_transition(mode, indexer_run(mode, reports)[i - 1].0, reports[i - 1]),
    decreases reports.len(),
{
    if reports.len() > 0 {
        let shorter = reports.drop_last();
        lemma_run_steps(mode, shorter);
        assert forall|i: int| 1 <= i <= reports.len() implies #[trigger] indexer_run(
            mode,
            reports,
        )[i] == indexer_transition(mode, indexer_run(mode, reports)[i - 1].0, reports[i - 1]) by {
            if i < reports.len() {
                assert(indexer_run(mode, shorter)[i] == indexer_transition(
                    mode,
                    indexer_run(mode, shorter)[i - 1].0,
                    shorter[i - 1],
                ));
            }
        }
    }
}

/// In every run of the indexer, whatever the reports, each commit comes right
/// after the write of a document and the report that OpenSearch stored it, and
/// the indexer then waits for the commit of that document.
pub proof fn lemma_runs_commit_only_indexed_documents(
    mode: IndexerCommand,
    reports: Seq<IndexerEventView>,
    i: int,
)
    requires
        0 <= i < indexer_run(mode, reports).len(),
        indexer_run(mode, reports)[i].1 is Commit,
    ensures
        i >= 1,
        indexer_run(mode, reports)[i - 1].1 matches IndexerActionView::Index(d) && reports[i - 1]
            is Indexed && indexer_run(mode, reports)[i].0 == IndexerStateView::Committing(d),
{
    lemma_run_steps(mode, reports);
    let run = indexer_run(mode, reports);
    assert(i >= 1);
    lemma_commit_only_after_index(mode, run[i - 1].0, reports[i - 1]);
    if i >= 2 {
        lemma_indexed_document_is_after(mode, run[i - 2].0, reports[i - 2]);
    }
}

/// Every failure reported while the indexer waits for it stops the indexer
/// with that failure's message, whatever the mode: a failed receive, a failed
/// write, and a failed commit. In particular a failed commit never finishes
/// with the document nor reports it and receives again.
pub proof fn lemma_reported_failures_stop_with_their_message(
    mode: IndexerCommand,
    d: UserDocumentView,
    m: Seq<char>,
)
    ensures
        indexer_transition(mode, IndexerStateView::Receiving, IndexerEventView::ReceiveFailed(m))
            == (IndexerStateView::Failed(m), IndexerActionView::Halt(m)),
        indexer_transition(mode, IndexerStateView::Indexing(d), IndexerEventView::IndexFailed(m))
            == (IndexerStateView::Failed(m), IndexerActionView::Halt(m)),
        indexer_transition(mode, IndexerStateView::Committing(d), IndexerEventView::CommitFailed(m))
            == (IndexerStateView::Failed(m), IndexerActionView::Halt(m)),
{
}

} // verus!
