use change_data_capture_demo::cli::IndexerCommand;
use change_data_capture_demo::event::{DebeziumUpdateEvent, UserDocument};
use change_data_capture_demo::indexer::{
    indexer_start, indexer_step, IndexerAction, IndexerEvent, IndexerState,
};

fn upgrade() -> DebeziumUpdateEvent {
    DebeziumUpdateEvent::user_plan_update_with_lsn("app.public.users", 42, "Ada", "free", "pro", 1)
}

#[test]
fn commits_only_after_the_document_is_indexed() {
    let (state, action) = indexer_start();
    assert!(matches!(state, IndexerState::Receiving));
    assert!(matches!(action, IndexerAction::Receive));

    let (state, action) = indexer_step(IndexerCommand::Once, state, IndexerEvent::Received(upgrade()));
    assert!(matches!(&action, IndexerAction::Index(d) if *d == UserDocument::new(42, "Ada", "pro")));

    let (state, action) = indexer_step(IndexerCommand::Once, state, IndexerEvent::Indexed);
    assert!(matches!(action, IndexerAction::Commit));

    let (state, action) = indexer_step(IndexerCommand::Once, state, IndexerEvent::Committed);
    assert!(matches!(state, IndexerState::Finished(_)));
    assert!(matches!(action, IndexerAction::Finish(d) if d.plan == "pro"));
}

#[test]
fn run_mode_keeps_receiving() {
    let (state, _) = indexer_start();
    let (state, _) = indexer_step(IndexerCommand::Run, state, IndexerEvent::Received(upgrade()));
    let (state, _) = indexer_step(IndexerCommand::Run, state, IndexerEvent::Indexed);
    let (state, action) = indexer_step(IndexerCommand::Run, state, IndexerEvent::Committed);
    assert!(matches!(state, IndexerState::Receiving));
    assert!(matches!(action, IndexerAction::ReportAndReceive(d) if d.id == 42));
}

#[test]
fn failed_index_is_not_committed() {
    let (state, _) = indexer_start();
    let (state, _) = indexer_step(IndexerCommand::Run, state, IndexerEvent::Received(upgrade()));
    let (state, action) =
        indexer_step(IndexerCommand::Run, state, IndexerEvent::IndexFailed("503".to_owned()));
    assert!(matches!(action, IndexerAction::Halt(m) if m == "503"));
    let (_, action) = indexer_step(IndexerCommand::Run, state, IndexerEvent::Indexed);
    assert!(matches!(action, IndexerAction::Halt(_)));
}

#[test]
fn events_for_other_tables_stop_the_indexer() {
    let mut event = upgrade();
    event.value.source.table = "orders".to_owned();
    let (state, _) = indexer_start();
    let (state, action) = indexer_step(IndexerCommand::Once, state, IndexerEvent::Received(event));
    assert!(matches!(state, IndexerState::Failed(_)));
    assert!(matches!(action, IndexerAction::Halt(m)
        if m == "CDC event did not target public.users: expected table `users`, got `orders`"));
}

#[test]
fn out_of_order_reports_stop_the_indexer() {
    let (state, _) = indexer_start();
    let (_, action) = indexer_step(IndexerCommand::Once, state, IndexerEvent::Committed);
    assert!(matches!(action, IndexerAction::Halt(_)));
}
