use change_data_capture_demo::cli::{CdcArgs, CdcCommand, CliError, IndexerArgs, IndexerCommand};

#[test]
fn parses_seed_command() {
    let args = CdcArgs::try_parse_from(&[
        "cdc",
        "seed",
        "--user-id",
        "42",
        "--name",
        "Ada",
        "--plan",
        "free",
    ])
    .expect("seed command should parse");

    assert_eq!(
        args.command,
        CdcCommand::Seed {
            user_id: 42,
            name: "Ada".to_owned(),
            plan: "free".to_owned()
        }
    );
}

#[test]
fn parses_query_command() {
    let args = CdcArgs::try_parse_from(&["cdc", "query", "--user-id", "42"])
        .expect("query command should parse");

    assert_eq!(args.command, CdcCommand::Query { user_id: 42 });
}

#[test]
fn parses_produce_command() {
    let args = CdcArgs::try_parse_from(&[
        "cdc",
        "produce",
        "--user-id",
        "42",
        "--name",
        "Ada",
        "--from",
        "free",
        "--to",
        "pro",
    ])
    .expect("produce command should parse");

    assert_eq!(
        args.command,
        CdcCommand::Produce {
            user_id: 42,
            name: "Ada".to_owned(),
            from: "free".to_owned(),
            to: "pro".to_owned()
        }
    );
}

#[test]
fn parses_indexer_modes() {
    let run = IndexerArgs::try_parse_from(&["indexer", "run"]).expect("run command should parse");
    let once =
        IndexerArgs::try_parse_from(&["indexer", "once"]).expect("once command should parse");

    assert_eq!(run.command, IndexerCommand::Run);
    assert_eq!(once.command, IndexerCommand::Once);
}

#[test]
fn fills_in_defaults() {
    let args = CdcArgs::try_parse_from(&["cdc", "seed"]).unwrap();
    assert_eq!(
        args.command,
        CdcCommand::Seed { user_id: 42, name: "Ada".to_owned(), plan: "free".to_owned() }
    );
    let args = CdcArgs::try_parse_from(&["cdc", "produce", "--to=enterprise"]).unwrap();
    assert_eq!(
        args.command,
        CdcCommand::Produce {
            user_id: 42,
            name: "Ada".to_owned(),
            from: "free".to_owned(),
            to: "enterprise".to_owned()
        }
    );
    let args = CdcArgs::try_parse_from(&["cdc", "source-query", "--user-id=-7"]).unwrap();
    assert_eq!(args.command, CdcCommand::SourceQuery { user_id: -7 });
}

#[test]
fn parses_commands_without_options() {
    let cases = [
        ("bootstrap", CdcCommand::Bootstrap),
        ("connector-status", CdcCommand::ConnectorStatus),
        ("delete-connector", CdcCommand::DeleteConnector),
        ("reset", CdcCommand::Reset),
    ];
    for (name, command) in cases {
        assert_eq!(CdcArgs::try_parse_from(&["cdc", name]).unwrap().command, command);
    }
}

#[test]
fn rejects_bad_command_lines() {
    assert_eq!(CdcArgs::try_parse_from(&["cdc"]), Err(CliError::MissingSubcommand));
    assert_eq!(CdcArgs::try_parse_from(&["cdc", "--help"]), Err(CliError::Help));
    assert_eq!(CdcArgs::try_parse_from(&["cdc", "help"]), Err(CliError::Help));
    assert_eq!(CdcArgs::try_parse_from(&["cdc", "seed", "-h"]), Err(CliError::Help));
    assert_eq!(
        CdcArgs::try_parse_from(&["cdc", "launch"]),
        Err(CliError::InvalidSubcommand("launch".to_owned()))
    );
    assert_eq!(
        CdcArgs::try_parse_from(&["cdc", "--verbose"]),
        Err(CliError::UnknownArgument("--verbose".to_owned()))
    );
    assert_eq!(
        CdcArgs::try_parse_from(&["cdc", "query", "--name", "Ada"]),
        Err(CliError::UnknownArgument("--name".to_owned()))
    );
    assert_eq!(
        CdcArgs::try_parse_from(&["cdc", "query", "7"]),
        Err(CliError::UnexpectedArgument("7".to_owned()))
    );
    assert_eq!(
        CdcArgs::try_parse_from(&["cdc", "query", "--user-id"]),
        Err(CliError::MissingValue("user-id".to_owned()))
    );
    assert_eq!(
        CdcArgs::try_parse_from(&["cdc", "query", "--user-id", "-7"]),
        Err(CliError::MissingValue("user-id".to_owned()))
    );
    assert_eq!(
        CdcArgs::try_parse_from(&["cdc", "query", "--user-id", "x"]),
        Err(CliError::InvalidValue { arg: "user-id".to_owned(), value: "x".to_owned() })
    );
    assert_eq!(
        CdcArgs::try_parse_from(&["cdc", "seed", "--name", "A", "--name", "B"]),
        Err(CliError::RepeatedArgument("name".to_owned()))
    );
    assert_eq!(
        IndexerArgs::try_parse_from(&["indexer", "twice"]),
        Err(CliError::InvalidSubcommand("twice".to_owned()))
    );
    assert_eq!(
        IndexerArgs::try_parse_from(&["indexer", "run", "--user-id", "1"]),
        Err(CliError::UnknownArgument("--user-id".to_owned()))
    );
}
