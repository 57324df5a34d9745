//! The command lines of the `cdc` and `indexer` programs.

use vstd::prelude::*;
use vstd::string::*;

use crate::text::{
    all_digits, integer_text, is_digit, lemma_decimal_text_reads_back,
    lemma_integer_text_reads_back, opt_text, parse_i64, parse_i64_text, str_eq,
};

verus! {

/// The arguments of the operator CLI `cdc`.
#[derive(Debug, Clone, PartialEq, Eq)]
pub struct CdcArgs {
    pub command: CdcCommand,
}

/// The commands of the operator CLI.
#[derive(Debug, Clone, PartialEq, Eq)]
pub enum CdcCommand {
    /// Create the source table and register the Debezium connector.
    Bootstrap,
    /// Seed the source table and the read model with a known user document.
    Seed { user_id: i64, name: String, plan: String },
    /// Query the source table for a user.
    SourceQuery { user_id: i64 },
    /// Query the read model for a user.
    Query { user_id: i64 },
    /// Update a user's plan in the source table, so that Debezium publishes the change.
    Produce { user_id: i64, name: String, from: String, to: String },
    /// Show the status of the Debezium connector.
    ConnectorStatus,
    /// Delete the Debezium connector.
    DeleteConnector,
    /// Clear the source table and delete the read model index.
    Reset,
}

/// The arguments of the indexer.
#[derive(Debug, Clone, Copy, PartialEq, Eq)]
pub struct IndexerArgs {
    pub command: IndexerCommand,
}

/// The modes of the indexer.
#[derive(Debug, Clone, Copy, PartialEq, Eq)]
pub enum IndexerCommand {
    /// Run forever, applying each CDC event as it arrives.
    Run,
    /// Consume and apply one CDC event, then exit.
    Once,
}

/// Why a command line was not accepted.
#[derive(Debug, Clone, PartialEq, Eq)]
pub enum CliError {
    /// Help was asked for (`-h`, `--help` or the `help` command).
    Help,
    /// No command was given.
    MissingSubcommand,
    /// The command is not one of the program's.
    InvalidSubcommand(String),
    /// An option that the command does not have.
    UnknownArgument(String),
    /// A positional argument, which no command takes.
    UnexpectedArgument(String),
    /// An option without its value.
    MissingValue(String),
    /// An option given twice.
    RepeatedArgument(String),
    /// An option value that is not a number where one is needed.
    InvalidValue { arg: String, value: String },
}

pub enum CliErrorView {
    Help,
    MissingSubcommand,
    InvalidSubcommand(Seq<char>),
    UnknownArgument(Seq<char>),
    UnexpectedArgument(Seq<char>),
    MissingValue(Seq<char>),
    RepeatedArgument(Seq<char>),
    InvalidValue { arg: Seq<char>, value: Seq<char> },
}

impl View for CliError {
    type V = CliErrorView;

    open spec fn view(&self) -> CliErrorView {
        match self {
            CliError::Help => CliErrorView::Help,
            CliError::MissingSubcommand => CliErrorView::MissingSubcommand,
            CliError::InvalidSubcommand(t) => CliErrorView::InvalidSubcommand(t@),
            CliError::UnknownArgument(t) => CliErrorView::UnknownArgument(t@),
            CliError::UnexpectedArgument(t) => CliErrorView::UnexpectedArgument(t@),
            CliError::MissingValue(t) => CliErrorView::MissingValue(t@),
            CliError::RepeatedArgument(t) => CliErrorView::RepeatedArgument(t@),
            CliError::InvalidValue { arg, value } => CliErrorView::InvalidValue {
                arg: arg@,
                value: value@,
            },
        }
    }
}

/// The first position in `s` where `p` holds, or -1.
pub open spec fn first_index<A>(s: Seq<A>, p: spec_fn(A) -> bool) -> int
    decreases s.len(),
{
    if s.len() == 0 {
        -1
    } else if p(s[0]) {
        0
    } else {
        let r = first_index(s.drop_first(), p);
        if r < 0 {
            -1
        } else {
            r + 1
        }
    }
}

proof fn lemma_first_index<A>(s: Seq<A>, p: spec_fn(A) -> bool, k: int)
    requires
        0 <= k <= s.len(),
        forall|j: int| 0 <= j < k ==> !p(#[trigger] s[j]),
        k < s.len() ==> p(s[k]),
    ensures
        first_index(s, p) == (if k == s.len() {
            -1
        } else {
            k
        }),
    decreases k,
{
    if k > 0 {
        assert forall|j: int| 0 <= j < k - 1 implies !p(#[trigger] s.drop_first()[j]) by {
            assert(s.drop_first()[j] == s[j + 1]);
        }
        lemma_first_index(s.drop_first(), p, k - 1);
        assert(!p(s[0]));
    }
}

/// An option of a command: its long name and whether its value is an integer.
pub type OptionSpec = (Seq<char>, bool);

/// The position of the option `name` among the command's options, or -1.
pub open spec fn option_index(names: Seq<OptionSpec>, name: Seq<char>) -> int {
    first_index(names, |o: OptionSpec| o.0 == name)
}

/// The position of the first `=` in an option, or -1.
pub open spec fn equals_index(body: Seq<char>) -> int {
    first_index(body, |c: char| c == '=')
}

/// The name in `--name` or `--name=value`.
pub open spec fn option_name(body: Seq<char>) -> Seq<char> {
    if equals_index(body) < 0 {
        body
    } else {
        body.take(equals_index(body))
    }
}

/// The value in `--name=value`, if written so.
pub open spec fn inline_value(body: Seq<char>) -> Option<Seq<char>> {
    if equals_index(body) < 0 {
        None
    } else {
        Some(body.skip(equals_index(body) + 1))
    }
}

/// Whether a token can be the value of the option before it: it does not
/// look like an option itself (a lone `-` is a value).
pub open spec fn is_value_token(t: Seq<char>) -> bool {
    t.len() == 0 || t[0] != '-' || t == seq!['-']
}

/// Whether a token is a long option (`--...`, but not `--` alone).
pub open spec fn is_long_option(t: Seq<char>) -> bool {
    t.len() > 2 && t[0] == '-' && t[1] == '-'
}

/// Whether a token asks for help.
pub open spec fn is_help_flag(t: Seq<char>) -> bool {
    t == "-h"@ || t == "--help"@
}

/// Records `value` for option `idx`, checking integer values as it goes.
pub open spec fn take_value(
    name: Seq<char>,
    integer: bool,
    value: Seq<char>,
) -> Result<Seq<char>, CliErrorView> {
    if integer && parse_i64_text(value) is None {
        Err(CliErrorView::InvalidValue { arg: name, value })
    } else {
        Ok(value)
    }
}

/// The options of a command, read from its tokens: each option once, as
/// `--name value` or `--name=value`; help wins where it is met; anything else
/// is an error.
pub open spec fn scan_options(
    tokens: Seq<Seq<char>>,
    names: Seq<OptionSpec>,
    acc: Seq<Option<Seq<char>>>,
) -> Result<Seq<Option<Seq<char>>>, CliErrorView>
    decreases tokens.len(),
{
    if tokens.len() == 0 {
        Ok(acc)
    } else {
        let t = tokens[0];
        if is_help_flag(t) {
            Err(CliErrorView::Help)
        } else if t == "--"@ {
            if tokens.len() > 1 {
                Err(CliErrorView::UnexpectedArgument(tokens[1]))
            } else {
                Ok(acc)
            }
        } else if is_long_option(t) {
            let body = t.skip(2);
            let name = option_name(body);
            let idx = option_index(names, name);
            if idx < 0 {
                Err(CliErrorView::UnknownArgument(t))
            } else if acc[idx] is Some {
                Err(CliErrorView::RepeatedArgument(name))
            } else {
                match inline_value(body) {
                    Some(v) => match take_value(name, names[idx].1, v) {
                        Err(e) => Err(e),
                        Ok(v) => scan_options(tokens.drop_first(), names, acc.update(idx, Some(v))),
                    },
                    None => if tokens.len() > 1 && is_value_token(tokens[1]) {
                        match take_value(name, names[idx].1, tokens[1]) {
                            Err(e) => Err(e),
                            Ok(v) => scan_options(tokens.skip(2), names, acc.update(idx, Some(v))),
                        }
                    } else {
                        Err(CliErrorView::MissingValue(name))
                    },
                }
            }
        } else if t.len() > 1 && t[0] == '-' {
            Err(CliErrorView::UnknownArgument(t))
        } else {
            Err(CliErrorView::UnexpectedArgument(t))
        }
    }
}

/// The tokens of a command line taken by view.
pub open spec fn tokens_view(args: Seq<&str>) -> Seq<Seq<char>> {
    args.map_values(|a: &str| a@)
}

/// Option specifications taken by view.
pub open spec fn names_view(names: Seq<(&str, bool)>) -> Seq<OptionSpec> {
    names.map_values(|o: (&str, bool)| (o.0@, o.1))
}

/// Option values taken by view.
pub open spec fn values_view(values: Seq<Option<String>>) -> Seq<Option<Seq<char>>> {
    values.map_values(|v: Option<String>| match v {
        Some(s) => Some(s@),
        None => None,
    })
}

/// Option values taken by view.
pub open spec fn scan_view(r: Result<Vec<Option<String>>, CliError>) -> Result<
    Seq<Option<Seq<char>>>,
    CliErrorView,
> {
    match r {
        Ok(v) => Ok(values_view(v@)),
        Err(e) => Err(e@),
    }
}

/// As many empty values as there are options.
pub open spec fn no_values(n: nat) -> Seq<Option<Seq<char>>> {
    Seq::new(n, |i: int| None)
}

fn is_help_token(t: &str) -> (res: bool)
    ensures
        res == is_help_flag(t@),
{
    str_eq(t, "-h") || str_eq(t, "--help")
}

/// Splits the body of a long option at its first `=`.
fn split_option(t: &str) -> (res: (String, Option<String>))
    requires
        t@.len() >= 2,
    ensures
        res.0@ == option_name(t@.skip(2)),
        match res.1 {
            Some(v) => inline_value(t@.skip(2)) == Some(v@),
            None => inline_value(t@.skip(2)) is None,
        },
{
    let n = t.unicode_len();
    let ghost body = t@.skip(2);
    let mut k: usize = 2;
    while k < n && t.get_char(k) != '='
        invariant
            2 <= k <= n,
            n == t@.len(),
            body == t@.skip(2),
            forall|j: int| 2 <= j < k ==> t@[j] != '=',
        decreases n - k,
    {
        k = k + 1;
    }
    proof {
        assert forall|j: int| 0 <= j < k - 2 implies !((|c: char| c == '=')(#[trigger] body[j])) by {
            assert(body[j] == t@[j + 2]);
        }
        if k < n {
            assert(body[k - 2] == t@[k as int]);
        }
        lemma_first_index(body, |c: char| c == '=', k - 2);
    }
    if k < n {
        let name = t.substring_char(2, k).to_owned();
        let value = t.substring_char(k + 1, n).to_owned();
        assert(name@ =~= body.take(k - 2));
        assert(value@ =~= body.skip(k - 2 + 1));
        (name, Some(value))
    } else {
        let name = t.substring_char(2, n).to_owned();
        assert(name@ =~= body);
        (name, None)
    }
}

/// The position of the option `name`, or `names.len()` when it has none.
fn find_option(names: &Vec<(&str, bool)>, name: &str) -> (res: usize)
    ensures
        res <= names@.len(),
        res == names@.len() ==> option_index(names_view(names@), name@) == -1,
        res < names@.len() ==> option_index(names_view(names@), name@) == res,
{
    let n = names.len();
    let ghost nv = names_view(names@);
    let mut i: usize = 0;
    while i < n && !str_eq(names[i].0, name)
        invariant
            i <= n,
            n == names@.len(),
            nv == names_view(names@),
            forall|j: int| 0 <= j < i ==> nv[j].0 != name@,
        decreases n - i,
    {
        i = i + 1;
    }
    proof {
        assert forall|j: int| 0 <= j < i implies !((|o: OptionSpec| o.0 == name@)(#[trigger] nv[j])) by {}
        lemma_first_index(nv, |o: OptionSpec| o.0 == name@, i as int);
    }
    i
}

fn checked_value(name: &String, integer: bool, value: String) -> (res: Result<String, CliError>)
    ensures
        match res {
            Ok(v) => take_value(name@, integer, value@) == Ok::<Seq<char>, CliErrorView>(v@),
            Err(e) => take_value(name@, integer, value@) == Err::<Seq<char>, CliErrorView>(e@),
        },
{
    if integer && parse_i64(value.as_str()).is_none() {
        Err(CliError::InvalidValue { arg: name.clone(), value })
    } else {
        Ok(value)
    }
}

fn is_value_arg(t: &str) -> (res: bool)
    ensures
        res == is_value_token(t@),
{
    let n = t.unicode_len();
    if n == 0 {
        return true;
    }
    if t.get_char(0) != '-' {
        return true;
    }
    let dash = str_eq(t, "-");
    proof {
        reveal_strlit("-");
        assert("-"@ =~= seq!['-']);
    }
    dash
}

/// Reads the options of a command from `tokens[start..]`.
fn read_options(tokens: &[&str], start: usize, names: &Vec<(&str, bool)>) -> (res: Result<
    Vec<Option<String>>,
    CliError,
>)
    requires
        start <= tokens@.len(),
    ensures
        res matches Ok(v) ==> v@.len() == names@.len(),
        scan_view(res) == scan_options(
            tokens_view(tokens@).skip(start as int),
            names_view(names@),
            no_values(names@.len()),
        ),
{
    let ghost tv = tokens_view(tokens@);
    let ghost nv = names_view(names@);
    let mut acc: Vec<Option<String>> = Vec::new();
    let m = names.len();
    for j in 0..m
        invariant
            m == names@.len(),
            acc@.len() == j,
            forall|q: int| 0 <= q < j ==> (#[trigger] acc@[q]) is None,
    {
        acc.push(None);
    }
    assert(values_view(acc@) =~= no_values(names@.len()));
    let n = tokens.len();
    let mut i: usize = start;
    while i < n
        invariant
            start <= i <= n,
            n == tokens@.len(),
            m == names@.len(),
            tv == tokens_view(tokens@),
            nv == names_view(names@),
            acc@.len() == names@.len(),
            scan_options(tv.skip(start as int), nv, no_values(names@.len())) == scan_options(
                tv.skip(i as int),
                nv,
                values_view(acc@),
            ),
        decreases n - i,
    {
        let t = tokens[i];
        let ghost rest = tv.skip(i as int);
        assert(rest[0] == t@);
        assert(rest.drop_first() =~= tv.skip(i + 1));
        if is_help_token(t) {
            return Err(CliError::Help);
        }
        proof {
            reveal_strlit("--");
        }
        if str_eq(t, "--") {
            if i + 1 < n {
                assert(rest[1] == tokens[i + 1]@);
                return Err(CliError::UnexpectedArgument(tokens[i + 1].to_owned()));
            } else {
                return Ok(acc);
            }
        }
        let len = t.unicode_len();
        if len > 2 && t.get_char(0) == '-' && t.get_char(1) == '-' {
            let (name, inline) = split_option(t);
            let idx = find_option(names, name.as_str());
            if idx == m {
                return Err(CliError::UnknownArgument(t.to_owned()));
            }
            assert(nv[idx as int].1 == names@[idx as int].1);
            if acc[idx].is_some() {
                return Err(CliError::RepeatedArgument(name));
            }
            let integer = names[idx].1;
            match inline {
                Some(v) => {
                    let v = match checked_value(&name, integer, v) {
                        Ok(v) => v,
                        Err(e) => return Err(e),
                    };
                    let ghost before = acc@;
                    acc.set(idx, Some(v));
                    assert(values_view(acc@) =~= values_view(before).update(idx as int, Some(v@)));
                    i = i + 1;
                },
                None => {
                    if i + 1 < n && is_value_arg(tokens[i + 1]) {
                        assert(rest[1] == tokens[i + 1]@);
                        assert(rest.skip(2) =~= tv.skip(i + 2));
                        let v = match checked_value(&name, integer, tokens[i + 1].to_owned()) {
                            Ok(v) => v,
                            Err(e) => return Err(e),
                        };
                        let ghost before = acc@;
                        acc.set(idx, Some(v));
                        assert(values_view(acc@) =~= values_view(before).update(
                            idx as int,
                            Some(v@),
                        ));
                        i = i + 2;
                    } else {
                        if i + 1 < n {
                            assert(rest[1] == tokens[i + 1]@);
                        }
                        return Err(CliError::MissingValue(name));
                    }
                },
            }
        } else if len > 1 && t.get_char(0) == '-' {
            return Err(CliError::UnknownArgument(t.to_owned()));
        } else {
            return Err(CliError::UnexpectedArgument(t.to_owned()));
        }
    }
    assert(tv.skip(i as int).len() == 0);
    Ok(acc)
}

pub enum CdcCommandView {
    Bootstrap,
    Seed { user_id: i64, name: Seq<char>, plan: Seq<char> },
    SourceQuery { user_id: i64 },
    Query { user_id: i64 },
    Produce { user_id: i64, name: Seq<char>, from: Seq<char>, to: Seq<char> },
    ConnectorStatus,
    DeleteConnector,
    Reset,
}

impl View for CdcCommand {
    type V = CdcCommandView;

    open spec fn view(&self) -> CdcCommandView {
        match self {
            CdcCommand::Bootstrap => CdcCommandView::Bootstrap,
            CdcCommand::Seed { user_id, name, plan } => CdcCommandView::Seed {
                user_id: *user_id,
                name: name@,
                plan: plan@,
            },
            CdcCommand::SourceQuery { user_id } => CdcCommandView::SourceQuery { user_id: *user_id },
            CdcCommand::Query { user_id } => CdcCommandView::Query { user_id: *user_id },
            CdcCommand::Produce { user_id, name, from, to } => CdcCommandView::Produce {
                user_id: *user_id,
                name: name@,
                from: from@,
                to: to@,
            },
            CdcCommand::ConnectorStatus => CdcCommandView::ConnectorStatus,
            CdcCommand::DeleteConnector => CdcCommandView::DeleteConnector,
            CdcCommand::Reset => CdcCommandView::Reset,
        }
    }
}

/// The user a command is about when `--user-id` is not given.
pub const DEFAULT_USER_ID: i64 = 42;

/// The name of the seeded user when `--name` is not given.
pub const DEFAULT_NAME: &'static str = "Ada";

/// The plan a user is seeded with, and upgraded from, by default.
pub const DEFAULT_FROM_PLAN: &'static str = "free";

/// The plan a user is upgraded to by default.
pub const DEFAULT_TO_PLAN: &'static str = "pro";

/// An integer option's value, or its default.
pub open spec fn integer_option(v: Option<Seq<char>>, name: Seq<char>, default: i64) -> Result<
    i64,
    CliErrorView,
> {
    match v {
        None => Ok(default),
        Some(s) => match parse_i64_text(s) {
            Some(i) => Ok(i),
            None => Err(CliErrorView::InvalidValue { arg: name, value: s }),
        },
    }
}

/// A text option's value, or its default.
pub open spec fn text_option(v: Option<Seq<char>>, default: Seq<char>) -> Seq<char> {
    match v {
        Some(s) => s,
        None => default,
    }
}

/// The options of the commands that name a user.
pub open spec fn user_options() -> Seq<OptionSpec> {
    seq![("user-id"@, true)]
}

/// The options of `seed`.
pub open spec fn seed_options() -> Seq<OptionSpec> {
    seq![("user-id"@, true), ("name"@, false), ("plan"@, false)]
}

/// The options of `produce`.
pub open spec fn produce_options() -> Seq<OptionSpec> {
    seq![("user-id"@, true), ("name"@, false), ("from"@, false), ("to"@, false)]
}

/// The options that a `cdc` command takes.
pub open spec fn cdc_options(name: Seq<char>) -> Seq<OptionSpec> {
    if name == "seed"@ {
        seed_options()
    } else if name == "source-query"@ || name == "query"@ {
        user_options()
    } else if name == "produce"@ {
        produce_options()
    } else {
        Seq::empty()
    }
}

/// Whether `name` is a command of `cdc`.
pub open spec fn is_cdc_command(name: Seq<char>) -> bool {
    name == "bootstrap"@ || name == "seed"@ || name == "source-query"@ || name == "query"@
        || name == "produce"@ || name == "connector-status"@ || name == "delete-connector"@
        || name == "reset"@
}

/// The `cdc` command `name` with the option values that were read.
pub open spec fn cdc_command(name: Seq<char>, values: Seq<Option<Seq<char>>>) -> Result<
    CdcCommandView,
    CliErrorView,
> {
    if name == "bootstrap"@ {
        Ok(CdcCommandView::Bootstrap)
    } else if name == "seed"@ {
        match integer_option(values[0], "user-id"@, DEFAULT_USER_ID) {
            Err(e) => Err(e),
            Ok(user_id) => Ok(
                CdcCommandView::Seed {
                    user_id,
                    name: text_option(values[1], DEFAULT_NAME@),
                    plan: text_option(values[2], DEFAULT_FROM_PLAN@),
                },
            ),
        }
    } else if name == "source-query"@ {
        match integer_option(values[0], "user-id"@, DEFAULT_USER_ID) {
            Err(e) => Err(e),
            Ok(user_id) => Ok(CdcCommandView::SourceQuery { user_id }),
        }
    } else if name == "query"@ {
        match integer_option(values[0], "user-id"@, DEFAULT_USER_ID) {
            Err(e) => Err(e),
            Ok(user_id) => Ok(CdcCommandView::Query { user_id }),
        }
    } else if name == "produce"@ {
        match integer_option(values[0], "user-id"@, DEFAULT_USER_ID) {
            Err(e) => Err(e),
            Ok(user_id) => Ok(
                CdcCommandView::Produce {
                    user_id,
                    name: text_option(values[1], DEFAULT_NAME@),
                    from: text_option(values[2], DEFAULT_FROM_PLAN@),
                    to: text_option(values[3], DEFAULT_TO_PLAN@),
                },
            ),
        }
    } else if name == "connector-status"@ {
        Ok(CdcCommandView::ConnectorStatus)
    } else if name == "delete-connector"@ {
        Ok(CdcCommandView::DeleteConnector)
    } else {
        Ok(CdcCommandView::Reset)
    }
}

/// What a program's command line says up to its command: the first argument
/// is the program; then help, an option, or the command's name.
pub open spec fn leading_error(args: Seq<Seq<char>>) -> Option<CliErrorView> {
    if args.len() < 2 {
        Some(CliErrorView::MissingSubcommand)
    } else if is_help_flag(args[1]) || args[1] == "help"@ {
        Some(CliErrorView::Help)
    } else if args[1].len() > 1 && args[1][0] == '-' {
        Some(CliErrorView::UnknownArgument(args[1]))
    } else {
        None
    }
}

/// The `cdc` command that a command line gives.
pub open spec fn parse_cdc(args: Seq<Seq<char>>) -> Result<CdcCommandView, CliErrorView> {
    match leading_error(args) {
        Some(e) => Err(e),
        None => if !is_cdc_command(args[1]) {
            Err(CliErrorView::InvalidSubcommand(args[1]))
        } else {
            match scan_options(
                args.skip(2),
                cdc_options(args[1]),
                no_values(cdc_options(args[1]).len()),
            ) {
                Err(e) => Err(e),
                Ok(values) => cdc_command(args[1], values),
            }
        },
    }
}

/// The indexer mode that a command line gives.
pub open spec fn parse_indexer(args: Seq<Seq<char>>) -> Result<IndexerCommand, CliErrorView> {
    match leading_error(args) {
        Some(e) => Err(e),
        None => if args[1] != "run"@ && args[1] != "once"@ {
            Err(CliErrorView::InvalidSubcommand(args[1]))
        } else {
            match scan_options(args.skip(2), Seq::empty(), no_values(0)) {
                Err(e) => Err(e),
                Ok(_) => if args[1] == "run"@ {
                    Ok(IndexerCommand::Run)
                } else {
                    Ok(IndexerCommand::Once)
                },
            }
        },
    }
}

fn push_option(names: &mut Vec<(&'static str, bool)>, name: &'static str, integer: bool)
    ensures
        names_view(final(names)@) == names_view(old(names)@).push((name@, integer)),
{
    let ghost prev = names@;
    names.push((name, integer));
    assert(names_view(names@) =~= names_view(prev).push((name@, integer)));
}

fn options_of(name: &str) -> (res: Vec<(&'static str, bool)>)
    ensures
        names_view(res@) == cdc_options(name@),
{
    let mut names: Vec<(&'static str, bool)> = Vec::new();
    assert(names_view(names@) =~= Seq::<OptionSpec>::empty());
    if str_eq(name, "seed") {
        push_option(&mut names, "user-id", true);
        push_option(&mut names, "name", false);
        push_option(&mut names, "plan", false);
        assert(names_view(names@) =~= seed_options());
    } else if str_eq(name, "source-query") || str_eq(name, "query") {
        push_option(&mut names, "user-id", true);
        assert(names_view(names@) =~= user_options());
    } else if str_eq(name, "produce") {
        push_option(&mut names, "user-id", true);
        push_option(&mut names, "name", false);
        push_option(&mut names, "from", false);
        push_option(&mut names, "to", false);
        assert(names_view(names@) =~= produce_options());
    }
    names
}

fn integer_value(v: &Option<String>, name: &str, default: i64) -> (res: Result<i64, CliError>)
    ensures
        match res {
            Ok(i) => integer_option(opt_text(*v), name@, default) == Ok::<i64, CliErrorView>(i),
            Err(e) => integer_option(opt_text(*v), name@, default) == Err::<i64, CliErrorView>(e@),
        },
{
    match v {
        None => Ok(default),
        Some(s) => match parse_i64(s.as_str()) {
            Some(i) => Ok(i),
            None => Err(CliError::InvalidValue { arg: name.to_owned(), value: s.clone() }),
        },
    }
}

fn text_value(v: &Option<String>, default: &str) -> (res: String)
    ensures
        res@ == text_option(opt_text(*v), default@),
{
    match v {
        Some(s) => s.clone(),
        None => default.to_owned(),
    }
}

fn leading_check(args: &[&str]) -> (res: Option<CliError>)
    ensures
        match res {
            Some(e) => leading_error(tokens_view(args@)) == Some(e@),
            None => leading_error(tokens_view(args@)) is None,
        },
{
    if args.len() < 2 {
        return Some(CliError::MissingSubcommand);
    }
    let t = args[1];
    assert(tokens_view(args@)[1] == t@);
    if is_help_token(t) || str_eq(t, "help") {
        return Some(CliError::Help);
    }
    if t.unicode_len() > 1 && t.get_char(0) == '-' {
        return Some(CliError::UnknownArgument(t.to_owned()));
    }
    None
}

/// Command lines taken by view.
pub open spec fn cdc_result_view(r: Result<CdcArgs, CliError>) -> Result<CdcCommandView, CliErrorView> {
    match r {
        Ok(a) => Ok(a.command@),
        Err(e) => Err(e@),
    }
}

impl CdcArgs {
    /// Reads the `cdc` command line `args` (the program's name first).
    pub fn try_parse_from(args: &[&str]) -> (res: Result<CdcArgs, CliError>)
        ensures
            cdc_result_view(res) == parse_cdc(tokens_view(args@)),
    {
        if let Some(e) = leading_check(args) {
            return Err(e);
        }
        let ghost tv = tokens_view(args@);
        let name = args[1];
        assert(tv[1] == name@);
        if !(str_eq(name, "bootstrap") || str_eq(name, "seed") || str_eq(name, "source-query")
            || str_eq(name, "query") || str_eq(name, "produce") || str_eq(name, "connector-status")
            || str_eq(name, "delete-connector") || str_eq(name, "reset")) {
            return Err(CliError::InvalidSubcommand(name.to_owned()));
        }
        let names = options_of(name);
        assert(names_view(names@).len() == names@.len());
        let values = match read_options(args, 2, &names) {
            Ok(v) => v,
            Err(e) => return Err(e),
        };
        let ghost vv = values_view(values@);
        assert(forall|q: int| 0 <= q < values@.len() ==> vv[q] == opt_text(#[trigger] values@[q]));
        let command = if str_eq(name, "bootstrap") {
            CdcCommand::Bootstrap
        } else if str_eq(name, "seed") {
            let user_id = match integer_value(&values[0], "user-id", DEFAULT_USER_ID) {
                Ok(i) => i,
                Err(e) => return Err(e),
            };
            CdcCommand::Seed {
                user_id,
                name: text_value(&values[1], DEFAULT_NAME),
                plan: text_value(&values[2], DEFAULT_FROM_PLAN),
            }
        } else if str_eq(name, "source-query") {
            let user_id = match integer_value(&values[0], "user-id", DEFAULT_USER_ID) {
                Ok(i) => i,
                Err(e) => return Err(e),
            };
            CdcCommand::SourceQuery { user_id }
        } else if str_eq(name, "query") {
            let user_id = match integer_value(&values[0], "user-id", DEFAULT_USER_ID) {
                Ok(i) => i,
                Err(e) => return Err(e),
            };
            CdcCommand::Query { user_id }
        } else if str_eq(name, "produce") {
            let user_id = match integer_value(&values[0], "user-id", DEFAULT_USER_ID) {
                Ok(i) => i,
                Err(e) => return Err(e),
            };
            CdcCommand::Produce {
                user_id,
                name: text_value(&values[1], DEFAULT_NAME),
                from: text_value(&values[2], DEFAULT_FROM_PLAN),
                to: text_value(&values[3], DEFAULT_TO_PLAN),
            }
        } else if str_eq(name, "connector-status") {
            CdcCommand::ConnectorStatus
        } else if str_eq(name, "delete-connector") {
            CdcCommand::DeleteConnector
        } else {
            CdcCommand::Reset
        };
        Ok(CdcArgs { command })
    }
}

/// Indexer command lines taken by view.
pub open spec fn indexer_result_view(r: Result<IndexerArgs, CliError>) -> Result<
    IndexerCommand,
    CliErrorView,
> {
    match r {
        Ok(a) => Ok(a.command),
        Err(e) => Err(e@),
    }
}

impl IndexerArgs {
    /// Reads the indexer command line `args` (the program's name first).
    pub fn try_parse_from(args: &[&str]) -> (res: Result<IndexerArgs, CliError>)
        ensures
            indexer_result_view(res) == parse_indexer(tokens_view(args@)),
    {
        if let Some(e) = leading_check(args) {
            return Err(e);
        }
        let ghost tv = tokens_view(args@);
        let name = args[1];
        assert(tv[1] == name@);
        let run = str_eq(name, "run");
        if !run && !str_eq(name, "once") {
            return Err(CliError::InvalidSubcommand(name.to_owned()));
        }
        let names: Vec<(&'static str, bool)> = Vec::new();
        assert(names_view(names@) =~= Seq::<OptionSpec>::empty());
        match read_options(args, 2, &names) {
            Ok(_) => {},
            Err(e) => return Err(e),
        }
        if run {
            Ok(IndexerArgs { command: IndexerCommand::Run })
        } else {
            Ok(IndexerArgs { command: IndexerCommand::Once })
        }
    }
}

proof fn lemma_user_command_prefix(command: Seq<char>)
    requires
        command == "query"@ || command == "source-query"@,
    ensures
        leading_error(seq!["cdc"@, command]) is None,
        is_cdc_command(command),
        cdc_options(command) == user_options(),
        command != "bootstrap"@ && command != "seed"@,
{
    reveal_strlit("query");
    reveal_strlit("source-query");
    reveal_strlit("bootstrap");
    reveal_strlit("seed");
    reveal_strlit("help");
    reveal_strlit("-h");
    reveal_strlit("--help");
    assert(command.len() != "-h"@.len() && command.len() != "--help"@.len());
    assert(command.len() != "help"@.len() && command.len() != "bootstrap"@.len());
    assert(command.len() != "seed"@.len());
    assert(command[0] != '-');
}

proof fn lemma_user_id_name()
    ensures
        equals_index("user-id"@) == -1,
        option_name("user-id"@) == "user-id"@,
        inline_value("user-id"@) is None,
        option_index(user_options(), "user-id"@) == 0,
{
    reveal_strlit("user-id");
    let body = "user-id"@;
    assert forall|j: int| 0 <= j < body.len() implies !((|c: char| c == '=')(#[trigger] body[j])) by {
    }
    lemma_first_index(body, |c: char| c == '=', body.len() as int);
    lemma_first_index(user_options(), |o: OptionSpec| o.0 == "user-id"@, 0);
}

/// The tokens of a user command: the program, the command, then `--user-id`
/// and its value as one token or two.
pub open spec fn user_command_line(command: Seq<char>, value: Seq<char>, joined: bool) -> Seq<
    Seq<char>,
> {
    if joined {
        seq!["cdc"@, command, "--user-id="@ + value]
    } else {
        seq!["cdc"@, command, "--user-id"@, value]
    }
}

/// The options of a user command, read from `--user-id` and its value: the
/// value is recorded as given, in either form.
proof fn lemma_scan_user_id(command: Seq<char>, n: i64, joined: bool)
    requires
        joined || n >= 0,
    ensures
        scan_options(
            user_command_line(command, integer_text(n as int), joined).skip(2),
            user_options(),
            no_values(1),
        ) == Ok::<Seq<Option<Seq<char>>>, CliErrorView>(seq![Some(integer_text(n as int))]),
{
    let text = integer_text(n as int);
    let args = user_command_line(command, text, joined);
    let tokens = args.skip(2);
    lemma_integer_text_reads_back(n);
    lemma_user_id_name();
    reveal_strlit("--user-id");
    reveal_strlit("--user-id=");
    reveal_strlit("user-id");
    reveal_strlit("-h");
    reveal_strlit("--help");
    reveal_strlit("--");
    assert(no_values(1)[0] is None);
    assert(no_values(1).update(0, Some(text)) =~= seq![Some(text)]);
    if joined {
        let t = "--user-id="@ + text;
        assert(tokens =~= seq![t]);
        assert(t.len() != "-h"@.len() && t.len() != "--help"@.len() && t.len() != "--"@.len());
        let body = t.skip(2);
        assert(body[7] == '=');
        assert forall|j: int| 0 <= j < 7 implies !((|c: char| c == '=')(#[trigger] body[j])) by {
        }
        lemma_first_index(body, |c: char| c == '=', 7);
        assert(body.take(7) =~= "user-id"@);
        assert(body.skip(8) =~= text);
        assert(tokens.drop_first().len() == 0);
        assert(t[0] == '-' && t[1] == '-');
        assert(!is_help_flag(t));
        assert(t != "--"@);
        assert(is_long_option(t));
        assert(equals_index(body) == 7);
        assert(option_name(body) == "user-id"@);
        assert(option_index(user_options(), option_name(body)) == 0);
        assert(inline_value(body) == Some(text));
        assert(take_value("user-id"@, true, text) == Ok::<Seq<char>, CliErrorView>(text));
        assert(scan_options(tokens.drop_first(), user_options(), no_values(1).update(0, Some(text)))
            == Ok::<Seq<Option<Seq<char>>>, CliErrorView>(seq![Some(text)]));
    } else {
        let t = "--user-id"@;
        assert(tokens =~= seq![t, text]);
        assert(t.len() != "-h"@.len() && t.len() != "--help"@.len() && t.len() != "--"@.len());
        assert(t.skip(2) =~= "user-id"@);
        lemma_decimal_text_reads_back(n as nat);
        assert(is_digit(text[0]));
        assert(tokens.skip(2).len() == 0);
        assert(t[0] == '-' && t[1] == '-');
        assert(!is_help_flag(t));
        assert(t != "--"@);
        assert(is_long_option(t));
        assert(is_value_token(text));
        assert(option_index(user_options(), option_name(t.skip(2))) == 0);
        assert(take_value("user-id"@, true, text) == Ok::<Seq<char>, CliErrorView>(text));
        assert(scan_options(tokens.skip(2), user_options(), no_values(1).update(0, Some(text)))
            == Ok::<Seq<Option<Seq<char>>>, CliErrorView>(seq![Some(text)]));
    }
}

/// `cdc query` and `cdc source-query` name the user given with `--user-id`,
/// whatever its value, written `--user-id=N`, or `--user-id N` for a
/// non-negative `N` (a token that starts with `-` reads as an option, so a
/// negative value must be joined with `=`); only without the option is the
/// user the default one.
pub proof fn lemma_user_commands_take_the_given_user(n: i64, joined: bool)
    requires
        joined || n >= 0,
    ensures
        parse_cdc(user_command_line("query"@, integer_text(n as int), joined)) == Ok::<
            CdcCommandView,
            CliErrorView,
        >(CdcCommandView::Query { user_id: n }),
        parse_cdc(user_command_line("source-query"@, integer_text(n as int), joined)) == Ok::<
            CdcCommandView,
            CliErrorView,
        >(CdcCommandView::SourceQuery { user_id: n }),
        parse_cdc(seq!["cdc"@, "query"@]) == Ok::<CdcCommandView, CliErrorView>(
            CdcCommandView::Query { user_id: DEFAULT_USER_ID },
        ),
{
    lemma_integer_text_reads_back(n);
    reveal_strlit("query");
    reveal_strlit("source-query");
    lemma_user_command_prefix("query"@);
    lemma_user_command_prefix("source-query"@);
    assert("query"@ != "source-query"@);
    lemma_scan_user_id("query"@, n, joined);
    lemma_scan_user_id("source-query"@, n, joined);
    let q = user_command_line("query"@, integer_text(n as int), joined);
    let sq = user_command_line("source-query"@, integer_text(n as int), joined);
    assert(q[1] == "query"@ && sq[1] == "source-query"@);
    assert(seq!["cdc"@, "query"@].skip(2).len() == 0);
    assert(leading_error(q) == leading_error(seq!["cdc"@, "query"@]));
}

proof fn lemma_option_index(names: Seq<OptionSpec>, name: Seq<char>, k: int)
    requires
        0 <= k < names.len(),
        names[k].0 == name,
        forall|j: int| 0 <= j < k ==> names[j].0 != name,
    ensures
        option_index(names, name) == k,
    decreases k,
{
    if k > 0 {
        assert(names[0].0 != name);
        assert forall|j: int| 0 <= j < k - 1 implies #[trigger] names.drop_first()[j].0 != name by {
            assert(names.drop_first()[j] == names[j + 1]);
        }
        lemma_option_index(names.drop_first(), name, k - 1);
    }
}

/// One text option given as `--name value` is recorded, as given, at its
/// place among the command's options.
proof fn lemma_scan_text_option(names: Seq<OptionSpec>, k: int, name: Seq<char>, value: Seq<char>)
    requires
        0 <= k < names.len(),
        names[k].0 == name,
        !names[k].1,
        names[k].0.len() > 0,
        names[k].0 != "help"@,
        forall|c: int| 0 <= c < names[k].0.len() ==> names[k].0[c] != '=',
        forall|j: int| 0 <= j < k ==> names[j].0 != names[k].0,
        is_value_token(value),
    ensures
        scan_options(seq!["--"@ + names[k].0, value], names, no_values(names.len()))
            == Ok::<Seq<Option<Seq<char>>>, CliErrorView>(
            no_values(names.len()).update(k, Some(value)),
        ),
{
    reveal_strlit("--");
    reveal_strlit("-h");
    reveal_strlit("--help");
    reveal_strlit("help");
    let t = "--"@ + name;
    let tokens = seq![t, value];
    assert(t[0] == '-' && t[1] == '-');
    assert(t.skip(2) =~= name);
    assert(t.len() != "-h"@.len());
    if t == "--help"@ {
        assert(name =~= t.skip(2));
        assert("--help"@.skip(2) =~= "help"@);
    }
    assert(t != "--"@);
    assert forall|j: int| 0 <= j < name.len() implies !((|c: char| c == '=')(#[trigger] name[j])) by {
    }
    lemma_first_index(name, |c: char| c == '=', name.len() as int);
    lemma_option_index(names, name, k);
    assert(equals_index(name) == -1);
    assert(option_name(name) == name);
    assert(inline_value(name) is None);
    assert(option_index(names, name) == k);
    assert(take_value(name, names[k].1, value) == Ok::<Seq<char>, CliErrorView>(value));
    assert(!is_help_flag(t));
    assert(is_long_option(t));
    assert(tokens[0] == t && tokens[1] == value && tokens.len() == 2);
    assert(scan_options(tokens.skip(2), names, no_values(names.len()).update(k, Some(value)))
        == Ok::<Seq<Option<Seq<char>>>, CliErrorView>(
        no_values(names.len()).update(k, Some(value)),
    ));
    assert(no_values(names.len())[k] is None);
    assert(tokens.skip(2).len() == 0);
}

/// `seed` and `produce` take the name and plans given as options, each in
/// its own field; the options not given keep their defaults.
pub proof fn lemma_text_options_take_the_given_values(value: Seq<char>)
    requires
        is_value_token(value),
    ensures
        parse_cdc(seq!["cdc"@, "seed"@, "--name"@, value]) == Ok::<CdcCommandView, CliErrorView>(
            CdcCommandView::Seed { user_id: DEFAULT_USER_ID, name: value, plan: DEFAULT_FROM_PLAN@ },
        ),
        parse_cdc(seq!["cdc"@, "seed"@, "--plan"@, value]) == Ok::<CdcCommandView, CliErrorView>(
            CdcCommandView::Seed { user_id: DEFAULT_USER_ID, name: DEFAULT_NAME@, plan: value },
        ),
        parse_cdc(seq!["cdc"@, "produce"@, "--name"@, value]) == Ok::<
            CdcCommandView,
            CliErrorView,
        >(
            CdcCommandView::Produce {
                user_id: DEFAULT_USER_ID,
                name: value,
                from: DEFAULT_FROM_PLAN@,
                to: DEFAULT_TO_PLAN@,
            },
        ),
        parse_cdc(seq!["cdc"@, "produce"@, "--from"@, value]) == Ok::<
            CdcCommandView,
            CliErrorView,
        >(
            CdcCommandView::Produce {
                user_id: DEFAULT_USER_ID,
                name: DEFAULT_NAME@,
                from: value,
                to: DEFAULT_TO_PLAN@,
            },
        ),
        parse_cdc(seq!["cdc"@, "produce"@, "--to"@, value]) == Ok::<
            CdcCommandView,
            CliErrorView,
        >(
            CdcCommandView::Produce {
                user_id: DEFAULT_USER_ID,
                name: DEFAULT_NAME@,
                from: DEFAULT_FROM_PLAN@,
                to: value,
            },
        ),
{
    reveal_strlit("seed");
    reveal_strlit("produce");
    reveal_strlit("bootstrap");
    reveal_strlit("source-query");
    reveal_strlit("query");
    reveal_strlit("help");
    reveal_strlit("-h");
    reveal_strlit("--help");
    reveal_strlit("--");
    reveal_strlit("user-id");
    reveal_strlit("name");
    reveal_strlit("plan");
    reveal_strlit("from");
    reveal_strlit("to");
    reveal_strlit("--name");
    reveal_strlit("--plan");
    reveal_strlit("--from");
    reveal_strlit("--to");
    let seed = seed_options();
    let produce = produce_options();
    assert("user-id"@.len() != "name"@.len() && "user-id"@.len() != "plan"@.len());
    assert("user-id"@.len() != "from"@.len() && "user-id"@.len() != "to"@.len());
    assert("name"@[0] != "plan"@[0] && "name"@[0] != "from"@[0] && "name"@.len() != "to"@.len());
    assert("from"@.len() != "to"@.len());
    assert("name"@.len() != "help"@.len() + 1 || "name"@[0] != "help"@[0]);
    assert("name"@[0] != "help"@[0] && "plan"@[0] != "help"@[0]);
    assert("from"@[0] != "help"@[0] && "to"@.len() != "help"@.len());
    lemma_scan_text_option(seed, 1, "name"@, value);
    lemma_scan_text_option(seed, 2, "plan"@, value);
    lemma_scan_text_option(produce, 1, "name"@, value);
    lemma_scan_text_option(produce, 2, "from"@, value);
    lemma_scan_text_option(produce, 3, "to"@, value);
    assert("--"@ + "name"@ =~= "--name"@);
    assert("--"@ + "plan"@ =~= "--plan"@);
    assert("--"@ + "from"@ =~= "--from"@);
    assert("--"@ + "to"@ =~= "--to"@);
    assert("seed"@.len() != "-h"@.len() && "seed"@.len() != "--help"@.len());
    assert("seed"@[0] != "help"@[0] && "seed"@[0] != '-');
    assert("produce"@.len() != "-h"@.len() && "produce"@.len() != "--help"@.len());
    assert("produce"@.len() != "help"@.len() && "produce"@[0] != '-');
    assert("seed"@.len() != "bootstrap"@.len());
    assert("produce"@.len() != "bootstrap"@.len() && "produce"@.len() != "seed"@.len());
    assert("produce"@.len() != "source-query"@.len() && "produce"@.len() != "query"@.len());
    let n3 = no_values(3);
    let n4 = no_values(4);
    assert(n3.update(1, Some(value)) =~= seq![None, Some(value), None]);
    assert(n3.update(2, Some(value)) =~= seq![None, None, Some(value)]);
    assert(n4.update(1, Some(value)) =~= seq![None, Some(value), None, None]);
    assert(n4.update(2, Some(value)) =~= seq![None, None, Some(value), None]);
    assert(n4.update(3, Some(value)) =~= seq![None, None, None, Some(value)]);
    assert(seq!["cdc"@, "seed"@, "--name"@, value].skip(2) =~= seq!["--name"@, value]);
    assert(seq!["cdc"@, "seed"@, "--plan"@, value].skip(2) =~= seq!["--plan"@, value]);
    assert(seq!["cdc"@, "produce"@, "--name"@, value].skip(2) =~= seq!["--name"@, value]);
    assert(seq!["cdc"@, "produce"@, "--from"@, value].skip(2) =~= seq!["--from"@, value]);
    assert(seq!["cdc"@, "produce"@, "--to"@, value].skip(2) =~= seq!["--to"@, value]);
}

} // verus!
