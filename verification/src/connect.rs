//! Kafka Connect: the status of the Debezium connector, the URLs of its REST
//! resources, its configuration, and the decisions taken on the replies.

use vstd::prelude::*;
use vstd::string::*;

use crate::config::{DemoConfig, DemoConfigView};
use crate::json::{
    decode_string, error_text, lemma_distinct_three, errors_view, json_string, lemma_record_readable,
    names_view, parse_json, parsed_json, present_error, record_failure, record_failure_text,
    record_slot, result_view, slot, type_error, type_error_text, JsonValue,
};
use crate::text::{decimal_text, str_eq, u64_text};

verus! {

/// The state of a connector or of one of its tasks.
#[derive(Debug, Clone, PartialEq, Eq)]
pub struct ConnectorState {
    pub state: String,
}

impl View for ConnectorState {
    type V = Seq<char>;

    open spec fn view(&self) -> Seq<char> {
        self.state@
    }
}

/// The status that Kafka Connect reports for a connector.
#[derive(Debug, Clone, PartialEq, Eq)]
pub struct ConnectorStatus {
    pub name: String,
    pub connector: ConnectorState,
    pub tasks: Vec<ConnectorState>,
}

pub struct ConnectorStatusView {
    pub name: Seq<char>,
    pub connector: Seq<char>,
    pub tasks: Seq<Seq<char>>,
}

impl View for ConnectorStatus {
    type V = ConnectorStatusView;

    open spec fn view(&self) -> ConnectorStatusView {
        ConnectorStatusView {
            name: self.name@,
            connector: self.connector@,
            tasks: self.tasks@.map_values(|t: ConnectorState| t@),
        }
    }
}

/// The state that Kafka Connect reports for a working connector or task.
pub const RUNNING_STATE: &'static str = "RUNNING";

/// Task states separated by commas.
pub open spec fn join_states(states: Seq<Seq<char>>) -> Seq<char>
    decreases states.len(),
{
    if states.len() == 0 {
        Seq::empty()
    } else if states.len() == 1 {
        states[0]
    } else {
        join_states(states.drop_last()) + seq![','] + states.last()
    }
}

impl ConnectorStatusView {
    /// The connector runs, and so does each of its tasks, of which there is at least one.
    pub open spec fn is_running(self) -> bool {
        &&& self.connector == RUNNING_STATE@
        &&& self.tasks.len() > 0
        &&& forall|i: int| 0 <= i < self.tasks.len() ==> #[trigger] self.tasks[i] == RUNNING_STATE@
    }

    /// `{name} connector={state}, tasks=[{task states}]`.
    pub open spec fn summary(self) -> Seq<char> {
        self.name + " connector="@ + self.connector + ", tasks=["@ + join_states(self.tasks) + "]"@
    }
}

impl ConnectorStatus {
    pub fn is_running(&self) -> (res: bool)
        ensures
            res == self@.is_running(),
    {
        if !str_eq(self.connector.state.as_str(), RUNNING_STATE) {
            return false;
        }
        if self.tasks.len() == 0 {
            return false;
        }
        let n = self.tasks.len();
        for i in 0..n
            invariant
                n == self.tasks@.len(),
                forall|j: int| 0 <= j < i ==> #[trigger] self@.tasks[j] == RUNNING_STATE@,
        {
            if !str_eq(self.tasks[i].state.as_str(), RUNNING_STATE) {
                assert(self@.tasks[i as int] != RUNNING_STATE@);
                return false;
            }
        }
        true
    }

    pub fn summary(&self) -> (res: String)
        ensures
            res@ == self@.summary(),
    {
        let n = self.tasks.len();
        let ghost states = self@.tasks;
        let mut joined = String::new();
        for i in 0..n
            invariant
                n == self.tasks@.len(),
                states == self@.tasks,
                joined@ == join_states(states.take(i as int)),
        {
            proof {
                assert(states.take(i + 1).drop_last() =~= states.take(i as int));
                reveal_strlit(",");
            }
            if i != 0 {
                joined.append(",");
            }
            joined.append(self.tasks[i].state.as_str());
        }
        assert(states.take(n as int) =~= states);
        let mut s = self.name.clone();
        s.append(" connector=");
        s.append(self.connector.state.as_str());
        s.append(", tasks=[");
        s.append(joined.as_str());
        s.append("]");
        s
    }
}

/// `ConnectorState` read from a JSON record.
pub open spec fn json_connector_state(v: JsonValue) -> Result<Seq<char>, Seq<char>> {
    let state = slot(v, "state"@, 0);
    match record_failure(
        v,
        "ConnectorState"@,
        seq!["state"@],
        seq![false],
        seq![false],
        seq![present_error(state, |x: JsonValue| decode_string(x))],
    ) {
        Some(e) => Err(e),
        None => Ok(decode_string(state.unwrap())->Ok_0),
    }
}

/// A list of states read from JSON items; the first item in error gives the error.
pub open spec fn json_states(items: Seq<JsonValue>) -> Result<Seq<Seq<char>>, Seq<char>>
    decreases items.len(),
{
    if items.len() == 0 {
        Ok(Seq::empty())
    } else {
        match json_states(items.drop_last()) {
            Err(e) => Err(e),
            Ok(prev) => match json_connector_state(items.last()) {
                Ok(s) => Ok(prev.push(s)),
                Err(e) => Err(e),
            },
        }
    }
}

/// A list of states read from a JSON array.
pub open spec fn json_state_list(v: JsonValue) -> Result<Seq<Seq<char>>, Seq<char>> {
    match v {
        JsonValue::Array(items) => json_states(items@),
        _ => Err(type_error(v, "a sequence"@)),
    }
}

/// `ConnectorStatus` read from a JSON record; `tasks` defaults to none, also
/// when an array ends before it.
pub open spec fn json_connector_status(v: JsonValue) -> Result<ConnectorStatusView, Seq<char>> {
    let name = slot(v, "name"@, 0);
    let connector = slot(v, "connector"@, 1);
    let tasks = slot(v, "tasks"@, 2);
    match record_failure(
        v,
        "ConnectorStatus"@,
        seq!["name"@, "connector"@, "tasks"@],
        seq![false, false, true],
        seq![false, false, true],
        seq![
            present_error(name, |x: JsonValue| decode_string(x)),
            present_error(connector, |x: JsonValue| json_connector_state(x)),
            present_error(tasks, |x: JsonValue| json_state_list(x)),
        ],
    ) {
        Some(e) => Err(e),
        None => Ok(
            ConnectorStatusView {
                name: decode_string(name.unwrap())->Ok_0,
                connector: json_connector_state(connector.unwrap())->Ok_0,
                tasks: if tasks is Some {
                    json_state_list(tasks.unwrap())->Ok_0
                } else {
                    Seq::empty()
                },
            },
        ),
    }
}

impl ConnectorState {
    /// Reads a state from a JSON record.
    pub fn from_json_value(v: &JsonValue) -> (res: Result<ConnectorState, String>)
        ensures
            result_view(res) == json_connector_state(*v),
    {
        let state = match record_slot(v, "state", 0) {
            Some(x) => Some(json_string(x)),
            None => None,
        };
        let names = vec!["state"];
        let optional = vec![false];
        let errors = vec![error_text(&state)];
        let ghost nv = seq!["state"@];
        let ghost ev = seq![present_error(slot(*v, "state"@, 0), |x: JsonValue| decode_string(x))];
        proof {
            assert(names_view(names@) =~= nv);
            assert(errors_view(errors@) =~= ev);
            assert(optional@ =~= seq![false]);
        }
        if let Some(e) = record_failure_text(
            v,
            "ConnectorState",
            &names,
            &optional,
            &optional,
            &errors,
        ) {
            return Err(e);
        }
        proof {
            lemma_record_readable(*v, "ConnectorState"@, nv, optional@, optional@, ev, 0);
        }
        Ok(ConnectorState { state: state.unwrap().unwrap() })
    }
}

proof fn lemma_states_error_persists(items: Seq<JsonValue>, k: int)
    requires
        0 <= k <= items.len(),
        json_states(items.take(k)) is Err,
    ensures
        json_states(items) == json_states(items.take(k)),
    decreases items.len() - k,
{
    if k < items.len() {
        assert(items.take(k + 1).drop_last() =~= items.take(k));
        lemma_states_error_persists(items, k + 1);
    } else {
        assert(items.take(k) =~= items);
    }
}

fn state_list_from_json(v: &JsonValue) -> (res: Result<Vec<ConnectorState>, String>)
    ensures
        match res {
            Ok(list) => json_state_list(*v) == Ok::<Seq<Seq<char>>, Seq<char>>(
                list@.map_values(|t: ConnectorState| t@),
            ),
            Err(e) => json_state_list(*v) == Err::<Seq<Seq<char>>, Seq<char>>(e@),
        },
{
    match v {
        JsonValue::Array(items) => {
            let n = items.len();
            let mut list: Vec<ConnectorState> = Vec::new();
            assert(items@.take(0) =~= Seq::<JsonValue>::empty());
            assert(list@.map_values(|t: ConnectorState| t@) =~= Seq::<Seq<char>>::empty());
            for i in 0..n
                invariant
                    n == items@.len(),
                    json_state_list(*v) == json_states(items@),
                    json_states(items@.take(i as int)) == Ok::<Seq<Seq<char>>, Seq<char>>(
                        list@.map_values(|t: ConnectorState| t@),
                    ),
            {
                assert(items@.take(i + 1).drop_last() =~= items@.take(i as int));
                let ghost prev = list@;
                match ConnectorState::from_json_value(&items[i]) {
                    Ok(state) => {
                        list.push(state);
                        assert(list@.map_values(|t: ConnectorState| t@) =~= prev.map_values(
                            |t: ConnectorState| t@,
                        ).push(state@));
                    },
                    Err(e) => {
                        proof {
                            lemma_states_error_persists(items@, i as int + 1);
                        }
                        return Err(e);
                    },
                }
            }
            assert(items@.take(n as int) =~= items@);
            Ok(list)
        },
        _ => Err(type_error_text(v, "a sequence")),
    }
}

impl ConnectorStatus {
    /// Reads a connector status from a JSON record.
    pub fn from_json_value(v: &JsonValue) -> (res: Result<ConnectorStatus, String>)
        ensures
            result_view(res) == json_connector_status(*v),
    {
        let name = match record_slot(v, "name", 0) {
            Some(x) => Some(json_string(x)),
            None => None,
        };
        let connector = match record_slot(v, "connector", 1) {
            Some(x) => Some(ConnectorState::from_json_value(x)),
            None => None,
        };
        let tasks = match record_slot(v, "tasks", 2) {
            Some(x) => Some(state_list_from_json(x)),
            None => None,
        };
        let names = vec!["name", "connector", "tasks"];
        let optional = vec![false, false, true];
        let errors = vec![error_text(&name), error_text(&connector), error_text(&tasks)];
        let ghost nv = seq!["name"@, "connector"@, "tasks"@];
        let ghost ev = seq![
            present_error(slot(*v, "name"@, 0), |x: JsonValue| decode_string(x)),
            present_error(slot(*v, "connector"@, 1), |x: JsonValue| json_connector_state(x)),
            present_error(slot(*v, "tasks"@, 2), |x: JsonValue| json_state_list(x)),
        ];
        proof {
            assert(names_view(names@) =~= nv);
            assert(errors_view(errors@) =~= ev);
            assert(optional@ =~= seq![false, false, true]);
        }
        if let Some(e) = record_failure_text(
            v,
            "ConnectorStatus",
            &names,
            &optional,
            &optional,
            &errors,
        ) {
            return Err(e);
        }
        proof {
            reveal_strlit("name");
            reveal_strlit("connector");
            reveal_strlit("tasks");
            assert("name"@.len() != "connector"@.len());
            assert("name"@.len() != "tasks"@.len());
            assert("connector"@.len() != "tasks"@.len());
            lemma_distinct_three("name"@, "connector"@, "tasks"@);
            lemma_record_readable(*v, "ConnectorStatus"@, nv, optional@, optional@, ev, 0);
            lemma_record_readable(*v, "ConnectorStatus"@, nv, optional@, optional@, ev, 1);
            lemma_record_readable(*v, "ConnectorStatus"@, nv, optional@, optional@, ev, 2);
        }
        let tasks = match tasks {
            Some(r) => r.unwrap(),
            None => {
                let empty: Vec<ConnectorState> = Vec::new();
                assert(empty@.map_values(|t: ConnectorState| t@) =~= Seq::<Seq<char>>::empty());
                empty
            },
        };
        Ok(
            ConnectorStatus {
                name: name.unwrap().unwrap(),
                connector: connector.unwrap().unwrap(),
                tasks,
            },
        )
    }

    /// Reads a connector status from the JSON text of a status reply.
    pub fn from_json(text: &str) -> (res: Result<ConnectorStatus, String>)
        ensures
            result_view(res) == match parsed_json(text@) {
                Ok(v) => json_connector_status(v),
                Err(e) => Err(e),
            },
    {
        match parse_json(text) {
            Ok(v) => Self::from_json_value(&v),
            Err(e) => Err(e),
        }
    }
}

/// The text without its trailing `/` characters.
pub open spec fn trim_trailing_slashes(s: Seq<char>) -> Seq<char>
    decreases s.len(),
{
    if s.len() > 0 && s.last() == '/' {
        trim_trailing_slashes(s.drop_last())
    } else {
        s
    }
}

proof fn lemma_trim_prefix(s: Seq<char>, k: int)
    requires
        0 <= k <= s.len(),
        forall|j: int| k <= j < s.len() ==> s[j] == '/',
    ensures
        trim_trailing_slashes(s) == trim_trailing_slashes(s.take(k)),
    decreases s.len() - k,
{
    if k < s.len() {
        assert(s.drop_last().take(k) =~= s.take(k));
        lemma_trim_prefix(s.drop_last(), k);
    } else {
        assert(s.take(k) =~= s);
    }
}

/// The base URL of the Kafka Connect REST API: the configured URL without
/// trailing `/`.
pub fn connect_base_url(connect_url: &str) -> (res: String)
    ensures
        res@ == trim_trailing_slashes(connect_url@),
{
    let n = connect_url.unicode_len();
    let mut k = n;
    while k > 0 && connect_url.get_char(k - 1) == '/'
        invariant
            n == connect_url@.len(),
            k <= n,
            forall|j: int| k <= j < n ==> connect_url@[j] == '/',
        decreases k,
    {
        k = k - 1;
    }
    proof {
        lemma_trim_prefix(connect_url@, k as int);
        let t = connect_url@.take(k as int);
        if k > 0 {
            assert(t.last() != '/');
        }
    }
    connect_url.substring_char(0, k).to_owned()
}

/// `{base}/connectors/{name}`.
pub open spec fn connector_url_text(base_url: Seq<char>, name: Seq<char>) -> Seq<char> {
    base_url + "/connectors/"@ + name
}

/// The REST resource of the connector `name`.
pub fn connector_url(base_url: &str, name: &str) -> (res: String)
    ensures
        res@ == connector_url_text(base_url@, name@),
{
    let mut s = base_url.to_owned();
    s.append("/connectors/");
    s.append(name);
    s
}

/// The REST resource of the configuration of the connector `name`.
pub fn connector_config_url(base_url: &str, name: &str) -> (res: String)
    ensures
        res@ == connector_url_text(base_url@, name@) + "/config"@,
{
    let mut s = connector_url(base_url, name);
    s.append("/config");
    s
}

/// The REST resource of the status of the connector `name`.
pub fn connector_status_url(base_url: &str, name: &str) -> (res: String)
    ensures
        res@ == connector_url_text(base_url@, name@) + "/status"@,
{
    let mut s = connector_url(base_url, name);
    s.append("/status");
    s
}

/// Configuration entries taken by view.
pub open spec fn entries_view(entries: Seq<(String, String)>) -> Seq<(Seq<char>, Seq<char>)> {
    entries.map_values(|e: (String, String)| (e.0@, e.1@))
}

/// The configuration of the Debezium Postgres connector, entry by entry.
pub open spec fn connector_config_entries(c: DemoConfigView) -> Seq<(Seq<char>, Seq<char>)> {
    seq![
        ("connector.class"@, "io.debezium.connector.postgresql.PostgresConnector"@),
        ("tasks.max"@, "1"@),
        ("database.hostname"@, c.connect_postgres_host),
        ("database.port"@, decimal_text(c.connect_postgres_port as nat)),
        ("database.user"@, c.postgres_user),
        ("database.password"@, c.postgres_password),
        ("database.dbname"@, c.postgres_db),
        ("topic.prefix"@, c.topic_prefix),
        ("schema.include.list"@, "public"@),
        ("table.include.list"@, "public.users"@),
        ("plugin.name"@, "pgoutput"@),
        ("slot.name"@, c.connector_slot_name),
        ("slot.drop.on.stop"@, "true"@),
        ("publication.name"@, c.connector_publication_name),
        ("publication.autocreate.mode"@, "filtered"@),
        ("snapshot.mode"@, "no_data"@),
        ("skipped.operations"@, "c,d,t"@),
        ("tombstones.on.delete"@, "false"@),
        ("include.schema.changes"@, "false"@),
        ("key.converter"@, "org.apache.kafka.connect.json.JsonConverter"@),
        ("key.converter.schemas.enable"@, "false"@),
        ("value.converter"@, "org.apache.kafka.connect.json.JsonConverter"@),
        ("value.converter.schemas.enable"@, "false"@),
    ]
}

fn push_entry(entries: &mut Vec<(String, String)>, key: &str, value: &str)
    ensures
        entries_view(final(entries)@) == entries_view(old(entries)@).push((key@, value@)),
{
    let ghost prev = entries@;
    entries.push((key.to_owned(), value.to_owned()));
    assert(entries_view(entries@) =~= entries_view(prev).push((key@, value@)));
}

/// The configuration of the Debezium Postgres connector: it captures updates
/// of `public.users` through `pgoutput` and writes schemaless JSON.
pub fn postgres_connector_config(config: &DemoConfig) -> (res: Vec<(String, String)>)
    ensures
        entries_view(res@) == connector_config_entries(config@),
{
    let mut e: Vec<(String, String)> = Vec::new();
    assert(entries_view(e@) =~= Seq::<(Seq<char>, Seq<char>)>::empty());
    push_entry(&mut e, "connector.class", "io.debezium.connector.postgresql.PostgresConnector");
    push_entry(&mut e, "tasks.max", "1");
    push_entry(&mut e, "database.hostname", config.connect_postgres_host.as_str());
    let port = u64_text(config.connect_postgres_port as u64);
    push_entry(&mut e, "database.port", port.as_str());
    push_entry(&mut e, "database.user", config.postgres_user.as_str());
    push_entry(&mut e, "database.password", config.postgres_password.as_str());
    push_entry(&mut e, "database.dbname", config.postgres_db.as_str());
    push_entry(&mut e, "topic.prefix", config.topic_prefix.as_str());
    push_entry(&mut e, "schema.include.list", "public");
    push_entry(&mut e, "table.include.list", "public.users");
    push_entry(&mut e, "plugin.name", "pgoutput");
    push_entry(&mut e, "slot.name", config.connector_slot_name.as_str());
    push_entry(&mut e, "slot.drop.on.stop", "true");
    push_entry(&mut e, "publication.name", config.connector_publication_name.as_str());
    push_entry(&mut e, "publication.autocreate.mode", "filtered");
    push_entry(&mut e, "snapshot.mode", "no_data");
    push_entry(&mut e, "skipped.operations", "c,d,t");
    push_entry(&mut e, "tombstones.on.delete", "false");
    push_entry(&mut e, "include.schema.changes", "false");
    push_entry(&mut e, "key.converter", "org.apache.kafka.connect.json.JsonConverter");
    push_entry(&mut e, "key.converter.schemas.enable", "false");
    push_entry(&mut e, "value.converter", "org.apache.kafka.connect.json.JsonConverter");
    push_entry(&mut e, "value.converter.schemas.enable", "false");
    assert(entries_view(e@) =~= connector_config_entries(config@));
    e
}

/// What the wait for a running connector does after one status poll.
#[derive(Debug)]
pub enum WaitStep {
    /// The connector and all its tasks run: the wait is over.
    Ready(ConnectorStatus),
    /// The deadline has passed: give up with this message.
    GiveUp(String),
    /// Poll again after this many milliseconds.
    RetryAfterMs(u64),
}

pub enum WaitStepView {
    Ready(ConnectorStatusView),
    GiveUp(Seq<char>),
    RetryAfterMs(u64),
}

impl View for WaitStep {
    type V = WaitStepView;

    open spec fn view(&self) -> WaitStepView {
        match self {
            WaitStep::Ready(s) => WaitStepView::Ready(s@),
            WaitStep::GiveUp(m) => WaitStepView::GiveUp(m@),
            WaitStep::RetryAfterMs(ms) => WaitStepView::RetryAfterMs(*ms),
        }
    }
}

/// The pause between two status polls.
pub const POLL_INTERVAL_MS: u64 = 500;

/// The decision after polling the status of connector `name`: done when it
/// runs; otherwise give up once the deadline has passed, quoting the last
/// status or error, else poll again after the interval.
pub open spec fn wait_decision(
    name: Seq<char>,
    poll: Result<ConnectorStatusView, Seq<char>>,
    deadline_passed: bool,
) -> WaitStepView {
    match poll {
        Ok(status) if status.is_running() => WaitStepView::Ready(status),
        _ => {
            let last_error = match poll {
                Ok(status) => "connector status was `"@ + status.summary() + "`"@,
                Err(e) => e,
            };
            if deadline_passed {
                WaitStepView::GiveUp(
                    "timed out waiting for connector `"@ + name + "` to run: "@ + last_error,
                )
            } else {
                WaitStepView::RetryAfterMs(POLL_INTERVAL_MS)
            }
        },
    }
}

/// Decides the next step of waiting for connector `name` to run, from the
/// outcome of the last status poll and whether the deadline has passed.
pub fn wait_step(name: &str, poll: Result<ConnectorStatus, String>, deadline_passed: bool) -> (res:
    WaitStep)
    ensures
        res@ == wait_decision(name@, result_view(poll), deadline_passed),
{
    let last_error = match poll {
        Ok(status) => {
            if status.is_running() {
                return WaitStep::Ready(status);
            }
            let mut s = "connector status was `".to_owned();
            s.append(status.summary().as_str());
            s.append("`");
            s
        },
        Err(e) => e,
    };
    if deadline_passed {
        let mut s = "timed out waiting for connector `".to_owned();
        s.append(name);
        s.append("` to run: ");
        s.append(last_error.as_str());
        WaitStep::GiveUp(s)
    } else {
        WaitStep::RetryAfterMs(POLL_INTERVAL_MS)
    }
}

/// The error for a status request about a connector that does not exist.
pub fn missing_connector_message(name: &str) -> (res: String)
    ensures
        res@ == "Kafka Connect connector `"@ + name@ + "` does not exist"@,
{
    let mut s = "Kafka Connect connector `".to_owned();
    s.append(name);
    s.append("` does not exist");
    s
}

/// The wait ends only with a running connector: a `Ready` step carries a
/// status in which the connector and every task run.
pub proof fn lemma_wait_ready_only_when_running(
    name: Seq<char>,
    poll: Result<ConnectorStatusView, Seq<char>>,
    deadline_passed: bool,
)
    ensures
        wait_decision(name, poll, deadline_passed) matches WaitStepView::Ready(s) ==> s.is_running()
            && poll == Ok::<ConnectorStatusView, Seq<char>>(s),
        !deadline_passed && !(poll matches Ok(s) && s.is_running()) ==> wait_decision(
            name,
            poll,
            deadline_passed,
        ) == WaitStepView::RetryAfterMs(POLL_INTERVAL_MS),
{
}

/// A poll that finds the connector and at least one task, all of them in
/// state `RUNNING`, ends the wait with that status, before the deadline or
/// after it.
pub proof fn lemma_running_connector_ends_the_wait(
    name: Seq<char>,
    status: ConnectorStatusView,
    deadline_passed: bool,
)
    requires
        status.connector == "RUNNING"@,
        status.tasks.len() > 0,
        forall|i: int| 0 <= i < status.tasks.len() ==> status.tasks[i] == "RUNNING"@,
    ensures
        wait_decision(name, Ok(status), deadline_passed) == WaitStepView::Ready(status),
{
    assert(RUNNING_STATE@ == "RUNNING"@);
}

/// A poll that does not find a running connector gives up once the deadline
/// has passed, with a message that names the connector and what the poll
/// found; before the deadline it polls again after the interval.
pub proof fn lemma_not_running_gives_up_only_after_deadline(
    name: Seq<char>,
    poll: Result<ConnectorStatusView, Seq<char>>,
    deadline_passed: bool,
)
    requires
        !(poll matches Ok(s) && s.is_running()),
    ensures
        deadline_passed ==> wait_decision(name, poll, deadline_passed) == WaitStepView::GiveUp(
            "timed out waiting for connector `"@ + name + "` to run: "@ + match poll {
                Ok(s) => "connector status was `"@ + s.summary() + "`"@,
                Err(e) => e,
            },
        ),
        !deadline_passed ==> wait_decision(name, poll, deadline_passed) == WaitStepView::RetryAfterMs(
            500,
        ),
{
}

} // verus!
