//! The demo's settings: Kafka, OpenSearch, Kafka Connect and Postgres, each
//! read from a `CDC_*` environment variable with a default.

use vstd::prelude::*;
use vstd::string::*;

use crate::text::{decimal_text, parse_u64, parse_u64_text, str_eq, u64_text};

verus! {

pub const DEFAULT_TOPIC: &'static str = "app.public.users";

pub const DEFAULT_INDEX: &'static str = "users";

pub const DEFAULT_KAFKA_BROKERS: &'static str = "localhost:19092";

pub const DEFAULT_CONSUMER_GROUP: &'static str = "cdc-demo-indexer";

pub const DEFAULT_OPENSEARCH_URL: &'static str = "http://localhost:9200";

pub const DEFAULT_CONSUME_TIMEOUT_MS: u64 = 10_000;

pub const DEFAULT_CONNECT_URL: &'static str = "http://localhost:8083";

pub const DEFAULT_CONNECTOR_NAME: &'static str = "cdc-demo-users";

pub const DEFAULT_CONNECTOR_WAIT_TIMEOUT_MS: u64 = 60_000;

pub const DEFAULT_TOPIC_PREFIX: &'static str = "app";

pub const DEFAULT_CONNECTOR_SLOT_NAME: &'static str = "cdc_demo_slot";

pub const DEFAULT_CONNECTOR_PUBLICATION_NAME: &'static str = "cdc_demo_publication";

pub const DEFAULT_POSTGRES_HOST: &'static str = "localhost";

pub const DEFAULT_POSTGRES_PORT: u16 = 5432;

pub const DEFAULT_POSTGRES_USER: &'static str = "postgres";

pub const DEFAULT_POSTGRES_PASSWORD: &'static str = "postgres";

pub const DEFAULT_POSTGRES_DB: &'static str = "app";

pub const DEFAULT_CONNECT_POSTGRES_HOST: &'static str = "postgres";

/// The settings of every part of the demo.
#[derive(Debug, Clone, PartialEq, Eq)]
pub struct DemoConfig {
    pub kafka_brokers: String,
    pub topic: String,
    pub consumer_group: String,
    pub opensearch_url: String,
    pub index: String,
    pub consume_timeout_ms: u64,
    pub connect_url: String,
    pub connector_name: String,
    pub connector_wait_timeout_ms: u64,
    pub topic_prefix: String,
    pub connector_slot_name: String,
    pub connector_publication_name: String,
    pub postgres_host: String,
    pub postgres_port: u16,
    pub postgres_user: String,
    pub postgres_password: String,
    pub postgres_db: String,
    pub connect_postgres_host: String,
    pub connect_postgres_port: u16,
}

pub struct DemoConfigView {
    pub kafka_brokers: Seq<char>,
    pub topic: Seq<char>,
    pub consumer_group: Seq<char>,
    pub opensearch_url: Seq<char>,
    pub index: Seq<char>,
    pub consume_timeout_ms: u64,
    pub connect_url: Seq<char>,
    pub connector_name: Seq<char>,
    pub connector_wait_timeout_ms: u64,
    pub topic_prefix: Seq<char>,
    pub connector_slot_name: Seq<char>,
    pub connector_publication_name: Seq<char>,
    pub postgres_host: Seq<char>,
    pub postgres_port: u16,
    pub postgres_user: Seq<char>,
    pub postgres_password: Seq<char>,
    pub postgres_db: Seq<char>,
    pub connect_postgres_host: Seq<char>,
    pub connect_postgres_port: u16,
}

impl View for DemoConfig {
    type V = DemoConfigView;

    open spec fn view(&self) -> DemoConfigView {
        DemoConfigView {
            kafka_brokers: self.kafka_brokers@,
            topic: self.topic@,
            consumer_group: self.consumer_group@,
            opensearch_url: self.opensearch_url@,
            index: self.index@,
            consume_timeout_ms: self.consume_timeout_ms,
            connect_url: self.connect_url@,
            connector_name: self.connector_name@,
            connector_wait_timeout_ms: self.connector_wait_timeout_ms,
            topic_prefix: self.topic_prefix@,
            connector_slot_name: self.connector_slot_name@,
            connector_publication_name: self.connector_publication_name@,
            postgres_host: self.postgres_host@,
            postgres_port: self.postgres_port,
            postgres_user: self.postgres_user@,
            postgres_password: self.postgres_password@,
            postgres_db: self.postgres_db@,
            connect_postgres_host: self.connect_postgres_host@,
            connect_postgres_port: self.connect_postgres_port,
        }
    }
}

/// The value of the first variable named `name`.
pub open spec fn env_lookup(vars: Seq<(String, String)>, name: Seq<char>) -> Option<Seq<char>>
    decreases vars.len(),
{
    if vars.len() == 0 {
        None
    } else if vars[0].0@ == name {
        Some(vars[0].1@)
    } else {
        env_lookup(vars.drop_first(), name)
    }
}

/// A text setting: the variable's value, else the default.
pub open spec fn env_text(vars: Seq<(String, String)>, name: Seq<char>, default: Seq<char>) -> Seq<
    char,
> {
    match env_lookup(vars, name) {
        Some(v) => v,
        None => default,
    }
}

/// A number setting: the variable's value when it parses as a `u64`, else the default.
pub open spec fn env_u64(vars: Seq<(String, String)>, name: Seq<char>, default: u64) -> u64 {
    match env_lookup(vars, name) {
        Some(v) => match parse_u64_text(v) {
            Some(n) => n,
            None => default,
        },
        None => default,
    }
}

/// A port setting: the variable's value when it parses as a `u16`, else the default.
pub open spec fn env_u16(vars: Seq<(String, String)>, name: Seq<char>, default: u16) -> u16 {
    match env_lookup(vars, name) {
        Some(v) => match parse_u64_text(v) {
            Some(n) => if n <= u16::MAX as u64 {
                n as u16
            } else {
                default
            },
            None => default,
        },
        None => default,
    }
}

/// The settings that the environment `vars` gives.
pub open spec fn config_from_vars(vars: Seq<(String, String)>) -> DemoConfigView {
    DemoConfigView {
        kafka_brokers: env_text(vars, "CDC_KAFKA_BROKERS"@, DEFAULT_KAFKA_BROKERS@),
        topic: env_text(vars, "CDC_TOPIC"@, DEFAULT_TOPIC@),
        consumer_group: env_text(vars, "CDC_CONSUMER_GROUP"@, DEFAULT_CONSUMER_GROUP@),
        opensearch_url: env_text(vars, "CDC_OPENSEARCH_URL"@, DEFAULT_OPENSEARCH_URL@),
        index: env_text(vars, "CDC_OPENSEARCH_INDEX"@, DEFAULT_INDEX@),
        consume_timeout_ms: env_u64(vars, "CDC_CONSUME_TIMEOUT_MS"@, DEFAULT_CONSUME_TIMEOUT_MS),
        connect_url: env_text(vars, "CDC_CONNECT_URL"@, DEFAULT_CONNECT_URL@),
        connector_name: env_text(vars, "CDC_CONNECTOR_NAME"@, DEFAULT_CONNECTOR_NAME@),
        connector_wait_timeout_ms: env_u64(
            vars,
            "CDC_CONNECTOR_WAIT_TIMEOUT_MS"@,
            DEFAULT_CONNECTOR_WAIT_TIMEOUT_MS,
        ),
        topic_prefix: env_text(vars, "CDC_TOPIC_PREFIX"@, DEFAULT_TOPIC_PREFIX@),
        connector_slot_name: env_text(
            vars,
            "CDC_CONNECTOR_SLOT_NAME"@,
            DEFAULT_CONNECTOR_SLOT_NAME@,
        ),
        connector_publication_name: env_text(
            vars,
            "CDC_CONNECTOR_PUBLICATION_NAME"@,
            DEFAULT_CONNECTOR_PUBLICATION_NAME@,
        ),
        postgres_host: env_text(vars, "CDC_POSTGRES_HOST"@, DEFAULT_POSTGRES_HOST@),
        postgres_port: env_u16(vars, "CDC_POSTGRES_PORT"@, DEFAULT_POSTGRES_PORT),
        postgres_user: env_text(vars, "CDC_POSTGRES_USER"@, DEFAULT_POSTGRES_USER@),
        postgres_password: env_text(vars, "CDC_POSTGRES_PASSWORD"@, DEFAULT_POSTGRES_PASSWORD@),
        postgres_db: env_text(vars, "CDC_POSTGRES_DB"@, DEFAULT_POSTGRES_DB@),
        connect_postgres_host: env_text(
            vars,
            "CDC_CONNECT_POSTGRES_HOST"@,
            DEFAULT_CONNECT_POSTGRES_HOST@,
        ),
        connect_postgres_port: env_u16(vars, "CDC_CONNECT_POSTGRES_PORT"@, DEFAULT_POSTGRES_PORT),
    }
}

proof fn lemma_env_lookup_step(vars: Seq<(String, String)>, name: Seq<char>, i: int)
    requires
        0 <= i < vars.len(),
    ensures
        env_lookup(vars.subrange(i, vars.len() as int), name) == (if vars[i].0@ == name {
            Some(vars[i].1@)
        } else {
            env_lookup(vars.subrange(i + 1, vars.len() as int), name)
        }),
{
    assert(vars.subrange(i, vars.len() as int).drop_first() =~= vars.subrange(
        i + 1,
        vars.len() as int,
    ));
}

/// The value of the first variable named `name`.
pub fn lookup_var<'a>(vars: &'a Vec<(String, String)>, name: &str) -> (res: Option<&'a String>)
    ensures
        match res {
            Some(v) => env_lookup(vars@, name@) == Some(v@),
            None => env_lookup(vars@, name@) is None,
        },
{
    let n = vars.len();
    assert(vars@.subrange(0, n as int) =~= vars@);
    for i in 0..n
        invariant
            n == vars@.len(),
            env_lookup(vars@, name@) == env_lookup(vars@.subrange(i as int, n as int), name@),
    {
        proof {
            lemma_env_lookup_step(vars@, name@, i as int);
        }
        if str_eq(vars[i].0.as_str(), name) {
            return Some(&vars[i].1);
        }
    }
    assert(vars@.subrange(n as int, n as int).len() == 0);
    None
}

/// A text setting: the variable's value, else the default.
pub fn env_or(vars: &Vec<(String, String)>, name: &str, default: &str) -> (res: String)
    ensures
        res@ == env_text(vars@, name@, default@),
{
    match lookup_var(vars, name) {
        Some(v) => v.clone(),
        None => default.to_owned(),
    }
}

fn env_number(vars: &Vec<(String, String)>, name: &str, default: u64) -> (res: u64)
    ensures
        res == env_u64(vars@, name@, default),
{
    match lookup_var(vars, name) {
        Some(v) => match parse_u64(v.as_str()) {
            Some(n) => n,
            None => default,
        },
        None => default,
    }
}

fn env_port(vars: &Vec<(String, String)>, name: &str, default: u16) -> (res: u16)
    ensures
        res == env_u16(vars@, name@, default),
{
    match lookup_var(vars, name) {
        Some(v) => match parse_u64(v.as_str()) {
            Some(n) => {
                if n <= u16::MAX as u64 {
                    n as u16
                } else {
                    default
                }
            },
            None => default,
        },
        None => default,
    }
}

/// The text of a Postgres connection string.
pub open spec fn connection_string(c: DemoConfigView) -> Seq<char> {
    "host="@ + c.postgres_host + " port="@ + decimal_text(c.postgres_port as nat) + " user="@
        + c.postgres_user + " password="@ + c.postgres_password + " dbname="@ + c.postgres_db
}

impl DemoConfig {
    /// The settings that the environment variables `vars` give (name, value;
    /// the first of several with one name counts).
    pub fn from_vars(vars: &Vec<(String, String)>) -> (res: DemoConfig)
        ensures
            res@ == config_from_vars(vars@),
    {
        DemoConfig {
            kafka_brokers: env_or(vars, "CDC_KAFKA_BROKERS", DEFAULT_KAFKA_BROKERS),
            topic: env_or(vars, "CDC_TOPIC", DEFAULT_TOPIC),
            consumer_group: env_or(vars, "CDC_CONSUMER_GROUP", DEFAULT_CONSUMER_GROUP),
            opensearch_url: env_or(vars, "CDC_OPENSEARCH_URL", DEFAULT_OPENSEARCH_URL),
            index: env_or(vars, "CDC_OPENSEARCH_INDEX", DEFAULT_INDEX),
            consume_timeout_ms: env_number(vars, "CDC_CONSUME_TIMEOUT_MS", DEFAULT_CONSUME_TIMEOUT_MS),
            connect_url: env_or(vars, "CDC_CONNECT_URL", DEFAULT_CONNECT_URL),
            connector_name: env_or(vars, "CDC_CONNECTOR_NAME", DEFAULT_CONNECTOR_NAME),
            connector_wait_timeout_ms: env_number(
                vars,
                "CDC_CONNECTOR_WAIT_TIMEOUT_MS",
                DEFAULT_CONNECTOR_WAIT_TIMEOUT_MS,
            ),
            topic_prefix: env_or(vars, "CDC_TOPIC_PREFIX", DEFAULT_TOPIC_PREFIX),
            connector_slot_name: env_or(vars, "CDC_CONNECTOR_SLOT_NAME", DEFAULT_CONNECTOR_SLOT_NAME),
            connector_publication_name: env_or(
                vars,
                "CDC_CONNECTOR_PUBLICATION_NAME",
                DEFAULT_CONNECTOR_PUBLICATION_NAME,
            ),
            postgres_host: env_or(vars, "CDC_POSTGRES_HOST", DEFAULT_POSTGRES_HOST),
            postgres_port: env_port(vars, "CDC_POSTGRES_PORT", DEFAULT_POSTGRES_PORT),
            postgres_user: env_or(vars, "CDC_POSTGRES_USER", DEFAULT_POSTGRES_USER),
            postgres_password: env_or(vars, "CDC_POSTGRES_PASSWORD", DEFAULT_POSTGRES_PASSWORD),
            postgres_db: env_or(vars, "CDC_POSTGRES_DB", DEFAULT_POSTGRES_DB),
            connect_postgres_host: env_or(
                vars,
                "CDC_CONNECT_POSTGRES_HOST",
                DEFAULT_CONNECT_POSTGRES_HOST,
            ),
            connect_postgres_port: env_port(vars, "CDC_CONNECT_POSTGRES_PORT", DEFAULT_POSTGRES_PORT),
        }
    }

    /// The connection string for the source database.
    pub fn postgres_connection_string(&self) -> (res: String)
        ensures
            res@ == connection_string(self@),
    {
        let mut s = "host=".to_owned();
        s.append(self.postgres_host.as_str());
        s.append(" port=");
        s.append(u64_text(self.postgres_port as u64).as_str());
        s.append(" user=");
        s.append(self.postgres_user.as_str());
        s.append(" password=");
        s.append(self.postgres_password.as_str());
        s.append(" dbname=");
        s.append(self.postgres_db.as_str());
        s
    }
}

/// With no variable set, every setting is its default.
pub proof fn lemma_defaults_without_vars()
    ensures
        config_from_vars(Seq::empty()).topic == DEFAULT_TOPIC@,
        config_from_vars(Seq::empty()).index == DEFAULT_INDEX@,
        config_from_vars(Seq::empty()).kafka_brokers == DEFAULT_KAFKA_BROKERS@,
        config_from_vars(Seq::empty()).consumer_group == DEFAULT_CONSUMER_GROUP@,
        config_from_vars(Seq::empty()).opensearch_url == DEFAULT_OPENSEARCH_URL@,
        config_from_vars(Seq::empty()).consume_timeout_ms == DEFAULT_CONSUME_TIMEOUT_MS,
{
}

proof fn lemma_first_var_found(vars: Seq<(String, String)>, i: int)
    requires
        0 <= i < vars.len(),
        forall|j: int| 0 <= j < i ==> vars[j].0@ != vars[i].0@,
    ensures
        env_lookup(vars, vars[i].0@) == Some(vars[i].1@),
    decreases i,
{
    if i > 0 {
        assert(vars[0].0@ != vars[i].0@);
        assert forall|j: int| 0 <= j < i - 1 implies #[trigger] vars.drop_first()[j].0@
            != vars.drop_first()[i - 1].0@ by {
            assert(vars.drop_first()[j] == vars[j + 1]);
        }
        lemma_first_var_found(vars.drop_first(), i - 1);
    }
}

/// The first variable of each documented `CDC_*` name sets that setting: a
/// text setting takes its value as it is, a number or port setting takes it
/// when it reads as one.
pub proof fn lemma_first_variable_sets_the_setting(vars: Seq<(String, String)>, i: int)
    requires
        0 <= i < vars.len(),
        forall|j: int| 0 <= j < i ==> vars[j].0@ != vars[i].0@,
    ensures
        ({
            let name = vars[i].0@;
            let value = vars[i].1@;
            let c = config_from_vars(vars);
            &&& name == "CDC_KAFKA_BROKERS"@ ==> c.kafka_brokers == value
            &&& name == "CDC_TOPIC"@ ==> c.topic == value
            &&& name == "CDC_CONSUMER_GROUP"@ ==> c.consumer_group == value
            &&& name == "CDC_OPENSEARCH_URL"@ ==> c.opensearch_url == value
            &&& name == "CDC_OPENSEARCH_INDEX"@ ==> c.index == value
            &&& name == "CDC_CONNECT_URL"@ ==> c.connect_url == value
            &&& name == "CDC_CONNECTOR_NAME"@ ==> c.connector_name == value
            &&& name == "CDC_TOPIC_PREFIX"@ ==> c.topic_prefix == value
            &&& name == "CDC_CONNECTOR_SLOT_NAME"@ ==> c.connector_slot_name == value
            &&& name == "CDC_CONNECTOR_PUBLICATION_NAME"@ ==> c.connector_publication_name == value
            &&& name == "CDC_POSTGRES_HOST"@ ==> c.postgres_host == value
            &&& name == "CDC_POSTGRES_USER"@ ==> c.postgres_user == value
            &&& name == "CDC_POSTGRES_PASSWORD"@ ==> c.postgres_password == value
            &&& name == "CDC_POSTGRES_DB"@ ==> c.postgres_db == value
            &&& name == "CDC_CONNECT_POSTGRES_HOST"@ ==> c.connect_postgres_host == value
            &&& name == "CDC_CONSUME_TIMEOUT_MS"@ && parse_u64_text(value) is Some
                ==> c.consume_timeout_ms == parse_u64_text(value).unwrap()
            &&& name == "CDC_CONNECTOR_WAIT_TIMEOUT_MS"@ && parse_u64_text(value) is Some
                ==> c.connector_wait_timeout_ms == parse_u64_text(value).unwrap()
            &&& name == "CDC_POSTGRES_PORT"@ && parse_u64_text(value) is Some && parse_u64_text(
                value,
            ).unwrap() <= u16::MAX ==> c.postgres_port == parse_u64_text(value).unwrap()
            &&& name == "CDC_CONNECT_POSTGRES_PORT"@ && parse_u64_text(value) is Some
                && parse_u64_text(value).unwrap() <= u16::MAX ==> c.connect_postgres_port
                == parse_u64_text(value).unwrap()
        }),
{
    lemma_first_var_found(vars, i);
}

proof fn lemma_absent_var(vars: Seq<(String, String)>, name: Seq<char>)
    requires
        forall|j: int| 0 <= j < vars.len() ==> vars[j].0@ != name,
    ensures
        env_lookup(vars, name) is None,
    decreases vars.len(),
{
    if vars.len() > 0 {
        assert forall|j: int| 0 <= j < vars.drop_first().len() implies #[trigger] vars.drop_first()[j].0@
            != name by {
            assert(vars.drop_first()[j] == vars[j + 1]);
        }
        lemma_absent_var(vars.drop_first(), name);
        assert(vars[0].0@ != name);
    }
}

/// A setting whose variable is not set at all keeps its default.
pub proof fn lemma_unset_variable_keeps_default(vars: Seq<(String, String)>, name: Seq<char>)
    requires
        forall|j: int| 0 <= j < vars.len() ==> vars[j].0@ != name,
    ensures
        ({
            let c = config_from_vars(vars);
            &&& name == "CDC_KAFKA_BROKERS"@ ==> c.kafka_brokers == DEFAULT_KAFKA_BROKERS@
            &&& name == "CDC_TOPIC"@ ==> c.topic == DEFAULT_TOPIC@
            &&& name == "CDC_CONSUMER_GROUP"@ ==> c.consumer_group == DEFAULT_CONSUMER_GROUP@
            &&& name == "CDC_OPENSEARCH_URL"@ ==> c.opensearch_url == DEFAULT_OPENSEARCH_URL@
            &&& name == "CDC_OPENSEARCH_INDEX"@ ==> c.index == DEFAULT_INDEX@
            &&& name == "CDC_CONSUME_TIMEOUT_MS"@ ==> c.consume_timeout_ms == DEFAULT_CONSUME_TIMEOUT_MS
            &&& name == "CDC_CONNECT_URL"@ ==> c.connect_url == DEFAULT_CONNECT_URL@
            &&& name == "CDC_CONNECTOR_NAME"@ ==> c.connector_name == DEFAULT_CONNECTOR_NAME@
        }),
{
    lemma_absent_var(vars, name);
}

} // verus!
