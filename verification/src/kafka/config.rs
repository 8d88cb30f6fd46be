//! The producer's settings.

use vstd::prelude::*;
use vstd::string::StringExecFns;
use crate::config::{ConfigError, number_in, text_in, read_i32, read_text, read_u32, invalid};
use crate::text::{decimal, join, joined, signed_decimal, texts, to_decimal, to_signed_decimal};
use crate::yaml::{Node, field};

verus! {

pub const DEFAULT_MESSAGE_MAX_BYTES: u32 = 1048576;

pub const DEFAULT_QUEUE_BUFFERING_MAX_MESSAGES: u32 = 100000;

pub const DEFAULT_QUEUE_BUFFERING_MAX_MS: u32 = 10;

pub const DEFAULT_RETRIES: u32 = 3;

pub const DEFAULT_MESSAGE_TIMEOUT_MS: u32 = 2000;

pub const DEFAULT_REQUEST_REQUIRED_ACKS: i32 = 1;

pub const DEFAULT_REQUEST_TIMEOUT_MS: u32 = 30000;

pub const DEFAULT_QUEUE_BUFFERING_MAX_KBYTES: u32 = 1048576;

pub const DEFAULT_STATISTICS_INTERVAL_MS: u32 = 0;

/// The producer's settings. An empty `user` or `password` means none.
#[derive(Debug)]
pub struct Config {
    pub brokers: Vec<String>,
    pub user: String,
    pub password: String,
    pub message_max_bytes: u32,
    pub queue_buffering_max_messages: u32,
    pub queue_buffering_max_ms: u32,
    pub queue_buffering_max_kbytes: u32,
    pub retries: u32,
    pub message_timeout_ms: u32,
    pub request_required_acks: i32,
    pub request_timeout_ms: u32,
    pub statistics_interval_ms: u32,
}

/// The settings as plain values.
pub ghost struct ConfigView {
    pub brokers: Seq<Seq<char>>,
    pub user: Seq<char>,
    pub password: Seq<char>,
    pub message_max_bytes: u32,
    pub queue_buffering_max_messages: u32,
    pub queue_buffering_max_ms: u32,
    pub queue_buffering_max_kbytes: u32,
    pub retries: u32,
    pub message_timeout_ms: u32,
    pub request_required_acks: i32,
    pub request_timeout_ms: u32,
    pub statistics_interval_ms: u32,
}

impl View for Config {
    type V = ConfigView;

    open spec fn view(&self) -> ConfigView {
        ConfigView {
            brokers: texts(self.brokers@),
            user: self.user@,
            password: self.password@,
            message_max_bytes: self.message_max_bytes,
            queue_buffering_max_messages: self.queue_buffering_max_messages,
            queue_buffering_max_ms: self.queue_buffering_max_ms,
            queue_buffering_max_kbytes: self.queue_buffering_max_kbytes,
            retries: self.retries,
            message_timeout_ms: self.message_timeout_ms,
            request_required_acks: self.request_required_acks,
            request_timeout_ms: self.request_timeout_ms,
            statistics_interval_ms: self.statistics_interval_ms,
        }
    }
}

/// A list of setting pairs as plain values.
pub open spec fn pairs_view(pairs: Seq<(String, String)>) -> Seq<(Seq<char>, Seq<char>)> {
    pairs.map_values(|p: (String, String)| (p.0@, p.1@))
}

/// The settings without a producer behind them: no brokers, and zero
/// everywhere.
pub open spec fn empty_settings() -> ConfigView {
    ConfigView {
        brokers: Seq::empty(),
        user: Seq::empty(),
        password: Seq::empty(),
        message_max_bytes: 0,
        queue_buffering_max_messages: 0,
        queue_buffering_max_ms: 0,
        queue_buffering_max_kbytes: 0,
        retries: 0,
        message_timeout_ms: 0,
        request_required_acks: 0,
        request_timeout_ms: 0,
        statistics_interval_ms: 0,
    }
}

/// The settings that stand where the configuration names none.
pub open spec fn default_settings() -> ConfigView {
    ConfigView {
        brokers: Seq::empty(),
        user: Seq::empty(),
        password: Seq::empty(),
        message_max_bytes: DEFAULT_MESSAGE_MAX_BYTES,
        queue_buffering_max_messages: DEFAULT_QUEUE_BUFFERING_MAX_MESSAGES,
        queue_buffering_max_ms: DEFAULT_QUEUE_BUFFERING_MAX_MS,
        queue_buffering_max_kbytes: DEFAULT_QUEUE_BUFFERING_MAX_KBYTES,
        retries: DEFAULT_RETRIES,
        message_timeout_ms: DEFAULT_MESSAGE_TIMEOUT_MS,
        request_required_acks: DEFAULT_REQUEST_REQUIRED_ACKS,
        request_timeout_ms: DEFAULT_REQUEST_TIMEOUT_MS,
        statistics_interval_ms: DEFAULT_STATISTICS_INTERVAL_MS,
    }
}

/// The client's properties for these settings, in the order they are handed
/// over: the brokers joined by commas, the credentials where they are not
/// empty, then each number in decimal.
pub open spec fn client_properties(c: ConfigView) -> Seq<(Seq<char>, Seq<char>)> {
    seq![("bootstrap.servers"@, joined(c.brokers, ","@))] + (if c.user.len() > 0 {
        seq![("sasl.username"@, c.user)]
    } else {
        Seq::empty()
    }) + (if c.password.len() > 0 {
        seq![("sasl.password"@, c.password)]
    } else {
        Seq::empty()
    }) + seq![
        ("message.max.bytes"@, decimal(c.message_max_bytes as nat)),
        ("queue.buffering.max.messages"@, decimal(c.queue_buffering_max_messages as nat)),
        ("queue.buffering.max.ms"@, decimal(c.queue_buffering_max_ms as nat)),
        ("retries"@, decimal(c.retries as nat)),
        ("message.timeout.ms"@, decimal(c.message_timeout_ms as nat)),
        ("request.timeout.ms"@, decimal(c.request_timeout_ms as nat)),
        ("request.required.acks"@, signed_decimal(c.request_required_acks as int)),
        ("queue.buffering.max.kbytes"@, decimal(c.queue_buffering_max_kbytes as nat)),
        ("statistics.interval.ms"@, decimal(c.statistics_interval_ms as nat)),
    ]
}

/// Every item is a string.
pub open spec fn all_text(items: Seq<Node>) -> bool {
    forall|i: int| 0 <= i < items.len() ==> #[trigger] items[i] is Text
}

/// The texts of a list of string items.
pub open spec fn item_texts(items: Seq<Node>) -> Seq<Seq<char>> {
    Seq::new(items.len(), |i: int| items[i]->Text_0@)
}

/// The brokers that `section` names: none where the key is absent, an error
/// where the value is no list of strings.
pub open spec fn brokers_in(section: Node) -> Result<Seq<Seq<char>>, Seq<char>> {
    match field(section, "brokers"@) {
        None => Ok(Seq::empty()),
        Some(Node::Array(items)) => if all_text(items@) {
            Ok(item_texts(items@))
        } else {
            Err("brokers"@)
        },
        Some(_) => Err("brokers"@),
    }
}

/// The settings that `section` names, each key that it leaves out at its
/// default; or the first key, in the order of the fields below, whose value is
/// of the wrong kind or out of range.
pub open spec fn settings_in(section: Node) -> Result<ConfigView, Seq<char>> {
    let brokers = brokers_in(section);
    let user = text_in(section, "user"@, ""@);
    let password = text_in(section, "password"@, ""@);
    let message_max_bytes = number_in(
        section,
        "message_max_bytes"@,
        DEFAULT_MESSAGE_MAX_BYTES as int,
        0,
        u32::MAX as int,
    );
    let queue_buffering_max_messages = number_in(
        section,
        "queue_buffering_max_messages"@,
        DEFAULT_QUEUE_BUFFERING_MAX_MESSAGES as int,
        0,
        u32::MAX as int,
    );
    let queue_buffering_max_ms = number_in(
        section,
        "queue_buffering_max_ms"@,
        DEFAULT_QUEUE_BUFFERING_MAX_MS as int,
        0,
        u32::MAX as int,
    );
    let retries = number_in(section, "retries"@, DEFAULT_RETRIES as int, 0, u32::MAX as int);
    let message_timeout_ms = number_in(
        section,
        "message_timeout_ms"@,
        DEFAULT_MESSAGE_TIMEOUT_MS as int,
        0,
        u32::MAX as int,
    );
    let queue_buffering_max_kbytes = number_in(
        section,
        "queue_buffering_max_kbytes"@,
        DEFAULT_QUEUE_BUFFERING_MAX_KBYTES as int,
        0,
        u32::MAX as int,
    );
    let request_required_acks = number_in(
        section,
        "request_required_acks"@,
        DEFAULT_REQUEST_REQUIRED_ACKS as int,
        i32::MIN as int,
        i32::MAX as int,
    );
    let request_timeout_ms = number_in(
        section,
        "request_timeout_ms"@,
        DEFAULT_REQUEST_TIMEOUT_MS as int,
        0,
        u32::MAX as int,
    );
    let statistics_interval_ms = number_in(
        section,
        "statistics_interval_ms"@,
        DEFAULT_STATISTICS_INTERVAL_MS as int,
        0,
        u32::MAX as int,
    );
    if brokers is Err {
        Err(brokers->Err_0)
    } else if user is Err {
        Err(user->Err_0)
    } else if password is Err {
        Err(password->Err_0)
    } else if message_max_bytes is Err {
        Err(message_max_bytes->Err_0)
    } else if queue_buffering_max_messages is Err {
        Err(queue_buffering_max_messages->Err_0)
    } else if queue_buffering_max_ms is Err {
        Err(queue_buffering_max_ms->Err_0)
    } else if retries is Err {
        Err(retries->Err_0)
    } else if message_timeout_ms is Err {
        Err(message_timeout_ms->Err_0)
    } else if queue_buffering_max_kbytes is Err {
        Err(queue_buffering_max_kbytes->Err_0)
    } else if request_required_acks is Err {
        Err(request_required_acks->Err_0)
    } else if request_timeout_ms is Err {
        Err(request_timeout_ms->Err_0)
    } else if statistics_interval_ms is Err {
        Err(statistics_interval_ms->Err_0)
    } else {
        Ok(
            ConfigView {
                brokers: brokers->Ok_0,
                user: user->Ok_0,
                password: password->Ok_0,
                message_max_bytes: message_max_bytes->Ok_0 as u32,
                queue_buffering_max_messages: queue_buffering_max_messages->Ok_0 as u32,
                queue_buffering_max_ms: queue_buffering_max_ms->Ok_0 as u32,
                queue_buffering_max_kbytes: queue_buffering_max_kbytes->Ok_0 as u32,
                retries: retries->Ok_0 as u32,
                message_timeout_ms: message_timeout_ms->Ok_0 as u32,
                request_required_acks: request_required_acks->Ok_0 as i32,
                request_timeout_ms: request_timeout_ms->Ok_0 as u32,
                statistics_interval_ms: statistics_interval_ms->Ok_0 as u32,
            },
        )
    }
}

/// The answer of `new_from_yaml` as plain values.
pub open spec fn settings_of(res: Result<Config, ConfigError>) -> Result<ConfigView, Seq<char>> {
    match res {
        Ok(config) => Ok(config@),
        Err(ConfigError::Invalid(key)) => Err(key@),
        Err(ConfigError::Syntax(complaint)) => Err(complaint@),
    }
}

fn read_brokers(section: &Node) -> (res: Result<Vec<String>, ConfigError>)
    ensures
        match brokers_in(*section) {
            Ok(v) => res is Ok && texts(res->Ok_0@) == v,
            Err(k) => res matches Err(ConfigError::Invalid(e)) && e@ == k,
        },
{
    let mut brokers: Vec<String> = Vec::new();
    let items = match section.get("brokers") {
        None => {
            assert(texts(brokers@) =~= Seq::empty());
            return Ok(brokers);
        },
        Some(node) => match node.as_vec() {
            Some(items) => items,
            None => {
                return invalid("brokers");
            },
        },
    };
    let mut i: usize = 0;
    while i < items.len()
        invariant
            i <= items@.len(),
            brokers@.len() == i,
            field(*section, "brokers"@) == Some(Node::Array(*items)),
            forall|k: int| 0 <= k < i ==> #[trigger] items@[k] is Text,
            forall|k: int| 0 <= k < i ==> (#[trigger] brokers@[k])@ == items@[k]->Text_0@,
        decreases items@.len() - i,
    {
        match items[i].as_str() {
            Some(v) => {
                brokers.push(v.clone());
            },
            None => {
                assert(!(items@[i as int] is Text));
                return invalid("brokers");
            },
        }
        i = i + 1;
    }
    assert(texts(brokers@) =~= item_texts(items@));
    Ok(brokers)
}

fn put(pairs: &mut Vec<(String, String)>, key: &str, value: String)
    ensures
        pairs_view(final(pairs)@) == pairs_view(old(pairs)@).push((key@, value@)),
{
    pairs.push((String::from_str(key), value));
    assert(pairs_view(pairs@) =~= pairs_view(old(pairs)@).push((key@, value@)));
}

impl Clone for Config {
    fn clone(&self) -> (config: Config)
        ensures
            config@ == self@,
    {
        let mut brokers: Vec<String> = Vec::new();
        let mut i: usize = 0;
        while i < self.brokers.len()
            invariant
                i <= self.brokers@.len(),
                brokers@ == self.brokers@.take(i as int),
            decreases self.brokers@.len() - i,
        {
            brokers.push(self.brokers[i].clone());
            assert(brokers@ =~= self.brokers@.take(i + 1));
            i = i + 1;
        }
        assert(self.brokers@.take(i as int) =~= self.brokers@);
        Config {
            brokers,
            user: self.user.clone(),
            password: self.password.clone(),
            message_max_bytes: self.message_max_bytes,
            queue_buffering_max_messages: self.queue_buffering_max_messages,
            queue_buffering_max_ms: self.queue_buffering_max_ms,
            queue_buffering_max_kbytes: self.queue_buffering_max_kbytes,
            retries: self.retries,
            message_timeout_ms: self.message_timeout_ms,
            request_required_acks: self.request_required_acks,
            request_timeout_ms: self.request_timeout_ms,
            statistics_interval_ms: self.statistics_interval_ms,
        }
    }
}

impl Config {
    /// The client's properties for these settings.
    pub fn to_hash(&self) -> (pairs: Vec<(String, String)>)
        ensures
            pairs_view(pairs@) == client_properties(self@),
    {
        let mut mp: Vec<(String, String)> = Vec::new();
        assert(pairs_view(mp@) =~= Seq::empty());
        put(&mut mp, "bootstrap.servers", join(&self.brokers, ","));
        if !self.user.as_str().is_empty() {
            put(&mut mp, "sasl.username", self.user.clone());
        }
        if !self.password.as_str().is_empty() {
            put(&mut mp, "sasl.password", self.password.clone());
        }
        put(&mut mp, "message.max.bytes", to_decimal(self.message_max_bytes as u64));
        put(
            &mut mp,
            "queue.buffering.max.messages",
            to_decimal(self.queue_buffering_max_messages as u64),
        );
        put(&mut mp, "queue.buffering.max.ms", to_decimal(self.queue_buffering_max_ms as u64));
        put(&mut mp, "retries", to_decimal(self.retries as u64));
        put(&mut mp, "message.timeout.ms", to_decimal(self.message_timeout_ms as u64));
        put(&mut mp, "request.timeout.ms", to_decimal(self.request_timeout_ms as u64));
        put(
            &mut mp,
            "request.required.acks",
            to_signed_decimal(self.request_required_acks as i64),
        );
        put(
            &mut mp,
            "queue.buffering.max.kbytes",
            to_decimal(self.queue_buffering_max_kbytes as u64),
        );
        put(&mut mp, "statistics.interval.ms", to_decimal(self.statistics_interval_ms as u64));
        assert(pairs_view(mp@) =~= client_properties(self@));
        mp
    }

    /// Settings with no brokers and zero everywhere.
    pub fn new_empty() -> (config: Config)
        ensures
            config@ == empty_settings(),
    {
        let config = Config {
            brokers: Vec::new(),
            user: String::new(),
            password: String::new(),
            message_max_bytes: 0,
            queue_buffering_max_messages: 0,
            queue_buffering_max_ms: 0,
            queue_buffering_max_kbytes: 0,
            retries: 0,
            message_timeout_ms: 0,
            request_required_acks: 0,
            request_timeout_ms: 0,
            statistics_interval_ms: 0,
        };
        assert(texts(config.brokers@) =~= Seq::empty());
        config
    }

    /// Reads the settings from the mapping `yml`. A key that is left out
    /// takes its default; a key whose value is of the wrong kind, or does not
    /// fit its field, is an error that names the key.
    pub fn new_from_yaml(yml: &Node) -> (res: Result<Config, ConfigError>)
        ensures
            settings_of(res) == settings_in(*yml),
            res is Err ==> res->Err_0 is Invalid,
    {
        let brokers = read_brokers(yml)?;
        let user = read_text(yml, "user", "")?;
        let password = read_text(yml, "password", "")?;
        let message_max_bytes = read_u32(yml, "message_max_bytes", DEFAULT_MESSAGE_MAX_BYTES)?;
        let queue_buffering_max_messages = read_u32(
            yml,
            "queue_buffering_max_messages",
            DEFAULT_QUEUE_BUFFERING_MAX_MESSAGES,
        )?;
        let queue_buffering_max_ms = read_u32(
            yml,
            "queue_buffering_max_ms",
            DEFAULT_QUEUE_BUFFERING_MAX_MS,
        )?;
        let retries = read_u32(yml, "retries", DEFAULT_RETRIES)?;
        let message_timeout_ms = read_u32(yml, "message_timeout_ms", DEFAULT_MESSAGE_TIMEOUT_MS)?;
        let queue_buffering_max_kbytes = read_u32(
            yml,
            "queue_buffering_max_kbytes",
            DEFAULT_QUEUE_BUFFERING_MAX_KBYTES,
        )?;
        let request_required_acks = read_i32(
            yml,
            "request_required_acks",
            DEFAULT_REQUEST_REQUIRED_ACKS,
        )?;
        let request_timeout_ms = read_u32(yml, "request_timeout_ms", DEFAULT_REQUEST_TIMEOUT_MS)?;
        let statistics_interval_ms = read_u32(
            yml,
            "statistics_interval_ms",
            DEFAULT_STATISTICS_INTERVAL_MS,
        )?;
        Ok(
            Config {
                brokers,
                user,
                password,
                message_max_bytes,
                queue_buffering_max_messages,
                queue_buffering_max_ms,
                queue_buffering_max_kbytes,
                retries,
                message_timeout_ms,
                request_required_acks,
                request_timeout_ms,
                statistics_interval_ms,
            },
        )
    }
}

} // verus!
