//! The configuration record: what a YAML document says, with the defaults
//! for what it leaves out.

use vstd::prelude::*;
use vstd::string::StringExecFns;
use crate::kafka::config::{ConfigView, settings_in};
use crate::ratelimit::config::limits_in;
use crate::yaml::{Node, field, load_documents, parsed_yaml};

verus! {

/// Why a configuration is refused.
#[derive(Debug)]
pub enum ConfigError {
    /// The text is no YAML; this is the scanner's complaint.
    Syntax(String),
    /// The value under this key is of the wrong kind, or out of range.
    Invalid(String),
}

/// A reader's answer as plain values: what was read, or the key at fault.
pub open spec fn keyed<T>(res: Result<T, ConfigError>) -> Result<T, Seq<char>> {
    match res {
        Ok(v) => Ok(v),
        Err(ConfigError::Invalid(key)) => Err(key@),
        Err(ConfigError::Syntax(complaint)) => Err(complaint@),
    }
}

/// The whole number under `key`: `default` where the key is absent, an error
/// where the value is no integer from `lo` to `hi`.
pub open spec fn number_in(section: Node, key: Seq<char>, default: int, lo: int, hi: int) -> Result<
    int,
    Seq<char>,
> {
    match field(section, key) {
        None => Ok(default),
        Some(Node::Integer(v)) => if lo <= v <= hi {
            Ok(v as int)
        } else {
            Err(key)
        },
        Some(_) => Err(key),
    }
}

/// The text under `key`: `default` where the key is absent, an error where
/// the value is no string.
pub open spec fn text_in(section: Node, key: Seq<char>, default: Seq<char>) -> Result<
    Seq<char>,
    Seq<char>,
> {
    match field(section, key) {
        None => Ok(default),
        Some(Node::Text(v)) => Ok(v@),
        Some(_) => Err(key),
    }
}

/// The truth value under `key`: `default` where the key is absent, an error
/// where the value is no boolean.
pub open spec fn flag_in(section: Node, key: Seq<char>, default: bool) -> Result<bool, Seq<char>> {
    match field(section, key) {
        None => Ok(default),
        Some(Node::Boolean(v)) => Ok(v),
        Some(_) => Err(key),
    }
}

/// The section under `name`: none where the key is absent or empty, an error
/// where the value is no mapping.
pub open spec fn section_in(doc: Node, name: Seq<char>) -> Result<Option<Node>, Seq<char>> {
    match field(doc, name) {
        None => Ok(None),
        Some(Node::Null) => Ok(None),
        Some(Node::Hash(entries)) => Ok(Some(Node::Hash(entries))),
        Some(_) => Err(name),
    }
}

pub fn invalid<T>(key: &str) -> (res: Result<T, ConfigError>)
    ensures
        res matches Err(ConfigError::Invalid(k)) && k@ == key@,
{
    Err(ConfigError::Invalid(String::from_str(key)))
}

pub fn read_i64(section: &Node, key: &str, default: i64, lo: i64, hi: i64) -> (res: Result<
    i64,
    ConfigError,
>)
    ensures
        match number_in(*section, key@, default as int, lo as int, hi as int) {
            Ok(v) => res == Ok::<i64, ConfigError>(v as i64) && v == res->Ok_0,
            Err(k) => res matches Err(ConfigError::Invalid(e)) && e@ == k,
        },
{
    match section.get(key) {
        None => Ok(default),
        Some(node) => match node.as_i64() {
            Some(v) => if lo <= v && v <= hi {
                Ok(v)
            } else {
                invalid(key)
            },
            None => invalid(key),
        },
    }
}

pub fn read_u32(section: &Node, key: &str, default: u32) -> (res: Result<u32, ConfigError>)
    ensures
        match number_in(*section, key@, default as int, 0, u32::MAX as int) {
            Ok(v) => res == Ok::<u32, ConfigError>(v as u32) && v == res->Ok_0,
            Err(k) => res matches Err(ConfigError::Invalid(e)) && e@ == k,
        },
{
    match read_i64(section, key, default as i64, 0, u32::MAX as i64) {
        Ok(v) => Ok(v as u32),
        Err(e) => Err(e),
    }
}

pub fn read_u16(section: &Node, key: &str, default: u16) -> (res: Result<u16, ConfigError>)
    ensures
        match number_in(*section, key@, default as int, 0, u16::MAX as int) {
            Ok(v) => res == Ok::<u16, ConfigError>(v as u16) && v == res->Ok_0,
            Err(k) => res matches Err(ConfigError::Invalid(e)) && e@ == k,
        },
{
    match read_i64(section, key, default as i64, 0, u16::MAX as i64) {
        Ok(v) => Ok(v as u16),
        Err(e) => Err(e),
    }
}

pub fn read_i32(section: &Node, key: &str, default: i32) -> (res: Result<i32, ConfigError>)
    ensures
        match number_in(*section, key@, default as int, i32::MIN as int, i32::MAX as int) {
            Ok(v) => res == Ok::<i32, ConfigError>(v as i32) && v == res->Ok_0,
            Err(k) => res matches Err(ConfigError::Invalid(e)) && e@ == k,
        },
{
    match read_i64(section, key, default as i64, i32::MIN as i64, i32::MAX as i64) {
        Ok(v) => Ok(v as i32),
        Err(e) => Err(e),
    }
}

pub fn read_u64(section: &Node, key: &str, default: u64) -> (res: Result<u64, ConfigError>)
    ensures
        match number_in(*section, key@, default as int, 0, i64::MAX as int) {
            Ok(v) => res == Ok::<u64, ConfigError>(v as u64) && v == res->Ok_0,
            Err(k) => res matches Err(ConfigError::Invalid(e)) && e@ == k,
        },
{
    match section.get(key) {
        None => Ok(default),
        Some(node) => match node.as_i64() {
            Some(v) => if v >= 0 {
                Ok(v as u64)
            } else {
                invalid(key)
            },
            None => invalid(key),
        },
    }
}

pub fn read_text(section: &Node, key: &str, default: &str) -> (res: Result<String, ConfigError>)
    ensures
        match text_in(*section, key@, default@) {
            Ok(v) => res is Ok && res->Ok_0@ == v,
            Err(k) => res matches Err(ConfigError::Invalid(e)) && e@ == k,
        },
{
    match section.get(key) {
        None => Ok(String::from_str(default)),
        Some(node) => match node.as_str() {
            Some(v) => Ok(v.clone()),
            None => invalid(key),
        },
    }
}

pub fn read_flag(section: &Node, key: &str, default: bool) -> (res: Result<bool, ConfigError>)
    ensures
        match flag_in(*section, key@, default) {
            Ok(v) => res == Ok::<bool, ConfigError>(v),
            Err(k) => res matches Err(ConfigError::Invalid(e)) && e@ == k,
        },
{
    match section.get(key) {
        None => Ok(default),
        Some(node) => match node.as_bool() {
            Some(v) => Ok(v),
            None => invalid(key),
        },
    }
}

pub fn read_section<'a>(doc: &'a Node, name: &str) -> (res: Result<Option<&'a Node>, ConfigError>)
    ensures
        match section_in(*doc, name@) {
            Ok(Some(section)) => res matches Ok(Some(found)) && *found == section,
            Ok(None) => res matches Ok(None),
            Err(k) => res matches Err(ConfigError::Invalid(e)) && e@ == k,
        },
{
    match doc.get(name) {
        None => Ok(None),
        Some(node) => match node {
            Node::Null => Ok(None),
            Node::Hash(_) => Ok(Some(node)),
            _ => invalid(name),
        },
    }
}

pub const DEFAULT_HTTP_PORT: u16 = 4242;

pub const DEFAULT_METRICS_PORT: u16 = 8088;

pub const DEFAULT_SEGMENT_SIZE_BYTES: u64 = 1048576;

/// The ports of the two HTTP servers.
#[derive(Clone, Copy, Debug)]
pub struct HttpConfig {
    port: u16,
    metrics_port: u16,
}

/// Where the write-ahead log lives, and how large a segment may grow.
#[derive(Debug)]
pub struct WalConfig {
    pub dir: String,
    pub segment_size_bytes: u64,
}

/// The whole configuration.
pub struct KafkaProxyConfig {
    output_file: String,
    http: HttpConfig,
    kafka: crate::kafka::config::Config,
    ratelimit: crate::ratelimit::config::Config,
    wal: WalConfig,
}

/// The whole configuration as plain values.
pub ghost struct ProxyConfigView {
    pub output_file: Seq<char>,
    pub http: (u16, u16),
    pub kafka: ConfigView,
    pub ratelimit: (bool, Seq<(Seq<char>, u32)>),
    pub wal: (Seq<char>, u64),
}

/// Why a configuration is refused, as plain values.
pub ghost enum ConfigErrorView {
    Syntax(Seq<char>),
    Invalid(Seq<char>),
}

impl View for ConfigError {
    type V = ConfigErrorView;

    open spec fn view(&self) -> ConfigErrorView {
        match *self {
            ConfigError::Syntax(complaint) => ConfigErrorView::Syntax(complaint@),
            ConfigError::Invalid(key) => ConfigErrorView::Invalid(key@),
        }
    }
}

impl View for HttpConfig {
    type V = (u16, u16);

    closed spec fn view(&self) -> (u16, u16) {
        (self.port, self.metrics_port)
    }
}

impl View for WalConfig {
    type V = (Seq<char>, u64);

    open spec fn view(&self) -> (Seq<char>, u64) {
        (self.dir@, self.segment_size_bytes)
    }
}

impl View for KafkaProxyConfig {
    type V = ProxyConfigView;

    closed spec fn view(&self) -> ProxyConfigView {
        ProxyConfigView {
            output_file: self.output_file@,
            http: self.http@,
            kafka: self.kafka@,
            ratelimit: self.ratelimit@,
            wal: self.wal@,
        }
    }
}

/// The section to read where a document has none under a name: an empty one.
pub open spec fn section_or_empty(section: Option<Node>) -> Node {
    match section {
        Some(node) => node,
        None => Node::Null,
    }
}

/// The ports that `section` names: 4242 and 8088 where it leaves them out.
pub open spec fn ports_in(section: Node) -> Result<(u16, u16), Seq<char>> {
    match number_in(section, "port"@, DEFAULT_HTTP_PORT as int, 0, u16::MAX as int) {
        Err(key) => Err(key),
        Ok(port) => match number_in(
            section,
            "metrics_port"@,
            DEFAULT_METRICS_PORT as int,
            0,
            u16::MAX as int,
        ) {
            Err(key) => Err(key),
            Ok(metrics_port) => Ok((port as u16, metrics_port as u16)),
        },
    }
}

/// What `section` says of the write-ahead log: the directory `wal-segments`
/// and segments of one mebibyte where it leaves them out.
pub open spec fn wal_in(section: Node) -> Result<(Seq<char>, u64), Seq<char>> {
    match text_in(section, "dir"@, "wal-segments"@) {
        Err(key) => Err(key),
        Ok(dir) => match number_in(
            section,
            "segment_size_bytes"@,
            DEFAULT_SEGMENT_SIZE_BYTES as int,
            0,
            i64::MAX as int,
        ) {
            Err(key) => Err(key),
            Ok(size) => Ok((dir, size as u64)),
        },
    }
}

/// Whether a document can hold a configuration: it is a mapping, or empty.
pub open spec fn is_config_document(doc: Node) -> bool {
    doc is Hash || doc is Null || doc is BadValue
}

/// The configuration that the document `doc` states. What it leaves out
/// takes its default. The error names the first key at fault, in the order
/// `output_file`, `http`, `kafka`, `ratelimit`, `wal`, each section before
/// its own keys; a document that is neither a mapping nor empty is at fault
/// under the empty key.
pub open spec fn proxy_config_in(doc: Node) -> Result<ProxyConfigView, Seq<char>> {
    let output_file = text_in(doc, "output_file"@, ""@);
    let http_section = section_in(doc, "http"@);
    let http = ports_in(section_or_empty(http_section->Ok_0));
    let kafka_section = section_in(doc, "kafka"@);
    let kafka = settings_in(section_or_empty(kafka_section->Ok_0));
    let ratelimit_section = section_in(doc, "ratelimit"@);
    let ratelimit = limits_in(section_or_empty(ratelimit_section->Ok_0));
    let wal_section = section_in(doc, "wal"@);
    let wal = wal_in(section_or_empty(wal_section->Ok_0));
    if !is_config_document(doc) {
        Err(Seq::empty())
    } else if output_file is Err {
        Err(output_file->Err_0)
    } else if http_section is Err {
        Err(http_section->Err_0)
    } else if http is Err {
        Err(http->Err_0)
    } else if kafka_section is Err {
        Err(kafka_section->Err_0)
    } else if kafka is Err {
        Err(kafka->Err_0)
    } else if ratelimit_section is Err {
        Err(ratelimit_section->Err_0)
    } else if ratelimit is Err {
        Err(ratelimit->Err_0)
    } else if wal_section is Err {
        Err(wal_section->Err_0)
    } else if wal is Err {
        Err(wal->Err_0)
    } else {
        Ok(
            ProxyConfigView {
                output_file: output_file->Ok_0,
                http: http->Ok_0,
                kafka: kafka->Ok_0,
                ratelimit: ratelimit->Ok_0,
                wal: wal->Ok_0,
            },
        )
    }
}

/// The configuration that a parsed text states: that of its first document,
/// and of an empty one where it holds none. A text that does not parse is
/// refused with the scanner's complaint.
pub open spec fn proxy_config_of(parsed: Result<Seq<Node>, Seq<char>>) -> Result<
    ProxyConfigView,
    ConfigErrorView,
> {
    match parsed {
        Err(complaint) => Err(ConfigErrorView::Syntax(complaint)),
        Ok(docs) => match proxy_config_in(
            if docs.len() == 0 {
                Node::Null
            } else {
                docs[0]
            },
        ) {
            Ok(config) => Ok(config),
            Err(key) => Err(ConfigErrorView::Invalid(key)),
        },
    }
}

/// A configuration or its refusal as plain values.
pub open spec fn config_outcome(res: Result<KafkaProxyConfig, ConfigError>) -> Result<
    ProxyConfigView,
    ConfigErrorView,
> {
    match res {
        Ok(config) => Ok(config@),
        Err(e) => Err(e@),
    }
}

impl HttpConfig {
    /// Reads the ports from the mapping `section`.
    pub fn from_yaml(section: &Node) -> (res: Result<HttpConfig, ConfigError>)
        ensures
            match ports_in(*section) {
                Ok(ports) => res is Ok && res->Ok_0@ == ports,
                Err(k) => res matches Err(ConfigError::Invalid(e)) && e@ == k,
            },
    {
        let port = read_u16(section, "port", DEFAULT_HTTP_PORT)?;
        let metrics_port = read_u16(section, "metrics_port", DEFAULT_METRICS_PORT)?;
        Ok(HttpConfig { port, metrics_port })
    }

    /// The port of the push server.
    pub fn port(&self) -> (port: u16)
        ensures
            port == self@.0,
    {
        self.port
    }

    /// The port of the metrics server.
    pub fn metrics_port(&self) -> (port: u16)
        ensures
            port == self@.1,
    {
        self.metrics_port
    }

    pub fn default_http_port() -> (port: Option<u16>)
        ensures
            port == Some(DEFAULT_HTTP_PORT),
    {
        Some(DEFAULT_HTTP_PORT)
    }

    pub fn default_metrics_port() -> (port: Option<u16>)
        ensures
            port == Some(DEFAULT_METRICS_PORT),
    {
        Some(DEFAULT_METRICS_PORT)
    }
}

impl Default for HttpConfig {
    fn default() -> (config: HttpConfig)
        ensures
            config@ == (DEFAULT_HTTP_PORT, DEFAULT_METRICS_PORT),
    {
        HttpConfig { metrics_port: DEFAULT_METRICS_PORT, port: DEFAULT_HTTP_PORT }
    }
}

impl WalConfig {
    /// Reads the log's settings from the mapping `section`.
    pub fn from_yaml(section: &Node) -> (res: Result<WalConfig, ConfigError>)
        ensures
            match wal_in(*section) {
                Ok(wal) => res is Ok && res->Ok_0@ == wal,
                Err(k) => res matches Err(ConfigError::Invalid(e)) && e@ == k,
            },
    {
        let dir = read_text(section, "dir", "wal-segments")?;
        let segment_size_bytes = read_u64(section, "segment_size_bytes", DEFAULT_SEGMENT_SIZE_BYTES)?;
        Ok(WalConfig { dir, segment_size_bytes })
    }
}

impl Clone for WalConfig {
    fn clone(&self) -> (config: WalConfig)
        ensures
            config@ == self@,
    {
        WalConfig { dir: self.dir.clone(), segment_size_bytes: self.segment_size_bytes }
    }
}

impl KafkaProxyConfig {
    /// The configuration that the document `doc` states.
    pub fn from_document(doc: &Node) -> (res: Result<KafkaProxyConfig, ConfigError>)
        ensures
            match proxy_config_in(*doc) {
                Ok(config) => res is Ok && res->Ok_0@ == config,
                Err(k) => res matches Err(ConfigError::Invalid(e)) && e@ == k,
            },
    {
        match doc {
            Node::Hash(_) => {},
            Node::Null => {},
            Node::BadValue => {},
            _ => {
                proof {
                    reveal_strlit("");
                }
                let res = invalid("");
                assert(res->Err_0->Invalid_0@ =~= Seq::<char>::empty());
                return res;
            },
        }
        let empty = Node::Null;
        let output_file = read_text(doc, "output_file", "")?;
        let http = match read_section(doc, "http")? {
            Some(section) => HttpConfig::from_yaml(section)?,
            None => HttpConfig::from_yaml(&empty)?,
        };
        let kafka = match read_section(doc, "kafka")? {
            Some(section) => crate::kafka::config::Config::new_from_yaml(section)?,
            None => crate::kafka::config::Config::new_from_yaml(&empty)?,
        };
        let ratelimit = match read_section(doc, "ratelimit")? {
            Some(section) => crate::ratelimit::config::Config::from_yaml(section)?,
            None => crate::ratelimit::config::Config::from_yaml(&empty)?,
        };
        let wal = match read_section(doc, "wal")? {
            Some(section) => WalConfig::from_yaml(section)?,
            None => WalConfig::from_yaml(&empty)?,
        };
        Ok(KafkaProxyConfig { output_file, http, kafka, ratelimit, wal })
    }

    /// The configuration that the parsed documents state: that of the first,
    /// or of an empty one where there is none.
    pub fn from_documents(docs: Result<Vec<Node>, String>) -> (res: Result<
        KafkaProxyConfig,
        ConfigError,
    >)
        ensures
            config_outcome(res) == proxy_config_of(crate::yaml::loaded(docs)),
    {
        match docs {
            Err(complaint) => Err(ConfigError::Syntax(complaint)),
            Ok(nodes) => {
                if nodes.len() == 0 {
                    KafkaProxyConfig::from_document(&Node::Null)
                } else {
                    KafkaProxyConfig::from_document(&nodes[0])
                }
            },
        }
    }

    /// Reads the configuration from the text of a YAML file.
    pub fn initialize_config(source: &str) -> (res: Result<KafkaProxyConfig, ConfigError>)
        ensures
            config_outcome(res) == proxy_config_of(parsed_yaml(source@)),
    {
        KafkaProxyConfig::from_documents(load_documents(source))
    }

    pub fn get_http_config(&self) -> (http: HttpConfig)
        ensures
            http@ == self@.http,
    {
        self.http
    }

    pub fn get_output_file(&self) -> (output_file: String)
        ensures
            output_file@ == self@.output_file,
    {
        self.output_file.clone()
    }

    pub fn get_kafka_config(&self) -> (kafka: crate::kafka::config::Config)
        ensures
            kafka@ == self@.kafka,
    {
        self.kafka.clone()
    }

    pub fn get_ratelimit_config(&self) -> (ratelimit: crate::ratelimit::config::Config)
        ensures
            ratelimit@ == self@.ratelimit,
    {
        self.ratelimit.clone()
    }

    pub fn get_wal_config(&self) -> (wal: WalConfig)
        ensures
            wal@ == self@.wal,
    {
        self.wal.clone()
    }
}

} // verus!
