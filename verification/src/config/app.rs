//! Application configuration: server, database, collectors and their
//! validation.
use vstd::prelude::*;
use crate::config::collector::{CollectorsConfig, collectors_error};
use crate::config::validation::{ConfigError, duration_outcome, parse_duration, significant_digits, MAX_DURATION_DIGITS};
use crate::text::trim;
use crate::ipaddr::{is_ip_address, is_ip_text};
use crate::storage::collector_store::{CollectorRecord, CollectorSource, CollectorType};
use crate::storage::error::join_text;
use crate::time::Duration;

verus! {

broadcast use vstd::string::group_string_axioms;

/// Default connection pool size.
pub const DEFAULT_POOL_SIZE: u32 = 4;

/// Default channel capacity.
pub const DEFAULT_CHANNEL_CAPACITY: usize = 10_000;

/// Default collection interval: 30 seconds.
pub fn default_interval() -> (d: Duration)
    ensures
        d@ == 30_000_000_000,
{
    Duration::from_secs(30)
}

/// Default checkpoint interval: 5 seconds.
pub fn default_checkpoint() -> (d: Duration)
    ensures
        d@ == 5_000_000_000,
{
    Duration::from_secs(5)
}

/// Default collector sync interval: 10 seconds.
pub fn default_sync_interval() -> (d: Duration)
    ensures
        d@ == 10_000_000_000,
{
    Duration::from_secs(10)
}

/// Minimum collector sync interval: 1 second.
pub fn min_sync_interval() -> (d: Duration)
    ensures
        d@ == 1_000_000_000,
{
    Duration::from_secs(1)
}

/// The pool size used when none is configured.
pub fn default_pool_size() -> (n: u32)
    ensures
        n == DEFAULT_POOL_SIZE,
{
    DEFAULT_POOL_SIZE
}

/// The channel capacity used when none is configured.
pub fn default_channel_capacity() -> (n: usize)
    ensures
        n == DEFAULT_CHANNEL_CAPACITY,
{
    DEFAULT_CHANNEL_CAPACITY
}

/// The checkpoint interval used when none is configured: `5s`.
pub fn default_checkpoint_interval() -> (s: String)
    ensures
        s@ == "5s"@,
{
    String::from_str("5s")
}

/// Web server configuration.
#[derive(Debug)]
pub struct ServerConfig {
    /// Server bind address.
    pub bind: String,
    /// Server port.
    pub port: u16,
}

impl Default for ServerConfig {
    /// Bind to `0.0.0.0` on port 8080.
    fn default() -> (c: ServerConfig)
        ensures
            c.bind@ == "0.0.0.0"@,
            c.port == 8080,
    {
        ServerConfig { bind: String::from_str("0.0.0.0"), port: 8080 }
    }
}

/// Database configuration.
#[derive(Debug)]
pub struct DatabaseConfig {
    /// Database file path.
    pub path: String,
    /// Connection pool size for read operations.
    pub pool_size: u32,
    /// Channel capacity for write operations.
    pub channel_capacity: usize,
    /// WAL checkpoint interval, as text such as `5s`.
    pub checkpoint_interval: String,
}

impl Default for DatabaseConfig {
    /// `oculus.db`, the default pool size and channel capacity, and a
    /// checkpoint every `5s`.
    fn default() -> (c: DatabaseConfig)
        ensures
            c.path@ == "oculus.db"@,
            c.pool_size == DEFAULT_POOL_SIZE,
            c.channel_capacity == DEFAULT_CHANNEL_CAPACITY,
            c.checkpoint_interval@ == "5s"@,
    {
        DatabaseConfig {
            path: String::from_str("oculus.db"),
            pool_size: DEFAULT_POOL_SIZE,
            channel_capacity: DEFAULT_CHANNEL_CAPACITY,
            checkpoint_interval: String::from_str("5s"),
        }
    }
}

/// Top-level application configuration.
#[derive(Debug)]
pub struct AppConfig {
    /// Web server configuration.
    pub server: ServerConfig,
    /// Database configuration.
    pub database: DatabaseConfig,
    /// Collector configurations grouped by type.
    pub collectors: CollectorsConfig,
    /// Directory with additional collector configuration files.
    pub collector_path: Option<String>,
    /// How often collectors are synchronised.
    pub collector_sync_interval: Duration,
}

/// The first problem of a configuration, given what reading its
/// checkpoint interval gave (nanoseconds, or the reason it failed).
pub open spec fn app_config_error_given(c: AppConfig, checkpoint: Result<nat, Seq<char>>) -> Option<Seq<char>> {
    if !is_ip_text(c.server.bind@) {
        Some("invalid server bind address: '"@ + c.server.bind@ + "'"@)
    } else if c.server.port == 0 {
        Some("server port must be non-zero"@)
    } else if c.database.pool_size == 0 {
        Some("database pool_size must be positive"@)
    } else if c.database.channel_capacity == 0 {
        Some("database channel_capacity must be positive"@)
    } else {
        match checkpoint {
            Err(m) => Some("database checkpoint_interval: "@ + m),
            Ok(_) => collectors_error(c.collectors),
        }
    }
}

/// The first problem of a configuration, as `AppConfig::validate`
/// reports it, if any.
pub open spec fn app_config_error(c: AppConfig) -> Option<Seq<char>> {
    app_config_error_given(c, duration_outcome(c.database.checkpoint_interval@))
}

/// The view of what reading a duration gave.
pub open spec fn span_outcome(r: Result<Duration, String>) -> Result<nat, Seq<char>> {
    match r {
        Ok(d) => Ok(d@),
        Err(m) => Err(m@),
    }
}

impl AppConfig {
    /// Validate the configuration: an IP bind address, a non-zero port,
    /// pool size and channel capacity, a valid checkpoint interval, and
    /// valid collectors.
    ///
    /// # Errors
    /// `ConfigError::ValidationError` with the first problem found.
    pub fn validate(&self) -> (r: Result<(), ConfigError>)
        requires
            significant_digits(trim(self.database.checkpoint_interval@)) <= MAX_DURATION_DIGITS,
        ensures
            match app_config_error(*self) {
                Some(m) => r matches Err(ConfigError::ValidationError(m2)) && m2@ == m,
                None => r is Ok,
            },
    {
        let checkpoint = parse_duration(self.database.checkpoint_interval.as_str());
        self.validate_with_checkpoint(&checkpoint)
    }

    /// Validate the configuration as `validate` does, given what reading
    /// the checkpoint interval gave.
    ///
    /// # Errors
    /// `ConfigError::ValidationError` with the first problem found.
    pub fn validate_with_checkpoint(&self, checkpoint: &Result<Duration, String>) -> (r: Result<(), ConfigError>)
        ensures
            match app_config_error_given(*self, span_outcome(*checkpoint)) {
                Some(m) => r matches Err(ConfigError::ValidationError(m2)) && m2@ == m,
                None => r is Ok,
            },
    {
        if !is_ip_address(self.server.bind.as_str()) {
            let mut m = String::from_str("invalid server bind address: '");
            m.append(self.server.bind.as_str());
            m.append("'");
            return Err(ConfigError::ValidationError(m));
        }
        if self.server.port == 0 {
            return Err(ConfigError::ValidationError(String::from_str("server port must be non-zero")));
        }
        if self.database.pool_size == 0 {
            return Err(ConfigError::ValidationError(String::from_str("database pool_size must be positive")));
        }
        if self.database.channel_capacity == 0 {
            return Err(
                ConfigError::ValidationError(String::from_str("database channel_capacity must be positive")),
            );
        }
        match checkpoint {
            Ok(_) => {},
            Err(e) => {
                return Err(ConfigError::ValidationError(join_text("database checkpoint_interval: ", e.as_str())));
            },
        }
        self.collectors.validate()
    }
}

/// Whether record `r` describes a collector of type `t` with the given
/// name, enabled flag, group and JSON configuration, from the file.
pub open spec fn describes(
    r: CollectorRecord,
    t: CollectorType,
    name: Seq<char>,
    enabled: bool,
    group: Seq<char>,
    config: Seq<char>,
) -> bool {
    &&& r.id is None
    &&& r.collector_type == t
    &&& r.name@ == name
    &&& r.source == CollectorSource::Config
    &&& r.enabled == enabled
    &&& r.group_name@ == group
    &&& r.config@ == config
    &&& r.created_at == r.updated_at
}

impl AppConfig {
    /// The records of all configured collectors, for the database: TCP
    /// collectors first, then ping, then HTTP. Each collector's JSON
    /// configuration is given in the list of its type, in the same order.
    pub fn to_collector_records(
        &self,
        tcp_json: &Vec<String>,
        ping_json: &Vec<String>,
        http_json: &Vec<String>,
    ) -> (records: Vec<CollectorRecord>)
        requires
            tcp_json@.len() == self.collectors.tcp@.len(),
            ping_json@.len() == self.collectors.ping@.len(),
            http_json@.len() == self.collectors.http@.len(),
        ensures
            records@.len() == self.collectors.tcp@.len() + self.collectors.ping@.len()
                + self.collectors.http@.len(),
            forall|i: int| 0 <= i < self.collectors.tcp@.len() ==> {
                let c = #[trigger] self.collectors.tcp@[i];
                describes(records@[i], CollectorType::Tcp, c.name@, c.enabled, c.group@, tcp_json@[i]@)
            },
            forall|i: int| 0 <= i < self.collectors.ping@.len() ==> {
                let c = #[trigger] self.collectors.ping@[i];
                describes(
                    records@[self.collectors.tcp@.len() + i],
                    CollectorType::Ping,
                    c.name@,
                    c.enabled,
                    c.group@,
                    ping_json@[i]@,
                )
            },
            forall|i: int| 0 <= i < self.collectors.http@.len() ==> {
                let c = #[trigger] self.collectors.http@[i];
                describes(
                    records@[self.collectors.tcp@.len() + self.collectors.ping@.len() + i],
                    CollectorType::Http,
                    c.name@,
                    c.enabled,
                    c.group@,
                    http_json@[i]@,
                )
            },
    {
        let mut records: Vec<CollectorRecord> = Vec::new();
        let tcp = &self.collectors.tcp;
        let ping = &self.collectors.ping;
        let http = &self.collectors.http;
        let nt = tcp.len();
        for i in 0..nt
            invariant
                nt == tcp@.len(),
                tcp == &self.collectors.tcp,
                tcp_json@.len() == nt,
                records@.len() == i,
                forall|j: int| 0 <= j < i ==> describes(#[trigger] records@[j], CollectorType::Tcp, tcp@[j].name@, tcp@[j].enabled, tcp@[j].group@, tcp_json@[j]@),
        {
            let c = &tcp[i];
            records.push(CollectorRecord::from_config(
                CollectorType::Tcp,
                c.name.as_str(),
                c.enabled,
                c.group.as_str(),
                tcp_json[i].clone(),
            ));
        }
        let np = ping.len();
        for i in 0..np
            invariant
                nt == tcp@.len(),
                np == ping@.len(),
                tcp == &self.collectors.tcp,
                ping == &self.collectors.ping,
                tcp_json@.len() == nt,
                ping_json@.len() == np,
                records@.len() == nt + i,
                forall|j: int| 0 <= j < nt ==> describes(#[trigger] records@[j], CollectorType::Tcp, tcp@[j].name@, tcp@[j].enabled, tcp@[j].group@, tcp_json@[j]@),
                forall|j: int| 0 <= j < i ==> describes(#[trigger] records@[nt + j], CollectorType::Ping, ping@[j].name@, ping@[j].enabled, ping@[j].group@, ping_json@[j]@),
        {
            let c = &ping[i];
            records.push(CollectorRecord::from_config(
                CollectorType::Ping,
                c.name.as_str(),
                c.enabled,
                c.group.as_str(),
                ping_json[i].clone(),
            ));
        }
        let nh = http.len();
        for i in 0..nh
            invariant
                nt == tcp@.len(),
                np == ping@.len(),
                nh == http@.len(),
                tcp == &self.collectors.tcp,
                ping == &self.collectors.ping,
                http == &self.collectors.http,
                tcp_json@.len() == nt,
                ping_json@.len() == np,
                http_json@.len() == nh,
                records@.len() == nt + np + i,
                forall|j: int| 0 <= j < nt ==> describes(#[trigger] records@[j], CollectorType::Tcp, tcp@[j].name@, tcp@[j].enabled, tcp@[j].group@, tcp_json@[j]@),
                forall|j: int| 0 <= j < np ==> describes(#[trigger] records@[nt + j], CollectorType::Ping, ping@[j].name@, ping@[j].enabled, ping@[j].group@, ping_json@[j]@),
                forall|j: int| 0 <= j < i ==> describes(#[trigger] records@[nt + np + j], CollectorType::Http, http@[j].name@, http@[j].enabled, http@[j].group@, http_json@[j]@),
        {
            let c = &http[i];
            records.push(CollectorRecord::from_config(
                CollectorType::Http,
                c.name.as_str(),
                c.enabled,
                c.group.as_str(),
                http_json[i].clone(),
            ));
        }
        records
    }
}

} // verus!
