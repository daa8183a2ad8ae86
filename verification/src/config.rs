//! Configuration: server, database and collector entries, their
//! conversion into probe configurations, and their validation.
pub mod app;
pub mod collector;
pub mod validation;

use vstd::prelude::*;
use crate::collector::ping::PingConfig;
use crate::collector::tcp::TcpConfig;
use crate::collector::traits::{cron_parse, cron_parse_result, validate_ip_address};
use crate::ipaddr::is_ip_text;
use crate::storage::error::join_text;
use crate::storage::types::{MetricCategory, StaticTags};
use crate::tags::{TagMap, sorted_entries};
use crate::text::{chars_of, digits_value, is_space, parse_u16, parse_u16_spec, parse_u64, parse_u64_spec, trim, trim_end,
    trim_start, trim_str, u64_digits};
use crate::time::{Duration, NANOS_PER_SEC};
pub use self::validation::ConfigError;

verus! {

broadcast use vstd::string::group_string_axioms;

/// Web server configuration.
#[derive(Debug)]
pub struct ServerConfig {
    /// Server bind address.
    pub bind: String,
    /// Server port.
    pub port: u16,
}

/// The bind address used when none is configured: `0.0.0.0`.
pub fn default_bind_address() -> (s: String)
    ensures
        s@ == "0.0.0.0"@,
{
    String::from_str("0.0.0.0")
}

/// The port used when none is configured: 8080.
pub fn default_port() -> (p: u16)
    ensures
        p == 8080,
{
    8080
}

/// Database configuration.
#[derive(Debug)]
pub struct DatabaseConfig {
    /// Database file path.
    pub path: String,
    /// Connection pool size for read operations.
    pub pool_size: u32,
    /// Channel capacity for write operations.
    pub channel_capacity: usize,
    /// WAL checkpoint interval, as text such as `5s`.
    pub checkpoint_interval: String,
}

/// The pool size used when none is configured: 4.
pub fn default_pool_size() -> (n: u32)
    ensures
        n == 4,
{
    4
}

/// The channel capacity used when none is configured: 10 000.
pub fn default_channel_capacity() -> (n: usize)
    ensures
        n == 10_000,
{
    10_000
}

/// The checkpoint interval used when none is configured: `5s`.
pub fn default_checkpoint_interval() -> (s: String)
    ensures
        s@ == "5s"@,
{
    String::from_str("5s")
}

/// One collector of the configuration file.
#[derive(Debug)]
pub struct CollectorConfigEntry {
    /// Collector type.
    pub collector_type: MetricCategory,
    /// Unique collector name.
    pub name: String,
    /// Target endpoint (`host:port` for TCP, a host for ping).
    pub target: String,
    /// Collection interval such as `30s`; exclusive with `cron`.
    pub interval: Option<String>,
    /// Cron expression; exclusive with `interval`.
    pub cron: Option<String>,
    /// Probe timeout such as `5s`.
    pub timeout: String,
    /// Static tags; `description` is taken as the description.
    pub tags: TagMap,
}

/// Top-level application configuration.
#[derive(Debug)]
pub struct AppConfig {
    /// Web server configuration.
    pub server: ServerConfig,
    /// Database configuration.
    pub database: DatabaseConfig,
    /// Collector entries.
    pub collectors: Vec<CollectorConfigEntry>,
}

/// What `parse_duration` gives for `s`: whole seconds, or the error.
pub open spec fn duration_secs(s: Seq<char>) -> Result<nat, Seq<char>> {
    let t = trim(s);
    if t.len() == 0 {
        Err("duration string is empty"@)
    } else {
        let num = t.drop_last();
        let unit = t.last();
        match parse_u64_spec(num) {
            None => Err("invalid number: "@ + num),
            Some(n) => if unit == 's' {
                Ok(n as nat)
            } else if unit == 'm' {
                if n * 60 <= u64::MAX {
                    Ok((n * 60) as nat)
                } else {
                    Err("invalid number: "@ + num)
                }
            } else if unit == 'h' {
                if n * 3600 <= u64::MAX {
                    Ok((n * 3600) as nat)
                } else {
                    Err("invalid number: "@ + num)
                }
            } else {
                Err("invalid unit: "@ + seq![unit] + ". Use 's', 'm', or 'h'"@)
            },
        }
    }
}

/// A count of decimal digits followed by a unit reads as that many
/// seconds (`s`), minutes (`m`, sixty seconds each) or hours (`h`, 3600
/// seconds each), and as an invalid number when the seconds exceed
/// `u64::MAX`; any other unit is refused.
pub proof fn lemma_duration_units(d: Seq<char>, unit: char)
    requires
        d.len() > 0,
        forall|i: int| 0 <= i < d.len() ==> '0' <= #[trigger] d[i] && d[i] <= '9',
        digits_value(d) <= u64::MAX,
        !is_space(unit),
    ensures
        unit == 's' ==> duration_secs(d.push(unit)) == Ok::<nat, Seq<char>>(digits_value(d)),
        unit == 'm' ==> duration_secs(d.push(unit)) == if digits_value(d) * 60 <= u64::MAX {
            Ok::<nat, Seq<char>>(digits_value(d) * 60)
        } else {
            Err("invalid number: "@ + d)
        },
        unit == 'h' ==> duration_secs(d.push(unit)) == if digits_value(d) * 3600 <= u64::MAX {
            Ok::<nat, Seq<char>>(digits_value(d) * 3600)
        } else {
            Err("invalid number: "@ + d)
        },
        unit != 's' && unit != 'm' && unit != 'h' ==> duration_secs(d.push(unit)) is Err,
{
    let t = d.push(unit);
    assert(!is_space(t[0]));
    assert(trim_start(t) == t);
    assert(t.last() == unit);
    assert(trim_end(t) == t);
    assert(t.drop_last() =~= d);
    assert(u64_digits(d) == d);
}

/// Parse a duration of whole seconds, minutes or hours: a decimal count
/// followed by `s`, `m` or `h`, such as `30s`, `1m` or `2h` (surrounding
/// whitespace is ignored).
///
/// # Errors
/// The reason the text is not such a duration; a count too large for its
/// unit is an invalid number.
pub fn parse_duration(s: &str) -> (r: Result<Duration, String>)
    ensures
        match (r, duration_secs(s@)) {
            (Ok(d), Ok(n)) => d@ == n * NANOS_PER_SEC,
            (Err(m), Err(e)) => m@ == e,
            _ => false,
        },
{
    let t = trim_str(s);
    let len = t.unicode_len();
    if len == 0 {
        return Err(String::from_str("duration string is empty"));
    }
    let num_str = t.substring_char(0, len - 1);
    let unit_str = t.substring_char(len - 1, len);
    let unit = t.get_char(len - 1);
    proof {
        assert(num_str@ =~= trim(s@).drop_last());
        assert(unit_str@ =~= seq![unit]);
    }
    match parse_u64(num_str) {
        None => Err(join_text("invalid number: ", num_str)),
        Some(n) => {
            if unit == 's' {
                Ok(Duration::from_secs(n))
            } else if unit == 'm' {
                match n.checked_mul(60) {
                    Some(v) => Ok(Duration::from_secs(v)),
                    None => Err(join_text("invalid number: ", num_str)),
                }
            } else if unit == 'h' {
                match n.checked_mul(3600) {
                    Some(v) => Ok(Duration::from_secs(v)),
                    None => Err(join_text("invalid number: ", num_str)),
                }
            } else {
                let mut m = String::from_str("invalid unit: ");
                m.append(unit_str);
                m.append(". Use 's', 'm', or 'h'");
                Err(m)
            }
        },
    }
}

/// `collector '<name>': <rest>`.
pub open spec fn collector_text(name: Seq<char>, rest: Seq<char>) -> Seq<char> {
    "collector '"@ + name + "': "@ + rest
}

/// Build `collector '<name>': <rest>`.
fn collector_message(name: &str, rest: &str) -> (s: String)
    ensures
        s@ == collector_text(name@, rest@),
{
    let mut s = String::from_str("collector '");
    s.append(name);
    s.append("': ");
    s.append(rest);
    s
}

/// The position of the last `:` in `s`, or -1 when there is none.
pub open spec fn last_colon(s: Seq<char>) -> int
    decreases s.len(),
{
    if s.len() == 0 {
        -1
    } else if s.last() == ':' {
        s.len() - 1
    } else {
        last_colon(s.drop_last())
    }
}

proof fn lemma_last_colon(s: Seq<char>)
    ensures
        -1 <= last_colon(s) < s.len(),
        last_colon(s) >= 0 ==> s[last_colon(s)] == ':',
        forall|k: int| last_colon(s) < k < s.len() ==> #[trigger] s[k] != ':',
    decreases s.len(),
{
    if s.len() > 0 && s.last() != ':' {
        lemma_last_colon(s.drop_last());
        assert forall|k: int| last_colon(s) < k < s.len() implies #[trigger] s[k] != ':' by {
            if k < s.len() - 1 {
                assert(s.drop_last()[k] == s[k]);
            }
        }
    }
}

/// The interval of a collector entry in seconds, or the error message.
pub open spec fn entry_interval_secs(e: CollectorConfigEntry) -> Result<nat, Seq<char>> {
    match e.interval {
        Some(i) => match duration_secs(i@) {
            Ok(n) => Ok(n),
            Err(m) => Err(collector_text(e.name@, "invalid interval: "@ + m)),
        },
        None => Ok(30),
    }
}

/// The timeout of a collector entry in seconds, or the error message.
pub open spec fn entry_timeout_secs(e: CollectorConfigEntry) -> Result<nat, Seq<char>> {
    match duration_secs(e.timeout@) {
        Ok(n) => Ok(n),
        Err(m) => Err(collector_text(e.name@, "invalid timeout: "@ + m)),
    }
}

/// The host and port of a `host:port` target (split at the last `:`), or
/// the error message.
pub open spec fn entry_host_port(e: CollectorConfigEntry) -> Result<(Seq<char>, u16), Seq<char>> {
    let t = e.target@;
    let c = last_colon(t);
    if c < 0 {
        Err(collector_text(e.name@, "target must be in 'host:port' format, got '"@ + t + "'"@))
    } else {
        match parse_u16_spec(t.skip(c + 1)) {
            None => Err(collector_text(e.name@, "invalid port '"@ + t.skip(c + 1) + "'"@)),
            Some(p) => Ok((t.take(c), p)),
        }
    }
}

/// The tags of an entry without `description`.
pub open spec fn entry_static_tags(e: CollectorConfigEntry) -> Map<Seq<char>, Seq<char>> {
    e.tags@.remove("description"@)
}

impl CollectorConfigEntry {
    /// Split the target `host:port` at its last `:`.
    ///
    /// # Errors
    /// `ConfigError::ValidationError` when there is no `:` or the port is
    /// not a `u16`.
    pub fn parse_host_port(&self) -> (r: Result<(String, u16), ConfigError>)
        ensures
            match (r, entry_host_port(*self)) {
                (Ok((h, p)), Ok((h2, p2))) => h@ == h2 && p == p2,
                (Err(ConfigError::ValidationError(m)), Err(m2)) => m@ == m2,
                _ => false,
            },
    {
        let t = self.target.as_str();
        let v = chars_of(t);
        let n = v.len();
        let mut i: usize = n;
        proof {
            assert(t@.take(n as int) =~= t@);
        }
        while i > 0 && v[i - 1] != ':'
            invariant
                v@ == t@,
                n == v.len(),
                i <= n,
                last_colon(t@) == last_colon(t@.take(i as int)),
            decreases i,
        {
            proof {
                assert(t@.take(i as int).drop_last() =~= t@.take(i - 1));
            }
            i = i - 1;
        }
        proof {
            if i == 0 {
                assert(t@.take(0) =~= Seq::<char>::empty());
            } else {
                assert(t@.take(i as int).last() == ':');
            }
        }
        if i == 0 {
            let mut m = String::from_str("target must be in 'host:port' format, got '");
            m.append(t);
            m.append("'");
            return Err(ConfigError::ValidationError(collector_message(self.name.as_str(), m.as_str())));
        }
        let port_text = t.substring_char(i, n);
        match parse_u16(port_text) {
            None => {
                let mut m = String::from_str("invalid port '");
                m.append(port_text);
                m.append("'");
                Err(ConfigError::ValidationError(collector_message(self.name.as_str(), m.as_str())))
            },
            Some(p) => {
                let host = t.substring_char(0, i - 1);
                Ok((String::from_str(host), p))
            },
        }
    }

    /// The collection interval; 30 seconds when none is given.
    ///
    /// # Errors
    /// `ConfigError::ValidationError` when the interval does not parse.
    pub fn parse_interval(&self) -> (r: Result<Duration, ConfigError>)
        ensures
            match (r, entry_interval_secs(*self)) {
                (Ok(d), Ok(n)) => d@ == n * NANOS_PER_SEC,
                (Err(ConfigError::ValidationError(m)), Err(m2)) => m@ == m2,
                _ => false,
            },
    {
        match &self.interval {
            Some(text) => match parse_duration(text.as_str()) {
                Ok(d) => Ok(d),
                Err(e) => {
                    let m = join_text("invalid interval: ", e.as_str());
                    Err(ConfigError::ValidationError(collector_message(self.name.as_str(), m.as_str())))
                },
            },
            None => Ok(Duration::from_secs(30)),
        }
    }

    /// The probe timeout.
    ///
    /// # Errors
    /// `ConfigError::ValidationError` when the timeout does not parse.
    pub fn parse_timeout(&self) -> (r: Result<Duration, ConfigError>)
        ensures
            match (r, entry_timeout_secs(*self)) {
                (Ok(d), Ok(n)) => d@ == n * NANOS_PER_SEC,
                (Err(ConfigError::ValidationError(m)), Err(m2)) => m@ == m2,
                _ => false,
            },
    {
        match parse_duration(self.timeout.as_str()) {
            Ok(d) => Ok(d),
            Err(e) => {
                let m = join_text("invalid timeout: ", e.as_str());
                Err(ConfigError::ValidationError(collector_message(self.name.as_str(), m.as_str())))
            },
        }
    }

    /// The tags without `description`.
    pub fn to_static_tags(&self) -> (t: StaticTags)
        ensures
            t@ == entry_static_tags(*self),
            sorted_entries(t.entries()),
    {
        self.tags.without("description")
    }

    /// A TCP probe of the target `host:port`, with the entry's timeout,
    /// interval, tags and description.
    ///
    /// # Errors
    /// `ConfigError::ValidationError` when the target is not `host:port`,
    /// the host is not an IP address, or a duration does not parse; the
    /// first of these in that order.
    pub fn to_tcp_config(&self) -> (r: Result<TcpConfig, ConfigError>)
        ensures
            match entry_host_port(*self) {
                Err(m) => r matches Err(ConfigError::ValidationError(m2)) && m2@ == m,
                Ok((h, p)) => if !is_ip_text(h) {
                    r matches Err(ConfigError::ValidationError(m2)) && m2@ == collector_text(
                        self.name@,
                        "invalid IP address: '"@ + h + "'"@,
                    )
                } else {
                    match (entry_timeout_secs(*self), entry_interval_secs(*self)) {
                        (Err(m), _) => r matches Err(ConfigError::ValidationError(m2)) && m2@ == m,
                        (Ok(_), Err(m)) => r matches Err(ConfigError::ValidationError(m2)) && m2@
                            == m,
                        (Ok(ts), Ok(is)) => r matches Ok(c) && c.name@ == self.name@ && c.host@
                            == h && c.port == p && c.timeout@ == ts * NANOS_PER_SEC && c.interval@
                            == is * NANOS_PER_SEC && c.tags@ == entry_static_tags(*self)
                            && sorted_entries(c.tags.entries()) && c.enabled && c.group@
                            == "default"@ && if self.tags@.contains_key("description"@) {
                            c.description matches Some(d) && d@ == self.tags@["description"@]
                        } else {
                            c.description is None
                        },
                    }
                },
            },
    {
        let (host, port) = match self.parse_host_port() {
            Ok(hp) => hp,
            Err(e) => {
                return Err(e);
            },
        };
        match validate_ip_address(host.as_str()) {
            Ok(()) => {},
            Err(e) => {
                let m = e.to_string();
                return Err(ConfigError::ValidationError(collector_message(self.name.as_str(), m.as_str())));
            },
        }
        let timeout = match self.parse_timeout() {
            Ok(d) => d,
            Err(e) => {
                return Err(e);
            },
        };
        let interval = match self.parse_interval() {
            Ok(d) => d,
            Err(e) => {
                return Err(e);
            },
        };
        let mut config = TcpConfig::new(self.name.as_str(), host.as_str(), port).with_timeout(
            timeout,
        ).with_interval(interval).with_static_tags(self.to_static_tags());
        match self.tags.get("description") {
            Some(desc) => {
                config = config.with_description(desc.as_str());
            },
            None => {},
        }
        Ok(config)
    }

    /// A ping probe of the target, with the entry's timeout, interval, tags
    /// and description. The target may be a hostname.
    ///
    /// # Errors
    /// `ConfigError::ValidationError` when the timeout or the interval does
    /// not parse; the timeout is read first.
    pub fn to_ping_config(&self) -> (r: Result<PingConfig, ConfigError>)
        ensures
            match (entry_timeout_secs(*self), entry_interval_secs(*self)) {
                (Err(m), _) => r matches Err(ConfigError::ValidationError(m2)) && m2@ == m,
                (Ok(_), Err(m)) => r matches Err(ConfigError::ValidationError(m2)) && m2@ == m,
                (Ok(ts), Ok(is)) => r matches Ok(c) && c.name@ == self.name@ && c.host@
                    == self.target@ && c.timeout@ == ts * NANOS_PER_SEC && c.interval@ == is
                    * NANOS_PER_SEC && c.tags@ == entry_static_tags(*self) && sorted_entries(
                    c.tags.entries(),
                ) && c.enabled && c.group@ == "default"@ && if self.tags@.contains_key(
                    "description"@,
                ) {
                    c.description matches Some(d) && d@ == self.tags@["description"@]
                } else {
                    c.description is None
                },
            },
    {
        let timeout = match self.parse_timeout() {
            Ok(d) => d,
            Err(e) => {
                return Err(e);
            },
        };
        let interval = match self.parse_interval() {
            Ok(d) => d,
            Err(e) => {
                return Err(e);
            },
        };
        let mut config = PingConfig::new(self.name.as_str(), self.target.as_str()).with_timeout(
            timeout,
        ).with_interval(interval).with_static_tags(self.to_static_tags());
        match self.tags.get("description") {
            Some(desc) => {
                config = config.with_description(desc.as_str());
            },
            None => {},
        }
        Ok(config)
    }
}

/// The first problem of a collector entry, as `AppConfig::validate`
/// reports it, if any.
pub open spec fn entry_error(e: CollectorConfigEntry) -> Option<Seq<char>> {
    let name = e.name@;
    if name.len() == 0 {
        Some("collector name cannot be empty"@)
    } else if e.target@.len() == 0 {
        Some(collector_text(name, "target cannot be empty"@))
    } else {
        let schedule_error = match (e.interval, e.cron) {
            (Some(i), None) => match duration_secs(i@) {
                Err(m) => Some(collector_text(name, "invalid interval format: "@ + m)),
                Ok(_) => None,
            },
            (None, Some(c)) => match cron_parse_result(c@) {
                Err(m) => Some(collector_text(name, "invalid cron expression: "@ + m)),
                Ok(()) => None,
            },
            (Some(_), Some(_)) => Some(collector_text(name, "cannot specify both 'interval' and 'cron'"@)),
            (None, None) => Some(collector_text(name, "must specify either 'interval' or 'cron'"@)),
        };
        if schedule_error is Some {
            schedule_error
        } else {
            match duration_secs(e.timeout@) {
                Err(m) => Some(collector_text(name, "invalid timeout format: "@ + m)),
                Ok(_) => None,
            }
        }
    }
}

/// The first problem among entries, in order.
pub open spec fn first_entry_error(es: Seq<CollectorConfigEntry>) -> Option<Seq<char>>
    decreases es.len(),
{
    if es.len() == 0 {
        None
    } else {
        match entry_error(es[0]) {
            Some(m) => Some(m),
            None => first_entry_error(es.drop_first()),
        }
    }
}

/// The first problem of a configuration, as `AppConfig::validate`
/// reports it, if any.
pub open spec fn config_error(c: AppConfig) -> Option<Seq<char>> {
    if c.server.port == 0 {
        Some("server port must be non-zero"@)
    } else if c.database.pool_size == 0 {
        Some("database pool_size must be positive"@)
    } else if c.database.channel_capacity == 0 {
        Some("database channel_capacity must be positive"@)
    } else {
        match duration_secs(c.database.checkpoint_interval@) {
            Err(m) => Some("database checkpoint_interval: "@ + m),
            Ok(_) => first_entry_error(c.collectors@),
        }
    }
}

impl CollectorConfigEntry {
    /// Check one entry: a name, a target, exactly one of interval and
    /// cron (valid), and a valid timeout.
    fn check(&self) -> (r: Result<(), String>)
        ensures
            match entry_error(*self) {
                Some(m) => r matches Err(m2) && m2@ == m,
                None => r is Ok,
            },
    {
        let name = self.name.as_str();
        if name.unicode_len() == 0 {
            return Err(String::from_str("collector name cannot be empty"));
        }
        if self.target.as_str().unicode_len() == 0 {
            return Err(collector_message(name, "target cannot be empty"));
        }
        match (&self.interval, &self.cron) {
            (Some(interval), None) => match parse_duration(interval.as_str()) {
                Ok(_) => {},
                Err(e) => {
                    let m = join_text("invalid interval format: ", e.as_str());
                    return Err(collector_message(name, m.as_str()));
                },
            },
            (None, Some(expr)) => match cron_parse(expr.as_str()) {
                Ok(()) => {},
                Err(e) => {
                    let m = join_text("invalid cron expression: ", e.as_str());
                    return Err(collector_message(name, m.as_str()));
                },
            },
            (Some(_), Some(_)) => {
                return Err(collector_message(name, "cannot specify both 'interval' and 'cron'"));
            },
            (None, None) => {
                return Err(collector_message(name, "must specify either 'interval' or 'cron'"));
            },
        }
        match parse_duration(self.timeout.as_str()) {
            Ok(_) => Ok(()),
            Err(e) => {
                let m = join_text("invalid timeout format: ", e.as_str());
                Err(collector_message(name, m.as_str()))
            },
        }
    }
}

impl AppConfig {
    /// Validate the configuration: a non-zero port, pool size and channel
    /// capacity, a valid checkpoint interval, and valid collector entries.
    ///
    /// # Errors
    /// `ConfigError::ValidationError` with the first problem found.
    pub fn validate(&self) -> (r: Result<(), ConfigError>)
        ensures
            match config_error(*self) {
                Some(m) => r matches Err(ConfigError::ValidationError(m2)) && m2@ == m,
                None => r is Ok,
            },
    {
        if self.server.port == 0 {
            return Err(ConfigError::ValidationError(String::from_str("server port must be non-zero")));
        }
        if self.database.pool_size == 0 {
            return Err(ConfigError::ValidationError(String::from_str("database pool_size must be positive")));
        }
        if self.database.channel_capacity == 0 {
            return Err(
                ConfigError::ValidationError(String::from_str("database channel_capacity must be positive")),
            );
        }
        match parse_duration(self.database.checkpoint_interval.as_str()) {
            Ok(_) => {},
            Err(e) => {
                return Err(ConfigError::ValidationError(join_text("database checkpoint_interval: ", e.as_str())));
            },
        }
        let ghost es = self.collectors@;
        let n = self.collectors.len();
        proof {
            assert(es.skip(0) =~= es);
        }
        for i in 0..n
            invariant
                n == es.len(),
                es == self.collectors@,
                config_error(*self) == first_entry_error(es),
                first_entry_error(es) == first_entry_error(es.skip(i as int)),
        {
            proof {
                assert(es.skip(i as int)[0] == es[i as int]);
                assert(es.skip(i as int).drop_first() =~= es.skip(i + 1));
            }
            match self.collectors[i].check() {
                Ok(()) => {},
                Err(m) => {
                    return Err(ConfigError::ValidationError(m));
                },
            }
        }
        proof {
            assert(es.skip(n as int).len() == 0);
        }
        Ok(())
    }
}

/// An entry passes its check exactly when it has a name and a target,
/// exactly one of an interval that parses and a cron expression that the
/// `cron` crate accepts, and a timeout that parses.
pub proof fn lemma_entry_check(e: CollectorConfigEntry)
    ensures
        entry_error(e) is None <==> {
            &&& e.name@.len() > 0
            &&& e.target@.len() > 0
            &&& match (e.interval, e.cron) {
                (Some(i), None) => duration_secs(i@) is Ok,
                (None, Some(c)) => cron_parse_result(c@) is Ok,
                _ => false,
            }
            &&& duration_secs(e.timeout@) is Ok
        },
{
}

proof fn lemma_first_entry_error_none(es: Seq<CollectorConfigEntry>)
    ensures
        first_entry_error(es) is None <==> forall|i: int| 0 <= i < es.len() ==> entry_error(#[trigger] es[i]) is None,
    decreases es.len(),
{
    if es.len() > 0 {
        lemma_first_entry_error_none(es.drop_first());
        if first_entry_error(es) is None {
            assert forall|i: int| 0 <= i < es.len() implies entry_error(#[trigger] es[i]) is None by {
                if i > 0 {
                    assert(es[i] == es.drop_first()[i - 1]);
                }
            }
        }
        if forall|i: int| 0 <= i < es.len() ==> entry_error(#[trigger] es[i]) is None {
            assert(entry_error(es[0]) is None);
            assert forall|i: int| 0 <= i < es.drop_first().len() implies entry_error(#[trigger] es.drop_first()[i]) is None by {
                assert(es.drop_first()[i] == es[i + 1]);
            }
        }
    }
}

/// A configuration validates exactly when its port, pool size and channel
/// capacity are non-zero, its checkpoint interval parses, and every
/// collector entry has a name, a target, exactly one of a parsing
/// interval and an accepted cron expression, and a parsing timeout.
pub proof fn lemma_valid_config(c: AppConfig)
    ensures
        config_error(c) is None <==> {
            &&& c.server.port != 0
            &&& c.database.pool_size != 0
            &&& c.database.channel_capacity != 0
            &&& duration_secs(c.database.checkpoint_interval@) is Ok
            &&& forall|i: int| 0 <= i < c.collectors@.len() ==> {
                let e = #[trigger] c.collectors@[i];
                &&& e.name@.len() > 0
                &&& e.target@.len() > 0
                &&& match (e.interval, e.cron) {
                    (Some(iv), None) => duration_secs(iv@) is Ok,
                    (None, Some(cr)) => cron_parse_result(cr@) is Ok,
                    _ => false,
                }
                &&& duration_secs(e.timeout@) is Ok
            }
        },
{
    lemma_first_entry_error_none(c.collectors@);
    assert forall|i: int| 0 <= i < c.collectors@.len() implies (entry_error(#[trigger] c.collectors@[i]) is None
        <==> {
        let e = c.collectors@[i];
        &&& e.name@.len() > 0
        &&& e.target@.len() > 0
        &&& match (e.interval, e.cron) {
            (Some(iv), None) => duration_secs(iv@) is Ok,
            (None, Some(cr)) => cron_parse_result(cr@) is Ok,
            _ => false,
        }
        &&& duration_secs(e.timeout@) is Ok
    }) by {
        lemma_entry_check(c.collectors@[i]);
    }
}

/// An entry that passes validation has a readable timeout and interval,
/// so its conversion to a ping probe succeeds (and to a TCP probe, once
/// its target is an IP `host:port`).
pub proof fn lemma_valid_entry_durations(e: CollectorConfigEntry)
    requires
        entry_error(e) is None,
    ensures
        entry_timeout_secs(e) is Ok,
        entry_interval_secs(e) is Ok,
{
}

} // verus!
