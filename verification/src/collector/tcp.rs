//! TCP port probe configuration.
use vstd::prelude::*;
use crate::collector::traits::{CollectorConfig, IpValidationError, Schedule, clamped_interval,
    validate_ip_address};
use crate::collector::ping::{default_enabled, default_group, default_interval, default_timeout};
use crate::tags::{TagMap, sorted_entries};
use crate::storage::types::StaticTags;
use crate::time::Duration;
use crate::ipaddr::is_ip_text;

verus! {

/// Configuration for a TCP port probe.
#[derive(Debug)]
pub struct TcpConfig {
    /// Unique name for this probe instance.
    pub name: String,
    /// Target host (IP address).
    pub host: String,
    /// Target port.
    pub port: u16,
    /// Whether the collector runs.
    pub enabled: bool,
    /// Collector group for organization.
    pub group: String,
    /// Collection interval.
    pub interval: Duration,
    /// Probe timeout.
    pub timeout: Duration,
    /// Static tags for identity.
    pub tags: TagMap,
    /// Human-readable description.
    pub description: Option<String>,
}

impl TcpConfig {
    /// A probe of `host:port` with the default settings: enabled, group
    /// `default`, every 30 seconds, 3 second timeout, no tags, no description.
    pub fn new(name: &str, host: &str, port: u16) -> (c: TcpConfig)
        ensures
            c.name@ == name@,
            c.host@ == host@,
            c.port == port,
            c.enabled,
            c.group@ == "default"@,
            c.interval@ == 30_000_000_000,
            c.timeout@ == 3_000_000_000,
            c.tags@ == Map::<Seq<char>, Seq<char>>::empty(),
            sorted_entries(c.tags.entries()),
            c.description is None,
    {
        TcpConfig {
            name: String::from_str(name),
            host: String::from_str(host),
            port,
            enabled: default_enabled(),
            group: default_group(),
            interval: default_interval(),
            timeout: default_timeout(),
            tags: TagMap::new(),
            description: None,
        }
    }

    /// Check that the host is an IP address.
    pub fn validate(&self) -> (r: Result<(), IpValidationError>)
        ensures
            r is Ok <==> is_ip_text(self.host@),
            r matches Err(e) ==> e.address@ == self.host@,
    {
        validate_ip_address(self.host.as_str())
    }

    /// The static tags.
    pub fn static_tags(&self) -> (t: &StaticTags)
        ensures
            t == &self.tags,
    {
        &self.tags
    }

    /// Set the collection interval.
    pub fn with_interval(self, interval: Duration) -> (c: TcpConfig)
        ensures
            c == (TcpConfig { interval, ..self }),
    {
        TcpConfig { interval, ..self }
    }

    /// Set the probe timeout.
    pub fn with_timeout(self, timeout: Duration) -> (c: TcpConfig)
        ensures
            c == (TcpConfig { timeout, ..self }),
    {
        TcpConfig { timeout, ..self }
    }

    /// Set the static tags.
    pub fn with_static_tags(self, tags: StaticTags) -> (c: TcpConfig)
        ensures
            c == (TcpConfig { tags, ..self }),
    {
        TcpConfig { tags, ..self }
    }

    /// Set the description.
    pub fn with_description(self, description: &str) -> (c: TcpConfig)
        ensures
            c.description matches Some(d) && d@ == description@,
            c == (TcpConfig { description: c.description, ..self }),
    {
        TcpConfig { description: Some(String::from_str(description)), ..self }
    }

    /// Set whether the collector runs.
    pub fn with_enabled(self, enabled: bool) -> (c: TcpConfig)
        ensures
            c == (TcpConfig { enabled, ..self }),
    {
        TcpConfig { enabled, ..self }
    }

    /// Set the group.
    pub fn with_group(self, group: &str) -> (c: TcpConfig)
        ensures
            c.group@ == group@,
            c == (TcpConfig { group: c.group, ..self }),
    {
        TcpConfig { group: String::from_str(group), ..self }
    }
}

impl CollectorConfig for TcpConfig {
    fn name(&self) -> (n: &str)
        ensures
            n@ == self.name@,
    {
        self.name.as_str()
    }

    fn schedule(&self) -> (s: Schedule)
        ensures
            s matches Schedule::Interval(d) && d@ == clamped_interval(self.interval@),
    {
        Schedule::interval(self.interval)
    }

    fn timeout(&self) -> (d: Duration)
        ensures
            d == self.timeout,
    {
        self.timeout
    }
}

} // verus!
