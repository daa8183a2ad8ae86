//! ICMP ping probe configuration.
use vstd::prelude::*;
use crate::collector::traits::{CollectorConfig, IpValidationError, Schedule, clamped_interval,
    validate_ip_address};
use crate::tags::{TagMap, sorted_entries};
use crate::storage::types::StaticTags;
use crate::time::Duration;
use crate::ipaddr::is_ip_text;

verus! {

/// A probe is enabled unless configured otherwise.
pub fn default_enabled() -> (b: bool)
    ensures
        b,
{
    true
}

/// The group a probe belongs to unless configured otherwise: `default`.
pub fn default_group() -> (g: String)
    ensures
        g@ == "default"@,
{
    String::from_str("default")
}

/// The default collection interval: 30 seconds.
pub fn default_interval() -> (d: Duration)
    ensures
        d@ == 30_000_000_000,
{
    Duration::from_secs(30)
}

/// The default ping timeout: 3 seconds.
pub fn default_timeout() -> (d: Duration)
    ensures
        d@ == 3_000_000_000,
{
    Duration::from_secs(3)
}

/// Configuration for an ICMP ping probe.
#[derive(Debug)]
pub struct PingConfig {
    /// Unique name for this probe instance.
    pub name: String,
    /// Target host (hostname or IP address).
    pub host: String,
    /// Whether the collector runs.
    pub enabled: bool,
    /// Collector group for organization.
    pub group: String,
    /// Collection interval.
    pub interval: Duration,
    /// Probe timeout.
    pub timeout: Duration,
    /// Static tags for identity.
    pub tags: TagMap,
    /// Human-readable description.
    pub description: Option<String>,
}

impl PingConfig {
    /// A ping probe of `host` with the default settings: enabled, group
    /// `default`, every 30 seconds, 3 second timeout, no tags, no description.
    pub fn new(name: &str, host: &str) -> (c: PingConfig)
        ensures
            c.name@ == name@,
            c.host@ == host@,
            c.enabled,
            c.group@ == "default"@,
            c.interval@ == 30_000_000_000,
            c.timeout@ == 3_000_000_000,
            c.tags@ == Map::<Seq<char>, Seq<char>>::empty(),
            sorted_entries(c.tags.entries()),
            c.description is None,
    {
        PingConfig {
            name: String::from_str(name),
            host: String::from_str(host),
            enabled: default_enabled(),
            group: default_group(),
            interval: default_interval(),
            timeout: default_timeout(),
            tags: TagMap::new(),
            description: None,
        }
    }

    /// Check that the host is an IP address.
    pub fn validate(&self) -> (r: Result<(), IpValidationError>)
        ensures
            r is Ok <==> is_ip_text(self.host@),
            r matches Err(e) ==> e.address@ == self.host@,
    {
        validate_ip_address(self.host.as_str())
    }

    /// A copy of the static tags.
    pub fn static_tags(&self) -> (t: StaticTags)
        ensures
            t.entries() == self.tags.entries(),
            t@ == self.tags@,
            sorted_entries(t.entries()),
    {
        self.tags.copied()
    }

    /// Set the collection interval.
    pub fn with_interval(self, interval: Duration) -> (c: PingConfig)
        ensures
            c == (PingConfig { interval, ..self }),
    {
        PingConfig { interval, ..self }
    }

    /// Set the probe timeout.
    pub fn with_timeout(self, timeout: Duration) -> (c: PingConfig)
        ensures
            c == (PingConfig { timeout, ..self }),
    {
        PingConfig { timeout, ..self }
    }

    /// Set the static tags.
    pub fn with_static_tags(self, tags: StaticTags) -> (c: PingConfig)
        ensures
            c == (PingConfig { tags, ..self }),
    {
        PingConfig { tags, ..self }
    }

    /// Set the description.
    pub fn with_description(self, description: &str) -> (c: PingConfig)
        ensures
            c.description matches Some(d) && d@ == description@,
            c == (PingConfig { description: c.description, ..self }),
    {
        PingConfig { description: Some(String::from_str(description)), ..self }
    }

    /// Set whether the collector runs.
    pub fn with_enabled(self, enabled: bool) -> (c: PingConfig)
        ensures
            c == (PingConfig { enabled, ..self }),
    {
        PingConfig { enabled, ..self }
    }

    /// Set the group.
    pub fn with_group(self, group: &str) -> (c: PingConfig)
        ensures
            c.group@ == group@,
            c == (PingConfig { group: c.group, ..self }),
    {
        PingConfig { group: String::from_str(group), ..self }
    }
}

impl CollectorConfig for PingConfig {
    fn name(&self) -> (n: &str)
        ensures
            n@ == self.name@,
    {
        self.name.as_str()
    }

    fn schedule(&self) -> (s: Schedule)
        ensures
            s matches Schedule::Interval(d) && d@ == clamped_interval(self.interval@),
    {
        Schedule::interval(self.interval)
    }

    fn timeout(&self) -> (d: Duration)
        ensures
            d == self.timeout,
    {
        self.timeout
    }
}

} // verus!
