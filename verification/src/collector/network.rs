//! Probes of network endpoints given by socket address.
use vstd::prelude::*;
use crate::collector::traits::Schedule;
use crate::storage::types::StaticTags;
use crate::tags::TagMap;
use crate::time::Duration;

verus! {

/// A socket address: an IP address (as text) and a port.
#[derive(Debug)]
pub struct SocketTarget {
    /// The IP address.
    pub ip: String,
    /// The port.
    pub port: u16,
}

/// Configuration for a TCP port probe of a socket address.
#[derive(Debug)]
pub struct TcpConfig {
    /// Unique name for this probe instance.
    pub name: String,
    /// Target socket address.
    pub target_addr: SocketTarget,
    /// Static tags for identity.
    pub static_tags: StaticTags,
    /// Human-readable description.
    pub description: Option<String>,
    /// Execution schedule.
    pub schedule: Schedule,
    /// Connection timeout.
    pub conn_timeout: Duration,
}

impl TcpConfig {
    /// A probe of `target` every 30 seconds, with a 3-second connection
    /// timeout, no tags and no description.
    pub fn new(name: &str, target: SocketTarget) -> (c: TcpConfig)
        ensures
            c.name@ == name@,
            c.target_addr == target,
            c.schedule matches Schedule::Interval(d) && d@ == 30_000_000_000,
            c.conn_timeout@ == 3_000_000_000,
            c.static_tags@ == Map::<Seq<char>, Seq<char>>::empty(),
            c.description is None,
    {
        TcpConfig {
            name: String::from_str(name),
            target_addr: target,
            schedule: Schedule::interval(Duration::from_secs(30)),
            conn_timeout: Duration::from_secs(3),
            static_tags: TagMap::new(),
            description: None,
        }
    }

    /// Set the execution schedule.
    pub fn with_schedule(self, schedule: Schedule) -> (c: TcpConfig)
        ensures
            c == (TcpConfig { schedule, ..self }),
    {
        TcpConfig { schedule, ..self }
    }

    /// Set the connection timeout.
    pub fn with_timeout(self, timeout: Duration) -> (c: TcpConfig)
        ensures
            c == (TcpConfig { conn_timeout: timeout, ..self }),
    {
        TcpConfig { conn_timeout: timeout, ..self }
    }

    /// Set the static tags.
    pub fn with_static_tags(self, tags: StaticTags) -> (c: TcpConfig)
        ensures
            c == (TcpConfig { static_tags: tags, ..self }),
    {
        TcpConfig { static_tags: tags, ..self }
    }

    /// Set the description.
    pub fn with_description(self, description: &str) -> (c: TcpConfig)
        ensures
            c.description matches Some(d) && d@ == description@,
            c.name == self.name && c.target_addr == self.target_addr && c.static_tags == self.static_tags
                && c.schedule == self.schedule && c.conn_timeout == self.conn_timeout,
    {
        TcpConfig { description: Some(String::from_str(description)), ..self }
    }
}

} // verus!
