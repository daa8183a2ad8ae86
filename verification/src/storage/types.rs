//! Record types of the storage layer: metric categories, metric series,
//! and events with their source, kind and severity.
use vstd::prelude::*;
use vstd::utf8::encode_utf8;
use crate::clock::now_micros;
use crate::tags::{TagMap, sorted_entries, lemma_sorted_entries_determined};
use crate::text::{eq_ignore_ascii_case, str_eq_ignore_ascii_case};

verus! {

/// The error of parsing a name that no variant has.
#[derive(Clone, Copy, Debug, PartialEq, Eq, Structural)]
pub struct UnknownVariant;

/// Metric category: the kind of source a metric comes from.
#[derive(Clone, Copy, Debug, PartialEq, Eq, Hash, Structural)]
pub enum MetricCategory {
    /// TCP port probe metrics.
    NetworkTcp,
    /// ICMP ping probe metrics.
    NetworkPing,
    /// HTTP endpoint probe metrics.
    NetworkHttp,
    /// Cryptocurrency market data.
    Crypto,
    /// Polymarket prediction data.
    Polymarket,
    /// Stock market data.
    Stock,
    /// User-defined custom metrics.
    Custom,
}

impl MetricCategory {
    /// The textual name of the variant.
    pub open spec fn name(self) -> Seq<char> {
        match self {
            MetricCategory::NetworkTcp => "network.tcp"@,
            MetricCategory::NetworkPing => "network.ping"@,
            MetricCategory::NetworkHttp => "network.http"@,
            MetricCategory::Crypto => "crypto"@,
            MetricCategory::Polymarket => "polymarket"@,
            MetricCategory::Stock => "stock"@,
            MetricCategory::Custom => "custom"@,
        }
    }

    /// The textual name of the variant.
    pub fn as_ref(&self) -> (s: &'static str)
        ensures
            s@ == self.name(),
    {
        match self {
            MetricCategory::NetworkTcp => "network.tcp",
            MetricCategory::NetworkPing => "network.ping",
            MetricCategory::NetworkHttp => "network.http",
            MetricCategory::Crypto => "crypto",
            MetricCategory::Polymarket => "polymarket",
            MetricCategory::Stock => "stock",
            MetricCategory::Custom => "custom",
        }
    }

    /// The category named `s`, compared without regard to ASCII case.
    pub fn parse(s: &str) -> (r: Option<MetricCategory>)
        ensures
            r matches Some(c) ==> eq_ignore_ascii_case(s@, c.name()),
            r is None ==> forall|c: MetricCategory| !eq_ignore_ascii_case(s@, c.name()),
    {
        if str_eq_ignore_ascii_case(s, "network.tcp") {
            Some(MetricCategory::NetworkTcp)
        } else if str_eq_ignore_ascii_case(s, "network.ping") {
            Some(MetricCategory::NetworkPing)
        } else if str_eq_ignore_ascii_case(s, "network.http") {
            Some(MetricCategory::NetworkHttp)
        } else if str_eq_ignore_ascii_case(s, "crypto") {
            Some(MetricCategory::Crypto)
        } else if str_eq_ignore_ascii_case(s, "polymarket") {
            Some(MetricCategory::Polymarket)
        } else if str_eq_ignore_ascii_case(s, "stock") {
            Some(MetricCategory::Stock)
        } else if str_eq_ignore_ascii_case(s, "custom") {
            Some(MetricCategory::Custom)
        } else {
            proof {
                assert forall|c: MetricCategory| !eq_ignore_ascii_case(s@, c.name()) by {
                    match c {
                        MetricCategory::NetworkTcp => {},
                        MetricCategory::NetworkPing => {},
                        MetricCategory::NetworkHttp => {},
                        MetricCategory::Crypto => {},
                        MetricCategory::Polymarket => {},
                        MetricCategory::Stock => {},
                        MetricCategory::Custom => {},
                    }
                }
            }
            None
        }
    }
}

impl std::str::FromStr for MetricCategory {
    type Err = UnknownVariant;

    fn from_str(s: &str) -> (r: Result<MetricCategory, UnknownVariant>)
        ensures
            r matches Ok(c) ==> eq_ignore_ascii_case(s@, c.name()),
            r is Err ==> forall|c: MetricCategory| !(eq_ignore_ascii_case(s@, c.name())),
    {
        match MetricCategory::parse(s) {
            Some(c) => Ok(c),
            None => Err(UnknownVariant),
        }
    }
}

/// Where an event comes from.
#[derive(Clone, Copy, Debug, PartialEq, Eq, Hash, Structural)]
pub enum EventSource {
    /// TCP collector events.
    CollectorNetworkTcp,
    /// Ping collector events.
    CollectorNetworkPing,
    /// HTTP collector events.
    CollectorNetworkHttp,
    /// Collector registry events.
    CollectorRegistry,
    /// Rule engine events.
    RuleEngine,
    /// System events.
    System,
    /// Events of any other source.
    Other,
}

impl EventSource {
    /// The textual name of the variant.
    pub open spec fn name(self) -> Seq<char> {
        match self {
            EventSource::CollectorNetworkTcp => "collector.network.tcp"@,
            EventSource::CollectorNetworkPing => "collector.network.ping"@,
            EventSource::CollectorNetworkHttp => "collector.network.http"@,
            EventSource::CollectorRegistry => "collector_registry"@,
            EventSource::RuleEngine => "rule.engine"@,
            EventSource::System => "system"@,
            EventSource::Other => "other"@,
        }
    }

    /// The textual name of the variant.
    pub fn as_ref(&self) -> (s: &'static str)
        ensures
            s@ == self.name(),
    {
        match self {
            EventSource::CollectorNetworkTcp => "collector.network.tcp",
            EventSource::CollectorNetworkPing => "collector.network.ping",
            EventSource::CollectorNetworkHttp => "collector.network.http",
            EventSource::CollectorRegistry => "collector_registry",
            EventSource::RuleEngine => "rule.engine",
            EventSource::System => "system",
            EventSource::Other => "other",
        }
    }

    /// The source named `s`, compared without regard to ASCII case.
    pub fn parse(s: &str) -> (r: Option<EventSource>)
        ensures
            r matches Some(c) ==> eq_ignore_ascii_case(s@, c.name()),
            r is None ==> forall|c: EventSource| !eq_ignore_ascii_case(s@, c.name()),
    {
        if str_eq_ignore_ascii_case(s, "collector.network.tcp") {
            Some(EventSource::CollectorNetworkTcp)
        } else if str_eq_ignore_ascii_case(s, "collector.network.ping") {
            Some(EventSource::CollectorNetworkPing)
        } else if str_eq_ignore_ascii_case(s, "collector.network.http") {
            Some(EventSource::CollectorNetworkHttp)
        } else if str_eq_ignore_ascii_case(s, "collector_registry") {
            Some(EventSource::CollectorRegistry)
        } else if str_eq_ignore_ascii_case(s, "rule.engine") {
            Some(EventSource::RuleEngine)
        } else if str_eq_ignore_ascii_case(s, "system") {
            Some(EventSource::System)
        } else if str_eq_ignore_ascii_case(s, "other") {
            Some(EventSource::Other)
        } else {
            proof {
                assert forall|c: EventSource| !eq_ignore_ascii_case(s@, c.name()) by {
                    match c {
                        EventSource::CollectorNetworkTcp => {},
                        EventSource::CollectorNetworkPing => {},
                        EventSource::CollectorNetworkHttp => {},
                        EventSource::CollectorRegistry => {},
                        EventSource::RuleEngine => {},
                        EventSource::System => {},
                        EventSource::Other => {},
                    }
                }
            }
            None
        }
    }
}

impl std::str::FromStr for EventSource {
    type Err = UnknownVariant;

    fn from_str(s: &str) -> (r: Result<EventSource, UnknownVariant>)
        ensures
            r matches Ok(c) ==> eq_ignore_ascii_case(s@, c.name()),
            r is Err ==> forall|c: EventSource| !(eq_ignore_ascii_case(s@, c.name())),
    {
        match EventSource::parse(s) {
            Some(c) => Ok(c),
            None => Err(UnknownVariant),
        }
    }
}

/// What kind of event a record is.
#[derive(Clone, Copy, Debug, PartialEq, Eq, Hash, Structural)]
pub enum EventKind {
    /// Rule-triggered notification.
    Alert,
    /// Collector or system error.
    Error,
    /// Internal system event.
    System,
    /// Audit trail entry.
    Audit,
}

impl EventKind {
    /// The textual name of the variant.
    pub open spec fn name(self) -> Seq<char> {
        match self {
            EventKind::Alert => "alert"@,
            EventKind::Error => "error"@,
            EventKind::System => "system"@,
            EventKind::Audit => "audit"@,
        }
    }

    /// The textual name of the variant.
    pub fn as_ref(&self) -> (s: &'static str)
        ensures
            s@ == self.name(),
    {
        match self {
            EventKind::Alert => "alert",
            EventKind::Error => "error",
            EventKind::System => "system",
            EventKind::Audit => "audit",
        }
    }

    /// The kind named `s`, compared without regard to ASCII case.
    pub fn parse(s: &str) -> (r: Option<EventKind>)
        ensures
            r matches Some(c) ==> eq_ignore_ascii_case(s@, c.name()),
            r is None ==> forall|c: EventKind| !eq_ignore_ascii_case(s@, c.name()),
    {
        if str_eq_ignore_ascii_case(s, "alert") {
            Some(EventKind::Alert)
        } else if str_eq_ignore_ascii_case(s, "error") {
            Some(EventKind::Error)
        } else if str_eq_ignore_ascii_case(s, "system") {
            Some(EventKind::System)
        } else if str_eq_ignore_ascii_case(s, "audit") {
            Some(EventKind::Audit)
        } else {
            proof {
                assert forall|c: EventKind| !eq_ignore_ascii_case(s@, c.name()) by {
                    match c {
                        EventKind::Alert => {},
                        EventKind::Error => {},
                        EventKind::System => {},
                        EventKind::Audit => {},
                    }
                }
            }
            None
        }
    }
}

impl std::str::FromStr for EventKind {
    type Err = UnknownVariant;

    fn from_str(s: &str) -> (r: Result<EventKind, UnknownVariant>)
        ensures
            r matches Ok(c) ==> eq_ignore_ascii_case(s@, c.name()),
            r is Err ==> forall|c: EventKind| !(eq_ignore_ascii_case(s@, c.name())),
    {
        match EventKind::parse(s) {
            Some(c) => Ok(c),
            None => Err(UnknownVariant),
        }
    }
}

/// How severe an event is.
#[derive(Clone, Copy, Debug, PartialEq, Eq, Hash, Structural)]
pub enum EventSeverity {
    /// Verbose diagnostic information.
    Debug,
    /// Normal operational information.
    Info,
    /// Potential issue requiring attention.
    Warn,
    /// Error condition requiring investigation.
    Error,
    /// Severe failure requiring immediate action.
    Critical,
}

impl EventSeverity {
    /// The textual name of the variant.
    pub open spec fn name(self) -> Seq<char> {
        match self {
            EventSeverity::Debug => "debug"@,
            EventSeverity::Info => "info"@,
            EventSeverity::Warn => "warn"@,
            EventSeverity::Error => "error"@,
            EventSeverity::Critical => "critical"@,
        }
    }

    /// The textual name of the variant.
    pub fn as_ref(&self) -> (s: &'static str)
        ensures
            s@ == self.name(),
    {
        match self {
            EventSeverity::Debug => "debug",
            EventSeverity::Info => "info",
            EventSeverity::Warn => "warn",
            EventSeverity::Error => "error",
            EventSeverity::Critical => "critical",
        }
    }

    /// The severity named `s`, compared without regard to ASCII case.
    pub fn parse(s: &str) -> (r: Option<EventSeverity>)
        ensures
            r matches Some(c) ==> eq_ignore_ascii_case(s@, c.name()),
            r is None ==> forall|c: EventSeverity| !eq_ignore_ascii_case(s@, c.name()),
    {
        if str_eq_ignore_ascii_case(s, "debug") {
            Some(EventSeverity::Debug)
        } else if str_eq_ignore_ascii_case(s, "info") {
            Some(EventSeverity::Info)
        } else if str_eq_ignore_ascii_case(s, "warn") {
            Some(EventSeverity::Warn)
        } else if str_eq_ignore_ascii_case(s, "error") {
            Some(EventSeverity::Error)
        } else if str_eq_ignore_ascii_case(s, "critical") {
            Some(EventSeverity::Critical)
        } else {
            proof {
                assert forall|c: EventSeverity| !eq_ignore_ascii_case(s@, c.name()) by {
                    match c {
                        EventSeverity::Debug => {},
                        EventSeverity::Info => {},
                        EventSeverity::Warn => {},
                        EventSeverity::Error => {},
                        EventSeverity::Critical => {},
                    }
                }
            }
            None
        }
    }
}

impl std::str::FromStr for EventSeverity {
    type Err = UnknownVariant;

    fn from_str(s: &str) -> (r: Result<EventSeverity, UnknownVariant>)
        ensures
            r matches Ok(c) ==> eq_ignore_ascii_case(s@, c.name()),
            r is Err ==> forall|c: EventSeverity| !(eq_ignore_ascii_case(s@, c.name())),
    {
        match EventSeverity::parse(s) {
            Some(c) => Ok(c),
            None => Err(UnknownVariant),
        }
    }
}

/// Tags that identify a metric series.
pub type StaticTags = TagMap;

/// Tags that annotate a single metric value.
pub type DynamicTags = TagMap;

/// Flat key/value payload of an event.
pub type EventPayload = TagMap;

/// The text `key=value` of one tag.
pub open spec fn tag_text(e: (Seq<char>, Seq<char>)) -> Seq<char> {
    e.0 + "="@ + e.1
}

/// The tags joined with `,` in the order given.
pub open spec fn tags_text(s: Seq<(Seq<char>, Seq<char>)>) -> Seq<char>
    decreases s.len(),
{
    if s.len() == 0 {
        Seq::empty()
    } else if s.len() == 1 {
        tag_text(s[0])
    } else {
        tags_text(s.drop_last()) + ","@ + tag_text(s.last())
    }
}

/// The text that identifies a series:
/// `category|name|target|k1=v1,k2=v2,...` with tags in key order.
pub open spec fn series_key(
    category: MetricCategory,
    name: Seq<char>,
    target: Seq<char>,
    tags: Seq<(Seq<char>, Seq<char>)>,
) -> Seq<char> {
    category.name() + "|"@ + name + "|"@ + target + "|"@ + tags_text(tags)
}

/// The 64-bit xxHash of `data` with seed `seed`.
pub uninterp spec fn xxh64_value(data: Seq<u8>, seed: u64) -> u64;

/// Calls `xxhash_rust::xxh64::xxh64`; the result is named `xxh64_value`
/// of the bytes and the seed.
#[verifier::external_body]
fn xxh64_digest(data: &[u8], seed: u64) -> (h: u64)
    ensures
        h == xxh64_value(data@, seed),
{
    xxhash_rust::xxh64::xxh64(data, seed)
}

/// The identifier of the series with the given identity:
/// xxHash64 (seed 0) of the UTF-8 bytes of its `series_key`.
pub open spec fn series_id_of(
    category: MetricCategory,
    name: Seq<char>,
    target: Seq<char>,
    tags: Seq<(Seq<char>, Seq<char>)>,
) -> u64 {
    xxh64_value(encode_utf8(series_key(category, name, target, tags)), 0)
}

/// The series identifier depends on the tags only through the map they
/// form: two tag maps with the same pairs give the same identifier,
/// whatever order their pairs were inserted in.
pub proof fn lemma_series_id_tag_order_independent(
    category: MetricCategory,
    name: Seq<char>,
    target: Seq<char>,
    a: TagMap,
    b: TagMap,
)
    requires
        sorted_entries(a.entries()),
        sorted_entries(b.entries()),
        a@ == b@,
    ensures
        series_id_of(category, name, target, a.entries()) == series_id_of(
            category,
            name,
            target,
            b.entries(),
        ),
{
    lemma_sorted_entries_determined(a.entries(), b.entries());
}

/// Metric series: the static identity of a metric.
///
/// The `series_id` is the xxHash64 of (category, name, target, sorted static tags).
#[derive(Debug)]
pub struct MetricSeries {
    /// Unique identifier, `series_id_of` the other identity fields.
    pub series_id: u64,
    /// Metric category.
    pub category: MetricCategory,
    /// Metric name (e.g. "latency", "price").
    pub name: String,
    /// Target identifier (e.g. "127.0.0.1:6379", "BTC/USD").
    pub target: String,
    /// Static tags for identity.
    pub static_tags: StaticTags,
    /// Human-readable description.
    pub description: Option<String>,
    /// First seen, in microseconds since the Unix epoch.
    pub created_at: i64,
    /// Last updated, in microseconds since the Unix epoch.
    pub updated_at: i64,
}

impl MetricSeries {
    /// Compute the identifier of the series with the given identity.
    ///
    /// The identifier is the xxHash64 (seed 0) of
    /// `category|name|target|k1=v1,k2=v2,...`, tags sorted by key.
    pub fn compute_series_id(
        category: MetricCategory,
        name: &str,
        target: &str,
        static_tags: &StaticTags,
    ) -> (id: u64)
        ensures
            id == series_id_of(category, name@, target@, static_tags.entries()),
    {
        let mut key = String::from_str(category.as_ref());
        key.append("|");
        key.append(name);
        key.append("|");
        key.append(target);
        key.append("|");
        let ghost prefix = key@;
        let n = static_tags.len();
        for i in 0..n
            invariant
                n == static_tags.entries().len(),
                key@ == prefix + tags_text(static_tags.entries().take(i as int)),
        {
            let ghost e = static_tags.entries();
            let ghost before = key@;
            if i > 0 {
                key.append(",");
            }
            key.append(static_tags.key_at(i).as_str());
            key.append("=");
            key.append(static_tags.value_at(i).as_str());
            proof {
                let t = e.take(i + 1);
                assert(t.drop_last() =~= e.take(i as int));
                assert(t.last() == e[i as int]);
                if i == 0 {
                    assert(tags_text(e.take(0)) =~= Seq::<char>::empty());
                    assert(key@ =~= prefix + tag_text(e[0]));
                } else {
                    assert(key@ =~= before + ","@ + tag_text(e[i as int]));
                }
                assert(key@ =~= prefix + tags_text(t));
            }
        }
        proof {
            assert(static_tags.entries().take(n as int) =~= static_tags.entries());
        }
        xxh64_digest(key.as_str().as_bytes(), 0)
    }

    /// Create a series with its identifier computed from its identity.
    pub fn new(
        category: MetricCategory,
        name: String,
        target: String,
        static_tags: StaticTags,
        description: Option<String>,
    ) -> (s: MetricSeries)
        ensures
            s.series_id == series_id_of(category, name@, target@, static_tags.entries()),
            s.category == category,
            s.name@ == name@,
            s.target@ == target@,
            s.static_tags.entries() == static_tags.entries(),
            s.description == description,
            s.created_at == s.updated_at,
    {
        let series_id = MetricSeries::compute_series_id(
            category,
            name.as_str(),
            target.as_str(),
            &static_tags,
        );
        let now = now_micros();
        MetricSeries {
            series_id,
            category,
            name,
            target,
            static_tags,
            description,
            created_at: now,
            updated_at: now,
        }
    }
}

/// An event record: alerts, errors, system and audit events.
#[derive(Debug)]
pub struct Event {
    /// Identifier assigned by the database (`None` before insertion).
    pub id: Option<i64>,
    /// Event time, in microseconds since the Unix epoch.
    pub ts: i64,
    /// Event source.
    pub source: EventSource,
    /// Event kind.
    pub kind: EventKind,
    /// Event severity.
    pub severity: EventSeverity,
    /// Short human-readable message.
    pub message: String,
    /// Flat key/value payload.
    pub payload: EventPayload,
}

impl Event {
    /// Create an event with an empty payload, stamped with the current time.
    pub fn new(source: EventSource, kind: EventKind, severity: EventSeverity, message: String) -> (e: Event)
        ensures
            e.id is None,
            e.source == source,
            e.kind == kind,
            e.severity == severity,
            e.message@ == message@,
            e.payload@ == Map::<Seq<char>, Seq<char>>::empty(),
            sorted_entries(e.payload.entries()),
    {
        Event {
            id: None,
            ts: now_micros(),
            source,
            kind,
            severity,
            message,
            payload: TagMap::new(),
        }
    }

    /// Add one payload pair (replacing the value of an existing key).
    pub fn with_payload(self, key: String, value: String) -> (e: Event)
        ensures
            e.payload@ == self.payload@.insert(key@, value@),
            sorted_entries(e.payload.entries()),
            e.id == self.id,
            e.ts == self.ts,
            e.source == self.source,
            e.kind == self.kind,
            e.severity == self.severity,
            e.message == self.message,
    {
        let mut e = self;
        e.payload.insert(key, value);
        e
    }

    /// Add several payload pairs, replacing the values of existing keys.
    pub fn with_payloads(self, entries: EventPayload) -> (e: Event)
        ensures
            e.payload@ == self.payload@.union_prefer_right(entries@),
            sorted_entries(e.payload.entries()),
            e.id == self.id,
            e.ts == self.ts,
            e.source == self.source,
            e.kind == self.kind,
            e.severity == self.severity,
            e.message == self.message,
    {
        let mut e = self;
        e.payload.extend(entries);
        e
    }
}

} // verus!
