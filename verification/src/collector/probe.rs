//! What the collectors record: the identity of each probe's metric series,
//! and the value recorded for each outcome of a probe.
use vstd::prelude::*;
use crate::collector::http::{HttpConfig, body_view, pairs_view, response_success};
use crate::collector::ping::PingConfig;
use crate::collector::tcp::TcpConfig;
use crate::storage::types::{MetricCategory, MetricSeries, series_id_of};
use crate::tags::{TagMap, sorted_entries};
use crate::text::{decimal, u128_text};
use crate::time::Duration;

verus! {

broadcast use vstd::string::group_string_axioms;

/// Which latency a probe reports.
#[derive(Clone, Copy, Debug, PartialEq, Eq, Structural)]
pub enum Latency {
    /// The measured time of the probe.
    Measured,
    /// The marker value of a failed probe.
    Failure,
}

/// The value a collector records for one probe: success, which latency,
/// the duration of the probe in milliseconds, and the dynamic tags. The
/// unit is always milliseconds.
#[derive(Debug)]
pub struct ProbeRecord {
    /// Whether the probe succeeded.
    pub success: bool,
    /// Which latency to report.
    pub latency: Latency,
    /// Duration of the probe in milliseconds.
    pub duration_ms: u32,
    /// Dynamic tags.
    pub tags: TagMap,
}

/// Outcome of a TCP connection attempt.
#[derive(Clone, Copy, Debug, PartialEq, Eq, Structural)]
pub enum ConnectOutcome {
    /// The connection was established.
    Connected,
    /// The connection failed.
    Failed,
    /// The timeout elapsed first.
    TimedOut,
}

/// Outcome of a ping probe.
#[derive(Clone, Copy, Debug, PartialEq, Eq, Structural)]
pub enum PingOutcome {
    /// The host name did not resolve.
    Unresolved,
    /// No ICMP client could be created.
    NoClient,
    /// An echo reply came back.
    Replied,
    /// The ping failed.
    Failed,
    /// The timeout elapsed first.
    TimedOut,
}

/// Outcome of an HTTP request.
#[derive(Clone, Copy, Debug, PartialEq, Eq, Structural)]
pub enum HttpOutcome {
    /// A response came back with this status; `success` is whether it
    /// met the success conditions.
    Response { status: u16, success: bool },
    /// The request failed.
    Failed,
    /// The timeout elapsed first.
    TimedOut,
}

/// The duration of a probe in whole milliseconds, at most `u32::MAX`.
pub open spec fn clamped_millis(elapsed: nat) -> u32 {
    if elapsed / 1_000_000 <= u32::MAX {
        (elapsed / 1_000_000) as u32
    } else {
        u32::MAX
    }
}

/// The duration of a probe in whole milliseconds, at most `u32::MAX`.
pub fn duration_ms_of(elapsed: Duration) -> (ms: u32)
    ensures
        ms == clamped_millis(elapsed@),
{
    let m = elapsed.as_millis();
    if m <= 4_294_967_295 {
        m as u32
    } else {
        4_294_967_295
    }
}

/// The `interval` tag: whole seconds followed by `s`.
pub open spec fn interval_text(interval: nat) -> Seq<char> {
    decimal(interval / 1_000_000_000) + "s"@
}

/// The `interval` tag: whole seconds followed by `s`, such as `30s`.
pub fn interval_tag(interval: Duration) -> (s: String)
    ensures
        s@ == interval_text(interval@),
{
    let mut s = u128_text(interval.as_secs() as u128);
    s.append("s");
    s
}

impl TcpConfig {
    /// The probed target: `host:port`.
    pub fn target(&self) -> (t: String)
        ensures
            t@ == self.host@ + ":"@ + decimal(self.port as nat),
    {
        let mut t = String::from_str(self.host.as_str());
        t.append(":");
        let port = u128_text(self.port as u128);
        t.append(port.as_str());
        t
    }

    /// The identifier of the probe's metric series.
    pub fn series_id(&self) -> (id: u64)
        ensures
            id == series_id_of(
                MetricCategory::NetworkTcp,
                self.name@,
                self.host@ + ":"@ + decimal(self.port as nat),
                self.tags.entries(),
            ),
    {
        let target = self.target();
        MetricSeries::compute_series_id(MetricCategory::NetworkTcp, self.name.as_str(), target.as_str(), &self.tags)
    }

    /// The probe's metric series.
    pub fn metric_series(&self) -> (s: MetricSeries)
        ensures
            s.series_id == series_id_of(
                MetricCategory::NetworkTcp,
                self.name@,
                self.host@ + ":"@ + decimal(self.port as nat),
                self.tags.entries(),
            ),
            s.category == MetricCategory::NetworkTcp,
            s.name@ == self.name@,
            s.target@ == self.host@ + ":"@ + decimal(self.port as nat),
            s.static_tags.entries() == self.tags.entries(),
            s.description == self.description,
    {
        let tags = self.tags.copied();
        MetricSeries::new(MetricCategory::NetworkTcp, self.name.clone(), self.target(), tags, self.description.clone())
    }

    /// The value recorded for a connection attempt that took `elapsed`.
    pub fn record(&self, outcome: ConnectOutcome, elapsed: Duration) -> (r: ProbeRecord)
        ensures
            r.success == (outcome == ConnectOutcome::Connected),
            r.latency == if outcome == ConnectOutcome::Connected {
                Latency::Measured
            } else {
                Latency::Failure
            },
            r.duration_ms == clamped_millis(elapsed@),
            r.tags@ == map![ "interval"@ => interval_text(self.interval@) ],
            sorted_entries(r.tags.entries()),
    {
        let mut tags = TagMap::new();
        tags.insert(String::from_str("interval"), interval_tag(self.interval));
        let success = outcome == ConnectOutcome::Connected;
        ProbeRecord {
            success,
            latency: if success {
                Latency::Measured
            } else {
                Latency::Failure
            },
            duration_ms: duration_ms_of(elapsed),
            tags,
        }
    }
}

impl PingConfig {
    /// The identifier of the probe's metric series (its target is the host).
    pub fn series_id(&self) -> (id: u64)
        ensures
            id == series_id_of(MetricCategory::NetworkPing, self.name@, self.host@, self.tags.entries()),
    {
        MetricSeries::compute_series_id(MetricCategory::NetworkPing, self.name.as_str(), self.host.as_str(), &self.tags)
    }

    /// The probe's metric series.
    pub fn metric_series(&self) -> (s: MetricSeries)
        ensures
            s.series_id == series_id_of(MetricCategory::NetworkPing, self.name@, self.host@, self.tags.entries()),
            s.category == MetricCategory::NetworkPing,
            s.name@ == self.name@,
            s.target@ == self.host@,
            s.static_tags.entries() == self.tags.entries(),
            s.description == self.description,
    {
        MetricSeries::new(MetricCategory::NetworkPing, self.name.clone(), self.host.clone(), self.static_tags(), self.description.clone())
    }

    /// The value recorded for a ping that took `elapsed`. When the host
    /// does not resolve or no client can be made, the probe fails at once
    /// with an `error` tag.
    pub fn record(&self, outcome: PingOutcome, elapsed: Duration) -> (r: ProbeRecord)
        ensures
            r.success == (outcome == PingOutcome::Replied),
            r.latency == if outcome == PingOutcome::Replied {
                Latency::Measured
            } else {
                Latency::Failure
            },
            r.duration_ms == match outcome {
                PingOutcome::Unresolved | PingOutcome::NoClient => 0,
                _ => clamped_millis(elapsed@),
            },
            r.tags@ == match outcome {
                PingOutcome::Unresolved => map![ "error"@ => "dns_resolution_failed"@, "interval"@ => interval_text(self.interval@) ],
                PingOutcome::NoClient => map![ "error"@ => "client_creation_failed"@, "interval"@ => interval_text(self.interval@) ],
                _ => map![ "interval"@ => interval_text(self.interval@) ],
            },
            sorted_entries(r.tags.entries()),
    {
        let mut tags = TagMap::new();
        let duration_ms = match outcome {
            PingOutcome::Unresolved => {
                tags.insert(String::from_str("error"), String::from_str("dns_resolution_failed"));
                0
            },
            PingOutcome::NoClient => {
                tags.insert(String::from_str("error"), String::from_str("client_creation_failed"));
                0
            },
            _ => duration_ms_of(elapsed),
        };
        tags.insert(String::from_str("interval"), interval_tag(self.interval));
        let success = outcome == PingOutcome::Replied;
        proof {
            assert(tags@ =~= match outcome {
                PingOutcome::Unresolved => map![ "error"@ => "dns_resolution_failed"@, "interval"@ => interval_text(self.interval@) ],
                PingOutcome::NoClient => map![ "error"@ => "client_creation_failed"@, "interval"@ => interval_text(self.interval@) ],
                _ => map![ "interval"@ => interval_text(self.interval@) ],
            });
        }
        ProbeRecord {
            success,
            latency: if success {
                Latency::Measured
            } else {
                Latency::Failure
            },
            duration_ms,
            tags,
        }
    }
}

/// Whether the response body has to be read: a body condition, or
/// metrics to extract.
pub open spec fn body_needed(c: HttpConfig) -> bool {
    (c.success_conditions matches Some(sc) && (sc.body_contains is Some || sc.body_jsonpath is Some))
        || c.extract_metrics@.len() > 0
}

impl HttpConfig {
    /// The identifier of the probe's metric series (its target is the URL).
    pub fn series_id(&self) -> (id: u64)
        ensures
            id == series_id_of(MetricCategory::NetworkHttp, self.name@, self.url@, self.tags.entries()),
    {
        MetricSeries::compute_series_id(MetricCategory::NetworkHttp, self.name.as_str(), self.url.as_str(), &self.tags)
    }

    /// The probe's metric series.
    pub fn metric_series(&self) -> (s: MetricSeries)
        ensures
            s.series_id == series_id_of(MetricCategory::NetworkHttp, self.name@, self.url@, self.tags.entries()),
            s.category == MetricCategory::NetworkHttp,
            s.name@ == self.name@,
            s.target@ == self.url@,
            s.static_tags.entries() == self.tags.entries(),
            s.description == self.description,
    {
        let tags = self.tags.copied();
        MetricSeries::new(MetricCategory::NetworkHttp, self.name.clone(), self.url.clone(), tags, self.description.clone())
    }

    /// Whether the response body has to be read.
    pub fn needs_body(&self) -> (b: bool)
        ensures
            b == body_needed(*self),
    {
        let by_condition = match &self.success_conditions {
            Some(sc) => sc.body_contains.is_some() || sc.body_jsonpath.is_some(),
            None => false,
        };
        by_condition || self.extract_metrics.len() > 0
    }

    /// The value recorded for a request that took `elapsed`.
    pub fn record(&self, outcome: HttpOutcome, elapsed: Duration) -> (r: ProbeRecord)
        ensures
            r.success == (outcome matches HttpOutcome::Response { success, .. } && success),
            r.latency == if outcome is Response {
                Latency::Measured
            } else {
                Latency::Failure
            },
            r.duration_ms == clamped_millis(elapsed@),
            r.tags@ == match outcome {
                HttpOutcome::Response { status, .. } => map![ "method"@ => self.method.name(), "status_code"@ => decimal(status as nat) ],
                _ => map![ "method"@ => self.method.name() ],
            },
            sorted_entries(r.tags.entries()),
    {
        let mut tags = TagMap::new();
        tags.insert(String::from_str("method"), String::from_str(self.method.as_str()));
        let (success, latency) = match outcome {
            HttpOutcome::Response { status, success } => {
                tags.insert(String::from_str("status_code"), u128_text(status as u128));
                (success, Latency::Measured)
            },
            _ => (false, Latency::Failure),
        };
        proof {
            assert(tags@ =~= match outcome {
                HttpOutcome::Response { status, .. } => map![ "method"@ => self.method.name(), "status_code"@ => decimal(status as nat) ],
                _ => map![ "method"@ => self.method.name() ],
            });
        }
        ProbeRecord { success, latency, duration_ms: duration_ms_of(elapsed), tags }
    }

    /// The value recorded for a response with `status`, `headers` and the
    /// body read (if any) that took `elapsed`. The body counts only where
    /// the probe needs one.
    pub fn response_record(
        &self,
        status: u16,
        headers: &Vec<(String, String)>,
        body: Option<&str>,
        elapsed: Duration,
    ) -> (r: ProbeRecord)
        ensures
            r.success == response_success(
                *self,
                status,
                pairs_view(headers@),
                if body_needed(*self) {
                    body_view(body)
                } else {
                    None
                },
            ),
            r.latency == Latency::Measured,
            r.duration_ms == clamped_millis(elapsed@),
            r.tags@ == map![ "method"@ => self.method.name(), "status_code"@ => decimal(status as nat) ],
            sorted_entries(r.tags.entries()),
    {
        let used = if self.needs_body() {
            body
        } else {
            None
        };
        let success = self.evaluate_success(status, headers, used);
        self.record(HttpOutcome::Response { status, success }, elapsed)
    }
}

} // verus!
