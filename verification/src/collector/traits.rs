//! Core collector types: schedules, errors and the configuration trait.
use vstd::prelude::*;
use crate::storage::error::{StorageError, storage_error_text, join_text};
use crate::time::Duration;
use crate::ipaddr::{is_ip_address, is_ip_text};

verus! {

/// The minimum interval between two collections: one second.
pub open spec fn min_interval_nanos() -> nat {
    1_000_000_000
}

/// An interval, in nanoseconds, raised to the minimum where it falls short.
pub open spec fn clamped_interval(nanos: nat) -> nat {
    if nanos < min_interval_nanos() {
        min_interval_nanos()
    } else {
        nanos
    }
}

/// Errors that can occur during collection.
#[derive(Debug)]
pub enum CollectorError {
    /// Network I/O error (the I/O error's message).
    Network(String),
    /// Timeout elapsed.
    Timeout,
    /// Failed to send metric to storage.
    Storage(StorageError),
    /// Configuration error.
    Config(String),
    /// Scheduler error.
    Scheduler(String),
}

/// The message of a collector error, as it is displayed.
pub open spec fn collector_error_text(e: CollectorError) -> Seq<char> {
    match e {
        CollectorError::Network(m) => "network error: "@ + m@,
        CollectorError::Timeout => "timeout elapsed"@,
        CollectorError::Storage(s) => "failed to send metric: "@ + storage_error_text(s),
        CollectorError::Config(m) => "config error: "@ + m@,
        CollectorError::Scheduler(m) => "scheduler error: "@ + m@,
    }
}

impl CollectorError {
    /// The message of the error.
    pub fn to_string(&self) -> (s: String)
        ensures
            s@ == collector_error_text(*self),
    {
        match self {
            CollectorError::Network(m) => join_text("network error: ", m.as_str()),
            CollectorError::Timeout => String::from_str("timeout elapsed"),
            CollectorError::Storage(e) => {
                let inner = e.to_string();
                join_text("failed to send metric: ", inner.as_str())
            },
            CollectorError::Config(m) => join_text("config error: ", m.as_str()),
            CollectorError::Scheduler(m) => join_text("scheduler error: ", m.as_str()),
        }
    }
}

impl From<StorageError> for CollectorError {
    fn from(e: StorageError) -> (r: CollectorError)
        ensures
            r == CollectorError::Storage(e),
    {
        CollectorError::Storage(e)
    }
}

impl vstd::std_specs::convert::FromSpecImpl<StorageError> for CollectorError {
    open spec fn obeys_from_spec() -> bool {
        true
    }

    open spec fn from_spec(e: StorageError) -> CollectorError {
        CollectorError::Storage(e)
    }
}

/// Schedule for collector execution: a fixed interval or a cron expression.
#[derive(Debug, Clone)]
pub enum Schedule {
    /// Fixed interval between collections (at least one second).
    Interval(Duration),
    /// Cron expression (6 fields: `sec min hour day month weekday`).
    Cron(String),
}

/// Whether the `cron` crate accepts `expr`, and its error message if not.
pub uninterp spec fn cron_parse_result(expr: Seq<char>) -> Result<(), Seq<char>>;

/// Calls `<cron::Schedule as FromStr>::from_str`; whether it succeeds, and
/// the displayed error when it does not, are named `cron_parse_result`
/// of the expression.
#[verifier::external_body]
pub(crate) fn cron_parse(expr: &str) -> (r: Result<(), String>)
    ensures
        match (r, cron_parse_result(expr@)) {
            (Ok(()), Ok(())) => true,
            (Err(m), Err(n)) => m@ == n,
            _ => false,
        },
{
    match <cron::Schedule as std::str::FromStr>::from_str(expr) {
        Ok(_) => Ok(()),
        Err(e) => Err(e.to_string()),
    }
}

impl Schedule {
    /// An interval schedule; intervals shorter than one second become one second.
    pub fn interval(duration: Duration) -> (s: Schedule)
        ensures
            s matches Schedule::Interval(d) && d@ == clamped_interval(duration@),
    {
        let min = Duration::from_secs(1);
        if duration.is_shorter_than(&min) {
            Schedule::Interval(min)
        } else {
            Schedule::Interval(duration)
        }
    }

    /// A cron schedule, validated by the `cron` crate.
    ///
    /// # Errors
    /// `CollectorError::Config` with `invalid cron expression: <reason>` when
    /// the expression is rejected.
    pub fn cron(expr: &str) -> (r: Result<Schedule, CollectorError>)
        ensures
            cron_parse_result(expr@) is Ok <==> r is Ok,
            r matches Ok(s) ==> s matches Schedule::Cron(e) && e@ == expr@,
            r matches Err(e) ==> e matches CollectorError::Config(m) && m@
                == "invalid cron expression: "@ + cron_parse_result(expr@)->Err_0,
    {
        match cron_parse(expr) {
            Ok(()) => Ok(Schedule::Cron(String::from_str(expr))),
            Err(m) => Err(CollectorError::Config(join_text("invalid cron expression: ", m.as_str()))),
        }
    }
}

/// What `Debug` shows for a `std::time::Duration` of `nanos` nanoseconds
/// (such as `30s`, `1.5s` or `100ms`).
pub uninterp spec fn duration_debug_text(nanos: nat) -> Seq<char>;

/// Formats the span as `std::time::Duration`'s `Debug` does; the text is
/// named `duration_debug_text` of the span.
#[verifier::external_body]
fn duration_debug(d: Duration) -> (s: String)
    ensures
        s@ == duration_debug_text(d@),
{
    format!("{:?}", std::time::Duration::new(d.as_secs(), d.subsec_nanos()))
}

impl Schedule {
    /// A description of the schedule: `every <span>` or `cron: <expr>`.
    pub fn describe(&self) -> (s: String)
        ensures
            s@ == match self {
                Schedule::Interval(d) => "every "@ + duration_debug_text(d@),
                Schedule::Cron(e) => "cron: "@ + e@,
            },
    {
        match self {
            Schedule::Interval(d) => {
                let text = duration_debug(*d);
                join_text("every ", text.as_str())
            },
            Schedule::Cron(e) => join_text("cron: ", e.as_str()),
        }
    }
}

/// Configuration trait for collectors.
pub trait CollectorConfig {
    /// Unique identifier for this collector instance.
    fn name(&self) -> &str;

    /// Execution schedule (interval or cron).
    fn schedule(&self) -> Schedule;

    /// Timeout for each probe operation.
    fn timeout(&self) -> Duration;
}

/// A host that is not an IP address.
#[derive(Debug)]
pub struct IpValidationError {
    /// The rejected host.
    pub address: String,
}

impl IpValidationError {
    /// The message of the error: `invalid IP address: '<address>'`.
    pub fn to_string(&self) -> (s: String)
        ensures
            s@ == "invalid IP address: '"@ + self.address@ + "'"@,
    {
        let mut s = String::from_str("invalid IP address: '");
        s.append(self.address.as_str());
        s.append("'");
        s
    }
}

/// Check that `host` is an IP address.
pub fn validate_ip_address(host: &str) -> (r: Result<(), IpValidationError>)
    ensures
        r is Ok <==> is_ip_text(host@),
        r matches Err(e) ==> e.address@ == host@,
{
    if is_ip_address(host) {
        Ok(())
    } else {
        Err(IpValidationError { address: String::from_str(host) })
    }
}

} // verus!
