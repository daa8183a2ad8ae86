//! HTTP endpoint probe configuration and the rules that decide whether a
//! response counts as a success.
use vstd::prelude::*;
use crate::collector::traits::{CollectorConfig, CollectorError, Schedule, clamped_interval};
use crate::storage::error::join_text;
use crate::storage::types::StaticTags;
use crate::tags::{TagMap, sorted_entries};
use crate::text::{ascii_upper_text, is_ascii_text, lemma_ascii_upper_text_idempotent, str_eq, str_eq_ignore_ascii_case, eq_ignore_ascii_case};
use crate::time::Duration;

verus! {

/// A probe is enabled unless configured otherwise.
pub fn default_enabled() -> (b: bool)
    ensures
        b,
{
    true
}

/// The group a probe belongs to unless configured otherwise: `default`.
pub fn default_group() -> (g: String)
    ensures
        g@ == "default"@,
{
    String::from_str("default")
}

/// The request method unless configured otherwise: GET.
pub fn default_method() -> (m: HttpMethod)
    ensures
        m == HttpMethod::Get,
{
    HttpMethod::Get
}

/// The expected status code unless configured otherwise: 200.
pub fn default_expected_status() -> (s: u16)
    ensures
        s == 200,
{
    200
}

/// The request timeout unless configured otherwise: 10 seconds.
pub fn default_timeout() -> (d: Duration)
    ensures
        d@ == 10_000_000_000,
{
    Duration::from_secs(10)
}

/// The collection interval when none is configured: 30 seconds.
pub fn default_interval() -> (d: Duration)
    ensures
        d@ == 30_000_000_000,
{
    Duration::from_secs(30)
}

/// HTTP method for requests.
#[derive(Debug, Clone, Copy, PartialEq, Eq, Structural)]
pub enum HttpMethod {
    /// `GET`.
    Get,
    /// `POST`.
    Post,
    /// `HEAD`.
    Head,
    /// `PUT`.
    Put,
    /// `DELETE`.
    Delete,
    /// `OPTIONS`.
    Options,
    /// `PATCH`.
    Patch,
}

impl Default for HttpMethod {
    /// `GET`.
    fn default() -> (m: HttpMethod)
        ensures
            m == HttpMethod::Get,
    {
        HttpMethod::Get
    }
}

/// The full Unicode upper-case form of `s`.
pub uninterp spec fn upper_case_text(s: Seq<char>) -> Seq<char>;

/// Calls `str::to_uppercase`; the result is named `upper_case_text` of
/// the argument. On ASCII text, the Unicode upper case of each character
/// is its ASCII upper case, one character for one.
#[verifier::external_body]
fn to_upper_case(s: &str) -> (u: String)
    ensures
        u@ == upper_case_text(s@),
        is_ascii_text(s@) ==> u@ == ascii_upper_text(s@),
{
    s.to_uppercase()
}

impl HttpMethod {
    /// The method name in upper case.
    pub open spec fn name(self) -> Seq<char> {
        match self {
            HttpMethod::Get => "GET"@,
            HttpMethod::Post => "POST"@,
            HttpMethod::Head => "HEAD"@,
            HttpMethod::Put => "PUT"@,
            HttpMethod::Delete => "DELETE"@,
            HttpMethod::Options => "OPTIONS"@,
            HttpMethod::Patch => "PATCH"@,
        }
    }

    /// A method's name is ASCII text that upper-casing leaves unchanged.
    pub proof fn lemma_name_upper(m: HttpMethod)
        ensures
            is_ascii_text(m.name()),
            ascii_upper_text(m.name()) == m.name(),
    {
        reveal_strlit("GET");
        reveal_strlit("POST");
        reveal_strlit("HEAD");
        reveal_strlit("PUT");
        reveal_strlit("DELETE");
        reveal_strlit("OPTIONS");
        reveal_strlit("PATCH");
        assert(ascii_upper_text(m.name()) =~= m.name());
    }

    /// Parsing ASCII text gives what parsing its upper-case form gives:
    /// both pick the method whose name is the ASCII upper case of the text.
    pub proof fn lemma_parse_upper_case(s: Seq<char>, m: HttpMethod)
        requires
            is_ascii_text(s),
        ensures
            is_ascii_text(ascii_upper_text(s)),
            (ascii_upper_text(s) == m.name()) == (ascii_upper_text(ascii_upper_text(s)) == m.name()),
    {
        lemma_ascii_upper_text_idempotent(s);
    }

    /// Different methods have different names.
    pub proof fn lemma_name_injective(a: HttpMethod, b: HttpMethod)
        requires
            a.name() == b.name(),
        ensures
            a == b,
    {
        reveal_strlit("GET");
        reveal_strlit("POST");
        reveal_strlit("HEAD");
        reveal_strlit("PUT");
        reveal_strlit("DELETE");
        reveal_strlit("OPTIONS");
        reveal_strlit("PATCH");
        let n = a.name();
        match a {
            HttpMethod::Get => assert(n[0] == 'G' && n.len() == 3),
            HttpMethod::Post => assert(n[0] == 'P' && n.len() == 4),
            HttpMethod::Head => assert(n[0] == 'H'),
            HttpMethod::Put => assert(n[0] == 'P' && n.len() == 3),
            HttpMethod::Delete => assert(n[0] == 'D'),
            HttpMethod::Options => assert(n[0] == 'O'),
            HttpMethod::Patch => assert(n[0] == 'P' && n.len() == 5),
        }
        match b {
            HttpMethod::Get => assert(n[0] == 'G' && n.len() == 3),
            HttpMethod::Post => assert(n[0] == 'P' && n.len() == 4),
            HttpMethod::Head => assert(n[0] == 'H'),
            HttpMethod::Put => assert(n[0] == 'P' && n.len() == 3),
            HttpMethod::Delete => assert(n[0] == 'D'),
            HttpMethod::Options => assert(n[0] == 'O'),
            HttpMethod::Patch => assert(n[0] == 'P' && n.len() == 5),
        }
    }

    /// The method name in upper case.
    pub fn as_str(&self) -> (s: &'static str)
        ensures
            s@ == self.name(),
    {
        match self {
            HttpMethod::Get => "GET",
            HttpMethod::Post => "POST",
            HttpMethod::Head => "HEAD",
            HttpMethod::Put => "PUT",
            HttpMethod::Delete => "DELETE",
            HttpMethod::Options => "OPTIONS",
            HttpMethod::Patch => "PATCH",
        }
    }

    /// The method whose name is the upper-case form of `s`; a method's
    /// own name gives that method back. On ASCII text the upper case is
    /// the ASCII one.
    pub fn parse(s: &str) -> (r: Option<HttpMethod>)
        ensures
            r matches Some(m) ==> upper_case_text(s@) == m.name(),
            r is None ==> forall|m: HttpMethod| upper_case_text(s@) != m.name(),
            forall|m: HttpMethod| #[trigger] m.name() == s@ ==> r == Some(m),
            is_ascii_text(s@) ==> forall|m: HttpMethod| (r == Some(m)) == (ascii_upper_text(s@)
                == #[trigger] m.name()),
    {
        let u = to_upper_case(s);
        let u = u.as_str();
        let r = if str_eq(u, "GET") {
            Some(HttpMethod::Get)
        } else if str_eq(u, "POST") {
            Some(HttpMethod::Post)
        } else if str_eq(u, "HEAD") {
            Some(HttpMethod::Head)
        } else if str_eq(u, "PUT") {
            Some(HttpMethod::Put)
        } else if str_eq(u, "DELETE") {
            Some(HttpMethod::Delete)
        } else if str_eq(u, "OPTIONS") {
            Some(HttpMethod::Options)
        } else if str_eq(u, "PATCH") {
            Some(HttpMethod::Patch)
        } else {
            proof {
                assert forall|m: HttpMethod| upper_case_text(s@) != m.name() by {
                    match m {
                        HttpMethod::Get => {},
                        HttpMethod::Post => {},
                        HttpMethod::Head => {},
                        HttpMethod::Put => {},
                        HttpMethod::Delete => {},
                        HttpMethod::Options => {},
                        HttpMethod::Patch => {},
                    }
                }
            }
            None
        };
        proof {
            assert forall|m: HttpMethod| #[trigger] m.name() == s@ implies r == Some(m) by {
                HttpMethod::lemma_name_upper(m);
                if let Some(k) = r {
                    HttpMethod::lemma_name_injective(k, m);
                }
            }
            if is_ascii_text(s@) {
                assert forall|m: HttpMethod| (r == Some(m)) == (ascii_upper_text(s@) == #[trigger] m.name()) by {
                    if let Some(k) = r {
                        if ascii_upper_text(s@) == m.name() {
                            HttpMethod::lemma_name_injective(k, m);
                        }
                    }
                }
            }
        }
        r
    }
}

impl std::str::FromStr for HttpMethod {
    type Err = ();

    fn from_str(s: &str) -> (r: Result<HttpMethod, ()>)
        ensures
            r matches Ok(m) ==> upper_case_text(s@) == m.name(),
            r is Err ==> forall|m: HttpMethod| upper_case_text(s@) != m.name(),
            forall|m: HttpMethod| #[trigger] m.name() == s@ ==> (r matches Ok(x) && x == m),
            is_ascii_text(s@) ==> forall|m: HttpMethod| (r matches Ok(x) && x == m) == (ascii_upper_text(
                s@,
            ) == #[trigger] m.name()),
    {
        match HttpMethod::parse(s) {
            Some(m) => Ok(m),
            None => Err(()),
        }
    }
}

/// Success conditions for advanced validation of a response.
#[derive(Debug)]
pub struct SuccessConditions {
    /// Accepted status codes (otherwise the expected status alone).
    pub status_codes: Option<Vec<u16>>,
    /// Required response headers and their values.
    pub headers: Option<TagMap>,
    /// Text the body must contain.
    pub body_contains: Option<String>,
    /// JSONPath expression that must select a truthy node of the body.
    pub body_jsonpath: Option<String>,
}

impl SuccessConditions {
    /// No conditions at all.
    pub fn new() -> (c: SuccessConditions)
        ensures
            c.status_codes is None,
            c.headers is None,
            c.body_contains is None,
            c.body_jsonpath is None,
    {
        SuccessConditions {
            status_codes: None,
            headers: None,
            body_contains: None,
            body_jsonpath: None,
        }
    }
}

impl Default for SuccessConditions {
    /// No conditions at all.
    fn default() -> (c: SuccessConditions)
        ensures
            c.status_codes is None,
            c.headers is None,
            c.body_contains is None,
            c.body_jsonpath is None,
    {
        SuccessConditions::new()
    }
}

/// A metric to extract from a JSON response body.
#[derive(Debug)]
pub struct MetricExtraction {
    /// Name for the extracted metric.
    pub name: String,
    /// JSONPath expression selecting the value.
    pub jsonpath: String,
    /// Optional unit.
    pub unit: Option<String>,
}

/// Configuration for an HTTP endpoint probe.
#[derive(Debug)]
pub struct HttpConfig {
    /// Unique name for this probe instance.
    pub name: String,
    /// Target URL (HTTP or HTTPS).
    pub url: String,
    /// Whether the collector runs.
    pub enabled: bool,
    /// Collector group for organization.
    pub group: String,
    /// HTTP method to use.
    pub method: HttpMethod,
    /// Expected HTTP status code.
    pub expected_status: u16,
    /// Collection interval (mutually exclusive with `cron`).
    pub interval: Option<Duration>,
    /// Cron schedule expression (mutually exclusive with `interval`).
    pub cron: Option<String>,
    /// Request timeout.
    pub timeout: Duration,
    /// Static tags for identity.
    pub tags: TagMap,
    /// Human-readable description.
    pub description: Option<String>,
    /// Request headers.
    pub headers: TagMap,
    /// Success conditions for advanced validation.
    pub success_conditions: Option<SuccessConditions>,
    /// Metrics to extract from the response body.
    pub extract_metrics: Vec<MetricExtraction>,
}

/// The cron expression an HTTP probe runs on, if it has one.
pub open spec fn scheduled_cron(c: HttpConfig) -> Option<Seq<char>> {
    match c.cron {
        Some(e) => Some(e@),
        None => None,
    }
}

/// The interval, in nanoseconds, an HTTP probe without a cron expression
/// runs at: its interval, else 30 seconds.
pub open spec fn scheduled_every(c: HttpConfig) -> nat {
    match c.interval {
        Some(i) => i@,
        None => 30_000_000_000,
    }
}

/// The configuration `c` with its schedule set to `s`.
pub open spec fn with_schedule_of(c: HttpConfig, s: Schedule) -> HttpConfig {
    match s {
        Schedule::Interval(d) => HttpConfig { interval: Some(d), cron: None, ..c },
        Schedule::Cron(e) => HttpConfig { interval: None, cron: Some(e), ..c },
    }
}

/// Setting a schedule and reading it back gives the same schedule: an
/// interval comes back as that interval, a cron expression as that
/// expression.
pub proof fn lemma_schedule_read_back(c: HttpConfig, s: Schedule)
    ensures
        match s {
            Schedule::Interval(d) => scheduled_cron(with_schedule_of(c, s)) is None
                && scheduled_every(with_schedule_of(c, s)) == d@,
            Schedule::Cron(e) => scheduled_cron(with_schedule_of(c, s)) == Some(e@),
        },
{
}

impl HttpConfig {
    /// A probe of `url` with the default settings: enabled, group
    /// `default`, GET, expecting 200, every 30 seconds, 10 second timeout,
    /// and no tags, description, headers, conditions or extractions.
    pub fn new(name: &str, url: &str) -> (c: HttpConfig)
        ensures
            c.name@ == name@,
            c.url@ == url@,
            c.enabled,
            c.group@ == "default"@,
            c.method == HttpMethod::Get,
            c.expected_status == 200,
            c.interval matches Some(d) && d@ == 30_000_000_000,
            c.cron is None,
            c.timeout@ == 10_000_000_000,
            c.tags@ == Map::<Seq<char>, Seq<char>>::empty(),
            sorted_entries(c.tags.entries()),
            c.description is None,
            c.headers@ == Map::<Seq<char>, Seq<char>>::empty(),
            sorted_entries(c.headers.entries()),
            c.success_conditions is None,
            c.extract_metrics@.len() == 0,
    {
        HttpConfig {
            name: String::from_str(name),
            url: String::from_str(url),
            enabled: default_enabled(),
            group: default_group(),
            method: default_method(),
            expected_status: default_expected_status(),
            interval: Some(default_interval()),
            cron: None,
            timeout: default_timeout(),
            tags: TagMap::new(),
            description: None,
            headers: TagMap::new(),
            success_conditions: None,
            extract_metrics: Vec::new(),
        }
    }

    /// The static tags.
    pub fn static_tags(&self) -> (t: &StaticTags)
        ensures
            t == &self.tags,
    {
        &self.tags
    }

    /// The schedule: the cron expression when one is set, else the
    /// interval, else every 30 seconds; an interval is at least one second.
    pub fn schedule(&self) -> (s: Schedule)
        ensures
            match scheduled_cron(*self) {
                Some(c) => s matches Schedule::Cron(e) && e@ == c,
                None => s matches Schedule::Interval(d) && d@ == clamped_interval(scheduled_every(*self)),
            },
    {
        match &self.cron {
            Some(c) => Schedule::Cron(c.clone()),
            None => match self.interval {
                Some(d) => Schedule::interval(d),
                None => Schedule::interval(default_interval()),
            },
        }
    }

    /// Set the HTTP method.
    pub fn with_method(self, method: HttpMethod) -> (c: HttpConfig)
        ensures
            c == (HttpConfig { method, ..self }),
    {
        HttpConfig { method, ..self }
    }

    /// Set the expected status code.
    pub fn with_expected_status(self, status: u16) -> (c: HttpConfig)
        ensures
            c == (HttpConfig { expected_status: status, ..self }),
    {
        HttpConfig { expected_status: status, ..self }
    }

    /// Collect every `interval` (any cron expression is dropped).
    pub fn with_interval(self, interval: Duration) -> (c: HttpConfig)
        ensures
            c == (HttpConfig { interval: Some(interval), cron: None, ..self }),
    {
        HttpConfig { interval: Some(interval), cron: None, ..self }
    }

    /// Collect on the cron expression `cron` (any interval is dropped).
    pub fn with_cron(self, cron: &str) -> (c: HttpConfig)
        ensures
            c.cron matches Some(e) && e@ == cron@,
            c == (HttpConfig { interval: None, cron: c.cron, ..self }),
    {
        HttpConfig { interval: None, cron: Some(String::from_str(cron)), ..self }
    }

    /// Set the schedule: an interval clears the cron expression and a cron
    /// expression clears the interval.
    pub fn with_schedule(self, schedule: Schedule) -> (c: HttpConfig)
        ensures
            c == with_schedule_of(self, schedule),
    {
        match schedule {
            Schedule::Interval(d) => HttpConfig { interval: Some(d), cron: None, ..self },
            Schedule::Cron(e) => HttpConfig { interval: None, cron: Some(e), ..self },
        }
    }

    /// Set the request timeout.
    pub fn with_timeout(self, timeout: Duration) -> (c: HttpConfig)
        ensures
            c == (HttpConfig { timeout, ..self }),
    {
        HttpConfig { timeout, ..self }
    }

    /// Set the static tags.
    pub fn with_static_tags(self, tags: StaticTags) -> (c: HttpConfig)
        ensures
            c == (HttpConfig { tags, ..self }),
    {
        HttpConfig { tags, ..self }
    }

    /// Set the description.
    pub fn with_description(self, description: &str) -> (c: HttpConfig)
        ensures
            c.description matches Some(d) && d@ == description@,
            c == (HttpConfig { description: c.description, ..self }),
    {
        HttpConfig { description: Some(String::from_str(description)), ..self }
    }

    /// Set all request headers.
    pub fn with_headers(self, headers: TagMap) -> (c: HttpConfig)
        ensures
            c == (HttpConfig { headers, ..self }),
    {
        HttpConfig { headers, ..self }
    }

    /// Add one request header (replacing an earlier value of that name).
    pub fn with_header(self, key: &str, value: &str) -> (c: HttpConfig)
        ensures
            c.headers@ == self.headers@.insert(key@, value@),
            sorted_entries(c.headers.entries()),
            c == (HttpConfig { headers: c.headers, ..self }),
    {
        let mut c = self;
        c.headers.insert(String::from_str(key), String::from_str(value));
        c
    }

    /// Set the success conditions.
    pub fn with_success_conditions(self, conditions: SuccessConditions) -> (c: HttpConfig)
        ensures
            c == (HttpConfig { success_conditions: Some(conditions), ..self }),
    {
        HttpConfig { success_conditions: Some(conditions), ..self }
    }

    /// Set the metrics to extract.
    pub fn with_extract_metrics(self, metrics: Vec<MetricExtraction>) -> (c: HttpConfig)
        ensures
            c == (HttpConfig { extract_metrics: metrics, ..self }),
    {
        HttpConfig { extract_metrics: metrics, ..self }
    }

    /// Set whether the collector runs.
    pub fn with_enabled(self, enabled: bool) -> (c: HttpConfig)
        ensures
            c == (HttpConfig { enabled, ..self }),
    {
        HttpConfig { enabled, ..self }
    }

    /// Set the group.
    pub fn with_group(self, group: &str) -> (c: HttpConfig)
        ensures
            c.group@ == group@,
            c == (HttpConfig { group: c.group, ..self }),
    {
        HttpConfig { group: String::from_str(group), ..self }
    }
}

impl CollectorConfig for HttpConfig {
    fn name(&self) -> (n: &str)
        ensures
            n@ == self.name@,
    {
        self.name.as_str()
    }

    fn schedule(&self) -> (s: Schedule)
        ensures
            match scheduled_cron(*self) {
                Some(c) => s matches Schedule::Cron(e) && e@ == c,
                None => s matches Schedule::Interval(d) && d@ == clamped_interval(scheduled_every(*self)),
            },
    {
        HttpConfig::schedule(self)
    }

    fn timeout(&self) -> (d: Duration)
        ensures
            d == self.timeout,
    {
        self.timeout
    }
}

/// A node selected by a JSONPath query, as far as truthiness needs it.
#[derive(Debug)]
pub enum JsonNode {
    /// `null`.
    Null,
    /// A boolean.
    Bool(bool),
    /// A number.
    Number,
    /// A string.
    String(String),
    /// An array with the given number of elements.
    Array(usize),
    /// An object with the given number of members.
    Object(usize),
}

/// Whether a selected node counts as true: not null, not false, not an
/// empty string, array or object.
pub open spec fn node_truthy(n: JsonNode) -> bool {
    match n {
        JsonNode::Null => false,
        JsonNode::Bool(b) => b,
        JsonNode::Number => true,
        JsonNode::String(s) => s@.len() > 0,
        JsonNode::Array(k) => k > 0,
        JsonNode::Object(k) => k > 0,
    }
}

/// Whether a JSONPath result satisfies a condition: at least one node,
/// and some node that counts as true.
pub open spec fn nodes_truthy(nodes: Seq<JsonNode>) -> bool {
    nodes.len() > 0 && exists|i: int| 0 <= i < nodes.len() && #[trigger] node_truthy(nodes[i])
}

/// Whether the nodes a JSONPath query selected satisfy a condition.
pub fn jsonpath_truthy(nodes: &Vec<JsonNode>) -> (b: bool)
    ensures
        b == nodes_truthy(nodes@),
{
    let n = nodes.len();
    for i in 0..n
        invariant
            n == nodes.len(),
            forall|j: int| 0 <= j < i ==> !#[trigger] node_truthy(nodes@[j]),
    {
        let t = match &nodes[i] {
            JsonNode::Null => false,
            JsonNode::Bool(b) => *b,
            JsonNode::Number => true,
            JsonNode::String(s) => s.as_str().unicode_len() > 0,
            JsonNode::Array(k) => *k > 0,
            JsonNode::Object(k) => *k > 0,
        };
        if t {
            proof {
                assert(node_truthy(nodes@[i as int]));
            }
            return true;
        }
    }
    false
}

#[verifier::external_type_specification]
#[verifier::external_body]
pub struct ExJsonValue(serde_json::Value);

#[verifier::external_type_specification]
#[verifier::external_body]
pub struct ExJsonPath(serde_json_path::JsonPath);

/// Whether `serde_json` parses `text` as a JSON value, and its error
/// message if not.
pub uninterp spec fn json_parse_outcome(text: Seq<char>) -> Result<(), Seq<char>>;

/// Whether `serde_json_path` parses `expr` as a JSONPath query, and its
/// error message if not.
pub uninterp spec fn json_path_parse_outcome(expr: Seq<char>) -> Result<(), Seq<char>>;

/// Calls `serde_json::from_str::<serde_json::Value>`; success, and the
/// displayed error otherwise, are named `json_parse_outcome` of the text.
#[verifier::external_body]
fn parse_json(text: &str) -> (r: Result<serde_json::Value, String>)
    ensures
        match (r, json_parse_outcome(text@)) {
            (Ok(_), Ok(())) => true,
            (Err(m), Err(n)) => m@ == n,
            _ => false,
        },
{
    match serde_json::from_str::<serde_json::Value>(text) {
        Ok(v) => Ok(v),
        Err(e) => Err(e.to_string()),
    }
}

/// Calls `serde_json_path::JsonPath::parse`; success, and the displayed
/// error otherwise, are named `json_path_parse_outcome` of the expression.
#[verifier::external_body]
fn parse_json_path(expr: &str) -> (r: Result<serde_json_path::JsonPath, String>)
    ensures
        match (r, json_path_parse_outcome(expr@)) {
            (Ok(_), Ok(())) => true,
            (Err(m), Err(n)) => m@ == n,
            _ => false,
        },
{
    match serde_json_path::JsonPath::parse(expr) {
        Ok(p) => Ok(p),
        Err(e) => Err(e.to_string()),
    }
}

/// The nodes, in order and each reduced to what `JsonNode` keeps, that
/// `serde_json_path` selects with the query `expr` from the JSON value
/// `body`.
pub uninterp spec fn json_query_nodes(body: Seq<char>, expr: Seq<char>) -> Seq<JsonNode>;

/// Whether a JSONPath condition holds: `body` is JSON, `expr` is JSONPath,
/// and the nodes it selects count as true.
pub open spec fn jsonpath_holds(body: Seq<char>, expr: Seq<char>) -> bool {
    &&& json_parse_outcome(body) is Ok
    &&& json_path_parse_outcome(expr) is Ok
    &&& nodes_truthy(json_query_nodes(body, expr))
}

/// Parses `body` with `serde_json` and `expr` with `serde_json_path`, both
/// known to parse, and calls `serde_json_path::JsonPath::query`. The nodes
/// it hands out are named `json_query_nodes` of the two texts.
#[verifier::external_body]
fn query_json_path(body: &str, expr: &str) -> (r: Vec<JsonNode>)
    requires
        json_parse_outcome(body@) is Ok,
        json_path_parse_outcome(expr@) is Ok,
    ensures
        r@ == json_query_nodes(body@, expr@),
{
    let json: serde_json::Value = serde_json::from_str(body).unwrap();
    let path = serde_json_path::JsonPath::parse(expr).unwrap();
    let mut out = Vec::new();
    for v in path.query(&json).iter() {
        out.push(match v {
            serde_json::Value::Null => JsonNode::Null,
            serde_json::Value::Bool(b) => JsonNode::Bool(*b),
            serde_json::Value::Number(_) => JsonNode::Number,
            serde_json::Value::String(s) => JsonNode::String(s.clone()),
            serde_json::Value::Array(a) => JsonNode::Array(a.len()),
            serde_json::Value::Object(o) => JsonNode::Object(o.len()),
        });
    }
    out
}

/// The value of the response header `key` (names compared without regard
/// to ASCII case; the first match wins).
pub open spec fn header_lookup(headers: Seq<(Seq<char>, Seq<char>)>, key: Seq<char>) -> Option<Seq<char>>
    decreases headers.len(),
{
    if headers.len() == 0 {
        None
    } else if eq_ignore_ascii_case(headers[0].0, key) {
        Some(headers[0].1)
    } else {
        header_lookup(headers.drop_first(), key)
    }
}

/// Response headers as name/value pairs.
pub open spec fn pairs_view(v: Seq<(String, String)>) -> Seq<(Seq<char>, Seq<char>)> {
    v.map_values(|e: (String, String)| (e.0@, e.1@))
}

/// The value of the response header `key`, if present.
pub fn find_header<'a>(headers: &'a Vec<(String, String)>, key: &str) -> (r: Option<&'a String>)
    ensures
        match header_lookup(pairs_view(headers@), key@) {
            Some(v) => r matches Some(x) && x@ == v,
            None => r is None,
        },
{
    let n = headers.len();
    let ghost hv = pairs_view(headers@);
    proof {
        assert(hv.skip(0) =~= hv);
    }
    for i in 0..n
        invariant
            n == headers.len(),
            hv == pairs_view(headers@),
            header_lookup(hv, key@) == header_lookup(hv.skip(i as int), key@),
    {
        proof {
            assert(hv.skip(i as int)[0] == hv[i as int]);
            assert(hv.skip(i as int).drop_first() =~= hv.skip(i + 1));
        }
        if str_eq_ignore_ascii_case(headers[i].0.as_str(), key) {
            return Some(&headers[i].1);
        }
    }
    proof {
        assert(hv.skip(n as int).len() == 0);
    }
    None
}

/// Whether every required header is present with exactly its value.
pub open spec fn headers_satisfied(
    required: Seq<(Seq<char>, Seq<char>)>,
    headers: Seq<(Seq<char>, Seq<char>)>,
) -> bool {
    forall|i: int| 0 <= i < required.len() ==> header_lookup(headers, #[trigger] required[i].0)
        == Some(required[i].1)
}

/// Whether a response succeeds, given whether the JSONPath condition (if
/// any) holds on the body.
pub open spec fn success_spec(
    cfg: HttpConfig,
    status: u16,
    headers: Seq<(Seq<char>, Seq<char>)>,
    body: Option<Seq<char>>,
    jsonpath_holds: bool,
) -> bool {
    match cfg.success_conditions {
        None => status == cfg.expected_status,
        Some(c) => {
            &&& match c.status_codes {
                Some(v) => v@.contains(status),
                None => status == cfg.expected_status,
            }
            &&& match c.headers {
                Some(h) => headers_satisfied(h.entries(), headers),
                None => true,
            }
            &&& match c.body_contains {
                Some(sub) => body matches Some(b) && crate::text::contains_text(b, sub@),
                None => true,
            }
            &&& match c.body_jsonpath {
                Some(_) => body is Some && jsonpath_holds,
                None => true,
            }
        },
    }
}

/// What decides a response's success: without success conditions, the
/// status alone, which must be the expected one; with them, the status
/// must be one of the listed codes, or the expected status when none are
/// listed, and each further condition that is given must hold: every
/// required header present with its value, the body present and holding
/// the required text, and the body present with the JSONPath condition
/// holding. When all of that holds, the response succeeds.
pub proof fn lemma_success_conditions(
    cfg: HttpConfig,
    status: u16,
    headers: Seq<(Seq<char>, Seq<char>)>,
    body: Option<Seq<char>>,
    jsonpath_holds: bool,
)
    ensures
        cfg.success_conditions is None ==> (success_spec(cfg, status, headers, body, jsonpath_holds) <==> status
            == cfg.expected_status),
        cfg.success_conditions matches Some(c) ==> (success_spec(cfg, status, headers, body, jsonpath_holds)
            <==> {
            &&& match c.status_codes {
                Some(v) => exists|i: int| 0 <= i < v@.len() && v@[i] == status,
                None => status == cfg.expected_status,
            }
            &&& match c.headers {
                Some(h) => forall|i: int| 0 <= i < h.entries().len() ==> header_lookup(headers, #[trigger] h.entries()[i].0)
                    == Some(h.entries()[i].1),
                None => true,
            }
            &&& match c.body_contains {
                Some(sub) => body matches Some(b) && exists|k: int| 0 <= k && k + sub@.len() <= b.len() && #[trigger] b.subrange(k, k + sub@.len()) == sub@,
                None => true,
            }
            &&& match c.body_jsonpath {
                Some(_) => body is Some && jsonpath_holds,
                None => true,
            }
        }),
{
    if let Some(c) = cfg.success_conditions {
        if let Some(sub) = c.body_contains {
            if let Some(b) = body {
                crate::text::lemma_contains_text_subrange(b, sub@);
            }
        }
    }
}

/// Whether a response succeeds, the JSONPath condition (if any) being
/// evaluated on the body.
pub open spec fn response_success(
    cfg: HttpConfig,
    status: u16,
    headers: Seq<(Seq<char>, Seq<char>)>,
    body: Option<Seq<char>>,
) -> bool {
    success_spec(
        cfg,
        status,
        headers,
        body,
        match cfg.success_conditions {
            Some(c) => match (c.body_jsonpath, body) {
                (Some(e), Some(t)) => jsonpath_holds(t, e@),
                _ => false,
            },
            None => false,
        },
    )
}

/// The view of an optional body.
pub open spec fn body_view(body: Option<&str>) -> Option<Seq<char>> {
    match body {
        Some(b) => Some(b@),
        None => None,
    }
}

impl HttpConfig {
    /// Whether a response succeeds, given whether the JSONPath condition
    /// holds on the body.
    pub fn success_with(
        &self,
        status: u16,
        headers: &Vec<(String, String)>,
        body: Option<&str>,
        jsonpath_holds: bool,
    ) -> (b: bool)
        ensures
            b == success_spec(*self, status, pairs_view(headers@), body_view(body), jsonpath_holds),
    {
        let conditions = match &self.success_conditions {
            None => {
                return status == self.expected_status;
            },
            Some(c) => c,
        };
        match &conditions.status_codes {
            Some(allowed) => {
                let mut found = false;
                let n = allowed.len();
                for i in 0..n
                    invariant
                        n == allowed.len(),
                        found == exists|j: int| 0 <= j < i && allowed@[j] == status,
                {
                    if allowed[i] == status {
                        found = true;
                    }
                }
                if !found {
                    return false;
                }
            },
            None => {
                if status != self.expected_status {
                    return false;
                }
            },
        }
        match &conditions.headers {
            Some(required) => {
                let n = required.len();
                for i in 0..n
                    invariant
                        n == required.entries().len(),
                        self.success_conditions == Some(*conditions),
                        conditions.headers == Some(*required),
                        forall|j: int| 0 <= j < i ==> header_lookup(pairs_view(headers@), #[trigger] required.entries()[j].0)
                            == Some(required.entries()[j].1),
                {
                    let key = required.key_at(i);
                    let value = required.value_at(i);
                    let ok = match find_header(headers, key.as_str()) {
                        Some(actual) => str_eq(actual.as_str(), value.as_str()),
                        None => false,
                    };
                    if !ok {
                        proof {
                            let e = required.entries()[i as int];
                            assert(header_lookup(pairs_view(headers@), e.0) != Some(e.1));
                            assert(!headers_satisfied(required.entries(), pairs_view(headers@)));
                        }
                        return false;
                    }
                }
            },
            None => {},
        }
        match &conditions.body_contains {
            Some(sub) => match body {
                Some(text) => {
                    if !crate::text::str_contains(text, sub.as_str()) {
                        return false;
                    }
                },
                None => {
                    return false;
                },
            },
            None => {},
        }
        match &conditions.body_jsonpath {
            Some(_) => body.is_some() && jsonpath_holds,
            None => true,
        }
    }

    /// Whether the JSONPath `expr` selects a truthy node of the JSON `body`.
    /// False when the body is not JSON or the expression is not JSONPath.
    pub fn evaluate_jsonpath_condition(body: &str, expr: &str) -> (b: bool)
        ensures
            b == jsonpath_holds(body@, expr@),
    {
        if parse_json(body).is_err() {
            return false;
        }
        if parse_json_path(expr).is_err() {
            return false;
        }
        let nodes = query_json_path(body, expr);
        jsonpath_truthy(&nodes)
    }

    /// Whether a response succeeds. The JSONPath condition, if there is one
    /// and a body to test it on, is evaluated with `serde_json_path`.
    pub fn evaluate_success(&self, status: u16, headers: &Vec<(String, String)>, body: Option<&str>) -> (b: bool)
        ensures
            b == response_success(*self, status, pairs_view(headers@), body_view(body)),
    {
        let holds = match &self.success_conditions {
            Some(c) => match (&c.body_jsonpath, body) {
                (Some(e), Some(t)) => HttpConfig::evaluate_jsonpath_condition(t, e.as_str()),
                _ => false,
            },
            None => false,
        };
        self.success_with(status, headers, body, holds)
    }

    /// Check the metric extractions against a response body: the body must
    /// be JSON and every extraction path must parse.
    ///
    /// # Errors
    /// `CollectorError::Config` naming the first problem found.
    pub fn extract_metrics_from_body(&self, body: &str) -> (r: Result<(), CollectorError>)
        ensures
            self.extract_metrics@.len() == 0 ==> r is Ok,
            self.extract_metrics@.len() > 0 && json_parse_outcome(body@) is Err ==> (r matches Err(
                CollectorError::Config(m),
            ) && m@ == "Failed to parse response body as JSON: "@ + json_parse_outcome(body@)->Err_0),
            self.extract_metrics@.len() > 0 && json_parse_outcome(body@) is Ok ==> match r {
                Ok(()) => forall|i: int| 0 <= i < self.extract_metrics@.len()
                    ==> json_path_parse_outcome(#[trigger] self.extract_metrics@[i].jsonpath@) is Ok,
                Err(e) => exists|i: int| 0 <= i < self.extract_metrics@.len()
                    && json_path_parse_outcome(#[trigger] self.extract_metrics@[i].jsonpath@) is Err
                    && (forall|j: int| 0 <= j < i ==> json_path_parse_outcome(
                        #[trigger] self.extract_metrics@[j].jsonpath@,
                    ) is Ok) && (e matches CollectorError::Config(m) && m@ == "Invalid JSONPath '"@
                    + self.extract_metrics@[i].jsonpath@ + "': "@ + json_path_parse_outcome(
                    self.extract_metrics@[i].jsonpath@,
                )->Err_0),
            },
    {
        if self.extract_metrics.len() == 0 {
            return Ok(());
        }
        match parse_json(body) {
            Ok(_) => {},
            Err(m) => {
                return Err(CollectorError::Config(join_text("Failed to parse response body as JSON: ", m.as_str())));
            },
        }
        let n = self.extract_metrics.len();
        for i in 0..n
            invariant
                n == self.extract_metrics@.len(),
                json_parse_outcome(body@) is Ok,
                forall|j: int| 0 <= j < i ==> json_path_parse_outcome(
                    #[trigger] self.extract_metrics@[j].jsonpath@,
                ) is Ok,
        {
            let expr = self.extract_metrics[i].jsonpath.as_str();
            match parse_json_path(expr) {
                Ok(_) => {},
                Err(m) => {
                    let mut msg = String::from_str("Invalid JSONPath '");
                    msg.append(expr);
                    msg.append("': ");
                    msg.append(m.as_str());
                    return Err(CollectorError::Config(msg));
                },
            }
        }
        Ok(())
    }
}

} // verus!
