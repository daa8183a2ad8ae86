use oculus::storage::error::StorageError;
use oculus::collector::http::{
    default_expected_status, default_interval as http_default_interval,
    default_timeout as http_default_timeout, HttpConfig, HttpMethod, JsonNode, SuccessConditions,
    jsonpath_truthy, find_header,
};
use oculus::collector::ping::{default_interval, default_timeout, PingConfig};
use oculus::collector::probe::{duration_ms_of, interval_tag, ConnectOutcome, HttpOutcome, Latency, PingOutcome};
use oculus::collector::registry::{
    JobInfo, JobTable,
    category_to_event_source, collection_failed_event, job_error_event, shutdown_event,
    shutdown_result, ShutdownOutcome,
};
use oculus::collector::network::{SocketTarget, TcpConfig as SocketTcpConfig};
use oculus::collector::tcp::TcpConfig;
use oculus::collector::traits::{validate_ip_address, CollectorConfig, CollectorError, Schedule};
use oculus::storage::types::{EventKind, EventSeverity, EventSource, MetricCategory};
use oculus::tags::TagMap;
use oculus::time::Duration;

#[test]
fn test_http_config_defaults() {
    let config = HttpConfig::new("api-health", "https://api.example.com/health");

    assert_eq!(config.name, "api-health");
    assert_eq!(config.url, "https://api.example.com/health");
    assert_eq!(config.method, HttpMethod::Get);
    assert_eq!(config.expected_status, default_expected_status());
    assert!(matches!(config.schedule(), Schedule::Interval(d) if d == http_default_interval()));
    assert_eq!(config.timeout, http_default_timeout());
}

#[test]
fn test_http_config_builder() {
    let config = HttpConfig::new("api-post", "https://api.example.com/submit")
        .with_method(HttpMethod::Post)
        .with_expected_status(201)
        .with_interval(Duration::from_secs(60))
        .with_timeout(Duration::from_secs(5))
        .with_description("API submission endpoint");

    assert_eq!(config.method, HttpMethod::Post);
    assert_eq!(config.expected_status, 201);
    assert!(matches!(config.schedule(), Schedule::Interval(d) if d == Duration::from_secs(60)));
    assert_eq!(config.timeout, Duration::from_secs(5));
    assert_eq!(config.description, Some("API submission endpoint".to_string()));
}

#[test]
fn test_http_method_from_str() {
    assert_eq!("GET".parse::<HttpMethod>().ok(), Some(HttpMethod::Get));
    assert_eq!("get".parse::<HttpMethod>().ok(), Some(HttpMethod::Get));
    assert_eq!("POST".parse::<HttpMethod>().ok(), Some(HttpMethod::Post));
    assert_eq!("head".parse::<HttpMethod>().ok(), Some(HttpMethod::Head));
    assert_eq!("put".parse::<HttpMethod>().ok(), Some(HttpMethod::Put));
    assert_eq!("DELETE".parse::<HttpMethod>().ok(), Some(HttpMethod::Delete));
    assert_eq!("options".parse::<HttpMethod>().ok(), Some(HttpMethod::Options));
    assert_eq!("PATCH".parse::<HttpMethod>().ok(), Some(HttpMethod::Patch));
    assert_eq!("INVALID".parse::<HttpMethod>().ok(), None);
}

#[test]
fn test_http_method_as_str() {
    assert_eq!(HttpMethod::Get.as_str(), "GET");
    assert_eq!(HttpMethod::Post.as_str(), "POST");
    assert_eq!(HttpMethod::Head.as_str(), "HEAD");
}

#[test]
fn test_ping_config_defaults() {
    let config = PingConfig::new("google-dns", "8.8.8.8");

    assert_eq!(config.name, "google-dns");
    assert_eq!(config.host, "8.8.8.8");
    assert_eq!(config.interval, default_interval());
    assert_eq!(config.timeout, default_timeout());
}

#[test]
fn test_ping_config_builder() {
    let config = PingConfig::new("cloudflare", "1.1.1.1")
        .with_interval(Duration::from_secs(60))
        .with_timeout(Duration::from_secs(10))
        .with_description("Cloudflare DNS");

    assert_eq!(config.interval, Duration::from_secs(60));
    assert_eq!(config.timeout, Duration::from_secs(10));
    assert_eq!(config.description, Some("Cloudflare DNS".to_string()));
}

#[test]
fn test_ping_config_hostname() {
    let config = PingConfig::new("google", "google.com");
    assert_eq!(config.host, "google.com");
}

#[test]
fn collector_test_tcp_config_defaults() {
    let config = TcpConfig::new("redis", "127.0.0.1", 6379);

    assert_eq!(config.name, "redis");
    assert_eq!(config.host, "127.0.0.1");
    assert_eq!(config.port, 6379);
    assert_eq!(config.interval, default_interval());
    assert_eq!(config.timeout, default_timeout());
}

#[test]
fn collector_test_tcp_config_builder() {
    let config = TcpConfig::new("mysql", "127.0.0.1", 3306)
        .with_interval(Duration::from_secs(60))
        .with_timeout(Duration::from_secs(10));

    assert_eq!(config.interval, Duration::from_secs(60));
    assert_eq!(config.timeout, Duration::from_secs(10));
}

#[test]
fn test_schedule_interval_minimum() {
    let schedule = Schedule::interval(Duration::from_millis(100));
    match schedule {
        Schedule::Interval(d) => assert_eq!(d, Duration::from_secs(1)),
        _ => panic!("expected Interval"),
    }
}

#[test]
fn test_schedule_interval_valid() {
    let schedule = Schedule::interval(Duration::from_secs(30));
    match schedule {
        Schedule::Interval(d) => assert_eq!(d, Duration::from_secs(30)),
        _ => panic!("expected Interval"),
    }
}

#[test]
fn test_schedule_cron_valid() {
    let schedule = Schedule::cron("0 */5 * * * *").unwrap();
    match schedule {
        Schedule::Cron(expr) => assert_eq!(expr, "0 */5 * * * *"),
        _ => panic!("expected Cron"),
    }
}

#[test]
fn test_schedule_cron_invalid() {
    let result = Schedule::cron("not a cron");
    assert!(result.is_err());
    let err = result.unwrap_err();
    assert!(err.to_string().contains("invalid cron"));
}

#[test]
fn schedule_describe_forms() {
    assert_eq!(Schedule::interval(Duration::from_secs(30)).describe(), "every 30s");
    assert_eq!(Schedule::cron("0 */5 * * * *").unwrap().describe(), "cron: 0 */5 * * * *");
}

#[test]
fn ip_address_validation() {
    assert!(validate_ip_address("127.0.0.1").is_ok());
    assert!(validate_ip_address("::1").is_ok());
    assert!(validate_ip_address("2001:db8::8a2e:370:7334").is_ok());
    assert!(validate_ip_address("::ffff:192.168.1.1").is_ok());
    let err = validate_ip_address("256.0.0.1").unwrap_err();
    assert_eq!(err.to_string(), "invalid IP address: '256.0.0.1'");
    assert!(validate_ip_address("01.2.3.4").is_err());
    assert!(validate_ip_address("1.2.3").is_err());
    assert!(validate_ip_address("1::2::3").is_err());
    assert!(validate_ip_address("google.com").is_err());
    assert!(validate_ip_address("").is_err());
}

#[test]
fn tcp_config_validate_host() {
    assert!(TcpConfig::new("a", "10.0.0.1", 80).validate().is_ok());
    assert!(TcpConfig::new("a", "db.local", 80).validate().is_err());
}

fn headers(pairs: &[(&str, &str)]) -> Vec<(String, String)> {
    pairs.iter().map(|(k, v)| (k.to_string(), v.to_string())).collect()
}

#[test]
fn http_success_plain_status() {
    let config = HttpConfig::new("h", "https://example.com");
    assert!(config.evaluate_success(200, &Vec::new(), None));
    assert!(!config.evaluate_success(500, &Vec::new(), None));
}

#[test]
fn http_success_conditions() {
    let mut required = TagMap::new();
    required.insert("Content-Type".to_string(), "application/json".to_string());
    let mut conditions = SuccessConditions::new();
    conditions.status_codes = Some(vec![200, 204]);
    conditions.headers = Some(required);
    conditions.body_contains = Some("\"ok\"".to_string());
    let config = HttpConfig::new("h", "https://example.com").with_success_conditions(conditions);
    let good = headers(&[("content-type", "application/json")]);
    assert!(config.evaluate_success(204, &good, Some("{\"status\":\"ok\"}")));
    assert!(!config.evaluate_success(201, &good, Some("{\"status\":\"ok\"}")));
    let bad = headers(&[("content-type", "text/plain")]);
    assert!(!config.evaluate_success(200, &bad, Some("{\"status\":\"ok\"}")));
    assert!(!config.evaluate_success(200, &good, Some("{\"status\":\"down\"}")));
    assert!(!config.evaluate_success(200, &good, None));
}

#[test]
fn http_success_jsonpath() {
    let mut conditions = SuccessConditions::new();
    conditions.body_jsonpath = Some("$.healthy".to_string());
    let config = HttpConfig::new("h", "https://example.com").with_success_conditions(conditions);
    assert!(config.evaluate_success(200, &Vec::new(), Some("{\"healthy\": true}")));
    assert!(!config.evaluate_success(200, &Vec::new(), Some("{\"healthy\": false}")));
    assert!(!config.evaluate_success(200, &Vec::new(), Some("not json")));
    assert!(HttpConfig::evaluate_jsonpath_condition("{\"items\": [1]}", "$.items"));
    assert!(!HttpConfig::evaluate_jsonpath_condition("{\"items\": []}", "$.items"));
    assert!(!HttpConfig::evaluate_jsonpath_condition("{\"a\": 1}", "$[?bad"));
}

#[test]
fn jsonpath_truthiness() {
    assert!(!jsonpath_truthy(&vec![]));
    assert!(!jsonpath_truthy(&vec![JsonNode::Null, JsonNode::Bool(false), JsonNode::String(String::new())]));
    assert!(jsonpath_truthy(&vec![JsonNode::Null, JsonNode::Number]));
    assert!(jsonpath_truthy(&vec![JsonNode::Object(1)]));
    assert!(!jsonpath_truthy(&vec![JsonNode::Array(0)]));
}

#[test]
fn header_lookup_ignores_case() {
    let h = headers(&[("X-Id", "1"), ("x-id", "2")]);
    assert_eq!(find_header(&h, "x-ID"), Some(&"1".to_string()));
    assert_eq!(find_header(&h, "other"), None);
}

#[test]
fn http_extract_metrics_errors() {
    let config = HttpConfig::new("h", "https://example.com");
    assert!(config.extract_metrics_from_body("anything").is_ok());
    let config = HttpConfig::new("h", "https://example.com").with_extract_metrics(vec![
        oculus::collector::http::MetricExtraction {
            name: "n".to_string(),
            jsonpath: "$.a".to_string(),
            unit: None,
        },
    ]);
    assert!(config.extract_metrics_from_body("{\"a\": 1}").is_ok());
    let err = config.extract_metrics_from_body("nope").unwrap_err();
    assert!(err.to_string().starts_with("config error: Failed to parse response body as JSON: "));
}

#[test]
fn probe_targets_and_series() {
    let tcp = TcpConfig::new("redis", "127.0.0.1", 6379);
    assert_eq!(tcp.target(), "127.0.0.1:6379");
    let series = tcp.metric_series();
    assert_eq!(series.target, "127.0.0.1:6379");
    assert_eq!(series.series_id, tcp.series_id());
    let ping = PingConfig::new("g", "8.8.8.8");
    assert_eq!(ping.metric_series().target, "8.8.8.8");
}

#[test]
fn probe_records() {
    let tcp = TcpConfig::new("redis", "127.0.0.1", 6379);
    let r = tcp.record(ConnectOutcome::Connected, Duration::from_millis(42));
    assert!(r.success);
    assert_eq!(r.latency, Latency::Measured);
    assert_eq!(r.duration_ms, 42);
    assert_eq!(r.tags.get("interval"), Some(&"30s".to_string()));
    let r = tcp.record(ConnectOutcome::TimedOut, Duration::from_secs(3));
    assert!(!r.success);
    assert_eq!(r.latency, Latency::Failure);

    let ping = PingConfig::new("g", "nowhere.invalid");
    let r = ping.record(PingOutcome::Unresolved, Duration::from_secs(1));
    assert!(!r.success);
    assert_eq!(r.duration_ms, 0);
    assert_eq!(r.tags.get("error"), Some(&"dns_resolution_failed".to_string()));

    let http = HttpConfig::new("h", "https://example.com");
    let r = http.record(HttpOutcome::Response { status: 503, success: false }, Duration::from_millis(7));
    assert!(!r.success);
    assert_eq!(r.tags.get("status_code"), Some(&"503".to_string()));
    assert_eq!(r.tags.get("method"), Some(&"GET".to_string()));
    assert!(!http.needs_body());

    assert_eq!(duration_ms_of(Duration::from_secs(5_000_000_000)), u32::MAX);
    assert_eq!(interval_tag(Duration::from_millis(90_500)), "90s");
}

#[test]
fn registry_events() {
    assert_eq!(category_to_event_source(MetricCategory::NetworkPing), EventSource::CollectorNetworkPing);
    assert_eq!(category_to_event_source(MetricCategory::Stock), EventSource::Other);
    let err = CollectorError::Timeout;
    let e = collection_failed_event(MetricCategory::NetworkTcp, "redis", 12, &err);
    assert_eq!(e.source, EventSource::CollectorNetworkTcp);
    assert_eq!(e.kind, EventKind::Error);
    assert_eq!(e.message, "Collection failed: timeout elapsed");
    assert_eq!(e.payload.get("duration_ms"), Some(&"12".to_string()));
    assert_eq!(e.payload.get("status"), Some(&"failed".to_string()));
    let e = job_error_event("redis", "network.tcp", 7, "every 30s", &err, "create");
    assert_eq!(e.message, "Job 'redis' create failed");
    assert_eq!(e.severity, EventSeverity::Error);
    assert_eq!(e.payload.get("metric_series_id"), Some(&"7".to_string()));
    let e = shutdown_event(3, &ShutdownOutcome::TimedOut);
    assert_eq!(e.payload.get("timed_out"), Some(&"true".to_string()));
    assert_eq!(e.payload.get("job_count"), Some(&"3".to_string()));
    let r = shutdown_result(ShutdownOutcome::TimedOut).unwrap_err();
    assert_eq!(r.to_string(), "scheduler error: scheduler shutdown timed out");
    assert!(shutdown_result(ShutdownOutcome::Completed).is_ok());
}

#[test]
fn collector_error_variants() {
    assert_eq!(CollectorError::Network("refused".to_string()).to_string(), "network error: refused");
    assert_eq!(CollectorError::Config("c".to_string()).to_string(), "config error: c");
    assert_eq!(CollectorError::Scheduler("s".to_string()).to_string(), "scheduler error: s");
    let e: CollectorError = StorageError::ChannelSend.into();
    assert_eq!(e.to_string(), "failed to send metric: failed to send command to writer actor");
}

#[test]
fn http_schedule_read_back() {
    let c = HttpConfig::new("h", "https://example.com").with_schedule(Schedule::cron("0 * * * * *").unwrap());
    assert!(matches!(c.schedule(), Schedule::Cron(e) if e == "0 * * * * *"));
    let c = c.with_schedule(Schedule::interval(Duration::from_secs(45)));
    assert!(matches!(c.schedule(), Schedule::Interval(d) if d == Duration::from_secs(45)));
    assert!(c.cron.is_none());
    let mut c = c;
    c.interval = None;
    assert!(matches!(c.schedule(), Schedule::Interval(d) if d == Duration::from_secs(30)));
}

#[test]
fn tag_map_read_back() {
    let mut t = TagMap::new();
    assert_eq!(t.insert("k".to_string(), "1".to_string()), None);
    t.insert("a".to_string(), "2".to_string());
    assert_eq!(t.insert("k".to_string(), "3".to_string()), Some("1".to_string()));
    assert_eq!(t.get("k"), Some(&"3".to_string()));
    assert_eq!(t.get("a"), Some(&"2".to_string()));
    assert_eq!(t.key_at(0), "a");
    assert!(t.contains_key("a") && !t.contains_key("z"));
    let w = t.without("a");
    assert_eq!(w.len(), 1);
    assert!(!w.contains_key("a"));
}

#[test]
fn short_intervals_are_raised_to_one_second() {
    let http = HttpConfig::new("a", "b").with_interval(Duration::from_millis(500));
    assert!(matches!(http.schedule(), Schedule::Interval(d) if d == Duration::from_secs(1)));
    let tcp = TcpConfig::new("t", "127.0.0.1", 80).with_interval(Duration::from_millis(10));
    assert!(matches!(CollectorConfig::schedule(&tcp), Schedule::Interval(d) if d == Duration::from_secs(1)));
    let ping = PingConfig::new("p", "127.0.0.1").with_interval(Duration::zero());
    assert!(matches!(CollectorConfig::schedule(&ping), Schedule::Interval(d) if d == Duration::from_secs(1)));
    let slow = PingConfig::new("p", "127.0.0.1").with_interval(Duration::from_secs(5));
    assert!(matches!(CollectorConfig::schedule(&slow), Schedule::Interval(d) if d == Duration::from_secs(5)));
}

#[test]
fn method_names_parse_back() {
    for m in [
        HttpMethod::Get,
        HttpMethod::Post,
        HttpMethod::Head,
        HttpMethod::Put,
        HttpMethod::Delete,
        HttpMethod::Options,
        HttpMethod::Patch,
    ] {
        assert_eq!(HttpMethod::parse(m.as_str()), Some(m));
    }
    assert_eq!(HttpMethod::parse("patch"), Some(HttpMethod::Patch));
}

#[test]
fn response_record_follows_success_rules() {
    let mut conditions = SuccessConditions::new();
    conditions.body_jsonpath = Some("$.healthy".to_string());
    let config = HttpConfig::new("h", "https://example.com").with_success_conditions(conditions);
    let r = config.response_record(200, &Vec::new(), Some("{\"healthy\": true}"), Duration::from_millis(12));
    assert!(r.success);
    assert_eq!(r.latency, Latency::Measured);
    assert_eq!(r.duration_ms, 12);
    assert_eq!(r.tags.get("status_code"), Some(&"200".to_string()));
    assert_eq!(r.tags.get("method"), Some(&"GET".to_string()));
    let r = config.response_record(200, &Vec::new(), Some("{\"healthy\": false}"), Duration::from_millis(12));
    assert!(!r.success);
    let plain = HttpConfig::new("h", "https://example.com");
    assert!(plain.response_record(200, &Vec::new(), Some("ignored"), Duration::zero()).success);
    assert!(!plain.response_record(503, &Vec::new(), None, Duration::zero()).success);
}

#[test]
fn method_parse_ignores_ascii_case() {
    assert_eq!("get".parse::<HttpMethod>(), Ok(HttpMethod::Get));
    assert_eq!("oPtIoNs".parse::<HttpMethod>(), Ok(HttpMethod::Options));
    assert_eq!("GET".to_uppercase().parse::<HttpMethod>(), "get".parse::<HttpMethod>());
    assert!("fetch".parse::<HttpMethod>().is_err());
}

fn job(id: u128, name: &str) -> JobInfo {
    JobInfo {
        id,
        category: MetricCategory::NetworkTcp,
        name: name.to_string(),
        metric_series_id: 7,
        schedule: "every 60s".to_string(),
    }
}

#[test]
fn job_table_keeps_one_job_per_id() {
    let mut t = JobTable::new();
    assert_eq!(t.len(), 0);
    t.insert(job(1, "a"));
    t.insert(job(2, "b"));
    t.insert(job(1, "c"));
    assert_eq!(t.len(), 2);
    assert_eq!(t.name_of(1), Some("c".to_string()));
    let listed = t.list();
    assert_eq!(listed.len(), 2);
    assert!(listed.iter().any(|j| j.id == 2 && j.name == "b" && j.schedule.contains("60s")));
    let removed = t.remove(1).unwrap();
    assert_eq!(removed.name, "c");
    assert!(t.remove(1).is_none());
    assert_eq!(t.name_of(1), None);
    assert_eq!(t.len(), 1);
}

#[test]
fn socket_probe_builders() {
    let target = SocketTarget { ip: "127.0.0.1".to_string(), port: 6379 };
    let c = SocketTcpConfig::new("redis", target);
    assert_eq!(c.name, "redis");
    assert_eq!(c.target_addr.port, 6379);
    assert!(matches!(c.schedule, Schedule::Interval(d) if d == Duration::from_secs(30)));
    assert_eq!(c.conn_timeout, Duration::from_secs(3));
    assert!(c.static_tags.is_empty());
    let c = c
        .with_timeout(Duration::from_secs(1))
        .with_schedule(Schedule::interval(Duration::from_secs(5)))
        .with_description("cache");
    assert_eq!(c.conn_timeout, Duration::from_secs(1));
    assert!(matches!(c.schedule, Schedule::Interval(d) if d == Duration::from_secs(5)));
    assert_eq!(c.description, Some("cache".to_string()));
}
