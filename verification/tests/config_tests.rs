use oculus::collector::http::HttpConfig;
use oculus::collector::ping::PingConfig;
use oculus::collector::tcp::TcpConfig;
use oculus::config::app::{
    default_sync_interval, AppConfig as FullConfig, DatabaseConfig as FullDatabaseConfig,
    ServerConfig as FullServerConfig, DEFAULT_CHANNEL_CAPACITY, DEFAULT_POOL_SIZE,
};
use oculus::config::collector::{file_parse_error, is_collector_file, missing_dir_error, not_a_dir_error, CollectorsConfig};
use oculus::config::validation::{count_significant_digits, expand_env_vars, parse_duration as parse_span, ConfigError, MAX_DURATION_DIGITS};
use oculus::config::{parse_duration, AppConfig, CollectorConfigEntry, DatabaseConfig, ServerConfig};
use oculus::storage::types::MetricCategory;
use oculus::tags::TagMap;
use oculus::time::Duration;

#[test]
fn config_test_parse_duration_valid() {
    assert_eq!(parse_duration("30s").unwrap(), Duration::from_secs(30));
    assert_eq!(parse_duration("1m").unwrap(), Duration::from_secs(60));
    assert_eq!(parse_duration("5m").unwrap(), Duration::from_secs(300));
    assert_eq!(parse_duration("1h").unwrap(), Duration::from_secs(3600));
}

#[test]
fn config_test_parse_duration_invalid() {
    assert!(parse_duration("").is_err());
    assert!(parse_duration("abc").is_err());
    assert!(parse_duration("30x").is_err());
    assert!(parse_duration("30").is_err());
}

#[test]
fn flat_parse_duration_messages() {
    assert_eq!(parse_duration("  ").unwrap_err(), "duration string is empty");
    assert_eq!(parse_duration("abc").unwrap_err(), "invalid number: ab");
    assert_eq!(parse_duration("30x").unwrap_err(), "invalid unit: x. Use 's', 'm', or 'h'");
    assert_eq!(parse_duration(" 2h ").unwrap(), Duration::from_secs(7200));
}

#[test]
fn validation_test_parse_duration_valid() {
    assert_eq!(parse_span("30s").unwrap(), Duration::from_secs(30));
    assert_eq!(parse_span("1m").unwrap(), Duration::from_secs(60));
    assert_eq!(parse_span("5m").unwrap(), Duration::from_secs(300));
    assert_eq!(parse_span("1h").unwrap(), Duration::from_secs(3600));
}

#[test]
fn validation_test_parse_duration_invalid() {
    assert!(parse_span("").is_err());
    assert!(parse_span("abc").is_err());
    assert!(parse_span("30x").is_err());
    assert!(parse_span("30").is_err());
}

#[test]
fn test_parse_duration_extended_formats() {
    assert_eq!(parse_span("100ms").unwrap(), Duration::from_millis(100));
    assert_eq!(parse_span("1h30m").unwrap(), Duration::from_secs(5400));
    assert_eq!(parse_span("1d").unwrap(), Duration::from_secs(86400));
    assert_eq!(parse_span("2h 30m").unwrap(), Duration::from_secs(9000));
}

#[test]
fn test_expand_env_vars_no_vars() {
    assert_eq!(expand_env_vars("hello world", &TagMap::new()), "hello world");
}

#[test]
fn test_expand_env_vars_with_default() {
    let result = expand_env_vars("Bearer ${NONEXISTENT_TOKEN_12345:-default_token}", &TagMap::new());
    assert_eq!(result, "Bearer default_token");
}

#[test]
fn test_expand_env_vars_from_env() {
    let mut env = TagMap::new();
    env.insert("TEST_VAR_EXPAND".to_string(), "secret_value".to_string());
    let result = expand_env_vars("Authorization: ${TEST_VAR_EXPAND}", &env);
    assert_eq!(result, "Authorization: secret_value");
}

#[test]
fn expand_env_vars_edge_cases() {
    let mut env = TagMap::new();
    env.insert("A".to_string(), "x".to_string());
    assert_eq!(expand_env_vars("${A}${A:-d}${B}${B:-}${", &env), "xx${");
    assert_eq!(expand_env_vars("$${A} ${1A} ${A:-a}b}", &env), "$x ${1A} xb}");
    assert_eq!(expand_env_vars("${A:-no end", &env), "${A:-no end");
}

fn entry(category: MetricCategory, name: &str, target: &str, interval: Option<&str>, timeout: &str) -> CollectorConfigEntry {
    CollectorConfigEntry {
        collector_type: category,
        name: name.to_string(),
        target: target.to_string(),
        interval: interval.map(|s| s.to_string()),
        cron: None,
        timeout: timeout.to_string(),
        tags: TagMap::new(),
    }
}

fn flat_config(port: u16, pool_size: u32, collectors: Vec<CollectorConfigEntry>) -> AppConfig {
    AppConfig {
        server: ServerConfig { bind: "127.0.0.1".to_string(), port },
        database: DatabaseConfig {
            path: "./test.db".to_string(),
            pool_size,
            channel_capacity: 1000,
            checkpoint_interval: "5s".to_string(),
        },
        collectors,
    }
}

#[test]
fn config_test_config_validation_valid() {
    let config = flat_config(
        8080,
        4,
        vec![entry(MetricCategory::NetworkTcp, "test-probe", "127.0.0.1:6379", Some("30s"), "5s")],
    );
    assert!(config.validate().is_ok());
}

#[test]
fn config_test_config_validation_invalid_port() {
    let config = flat_config(0, 4, vec![]);
    assert!(config.validate().is_err());
}

#[test]
fn test_config_validation_invalid_pool_size() {
    let config = flat_config(8080, 0, vec![]);
    assert!(config.validate().is_err());
}

#[test]
fn test_config_validation_invalid_interval() {
    let config = flat_config(
        8080,
        4,
        vec![entry(MetricCategory::NetworkTcp, "test", "127.0.0.1:6379", Some("invalid"), "5s")],
    );
    assert!(config.validate().is_err());
}

#[test]
fn flat_validation_messages() {
    let mut both = entry(MetricCategory::NetworkTcp, "t", "127.0.0.1:1", Some("30s"), "5s");
    both.cron = Some("0 * * * * *".to_string());
    let err = flat_config(8080, 4, vec![both]).validate().unwrap_err();
    assert_eq!(
        err.to_string(),
        "config validation error: collector 't': cannot specify both 'interval' and 'cron'"
    );
    let none = entry(MetricCategory::NetworkTcp, "t", "127.0.0.1:1", None, "5s");
    let err = flat_config(8080, 4, vec![none]).validate().unwrap_err();
    assert!(err.to_string().contains("must specify either 'interval' or 'cron'"));
    let mut cron = entry(MetricCategory::NetworkTcp, "t", "127.0.0.1:1", None, "5s");
    cron.cron = Some("0 */5 * * * *".to_string());
    assert!(flat_config(8080, 4, vec![cron]).validate().is_ok());
    let empty = entry(MetricCategory::NetworkTcp, "", "127.0.0.1:1", Some("30s"), "5s");
    let err = flat_config(8080, 4, vec![empty]).validate().unwrap_err();
    assert!(matches!(err, ConfigError::ValidationError(m) if m == "collector name cannot be empty"));
}

#[test]
fn test_to_tcp_config_valid() {
    let e = entry(MetricCategory::NetworkTcp, "redis", "127.0.0.1:6379", Some("30s"), "5s");
    let config = e.to_tcp_config().unwrap();
    assert_eq!(config.name, "redis");
    assert_eq!(config.host, "127.0.0.1");
    assert_eq!(config.port, 6379);
    assert_eq!(config.timeout, Duration::from_secs(5));
    assert_eq!(config.interval, Duration::from_secs(30));
}

#[test]
fn test_to_tcp_config_invalid_host() {
    let e = entry(MetricCategory::NetworkTcp, "test", "invalid-host:6379", Some("30s"), "5s");
    let result = e.to_tcp_config();
    assert!(result.is_err());
    assert!(result.unwrap_err().to_string().contains("invalid IP address"));
}

#[test]
fn test_to_tcp_config_invalid_port() {
    let e = entry(MetricCategory::NetworkTcp, "test", "127.0.0.1:not-a-port", Some("30s"), "5s");
    let result = e.to_tcp_config();
    assert!(result.is_err());
    assert!(result.unwrap_err().to_string().contains("invalid port"));
}

#[test]
fn to_tcp_config_missing_port_and_tags() {
    let e = entry(MetricCategory::NetworkTcp, "x", "localhost", Some("30s"), "5s");
    let err = e.to_tcp_config().unwrap_err();
    assert_eq!(
        err.to_string(),
        "config validation error: collector 'x': target must be in 'host:port' format, got 'localhost'"
    );
    let mut e = entry(MetricCategory::NetworkTcp, "v6", "::1:80", None, "1m");
    e.tags.insert("description".to_string(), "loopback".to_string());
    e.tags.insert("env".to_string(), "prod".to_string());
    let c = e.to_tcp_config().unwrap();
    assert_eq!(c.host, "::1");
    assert_eq!(c.port, 80);
    assert_eq!(c.interval, Duration::from_secs(30));
    assert_eq!(c.timeout, Duration::from_secs(60));
    assert_eq!(c.description, Some("loopback".to_string()));
    assert_eq!(c.tags.get("env"), Some(&"prod".to_string()));
    assert_eq!(c.tags.get("description"), None);
}

#[test]
fn test_to_ping_config_valid() {
    let e = entry(MetricCategory::NetworkPing, "google-dns", "8.8.8.8", Some("60s"), "3s");
    let config = e.to_ping_config().unwrap();
    assert_eq!(config.name, "google-dns");
    assert_eq!(config.host, "8.8.8.8");
    assert_eq!(config.timeout, Duration::from_secs(3));
    assert_eq!(config.interval, Duration::from_secs(60));
}

#[test]
fn test_to_ping_config_hostname_valid() {
    let e = entry(MetricCategory::NetworkPing, "google", "google.com", Some("30s"), "5s");
    let config = e.to_ping_config().unwrap();
    assert_eq!(config.name, "google");
    assert_eq!(config.host, "google.com");
}

#[test]
fn test_to_ping_config_ipv6() {
    let e = entry(MetricCategory::NetworkPing, "localhost-v6", "::1", Some("30s"), "3s");
    let config = e.to_ping_config().unwrap();
    assert_eq!(config.host, "::1");
}

#[test]
fn test_server_config_default() {
    let config = FullServerConfig::default();
    assert_eq!(config.bind, "0.0.0.0");
    assert_eq!(config.port, 8080);
}

#[test]
fn test_database_config_default() {
    let config = FullDatabaseConfig::default();
    assert_eq!(config.path, "oculus.db");
    assert_eq!(config.pool_size, DEFAULT_POOL_SIZE);
    assert_eq!(config.channel_capacity, DEFAULT_CHANNEL_CAPACITY);
    assert_eq!(config.checkpoint_interval, "5s");
}

fn full_config(bind: &str, port: u16, collectors: CollectorsConfig) -> FullConfig {
    FullConfig {
        server: FullServerConfig { bind: bind.to_string(), port },
        database: FullDatabaseConfig::default(),
        collectors,
        collector_path: None,
        collector_sync_interval: default_sync_interval(),
    }
}

#[test]
fn app_test_config_validation_valid() {
    let mut config = full_config(
        "127.0.0.1",
        8080,
        CollectorsConfig { tcp: vec![TcpConfig::new("test-probe", "127.0.0.1", 6379)], ping: vec![], http: vec![] },
    );
    config.database = FullDatabaseConfig {
        path: "./test.db".to_string(),
        pool_size: 4,
        channel_capacity: 1000,
        checkpoint_interval: "5s".to_string(),
    };
    assert!(config.validate().is_ok());
}

#[test]
fn app_test_config_validation_invalid_port() {
    let config = full_config("0.0.0.0", 0, CollectorsConfig::default());
    assert!(config.validate().is_err());
}

#[test]
fn test_config_validation_invalid_bind_address() {
    let config = full_config("not-an-ip", 8080, CollectorsConfig::default());
    let result = config.validate();
    assert!(result.is_err());
    assert!(result.unwrap_err().to_string().contains("invalid server bind address"));
}

#[test]
fn test_collectors_config_merge() {
    let config1 = CollectorsConfig { tcp: vec![TcpConfig::new("tcp-1", "127.0.0.1", 6379)], ping: vec![], http: vec![] };
    let config2 = CollectorsConfig {
        tcp: vec![TcpConfig::new("tcp-2", "127.0.0.1", 6380)],
        ping: vec![PingConfig::new("ping-1", "8.8.8.8")],
        http: vec![],
    };
    let merged = config1.merge(config2);
    assert_eq!(merged.tcp.len(), 2);
    assert_eq!(merged.ping.len(), 1);
}

#[test]
fn test_collectors_config_validate_duplicate_names() {
    let config = CollectorsConfig {
        tcp: vec![TcpConfig::new("duplicate", "127.0.0.1", 6379), TcpConfig::new("duplicate", "127.0.0.1", 6380)],
        ping: vec![],
        http: vec![],
    };
    let result = config.validate();
    assert!(result.is_err());
    assert!(result.unwrap_err().to_string().contains("duplicate"));
}

#[test]
fn test_collectors_config_validate_cross_type_duplicate() {
    let config = CollectorsConfig {
        tcp: vec![TcpConfig::new("same-name", "127.0.0.1", 6379)],
        ping: vec![PingConfig::new("same-name", "8.8.8.8")],
        http: vec![],
    };
    let result = config.validate();
    assert!(result.is_err());
    assert!(result.unwrap_err().to_string().contains("duplicate"));
}

#[test]
fn test_collectors_config_validate_empty_name() {
    let mut tcp = TcpConfig::new("", "127.0.0.1", 6379);
    tcp.name = "".to_string();
    let config = CollectorsConfig { tcp: vec![tcp], ping: vec![], http: vec![] };
    let result = config.validate();
    assert!(result.is_err());
    assert!(result.unwrap_err().to_string().contains("cannot be empty"));
}

#[test]
fn test_collectors_config_validate_invalid_http_url() {
    let mut http = HttpConfig::new("test", "https://valid.url");
    http.url = "not-a-valid-url".to_string();
    let config = CollectorsConfig { tcp: vec![], ping: vec![], http: vec![http] };
    let result = config.validate();
    assert!(result.is_err());
    assert!(result.unwrap_err().to_string().contains("invalid URL"));
}

#[test]
fn test_collectors_config_validate_http_interval_cron_conflict() {
    let mut http = HttpConfig::new("test", "https://valid.url");
    http.interval = Some(Duration::from_secs(30));
    http.cron = Some("0 * * * * *".to_string());
    let config = CollectorsConfig { tcp: vec![], ping: vec![], http: vec![http] };
    let result = config.validate();
    assert!(result.is_err());
    assert!(result.unwrap_err().to_string().contains("cannot specify both interval and cron"));
}

#[test]
fn collectors_validate_tcp_host_and_success() {
    let config = CollectorsConfig { tcp: vec![TcpConfig::new("t", "db.local", 1)], ping: vec![], http: vec![] };
    let err = config.validate().unwrap_err();
    assert_eq!(err.to_string(), "config validation error: tcp collector 't': invalid IP address: 'db.local'");
    let config = CollectorsConfig {
        tcp: vec![TcpConfig::new("t", "10.0.0.1", 1)],
        ping: vec![PingConfig::new("p", "example.com")],
        http: vec![HttpConfig::new("h", "https://example.com/health")],
    };
    assert!(config.validate().is_ok());
}

#[test]
fn collector_records_in_order() {
    let config = full_config(
        "127.0.0.1",
        8080,
        CollectorsConfig {
            tcp: vec![TcpConfig::new("t", "10.0.0.1", 1)],
            ping: vec![PingConfig::new("p", "example.com")],
            http: vec![HttpConfig::new("h", "https://example.com")],
        },
    );
    let records = config.to_collector_records(
        &vec!["{\"t\":1}".to_string()],
        &vec!["{\"p\":1}".to_string()],
        &vec!["{\"h\":1}".to_string()],
    );
    assert_eq!(records.len(), 3);
    assert_eq!(records[0].name, "t");
    assert_eq!(records[1].config, "{\"p\":1}");
    assert_eq!(records[2].collector_type, oculus::storage::collector_store::CollectorType::Http);
}

#[test]
fn config_error_variants() {
    assert_eq!(ConfigError::IoError("x".to_string()).to_string(), "failed to read config file: x");
    assert_eq!(ConfigError::ParseError("y".to_string()).to_string(), "failed to parse YAML config: y");
    assert_eq!(ConfigError::ValidationError("z".to_string()).to_string(), "config validation error: z");
}

#[test]
fn collector_directory_rules() {
    assert!(is_collector_file("yaml"));
    assert!(is_collector_file("yml"));
    assert!(!is_collector_file("json"));
    assert_eq!(missing_dir_error("d").to_string(), "config validation error: collector_path 'd' does not exist");
    assert_eq!(not_a_dir_error("d").to_string(), "config validation error: collector_path 'd' is not a directory");
    assert_eq!(file_parse_error("a.yml", "bad").to_string(), "config validation error: failed to parse 'a.yml': bad");
}

#[test]
fn humantime_errors_pass_through() {
    assert_eq!(parse_span("").unwrap_err(), "duration string is empty");
    assert!(parse_span("5 parsecs").is_err());
    let bad = full_config("127.0.0.1", 8080, CollectorsConfig::default());
    let mut bad = bad;
    bad.database.checkpoint_interval = "soon".to_string();
    assert!(bad.validate().unwrap_err().to_string().contains("database checkpoint_interval: "));
}

#[test]
fn duration_digit_count() {
    assert_eq!(count_significant_digits(""), 0);
    assert_eq!(count_significant_digits("1h 30m"), 3);
    assert_eq!(count_significant_digits(" 2.5s "), 2);
    assert_eq!(count_significant_digits("000000000005s"), 1);
    assert_eq!(count_significant_digits("0.05s"), 1);
    assert_eq!(count_significant_digits("1 0 0s"), 3);
    assert_eq!(count_significant_digits("18446744073709551615s 1000000000ns"), 30);
    assert!(count_significant_digits("99999999999y") <= MAX_DURATION_DIGITS);
    assert_eq!(parse_span("000000000005s").unwrap(), Duration::from_secs(5));
    assert_eq!(parse_span("99999999999y").unwrap(), Duration::from_secs(99_999_999_999 * 31_557_600));
}

#[test]
fn checkpoint_outcome_given() {
    let config = full_config("127.0.0.1", 8080, CollectorsConfig::default());
    assert!(config.validate_with_checkpoint(&Ok(Duration::from_secs(5))).is_ok());
    let e = config.validate_with_checkpoint(&Err("value was empty".to_string())).unwrap_err();
    assert_eq!(e.to_string(), "config validation error: database checkpoint_interval: value was empty");
}

#[test]
fn flat_parse_duration_rejects_without_panicking() {
    assert_eq!(parse_duration("5124095576030432h").unwrap_err(), "invalid number: 5124095576030432");
    assert_eq!(parse_duration("307445734561825861m").unwrap_err(), "invalid number: 307445734561825861");
    assert_eq!(parse_duration("307445734561825860m").unwrap(), Duration::from_secs(307445734561825860 * 60));
    assert_eq!(parse_duration("5é").unwrap_err(), "invalid unit: é. Use 's', 'm', or 'h'");
}
