use std::str::FromStr;

use oculus::clock::{now_micros, timestamp_micros, timestamp_millis};

use oculus::server::{parse_sort_order, range_length, EventsQueryParams, MetricsQueryParams};
use oculus::storage::batch::{cleanup_cutoff_micros, flush_all, handle_command, BatchBuffer, Command, WriteAction};
use oculus::storage::builder::StorageBuilder;
use oculus::storage::collector_store::{plan_sync, CollectorRecord, CollectorSource, CollectorType, SyncResult};
use oculus::storage::error::StorageError;
use oculus::storage::query::{aggregate_stats, parse_map, query_limit, EventQuery, MetricQuery, SortOrder};
use oculus::storage::types::{Event, EventKind, EventSeverity, EventSource, MetricCategory, MetricSeries, StaticTags};
use oculus::time::Duration;

#[test]
fn test_metric_category_from_str() {
    assert_eq!(MetricCategory::from_str("network.tcp").unwrap(), MetricCategory::NetworkTcp);
    assert_eq!(MetricCategory::from_str("crypto").unwrap(), MetricCategory::Crypto);
    assert_eq!(MetricCategory::from_str("CUSTOM").unwrap(), MetricCategory::Custom);
}

#[test]
fn test_metric_category_as_ref() {
    assert_eq!(MetricCategory::NetworkTcp.as_ref(), "network.tcp");
    assert_eq!(MetricCategory::Crypto.as_ref(), "crypto");
}

#[test]
fn test_series_id_computation() {
    let mut tags = StaticTags::new();
    tags.insert("host".to_string(), "prod-1".to_string());
    tags.insert("region".to_string(), "us-west".to_string());

    let id1 = MetricSeries::compute_series_id(MetricCategory::NetworkTcp, "latency", "127.0.0.1:6379", &tags);
    let id2 = MetricSeries::compute_series_id(MetricCategory::NetworkTcp, "latency", "127.0.0.1:6379", &tags);
    assert_eq!(id1, id2);
    let id3 = MetricSeries::compute_series_id(MetricCategory::NetworkTcp, "latency", "127.0.0.1:6380", &tags);
    assert_ne!(id1, id3);
}

#[test]
fn test_series_id_tag_order_independence() {
    let mut tags1 = StaticTags::new();
    tags1.insert("a".to_string(), "1".to_string());
    tags1.insert("b".to_string(), "2".to_string());

    let mut tags2 = StaticTags::new();
    tags2.insert("b".to_string(), "2".to_string());
    tags2.insert("a".to_string(), "1".to_string());

    let id1 = MetricSeries::compute_series_id(MetricCategory::Custom, "test", "target", &tags1);
    let id2 = MetricSeries::compute_series_id(MetricCategory::Custom, "test", "target", &tags2);
    assert_eq!(id1, id2, "Tag insertion order should not affect series_id");
}

#[test]
fn series_id_matches_xxh64_of_key() {
    let mut tags = StaticTags::new();
    tags.insert("b".to_string(), "2".to_string());
    tags.insert("a".to_string(), "1".to_string());
    let id = MetricSeries::compute_series_id(MetricCategory::Custom, "n", "t", &tags);
    assert_eq!(id, xxhash_rust::xxh64::xxh64(b"custom|n|t|a=1,b=2", 0));
    let empty = MetricSeries::compute_series_id(MetricCategory::Crypto, "n", "t", &StaticTags::new());
    assert_eq!(empty, xxhash_rust::xxh64::xxh64(b"crypto|n|t|", 0));
}

#[test]
fn test_metric_series_new() {
    let tags = StaticTags::new();
    let series = MetricSeries::new(
        MetricCategory::NetworkTcp,
        "latency".to_string(),
        "127.0.0.1:6379".to_string(),
        tags,
        Some("Redis latency".to_string()),
    );

    assert!(series.series_id > 0);
    assert_eq!(series.category, MetricCategory::NetworkTcp);
    assert_eq!(series.name, "latency");
    assert_eq!(series.target, "127.0.0.1:6379");
}

#[test]
fn test_event_kind_from_str() {
    assert_eq!(EventKind::from_str("alert").unwrap(), EventKind::Alert);
    assert_eq!(EventKind::from_str("ERROR").unwrap(), EventKind::Error);
}

#[test]
fn test_event_kind_as_str() {
    assert_eq!(EventKind::Alert.as_ref(), "alert");
    assert_eq!(EventKind::System.as_ref(), "system");
}

#[test]
fn test_event_severity_from_str() {
    assert_eq!(EventSeverity::from_str("critical").unwrap(), EventSeverity::Critical);
    assert_eq!(EventSeverity::from_str("WARN").unwrap(), EventSeverity::Warn);
}

#[test]
fn test_event_severity_as_str() {
    assert_eq!(EventSeverity::Debug.as_ref(), "debug");
    assert_eq!(EventSeverity::Critical.as_ref(), "critical");
}

#[test]
fn event_payloads() {
    let e = Event::new(EventSource::System, EventKind::System, EventSeverity::Info, "Started".to_string())
        .with_payload("version".to_string(), "1.0.0".to_string())
        .with_payload("version".to_string(), "1.0.1".to_string());
    assert_eq!(e.payload.get("version"), Some(&"1.0.1".to_string()));
    assert_eq!(e.payload.len(), 1);
    assert!(e.id.is_none());
}

#[test]
fn test_collector_type_enum() {
    assert_eq!(CollectorType::from_str("tcp").unwrap(), CollectorType::Tcp);
    assert_eq!(CollectorType::from_str("PING").unwrap(), CollectorType::Ping);
    let http_ref: &str = CollectorType::Http.as_ref();
    assert_eq!(http_ref, "http");
    assert_eq!(CollectorSource::from_str("API").unwrap(), CollectorSource::Api);
    assert!(CollectorType::from_str("udp").is_err());
}

fn record(t: CollectorType, name: &str) -> CollectorRecord {
    CollectorRecord::from_config(t, name, true, "default", "{}".to_string())
}

#[test]
fn sync_plan_counts() {
    let existing = vec![
        (CollectorType::Tcp, "tcp-1".to_string()),
        (CollectorType::Ping, "old".to_string()),
        (CollectorType::Ping, "old".to_string()),
    ];
    let configs = vec![record(CollectorType::Tcp, "tcp-1"), record(CollectorType::Http, "http-1")];
    let plan = plan_sync(&existing, &configs);
    assert_eq!(plan.result, SyncResult { added: 1, updated: 1, deleted: 1 });
    assert_eq!(plan.deletes, vec![(CollectorType::Ping, "old".to_string())]);
    let r = record(CollectorType::Tcp, "x");
    assert_eq!(r.source, CollectorSource::Config);
    assert_eq!(r.created_at, r.updated_at);
}

#[test]
fn batch_buffer_policy() {
    let mut b: BatchBuffer<u32> = BatchBuffer::new(2, Duration::from_secs(1));
    assert!(b.is_empty());
    assert!(!b.should_flush_after(Duration::from_secs(100)));
    assert_eq!(b.time_until_flush_after(Duration::zero()), Duration::from_secs(60));
    b.push(1);
    assert!(!b.should_flush_after(Duration::from_millis(10)));
    assert!(b.should_flush_after(Duration::from_secs(1)));
    assert_eq!(b.time_until_flush_after(Duration::from_millis(250)), Duration::from_millis(750));
    assert_eq!(b.time_until_flush_after(Duration::from_secs(5)), Duration::zero());
    b.push(2);
    assert!(b.should_flush_after(Duration::zero()));
    assert!(b.should_flush());
    assert_eq!(b.take(), vec![1, 2]);
    assert!(b.is_empty());
    assert_eq!(flush_all(&mut b), None);
}

#[test]
fn writer_commands() {
    let mut b: BatchBuffer<u32> = BatchBuffer::new(10, Duration::from_secs(1));
    let (actions, stop) = handle_command(&mut b, Command::InsertMetricValue(7));
    assert!(actions.is_empty() && !stop);
    let (actions, stop) = handle_command(&mut b, Command::CleanupEvents { retention_days: 3 });
    assert!(matches!(actions.as_slice(), [WriteAction::CleanupEvents(3)]) && !stop);
    let (actions, stop) = handle_command(&mut b, Command::Shutdown);
    assert!(stop);
    assert!(matches!(actions.as_slice(), [WriteAction::InsertValues(v)] if v == &vec![7]));
    let (actions, stop) = handle_command(&mut b, Command::Flush);
    assert!(actions.is_empty() && !stop);
    assert_eq!(cleanup_cutoff_micros(1_000_000_000_000, 1), 1_000_000_000_000 - 86_400_000_000);
}

#[test]
fn storage_builder_settings() {
    let b = StorageBuilder::new("sqlite::memory:");
    assert_eq!(b.db_url(), "sqlite::memory:");
    assert_eq!(b.configured_channel_capacity(), 10_000);
    assert_eq!(b.configured_batch_size(), 500);
    assert_eq!(b.configured_batch_flush_interval(), Duration::from_secs(1));
    let b = b.channel_capacity(100).batch_size(10).batch_flush_interval(Duration::from_millis(50));
    assert_eq!(b.configured_channel_capacity(), 100);
    assert_eq!(b.configured_batch_size(), 10);
    assert_eq!(b.configured_batch_flush_interval(), Duration::from_millis(50));
}

#[test]
fn storage_error_messages() {
    assert_eq!(StorageError::ChannelSend.to_string(), "failed to send command to writer actor");
    assert_eq!(StorageError::Internal("x".to_string()).to_string(), "internal error: x");
}

#[test]
fn sort_order_names() {
    assert_eq!(SortOrder::default(), SortOrder::Desc);
    assert_eq!(SortOrder::from_str("asc"), Ok(SortOrder::Asc));
    assert!(SortOrder::from_str("ASC").is_err());
    assert_eq!(SortOrder::Asc.as_sql(), "ASC");
    assert_eq!(SortOrder::Desc.as_ref(), "desc");
}

#[test]
fn query_limits() {
    assert_eq!(query_limit(None), 100);
    assert_eq!(query_limit(Some(5)), 5);
    assert_eq!(query_limit(Some(50_000)), 10_000);
}

#[test]
fn metric_query_plan() {
    let mut q = MetricQuery::default();
    q.category = Some(MetricCategory::NetworkTcp);
    q.target = Some("host1".to_string());
    q.order = Some(SortOrder::Asc);
    q.limit = Some(5);
    let p = q.plan(10_000_000_000_000);
    assert!(p.sql.ends_with("WHERE v.ts >= ? AND v.ts <= ? AND s.category = ? AND s.target = ? ORDER BY v.ts ASC LIMIT ?"));
    assert_eq!(p.filters, vec!["network.tcp".to_string(), "host1".to_string()]);
    assert_eq!(p.start, 10_000_000_000_000 - 2_592_000_000_000);
    assert_eq!(p.end, 10_000_000_000_000);
    assert_eq!(p.limit, 5);
}

#[test]
fn event_query_plan() {
    let mut q = EventQuery::default();
    q.severity = Some(EventSeverity::Error);
    q.start = Some(1);
    q.end = Some(2);
    let p = q.plan(3);
    assert!(p.sql.ends_with("WHERE ts >= ? AND ts <= ? AND severity = ? ORDER BY ts DESC LIMIT ?"));
    assert_eq!(p.filters, vec!["error".to_string()]);
    assert_eq!((p.start, p.end, p.limit), (1, 2, 100));
}

#[test]
fn stats_aggregation() {
    let rows = vec![
        ("network.tcp".to_string(), true, 5u64),
        ("crypto".to_string(), false, 2u64),
        ("network.tcp".to_string(), false, 1u64),
        ("crypto".to_string(), true, 3u64),
    ];
    let s = aggregate_stats(&rows);
    assert_eq!((s.total, s.success_count, s.failure_count), (11, 8, 3));
    assert_eq!(s.by_category.len(), 2);
    assert_eq!(s.by_category[0].category, "crypto");
    assert_eq!((s.by_category[0].total, s.by_category[0].success, s.by_category[0].failure), (5, 3, 2));
    assert_eq!(s.by_category[1].category, "network.tcp");
    assert_eq!((s.by_category[1].total, s.by_category[1].success, s.by_category[1].failure), (6, 5, 1));
    let empty = aggregate_stats(&Vec::new());
    assert_eq!(empty.total, 0);
    assert!(empty.by_category.is_empty());
}

#[test]
fn stored_maps() {
    assert!(parse_map("").is_empty());
    assert!(parse_map("{}").is_empty());
    assert!(parse_map("not json").is_empty());
    let m = parse_map("{\"b\":\"2\",\"a\":\"1\"}");
    assert_eq!(m.len(), 2);
    assert_eq!(m.get("a"), Some(&"1".to_string()));
    let e = Event::from_row(9, 5, "BOGUS", "alert", "WARN", "m".to_string(), None);
    assert_eq!(e.id, Some(9));
    assert_eq!(e.source, EventSource::System);
    assert_eq!(e.kind, EventKind::Alert);
    assert_eq!(e.severity, EventSeverity::Warn);
    assert!(e.payload.is_empty());
}

#[test]
fn server_parameters() {
    assert_eq!(parse_sort_order(Some("ASC".to_string())), Some(SortOrder::Asc));
    assert_eq!(parse_sort_order(Some("Desc".to_string())), Some(SortOrder::Desc));
    assert_eq!(parse_sort_order(Some("up".to_string())), None);
    assert_eq!(parse_sort_order(None), None);
    assert_eq!(range_length("7d"), Some(604_800_000_000));
    assert_eq!(range_length("2d"), None);
    let params = MetricsQueryParams {
        category: Some("NETWORK.TCP".to_string()),
        name: Some(String::new()),
        target: Some("host".to_string()),
        limit: Some(10),
        order: Some("asc".to_string()),
        range: Some("1h".to_string()),
    };
    let q = params.to_query_at(10_000_000_000);
    assert_eq!(q.category, Some(MetricCategory::NetworkTcp));
    assert_eq!(q.name, None);
    assert_eq!(q.target, Some("host".to_string()));
    assert_eq!(q.start, Some(10_000_000_000 - 3_600_000_000));
    assert_eq!(q.order, Some(SortOrder::Asc));
    let params = EventsQueryParams {
        source: None,
        kind: Some("alert".to_string()),
        severity: Some("bogus".to_string()),
        limit: None,
        order: None,
        range: Some("5y".to_string()),
    };
    let q = params.to_query_at(0);
    assert_eq!(q.kind, Some(EventKind::Alert));
    assert_eq!(q.severity, None);
    assert_eq!(q.start, None);
}

#[test]
fn batching_writes_every_value_once_in_order() {
    let mut b: BatchBuffer<u32> = BatchBuffer::new(100, Duration::from_secs(1));
    let mut written: Vec<u32> = Vec::new();
    let cmds = vec![
        Command::InsertMetricValue(1),
        Command::InsertMetricValue(2),
        Command::Flush,
        Command::InsertMetricValue(3),
        Command::CleanupMetricValues { retention_days: 7 },
        Command::InsertMetricValue(4),
        Command::Shutdown,
    ];
    for cmd in cmds {
        let (actions, _) = handle_command(&mut b, cmd);
        for a in actions {
            if let WriteAction::InsertValues(v) = a {
                written.extend(v);
            }
        }
    }
    assert_eq!(written, vec![1, 2, 3, 4]);
    assert!(b.is_empty());
}

#[test]
fn storage_error_variants() {
    assert_eq!(StorageError::Database("d".to_string()).to_string(), "database error: d");
    assert_eq!(StorageError::Json("j".to_string()).to_string(), "json error: j");
    assert_eq!(StorageError::InvalidData("v".to_string()).to_string(), "invalid data: v");
    assert_eq!(StorageError::Migration("m".to_string()).to_string(), "migration error: m");
}

#[test]
fn collector_record_from_api() {
    let r = CollectorRecord::from_api(CollectorType::Ping, "p", false, "g", "{}".to_string());
    assert_eq!(r.source, CollectorSource::Api);
    assert!(!r.enabled);
    assert_eq!(r.group_name, "g");
    assert!(r.id.is_none());
}

#[test]
fn test_collector_sync() {
    // First synchronisation: nothing stored yet.
    let configs = vec![
        CollectorRecord::from_config(CollectorType::Tcp, "tcp-1", true, "default", "{}".to_string()),
        CollectorRecord::from_config(CollectorType::Ping, "ping-1", true, "default", "{}".to_string()),
    ];
    let plan = plan_sync(&Vec::new(), &configs);
    assert_eq!(plan.result.added, 2);
    assert_eq!(plan.result.updated, 0);
    assert_eq!(plan.result.deleted, 0);

    // Second synchronisation: one collector removed and one added.
    let mut stored: Vec<(CollectorType, String)> =
        configs.iter().map(|r| (r.collector_type, r.name.clone())).collect();
    let configs = vec![
        CollectorRecord::from_config(CollectorType::Tcp, "tcp-1", true, "default", "{}".to_string()),
        CollectorRecord::from_config(CollectorType::Http, "http-1", true, "default", "{}".to_string()),
    ];
    let plan = plan_sync(&stored, &configs);
    assert_eq!(plan.result.added, 1);
    assert_eq!(plan.result.updated, 1);
    assert_eq!(plan.result.deleted, 1);

    for r in &configs {
        let key = (r.collector_type, r.name.clone());
        if !stored.contains(&key) {
            stored.push(key);
        }
    }
    stored.retain(|k| !plan.deletes.contains(k));
    assert_eq!(stored.len(), 2);
}

#[test]
fn sync_plan_from_empty_then_changed() {
    let first = vec![record(CollectorType::Tcp, "tcp-1"), record(CollectorType::Ping, "ping-1")];
    let plan = plan_sync(&Vec::new(), &first);
    assert_eq!(plan.result, SyncResult { added: 2, updated: 0, deleted: 0 });
    let stored = vec![(CollectorType::Tcp, "tcp-1".to_string()), (CollectorType::Ping, "ping-1".to_string())];
    let second = vec![record(CollectorType::Tcp, "tcp-1"), record(CollectorType::Http, "http-1")];
    let plan = plan_sync(&stored, &second);
    assert_eq!(plan.result, SyncResult { added: 1, updated: 1, deleted: 1 });
    assert_eq!(plan.deletes, vec![(CollectorType::Ping, "ping-1".to_string())]);
}

#[test]
fn sort_order_parameter_ignores_ascii_case() {
    assert_eq!(parse_sort_order(Some("ASC".to_string())), Some(SortOrder::Asc));
    assert_eq!(parse_sort_order(Some("Desc".to_string())), Some(SortOrder::Desc));
    assert_eq!(parse_sort_order(Some("up".to_string())), None);
    assert_eq!(parse_sort_order(None), None);
}

#[test]
fn clock_readings_in_steps() {
    assert_eq!(timestamp_micros(Ok(Duration::new(2, 500_000_999))), 2_500_000);
    assert_eq!(timestamp_micros(Err(Duration::new(1, 1_500))), -1_000_001);
    assert_eq!(timestamp_micros(Err(Duration::new(u64::MAX, 0))), -8_400_000_000_000_000_000);
    assert_eq!(timestamp_micros(Ok(Duration::new(u64::MAX, 0))), i64::MAX);
    assert_eq!(timestamp_millis(Ok(Duration::new(3, 7_000_000))), 3_007);
    assert_eq!(timestamp_millis(Err(Duration::new(0, 2_000_000))), -2);
    assert_eq!(timestamp_millis(Err(Duration::new(u64::MAX, 0))), i64::MIN);
    assert!(now_micros() > 1_600_000_000_000_000);
}
