use rpa_source::ai::AiCapabilities;
use rpa_source::metrics::{Metrics, PerformanceTimer};
use std::time::Duration;

#[test]
fn performance_timer_measures() {
    let timer = PerformanceTimer::start();
    let first = timer.elapsed();
    let ms = timer.elapsed_millis();
    let us = timer.elapsed_micros();
    assert!(timer.elapsed() >= first);
    assert!(us >= ms * 1000);
}

#[test]
fn metrics_record_and_clear() {
    let mut metrics = Metrics::new();
    assert_eq!(metrics.get_max_time("parse"), None);
    metrics.record_operation("parse", Duration::from_millis(5));
    metrics.record_operation("parse", Duration::from_millis(12));
    metrics.record_operation_time("lint".to_string(), Duration::from_micros(3500));
    metrics.record_operation("parse", Duration::from_millis(7));
    assert_eq!(metrics.get_max_time("parse"), Some(12));
    assert_eq!(metrics.get_max_time("lint"), Some(3));
    assert_eq!(metrics.operation_times.get("parse").unwrap(), &vec![5, 12, 7]);
    metrics.record_memory_usage(1024);
    let err = std::io::Error::new(std::io::ErrorKind::Other, "x");
    metrics.record_error(&err);
    assert_eq!(metrics.error_count, 1);
    assert_eq!(metrics.memory_usage, vec![1024]);
    metrics.clear();
    assert_eq!(metrics.error_count, 0);
    assert!(metrics.memory_usage.is_empty());
    assert_eq!(metrics.get_max_time("parse"), None);
}

#[test]
fn default_ai_capabilities() {
    let caps = AiCapabilities::default();
    assert!(caps.supports_completion);
    assert!(!caps.supports_streaming);
    assert_eq!(caps.max_tokens, None);
    assert_eq!(caps.supported_languages, vec!["rust", "python", "javascript"]);
}
