use concurrency::util::Metrics as MetricsCap;
use concurrency::util::{page_key, worker_key};
use concurrency::{AmapMetrics, CmapMetrics, HmapMetrics, Metrics, MetricsError};

#[test]
fn test_metrics_counts() {
    let mut m = Metrics::new();
    assert_eq!(m.get("req.page.1"), 0);
    assert!(m.inc("req.page.1").is_ok());
    assert!(m.inc("req.page.1").is_ok());
    assert!(m.inc("req.page.2").is_ok());
    assert_eq!(m.get("req.page.1"), 2);
    assert_eq!(m.get("req.page.2"), 1);
    assert_eq!(m.get("req.page.3"), 0);
}

#[test]
fn test_hmap_metrics_counts() {
    let mut m = HmapMetrics::new();
    assert!(m.inc("call.thread.worker.0").is_ok());
    assert!(m.inc("call.thread.worker.0").is_ok());
    assert!(m.inc("call.thread.worker.1").is_ok());
    assert_eq!(m.get("call.thread.worker.0"), 2);
    assert_eq!(m.get("call.thread.worker.1"), 1);
}

#[test]
fn test_amap_metrics_fixed_keys() {
    let mut m = AmapMetrics::new(&["req.page.1", "req.page.2"]);
    assert_eq!(m.get("req.page.1"), 0);
    assert!(m.inc("req.page.1").is_ok());
    assert!(m.inc("req.page.1").is_ok());
    assert_eq!(m.get("req.page.1"), 2);
    assert_eq!(m.get("req.page.2"), 0);
    assert_eq!(m.inc("req.page.9"), Err(MetricsError::KeyNotFound));
    assert_eq!(m.get("req.page.9"), 0);
}

#[test]
fn test_amap_metrics_repeated_names_collapse() {
    let mut m = AmapMetrics::new(&["a", "a", "b"]);
    assert!(m.inc("a").is_ok());
    assert!(m.inc("a").is_ok());
    assert_eq!(m.get("a"), 2);
    assert_eq!(m.get("b"), 0);
}

#[test]
fn test_cmap_metrics_counts() {
    let mut m = CmapMetrics::new();
    assert!(m.inc("req.page.1").is_ok());
    assert!(m.inc("req.page.1").is_ok());
    assert_eq!(m.get("req.page.1"), 2);
    let mut shared = m.share();
    assert!(shared.inc("req.page.1").is_ok());
    assert_eq!(m.get("req.page.1"), 3);
}

#[test]
fn test_metrics_render() {
    let mut m = Metrics::new();
    assert_eq!(m.render(), "");
    assert!(m.inc("b").is_ok());
    assert!(m.inc("a").is_ok());
    assert!(m.inc("b").is_ok());
    assert_eq!(m.render(), "b: 2\na: 1\n");
}

#[test]
fn test_amap_render() {
    let mut m = AmapMetrics::new(&["x", "y"]);
    assert!(m.inc("y").is_ok());
    assert_eq!(m.render(), "x: 0\ny: 1\n");
}

#[test]
fn test_cmap_render() {
    let mut m = CmapMetrics::new();
    assert_eq!(m.render(), "");
    assert!(m.inc("req.page.1").is_ok());
    assert!(m.inc("req.page.1").is_ok());
    assert_eq!(m.render(), "req.page.1: 2\n");
}

#[test]
fn test_decimal_rendering() {
    assert_eq!(concurrency::text::u64_to_string(0), "0");
    assert_eq!(concurrency::text::u64_to_string(7), "7");
    assert_eq!(concurrency::text::u64_to_string(10090), "10090");
    assert_eq!(concurrency::text::u64_to_string(u64::MAX), "18446744073709551615");
}

#[test]
fn test_worker_and_page_keys() {
    assert_eq!(worker_key(0), "call.thread.worker.0");
    assert_eq!(worker_key(7), "call.thread.worker.7");
    assert_eq!(worker_key(123), "call.thread.worker.123");
    assert_eq!(page_key(1), "req.page.1");
    assert_eq!(page_key(40), "req.page.40");
}
