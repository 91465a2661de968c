use std::sync::{Arc, Mutex};
use tlapix::prometheus::PrometheusMetrics;
use tlapix::statsd::{format_counter, MetricCounters};

#[test]
fn test_metrics_initial_values() {
    let metrics = PrometheusMetrics::new();
    assert_eq!(
        metrics.certificates_discovered,
        0
    );
    assert_eq!(metrics.anomalies_detected, 0);
    assert_eq!(metrics.predictions_generated, 0);
    assert_eq!(metrics.actions_executed, 0);
    assert_eq!(metrics.actions_failed, 0);
}


#[test]
fn test_counter_increments() {
    let mut metrics = PrometheusMetrics::new();

    metrics.inc_certificates_discovered();
    metrics.inc_certificates_discovered();
    metrics.inc_anomalies_detected();
    metrics.inc_predictions_generated();
    metrics.inc_predictions_generated();
    metrics.inc_predictions_generated();
    metrics.inc_actions_executed();
    metrics.inc_actions_failed();
    metrics.inc_actions_failed();

    assert_eq!(
        metrics.certificates_discovered,
        2
    );
    assert_eq!(metrics.anomalies_detected, 1);
    assert_eq!(metrics.predictions_generated, 3);
    assert_eq!(metrics.actions_executed, 1);
    assert_eq!(metrics.actions_failed, 2);
}


#[test]
fn test_render_format() {
    let mut metrics = PrometheusMetrics::new();
    metrics.inc_certificates_discovered();
    metrics.inc_anomalies_detected();

    let output = metrics.render();

    // Verify HELP lines
    assert!(output.contains("# HELP tlapix_certificates_discovered"));
    assert!(output.contains("# HELP tlapix_anomalies_detected"));
    assert!(output.contains("# HELP tlapix_predictions_generated"));
    assert!(output.contains("# HELP tlapix_actions_executed"));
    assert!(output.contains("# HELP tlapix_actions_failed"));

    // Verify TYPE lines
    assert!(output.contains("# TYPE tlapix_certificates_discovered counter"));
    assert!(output.contains("# TYPE tlapix_anomalies_detected counter"));
    assert!(output.contains("# TYPE tlapix_predictions_generated counter"));
    assert!(output.contains("# TYPE tlapix_actions_executed counter"));
    assert!(output.contains("# TYPE tlapix_actions_failed counter"));

    // Verify metric values
    assert!(output.contains("tlapix_certificates_discovered 1"));
    assert!(output.contains("tlapix_anomalies_detected 1"));
    assert!(output.contains("tlapix_predictions_generated 0"));
    assert!(output.contains("tlapix_actions_executed 0"));
    assert!(output.contains("tlapix_actions_failed 0"));
}


#[test]
fn test_render_zero_values() {
    let metrics = PrometheusMetrics::new();
    let output = metrics.render();

    assert!(output.contains("tlapix_certificates_discovered 0"));
    assert!(output.contains("tlapix_anomalies_detected 0"));
    assert!(output.contains("tlapix_predictions_generated 0"));
    assert!(output.contains("tlapix_actions_executed 0"));
    assert!(output.contains("tlapix_actions_failed 0"));
}


#[test]
fn test_default_trait() {
    let metrics = PrometheusMetrics::default();
    assert_eq!(
        metrics.certificates_discovered,
        0
    );
}


/// Counters behind one lock are the same through every handle on it.
#[test]
fn test_metrics_is_clone() {
    let metrics = Arc::new(Mutex::new(PrometheusMetrics::new()));
    metrics.lock().unwrap().inc_certificates_discovered();

    let cloned = metrics.clone();
    // Both should see the same counter value
    assert_eq!(metrics.lock().unwrap().certificates_discovered, 1);
    assert_eq!(cloned.lock().unwrap().certificates_discovered, 1);

    // Incrementing via clone should be visible from original
    cloned.lock().unwrap().inc_certificates_discovered();
    assert_eq!(metrics.lock().unwrap().certificates_discovered, 2);
    assert_eq!(cloned.lock().unwrap().certificates_discovered, 2);
    assert!(metrics.lock().unwrap().render().contains("tlapix_certificates_discovered 2"));
    assert_eq!(metrics.lock().unwrap().anomalies_detected, 0);
    assert_eq!(metrics.lock().unwrap().predictions_generated, 0);
    assert_eq!(metrics.lock().unwrap().actions_executed, 0);
    assert_eq!(metrics.lock().unwrap().actions_failed, 0);
}

#[test]
fn render_is_exact() {
    let mut metrics = PrometheusMetrics::new();
    metrics.certificates_discovered = 10;
    metrics.inc_actions_failed();
    let expected = "# HELP tlapix_certificates_discovered Number of TLS certificates discovered\n\
        # TYPE tlapix_certificates_discovered counter\n\
        tlapix_certificates_discovered 10\n\
        \n\
        # HELP tlapix_anomalies_detected Number of anomalies detected\n\
        # TYPE tlapix_anomalies_detected counter\n\
        tlapix_anomalies_detected 0\n\
        \n\
        # HELP tlapix_predictions_generated Number of renewal predictions generated\n\
        # TYPE tlapix_predictions_generated counter\n\
        tlapix_predictions_generated 0\n\
        \n\
        # HELP tlapix_actions_executed Number of action directives successfully executed\n\
        # TYPE tlapix_actions_executed counter\n\
        tlapix_actions_executed 0\n\
        \n\
        # HELP tlapix_actions_failed Number of action directives that failed execution\n\
        # TYPE tlapix_actions_failed counter\n\
        tlapix_actions_failed 1\n";
    assert_eq!(metrics.render(), expected);
}

#[test]
fn counters_wrap_around() {
    let mut metrics = PrometheusMetrics::new();
    metrics.anomalies_detected = u64::MAX;
    metrics.inc_anomalies_detected();
    assert_eq!(metrics.anomalies_detected, 0);
}

#[test]
fn test_format_counter_basic() {
    assert_eq!(
        format_counter("tlapix.certificates.discovered", 1),
        "tlapix.certificates.discovered:1|c"
    );
}


#[test]
fn test_format_counter_zero() {
    assert_eq!(
        format_counter("tlapix.actions.failed", 0),
        "tlapix.actions.failed:0|c"
    );
}


#[test]
fn test_format_counter_large_value() {
    assert_eq!(
        format_counter("tlapix.anomalies.detected", 999999),
        "tlapix.anomalies.detected:999999|c"
    );
}


#[test]
fn test_format_all_metric_names() {
    let metrics = [
        "tlapix.certificates.discovered",
        "tlapix.anomalies.detected",
        "tlapix.predictions.generated",
        "tlapix.actions.executed",
        "tlapix.actions.failed",
    ];

    for name in &metrics {
        let formatted = format_counter(name, 42);
        assert!(formatted.ends_with("|c"), "Should end with |c type indicator");
        assert!(
            formatted.contains(':'),
            "Should contain : separator between name and value"
        );
        let parts: Vec<&str> = formatted.splitn(2, ':').collect();
        assert_eq!(parts[0], *name);
        assert_eq!(parts[1], "42|c");
    }
}


#[test]
fn test_metric_counters_increment() {
    let mut counters = MetricCounters::new();

    counters.inc_certificates_discovered();
    counters.inc_certificates_discovered();
    counters.inc_anomalies_detected();
    counters.inc_predictions_generated();
    counters.inc_actions_executed();
    counters.inc_actions_executed();
    counters.inc_actions_executed();
    counters.inc_actions_failed();

    assert_eq!(
        counters.certificates_discovered,
        2
    );
    assert_eq!(counters.anomalies_detected, 1);
    assert_eq!(counters.predictions_generated, 1);
    assert_eq!(counters.actions_executed, 3);
    assert_eq!(counters.actions_failed, 1);
}


#[test]
fn test_metric_counters_default_zero() {
    let counters = MetricCounters::new();

    assert_eq!(
        counters.certificates_discovered,
        0
    );
    assert_eq!(counters.anomalies_detected, 0);
    assert_eq!(counters.predictions_generated, 0);
    assert_eq!(counters.actions_executed, 0);
    assert_eq!(counters.actions_failed, 0);
}


#[test]
fn test_flush_metrics_sends_all() {
    let mut counters = MetricCounters::new();
    counters.certificates_discovered = 10;
    counters.anomalies_detected = 3;
    counters.predictions_generated = 7;
    counters.actions_executed = 2;
    counters.actions_failed = 1;
    assert_eq!(
        counters.flush_lines(),
        vec![
            "tlapix.certificates.discovered:10|c",
            "tlapix.anomalies.detected:3|c",
            "tlapix.predictions.generated:7|c",
            "tlapix.actions.executed:2|c",
            "tlapix.actions.failed:1|c"
        ]
    );
}
