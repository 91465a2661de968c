use chrono::DateTime;
use tlapix::config::WebhookConfig;
use tlapix::hex::hex_encode;
use tlapix::time::Timestamp;
use tlapix::webhooks::{
    response_outcome, transport_error, Delivery, DeliveryStep, TransportFailure,
    WebhookDeliveryResult, WebhookDispatcher, WebhookEvent, WebhookPayload,
};

#[test]
fn test_webhook_payload_from_event() {
    let event = WebhookEvent {
        correlation_id: "corr-123".to_string(),
        cert_fingerprint: "abcdef0123456789".to_string(),
        action_type: "alert".to_string(),
        severity: "critical".to_string(),
        timestamp: "2024-01-15T10:30:00Z".to_string(),
        reasoning: Some("Certificate expired".to_string()),
    };

    let payload = WebhookPayload::from_event(&event);

    assert_eq!(payload.source, "tlapix");
    assert_eq!(payload.version, "0.1.0");
    assert_eq!(payload.correlation_id, "corr-123");
    assert_eq!(payload.cert_fingerprint, "abcdef0123456789");
    assert_eq!(payload.action_type, "alert");
    assert_eq!(payload.severity, "critical");
    assert_eq!(payload.timestamp, "2024-01-15T10:30:00Z");
    assert_eq!(payload.reasoning, Some("Certificate expired".to_string()));
}


#[test]
fn test_hex_encode() {
    let bytes = [0xab, 0xcd, 0xef, 0x01, 0x23];
    assert_eq!(hex_encode(&bytes), "abcdef0123");
}


#[test]
fn test_hex_encode_all_zeros() {
    let bytes = [0u8; 32];
    let hex = hex_encode(&bytes);
    assert_eq!(hex.len(), 64);
    assert!(hex.chars().all(|c| c == '0'));
}


#[test]
fn test_create_event() {
    let fingerprint = [0xaa; 32];
    let event = WebhookDispatcher::create_event(
        "corr-456",
        &fingerprint,
        "isolate",
        "critical",
        Some("Shadow cert detected"),
    );

    assert_eq!(event.correlation_id, "corr-456");
    assert_eq!(event.cert_fingerprint, "aa".repeat(32));
    assert_eq!(event.action_type, "isolate");
    assert_eq!(event.severity, "critical");
    assert_eq!(event.reasoning, Some("Shadow cert detected".to_string()));
    // timestamp should be a valid ISO 8601 string
    assert!(DateTime::parse_from_rfc3339(&event.timestamp).is_ok());
}


#[test]
fn test_dispatcher_new_empty_configs() {
    let dispatcher = WebhookDispatcher::new(vec![]);
    // Should not panic with empty config
    assert_eq!(dispatcher.configs.len(), 0);
}


fn config(retry_max: u8, retry_base_secs: u64) -> WebhookConfig {
    WebhookConfig {
        endpoint: "http://localhost:9999/hook".to_string(),
        timeout_secs: 10,
        retry_max,
        retry_base_secs,
    }
}

/// Carries a delivery through; gives its result and the waits on the way.
fn deliver(
    config: &WebhookConfig,
    outcomes: Vec<Result<(), String>>,
) -> (WebhookDeliveryResult, Vec<u64>) {
    let mut delivery = Delivery::start(config);
    let mut waits = Vec::new();
    for outcome in outcomes {
        match delivery.report(outcome) {
            DeliveryStep::Retry { after_secs } => waits.push(after_secs),
            DeliveryStep::Done { result } => return (result, waits),
        }
    }
    panic!("the delivery is not over");
}

#[test]
fn test_successful_delivery() {
    let (result, waits) = deliver(&config(3, 1), vec![Ok(())]);
    assert!(result.success);
    assert_eq!(result.attempts, 1);
    assert!(result.error.is_none());
    assert_eq!(result.endpoint, "http://localhost:9999/hook");
    assert!(waits.is_empty());
}

#[test]
fn test_retry_on_server_error() {
    let failure = || response_outcome(500, Some("Internal Server Error"));
    let (result, waits) = deliver(&config(3, 1), vec![failure(), failure(), Ok(())]);
    assert!(result.success);
    assert_eq!(result.attempts, 3); // 2 failures + 1 success
    assert_eq!(waits, vec![1, 2]);
}

#[test]
fn test_exhausted_retries() {
    let failure = || response_outcome(503, Some("Service Unavailable"));
    let (result, waits) = deliver(&config(2, 5), vec![failure(), failure(), failure()]);
    assert!(!result.success);
    assert_eq!(result.attempts, 3); // initial + 2 retries
    assert_eq!(result.error, Some("non-2xx response: 503 Service Unavailable".to_string()));
    assert_eq!(waits, vec![5, 10]);
}

#[test]
fn delivery_without_retries_fails_at_once() {
    let (result, _) = deliver(&config(0, 1), vec![Err("refused".to_string())]);
    assert!(!result.success);
    assert_eq!(result.attempts, 1);
    assert_eq!(result.error, Some("refused".to_string()));
}

#[test]
fn any_number_of_retries_is_accepted() {
    let (result, waits) = deliver(&config(255, 1), vec![Ok(())]);
    assert!(result.success);
    assert_eq!(result.attempts, 1);
    assert_eq!(result.error, None);
    assert!(waits.is_empty());
    let mut delivery = Delivery::start(&config(255, 1));
    assert_eq!(delivery.max_attempts, 256);
    delivery.attempt = 256;
    match delivery.report(Err("refused".to_string())) {
        DeliveryStep::Done { result } => assert_eq!(result.attempts, 256),
        other => panic!("unexpected step {:?}", other),
    }
}

#[test]
fn backoff_that_cannot_be_represented_is_none() {
    let mut delivery = Delivery::start(&config(200, 1));
    assert_eq!(delivery.backoff(), Some(1));
    delivery.attempt = 64;
    assert_eq!(delivery.backoff(), Some(1 << 63));
    delivery.attempt = 65;
    assert_eq!(delivery.backoff(), None);
    let mut delivery = Delivery::start(&config(200, 3));
    delivery.attempt = 64;
    assert_eq!(delivery.backoff(), None);
}

#[test]
fn responses_are_read_by_their_status() {
    assert!(response_outcome(200, None).is_ok());
    assert!(response_outcome(202, Some("Accepted")).is_ok());
    assert!(response_outcome(299, None).is_ok());
    assert_eq!(response_outcome(199, None), Err("non-2xx response: 199 Unknown".to_string()));
    assert_eq!(
        response_outcome(300, Some("Multiple Choices")),
        Err("non-2xx response: 300 Multiple Choices".to_string())
    );
}

#[test]
fn webhooks_test_timeout_handling() {
    assert_eq!(
        transport_error(TransportFailure::Timeout, 1, "x"),
        "request timed out after 1s"
    );
    assert_eq!(transport_error(TransportFailure::Connect, 1, "x"), "connection failed: x");
    assert_eq!(transport_error(TransportFailure::Other, 1, "x"), "request failed: x");
}

#[test]
fn event_timestamp_is_that_of_the_instant() {
    let now = Timestamp::new(1_705_314_600, 0).unwrap();
    let event = WebhookDispatcher::create_event_at("c", &[1; 32], "alert", "low", None, &now);
    assert_eq!(event.timestamp, "2024-01-15T10:30:00+00:00");
    assert_eq!(event.reasoning, None);
}
