//! System metrics in the Prometheus text exposition format.
//!
//! - `tlapix_certificates_discovered`: TLS certificates discovered
//! - `tlapix_anomalies_detected`: anomalies detected
//! - `tlapix_predictions_generated`: renewal predictions generated
//! - `tlapix_actions_executed`: directives carried out
//! - `tlapix_actions_failed`: directives that failed

use vstd::prelude::*;
use crate::text::{decimal, push_decimal};

verus! {

/// The content type of the exposition format.
pub const CONTENT_TYPE: &'static str = "text/plain; version=0.0.4; charset=utf-8";

/// Text in front of a count.
pub const CERTIFICATES_DISCOVERED_HEAD: &'static str =
    "# HELP tlapix_certificates_discovered Number of TLS certificates discovered\n# TYPE tlapix_certificates_discovered counter\ntlapix_certificates_discovered ";

/// Text in front of a count.
pub const ANOMALIES_DETECTED_HEAD: &'static str =
    "\n\n# HELP tlapix_anomalies_detected Number of anomalies detected\n# TYPE tlapix_anomalies_detected counter\ntlapix_anomalies_detected ";

/// Text in front of a count.
pub const PREDICTIONS_GENERATED_HEAD: &'static str =
    "\n\n# HELP tlapix_predictions_generated Number of renewal predictions generated\n# TYPE tlapix_predictions_generated counter\ntlapix_predictions_generated ";

/// Text in front of a count.
pub const ACTIONS_EXECUTED_HEAD: &'static str =
    "\n\n# HELP tlapix_actions_executed Number of action directives successfully executed\n# TYPE tlapix_actions_executed counter\ntlapix_actions_executed ";

/// Text in front of a count.
pub const ACTIONS_FAILED_HEAD: &'static str =
    "\n\n# HELP tlapix_actions_failed Number of action directives that failed execution\n# TYPE tlapix_actions_failed counter\ntlapix_actions_failed ";

/// A count after one more: it wraps around at the largest `u64`.
pub open spec fn next_count(n: u64) -> u64 {
    if n == u64::MAX {
        0
    } else {
        (n + 1) as u64
    }
}

/// Counts one more.
pub fn count_up(n: u64) -> (r: u64)
    ensures
        r == next_count(n),
{
    if n == u64::MAX {
        0
    } else {
        n + 1
    }
}

/// The exposition of five counts.
pub open spec fn exposition(m: PrometheusMetrics) -> Seq<char> {
    CERTIFICATES_DISCOVERED_HEAD@ + decimal(m.certificates_discovered as nat)
        + ANOMALIES_DETECTED_HEAD@ + decimal(m.anomalies_detected as nat)
        + PREDICTIONS_GENERATED_HEAD@ + decimal(m.predictions_generated as nat)
        + ACTIONS_EXECUTED_HEAD@ + decimal(m.actions_executed as nat) + ACTIONS_FAILED_HEAD@
        + decimal(m.actions_failed as nat) + "\n"@
}

/// Counters that the Prometheus endpoint shows. They have one owner and no copy: a service that
/// counts and one that shows the counts hold them behind one lock.
#[derive(Debug, PartialEq, Eq, Structural)]
pub struct PrometheusMetrics {
    /// Number of TLS certificates discovered in traffic.
    pub certificates_discovered: u64,
    /// Number of certificate anomalies detected.
    pub anomalies_detected: u64,
    /// Number of renewal predictions generated.
    pub predictions_generated: u64,
    /// Number of action directives carried out.
    pub actions_executed: u64,
    /// Number of action directives that failed.
    pub actions_failed: u64,
}

impl PrometheusMetrics {
    /// Counters that all stand at zero.
    pub fn new() -> (r: Self)
        ensures
            r == (PrometheusMetrics {
                certificates_discovered: 0,
                anomalies_detected: 0,
                predictions_generated: 0,
                actions_executed: 0,
                actions_failed: 0,
            }),
    {
        PrometheusMetrics {
            certificates_discovered: 0,
            anomalies_detected: 0,
            predictions_generated: 0,
            actions_executed: 0,
            actions_failed: 0,
        }
    }

    /// Counts one more of TLS certificates discovered in traffic; the count wraps around at the largest `u64`.
    pub fn inc_certificates_discovered(&mut self)
        ensures
            *final(self) == (PrometheusMetrics {
                certificates_discovered: next_count(old(self).certificates_discovered),
                ..*old(self)
            }),
    {
        self.certificates_discovered = count_up(self.certificates_discovered);
    }

    /// Counts one more of certificate anomalies detected; the count wraps around at the largest `u64`.
    pub fn inc_anomalies_detected(&mut self)
        ensures
            *final(self) == (PrometheusMetrics {
                anomalies_detected: next_count(old(self).anomalies_detected),
                ..*old(self)
            }),
    {
        self.anomalies_detected = count_up(self.anomalies_detected);
    }

    /// Counts one more of renewal predictions generated; the count wraps around at the largest `u64`.
    pub fn inc_predictions_generated(&mut self)
        ensures
            *final(self) == (PrometheusMetrics {
                predictions_generated: next_count(old(self).predictions_generated),
                ..*old(self)
            }),
    {
        self.predictions_generated = count_up(self.predictions_generated);
    }

    /// Counts one more of action directives carried out; the count wraps around at the largest `u64`.
    pub fn inc_actions_executed(&mut self)
        ensures
            *final(self) == (PrometheusMetrics {
                actions_executed: next_count(old(self).actions_executed),
                ..*old(self)
            }),
    {
        self.actions_executed = count_up(self.actions_executed);
    }

    /// Counts one more of action directives that failed; the count wraps around at the largest `u64`.
    pub fn inc_actions_failed(&mut self)
        ensures
            *final(self) == (PrometheusMetrics {
                actions_failed: next_count(old(self).actions_failed),
                ..*old(self)
            }),
    {
        self.actions_failed = count_up(self.actions_failed);
    }

    /// All counters in the Prometheus text exposition format.
    pub fn render(&self) -> (r: String)
        ensures
            r@ == exposition(*self),
    {
        let mut out = String::from_str(CERTIFICATES_DISCOVERED_HEAD);
        push_decimal(&mut out, self.certificates_discovered);
        out.append(ANOMALIES_DETECTED_HEAD);
        push_decimal(&mut out, self.anomalies_detected);
        out.append(PREDICTIONS_GENERATED_HEAD);
        push_decimal(&mut out, self.predictions_generated);
        out.append(ACTIONS_EXECUTED_HEAD);
        push_decimal(&mut out, self.actions_executed);
        out.append(ACTIONS_FAILED_HEAD);
        push_decimal(&mut out, self.actions_failed);
        out.append("\n");
        out
    }
}

impl Default for PrometheusMetrics {
    fn default() -> (r: Self)
        ensures
            r == (PrometheusMetrics {
                certificates_discovered: 0,
                anomalies_detected: 0,
                predictions_generated: 0,
                actions_executed: 0,
                actions_failed: 0,
            }),
    {
        PrometheusMetrics::new()
    }
}

/// A count goes up by one, and from the largest back to zero.
pub proof fn counts_go_up_by_one(n: u64)
    ensures
        n < u64::MAX ==> next_count(n) == n + 1,
        n == u64::MAX ==> next_count(n) == 0,
{
}

/// Each of the five counts stands behind its own name, in decimal.
pub proof fn every_count_stands_behind_its_name(m: PrometheusMetrics)
    ensures
        exposition(m)
            == "# HELP tlapix_certificates_discovered Number of TLS certificates discovered\n# TYPE tlapix_certificates_discovered counter\ntlapix_certificates_discovered "@
            + decimal(m.certificates_discovered as nat)
            + "\n\n# HELP tlapix_anomalies_detected Number of anomalies detected\n# TYPE tlapix_anomalies_detected counter\ntlapix_anomalies_detected "@
            + decimal(m.anomalies_detected as nat)
            + "\n\n# HELP tlapix_predictions_generated Number of renewal predictions generated\n# TYPE tlapix_predictions_generated counter\ntlapix_predictions_generated "@
            + decimal(m.predictions_generated as nat)
            + "\n\n# HELP tlapix_actions_executed Number of action directives successfully executed\n# TYPE tlapix_actions_executed counter\ntlapix_actions_executed "@
            + decimal(m.actions_executed as nat)
            + "\n\n# HELP tlapix_actions_failed Number of action directives that failed execution\n# TYPE tlapix_actions_failed counter\ntlapix_actions_failed "@
            + decimal(m.actions_failed as nat) + "\n"@,
{
}

} // verus!
