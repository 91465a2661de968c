//! System metrics in the StatsD line protocol: one datagram `name:value|c` per counter.

use vstd::prelude::*;
use crate::prometheus::{count_up, next_count};
use crate::text::{decimal, push_decimal};

verus! {

/// Name of the counter of TLS certificates discovered in traffic.
pub const CERTIFICATES_DISCOVERED_NAME: &'static str = "tlapix.certificates.discovered";

/// Name of the counter of certificate anomalies detected.
pub const ANOMALIES_DETECTED_NAME: &'static str = "tlapix.anomalies.detected";

/// Name of the counter of renewal predictions generated.
pub const PREDICTIONS_GENERATED_NAME: &'static str = "tlapix.predictions.generated";

/// Name of the counter of action directives carried out.
pub const ACTIONS_EXECUTED_NAME: &'static str = "tlapix.actions.executed";

/// Name of the counter of action directives that failed.
pub const ACTIONS_FAILED_NAME: &'static str = "tlapix.actions.failed";

/// A counter in the StatsD line protocol.
pub open spec fn counter_line(name: Seq<char>, value: nat) -> Seq<char> {
    name + ":"@ + decimal(value) + "|c"@
}

/// A counter in the StatsD line protocol: `name:value|c`.
pub fn format_counter(name: &str, value: u64) -> (r: String)
    ensures
        r@ == counter_line(name@, value as nat),
{
    let mut out = String::from_str(name);
    out.append(":");
    push_decimal(&mut out, value);
    out.append("|c");
    out
}

/// The datagrams that report the counters, in order.
pub open spec fn counter_lines(c: MetricCounters) -> Seq<Seq<char>> {
    seq![
        counter_line(CERTIFICATES_DISCOVERED_NAME@, c.certificates_discovered as nat),
        counter_line(ANOMALIES_DETECTED_NAME@, c.anomalies_detected as nat),
        counter_line(PREDICTIONS_GENERATED_NAME@, c.predictions_generated as nat),
        counter_line(ACTIONS_EXECUTED_NAME@, c.actions_executed as nat),
        counter_line(ACTIONS_FAILED_NAME@, c.actions_failed as nat),
    ]
}

/// Counters that are reported over StatsD.
#[derive(Debug, PartialEq, Eq, Structural)]
pub struct MetricCounters {
    /// Number of TLS certificates discovered in traffic.
    pub certificates_discovered: u64,
    /// Number of certificate anomalies detected.
    pub anomalies_detected: u64,
    /// Number of renewal predictions generated.
    pub predictions_generated: u64,
    /// Number of action directives carried out.
    pub actions_executed: u64,
    /// Number of action directives that failed.
    pub actions_failed: u64,
}

impl MetricCounters {
    /// Counters that all stand at zero.
    pub fn new() -> (r: Self)
        ensures
            r == (MetricCounters {
                certificates_discovered: 0,
                anomalies_detected: 0,
                predictions_generated: 0,
                actions_executed: 0,
                actions_failed: 0,
            }),
    {
        MetricCounters {
            certificates_discovered: 0,
            anomalies_detected: 0,
            predictions_generated: 0,
            actions_executed: 0,
            actions_failed: 0,
        }
    }

    /// Counts one more of TLS certificates discovered in traffic; the count wraps around at the largest `u64`.
    pub fn inc_certificates_discovered(&mut self)
        ensures
            *final(self) == (MetricCounters {
                certificates_discovered: next_count(old(self).certificates_discovered),
                ..*old(self)
            }),
    {
        self.certificates_discovered = count_up(self.certificates_discovered);
    }

    /// Counts one more of certificate anomalies detected; the count wraps around at the largest `u64`.
    pub fn inc_anomalies_detected(&mut self)
        ensures
            *final(self) == (MetricCounters {
                anomalies_detected: next_count(old(self).anomalies_detected),
                ..*old(self)
            }),
    {
        self.anomalies_detected = count_up(self.anomalies_detected);
    }

    /// Counts one more of renewal predictions generated; the count wraps around at the largest `u64`.
    pub fn inc_predictions_generated(&mut self)
        ensures
            *final(self) == (MetricCounters {
                predictions_generated: next_count(old(self).predictions_generated),
                ..*old(self)
            }),
    {
        self.predictions_generated = count_up(self.predictions_generated);
    }

    /// Counts one more of action directives carried out; the count wraps around at the largest `u64`.
    pub fn inc_actions_executed(&mut self)
        ensures
            *final(self) == (MetricCounters {
                actions_executed: next_count(old(self).actions_executed),
                ..*old(self)
            }),
    {
        self.actions_executed = count_up(self.actions_executed);
    }

    /// Counts one more of action directives that failed; the count wraps around at the largest `u64`.
    pub fn inc_actions_failed(&mut self)
        ensures
            *final(self) == (MetricCounters {
                actions_failed: next_count(old(self).actions_failed),
                ..*old(self)
            }),
    {
        self.actions_failed = count_up(self.actions_failed);
    }

    /// The datagrams that report the counters, in order. The counters are not reset.
    pub fn flush_lines(&self) -> (r: Vec<String>)
        ensures
            crate::text::views(r@) == counter_lines(*self),
    {
        let mut out: Vec<String> = Vec::new();
        out.push(format_counter(CERTIFICATES_DISCOVERED_NAME, self.certificates_discovered));
        out.push(format_counter(ANOMALIES_DETECTED_NAME, self.anomalies_detected));
        out.push(format_counter(PREDICTIONS_GENERATED_NAME, self.predictions_generated));
        out.push(format_counter(ACTIONS_EXECUTED_NAME, self.actions_executed));
        out.push(format_counter(ACTIONS_FAILED_NAME, self.actions_failed));
        assert(crate::text::views(out@) =~= counter_lines(*self));
        out
    }
}

impl Default for MetricCounters {
    fn default() -> (r: Self)
        ensures
            r == (MetricCounters {
                certificates_discovered: 0,
                anomalies_detected: 0,
                predictions_generated: 0,
                actions_executed: 0,
                actions_failed: 0,
            }),
    {
        MetricCounters::new()
    }
}

/// A datagram is the name of a counter, a colon, its value in decimal and the mark of a counter.
/// The five counters are reported in order, each under its own name.
pub proof fn every_counter_is_reported_under_its_name(c: MetricCounters)
    ensures
        ({
            let lines = counter_lines(c);
            &&& lines.len() == 5
            &&& lines[0] == "tlapix.certificates.discovered"@ + ":"@ + decimal(
                c.certificates_discovered as nat,
            ) + "|c"@
            &&& lines[1] == "tlapix.anomalies.detected"@ + ":"@ + decimal(
                c.anomalies_detected as nat,
            ) + "|c"@
            &&& lines[2] == "tlapix.predictions.generated"@ + ":"@ + decimal(
                c.predictions_generated as nat,
            ) + "|c"@
            &&& lines[3] == "tlapix.actions.executed"@ + ":"@ + decimal(c.actions_executed as nat)
                + "|c"@
            &&& lines[4] == "tlapix.actions.failed"@ + ":"@ + decimal(c.actions_failed as nat)
                + "|c"@
        }),
{
}

} // verus!
