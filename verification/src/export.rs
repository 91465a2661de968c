//! Fan-out of events to the export channels: OTLP, Prometheus, StatsD and webhooks.
//!
//! The channels are independent: what happens in one changes nothing in another.

use vstd::prelude::*;
use crate::config::{ObservabilityConfig, WebhookConfig};
use crate::prometheus::{next_count, PrometheusMetrics};
use crate::statsd::{counter_lines, MetricCounters};
use crate::text::{clone_text, views};
use crate::webhooks::{WebhookDeliveryResult, WebhookDispatcher, WebhookEvent};

verus! {

/// An event for all channels.
#[derive(Clone, Debug)]
pub struct ExportEvent {
    /// Links the event to its audit trail.
    pub correlation_id: String,
    /// Fingerprint of the certificate in hexadecimal.
    pub cert_fingerprint: String,
    /// The action: alert, renew, protect or isolate.
    pub action_type: String,
    /// The severity: low, medium, high or critical.
    pub severity: String,
    /// When, in ISO 8601 notation.
    pub timestamp: String,
    /// The metric to count.
    pub metric_name: MetricName,
    /// Why, in words.
    pub reasoning: Option<String>,
}

/// The metrics that are counted.
#[derive(Clone, Copy, Debug, PartialEq, Eq, Hash, Structural)]
pub enum MetricName {
    CertificatesDiscovered,
    AnomaliesDetected,
    PredictionsGenerated,
    ActionsExecuted,
    ActionsFailed,
}

/// Health of one channel.
#[derive(Clone, Copy, Debug, PartialEq, Eq, Structural)]
pub enum ChannelHealth {
    /// It works.
    Healthy,
    /// It failed and may recover.
    Degraded,
    /// It is not configured, or could not be set up.
    Disabled,
}

/// Health of all channels.
#[derive(Clone, Copy, Debug, PartialEq, Eq, Structural)]
pub struct ChannelStatus {
    pub otlp: ChannelHealth,
    pub prometheus: ChannelHealth,
    pub statsd: ChannelHealth,
    pub webhooks: ChannelHealth,
}

/// What the channels outside the process are to be given for one event.
#[derive(Clone, Debug)]
pub struct ExportActions {
    /// The metric to count over OTLP.
    pub otlp: Option<MetricName>,
    /// The datagrams to send over StatsD.
    pub statsd: Option<Vec<String>>,
    /// The event to dispatch to the webhooks.
    pub webhook: Option<WebhookEvent>,
}

/// The Prometheus counters after one more of the given metric.
pub open spec fn prometheus_counted(m: PrometheusMetrics, metric: MetricName) -> PrometheusMetrics {
    match metric {
        MetricName::CertificatesDiscovered => PrometheusMetrics {
            certificates_discovered: next_count(m.certificates_discovered),
            ..m
        },
        MetricName::AnomaliesDetected => PrometheusMetrics {
            anomalies_detected: next_count(m.anomalies_detected),
            ..m
        },
        MetricName::PredictionsGenerated => PrometheusMetrics {
            predictions_generated: next_count(m.predictions_generated),
            ..m
        },
        MetricName::ActionsExecuted => PrometheusMetrics {
            actions_executed: next_count(m.actions_executed),
            ..m
        },
        MetricName::ActionsFailed => PrometheusMetrics {
            actions_failed: next_count(m.actions_failed),
            ..m
        },
    }
}

/// The StatsD counters after one more of the given metric.
pub open spec fn statsd_counted(m: MetricCounters, metric: MetricName) -> MetricCounters {
    match metric {
        MetricName::CertificatesDiscovered => MetricCounters {
            certificates_discovered: next_count(m.certificates_discovered),
            ..m
        },
        MetricName::AnomaliesDetected => MetricCounters {
            anomalies_detected: next_count(m.anomalies_detected),
            ..m
        },
        MetricName::PredictionsGenerated => MetricCounters {
            predictions_generated: next_count(m.predictions_generated),
            ..m
        },
        MetricName::ActionsExecuted => MetricCounters {
            actions_executed: next_count(m.actions_executed),
            ..m
        },
        MetricName::ActionsFailed => MetricCounters {
            actions_failed: next_count(m.actions_failed),
            ..m
        },
    }
}

/// Whether webhooks are told of a metric: only of actions.
pub open spec fn is_action(metric: MetricName) -> bool {
    metric is ActionsExecuted || metric is ActionsFailed
}

/// The health of a channel that has not failed.
pub open spec fn initial_health(enabled: bool) -> ChannelHealth {
    if enabled {
        ChannelHealth::Healthy
    } else {
        ChannelHealth::Disabled
    }
}

/// Some delivery failed.
pub open spec fn any_failed(results: Seq<WebhookDeliveryResult>) -> bool {
    exists|i: int| 0 <= i < results.len() && !(#[trigger] results[i]).success
}

/// The service after an event of the given metric.
pub open spec fn after_event(s: ExportService, metric: MetricName) -> ExportService {
    ExportService {
        prometheus: match s.prometheus {
            Some(m) => Some(prometheus_counted(m, metric)),
            None => None,
        },
        statsd: match s.statsd {
            Some(m) => Some(statsd_counted(m, metric)),
            None => None,
        },
        ..s
    }
}

/// The service after a dispatch to the webhooks of which some delivery failed or none did.
pub open spec fn after_dispatch(s: ExportService, failed: bool) -> ExportService {
    ExportService {
        health: ChannelStatus {
            webhooks: if failed {
                ChannelHealth::Degraded
            } else {
                s.health.webhooks
            },
            ..s.health
        },
        ..s
    }
}

/// The channels are independent. What an event does to one does not depend on the others; and
/// a dispatch, whether it failed or not, leaves all but the health of the webhooks as it was.
pub proof fn channels_are_independent(
    a: ExportService,
    b: ExportService,
    metric: MetricName,
    failed: bool,
)
    ensures
        a.prometheus == b.prometheus ==> after_event(after_dispatch(a, failed), metric).prometheus
            == after_event(b, metric).prometheus,
        a.statsd == b.statsd ==> after_event(after_dispatch(a, failed), metric).statsd
            == after_event(b, metric).statsd,
        a.otlp == b.otlp ==> after_event(after_dispatch(a, failed), metric).otlp == after_event(
            b,
            metric,
        ).otlp,
        after_dispatch(a, failed).health.otlp == a.health.otlp,
        after_dispatch(a, failed).health.prometheus == a.health.prometheus,
        after_dispatch(a, failed).health.statsd == a.health.statsd,
        after_event(a, metric).health == a.health,
{
}

/// Counts one more of the given metric.
fn record_prometheus(m: &mut PrometheusMetrics, metric: MetricName)
    ensures
        *final(m) == prometheus_counted(*old(m), metric),
{
    match metric {
        MetricName::CertificatesDiscovered => m.inc_certificates_discovered(),
        MetricName::AnomaliesDetected => m.inc_anomalies_detected(),
        MetricName::PredictionsGenerated => m.inc_predictions_generated(),
        MetricName::ActionsExecuted => m.inc_actions_executed(),
        MetricName::ActionsFailed => m.inc_actions_failed(),
    }
}

/// Counts one more of the given metric.
fn record_statsd(m: &mut MetricCounters, metric: MetricName)
    ensures
        *final(m) == statsd_counted(*old(m), metric),
{
    match metric {
        MetricName::CertificatesDiscovered => m.inc_certificates_discovered(),
        MetricName::AnomaliesDetected => m.inc_anomalies_detected(),
        MetricName::PredictionsGenerated => m.inc_predictions_generated(),
        MetricName::ActionsExecuted => m.inc_actions_executed(),
        MetricName::ActionsFailed => m.inc_actions_failed(),
    }
}

/// The health of a channel that has not failed.
fn health_of(enabled: bool) -> (r: ChannelHealth)
    ensures
        r == initial_health(enabled),
{
    if enabled {
        ChannelHealth::Healthy
    } else {
        ChannelHealth::Disabled
    }
}

/// The channels of the daemon, their counters and their health.
#[derive(Debug)]
pub struct ExportService {
    /// Whether metrics are exported over OTLP.
    pub otlp: bool,
    /// Counters of the Prometheus endpoint, where there is one.
    pub prometheus: Option<PrometheusMetrics>,
    /// Counters reported over StatsD, where that is connected.
    pub statsd: Option<MetricCounters>,
    /// The endpoints to notify, where there are any.
    pub webhooks: Option<WebhookDispatcher>,
    /// Health of the channels.
    pub health: ChannelStatus,
}

impl ExportService {
    /// A channel is disabled exactly where it is not there, and only webhooks degrade.
    pub open spec fn valid(self) -> bool {
        &&& self.health.otlp == initial_health(self.otlp)
        &&& self.health.prometheus == initial_health(self.prometheus is Some)
        &&& self.health.statsd == initial_health(self.statsd is Some)
        &&& self.health.webhooks is Disabled <==> self.webhooks is None
    }

    /// The configured channels, all healthy and with counters at zero. `otlp_ready` says
    /// whether the OTLP exporter could be set up, and `statsd_connected` whether the StatsD
    /// endpoint could be reached; where it could not, that channel alone is left out.
    pub fn new(
        config: &ObservabilityConfig,
        webhook_configs: Vec<WebhookConfig>,
        otlp_ready: bool,
        statsd_connected: bool,
    ) -> (r: Self)
        ensures
            r.valid(),
            r.otlp == (config.otlp_endpoint is Some && otlp_ready),
            r.prometheus is Some <==> config.prometheus_bind is Some,
            r.prometheus matches Some(m) ==> m == (PrometheusMetrics {
                certificates_discovered: 0,
                anomalies_detected: 0,
                predictions_generated: 0,
                actions_executed: 0,
                actions_failed: 0,
            }),
            r.statsd is Some <==> config.statsd_endpoint is Some && statsd_connected,
            r.statsd matches Some(m) ==> m == (MetricCounters {
                certificates_discovered: 0,
                anomalies_detected: 0,
                predictions_generated: 0,
                actions_executed: 0,
                actions_failed: 0,
            }),
            r.webhooks is Some <==> webhook_configs@.len() > 0,
            r.webhooks matches Some(d) ==> d.configs == webhook_configs,
            r.health.webhooks == initial_health(webhook_configs@.len() > 0),
            is_set_up(r, *config, webhook_configs@, otlp_ready, statsd_connected),
    {
        let otlp = config.otlp_endpoint.is_some() && otlp_ready;
        let prometheus = if config.prometheus_bind.is_some() {
            Some(PrometheusMetrics::new())
        } else {
            None
        };
        let statsd = if config.statsd_endpoint.is_some() && statsd_connected {
            Some(MetricCounters::new())
        } else {
            None
        };
        let webhooks = if webhook_configs.len() == 0 {
            None
        } else {
            Some(WebhookDispatcher::new(webhook_configs))
        };
        let health = ChannelStatus {
            otlp: health_of(otlp),
            prometheus: health_of(prometheus.is_some()),
            statsd: health_of(statsd.is_some()),
            webhooks: health_of(webhooks.is_some()),
        };
        ExportService { otlp, prometheus, statsd, webhooks, health }
    }

    /// Records an event in every configured channel. The counters in the process are
    /// counted up; what goes out of the process is returned. Webhooks are told only of
    /// actions.
    pub fn record_event(&mut self, event: &ExportEvent) -> (r: ExportActions)
        ensures
            old(self).valid() ==> final(self).valid(),
            *final(self) == after_event(*old(self), event.metric_name),
            r.otlp == if old(self).otlp {
                Some(event.metric_name)
            } else {
                None
            },
            r.statsd is Some <==> old(self).statsd is Some,
            r.statsd matches Some(lines) ==> views(lines@) == counter_lines(
                statsd_counted(old(self).statsd->0, event.metric_name),
            ),
            r.webhook is Some <==> old(self).webhooks is Some && is_action(event.metric_name),
            r.webhook matches Some(w) ==> {
                &&& w.correlation_id == event.correlation_id
                &&& w.cert_fingerprint == event.cert_fingerprint
                &&& w.action_type == event.action_type
                &&& w.severity == event.severity
                &&& w.timestamp == event.timestamp
                &&& w.reasoning == event.reasoning
            },
            are_told(*old(self), *event, r),
    {
        let otlp = if self.otlp {
            Some(event.metric_name)
        } else {
            None
        };
        match &mut self.prometheus {
            Some(m) => record_prometheus(m, event.metric_name),
            None => {},
        }
        let statsd = match &mut self.statsd {
            Some(m) => {
                record_statsd(m, event.metric_name);
                Some(m.flush_lines())
            },
            None => None,
        };
        let action = match event.metric_name {
            MetricName::ActionsExecuted => true,
            MetricName::ActionsFailed => true,
            _ => false,
        };
        let webhook = if self.webhooks.is_some() && action {
            Some(
                WebhookEvent {
                    correlation_id: event.correlation_id.clone(),
                    cert_fingerprint: event.cert_fingerprint.clone(),
                    action_type: event.action_type.clone(),
                    severity: event.severity.clone(),
                    timestamp: event.timestamp.clone(),
                    reasoning: clone_text(&event.reasoning),
                },
            )
        } else {
            None
        };
        ExportActions { otlp, statsd, webhook }
    }

    /// Takes the results of a dispatch: where a delivery failed, the webhook channel is
    /// degraded. Nothing else changes.
    pub fn record_deliveries(&mut self, results: &Vec<WebhookDeliveryResult>)
        requires
            old(self).webhooks is Some,
        ensures
            old(self).valid() ==> final(self).valid(),
            *final(self) == after_dispatch(*old(self), any_failed(results@)),
    {
        let mut failed = false;
        for result in it: results.iter()
            invariant
                it.seq().len() == results@.len(),
                forall|i: int| 0 <= i < results@.len() ==> *it.seq()[i] == results@[i],
                failed == exists|i: int| 0 <= i < it.index() && !(#[trigger] results@[i]).success,
        {
            if !result.success {
                assert(!results@[it.index() as int].success);
                failed = true;
            }
        }
        if failed {
            self.health.webhooks = ChannelHealth::Degraded;
        }
    }

    /// Health of all channels.
    pub fn channel_status(&self) -> (r: ChannelStatus)
        ensures
            r == self.health,
    {
        self.health
    }

    /// The Prometheus counters, where the channel is configured.
    pub fn prometheus(&self) -> (r: Option<&PrometheusMetrics>)
        ensures
            r is Some <==> self.prometheus is Some,
            r matches Some(m) ==> Some(*m) == self.prometheus,
    {
        self.prometheus.as_ref()
    }

    /// The StatsD counters, where the channel is configured.
    pub fn statsd_counters(&self) -> (r: Option<&MetricCounters>)
        ensures
            r is Some <==> self.statsd is Some,
            r matches Some(m) ==> Some(*m) == self.statsd,
    {
        self.statsd.as_ref()
    }

    /// The webhook endpoints, where there are any.
    pub fn webhooks(&self) -> (r: Option<&WebhookDispatcher>)
        ensures
            r is Some <==> self.webhooks is Some,
            r matches Some(d) ==> Some(*d) == self.webhooks,
    {
        self.webhooks.as_ref()
    }

    /// Whether any channel is configured.
    pub fn has_any_channel(&self) -> (r: bool)
        ensures
            r == (self.otlp || self.prometheus is Some || self.statsd is Some
                || self.webhooks is Some),
    {
        self.otlp || self.prometheus.is_some() || self.statsd.is_some() || self.webhooks.is_some()
    }
}

// ---------------------------------------------------------------------------
// Laws
// ---------------------------------------------------------------------------

/// An event counts once, in the counter of its metric and in no other.
pub proof fn prometheus_counts_the_metric(m: PrometheusMetrics, metric: MetricName)
    ensures
        ({
            let after = prometheus_counted(m, metric);
            &&& after.certificates_discovered == if metric is CertificatesDiscovered {
                next_count(m.certificates_discovered)
            } else {
                m.certificates_discovered
            }
            &&& after.anomalies_detected == if metric is AnomaliesDetected {
                next_count(m.anomalies_detected)
            } else {
                m.anomalies_detected
            }
            &&& after.predictions_generated == if metric is PredictionsGenerated {
                next_count(m.predictions_generated)
            } else {
                m.predictions_generated
            }
            &&& after.actions_executed == if metric is ActionsExecuted {
                next_count(m.actions_executed)
            } else {
                m.actions_executed
            }
            &&& after.actions_failed == if metric is ActionsFailed {
                next_count(m.actions_failed)
            } else {
                m.actions_failed
            }
        }),
{
}

/// An event counts once, in the counter of its metric and in no other.
pub proof fn statsd_counts_the_metric(m: MetricCounters, metric: MetricName)
    ensures
        ({
            let after = statsd_counted(m, metric);
            &&& after.certificates_discovered == if metric is CertificatesDiscovered {
                next_count(m.certificates_discovered)
            } else {
                m.certificates_discovered
            }
            &&& after.anomalies_detected == if metric is AnomaliesDetected {
                next_count(m.anomalies_detected)
            } else {
                m.anomalies_detected
            }
            &&& after.predictions_generated == if metric is PredictionsGenerated {
                next_count(m.predictions_generated)
            } else {
                m.predictions_generated
            }
            &&& after.actions_executed == if metric is ActionsExecuted {
                next_count(m.actions_executed)
            } else {
                m.actions_executed
            }
            &&& after.actions_failed == if metric is ActionsFailed {
                next_count(m.actions_failed)
            } else {
                m.actions_failed
            }
        }),
{
}

/// An event sets up and takes down no channel, leaves their health as it is, and is counted in
/// each channel that counts.
pub proof fn event_only_counts(s: ExportService, metric: MetricName)
    ensures
        ({
            let after = after_event(s, metric);
            &&& after.otlp == s.otlp
            &&& after.webhooks == s.webhooks
            &&& after.health == s.health
            &&& after.prometheus is Some <==> s.prometheus is Some
            &&& s.prometheus matches Some(m) ==> after.prometheus == Some(
                prometheus_counted(m, metric),
            )
            &&& after.statsd is Some <==> s.statsd is Some
            &&& s.statsd matches Some(m) ==> after.statsd == Some(statsd_counted(m, metric))
        }),
{
}

/// A dispatch in which a delivery failed degrades the webhooks, and one in which all succeeded
/// leaves them as they are. Nothing else changes either way.
pub proof fn failed_dispatch_degrades_webhooks(s: ExportService, results: Seq<WebhookDeliveryResult>)
    ensures
        ({
            let after = after_dispatch(s, any_failed(results));
            &&& (exists|i: int| 0 <= i < results.len() && !(#[trigger] results[i]).success)
                ==> after.health.webhooks is Degraded
            &&& (forall|i: int| 0 <= i < results.len() ==> (#[trigger] results[i]).success)
                ==> after == s
            &&& after.health.otlp == s.health.otlp
            &&& after.health.prometheus == s.health.prometheus
            &&& after.health.statsd == s.health.statsd
            &&& after.otlp == s.otlp
            &&& after.prometheus == s.prometheus
            &&& after.statsd == s.statsd
            &&& after.webhooks == s.webhooks
        }),
{
}

/// Webhooks are told of actions that were executed or failed, and of nothing else; a channel is
/// healthy at first where it is there, and else disabled.
pub proof fn webhooks_are_told_of_actions(metric: MetricName, enabled: bool)
    ensures
        is_action(metric) <==> metric is ActionsExecuted || metric is ActionsFailed,
        initial_health(enabled) is Healthy <==> enabled,
        initial_health(enabled) is Disabled <==> !enabled,
{
}

/// The channels are those that are configured and could be set up.
pub open spec fn is_set_up(
    s: ExportService,
    config: ObservabilityConfig,
    webhooks: Seq<WebhookConfig>,
    otlp_ready: bool,
    statsd_connected: bool,
) -> bool {
    &&& s.valid()
    &&& s.otlp <==> config.otlp_endpoint is Some && otlp_ready
    &&& s.prometheus is Some <==> config.prometheus_bind is Some
    &&& s.statsd is Some <==> config.statsd_endpoint is Some && statsd_connected
    &&& s.webhooks is Some <==> webhooks.len() > 0
    &&& s.webhooks matches Some(d) ==> d.configs@ == webhooks
    &&& !(s.health.webhooks is Degraded)
}

/// Whether a channel is there depends on its own configuration and set-up alone: what fails in
/// one takes no other down. A channel that is there is healthy, and any other disabled.
pub proof fn channels_are_set_up_on_their_own(
    s: ExportService,
    config: ObservabilityConfig,
    webhooks: Seq<WebhookConfig>,
    otlp_ready: bool,
    statsd_connected: bool,
)
    requires
        is_set_up(s, config, webhooks, otlp_ready, statsd_connected),
    ensures
        s.health.otlp is Healthy <==> config.otlp_endpoint is Some && otlp_ready,
        s.health.otlp is Disabled <==> config.otlp_endpoint is None || !otlp_ready,
        s.health.prometheus is Healthy <==> config.prometheus_bind is Some,
        s.health.prometheus is Disabled <==> config.prometheus_bind is None,
        s.health.statsd is Healthy <==> config.statsd_endpoint is Some && statsd_connected,
        s.health.statsd is Disabled <==> config.statsd_endpoint is None || !statsd_connected,
        s.health.webhooks is Healthy <==> webhooks.len() > 0,
        s.health.webhooks is Disabled <==> webhooks.len() == 0,
{
}

/// The channels outside the process are told of an event: OTLP of its metric, StatsD of all
/// counts after it, and the webhooks of an action as it is.
pub open spec fn are_told(s: ExportService, event: ExportEvent, r: ExportActions) -> bool {
    &&& r.otlp is Some <==> s.otlp
    &&& r.otlp matches Some(metric) ==> metric == event.metric_name
    &&& r.statsd is Some <==> s.statsd is Some
    &&& r.statsd matches Some(lines) ==> views(lines@) == counter_lines(
        statsd_counted(s.statsd->0, event.metric_name),
    )
    &&& r.webhook is Some <==> s.webhooks is Some && is_action(event.metric_name)
    &&& r.webhook matches Some(w) ==> {
        &&& w.correlation_id == event.correlation_id
        &&& w.cert_fingerprint == event.cert_fingerprint
        &&& w.action_type == event.action_type
        &&& w.severity == event.severity
        &&& w.timestamp == event.timestamp
        &&& w.reasoning == event.reasoning
    }
}

/// Each channel that is there is told of every event, and the webhooks of those about actions;
/// what they are told is the event itself. A channel that is not there is told nothing.
pub proof fn every_channel_is_told(s: ExportService, event: ExportEvent, r: ExportActions)
    requires
        are_told(s, event, r),
    ensures
        s.otlp ==> r.otlp == Some(event.metric_name),
        !s.otlp ==> r.otlp is None,
        s.statsd is Some ==> r.statsd is Some && r.statsd->0@.len() == 5,
        s.statsd is None ==> r.statsd is None,
        s.webhooks is Some && (event.metric_name is ActionsExecuted
            || event.metric_name is ActionsFailed) ==> (r.webhook matches Some(w)
            && w.correlation_id == event.correlation_id && w.cert_fingerprint
            == event.cert_fingerprint && w.action_type == event.action_type && w.severity
            == event.severity && w.timestamp == event.timestamp && w.reasoning
            == event.reasoning),
        s.webhooks is None || !(event.metric_name is ActionsExecuted
            || event.metric_name is ActionsFailed) ==> r.webhook is None,
{
    if s.statsd is Some {
        assert(views(r.statsd->0@).len() == r.statsd->0@.len());
    }
}

} // verus!
