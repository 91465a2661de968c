//! Configuration of the daemon and the defaults of its optional settings.

use vstd::prelude::*;

verus! {

/// The whole configuration.
#[derive(Clone, Debug)]
pub struct TlapixConfig {
    pub collector: CollectorConfig,
    pub analyzer: AnalyzerConfig,
    pub executor: ExecutorConfig,
    pub observability: ObservabilityConfig,
    pub web_ui: Option<WebUiConfig>,
}

/// Settings of the collector.
#[derive(Clone, Debug)]
pub struct CollectorConfig {
    /// Network interfaces to observe.
    pub interfaces: Vec<String>,
    pub ring_buffer_size_mb: u32,
    /// Records held while the analyzer cannot be reached.
    pub local_buffer_capacity: usize,
    pub metadata_retention_days: u32,
}

/// Settings of the analyzer.
#[derive(Clone, Debug)]
pub struct AnalyzerConfig {
    /// Path of the model file.
    pub ai_model_path: String,
    pub ai_timeout_secs: u64,
    pub inventory_source: InventorySource,
    pub inventory_poll_interval_secs: u64,
    pub prediction_reevaluation_hours: u64,
    /// Probability of failure, in thousandths, from which a renewal is ordered.
    pub renewal_threshold_probability: u32,
}

/// Where the inventory of known certificates comes from.
#[derive(Clone, Debug, PartialEq)]
pub enum InventorySource {
    /// A file.
    File { path: String },
    /// A service with a bearer token.
    Api { endpoint: String, auth_token: String },
}

/// Settings of the executor.
#[derive(Clone, Debug)]
pub struct ExecutorConfig {
    pub max_map_entries: u32,
    pub max_map_memory_mb: u32,
    pub acme_config: Option<AcmeConfig>,
    pub webhooks: Vec<WebhookConfig>,
    pub directive_expiry_hours: u64,
    pub retry_max_attempts: u8,
    pub retry_base_ms: u64,
}

/// Settings of certificate renewal.
#[derive(Clone, Debug)]
pub struct AcmeConfig {
    pub directory_url: String,
    pub contact_email: String,
    pub credentials_path: String,
}

/// Settings of one webhook endpoint.
#[derive(Clone, Debug)]
pub struct WebhookConfig {
    pub endpoint: String,
    pub timeout_secs: u64,
    /// Retries after the first attempt.
    pub retry_max: u8,
    /// Wait before the first retry; it doubles with each further one.
    pub retry_base_secs: u64,
}

/// Settings of the export channels.
#[derive(Clone, Debug)]
pub struct ObservabilityConfig {
    pub otlp_endpoint: Option<String>,
    pub otlp_auth_token: Option<String>,
    pub otlp_export_interval_secs: u64,
    /// Address of the Prometheus endpoint.
    pub prometheus_bind: Option<String>,
    pub statsd_endpoint: Option<String>,
    pub audit_retention_days: u32,
}

/// Settings of the dashboard.
#[derive(Clone, Debug)]
pub struct WebUiConfig {
    /// Address to listen on.
    pub bind: String,
}

/// Size of the ring buffer, in megabytes, where the configuration does not say.
pub fn default_ring_buffer_size_mb() -> (r: u32)
    ensures
        r == 16,
{
    16
}

/// Records held while the analyzer cannot be reached, where the configuration does not say.
pub fn default_local_buffer_capacity() -> (r: usize)
    ensures
        r == 10_000,
{
    10_000
}

/// Days for which observed certificates are kept, where the configuration does not say.
pub fn default_metadata_retention_days() -> (r: u32)
    ensures
        r == 90,
{
    90
}

/// Seconds that an inference may take, where the configuration does not say.
pub fn default_ai_timeout_secs() -> (r: u64)
    ensures
        r == 5,
{
    5
}

/// Seconds between two imports of the inventory, where the configuration does not say.
pub fn default_inventory_poll_interval_secs() -> (r: u64)
    ensures
        r == 300,
{
    300
}

/// Hours between two evaluations of renewal predictions, where the configuration does not say.
pub fn default_prediction_reevaluation_hours() -> (r: u64)
    ensures
        r == 24,
{
    24
}

/// Probability of failure, in thousandths, from which a renewal is ordered, where the configuration does not say.
pub fn default_renewal_threshold_probability() -> (r: u32)
    ensures
        r == 700,
{
    700
}

/// Entries of a kernel map, where the configuration does not say.
pub fn default_max_map_entries() -> (r: u32)
    ensures
        r == 10_000,
{
    10_000
}

/// Memory of the kernel maps, in megabytes, where the configuration does not say.
pub fn default_max_map_memory_mb() -> (r: u32)
    ensures
        r == 64,
{
    64
}

/// Hours after which a directive for an unseen certificate expires, where the configuration does not say.
pub fn default_directive_expiry_hours() -> (r: u64)
    ensures
        r == 72,
{
    72
}

/// Attempts to write a kernel map, where the configuration does not say.
pub fn default_retry_max_attempts() -> (r: u8)
    ensures
        r == 3,
{
    3
}

/// Milliseconds before the first retry of a map write, where the configuration does not say.
pub fn default_retry_base_ms() -> (r: u64)
    ensures
        r == 100,
{
    100
}

/// Seconds that a webhook request may take, where the configuration does not say.
pub fn default_webhook_timeout_secs() -> (r: u64)
    ensures
        r == 10,
{
    10
}

/// Retries of a webhook request, where the configuration does not say.
pub fn default_webhook_retry_max() -> (r: u8)
    ensures
        r == 3,
{
    3
}

/// Seconds before the first retry of a webhook request, where the configuration does not say.
pub fn default_webhook_retry_base_secs() -> (r: u64)
    ensures
        r == 1,
{
    1
}

/// Seconds between two exports of metrics, where the configuration does not say.
pub fn default_otlp_export_interval_secs() -> (r: u64)
    ensures
        r == 60,
{
    60
}

/// Days for which audit entries are kept, where the configuration does not say.
pub fn default_audit_retention_days() -> (r: u32)
    ensures
        r == 90,
{
    90
}

} // verus!
