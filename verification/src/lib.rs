//! Verified core of the Tlapix certificate guardian.
pub mod ai_backend;
pub mod anomaly;
pub mod audit;
pub mod bpf;
pub mod buffer;
pub mod cli;
pub mod completeness;
pub mod config;
pub mod dedup;
pub mod event_processor;
pub mod export;
pub mod hex;
pub mod ids;
pub mod integrity;
pub mod inventory;
pub mod probability;
pub mod prometheus;
pub mod reconciliation;
pub mod renewal;
pub mod renewal_scheduler;
pub mod ring_buffer;
pub mod shadow;
pub mod shadow_escalation;
pub mod sni_match;
pub mod statsd;
pub mod storage;
pub mod text;
pub mod time;
pub mod types;
pub mod web_ui;
pub mod webhooks;
