//! Reading of kernel events.

use vstd::prelude::*;
use crate::bpf::TlsCertEvent;
use crate::event_processor::{
    available, is_cut, is_processed, process_event_at, sha256, x509_fields, x509_names,
    EventProcessError, ProcessedEvent,
};
use crate::time::Timestamp;
use crate::types::CertificateMetadata;

verus! {

/// Settings of a reader.
#[derive(Clone, Copy, Debug, PartialEq, Eq, Structural)]
pub struct RingBufferReaderConfig {
    /// Processed events that may wait for the next stage.
    pub channel_capacity: usize,
}

impl Default for RingBufferReaderConfig {
    fn default() -> (r: Self)
        ensures
            r.channel_capacity == 1024,
    {
        RingBufferReaderConfig { channel_capacity: 1024 }
    }
}

/// What a reader has counted.
#[derive(Clone, Copy, Debug, PartialEq, Eq, Structural)]
pub struct ReaderStats {
    /// All events.
    pub events_received: u64,
    /// Events that yielded metadata.
    pub events_processed: u64,
    /// Events that did not.
    pub events_malformed: u64,
    /// Events whose certificate was cut off.
    pub events_truncated: u64,
}

impl Default for ReaderStats {
    fn default() -> (r: Self)
        ensures
            r == (ReaderStats {
                events_received: 0,
                events_processed: 0,
                events_malformed: 0,
                events_truncated: 0,
            }),
    {
        ReaderStats {
            events_received: 0,
            events_processed: 0,
            events_malformed: 0,
            events_truncated: 0,
        }
    }
}

/// An observed certificate on its way to deduplication.
#[derive(Clone, Debug)]
pub struct CollectorEvent {
    pub metadata: CertificateMetadata,
    /// Whether the certificate was cut off.
    pub is_truncated: bool,
    /// Whether the kernel has not reported the certificate before.
    pub is_new: bool,
}

/// A reader of kernel events.
#[derive(Clone, Copy, Debug, PartialEq, Eq, Structural)]
pub struct RingBufferReader {
    pub config: RingBufferReaderConfig,
}

/// The counts after an event that yielded metadata or not.
pub open spec fn counted(s: ReaderStats, processed: bool, truncated: bool) -> ReaderStats {
    ReaderStats {
        events_received: (s.events_received + 1) as u64,
        events_processed: if processed {
            (s.events_processed + 1) as u64
        } else {
            s.events_processed
        },
        events_malformed: if processed {
            s.events_malformed
        } else {
            (s.events_malformed + 1) as u64
        },
        events_truncated: if processed && truncated {
            (s.events_truncated + 1) as u64
        } else {
            s.events_truncated
        },
    }
}

/// Every event was counted as processed or as malformed, and only processed ones as cut off.
pub open spec fn consistent(s: ReaderStats) -> bool {
    &&& s.events_received == s.events_processed + s.events_malformed
    &&& s.events_truncated <= s.events_processed
}

/// Every received event is counted as processed or as malformed, and only processed ones as
/// cut off.
pub proof fn every_event_is_accounted_for(s: ReaderStats, processed: bool, truncated: bool)
    requires
        consistent(s),
        s.events_received < u64::MAX,
    ensures
        consistent(counted(s, processed, truncated)),
        counted(s, processed, truncated).events_received == s.events_received + 1,
{
}

/// What is passed on of a processed event: nothing of a malformed one.
pub open spec fn is_passed_on(
    r: Option<CollectorEvent>,
    event: TlsCertEvent,
    result: Result<ProcessedEvent, EventProcessError>,
) -> bool {
    match (r, result) {
        (Some(c), Ok(p)) => c.metadata == p.metadata && c.is_truncated == p.is_truncated && c.is_new
            == (event.is_new == 1),
        (None, Err(_)) => true,
        _ => false,
    }
}

impl RingBufferReader {
    /// A reader with the given settings.
    pub fn new(config: RingBufferReaderConfig) -> (r: Self)
        ensures
            r.config == config,
    {
        RingBufferReader { config }
    }

    /// Takes the result of processing an event: counts it, and gives what is passed on.
    pub fn record_result(
        event: &TlsCertEvent,
        result: Result<ProcessedEvent, EventProcessError>,
        stats: &mut ReaderStats,
    ) -> (r: Option<CollectorEvent>)
        requires
            consistent(*old(stats)),
            old(stats).events_received < u64::MAX,
        ensures
            is_passed_on(r, *event, result),
            *final(stats) == counted(
                *old(stats),
                result is Ok,
                result matches Ok(p) && p.is_truncated,
            ),
            consistent(*final(stats)),
    {
        stats.events_received = stats.events_received + 1;
        match result {
            Ok(processed) => {
                if processed.is_truncated {
                    stats.events_truncated = stats.events_truncated + 1;
                }
                stats.events_processed = stats.events_processed + 1;
                Some(
                    CollectorEvent {
                        metadata: processed.metadata,
                        is_truncated: processed.is_truncated,
                        is_new: event.is_new == 1,
                    },
                )
            },
            Err(_) => {
                stats.events_malformed = stats.events_malformed + 1;
                None
            },
        }
    }

    /// Processes an event observed at a given instant: counts it, and gives what is passed
    /// on.
    pub fn handle_event_at(event: &TlsCertEvent, stats: &mut ReaderStats, now: &Timestamp) -> (r:
        Option<CollectorEvent>)
        requires
            consistent(*old(stats)),
            old(stats).events_received < u64::MAX,
        ensures
            exists|result: Result<ProcessedEvent, EventProcessError>| #[trigger]
                is_processed(
                    result,
                    *event,
                    sha256(available(*event)),
                    x509_fields(available(*event)),
                    x509_names(available(*event)),
                    *now,
                ) && is_passed_on(r, *event, result),
            *final(stats) == counted(*old(stats), r is Some, is_cut(*event)),
            consistent(*final(stats)),
    {
        let result = process_event_at(event, now);
        let ghost outcome = result;
        let passed = RingBufferReader::record_result(event, result, stats);
        assert(is_passed_on(passed, *event, outcome));
        passed
    }
}

/// An event counts once as received, and once as processed or as malformed; and once as cut off
/// exactly where it was processed and cut off. No count ever falls.
pub proof fn event_counts_once(s: ReaderStats, processed: bool, truncated: bool)
    requires
        consistent(s),
        s.events_received < u64::MAX,
    ensures
        ({
            let after = counted(s, processed, truncated);
            &&& after.events_received == s.events_received + 1
            &&& processed ==> after.events_processed == s.events_processed + 1
                && after.events_malformed == s.events_malformed
            &&& !processed ==> after.events_malformed == s.events_malformed + 1
                && after.events_processed == s.events_processed
            &&& processed && truncated ==> after.events_truncated == s.events_truncated + 1
            &&& !processed || !truncated ==> after.events_truncated == s.events_truncated
        }),
{
}

/// Metadata are passed on unchanged, as new exactly where the kernel says so, and nothing is
/// passed on of a malformed event.
pub proof fn metadata_are_passed_on_unchanged(
    r: Option<CollectorEvent>,
    event: TlsCertEvent,
    result: Result<ProcessedEvent, EventProcessError>,
)
    requires
        is_passed_on(r, event, result),
    ensures
        r is Some <==> result is Ok,
        r matches Some(c) ==> {
            &&& c.metadata == result->Ok_0.metadata
            &&& c.is_truncated == result->Ok_0.is_truncated
            &&& c.is_new <==> event.is_new == 1
        },
{
}

} // verus!
