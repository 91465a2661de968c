//! Buffer for certificates that the analyzer cannot take at the moment.
//!
//! A full buffer gives up its oldest record for a new one. Delivery is retried after waits
//! that double from 30 seconds to 8 minutes. After an hour of buffering no more records are
//! taken in. Times are nanoseconds of a clock that never goes back.

use std::collections::VecDeque;
use vstd::prelude::*;
use crate::types::CertificateMetadata;

verus! {

/// Records that the buffer holds unless configured otherwise.
pub const DEFAULT_BUFFER_CAPACITY: usize = 10_000;

/// Wait before the first retry: 30 seconds.
pub const INITIAL_RETRY_INTERVAL: u64 = 30_000_000_000;

/// Longest time of buffering: one hour.
pub const MAX_BUFFER_DURATION: u64 = 3_600_000_000_000;

/// Longest wait between two retries: 8 minutes.
pub const MAX_RETRY_INTERVAL: u64 = 480_000_000_000;

/// What the buffer has counted.
#[derive(Clone, Copy, Debug, PartialEq, Eq, Structural)]
pub struct BufferStats {
    /// Records in the buffer.
    pub buffered_count: usize,
    /// Records given up because the buffer was full.
    pub evicted_count: u64,
    /// Failed deliveries.
    pub retry_attempts: u64,
    /// Deliveries of all records.
    pub successful_flushes: u64,
    /// Records not taken in because the buffering had lasted too long.
    pub expired_count: u64,
}

impl Default for BufferStats {
    fn default() -> (r: Self)
        ensures
            r == (BufferStats {
                buffered_count: 0,
                evicted_count: 0,
                retry_attempts: 0,
                successful_flushes: 0,
                expired_count: 0,
            }),
    {
        BufferStats {
            buffered_count: 0,
            evicted_count: 0,
            retry_attempts: 0,
            successful_flushes: 0,
            expired_count: 0,
        }
    }
}

/// The time from `since` to `now`; none where the clock has not reached `since`.
pub open spec fn elapsed_from(since: u64, now: u64) -> u64 {
    if now >= since {
        (now - since) as u64
    } else {
        0
    }
}

/// The time from `since` to `now`.
fn elapsed(since: u64, now: u64) -> (r: u64)
    ensures
        r == elapsed_from(since, now),
{
    if now >= since {
        now - since
    } else {
        0
    }
}

/// Where the retries stand.
#[derive(Clone, Copy, Debug, PartialEq, Eq, Structural)]
pub struct RetryState {
    /// When the buffering began.
    pub buffering_started: Option<u64>,
    /// When delivery was last tried.
    pub last_attempt: Option<u64>,
    /// Failed deliveries since the last success.
    pub attempt_count: u32,
    /// Wait before the next retry.
    pub current_backoff: u64,
}

/// The state before anything was buffered, with the wait before the first retry.
pub open spec fn fresh_state(initial: u64) -> RetryState {
    RetryState {
        buffering_started: None,
        last_attempt: None,
        attempt_count: 0,
        current_backoff: initial,
    }
}

/// The wait after one more failure: twice as long, up to the longest.
pub open spec fn next_backoff(backoff: u64) -> u64 {
    if backoff * 2 < MAX_RETRY_INTERVAL {
        (backoff * 2) as u64
    } else {
        MAX_RETRY_INTERVAL
    }
}

/// The state after a delivery failed at instant `now`.
pub open spec fn after_failure(s: RetryState, now: u64) -> RetryState {
    RetryState {
        buffering_started: match s.buffering_started {
            Some(t) => Some(t),
            None => Some(now),
        },
        last_attempt: Some(now),
        attempt_count: (s.attempt_count + 1) as u32,
        current_backoff: next_backoff(s.current_backoff),
    }
}

/// The buffering has lasted for the given time or longer.
pub open spec fn expired(s: RetryState, max_duration: u64, now: u64) -> bool {
    s.buffering_started matches Some(t) && elapsed_from(t, now) >= max_duration
}

/// The wait since the last attempt is over.
pub open spec fn due(s: RetryState, now: u64) -> bool {
    match s.last_attempt {
        Some(t) => elapsed_from(t, now) >= s.current_backoff,
        None => true,
    }
}

impl RetryState {
    /// The state before anything was buffered, with the wait before the first retry.
    pub fn new(initial: u64) -> (r: Self)
        ensures
            r == fresh_state(initial),
    {
        RetryState {
            buffering_started: None,
            last_attempt: None,
            attempt_count: 0,
            current_backoff: initial,
        }
    }

    /// Forgets everything after a success.
    pub fn reset(&mut self, initial: u64)
        ensures
            *final(self) == fresh_state(initial),
    {
        *self = RetryState::new(initial);
    }

    /// Takes note of a failed delivery: the wait doubles, up to the longest.
    pub fn record_attempt(&mut self, now: u64)
        requires
            old(self).attempt_count < u32::MAX,
        ensures
            *final(self) == after_failure(*old(self), now),
    {
        if self.buffering_started.is_none() {
            self.buffering_started = Some(now);
        }
        self.last_attempt = Some(now);
        self.attempt_count = self.attempt_count + 1;
        self.current_backoff = if self.current_backoff < MAX_RETRY_INTERVAL / 2 {
            self.current_backoff * 2
        } else {
            MAX_RETRY_INTERVAL
        };
    }

    /// Whether the buffering has lasted for the given time or longer.
    pub fn is_expired(&self, max_duration: u64, now: u64) -> (r: bool)
        ensures
            r == expired(*self, max_duration, now),
    {
        match self.buffering_started {
            Some(started) => elapsed(started, now) >= max_duration,
            None => false,
        }
    }

    /// Whether the wait since the last attempt is over.
    pub fn should_retry(&self, now: u64) -> (r: bool)
        ensures
            r == due(*self, now),
    {
        match self.last_attempt {
            Some(last) => elapsed(last, now) >= self.current_backoff,
            None => true,
        }
    }
}

/// The wait after a number of failures in a row, where the first one is `initial`.
pub open spec fn backoff_after(initial: u64, failures: nat) -> u64
    decreases failures,
{
    if failures == 0 {
        initial
    } else {
        next_backoff(backoff_after(initial, (failures - 1) as nat))
    }
}

/// The usual wait is 30 seconds, doubled once per failure, and 8 minutes from the fourth
/// failure on. Whatever the first wait is, from the first failure on none is longer.
pub proof fn backoff_schedule(initial: u64, failures: nat)
    ensures
        failures < 4 ==> backoff_after(INITIAL_RETRY_INTERVAL, failures) == INITIAL_RETRY_INTERVAL
            * vstd::arithmetic::power2::pow2(failures),
        failures >= 4 ==> backoff_after(INITIAL_RETRY_INTERVAL, failures) == MAX_RETRY_INTERVAL,
        failures >= 1 ==> backoff_after(initial, failures) <= MAX_RETRY_INTERVAL,
    decreases failures,
{
    vstd::arithmetic::power2::lemma2_to64();
    if failures > 0 {
        backoff_schedule(initial, (failures - 1) as nat);
    }
}

/// Settings of a buffer.
#[derive(Clone, Copy, Debug, PartialEq, Eq, Structural)]
pub struct RetryBufferConfig {
    /// Records that the buffer holds.
    pub capacity: usize,
    /// Wait that doubles with each failed delivery.
    pub initial_retry_interval: u64,
    /// Longest time of buffering.
    pub max_buffer_duration: u64,
}

impl Default for RetryBufferConfig {
    fn default() -> (r: Self)
        ensures
            r == (RetryBufferConfig {
                capacity: DEFAULT_BUFFER_CAPACITY,
                initial_retry_interval: INITIAL_RETRY_INTERVAL,
                max_buffer_duration: MAX_BUFFER_DURATION,
            }),
    {
        RetryBufferConfig {
            capacity: DEFAULT_BUFFER_CAPACITY,
            initial_retry_interval: INITIAL_RETRY_INTERVAL,
            max_buffer_duration: MAX_BUFFER_DURATION,
        }
    }
}

/// What to do next to deliver the records.
#[derive(Clone, Debug)]
pub enum FlushStep {
    /// The delivery is over; all records are delivered, or not.
    Done { flushed: bool },
    /// Ask the analyzer whether it can take records.
    AskAnalyzer,
    /// Send the records.
    Send { batch: Vec<CertificateMetadata> },
}

/// The records of a buffer.
#[derive(Debug)]
pub struct RetryBuffer {
    /// The records, the oldest first.
    pub records: VecDeque<CertificateMetadata>,
    pub config: RetryBufferConfig,
    pub retry_state: RetryState,
    pub stats: BufferStats,
}

/// The records after one more was taken in: at capacity the oldest leaves. A buffer without
/// any capacity keeps none.
pub open spec fn pushed(
    records: Seq<CertificateMetadata>,
    capacity: nat,
    record: CertificateMetadata,
) -> Seq<CertificateMetadata> {
    if capacity == 0 {
        Seq::empty()
    } else if records.len() >= capacity {
        records.drop_first().push(record)
    } else {
        records.push(record)
    }
}

/// The records after several more were taken in, one after the other.
pub open spec fn pushed_all(
    records: Seq<CertificateMetadata>,
    capacity: nat,
    more: Seq<CertificateMetadata>,
) -> Seq<CertificateMetadata>
    decreases more.len(),
{
    if more.len() == 0 {
        records
    } else {
        pushed(pushed_all(records, capacity, more.drop_last()), capacity, more.last())
    }
}

/// How many records are given up when several more are taken in, one after the other.
pub open spec fn evictions(
    records: Seq<CertificateMetadata>,
    capacity: nat,
    more: Seq<CertificateMetadata>,
) -> nat
    decreases more.len(),
{
    if more.len() == 0 {
        0
    } else {
        evictions(records, capacity, more.drop_last()) + if pushed_all(
            records,
            capacity,
            more.drop_last(),
        ).len() >= capacity {
            1nat
        } else {
            0
        }
    }
}

/// A buffer that was empty holds, after any number of records, the most recent ones in the
/// order in which they came: all while they fit, and else as many as fit. Those that do not fit
/// are counted as given up.
pub proof fn buffer_holds_most_recent(capacity: nat, more: Seq<CertificateMetadata>)
    ensures
        pushed_all(Seq::empty(), capacity, more) == (if more.len() <= capacity {
            more
        } else {
            more.skip(more.len() - capacity)
        }),
        evictions(Seq::empty(), capacity, more) == (if more.len() <= capacity {
            0
        } else {
            more.len() - capacity
        }),
    decreases more.len(),
{
    if more.len() == 0 {
        assert(pushed_all(Seq::empty(), capacity, more) =~= more);
    } else {
        let rest = more.drop_last();
        buffer_holds_most_recent(capacity, rest);
        let before = pushed_all(Seq::empty(), capacity, rest);
        let after = pushed(before, capacity, more.last());
        if rest.len() < capacity {
            assert(after =~= more);
        } else {
            if rest.len() == capacity {
                assert(before =~= rest.skip(0));
            }
            assert(before =~= rest.skip(rest.len() - capacity));
            assert(after =~= more.skip(more.len() - capacity));
        }
    }
}

/// The records after a delivery failed: those not taken come first, in order, before any
/// that are there.
pub open spec fn returned(
    remaining: Seq<CertificateMetadata>,
    records: Seq<CertificateMetadata>,
) -> Seq<CertificateMetadata> {
    remaining + records
}

/// A delivery of which nothing was taken leaves the buffer as it was: handing all records
/// out and taking them all back changes neither their number nor their order.
pub proof fn failed_delivery_loses_nothing(records: Seq<CertificateMetadata>)
    ensures
        returned(records, Seq::empty()) == records,
{
    assert(returned(records, Seq::empty()) =~= records);
}

/// A record put into a buffer that respects its capacity leaves it so, and is the last in it
/// wherever there is any capacity.
pub proof fn push_keeps_capacity(
    records: Seq<CertificateMetadata>,
    capacity: nat,
    record: CertificateMetadata,
)
    requires
        records.len() <= capacity,
    ensures
        pushed(records, capacity, record).len() <= capacity,
        capacity > 0 ==> pushed(records, capacity, record).last() == record,
{
}

impl RetryBuffer {
    /// No counter stands at its largest value.
    pub open spec fn has_room(self) -> bool {
        &&& self.stats.evicted_count < u64::MAX
        &&& self.stats.retry_attempts < u64::MAX
        &&& self.stats.successful_flushes < u64::MAX
        &&& self.stats.expired_count < u64::MAX
        &&& self.retry_state.attempt_count < u32::MAX
    }

    /// Whether no counter stands at its largest value.
    pub fn counters_have_room(&self) -> (r: bool)
        ensures
            r == self.has_room(),
    {
        self.stats.evicted_count < u64::MAX && self.stats.retry_attempts < u64::MAX
            && self.stats.successful_flushes < u64::MAX && self.stats.expired_count < u64::MAX
            && self.retry_state.attempt_count < u32::MAX
    }

    /// An empty buffer.
    pub fn new(config: RetryBufferConfig) -> (r: Self)
        ensures
            r.records@.len() == 0,
            r.config == config,
            r.retry_state == fresh_state(config.initial_retry_interval),
            r.stats == (BufferStats {
                buffered_count: 0,
                evicted_count: 0,
                retry_attempts: 0,
                successful_flushes: 0,
                expired_count: 0,
            }),
            r.has_room(),
    {
        RetryBuffer {
            records: VecDeque::new(),
            config,
            retry_state: RetryState::new(config.initial_retry_interval),
            stats: BufferStats::default(),
        }
    }

    /// An empty buffer with the usual settings.
    pub fn with_defaults() -> (r: Self)
        ensures
            r.records@.len() == 0,
            r.config.capacity == DEFAULT_BUFFER_CAPACITY,
            r.config.initial_retry_interval == INITIAL_RETRY_INTERVAL,
            r.config.max_buffer_duration == MAX_BUFFER_DURATION,
            r.retry_state == fresh_state(INITIAL_RETRY_INTERVAL),
            r.stats == (BufferStats {
                buffered_count: 0,
                evicted_count: 0,
                retry_attempts: 0,
                successful_flushes: 0,
                expired_count: 0,
            }),
            r.has_room(),
    {
        RetryBuffer::new(RetryBufferConfig::default())
    }

    /// Takes a record in. Where the buffering has lasted too long, the record is dropped and
    /// counted instead; where the buffer is full, its oldest record is given up and counted. A
    /// buffer without any capacity gives up every record.
    pub fn push(&mut self, record: CertificateMetadata, now: u64)
        requires
            old(self).has_room(),
        ensures
            final(self).config == old(self).config,
            expired(old(self).retry_state, old(self).config.max_buffer_duration, now) ==> {
                &&& final(self).records@ == old(self).records@
                &&& final(self).retry_state == old(self).retry_state
                &&& final(self).stats == (BufferStats {
                    expired_count: (old(self).stats.expired_count + 1) as u64,
                    ..old(self).stats
                })
            },
            !expired(old(self).retry_state, old(self).config.max_buffer_duration, now) ==> {
                &&& final(self).records@ == pushed(
                    old(self).records@,
                    old(self).config.capacity as nat,
                    record,
                )
                &&& final(self).retry_state == (RetryState {
                    buffering_started: match old(self).retry_state.buffering_started {
                        Some(t) => Some(t),
                        None => Some(now),
                    },
                    ..old(self).retry_state
                })
                &&& final(self).stats == (BufferStats {
                    buffered_count: final(self).records@.len() as usize,
                    evicted_count: if old(self).records@.len() >= old(self).config.capacity {
                        (old(self).stats.evicted_count + 1) as u64
                    } else {
                        old(self).stats.evicted_count
                    },
                    ..old(self).stats
                })
            },
            is_pushed(*old(self), record, now, *final(self)),
    {
        if self.retry_state.is_expired(self.config.max_buffer_duration, now) {
            self.stats.expired_count = self.stats.expired_count + 1;
            return;
        }
        if self.retry_state.buffering_started.is_none() {
            self.retry_state.buffering_started = Some(now);
        }
        if self.records.len() >= self.config.capacity {
            let _ = self.records.pop_front();
            self.stats.evicted_count = self.stats.evicted_count + 1;
        }
        if self.config.capacity == 0 {
            self.records.clear();
        } else {
            self.records.push_back(record);
        }
        self.stats.buffered_count = self.records.len();
        proof {
            assert(self.records@ =~= pushed(
                old(self).records@,
                old(self).config.capacity as nat,
                record,
            ));
        }
    }

    /// Begins a delivery: without records it is over at once, and before the wait since the
    /// last attempt is over nothing is tried.
    pub fn begin_flush(&self, now: u64) -> (r: FlushStep)
        ensures
            if self.records@.len() == 0 {
                r == (FlushStep::Done { flushed: true })
            } else if !due(self.retry_state, now) {
                r == (FlushStep::Done { flushed: false })
            } else {
                r is AskAnalyzer
            },
            r is AskAnalyzer <==> asks_analyzer(self.records@.len(), self.retry_state, now),
            r matches FlushStep::Done { flushed } ==> (flushed <==> self.records@.len() == 0),
    {
        if self.records.len() == 0 {
            FlushStep::Done { flushed: true }
        } else if !self.retry_state.should_retry(now) {
            FlushStep::Done { flushed: false }
        } else {
            FlushStep::AskAnalyzer
        }
    }

    /// Goes on with the analyzer's answer: where it can take records, all are handed out to
    /// be sent; where it cannot, the delivery has failed.
    pub fn continue_flush(&mut self, available: bool, now: u64) -> (r: FlushStep)
        requires
            old(self).has_room(),
        ensures
            final(self).config == old(self).config,
            if available {
                &&& r matches FlushStep::Send { batch } && batch@ == old(self).records@
                &&& final(self).records@.len() == 0
                &&& final(self).retry_state == old(self).retry_state
                &&& final(self).stats == old(self).stats
            } else {
                &&& r == (FlushStep::Done { flushed: false })
                &&& final(self).records@ == old(self).records@
                &&& final(self).retry_state == after_failure(old(self).retry_state, now)
                &&& final(self).stats == (BufferStats {
                    retry_attempts: (old(self).stats.retry_attempts + 1) as u64,
                    ..old(self).stats
                })
            },
            is_continued(*old(self), available, now, *final(self), r),
    {
        if !available {
            self.retry_state.record_attempt(now);
            self.stats.retry_attempts = self.stats.retry_attempts + 1;
            return FlushStep::Done { flushed: false };
        }
        let mut batch: Vec<CertificateMetadata> = Vec::new();
        let ghost all = self.records@;
        while self.records.len() > 0
            invariant
                batch@ + self.records@ == all,
                self.config == old(self).config,
                self.retry_state == old(self).retry_state,
                self.stats == old(self).stats,
            decreases self.records@.len(),
        {
            let ghost before = self.records@;
            match self.records.pop_front() {
                Some(record) => {
                    batch.push(record);
                    assert(batch@ + self.records@ =~= all);
                },
                None => {},
            }
        }
        assert(batch@ =~= all);
        FlushStep::Send { batch }
    }

    /// Ends a delivery with what became of the records: all were taken, or those given were
    /// not and come back to the front of the buffer, in order. Says whether all were taken.
    pub fn finish_flush(&mut self, outcome: Result<(), Vec<CertificateMetadata>>, now: u64) -> (r:
        bool)
        requires
            old(self).has_room(),
            outcome matches Err(remaining) ==> remaining@.len() + old(self).records@.len()
                <= usize::MAX,
        ensures
            final(self).config == old(self).config,
            r == (outcome is Ok),
            match outcome {
                Ok(_) => {
                    &&& final(self).records@ == old(self).records@
                    &&& final(self).retry_state == fresh_state(old(self).config.initial_retry_interval)
                    &&& final(self).stats == (BufferStats {
                        successful_flushes: (old(self).stats.successful_flushes + 1) as u64,
                        buffered_count: 0,
                        ..old(self).stats
                    })
                },
                Err(remaining) => {
                    &&& final(self).records@ == returned(remaining@, old(self).records@)
                    &&& final(self).retry_state == after_failure(old(self).retry_state, now)
                    &&& final(self).stats == (BufferStats {
                        retry_attempts: (old(self).stats.retry_attempts + 1) as u64,
                        buffered_count: (remaining@.len() + old(self).records@.len()) as usize,
                        ..old(self).stats
                    })
                },
            },
            is_flushed(*old(self), outcome, now, *final(self), r),
    {
        match outcome {
            Ok(()) => {
                self.retry_state.reset(self.config.initial_retry_interval);
                self.stats.successful_flushes = self.stats.successful_flushes + 1;
                self.stats.buffered_count = 0;
                true
            },
            Err(remaining) => {
                let mut left = remaining;
                let ghost all = left@ + self.records@;
                while left.len() > 0
                    invariant
                        left@ + self.records@ == all,
                        self.config == old(self).config,
                        self.retry_state == old(self).retry_state,
                        self.stats == old(self).stats,
                    decreases left@.len(),
                {
                    match left.pop() {
                        Some(record) => {
                            self.records.push_front(record);
                            assert(left@ + self.records@ =~= all);
                        },
                        None => {},
                    }
                }
                assert(self.records@ =~= all);
                self.retry_state.record_attempt(now);
                self.stats.retry_attempts = self.stats.retry_attempts + 1;
                self.stats.buffered_count = self.records.len();
                false
            },
        }
    }

    /// Whether there are no records.
    pub fn is_empty(&self) -> (r: bool)
        ensures
            r == (self.records@.len() == 0),
    {
        self.records.len() == 0
    }

    /// How many records there are.
    pub fn len(&self) -> (r: usize)
        ensures
            r == self.records@.len(),
    {
        self.records.len()
    }

    /// How many records the buffer holds.
    pub fn capacity(&self) -> (r: usize)
        ensures
            r == self.config.capacity,
    {
        self.config.capacity
    }

    /// Whether the buffering has lasted too long.
    pub fn is_expired(&self, now: u64) -> (r: bool)
        ensures
            r == expired(self.retry_state, self.config.max_buffer_duration, now),
    {
        self.retry_state.is_expired(self.config.max_buffer_duration, now)
    }

    /// What was counted, with the present number of records.
    pub fn stats(&self) -> (r: BufferStats)
        ensures
            r == (BufferStats { buffered_count: self.records@.len() as usize, ..self.stats }),
    {
        let mut stats = self.stats;
        stats.buffered_count = self.records.len();
        stats
    }

    /// How long to wait before the next attempt; `None` without records, and where the
    /// buffering has lasted too long.
    pub fn time_until_retry(&self, now: u64) -> (r: Option<u64>)
        ensures
            r is None <==> self.records@.len() == 0 || expired(
                self.retry_state,
                self.config.max_buffer_duration,
                now,
            ),
            r matches Some(wait) ==> wait == (match self.retry_state.last_attempt {
                Some(last) => if elapsed_from(last, now) >= self.retry_state.current_backoff {
                    0
                } else {
                    self.retry_state.current_backoff - elapsed_from(last, now)
                },
                None => 0,
            }),
            r matches Some(wait) ==> (wait == 0 <==> due(self.retry_state, now)),
            r matches Some(wait) ==> wait == wait_left(self.retry_state, now),
    {
        if self.records.len() == 0 || self.is_expired(now) {
            return None;
        }
        match self.retry_state.last_attempt {
            Some(last) => {
                let passed: u64 = elapsed(last, now);
                if passed >= self.retry_state.current_backoff {
                    Some(0)
                } else {
                    Some(self.retry_state.current_backoff - passed)
                }
            },
            None => Some(0),
        }
    }

    /// How long a delivery loop sleeps: until the next attempt, or for the first interval
    /// where none is due to come.
    pub fn next_sleep(&self, now: u64) -> (r: u64)
        ensures
            r == if self.records@.len() == 0 || expired(
                self.retry_state,
                self.config.max_buffer_duration,
                now,
            ) {
                INITIAL_RETRY_INTERVAL as int
            } else {
                match self.retry_state.last_attempt {
                    Some(last) => if elapsed_from(last, now) >= self.retry_state.current_backoff {
                        0
                    } else {
                        self.retry_state.current_backoff - elapsed_from(last, now)
                    },
                    None => 0,
                }
            },
            r == if self.records@.len() == 0 || expired(
                self.retry_state,
                self.config.max_buffer_duration,
                now,
            ) {
                INITIAL_RETRY_INTERVAL
            } else {
                wait_left(self.retry_state, now)
            },
    {
        match self.time_until_retry(now) {
            Some(wait) => wait,
            None => INITIAL_RETRY_INTERVAL,
        }
    }

    /// Whether a delivery loop that has slept tries a delivery: there are records, and the
    /// buffering has not lasted too long.
    pub fn should_flush(&self, now: u64) -> (r: bool)
        ensures
            r == (self.records@.len() > 0 && !expired(
                self.retry_state,
                self.config.max_buffer_duration,
                now,
            )),
    {
        self.records.len() > 0 && !self.is_expired(now)
    }

    /// Gives up all records and forgets the retries.
    pub fn clear(&mut self)
        ensures
            final(self).records@.len() == 0,
            final(self).config == old(self).config,
            final(self).retry_state == fresh_state(old(self).config.initial_retry_interval),
            final(self).stats == (BufferStats { buffered_count: 0, ..old(self).stats }),
    {
        self.records.clear();
        self.retry_state.reset(self.config.initial_retry_interval);
        self.stats.buffered_count = 0;
    }
}

// ---------------------------------------------------------------------------
// Laws
// ---------------------------------------------------------------------------

/// Each failure doubles the wait, up to 8 minutes.
pub proof fn wait_doubles_up_to_eight_minutes(backoff: u64)
    ensures
        2 * backoff <= 8 * 60 * 1_000_000_000 ==> next_backoff(backoff) == 2 * backoff,
        2 * backoff >= 8 * 60 * 1_000_000_000 ==> next_backoff(backoff) == 8 * 60 * 1_000_000_000,
{
}

/// A failure counts once and is the last attempt; the buffering goes on from when it began, or
/// begins with it. The next attempt is due when the doubled wait has passed, and not before.
pub proof fn failure_puts_off_the_next_attempt(s: RetryState, failed: u64, now: u64)
    requires
        s.attempt_count < u32::MAX,
        failed <= now,
    ensures
        ({
            let after = after_failure(s, failed);
            &&& after.attempt_count == s.attempt_count + 1
            &&& after.last_attempt == Some(failed)
            &&& s.buffering_started is Some ==> after.buffering_started == s.buffering_started
            &&& s.buffering_started is None ==> after.buffering_started == Some(failed)
            &&& 2 * s.current_backoff <= 8 * 60 * 1_000_000_000 ==> (due(after, now) <==> now
                - failed >= 2 * s.current_backoff)
            &&& 2 * s.current_backoff >= 8 * 60 * 1_000_000_000 ==> (due(after, now) <==> now
                - failed >= 8 * 60 * 1_000_000_000)
        }),
{
}

/// Before the first attempt a delivery is due at any time. Before any record was buffered
/// nothing has expired, and after that everything has from the longest time of buffering on.
pub proof fn buffering_expires_after_its_longest_time(
    s: RetryState,
    max_duration: u64,
    now: u64,
    initial: u64,
)
    ensures
        s.last_attempt is None ==> due(s, now),
        s.last_attempt matches Some(t) ==> {
            &&& t <= now ==> (due(s, now) <==> now - t >= s.current_backoff)
            &&& t > now ==> (due(s, now) <==> s.current_backoff == 0)
        },
        s.buffering_started is None ==> !expired(s, max_duration, now),
        s.buffering_started matches Some(t) ==> {
            &&& t <= now ==> (expired(s, max_duration, now) <==> now - t >= max_duration)
            &&& t > now ==> (expired(s, max_duration, now) <==> max_duration == 0)
        },
        fresh_state(initial).buffering_started is None,
        fresh_state(initial).last_attempt is None,
        fresh_state(initial).attempt_count == 0,
        fresh_state(initial).current_backoff == initial,
{
}

/// A record that is taken in comes last. While there is room nothing leaves, and in a full
/// buffer exactly the oldest does.
pub proof fn only_the_oldest_leaves(
    records: Seq<CertificateMetadata>,
    capacity: nat,
    record: CertificateMetadata,
)
    ensures
        records.len() < capacity ==> pushed(records, capacity, record) == records + seq![record],
        records.len() == capacity && capacity > 0 ==> pushed(records, capacity, record)
            == records.subrange(1, records.len() as int) + seq![record],
        capacity == 0 ==> pushed(records, capacity, record).len() == 0,
{
    if records.len() < capacity {
        assert(records.push(record) =~= records + seq![record]);
    } else if records.len() == capacity && capacity > 0 {
        assert(records.drop_first().push(record) =~= records.subrange(1, records.len() as int)
            + seq![record]);
    }
}

/// A record was taken in, or dropped where the buffering had lasted too long.
pub open spec fn is_pushed(
    before: RetryBuffer,
    record: CertificateMetadata,
    now: u64,
    after: RetryBuffer,
) -> bool {
    &&& after.config == before.config
    &&& if expired(before.retry_state, before.config.max_buffer_duration, now) {
        &&& after.records@ == before.records@
        &&& after.stats.expired_count == before.stats.expired_count + 1
        &&& after.stats.evicted_count == before.stats.evicted_count
    } else {
        &&& after.records@ == pushed(before.records@, before.config.capacity as nat, record)
        &&& after.stats.expired_count == before.stats.expired_count
        &&& after.stats.evicted_count == before.stats.evicted_count + (if before.records@.len()
            >= before.config.capacity {
            1int
        } else {
            0
        })
    }
}

/// A delivery went on: where the analyzer is available all records are handed out, and else all
/// stay and the attempt has failed.
pub open spec fn is_continued(
    before: RetryBuffer,
    available: bool,
    now: u64,
    after: RetryBuffer,
    step: FlushStep,
) -> bool {
    &&& after.config == before.config
    &&& if available {
        &&& step matches FlushStep::Send { batch } && batch@ == before.records@
        &&& after.records@.len() == 0
        &&& after.retry_state == before.retry_state
    } else {
        &&& step == (FlushStep::Done { flushed: false })
        &&& after.records@ == before.records@
        &&& after.retry_state == after_failure(before.retry_state, now)
    }
}

/// A delivery was finished: where all records were taken the retries are over, and else those
/// that were not come back first and the attempt has failed.
pub open spec fn is_flushed(
    before: RetryBuffer,
    outcome: Result<(), Vec<CertificateMetadata>>,
    now: u64,
    after: RetryBuffer,
    flushed: bool,
) -> bool {
    &&& after.config == before.config
    &&& flushed <==> outcome is Ok
    &&& match outcome {
        Ok(_) => {
            &&& after.records@ == before.records@
            &&& after.retry_state == fresh_state(before.config.initial_retry_interval)
        },
        Err(remaining) => {
            &&& after.records@ == returned(remaining@, before.records@)
            &&& after.retry_state == after_failure(before.retry_state, now)
        },
    }
}

/// Every record is accounted for: it is held, was given up for want of room, or was dropped
/// because the buffering had lasted too long. A buffer that respects its capacity goes on to.
pub proof fn every_record_is_accounted_for(
    before: RetryBuffer,
    record: CertificateMetadata,
    now: u64,
    after: RetryBuffer,
)
    requires
        is_pushed(before, record, now, after),
        before.records@.len() <= before.config.capacity,
    ensures
        after.records@.len() + after.stats.evicted_count + after.stats.expired_count
            == before.records@.len() + before.stats.evicted_count + before.stats.expired_count + 1,
        after.records@.len() <= after.config.capacity,
        !expired(before.retry_state, before.config.max_buffer_duration, now)
            && before.config.capacity > 0 ==> after.records@.len() > 0 && after.records@.last()
            == record,
{
}

/// Records that the analyzer does not take are all still there afterwards, in their order, and
/// the next attempt is put off; records that it takes are gone, and the retries start afresh.
pub proof fn delivery_loses_no_record(
    before: RetryBuffer,
    step: FlushStep,
    asked: RetryBuffer,
    outcome: Result<(), Vec<CertificateMetadata>>,
    now: u64,
    after: RetryBuffer,
    flushed: bool,
)
    requires
        is_continued(before, true, now, asked, step),
        is_flushed(asked, outcome, now, after, flushed),
        outcome matches Err(remaining) ==> (step matches FlushStep::Send { batch }
            && remaining@.len() <= batch@.len() && remaining@ == batch@.skip(
            batch@.len() - remaining@.len(),
        )),
    ensures
        outcome is Ok ==> after.records@.len() == 0 && flushed && after.retry_state.attempt_count
            == 0 && after.retry_state.last_attempt is None,
        outcome matches Err(remaining) ==> {
            &&& !flushed
            &&& after.records@ == before.records@.skip(before.records@.len() - remaining@.len())
            &&& remaining@.len() == before.records@.len() ==> after.records@ == before.records@
            &&& after.retry_state.last_attempt == Some(now)
        },
{
    match outcome {
        Err(remaining) => {
            assert(remaining@ + asked.records@ =~= remaining@);
            if remaining@.len() == before.records@.len() {
                assert(before.records@.skip(0) =~= before.records@);
            }
        },
        Ok(_) => {},
    }
}

/// An analyzer that is not available gets nothing and loses nothing.
pub proof fn unavailable_analyzer_changes_no_record(
    before: RetryBuffer,
    now: u64,
    after: RetryBuffer,
    step: FlushStep,
)
    requires
        is_continued(before, false, now, after, step),
    ensures
        after.records@ == before.records@,
        step == (FlushStep::Done { flushed: false }),
        after.retry_state.last_attempt == Some(now),
{
}

/// The analyzer is asked whether it can take records: there are any, and the wait is over.
pub open spec fn asks_analyzer(count: nat, s: RetryState, now: u64) -> bool {
    count > 0 && due(s, now)
}

/// How much of the wait since the last attempt is left.
pub open spec fn wait_left(s: RetryState, now: u64) -> u64 {
    match s.last_attempt {
        Some(last) => if elapsed_from(last, now) >= s.current_backoff {
            0
        } else {
            (s.current_backoff - elapsed_from(last, now)) as u64
        },
        None => 0,
    }
}

/// Who waits for as long as is left finds an attempt due, and who waits for less does not. An
/// empty buffer asks nobody.
pub proof fn waiting_long_enough(s: RetryState, now: u64, waited: u64)
    requires
        now + waited <= u64::MAX,
        s.last_attempt matches Some(t) ==> t <= now,
    ensures
        due(s, (now + waited) as u64) <==> waited >= wait_left(s, now),
        !asks_analyzer(0, s, now),
        asks_analyzer(1, s, (now + waited) as u64) <==> waited >= wait_left(s, now),
{
}

} // verus!
