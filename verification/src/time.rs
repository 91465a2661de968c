//! Instants in UTC and the time between them.

use vstd::prelude::*;

verus! {

pub const NANOS_PER_SEC: i128 = 1_000_000_000;

pub const NANOS_PER_MILLI: i128 = 1_000_000;

pub const NANOS_PER_MINUTE: i128 = 60_000_000_000;

pub const NANOS_PER_DAY: i128 = 86_400_000_000_000;

pub const MILLIS_PER_DAY: i64 = 86_400_000;

/// The first second of the calendar: the start of the year -262143.
pub const MIN_SECS: i64 = -8_334_601_228_800;

/// The last second of the calendar: the end of the year 262142.
pub const MAX_SECS: i64 = 8_210_266_876_799;

/// The format of an instant in a directive's reasoning.
pub const ISO_SECONDS: &'static str = "%Y-%m-%dT%H:%M:%SZ";

/// The format of an instant on a dashboard page.
pub const DASHBOARD_SECONDS: &'static str = "%Y-%m-%d %H:%M:%S UTC";

/// Whether the calendar reaches the instant that many seconds and nanoseconds after
/// the Unix epoch.
pub open spec fn in_calendar(secs: int, nanos: int) -> bool {
    &&& MIN_SECS <= secs <= MAX_SECS
    &&& 0 <= nanos < NANOS_PER_SEC
}

/// The number of whole units in a span, rounded towards zero.
pub open spec fn whole_units(span: int, unit: int) -> int {
    if span >= 0 {
        span / unit
    } else {
        -((-span) / unit)
    }
}

/// The number of whole days in a span of nanoseconds, rounded towards zero.
pub open spec fn whole_days(span: int) -> int {
    whole_units(span, NANOS_PER_DAY as int)
}

/// The number of whole minutes in a span of nanoseconds, rounded towards zero.
pub open spec fn whole_minutes(span: int) -> int {
    whole_units(span, NANOS_PER_MINUTE as int)
}

/// An instant in UTC with a resolution of one nanosecond.
#[derive(Clone, Copy, Debug, PartialEq, Eq, Structural)]
pub struct Timestamp {
    secs: i64,
    nanos: u32,
}

/// What `chrono::DateTime::<Utc>::format` writes for the instant and the pattern.
pub uninterp spec fn utc_text(secs: int, nanos: int, pattern: Seq<char>) -> Seq<char>;

/// What `chrono::DateTime::<Utc>::to_rfc3339` writes for the instant.
pub uninterp spec fn rfc3339_text(secs: int, nanos: int) -> Seq<char>;

/// `chrono::Utc::now`: the current instant, of which only its range is known. The clock
/// must not stand before the Unix epoch.
#[verifier::external_body]
fn utc_now() -> (r: (i64, u32))
    ensures
        in_calendar(r.0 as int, r.1 as int),
{
    let now = chrono::Utc::now();
    (now.timestamp(), now.timestamp_subsec_nanos())
}

/// `chrono::DateTime::<Utc>::format`, turned into a string: the text depends on the instant
/// and the pattern alone. Only the two patterns that the library uses are admitted, since an
/// ill-formed pattern panics.
#[verifier::external_body]
fn utc_format(secs: i64, nanos: u32, pattern: &str) -> (r: String)
    requires
        in_calendar(secs as int, nanos as int),
        pattern@ == ISO_SECONDS@ || pattern@ == DASHBOARD_SECONDS@,
    ensures
        r@ == utc_text(secs as int, nanos as int, pattern@),
{
    chrono::DateTime::from_timestamp(secs, nanos).unwrap().format(pattern).to_string()
}

/// `chrono::DateTime::<Utc>::to_rfc3339`: the text depends on the instant alone.
#[verifier::external_body]
fn utc_rfc3339(secs: i64, nanos: u32) -> (r: String)
    requires
        in_calendar(secs as int, nanos as int),
    ensures
        r@ == rfc3339_text(secs as int, nanos as int),
{
    chrono::DateTime::from_timestamp(secs, nanos).unwrap().to_rfc3339()
}

impl Timestamp {
    #[verifier::type_invariant]
    spec fn inv(self) -> bool {
        in_calendar(self.secs as int, self.nanos as int)
    }

    /// The instant in nanoseconds since the Unix epoch.
    pub closed spec fn at(self) -> int {
        self.secs * NANOS_PER_SEC + self.nanos
    }

    /// The instant in whole milliseconds since the Unix epoch.
    pub open spec fn millis(self) -> int {
        self.at() / (NANOS_PER_MILLI as int)
    }

    /// The text of the instant in a given pattern.
    pub open spec fn text(self, pattern: Seq<char>) -> Seq<char> {
        utc_text(
            self.at() / (NANOS_PER_SEC as int),
            self.at() % (NANOS_PER_SEC as int),
            pattern,
        )
    }

    /// The instant `secs` seconds and `nanos` nanoseconds after the Unix epoch, unless
    /// that lies outside the calendar.
    pub fn new(secs: i64, nanos: u32) -> (r: Option<Timestamp>)
        ensures
            r is Some <==> in_calendar(secs as int, nanos as int),
            r matches Some(t) ==> t.at() == secs * NANOS_PER_SEC + nanos,
    {
        if MIN_SECS <= secs && secs <= MAX_SECS && nanos < 1_000_000_000 {
            Some(Timestamp { secs, nanos })
        } else {
            None
        }
    }

    /// The instant `millis` milliseconds after the Unix epoch, unless that lies outside the
    /// calendar.
    pub fn from_timestamp_millis(millis: i64) -> (r: Option<Timestamp>)
        ensures
            r is Some <==> MIN_SECS * 1000 <= millis <= MAX_SECS * 1000 + 999,
            r matches Some(t) ==> t.at() == millis * NANOS_PER_MILLI && t.millis() == millis,
    {
        let secs: i64 = if millis >= 0 {
            millis / 1000
        } else {
            -((-(millis + 1)) / 1000) - 1
        };
        let rest: i64 = if millis >= 0 {
            millis % 1000
        } else {
            999 - (-(millis + 1)) % 1000
        };
        let nanos: u32 = (rest * 1_000_000) as u32;
        Timestamp::new(secs, nanos)
    }

    /// The start of 1970.
    pub fn epoch() -> (r: Timestamp)
        ensures
            r.at() == 0,
    {
        Timestamp { secs: 0, nanos: 0 }
    }

    /// The current instant.
    pub fn now() -> (r: Timestamp)
        ensures
            MIN_SECS * NANOS_PER_SEC <= r.at() < (MAX_SECS + 1) * NANOS_PER_SEC,
    {
        let (secs, nanos) = utc_now();
        Timestamp { secs, nanos }
    }

    /// Whole seconds since the Unix epoch.
    pub fn timestamp(&self) -> (r: i64)
        ensures
            r == self.at() / (NANOS_PER_SEC as int),
    {
        proof {
            use_type_invariant(self);
        }
        self.secs
    }

    /// Nanoseconds since the last whole second.
    pub fn subsec_nanos(&self) -> (r: u32)
        ensures
            r == self.at() % (NANOS_PER_SEC as int),
    {
        proof {
            use_type_invariant(self);
        }
        self.nanos
    }

    /// Whole milliseconds since the Unix epoch.
    pub fn timestamp_millis(&self) -> (r: i64)
        ensures
            r == self.millis(),
            MIN_SECS * 1000 <= r <= MAX_SECS * 1000 + 999,
    {
        proof {
            use_type_invariant(self);
        }
        self.secs * 1000 + (self.nanos / 1_000_000) as i64
    }

    /// Nanoseconds since the Unix epoch.
    fn nanos_since_epoch(&self) -> (r: i128)
        ensures
            r == self.at(),
            MIN_SECS * NANOS_PER_SEC <= r < (MAX_SECS + 1) * NANOS_PER_SEC,
    {
        proof {
            use_type_invariant(self);
        }
        self.secs as i128 * NANOS_PER_SEC + self.nanos as i128
    }

    /// Whether this instant lies before the other.
    pub fn is_before(&self, other: &Timestamp) -> (r: bool)
        ensures
            r == (self.at() < other.at()),
    {
        self.nanos_since_epoch() < other.nanos_since_epoch()
    }

    /// The whole units of time from `earlier` to this instant, rounded towards zero.
    fn units_since(&self, earlier: &Timestamp, unit: i128) -> (r: i64)
        requires
            NANOS_PER_SEC <= unit,
        ensures
            r == whole_units(self.at() - earlier.at(), unit as int),
            unit == NANOS_PER_DAY ==> -200_000_000 < r < 200_000_000,
    {
        let span: i128 = self.nanos_since_epoch() - earlier.nanos_since_epoch();
        let size: i128 = if span >= 0 {
            span
        } else {
            -span
        };
        let units: i128 = size / unit;
        proof {
            assert(0 <= units <= size / NANOS_PER_SEC) by (nonlinear_arith)
                requires
                    units == size / unit,
                    NANOS_PER_SEC <= unit,
                    NANOS_PER_SEC == 1_000_000_000,
                    0 <= size,
            ;
        }
        if span >= 0 {
            units as i64
        } else {
            -(units as i64)
        }
    }

    /// The whole days from `earlier` to this instant, rounded towards zero.
    pub fn days_since(&self, earlier: &Timestamp) -> (r: i64)
        ensures
            r == whole_days(self.at() - earlier.at()),
            -200_000_000 < r < 200_000_000,
    {
        self.units_since(earlier, NANOS_PER_DAY)
    }

    /// The whole minutes from `earlier` to this instant, rounded towards zero.
    pub fn minutes_since(&self, earlier: &Timestamp) -> (r: i64)
        ensures
            r == whole_minutes(self.at() - earlier.at()),
    {
        self.units_since(earlier, NANOS_PER_MINUTE)
    }

    /// Whether this instant lies more than that many days after `earlier`.
    pub fn is_days_after(&self, earlier: &Timestamp, days: i64) -> (r: bool)
        ensures
            r == (self.at() - earlier.at() > days * NANOS_PER_DAY),
    {
        let span: i128 = self.nanos_since_epoch() - earlier.nanos_since_epoch();
        span > days as i128 * NANOS_PER_DAY
    }

    /// Whether this instant lies more than that many minutes after `earlier`.
    pub fn is_minutes_after(&self, earlier: &Timestamp, minutes: i64) -> (r: bool)
        ensures
            r == (self.at() - earlier.at() > minutes * NANOS_PER_MINUTE),
    {
        let span: i128 = self.nanos_since_epoch() - earlier.nanos_since_epoch();
        span > minutes as i128 * NANOS_PER_MINUTE
    }

    /// The instant as a reasoning shows it.
    pub fn iso_text(&self) -> (r: String)
        ensures
            r@ == self.text(ISO_SECONDS@),
    {
        proof {
            use_type_invariant(self);
        }
        utc_format(self.secs, self.nanos, ISO_SECONDS)
    }

    /// The instant as a dashboard page shows it.
    pub fn dashboard_text(&self) -> (r: String)
        ensures
            r@ == self.text(DASHBOARD_SECONDS@),
    {
        proof {
            use_type_invariant(self);
        }
        utc_format(self.secs, self.nanos, DASHBOARD_SECONDS)
    }

    /// The instant in RFC 3339 notation.
    pub fn to_rfc3339(&self) -> (r: String)
        ensures
            r@ == rfc3339_text(
                self.at() / (NANOS_PER_SEC as int),
                self.at() % (NANOS_PER_SEC as int),
            ),
    {
        proof {
            use_type_invariant(self);
        }
        utc_rfc3339(self.secs, self.nanos)
    }
}

/// Whole units are counted towards zero: what is left over is less than one unit and has the
/// sign of the span.
pub proof fn whole_units_round_towards_zero(span: int, unit: int)
    requires
        unit > 0,
    ensures
        span >= 0 ==> 0 <= span - whole_units(span, unit) * unit < unit,
        span <= 0 ==> 0 <= whole_units(span, unit) * unit - span < unit,
{
    if span >= 0 {
        vstd::arithmetic::div_mod::lemma_fundamental_div_mod(span, unit);
        vstd::arithmetic::div_mod::lemma_mod_bound(span, unit);
        assert((span / unit) * unit == unit * (span / unit)) by (nonlinear_arith);
    } else {
        vstd::arithmetic::div_mod::lemma_fundamental_div_mod(-span, unit);
        vstd::arithmetic::div_mod::lemma_mod_bound(-span, unit);
        assert((-((-span) / unit)) * unit == -(unit * ((-span) / unit))) by (nonlinear_arith);
    }
}

/// A span of nanoseconds has as many whole days as there are full lots of 24 hours in it, and
/// as many whole minutes as there are full lots of 60 seconds.
pub proof fn days_and_minutes_of_a_span(span: int)
    ensures
        span >= 0 ==> whole_days(span) * 86_400_000_000_000 <= span < (whole_days(span) + 1)
            * 86_400_000_000_000,
        span <= 0 ==> (whole_days(span) - 1) * 86_400_000_000_000 < span <= whole_days(span)
            * 86_400_000_000_000,
        span >= 0 ==> whole_minutes(span) * 60_000_000_000 <= span < (whole_minutes(span) + 1)
            * 60_000_000_000,
        span <= 0 ==> (whole_minutes(span) - 1) * 60_000_000_000 < span <= whole_minutes(span)
            * 60_000_000_000,
{
    whole_units_round_towards_zero(span, 86_400_000_000_000);
    whole_units_round_towards_zero(span, 60_000_000_000);
}

/// The whole milliseconds of an instant are those that have passed since the epoch, counted
/// down before it.
pub proof fn millis_of_an_instant(t: Timestamp)
    ensures
        t.millis() * 1_000_000 <= t.at() < (t.millis() + 1) * 1_000_000,
{
}

/// The calendar goes from the first second of the year -262143 to the last of the year 262142.
pub proof fn calendar_bounds(secs: int, nanos: int)
    ensures
        in_calendar(secs, nanos) <==> -8_334_601_228_800 <= secs && secs <= 8_210_266_876_799
            && 0 <= nanos && nanos <= 999_999_999,
{
}

} // verus!
