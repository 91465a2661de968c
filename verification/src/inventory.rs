//! Import of the inventory of known certificates.

use vstd::prelude::*;
use crate::config::InventorySource;
use crate::hex::{hex, hex_digits_of_byte, hex_doubles_length};
use crate::storage::{CertificateInventoryRow, InventoryRefreshLogRow};
use crate::text::{chars_of, decimal, led_in, push_decimal};
use crate::time::{
    whole_minutes, Timestamp, MAX_SECS, MIN_SECS, NANOS_PER_MILLI, NANOS_PER_MINUTE,
};

verus! {

/// Longest time between two imports, in seconds.
pub const MAX_POLL_INTERVAL_SECS: u64 = 300;

/// Minutes after which an import is out of date.
pub const STALE_AFTER_MINUTES: i64 = 60;

/// What can go wrong with an import.
#[derive(Clone, Debug)]
pub enum InventoryError {
    /// The database could not be read or written.
    Storage(String),
    /// The file could not be read.
    Io(String),
    /// The content is not a list of entries.
    Json(String),
    /// The service could not be reached.
    Http(String),
    /// The service did not answer within that many seconds.
    Timeout(u64),
}

/// An import error in words.
pub open spec fn inventory_error_text(e: InventoryError) -> Seq<char> {
    match e {
        InventoryError::Storage(text) => "Storage error: "@ + text@,
        InventoryError::Io(text) => "I/O error: "@ + text@,
        InventoryError::Json(text) => "JSON parse error: "@ + text@,
        InventoryError::Http(text) => "HTTP error: "@ + text@,
        InventoryError::Timeout(secs) => "Request timed out after "@ + decimal(secs as nat)
            + " seconds"@,
    }
}

impl InventoryError {
    /// The error in words.
    pub fn message(&self) -> (r: String)
        ensures
            r@ == inventory_error_text(*self),
    {
        match self {
            InventoryError::Storage(text) => led_in("Storage error: ", text.as_str()),
            InventoryError::Io(text) => led_in("I/O error: ", text.as_str()),
            InventoryError::Json(text) => led_in("JSON parse error: ", text.as_str()),
            InventoryError::Http(text) => led_in("HTTP error: ", text.as_str()),
            InventoryError::Timeout(secs) => {
                let mut out = String::from_str("Request timed out after ");
                push_decimal(&mut out, *secs);
                out.append(" seconds");
                out
            },
        }
    }
}

/// Summary of an import.
#[derive(Clone, Copy, Debug, PartialEq, Eq, Structural)]
pub struct InventoryRefreshResult {
    /// Valid entries.
    pub total_entries: usize,
    /// Valid entries that were not in the inventory before.
    pub new_entries: usize,
    /// Entries of earlier imports that are gone.
    pub removed_entries: usize,
    /// Entries skipped as malformed.
    pub skipped_invalid: usize,
}

/// An entry as the source gives it.
#[derive(Clone, Debug)]
pub struct RawInventoryEntry {
    /// Fingerprint in hexadecimal.
    pub fingerprint: Option<String>,
    /// Subject of the certificate.
    pub subject: Option<String>,
}

// ---------------------------------------------------------------------------
// Fingerprints
// ---------------------------------------------------------------------------

/// The character is a hexadecimal digit of either case.
pub open spec fn is_hex_digit(c: char) -> bool {
    ||| '0' <= c && c <= '9'
    ||| 'a' <= c && c <= 'f'
    ||| 'A' <= c && c <= 'F'
}

/// The value of a hexadecimal digit.
pub open spec fn digit_value(c: char) -> int {
    if '0' <= c && c <= '9' {
        c as u8 - 48
    } else if 'a' <= c && c <= 'f' {
        c as u8 - 87
    } else {
        c as u8 - 55
    }
}

/// The hexadecimal digits among the characters, in order.
pub open spec fn hex_digits(s: Seq<char>) -> Seq<char>
    decreases s.len(),
{
    if s.len() == 0 {
        Seq::empty()
    } else if is_hex_digit(s.last()) {
        hex_digits(s.drop_last()).push(s.last())
    } else {
        hex_digits(s.drop_last())
    }
}

/// The bytes that pairs of hexadecimal digits stand for.
pub open spec fn bytes_of_digits(digits: Seq<char>) -> Seq<u8> {
    Seq::new(
        digits.len() / 2,
        |i: int| (16 * digit_value(digits[2 * i]) + digit_value(digits[2 * i + 1])) as u8,
    )
}

/// The fingerprint that a text denotes: its hexadecimal digits, of which there are 64,
/// whatever stands between them.
pub open spec fn fingerprint_in(s: Seq<char>) -> Option<Seq<u8>> {
    if hex_digits(s).len() == 64 {
        Some(bytes_of_digits(hex_digits(s)))
    } else {
        None
    }
}

/// The hexadecimal notation of a fingerprint denotes that fingerprint.
pub proof fn fingerprint_round_trip(bytes: Seq<u8>)
    requires
        bytes.len() == 32,
    ensures
        fingerprint_in(hex(bytes)) == Some(bytes),
{
    hex_doubles_length(bytes);
    assert forall|i: int| 0 <= i < 64 implies is_hex_digit(#[trigger] hex(bytes)[i]) by {
        hex_digits_of_byte(bytes, i / 2);
        assert(i == 2 * (i / 2) || i == 2 * (i / 2) + 1);
    }
    lemma_all_digits(hex(bytes));
    let back = bytes_of_digits(hex(bytes));
    assert forall|i: int| 0 <= i < 32 implies back[i] == bytes[i] by {
        hex_digits_of_byte(bytes, i);
    }
    assert(back =~= bytes);
}

/// Where all characters are hexadecimal digits, none is left out.
proof fn lemma_all_digits(s: Seq<char>)
    requires
        forall|i: int| 0 <= i < s.len() ==> is_hex_digit(#[trigger] s[i]),
    ensures
        hex_digits(s) == s,
    decreases s.len(),
{
    if s.len() > 0 {
        assert forall|i: int| 0 <= i < s.drop_last().len() implies is_hex_digit(
            #[trigger] s.drop_last()[i],
        ) by {
            assert(s.drop_last()[i] == s[i]);
        }
        assert(is_hex_digit(s[s.len() - 1]));
        lemma_all_digits(s.drop_last());
        assert(s.drop_last().push(s.last()) =~= s);
    } else {
        assert(hex_digits(s) =~= s);
    }
}

/// What stands between the digits, such as a colon, does not matter.
pub proof fn separators_do_not_matter(a: Seq<char>, separator: char, b: Seq<char>)
    requires
        !is_hex_digit(separator),
    ensures
        fingerprint_in(a.push(separator) + b) == fingerprint_in(a + b),
{
    lemma_hex_digits_concat(a.push(separator), b);
    lemma_hex_digits_concat(a, b);
    assert(a.push(separator).drop_last() =~= a);
}

proof fn lemma_hex_digits_concat(a: Seq<char>, b: Seq<char>)
    ensures
        hex_digits(a + b) == hex_digits(a) + hex_digits(b),
    decreases b.len(),
{
    if b.len() == 0 {
        assert(a + b =~= a);
        assert(hex_digits(a) + hex_digits(b) =~= hex_digits(a));
    } else {
        assert((a + b).drop_last() =~= a + b.drop_last());
        lemma_hex_digits_concat(a, b.drop_last());
        assert(hex_digits(a + b) =~= hex_digits(a) + hex_digits(b));
    }
}

/// Whether the character is a hexadecimal digit.
fn is_digit_char(c: char) -> (r: bool)
    ensures
        r == is_hex_digit(c),
{
    ('0' <= c && c <= '9') || ('a' <= c && c <= 'f') || ('A' <= c && c <= 'F')
}

/// The value of a hexadecimal digit.
fn value_of(c: char) -> (r: u8)
    requires
        is_hex_digit(c),
    ensures
        r == digit_value(c),
        r < 16,
{
    let code: u8 = c as u8;
    if '0' <= c && c <= '9' {
        code - 48
    } else if 'a' <= c && c <= 'f' {
        code - 87
    } else {
        code - 55
    }
}

proof fn lemma_hex_digits_are_digits(s: Seq<char>, i: int)
    requires
        0 <= i < hex_digits(s).len(),
    ensures
        is_hex_digit(hex_digits(s)[i]),
    decreases s.len(),
{
    let before = hex_digits(s.drop_last());
    if i < before.len() {
        lemma_hex_digits_are_digits(s.drop_last(), i);
    }
}

/// Reads a fingerprint in hexadecimal notation: 64 digits of either case. Colons, spaces and
/// whatever else is not a digit may stand between them.
pub fn parse_hex_fingerprint(text: &str) -> (r: Option<[u8; 32]>)
    ensures
        match r {
            Some(fp) => fingerprint_in(text@) == Some(fp@),
            None => fingerprint_in(text@) is None,
        },
{
    let chars = chars_of(text);
    let mut clean: Vec<char> = Vec::new();
    let mut i: usize = 0;
    while i < chars.len()
        invariant
            i <= chars.len(),
            chars@ == text@,
            clean@ == hex_digits(text@.take(i as int)),
            clean.len() <= i,
        decreases chars.len() - i,
    {
        assert(text@.take(i + 1).drop_last() =~= text@.take(i as int));
        assert(text@.take(i + 1).last() == chars@[i as int]);
        if is_digit_char(chars[i]) {
            clean.push(chars[i]);
        }
        i += 1;
    }
    assert(text@.take(i as int) =~= text@);
    if clean.len() != 64 {
        return None;
    }
    let mut result: [u8; 32] = [0u8; 32];
    let mut k: usize = 0;
    while k < 32
        invariant
            k <= 32,
            clean.len() == 64,
            clean@ == hex_digits(text@),
            forall|j: int| 0 <= j < k ==> #[trigger] result@[j] == bytes_of_digits(clean@)[j],
        decreases 32 - k,
    {
        proof {
            lemma_hex_digits_are_digits(text@, 2 * k as int);
            lemma_hex_digits_are_digits(text@, 2 * k + 1);
        }
        result[k] = value_of(clean[2 * k]) * 16 + value_of(clean[2 * k + 1]);
        k += 1;
    }
    assert(result@ =~= bytes_of_digits(clean@));
    Some(result)
}

// ---------------------------------------------------------------------------
// Entries
// ---------------------------------------------------------------------------

/// The entry names a fingerprint and a subject that is not empty.
pub open spec fn is_valid_entry(raw: RawInventoryEntry) -> bool {
    &&& raw.fingerprint matches Some(text) && fingerprint_in(text@) is Some
    &&& raw.subject matches Some(subject) && subject@.len() > 0
}

/// The valid entries, in order.
pub open spec fn valid_entries(raw: Seq<RawInventoryEntry>) -> Seq<RawInventoryEntry>
    decreases raw.len(),
{
    if raw.len() == 0 {
        Seq::empty()
    } else if is_valid_entry(raw.last()) {
        valid_entries(raw.drop_last()).push(raw.last())
    } else {
        valid_entries(raw.drop_last())
    }
}

/// No entry is lost: it is either valid or skipped.
pub proof fn valid_entries_bound(raw: Seq<RawInventoryEntry>)
    ensures
        valid_entries(raw).len() <= raw.len(),
        (forall|i: int| 0 <= i < raw.len() ==> is_valid_entry(#[trigger] raw[i])) ==> valid_entries(
            raw,
        ) == raw,
        (forall|i: int| 0 <= i < raw.len() ==> !is_valid_entry(#[trigger] raw[i]))
            ==> valid_entries(raw).len() == 0,
    decreases raw.len(),
{
    if raw.len() > 0 {
        let rest = raw.drop_last();
        valid_entries_bound(rest);
        assert forall|i: int| 0 <= i < rest.len() implies #[trigger] rest[i] == raw[i] by {}
        if forall|i: int| 0 <= i < raw.len() ==> is_valid_entry(#[trigger] raw[i]) {
            assert(is_valid_entry(raw[raw.len() - 1]));
            assert(forall|i: int| 0 <= i < rest.len() ==> is_valid_entry(#[trigger] rest[i]));
            assert(rest.push(raw.last()) =~= raw);
        }
        if forall|i: int| 0 <= i < raw.len() ==> !is_valid_entry(#[trigger] raw[i]) {
            assert(!is_valid_entry(raw[raw.len() - 1]));
            assert(forall|i: int| 0 <= i < rest.len() ==> !is_valid_entry(#[trigger] rest[i]));
        }
    } else {
        assert(valid_entries(raw) =~= raw);
    }
}

/// The name of a source in the database.
pub open spec fn source_text(source: InventorySource) -> Seq<char> {
    match source {
        InventorySource::File { .. } => "file"@,
        InventorySource::Api { .. } => "api"@,
    }
}

/// The row holds a valid entry.
pub open spec fn is_inventory_row(
    row: CertificateInventoryRow,
    raw: RawInventoryEntry,
    source: Seq<char>,
    refresh_id: Seq<char>,
    now_ms: int,
) -> bool {
    &&& Some(row.fingerprint@) == fingerprint_in(raw.fingerprint->0@)
    &&& row.subject@ == raw.subject->0@
    &&& row.source@ == source
    &&& row.imported_at == now_ms
    &&& row.last_refresh_id@ == refresh_id
}

/// What an import writes.
#[derive(Clone, Debug)]
pub struct RefreshPlan {
    /// Rows of the valid entries.
    pub rows: Vec<CertificateInventoryRow>,
    /// How many entries were malformed.
    pub skipped_invalid: usize,
}

/// The smaller of two numbers.
pub open spec fn smaller(a: int, b: int) -> int {
    if a < b {
        a
    } else {
        b
    }
}

/// Reads and judges a single entry.
pub fn validate_entry(raw: &RawInventoryEntry) -> (r: Option<([u8; 32], String)>)
    ensures
        r is Some <==> is_valid_entry(*raw),
        r matches Some((fp, subject)) ==> fingerprint_in(raw.fingerprint->0@) == Some(fp@)
            && subject@ == raw.subject->0@,
{
    match (&raw.fingerprint, &raw.subject) {
        (Some(text), Some(subject)) => {
            if subject.as_str().is_empty() {
                return None;
            }
            match parse_hex_fingerprint(text.as_str()) {
                Some(fp) => Some((fp, subject.clone())),
                None => None,
            }
        },
        _ => None,
    }
}

/// The source of the inventory and the time of the last import.
#[derive(Clone, Debug)]
pub struct InventoryManager {
    pub source: InventorySource,
    /// Seconds between two imports.
    pub poll_interval_secs: u64,
    /// When the last import succeeded.
    pub last_successful_refresh: Option<Timestamp>,
}

impl InventoryManager {
    /// A manager that has not imported anything yet. Imports are at most five minutes apart.
    pub fn new(source: InventorySource, poll_interval_secs: u64) -> (r: Self)
        ensures
            r.source == source,
            r.poll_interval_secs == smaller(
                poll_interval_secs as int,
                MAX_POLL_INTERVAL_SECS as int,
            ),
            r.last_successful_refresh is None,
    {
        let poll_interval_secs = if poll_interval_secs < MAX_POLL_INTERVAL_SECS {
            poll_interval_secs
        } else {
            MAX_POLL_INTERVAL_SECS
        };
        InventoryManager { source, poll_interval_secs, last_successful_refresh: None }
    }

    /// The name of the source in the database.
    pub fn source_name(&self) -> (r: &'static str)
        ensures
            r@ == source_text(self.source),
    {
        match &self.source {
            InventorySource::File { .. } => "file",
            InventorySource::Api { .. } => "api",
        }
    }

    /// What an import of the given entries writes: one row for each valid entry, in order.
    /// Malformed entries are skipped and counted.
    pub fn plan_refresh(
        &self,
        raw: &Vec<RawInventoryEntry>,
        refresh_id: &str,
        now: &Timestamp,
    ) -> (r: RefreshPlan)
        ensures
            r.rows.len() == valid_entries(raw@).len(),
            r.rows.len() + r.skipped_invalid == raw.len(),
            forall|i: int|
                0 <= i < r.rows.len() ==> is_inventory_row(
                    #[trigger] r.rows@[i],
                    valid_entries(raw@)[i],
                    source_text(self.source),
                    refresh_id@,
                    now.millis(),
                ),
    {
        let mut rows: Vec<CertificateInventoryRow> = Vec::new();
        let mut skipped_invalid: usize = 0;
        let mut i: usize = 0;
        while i < raw.len()
            invariant
                i <= raw.len(),
                rows.len() + skipped_invalid == i,
                rows.len() == valid_entries(raw@.take(i as int)).len(),
                forall|j: int|
                    0 <= j < rows.len() ==> is_inventory_row(
                        #[trigger] rows@[j],
                        valid_entries(raw@.take(i as int))[j],
                        source_text(self.source),
                        refresh_id@,
                        now.millis(),
                    ),
            decreases raw.len() - i,
        {
            assert(raw@.take(i + 1).drop_last() =~= raw@.take(i as int));
            match validate_entry(&raw[i]) {
                Some((fingerprint, subject)) => {
                    rows.push(
                        CertificateInventoryRow {
                            fingerprint,
                            subject,
                            source: String::from_str(self.source_name()),
                            imported_at: now.timestamp_millis(),
                            last_refresh_id: String::from_str(refresh_id),
                        },
                    );
                },
                None => {
                    skipped_invalid += 1;
                },
            }
            i += 1;
        }
        assert(raw@.take(i as int) =~= raw@);
        RefreshPlan { rows, skipped_invalid }
    }

    /// Takes note of an import whose rows were written: `already_known` of them were in the
    /// inventory before, and `removed` earlier rows without an entry are gone. Gives its
    /// summary and its row in the log.
    pub fn finish_refresh(
        &mut self,
        plan: &RefreshPlan,
        already_known: usize,
        removed: usize,
        refresh_id: &str,
        now: &Timestamp,
    ) -> (r: (InventoryRefreshResult, InventoryRefreshLogRow))
        requires
            already_known <= plan.rows@.len(),
        ensures
            *final(self) == (InventoryManager {
                last_successful_refresh: Some(*now),
                ..*old(self)
            }),
            r.0 == (InventoryRefreshResult {
                total_entries: plan.rows@.len() as usize,
                new_entries: (plan.rows@.len() - already_known) as usize,
                removed_entries: removed,
                skipped_invalid: plan.skipped_invalid,
            }),
            r.1.id@ == refresh_id@,
            r.1.timestamp == now.millis(),
            r.1.source@ == source_text(old(self).source),
            r.1.total_entries == Some(r.0.total_entries as i32),
            r.1.new_entries == Some(r.0.new_entries as i32),
            r.1.removed_entries == Some(r.0.removed_entries as i32),
            r.1.skipped_invalid == Some(r.0.skipped_invalid as i32),
            r.1.success,
            is_refreshed(*old(self), *plan, already_known, removed, *now, *final(self), r.0),
    {
        let total: usize = plan.rows.len();
        let new_entries: usize = total - already_known;
        let result = InventoryRefreshResult {
            total_entries: total,
            new_entries,
            removed_entries: removed,
            skipped_invalid: plan.skipped_invalid,
        };
        let row = InventoryRefreshLogRow {
            id: String::from_str(refresh_id),
            timestamp: now.timestamp_millis(),
            source: String::from_str(self.source_name()),
            total_entries: Some(total as i32),
            new_entries: Some(new_entries as i32),
            removed_entries: Some(removed as i32),
            skipped_invalid: Some(plan.skipped_invalid as i32),
            success: true,
        };
        self.last_successful_refresh = Some(*now);
        (result, row)
    }

    /// The row in the log of an import whose source could not be reached. Where the source is
    /// a file there is none.
    pub fn failed_refresh_log(&self, refresh_id: &str, now: &Timestamp) -> (r: Option<
        InventoryRefreshLogRow,
    >)
        ensures
            r is Some <==> self.source is Api,
            r matches Some(row) ==> {
                &&& row.id@ == refresh_id@
                &&& row.timestamp == now.millis()
                &&& row.source@ == "api"@
                &&& row.total_entries is None
                &&& row.new_entries is None
                &&& row.removed_entries is None
                &&& row.skipped_invalid is None
                &&& !row.success
            },
    {
        match &self.source {
            InventorySource::File { .. } => None,
            InventorySource::Api { .. } => Some(
                InventoryRefreshLogRow {
                    id: String::from_str(refresh_id),
                    timestamp: now.timestamp_millis(),
                    source: String::from_str("api"),
                    total_entries: None,
                    new_entries: None,
                    removed_entries: None,
                    skipped_invalid: None,
                    success: false,
                },
            ),
        }
    }

    /// When the last import succeeded.
    pub fn last_refresh(&self) -> (r: Option<Timestamp>)
        ensures
            r == self.last_successful_refresh,
    {
        self.last_successful_refresh
    }

    /// Whether the last import succeeded more than 60 minutes before the given instant.
    /// Before the first import it is not.
    pub fn is_stale_at(&self, now: &Timestamp) -> (r: bool)
        ensures
            r == (self.last_successful_refresh matches Some(last) && now.at() - last.at()
                > STALE_AFTER_MINUTES * NANOS_PER_MINUTE),
            r == stale_at(self.last_successful_refresh, *now),
    {
        match &self.last_successful_refresh {
            Some(last) => now.is_minutes_after(last, STALE_AFTER_MINUTES),
            None => false,
        }
    }

    /// Whether the last import succeeded more than 60 minutes ago. Before the first import
    /// it is not.
    pub fn is_stale(&self) -> (r: bool)
        ensures
            self.last_successful_refresh is None ==> !r,
            exists|now: Timestamp|
                r == (self.last_successful_refresh matches Some(last) && (#[trigger] now.at())
                    - last.at() > STALE_AFTER_MINUTES * NANOS_PER_MINUTE),
    {
        let now = Timestamp::now();
        self.is_stale_at(&now)
    }

    /// The whole minutes from the last import to the given instant.
    pub fn staleness_minutes_at(&self, now: &Timestamp) -> (r: Option<i64>)
        ensures
            r == (match self.last_successful_refresh {
                Some(last) => Some(whole_minutes(now.at() - last.at()) as i64),
                None => None,
            }),
    {
        match &self.last_successful_refresh {
            Some(last) => Some(now.minutes_since(last)),
            None => None,
        }
    }

    /// Takes the time of the last import from the log, where its latest row tells of a
    /// success at an instant that the calendar reaches.
    pub fn initialize_from_storage(&mut self, latest: Option<&InventoryRefreshLogRow>)
        ensures
            final(self).source == old(self).source,
            final(self).poll_interval_secs == old(self).poll_interval_secs,
            match latest {
                Some(row) => if row.success && MIN_SECS * 1000 <= row.timestamp <= MAX_SECS * 1000
                    + 999 {
                    final(self).last_successful_refresh matches Some(t) && t.at() == row.timestamp
                        * NANOS_PER_MILLI
                } else {
                    final(self).last_successful_refresh == old(self).last_successful_refresh
                },
                None => final(self).last_successful_refresh == old(self).last_successful_refresh,
            },
            is_taken_from_log(
                old(self).last_successful_refresh,
                match latest {
                    Some(row) => Some(*row),
                    None => None,
                },
                final(self).last_successful_refresh,
            ),
    {
        match latest {
            Some(row) => {
                if row.success {
                    let instant = Timestamp::from_timestamp_millis(row.timestamp);
                    if instant.is_some() {
                        self.last_successful_refresh = instant;
                    }
                }
            },
            None => {},
        }
    }
}

// ---------------------------------------------------------------------------
// Laws
// ---------------------------------------------------------------------------

/// The digits are the characters '0' to '9', 'a' to 'f' and 'A' to 'F' of the text, in order.
pub proof fn digits_are_picked_in_order(s: Seq<char>)
    ensures
        hex_digits(s) == s.filter(
            |c: char|
                ('0' <= c && c <= '9') || ('a' <= c && c <= 'f') || ('A' <= c && c <= 'F'),
        ),
    decreases s.len(),
{
    reveal(Seq::filter);
    if s.len() > 0 {
        digits_are_picked_in_order(s.drop_last());
    } else {
        assert(hex_digits(s) =~= s);
    }
}

/// A text denotes a fingerprint exactly where it has 64 digits, and then one whose notation
/// consists of these digits in lowercase.
pub proof fn fingerprint_has_the_digits_of_the_text(s: Seq<char>)
    ensures
        fingerprint_in(s) is Some <==> hex_digits(s).len() == 64,
        fingerprint_in(s) matches Some(bytes) ==> bytes.len() == 32 && hex(bytes)
            == crate::text::ascii_lowercase(hex_digits(s)),
{
    if hex_digits(s).len() == 64 {
        let digits = hex_digits(s);
        let bytes = bytes_of_digits(digits);
        let lower = crate::text::ascii_lowercase(digits);
        hex_doubles_length(bytes);
        assert forall|k: int| 0 <= k < 64 implies hex(bytes)[k] == lower[k] by {
            let i = k / 2;
            assert(k == 2 * i || k == 2 * i + 1);
            lemma_hex_digits_are_digits(s, 2 * i);
            lemma_hex_digits_are_digits(s, 2 * i + 1);
            let high = digit_value(digits[2 * i]);
            let low = digit_value(digits[2 * i + 1]);
            assert(0 <= high < 16 && 0 <= low < 16);
            assert(bytes[i] == (16 * high + low) as u8);
            assert(bytes[i] as int / 16 == high && bytes[i] as int % 16 == low);
            hex_digits_of_byte(bytes, i);
            crate::text::ascii_case_by_codes(digits, 2 * i);
            crate::text::ascii_case_by_codes(digits, 2 * i + 1);
        }
        assert(hex(bytes) =~= lower);
    }
}

/// The entries taken over are those with a fingerprint of 64 digits and a subject that is not
/// empty, in order; all others are skipped.
pub proof fn entries_are_picked_in_order(raw: Seq<RawInventoryEntry>)
    ensures
        valid_entries(raw) == raw.filter(
            |e: RawInventoryEntry|
                {
                    &&& e.fingerprint matches Some(text) && hex_digits(text@).len() == 64
                    &&& e.subject matches Some(subject) && subject@.len() >= 1
                },
        ),
    decreases raw.len(),
{
    reveal(Seq::filter);
    if raw.len() > 0 {
        entries_are_picked_in_order(raw.drop_last());
    } else {
        assert(valid_entries(raw) =~= raw);
    }
}

/// A row holds the fingerprint and the subject of its entry, the source, the import and its time.
pub proof fn row_holds_its_entry(
    row: CertificateInventoryRow,
    raw: RawInventoryEntry,
    source: InventorySource,
    refresh_id: Seq<char>,
    now: Timestamp,
)
    requires
        is_valid_entry(raw),
        is_inventory_row(row, raw, source_text(source), refresh_id, now.millis()),
    ensures
        hex(row.fingerprint@) == crate::text::ascii_lowercase(hex_digits(raw.fingerprint->0@)),
        raw.subject matches Some(subject) && row.subject@ == subject@,
        row.source@ == "file"@ <==> source is File,
        row.source@ == "api"@ <==> source is Api,
        row.last_refresh_id@ == refresh_id,
        row.imported_at * 1_000_000 <= now.at() < (row.imported_at + 1) * 1_000_000,
{
    fingerprint_has_the_digits_of_the_text(raw.fingerprint->0@);
    crate::time::millis_of_an_instant(now);
    reveal_strlit("file");
    reveal_strlit("api");
    assert("file"@.len() == 4 && "api"@.len() == 3);
}

/// The smaller of two numbers is one of them, and not above either.
pub proof fn smaller_is_a_lower_bound(a: int, b: int)
    ensures
        smaller(a, b) == a || smaller(a, b) == b,
        smaller(a, b) <= a,
        smaller(a, b) <= b,
{
}

/// An import error names its kind and what went wrong.
pub proof fn import_errors_name_their_kind(text: String, secs: u64)
    ensures
        inventory_error_text(InventoryError::Storage(text)) == "Storage error: "@ + text@,
        inventory_error_text(InventoryError::Io(text)) == "I/O error: "@ + text@,
        inventory_error_text(InventoryError::Json(text)) == "JSON parse error: "@ + text@,
        inventory_error_text(InventoryError::Http(text)) == "HTTP error: "@ + text@,
        inventory_error_text(InventoryError::Timeout(secs)) == "Request timed out after "@
            + decimal(secs as nat) + " seconds"@,
{
}

/// The inventory is out of date: it was imported, and more than an hour before `now`.
pub open spec fn stale_at(last: Option<Timestamp>, now: Timestamp) -> bool {
    last matches Some(t) && now.at() - t.at() > STALE_AFTER_MINUTES * NANOS_PER_MINUTE
}

/// The inventory goes out of date 60 minutes after an import, to the nanosecond, and stays so;
/// without any import it never does.
pub proof fn stale_after_an_hour(last: Timestamp, now: Timestamp, later: Timestamp)
    requires
        now.at() <= later.at(),
    ensures
        !stale_at(None, now),
        stale_at(Some(last), now) <==> now.at() > last.at() + 3_600_000_000_000,
        stale_at(Some(last), now) ==> stale_at(Some(last), later),
        !stale_at(Some(now), now),
{
}

/// An import of the planned rows was finished at instant `now`.
pub open spec fn is_refreshed(
    before: InventoryManager,
    plan: RefreshPlan,
    already_known: usize,
    removed: usize,
    now: Timestamp,
    after: InventoryManager,
    r: InventoryRefreshResult,
) -> bool {
    &&& after == (InventoryManager { last_successful_refresh: Some(now), ..before })
    &&& r.total_entries == plan.rows@.len()
    &&& r.new_entries + already_known == r.total_entries
    &&& r.removed_entries == removed
    &&& r.skipped_invalid == plan.skipped_invalid
}

/// After an import the inventory is not out of date, and its entries are the new ones and those
/// that were known; with the skipped ones they are all that the source gave.
pub proof fn import_accounts_for_every_entry(
    before: InventoryManager,
    raw: Seq<RawInventoryEntry>,
    plan: RefreshPlan,
    already_known: usize,
    removed: usize,
    now: Timestamp,
    after: InventoryManager,
    r: InventoryRefreshResult,
)
    requires
        plan.rows@.len() + plan.skipped_invalid == raw.len(),
        is_refreshed(before, plan, already_known, removed, now, after, r),
    ensures
        r.total_entries + r.skipped_invalid == raw.len(),
        r.total_entries == r.new_entries + already_known,
        r.removed_entries == removed,
        after.last_successful_refresh == Some(now),
        after.source == before.source,
        after.poll_interval_secs == before.poll_interval_secs,
        !stale_at(after.last_successful_refresh, now),
{
}

/// The time of the last import was taken from the latest row of the log, where that tells of a
/// success, and else stays.
pub open spec fn is_taken_from_log(
    before: Option<Timestamp>,
    latest: Option<InventoryRefreshLogRow>,
    after: Option<Timestamp>,
) -> bool {
    match latest {
        Some(row) => if row.success && MIN_SECS * 1000 <= row.timestamp <= MAX_SECS * 1000 + 999 {
            after matches Some(t) && t.at() == row.timestamp * NANOS_PER_MILLI
        } else {
            after == before
        },
        None => after == before,
    }
}

/// After a restart the inventory is as old as the latest import that the log tells of. A failed
/// import, or an empty log, makes it neither older nor younger.
pub proof fn restart_keeps_the_age(
    before: Option<Timestamp>,
    row: InventoryRefreshLogRow,
    after: Option<Timestamp>,
    now: Timestamp,
)
    requires
        is_taken_from_log(before, Some(row), after),
    ensures
        is_taken_from_log(before, None, before),
        !row.success ==> after == before,
        row.success && -8_334_601_228_800_000 <= row.timestamp <= 8_210_266_876_799_999 ==> (
        stale_at(after, now) <==> now.at() > row.timestamp * 1_000_000 + 3_600_000_000_000),
{
}

} // verus!
