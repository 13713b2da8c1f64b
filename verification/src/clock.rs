//! Local timestamps as plain values: seconds and nanoseconds since the Unix
//! epoch, and the UTC offset (in seconds) the timestamp was taken with.

use vstd::prelude::*;

use chrono::{DateTime, FixedOffset, TimeDelta};

verus! {

/// The day number (days since 1 January of year 1, that day being 1) of Unix day 0.
pub const UNIX_EPOCH_DAY: i64 = 719_163;

/// The day number of chrono's first date, 1 January of year -262143.
pub const MIN_DAY: i64 = -95_746_129;

/// The day number of chrono's last date, 31 December of year 262142.
pub const MAX_DAY: i64 = 95_745_399;

/// Whether `chrono::DateTime::<Utc>::from_timestamp(secs, nanos)` returns `Some`:
/// the day falls within chrono's dates, and the nanoseconds are under a second,
/// or under two in the last second of a minute (a leap second).
pub open spec fn representable_instant(secs: i64, nanos: u32) -> bool {
    let day = secs / 86_400 + UNIX_EPOCH_DAY;
    let second_of_day = secs % 86_400;
    &&& MIN_DAY <= day <= MAX_DAY
    &&& (nanos < 1_000_000_000 || (nanos < 2_000_000_000 && second_of_day % 60 == 59))
}

/// What `DateTime<FixedOffset>::format(pattern).to_string()` yields for the instant
/// `secs`/`nanos` shown at the UTC offset `offset`.
pub uninterp spec fn chrono_format(secs: i64, nanos: u32, offset: i32, pattern: Seq<char>) -> Seq<char>;

/// What `DateTime<FixedOffset>::checked_add_signed(TimeDelta::try_milliseconds(millis)?)`
/// yields, as seconds and nanoseconds since the epoch.
pub uninterp spec fn chrono_checked_add_millis(secs: i64, nanos: u32, offset: i32, millis: i64) -> Option<(i64, u32)>;

/// What `DateTime<FixedOffset>::checked_add_signed(TimeDelta::from_std(Duration::new(secs_added, nanos_added)).ok()?)`
/// yields, as seconds and nanoseconds since the epoch.
pub uninterp spec fn chrono_checked_add_std(secs: i64, nanos: u32, offset: i32, secs_added: u64, nanos_added: u32) -> Option<(i64, u32)>;

/// Whether the instant `instant` (nanoseconds since the epoch) falls on a day
/// within chrono's dates.
pub open spec fn in_chrono_range(instant: int) -> bool {
    let day = instant / 86_400_000_000_000 + UNIX_EPOCH_DAY;
    MIN_DAY <= day <= MAX_DAY
}

/// The offsets that `chrono::FixedOffset::east_opt` accepts.
pub open spec fn valid_utc_offset(offset: i32) -> bool {
    -86_400 < offset && offset < 86_400
}

/// The instant in nanoseconds since the Unix epoch.
pub open spec fn instant_nanos(secs: i64, nanos: u32) -> int {
    secs * 1_000_000_000 + nanos
}

/// A point in time together with the UTC offset it is shown at.
#[derive(Clone, Copy, Debug, PartialEq, Eq, Structural)]
pub struct Timestamp {
    secs: i64,
    nanos: u32,
    offset: i32,
}

impl Timestamp {
    /// Seconds since the Unix epoch.
    pub closed spec fn spec_secs(self) -> i64 {
        self.secs
    }

    /// Nanoseconds past `spec_secs`.
    pub closed spec fn spec_nanos(self) -> u32 {
        self.nanos
    }

    /// Seconds east of UTC.
    pub closed spec fn spec_offset(self) -> i32 {
        self.offset
    }

    /// The instant in nanoseconds since the epoch.
    pub open spec fn instant(self) -> int {
        instant_nanos(self.spec_secs(), self.spec_nanos())
    }

    /// The same UTC offset at another instant.
    pub closed spec fn with_instant(self, secs: i64, nanos: u32) -> Timestamp {
        Timestamp { secs, nanos, offset: self.offset }
    }

    /// What `with_instant` holds.
    pub broadcast proof fn lemma_with_instant(self, secs: i64, nanos: u32)
        ensures
            #[trigger] self.with_instant(secs, nanos).spec_secs() == secs,
            self.with_instant(secs, nanos).spec_nanos() == nanos,
            self.with_instant(secs, nanos).spec_offset() == self.spec_offset(),
    {
    }

    /// chrono can represent this timestamp.
    pub open spec fn valid(self) -> bool {
        representable_instant(self.spec_secs(), self.spec_nanos()) && valid_utc_offset(self.spec_offset())
    }

    /// Every timestamp that exists at run time is one chrono can represent.
    #[verifier::type_invariant]
    pub open spec fn inv(self) -> bool {
        self.valid()
    }

    /// Seconds since the Unix epoch.
    pub fn secs(&self) -> (r: i64)
        ensures r == self.spec_secs(),
    {
        self.secs
    }

    /// Nanoseconds past the second.
    pub fn nanos(&self) -> (r: u32)
        ensures r == self.spec_nanos(),
    {
        self.nanos
    }

    /// Seconds east of UTC.
    pub fn offset_secs(&self) -> (r: i32)
        ensures r == self.spec_offset(),
    {
        self.offset
    }

    /// Builds a timestamp; `None` when chrono cannot represent it.
    pub fn from_parts(secs: i64, nanos: u32, offset: i32) -> (r: Option<Timestamp>)
        ensures
            r is Some <==> representable_instant(secs, nanos) && valid_utc_offset(offset),
            r matches Some(t) ==> t.spec_secs() == secs && t.spec_nanos() == nanos && t.spec_offset() == offset,
    {
        if -86_400 < offset && offset < 86_400 && timestamp_in_range(secs, nanos) {
            Some(Timestamp { secs, nanos, offset })
        } else {
            None
        }
    }
}

/// The second-level bounds of chrono's dates and the leap-second rule, as
/// plain comparisons.
proof fn lemma_representable_by_bounds(secs: i64, nanos: u32)
    ensures
        representable_instant(secs, nanos) <==> (-8_334_601_228_800 <= secs <= 8_210_266_876_799 && (nanos
            < 1_000_000_000 || (nanos < 2_000_000_000 && secs % 60 == 59))),
{
    let q = secs / 86_400;
    let r = secs % 86_400;
    assert(secs == q * 86_400 + r && 0 <= r < 86_400);
    assert((MIN_DAY <= q + UNIX_EPOCH_DAY <= MAX_DAY) <==> (-8_334_601_228_800 <= secs <= 8_210_266_876_799))
        by (nonlinear_arith)
        requires
            secs == q * 86_400 + r,
            0 <= r < 86_400,
            MIN_DAY == -95_746_129,
            MAX_DAY == 95_745_399,
            UNIX_EPOCH_DAY == 719_163,
    ;
    assert(r % 60 == secs % 60) by (nonlinear_arith)
        requires
            secs == q * 86_400 + r,
            0 <= r < 86_400,
    ;
}

/// Whether `chrono::DateTime::<Utc>::from_timestamp(secs, nanos)` would succeed.
fn timestamp_in_range(secs: i64, nanos: u32) -> (r: bool)
    ensures
        r == representable_instant(secs, nanos),
{
    proof {
        lemma_representable_by_bounds(secs, nanos);
    }
    let in_dates = -8_334_601_228_800 <= secs && secs <= 8_210_266_876_799;
    let last_second = if secs >= 0 {
        (secs as u64) % 60 == 59
    } else {
        let k = (-(secs + 1)) as u64;
        assert(secs % 60 == 59 <==> k % 60 == 0) by (nonlinear_arith)
            requires
                secs == -(k + 1),
                k >= 0,
        ;
        k % 60 == 0
    };
    in_dates && (nanos < 1_000_000_000 || (nanos < 2_000_000_000 && last_second))
}

/// `ts` moved forward by a `std::time::Duration` as chrono computes it, keeping its
/// offset; `None` where chrono reports the duration or the result out of range.
pub open spec fn added_duration(ts: Timestamp, secs_added: u64, nanos_added: u32) -> Option<Timestamp> {
    match chrono_checked_add_std(ts.spec_secs(), ts.spec_nanos(), ts.spec_offset(), secs_added, nanos_added) {
        Some(p) => Some(ts.with_instant(p.0, p.1)),
        None => None,
    }
}

/// Adds the duration `secs_added` s + `nanos_added` ns with `TimeDelta::from_std`
/// and `DateTime::<FixedOffset>::checked_add_signed`. On success the offset is kept.
/// Unless `ts` falls in a leap second, chrono's source moves the instant by exactly
/// that much and fails only when the result's day lies outside its dates.
#[verifier::external_body]
pub(crate) fn checked_add_duration(ts: &Timestamp, secs_added: u64, nanos_added: u32) -> (r: Option<Timestamp>)
    requires
        nanos_added < 1_000_000_000,
    ensures
        r == added_duration(*ts, secs_added, nanos_added),
        r is Some <==> chrono_checked_add_std(ts.spec_secs(), ts.spec_nanos(), ts.spec_offset(), secs_added, nanos_added) is Some,
        r matches Some(t) ==> t.valid(),
        r matches Some(t) ==> (ts.spec_nanos() < 1_000_000_000 ==> t.instant() == ts.instant() + secs_added * 1_000_000_000 + nanos_added),
        ts.spec_nanos() < 1_000_000_000 ==> (r is Some <==> in_chrono_range(ts.instant() + secs_added * 1_000_000_000 + nanos_added)),
{
    let offset = FixedOffset::east_opt(ts.offset).unwrap();
    let base = DateTime::from_timestamp(ts.secs, ts.nanos).unwrap().with_timezone(&offset);
    let moved = match TimeDelta::from_std(std::time::Duration::new(secs_added, nanos_added)) {
        Ok(delta) => base.checked_add_signed(delta),
        Err(_) => None,
    };
    moved.map(|t| Timestamp { secs: t.timestamp(), nanos: t.timestamp_subsec_nanos(), offset: ts.offset })
}

/// `ts` moved by `millis` milliseconds as chrono computes it, keeping its offset;
/// `None` where chrono reports the result out of range.
pub open spec fn added_millis(ts: Timestamp, millis: i64) -> Option<Timestamp> {
    match chrono_checked_add_millis(ts.spec_secs(), ts.spec_nanos(), ts.spec_offset(), millis) {
        Some(p) => Some(ts.with_instant(p.0, p.1)),
        None => None,
    }
}

/// The local time of an audio offset: `origin` moved by `offset_ms`, or `now`
/// when there is no offset or chrono cannot add it.
pub open spec fn audio_offset_time(origin: Timestamp, offset_ms: Option<i64>, now: Timestamp) -> Timestamp {
    match offset_ms {
        Some(ms) => match added_millis(origin, ms) {
            Some(t) => t,
            None => now,
        },
        None => now,
    }
}

/// What is known of `audio_offset_time(origin, offset_ms, now)` as a moment:
/// `now` without an offset; outside a leap second of `origin`, the origin moved
/// by exactly the offset, at the origin's UTC offset, when that lands on a day
/// within chrono's dates, and `now` otherwise.
pub open spec fn offset_time_facts(r: Timestamp, origin: Timestamp, offset_ms: Option<i64>, now: Timestamp) -> bool {
    match offset_ms {
        None => r == now,
        Some(ms) => origin.spec_nanos() < 1_000_000_000 ==> if in_chrono_range(origin.instant() + ms * 1_000_000) {
            r.instant() == origin.instant() + ms * 1_000_000 && r.spec_offset() == origin.spec_offset()
        } else {
            r == now
        },
    }
}

/// The local time at `offset_ms` milliseconds into the audio that started at
/// `origin`; `now` where the offset is missing or cannot be added.
pub fn audio_offset_to_local_time(origin: &Timestamp, offset_ms: Option<i64>, now: &Timestamp) -> (r: Timestamp)
    ensures
        r == audio_offset_time(*origin, offset_ms, *now),
        offset_time_facts(r, *origin, offset_ms, *now),
{
    match offset_ms {
        Some(ms) => match checked_add_millis(origin, ms) {
            Some(t) => t,
            None => *now,
        },
        None => *now,
    }
}

/// The strftime patterns the library formats with.
pub open spec fn known_pattern(pattern: Seq<char>) -> bool {
    pattern == "%Y-%m-%d"@ || pattern == "%H:%M"@ || pattern == "%H:%M:%S"@
}

/// A character of a `%Y-%m-%d` date: an ASCII digit, the separator `-`, or the
/// sign chrono writes before a year outside 0..=9999.
pub open spec fn is_date_char(c: char) -> bool {
    ('0' <= c && c <= '9') || c == '-' || c == '+'
}

/// Formats with `chrono::DateTime::<FixedOffset>::format`; the text is named by
/// `chrono_format`. Of a `%Y-%m-%d` date it states only what chrono's numeric
/// formatting writes: digits, signs and the separators.
#[verifier::external_body]
pub(crate) fn format_timestamp(ts: &Timestamp, pattern: &str) -> (r: String)
    requires
        known_pattern(pattern@),
    ensures
        r@ == chrono_format(ts.spec_secs(), ts.spec_nanos(), ts.spec_offset(), pattern@),
        pattern@ == "%Y-%m-%d"@ ==> forall|i: int| 0 <= i < r@.len() ==> is_date_char(#[trigger] r@[i]),
{
    let offset = FixedOffset::east_opt(ts.offset).unwrap();
    DateTime::from_timestamp(ts.secs, ts.nanos).unwrap().with_timezone(&offset).format(pattern).to_string()
}

/// Adds `millis` milliseconds with `TimeDelta::try_milliseconds` and
/// `DateTime::<FixedOffset>::checked_add_signed`. On success the offset is kept.
/// Unless `ts` falls in a leap second (which chrono adds to differently), chrono's
/// source moves the instant by exactly `millis` milliseconds and fails only when
/// the result's day lies outside its dates.
#[verifier::external_body]
pub(crate) fn checked_add_millis(ts: &Timestamp, millis: i64) -> (r: Option<Timestamp>)
    ensures
        r == added_millis(*ts, millis),
        r is Some <==> chrono_checked_add_millis(ts.spec_secs(), ts.spec_nanos(), ts.spec_offset(), millis) is Some,
        r matches Some(t) ==> t.valid(),
        r matches Some(t) ==> (ts.spec_nanos() < 1_000_000_000 ==> t.instant() == ts.instant() + millis * 1_000_000),
        ts.spec_nanos() < 1_000_000_000 ==> (r is Some <==> in_chrono_range(ts.instant() + millis * 1_000_000)),
{
    let offset = FixedOffset::east_opt(ts.offset).unwrap();
    let base = DateTime::from_timestamp(ts.secs, ts.nanos).unwrap().with_timezone(&offset);
    let moved = match TimeDelta::try_milliseconds(millis) {
        Some(delta) => base.checked_add_signed(delta),
        None => None,
    };
    moved.map(|t| Timestamp { secs: t.timestamp(), nanos: t.timestamp_subsec_nanos(), offset: ts.offset })
}

} // verus!
