//! Points in time and the local calendar.
//!
//! A `Timestamp` is the plain-value form of a UTC instant: whole seconds
//! since the Unix epoch and the nanoseconds within that second. The clock is
//! read by the caller, which hands the instant in. The local calendar (which
//! day an instant falls on, where a day starts) depends on the machine's time
//! zone and is read through chrono.
use chrono::Datelike;
use chrono::TimeZone;
use vstd::prelude::*;

verus! {

/// Earliest second that chrono can represent (January 1, 262143 BCE).
pub const MIN_SECS: i64 = -8334601228800;

/// Latest second that chrono can represent (December 31, 262142 CE).
pub const MAX_SECS: i64 = 8210266876799;

/// Earliest day number (days from the common era, 0001-01-01 being day 1).
pub const MIN_DAY: i32 = -95746129;

/// Latest day number.
pub const MAX_DAY: i32 = 95745399;

/// Seconds in one day; a time-zone offset is always less than this.
pub const SECS_PER_DAY: i64 = 86400;

/// A UTC instant: `secs` since 1970-01-01 00:00:00 UTC and `nanos` within
/// that second (a value of a billion or more marks a leap second).
#[derive(Clone, Copy, Debug, PartialEq, Eq, Structural)]
pub struct Timestamp {
    pub secs: i64,
    pub nanos: u32,
}

impl Timestamp {
    /// The instant is one that chrono can represent.
    pub open spec fn wf(self) -> bool {
        &&& MIN_SECS <= self.secs <= MAX_SECS
        &&& self.nanos < 2_000_000_000
        &&& self.nanos >= 1_000_000_000 ==> self.secs % 60 == 59
    }

    /// The instant lies at least a day away from both ends of chrono's
    /// range, so that its local date exists in every time zone.
    pub open spec fn in_local_range(self) -> bool {
        &&& self.wf()
        &&& MIN_SECS + SECS_PER_DAY <= self.secs <= MAX_SECS - SECS_PER_DAY
    }

    /// Strict chronological order, as chrono orders `DateTime<Utc>`.
    pub open spec fn spec_before(self, other: Timestamp) -> bool {
        self.secs < other.secs || (self.secs == other.secs && self.nanos < other.nanos)
    }

    /// Whether the instant lies in the range where its local date exists.
    pub fn is_in_local_range(&self) -> (r: bool)
        ensures
            r == self.in_local_range(),
    {
        // The machine remainder keeps the sign of `secs`: the last second
        // of a minute before 1970 leaves -1.
        MIN_SECS + SECS_PER_DAY <= self.secs && self.secs <= MAX_SECS - SECS_PER_DAY
            && self.nanos < 2_000_000_000 && (self.nanos < 1_000_000_000 || self.secs % 60 == 59
            || self.secs % 60 == -1)
    }

    /// Whether `self` comes strictly before `other`.
    pub fn before(&self, other: &Timestamp) -> (r: bool)
        ensures
            r == self.spec_before(*other),
    {
        self.secs < other.secs || (self.secs == other.secs && self.nanos < other.nanos)
    }
}

/// A day number lies in chrono's calendar range.
pub open spec fn valid_day(day: int) -> bool {
    MIN_DAY <= day <= MAX_DAY
}

/// The day number of 1970-01-01, the day the Unix epoch falls on.
pub const EPOCH_DAY: i32 = 719163;

/// The UTC second at which day `day` starts (its midnight in UTC).
pub open spec fn utc_day_start(day: int) -> int {
    (day - EPOCH_DAY) * SECS_PER_DAY
}

/// Day `day` can be the local day of `ts` in some time zone: the local
/// time is the UTC time plus an offset of less than a day either way, so
/// `ts` lies less than a day before the UTC start of `day` or less than two
/// days after it.
pub open spec fn may_be_local_day(ts: Timestamp, day: int) -> bool {
    utc_day_start(day) - SECS_PER_DAY < ts.secs < utc_day_start(day) + 2 * SECS_PER_DAY
}

/// `t` can be the instant of local midnight at the start of day `day` in
/// some time zone: a whole second less than a day away from the UTC
/// midnight of that day.
pub open spec fn may_be_local_midnight(t: Timestamp, day: int) -> bool {
    &&& t.nanos == 0
    &&& utc_day_start(day) - SECS_PER_DAY < t.secs < utc_day_start(day) + SECS_PER_DAY
}

/// The local calendar day of `ts`, through chrono's
/// `DateTime::from_timestamp`, `with_timezone(&Local)`, `date_naive` and
/// `num_days_from_ce`. The day depends on the machine's time zone, so the
/// contract claims only what holds in every zone: it is a day chrono can
/// represent, and the one that `ts` plus the zone's offset (a
/// `FixedOffset`, less than a day either way) falls on.
#[verifier::external_body]
pub fn local_day(ts: &Timestamp) -> (r: i32)
    requires
        ts.in_local_range(),
    ensures
        valid_day(r as int),
        may_be_local_day(*ts, r as int),
{
    let dt = chrono::DateTime::from_timestamp(ts.secs, ts.nanos).unwrap();
    dt.with_timezone(&chrono::Local).date_naive().num_days_from_ce()
}

/// The UTC instant of local midnight at the start of day `day`, through
/// chrono's `NaiveDate::from_num_days_from_ce_opt`, `and_hms_opt`,
/// `Local.from_local_datetime(..).single()` and `with_timezone(&Utc)`.
/// `None` where the local time zone has no single midnight that day (a
/// clock change at midnight). Which instant comes back depends on the time
/// zone; the contract claims only what holds in every zone: it is one
/// chrono can represent, the day's local midnight less the zone's offset
/// (a `FixedOffset`, less than a day either way), in whole seconds.
#[verifier::external_body]
pub fn local_midnight(day: i32) -> (r: Option<Timestamp>)
    requires
        valid_day(day as int),
    ensures
        r matches Some(t) ==> t.wf() && may_be_local_midnight(t, day as int),
{
    let date = chrono::NaiveDate::from_num_days_from_ce_opt(day).unwrap();
    let midnight = date.and_hms_opt(0, 0, 0).unwrap();
    chrono::Local.from_local_datetime(&midnight).single().map(
        |dt| {
            let utc = dt.with_timezone(&chrono::Utc);
            Timestamp { secs: utc.timestamp(), nanos: utc.timestamp_subsec_nanos() }
        },
    )
}

/// The first year of chrono's calendar (262143 BCE, as year -262143).
pub const MIN_YEAR: i32 = -262143;

/// The last year of chrono's calendar.
pub const MAX_YEAR: i32 = 262142;

/// Leap years of the proleptic Gregorian calendar.
pub open spec fn is_leap(year: int) -> bool {
    year % 4 == 0 && (year % 100 != 0 || year % 400 == 0)
}

/// The number of days of month `month` (1 to 12) of `year`.
pub open spec fn days_in_month(year: int, month: int) -> int {
    if month == 2 {
        if is_leap(year) {
            29
        } else {
            28
        }
    } else if month == 4 || month == 6 || month == 9 || month == 11 {
        30
    } else {
        31
    }
}

/// The days of `year` before the first of month `month` (1 to 12).
pub open spec fn days_before_month(year: int, month: int) -> int {
    let common: int = if month == 1 {
        0
    } else if month == 2 {
        31
    } else if month == 3 {
        59
    } else if month == 4 {
        90
    } else if month == 5 {
        120
    } else if month == 6 {
        151
    } else if month == 7 {
        181
    } else if month == 8 {
        212
    } else if month == 9 {
        243
    } else if month == 10 {
        273
    } else if month == 11 {
        304
    } else {
        334
    };
    let leap_day: int = if month > 2 && is_leap(year) {
        1
    } else {
        0
    };
    common + leap_day
}

/// `year`-`month`-`day` is a date of chrono's calendar.
pub open spec fn valid_date(year: int, month: int, day: int) -> bool {
    &&& MIN_YEAR <= year <= MAX_YEAR
    &&& 1 <= month <= 12
    &&& 1 <= day <= days_in_month(year, month)
}

/// The day number (0001-01-01 being day 1) of `year`-`month`-`day` in the
/// proleptic Gregorian calendar.
pub open spec fn days_from_ce(year: int, month: int, day: int) -> int {
    let y = year - 1;
    y * 365 + y / 4 - y / 100 + y / 400 + days_before_month(year, month) + day
}

/// The day number of a calendar date through chrono's
/// `NaiveDate::from_ymd_opt` and `num_days_from_ce`: `None` for a date that
/// does not exist in chrono's calendar (such as February 30 or month 13),
/// else the date's day number, which is one chrono can represent.
#[verifier::external_body]
pub fn date_day(year: i32, month: u32, day: u32) -> (r: Option<i32>)
    ensures
        r is Some <==> valid_date(year as int, month as int, day as int),
        r matches Some(d) ==> d as int == days_from_ce(year as int, month as int, day as int)
            && valid_day(d as int),
{
    chrono::NaiveDate::from_ymd_opt(year, month, day).map(|d| d.num_days_from_ce())
}

/// The instant one day (86400 seconds) after `t`, as chrono adds a day: a
/// leap second (`nanos` of a billion or more) leaves its leap and lands on
/// the same second of the next day.
pub open spec fn spec_one_day_later(t: Timestamp) -> Timestamp {
    Timestamp {
        secs: (t.secs + SECS_PER_DAY) as i64,
        nanos: if t.nanos >= 1_000_000_000 {
            (t.nanos - 1_000_000_000) as u32
        } else {
            t.nanos
        },
    }
}

/// The instant one day (86400 seconds) after `t`.
pub fn one_day_later(t: Timestamp) -> (r: Timestamp)
    requires
        t.wf(),
        t.secs <= MAX_SECS - SECS_PER_DAY,
    ensures
        r.wf(),
        r == spec_one_day_later(t),
        r.secs == t.secs + SECS_PER_DAY,
{
    let nanos = if t.nanos >= 1_000_000_000 {
        t.nanos - 1_000_000_000
    } else {
        t.nanos
    };
    Timestamp { secs: t.secs + SECS_PER_DAY, nanos }
}

/// The text chrono writes for day `day` with the format `"%a, %-d %b"`
/// (such as `"Tue, 3 Mar"`).
pub uninterp spec fn day_text(day: int) -> Seq<char>;

/// Formats day `day` as `"%a, %-d %b"` through chrono's
/// `NaiveDate::from_num_days_from_ce_opt`, `format` and `to_string`. The
/// contract names the text (`day_text`), which depends on the day alone.
#[verifier::external_body]
pub fn format_day(day: i32) -> (r: String)
    requires
        valid_day(day as int),
    ensures
        r@ == day_text(day as int),
{
    chrono::NaiveDate::from_num_days_from_ce_opt(day).unwrap().format("%a, %-d %b").to_string()
}

/// The bounds of a local day from the UTC instants of its midnight and of
/// the next day's: both or none.
pub open spec fn bounds_of(start: Option<Timestamp>, end: Option<Timestamp>) -> Option<
    (Timestamp, Timestamp),
> {
    match (start, end) {
        (Some(s), Some(e)) => Some((s, e)),
        _ => None,
    }
}

/// The bounds of a local day, given what the local time zone answered for
/// its midnight (`start`) and the next day's (`end`).
pub fn day_bounds(start: Option<Timestamp>, end: Option<Timestamp>) -> (r: Option<
    (Timestamp, Timestamp),
>)
    ensures
        r == bounds_of(start, end),
{
    match (start, end) {
        (Some(s), Some(e)) => Some((s, e)),
        _ => None,
    }
}

/// `r` is what `today_range_at` may give for `now`: none outside the range
/// where local dates exist; else, for the local day `d` of `now` (which the
/// time zone decides, less than a day off the UTC one), none on the
/// calendar's last day, and otherwise the bounds built from the local
/// midnights `s` of day `d` and `e` of day `d + 1` that the time zone gives
/// (each an instant chrono can represent near that day's UTC midnight, or
/// none).
pub open spec fn today_range_outcome(now: Timestamp, r: Option<(Timestamp, Timestamp)>) -> bool {
    &&& r matches Some((start, end)) ==> start.wf() && end.wf()
    &&& if !now.in_local_range() {
        r is None
    } else {
        exists|d: int, s: Option<Timestamp>, e: Option<Timestamp>|
            {
                &&& valid_day(d)
                &&& may_be_local_day(now, d)
                &&& (s matches Some(x) ==> x.wf() && may_be_local_midnight(x, d))
                &&& (e matches Some(x) ==> x.wf() && may_be_local_midnight(x, d + 1))
                &&& r == if d == MAX_DAY as int {
                    None
                } else {
                    bounds_of(s, e)
                }
            }
    }
}

/// The start and the end of the local day that `now` falls on: the UTC
/// instants of this day's local midnight and of the next day's.
/// `None` where there is no such day: `now` too close to the end of the
/// calendar, the day being the last one, or a midnight that the local
/// time zone skips or repeats.
pub fn today_range_at(now: &Timestamp) -> (r: Option<(Timestamp, Timestamp)>)
    requires
        now.wf(),
    ensures
        r matches Some((start, end)) ==> start.wf() && end.wf(),
        !now.in_local_range() ==> r is None,
        today_range_outcome(*now, r),
{
    if !(MIN_SECS + SECS_PER_DAY <= now.secs && now.secs <= MAX_SECS - SECS_PER_DAY) {
        return None;
    }
    let today = local_day(now);
    if today == MAX_DAY {
        proof {
            let n: Option<Timestamp> = None;
            assert(valid_day(today as int) && today as int == MAX_DAY as int);
            assert(today_range_outcome(*now, None)) by {
                assert(valid_day(today as int) && may_be_local_day(*now, today as int) && (n matches Some(x) ==> x.wf() && may_be_local_midnight(x, today as int)) && (n matches Some(x) ==> x.wf() && may_be_local_midnight(x, today + 1)) && None::<(Timestamp, Timestamp)> == if today as int == MAX_DAY as int {
                    None
                } else {
                    bounds_of(n, n)
                });
            }
        }
        return None;
    }
    let start = local_midnight(today);
    let end = local_midnight(today + 1);
    let r = day_bounds(start, end);
    proof {
        assert(valid_day(today as int) && may_be_local_day(*now, today as int) && (start matches Some(
            x,
        ) ==> x.wf() && may_be_local_midnight(x, today as int)) && (end matches Some(x) ==> x.wf()
            && may_be_local_midnight(x, today + 1)) && r == if today as int == MAX_DAY as int {
            None
        } else {
            bounds_of(start, end)
        });
    }
    r
}

} // verus!
