//! The proleptic Gregorian calendar, as a mathematical model of timestamps.
//!
//! A timestamp is a number of milliseconds since 1970-01-01T00:00:00Z.  The
//! functions here say which calendar reading (year, month, day, time of day)
//! belongs to a timestamp, and prove that the reading is well defined: every
//! day number has exactly one valid calendar date.
use vstd::prelude::*;

verus! {

/// Milliseconds in one day.
pub const MS_PER_DAY: i64 = 86_400_000;

/// The first year that the date-time library represents.
pub const MIN_YEAR: i32 = -262143;

/// The last year that the date-time library represents.
pub const MAX_YEAR: i32 = 262142;

pub open spec fn is_leap_year(y: int) -> bool {
    (y % 4 == 0 && y % 100 != 0) || y % 400 == 0
}

pub open spec fn year_length(y: int) -> int {
    if is_leap_year(y) {
        366
    } else {
        365
    }
}

pub open spec fn days_in_month(y: int, m: int) -> int {
    if m == 2 {
        if is_leap_year(y) {
            29
        } else {
            28
        }
    } else if m == 4 || m == 6 || m == 9 || m == 11 {
        30
    } else {
        31
    }
}

/// `(y, m, d)` names a day of the calendar.
pub open spec fn is_valid_date(y: int, m: int, d: int) -> bool {
    1 <= m <= 12 && 1 <= d <= days_in_month(y, m)
}

/// Days of year `y` that come before the first of month `m`.
pub open spec fn days_before_month(y: int, m: int) -> int {
    let leap: int = if is_leap_year(y) && m > 2 {
        1
    } else {
        0
    };
    let base: int = if m <= 1 {
        0
    } else if m == 2 {
        31
    } else if m == 3 {
        59
    } else if m == 4 {
        90
    } else if m == 5 {
        120
    } else if m == 6 {
        151
    } else if m == 7 {
        181
    } else if m == 8 {
        212
    } else if m == 9 {
        243
    } else if m == 10 {
        273
    } else if m == 11 {
        304
    } else {
        334
    };
    base + leap
}

/// Leap years among the years before `y` (counted from year 1, extended to all integers).
pub open spec fn leap_years_before(y: int) -> int {
    (y - 1) / 4 - (y - 1) / 100 + (y - 1) / 400
}

/// Day number (days since 1970-01-01) of January 1 of year `y`.
pub open spec fn days_before_year(y: int) -> int {
    365 * (y - 1970) + leap_years_before(y) - 477
}

/// Day number (days since 1970-01-01) of the date `(y, m, d)`.
pub open spec fn days_from_civil(y: int, m: int, d: int) -> int {
    days_before_year(y) + days_before_month(y, m) + d - 1
}

/// The year that holds day number `n`.
pub open spec fn year_of_days(n: int) -> int {
    choose|y: int| #[trigger] days_before_year(y) <= n < days_before_year(y + 1)
}

/// Month and day of the `k`-th day (from 0) of year `y`.
pub open spec fn month_day_of_ordinal(y: int, k: int) -> (int, int) {
    let m: int = if k < days_before_month(y, 2) {
        1
    } else if k < days_before_month(y, 3) {
        2
    } else if k < days_before_month(y, 4) {
        3
    } else if k < days_before_month(y, 5) {
        4
    } else if k < days_before_month(y, 6) {
        5
    } else if k < days_before_month(y, 7) {
        6
    } else if k < days_before_month(y, 8) {
        7
    } else if k < days_before_month(y, 9) {
        8
    } else if k < days_before_month(y, 10) {
        9
    } else if k < days_before_month(y, 11) {
        10
    } else if k < days_before_month(y, 12) {
        11
    } else {
        12
    };
    (m, k - days_before_month(y, m) + 1)
}

/// The calendar date `(year, month, day)` of day number `n`.
pub open spec fn date_of_days(n: int) -> (int, int, int) {
    let y = year_of_days(n);
    let md = month_day_of_ordinal(y, n - days_before_year(y));
    (y, md.0, md.1)
}

/// A calendar reading of a point in time, to the millisecond.
pub struct Civil {
    pub year: int,
    pub month: int,
    pub day: int,
    pub hour: int,
    pub minute: int,
    pub second: int,
    pub milli: int,
}

/// The day number of timestamp `ms` (rounded towards minus infinity).
pub open spec fn day_number(ms: int) -> int {
    ms / (MS_PER_DAY as int)
}

/// The calendar reading of timestamp `ms`.
pub open spec fn civil_of(ms: int) -> Civil {
    let date = date_of_days(day_number(ms));
    let tod = ms % (MS_PER_DAY as int);
    Civil {
        year: date.0,
        month: date.1,
        day: date.2,
        hour: tod / 3_600_000,
        minute: tod % 3_600_000 / 60_000,
        second: tod % 60_000 / 1000,
        milli: tod % 1000,
    }
}

/// Day of the week of timestamp `ms`, counted from Sunday (0) to Saturday (6).
pub open spec fn weekday_of(ms: int) -> int {
    (day_number(ms) + 4) % 7
}

/// The timestamp of a calendar reading.
pub open spec fn timestamp_of(c: Civil) -> int {
    days_from_civil(c.year, c.month, c.day) * (MS_PER_DAY as int) + c.hour * 3_600_000 + c.minute
        * 60_000 + c.second * 1000 + c.milli
}

/// `c` is a reading that some timestamp has.
pub open spec fn is_valid_civil(c: Civil) -> bool {
    &&& is_valid_date(c.year, c.month, c.day)
    &&& 0 <= c.hour < 24
    &&& 0 <= c.minute < 60
    &&& 0 <= c.second < 60
    &&& 0 <= c.milli < 1000
}

/// Timestamps whose reading falls in the years `MIN_YEAR..=MAX_YEAR`.
pub open spec fn ms_in_range(ms: int) -> bool {
    days_from_civil(MIN_YEAR as int, 1, 1) <= day_number(ms) <= days_from_civil(
        MAX_YEAR as int,
        12,
        31,
    )
}

/// A difference between local time and UTC, in seconds, as the library represents one.
pub open spec fn is_valid_offset(off: int) -> bool {
    -86_400 < off < 86_400
}

// ---------------------------------------------------------------- proofs
/// One year's step of `days_before_year`.
pub proof fn lemma_year_step(y: int)
    ensures
        days_before_year(y + 1) == days_before_year(y) + year_length(y),
{
    assert((y - 1) / 4 + (if y % 4 == 0 { 1int } else { 0 }) == y / 4);
    assert((y - 1) / 100 + (if y % 100 == 0 { 1int } else { 0 }) == y / 100);
    assert((y - 1) / 400 + (if y % 400 == 0 { 1int } else { 0 }) == y / 400);
}

/// `days_before_year` grows by at least a year's length between years.
pub proof fn lemma_year_monotone(a: int, b: int)
    requires
        a < b,
    ensures
        days_before_year(a + 1) <= days_before_year(b),
        days_before_year(a) < days_before_year(b),
    decreases b - a,
{
    lemma_year_step(a);
    if a + 1 < b {
        lemma_year_monotone(a + 1, b);
    }
}

proof fn lemma_year_exists_up(n: int, y: int)
    requires
        days_before_year(y) <= n,
    ensures
        exists|z: int| #[trigger] days_before_year(z) <= n < days_before_year(z + 1),
    decreases n - days_before_year(y),
{
    lemma_year_step(y);
    if n >= days_before_year(y + 1) {
        lemma_year_exists_up(n, y + 1);
    }
}

proof fn lemma_year_exists_down(n: int, y: int)
    requires
        n < days_before_year(y + 1),
    ensures
        exists|z: int| #[trigger] days_before_year(z) <= n < days_before_year(z + 1),
    decreases days_before_year(y + 1) - n,
{
    lemma_year_step(y);
    if n < days_before_year(y) {
        lemma_year_exists_down(n, y - 1);
    }
}

/// Every day number lies in exactly one year.
pub proof fn lemma_year_of_days(n: int)
    ensures
        days_before_year(year_of_days(n)) <= n < days_before_year(year_of_days(n) + 1),
        forall|z: int|
            #[trigger] days_before_year(z) <= n < days_before_year(z + 1) ==> z == year_of_days(n),
{
    if n >= days_before_year(1970) {
        lemma_year_exists_up(n, 1970);
    } else {
        lemma_year_exists_down(n, 1969);
    }
    let y = year_of_days(n);
    assert forall|z: int| #[trigger] days_before_year(z) <= n < days_before_year(z + 1) implies z == y by {
        if z < y {
            lemma_year_monotone(z, y);
        } else if y < z {
            lemma_year_monotone(y, z);
        }
    }
}

/// The day number of a valid date lies in its year.
pub proof fn lemma_valid_date_in_year(y: int, m: int, d: int)
    requires
        is_valid_date(y, m, d),
    ensures
        days_before_year(y) <= days_from_civil(y, m, d) < days_before_year(y + 1),
{
    lemma_year_step(y);
}

/// Every day number has a valid calendar date, and the date maps back to it.
pub proof fn lemma_date_of_days(n: int)
    ensures
        is_valid_date(date_of_days(n).0, date_of_days(n).1, date_of_days(n).2),
        days_from_civil(date_of_days(n).0, date_of_days(n).1, date_of_days(n).2) == n,
{
    lemma_year_of_days(n);
    let y = year_of_days(n);
    lemma_year_step(y);
}

/// A valid date is the date of its own day number: the calendar has no two names for a day.
pub proof fn lemma_date_of_days_from_civil(y: int, m: int, d: int)
    requires
        is_valid_date(y, m, d),
    ensures
        date_of_days(days_from_civil(y, m, d)) == (y, m, d),
{
    let n = days_from_civil(y, m, d);
    lemma_valid_date_in_year(y, m, d);
    lemma_year_of_days(n);
    assert(year_of_days(n) == y);
}

/// The reading of any timestamp is a valid reading, and it gives the timestamp back.
pub proof fn lemma_civil_of(ms: int)
    ensures
        is_valid_civil(civil_of(ms)),
        timestamp_of(civil_of(ms)) == ms,
{
    let n = day_number(ms);
    lemma_date_of_days(n);
    let tod = ms % (MS_PER_DAY as int);
    assert(n * (MS_PER_DAY as int) + tod == ms);
    assert(tod / 3_600_000 * 3_600_000 + tod % 3_600_000 / 60_000 * 60_000 + tod % 60_000 / 1000
        * 1000 + tod % 1000 == tod);
}

/// Splitting a timestamp into its day and its time of day.
proof fn lemma_split_day(n: int, tod: int)
    requires
        0 <= tod < MS_PER_DAY,
    ensures
        (n * (MS_PER_DAY as int) + tod) / (MS_PER_DAY as int) == n,
        (n * (MS_PER_DAY as int) + tod) % (MS_PER_DAY as int) == tod,
{
    assert((n * 86_400_000 + tod) / 86_400_000 == n) by (nonlinear_arith)
        requires
            0 <= tod < 86_400_000,
    ;
    assert((n * 86_400_000 + tod) % 86_400_000 == tod) by (nonlinear_arith)
        requires
            0 <= tod < 86_400_000,
    ;
}

/// Reading hours, minutes, seconds and milliseconds back out of a time of day.
proof fn lemma_split_time_of_day(h: int, mi: int, s: int, ml: int)
    requires
        0 <= h < 24,
        0 <= mi < 60,
        0 <= s < 60,
        0 <= ml < 1000,
    ensures
        ({
            let tod = h * 3_600_000 + mi * 60_000 + s * 1000 + ml;
            &&& tod / 3_600_000 == h
            &&& tod % 3_600_000 / 60_000 == mi
            &&& tod % 60_000 / 1000 == s
            &&& tod % 1000 == ml
        }),
{
}

/// A valid reading is the reading of its own timestamp.
pub proof fn lemma_civil_of_timestamp(c: Civil)
    requires
        is_valid_civil(c),
    ensures
        civil_of(timestamp_of(c)) == c,
        day_number(timestamp_of(c)) == days_from_civil(c.year, c.month, c.day),
{
    let n = days_from_civil(c.year, c.month, c.day);
    let tod = c.hour * 3_600_000 + c.minute * 60_000 + c.second * 1000 + c.milli;
    lemma_split_day(n, tod);
    lemma_split_time_of_day(c.hour, c.minute, c.second, c.milli);
    lemma_date_of_days_from_civil(c.year, c.month, c.day);
    assert(timestamp_of(c) == n * (MS_PER_DAY as int) + tod);
}

/// The reading of a timestamp whose year is one the library represents is representable.
pub proof fn lemma_year_range_in_range(ms: int)
    requires
        MIN_YEAR <= civil_of(ms).year <= MAX_YEAR,
    ensures
        ms_in_range(ms),
{
    let n = day_number(ms);
    lemma_date_of_days(n);
    let d = date_of_days(n);
    lemma_valid_date_in_year(d.0, d.1, d.2);
    lemma_year_step(MAX_YEAR as int);
    if d.0 < MAX_YEAR {
        lemma_year_monotone(d.0, MAX_YEAR as int);
    }
    if MIN_YEAR < d.0 {
        lemma_year_monotone(MIN_YEAR as int, d.0);
    }
}

/// Representable timestamps lie well within `i64`: about 8.4e15 milliseconds either side of the
/// epoch.
pub proof fn lemma_range_bounds(ms: int)
    requires
        ms_in_range(ms),
    ensures
        -8_400_000_000_000_000 < ms < 8_400_000_000_000_000,
{
    assert(days_from_civil(MIN_YEAR as int, 1, 1) == -96_465_292);
    assert(days_from_civil(MAX_YEAR as int, 12, 31) == 95_026_236);
    let n = day_number(ms);
    assert(-8_400_000_000_000_000 < ms < 8_400_000_000_000_000) by (nonlinear_arith)
        requires
            n == ms / 86_400_000,
            -96_465_292 <= n <= 95_026_236,
    ;
}

} // verus!
