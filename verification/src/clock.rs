//! Readings of timestamps in UTC and in the machine's local time zone, and
//! changes of one field of such a reading, all computed by `chrono`.
//!
//! Every item marked `external_body` here is trusted: its contract states
//! what `chrono` documents (and its source shows) of the call it makes.
//! UTC readings are pinned down exactly by the calendar model; local readings
//! depend on the machine's time zone, so of them only what holds under every
//! valid offset is stated.
use vstd::prelude::*;
use crate::calendar::{Civil, civil_of, is_valid_date, is_valid_offset, ms_in_range, timestamp_of, weekday_of, MAX_YEAR, MIN_YEAR};
use chrono::{Datelike, Local, TimeZone, Timelike, Utc};

verus! {

/// A calendar reading as the date-time library reports it.
#[derive(Clone, Copy, Debug)]
pub struct DateTimeFields {
    pub year: i32,
    /// 1..=12
    pub month: u32,
    /// 1..=31
    pub day: u32,
    pub hour: u32,
    pub minute: u32,
    pub second: u32,
    pub millisecond: u32,
    /// Days since Sunday, 0..=6.
    pub weekday: u32,
}

impl DateTimeFields {
    pub open spec fn civil(self) -> Civil {
        Civil {
            year: self.year as int,
            month: self.month as int,
            day: self.day as int,
            hour: self.hour as int,
            minute: self.minute as int,
            second: self.second as int,
            milli: self.millisecond as int,
        }
    }

    /// These are the fields of the instant `ms`, read at offset `off` seconds from UTC.
    pub open spec fn reads(self, ms: int, off: int) -> bool {
        &&& self.civil() == local_reading(ms, off)
        &&& self.weekday == weekday_of(ms + off * 1000)
    }
}

/// A reading in the local time zone, with the zone's offset from UTC at that instant.
#[derive(Clone, Copy, Debug)]
pub struct LocalFields {
    pub fields: DateTimeFields,
    /// Local time minus UTC, in seconds.
    pub offset_seconds: i32,
}

/// The reading of instant `ms` in a zone that is `off` seconds ahead of UTC.
pub open spec fn local_reading(ms: int, off: int) -> Civil {
    civil_of(ms + off * 1000)
}

/// The change that sets the year of a reading to `v`.
pub open spec fn change_year(v: int) -> spec_fn(Civil) -> Civil {
    |c: Civil| Civil { year: v, ..c }
}

/// The change that sets the month of a reading to `v`.
pub open spec fn change_month(v: int) -> spec_fn(Civil) -> Civil {
    |c: Civil| Civil { month: v, ..c }
}

/// The change that sets the day of a reading to `v`.
pub open spec fn change_day(v: int) -> spec_fn(Civil) -> Civil {
    |c: Civil| Civil { day: v, ..c }
}

/// The change that sets the hour of a reading to `v`.
pub open spec fn change_hour(v: int) -> spec_fn(Civil) -> Civil {
    |c: Civil| Civil { hour: v, ..c }
}

/// The change that sets the minute of a reading to `v`.
pub open spec fn change_minute(v: int) -> spec_fn(Civil) -> Civil {
    |c: Civil| Civil { minute: v, ..c }
}

/// The change that sets the second of a reading to `v`.
pub open spec fn change_second(v: int) -> spec_fn(Civil) -> Civil {
    |c: Civil| Civil { second: v, ..c }
}

/// The change that sets the milli of a reading to `v`.
pub open spec fn change_milli(v: int) -> spec_fn(Civil) -> Civil {
    |c: Civil| Civil { milli: v, ..c }
}

/// `n` is an instant whose local reading is `change` applied to the local reading of `ms`,
/// each under some valid offset (the zone's offsets at the two instants).
pub open spec fn local_changed(ms: int, n: int, change: spec_fn(Civil) -> Civil) -> bool {
    exists|o1: int, o2: int|
        #![trigger local_reading(ms, o1), local_reading(n, o2)]
        is_valid_offset(o1) && is_valid_offset(o2) && local_reading(n, o2) == change(
            local_reading(ms, o1),
        )
}

/// `chrono::Utc::now`, as a timestamp in milliseconds. Nothing is claimed of the value but that it
/// is a timestamp the library can represent (every `DateTime` is one).
#[verifier::external_body]
pub(crate) fn utc_now_millis() -> (ms: i64)
    ensures
        ms_in_range(ms as int),
{
    Utc::now().timestamp_millis()
}

/// `chrono::Local::now`, as a timestamp in milliseconds; as for `utc_now_millis`, only its range
/// is claimed.
#[verifier::external_body]
pub(crate) fn local_now_millis() -> (ms: i64)
    ensures
        ms_in_range(ms as int),
{
    Local::now().timestamp_millis()
}

/// `Utc.timestamp_millis_opt(ms).latest()`, read field by field: `None` exactly when the
/// timestamp is outside the years `MIN_YEAR..=MAX_YEAR`, else the Gregorian calendar reading of
/// the instant in UTC.
#[verifier::external_body]
pub(crate) fn utc_fields_at(ms: i64) -> (r: Option<DateTimeFields>)
    ensures
        r is Some <==> ms_in_range(ms as int),
        r matches Some(f) ==> f.reads(ms as int, 0),
{
    match Utc.timestamp_millis_opt(ms).latest() {
        Some(d) => Some(DateTimeFields {
            year: d.year(), month: d.month(), day: d.day(),
            hour: d.hour(), minute: d.minute(), second: d.second(),
            millisecond: d.timestamp_subsec_millis(), weekday: d.weekday().num_days_from_sunday(),
        }),
        None => None,
    }
}

/// `Local.timestamp_millis_opt(ms).latest()`, read field by field with its offset: `None`
/// exactly when the timestamp is outside the library's range; else the reading of the instant at
/// the zone's offset, which lies strictly within a day of UTC. Which offset that is depends on
/// the machine's time zone and is not stated.
#[verifier::external_body]
pub(crate) fn local_fields_at(ms: i64) -> (r: Option<LocalFields>)
    ensures
        r is Some <==> ms_in_range(ms as int),
        r matches Some(l) ==> is_valid_offset(l.offset_seconds as int) && l.fields.reads(
            ms as int,
            l.offset_seconds as int,
        ),
{
    match Local.timestamp_millis_opt(ms).latest() {
        Some(d) => Some(LocalFields {
            fields: DateTimeFields {
                year: d.year(), month: d.month(), day: d.day(),
                hour: d.hour(), minute: d.minute(), second: d.second(),
                millisecond: d.timestamp_subsec_millis(), weekday: d.weekday().num_days_from_sunday(),
            },
            offset_seconds: d.offset().local_minus_utc(),
        }),
        None => None,
    }
}

/// `Utc.with_ymd_and_hms(year, month, day, hour, minute, second).latest()`, as a timestamp:
/// defined exactly for a valid date of the library's years and a valid time of day, and then the
/// instant of that reading.
#[verifier::external_body]
pub(crate) fn utc_millis_from_fields(
    year: i32,
    month: u32,
    day: u32,
    hour: u32,
    minute: u32,
    second: u32,
) -> (r: Option<i64>)
    ensures
        r is Some <==> (is_valid_date(year as int, month as int, day as int) && MIN_YEAR <= year
            <= MAX_YEAR && hour < 24 && minute < 60 && second < 60),
        r matches Some(n) ==> n as int == timestamp_of(
            Civil {
                year: year as int,
                month: month as int,
                day: day as int,
                hour: hour as int,
                minute: minute as int,
                second: second as int,
                milli: 0,
            },
        ),
{
    Utc.with_ymd_and_hms(year, month, day, hour, minute, second).latest().map(
        |d| d.timestamp_millis(),
    )
}

// ------------------------------------------------------------ UTC field changes
/// `Datelike::with_year` on the UTC reading of `ms`, as a timestamp: defined exactly when the
/// month and day exist in that year and the year is one the library represents.
#[verifier::external_body]
pub(crate) fn utc_with_year(ms: i64, year: i32) -> (r: Option<i64>)
    requires
        ms_in_range(ms as int),
    ensures
        r is Some <==> (is_valid_date(year as int, civil_of(ms as int).month, civil_of(ms as int).day)
            && MIN_YEAR <= year <= MAX_YEAR),
        r matches Some(n) ==> ms_in_range(n as int) && civil_of(n as int) == change_year(year as int)(civil_of(ms as int)),
{
    match Utc.timestamp_millis_opt(ms).latest() {
        Some(d) => d.with_year(year).map(|n| n.timestamp_millis()),
        None => None,
    }
}

/// `Datelike::with_month` on the UTC reading of `ms`: defined exactly when the day exists in
/// that month.
#[verifier::external_body]
pub(crate) fn utc_with_month(ms: i64, month: u32) -> (r: Option<i64>)
    requires
        ms_in_range(ms as int),
    ensures
        r is Some <==> is_valid_date(civil_of(ms as int).year, month as int, civil_of(ms as int).day),
        r matches Some(n) ==> ms_in_range(n as int) && civil_of(n as int) == change_month(month as int)(civil_of(ms as int)),
{
    match Utc.timestamp_millis_opt(ms).latest() {
        Some(d) => d.with_month(month).map(|n| n.timestamp_millis()),
        None => None,
    }
}

/// `Datelike::with_day` on the UTC reading of `ms`: defined exactly when that day exists in the
/// month.
#[verifier::external_body]
pub(crate) fn utc_with_day(ms: i64, day: u32) -> (r: Option<i64>)
    requires
        ms_in_range(ms as int),
    ensures
        r is Some <==> is_valid_date(civil_of(ms as int).year, civil_of(ms as int).month, day as int),
        r matches Some(n) ==> ms_in_range(n as int) && civil_of(n as int) == change_day(day as int)(civil_of(ms as int)),
{
    match Utc.timestamp_millis_opt(ms).latest() {
        Some(d) => d.with_day(day).map(|n| n.timestamp_millis()),
        None => None,
    }
}

/// `Timelike::with_hour` on the UTC reading of `ms`: defined exactly for `hour < 24`.
#[verifier::external_body]
pub(crate) fn utc_with_hour(ms: i64, hour: u32) -> (r: Option<i64>)
    requires
        ms_in_range(ms as int),
    ensures
        r is Some <==> hour < 24,
        r matches Some(n) ==> ms_in_range(n as int) && civil_of(n as int) == change_hour(hour as int)(civil_of(ms as int)),
{
    match Utc.timestamp_millis_opt(ms).latest() {
        Some(d) => d.with_hour(hour).map(|n| n.timestamp_millis()),
        None => None,
    }
}

/// `Timelike::with_minute` on the UTC reading of `ms`: defined exactly for `minute < 60`.
#[verifier::external_body]
pub(crate) fn utc_with_minute(ms: i64, minute: u32) -> (r: Option<i64>)
    requires
        ms_in_range(ms as int),
    ensures
        r is Some <==> minute < 60,
        r matches Some(n) ==> ms_in_range(n as int) && civil_of(n as int) == change_minute(minute as int)(civil_of(ms as int)),
{
    match Utc.timestamp_millis_opt(ms).latest() {
        Some(d) => d.with_minute(minute).map(|n| n.timestamp_millis()),
        None => None,
    }
}

/// `Timelike::with_second` on the UTC reading of `ms`: defined exactly for `second < 60`.
#[verifier::external_body]
pub(crate) fn utc_with_second(ms: i64, second: u32) -> (r: Option<i64>)
    requires
        ms_in_range(ms as int),
    ensures
        r is Some <==> second < 60,
        r matches Some(n) ==> ms_in_range(n as int) && civil_of(n as int) == change_second(second as int)(civil_of(ms as int)),
{
    match Utc.timestamp_millis_opt(ms).latest() {
        Some(d) => d.with_second(second).map(|n| n.timestamp_millis()),
        None => None,
    }
}

// ---------------------------------------------------------- local field changes
// A local change reads the local time, changes one field, and maps the changed local time back
// to an instant in the machine's zone; that last step can fail (a time skipped or repeated by a
// change of offset), so no `Some` is promised. What is stated holds under every zone.
/// `Datelike::with_year` on the local reading of `ms`. A year outside `MIN_YEAR..=MAX_YEAR` can
/// only come back when it is the year the local reading already has (chrono keeps the date
/// unchanged then), so the instant is `ms` itself.
#[verifier::external_body]
pub(crate) fn local_with_year(ms: i64, year: i32) -> (r: Option<i64>)
    requires
        ms_in_range(ms as int),
    ensures
        r matches Some(n) ==> ms_in_range(n as int) && (MIN_YEAR <= year <= MAX_YEAR || n == ms)
            && local_changed(ms as int, n as int, change_year(year as int)),
{
    match Local.timestamp_millis_opt(ms).latest() {
        Some(d) => d.with_year(year).map(|n| n.timestamp_millis()),
        None => None,
    }
}

/// `Datelike::with_month` on the local reading of `ms`.
#[verifier::external_body]
pub(crate) fn local_with_month(ms: i64, month: u32) -> (r: Option<i64>)
    requires
        ms_in_range(ms as int),
    ensures
        r matches Some(n) ==> ms_in_range(n as int) && 1 <= month <= 12 && local_changed(
            ms as int,
            n as int,
            change_month(month as int),
        ),
{
    match Local.timestamp_millis_opt(ms).latest() {
        Some(d) => d.with_month(month).map(|n| n.timestamp_millis()),
        None => None,
    }
}

/// `Datelike::with_day` on the local reading of `ms`.
#[verifier::external_body]
pub(crate) fn local_with_day(ms: i64, day: u32) -> (r: Option<i64>)
    requires
        ms_in_range(ms as int),
    ensures
        r matches Some(n) ==> ms_in_range(n as int) && 1 <= day <= 31 && local_changed(
            ms as int,
            n as int,
            change_day(day as int),
        ),
{
    match Local.timestamp_millis_opt(ms).latest() {
        Some(d) => d.with_day(day).map(|n| n.timestamp_millis()),
        None => None,
    }
}

/// `Timelike::with_hour` on the local reading of `ms`.
#[verifier::external_body]
pub(crate) fn local_with_hour(ms: i64, hour: u32) -> (r: Option<i64>)
    requires
        ms_in_range(ms as int),
    ensures
        r matches Some(n) ==> ms_in_range(n as int) && hour < 24 && local_changed(
            ms as int,
            n as int,
            change_hour(hour as int),
        ),
{
    match Local.timestamp_millis_opt(ms).latest() {
        Some(d) => d.with_hour(hour).map(|n| n.timestamp_millis()),
        None => None,
    }
}

/// `Timelike::with_minute` on the local reading of `ms`.
#[verifier::external_body]
pub(crate) fn local_with_minute(ms: i64, minute: u32) -> (r: Option<i64>)
    requires
        ms_in_range(ms as int),
    ensures
        r matches Some(n) ==> ms_in_range(n as int) && minute < 60 && local_changed(
            ms as int,
            n as int,
            change_minute(minute as int),
        ),
{
    match Local.timestamp_millis_opt(ms).latest() {
        Some(d) => d.with_minute(minute).map(|n| n.timestamp_millis()),
        None => None,
    }
}

/// `Timelike::with_second` on the local reading of `ms`.
#[verifier::external_body]
pub(crate) fn local_with_second(ms: i64, second: u32) -> (r: Option<i64>)
    requires
        ms_in_range(ms as int),
    ensures
        r matches Some(n) ==> ms_in_range(n as int) && second < 60 && local_changed(
            ms as int,
            n as int,
            change_second(second as int),
        ),
{
    match Local.timestamp_millis_opt(ms).latest() {
        Some(d) => d.with_second(second).map(|n| n.timestamp_millis()),
        None => None,
    }
}

/// `Timelike::with_nanosecond` on the local reading of `ms`. Below one second the nanoseconds
/// set the millisecond (truncated); from 2,000,000,000 on there is no result. (Values in between
/// stand for a leap second; nothing is stated of them.) Zone offsets and their changes are whole
/// seconds, so a change within the local second keeps the offset: the instant is `ms` with its
/// millisecond replaced.
#[verifier::external_body]
pub(crate) fn local_with_nanosecond(ms: i64, nano: u32) -> (r: Option<i64>)
    requires
        ms_in_range(ms as int),
    ensures
        nano >= 2_000_000_000 ==> r is None,
        r matches Some(n) ==> nano < 1_000_000_000 ==> ms_in_range(n as int) && local_changed(
            ms as int,
            n as int,
            change_milli(nano as int / 1_000_000),
        ) && n as int == ms as int - ms as int % 1000 + nano as int / 1_000_000,
{
    match Local.timestamp_millis_opt(ms).latest() {
        Some(d) => d.with_nanosecond(nano).map(|n| n.timestamp_millis()),
        None => None,
    }
}

} // verus!
