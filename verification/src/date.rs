//! The JavaScript `Date` object over a millisecond timestamp.
//!
//! A `Date` is a plain timestamp. Its UTC getters and setters are exact
//! functions of it (see `calendar`); the local ones depend on the machine's
//! time zone, so their contracts say what holds under every offset.  A
//! timestamp that the date-time library cannot represent (more than about
//! 262,000 years from the epoch) is read as the current time, as the
//! JavaScript host does.
use vstd::prelude::*;
use crate::calendar::{
    Civil, civil_of, is_valid_civil, is_valid_date, is_valid_offset, lemma_civil_of, ms_in_range, timestamp_of,
    weekday_of, MAX_YEAR, MIN_YEAR,
};
use crate::clock::{
    local_changed, local_fields_at, local_now_millis, local_reading, local_with_day,
    local_with_hour, local_with_minute, local_with_month, local_with_nanosecond, local_with_second,
    local_with_year, change_day, change_hour, change_milli, change_minute, change_month, change_second, change_year,
    utc_fields_at, utc_millis_from_fields, utc_now_millis, utc_with_day, utc_with_hour,
    utc_with_minute, utc_with_month, utc_with_second, utc_with_year, DateTimeFields, LocalFields,
};
use crate::parse::{date_formats, date_string_value, is_http_date_of, is_iso_text_of, parse_date_string};
use crate::format::{
    basic_layout_text, is_basic_layout, is_local_layout_text, strftime_accepts, is_usable_layout, layout_is_accepted, local_strftime,
    rfc3339_millis_text, utc_rfc3339_millis, utc_strftime, utc_strftime_text, short_weekday,
    short_month, two_digits, year_text, offset_text,
};

verus! {

/// JavaScript `Date`: a timestamp in milliseconds since the Unix epoch.
#[derive(Clone, Copy, Debug)]
pub struct Date {
    pub timestamp_ms: i64,
}

/// Why a `Date` could not be made.
#[derive(Clone, Copy, Debug, PartialEq, Eq)]
pub enum DateError {
    /// The arguments name no date ("Invalid Date").
    InvalidDate,
    /// `Date.parse` found no date in its text ("Date Error").
    ParseFailed,
    /// `Date.UTC` was called without arguments.
    UtcNeedsArgument,
}

impl DateError {
    /// The message a JavaScript exception carries for this error.
    pub fn message(&self) -> (r: &'static str)
        ensures
            *self == DateError::InvalidDate ==> r@ == "Invalid Date"@,
            *self == DateError::ParseFailed ==> r@ == "Date Error"@,
            *self == DateError::UtcNeedsArgument ==> r@ == "Date.UTC requires at least one argument"@,
    {
        match self {
            DateError::InvalidDate => "Invalid Date",
            DateError::ParseFailed => "Date Error",
            DateError::UtcNeedsArgument => "Date.UTC requires at least one argument",
        }
    }
}

/// What the date constructors read of one JavaScript argument: its value as a number (cast to
/// an integer of milliseconds), as an integer, and as a string, each where the value is one.
#[derive(Clone, Debug)]
pub struct DateArg {
    pub number: Option<i64>,
    pub int: Option<i32>,
    pub text: Option<String>,
}

// ------------------------------------------------------------------ specs
/// Rust's remainder: the sign follows the dividend.
pub open spec fn rem_trunc(a: int, b: int) -> int {
    if a >= 0 {
        a % b
    } else {
        -((-a) % b)
    }
}

/// Rust's division: rounds towards zero.
pub open spec fn div_trunc(a: int, b: int) -> int {
    if a >= 0 {
        a / b
    } else {
        -((-a) / b)
    }
}

/// The instant that a `Date` with timestamp `ts` reads: `ts` itself when it can be represented,
/// else some instant of the clock.
pub open spec fn base_instant(ts: int, base: int) -> bool {
    ms_in_range(base) && (ms_in_range(ts) ==> base == ts)
}

/// `c` with weekday `wd` is a UTC reading that a `Date` with timestamp `ts` may report.
pub open spec fn is_utc_view(ts: int, c: Civil, wd: int) -> bool {
    exists|base: int| #[trigger]
        base_instant(ts, base) && c == civil_of(base) && wd == weekday_of(base)
}

/// `c` with weekday `wd` is a local reading that a `Date` with timestamp `ts` may report: the
/// reading of its instant under some valid offset.
pub open spec fn is_local_view(ts: int, c: Civil, wd: int) -> bool {
    exists|base: int, off: int|
        #![trigger local_reading(base, off), base_instant(ts, base)]
        base_instant(ts, base) && is_valid_offset(off) && c == local_reading(base, off) && wd
            == weekday_of(base + off * 1000)
}

/// Changing one field of the UTC reading of `old` gave `new`: where the change is `defined` on
/// the reading it is applied, else the timestamp stays.
pub open spec fn utc_field_change(
    old: int,
    new: int,
    defined: spec_fn(Civil) -> bool,
    change: spec_fn(Civil) -> Civil,
) -> bool {
    exists|base: int| #[trigger]
        base_instant(old, base) && if defined(civil_of(base)) {
            ms_in_range(new) && civil_of(new) == change(civil_of(base))
        } else {
            new == old
        }
}

/// Changing one field of the local reading of `old` gave `new`: either the timestamp stayed, or
/// `new` reads locally as the change of what the instant of `old` read locally.
pub open spec fn local_field_change(old: int, new: int, change: spec_fn(Civil) -> Civil) -> bool {
    new == old || (ms_in_range(new) && exists|base: int| #[trigger]
        base_instant(old, base) && local_changed(base, new, change))
}

/// JavaScript's month number (0..=11) as an unsigned integer, wrapped as Rust's `as u32` does.
pub open spec fn as_u32(i: i32) -> int {
    if i >= 0 {
        i as int
    } else {
        i + 4_294_967_296
    }
}

/// The integer that argument `i` holds, if there is one.
pub open spec fn arg_int(args: Seq<DateArg>, i: int) -> Option<i32> {
    if 0 <= i < args.len() {
        args[i].int
    } else {
        None
    }
}

/// The component at position `i`: an integer argument, wrapped to `u32`, or `default`.
pub open spec fn arg_u32(args: Seq<DateArg>, i: int, default: int) -> int {
    match arg_int(args, i) {
        Some(v) => as_u32(v),
        None => default,
    }
}

/// The instant of a UTC reading given by components, where they name one.
pub open spec fn utc_components_value(
    year: int,
    month: int,
    day: int,
    hour: int,
    minute: int,
    second: int,
) -> Option<int> {
    if is_valid_date(year, month, day) && MIN_YEAR <= year <= MAX_YEAR && 0 <= hour < 24 && 0
        <= minute < 60 && 0 <= second < 60 {
        Some(
            timestamp_of(
                Civil {
                    year: year,
                    month: month,
                    day: day,
                    hour: hour,
                    minute: minute,
                    second: second,
                    milli: 0,
                },
            ),
        )
    } else {
        None
    }
}

/// The timestamp that `new Date(y, m, d, h, mi, s)` and `Date.UTC(..)` compute from their
/// arguments (months from 0), with `year` already chosen.
pub open spec fn args_value(args: Seq<DateArg>, year: int) -> Option<int> {
    utc_components_value(
        year,
        arg_u32(args, 1, 0) + 1,
        arg_u32(args, 2, 1),
        arg_u32(args, 3, 0),
        arg_u32(args, 4, 0),
        arg_u32(args, 5, 0),
    )
}

/// The milliseconds that argument 6 adds in `new Date(y, m, d, h, mi, s, ms)` (0 when it holds
/// no integer).
pub open spec fn arg_ms(args: Seq<DateArg>) -> int {
    match arg_int(args, 6) {
        Some(v) => v as int,
        None => 0,
    }
}

/// The year that argument 0 gives `new Date(..)` (0 when it holds no integer).
pub open spec fn args_year(args: Seq<DateArg>) -> int {
    match arg_int(args, 0) {
        Some(y) => y as int,
        None => 0,
    }
}

/// The year that argument 0 gives `Date.UTC(..)`: years 0..=99 stand for 1900..=1999.
pub open spec fn utc_args_year(args: Seq<DateArg>) -> int {
    let y = args_year(args);
    if 0 <= y < 100 {
        1900 + y
    } else {
        y
    }
}


/// The layout of `toUTCString()`.
pub open spec fn utc_string_layout() -> Seq<char> {
    "%a, %d %b %Y %H:%M:%S GMT"@
}

/// The layout of `toDateString()`.
pub open spec fn date_string_layout() -> Seq<char> {
    "%a %b %d %Y"@
}

/// The layout of `toTimeString()`.
pub open spec fn time_string_layout() -> Seq<char> {
    "%H:%M:%S GMT%z"@
}

/// The layout of `toString()`.
pub open spec fn js_string_layout() -> Seq<char> {
    "%a %b %d %Y %H:%M:%S GMT%z"@
}

// ------------------------------------------------------------- laws
/// `Date.UTC(..)`, and `new Date(y, m, ..)` without a milliseconds argument, give an instant
/// whose UTC getters read back the components they were given (with the month counted from 1
/// here).
pub proof fn utc_components_read_back(year: int, month: int, day: int, hour: int, minute: int, second: int)
    requires
        utc_components_value(year, month, day, hour, minute, second) is Some,
    ensures
        ms_in_range(utc_components_value(year, month, day, hour, minute, second).unwrap()),
        civil_of(utc_components_value(year, month, day, hour, minute, second).unwrap()) == (Civil {
            year: year,
            month: month,
            day: day,
            hour: hour,
            minute: minute,
            second: second,
            milli: 0,
        }),
{
    let c = Civil { year, month, day, hour, minute, second, milli: 0 };
    crate::calendar::lemma_civil_of_timestamp(c);
    crate::calendar::lemma_year_range_in_range(timestamp_of(c));
}

/// A UTC setter whose change applies to a representable date sets exactly that field: the UTC
/// getters of the result read the changed reading.
pub proof fn utc_change_reads_back(
    old: int,
    new: int,
    defined: spec_fn(Civil) -> bool,
    change: spec_fn(Civil) -> Civil,
)
    requires
        utc_field_change(old, new, defined, change),
        ms_in_range(old),
        defined(civil_of(old)),
    ensures
        ms_in_range(new),
        civil_of(new) == change(civil_of(old)),
{
}

/// A UTC setter whose change does not apply leaves the timestamp as it was.
pub proof fn utc_change_refused_keeps_time(
    old: int,
    new: int,
    defined: spec_fn(Civil) -> bool,
    change: spec_fn(Civil) -> Civil,
)
    requires
        utc_field_change(old, new, defined, change),
        ms_in_range(old),
        !defined(civil_of(old)),
    ensures
        new == old,
{
}

/// `toISOString()` and `Date.parse` are inverse: the ISO text of a date with a four-digit year
/// is the RFC 3339 text of its reading, and that text reads back as the same timestamp.
pub proof fn iso_string_parses_back(ts: int)
    requires
        ms_in_range(ts),
        0 <= civil_of(ts).year <= 9999,
    ensures
        is_iso_text_of(rfc3339_millis_text(civil_of(ts)), civil_of(ts)),
        timestamp_of(civil_of(ts)) == ts,
{
    lemma_civil_of(ts);
}

/// `Date.UTC` reads a year 0..=99 as 1900 + that year: its result for `[y] ++ rest` is its
/// result for `[1900 + y] ++ rest`. Other years are used as given.
pub proof fn utc_two_digit_years(short: Seq<DateArg>, full: Seq<DateArg>, y: i32)
    requires
        0 <= y <= 99,
        short.len() == full.len(),
        short.len() > 0,
        short[0].int == Some(y),
        full[0].int == Some((1900 + y) as i32),
        short.skip(1) == full.skip(1),
    ensures
        utc_args_year(short) == utc_args_year(full),
        utc_args_year(short) == 1900 + y,
        args_value(short, utc_args_year(short)) == args_value(full, utc_args_year(full)),
{
    assert forall|i: int| 1 <= i < short.len() implies short[i] == full[i] by {
        assert(short[i] == short.skip(1)[i - 1]);
        assert(full[i] == full.skip(1)[i - 1]);
    }
    assert(arg_int(short, 1) == arg_int(full, 1));
    assert(arg_int(short, 2) == arg_int(full, 2));
    assert(arg_int(short, 3) == arg_int(full, 3));
    assert(arg_int(short, 4) == arg_int(full, 4));
    assert(arg_int(short, 5) == arg_int(full, 5));
}

/// Years from 100 on, and negative years, are used by `Date.UTC` as given.
pub proof fn utc_other_years_as_given(args: Seq<DateArg>, y: i32)
    requires
        args.len() > 0,
        args[0].int == Some(y),
        y < 0 || y >= 100,
    ensures
        utc_args_year(args) == y,
{
}

/// The text of `toUTCString()`: `Www, DD Mmm YYYY HH:MM:SS GMT`.
pub open spec fn utc_string_text(c: Civil, wd: int) -> Seq<char> {
    short_weekday(wd) + seq![',', ' '] + two_digits(c.day) + seq![' '] + short_month(c.month) + seq![
        ' ',
    ] + year_text(c.year) + seq![' '] + two_digits(c.hour) + seq![':'] + two_digits(c.minute)
        + seq![':'] + two_digits(c.second) + seq![' ', 'G', 'M', 'T']
}

/// The layout of `toUTCString()` writes the weekday, the day, the month, the year and the time
/// of the UTC reading, then `GMT`.
pub proof fn utc_string_layout_text(c: Civil, wd: int)
    ensures
        basic_layout_text(utc_string_layout(), c, wd, 0) == utc_string_text(c, wd),
{
    reveal_strlit("%a, %d %b %Y %H:%M:%S GMT");
    let f = utc_string_layout();
    assert(f.len() == 25);
    reveal_with_fuel(basic_layout_text, 20);
    assert(basic_layout_text(f, c, wd, 0) =~= utc_string_text(c, wd));
}

/// `toUTCString()` reads back through `Date.parse` to the whole second: for a representable date
/// with a four-digit year, its text is the HTTP-date text of the reading with the milliseconds
/// dropped, whose instant is the timestamp less its milliseconds (`parse_date_string` gives that
/// instant for such a text).
pub proof fn utc_string_parses_back(ts: int)
    requires
        ms_in_range(ts),
        0 <= civil_of(ts).year <= 9999,
    ensures
        is_http_date_of(
            basic_layout_text(utc_string_layout(), civil_of(ts), weekday_of(ts), 0),
            Civil { milli: 0, ..civil_of(ts) },
        ),
        timestamp_of(Civil { milli: 0, ..civil_of(ts) }) == ts - ts % 1000,
{
    let c = civil_of(ts);
    let c0 = Civil { milli: 0, ..c };
    lemma_civil_of(ts);
    crate::calendar::lemma_civil_of_timestamp(c);
    crate::calendar::lemma_civil_of_timestamp(c0);
    vstd::arithmetic::div_mod::lemma_mod_mod(ts, 1000, 86400);
    assert(c.milli == ts % 1000);
    assert(timestamp_of(c0) == ts - ts % 1000);
    assert(weekday_of(timestamp_of(c0)) == weekday_of(ts));
    utc_string_layout_text(c, weekday_of(ts));
    utc_string_layout_text(c0, weekday_of(ts));
    assert(utc_string_text(c, weekday_of(ts)) == utc_string_text(c0, weekday_of(ts)));
    reveal_strlit("%a, %d %b %Y %H:%M:%S GMT");
    assert(date_formats()[6] == utc_string_layout());
}

/// The layout of `toString()` is the layout of `toDateString()`, a space, and the layout of
/// `toTimeString()`, all of one reading at one offset; so `toString()` is its date part and its
/// time part as one call sees them.
pub proof fn js_string_is_date_and_time(c: Civil, wd: int, off: int)
    ensures
        basic_layout_text(js_string_layout(), c, wd, off) == basic_layout_text(
            date_string_layout(),
            c,
            wd,
            off,
        ) + seq![' '] + basic_layout_text(time_string_layout(), c, wd, off),
{
    reveal_strlit("%a %b %d %Y %H:%M:%S GMT%z");
    reveal_strlit("%a %b %d %Y");
    reveal_strlit("%H:%M:%S GMT%z");
    reveal_with_fuel(basic_layout_text, 20);
    assert(basic_layout_text(date_string_layout(), c, wd, off) =~= short_weekday(wd) + seq![' ']
        + short_month(c.month) + seq![' '] + two_digits(c.day) + seq![' '] + year_text(c.year));
    assert(basic_layout_text(time_string_layout(), c, wd, off) =~= two_digits(c.hour) + seq![':']
        + two_digits(c.minute) + seq![':'] + two_digits(c.second) + seq![' ', 'G', 'M', 'T']
        + offset_text(off));
    assert(basic_layout_text(js_string_layout(), c, wd, off) =~= basic_layout_text(
        date_string_layout(),
        c,
        wd,
        off,
    ) + seq![' '] + basic_layout_text(time_string_layout(), c, wd, off));
}

/// The text of `toTimeString()`: hours, minutes and seconds of the local reading, `GMT`, and the
/// offset of that same reading.
pub proof fn time_string_text(c: Civil, wd: int, off: int)
    ensures
        basic_layout_text(time_string_layout(), c, wd, off) == two_digits(c.hour) + seq![':']
            + two_digits(c.minute) + seq![':'] + two_digits(c.second) + seq![' ', 'G', 'M', 'T']
            + offset_text(off),
{
    reveal_strlit("%H:%M:%S GMT%z");
    reveal_with_fuel(basic_layout_text, 16);
    assert(basic_layout_text(time_string_layout(), c, wd, off) =~= two_digits(c.hour) + seq![':']
        + two_digits(c.minute) + seq![':'] + two_digits(c.second) + seq![' ', 'G', 'M', 'T']
        + offset_text(off));
}

// ------------------------------------------------------------- helpers
/// The calendar month (from 1) of a JavaScript month (from 0): one more, where `u32::MAX`
/// wraps to 0, which names no month.
fn calendar_month(month: u32) -> (r: u32)
    ensures
        month < u32::MAX ==> r == month + 1,
        month == u32::MAX ==> r == 0,
{
    if month < u32::MAX {
        month + 1
    } else {
        0
    }
}

/// `i as u32` for a JavaScript integer.
fn js_u32(i: i32) -> (r: u32)
    ensures
        r as int == as_u32(i),
{
    if i >= 0 {
        i as u32
    } else {
        (i as i64 + 4_294_967_296i64) as u32
    }
}

fn get_int(args: &Vec<DateArg>, i: usize) -> (r: Option<i32>)
    ensures
        r == arg_int(args@, i as int),
{
    if i < args.len() {
        args[i].int
    } else {
        None
    }
}

fn get_u32(args: &Vec<DateArg>, i: usize, default: u32) -> (r: u32)
    ensures
        r as int == arg_u32(args@, i as int, default as int),
{
    match get_int(args, i) {
        Some(v) => js_u32(v),
        None => default,
    }
}

/// The UTC timestamp of components taken from `args` (positions 1..=5), with the given year.
fn components_to_millis(args: &Vec<DateArg>, year: i32) -> (r: Option<i64>)
    ensures
        r matches Some(v) ==> args_value(args@, year as int) == Some(v as int),
        r is None ==> args_value(args@, year as int) is None,
{
    let month = get_u32(args, 1, 0);
    let day = get_u32(args, 2, 1);
    let hour = get_u32(args, 3, 0);
    let minute = get_u32(args, 4, 0);
    let second = get_u32(args, 5, 0);
    utc_millis_from_fields(year, calendar_month(month), day, hour, minute, second)
}

impl View for Date {
    type V = int;

    open spec fn view(&self) -> int {
        self.timestamp_ms as int
    }
}

impl Date {
    // ------------------------------------------------------------ constructors
    /// `new Date(...)`: no argument reads the clock; one argument is a timestamp or a date string;
    /// more are UTC components year, month (from 0), day, hours, minutes, seconds and
    /// milliseconds (added to the instant, so they may carry past a second).
    pub fn new(args: &Vec<DateArg>) -> (r: Result<Date, DateError>)
        ensures
            args.len() == 0 ==> (r matches Ok(d) && ms_in_range(d@)),
            args.len() == 1 ==> match args@[0].number {
                Some(n) => r == Ok::<Date, DateError>(Date { timestamp_ms: n }),
                None => match args@[0].text {
                    Some(s) => match date_string_value(s@) {
                        Some(v) => r matches Ok(d) && d@ == v,
                        None => r == Err::<Date, DateError>(DateError::InvalidDate),
                    },
                    None => r == Err::<Date, DateError>(DateError::InvalidDate),
                },
            },
            args.len() >= 2 ==> match args_value(args@, args_year(args@)) {
                Some(v) => r matches Ok(d) && d@ == v + arg_ms(args@),
                None => r == Err::<Date, DateError>(DateError::InvalidDate),
            },
            args.len() == 1 && args@[0].number is None ==> (args@[0].text matches Some(s) ==> (
            crate::parse::rfc3339_millis(s@) matches Some(v) ==> (r matches Ok(d) && d@ == v))),
    {
        if args.len() == 0 {
            Ok(Date { timestamp_ms: utc_now_millis() })
        } else if args.len() == 1 {
            let arg = &args[0];
            if let Some(num) = arg.number {
                Ok(Date { timestamp_ms: num })
            } else if let Some(s) = &arg.text {
                match parse_date_string(s.as_str()) {
                    Ok(ts) => Ok(Date { timestamp_ms: ts }),
                    Err(_) => Err(DateError::InvalidDate),
                }
            } else {
                Err(DateError::InvalidDate)
            }
        } else {
            let year = match get_int(args, 0) {
                Some(y) => y,
                None => 0,
            };
            match components_to_millis(args, year) {
                Some(ts) => {
                    proof {
                        utc_components_read_back(
                            year as int,
                            arg_u32(args@, 1, 0) + 1,
                            arg_u32(args@, 2, 1),
                            arg_u32(args@, 3, 0),
                            arg_u32(args@, 4, 0),
                            arg_u32(args@, 5, 0),
                        );
                        crate::calendar::lemma_range_bounds(ts as int);
                    }
                    let ms: i64 = match get_int(args, 6) {
                        Some(m) => m as i64,
                        None => 0,
                    };
                    Ok(Date { timestamp_ms: ts + ms })
                },
                None => Err(DateError::InvalidDate),
            }
        }
    }

    // ------------------------------------------------------------ static methods
    /// `Date.now()`: the clock's timestamp.
    pub fn now() -> (r: i64)
        ensures
            ms_in_range(r as int),
    {
        utc_now_millis()
    }

    /// `Date.parse(text)`: the timestamp that `text` names.
    pub fn parse(date_string: String) -> (r: Result<i64, DateError>)
        ensures
            match date_string_value(date_string@) {
                Some(v) => r matches Ok(t) && t == v,
                None => r == Err::<i64, DateError>(DateError::ParseFailed),
            },
            forall|c: Civil| #[trigger] is_iso_text_of(date_string@, c) ==> (r matches Ok(t) && t == timestamp_of(c)),
            forall|c: Civil| #[trigger] is_http_date_of(date_string@, c) ==> (r matches Ok(t) && t == timestamp_of(c)),
            crate::parse::rfc3339_millis(date_string@) matches Some(v) ==> (r matches Ok(t) && t == v),
    {
        match parse_date_string(date_string.as_str()) {
            Ok(ts) => Ok(ts),
            Err(_) => Err(DateError::ParseFailed),
        }
    }

    /// `Date.UTC(year, month, ...)`: the UTC timestamp of the components; years 0..=99 mean
    /// 1900..=1999.
    pub fn utc(args: &Vec<DateArg>) -> (r: Result<i64, DateError>)
        ensures
            args.len() == 0 ==> r == Err::<i64, DateError>(DateError::UtcNeedsArgument),
            args.len() > 0 ==> match args_value(args@, utc_args_year(args@)) {
                Some(v) => r matches Ok(t) && t == v,
                None => r == Err::<i64, DateError>(DateError::InvalidDate),
            },
    {
        if args.len() == 0 {
            return Err(DateError::UtcNeedsArgument);
        }
        let year = match get_int(args, 0) {
            Some(y) => y,
            None => 0,
        };
        let year = if year >= 0 && year < 100 {
            1900 + year
        } else {
            year
        };
        match components_to_millis(args, year) {
            Some(ts) => Ok(ts),
            None => Err(DateError::InvalidDate),
        }
    }

    // ------------------------------------------------------------ readings
    /// The instant this date reads in UTC, and its reading.
    fn to_utc(&self) -> (r: (DateTimeFields, i64))
        ensures
            base_instant(self@, r.1 as int),
            r.0.reads(r.1 as int, 0),
    {
        match utc_fields_at(self.timestamp_ms) {
            Some(f) => (f, self.timestamp_ms),
            None => {
                let now = utc_now_millis();
                (utc_fields_at(now).unwrap(), now)
            },
        }
    }

    /// The instant this date reads in local time, and its local reading.
    fn to_local(&self) -> (r: (LocalFields, i64))
        ensures
            base_instant(self@, r.1 as int),
            is_valid_offset(r.0.offset_seconds as int),
            r.0.fields.reads(r.1 as int, r.0.offset_seconds as int),
    {
        match local_fields_at(self.timestamp_ms) {
            Some(f) => (f, self.timestamp_ms),
            None => {
                let now = local_now_millis();
                (local_fields_at(now).unwrap(), now)
            },
        }
    }

    /// The UTC reading of this date.
    fn utc_fields(&self) -> (r: DateTimeFields)
        ensures
            is_utc_view(self@, r.civil(), r.weekday as int),
            ms_in_range(self@) ==> r.civil() == civil_of(self@) && r.weekday == weekday_of(
                self@,
            ),
            is_valid_civil(r.civil()),
    {
        let (f, base) = self.to_utc();
        proof {
            lemma_civil_of(base as int);
        }
        assert(base_instant(self@, base as int));
        f
    }

    /// The local reading of this date.
    fn local_fields(&self) -> (r: DateTimeFields)
        ensures
            is_local_view(self@, r.civil(), r.weekday as int),
            is_valid_civil(r.civil()),
    {
        let (l, base) = self.to_local();
        proof {
            lemma_civil_of(base + l.offset_seconds * 1000);
        }
        assert(local_reading(base as int, l.offset_seconds as int) == l.fields.civil());
        assert(base_instant(self@, base as int));
        l.fields
    }


    // ------------------------------------------------------------ instants
    /// The instant this date reads in UTC.
    fn utc_instant(&self) -> (r: i64)
        ensures
            base_instant(self@, r as int),
    {
        match utc_fields_at(self.timestamp_ms) {
            Some(_) => self.timestamp_ms,
            None => utc_now_millis(),
        }
    }

    /// The instant this date reads in local time.
    fn local_instant(&self) -> (r: i64)
        ensures
            base_instant(self@, r as int),
    {
        match local_fields_at(self.timestamp_ms) {
            Some(_) => self.timestamp_ms,
            None => local_now_millis(),
        }
    }

    // ------------------------------------------------------------ local getters
    /// `getDate()`: day of the month (1..=31), local time.
    pub fn date(&self) -> (r: u32)
        ensures
            exists|c: Civil, wd: int| #[trigger] is_local_view(self@, c, wd) && r == c.day,
    {
        let f = self.local_fields();
        assert(is_local_view(self@, f.civil(), f.weekday as int));
        f.day
    }

    /// `getDay()`: day of the week (0 is Sunday), local time.
    pub fn day(&self) -> (r: u32)
        ensures
            exists|c: Civil, wd: int| #[trigger] is_local_view(self@, c, wd) && r == wd,
    {
        let f = self.local_fields();
        assert(is_local_view(self@, f.civil(), f.weekday as int));
        f.weekday
    }

    /// `getFullYear()`: the year, local time.
    pub fn full_year(&self) -> (r: i32)
        ensures
            exists|c: Civil, wd: int| #[trigger] is_local_view(self@, c, wd) && r == c.year,
    {
        let f = self.local_fields();
        assert(is_local_view(self@, f.civil(), f.weekday as int));
        f.year
    }

    /// `getHours()`: the hour (0..=23), local time.
    pub fn hours(&self) -> (r: u32)
        ensures
            exists|c: Civil, wd: int| #[trigger] is_local_view(self@, c, wd) && r == c.hour,
    {
        let f = self.local_fields();
        assert(is_local_view(self@, f.civil(), f.weekday as int));
        f.hour
    }

    /// `getMilliseconds()`: the milliseconds (0..=999) of the timestamp, which are the same in
    /// every zone (offsets are whole seconds).
    pub fn milliseconds(&self) -> (r: i64)
        ensures
            0 <= r <= 999,
            r == self@ % 1000,
    {
        let rem = self.timestamp_ms % 1000;
        if rem < 0 {
            rem + 1000
        } else {
            rem
        }
    }

    /// `getMinutes()`: the minutes (0..=59), local time.
    pub fn minutes(&self) -> (r: u32)
        ensures
            exists|c: Civil, wd: int| #[trigger] is_local_view(self@, c, wd) && r == c.minute,
    {
        let f = self.local_fields();
        assert(is_local_view(self@, f.civil(), f.weekday as int));
        f.minute
    }

    /// `getMonth()`: the month counted from 0 (0..=11), local time.
    pub fn month(&self) -> (r: u32)
        ensures
            exists|c: Civil, wd: int| #[trigger] is_local_view(self@, c, wd) && r == c.month - 1,
    {
        let f = self.local_fields();
        assert(is_local_view(self@, f.civil(), f.weekday as int));
        f.month - 1
    }

    /// `getSeconds()`: the seconds (0..=59), local time.
    pub fn seconds(&self) -> (r: u32)
        ensures
            exists|c: Civil, wd: int| #[trigger] is_local_view(self@, c, wd) && r == c.second,
    {
        let f = self.local_fields();
        assert(is_local_view(self@, f.civil(), f.weekday as int));
        f.second
    }

    /// `getTime()`: the timestamp.
    pub fn time(&self) -> (r: i64)
        ensures
            r == self.timestamp_ms,
    {
        self.timestamp_ms
    }

    /// `getTimezoneOffset()`: local time minus UTC, in whole minutes (truncated). For a
    /// representable timestamp this is the zone's offset at that instant.
    pub fn timezone_offset(&self) -> (r: i32)
        ensures
            ms_in_range(self@) ==> exists|off: int| is_valid_offset(off) && #[trigger] div_trunc(off, 60) == r,
    {
        let (local, local_base) = self.to_local();
        let (_, utc_base) = self.to_utc();
        let off = local.offset_seconds as i64;
        assert(-86_400 < off < 86_400);
        assert(ms_in_range(local_base as int) && ms_in_range(utc_base as int));
        proof {
            crate::calendar::lemma_range_bounds(local_base as int);
            crate::calendar::lemma_range_bounds(utc_base as int);
        }
        let diff_ms: i64 = (local_base - utc_base) + off * 1000;
        let offset_seconds = diff_ms / 1000;
        let minutes = offset_seconds / 60;
        proof {
            if ms_in_range(self@) {
                assert(diff_ms == off * 1000);
                assert(offset_seconds == off);
                assert(div_trunc(off as int, 60) == minutes);
            }
        }
        minutes as i32
    }

    // ------------------------------------------------------------ UTC getters
    /// `getUTCDate()`: day of the month (1..=31), UTC.
    pub fn utc_date(&self) -> (r: u32)
        ensures
            exists|c: Civil, wd: int| #[trigger] is_utc_view(self@, c, wd) && r == c.day,
            ms_in_range(self@) ==> r == civil_of(self@).day,
    {
        let f = self.utc_fields();
        f.day
    }

    /// `getUTCDay()`: day of the week (0 is Sunday), UTC.
    pub fn utc_day(&self) -> (r: u32)
        ensures
            exists|c: Civil, wd: int| #[trigger] is_utc_view(self@, c, wd) && r == wd,
            ms_in_range(self@) ==> r == weekday_of(self@),
    {
        let f = self.utc_fields();
        f.weekday
    }

    /// `getUTCFullYear()`: the year, UTC.
    pub fn utc_full_year(&self) -> (r: i32)
        ensures
            exists|c: Civil, wd: int| #[trigger] is_utc_view(self@, c, wd) && r == c.year,
            ms_in_range(self@) ==> r == civil_of(self@).year,
    {
        let f = self.utc_fields();
        f.year
    }

    /// `getUTCHours()`: the hour (0..=23), UTC.
    pub fn utc_hours(&self) -> (r: u32)
        ensures
            exists|c: Civil, wd: int| #[trigger] is_utc_view(self@, c, wd) && r == c.hour,
            ms_in_range(self@) ==> r == civil_of(self@).hour,
    {
        let f = self.utc_fields();
        f.hour
    }

    /// `getUTCMinutes()`: the minutes (0..=59), UTC.
    pub fn utc_minutes(&self) -> (r: u32)
        ensures
            exists|c: Civil, wd: int| #[trigger] is_utc_view(self@, c, wd) && r == c.minute,
            ms_in_range(self@) ==> r == civil_of(self@).minute,
    {
        let f = self.utc_fields();
        f.minute
    }

    /// `getUTCMonth()`: the month counted from 0 (0..=11), UTC.
    pub fn utc_month(&self) -> (r: u32)
        ensures
            exists|c: Civil, wd: int| #[trigger] is_utc_view(self@, c, wd) && r == c.month - 1,
            ms_in_range(self@) ==> r == civil_of(self@).month - 1,
    {
        let f = self.utc_fields();
        f.month - 1
    }

    /// `getUTCSeconds()`: the seconds (0..=59), UTC.
    pub fn utc_seconds(&self) -> (r: u32)
        ensures
            exists|c: Civil, wd: int| #[trigger] is_utc_view(self@, c, wd) && r == c.second,
            ms_in_range(self@) ==> r == civil_of(self@).second,
    {
        let f = self.utc_fields();
        f.second
    }

    /// `getUTCMilliseconds()`: the timestamp's remainder modulo 1000 (negative before the epoch).
    pub fn utc_milliseconds(&self) -> (r: i64)
        ensures
            r == rem_trunc(self@, 1000),
    {
        self.timestamp_ms % 1000
    }

    // ------------------------------------------------------------ local setters
    /// `setDate(day)`: changes the day of the month, local time. An argument out of range, or a
    /// local time that the zone does not have, leaves the date as it was. Returns the timestamp.
    pub fn set_date(&mut self, day: u32) -> (r: i64)
        ensures
            r == final(self).timestamp_ms,
            local_field_change(old(self)@, final(self)@, change_day(day as int)),
            day == 0 || day > 31 ==> final(self).timestamp_ms == old(self).timestamp_ms,
    {
        let current = self.local_instant();
        if let Some(n) = local_with_day(current, day) {
            self.timestamp_ms = n;
            assert(base_instant(old(self)@, current as int));
        }
        self.timestamp_ms
    }

    /// `setFullYear(year)`: changes the year, local time. A year out of range, or a local time
    /// that the zone does not have, leaves a representable date as it was. Returns the timestamp.
    pub fn set_full_year(&mut self, year: i32) -> (r: i64)
        ensures
            r == final(self).timestamp_ms,
            local_field_change(old(self)@, final(self)@, change_year(year as int)),
            ms_in_range(old(self)@) && (year < MIN_YEAR || year > MAX_YEAR) ==> final(self).timestamp_ms
                == old(self).timestamp_ms,
    {
        let current = self.local_instant();
        if let Some(n) = local_with_year(current, year) {
            self.timestamp_ms = n;
            assert(base_instant(old(self)@, current as int));
        }
        self.timestamp_ms
    }

    /// `setHours(hours)`: changes the hour, local time. An argument out of range, or a
    /// local time that the zone does not have, leaves the date as it was. Returns the timestamp.
    pub fn set_hours(&mut self, hours: u32) -> (r: i64)
        ensures
            r == final(self).timestamp_ms,
            local_field_change(old(self)@, final(self)@, change_hour(hours as int)),
            hours >= 24 ==> final(self).timestamp_ms == old(self).timestamp_ms,
    {
        let current = self.local_instant();
        if let Some(n) = local_with_hour(current, hours) {
            self.timestamp_ms = n;
            assert(base_instant(old(self)@, current as int));
        }
        self.timestamp_ms
    }

    /// `setMinutes(minutes)`: changes the minutes, local time. An argument out of range, or a
    /// local time that the zone does not have, leaves the date as it was. Returns the timestamp.
    pub fn set_minutes(&mut self, minutes: u32) -> (r: i64)
        ensures
            r == final(self).timestamp_ms,
            local_field_change(old(self)@, final(self)@, change_minute(minutes as int)),
            minutes >= 60 ==> final(self).timestamp_ms == old(self).timestamp_ms,
    {
        let current = self.local_instant();
        if let Some(n) = local_with_minute(current, minutes) {
            self.timestamp_ms = n;
            assert(base_instant(old(self)@, current as int));
        }
        self.timestamp_ms
    }

    /// `setSeconds(seconds)`: changes the seconds, local time. An argument out of range, or a
    /// local time that the zone does not have, leaves the date as it was. Returns the timestamp.
    pub fn set_seconds(&mut self, seconds: u32) -> (r: i64)
        ensures
            r == final(self).timestamp_ms,
            local_field_change(old(self)@, final(self)@, change_second(seconds as int)),
            seconds >= 60 ==> final(self).timestamp_ms == old(self).timestamp_ms,
    {
        let current = self.local_instant();
        if let Some(n) = local_with_second(current, seconds) {
            self.timestamp_ms = n;
            assert(base_instant(old(self)@, current as int));
        }
        self.timestamp_ms
    }

    /// `setMonth(month)`: changes the month (counted from 0), local time; out-of-range months and
    /// missing local times leave the date as it was. Returns the timestamp.
    pub fn set_month(&mut self, month: u32) -> (r: i64)
        ensures
            r == final(self).timestamp_ms,
            local_field_change(old(self)@, final(self)@, change_month(month + 1)),
            month >= 12 ==> final(self).timestamp_ms == old(self).timestamp_ms,
    {
        let current = self.local_instant();
        if let Some(n) = local_with_month(current, calendar_month(month)) {
            self.timestamp_ms = n;
            assert(base_instant(old(self)@, current as int));
        }
        self.timestamp_ms
    }

    /// `setMilliseconds(ms)`: sets the millisecond of the local reading to `ms % 1000`, which
    /// replaces the millisecond of the instant (offsets are whole seconds); a local time that the
    /// zone does not have leaves the date as it was, and so does a negative remainder (which Rust's
    /// cast turns into an out-of-range nanosecond count). Returns the timestamp.
    pub fn set_milliseconds(&mut self, ms: i64) -> (r: i64)
        ensures
            r == final(self).timestamp_ms,
            rem_trunc(ms as int, 1000) >= 0 ==> local_field_change(
                old(self)@,
                final(self)@,
                change_milli(rem_trunc(ms as int, 1000)),
            ),
            rem_trunc(ms as int, 1000) < 0 ==> final(self).timestamp_ms == old(self).timestamp_ms,
            rem_trunc(ms as int, 1000) >= 0 ==> final(self)@ == old(self)@ || exists|base: int|
                #[trigger] base_instant(old(self)@, base) && final(self)@ == base - base % 1000
                    + rem_trunc(ms as int, 1000),
            ms_in_range(old(self)@) && rem_trunc(ms as int, 1000) >= 0 ==> final(self)@ == old(self)@
                || final(self)@ == old(self)@ - old(self)@ % 1000 + rem_trunc(ms as int, 1000),
    {
        let current = self.local_instant();
        let rem = ms % 1000;
        let nano: u32 = if rem >= 0 {
            (rem * 1_000_000) as u32
        } else {
            (rem * 1_000_000 + 4_294_967_296i64) as u32
        };
        if let Some(n) = local_with_nanosecond(current, nano) {
            self.timestamp_ms = n;
            assert(base_instant(old(self)@, current as int));
            assert(nano as int / 1_000_000 == rem_trunc(ms as int, 1000));
        }
        self.timestamp_ms
    }

    /// `setTime(timestamp)`: replaces the timestamp and returns it.
    pub fn set_time(&mut self, timestamp: i64) -> (r: i64)
        ensures
            final(self).timestamp_ms == timestamp,
            r == timestamp,
    {
        self.timestamp_ms = timestamp;
        self.timestamp_ms
    }

    // ------------------------------------------------------------ UTC setters
    /// `setUTCDate(day)`: changes the day of the month, UTC. Where the change names no
    /// time the date stays as it was. Returns the timestamp.
    pub fn set_utc_date(&mut self, day: u32) -> (r: i64)
        ensures
            r == final(self).timestamp_ms,
            utc_field_change(old(self)@, final(self)@, |c: Civil| is_valid_date(c.year, c.month, day as int), change_day(day as int)),
            ms_in_range(old(self)@) ==> if (|c: Civil| is_valid_date(c.year, c.month, day as int))(civil_of(old(self)@)) {
                civil_of(final(self)@) == (change_day(day as int))(civil_of(old(self)@))
            } else {
                final(self).timestamp_ms == old(self).timestamp_ms
            },
    {
        let current = self.utc_instant();
        assert(base_instant(old(self)@, current as int));
        if let Some(n) = utc_with_day(current, day) {
            self.timestamp_ms = n;
        }
        self.timestamp_ms
    }

    /// `setUTCFullYear(year)`: changes the year, UTC. Where the change names no
    /// time the date stays as it was. Returns the timestamp.
    pub fn set_utc_full_year(&mut self, year: i32) -> (r: i64)
        ensures
            r == final(self).timestamp_ms,
            utc_field_change(old(self)@, final(self)@, |c: Civil| is_valid_date(year as int, c.month, c.day) && MIN_YEAR <= year <= MAX_YEAR, change_year(year as int)),
            ms_in_range(old(self)@) ==> if (|c: Civil| is_valid_date(year as int, c.month, c.day) && MIN_YEAR <= year <= MAX_YEAR)(civil_of(old(self)@)) {
                civil_of(final(self)@) == (change_year(year as int))(civil_of(old(self)@))
            } else {
                final(self).timestamp_ms == old(self).timestamp_ms
            },
    {
        let current = self.utc_instant();
        assert(base_instant(old(self)@, current as int));
        if let Some(n) = utc_with_year(current, year) {
            self.timestamp_ms = n;
        }
        self.timestamp_ms
    }

    /// `setUTCHours(hours)`: changes the hour, UTC. Where the change names no
    /// time the date stays as it was. Returns the timestamp.
    pub fn set_utc_hours(&mut self, hours: u32) -> (r: i64)
        ensures
            r == final(self).timestamp_ms,
            utc_field_change(old(self)@, final(self)@, |c: Civil| hours < 24, change_hour(hours as int)),
            ms_in_range(old(self)@) ==> if (|c: Civil| hours < 24)(civil_of(old(self)@)) {
                civil_of(final(self)@) == (change_hour(hours as int))(civil_of(old(self)@))
            } else {
                final(self).timestamp_ms == old(self).timestamp_ms
            },
    {
        let current = self.utc_instant();
        assert(base_instant(old(self)@, current as int));
        if let Some(n) = utc_with_hour(current, hours) {
            self.timestamp_ms = n;
        }
        self.timestamp_ms
    }

    /// `setUTCMinutes(minutes)`: changes the minutes, UTC. Where the change names no
    /// time the date stays as it was. Returns the timestamp.
    pub fn set_utc_minutes(&mut self, minutes: u32) -> (r: i64)
        ensures
            r == final(self).timestamp_ms,
            utc_field_change(old(self)@, final(self)@, |c: Civil| minutes < 60, change_minute(minutes as int)),
            ms_in_range(old(self)@) ==> if (|c: Civil| minutes < 60)(civil_of(old(self)@)) {
                civil_of(final(self)@) == (change_minute(minutes as int))(civil_of(old(self)@))
            } else {
                final(self).timestamp_ms == old(self).timestamp_ms
            },
    {
        let current = self.utc_instant();
        assert(base_instant(old(self)@, current as int));
        if let Some(n) = utc_with_minute(current, minutes) {
            self.timestamp_ms = n;
        }
        self.timestamp_ms
    }

    /// `setUTCSeconds(seconds)`: changes the seconds, UTC. Where the change names no
    /// time the date stays as it was. Returns the timestamp.
    pub fn set_utc_seconds(&mut self, seconds: u32) -> (r: i64)
        ensures
            r == final(self).timestamp_ms,
            utc_field_change(old(self)@, final(self)@, |c: Civil| seconds < 60, change_second(seconds as int)),
            ms_in_range(old(self)@) ==> if (|c: Civil| seconds < 60)(civil_of(old(self)@)) {
                civil_of(final(self)@) == (change_second(seconds as int))(civil_of(old(self)@))
            } else {
                final(self).timestamp_ms == old(self).timestamp_ms
            },
    {
        let current = self.utc_instant();
        assert(base_instant(old(self)@, current as int));
        if let Some(n) = utc_with_second(current, seconds) {
            self.timestamp_ms = n;
        }
        self.timestamp_ms
    }

    /// `setUTCMonth(month)`: changes the month (counted from 0), UTC. Where the change names no
    /// time the date stays as it was. Returns the timestamp.
    pub fn set_utc_month(&mut self, month: u32) -> (r: i64)
        ensures
            r == final(self).timestamp_ms,
            utc_field_change(
                old(self)@,
                final(self)@,
                |c: Civil| is_valid_date(c.year, month + 1, c.day),
                change_month(month + 1),
            ),
            ms_in_range(old(self)@) ==> if is_valid_date(
                civil_of(old(self)@).year,
                month + 1,
                civil_of(old(self)@).day,
            ) {
                civil_of(final(self)@) == change_month(month + 1)(civil_of(old(self)@))
            } else {
                final(self).timestamp_ms == old(self).timestamp_ms
            },
    {
        let current = self.utc_instant();
        assert(base_instant(old(self)@, current as int));
        if let Some(n) = utc_with_month(current, calendar_month(month)) {
            self.timestamp_ms = n;
        }
        self.timestamp_ms
    }

    // ------------------------------------------------------------ conversions
    /// `toISOString()`: RFC 3339 in UTC with milliseconds, e.g. `2024-01-15T10:30:45.123Z`.
    pub fn to_iso_string(&self) -> (r: String)
        ensures
            exists|c: Civil, wd: int| #[trigger] is_utc_view(self@, c, wd) && r@ == rfc3339_millis_text(c),
            ms_in_range(self@) ==> r@ == rfc3339_millis_text(civil_of(self@)),
    {
        let (f, base) = self.to_utc();
        assert(is_utc_view(self@, civil_of(base as int), weekday_of(base as int)));
        utc_rfc3339_millis(base)
    }

    /// `toJSON()`: the same text as `toISOString()`.
    pub fn to_json(&self) -> (r: String)
        ensures
            exists|c: Civil, wd: int| #[trigger] is_utc_view(self@, c, wd) && r@ == rfc3339_millis_text(c),
            ms_in_range(self@) ==> r@ == rfc3339_millis_text(civil_of(self@)),
    {
        self.to_iso_string()
    }

    /// `valueOf()`: the timestamp.
    pub fn value_of(&self) -> (r: i64)
        ensures
            r == self.timestamp_ms,
    {
        self.timestamp_ms
    }

    /// `toUTCString()`: e.g. `Mon, 15 Jan 2024 10:30:45 GMT`.
    pub fn to_utc_string(&self) -> (r: String)
        ensures
            exists|c: Civil, wd: int| #[trigger] is_utc_view(self@, c, wd) && r@ == basic_layout_text(utc_string_layout(), c, wd, 0),
            ms_in_range(self@) ==> r@ == basic_layout_text(utc_string_layout(), civil_of(self@), weekday_of(self@), 0),
            ms_in_range(self@) ==> r@ == utc_string_text(civil_of(self@), weekday_of(self@)),
    {
        let layout = "%a, %d %b %Y %H:%M:%S GMT";
        proof {
            reveal_strlit("%a, %d %b %Y %H:%M:%S GMT");
            reveal_with_fuel(is_basic_layout, 30);
            assert(is_basic_layout(layout@));
        }
        let (f, base) = self.to_utc();
        assert(is_utc_view(self@, civil_of(base as int), weekday_of(base as int)));
        proof {
            utc_string_layout_text(civil_of(base as int), weekday_of(base as int));
        }
        utc_strftime(base, layout)
    }

    /// Formats the local reading of this date with a layout chrono can use.
    fn local_layout(&self, layout: &str) -> (r: String)
        requires
            is_usable_layout(layout@),
        ensures
            exists|base: int| #[trigger]
                base_instant(self@, base) && is_local_layout_text(r@, base, layout@),
    {
        let base = self.local_instant();
        let text = local_strftime(base, layout);
        assert(base_instant(self@, base as int) && is_local_layout_text(text@, base as int, layout@));
        text
    }

    /// `toDateString()`: e.g. `Mon Jan 15 2024`, local time.
    pub fn to_date_string(&self) -> (r: String)
        ensures
            exists|base: int| #[trigger]
                base_instant(self@, base) && is_local_layout_text(r@, base, date_string_layout()),
    {
        let layout = "%a %b %d %Y";
        proof {
            reveal_strlit("%a %b %d %Y");
            reveal_with_fuel(is_basic_layout, 12);
            assert(is_basic_layout(layout@));
        }
        self.local_layout(layout)
    }

    /// `toTimeString()`: e.g. `10:30:45 GMT+0000`, local time.
    pub fn to_time_string(&self) -> (r: String)
        ensures
            exists|base: int| #[trigger]
                base_instant(self@, base) && is_local_layout_text(r@, base, time_string_layout()),
    {
        let layout = "%H:%M:%S GMT%z";
        proof {
            reveal_strlit("%H:%M:%S GMT%z");
            reveal_with_fuel(is_basic_layout, 16);
            assert(is_basic_layout(layout@));
        }
        self.local_layout(layout)
    }

    /// `toString()`: e.g. `Mon Jan 15 2024 10:30:45 GMT+0000`, local time.
    pub fn to_js_string(&self) -> (r: String)
        ensures
            exists|base: int| #[trigger]
                base_instant(self@, base) && is_local_layout_text(r@, base, js_string_layout()),
    {
        let layout = "%a %b %d %Y %H:%M:%S GMT%z";
        proof {
            reveal_strlit("%a %b %d %Y %H:%M:%S GMT%z");
            reveal_with_fuel(is_basic_layout, 30);
            assert(is_basic_layout(layout@));
        }
        self.local_layout(layout)
    }

    /// `strftime(format)`: formats the local reading with a strftime layout. The layout must be
    /// one chrono understands (else formatting fails); `try_strftime` checks that first.
    pub fn strftime(&self, format: String) -> (r: String)
        requires
            is_usable_layout(format@),
        ensures
            exists|base: int| #[trigger]
                base_instant(self@, base) && is_local_layout_text(r@, base, format@),
    {
        self.local_layout(format.as_str())
    }

    /// `strftime_utc(format)`: formats the UTC reading with a strftime layout chrono understands;
    /// `try_strftime_utc` checks the layout first.
    pub fn strftime_utc(&self, format: String) -> (r: String)
        requires
            is_usable_layout(format@),
        ensures
            exists|base: int| #[trigger]
                base_instant(self@, base) && r@ == utc_strftime_text(base, format@) && (
                is_basic_layout(format@) ==> r@ == basic_layout_text(
                    format@,
                    civil_of(base),
                    weekday_of(base),
                    0,
                )),
    {
        let base = self.utc_instant();
        let text = utc_strftime(base, format.as_str());
        assert(base_instant(self@, base as int));
        text
    }

    /// `strftime` for any layout: `None` where chrono does not understand the layout.
    pub fn try_strftime(&self, format: String) -> (r: Option<String>)
        ensures
            r is Some <==> strftime_accepts(format@),
            r matches Some(t) ==> exists|base: int| #[trigger]
                base_instant(self@, base) && is_local_layout_text(t@, base, format@),
    {
        if layout_is_accepted(format.as_str()) {
            Some(self.strftime(format))
        } else {
            None
        }
    }

    /// `strftime_utc` for any layout: `None` where chrono does not understand the layout.
    pub fn try_strftime_utc(&self, format: String) -> (r: Option<String>)
        ensures
            r is Some <==> strftime_accepts(format@),
            r matches Some(t) ==> exists|base: int| #[trigger]
                base_instant(self@, base) && t@ == utc_strftime_text(base, format@) && (
                is_basic_layout(format@) ==> t@ == basic_layout_text(
                    format@,
                    civil_of(base),
                    weekday_of(base),
                    0,
                )),
    {
        if layout_is_accepted(format.as_str()) {
            Some(self.strftime_utc(format))
        } else {
            None
        }
    }
}

} // verus!
