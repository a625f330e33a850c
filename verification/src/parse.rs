//! Reading a timestamp out of a date string: RFC 3339 first, then a fixed list of common
//! layouts, each tried as a date-time and then as a bare date (midnight UTC).
//!
//! What `chrono`'s parsers accept takes pages to state, so each parser's result is named; the
//! order in which the layouts are tried, and what a bare date becomes, are this library's own
//! logic and are stated exactly over those names.
use vstd::prelude::*;
use crate::calendar::{Civil, is_valid_civil, is_valid_date, timestamp_of, weekday_of, MAX_YEAR, MIN_YEAR};
use crate::format::{basic_layout_text, rfc3339_millis_text};
use crate::clock::utc_millis_from_fields;
use chrono::{DateTime, Datelike, NaiveDate, NaiveDateTime, TimeZone, Utc};

verus! {

/// The timestamp that `DateTime::parse_from_rfc3339` reads from a string, if it reads one.
pub uninterp spec fn rfc3339_millis(s: Seq<char>) -> Option<int>;

/// The timestamp (taken as UTC) that `NaiveDateTime::parse_from_str` reads from a string in a
/// layout, if it reads one.
pub uninterp spec fn naive_datetime_millis(s: Seq<char>, fmt: Seq<char>) -> Option<int>;

/// The date (year, month, day) that `NaiveDate::parse_from_str` reads from a string in a layout,
/// if it reads one.
pub uninterp spec fn naive_date_ymd(s: Seq<char>, fmt: Seq<char>) -> Option<(int, int, int)>;

/// `s` is the RFC 3339 text (UTC, milliseconds) of a reading with a four-digit year.
pub open spec fn is_iso_text_of(s: Seq<char>, c: Civil) -> bool {
    is_valid_civil(c) && 0 <= c.year <= 9999 && s == rfc3339_millis_text(c)
}

/// When `s` is the RFC 3339 text of a reading with a four-digit year, `r` is that reading's instant.
pub open spec fn reads_iso_text(s: Seq<char>, r: Option<i64>) -> bool {
    forall|c: Civil| #[trigger] is_iso_text_of(s, c) ==> (r matches Some(v) && v == timestamp_of(c))
}

/// An ASCII letter.
pub open spec fn is_ascii_letter(c: char) -> bool {
    ('a' <= c && c <= 'z') || ('A' <= c && c <= 'Z')
}

/// The text starts with an ASCII letter, where every parser here expects a digit first.
pub open spec fn starts_with_letter(s: Seq<char>) -> bool {
    s.len() > 0 && is_ascii_letter(s[0])
}

/// The layout starts with a year, month or day number.
pub open spec fn starts_with_number(fmt: Seq<char>) -> bool {
    fmt.len() >= 2 && fmt[0] == '%' && (fmt[1] == 'Y' || fmt[1] == 'm' || fmt[1] == 'd')
}

/// `s` is the HTTP-date text (the last of `date_formats`, as written by `toUTCString`) of a
/// whole-second reading with a four-digit year.
pub open spec fn is_http_date_of(s: Seq<char>, c: Civil) -> bool {
    &&& is_valid_civil(c)
    &&& 0 <= c.year <= 9999
    &&& c.milli == 0
    &&& s == basic_layout_text(date_formats()[6], c, weekday_of(timestamp_of(c)), 0)
}

/// When `s` is the HTTP-date text of a reading and `fmt` is that layout, `r` is the reading's
/// instant.
pub open spec fn reads_http_date(s: Seq<char>, fmt: Seq<char>, r: Option<i64>) -> bool {
    forall|c: Civil| #[trigger] is_http_date_of(s, c) && fmt == date_formats()[6] ==> (r matches Some(
        v,
    ) && v == timestamp_of(c))
}

/// `DateTime::parse_from_rfc3339(s)`, as a timestamp in milliseconds. Text that `to_rfc3339`
/// writes (UTC, milliseconds, four-digit year) reads back as its instant.
#[verifier::external_body]
fn parse_rfc3339(s: &str) -> (r: Option<i64>)
    ensures
        match r {
            Some(v) => rfc3339_millis(s@) == Some(v as int),
            None => rfc3339_millis(s@) is None,
        },
        reads_iso_text(s@, r),
        starts_with_letter(s@) ==> r is None,
{
    match DateTime::parse_from_rfc3339(s) {
        Ok(dt) => Some(dt.timestamp_millis()),
        Err(_) => None,
    }
}

/// `NaiveDateTime::parse_from_str(s, fmt)`, taken as UTC (`Utc.from_utc_datetime`) and given as
/// a timestamp in milliseconds. A layout that starts with a number reads nothing from a text
/// that starts with a letter; the HTTP-date layout reads back what it writes for a whole-second
/// reading with a four-digit year (its weekday agreeing with its date).
#[verifier::external_body]
fn parse_naive_datetime(s: &str, fmt: &str) -> (r: Option<i64>)
    ensures
        match r {
            Some(v) => naive_datetime_millis(s@, fmt@) == Some(v as int),
            None => naive_datetime_millis(s@, fmt@) is None,
        },
        starts_with_letter(s@) && starts_with_number(fmt@) ==> r is None,
        reads_http_date(s@, fmt@, r),
{
    match NaiveDateTime::parse_from_str(s, fmt) {
        Ok(n) => Some(Utc.from_utc_datetime(&n).timestamp_millis()),
        Err(_) => None,
    }
}

/// `NaiveDate::parse_from_str(s, fmt)`, read as (year, month, day). A `NaiveDate` is always a
/// valid date of the years the library represents. A layout that starts with a number reads
/// nothing from a text that starts with a letter.
#[verifier::external_body]
fn parse_naive_date(s: &str, fmt: &str) -> (r: Option<(i32, u32, u32)>)
    ensures
        match r {
            Some(t) => naive_date_ymd(s@, fmt@) == Some((t.0 as int, t.1 as int, t.2 as int))
                && is_valid_date(t.0 as int, t.1 as int, t.2 as int) && MIN_YEAR <= t.0 <= MAX_YEAR,
            None => naive_date_ymd(s@, fmt@) is None,
        },
        starts_with_letter(s@) && starts_with_number(fmt@) ==> r is None,
{
    match NaiveDate::parse_from_str(s, fmt) {
        Ok(d) => Some((d.year(), d.month(), d.day())),
        Err(_) => None,
    }
}

/// The layouts tried after RFC 3339, in order.
pub open spec fn date_formats() -> Seq<Seq<char>> {
    seq![
        "%Y-%m-%d"@,
        "%Y/%m/%d"@,
        "%m/%d/%Y"@,
        "%d-%m-%Y"@,
        "%Y-%m-%d %H:%M:%S"@,
        "%Y-%m-%dT%H:%M:%S"@,
        "%a, %d %b %Y %H:%M:%S GMT"@,
    ]
}

fn date_format(i: usize) -> (r: &'static str)
    requires
        i < 7,
    ensures
        r@ == date_formats()[i as int],
{
    if i == 0 {
        "%Y-%m-%d"
    } else if i == 1 {
        "%Y/%m/%d"
    } else if i == 2 {
        "%m/%d/%Y"
    } else if i == 3 {
        "%d-%m-%Y"
    } else if i == 4 {
        "%Y-%m-%d %H:%M:%S"
    } else if i == 5 {
        "%Y-%m-%dT%H:%M:%S"
    } else {
        "%a, %d %b %Y %H:%M:%S GMT"
    }
}

/// Midnight UTC of a date.
pub open spec fn midnight_of(d: (int, int, int)) -> int {
    timestamp_of(Civil { year: d.0, month: d.1, day: d.2, hour: 0, minute: 0, second: 0, milli: 0 })
}

/// The timestamp read with the layouts from position `i` on: the first layout that reads the
/// string as a date-time, or else as a date, decides.
pub open spec fn formats_value(s: Seq<char>, i: int) -> Option<int>
    decreases 7 - i,
{
    if i < 0 || i >= 7 {
        None
    } else {
        match naive_datetime_millis(s, date_formats()[i]) {
            Some(v) => Some(v),
            None => match naive_date_ymd(s, date_formats()[i]) {
                Some(d) => Some(midnight_of(d)),
                None => formats_value(s, i + 1),
            },
        }
    }
}

/// The timestamp that a date string names: RFC 3339 first, then the layouts in order.
pub open spec fn date_string_value(s: Seq<char>) -> Option<int> {
    match rfc3339_millis(s) {
        Some(v) => Some(v),
        None => formats_value(s, 0),
    }
}

/// The first six layouts start with a number; the last is the HTTP date.
proof fn lemma_date_formats_start()
    ensures
        forall|i: int| 0 <= i < 6 ==> #[trigger] starts_with_number(date_formats()[i]),
        date_formats()[6] == "%a, %d %b %Y %H:%M:%S GMT"@,
{
    reveal_strlit("%Y-%m-%d");
    reveal_strlit("%Y/%m/%d");
    reveal_strlit("%m/%d/%Y");
    reveal_strlit("%d-%m-%Y");
    reveal_strlit("%Y-%m-%d %H:%M:%S");
    reveal_strlit("%Y-%m-%dT%H:%M:%S");
    assert(starts_with_number(date_formats()[0]));
    assert(starts_with_number(date_formats()[1]));
    assert(starts_with_number(date_formats()[2]));
    assert(starts_with_number(date_formats()[3]));
    assert(starts_with_number(date_formats()[4]));
    assert(starts_with_number(date_formats()[5]));
}

/// An HTTP-date text starts with the weekday's name.
proof fn lemma_http_date_starts_with_letter(s: Seq<char>, c: Civil)
    requires
        is_http_date_of(s, c),
    ensures
        starts_with_letter(s),
{
    lemma_date_formats_start();
    reveal_strlit("%a, %d %b %Y %H:%M:%S GMT");
    let f = date_formats()[6];
    assert(f[0] == '%' && f[1] == 'a' && f.len() >= 2);
    let wd = weekday_of(timestamp_of(c));
    let head = crate::format::specifier_text('a', c, wd, 0);
    assert(s == head + basic_layout_text(f.skip(2), c, wd, 0));
    assert(head.len() == 3 && is_ascii_letter(head[0]));
    assert(s[0] == head[0]);
}

/// Every text that RFC 3339 reads, of whatever length and with or without fractional seconds,
/// names the instant RFC 3339 reads from it; the other layouts only read what RFC 3339 does not.
pub proof fn rfc3339_text_names_its_instant(s: Seq<char>, v: int)
    requires
        rfc3339_millis(s) == Some(v),
    ensures
        date_string_value(s) == Some(v),
{
}

/// Parses a date string (see `date_string_value`); the error text is "Invalid date format".
pub fn parse_date_string(s: &str) -> (r: Result<i64, String>)
    ensures
        match date_string_value(s@) {
            Some(v) => r matches Ok(t) && t == v,
            None => r matches Err(e) && e@ == "Invalid date format"@,
        },
        forall|c: Civil| #[trigger] is_iso_text_of(s@, c) ==> (r matches Ok(t) && t == timestamp_of(c)),
        forall|c: Civil| #[trigger] is_http_date_of(s@, c) ==> (r matches Ok(t) && t == timestamp_of(c)),
        rfc3339_millis(s@) matches Some(v) ==> (r matches Ok(t) && t == v),
{
    proof {
        lemma_date_formats_start();
        assert forall|c: Civil| #[trigger] is_http_date_of(s@, c) implies starts_with_letter(s@) by {
            lemma_http_date_starts_with_letter(s@, c);
        }
    }
    if let Some(ts) = parse_rfc3339(s) {
        return Ok(ts);
    }
    let mut i: usize = 0;
    while i < 7
        invariant
            i <= 7,
            rfc3339_millis(s@) is None,
            forall|c: Civil| !#[trigger] is_iso_text_of(s@, c),
            forall|c: Civil| #[trigger] is_http_date_of(s@, c) ==> starts_with_letter(s@) && i <= 6,
            forall|k: int| 0 <= k < 6 ==> #[trigger] starts_with_number(date_formats()[k]),
            formats_value(s@, 0) == formats_value(s@, i as int),
        decreases 7 - i,
    {
        let fmt = date_format(i);
        if let Some(ts) = parse_naive_datetime(s, fmt) {
            return Ok(ts);
        }
        if let Some(ymd) = parse_naive_date(s, fmt) {
            let ts = utc_millis_from_fields(ymd.0, ymd.1, ymd.2, 0, 0, 0);
            return Ok(ts.unwrap());
        }
        i = i + 1;
    }
    Err(String::from_str("Invalid date format"))
}

} // verus!
