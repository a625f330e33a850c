//! Text renderings of timestamps, produced by `chrono`'s formatters.
//!
//! The RFC 3339 rendering is stated exactly. For `strftime` layouts the
//! documented meaning of the common specifiers (`%Y %m %d %H %M %S %a %b %z %%`)
//! is stated; a layout with other specifiers is only known to give some text
//! (named by `utc_strftime_text` for UTC).
use vstd::prelude::*;
use crate::calendar::{civil_of, is_valid_offset, ms_in_range, weekday_of, Civil};
use crate::clock::local_reading;
use crate::text::{decimal, digit_char};
use chrono::format::StrftimeItems;
use chrono::{Local, SecondsFormat, TimeZone, Utc};

verus! {

// ---------------------------------------------------------------- digits
/// `n` (0..=99) as two decimal digits.
pub open spec fn two_digits(n: int) -> Seq<char> {
    seq![digit_char(n / 10), digit_char(n % 10)]
}

/// `n` (0..=999) as three decimal digits.
pub open spec fn three_digits(n: int) -> Seq<char> {
    seq![digit_char(n / 100), digit_char(n / 10 % 10), digit_char(n % 10)]
}

/// The decimal digits of `n`, padded with zeros on the left to `width`.
pub open spec fn zero_padded(n: nat, width: nat) -> Seq<char> {
    let d = decimal(n);
    if d.len() >= width {
        d
    } else {
        Seq::new((width - d.len()) as nat, |i: int| '0') + d
    }
}

/// A year as chrono writes it: four digits for 0..=9999, else a sign and at least four digits.
pub open spec fn year_text(y: int) -> Seq<char> {
    if 0 <= y <= 9999 {
        zero_padded(y as nat, 4)
    } else if y < 0 {
        seq!['-'] + zero_padded((-y) as nat, 4)
    } else {
        seq!['+'] + zero_padded(y as nat, 4)
    }
}

/// RFC 3339 with milliseconds and `Z`: `YYYY-MM-DDTHH:MM:SS.mmmZ`.
pub open spec fn rfc3339_millis_text(c: Civil) -> Seq<char> {
    year_text(c.year) + seq!['-'] + two_digits(c.month) + seq!['-'] + two_digits(c.day) + seq!['T']
        + two_digits(c.hour) + seq![':'] + two_digits(c.minute) + seq![':'] + two_digits(c.second)
        + seq!['.'] + three_digits(c.milli) + seq!['Z']
}

// ---------------------------------------------------------------- strftime
/// English abbreviation of a weekday counted from Sunday.
pub open spec fn short_weekday(wd: int) -> Seq<char> {
    if wd == 0 {
        seq!['S', 'u', 'n']
    } else if wd == 1 {
        seq!['M', 'o', 'n']
    } else if wd == 2 {
        seq!['T', 'u', 'e']
    } else if wd == 3 {
        seq!['W', 'e', 'd']
    } else if wd == 4 {
        seq!['T', 'h', 'u']
    } else if wd == 5 {
        seq!['F', 'r', 'i']
    } else {
        seq!['S', 'a', 't']
    }
}

/// English abbreviation of a month (1..=12).
pub open spec fn short_month(m: int) -> Seq<char> {
    if m == 1 {
        seq!['J', 'a', 'n']
    } else if m == 2 {
        seq!['F', 'e', 'b']
    } else if m == 3 {
        seq!['M', 'a', 'r']
    } else if m == 4 {
        seq!['A', 'p', 'r']
    } else if m == 5 {
        seq!['M', 'a', 'y']
    } else if m == 6 {
        seq!['J', 'u', 'n']
    } else if m == 7 {
        seq!['J', 'u', 'l']
    } else if m == 8 {
        seq!['A', 'u', 'g']
    } else if m == 9 {
        seq!['S', 'e', 'p']
    } else if m == 10 {
        seq!['O', 'c', 't']
    } else if m == 11 {
        seq!['N', 'o', 'v']
    } else {
        seq!['D', 'e', 'c']
    }
}

/// `%z`: the offset as a sign, hours and minutes (rounded to the nearest minute).
pub open spec fn offset_text(off: int) -> Seq<char> {
    let a = if off < 0 {
        -off
    } else {
        off
    };
    let minutes = (a + 30) / 60;
    seq![
        if off < 0 {
            '-'
        } else {
            '+'
        },
    ] + two_digits(minutes / 60) + two_digits(minutes % 60)
}

/// The specifiers whose meaning is stated here.
pub open spec fn is_basic_specifier(ch: char) -> bool {
    ch == 'Y' || ch == 'm' || ch == 'd' || ch == 'H' || ch == 'M' || ch == 'S' || ch == 'a' || ch
        == 'b' || ch == 'z' || ch == '%'
}

/// What a basic specifier writes for a reading `c` with weekday `wd` at offset `off`.
pub open spec fn specifier_text(ch: char, c: Civil, wd: int, off: int) -> Seq<char> {
    if ch == 'Y' {
        year_text(c.year)
    } else if ch == 'm' {
        two_digits(c.month)
    } else if ch == 'd' {
        two_digits(c.day)
    } else if ch == 'H' {
        two_digits(c.hour)
    } else if ch == 'M' {
        two_digits(c.minute)
    } else if ch == 'S' {
        two_digits(c.second)
    } else if ch == 'a' {
        short_weekday(wd)
    } else if ch == 'b' {
        short_month(c.month)
    } else if ch == 'z' {
        offset_text(off)
    } else {
        seq!['%']
    }
}

/// The layout uses only literal text and basic specifiers.
pub open spec fn is_basic_layout(fmt: Seq<char>) -> bool
    decreases fmt.len(),
{
    if fmt.len() == 0 {
        true
    } else if fmt[0] == '%' {
        fmt.len() >= 2 && is_basic_specifier(fmt[1]) && is_basic_layout(fmt.skip(2))
    } else {
        is_basic_layout(fmt.skip(1))
    }
}

/// The text a basic layout gives for a reading `c` with weekday `wd` at offset `off`.
pub open spec fn basic_layout_text(fmt: Seq<char>, c: Civil, wd: int, off: int) -> Seq<char>
    decreases fmt.len(),
{
    if fmt.len() == 0 {
        seq![]
    } else if fmt[0] == '%' && fmt.len() >= 2 {
        specifier_text(fmt[1], c, wd, off) + basic_layout_text(fmt.skip(2), c, wd, off)
    } else {
        seq![fmt[0]] + basic_layout_text(fmt.skip(1), c, wd, off)
    }
}

/// `StrftimeItems::new(fmt).parse().is_ok()`: chrono understands every specifier of the layout.
pub uninterp spec fn strftime_accepts(fmt: Seq<char>) -> bool;

/// The text that `DateTime<Utc>::format(fmt)` gives for the instant `ms`.
pub uninterp spec fn utc_strftime_text(ms: int, fmt: Seq<char>) -> Seq<char>;

/// A layout that formatting can be asked for without a failure (which would panic).
pub open spec fn is_usable_layout(fmt: Seq<char>) -> bool {
    strftime_accepts(fmt) || is_basic_layout(fmt)
}

/// `StrftimeItems::new(fmt).parse()`: whether chrono understands every specifier. Chrono
/// understands all the basic ones.
#[verifier::external_body]
pub(crate) fn layout_is_accepted(fmt: &str) -> (r: bool)
    ensures
        r == strftime_accepts(fmt@),
        is_basic_layout(fmt@) ==> r,
{
    StrftimeItems::new(fmt).parse().is_ok()
}

/// `to_rfc3339_opts(SecondsFormat::Millis, true)` on the UTC date-time of `ms`.
#[verifier::external_body]
pub(crate) fn utc_rfc3339_millis(ms: i64) -> (r: String)
    requires
        ms_in_range(ms as int),
    ensures
        r@ == rfc3339_millis_text(civil_of(ms as int)),
{
    Utc.timestamp_millis_opt(ms).unwrap().to_rfc3339_opts(SecondsFormat::Millis, true)
}

/// `format(fmt).to_string()` on the UTC date-time of `ms`. The layout must be one that chrono
/// understands: else the conversion to a string panics.
#[verifier::external_body]
pub(crate) fn utc_strftime(ms: i64, fmt: &str) -> (r: String)
    requires
        ms_in_range(ms as int),
        is_usable_layout(fmt@),
    ensures
        r@ == utc_strftime_text(ms as int, fmt@),
        is_basic_layout(fmt@) ==> r@ == basic_layout_text(
            fmt@,
            civil_of(ms as int),
            weekday_of(ms as int),
            0,
        ),
{
    Utc.timestamp_millis_opt(ms).unwrap().format(fmt).to_string()
}

/// The text that `DateTime<FixedOffset>::format(fmt)` gives for the instant `ms` at an offset of
/// `off` seconds east of UTC. (A local date-time formats as the date-time at its zone's offset.)
pub uninterp spec fn offset_strftime_text(ms: int, off: int, fmt: Seq<char>) -> Seq<char>;

/// `text` is what the layout gives for the instant `ms` at some valid offset (the zone's): the
/// formatter's text at that offset, which for a basic layout is the layout's text for the reading
/// at that offset, with that offset as what `%z` writes.
pub open spec fn is_local_layout_text(text: Seq<char>, ms: int, fmt: Seq<char>) -> bool {
    exists|off: int|
        is_valid_offset(off) && text == #[trigger] offset_strftime_text(ms, off, fmt) && (
        is_basic_layout(fmt) ==> text == basic_layout_text(
            fmt,
            local_reading(ms, off),
            weekday_of(ms + off * 1000),
            off,
        ))
}

/// `format(fmt).to_string()` on the local date-time of `ms`: the text at the offset that the
/// machine's zone has at that instant. Which offset that is is not stated; the text is the
/// formatter's at that offset, and for a basic layout that text is stated.
#[verifier::external_body]
pub(crate) fn local_strftime(ms: i64, fmt: &str) -> (r: String)
    requires
        ms_in_range(ms as int),
        is_usable_layout(fmt@),
    ensures
        exists|off: int| r@ == #[trigger] offset_strftime_text(ms as int, off, fmt@),
        is_local_layout_text(r@, ms as int, fmt@),
{
    Local.timestamp_millis_opt(ms).unwrap().format(fmt).to_string()
}

} // verus!
