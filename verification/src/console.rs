//! Console output of JavaScript values: JSON-style escaping of strings and the
//! one-line rendering that `console.log` prints.
//!
//! A value is handed over as a `LogValue`: what the host could read of it,
//! with `None` wherever a read failed (rendered as `<ERR>`).
use vstd::prelude::*;
use crate::text::{views_of, chars_of, digit_char, i32_to_string, int_text, join, join_strings, push_char};

verus! {

// ---------------------------------------------------------------- escaping
/// Lower-case hexadecimal digit of `d` (0..=15).
pub open spec fn hex_digit(d: int) -> char {
    if d < 10 {
        digit_char(d)
    } else {
        (d - 10 + 97) as char
    }
}

/// A character that JSON-style quoting must escape.
pub open spec fn must_escape(c: char) -> bool {
    (c as int) < 0x20 || c == '"' || c == '\\'
}

/// How a character is written inside double quotes.
pub open spec fn escape_char(c: char) -> Seq<char> {
    if c == '"' {
        seq!['\\', '"']
    } else if c == '\\' {
        seq!['\\', '\\']
    } else if c == '\n' {
        seq!['\\', 'n']
    } else if c == '\r' {
        seq!['\\', 'r']
    } else if c == '\t' {
        seq!['\\', 't']
    } else if c == '\u{08}' {
        seq!['\\', 'b']
    } else if c == '\u{0c}' {
        seq!['\\', 'f']
    } else if (c as int) < 0x20 {
        seq!['\\', 'u', '0', '0', hex_digit((c as int) / 16), hex_digit((c as int) % 16)]
    } else {
        seq![c]
    }
}

/// A string escaped for printing inside double quotes.
pub open spec fn escaped(s: Seq<char>) -> Seq<char>
    decreases s.len(),
{
    if s.len() == 0 {
        seq![]
    } else {
        escaped(s.drop_last()) + escape_char(s.last())
    }
}

/// Escaping leaves a string without special characters unchanged.
pub proof fn lemma_escape_identity(s: Seq<char>)
    requires
        forall|i: int| 0 <= i < s.len() ==> !must_escape(#[trigger] s[i]),
    ensures
        escaped(s) == s,
    decreases s.len(),
{
    if s.len() > 0 {
        let t = s.drop_last();
        assert forall|i: int| 0 <= i < t.len() implies !must_escape(#[trigger] t[i]) by {
            assert(t[i] == s[i]);
        }
        lemma_escape_identity(t);
        assert(!must_escape(s[s.len() - 1]));
        assert(s =~= t.push(s.last()));
    }
}

/// Escaping is character by character: it distributes over concatenation.
pub proof fn lemma_escape_append(s: Seq<char>, t: Seq<char>)
    ensures
        escaped(s + t) == escaped(s) + escaped(t),
    decreases t.len(),
{
    if t.len() == 0 {
        assert(s + t =~= s);
    } else {
        lemma_escape_append(s, t.drop_last());
        assert((s + t).drop_last() =~= s + t.drop_last());
        assert((s + t).last() == t.last());
    }
}

/// A character's code point lies in 0..=0x10FFFF.
proof fn lemma_char_code(c: char)
    ensures
        0 <= c as int <= 0x10FFFF,
{
}

/// No character of an escaped string is a control character (below U+0020).
pub proof fn lemma_escaped_has_no_control(s: Seq<char>)
    ensures
        forall|i: int| 0 <= i < escaped(s).len() ==> (#[trigger] escaped(s)[i] as int) >= 0x20,
    decreases s.len(),
{
    if s.len() > 0 {
        lemma_escaped_has_no_control(s.drop_last());
        let c = s.last();
        lemma_char_code(c);
        assert forall|i: int| 0 <= i < escape_char(c).len() implies (#[trigger] escape_char(c)[i]
            as int) >= 0x20 by {
            if (c as int) < 0x20 && c != '\n' && c != '\r' && c != '\t' && c != '\u{08}' && c
                != '\u{0c}' {
                assert((c as int) / 16 <= 1);
                assert((48int as char) as int == 48);
                assert((49int as char) as int == 49);
                let d = (c as int) % 16;
                if d < 10 {
                    assert(((d + 48) as char) as int == d + 48);
                } else {
                    assert(((d - 10 + 97) as char) as int == d + 87);
                }
            }
        }
        let a = escaped(s.drop_last());
        let b = escape_char(c);
        assert forall|i: int| 0 <= i < escaped(s).len() implies (#[trigger] escaped(s)[i] as int)
            >= 0x20 by {
            assert(escaped(s) == a + b);
            if i < a.len() {
                assert(escaped(s)[i] == a[i]);
            } else {
                assert(escaped(s)[i] == b[i - a.len()]);
            }
        }
    }
}

/// The value of a hexadecimal digit, or -1.
pub open spec fn hex_value(c: char) -> int {
    if '0' <= c && c <= '9' {
        c as int - 48
    } else if 'a' <= c && c <= 'f' {
        c as int - 87
    } else if 'A' <= c && c <= 'F' {
        c as int - 55
    } else {
        -1
    }
}

/// The character that a JSON escape `\` followed by `e` (not `u`) stands for, if any.
pub open spec fn json_simple_escape(e: char) -> Option<char> {
    if e == '"' || e == '\\' || e == '/' {
        Some(e)
    } else if e == 'n' {
        Some('\n')
    } else if e == 'r' {
        Some('\r')
    } else if e == 't' {
        Some('\t')
    } else if e == 'b' {
        Some('\u{08}')
    } else if e == 'f' {
        Some('\u{0c}')
    } else {
        None
    }
}

/// The text inside a JSON string literal, decoded: the escapes `\" \\ \/ \n \r \t \b \f`
/// and `\uXXXX` (a code below U+D800) stand for their character; anything else stands for
/// itself.
pub open spec fn json_unescape(t: Seq<char>) -> Seq<char>
    decreases t.len(),
{
    if t.len() == 0 {
        seq![]
    } else if t[0] == '\\' && t.len() >= 2 && json_simple_escape(t[1]) is Some {
        seq![json_simple_escape(t[1]).unwrap()] + json_unescape(t.skip(2))
    } else if t[0] == '\\' && t.len() >= 6 && t[1] == 'u' && hex_value(t[2]) >= 0 && hex_value(
        t[3],
    ) >= 0 && hex_value(t[4]) >= 0 && hex_value(t[5]) >= 0 && 4096 * hex_value(t[2]) + 256
        * hex_value(t[3]) + 16 * hex_value(t[4]) + hex_value(t[5]) < 0xD800 {
        seq![
            (4096 * hex_value(t[2]) + 256 * hex_value(t[3]) + 16 * hex_value(t[4]) + hex_value(
                t[5],
            )) as char,
        ] + json_unescape(t.skip(6))
    } else {
        seq![t[0]] + json_unescape(t.skip(1))
    }
}

proof fn lemma_hex_digit_value(d: int)
    requires
        0 <= d < 16,
    ensures
        hex_value(hex_digit(d)) == d,
{
    if d < 10 {
        assert(((d + 48) as char) as int == d + 48);
    } else {
        assert(((d - 10 + 97) as char) as int == d + 87);
    }
}

proof fn lemma_unescape_char(c: char, rest: Seq<char>)
    ensures
        json_unescape(escape_char(c) + rest) == seq![c] + json_unescape(rest),
{
    lemma_char_code(c);
    let t = escape_char(c) + rest;
    if c == '"' || c == '\\' || c == '\n' || c == '\r' || c == '\t' || c == '\u{08}' || c
        == '\u{0c}' {
        assert(t.skip(2) =~= rest);
    } else if (c as int) < 0x20 {
        let ci = c as int;
        lemma_hex_digit_value(ci / 16);
        lemma_hex_digit_value(ci % 16);
        assert(hex_value('0') == 0);
        assert(t[2] == '0' && t[3] == '0');
        assert(t[4] == hex_digit(ci / 16) && t[5] == hex_digit(ci % 16));
        assert(t.skip(6) =~= rest);
        assert(4096 * hex_value(t[2]) + 256 * hex_value(t[3]) + 16 * hex_value(t[4]) + hex_value(
            t[5],
        ) == ci);
        assert((ci as char) == c);
    } else {
        assert(t[0] == c);
        assert(t.skip(1) =~= rest);
    }
}

/// Decoding what `escape_str` writes, as the text of a JSON string literal, gives back the
/// string; and escaping never shortens it.
pub proof fn lemma_escape_json_round_trip(s: Seq<char>)
    ensures
        json_unescape(escaped(s)) == s,
        escaped(s).len() >= s.len(),
    decreases s.len(),
{
    if s.len() > 0 {
        let c = s[0];
        let rest = s.skip(1);
        lemma_escape_json_round_trip(rest);
        assert(s =~= seq![c] + rest);
        lemma_escape_append(seq![c], rest);
        assert(seq![c].drop_last() =~= Seq::<char>::empty());
        assert(escaped(seq![c]) == escaped(Seq::<char>::empty()) + escape_char(c));
        assert(escaped(seq![c]) =~= escape_char(c));
        lemma_unescape_char(c, escaped(rest));
        assert(escape_char(c).len() >= 1);
    }
}

fn hex(d: u32) -> (c: char)
    requires
        d < 16,
    ensures
        c == hex_digit(d as int),
{
    let chars = ['0', '1', '2', '3', '4', '5', '6', '7', '8', '9', 'a', 'b', 'c', 'd', 'e', 'f'];
    assert(chars@ =~= seq![
        '0', '1', '2', '3', '4', '5', '6', '7', '8', '9', 'a', 'b', 'c', 'd', 'e', 'f',
    ]);
    chars[d as usize]
}

/// Writes the escape of one character.
fn push_escaped(out: &mut String, c: char)
    ensures
        final(out)@ == old(out)@ + escape_char(c),
{
    if c == '"' {
        push_char(out, '\\');
        push_char(out, '"');
    } else if c == '\\' {
        push_char(out, '\\');
        push_char(out, '\\');
    } else if c == '\n' {
        push_char(out, '\\');
        push_char(out, 'n');
    } else if c == '\r' {
        push_char(out, '\\');
        push_char(out, 'r');
    } else if c == '\t' {
        push_char(out, '\\');
        push_char(out, 't');
    } else if c == '\u{08}' {
        push_char(out, '\\');
        push_char(out, 'b');
    } else if c == '\u{0c}' {
        push_char(out, '\\');
        push_char(out, 'f');
    } else if ' ' > c {
        let code = c as u32;
        assert(code as int == c as int);
        push_char(out, '\\');
        push_char(out, 'u');
        push_char(out, '0');
        push_char(out, '0');
        push_char(out, hex(code / 16));
        push_char(out, hex(code % 16));
    } else {
        push_char(out, c);
    }
    assert(final(out)@ =~= old(out)@ + escape_char(c));
}

/// Escapes a string for printing inside double quotes (JSON style): quotes and backslashes get a
/// backslash, common control characters their short escapes, other control characters `\u00XX`.
pub fn escape_str(s: &str) -> (r: String)
    ensures
        r@ == escaped(s@),
        json_unescape(r@) == s@,
        r@.len() >= s@.len(),
        forall|i: int| 0 <= i < r@.len() ==> (#[trigger] r@[i] as int) >= 0x20,
{
    proof {
        lemma_escape_json_round_trip(s@);
        lemma_escaped_has_no_control(s@);
    }
    let chars = chars_of(s);
    let mut special = false;
    let mut i: usize = 0;
    while i < chars.len()
        invariant
            chars@ == s@,
            i <= chars.len(),
            !special ==> forall|k: int| 0 <= k < i ==> !must_escape(#[trigger] chars@[k]),
        decreases chars.len() - i,
    {
        let c = chars[i];
        if ' ' > c || c == '"' || c == '\\' {
            special = true;
        }
        i = i + 1;
    }
    if !special {
        proof {
            lemma_escape_identity(s@);
        }
        return String::from_str(s);
    }
    let mut out = String::new();
    let mut j: usize = 0;
    while j < chars.len()
        invariant
            chars@ == s@,
            j <= chars.len(),
            out@ == escaped(s@.take(j as int)),
        decreases chars.len() - j,
    {
        push_escaped(&mut out, chars[j]);
        assert(s@.take(j + 1).drop_last() =~= s@.take(j as int));
        j = j + 1;
    }
    assert(s@.take(chars.len() as int) =~= s@);
    out
}


// ---------------------------------------------------------------- values
/// The state of a promise.
#[derive(Clone, Copy, Debug, PartialEq, Eq)]
pub enum PromiseStatus {
    Pending,
    Resolved,
    Rejected,
}

/// What the host read of a JavaScript value for printing; `None` marks a read that failed.
#[derive(Debug)]
pub enum LogValue {
    Undefined,
    Null,
    Bool(Option<bool>),
    Int(Option<i32>),
    /// A number that is not an integer, as the host writes it.
    Float(Option<String>),
    Str(Option<String>),
    Symbol,
    Constructor,
    Function,
    /// The elements of an array.
    Array(Option<Vec<Option<LogValue>>>),
    Promise(Option<PromiseStatus>),
    /// An exception, by its message.
    Exception(Option<String>),
    /// A big integer, as `BigInt.prototype.toString` writes it.
    BigInt(Option<String>),
    /// The (key, value) properties of an object.
    Object(Option<Vec<Option<(LogValue, LogValue)>>>),
    /// Any other kind of value, by its type name.
    Other(String),
}

/// Nesting deeper than this is not printed.
pub const MAX_DEPTH: usize = 10;

/// How a failed read prints.
pub open spec fn err_text() -> Seq<char> {
    "<ERR>"@
}

pub open spec fn promise_text(p: PromiseStatus) -> Seq<char> {
    match p {
        PromiseStatus::Pending => "Promise(<pending>)"@,
        PromiseStatus::Resolved => "Promise(<resolved>)"@,
        PromiseStatus::Rejected => "Promise(<rejected>)"@,
    }
}

/// The text of a string value: quoted and escaped when `quote`, else as it is.
pub open spec fn string_text(s: Seq<char>, quote: bool) -> Seq<char> {
    if quote {
        seq!['"'] + escaped(s) + seq!['"']
    } else {
        s
    }
}

/// The text of a value at nesting `depth`; strings are quoted when `quote` (as they are inside
/// arrays and objects).
pub open spec fn value_text(v: LogValue, quote: bool, depth: int) -> Seq<char>
    decreases v, 0int,
{
    if depth > MAX_DEPTH {
        "<Max-Depth Exceeded>"@
    } else {
        match v {
            LogValue::Undefined => "undefined"@,
            LogValue::Null => "null"@,
            LogValue::Bool(b) => match b {
                Some(b) => if b {
                    "true"@
                } else {
                    "false"@
                },
                None => err_text(),
            },
            LogValue::Int(i) => match i {
                Some(i) => int_text(i as int),
                None => err_text(),
            },
            LogValue::Float(f) => match f {
                Some(f) => f@,
                None => err_text(),
            },
            LogValue::Str(s) => match s {
                Some(s) => string_text(s@, quote),
                None => err_text(),
            },
            LogValue::Symbol => "Symbol()"@,
            LogValue::Constructor => "Constructor()"@,
            LogValue::Function => "Function()"@,
            LogValue::Array(items) => match items {
                Some(items) => "["@ + join(item_texts(items@, depth + 1), ", "@) + "]"@,
                None => err_text(),
            },
            LogValue::Promise(p) => match p {
                Some(p) => promise_text(p),
                None => err_text(),
            },
            LogValue::Exception(m) => match m {
                Some(m) => "Error<"@ + m@ + ">"@,
                None => err_text(),
            },
            LogValue::BigInt(t) => match t {
                Some(t) => t@,
                None => err_text(),
            },
            LogValue::Object(props) => match props {
                Some(props) => "{"@ + join(prop_texts(props@, depth + 1), ", "@) + "}"@,
                None => err_text(),
            },
            LogValue::Other(name) => name@,
        }
    }
}

/// The texts of array elements, quoted, at nesting `depth`.
pub open spec fn item_texts(items: Seq<Option<LogValue>>, depth: int) -> Seq<Seq<char>>
    decreases items, 1int,
{
    if items.len() == 0 {
        seq![]
    } else {
        let last = match items.last() {
            Some(v) => value_text(v, true, depth),
            None => err_text(),
        };
        item_texts(items.drop_last(), depth).push(last)
    }
}

/// The texts of object properties (`key: value`, both quoted) at nesting `depth`.
pub open spec fn prop_texts(props: Seq<Option<(LogValue, LogValue)>>, depth: int) -> Seq<Seq<char>>
    decreases props, 1int,
{
    if props.len() == 0 {
        seq![]
    } else {
        let last = match props.last() {
            Some(kv) => value_text(kv.0, true, depth) + ": "@ + value_text(kv.1, true, depth),
            None => err_text(),
        };
        prop_texts(props.drop_last(), depth).push(last)
    }
}


fn text_of(lit: &str) -> (r: String)
    ensures
        r@ == lit@,
{
    String::from_str(lit)
}

fn err() -> (r: String)
    ensures
        r@ == err_text(),
{
    text_of("<ERR>")
}

/// `prefix + middle + suffix`.
fn enclose(prefix: &str, middle: String, suffix: &str) -> (r: String)
    ensures
        r@ == prefix@ + middle@ + suffix@,
{
    let mut r = String::from_str(prefix);
    r.append(middle.as_str());
    r.append(suffix);
    r
}

/// A string in double quotes, escaped.
pub open spec fn quoted(s: Seq<char>) -> Seq<char> {
    seq!['"'] + escaped(s) + seq!['"']
}

/// An object property whose key and value are both strings that could be read.
pub open spec fn is_string_property(p: Option<(LogValue, LogValue)>) -> bool {
    p matches Some((LogValue::Str(Some(_)), LogValue::Str(Some(_))))
}

/// The key and value text of such a property.
pub open spec fn property_strings(p: Option<(LogValue, LogValue)>) -> (Seq<char>, Seq<char>) {
    match p {
        Some((LogValue::Str(Some(k)), LogValue::Str(Some(v)))) => (k@, v@),
        _ => (seq![], seq![]),
    }
}

/// An array element that is a string that could be read.
pub open spec fn is_string_item(p: Option<LogValue>) -> bool {
    p matches Some(LogValue::Str(Some(_)))
}

/// The text of such an element.
pub open spec fn item_string(p: Option<LogValue>) -> Seq<char> {
    match p {
        Some(LogValue::Str(Some(s))) => s@,
        _ => seq![],
    }
}

proof fn lemma_string_properties(ps: Seq<Option<(LogValue, LogValue)>>, depth: int)
    requires
        depth <= MAX_DEPTH,
        forall|i: int| 0 <= i < ps.len() ==> #[trigger] is_string_property(ps[i]),
    ensures
        prop_texts(ps, depth) == Seq::new(
            ps.len(),
            |i: int| quoted(property_strings(ps[i]).0) + ": "@ + quoted(property_strings(ps[i]).1),
        ),
    decreases ps.len(),
{
    if ps.len() > 0 {
        let rest = ps.drop_last();
        assert forall|i: int| 0 <= i < rest.len() implies #[trigger] is_string_property(rest[i]) by {
            assert(rest[i] == ps[i]);
        }
        lemma_string_properties(rest, depth);
        let n = ps.len() - 1;
        assert(is_string_property(ps[n]));
        let f = |i: int| quoted(property_strings(ps[i]).0) + ": "@ + quoted(property_strings(ps[i]).1);
        assert(prop_texts(ps, depth) == prop_texts(rest, depth).push(match ps.last() {
            Some(kv) => value_text(kv.0, true, depth) + ": "@ + value_text(kv.1, true, depth),
            None => err_text(),
        }));
        if let Some((k, x)) = ps[n] {
            assert(value_text(k, true, depth) == quoted(property_strings(ps[n]).0));
            assert(value_text(x, true, depth) == quoted(property_strings(ps[n]).1));
        }
        assert forall|i: int| 0 <= i < ps.len() implies prop_texts(ps, depth)[i] == f(i) by {
            if i < n {
                assert(rest[i] == ps[i]);
            }
        }
        assert(prop_texts(ps, depth) =~= Seq::new(
            ps.len(),
            |i: int| quoted(property_strings(ps[i]).0) + ": "@ + quoted(property_strings(ps[i]).1),
        ));
    }
}

proof fn lemma_string_items(items: Seq<Option<LogValue>>, depth: int)
    requires
        depth <= MAX_DEPTH,
        forall|i: int| 0 <= i < items.len() ==> #[trigger] is_string_item(items[i]),
    ensures
        item_texts(items, depth) == Seq::new(items.len(), |i: int| quoted(item_string(items[i]))),
    decreases items.len(),
{
    if items.len() > 0 {
        let rest = items.drop_last();
        assert forall|i: int| 0 <= i < rest.len() implies #[trigger] is_string_item(rest[i]) by {
            assert(rest[i] == items[i]);
        }
        lemma_string_items(rest, depth);
        let n = items.len() - 1;
        assert(is_string_item(items[n]));
        assert(item_texts(items, depth) == item_texts(rest, depth).push(match items.last() {
            Some(v) => value_text(v, true, depth),
            None => err_text(),
        }));
        if let Some(x) = items[n] {
            assert(value_text(x, true, depth) == quoted(item_string(items[n])));
        }
        assert forall|i: int| 0 <= i < items.len() implies item_texts(items, depth)[i] == quoted(
            item_string(items[i]),
        ) by {
            if i < n {
                assert(rest[i] == items[i]);
            }
        }
        assert(item_texts(items, depth) =~= Seq::new(
            items.len(),
            |i: int| quoted(item_string(items[i])),
        ));
    }
}

/// Inside an object every string is quoted and escaped, keys and values alike, whether or not
/// the object itself is printed with quotes: an object of string properties prints as
/// `{"k1": "v1", "k2": "v2"}`.
pub proof fn object_strings_are_quoted(v: LogValue, quote: bool, depth: int)
    requires
        0 <= depth < MAX_DEPTH,
        v matches LogValue::Object(Some(ps)) && forall|i: int|
            0 <= i < ps@.len() ==> #[trigger] is_string_property(ps@[i]),
    ensures
        v matches LogValue::Object(Some(ps)) && value_text(v, quote, depth) == "{"@ + join(
            Seq::new(
                ps@.len(),
                |i: int| quoted(property_strings(ps@[i]).0) + ": "@ + quoted(
                    property_strings(ps@[i]).1,
                ),
            ),
            ", "@,
        ) + "}"@,
{
    if let LogValue::Object(Some(ps)) = v {
        lemma_string_properties(ps@, depth + 1);
    }
}

/// Inside an array every string is quoted and escaped: an array of strings prints as
/// `["a", "b"]`.
pub proof fn array_strings_are_quoted(v: LogValue, quote: bool, depth: int)
    requires
        0 <= depth < MAX_DEPTH,
        v matches LogValue::Array(Some(items)) && forall|i: int|
            0 <= i < items@.len() ==> #[trigger] is_string_item(items@[i]),
    ensures
        v matches LogValue::Array(Some(items)) && value_text(v, quote, depth) == "["@ + join(
            Seq::new(items@.len(), |i: int| quoted(item_string(items@[i]))),
            ", "@,
        ) + "]"@,
{
    if let LogValue::Array(Some(items)) = v {
        lemma_string_items(items@, depth + 1);
    }
}

/// A string printed at the top level is the string itself; printed quoted, it is the string in
/// double quotes, escaped.
pub proof fn string_text_quoting(v: LogValue, depth: int)
    requires
        0 <= depth <= MAX_DEPTH,
        v matches LogValue::Str(Some(s)),
    ensures
        v matches LogValue::Str(Some(s)) && value_text(v, false, depth) == s@ && value_text(
            v,
            true,
            depth,
        ) == quoted(s@),
{
}

/// Renders a value as `console.log` prints it (see `value_text`): strings are quoted at any
/// `depth` when `quote`; nesting deeper than `MAX_DEPTH` prints as `<Max-Depth Exceeded>`.
pub fn log_v(v: &LogValue, quote: bool, depth: usize) -> (r: String)
    ensures
        r@ == value_text(*v, quote, depth as int),
    decreases v,
{
    if depth > MAX_DEPTH {
        return text_of("<Max-Depth Exceeded>");
    }
    match v {
        LogValue::Undefined => text_of("undefined"),
        LogValue::Null => text_of("null"),
        LogValue::Bool(b) => match b {
            Some(b) => if *b {
                text_of("true")
            } else {
                text_of("false")
            },
            None => err(),
        },
        LogValue::Int(i) => match i {
            Some(i) => i32_to_string(*i),
            None => err(),
        },
        LogValue::Float(f) => match f {
            Some(f) => f.clone(),
            None => err(),
        },
        LogValue::Str(s) => match s {
            Some(s) => if quote {
                let mut out = String::new();
                push_char(&mut out, '"');
                let e = escape_str(s.as_str());
                out.append(e.as_str());
                push_char(&mut out, '"');
                out
            } else {
                s.clone()
            },
            None => err(),
        },
        LogValue::Symbol => text_of("Symbol()"),
        LogValue::Constructor => text_of("Constructor()"),
        LogValue::Function => text_of("Function()"),
        LogValue::Array(Some(items)) => {
                let mut pieces: Vec<String> = Vec::new();
                let mut i: usize = 0;
                while i < items.len()
                    invariant
                        i <= items.len(),
                        depth <= MAX_DEPTH,
                        *v is Array,
                        v->Array_0 == Some(*items),
                        views_of(pieces@) == item_texts(
                            items@.take(i as int),
                            depth + 1,
                        ),
                    decreases items.len() - i,
                {
                    let piece = match &items[i] {
                        Some(item) => {
                            proof {
                                assert(decreases_to!(*v => (*v)->Array_0));
                                assert(decreases_to!((*v)->Array_0 => (*v)->Array_0->0));
                                assert(decreases_to!(*items => items@));
                                assert(decreases_to!(items@ => items@[i as int]));
                                assert(decreases_to!(items@[i as int] => *item));
                            }
                            log_v(item, true, depth + 1)
                        },
                        None => err(),
                    };
                    proof {
                        assert(items@.take(i + 1).drop_last() =~= items@.take(i as int));
                    }
                    pieces.push(piece);
                    proof {
                        assert(views_of(pieces@) =~= item_texts(
                            items@.take(i + 1),
                            depth + 1,
                        ));
                    }
                    i = i + 1;
                }
                assert(items@.take(items.len() as int) =~= items@);
                enclose("[", join_strings(&pieces, ", "), "]")
        },
        LogValue::Array(None) => err(),
        LogValue::Promise(p) => match p {
            Some(p) => match p {
                PromiseStatus::Pending => text_of("Promise(<pending>)"),
                PromiseStatus::Resolved => text_of("Promise(<resolved>)"),
                PromiseStatus::Rejected => text_of("Promise(<rejected>)"),
            },
            None => err(),
        },
        LogValue::Exception(m) => match m {
            Some(m) => enclose("Error<", m.clone(), ">"),
            None => err(),
        },
        LogValue::BigInt(t) => match t {
            Some(t) => t.clone(),
            None => err(),
        },
        LogValue::Object(Some(props)) => {
                let mut pieces: Vec<String> = Vec::new();
                let mut i: usize = 0;
                while i < props.len()
                    invariant
                        i <= props.len(),
                        depth <= MAX_DEPTH,
                        *v is Object,
                        v->Object_0 == Some(*props),
                        views_of(pieces@) == prop_texts(
                            props@.take(i as int),
                            depth + 1,
                        ),
                    decreases props.len() - i,
                {
                    let piece = match &props[i] {
                        Some(kv) => {
                            proof {
                                assert(decreases_to!(*v => (*v)->Object_0));
                                assert(decreases_to!((*v)->Object_0 => (*v)->Object_0->0));
                                assert(decreases_to!(*props => props@));
                                assert(decreases_to!(props@ => props@[i as int]));
                                assert(decreases_to!(props@[i as int] => *kv));
                                assert(decreases_to!(*kv => kv.0));
                                assert(decreases_to!(*kv => kv.1));
                            }
                            let k = log_v(&kv.0, true, depth + 1);
                            let val = log_v(&kv.1, true, depth + 1);
                            let mut p = k;
                            p.append(": ");
                            p.append(val.as_str());
                            p
                        },
                        None => err(),
                    };
                    proof {
                        assert(props@.take(i + 1).drop_last() =~= props@.take(i as int));
                    }
                    pieces.push(piece);
                    proof {
                        assert(views_of(pieces@) =~= prop_texts(
                            props@.take(i + 1),
                            depth + 1,
                        ));
                    }
                    i = i + 1;
                }
                assert(props@.take(props.len() as int) =~= props@);
                enclose("{", join_strings(&pieces, ", "), "}")
        },
        LogValue::Object(None) => err(),
        LogValue::Other(name) => name.clone(),
    }
}

/// The line that `console.log(args...)` prints: each argument rendered unquoted, separated by
/// spaces.
pub open spec fn log_line_text(args: Seq<LogValue>) -> Seq<char> {
    join(arg_texts(args), " "@)
}

/// Each argument rendered unquoted.
pub open spec fn arg_texts(args: Seq<LogValue>) -> Seq<Seq<char>> {
    Seq::new(args.len(), |i: int| value_text(args[i], false, 0))
}

/// Renders the arguments of `console.log` as one line (see `log_line_text`).
pub fn log_line(args: &Vec<LogValue>) -> (r: String)
    ensures
        r@ == log_line_text(args@),
{
    let mut pieces: Vec<String> = Vec::new();
    let mut i: usize = 0;
    while i < args.len()
        invariant
            i <= args.len(),
            pieces.len() == i,
            views_of(pieces@) == arg_texts(args@.take(i as int)),
        decreases args.len() - i,
    {
        let piece = log_v(&args[i], false, 0);
        let ghost before = pieces@;
        pieces.push(piece);
        proof {
            assert(pieces@ =~= before.push(piece));
            assert(args@.take(i + 1) =~= args@.take(i as int).push(args@[i as int]));
            assert forall|j: int| 0 <= j < i + 1 implies views_of(pieces@)[j] == arg_texts(
                args@.take(i + 1),
            )[j] by {
                if j < i {
                    assert(views_of(before)[j] == arg_texts(args@.take(i as int))[j]);
                    assert(pieces@[j] == before[j]);
                } else {
                    assert(pieces@[j] == piece);
                    assert(args@.take(i + 1)[j] == args@[i as int]);
                }
            }
            assert(views_of(pieces@) =~= arg_texts(args@.take(i + 1)));
        }
        i = i + 1;
    }
    assert(args@.take(args.len() as int) =~= args@);
    join_strings(&pieces, " ")
}

} // verus!
