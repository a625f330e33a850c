//! The `Headers` object of `fetch`: a multimap from header names to values,
//! kept in the `http` crate's `HeaderMap`.
//!
//! The map's contents are named (`header_contents`: each normalized name to
//! its values in insertion order) and every method's contract says how it
//! changes or reads them. The order in which the map yields its entries is
//! the crate's own and is named too (`header_iteration`).
use vstd::prelude::*;
use vstd::utf8::{decode_utf8, encode_utf8, encode_utf8_decode_utf8, encode_utf8_valid_utf8, valid_utf8};
use reqwest::header::{HeaderMap, HeaderName, HeaderValue};

verus! {

#[verifier::external_type_specification]
#[verifier::external_body]
#[verifier::reject_recursive_types(T)]
pub struct ExHeaderMap<T>(HeaderMap<T>);

#[verifier::external_type_specification]
#[verifier::external_body]
pub struct ExHeaderValue(HeaderValue);

/// The header map that `reqwest` uses.
pub type HeaderStore = HeaderMap<HeaderValue>;

// ---------------------------------------------------------------- names and values
/// A token character of HTTP (RFC 9110), which header names and methods are made of.
pub open spec fn is_tchar(b: u8) -> bool {
    ||| 97 <= b <= 122
    ||| 65 <= b <= 90
    ||| 48 <= b <= 57
    ||| b == 33 || b == 35 || b == 36 || b == 37 || b == 38 || b == 39 || b == 42 || b == 43
    ||| b == 45 || b == 46 || b == 94 || b == 95 || b == 96 || b == 124 || b == 126
}

/// ASCII upper case to lower case.
pub open spec fn lower_byte(b: u8) -> u8 {
    if 65 <= b <= 90 {
        (b + 32) as u8
    } else {
        b
    }
}

/// The bytes `HeaderName::from_bytes` accepts: 1 to 65535 token characters.
pub open spec fn is_valid_header_name(b: Seq<u8>) -> bool {
    1 <= b.len() <= 65535 && forall|i: int| 0 <= i < b.len() ==> is_tchar(#[trigger] b[i])
}

/// The bytes a `HeaderValue` may hold: visible characters, spaces, tabs and bytes from 0x80 on.
pub open spec fn is_valid_header_value(b: Seq<u8>) -> bool {
    forall|i: int| 0 <= i < b.len() ==> ((#[trigger] b[i] >= 32 && b[i] != 127) || b[i] == 9)
}

/// The key a header name is stored under: its bytes in lower case.
pub open spec fn header_key(name: Seq<char>) -> Seq<u8> {
    encode_utf8(name).map_values(|b: u8| lower_byte(b))
}

/// ASCII bytes as characters.
pub open spec fn ascii_text(b: Seq<u8>) -> Seq<char> {
    Seq::new(b.len(), |i: int| b[i] as char)
}

/// The values of `key`, or none.
pub open spec fn values_of(m: Map<Seq<u8>, Seq<Seq<u8>>>, key: Seq<u8>) -> Seq<Seq<u8>> {
    if m.contains_key(key) {
        m[key]
    } else {
        seq![]
    }
}

/// The values that entries of `it` hold under `key`, in order.
pub open spec fn iteration_values(it: Seq<(Seq<u8>, Seq<u8>)>, key: Seq<u8>) -> Seq<Seq<u8>>
    decreases it.len(),
{
    if it.len() == 0 {
        seq![]
    } else if it.last().0 == key {
        iteration_values(it.drop_last(), key).push(it.last().1)
    } else {
        iteration_values(it.drop_last(), key)
    }
}

/// An iteration of a map yields every key once per value, and each key's values in their order.
pub open spec fn iteration_agrees(it: Seq<(Seq<u8>, Seq<u8>)>, m: Map<Seq<u8>, Seq<Seq<u8>>>) -> bool {
    forall|key: Seq<u8>| #[trigger] iteration_values(it, key) == values_of(m, key)
}

/// The keys of an iteration, each once, in the order they first appear.
pub open spec fn distinct_keys(it: Seq<(Seq<u8>, Seq<u8>)>) -> Seq<Seq<u8>>
    decreases it.len(),
{
    if it.len() == 0 {
        seq![]
    } else if distinct_keys(it.drop_last()).contains(it.last().0) {
        distinct_keys(it.drop_last())
    } else {
        distinct_keys(it.drop_last()).push(it.last().0)
    }
}

/// No headers.
pub open spec fn no_headers() -> Map<Seq<u8>, Seq<Seq<u8>>> {
    Map::empty()
}

/// What a header map holds: each key (a lower-case name) with its values in insertion order.
pub uninterp spec fn header_contents(m: HeaderStore) -> Map<Seq<u8>, Seq<Seq<u8>>>;

/// The (key, value) pairs in the order the map yields them; `HeaderMap` documents that order as
/// arbitrary, so only `iteration_agrees` is stated of it.
pub uninterp spec fn header_iteration(m: HeaderStore) -> Seq<(Seq<u8>, Seq<u8>)>;

/// The text that `String::from_utf8_lossy` makes of bytes.
pub uninterp spec fn utf8_lossy(b: Seq<u8>) -> Seq<char>;

/// `r` lists the map's pairs in its iteration order, as (name, value read as text); the iteration
/// yields each key once per value, its values in their order.
pub open spec fn lists_entries(r: Seq<(String, String)>, it: Seq<(Seq<u8>, Seq<u8>)>, contents: Map<Seq<u8>, Seq<Seq<u8>>>) -> bool {
    &&& r.len() == it.len()
    &&& iteration_agrees(it, contents)
    &&& forall|i: int|
        0 <= i < r.len() ==> #[trigger] r[i].0@ == ascii_text(it[i].0)
            && r[i].1@ == utf8_lossy(it[i].1)
}

/// `r` lists the map's keys, each once, in the order of its iteration.
pub open spec fn lists_keys(r: Seq<String>, it: Seq<(Seq<u8>, Seq<u8>)>, contents: Map<Seq<u8>, Seq<Seq<u8>>>) -> bool {
    &&& r.len() == distinct_keys(it).len()
    &&& iteration_agrees(it, contents)
    &&& forall|i: int|
        0 <= i < r.len() ==> #[trigger] r[i]@ == ascii_text(distinct_keys(it)[i])
}

/// `r` lists the map's values (read as text) in the order of its iteration.
pub open spec fn lists_values(r: Seq<String>, it: Seq<(Seq<u8>, Seq<u8>)>, contents: Map<Seq<u8>, Seq<Seq<u8>>>) -> bool {
    &&& r.len() == it.len()
    &&& iteration_agrees(it, contents)
    &&& forall|i: int| 0 <= i < r.len() ==> #[trigger] r[i]@ == utf8_lossy(it[i].1)
}

/// The number of names up to which a header map always has room for one more entry: a map has
/// at most 2^15 slots, and can fail to grow only once more than a fifth of them hold names.
pub const MAX_NAMES_SURE: usize = 6553;

/// A map with at most `MAX_NAMES_SURE` names, to which an entry can always be added.
pub open spec fn has_room(m: Map<Seq<u8>, Seq<Seq<u8>>>) -> bool {
    m.dom().finite() && m.dom().len() <= MAX_NAMES_SURE
}

/// `HeaderMap::new`: an empty map.
#[verifier::external_body]
fn header_map_new() -> (r: HeaderStore)
    ensures
        header_contents(r) == no_headers(),
{
    HeaderMap::new()
}

/// `HeaderName::from_bytes(name).is_ok()`.
#[verifier::external_body]
fn header_name_accepts(name: &str) -> (r: bool)
    ensures
        r == is_valid_header_name(encode_utf8(name@)),
{
    HeaderName::from_bytes(name.as_bytes()).is_ok()
}

/// `HeaderValue::try_from(value).is_ok()`.
#[verifier::external_body]
fn header_value_accepts(value: &str) -> (r: bool)
    ensures
        r == is_valid_header_value(encode_utf8(value@)),
{
    HeaderValue::try_from(value.to_string()).is_ok()
}

/// `HeaderMap::try_append`: adds a value after the key's other values. It fails (and the map
/// keeps its contents) only where the map would have to grow past its maximum size, which takes
/// more than `MAX_NAMES_SURE` names; at which count from there on depends on the map's allocation.
#[verifier::external_body]
fn header_map_append(m: &mut HeaderStore, name: &str, value: &str) -> (r: bool)
    requires
        is_valid_header_name(encode_utf8(name@)),
        is_valid_header_value(encode_utf8(value@)),
    ensures
        r ==> header_contents(*final(m)) == header_contents(*old(m)).insert(
            header_key(name@),
            values_of(header_contents(*old(m)), header_key(name@)).push(encode_utf8(value@)),
        ),
        !r ==> header_contents(*final(m)) == header_contents(*old(m)),
        has_room(header_contents(*old(m))) ==> r,
{
    let key = HeaderName::from_bytes(name.as_bytes()).unwrap();
    m.try_append(key, HeaderValue::try_from(value.to_string()).unwrap()).is_ok()
}

/// `HeaderMap::try_insert`: the value replaces all values of the key. It fails (and the map
/// keeps its contents) only where the map would have to grow past its maximum size, which takes
/// more than `MAX_NAMES_SURE` names; at which count from there on depends on the map's allocation.
#[verifier::external_body]
fn header_map_insert(m: &mut HeaderStore, name: &str, value: &str) -> (r: bool)
    requires
        is_valid_header_name(encode_utf8(name@)),
        is_valid_header_value(encode_utf8(value@)),
    ensures
        r ==> header_contents(*final(m)) == header_contents(*old(m)).insert(
            header_key(name@),
            seq![encode_utf8(value@)],
        ),
        !r ==> header_contents(*final(m)) == header_contents(*old(m)),
        has_room(header_contents(*old(m))) ==> r,
{
    let key = HeaderName::from_bytes(name.as_bytes()).unwrap();
    m.try_insert(key, HeaderValue::try_from(value.to_string()).unwrap()).is_ok()
}

/// `HeaderMap::remove`: the key and all its values go.
#[verifier::external_body]
fn header_map_remove(m: &mut HeaderStore, name: &str)
    requires
        is_valid_header_name(encode_utf8(name@)),
    ensures
        header_contents(*final(m)) == header_contents(*old(m)).remove(header_key(name@)),
{
    m.remove(HeaderName::from_bytes(name.as_bytes()).unwrap());
}

/// `HeaderMap::get` with a string key (an invalid name finds nothing), the first value read with
/// `String::from_utf8_lossy`, which reads valid UTF-8 as it is.
#[verifier::external_body]
fn header_map_get(m: &HeaderStore, name: &str) -> (r: Option<String>)
    ensures
        r is Some <==> (is_valid_header_name(encode_utf8(name@)) && header_contents(*m).contains_key(header_key(name@))),
        r matches Some(t) ==> t@ == utf8_lossy(header_contents(*m)[header_key(name@)][0]) && (
        valid_utf8(header_contents(*m)[header_key(name@)][0]) ==> t@ == decode_utf8(
            header_contents(*m)[header_key(name@)][0],
        )),
{
    m.get(name).map(|v| String::from_utf8_lossy(v.as_bytes()).to_string())
}

/// `HeaderMap::contains_key` with a string key (an invalid name is not contained).
#[verifier::external_body]
fn header_map_contains(m: &HeaderStore, name: &str) -> (r: bool)
    ensures
        r == (is_valid_header_name(encode_utf8(name@)) && header_contents(*m).contains_key(
            header_key(name@),
        )),
{
    m.contains_key(name)
}

/// `HeaderMap::iter`, each pair as (name, value read with `String::from_utf8_lossy`).
#[verifier::external_body]
fn header_map_entries(m: &HeaderStore) -> (r: Vec<(String, String)>)
    ensures
        lists_entries(r@, header_iteration(*m), header_contents(*m)),
{
    m.iter().map(|(k, v)| (k.to_string(), String::from_utf8_lossy(v.as_bytes()).to_string())).collect()
}

/// `HeaderMap::keys`: each key once, in the order of the map's iteration.
#[verifier::external_body]
fn header_map_keys(m: &HeaderStore) -> (r: Vec<String>)
    ensures
        lists_keys(r@, header_iteration(*m), header_contents(*m)),
{
    m.keys().map(|k| k.to_string()).collect()
}

/// `HeaderMap::values`: every value in the order of the map's iteration, read with
/// `String::from_utf8_lossy`.
#[verifier::external_body]
fn header_map_values(m: &HeaderStore) -> (r: Vec<String>)
    ensures
        lists_values(r@, header_iteration(*m), header_contents(*m)),
{
    m.values().map(|v| String::from_utf8_lossy(v.as_bytes()).to_string()).collect()
}

// ---------------------------------------------------------------- Headers
/// Why a header could not be stored.
#[derive(Clone, Copy, Debug, PartialEq, Eq)]
pub enum HeaderError {
    InvalidName,
    InvalidValue,
    /// The header map cannot grow to hold another entry.
    TooManyHeaders,
}

impl HeaderError {
    /// The message a JavaScript exception carries for this error.
    pub fn message(&self) -> (r: &'static str)
        ensures
            *self == HeaderError::InvalidName ==> r@ == "Invalid Header Name"@,
            *self == HeaderError::InvalidValue ==> r@ == "Invalid Header Value"@,
            *self == HeaderError::TooManyHeaders ==> r@ == "Too Many Headers"@,
    {
        match self {
            HeaderError::InvalidName => "Invalid Header Name",
            HeaderError::InvalidValue => "Invalid Header Value",
            HeaderError::TooManyHeaders => "Too Many Headers",
        }
    }
}

/// JavaScript `Headers`.
pub struct FetchHeaders {
    headers: HeaderStore,
}

impl View for FetchHeaders {
    type V = Map<Seq<u8>, Seq<Seq<u8>>>;

    closed spec fn view(&self) -> Map<Seq<u8>, Seq<Seq<u8>>> {
        header_contents(self.headers)
    }
}

/// The result of storing a header: for a valid name and value, `Ok` with the headers changed by
/// `change`, or `TooManyHeaders` with nothing changed where the map is full; else the error for
/// the first thing that is invalid, and nothing changes.
pub open spec fn store_outcome(
    r: Result<(), HeaderError>,
    old: Map<Seq<u8>, Seq<Seq<u8>>>,
    new: Map<Seq<u8>, Seq<Seq<u8>>>,
    name: Seq<char>,
    value: Seq<char>,
    changed: Map<Seq<u8>, Seq<Seq<u8>>>,
) -> bool {
    if !is_valid_header_name(encode_utf8(name)) {
        r == Err::<(), HeaderError>(HeaderError::InvalidName) && new == old
    } else if !is_valid_header_value(encode_utf8(value)) {
        r == Err::<(), HeaderError>(HeaderError::InvalidValue) && new == old
    } else {
        ||| r == Ok::<(), HeaderError>(()) && new == changed
        ||| r == Err::<(), HeaderError>(HeaderError::TooManyHeaders) && new == old
    }
}

impl FetchHeaders {
    /// The order in which the headers are listed.
    pub closed spec fn iteration(&self) -> Seq<(Seq<u8>, Seq<u8>)> {
        header_iteration(self.headers)
    }

    /// `new Headers()`: no headers.
    pub fn new() -> (r: FetchHeaders)
        ensures
            r@ == Map::<Seq<u8>, Seq<Seq<u8>>>::empty(),
    {
        FetchHeaders { headers: header_map_new() }
    }

    /// The headers of a response.
    pub fn from_map(headers: HeaderStore) -> (r: FetchHeaders)
        ensures
            r@ == header_contents(headers),
    {
        FetchHeaders { headers }
    }

    /// The header map, to hand to the host.
    pub fn into_map(self) -> (r: HeaderStore)
        ensures
            header_contents(r) == self@,
    {
        self.headers
    }

    /// `append(name, value)`: adds a value after the name's other values.
    pub fn append(&mut self, name: String, value: String) -> (r: Result<(), HeaderError>)
        ensures
            store_outcome(
                r,
                old(self)@,
                final(self)@,
                name@,
                value@,
                old(self)@.insert(
                    header_key(name@),
                    values_of(old(self)@, header_key(name@)).push(encode_utf8(value@)),
                ),
            ),
            has_room(old(self)@) && is_valid_header_name(encode_utf8(name@)) && is_valid_header_value(
                encode_utf8(value@),
            ) ==> r is Ok,
    {
        if !header_name_accepts(name.as_str()) {
            return Err(HeaderError::InvalidName);
        }
        if !header_value_accepts(value.as_str()) {
            return Err(HeaderError::InvalidValue);
        }
        if header_map_append(&mut self.headers, name.as_str(), value.as_str()) {
            Ok(())
        } else {
            Err(HeaderError::TooManyHeaders)
        }
    }

    /// `delete(name)`: removes the name and all its values.
    pub fn delete(&mut self, name: String) -> (r: Result<(), HeaderError>)
        ensures
            is_valid_header_name(encode_utf8(name@)) ==> r == Ok::<(), HeaderError>(())
                && final(self)@ == old(self)@.remove(header_key(name@)),
            !is_valid_header_name(encode_utf8(name@)) ==> r == Err::<(), HeaderError>(HeaderError::InvalidName)
                && final(self)@ == old(self)@,
    {
        if !header_name_accepts(name.as_str()) {
            return Err(HeaderError::InvalidName);
        }
        header_map_remove(&mut self.headers, name.as_str());
        Ok(())
    }

    /// `entries()`: (name, value) pairs, one per value, names in lower case.
    pub fn entries(&mut self) -> (r: Vec<(String, String)>)
        ensures
            final(self)@ == old(self)@,
            lists_entries(r@, old(self).iteration(), old(self)@),
    {
        header_map_entries(&self.headers)
    }

    /// `get(name)`: the first value of the name, if it has one.
    pub fn get(&self, name: String) -> (r: Option<String>)
        ensures
            r is Some <==> is_valid_header_name(encode_utf8(name@)) && self@.contains_key(
                header_key(name@),
            ),
            r matches Some(t) ==> t@ == utf8_lossy(self@[header_key(name@)][0]) && (valid_utf8(
                self@[header_key(name@)][0],
            ) ==> t@ == decode_utf8(self@[header_key(name@)][0])),
    {
        header_map_get(&self.headers, name.as_str())
    }

    /// `has(name)`: whether the name has a value.
    pub fn has(&self, name: String) -> (r: bool)
        ensures
            r == (is_valid_header_name(encode_utf8(name@)) && self@.contains_key(header_key(name@))),
    {
        header_map_contains(&self.headers, name.as_str())
    }

    /// `keys()`: each name once, in lower case.
    pub fn keys(&mut self) -> (r: Vec<String>)
        ensures
            final(self)@ == old(self)@,
            lists_keys(r@, old(self).iteration(), old(self)@),
    {
        header_map_keys(&self.headers)
    }

    /// `set(name, value)`: the value replaces all values of the name.
    pub fn set(&mut self, name: String, value: String) -> (r: Result<(), HeaderError>)
        ensures
            store_outcome(
                r,
                old(self)@,
                final(self)@,
                name@,
                value@,
                old(self)@.insert(header_key(name@), seq![encode_utf8(value@)]),
            ),
            has_room(old(self)@) && is_valid_header_name(encode_utf8(name@)) && is_valid_header_value(
                encode_utf8(value@),
            ) ==> r is Ok,
    {
        if !header_name_accepts(name.as_str()) {
            return Err(HeaderError::InvalidName);
        }
        if !header_value_accepts(value.as_str()) {
            return Err(HeaderError::InvalidValue);
        }
        if header_map_insert(&mut self.headers, name.as_str(), value.as_str()) {
            Ok(())
        } else {
            Err(HeaderError::TooManyHeaders)
        }
    }

    /// `values()`: every value, read as text.
    pub fn values(&mut self) -> (r: Vec<String>)
        ensures
            final(self)@ == old(self)@,
            lists_values(r@, old(self).iteration(), old(self)@),
    {
        header_map_values(&self.headers)
    }
}

/// After `set(name, value)` succeeds, `get(name)` gives back exactly `value`, and `has(name)`
/// holds.
pub proof fn set_then_get(old: Map<Seq<u8>, Seq<Seq<u8>>>, new: Map<Seq<u8>, Seq<Seq<u8>>>, name: Seq<char>, value: Seq<char>)
    requires
        store_outcome(
            Ok(()),
            old,
            new,
            name,
            value,
            old.insert(header_key(name), seq![encode_utf8(value)]),
        ),
    ensures
        new.contains_key(header_key(name)),
        valid_utf8(new[header_key(name)][0]),
        decode_utf8(new[header_key(name)][0]) == value,
        new[header_key(name)].len() == 1,
{
    encode_utf8_valid_utf8(value);
    encode_utf8_decode_utf8(value);
}

/// After `append(name, value)` succeeds the name holds its earlier values followed by `value`.
pub proof fn append_keeps_earlier_values(old: Map<Seq<u8>, Seq<Seq<u8>>>, new: Map<Seq<u8>, Seq<Seq<u8>>>, name: Seq<char>, value: Seq<char>)
    requires
        store_outcome(
            Ok(()),
            old,
            new,
            name,
            value,
            old.insert(
                header_key(name),
                values_of(old, header_key(name)).push(encode_utf8(value)),
            ),
        ),
    ensures
        new[header_key(name)].drop_last() == values_of(old, header_key(name)),
        decode_utf8(new[header_key(name)].last()) == value,
        forall|k: Seq<u8>| k != header_key(name) ==> values_of(new, k) == values_of(old, k),
{
    encode_utf8_valid_utf8(value);
    encode_utf8_decode_utf8(value);
    assert(new[header_key(name)].drop_last() =~= values_of(old, header_key(name)));
}

/// After `delete(name)` succeeds the name has no value, and other names keep theirs.
pub proof fn delete_then_absent(old: Map<Seq<u8>, Seq<Seq<u8>>>, new: Map<Seq<u8>, Seq<Seq<u8>>>, name: Seq<char>)
    requires
        is_valid_header_name(encode_utf8(name)),
        new == old.remove(header_key(name)),
    ensures
        !new.contains_key(header_key(name)),
        forall|k: Seq<u8>| k != header_key(name) ==> values_of(new, k) == values_of(old, k),
{
}

} // verus!
