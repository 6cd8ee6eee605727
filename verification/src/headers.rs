//! Looking a request header up by name and reading its value as text.
//!
//! The header collection is the one of the `http` crate, as `axum` hands it
//! to a handler. It keeps every field name in lower case, so that a lookup
//! does not depend on the case a client wrote the name in, and shows one
//! value per name: the first that was stored under it.
//!
//! A header value is bytes, and a client may send any. Every value is read as
//! text all the same, one character for each byte, so that no request is
//! turned away for what a header holds.

use axum::http::{HeaderMap, HeaderValue};
use vstd::prelude::*;
use vstd::string::{is_ascii, StringSliceAdditionalSpecFns};

verus! {

/// `http::HeaderMap`, the header collection of a request. Nothing is known
/// of what is inside one but through [`header_fields`].
#[verifier::external_type_specification]
#[verifier::external_body]
#[verifier::reject_recursive_types(T)]
pub struct ExHeaderMap<T>(HeaderMap<T>);

/// `http::HeaderValue`, the value of one header. Nothing is known of what is
/// inside one but through [`value_bytes`].
#[verifier::external_type_specification]
#[verifier::external_body]
pub struct ExHeaderValue(HeaderValue);

/// What a header collection holds: under each field name, spelled in lower
/// case as `HeaderName::as_str` gives it, the bytes of the first value stored
/// for that name.
pub uninterp spec fn header_fields(headers: HeaderMap<HeaderValue>) -> Map<Seq<char>, Seq<u8>>;

/// The bytes of a header value, as `HeaderValue::as_bytes` gives them.
pub uninterp spec fn value_bytes(value: HeaderValue) -> Seq<u8>;

/// The text that `bytes` spell, one character for each byte: the character
/// whose code point is the byte. ASCII bytes spell themselves.
pub open spec fn text_of(bytes: Seq<u8>) -> Seq<char> {
    Seq::new(bytes.len(), |i: int| bytes[i] as char)
}

/// A character of a plain field name: a lower-case letter, a digit or a
/// hyphen.
pub open spec fn is_plain_char(c: char) -> bool {
    'a' <= c <= 'z' || '0' <= c <= '9' || c == '-'
}

/// A field name that is its own lower-case spelling and valid whatever the
/// collection's rules for names: at least one and at most 64 plain
/// characters.
pub open spec fn is_plain_name(name: Seq<char>) -> bool {
    &&& 1 <= name.len() <= 64
    &&& forall|i: int| 0 <= i < name.len() ==> is_plain_char(#[trigger] name[i])
}

/// The text that `headers` shows under `name`, a field name in lower case;
/// `None` where it holds no field of that name.
pub open spec fn shown(headers: HeaderMap<HeaderValue>, name: Seq<char>) -> Option<Seq<char>> {
    if header_fields(headers).contains_key(name) {
        Some(text_of(header_fields(headers)[name]))
    } else {
        None
    }
}

/// `HeaderMap::get`, called with the name as text. The collection compares
/// names in lower case, and a plain name is already spelled so: the call
/// returns the first value stored under `name`, or `None` where the
/// collection holds no field of that name.
#[verifier::external_body]
fn first_value<'a>(headers: &'a HeaderMap, name: &str) -> (r: Option<&'a HeaderValue>)
    requires
        is_plain_name(name@),
    ensures
        r is Some <==> header_fields(*headers).contains_key(name@),
        r matches Some(v) ==> value_bytes(*v) == header_fields(*headers)[name@],
{
    headers.get(name)
}

/// `HeaderValue::as_bytes`: the bytes of the value, as they are.
#[verifier::external_body]
fn value_slice<'a>(value: &'a HeaderValue) -> (r: &'a [u8])
    ensures
        r@ == value_bytes(*value),
{
    value.as_bytes()
}

/// Reads `bytes` as text, one character for each byte.
pub fn bytes_to_text(bytes: &[u8]) -> (r: String)
    ensures
        r@ == text_of(bytes@),
{
    let mut out = String::new();
    let mut i: usize = 0;
    while i < bytes.len()
        invariant
            i <= bytes.len(),
            out@ == text_of(bytes@.take(i as int)),
        decreases bytes.len() - i,
    {
        out.push(bytes[i] as char);
        i += 1;
        assert(out@ =~= text_of(bytes@.take(i as int)));
    }
    assert(bytes@.take(bytes.len() as int) =~= bytes@);
    out
}

/// Looks the field `name` up in `headers` and reads its value as text.
pub fn lookup(headers: &HeaderMap, name: &str) -> (r: Option<String>)
    requires
        is_plain_name(name@),
    ensures
        r is Some <==> shown(*headers, name@) is Some,
        r matches Some(text) ==> Some(text@) == shown(*headers, name@),
{
    match first_value(headers, name) {
        Some(value) => Some(bytes_to_text(value_slice(value))),
        None => None,
    }
}

/// The bytes of ASCII text read back as that text: a header value sent as
/// ASCII is shown as it was written.
pub proof fn lemma_ascii_reads_back(s: &str)
    requires
        is_ascii(s),
    ensures
        text_of(s.spec_bytes()) == s@,
{
    vstd::string::is_ascii_spec_bytes(s);
    assert(text_of(s.spec_bytes()) =~= s@);
}

} // verus!
