//! The `http` crate as this library sees it.
//!
//! Header maps, names and values, method tokens and status codes are the
//! `http` crate's. Nothing in this file is proved: each contract restates
//! what that crate's source does, and the rest of the library is verified
//! against these contracts.

use vstd::prelude::*;
use vstd::utf8::encode_utf8;
use http::header::HeaderMap;
use http::header::HeaderName;
use http::header::HeaderValue;

verus! {

#[verifier::external_type_specification]
#[verifier::external_body]
#[verifier::reject_recursive_types(T)]
pub struct ExHeaderMap<T>(http::header::HeaderMap<T>);

#[verifier::external_type_specification]
#[verifier::external_body]
pub struct ExHeaderName(http::header::HeaderName);

#[verifier::external_type_specification]
#[verifier::external_body]
pub struct ExHeaderValue(http::header::HeaderValue);

/// What a header map holds: for each name that is present, its values in
/// the order in which they were added, each as its bytes.
pub uninterp spec fn wire_fields(m: HeaderMap<HeaderValue>) -> Map<Seq<char>, Seq<Seq<u8>>>;

/// The text of a header name, as `HeaderName::as_str` gives it.
pub uninterp spec fn name_text(n: HeaderName) -> Seq<char>;

/// The bytes of a header value, as `HeaderValue::as_bytes` gives them.
pub uninterp spec fn value_bytes(v: HeaderValue) -> Seq<u8>;

/// The number of names that a header map holds, as `HeaderMap::keys_len`
/// gives it.
pub uninterp spec fn wire_count(m: HeaderMap<HeaderValue>) -> nat;

/// A header map that holds fewer names than this takes one more value,
/// however it was made: it refuses only when it would have to grow beyond
/// 32768 slots, which takes 6554 names or more.
pub open spec fn sure_room() -> nat {
    6554
}

/// The contents of a header map that holds nothing.
pub open spec fn no_fields() -> Map<Seq<char>, Seq<Seq<u8>>> {
    Map::empty()
}

/// The values that `fields` holds under `name`; none if the name is absent.
pub open spec fn values_of(fields: Map<Seq<char>, Seq<Seq<u8>>>, name: Seq<char>) -> Seq<Seq<u8>> {
    if fields.dom().contains(name) {
        fields[name]
    } else {
        Seq::empty()
    }
}

/// An ASCII letter or digit.
pub open spec fn is_alphanumeric(c: char) -> bool {
    ||| 'a' <= c <= 'z'
    ||| 'A' <= c <= 'Z'
    ||| '0' <= c <= '9'
}

/// A character that the `http` crate accepts in a method token.
pub open spec fn is_method_char(c: char) -> bool {
    ||| is_alphanumeric(c)
    ||| c == '!'
    ||| c == '*'
    ||| c == '+'
    ||| c == '-'
    ||| c == '.'
    ||| c == '^'
    ||| c == '_'
    ||| c == '`'
    ||| c == '|'
    ||| c == '~'
}

/// A method token: one or more method characters.
pub open spec fn is_method(s: Seq<char>) -> bool {
    &&& s.len() > 0
    &&& forall|i: int| 0 <= i < s.len() ==> is_method_char(#[trigger] s[i])
}

/// A character that the `http` crate accepts in a header name.
pub open spec fn is_name_char(c: char) -> bool {
    ||| is_alphanumeric(c)
    ||| c == '!'
    ||| c == '"'
    ||| c == '#'
    ||| c == '$'
    ||| c == '%'
    ||| c == '&'
    ||| c == '\''
    ||| c == '*'
    ||| c == '+'
    ||| c == '-'
    ||| c == '.'
    ||| c == '^'
    ||| c == '_'
    ||| c == '`'
    ||| c == '|'
    ||| c == '~'
}

/// A header name: between 1 and 65535 name characters.
pub open spec fn is_field_name(s: Seq<char>) -> bool {
    &&& 1 <= s.len() <= 65535
    &&& forall|i: int| 0 <= i < s.len() ==> is_name_char(#[trigger] s[i])
}

/// `c` with an ASCII capital letter replaced by its small letter.
pub open spec fn lower_char(c: char) -> char {
    if 'A' <= c <= 'Z' {
        ((c as u8) + 32) as char
    } else {
        c
    }
}

/// `s` with its ASCII capital letters replaced by small letters.
pub open spec fn lowercase(s: Seq<char>) -> Seq<char> {
    Seq::new(s.len(), |i: int| lower_char(s[i]))
}

/// `c` with an ASCII small letter replaced by its capital letter.
pub open spec fn upper_char(c: char) -> char {
    if 'a' <= c <= 'z' {
        ((c as u8) - 32) as char
    } else {
        c
    }
}

/// `s` with its ASCII small letters replaced by capital letters.
pub open spec fn uppercase(s: Seq<char>) -> Seq<char> {
    Seq::new(s.len(), |i: int| upper_char(s[i]))
}

/// A byte that a header value may hold: anything but a control character,
/// with the tab allowed.
pub open spec fn is_value_byte(b: u8) -> bool {
    (b >= 32 && b != 127) || b == 9
}

/// Bytes that make a header value.
pub open spec fn is_field_value(bytes: Seq<u8>) -> bool {
    forall|i: int| 0 <= i < bytes.len() ==> is_value_byte(#[trigger] bytes[i])
}

/// A byte of visible ASCII, or a tab.
pub open spec fn is_text_byte(b: u8) -> bool {
    (32 <= b < 127) || b == 9
}

/// Bytes that can be read as text: visible ASCII and tabs only.
pub open spec fn is_text(bytes: Seq<u8>) -> bool {
    forall|i: int| 0 <= i < bytes.len() ==> is_text_byte(#[trigger] bytes[i])
}

/// ASCII bytes as characters, one for one.
pub open spec fn ascii_chars(bytes: Seq<u8>) -> Seq<char> {
    Seq::new(bytes.len(), |i: int| bytes[i] as char)
}

/// `HeaderMap::new`: a map that holds nothing.
#[verifier::external_body]
pub(crate) fn wire_empty() -> (m: HeaderMap<HeaderValue>)
    ensures
        wire_fields(m) == no_fields(),
        wire_count(m) == 0,
{
    HeaderMap::new()
}

/// `HeaderMap::keys`: every name that is present, once, in the map's own
/// order.
#[verifier::external_body]
pub(crate) fn wire_names(m: &HeaderMap<HeaderValue>) -> (names: Vec<HeaderName>)
    ensures
        forall|i: int, j: int|
            0 <= i < j < names.len() ==> name_text(#[trigger] names[i]) != name_text(
                #[trigger] names[j],
            ),
        forall|i: int|
            0 <= i < names.len() ==> wire_fields(*m).dom().contains(
                name_text(#[trigger] names[i]),
            ),
        forall|n: Seq<char>|
            wire_fields(*m).dom().contains(n) ==> exists|i: int|
                0 <= i < names.len() && name_text(#[trigger] names[i]) == n,
{
    m.keys().cloned().collect()
}

/// `HeaderMap::get_all`: the values under a name, in the order in which they
/// were added; none if the name is absent.
#[verifier::external_body]
pub(crate) fn wire_values(m: &HeaderMap<HeaderValue>, name: &HeaderName) -> (values: Vec<
    HeaderValue,
>)
    ensures
        values.len() == values_of(wire_fields(*m), name_text(*name)).len(),
        forall|i: int|
            0 <= i < values.len() ==> value_bytes(#[trigger] values[i]) == values_of(
                wire_fields(*m),
                name_text(*name),
            )[i],
{
    m.get_all(name).iter().cloned().collect()
}

/// `HeaderMap::remove`: the name and all its values leave the map; the rest
/// stays. The map holds no more names than before.
#[verifier::external_body]
pub(crate) fn wire_remove(m: &mut HeaderMap<HeaderValue>, name: &HeaderName)
    ensures
        wire_fields(*final(m)) == wire_fields(*old(m)).remove(name_text(*name)),
        wire_count(*final(m)) <= wire_count(*old(m)),
{
    m.remove(name);
}

/// `HeaderMap::try_append`: the value is added after those that the name
/// already has, or the map refuses it for want of room and stays as it was.
/// The map holds at most one name more than before. A map with fewer than
/// `sure_room()` names does not refuse.
#[verifier::external_body]
pub(crate) fn wire_append(m: &mut HeaderMap<HeaderValue>, name: &HeaderName, value: HeaderValue) -> (stored:
    bool)
    ensures
        stored ==> wire_fields(*final(m)) == wire_fields(*old(m)).insert(
            name_text(*name),
            values_of(wire_fields(*old(m)), name_text(*name)).push(value_bytes(value)),
        ),
        !stored ==> wire_fields(*final(m)) == wire_fields(*old(m)),
        wire_count(*final(m)) <= wire_count(*old(m)) + 1,
        wire_count(*old(m)) < sure_room() ==> stored,
{
    m.try_append(name, value).is_ok()
}

/// `HeaderName::from_bytes`: a name is accepted if it has between 1 and
/// 65535 characters, all of them name characters; the name made of it is in
/// lower case.
#[verifier::external_body]
pub(crate) fn parse_name(text: &str) -> (name: Option<HeaderName>)
    ensures
        name is Some <==> is_field_name(text@),
        name matches Some(n) ==> name_text(n) == lowercase(text@),
{
    HeaderName::from_bytes(text.as_bytes()).ok()
}

/// `HeaderName::as_str`: the text of the name, which is in lower case.
#[verifier::external_body]
pub(crate) fn name_string(name: &HeaderName) -> (text: String)
    ensures
        text@ == name_text(*name),
        lowercase(text@) == text@,
{
    name.as_str().to_string()
}

/// `HeaderValue::try_from` of a `String`: a value is accepted if none of
/// its bytes is a control character other than the tab; the value holds
/// the string's bytes.
#[verifier::external_body]
pub(crate) fn parse_value(text: String) -> (value: Option<HeaderValue>)
    ensures
        value is Some <==> is_field_value(encode_utf8(text@)),
        value matches Some(v) ==> value_bytes(v) == encode_utf8(text@),
{
    HeaderValue::try_from(text).ok()
}

/// `HeaderValue::to_str`: the value as text, if all its bytes are visible
/// ASCII or tabs.
#[verifier::external_body]
pub(crate) fn value_text(value: &HeaderValue) -> (text: Option<String>)
    ensures
        text is Some <==> is_text(value_bytes(*value)),
        text matches Some(s) ==> s@ == ascii_chars(value_bytes(*value)),
{
    match value.to_str() {
        Ok(s) => Some(s.to_string()),
        Err(_) => None,
    }
}

/// `Method::try_from` of a `&str`: whether the `http` crate takes the token
/// for a method, which it does for any non-empty run of method characters.
#[verifier::external_body]
pub(crate) fn parses_as_method(token: &str) -> (yes: bool)
    ensures
        yes == is_method(token@),
{
    http::Method::try_from(token).is_ok()
}

/// `StatusCode::from_u16`: whether the `http` crate takes the number for a
/// status code, which it does from 100 to 999.
#[verifier::external_body]
pub(crate) fn parses_as_status(code: u16) -> (yes: bool)
    ensures
        yes == (100 <= code < 1000),
{
    http::StatusCode::from_u16(code).is_ok()
}

/// `str::to_ascii_uppercase`: a copy with each ASCII small letter replaced
/// by its capital letter.
#[verifier::external_body]
pub(crate) fn to_uppercase(text: &str) -> (upper: String)
    ensures
        upper@ == uppercase(text@),
{
    text.to_ascii_uppercase()
}

} // verus!
