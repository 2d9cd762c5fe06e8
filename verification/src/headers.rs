//! What may stand in an HTTP header.

use crate::text::{lowered, texts};
use vstd::prelude::*;
use vstd::string::*;

verus! {

/// Whether a byte of a header value is a printable ASCII character or a tab.
pub open spec fn visible_byte(b: u8) -> bool {
    32 <= b < 127 || b == 9
}

/// Whether a byte may stand in a header value: no control character but the
/// tab.
pub open spec fn value_byte(b: u8) -> bool {
    (b >= 32 && b != 127) || b == 9
}

/// Whether a byte string may be a header value.
pub open spec fn header_value(bytes: Seq<u8>) -> bool {
    forall|i: int| 0 <= i < bytes.len() ==> value_byte(#[trigger] bytes[i])
}

/// Whether a byte string is printable ASCII, with tabs.
pub open spec fn visible_ascii(bytes: Seq<u8>) -> bool {
    forall|i: int| 0 <= i < bytes.len() ==> visible_byte(#[trigger] bytes[i])
}

/// The `to_str` of `hyper`'s `HeaderValue`, made of the bytes: the value as a
/// text where every byte is printable ASCII or a tab, and nothing otherwise.
#[verifier::external_body]
pub(crate) fn header_text(bytes: &[u8]) -> (r: Option<String>)
    ensures
        match r {
            Some(s) => visible_ascii(bytes@) && s@ == bytes@.map_values(|b: u8| b as char),
            None => !visible_ascii(bytes@),
        },
{
    match hyper::header::HeaderValue::from_bytes(bytes) {
        Ok(value) => value.to_str().ok().map(|text| text.to_owned()),
        Err(_) => None,
    }
}

/// Whether `hyper`'s `HeaderValue::from_str` takes a text: where none of its
/// bytes is a control character other than the tab.
#[verifier::external_body]
pub(crate) fn is_header_value(text: &str) -> (r: bool)
    ensures
        r == header_value(text.spec_bytes()),
{
    hyper::header::HeaderValue::from_str(text).is_ok()
}

/// Whether a byte may stand in a header name: a letter, a digit, or one of the
/// fifteen marks that RFC 9110 calls token characters.
pub open spec fn name_byte(b: u8) -> bool {
    ||| 48 <= b <= 57
    ||| 65 <= b <= 90
    ||| 97 <= b <= 122
    ||| b == 33
    ||| 35 <= b <= 39
    ||| b == 42
    ||| b == 43
    ||| b == 45
    ||| b == 46
    ||| 94 <= b <= 96
    ||| b == 124
    ||| b == 126
}

/// Whether a text is a header name.
pub open spec fn header_name(bytes: Seq<u8>) -> bool {
    &&& 0 < bytes.len() <= 65_535
    &&& forall|i: int| 0 <= i < bytes.len() ==> name_byte(#[trigger] bytes[i])
}

/// `hyper`'s `HeaderName::from_bytes`, over the bytes of a text: it takes the
/// header names, gives them with their capitals made small, and complains of
/// every other text in the same words.
#[verifier::external_body]
pub(crate) fn parse_header_name(text: &str) -> (r: Result<String, String>)
    ensures
        match r {
            Ok(name) => header_name(text.spec_bytes()) && name@ == lowered(text@),
            Err(e) => !header_name(text.spec_bytes()) && e@ == "invalid HTTP header name"@,
        },
{
    match hyper::header::HeaderName::from_bytes(text.as_bytes()) {
        Ok(name) => Ok(name.as_str().to_owned()),
        Err(error) => Err(error.to_string()),
    }
}

/// The headers of a request, as `hyper` keeps them.
#[verifier::external_type_specification]
#[verifier::external_body]
#[verifier::reject_recursive_types(T)]
pub struct ExHeaderMap<T>(hyper::HeaderMap<T>);

/// The value of one header, as `hyper` keeps it.
#[verifier::external_type_specification]
#[verifier::external_body]
pub struct ExHeaderValue(hyper::header::HeaderValue);

/// What a header map holds: for each name in it, in small letters, the bytes of
/// the name's first value.
pub uninterp spec fn header_entries(map: hyper::HeaderMap<hyper::header::HeaderValue>) -> Map<
    Seq<char>,
    Seq<u8>,
>;

/// `hyper::HeaderMap::new`: a map with nothing in it.
#[verifier::external_body]
pub(crate) fn new_headers() -> (r: hyper::HeaderMap<hyper::header::HeaderValue>)
    ensures
        header_entries(r).dom() == Set::<Seq<char>>::empty(),
{
    hyper::HeaderMap::new()
}

/// `hyper::HeaderMap::insert` of a name and a value made from texts: the name,
/// in small letters, then has this value and no other. The map grows no larger
/// than 32 768 places and doubles when a fifth of them are taken at the
/// earliest, so that an insertion cannot panic while fewer than 6 553 names are
/// in it.
#[verifier::external_body]
pub(crate) fn insert_header(
    map: &mut hyper::HeaderMap<hyper::header::HeaderValue>,
    name: &str,
    value: &str,
)
    requires
        header_name(name.spec_bytes()),
        header_value(value.spec_bytes()),
        header_entries(*old(map)).dom().len() < 6_553,
    ensures
        header_entries(*final(map)) == header_entries(*old(map)).insert(
            lowered(name@),
            value.spec_bytes(),
        ),
{
    if let Ok(name) = hyper::header::HeaderName::from_bytes(name.as_bytes()) {
        if let Ok(value) = hyper::header::HeaderValue::from_str(value) {
            map.insert(name, value);
        }
    }
}

/// The names of `hyper::HeaderMap::keys`, in the order in which they come: each
/// name in the map once. The order is not documented, and nothing is said of it.
#[verifier::external_body]
pub(crate) fn header_names(map: &hyper::HeaderMap<hyper::header::HeaderValue>) -> (r: Vec<String>)
    ensures
        texts(r@).to_set() == header_entries(*map).dom(),
        texts(r@).no_duplicates(),
{
    map.keys().map(|name| name.as_str().to_owned()).collect()
}

/// A header's value holds no control byte but the tab.
pub proof fn a_value_has_no_control_byte(bytes: Seq<u8>)
    ensures
        header_value(bytes) <==> forall|i: int|
            0 <= i < bytes.len() ==> (#[trigger] bytes[i] == 9 || 32 <= bytes[i] <= 126
                || bytes[i] >= 128),
        visible_ascii(bytes) <==> forall|i: int|
            0 <= i < bytes.len() ==> (#[trigger] bytes[i] == 9 || 32 <= bytes[i] <= 126),
{
    if header_value(bytes) {
        assert forall|i: int| 0 <= i < bytes.len() implies (#[trigger] bytes[i] == 9 || 32
            <= bytes[i] <= 126 || bytes[i] >= 128) by {
            assert(value_byte(bytes[i]));
        }
    }
    if visible_ascii(bytes) {
        assert forall|i: int| 0 <= i < bytes.len() implies (#[trigger] bytes[i] == 9 || 32
            <= bytes[i] <= 126) by {
            assert(visible_byte(bytes[i]));
        }
    }
}

/// A header's name is made of letters, digits and these marks: ! # $ % & ' * + - .
/// ^ _ ` | ~. There is at least one of them and at most 65535.
pub proof fn a_name_is_made_of_token_bytes(bytes: Seq<u8>)
    ensures
        header_name(bytes) <==> 1 <= bytes.len() <= 65_535 && forall|i: int|
            0 <= i < bytes.len() ==> ({
                let b = #[trigger] bytes[i];
                ||| 'a' as u8 <= b <= 'z' as u8
                ||| 'A' as u8 <= b <= 'Z' as u8
                ||| '0' as u8 <= b <= '9' as u8
                ||| b == '!' as u8 || b == '#' as u8 || b == '$' as u8 || b == '%' as u8
                ||| b == '&' as u8 || b == '\'' as u8 || b == '*' as u8 || b == '+' as u8
                ||| b == '-' as u8 || b == '.' as u8 || b == '^' as u8 || b == '_' as u8
                ||| b == '`' as u8 || b == '|' as u8 || b == '~' as u8
            }),
{
    assert forall|b: u8| #[trigger] name_byte(b) == ({
        ||| 'a' as u8 <= b <= 'z' as u8
        ||| 'A' as u8 <= b <= 'Z' as u8
        ||| '0' as u8 <= b <= '9' as u8
        ||| b == '!' as u8 || b == '#' as u8 || b == '$' as u8 || b == '%' as u8
        ||| b == '&' as u8 || b == '\'' as u8 || b == '*' as u8 || b == '+' as u8
        ||| b == '-' as u8 || b == '.' as u8 || b == '^' as u8 || b == '_' as u8
        ||| b == '`' as u8 || b == '|' as u8 || b == '~' as u8
    }) by {}
    if header_name(bytes) {
        assert forall|i: int| 0 <= i < bytes.len() implies name_byte(#[trigger] bytes[i]) by {}
    }
}

} // verus!
