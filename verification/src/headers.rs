//! Header fields, kept in `http::HeaderMap`.
use http::header::{HeaderMap, HeaderName, HeaderValue};
use vstd::prelude::*;
use vstd::utf8::{encode_utf8, is_ascii_chars, is_ascii_chars_encode_utf8};

verus! {

/// `http::HeaderMap`, carried through as it is.
#[verifier::external_type_specification]
#[verifier::external_body]
#[verifier::reject_recursive_types(T)]
pub struct ExHeaderMap<T>(HeaderMap<T>);

/// `http::HeaderValue`, carried through as it is.
#[verifier::external_type_specification]
#[verifier::external_body]
pub struct ExHeaderValue(HeaderValue);

/// `http::header::InvalidHeaderName`, carried through as it is.
#[verifier::external_type_specification]
#[verifier::external_body]
pub struct ExInvalidHeaderName(http::header::InvalidHeaderName);

/// `http::header::InvalidHeaderValue`, carried through as it is.
#[verifier::external_type_specification]
#[verifier::external_body]
pub struct ExInvalidHeaderValue(http::header::InvalidHeaderValue);

/// `http::header::ToStrError`, carried through as it is.
#[verifier::external_type_specification]
#[verifier::external_body]
pub struct ExToStrError(http::header::ToStrError);

/// `http::header::MaxSizeReached`, carried through as it is.
#[verifier::external_type_specification]
#[verifier::external_body]
pub struct ExMaxSizeReached(http::header::MaxSizeReached);

/// The fields of a header: for each name, in small letters, its values, the oldest first.
pub uninterp spec fn fields(headers: HeaderMap<HeaderValue>) -> Map<Seq<char>, Seq<Seq<u8>>>;

/// How many names a header holds at least before it can refuse a new one.
pub open spec fn room() -> int {
    6554
}

/// The byte that stands for `b` in the name of a field: itself, or the small letter of a capital
/// one. `None` where `b` cannot stand in a name.
pub open spec fn name_byte(b: u8) -> Option<u8> {
    if 65 <= b <= 90 {
        Some((b + 32) as u8)
    } else if 97 <= b <= 122 || 48 <= b <= 57 || b == 33 || 35 <= b <= 39 || b == 42 || b == 43 || b == 45 || b == 46
        || 94 <= b <= 96 || b == 124 || b == 126 {
        Some(b)
    } else {
        None
    }
}

/// The name of a field that `bytes` write, in small letters.
pub open spec fn field_name(bytes: Seq<u8>) -> Option<Seq<char>> {
    if 1 <= bytes.len() <= 65535 && (forall|i: int| 0 <= i < bytes.len() ==> name_byte(#[trigger] bytes[i]) is Some) {
        Some(Seq::new(bytes.len(), |i: int| name_byte(bytes[i])->0 as char))
    } else {
        None
    }
}

/// `name` is the name of a field, in small letters.
pub open spec fn is_name(name: Seq<char>) -> bool {
    field_name(encode_utf8(name)) == Some(name)
}

/// `bytes` can be the value of a field.
pub open spec fn is_value(bytes: Seq<u8>) -> bool {
    forall|i: int| 0 <= i < bytes.len() ==> (32 <= #[trigger] bytes[i] && bytes[i] != 127) || bytes[i] == 9
}

/// The text of a value that holds visible ASCII characters, spaces and tabs alone.
pub open spec fn visible_text(bytes: Seq<u8>) -> Option<Seq<char>> {
    if forall|i: int| 0 <= i < bytes.len() ==> 32 <= #[trigger] bytes[i] < 127 || bytes[i] == 9 {
        Some(Seq::new(bytes.len(), |i: int| bytes[i] as char))
    } else {
        None
    }
}

/// `HeaderMap::new`: a header without fields.
#[verifier::external_body]
pub(crate) fn headers_new() -> (r: HeaderMap<HeaderValue>)
    ensures
        (fields(r) == Map::<Seq<char>, Seq<Seq<u8>>>::empty()),
{
    HeaderMap::new()
}

/// `clone` of a `HeaderMap`: the same fields.
#[verifier::external_body]
pub(crate) fn headers_clone(headers: &HeaderMap<HeaderValue>) -> (r: HeaderMap<HeaderValue>)
    ensures
        fields(r) == fields(*headers),
{
    headers.clone()
}

/// `HeaderMap::try_insert`: sets the only value of a field. It may refuse a header that holds
/// `room()` names or more, and then leaves it as it is; which of those it refuses rests on how
/// their names hash, and is left open.
#[verifier::external_body]
pub(crate) fn headers_insert(headers: &mut HeaderMap<HeaderValue>, name: &str, value: &[u8]) -> (r: Result<
    (),
    http::header::MaxSizeReached,
>)
    requires
        is_name(name@),
        is_value(value@),
    ensures
        fields(*final(headers)) == (match r {
            Ok(_) => fields(*old(headers)).insert(name@, seq![value@]),
            Err(_) => fields(*old(headers)),
        }),
        fields(*old(headers)).dom().len() < room() ==> r is Ok,
{
    let key = HeaderName::from_bytes(name.as_bytes()).unwrap();
    headers.try_insert(key, HeaderValue::from_bytes(value).unwrap()).map(|_| ())
}

/// `HeaderMap::try_append`: adds a value to those of a field. It may refuse a header as
/// `HeaderMap::try_insert` may.
#[verifier::external_body]
pub(crate) fn headers_append(headers: &mut HeaderMap<HeaderValue>, name: &str, value: &[u8]) -> (r: Result<
    (),
    http::header::MaxSizeReached,
>)
    requires
        is_name(name@),
        is_value(value@),
    ensures
        fields(*final(headers)) == (match r {
            Ok(_) => appended(fields(*old(headers)), name@, value@),
            Err(_) => fields(*old(headers)),
        }),
        fields(*old(headers)).dom().len() < room() ==> r is Ok,
{
    let key = HeaderName::from_bytes(name.as_bytes()).unwrap();
    headers.try_append(key, HeaderValue::from_bytes(value).unwrap()).map(|_| ())
}

/// `HeaderMap::contains_key`: whether there is a field of that name.
#[verifier::external_body]
pub(crate) fn headers_contain(headers: &HeaderMap<HeaderValue>, name: &str) -> (r: bool)
    requires
        is_name(name@),
    ensures
        r == fields(*headers).dom().contains(name@),
{
    headers.contains_key(name)
}

/// `HeaderMap::get`: the oldest value of a field.
#[verifier::external_body]
pub(crate) fn headers_get(headers: &HeaderMap<HeaderValue>, name: &str) -> (r: Option<Vec<u8>>)
    requires
        is_name(name@),
    ensures
        first_value(fields(*headers), name@) == (match r {
            Some(value) => Some(value@),
            None => None,
        }),
        r matches Some(value) ==> is_value(value@),
{
    headers.get(name).map(|value| value.as_bytes().to_vec())
}

/// `HeaderName::from_bytes`: the name that bytes write, or an error where they write none.
#[verifier::external_body]
pub(crate) fn parse_name(bytes: &[u8]) -> (r: Result<String, http::header::InvalidHeaderName>)
    ensures
        field_name(bytes@) == (match r {
            Ok(name) => Some(name@),
            Err(_) => None,
        }),
{
    HeaderName::from_bytes(bytes).map(|name| name.as_str().to_string())
}

/// `HeaderValue::from_str`: the bytes of a text as a value, or an error where they cannot be one.
#[verifier::external_body]
pub(crate) fn parse_value(s: &str) -> (r: Result<Vec<u8>, http::header::InvalidHeaderValue>)
    ensures
        r is Ok == is_value(encode_utf8(s@)),
        r matches Ok(value) ==> value@ == encode_utf8(s@),
{
    HeaderValue::from_str(s).map(|value| value.as_bytes().to_vec())
}

/// `HeaderValue::to_str`: the text of a value, or an error where not all of it is visible.
#[verifier::external_body]
pub(crate) fn value_text(value: &[u8]) -> (r: Result<String, http::header::ToStrError>)
    requires
        is_value(value@),
    ensures
        visible_text(value@) == (match r {
            Ok(s) => Some(s@),
            Err(_) => None,
        }),
{
    HeaderValue::from_bytes(value).unwrap().to_str().map(|s| s.to_string())
}

/// `f` with one more value of `name`.
pub open spec fn appended(f: Map<Seq<char>, Seq<Seq<u8>>>, name: Seq<char>, value: Seq<u8>) -> Map<
    Seq<char>,
    Seq<Seq<u8>>,
> {
    if f.dom().contains(name) {
        f.insert(name, f[name].push(value))
    } else {
        f.insert(name, seq![value])
    }
}

/// The oldest value of `name`.
pub open spec fn first_value(f: Map<Seq<char>, Seq<Seq<u8>>>, name: Seq<char>) -> Option<Seq<u8>> {
    if f.dom().contains(name) {
        Some(f[name][0])
    } else {
        None
    }
}

/// A text of small letters, digits and hyphens is the name of a field.
pub proof fn plain_name(name: Seq<char>)
    requires
        1 <= name.len() <= 65535,
        forall|i: int|
            0 <= i < name.len() ==> 'a' <= #[trigger] name[i] <= 'z' || '0' <= name[i] <= '9' || name[i] == '-',
    ensures
        is_name(name),
{
    assert(is_ascii_chars(name));
    is_ascii_chars_encode_utf8(name);
    let bytes = encode_utf8(name);
    assert(bytes =~= Seq::new(name.len(), |i: int| name[i] as u8));
    assert forall|i: int| 0 <= i < bytes.len() implies name_byte(#[trigger] bytes[i]) == Some(bytes[i])
        && bytes[i] as char == name[i] by {
        assert(bytes[i] == name[i] as u8);
    }
    assert(Seq::new(bytes.len(), |i: int| name_byte(bytes[i])->0 as char) =~= name);
}

/// What a field is called once its name is parsed is a name in small letters.
pub proof fn parsed_name(bytes: Seq<u8>)
    ensures
        field_name(bytes) matches Some(name) ==> is_name(name),
{
    if let Some(name) = field_name(bytes) {
        assert forall|i: int| 0 <= i < name.len() implies name[i] as u8 == name_byte(bytes[i])->0 && #[trigger] name[i]
            <= '\u{7f}' by {
            assert(name_byte(bytes[i]) is Some);
        }
        assert(is_ascii_chars(name));
        is_ascii_chars_encode_utf8(name);
        let again = encode_utf8(name);
        assert forall|i: int| 0 <= i < again.len() implies name_byte(#[trigger] again[i]) == Some(again[i])
            && again[i] as char == name[i] by {
            assert(again[i] == name[i] as u8);
            assert(name_byte(bytes[i]) is Some);
        }
        assert(Seq::new(again.len(), |i: int| name_byte(again[i])->0 as char) =~= name);
    }
}

/// A text of visible ASCII characters and spaces can be the value of a field.
pub proof fn plain_value(s: Seq<char>)
    requires
        forall|i: int| 0 <= i < s.len() ==> ' ' <= #[trigger] s[i] <= '~',
    ensures
        is_value(encode_utf8(s)),
{
    assert(is_ascii_chars(s));
    is_ascii_chars_encode_utf8(s);
    let bytes = encode_utf8(s);
    assert(bytes =~= Seq::new(s.len(), |i: int| s[i] as u8));
    assert forall|i: int| 0 <= i < bytes.len() implies 32 <= #[trigger] bytes[i] && bytes[i] != 127 by {
        assert(bytes[i] == s[i] as u8);
    }
}

} // verus!
