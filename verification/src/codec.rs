//! Bytes into text: percent escapes, UTF-8, UTF-16, labelled encodings, and the file name that
//! a `Content-Disposition` header gives.
use crate::text::{before_first, before_first_at, before_first_has_none};
use encoding::Encoding;
use vstd::prelude::*;
use vstd::utf8::{
    char_u32_cast, decode_utf8, encode_scalar, encode_utf8, encode_utf8_decode_utf8, encode_utf8_valid_utf8, last_continuation_byte,
    leading_byte_width_1, leading_byte_width_2, leading_byte_width_3, leading_byte_width_4,
    second_last_continuation_byte, third_last_continuation_byte, valid_utf8,
};

verus! {

/// What a decoder does where the bytes stand for no text.
#[derive(Clone, Copy, Debug, PartialEq, Eq, Structural)]
pub enum DecoderTrap {
    /// It fails.
    Strict,
    /// It puts U+FFFD.
    Replace,
    /// It puts nothing.
    Ignore,
}

/// The value of a hexadecimal digit.
pub open spec fn hex_value(b: u8) -> Option<int> {
    if 48 <= b <= 57 {
        Some(b - 48)
    } else if 65 <= b <= 70 {
        Some(b - 55)
    } else if 97 <= b <= 102 {
        Some(b - 87)
    } else {
        None
    }
}

/// `s` with each percent sign that two hexadecimal digits follow, and those digits, replaced by
/// the byte of that value.
pub open spec fn percent_bytes(s: Seq<u8>) -> Seq<u8>
    decreases s.len(),
{
    if s.len() == 0 {
        Seq::empty()
    } else if s.len() >= 3 && s[0] == 37 && hex_value(s[1]) is Some && hex_value(s[2]) is Some {
        seq![(hex_value(s[1])->0 * 16 + hex_value(s[2])->0) as u8] + percent_bytes(s.skip(3))
    } else {
        seq![s[0]] + percent_bytes(s.skip(1))
    }
}

/// The text that `bytes` encode in UTF-8, where they encode one.
pub open spec fn utf8_text(bytes: Seq<u8>) -> Option<Seq<char>> {
    if valid_utf8(bytes) {
        Some(decode_utf8(bytes))
    } else {
        None
    }
}

/// The text that `s` stands for with percent escapes, where the bytes are UTF-8.
pub open spec fn percent_text(s: Seq<char>) -> Option<Seq<char>> {
    utf8_text(percent_bytes(encode_utf8(s)))
}

/// The text of an optional string.
pub open spec fn text(s: Option<String>) -> Option<Seq<char>> {
    match s {
        Some(s) => Some(s@),
        None => None,
    }
}

/// `std::str::Utf8Error`, carried through as it is.
#[verifier::external_type_specification]
#[verifier::external_body]
pub struct ExUtf8Error(std::str::Utf8Error);

/// `percent_encoding::percent_decode_str`, and `decode_utf8` of what it gives: the text with
/// its percent escapes replaced, or an error where the bytes are not UTF-8.
#[verifier::external_body]
pub(crate) fn percent_decode(s: &str) -> (r: Result<String, std::str::Utf8Error>)
    ensures
        percent_text(s@) == (match r {
            Ok(t) => Some(t@),
            Err(_) => None,
        }),
{
    percent_encoding::percent_decode_str(s).decode_utf8().map(|t| t.to_string())
}

/// `String::from_utf8` of the standard library: the text that the bytes encode in UTF-8.
#[verifier::external_body]
pub(crate) fn utf8_decode(bytes: &[u8]) -> (r: Option<String>)
    ensures
        utf8_text(bytes@) == text(r),
{
    String::from_utf8(bytes.to_vec()).ok()
}

/// The text that bytes stand for in UTF-8 when every flaw is replaced by U+FFFD.
pub uninterp spec fn lossy_text(bytes: Seq<u8>) -> Seq<char>;

/// `String::from_utf8_lossy` of the standard library: on UTF-8, the text; on other bytes, how
/// many U+FFFD stand for a flaw is left to `lossy_text`.
#[verifier::external_body]
pub(crate) fn utf8_lossy(bytes: &[u8]) -> (r: String)
    ensures
        r@ == lossy_text(bytes@),
        utf8_text(bytes@) is Some ==> utf8_text(bytes@) == Some(r@),
{
    String::from_utf8_lossy(bytes).to_string()
}

/// The UTF-16 code unit at the start of `b`.
pub open spec fn utf16_unit(b: Seq<u8>, big: bool) -> int {
    if big {
        b[0] * 256 + b[1]
    } else {
        b[1] * 256 + b[0]
    }
}

/// `c` before the text of `rest`.
pub open spec fn char_then(c: char, rest: Result<Seq<char>, Seq<char>>) -> Result<Seq<char>, Seq<char>> {
    match rest {
        Ok(t) => Ok(seq![c] + t),
        Err(cause) => Err(cause),
    }
}

/// What `trap` makes of a flaw before `rest`.
pub open spec fn flaw_then(trap: DecoderTrap, cause: Seq<char>, rest: Result<Seq<char>, Seq<char>>) -> Result<
    Seq<char>,
    Seq<char>,
> {
    match trap {
        DecoderTrap::Strict => Err(cause),
        DecoderTrap::Replace => char_then('\u{fffd}', rest),
        DecoderTrap::Ignore => rest,
    }
}

/// The text that `b` encodes in UTF-16, or the cause of the first flaw under `Strict`. A byte
/// order mark is a character of the text.
pub open spec fn utf16_text(b: Seq<u8>, big: bool, trap: DecoderTrap) -> Result<Seq<char>, Seq<char>>
    decreases b.len(),
{
    let unit = utf16_unit(b, big);
    let next = utf16_unit(b.skip(2), big);
    if b.len() == 0 {
        Ok(Seq::empty())
    } else if b.len() == 1 {
        flaw_then(trap, "incomplete sequence"@, Ok(Seq::empty()))
    } else if unit < 0xd800 || 0xe000 <= unit {
        char_then(unit as char, utf16_text(b.skip(2), big, trap))
    } else if unit < 0xdc00 && b.len() < 4 {
        flaw_then(trap, "incomplete sequence"@, Ok(Seq::empty()))
    } else if unit < 0xdc00 && 0xdc00 <= next < 0xe000 {
        char_then(
            (0x10000 + (unit - 0xd800) * 0x400 + (next - 0xdc00)) as char,
            utf16_text(b.skip(4), big, trap),
        )
    } else {
        flaw_then(trap, "invalid sequence"@, utf16_text(b.skip(2), big, trap))
    }
}

/// The text or the cause of a decoder's result.
pub open spec fn outcome(r: Result<String, String>) -> Result<Seq<char>, Seq<char>> {
    match r {
        Ok(t) => Ok(t@),
        Err(cause) => Err(cause@),
    }
}

/// `decode` of `encoding::all::UTF_16LE`: the text of bytes in little-endian UTF-16.
#[verifier::external_body]
pub(crate) fn utf16le_decode(input: &[u8], trap: DecoderTrap) -> (r: Result<String, String>)
    ensures
        outcome(r) == utf16_text(input@, false, trap),
{
    let trap = match trap {
        DecoderTrap::Strict => encoding::DecoderTrap::Strict,
        DecoderTrap::Replace => encoding::DecoderTrap::Replace,
        DecoderTrap::Ignore => encoding::DecoderTrap::Ignore,
    };
    encoding::all::UTF_16LE.decode(input, trap).map_err(|cause| cause.to_string())
}

/// `decode` of `encoding::all::UTF_16BE`: the text of bytes in big-endian UTF-16.
#[verifier::external_body]
pub(crate) fn utf16be_decode(input: &[u8], trap: DecoderTrap) -> (r: Result<String, String>)
    ensures
        outcome(r) == utf16_text(input@, true, trap),
{
    let trap = match trap {
        DecoderTrap::Strict => encoding::DecoderTrap::Strict,
        DecoderTrap::Replace => encoding::DecoderTrap::Replace,
        DecoderTrap::Ignore => encoding::DecoderTrap::Ignore,
    };
    encoding::all::UTF_16BE.decode(input, trap).map_err(|cause| cause.to_string())
}

/// The labels under which the WHATWG names the encodings that are tried on a list of links.
pub const LABELS: [&'static str; 15] = [
    "gbk",
    "big5",
    "gb18030",
    "866",
    "euc-jp",
    "euc-kr",
    "koi",
    "iso88592",
    "iso88593",
    "iso88594",
    "iso88595",
    "iso88596",
    "iso88597",
    "iso88598",
    "iso885910",
];

/// The text that bytes stand for in the encoding of a label, where they stand for one.
pub uninterp spec fn label_text(label: Seq<char>, bytes: Seq<u8>) -> Option<Seq<char>>;

/// `encoding::label::encoding_from_whatwg_label`, and strict `decode` of the encoding that it
/// gives. Each of `LABELS` names an encoding. What the bytes decode to is left to `label_text`.
#[verifier::external_body]
pub(crate) fn label_decode(label: &str, bytes: &[u8]) -> (r: Option<String>)
    requires
        exists|i: int| 0 <= i < 15 && #[trigger] LABELS[i]@ == label@,
    ensures
        label_text(label@, bytes@) == text(r),
{
    let codec = encoding::label::encoding_from_whatwg_label(label).unwrap();
    codec.decode(bytes, encoding::DecoderTrap::Strict).ok()
}

/// The pattern by which a file name is found in a `Content-Disposition` header.
pub const FILENAME_PATTERN: &'static str = "filename=\"?([^;\"]*)\"?;?";

/// What stands after the first `filename=` in `s`.
pub open spec fn after_filename(s: Seq<char>) -> Option<Seq<char>>
    decreases s.len(),
{
    let key = "filename="@;
    if s.len() < key.len() || s.len() == 0 {
        None
    } else if s.take(key.len() as int) == key {
        Some(s.skip(key.len() as int))
    } else {
        after_filename(s.drop_first())
    }
}

/// `s` without one double quote at its start.
pub open spec fn strip_quote(s: Seq<char>) -> Seq<char> {
    if s.len() > 0 && s[0] == '"' {
        s.skip(1)
    } else {
        s
    }
}

/// The file name that a `Content-Disposition` header gives: after the first `filename=` and a
/// double quote or none, all that stands before a semicolon and a double quote.
pub open spec fn named_file(s: Seq<char>) -> Option<Seq<char>> {
    match after_filename(s) {
        Some(rest) => Some(before_first(before_first(strip_quote(rest), ';'), '"')),
        None => None,
    }
}

/// `regex::Regex::new` and `captures` with `FILENAME_PATTERN`, and the group of the leftmost
/// match: the characters that the group takes, greedily, up to a semicolon or a double quote.
#[verifier::external_body]
pub(crate) fn first_group(pattern: &str, s: &str) -> (r: Option<String>)
    requires
        pattern@ == FILENAME_PATTERN@,
    ensures
        named_file(s@) == text(r),
{
    let found = regex::Regex::new(pattern).unwrap().captures(s)?;
    found.get(1).map(|group| group.as_str().to_string())
}

/// No semicolon and no double quote stands in a name that a header gives.
pub proof fn named_file_is_plain(s: Seq<char>)
    ensures
        named_file(s) matches Some(name) ==> !name.contains(';') && !name.contains('"'),
{
    if let Some(rest) = after_filename(s) {
        let t = strip_quote(rest);
        let head = before_first(t, ';');
        before_first_has_none(t, ';');
        before_first_has_none(head, '"');
        let name = before_first(head, '"');
        assert forall|i: int| 0 <= i < name.len() implies name[i] != ';' by {
            assert(head.contains(head[i]));
        }
    }
}

/// A quoted name is read whole, whatever follows it.
pub proof fn quoted_name_reads_back(name: Seq<char>, rest: Seq<char>)
    requires
        !name.contains(';'),
        !name.contains('"'),
    ensures
        named_file("filename="@ + seq!['"'] + name + seq!['"'] + rest) == Some(name),
{
    let key = "filename="@;
    reveal_strlit("filename=");
    let s = key + seq!['"'] + name + seq!['"'] + rest;
    assert(s.take(key.len() as int) =~= key);
    let t = name + seq!['"'] + rest;
    assert(s.skip(key.len() as int) =~= seq!['"'] + t);
    assert((seq!['"'] + t).skip(1) =~= t);
    assert forall|i: int| 0 <= i < name.len() implies t[i] != ';' && t[i] != '"' by {
        assert(name.contains(name[i]));
    }
    let head = before_first(t, ';');
    before_first_has_none(t, ';');
    before_first_keeps(t, ';', name.len() as int);
    if head.len() == name.len() {
        assert(head =~= name);
        before_first_at(head, '"', name.len() as int);
        assert(head.take(name.len() as int) =~= name);
    } else {
        assert(head[name.len() as int] == '"');
        before_first_at(head, '"', name.len() as int);
        assert(head.take(name.len() as int) =~= name);
    }
}

/// What stands before the first `c` is no shorter than a start of the text without `c`.
proof fn before_first_keeps(s: Seq<char>, c: char, k: int)
    requires
        0 <= k <= s.len(),
        forall|i: int| 0 <= i < k ==> s[i] != c,
    ensures
        before_first(s, c).len() >= k,
    decreases k,
{
    if k > 0 {
        before_first_keeps(s.drop_first(), c, k - 1);
    }
}

/// A text without percent signs stands for itself.
pub proof fn percent_text_of_plain(s: Seq<char>)
    requires
        !s.contains('%'),
    ensures
        percent_text(s) == Some(s),
{
    encoded_has_no_percent(s);
    percent_bytes_of_plain(encode_utf8(s));
    encode_utf8_valid_utf8(s);
    encode_utf8_decode_utf8(s);
}

proof fn percent_bytes_of_plain(b: Seq<u8>)
    requires
        forall|i: int| 0 <= i < b.len() ==> b[i] != 37,
    ensures
        percent_bytes(b) == b,
    decreases b.len(),
{
    if b.len() > 0 {
        percent_bytes_of_plain(b.skip(1));
        assert(seq![b[0]] + b.skip(1) =~= b);
    }
}

proof fn encoded_has_no_percent(s: Seq<char>)
    requires
        !s.contains('%'),
    ensures
        forall|i: int| 0 <= i < encode_utf8(s).len() ==> encode_utf8(s)[i] != 37,
    decreases s.len(),
{
    if s.len() > 0 {
        let c = s[0] as u32;
        assert(s.contains(s[0]));
        assert(!s.drop_first().contains('%')) by {
            if s.drop_first().contains('%') {
                let i = choose|i: int| 0 <= i < s.drop_first().len() && s.drop_first()[i] == '%';
                assert(s[i + 1] == '%');
            }
        }
        encoded_has_no_percent(s.drop_first());
        char_u32_cast(s[0], c);
        scalar_has_no_percent(c);
        let head = encode_scalar(c);
        let rest = encode_utf8(s.drop_first());
        assert forall|i: int| 0 <= i < encode_utf8(s).len() implies encode_utf8(s)[i] != 37 by {
            if i < head.len() {
                assert(encode_utf8(s)[i] == head[i]);
            } else {
                assert(encode_utf8(s)[i] == rest[i - head.len()]);
            }
        }
    }
}

proof fn scalar_has_no_percent(c: u32)
    requires
        c != 37,
    ensures
        forall|i: int| 0 <= i < encode_scalar(c).len() ==> encode_scalar(c)[i] != 37,
{
    assert(c <= 0x7f && c != 37 ==> leading_byte_width_1(c) != 37) by (bit_vector);
    assert(leading_byte_width_2(c) != 37) by (bit_vector);
    assert(leading_byte_width_3(c) != 37) by (bit_vector);
    assert(leading_byte_width_4(c) != 37) by (bit_vector);
    assert(last_continuation_byte(c) != 37) by (bit_vector);
    assert(second_last_continuation_byte(c) != 37) by (bit_vector);
    assert(third_last_continuation_byte(c) != 37) by (bit_vector);
}

} // verus!
