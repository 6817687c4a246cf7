//! The options of a run, and what follows from them: the header of every request, and the list
//! of links that a file holds.
use crate::codec::{
    label_decode, label_text, outcome, text, utf16_text, utf16be_decode, utf16le_decode, utf8_decode, utf8_text,
    DecoderTrap, LABELS,
};
use crate::headers::{
    field_name, fields, headers_insert, headers_new, is_name, is_value, name_byte, parse_name, parse_value, parsed_name, plain_name, plain_value,
    room,
};
use crate::text::{
    before_first, before_first_at, chars_of, find_from, lines, lines_of, trim, trimmed, views,
};
use http::header::{HeaderMap, HeaderValue};
use vstd::prelude::*;
use vstd::utf8::{encode_utf8, encode_utf8_decode_utf8, encode_utf8_valid_utf8};

verus! {

/// The options of a run.
#[derive(Clone, Debug)]
pub struct Config {
    /// The link to download. With `file` it is not used.
    pub url: String,
    /// The name of the file to write.
    pub output: Option<String>,
    /// Further header fields, one `Name: value` to a line.
    pub header: Option<String>,
    /// A file with one link to a line, each of which is downloaded.
    pub file: Option<String>,
    /// The address of the proxy.
    pub proxy_url: Option<String>,
    /// The browser to pass for. Without it that is Edge 131; `None` switches the disguise off.
    pub emulation: Option<String>,
    /// `none` switches the proxy off; any other value switches on the one at `proxy_url`.
    pub proxy_type: Option<String>,
    /// The user name for the proxy.
    pub user_name: Option<String>,
    /// The password for the proxy.
    pub password: Option<String>,
    /// Whether to print what goes on.
    pub debug: bool,
    /// The user agent to send.
    pub user_agent: Option<String>,
    /// How often a download is tried again.
    pub retry: u8,
    /// How many connections a download uses.
    pub thread_size: u32,
    /// Whether an interrupted download starts over.
    pub delete_stat: bool,
    /// Whether to use one connection only.
    pub one_download: bool,
    /// The cookie to send.
    pub cookie: Option<String>,
    /// Whether to use several connections though the server does not offer it.
    pub force_thread: bool,
    /// Whether a list in UTF-16 is big-endian.
    pub utf_be: bool,
    /// The size in KiB that a file has at least for its connections to be used again.
    pub resumd_min_body: u64,
    /// Whether to ask with POST in place of GET.
    pub post: bool,
    /// Whether to print the SHA-256 of the file.
    pub sha256: bool,
}

/// Why a header cannot be made.
#[derive(Clone, Copy, Debug, PartialEq, Eq, Structural)]
pub enum HeaderError {
    /// A line has no field name before its colon.
    Name,
    /// A value holds a character that no field can hold.
    Value,
    /// There are more fields than a header holds.
    TooMany,
}

/// Field names, and the values of each.
pub type Fields = Map<Seq<char>, Seq<Seq<u8>>>;

pub const PRIORITY: &'static str = "u=0, i";

pub const ACCEPT: &'static str = "text/html,application/xhtml+xml,application/xml;q=0.9,image/avif,image/webp,image/apng,*/*;q=0.8,application/signed-exchange;v=b3;q=0.7";

pub const ACCEPT_ENCODING: &'static str = "gzip, deflate, br, zstd";

pub const ACCEPT_LANGUAGE: &'static str = "zh-CN,zh;q=0.9,en;q=0.8,en-GB;q=0.7,en-US;q=0.6";

pub const USER_AGENT: &'static str = "Mozilla/5.0 (Windows NT 10.0; Win64; x64) AppleWebKit/537.36 (KHTML, like Gecko) Chrome/131.0.0.0 Safari/537.36 Edg/131.0.0.0";

/// `made` with `value` as the only value of the field `name`.
pub open spec fn with_field(made: Result<Fields, HeaderError>, name: Seq<char>, value: Seq<char>) -> Result<
    Fields,
    HeaderError,
> {
    match made {
        Ok(f) => if is_value(encode_utf8(value)) {
            Ok(f.insert(name, seq![encode_utf8(value)]))
        } else {
            Err(HeaderError::Value)
        },
        Err(error) => Err(error),
    }
}

/// The fields that every header starts with.
pub open spec fn standing_fields() -> Fields {
    Map::<Seq<char>, Seq<Seq<u8>>>::empty().insert("priority"@, seq![encode_utf8(PRIORITY@)]).insert(
        "accept"@,
        seq![encode_utf8(ACCEPT@)],
    ).insert("accept-encoding"@, seq![encode_utf8(ACCEPT_ENCODING@)]).insert(
        "accept-language"@,
        seq![encode_utf8(ACCEPT_LANGUAGE@)],
    )
}

/// The part of a line before its first colon, trimmed.
pub open spec fn line_name(line: Seq<char>) -> Seq<char> {
    trimmed(before_first(line, ':'))
}

/// The part of a line after its first colon, trimmed.
pub open spec fn line_value(line: Seq<char>) -> Seq<char> {
    trimmed(line.skip(before_first(line, ':').len() as int + 1))
}

/// `made` with the field that `line` gives; a line without a colon gives none.
pub open spec fn with_line(made: Result<Fields, HeaderError>, line: Seq<char>) -> Result<Fields, HeaderError> {
    if made is Err || !line.contains(':') {
        made
    } else {
        match field_name(encode_utf8(line_name(line))) {
            Some(name) => with_field(made, name, line_value(line)),
            None => Err(HeaderError::Name),
        }
    }
}

/// `made` with the fields that `list` gives, line by line.
pub open spec fn with_lines(made: Result<Fields, HeaderError>, list: Seq<Seq<char>>) -> Result<Fields, HeaderError>
    decreases list.len(),
{
    if list.len() == 0 {
        made
    } else {
        with_line(with_lines(made, list.drop_last()), list.last())
    }
}

/// The user agent, given or not.
pub open spec fn agent(given: Option<Seq<char>>) -> Seq<char> {
    match given {
        Some(given) => given,
        None => USER_AGENT@,
    }
}

/// The header that the options ask for: the standing fields, the user agent, the cookie, and
/// then the further fields, each of which takes the place of an earlier one of its name.
pub open spec fn header_of(
    user_agent: Option<Seq<char>>,
    cookie: Option<Seq<char>>,
    header: Option<Seq<char>>,
) -> Result<Fields, HeaderError> {
    let made = with_field(Ok(standing_fields()), "user-agent"@, agent(user_agent));
    let made = match cookie {
        Some(cookie) => with_field(made, "cookie"@, cookie),
        None => made,
    };
    match header {
        Some(header) => with_lines(made, lines(header)),
        None => made,
    }
}

/// How many further fields the options ask for at most.
pub open spec fn further(header: Option<Seq<char>>) -> nat {
    match header {
        Some(header) => lines(header).len(),
        None => 0,
    }
}

/// Sets a field of `headers`.
fn set_field(headers: &mut HeaderMap<HeaderValue>, name: &str, value: &str) -> (r: Result<(), HeaderError>)
    requires
        is_name(name@),
        fields(*old(headers)).dom().finite(),
    ensures
        match r {
            Ok(_) => with_field(Ok(fields(*old(headers))), name@, value@) == Ok::<Fields, HeaderError>(
                fields(*final(headers)),
            ),
            Err(HeaderError::TooMany) => fields(*old(headers)).dom().len() >= room(),
            Err(error) => with_field(Ok(fields(*old(headers))), name@, value@) == Err::<Fields, HeaderError>(error),
        },
        fields(*final(headers)).dom().finite(),
        fields(*final(headers)).dom().len() <= fields(*old(headers)).dom().len() + 1,
{
    match parse_value(value) {
        Ok(bytes) => match headers_insert(headers, name, bytes.as_slice()) {
            Ok(_) => {
                assert(fields(*headers).dom() =~= fields(*old(headers)).dom().insert(name@));
                Ok(())
            },
            Err(_) => Err(HeaderError::TooMany),
        },
        Err(_) => Err(HeaderError::Value),
    }
}

/// Sets the field that `line` gives.
fn set_line(headers: &mut HeaderMap<HeaderValue>, line: &str) -> (r: Result<(), HeaderError>)
    requires
        fields(*old(headers)).dom().finite(),
    ensures
        match r {
            Ok(_) => with_line(Ok(fields(*old(headers))), line@) == Ok::<Fields, HeaderError>(fields(*final(headers))),
            Err(HeaderError::TooMany) => fields(*old(headers)).dom().len() >= room(),
            Err(error) => with_line(Ok(fields(*old(headers))), line@) == Err::<Fields, HeaderError>(error),
        },
        fields(*final(headers)).dom().finite(),
        fields(*final(headers)).dom().len() <= fields(*old(headers)).dom().len() + 1,
{
    let v: Vec<char> = chars_of(line);
    let colon: usize = find_from(&v, 0, ':');
    proof {
        before_first_at(line@, ':', colon as int);
    }
    if colon == v.len() {
        assert(!line@.contains(':'));
        return Ok(());
    }
    assert(line@.contains(line@[colon as int]));
    let name_text: String = trim(&v, 0, colon);
    let value: String = trim(&v, colon + 1, v.len());
    assert(v@.subrange(0, colon as int) =~= line@.take(colon as int));
    assert(v@.subrange(colon + 1, v@.len() as int) =~= line@.skip(colon + 1));
    match parse_name(name_text.as_str().as_bytes()) {
        Ok(name) => {
            proof {
                parsed_name(encode_utf8(name_text@));
            }
            set_field(headers, name.as_str(), value.as_str())
        },
        Err(_) => Err(HeaderError::Name),
    }
}

/// Once a line cannot be used, no later line mends it.
proof fn failed_lines(made: Result<Fields, HeaderError>, list: Seq<Seq<char>>, k: int, error: HeaderError)
    requires
        0 <= k <= list.len(),
        with_lines(made, list.take(k)) == Err::<Fields, HeaderError>(error),
    ensures
        with_lines(made, list) == Err::<Fields, HeaderError>(error),
    decreases list.len(),
{
    if k == list.len() {
        assert(list.take(k) =~= list);
    } else {
        assert(list.drop_last().take(k) =~= list.take(k));
        failed_lines(made, list.drop_last(), k, error);
    }
}

/// The names of the standing fields are names.
proof fn standing_names()
    ensures
        is_name("priority"@),
        is_name("accept"@),
        is_name("accept-encoding"@),
        is_name("accept-language"@),
        is_name("user-agent"@),
        is_name("cookie"@),
{
    reveal_strlit("priority");
    reveal_strlit("accept");
    reveal_strlit("accept-encoding");
    reveal_strlit("accept-language");
    reveal_strlit("user-agent");
    reveal_strlit("cookie");
    plain_name("priority"@);
    plain_name("accept"@);
    plain_name("accept-encoding"@);
    plain_name("accept-language"@);
    plain_name("user-agent"@);
    plain_name("cookie"@);
}

/// The values of the standing fields are values.
proof fn standing_values()
    ensures
        is_value(encode_utf8(PRIORITY@)),
        is_value(encode_utf8(ACCEPT@)),
        is_value(encode_utf8(ACCEPT_ENCODING@)),
        is_value(encode_utf8(ACCEPT_LANGUAGE@)),
        is_value(encode_utf8(USER_AGENT@)),
{
    reveal_strlit("u=0, i");
    plain_value(PRIORITY@);
    reveal_strlit(
        "text/html,application/xhtml+xml,application/xml;q=0.9,image/avif,image/webp,image/apng,*/*;q=0.8,application/signed-exchange;v=b3;q=0.7",
    );
    plain_value(ACCEPT@);
    reveal_strlit("gzip, deflate, br, zstd");
    plain_value(ACCEPT_ENCODING@);
    reveal_strlit("zh-CN,zh;q=0.9,en;q=0.8,en-GB;q=0.7,en-US;q=0.6");
    plain_value(ACCEPT_LANGUAGE@);
    reveal_strlit(
        "Mozilla/5.0 (Windows NT 10.0; Win64; x64) AppleWebKit/537.36 (KHTML, like Gecko) Chrome/131.0.0.0 Safari/537.36 Edg/131.0.0.0",
    );
    plain_value(USER_AGENT@);
}

impl Config {
    /// The header of every request.
    pub fn generate_header(&self) -> (r: Result<HeaderMap<HeaderValue>, HeaderError>)
        ensures
            match r {
                Ok(headers) => header_of(text(self.user_agent), text(self.cookie), text(self.header)) == Ok::<
                    Fields,
                    HeaderError,
                >(fields(headers)),
                Err(HeaderError::TooMany) => further(text(self.header)) + 6 > room(),
                Err(error) => header_of(text(self.user_agent), text(self.cookie), text(self.header)) == Err::<
                    Fields,
                    HeaderError,
                >(error),
            },
    {
        let mut headers: HeaderMap<HeaderValue> = headers_new();
        proof {
            standing_names();
            standing_values();
        }
        set_field(&mut headers, "priority", PRIORITY)?;
        set_field(&mut headers, "accept", ACCEPT)?;
        set_field(&mut headers, "accept-encoding", ACCEPT_ENCODING)?;
        set_field(&mut headers, "accept-language", ACCEPT_LANGUAGE)?;
        assert(fields(headers) == standing_fields());
        proof {
            if let Some(further) = &self.header {
                assert forall|error: HeaderError| #[trigger]
                    with_lines(Err::<Fields, HeaderError>(error), lines(further@)) == Err::<Fields, HeaderError>(
                        error,
                    ) by {
                    failed_lines(Err(error), lines(further@), 0, error);
                }
            }
        }
        match &self.user_agent {
            Some(agent) => set_field(&mut headers, "user-agent", agent.as_str())?,
            None => set_field(&mut headers, "user-agent", USER_AGENT)?,
        }
        match &self.cookie {
            Some(cookie) => set_field(&mut headers, "cookie", cookie.as_str())?,
            None => {},
        }
        if let Some(further) = &self.header {
            let list: Vec<String> = lines_of(further.as_str());
            let ghost made = Ok::<Fields, HeaderError>(fields(headers));
            let ghost all = lines(further@);
            assert(all.len() == list@.len());
            let mut i: usize = 0;
            assert(all.take(0) =~= Seq::<Seq<char>>::empty());
            while i < list.len()
                invariant
                    i <= list.len(),
                    all == views(list@),
                    all == lines(further@),
                    all.len() == list@.len(),
                    fields(headers).dom().finite(),
                    fields(headers).dom().len() <= 6 + i,
                    with_lines(made, all.take(i as int)) == Ok::<Fields, HeaderError>(fields(headers)),
                    self.header matches Some(h) && h == *further,
                    header_of(text(self.user_agent), text(self.cookie), text(self.header)) == with_lines(made, all),
                decreases list.len() - i,
            {
                assert(all.take(i + 1).drop_last() =~= all.take(i as int));
                assert(all[i as int] == list@[i as int]@);
                match set_line(&mut headers, list[i].as_str()) {
                    Ok(_) => {},
                    Err(error) => {
                        proof {
                            if error != HeaderError::TooMany {
                                failed_lines(made, all, i + 1, error);
                            }
                        }
                        return Err(error);
                    },
                }
                i += 1;
            }
            assert(all.take(all.len() as int) =~= all);
        }
        Ok(headers)
    }
}

/// The text that `input` encodes in UTF-16, big-endian where `utf_be` says so.
pub fn utf16_decode(input: &[u8], trap: DecoderTrap, utf_be: bool) -> (r: Result<String, String>)
    ensures
        outcome(r) == utf16_text(input@, utf_be, trap),
{
    if utf_be {
        utf16be_decode(input, trap)
    } else {
        utf16le_decode(input, trap)
    }
}

/// The text that `bytes` stand for under the first label at or after `from` that fits.
pub open spec fn labelled_text(bytes: Seq<u8>, from: int) -> Option<Seq<char>>
    decreases 15 - from,
{
    if from < 0 || 15 <= from {
        None
    } else if label_text(LABELS[from]@, bytes) is Some {
        label_text(LABELS[from]@, bytes)
    } else {
        labelled_text(bytes, from + 1)
    }
}

/// The text of a list of links: UTF-8 where the bytes are that, else UTF-16 where they are that,
/// else the first of the labelled encodings that fits.
pub open spec fn list_text(bytes: Seq<u8>, utf_be: bool) -> Option<Seq<char>> {
    match utf8_text(bytes) {
        Some(s) => Some(s),
        None => match utf16_text(bytes, utf_be, DecoderTrap::Strict) {
            Ok(s) => Some(s),
            Err(_) => labelled_text(bytes, 0),
        },
    }
}

/// The text of a list of links, or `None` where no encoding fits.
pub fn decode_list(bytes: &[u8], utf_be: bool) -> (r: Option<String>)
    ensures
        text(r) == list_text(bytes@, utf_be),
{
    match utf8_decode(bytes) {
        Some(s) => return Some(s),
        None => {},
    }
    match utf16_decode(bytes, DecoderTrap::Strict, utf_be) {
        Ok(s) => return Some(s),
        Err(_) => {},
    }
    let mut i: usize = 0;
    while i < 15
        invariant
            i <= 15,
            labelled_text(bytes@, 0) == labelled_text(bytes@, i as int),
            list_text(bytes@, utf_be) == labelled_text(bytes@, 0),
        decreases 15 - i,
    {
        let label: &str = LABELS[i];
        assert(LABELS[i as int]@ == label@);
        match label_decode(label, bytes) {
            Some(s) => return Some(s),
            None => {},
        }
        i += 1;
    }
    None
}

/// Holds of every line but the empty one.
pub open spec fn filled() -> spec_fn(Seq<char>) -> bool {
    |line: Seq<char>| line.len() > 0
}

/// The links that a list names: its lines, but for the empty ones.
pub fn links(list: &str) -> (r: Vec<String>)
    ensures
        views(r@) == lines(list@).filter(filled()),
{
    let all: Vec<String> = lines_of(list);
    let ghost every = lines(list@);
    let mut r: Vec<String> = Vec::new();
    let mut i: usize = 0;
    assert(every.len() == all@.len());
    assert(every.take(0).filter(filled()) =~= Seq::<Seq<char>>::empty()) by {
        reveal(Seq::filter);
    }
    assert(views(r@) =~= Seq::<Seq<char>>::empty());
    while i < all.len()
        invariant
            i <= all.len(),
            every == views(all@),
            every.len() == all@.len(),
            views(r@) == every.take(i as int).filter(filled()),
        decreases all.len() - i,
    {
        let line: String = all[i].clone();
        assert(every[i as int] == line@);
        assert(every.take(i + 1).filter(filled()) == if line@.len() > 0 {
            every.take(i as int).filter(filled()).push(line@)
        } else {
            every.take(i as int).filter(filled())
        }) by {
            reveal(Seq::filter);
            assert(every.take(i + 1).drop_last() =~= every.take(i as int));
        }
        if !line.as_str().is_empty() {
            let ghost before = views(r@);
            r.push(line);
            assert(views(r@) =~= before.push(line@));
        }
        i += 1;
    }
    assert(every.take(every.len() as int) =~= every);
    r
}

/// A list that is written in UTF-8 is read as it is, whatever the options say of UTF-16.
pub proof fn utf8_list_reads_back(s: Seq<char>, utf_be: bool)
    ensures
        list_text(encode_utf8(s), utf_be) == Some(s),
{
    encode_utf8_valid_utf8(s);
    encode_utf8_decode_utf8(s);
}

/// No link of a list is empty.
pub proof fn links_are_filled(list: Seq<char>, i: int)
    requires
        0 <= i < lines(list).filter(filled()).len(),
    ensures
        lines(list).filter(filled())[i].len() > 0,
{
    lines(list).lemma_filter_pred(filled(), i);
}

/// A line of the options sets its field, in place of what was set before, and no other.
pub proof fn line_sets_field(f: Fields, line: Seq<char>, after: Fields)
    requires
        line.contains(':'),
        with_line(Ok(f), line) == Ok::<Fields, HeaderError>(after),
    ensures
        ({
            let name = field_name(encode_utf8(line_name(line)));
            &&& name is Some
            &&& after.dom() == f.dom().insert(name->0)
            &&& after[name->0] == seq![encode_utf8(line_value(line))]
            &&& forall|other: Seq<char>| other != name->0 && f.dom().contains(other) ==> #[trigger] after[other]
                == f[other]
        }),
{
    let name = field_name(encode_utf8(line_name(line)))->0;
    assert(after.dom() =~= f.dom().insert(name));
}

/// Without options, a header can always be made: it holds the standing fields and the standing
/// user agent.
pub proof fn plain_header()
    ensures
        header_of(None, None, None) == Ok::<Fields, HeaderError>(
            standing_fields().insert("user-agent"@, seq![encode_utf8(USER_AGENT@)]),
        ),
{
    standing_values();
}

/// Names of fields are the same in capital and in small letters.
pub proof fn field_names_fold_case(a: Seq<u8>, b: Seq<u8>)
    requires
        a.len() == b.len(),
        forall|i: int|
            0 <= i < a.len() ==> #[trigger] a[i] == b[i] || (65 <= a[i] <= 90 && b[i] == a[i] + 32),
    ensures
        field_name(a) == field_name(b),
{
    if forall|i: int| 0 <= i < a.len() ==> name_byte(#[trigger] a[i]) is Some {
        assert forall|i: int| 0 <= i < b.len() implies name_byte(#[trigger] b[i]) is Some by {
            assert(name_byte(a[i]) is Some);
        }
    } else {
        let i = choose|i: int| 0 <= i < a.len() && !(name_byte(#[trigger] a[i]) is Some);
        assert(!(name_byte(b[i]) is Some));
    }
    if field_name(a) is Some {
        assert(field_name(a)->0 =~= field_name(b)->0) by {
            assert forall|i: int| 0 <= i < a.len() implies name_byte(#[trigger] a[i]) == name_byte(b[i]) by {}
        }
    }
}

} // verus!
