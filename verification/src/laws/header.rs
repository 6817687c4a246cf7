//! The header of every request, and what the options say in it.
use crate::codec::text;
use crate::config::{
    header_of, line_name, line_value, with_lines, Config, Fields, HeaderError,
};
use crate::headers::{field_name, fields, is_value};
use crate::text::{before_first_at, is_space, lines, trim_end, trim_start, trimmed};
use http::header::{HeaderMap, HeaderValue};
use vstd::prelude::*;
use vstd::utf8::encode_utf8;

verus! {

/// `line` of the options names the field `name`.
pub open spec fn names(line: Seq<char>, name: Seq<char>) -> bool {
    line.contains(':') && field_name(encode_utf8(line_name(line))) == Some(name)
}

/// No line of the options from `from` on names the field `name`.
pub open spec fn unnamed_from(list: Seq<Seq<char>>, from: int, name: Seq<char>) -> bool {
    forall|j: int| from <= j < list.len() ==> !#[trigger] names(list[j], name)
}

/// `line` of the options can be used: it has no colon, or a name before it and a value behind it.
pub open spec fn is_usable(line: Seq<char>) -> bool {
    line.contains(':') ==> field_name(encode_utf8(line_name(line))) is Some && is_value(encode_utf8(line_value(line)))
}

/// The lines of further fields that the options give.
pub open spec fn given_lines(header: Option<Seq<char>>) -> Seq<Seq<char>> {
    match header {
        Some(s) => lines(s),
        None => Seq::empty(),
    }
}

/// The last line that names a field sets it.
proof fn last_line_wins(f: Fields, list: Seq<Seq<char>>, after: Fields, k: int, name: Seq<char>)
    requires
        with_lines(Ok(f), list) == Ok::<Fields, HeaderError>(after),
        0 <= k < list.len(),
        names(list[k], name),
        unnamed_from(list, k + 1, name),
    ensures
        after.dom().contains(name),
        after[name] == seq![encode_utf8(line_value(list[k]))],
    decreases list.len(),
{
    let shorter = list.drop_last();
    let before = with_lines(Ok(f), shorter);
    assert(before is Ok);
    if k < list.len() - 1 {
        assert(!names(list[list.len() - 1], name));
        assert forall|j: int| k + 1 <= j < shorter.len() implies !#[trigger] names(shorter[j], name) by {
            assert(!names(list[j], name));
        }
        last_line_wins(f, shorter, before->Ok_0, k, name);
    }
}

/// A field that no line names stays as it was.
proof fn unnamed_field_stays(f: Fields, list: Seq<Seq<char>>, after: Fields, name: Seq<char>)
    requires
        with_lines(Ok(f), list) == Ok::<Fields, HeaderError>(after),
        unnamed_from(list, 0, name),
    ensures
        after.dom().contains(name) == f.dom().contains(name),
        after[name] == f[name],
    decreases list.len(),
{
    if list.len() > 0 {
        let shorter = list.drop_last();
        let before = with_lines(Ok(f), shorter);
        assert(before is Ok);
        assert(!names(list[list.len() - 1], name));
        assert forall|j: int| 0 <= j < shorter.len() implies !#[trigger] names(shorter[j], name) by {
            assert(!names(list[j], name));
        }
        unnamed_field_stays(f, shorter, before->Ok_0, name);
    }
}

/// Lines can be used together exactly where each can.
proof fn usable_lines(f: Fields, list: Seq<Seq<char>>)
    ensures
        with_lines(Ok(f), list) is Ok <==> forall|j: int| 0 <= j < list.len() ==> #[trigger] is_usable(list[j]),
        with_lines(Ok(f), list) != Err::<Fields, HeaderError>(HeaderError::TooMany),
    decreases list.len(),
{
    if list.len() > 0 {
        let shorter = list.drop_last();
        usable_lines(f, shorter);
        if forall|j: int| 0 <= j < list.len() ==> #[trigger] is_usable(list[j]) {
            assert forall|j: int| 0 <= j < shorter.len() implies #[trigger] is_usable(shorter[j]) by {
                assert(is_usable(list[j]));
            }
            assert(is_usable(list[list.len() - 1]));
        }
        if with_lines(Ok(f), list) is Ok {
            assert(with_lines(Ok(f), shorter) is Ok);
            assert forall|j: int| 0 <= j < list.len() implies #[trigger] is_usable(list[j]) by {
                if j < shorter.len() {
                    assert(is_usable(shorter[j]));
                }
            }
        }
    }
}

/// The header before the further fields.
spec fn first_fields(user_agent: Option<Seq<char>>, cookie: Option<Seq<char>>) -> Result<Fields, HeaderError> {
    header_of(user_agent, cookie, None)
}

proof fn lines_come_last(user_agent: Option<Seq<char>>, cookie: Option<Seq<char>>, header: Option<Seq<char>>)
    ensures
        header_of(user_agent, cookie, header) == with_lines(
            first_fields(user_agent, cookie),
            given_lines(header),
        ),
{
}

proof fn flaw_stays(made: Result<Fields, HeaderError>, list: Seq<Seq<char>>)
    requires
        made is Err,
    ensures
        with_lines(made, list) == made,
    decreases list.len(),
{
    if list.len() > 0 {
        flaw_stays(made, list.drop_last());
    }
}

proof fn names_differ()
    ensures
        "cookie"@ != "user-agent"@,
        "cookie"@ != "priority"@,
        "cookie"@ != "accept"@,
        "cookie"@ != "accept-encoding"@,
        "cookie"@ != "accept-language"@,
        "user-agent"@ != "priority"@,
        "user-agent"@ != "accept"@,
        "user-agent"@ != "accept-encoding"@,
        "user-agent"@ != "accept-language"@,
        "priority"@ != "accept"@,
        "priority"@ != "accept-encoding"@,
        "priority"@ != "accept-language"@,
        "accept"@ != "accept-encoding"@,
        "accept"@ != "accept-language"@,
        "accept-encoding"@ != "accept-language"@,
{
    reveal_strlit("cookie");
    reveal_strlit("user-agent");
    reveal_strlit("priority");
    reveal_strlit("accept");
    reveal_strlit("accept-encoding");
    reveal_strlit("accept-language");
    assert("cookie"@.len() == 6 && "user-agent"@.len() == 10 && "priority"@.len() == 8);
    assert("accept"@.len() == 6 && "accept-encoding"@.len() == 15 && "accept-language"@.len() == 15);
    assert("cookie"@[0] != "accept"@[0]);
    assert("accept-encoding"@[7] != "accept-language"@[7]);
}

/// Whatever else the options give, a made header holds for each field that a line names just the
/// value of the last line that names it.
pub proof fn line_is_in_the_header(
    config: Config,
    headers: HeaderMap<HeaderValue>,
    k: int,
    name: Seq<char>,
)
    requires
        call_ensures(Config::generate_header, (&config,), Ok(headers)),
        0 <= k < given_lines(text(config.header)).len(),
        names(given_lines(text(config.header))[k], name),
        unnamed_from(given_lines(text(config.header)), k + 1, name),
    ensures
        fields(headers).dom().contains(name),
        fields(headers)[name] == seq![encode_utf8(line_value(given_lines(text(config.header))[k]))],
{
    let list = given_lines(text(config.header));
    let made = first_fields(text(config.user_agent), text(config.cookie));
    lines_come_last(text(config.user_agent), text(config.cookie), text(config.header));
    if made is Err {
        flaw_stays(made, list);
    }
    last_line_wins(made->Ok_0, list, fields(headers), k, name);
}

/// Whatever else the options give, a made header holds the cookie just where one is given and no
/// line names one; where no line names it, the user agent is the given one, or else the standing
/// one; the four standing fields stand where no line names them; and no other field is there.
pub proof fn unnamed_fields_are_in_the_header(config: Config, headers: HeaderMap<HeaderValue>, name: Seq<char>)
    requires
        call_ensures(Config::generate_header, (&config,), Ok(headers)),
        unnamed_from(given_lines(text(config.header)), 0, name),
    ensures
        name == "cookie"@ ==> {
            &&& fields(headers).dom().contains(name) <==> config.cookie is Some
            &&& text(config.cookie) matches Some(cookie) ==> fields(headers)[name] == seq![encode_utf8(cookie)]
        },
        name == "user-agent"@ ==> fields(headers).dom().contains(name) && fields(headers)[name] == seq![
            encode_utf8(
                match text(config.user_agent) {
                    Some(agent) => agent,
                    None => crate::config::USER_AGENT@,
                },
            ),
        ],
        name == "priority"@ ==> fields(headers).dom().contains(name) && fields(headers)[name] == seq![
            encode_utf8(crate::config::PRIORITY@),
        ],
        name == "accept"@ ==> fields(headers).dom().contains(name) && fields(headers)[name] == seq![
            encode_utf8(crate::config::ACCEPT@),
        ],
        name == "accept-encoding"@ ==> fields(headers).dom().contains(name) && fields(headers)[name] == seq![
            encode_utf8(crate::config::ACCEPT_ENCODING@),
        ],
        name == "accept-language"@ ==> fields(headers).dom().contains(name) && fields(headers)[name] == seq![
            encode_utf8(crate::config::ACCEPT_LANGUAGE@),
        ],
        fields(headers).dom().contains(name) ==> name == "cookie"@ || name == "user-agent"@ || name == "priority"@
            || name == "accept"@ || name == "accept-encoding"@ || name == "accept-language"@,
{
    let list = given_lines(text(config.header));
    let made = first_fields(text(config.user_agent), text(config.cookie));
    lines_come_last(text(config.user_agent), text(config.cookie), text(config.header));
    if made is Err {
        flaw_stays(made, list);
    }
    unnamed_field_stays(made->Ok_0, list, fields(headers), name);
    names_differ();
}

/// The texts of the standing fields, and of the standing user agent.
pub proof fn standing_texts()
    ensures
        crate::config::PRIORITY@ == "u=0, i"@,
        crate::config::ACCEPT@
            == "text/html,application/xhtml+xml,application/xml;q=0.9,image/avif,image/webp,image/apng,*/*;q=0.8,application/signed-exchange;v=b3;q=0.7"@,
        crate::config::ACCEPT_ENCODING@ == "gzip, deflate, br, zstd"@,
        crate::config::ACCEPT_LANGUAGE@ == "zh-CN,zh;q=0.9,en;q=0.8,en-GB;q=0.7,en-US;q=0.6"@,
        crate::config::USER_AGENT@
            == "Mozilla/5.0 (Windows NT 10.0; Win64; x64) AppleWebKit/537.36 (KHTML, like Gecko) Chrome/131.0.0.0 Safari/537.36 Edg/131.0.0.0"@,
{
}

/// A header can be made of all options whose user agent, cookie and lines can be used, and are not
/// too many; of no others, and the error says so.
pub proof fn header_is_made_exactly(config: Config, r: Result<HeaderMap<HeaderValue>, HeaderError>)
    requires
        call_ensures(Config::generate_header, (&config,), r),
    ensures
        ({
            let list = given_lines(text(config.header));
            let usable = {
                &&& text(config.user_agent) matches Some(agent) ==> is_value(encode_utf8(agent))
                &&& text(config.cookie) matches Some(cookie) ==> is_value(encode_utf8(cookie))
                &&& forall|j: int| 0 <= j < list.len() ==> #[trigger] is_usable(list[j])
            };
            &&& r is Ok ==> usable
            &&& usable && list.len() + 6 <= 6554 ==> r is Ok
            &&& r matches Err(error) ==> (error == HeaderError::TooMany ==> list.len() + 6 > 6554)
            &&& r matches Err(error) ==> (error != HeaderError::TooMany ==> !usable)
        }),
{
    let list = given_lines(text(config.header));
    let made = first_fields(text(config.user_agent), text(config.cookie));
    lines_come_last(text(config.user_agent), text(config.cookie), text(config.header));
    crate::config::plain_header();
    assert(is_value(encode_utf8(crate::config::USER_AGENT@))) by {
        assert(header_of(None, None, None) is Ok);
    }
    if made is Err {
        flaw_stays(made, list);
    } else {
        usable_lines(made->Ok_0, list);
    }
}

/// `line` is the first that cannot be used, and `error` says what is wrong with it.
pub open spec fn is_first_flaw(list: Seq<Seq<char>>, k: int, error: HeaderError) -> bool {
    &&& 0 <= k < list.len()
    &&& !is_usable(list[k])
    &&& forall|j: int| 0 <= j < k ==> #[trigger] is_usable(list[j])
    &&& error == HeaderError::Name <==> field_name(encode_utf8(line_name(list[k]))) is None
    &&& error == HeaderError::Value <==> field_name(encode_utf8(line_name(list[k]))) is Some
}

proof fn first_flaw_is_told(f: Fields, list: Seq<Seq<char>>, error: HeaderError)
    requires
        with_lines(Ok(f), list) == Err::<Fields, HeaderError>(error),
    ensures
        exists|k: int| #[trigger] is_first_flaw(list, k, error),
    decreases list.len(),
{
    if list.len() > 0 {
        let shorter = list.drop_last();
        usable_lines(f, shorter);
        if with_lines(Ok(f), shorter) is Err {
            first_flaw_is_told(f, shorter, error);
            let k = choose|k: int| #[trigger] is_first_flaw(shorter, k, error);
            assert forall|j: int| 0 <= j < k implies #[trigger] is_usable(list[j]) by {
                assert(is_usable(shorter[j]));
            }
            assert(is_first_flaw(list, k, error));
        } else {
            assert forall|j: int| 0 <= j < list.len() - 1 implies #[trigger] is_usable(list[j]) by {
                assert(is_usable(shorter[j]));
            }
            assert(is_first_flaw(list, list.len() - 1, error));
        }
    }
}

/// The error tells the first flaw: that of the user agent or the cookie, which are values, or else
/// that of the first line that cannot be used.
pub proof fn first_flaw_of_the_options_is_told(config: Config, error: HeaderError)
    requires
        call_ensures(
            Config::generate_header,
            (&config,),
            Err::<HeaderMap<HeaderValue>, HeaderError>(error),
        ),
        error != HeaderError::TooMany,
    ensures
        ({
            let values = {
                &&& text(config.user_agent) matches Some(agent) ==> is_value(encode_utf8(agent))
                &&& text(config.cookie) matches Some(cookie) ==> is_value(encode_utf8(cookie))
            };
            &&& !values ==> error == HeaderError::Value
            &&& values ==> exists|k: int| #[trigger] is_first_flaw(given_lines(text(config.header)), k, error)
        }),
{
    let list = given_lines(text(config.header));
    let made = first_fields(text(config.user_agent), text(config.cookie));
    lines_come_last(text(config.user_agent), text(config.cookie), text(config.header));
    crate::config::plain_header();
    assert(is_value(encode_utf8(crate::config::USER_AGENT@))) by {
        assert(header_of(None, None, None) is Ok);
    }
    if made is Err {
        flaw_stays(made, list);
    } else {
        first_flaw_is_told(made->Ok_0, list, error);
    }
}

/// A line is cut at its first colon, and both parts are freed of white space at either end.
pub proof fn line_is_cut_at_its_first_colon(name: Seq<char>, value: Seq<char>)
    requires
        !name.contains(':'),
    ensures
        line_name(name.push(':') + value) == trimmed(name),
        line_value(name.push(':') + value) == trimmed(value),
{
    let line = name.push(':') + value;
    assert forall|j: int| 0 <= j < name.len() implies line[j] != ':' by {
        assert(name.contains(name[j]));
    }
    before_first_at(line, ':', name.len() as int);
    assert(line.take(name.len() as int) =~= name);
    assert(line.skip(name.len() as int + 1) =~= value);
}

/// White space at either end is dropped, all of it and nothing else.
pub proof fn white_space_is_dropped(before: Seq<char>, s: Seq<char>, behind: Seq<char>)
    requires
        forall|i: int| 0 <= i < before.len() ==> is_space(#[trigger] before[i]),
        forall|i: int| 0 <= i < behind.len() ==> is_space(#[trigger] behind[i]),
        s.len() > 0 ==> !is_space(s[0]) && !is_space(s.last()),
    ensures
        trimmed(before + s + behind) == s,
    decreases before.len() + behind.len(),
{
    let all = before + s + behind;
    if before.len() > 0 {
        assert(all[0] == before[0]);
        assert(all.drop_first() =~= before.drop_first() + s + behind);
        white_space_is_dropped(before.drop_first(), s, behind);
    } else if s.len() > 0 {
        assert(all[0] == s[0]);
        assert(trim_start(all) == all);
        trailing_space_is_dropped(s, behind);
        assert(all =~= s + behind);
    } else if behind.len() > 0 {
        assert(all[0] == behind[0]);
        assert(all.drop_first() =~= before + s + behind.drop_first());
        white_space_is_dropped(before, s, behind.drop_first());
    } else {
        assert(all =~= s);
    }
}

/// White space is what Unicode says it is.
pub proof fn white_space_of_unicode(c: char)
    ensures
        ({
            let x = c as int;
            is_space(c) <==> 9 <= x <= 13 || x == 32 || x == 133 || x == 160 || x == 5760 || 8192 <= x <= 8202 || x
                == 8232 || x == 8233 || x == 8239 || x == 8287 || x == 12288
        }),
{
}

proof fn trailing_space_is_dropped(s: Seq<char>, behind: Seq<char>)
    requires
        forall|i: int| 0 <= i < behind.len() ==> is_space(#[trigger] behind[i]),
        s.len() > 0,
        !is_space(s.last()),
    ensures
        trim_end(s + behind) == s,
    decreases behind.len(),
{
    if behind.len() > 0 {
        assert((s + behind).last() == behind.last());
        assert((s + behind).drop_last() =~= s + behind.drop_last());
        trailing_space_is_dropped(s, behind.drop_last());
    } else {
        assert(s + behind =~= s);
    }
}

/// A text is cut into lines at its line feeds; one carriage return before a line feed goes with it,
/// and what stands after the last line feed is a line unless it is empty.
pub proof fn text_is_cut_at_line_feeds(line: Seq<char>, rest: Seq<char>)
    requires
        !line.contains('\n'),
    ensures
        line.len() == 0 || line.last() != '\r' ==> lines(line.push('\n') + rest) == seq![line] + lines(rest),
        lines(line.push('\r').push('\n') + rest) == seq![line] + lines(rest),
        line.len() > 0 ==> lines(line) == seq![line],
        line.len() == 0 ==> lines(line) == Seq::<Seq<char>>::empty(),
{
    line_is_cut_off(line, rest);
    assert forall|i: int| 0 <= i < line.push('\r').len() implies line.push('\r')[i] != '\n' by {
        if i < line.len() {
            assert(line.contains(line[i]));
        }
    }
    assert(!line.push('\r').contains('\n'));
    line_is_cut_off(line.push('\r'), rest);
    assert(line.push('\r').drop_last() =~= line);
    if line.len() > 0 {
        assert forall|i: int| 0 <= i < line.len() implies line[i] != '\n' by {
            assert(line.contains(line[i]));
        }
        before_first_at(line, '\n', line.len() as int);
        assert(line.take(line.len() as int) =~= line);
    }
}

proof fn line_is_cut_off(head: Seq<char>, rest: Seq<char>)
    requires
        !head.contains('\n'),
    ensures
        lines(head.push('\n') + rest) == seq![crate::text::strip_return(head)] + lines(rest),
{
    let s = head.push('\n') + rest;
    assert forall|i: int| 0 <= i < head.len() implies s[i] != '\n' by {
        assert(head.contains(head[i]));
    }
    before_first_at(s, '\n', head.len() as int);
    assert(s.take(head.len() as int) =~= head);
    assert(s.skip(head.len() as int + 1) =~= rest);
}

} // verus!
