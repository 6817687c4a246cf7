//! The first reply of a server: what it says of the file, where the file is, and what is done where
//! the server refuses.
use crate::codec::{after_filename, named_file, quoted_name_reads_back, text, utf8_text};
use crate::config::HeaderError;
use crate::headers::{fields, visible_text};
use crate::number::{decimal, decimal_digits, decimal_reads_back, is_digit, u64_value};
use crate::task::{probe_header, LocationStep, Seiki, Task, TaskError};
use http::header::{HeaderMap, HeaderValue};
use vstd::prelude::*;
use vstd::utf8::{
    encode_utf8, encode_utf8_decode_utf8, encode_utf8_valid_utf8, is_ascii_chars, is_ascii_chars_encode_utf8,
};

verus! {

/// Ranges can be asked for where a reply has a content-range field, whatever else it has; likewise
/// where it has an accept-ranges field; and only then.
pub proof fn either_field_offers_ranges(headers: HeaderMap<HeaderValue>)
    ensures
        forall|t: &mut Task, r: Result<(bool, Option<u64>), TaskError>| #[trigger]
            call_ensures(Task::get_header, (t, &headers), r) ==> (r matches Ok((ranges, _)) ==> {
                &&& fields(headers).dom().contains("content-range"@) ==> ranges
                &&& fields(headers).dom().contains("accept-ranges"@) ==> ranges
                &&& ranges ==> fields(headers).dom().contains("content-range"@) || fields(headers).dom().contains(
                    "accept-ranges"@,
                )
            }),
        forall|t: &mut Task, status: u16, tries: u8, r: Result<LocationStep, TaskError>| #[trigger]
            call_ensures(Task::location, (t, status, &headers, tries), r) ==> (r matches Ok(
                LocationStep::Found { ranges, .. },
            ) ==> {
                &&& fields(headers).dom().contains("content-range"@) ==> ranges
                &&& fields(headers).dom().contains("accept-ranges"@) ==> ranges
                &&& ranges ==> fields(headers).dom().contains("content-range"@) || fields(headers).dom().contains(
                    "accept-ranges"@,
                )
            }),
{
}

/// The digits of a number are visible.
proof fn digits_are_visible(n: u64)
    ensures
        visible_text(encode_utf8(decimal(n as nat))) == Some(decimal(n as nat)),
{
    let s = decimal(n as nat);
    decimal_digits(n as nat);
    assert forall|i: int| 0 <= i < s.len() implies #[trigger] s[i] <= '9' by {
        assert(is_digit(s[i]));
    }
    assert(is_ascii_chars(s));
    is_ascii_chars_encode_utf8(s);
    let b = encode_utf8(s);
    assert forall|i: int| 0 <= i < b.len() implies 48 <= #[trigger] b[i] <= 57 && b[i] as char == s[i] by {
        assert(is_digit(s[i]));
        assert(b[i] == s[i] as u8);
    }
    assert(Seq::new(b.len(), |i: int| b[i] as char) =~= s);
}

/// Of a reply whose content-length is written in decimal digits, the length is that number, whatever
/// else the reply has.
pub proof fn length_is_read(headers: HeaderMap<HeaderValue>, n: u64)
    requires
        fields(headers).dom().contains("content-length"@),
        fields(headers)["content-length"@][0] == encode_utf8(decimal(n as nat)),
    ensures
        forall|t: &mut Task, r: Result<(bool, Option<u64>), TaskError>| #[trigger]
            call_ensures(Task::get_header, (t, &headers), r) ==> (r matches Ok((_, length)) && length == Some(n)),
        forall|t: &mut Task, status: u16, tries: u8, r: Result<LocationStep, TaskError>| #[trigger]
            call_ensures(Task::location, (t, status, &headers, tries), r) && (status == 200 || status == 206) ==> (
            r matches Ok(LocationStep::Found { length, .. }) && length == Some(n)),
{
    digits_are_visible(n);
    decimal_reads_back(n);
}

/// A reply is read in full exactly where it has no content-length, and then no length comes out, or
/// where its content-length is visible and a number; the two flaws are told apart.
pub proof fn length_is_refused_exactly(headers: HeaderMap<HeaderValue>)
    ensures
        forall|t: &mut Task, r: Result<(bool, Option<u64>), TaskError>| #[trigger]
            call_ensures(Task::get_header, (t, &headers), r) ==> {
                let given = fields(headers).dom().contains("content-length"@);
                let shown = visible_text(fields(headers)["content-length"@][0]);
                &&& !given ==> (r matches Ok((_, length)) && length is None)
                &&& given && shown is None ==> r == Err::<(bool, Option<u64>), TaskError>(TaskError::Field)
                &&& given && shown is Some && u64_value(shown->0) is None ==> r == Err::<
                    (bool, Option<u64>),
                    TaskError,
                >(TaskError::Length)
                &&& given && shown is Some && u64_value(shown->0) is Some ==> (r matches Ok((_, length)) && length
                    == u64_value(shown->0))
            },
{
}

/// The name of a file is read from a content-disposition that is UTF-8, wherever in it the name
/// stands.
pub proof fn quoted_name_is_taken(headers: HeaderMap<HeaderValue>, before: Seq<char>, name: Seq<char>, rest: Seq<char>)
    requires
        !before.contains('f'),
        !name.contains(';'),
        !name.contains('"'),
        fields(headers).dom().contains("content-disposition"@),
        fields(headers)["content-disposition"@][0] == encode_utf8(
            before + ("filename="@ + seq!['"'] + name + seq!['"'] + rest),
        ),
    ensures
        forall|t: &mut Task, r: Result<(bool, Option<u64>), TaskError>| #[trigger]
            call_ensures(Task::get_header, (t, &headers), r) ==> text(final(t).file_name) == Some(name),
{
    let shown = before + ("filename="@ + seq!['"'] + name + seq!['"'] + rest);
    encode_utf8_valid_utf8(shown);
    encode_utf8_decode_utf8(shown);
    quoted_name_reads_back(name, rest);
    skip_before_filename(before, "filename="@ + seq!['"'] + name + seq!['"'] + rest);
}

/// What stands before the key, and has none of its first letter, does not change what follows it.
proof fn skip_before_filename(before: Seq<char>, s: Seq<char>)
    requires
        !before.contains('f'),
        s.len() >= "filename="@.len(),
    ensures
        after_filename(before + s) == after_filename(s),
        named_file(before + s) == named_file(s),
    decreases before.len(),
{
    reveal_strlit("filename=");
    if before.len() == 0 {
        assert(before + s =~= s);
    } else {
        let all = before + s;
        assert(before.contains(before[0]));
        assert(all.take(9)[0] == before[0]);
        assert(all.drop_first() =~= before.drop_first() + s);
        assert(!before.drop_first().contains('f')) by {
            if before.drop_first().contains('f') {
                let i = choose|i: int| 0 <= i < before.drop_first().len() && before.drop_first()[i] == 'f';
                assert(before[i + 1] == 'f');
            }
        }
        skip_before_filename(before.drop_first(), s);
    }
}

/// A reply without a content-disposition keeps the name that is set, and so does one that gives no
/// name.
pub proof fn name_is_kept(headers: HeaderMap<HeaderValue>)
    requires
        fields(headers).dom().contains("content-disposition"@) ==> (utf8_text(
            fields(headers)["content-disposition"@][0],
        ) matches Some(shown) && named_file(shown) is None),
    ensures
        forall|t: &mut Task, r: Result<(bool, Option<u64>), TaskError>| #[trigger]
            call_ensures(Task::get_header, (t, &headers), r) ==> text(final(t).file_name) == text(t.file_name),
{
}

/// A reply switches further servers on exactly where it has the field for it, never off; besides
/// that and the name it changes nothing.
pub proof fn reply_keeps_the_rest(headers: HeaderMap<HeaderValue>)
    ensures
        forall|t: &mut Task, r: Result<(bool, Option<u64>), TaskError>| #[trigger]
            call_ensures(Task::get_header, (t, &headers), r) ==> {
                &&& final(t).extend.seiki_enable <==> t.extend.seiki_enable || fields(headers).dom().contains(
                    "seiki-enable"@,
                )
                &&& final(t).extend.seiki_server_list == t.extend.seiki_server_list
                &&& final(t).url == t.url
                &&& final(t).output == t.output
                &&& final(t).thread_count == t.thread_count
                &&& final(t).retry == t.retry
                &&& final(t).mode == t.mode
                &&& final(t).delete_stat == t.delete_stat
                &&& final(t).config_retry == t.config_retry
            },
{
}

/// A reply of status 200 or 206 is read, as `get_header` reads it; no other is.
pub proof fn success_is_read(headers: HeaderMap<HeaderValue>, status: u16, tries: u8)
    ensures
        forall|t: &mut Task, r: Result<LocationStep, TaskError>, u: &mut Task, s: Result<(bool, Option<u64>), TaskError>|
            #[trigger]
            call_ensures(Task::location, (t, status, &headers, tries), r) && #[trigger] call_ensures(
                Task::get_header,
                (u, &headers),
                s,
            ) && *t == *u && (status == 200 || status == 206) ==> {
                &&& s matches Ok((ranges, length)) ==> r == Ok::<LocationStep, TaskError>(
                    LocationStep::Found { ranges, length },
                )
                &&& s matches Err(error) ==> r == Err::<LocationStep, TaskError>(error)
                &&& text(final(t).file_name) == text(final(u).file_name)
                &&& final(t).extend == final(u).extend
                &&& final(t).url == t.url
            },
        forall|t: &mut Task, r: Result<LocationStep, TaskError>| #[trigger]
            call_ensures(Task::location, (t, status, &headers, tries), r) && status != 200 && status != 206 ==> !(
            r matches Ok(LocationStep::Found { .. })) && final(t).file_name == t.file_name && final(t).extend
                == t.extend,
{
}

/// A redirect leads to the link that it gives, and nothing else changes the link. The further
/// servers are read exactly where the server has offered them.
pub proof fn redirect_is_followed(headers: HeaderMap<HeaderValue>, status: u16, tries: u8)
    ensures
        forall|t: &mut Task, r: Result<LocationStep, TaskError>| #[trigger]
            call_ensures(Task::location, (t, status, &headers, tries), r) ==> {
                let given = status == 302 && fields(headers).dom().contains("location"@);
                let link = visible_text(fields(headers)["location"@][0]);
                &&& r matches Ok(LocationStep::Moved { servers }) ==> given && link == Some(final(t).url@) && servers
                    == t.extend.seiki_enable
                &&& given && link is Some ==> (r matches Ok(LocationStep::Moved { .. }))
                &&& given && link is None ==> r == Err::<LocationStep, TaskError>(TaskError::Field)
                &&& !(r matches Ok(LocationStep::Moved { .. })) ==> final(t).url == t.url
            },
{
}

/// A server that neither has the file nor redirects is asked again exactly where retries are on and
/// one is left, which is then used up; else it is given up. Nothing changes.
pub proof fn refusal_uses_up_a_try(headers: HeaderMap<HeaderValue>, status: u16, tries: u8)
    requires
        status != 200,
        status != 206,
        status != 302 || !fields(headers).dom().contains("location"@),
    ensures
        forall|t: &mut Task, r: Result<LocationStep, TaskError>| #[trigger]
            call_ensures(Task::location, (t, status, &headers, tries), r) ==> {
                &&& t.config_retry && tries > 0 ==> (r matches Ok(LocationStep::Again { tries: left, .. }) && left + 1
                    == tries)
                &&& !t.config_retry || tries == 0 ==> (r matches Ok(LocationStep::GiveUp { .. }))
                &&& final(t).url == t.url
            },
{
}

/// What is said of a refusal starts with its status.
pub proof fn refusal_names_its_status(headers: HeaderMap<HeaderValue>, status: u16, tries: u8)
    ensures
        forall|t: &mut Task, r: Result<LocationStep, TaskError>| #[trigger]
            call_ensures(Task::location, (t, status, &headers, tries), r) ==> {
                &&& r matches Ok(LocationStep::Again { message, .. }) ==> ("url code is "@ + decimal(
                    status as nat,
                )).is_prefix_of(message@)
                &&& r matches Ok(LocationStep::GiveUp { message }) ==> ("url code is "@ + decimal(
                    status as nat,
                )).is_prefix_of(message@)
            },
{
    reveal_strlit("url code is ");
    reveal_strlit("url code is 302, but not found Location!");
    reveal_strlit("url code is 403!, please check your header!");
    reveal_strlit("url code is 404!, please check your url!");
    reveal_strlit("url code is 429!, please reduce requests!");
    reveal_strlit("url code is 500?");
    reveal_with_fuel(decimal, 4);
    assert(decimal(302) =~= seq!['3', '0', '2']);
    assert(decimal(403) =~= seq!['4', '0', '3']);
    assert(decimal(404) =~= seq!['4', '0', '4']);
    assert(decimal(429) =~= seq!['4', '2', '9']);
    assert(decimal(500) =~= seq!['5', '0', '0']);
}

/// What is said of a refusal: for five statuses what to do about it, and else the status alone.
pub proof fn refusal_is_explained(headers: HeaderMap<HeaderValue>, status: u16, tries: u8)
    ensures
        forall|t: &mut Task, r: Result<LocationStep, TaskError>| #[trigger]
            call_ensures(Task::location, (t, status, &headers, tries), r) ==> {
                let words = match r {
                    Ok(LocationStep::Again { message, .. }) => Some(message@),
                    Ok(LocationStep::GiveUp { message }) => Some(message@),
                    _ => None,
                };
                words matches Some(said) ==> {
                    &&& status == 302 ==> said == "url code is 302, but not found Location!"@
                    &&& status == 403 ==> said == "url code is 403!, please check your header!"@
                    &&& status == 404 ==> said == "url code is 404!, please check your url!"@
                    &&& status == 429 ==> said == "url code is 429!, please reduce requests!"@
                    &&& status == 500 ==> said == "url code is 500?"@
                    &&& status != 302 && status != 403 && status != 404 && status != 429 && status != 500 ==> said
                        == "url code is "@ + decimal(status as nat)
                }
            },
{
}

/// No reply changes the settings of a download.
pub proof fn settings_outlast_replies(headers: HeaderMap<HeaderValue>, status: u16, tries: u8)
    ensures
        forall|t: &mut Task, r: Result<LocationStep, TaskError>| #[trigger]
            call_ensures(Task::location, (t, status, &headers, tries), r) ==> {
                &&& final(t).output == t.output
                &&& final(t).thread_count == t.thread_count
                &&& final(t).retry == t.retry
                &&& final(t).mode == t.mode
                &&& final(t).delete_stat == t.delete_stat
                &&& final(t).config_retry == t.config_retry
                &&& final(t).extend.seiki_server_list == t.extend.seiki_server_list
            },
{
}

/// The first request asks for the file from its first byte on, and for the rest as every request.
pub proof fn probe_adds_a_range(
    header: HeaderMap<HeaderValue>,
    r: Result<HeaderMap<HeaderValue>, HeaderError>,
    other: Seq<char>,
)
    requires
        call_ensures(probe_header, (&header,), r),
        other != "range"@,
    ensures
        fields(header).dom().len() < 6554 ==> r is Ok,
        r matches Ok(probe) ==> {
            &&& fields(probe).dom().contains("range"@)
            &&& fields(probe)["range"@].last() == encode_utf8("bytes=0-"@)
            &&& fields(probe)["range"@].drop_last() == (if fields(header).dom().contains("range"@) {
                fields(header)["range"@]
            } else {
                Seq::empty()
            })
            &&& fields(probe).dom().contains(other) == fields(header).dom().contains(other)
            &&& fields(header).dom().contains(other) ==> fields(probe)[other] == fields(header)[other]
        },
{
    if let Ok(probe) = r {
        if fields(header).dom().contains("range"@) {
            assert(fields(probe)["range"@].drop_last() =~= fields(header)["range"@]);
        } else {
            assert(fields(probe)["range"@].drop_last() =~= Seq::<Seq<u8>>::empty());
        }
    }
}

/// The servers that a server sends are kept as they are, and nothing else changes.
pub proof fn sent_servers_are_kept(seiki: Seiki)
    ensures
        forall|t: &mut Task, r: ()| #[trigger]
            call_ensures(Task::keep_servers, (t, seiki), r) ==> {
                &&& final(t).extend.seiki_server_list == seiki.server
                &&& final(t).extend.seiki_enable == t.extend.seiki_enable
                &&& final(t).url == t.url
                &&& final(t).file_name == t.file_name
                &&& final(t).output == t.output
                &&& final(t).thread_count == t.thread_count
                &&& final(t).retry == t.retry
                &&& final(t).mode == t.mode
                &&& final(t).delete_stat == t.delete_stat
                &&& final(t).config_retry == t.config_retry
            },
{
}

} // verus!
