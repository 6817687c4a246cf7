//! How the client of a run is set up, and which links a list names.
use crate::client::{ClientError, ClientPlan, ControlClient, Disguise, Emulation, ProxyPlan};
use crate::codec::{label_text, outcome, text, utf16_text, utf8_text, DecoderTrap, LABELS};
use crate::config::{decode_list, filled, labelled_text, links, utf16_decode, Config, HeaderError};
use crate::headers::fields;
use crate::laws::header::text_is_cut_at_line_feeds;
use crate::text::{lines, views};
use http::header::{HeaderMap, HeaderValue};
use vstd::prelude::*;

verus! {

/// The client passes for no browser exactly where the options say `None`; where they name none, or
/// one that is not known, for Edge 131; and the two are told apart.
pub proof fn browser_is_chosen(config: Config, r: Result<ClientPlan, ClientError>)
    requires
        call_ensures(ControlClient::create_client, (&config,), r),
    ensures
        r matches Ok(plan) ==> {
            &&& plan.emulation is None <==> text(config.emulation) == Some("None"@)
            &&& plan.disguise == Disguise::Off <==> text(config.emulation) == Some("None"@)
            &&& plan.disguise == Disguise::Default <==> config.emulation is None
            &&& config.emulation is None ==> plan.emulation == Some(Emulation::Edge131)
            &&& plan.disguise == Disguise::Unknown ==> plan.emulation == Some(Emulation::Edge131)
        },
{
}

/// A browser that is known by a name is the one of that name.
pub proof fn browser_of_a_name(config: Config, r: Result<ClientPlan, ClientError>)
    requires
        call_ensures(ControlClient::create_client, (&config,), r),
        config.emulation is Some,
    ensures
        r matches Ok(plan) ==> {
            let name = text(config.emulation)->0;
            &&& plan.disguise == Disguise::Known <==> name == "edge101"@ || name == "edge122"@ || name == "edge127"@
                || name == "edge131"@ || name == "chrome126"@ || name == "chrome127"@ || name == "chrome128"@ || name
                == "chrome129"@ || name == "chrome130"@ || name == "chrome131"@
            &&& name == "edge101"@ ==> plan.emulation == Some(Emulation::Edge101)
            &&& name == "edge122"@ ==> plan.emulation == Some(Emulation::Edge122)
            &&& name == "edge127"@ ==> plan.emulation == Some(Emulation::Edge127)
            &&& name == "edge131"@ ==> plan.emulation == Some(Emulation::Edge131)
            &&& name == "chrome126"@ ==> plan.emulation == Some(Emulation::Chrome126)
            &&& name == "chrome127"@ ==> plan.emulation == Some(Emulation::Chrome127)
            &&& name == "chrome128"@ ==> plan.emulation == Some(Emulation::Chrome128)
            &&& name == "chrome129"@ ==> plan.emulation == Some(Emulation::Chrome129)
            &&& name == "chrome130"@ ==> plan.emulation == Some(Emulation::Chrome130)
            &&& name == "chrome131"@ ==> plan.emulation == Some(Emulation::Chrome131)
        },
{
    reveal_strlit("None");
    reveal_strlit("edge101");
    reveal_strlit("edge122");
    reveal_strlit("edge127");
    reveal_strlit("edge131");
    reveal_strlit("chrome126");
    reveal_strlit("chrome127");
    reveal_strlit("chrome128");
    reveal_strlit("chrome129");
    reveal_strlit("chrome130");
    reveal_strlit("chrome131");
    assert("None"@.len() == 4 && "edge101"@.len() == 7 && "edge122"@.len() == 7 && "edge127"@.len() == 7);
    assert("edge131"@.len() == 7 && "chrome126"@.len() == 9 && "chrome127"@.len() == 9 && "chrome128"@.len() == 9);
    assert("chrome129"@.len() == 9 && "chrome130"@.len() == 9 && "chrome131"@.len() == 9);
    assert("edge101"@[5] == '0' && "edge122"@[5] == '2' && "edge127"@[5] == '2' && "edge131"@[5] == '3');
    assert("edge122"@[6] == '2' && "edge127"@[6] == '7');
    assert("chrome126"@[7] == '2' && "chrome127"@[7] == '2' && "chrome128"@[7] == '2' && "chrome129"@[7] == '2');
    assert("chrome130"@[7] == '3' && "chrome131"@[7] == '3');
    assert("chrome126"@[8] == '6' && "chrome127"@[8] == '7' && "chrome128"@[8] == '8' && "chrome129"@[8] == '9');
    assert("chrome130"@[8] == '0' && "chrome131"@[8] == '1');
}

/// The client does about a proxy what the system asks for where the options say nothing of one, uses
/// none where they say `none`, and else goes through the one at the address that they give, with a
/// login exactly where both its parts are given.
pub proof fn proxy_is_chosen(config: Config, r: Result<ClientPlan, ClientError>)
    requires
        call_ensures(ControlClient::create_client, (&config,), r),
    ensures
        r matches Ok(plan) ==> {
            &&& plan.proxy is System <==> config.proxy_type is None
            &&& plan.proxy is Off <==> text(config.proxy_type) == Some("none"@)
            &&& plan.proxy matches ProxyPlan::Through { url, login } ==> {
                &&& text(config.proxy_url) == Some(url@)
                &&& login is Some <==> config.user_name is Some && config.password is Some
                &&& login matches Some((name, word)) ==> text(config.user_name) == Some(name@) && text(config.password)
                    == Some(word@)
            }
        },
        r is Err <==> config.proxy_type is Some && text(config.proxy_type) != Some("none"@) && config.proxy_url is None,
        r matches Err(error) ==> error == ClientError::NoProxyUrl,
{
}

/// The client of a run sends the header of every request and is set up as any client is. It cannot be
/// had exactly where one of the two cannot, and the header comes first.
pub proof fn client_has_header_and_plan(
    config: Config,
    r: Result<ControlClient, ClientError>,
    h: Result<HeaderMap<HeaderValue>, HeaderError>,
    p: Result<ClientPlan, ClientError>,
)
    requires
        call_ensures(ControlClient::new, (&config,), r),
        call_ensures(Config::generate_header, (&config,), h),
        call_ensures(ControlClient::create_client, (&config,), p),
        crate::laws::header::given_lines(text(config.header)).len() + 6 <= 6554,
    ensures
        r matches Ok(client) ==> {
            &&& h matches Ok(headers) && fields(headers) == fields(client.header)
            &&& p matches Ok(plan) && plan.emulation == client.plan.emulation && plan.disguise == client.plan.disguise
            &&& p matches Ok(plan) && (plan.proxy is System <==> client.plan.proxy is System) && (plan.proxy is Off
                <==> client.plan.proxy is Off)
            &&& client.plan.proxy matches ProxyPlan::Through { url, login } ==> {
                &&& text(config.proxy_url) == Some(url@)
                &&& login is Some <==> config.user_name is Some && config.password is Some
                &&& login matches Some((name, word)) ==> text(config.user_name) == Some(name@) && text(config.password)
                    == Some(word@)
            }
        },
        h matches Err(error) ==> r == Err::<ControlClient, ClientError>(ClientError::Header(error)),
        h is Ok && p is Err ==> r == Err::<ControlClient, ClientError>(ClientError::NoProxyUrl),
{
    if let Ok(client) = r {
        assert(p is Ok) by {
            assert(crate::client::is_proxy_plan(config, client.plan.proxy));
        }
    }
}

/// The client follows ten redirects, tries to connect for half a minute, and gives a request two days.
pub proof fn limits_of_the_client()
    ensures
        crate::client::REDIRECT_LIMIT == 10,
        crate::client::CONNECT_SECONDS * 2 == 60,
        crate::client::REQUEST_HOURS == 2 * 24,
{
}

/// The labels that are tried on a list, in this order: those of Chinese, Cyrillic for DOS, Japanese,
/// Korean, Cyrillic for Unix, and of the parts of ISO 8859 from the second to the eighth, and the
/// tenth.
pub proof fn labels_in_order()
    ensures
        LABELS[0]@ == "gbk"@,
        LABELS[1]@ == "big5"@,
        LABELS[2]@ == "gb18030"@,
        LABELS[3]@ == "866"@,
        LABELS[4]@ == "euc-jp"@,
        LABELS[5]@ == "euc-kr"@,
        LABELS[6]@ == "koi"@,
        LABELS[7]@ == "iso88592"@,
        LABELS[8]@ == "iso88593"@,
        LABELS[9]@ == "iso88594"@,
        LABELS[10]@ == "iso88595"@,
        LABELS[11]@ == "iso88596"@,
        LABELS[12]@ == "iso88597"@,
        LABELS[13]@ == "iso88598"@,
        LABELS[14]@ == "iso885910"@,
{
}

/// A list that is UTF-8 is read as that; else one that is UTF-16, of the byte order that the options
/// say, as that.
pub proof fn list_is_read_as_unicode(bytes: &[u8], utf_be: bool, r: Option<String>)
    requires
        call_ensures(decode_list, (bytes, utf_be), r),
    ensures
        utf8_text(bytes@) is Some ==> text(r) == utf8_text(bytes@),
        utf8_text(bytes@) is None ==> (utf16_text(bytes@, utf_be, DecoderTrap::Strict) matches Ok(s) ==> text(r)
            == Some(s)),
{
}

/// A list in neither is read under the first label that fits it; it cannot be read exactly where
/// none does.
pub proof fn list_is_read_under_a_label(bytes: &[u8], utf_be: bool, r: Option<String>)
    requires
        call_ensures(decode_list, (bytes, utf_be), r),
        utf8_text(bytes@) is None,
        utf16_text(bytes@, utf_be, DecoderTrap::Strict) is Err,
    ensures
        r is None ==> forall|i: int| 0 <= i < 15 ==> label_text(#[trigger] LABELS[i]@, bytes@) is None,
        r is Some ==> exists|i: int| #[trigger] is_first_label(bytes@, i) && label_text(LABELS[i]@, bytes@) == text(r),
{
    first_label_is_taken(bytes@, 0);
}

/// Label `i` fits `bytes`, and none before it does.
pub open spec fn is_first_label(bytes: Seq<u8>, i: int) -> bool {
    &&& 0 <= i < 15
    &&& label_text(LABELS[i]@, bytes) is Some
    &&& forall|k: int| 0 <= k < i ==> label_text(#[trigger] LABELS[k]@, bytes) is None
}

proof fn first_label_is_taken(bytes: Seq<u8>, from: int)
    requires
        0 <= from <= 15,
        forall|k: int| 0 <= k < from ==> label_text(#[trigger] LABELS[k]@, bytes) is None,
    ensures
        labelled_text(bytes, from) is None ==> forall|i: int|
            0 <= i < 15 ==> label_text(#[trigger] LABELS[i]@, bytes) is None,
        labelled_text(bytes, from) is Some ==> exists|i: int| #[trigger]
            is_first_label(bytes, i) && label_text(LABELS[i]@, bytes) == labelled_text(bytes, from),
    decreases 15 - from,
{
    if from < 15 {
        if label_text(LABELS[from]@, bytes) is Some {
            assert(is_first_label(bytes, from));
        } else {
            first_label_is_taken(bytes, from + 1);
        }
    }
}

/// UTF-16 is read in the byte order that is asked for.
pub proof fn byte_order_is_kept(input: &[u8], trap: DecoderTrap, utf_be: bool, r: Result<String, String>)
    requires
        call_ensures(utf16_decode, (input, trap, utf_be), r),
    ensures
        utf_be ==> outcome(r) == utf16_text(input@, true, trap),
        !utf_be ==> outcome(r) == utf16_text(input@, false, trap),
{
}

/// Each line of a list that is not empty is a link, in the order of the list, and nothing else is:
/// a line before the rest comes first, and an empty line changes nothing.
pub proof fn lines_are_links(
    list: &str,
    r: Vec<String>,
    rest: &str,
    s: Vec<String>,
    line: Seq<char>,
)
    requires
        call_ensures(links, (list,), r),
        call_ensures(links, (rest,), s),
        list@ == line.push('\n') + rest@ || list@ == line.push('\r').push('\n') + rest@,
        !line.contains('\n'),
        list@ == line.push('\n') + rest@ ==> line.len() == 0 || line.last() != '\r',
    ensures
        line.len() > 0 ==> views(r@) == seq![line] + views(s@),
        line.len() == 0 ==> views(r@) == views(s@),
{
    text_is_cut_at_line_feeds(line, rest@);
    Seq::filter_distributes_over_add(seq![line], lines(rest@), filled());
    reveal(Seq::filter);
    let one = seq![line];
    assert(one.drop_last() =~= Seq::<Seq<char>>::empty());
    assert(Seq::<Seq<char>>::empty().filter(filled()) =~= Seq::<Seq<char>>::empty());
    if line.len() > 0 {
        assert(one.filter(filled()) =~= one);
    } else {
        assert(one.filter(filled()) =~= Seq::<Seq<char>>::empty());
        assert(Seq::<Seq<char>>::empty() + views(s@) =~= views(s@));
    }
}

/// The last line of a list is a link without a line feed too, and an empty list names none.
pub proof fn last_line_is_a_link(list: &str, r: Vec<String>)
    requires
        call_ensures(links, (list,), r),
        !list@.contains('\n'),
    ensures
        list@.len() > 0 ==> views(r@) == seq![list@],
        list@.len() == 0 ==> r@.len() == 0,
{
    reveal(Seq::filter);
    if list@.len() > 0 {
        text_is_cut_at_line_feeds(list@, Seq::empty());
        let one = seq![list@];
        assert(one.drop_last() =~= Seq::<Seq<char>>::empty());
        assert(Seq::<Seq<char>>::empty().filter(filled()) =~= Seq::<Seq<char>>::empty());
        assert(one.filter(filled()) =~= one);
    } else {
        assert(lines(list@).filter(filled()) =~= Seq::<Seq<char>>::empty());
        assert(views(r@).len() == 0);
    }
}

} // verus!
