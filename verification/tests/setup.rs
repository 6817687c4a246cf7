use http::header::HeaderMap;
use xdown::client::{emulation_of, ClientError, ControlClient, Disguise, Emulation, ProxyPlan};
use xdown::config::{Config, HeaderError};

fn plain() -> Config {
    Config {
        url: "http://h/f".to_string(),
        output: None,
        header: None,
        file: None,
        proxy_url: None,
        emulation: None,
        proxy_type: None,
        user_name: None,
        password: None,
        debug: false,
        user_agent: None,
        retry: 3,
        thread_size: 8,
        delete_stat: false,
        one_download: false,
        cookie: None,
        force_thread: false,
        utf_be: false,
        resumd_min_body: 200,
        post: false,
        sha256: false,
    }
}

fn with_header(text: &str) -> Config {
    Config { header: Some(text.to_string()), ..plain() }
}

fn header(config: &Config) -> HeaderMap {
    config.generate_header().unwrap()
}

#[test]
fn plain_header_holds_the_standing_fields() {
    let h = header(&plain());
    assert_eq!(h.len(), 5);
    assert_eq!(h["priority"], "u=0, i");
    assert_eq!(h["accept-encoding"], "gzip, deflate, br, zstd");
    assert_eq!(h["accept-language"], "zh-CN,zh;q=0.9,en;q=0.8,en-GB;q=0.7,en-US;q=0.6");
    assert_eq!(
        h["accept"],
        "text/html,application/xhtml+xml,application/xml;q=0.9,image/avif,image/webp,image/apng,*/*;q=0.8,application/signed-exchange;v=b3;q=0.7"
    );
    assert_eq!(
        h["user-agent"],
        "Mozilla/5.0 (Windows NT 10.0; Win64; x64) AppleWebKit/537.36 (KHTML, like Gecko) Chrome/131.0.0.0 Safari/537.36 Edg/131.0.0.0"
    );
}

#[test]
fn user_agent_and_cookie_are_sent() {
    let config = Config { user_agent: Some("curl".to_string()), cookie: Some("a=b".to_string()), ..plain() };
    let h = header(&config);
    assert_eq!(h.len(), 6);
    assert_eq!(h["user-agent"], "curl");
    assert_eq!(h["cookie"], "a=b");
}

#[test]
fn lines_set_fields() {
    let h = header(&with_header("Host: example.com:8080\r\nno colon here\nX-Empty:\n  X-Pad  :  v  "));
    assert_eq!(h["host"], "example.com:8080");
    assert_eq!(h["x-empty"], "");
    assert_eq!(h["x-pad"], "v");
    assert_eq!(h.len(), 8);
}

#[test]
fn later_line_takes_the_place_of_an_earlier_field() {
    let h = header(&with_header("ACCEPT: one\naccept: two\nUser-Agent: me"));
    assert_eq!(h["accept"], "two");
    assert_eq!(h.get_all("accept").iter().count(), 1);
    assert_eq!(h["user-agent"], "me");
    assert_eq!(h.len(), 5);
}

#[test]
fn values_may_hold_text_beyond_ascii() {
    let h = header(&with_header("X-Name: 文件"));
    assert_eq!(h["x-name"].as_bytes(), "文件".as_bytes());
}

#[test]
fn flawed_names_are_refused() {
    assert_eq!(with_header(": v").generate_header().err(), Some(HeaderError::Name));
    assert_eq!(with_header("a b: v").generate_header().err(), Some(HeaderError::Name));
    assert_eq!(with_header("文: v").generate_header().err(), Some(HeaderError::Name));
    let long = format!("{}: v", "a".repeat(65536));
    assert_eq!(with_header(&long).generate_header().err(), Some(HeaderError::Name));
    let fits = format!("{}: v", "a".repeat(65535));
    assert!(with_header(&fits).generate_header().is_ok());
}

#[test]
fn flawed_values_are_refused() {
    assert_eq!(with_header("a: \u{7f}").generate_header().err(), Some(HeaderError::Value));
    assert_eq!(with_header("a: x\u{1}y").generate_header().err(), Some(HeaderError::Value));
    assert!(with_header("a: x\ty").generate_header().is_ok());
    let config = Config { user_agent: Some("a\nb".to_string()), ..plain() };
    assert_eq!(config.generate_header().err(), Some(HeaderError::Value));
    let config = Config { cookie: Some("a\rb".to_string()), ..plain() };
    assert_eq!(config.generate_header().err(), Some(HeaderError::Value));
}

#[test]
fn first_flaw_decides() {
    let config = Config { user_agent: Some("a\nb".to_string()), ..with_header("a b: v") };
    assert_eq!(config.generate_header().err(), Some(HeaderError::Value));
    assert_eq!(with_header("a b: v\na: x\u{1}").generate_header().err(), Some(HeaderError::Name));
}

#[test]
fn too_many_fields_are_refused() {
    let mut text = String::new();
    for i in 0..6000 {
        text.push_str(&format!("x-{}: v\n", i));
    }
    assert_eq!(header(&with_header(&text)).len(), 6005);
    for i in 6000..40000 {
        text.push_str(&format!("x-{}: v\n", i));
    }
    assert_eq!(with_header(&text).generate_header().err(), Some(HeaderError::TooMany));
}

#[test]
fn token_characters_make_names() {
    for b in 0..128u8 {
        let c = b as char;
        if c == ':' || c == '\n' || c == '\r' || c.is_whitespace() {
            continue;
        }
        let expected = c.is_ascii_alphanumeric() || "!#$%&'*+-.^_`|~".contains(c);
        assert_eq!(with_header(&format!("{}x: v", c)).generate_header().is_ok(), expected, "{:?}", c);
    }
}

#[test]
fn known_browsers_have_names() {
    assert_eq!(emulation_of("edge131"), Some(Emulation::Edge131));
    assert_eq!(emulation_of("edge101"), Some(Emulation::Edge101));
    assert_eq!(emulation_of("edge122"), Some(Emulation::Edge122));
    assert_eq!(emulation_of("edge127"), Some(Emulation::Edge127));
    assert_eq!(emulation_of("chrome126"), Some(Emulation::Chrome126));
    assert_eq!(emulation_of("chrome127"), Some(Emulation::Chrome127));
    assert_eq!(emulation_of("chrome128"), Some(Emulation::Chrome128));
    assert_eq!(emulation_of("chrome129"), Some(Emulation::Chrome129));
    assert_eq!(emulation_of("chrome130"), Some(Emulation::Chrome130));
    assert_eq!(emulation_of("chrome131"), Some(Emulation::Chrome131));
    assert_eq!(emulation_of("Chrome131"), None);
}

fn disguise(name: Option<&str>) -> (Option<Emulation>, Disguise) {
    let config = Config { emulation: name.map(|n| n.to_string()), ..plain() };
    let plan = ControlClient::create_client(&config).unwrap();
    (plan.emulation, plan.disguise)
}

#[test]
fn browser_is_chosen_by_the_options() {
    assert_eq!(disguise(None), (Some(Emulation::Edge131), Disguise::Default));
    assert_eq!(disguise(Some("None")), (None, Disguise::Off));
    assert_eq!(disguise(Some("chrome128")), (Some(Emulation::Chrome128), Disguise::Known));
    assert_eq!(disguise(Some("none")), (Some(Emulation::Edge131), Disguise::Unknown));
}

#[test]
fn proxy_is_chosen_by_the_options() {
    let text = |s: &str| Some(s.to_string());
    let plan = |config: &Config| ControlClient::create_client(config).unwrap().proxy;
    assert!(matches!(plan(&plain()), ProxyPlan::System));
    let off = Config { proxy_type: text("none"), proxy_url: text("http://p"), ..plain() };
    assert!(matches!(plan(&off), ProxyPlan::Off));
    let through = Config { proxy_type: text("http"), proxy_url: text("http://p"), ..plain() };
    assert!(matches!(plan(&through), ProxyPlan::Through { url, login: None } if url == "http://p"));
    let half = Config { user_name: text("me"), ..through.clone() };
    assert!(matches!(plan(&half), ProxyPlan::Through { login: None, .. }));
    let full = Config { password: text("word"), ..half };
    match plan(&full) {
        ProxyPlan::Through { url, login: Some((name, word)) } => {
            assert_eq!((url.as_str(), name.as_str(), word.as_str()), ("http://p", "me", "word"));
        }
        _ => panic!("no login"),
    }
}

#[test]
fn proxy_without_address_is_refused() {
    let config = Config { proxy_type: Some("socks5".to_string()), ..plain() };
    assert_eq!(ControlClient::create_client(&config).err(), Some(ClientError::NoProxyUrl));
    assert_eq!(ControlClient::new(&config).err(), Some(ClientError::NoProxyUrl));
}

#[test]
fn client_carries_its_header() {
    let client = ControlClient::new(&with_header("X: y")).ok().unwrap();
    assert_eq!(client.header["x"], "y");
    assert_eq!(client.plan.emulation, Some(Emulation::Edge131));
    let flawed = ControlClient::new(&with_header(":")).err();
    assert_eq!(flawed, Some(ClientError::Header(HeaderError::Name)));
}

#[test]
fn host_can_be_given() {
    assert_eq!(header(&with_header("Host: baidu.com"))["host"], "baidu.com");
}
