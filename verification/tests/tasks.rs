use http::header::{HeaderMap, HeaderName, HeaderValue};
use std::collections::HashMap;
use xdown::board::{Board, Lag, ResumeError, Sjson};
use xdown::config::{Config, HeaderError};
use xdown::single::{BlockStep, OneDownload};
use xdown::task::{
    disposition_name, probe_header, DownloadState, Extend, HttpMode, LocationStep, Reuse, ReusePlan, Seiki, Task,
    TaskError,
};

fn options() -> Config {
    Config {
        url: "https://h/dir/%E6%96%87.zip?x=1".to_string(),
        output: None,
        header: None,
        file: None,
        proxy_url: None,
        emulation: None,
        proxy_type: None,
        user_name: None,
        password: None,
        debug: false,
        user_agent: None,
        retry: 3,
        thread_size: 8,
        delete_stat: false,
        one_download: false,
        cookie: None,
        force_thread: false,
        utf_be: false,
        resumd_min_body: 200,
        post: false,
        sha256: false,
    }
}

fn task() -> Task {
    Task::create_task(&options())
}

fn reply(fields: &[(&str, &str)]) -> HeaderMap {
    let mut headers = HeaderMap::new();
    for (name, value) in fields {
        headers.append(
            HeaderName::from_bytes(name.as_bytes()).unwrap(),
            HeaderValue::from_bytes(value.as_bytes()).unwrap(),
        );
    }
    headers
}

#[test]
fn new_server_offers_nothing() {
    let extend = Extend::new();
    assert!(!extend.seiki_enable);
    assert!(extend.seiki_server_list.is_empty());
    assert!(!Extend::default().seiki_enable);
}

#[test]
fn download_is_over_with_its_bytes() {
    let DownloadState::Over(bytes) = DownloadState::Over(9);
    assert_eq!(bytes, 9);
}

#[test]
fn task_follows_the_options() {
    let config = Config {
        output: Some("out".to_string()),
        post: true,
        retry: 9,
        thread_size: 4,
        delete_stat: true,
        ..options()
    };
    let t = Task::create_task(&config);
    assert_eq!(t.url, config.url);
    assert_eq!(t.output, Some("out".to_string()));
    assert_eq!(t.mode, HttpMode::POST);
    assert_eq!((t.retry, t.thread_count, t.delete_stat, t.config_retry), (9, 4, true, true));
    assert_eq!(t.file_name, None);
    assert_eq!(task().mode, HttpMode::GET);
}

#[test]
fn next_link_starts_afresh() {
    let mut t = task();
    t.output = Some("out".to_string());
    t.file_name = Some("name".to_string());
    t.extend.seiki_enable = true;
    t.mode = HttpMode::POST;
    t.reset_url("http://h/next".to_string());
    assert_eq!(t.url, "http://h/next");
    assert_eq!((t.output.clone(), t.file_name.clone(), t.retry), (None, None, 5));
    assert_eq!((t.mode, t.thread_count, t.extend.seiki_enable), (HttpMode::POST, 8, true));
    assert_eq!(t.filename(), Ok("next".to_string()));
}

#[test]
fn link_names_the_file() {
    let mut t = task();
    assert_eq!(t.filename(), Ok("文.zip".to_string()));
    t.url = "https://h/a%20b%2".to_string();
    assert_eq!(t.filename(), Ok("a b%2".to_string()));
    t.url = "https://h/%zz%41".to_string();
    assert_eq!(t.filename(), Ok("%zzA".to_string()));
    t.url = "https://h/%ff".to_string();
    assert_eq!(t.filename(), Err(TaskError::Name));
    t.file_name = Some("%ff".to_string());
    assert_eq!(t.filename(), Ok("%ff".to_string()));
}

#[test]
fn plain_name_stands_for_itself() {
    let mut t = task();
    for name in ["a.b", "文 件", "+", ""] {
        t.url = format!("https://h/{}", name);
        assert_eq!(t.filename(), Ok(name.to_string()));
    }
}

#[test]
fn path_follows_the_output() {
    let mut t = task();
    assert_eq!(t.save_path(false), Ok("文.zip".to_string()));
    assert_eq!(t.save_path(true), Ok("文.zip".to_string()));
    t.output = Some("dir".to_string());
    assert_eq!(t.save_path(true), Ok("dir/文.zip".to_string()));
    assert_eq!(t.save_path(false), Ok("dir".to_string()));
    t.url = "https://h/%ff".to_string();
    assert_eq!(t.save_path(true), Err(TaskError::Name));
    assert_eq!(t.save_path(false), Ok("dir".to_string()));
    t.output = None;
    assert_eq!(t.save_path(false), Err(TaskError::Name));
}

#[test]
fn record_is_named_after_the_file() {
    let mut t = task();
    assert_eq!(t.record_name(), Ok("文zip.json".to_string()));
    t.url = "https://h/%ff".to_string();
    assert_eq!(t.record_name(), Err(TaskError::Name));
}

#[test]
fn connection_follows_the_task() {
    let mut t = task();
    t.output = Some("/tmp/".to_string());
    let p = t.create_process(true).unwrap();
    assert_eq!(p.file_path, "/tmp/文.zip");
    assert_eq!((p.max_retry, p.retry, p.mode), (15, 0, HttpMode::GET));
    assert_eq!(p.url, t.url);
    t.url = "%ff".to_string();
    assert_eq!(t.create_process(true).err(), Some(TaskError::Name));
}

#[test]
fn header_of_a_file_is_read() {
    let mut t = task();
    let r = t.get_header(&reply(&[
        ("Accept-Ranges", "bytes"),
        ("Content-Length", "1024"),
        ("Content-Disposition", "attachment; filename=\"a b.zip\"; x=y"),
    ]));
    assert_eq!(r, Ok((true, Some(1024))));
    assert_eq!(t.file_name, Some("a b.zip".to_string()));
    assert!(!t.extend.seiki_enable);
}

#[test]
fn empty_header_says_nothing() {
    let mut t = task();
    t.file_name = Some("kept".to_string());
    assert_eq!(t.get_header(&reply(&[])), Ok((false, None)));
    assert_eq!(t.file_name, Some("kept".to_string()));
    assert_eq!(t.get_header(&reply(&[("content-range", "bytes 0-1/2")])), Ok((true, None)));
    assert_eq!(t.get_header(&reply(&[("content-disposition", "inline")])), Ok((false, None)));
    assert_eq!(t.file_name, Some("kept".to_string()));
}

#[test]
fn flawed_lengths_are_refused() {
    let mut t = task();
    assert_eq!(t.get_header(&reply(&[("content-length", "12a")])), Err(TaskError::Length));
    assert_eq!(t.get_header(&reply(&[("content-length", "")])), Err(TaskError::Length));
    assert_eq!(t.get_header(&reply(&[("content-length", "１")])), Err(TaskError::Field));
    assert_eq!(t.get_header(&reply(&[("content-length", "1"), ("content-length", "x")])), Ok((false, Some(1))));
    let flawed = reply(&[("content-length", "x"), ("seiki-enable", ""), ("content-disposition", "filename=n")]);
    assert_eq!(t.get_header(&flawed), Err(TaskError::Length));
    assert_eq!(t.file_name, Some("n".to_string()));
    assert!(t.extend.seiki_enable);
}

#[test]
fn name_that_is_no_utf8_is_read_with_replacements() {
    let mut t = task();
    let mut headers = HeaderMap::new();
    let value = HeaderValue::from_bytes(b"filename=a\xffb").unwrap();
    headers.insert("content-disposition", value);
    assert_eq!(t.get_header(&headers), Ok((false, None)));
    assert_eq!(t.file_name, Some("a\u{fffd}b".to_string()));
}

#[test]
fn disposition_gives_the_name() {
    let name = |s: &str| disposition_name(s);
    assert_eq!(name("filename=a.zip"), Some("a.zip".to_string()));
    assert_eq!(name("attachment; filename=\"a;b\""), Some("a".to_string()));
    assert_eq!(name("attachment; filename=a\"b"), Some("a".to_string()));
    assert_eq!(name("filename=\"\""), Some("".to_string()));
    assert_eq!(name("filename="), Some("".to_string()));
    assert_eq!(name("filename=\"\"x\""), Some("".to_string()));
    assert_eq!(name("xfilename=1; filename=2"), Some("1".to_string()));
    assert_eq!(name("filenamefilename=x y\nz;"), Some("x y\nz".to_string()));
    assert_eq!(name("filename*=UTF-8''a"), None);
    assert_eq!(name("Filename=a"), None);
    assert_eq!(name("filename"), None);
    assert_eq!(name(""), None);
}

#[test]
fn quoted_name_is_read_whole() {
    for file in ["x", "", "文 件.zip", "a=b,c"] {
        let text = format!("filename=\"{}\"; filename=\"other\"", file);
        assert_eq!(disposition_name(&text), Some(file.to_string()));
    }
}

#[test]
fn file_is_found() {
    let mut t = task();
    for status in [200, 206] {
        let step = t.location(status, &reply(&[("content-length", "5"), ("accept-ranges", "bytes")]), 3);
        assert!(matches!(step, Ok(LocationStep::Found { ranges: true, length: Some(5) })));
    }
    assert_eq!(t.location(200, &reply(&[("content-length", "x")]), 3).err(), Some(TaskError::Length));
}

#[test]
fn redirect_is_followed() {
    let mut t = task();
    let step = t.location(302, &reply(&[("Location", "http://elsewhere/f")]), 0);
    assert!(matches!(step, Ok(LocationStep::Moved { servers: false })));
    assert_eq!(t.url, "http://elsewhere/f");
    t.extend.seiki_enable = true;
    let step = t.location(302, &reply(&[("location", "http://third/f")]), 0);
    assert!(matches!(step, Ok(LocationStep::Moved { servers: true })));
    assert_eq!(t.location(302, &reply(&[("location", "http://文/f")]), 0).err(), Some(TaskError::Field));
    assert_eq!(t.url, "http://third/f");
}

fn refusal(status: u16, tries: u8) -> (String, Option<u8>) {
    match task().location(status, &reply(&[]), tries) {
        Ok(LocationStep::Again { message, tries }) => (message, Some(tries)),
        Ok(LocationStep::GiveUp { message }) => (message, None),
        _ => panic!("no refusal"),
    }
}

#[test]
fn refusals_are_reported() {
    let again = |s: &str| (s.to_string(), Some(1));
    assert_eq!(refusal(302, 2), again("url code is 302, but not found Location!"));
    assert_eq!(refusal(403, 2), again("url code is 403!, please check your header!"));
    assert_eq!(refusal(404, 2), again("url code is 404!, please check your url!"));
    assert_eq!(refusal(429, 2), again("url code is 429!, please reduce requests!"));
    assert_eq!(refusal(500, 2), again("url code is 500?"));
    assert_eq!(refusal(503, 2), again("url code is 503"));
    assert_eq!(refusal(201, 2), again("url code is 201"));
}

#[test]
fn server_is_asked_as_often_as_the_options_say() {
    let mut tries = 3;
    let mut asked = 0;
    loop {
        asked += 1;
        match refusal(404, tries).1 {
            Some(left) => tries = left,
            None => break,
        }
    }
    assert_eq!(asked, 4);
    let mut t = task();
    t.config_retry = false;
    assert!(matches!(t.location(404, &reply(&[]), 3), Ok(LocationStep::GiveUp { .. })));
}

#[test]
fn servers_are_kept() {
    let mut t = task();
    let mut server = HashMap::new();
    server.insert("s".to_string(), (1, 2));
    t.keep_servers(Seiki { server });
    assert_eq!(t.extend.seiki_server_list.get("s"), Some(&(1, 2)));
}

#[test]
fn probe_asks_for_a_range() {
    let probe = probe_header(&reply(&[("a", "b")])).unwrap();
    assert_eq!(probe["range"], "bytes=0-");
    assert_eq!(probe["a"], "b");
    let twice = probe_header(&reply(&[("range", "bytes=5-")])).unwrap();
    assert_eq!(twice.get_all("range").iter().count(), 2);
    assert_eq!(twice["range"], "bytes=5-");
}

#[test]
fn probe_of_a_full_header_is_refused() {
    let mut headers = HeaderMap::new();
    let mut i = 0;
    loop {
        let name = HeaderName::from_bytes(format!("x-{}", i).as_bytes()).unwrap();
        if headers.try_insert(name, HeaderValue::from_static("v")).is_err() {
            break;
        }
        i += 1;
    }
    assert_eq!(probe_header(&headers).err(), Some(HeaderError::TooMany));
}

#[test]
fn name_is_settled_before_the_download() {
    let mut t = task();
    let plan = t.download(&options(), true).unwrap();
    assert_eq!((plan.name.as_str(), plan.threads), ("文.zip", true));
    assert_eq!(t.file_name, None);
    t.file_name = Some("a%20b".to_string());
    let plan = t.download(&options(), false).unwrap();
    assert_eq!((plan.name.as_str(), plan.threads), ("a b", false));
    assert_eq!(t.file_name, Some("a b".to_string()));
    let config = Config { output: Some("o%2Bt".to_string()), ..options() };
    assert_eq!(t.download(&config, false).unwrap().name, "o+t");
    let config = Config { output: Some("%ff".to_string()), ..options() };
    assert_eq!(t.download(&config, false).err(), Some(TaskError::Name));
    assert_eq!(t.file_name, Some("%ff".to_string()));
    let mut t = task();
    t.url = "%ff".to_string();
    assert_eq!(t.download(&options(), false).err(), Some(TaskError::Name));
}

#[test]
fn connections_share_a_download_where_it_is_in_order() {
    let threads = |ranges: bool, one: bool, force: bool, seiki: bool| {
        let config = Config { one_download: one, force_thread: force, ..options() };
        let mut t = task();
        t.extend.seiki_enable = seiki;
        t.download(&config, ranges).unwrap().threads
    };
    assert!(threads(true, false, false, false));
    assert!(!threads(true, true, false, false));
    assert!(!threads(false, false, false, false));
    assert!(threads(false, true, true, false));
    assert!(!threads(true, true, false, true));
    assert!(!threads(false, true, false, true));
    assert!(threads(false, false, false, true));
    assert!(threads(true, true, true, true));
}

#[test]
fn record_is_taken_up_unless_forbidden() {
    let mut t = task();
    assert!(t.takes_up(true));
    assert!(!t.takes_up(false));
    t.delete_stat = true;
    assert!(!t.takes_up(true));
}

#[test]
fn broken_download_is_taken_up() {
    let t = task();
    let mut board = Board::new();
    let saved = Sjson { ato: " {\"0\": 5, \"1\": 60}".to_string(), eto: "{\"1\":99,\"0\":50}".to_string() };
    assert_eq!(t.downloaded(&mut board, &saved), Ok(()));
    assert_eq!((board.position(1), board.end(1)), (Some(60), Some(99)));
    let empty = Sjson { ato: "{}".to_string(), eto: "{}".to_string() };
    assert_eq!(t.downloaded(&mut board, &empty), Err(TaskError::Resume(ResumeError::Mismatch)));
}

#[test]
fn file_is_shared_among_connections() {
    let t = task();
    let mut board = Board::new();
    assert_eq!(t.thread_download(&mut board, Some(800), false), Ok(()));
    assert_eq!((board.position(0), board.end(0)), (Some(0), Some(100)));
    assert_eq!((board.position(7), board.end(7)), (Some(701), Some(799)));
    assert_eq!(t.thread_download(&mut board, None, true), Err(TaskError::NoSizeForced));
    assert_eq!(t.thread_download(&mut board, None, false), Err(TaskError::NoSize));
    assert_eq!(board.position(7), Some(701));
}

#[test]
fn reuse_rests_on_the_size_of_the_file() {
    let mut t = task();
    t.thread_count = 2;
    let plan = |size: u64, min: u64| {
        let mut board = Board::new();
        t.thread_download(&mut board, Some(size), false).unwrap();
        t.downloads(&board, Some(size), min).unwrap()
    };
    assert_eq!(plan(204800, 200), ReusePlan { one_bytes: 102400, reuse: true, basic_id: 3 });
    assert_eq!(plan(204799, 200), ReusePlan { one_bytes: 102399, reuse: false, basic_id: 3 });
    assert_eq!(plan(1, 0), ReusePlan { one_bytes: 0, reuse: true, basic_id: 3 });
}

#[test]
fn reuse_without_a_size_rests_on_the_farthest_end() {
    let t = task();
    let mut board = Board::new();
    board.put(0, 100, 1000);
    board.put(1, 1001, 2046);
    assert_eq!(t.downloads(&board, None, 2), Some(ReusePlan { one_bytes: 1045, reuse: false, basic_id: 9 }));
    board.put(1, 1001, 2047);
    assert_eq!(t.downloads(&board, None, 2), Some(ReusePlan { one_bytes: 1046, reuse: true, basic_id: 9 }));
    board.put(1, 1001, u64::MAX);
    assert!(t.downloads(&board, None, 0).unwrap().reuse);
}

#[test]
fn reuse_cannot_be_planned_without_connections() {
    let t = task();
    let mut board = Board::new();
    assert_eq!(t.downloads(&board, Some(9), 1), None);
    let saved = Sjson { ato: "{\"1\":2}".to_string(), eto: "{\"3\":4}".to_string() };
    assert_eq!(t.downloaded(&mut board, &saved), Ok(()));
    assert_eq!(t.downloads(&board, Some(9), 1), None);
    board.put(1, 2, 4);
    assert!(t.downloads(&board, Some(9), 1).is_some());
    assert!(t.downloads(&board, Some(9), u64::MAX / 1024).is_some());
    assert_eq!(t.downloads(&board, Some(9), u64::MAX / 1024 + 1), None);
}

#[test]
fn report_leads_to_the_slowest() {
    let t = task();
    let mut board = Board::new();
    board.put(0, 10, 10);
    board.put(1, 20, 90);
    board.put(2, 91, 95);
    assert_eq!(t.resumd_thread(&mut board, 0), Reuse::Slowest(Lag { id: 1, next: 20, end: 90 }));
    assert_eq!(board.position(0), None);
    assert_eq!(t.resumd_thread(&mut board, 1), Reuse::Slowest(Lag { id: 2, next: 91, end: 95 }));
    board.advance(2, 95);
    assert_eq!(t.resumd_thread(&mut board, 7), Reuse::Wait);
    assert_eq!(t.resumd_thread(&mut board, 2), Reuse::Over);
}

#[test]
fn reported_connection_needs_no_end() {
    let t = task();
    let mut board = Board::new();
    let saved = Sjson { ato: "{\"1\":2,\"3\":5}".to_string(), eto: "{\"3\":9,\"7\":8}".to_string() };
    assert_eq!(t.downloaded(&mut board, &saved), Ok(()));
    assert!(!board.is_bounded());
    assert!(board.is_bounded_but(1));
    assert_eq!(t.resumd_thread(&mut board, 1), Reuse::Slowest(Lag { id: 3, next: 5, end: 9 }));
}

#[test]
fn slowest_is_split_after_a_report() {
    let mut t = task();
    t.thread_count = 2;
    let mut board = Board::new();
    board.put(0, 101, 100);
    board.put(1, 120, 199);
    let lag = match t.resumd_thread(&mut board, 0) {
        Reuse::Slowest(lag) => lag,
        other => panic!("{:?}", other),
    };
    assert_eq!(board.split(3, lag), 4);
    assert_eq!((board.position(1), board.end(1)), (Some(120), Some(159)));
    assert_eq!((board.position(4), board.end(4)), (Some(160), Some(199)));
}

#[test]
fn single_download_of_known_size_reads_all_blocks() {
    let mut one = task().one_download(Some(5));
    assert_eq!(one.length(), 5);
    assert_eq!(one.block(2, true), (BlockStep::Next, 2));
    assert_eq!(one.block(3, true), (BlockStep::Next, 3));
    assert_eq!(one.total(), 5);
    assert_eq!(one.block(4, false), (BlockStep::Pause, 4));
}

#[test]
fn single_download_asks_as_its_task() {
    let mut t = task();
    assert_eq!(t.one_download(None).mode, HttpMode::GET);
    t.mode = HttpMode::POST;
    assert_eq!(t.one_download(Some(5)).mode, HttpMode::POST);
}

#[test]
fn single_download_of_unknown_size_counts() {
    let mut one = OneDownload::new(HttpMode::GET, None);
    assert_eq!(one.length(), 107374182400);
    assert_eq!(one.block(10, true), (BlockStep::Next, 10));
    assert_eq!(one.block(20, true), (BlockStep::Next, 20));
    assert_eq!(one.total(), 30);
    assert_eq!(one.block(5, false), (BlockStep::Fail, 5));
}

#[test]
fn forbidden_record_is_not_used() {
    let mut t = task();
    t.delete_stat = true;
    let boards: Vec<Board> = [true, false]
        .into_iter()
        .map(|saved| {
            let mut board = Board::new();
            assert!(!t.takes_up(saved));
            assert_eq!(t.thread_download(&mut board, Some(800), false), Ok(()));
            board
        })
        .collect();
    for id in 0..9 {
        assert_eq!(boards[0].position(id), boards[1].position(id));
        assert_eq!(boards[0].end(id), boards[1].end(id));
    }
}

#[test]
fn given_name_holds_no_semicolon_and_no_quote() {
    for text in ["filename=\"a;b\";c", "filename=a\";b", "x filename=;\"", "filename=\";\""] {
        let name = disposition_name(text).unwrap();
        assert!(!name.contains(';') && !name.contains('"'));
    }
}

#[test]
fn stopped_download_is_recorded() {
    let mut t = task();
    let mut board = Board::new();
    board.put(3, 40, 50);
    let (record, saved) = t.downed_for(&board).unwrap();
    assert_eq!(record, "文zip.json");
    let mut again = Board::new();
    assert_eq!(t.downloaded(&mut again, &saved), Ok(()));
    assert_eq!((again.position(3), again.end(3)), (Some(40), Some(50)));
    t.url = "%ff".to_string();
    assert_eq!(t.downed_for(&board).err(), Some(TaskError::Name));
}

#[test]
fn range_is_not_split_under_an_id_in_use() {
    let t = task();
    let mut board = Board::new();
    board.put(0, 101, 100);
    board.put(1, 201, 200);
    board.put(5, 1000, 1199);
    let lag = Lag { id: 5, next: 1000, end: 1199 };
    assert_eq!(t.resumd_thread(&mut board, 0), Reuse::Slowest(lag));
    assert_eq!(board.split(9, lag), 14);
    board.advance(14, 1101);
    let lag = Lag { id: 5, next: 1000, end: 1099 };
    assert!(!board.may_split(9, lag));
    assert_eq!(t.resumd_thread(&mut board, 1), Reuse::Held(lag));
    assert_eq!((board.position(14), board.end(14)), (Some(1101), Some(1199)));
    board.advance(14, 1200);
    assert_eq!(t.resumd_thread(&mut board, 14), Reuse::Slowest(lag));
    assert_eq!(board.split(9, lag), 14);
    assert_eq!((board.position(5), board.end(5)), (Some(1000), Some(1049)));
    assert_eq!((board.position(14), board.end(14)), (Some(1050), Some(1099)));
}

#[test]
fn id_of_a_record_is_in_use_too() {
    let t = task();
    let mut board = Board::new();
    let saved = Sjson {
        ato: "{\"1\":10,\"5\":1000,\"14\":1150}".to_string(),
        eto: "{\"1\":9,\"5\":1099,\"14\":1199}".to_string(),
    };
    assert_eq!(t.downloaded(&mut board, &saved), Ok(()));
    assert_eq!(t.resumd_thread(&mut board, 1), Reuse::Held(Lag { id: 5, next: 1000, end: 1099 }));
    assert_eq!((board.position(14), board.end(14)), (Some(1150), Some(1199)));
}

#[test]
fn range_is_not_split_where_no_id_fits() {
    let t = task();
    let mut board = Board::new();
    board.put(u64::MAX, 0, 99);
    let lag = Lag { id: u64::MAX, next: 0, end: 99 };
    assert_eq!(t.resumd_thread(&mut board, 0), Reuse::Held(lag));
}

#[test]
fn split_leaves_no_connection_an_end_of_0() {
    let t = task();
    let mut board = Board::new();
    board.put(3, 0, 1);
    assert_eq!(t.resumd_thread(&mut board, 0), Reuse::Held(Lag { id: 3, next: 0, end: 1 }));
    board.put(3, 0, 2);
    assert_eq!(t.resumd_thread(&mut board, 0), Reuse::Slowest(Lag { id: 3, next: 0, end: 2 }));
}
