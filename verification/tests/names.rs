use std::path::Path;
use xdown::names::{join_path, json_fix_name, tail_of_url};

fn std_tail(url: &str) -> String {
    url.split('/').next_back().and_then(|i| i.split('?').next()).unwrap().to_string()
}

#[test]
fn record_name_drops_dots() {
    assert_eq!(json_fix_name("a.tar.gz".to_string()), "atargz.json");
    assert_eq!(json_fix_name("plain".to_string()), "plain.json");
    assert_eq!(json_fix_name("...".to_string()), ".json");
    assert_eq!(json_fix_name("".to_string()), ".json");
    assert_eq!(json_fix_name("文件.zip".to_string()), "文件zip.json");
}

#[test]
fn record_name_is_shared_by_names_that_differ_in_dots() {
    assert_eq!(json_fix_name("a.b".to_string()), json_fix_name("ab".to_string()));
}

#[test]
fn record_name_has_a_single_dot() {
    let record = json_fix_name("x.y.z.tar".to_string());
    assert_eq!(record.matches('.').count(), 1);
    assert!(record.ends_with(".json"));
}

#[test]
fn link_gives_its_last_segment() {
    assert_eq!(tail_of_url("https://host/dir/file.zip"), "file.zip");
    assert_eq!(tail_of_url("https://host/dir/file.zip?token=1"), "file.zip");
    assert_eq!(tail_of_url("https://host/dir/"), "");
    assert_eq!(tail_of_url("file"), "file");
    assert_eq!(tail_of_url(""), "");
    assert_eq!(tail_of_url("?"), "");
}

#[test]
fn slash_in_a_query_starts_the_segment() {
    assert_eq!(tail_of_url("https://host/file.zip?path=/other"), "other");
}

#[test]
fn query_without_slash_changes_nothing() {
    assert_eq!(tail_of_url("https://host/a?b?c=d"), tail_of_url("https://host/a"));
}

#[test]
fn link_tails_agree_with_split() {
    for url in ["http://h/a/b?c", "x?y/z?w", "////", "a/b/c??d", "文/件?名", "/"] {
        assert_eq!(tail_of_url(url), std_tail(url));
    }
}

#[test]
fn paths_join_as_the_standard_library_joins_them() {
    for dir in ["", "/", "dir", "dir/", "/a/b", "/a/b/", "目录"] {
        for name in ["", "file", "/file", "sub/file", "文件", "./x"] {
            let joined = Path::new(dir).join(name);
            assert_eq!(join_path(dir, name), joined.to_str().unwrap());
        }
    }
}

#[test]
fn absolute_name_is_its_own_path() {
    assert_eq!(join_path("/etc", "/bin/sh"), "/bin/sh");
    assert_eq!(join_path("/etc", "passwd"), "/etc/passwd");
}
