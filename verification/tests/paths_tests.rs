use filehog::paths::{
    ends_with, is_record_file, join_path, record_file_path, relative_path, rooted, starts_with,
    watched_file_path,
};
use filehog::text::decimal;

#[test]
fn text_begins_and_ends() {
    assert!(starts_with("abc", ""));
    assert!(starts_with("abc", "ab"));
    assert!(starts_with("abc", "abc"));
    assert!(!starts_with("abc", "abcd"));
    assert!(!starts_with("abc", "b"));
    assert!(starts_with("", ""));
    assert!(ends_with("abc", ""));
    assert!(ends_with("abc", "bc"));
    assert!(ends_with("abc", "abc"));
    assert!(!ends_with("abc", "zabc"));
    assert!(!ends_with("abc", "ab"));
}

#[test]
fn text_functions_count_characters_not_bytes() {
    assert!(starts_with("żółw/ü", "żółw/"));
    assert!(ends_with("żółw/ü", "w/ü"));
    assert!(!ends_with("żółw/ü", "u"));
    assert_eq!(relative_path("/ż", "/ż/ółw").as_deref(), Some("ółw"));
    assert_eq!(join_path("/ż", "ółw"), "/ż/ółw");
    assert_eq!(record_file_path("ółw").as_deref(), Some("ółw.json"));
    assert_eq!(watched_file_path("ółw.json").as_deref(), Some("ółw"));
    assert!(is_record_file("ü.json"));
}

#[test]
fn rooted_paths_begin_with_a_separator() {
    assert!(rooted("/"));
    assert!(rooted("/a"));
    assert!(!rooted(""));
    assert!(!rooted("a/"));
}

#[test]
fn join_puts_one_separator_between_folder_and_key() {
    assert_eq!(join_path("/t", "a/b"), "/t/a/b");
    assert_eq!(join_path("/t/", "a/b"), "/t/a/b");
    assert_eq!(join_path("", "a/b"), "a/b");
    assert_eq!(join_path("/", "a"), "/a");
    assert_eq!(join_path("/t", ""), "/t/");
    assert_eq!(join_path("rel", "a"), "rel/a");
}

#[test]
fn join_lets_a_rooted_key_stand_for_itself() {
    assert_eq!(join_path("/t", "/other/a"), "/other/a");
    assert_eq!(join_path("", "/a"), "/a");
}

#[test]
fn relative_path_strips_the_folder() {
    assert_eq!(relative_path("/t", "/t/a/b").as_deref(), Some("a/b"));
    assert_eq!(relative_path("/t/", "/t/a/b").as_deref(), Some("a/b"));
    assert_eq!(relative_path("", "a/b").as_deref(), Some("a/b"));
    assert_eq!(relative_path("/", "/a").as_deref(), Some("a"));
    assert_eq!(relative_path("/t", "/t/").as_deref(), Some(""));
}

#[test]
fn relative_path_refuses_what_is_not_below_the_folder() {
    assert_eq!(relative_path("/t", "/u/a"), None);
    assert_eq!(relative_path("/t", "/ta"), None);
    assert_eq!(relative_path("/t", "/t"), None);
    assert_eq!(relative_path("/t", "/t//a"), None);
    assert_eq!(relative_path("", "/a"), None);
    assert_eq!(relative_path("/t/long", "/t"), None);
}

#[test]
fn key_and_path_lead_to_each_other() {
    for (folder, path) in [("/t", "/t/a"), ("/t/", "/t/x/y.z"), ("", "k"), ("w", "w/a")] {
        let key = relative_path(folder, path).unwrap();
        assert_eq!(join_path(folder, &key), path);
    }
    for (folder, key) in [("/t", "a"), ("/t/", "x/y.z"), ("", "k"), ("/t", "")] {
        let path = join_path(folder, key);
        assert_eq!(relative_path(folder, &path).as_deref(), Some(key));
    }
}

#[test]
fn record_files_carry_the_added_extension() {
    assert_eq!(record_file_path("a").as_deref(), Some("a.json"));
    assert_eq!(record_file_path("d/a.txt").as_deref(), Some("d/a.txt.json"));
    assert_eq!(record_file_path("a.json").as_deref(), Some("a.json.json"));
    assert_eq!(record_file_path(""), None);
    assert_eq!(record_file_path("d/"), None);
}

#[test]
fn record_files_are_told_by_their_extension() {
    assert!(is_record_file("a.json"));
    assert!(is_record_file("d/e/a.txt.json"));
    assert!(!is_record_file(".json"));
    assert!(!is_record_file("d/.json"));
    assert!(!is_record_file("a.jso"));
    assert!(!is_record_file("a.json.bak"));
    assert!(!is_record_file("ajson"));
    assert!(!is_record_file(""));
    assert!(!is_record_file("json"));
    assert!(is_record_file("ajson.json"));
    assert!(is_record_file("a..json"));
}

#[test]
fn watched_file_is_the_record_file_without_the_extension() {
    assert_eq!(watched_file_path("a.json").as_deref(), Some("a"));
    assert_eq!(watched_file_path("d/a.txt.json").as_deref(), Some("d/a.txt"));
    assert_eq!(watched_file_path("a.json.json").as_deref(), Some("a.json"));
    assert_eq!(watched_file_path("a.txt"), None);
    assert_eq!(watched_file_path(".json"), None);
    for key in ["a", "d/a.txt", "x.json", "ü"] {
        let file = record_file_path(key).unwrap();
        assert!(is_record_file(&file));
        assert_eq!(watched_file_path(&file).as_deref(), Some(key));
    }
}

#[test]
fn numbers_are_written_in_decimal_digits() {
    assert_eq!(decimal(0), "0");
    assert_eq!(decimal(7), "7");
    assert_eq!(decimal(10), "10");
    assert_eq!(decimal(1000), "1000");
    assert_eq!(decimal(1234567890), "1234567890");
    assert_eq!(decimal(u64::MAX), "18446744073709551615");
    for n in [9u64, 99, 100, 101, 402, 65535, 1 << 40] {
        assert_eq!(decimal(n), n.to_string());
    }
}
