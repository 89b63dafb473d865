use marlin::complete::{complete, split_path};
use marlin::file_command::DirEntry;
use marlin::number::{pad, pad_front, parse_usize, show, show_hex, show_i32, take_chars};
use marlin::paths::{extension, file_name};
use marlin::sorting::sort_texts;
use marlin::split::{join, replace_all, replace_first, split_words};
use marlin::stall::looks_like_unfinished_stall;

fn texts(v: &[&str]) -> Vec<String> {
    v.iter().map(|s| s.to_string()).collect()
}

#[test]
fn numbers_are_shown_and_read() {
    assert_eq!(show(0), "0");
    assert_eq!(show(1234567890), "1234567890");
    assert_eq!(show_i32(-1), "-1");
    assert_eq!(show_i32(i32::MIN), "-2147483648");
    assert_eq!(show_hex(255, 4), "00ff");
    assert_eq!(parse_usize("42"), Some(42));
    assert_eq!(parse_usize("+7"), Some(7));
    assert_eq!(parse_usize(""), None);
    assert_eq!(parse_usize("-1"), None);
    assert_eq!(parse_usize("99999999999999999999999"), None);
}

#[test]
fn texts_are_padded_by_characters() {
    assert_eq!(pad("é", 3), "é  ");
    assert_eq!(pad("long", 2), "long");
    assert_eq!(pad_front("7", 2), " 7");
    assert_eq!(take_chars("héllo", 2), "hé");
}

#[test]
fn texts_are_split_joined_and_replaced() {
    assert_eq!(split_words("  a\tb \n c "), texts(&["a", "b", "c"]));
    assert_eq!(join(&texts(&["a", "b"]), ", "), "a, b");
    assert_eq!(join(&texts(&[]), ", "), "");
    assert_eq!(replace_first("aXbX", "X", "-"), "a-bX");
    assert_eq!(replace_all("aXbX", "X", "XX"), "aXXbXX");
    assert_eq!(replace_first("abc", "", "-"), "-abc");
}

#[test]
fn paths_are_taken_apart() {
    assert_eq!(file_name("/a/b.rs"), Some("b.rs".to_string()));
    assert_eq!(file_name("/a/b/"), Some("b".to_string()));
    assert_eq!(file_name("a/.."), None);
    assert_eq!(file_name("/"), None);
    assert_eq!(extension("x/y.tar.gz"), "gz");
    assert_eq!(extension(".bashrc"), "");
    assert_eq!(extension("Makefile"), "");
}

#[test]
fn sorting_orders_by_characters() {
    assert_eq!(sort_texts(&texts(&["b", "a", "B", "ab", "a"])), texts(&["B", "a", "a", "ab", "b"]));
}

#[test]
fn a_promise_is_taken_for_a_stall() {
    assert!(looks_like_unfinished_stall("Let me add docstrings to those functions."));
    assert!(looks_like_unfinished_stall("I'll now read the file. The file contains 200 lines"));
    assert!(!looks_like_unfinished_stall("I let the test run. All done."));
    assert!(!looks_like_unfinished_stall(""));
}

fn dir_entry(name: &str, is_dir: bool) -> DirEntry {
    DirEntry { name: name.to_string(), is_dir }
}

#[test]
fn a_path_is_completed_from_a_listing() {
    let listing = vec![dir_entry("source", true), dir_entry("song.txt", false), dir_entry("x", false)];
    let c = split_path("/cat a/so").unwrap();
    assert_eq!(c.before, "/cat ");
    assert_eq!(c.dir, "a/");
    assert_eq!(c.prefix, "so");
    assert_eq!(complete(&c, &listing), None);
    let c = split_path("/cat a/sou").unwrap();
    assert_eq!(complete(&c, &listing), Some("/cat a/source/".to_string()));
    let c = split_path("/cat a/s").unwrap();
    assert_eq!(complete(&c, &listing), Some("/cat a/so".to_string()));
    let c = split_path("x").unwrap();
    assert_eq!(complete(&c, &listing), Some("x".to_string()));
    let c = split_path("a/").unwrap();
    assert_eq!(c.prefix, "");
    assert_eq!(complete(&c, &listing), None);
    let c = split_path("zz").unwrap();
    assert_eq!(complete(&c, &listing), None);
    assert!(split_path("/cat ").is_none());
    assert!(split_path("").is_none());
}
