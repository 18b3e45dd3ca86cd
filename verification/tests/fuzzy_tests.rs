use alltools::fuzzy::{
    eq_ignore_ascii_case, find_ignore_ascii_case, format_matched_filename,
    include_filename_matches,
};

#[test]
fn chars_compare_without_case() {
    assert!(eq_ignore_ascii_case('a', 'A'));
    assert!(eq_ignore_ascii_case('Z', 'z'));
    assert!(eq_ignore_ascii_case('.', '.'));
    assert!(!eq_ignore_ascii_case('a', 'b'));
    assert!(!eq_ignore_ascii_case('@', '`'));
    assert!(!eq_ignore_ascii_case('[', '{'));
    assert!(!eq_ignore_ascii_case('É', 'é'));
    assert!(eq_ignore_ascii_case('é', 'é'));
    for a in 0u8..128 {
        for b in 0u8..128 {
            assert_eq!(
                (a as char).eq_ignore_ascii_case(&(b as char)),
                eq_ignore_ascii_case(a as char, b as char)
            );
        }
    }
}

#[test]
fn find_returns_first_match() {
    assert_eq!(Some(0), find_ignore_ascii_case("windows.h", &'W'));
    assert_eq!(Some(2), find_ignore_ascii_case("windows.h", &'n'));
    assert_eq!(Some(7), find_ignore_ascii_case("windows.h", &'.'));
    assert_eq!(Some(8), find_ignore_ascii_case("Windows.H", &'h'));
    assert_eq!(None, find_ignore_ascii_case("windows.h", &'x'));
    assert_eq!(None, find_ignore_ascii_case("", &'x'));
    // the index counts characters, not bytes
    assert_eq!(Some(1), find_ignore_ascii_case("éa", &'a'));
    assert_eq!(Some(0), find_ignore_ascii_case("éa", &'é'));
}

#[test]
fn filename_matching() {
    assert!(include_filename_matches("wnh", "windows.h"));
    assert!(include_filename_matches("WINDOWS.H", "windows.h"));
    assert!(include_filename_matches("", "windows.h"));
    assert!(include_filename_matches("", ""));
    assert!(!include_filename_matches("hw", "windows.h"));
    assert!(!include_filename_matches("windows.hh", "windows.h"));
    assert!(!include_filename_matches("x", "windows.h"));
    assert!(!include_filename_matches("x", ""));
    // a character may answer for several equal characters of the query
    assert!(include_filename_matches("ww", "windows.h"));
    assert!(include_filename_matches("aab", "abc"));
    assert!(!include_filename_matches("aaaa", "abc"));
    // the query's length counts in bytes
    assert!(!include_filename_matches("é", "e"));
    assert!(!include_filename_matches("é", "ee"));
}

#[test]
fn formatting_without_colour() {
    colored::control::set_override(false);
    assert_eq!("windows.h", format_matched_filename("wnh", "windows.h"));
    assert_eq!("windows.h", format_matched_filename("", "windows.h"));
    assert_eq!("windows.h", format_matched_filename("xyz", "windows.h"));
    assert_eq!("", format_matched_filename("abc", ""));
}

#[test]
fn formatting_with_colour() {
    colored::control::set_override(true);
    let c = |s: &str| format!("\x1B[36m{}\x1B[0m", s);
    assert_eq!(
        format!("{}i{}dows.{}", c("w"), c("n"), c("h")),
        format_matched_filename("wnh", "windows.h")
    );
    // the casing is the file name's
    assert_eq!(
        format!("{}indows.{}", c("W"), c("H")),
        format_matched_filename("wh", "Windows.H")
    );
    // the search stops at the first character that is not found
    assert_eq!(format!("{}indows.h", c("w")), format_matched_filename("wxh", "windows.h"));
    // every character is used once
    assert_eq!(
        format!("{}indo{}s.h", c("w"), c("w")),
        format_matched_filename("www", "windows.h")
    );
    // a file name that is used up ends the search
    assert_eq!(format!("{}{}", c("a"), c("b")), format_matched_filename("abab", "ab"));
    assert_eq!("windows.h", format_matched_filename("", "windows.h"));
    assert_eq!(format!("{}", c("a")), format_matched_filename("a", "a"));
}
