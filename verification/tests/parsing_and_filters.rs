use std::collections::HashSet;

use as_manager::text::{bytes_contain_ci, bytes_equal, parse_i64, parse_member_ids, str_matches_filter};

fn set(v: &[i64]) -> HashSet<i64> {
    v.iter().cloned().collect()
}

#[test]
fn parses_comma_separated_ids() {
    assert_eq!(parse_member_ids("1,2,3"), set(&[1, 2, 3]));
    assert_eq!(parse_member_ids("42"), set(&[42]));
    assert_eq!(parse_member_ids(""), set(&[]));
}

#[test]
fn skips_pieces_that_are_not_numbers() {
    assert_eq!(parse_member_ids("1,x,3"), set(&[1, 3]));
    assert_eq!(parse_member_ids(",,5,"), set(&[5]));
    assert_eq!(parse_member_ids("1, 2"), set(&[1]));
    assert_eq!(parse_member_ids("abc"), set(&[]));
}

#[test]
fn signed_and_extreme_ids() {
    assert_eq!(parse_member_ids("-5,+7"), set(&[-5, 7]));
    assert_eq!(
        parse_member_ids("9223372036854775807"),
        set(&[i64::MAX])
    );
    assert_eq!(
        parse_member_ids("-9223372036854775808"),
        set(&[i64::MIN])
    );
    // One past either end of the range is skipped, not wrapped.
    assert_eq!(parse_member_ids("9223372036854775808"), set(&[]));
    assert_eq!(parse_member_ids("-9223372036854775809"), set(&[]));
}

#[test]
fn duplicate_ids_collapse() {
    assert_eq!(parse_member_ids("4,4,4"), set(&[4]));
}

#[test]
fn parse_i64_matches_std() {
    for s in ["0", "17", "-3", "+8", "", "x", "1.5", "--4", "9223372036854775807", "-9223372036854775808", "99999999999999999999", "07"] {
        assert_eq!(parse_i64(s.as_bytes()), s.parse::<i64>().ok(), "case {:?}", s);
    }
}

#[test]
fn substring_search_ignores_ascii_case() {
    assert!(bytes_contain_ci(b"ShadowFox", b"FOX"));
    assert!(bytes_contain_ci(b"abc", b""));
    assert!(bytes_contain_ci(b"abc", b"abc"));
    assert!(!bytes_contain_ci(b"abc", b"abcd"));
    assert!(!bytes_contain_ci(b"abc", b"bd"));
}

#[test]
fn filter_matching_on_strings() {
    assert!(str_matches_filter("Night Watch", "watch"));
    assert!(str_matches_filter("anything", ""));
    assert!(!str_matches_filter("Night Watch", "dawn"));
}

#[test]
fn byte_equality() {
    assert!(bytes_equal(b"abc", b"abc"));
    assert!(!bytes_equal(b"abc", b"abd"));
    assert!(!bytes_equal(b"abc", b"ab"));
}
