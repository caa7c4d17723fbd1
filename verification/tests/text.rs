use beam::decimal::{format_padded, format_u128, format_u64, parse_u64};
use beam::text::{
    append_copies, borrow_optional, clip, copy_optional, drop_front, has_char, has_prefix,
    has_string, has_substring, has_suffix, join, remove_char, replace_all, same, split_once, trim,
    trim_trailing,
};
use beam::weburl::url_host;

#[test]
fn texts_are_searched() {
    assert!(has_prefix("abc", "ab") && !has_prefix("abc", "b") && has_prefix("abc", ""));
    assert!(has_suffix("abc", "bc") && !has_suffix("abc", "b") && !has_suffix("c", "bc"));
    assert!(has_substring("abc", "b") && !has_substring("abc", "ac"));
    assert!(has_char("abc", 'c') && !has_char("abc", 'd'));
    assert!(same("a\u{e9}", "a\u{e9}") && !same("a", "A"));
}

#[test]
fn texts_are_cut() {
    assert_eq!(trim(" \t a b\u{a0}\n"), "a b");
    assert_eq!(trim_trailing("a//", '/'), "a");
    assert_eq!(clip("h\u{e9}llo", 2), "h\u{e9}");
    assert_eq!(drop_front("hello", 2), "llo");
    assert_eq!(remove_char("a\"b\"", '"'), "ab");
    assert_eq!(split_once("a-b-c", '-'), Some(("a".to_string(), "b-c".to_string())));
    assert_eq!(split_once("abc", '-'), None);
}

#[test]
fn texts_are_put_together() {
    let parts = vec!["a".to_string(), "b".to_string()];
    assert_eq!(join(&parts, ", "), "a, b");
    assert_eq!(join(&vec![], ", "), "");
    assert_eq!(replace_all("aXbXX", "X", "yy"), "ayybyyyy");
    assert_eq!(replace_all("aaa", "aa", "b"), "ba");
    let mut all = vec!["z".to_string()];
    append_copies(&mut all, &parts);
    assert_eq!(all, vec!["z", "a", "b"]);
    assert!(has_string(&all, "b") && !has_string(&all, "c"));
    assert_eq!(borrow_optional(&Some("x".to_string())), Some("x"));
    assert_eq!(copy_optional(&None), None);
}

#[test]
fn numbers_are_read_and_written() {
    assert_eq!(format_u64(0), "0");
    assert_eq!(format_u64(u64::MAX), "18446744073709551615");
    assert_eq!(format_u128(u128::MAX), "340282366920938463463374607431768211455");
    assert_eq!(format_padded(42, 6), "000042");
    assert_eq!(parse_u64("18446744073709551615"), Some(u64::MAX));
    assert_eq!(parse_u64("18446744073709551616"), None);
    assert_eq!(parse_u64("+7"), Some(7));
    assert_eq!(parse_u64("-7"), None);
    assert_eq!(parse_u64(""), None);
    assert_eq!(parse_u64("+"), None);
    assert_eq!(parse_u64("007"), Some(7));
}

#[test]
fn urls_have_hosts() {
    assert_eq!(url_host("https://Example.COM:8443/x").as_deref(), Some("example.com"));
    assert_eq!(url_host("mailto:x"), None);
    assert_eq!(url_host("not a url"), None);
}
