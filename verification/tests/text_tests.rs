use zed_cl::table::Table;
use zed_cl::text;

#[test]
fn white_space_is_that_of_the_standard_library() {
    for n in 0..=0x10ffffu32 {
        if let Some(c) = char::from_u32(n) {
            assert_eq!(text::is_whitespace(c), c.is_whitespace(), "{n:x}");
        }
    }
}

#[test]
fn searching_agrees_with_the_standard_library() {
    assert_eq!(text::find("abcabc", "ca"), Some(2));
    assert_eq!(text::find("abc", "x"), None);
    assert_eq!(text::find("abc", ""), Some(0));
    assert_eq!(text::rfind("a::b::c", "::"), Some(4));
    assert_eq!(text::rfind("abc", ":"), None);
    assert_eq!(text::find_char("\u{e9}x", 'x'), Some(1));
    assert!(text::contains("hello", "ell"));
    assert!(text::starts_with("hello", "he"));
    assert!(text::ends_with("hello", "lo"));
    assert!(!text::ends_with("lo", "hello"));
}

#[test]
fn cutting_and_joining() {
    assert_eq!(text::replace("a--b---c", "--", "-"), "a-b--c");
    assert_eq!(text::trim(" \u{a0}x y\t\n"), "x y");
    assert_eq!(text::trim_end(" x "), " x");
    assert_eq!(text::split("a,,b,", ','), vec!["a", "", "b", ""]);
    assert_eq!(text::split_whitespace("  a \n b\u{2003}c "), vec!["a", "b", "c"]);
    assert_eq!(text::lines("a\r\nb\n\nc"), vec!["a", "b", "", "c"]);
    assert_eq!(text::lines("a\n"), vec!["a"]);
    assert!(text::lines("").is_empty());
    assert_eq!(text::join(&vec!["a".to_string(), "b".to_string()], ", "), "a, b");
    assert_eq!(text::byte_len("\u{1f600}a"), 5);
    assert_eq!(text::char_count_of_bytes("\u{e9}a", 2), Some(1));
    assert_eq!(text::char_count_of_bytes("\u{e9}a", 1), None);
    assert_eq!(text::char_count_of_bytes("a", 2), None);
}

#[test]
fn case_is_changed() {
    assert_eq!(text::to_lowercase("FOO-Bar1"), "foo-bar1");
    assert_eq!(text::to_uppercase("foo-Bar1"), "FOO-BAR1");
    assert_eq!(text::to_uppercase("stra\u{df}e"), "STRASSE");
    assert_eq!(text::to_lowercase("\u{c9}T"), "\u{e9}t");
    assert!(text::eq_ignore_ascii_case("NiL", "nil"));
    assert!(!text::eq_ignore_ascii_case("\u{c9}", "\u{e9}"));
}

#[test]
fn numbers_are_written_and_read() {
    assert_eq!(text::number_text(0), "0");
    assert_eq!(text::number_text(u64::MAX), "18446744073709551615");
    assert_eq!(text::padded_number(42), "00000042");
    assert_eq!(text::padded_number(123456789), "123456789");
    assert_eq!(text::parse_u32("+7"), Some(7));
    assert_eq!(text::parse_u32("4294967295"), Some(u32::MAX));
    assert_eq!(text::parse_u32("4294967296"), None);
    assert_eq!(text::parse_u32("-1"), None);
    assert_eq!(text::parse_u32(""), None);
    assert_eq!(text::parse_u32("+"), None);
}

#[test]
fn texts_are_ordered() {
    assert!(text::is_before("a", "ab"));
    assert!(text::is_before("ab", "b"));
    assert!(!text::is_before("b", "b"));
    assert!(text::is_before("zed-cl-0.1", "zed-cl-0.2"));
}

#[test]
fn tables_keep_one_value_for_a_key() {
    let mut table: Table<u8> = Table::new();
    table.insert("a".to_string(), 1);
    table.insert("b".to_string(), 2);
    table.insert("a".to_string(), 3);
    assert_eq!(table.get("a"), Some(&3));
    assert_eq!(table.entries().len(), 2);
    table.remove("a");
    assert!(!table.contains_key("a"));
    assert_eq!(table.get("b"), Some(&2));
    assert_eq!(table.into_entries(), vec![("b".to_string(), 2)]);
}
