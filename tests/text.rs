use boxscore::text::{decimal_string, has_prefix, normalize_markup, parse_u32, same_text};

#[test]
fn markers_removed() {
    assert_eq!("a<table></table>b", normalize_markup("a\n<!--<table></table>\n-->b"));
}

#[test]
fn text_without_markers_unchanged() {
    assert_eq!("<p>x</p>\n", normalize_markup("<p>x</p>\n"));
}

#[test]
fn decimal_text() {
    assert_eq!("0", decimal_string(0));
    assert_eq!("2021", decimal_string(2021));
    assert_eq!("4294967295", decimal_string(u32::MAX));
}

#[test]
fn u32_parsing() {
    assert_eq!(Some(17), parse_u32("17"));
    assert_eq!(Some(7), parse_u32("+7"));
    assert_eq!(Some(4294967295), parse_u32("4294967295"));
    assert_eq!(None, parse_u32("4294967296"));
    assert_eq!(None, parse_u32(""));
    assert_eq!(None, parse_u32("+"));
    assert_eq!(None, parse_u32("1a"));
    assert_eq!(None, parse_u32("-1"));
}

#[test]
fn prefixes_and_equality() {
    assert!(has_prefix("Week 3", "Week"));
    assert!(!has_prefix("Wee", "Week"));
    assert!(same_text("F", "F"));
    assert!(!same_text("F", "Final"));
}
