use poster_maker::decimal::parse_u32;
use poster_maker::text::{chars_of, string_from_chars, text_ends_with, text_eq};

fn chars(s: &str) -> Vec<char> {
    s.chars().collect()
}

#[test]
fn reads_u32_like_from_str() {
    let s = chars("+42");
    assert_eq!(parse_u32(&s, 0, 3), Some(42));
    assert_eq!(parse_u32(&s, 1, 3), Some(42));
    assert_eq!(parse_u32(&s, 0, 1), None);
    assert_eq!(parse_u32(&s, 0, 0), None);
    let big = chars("4294967295");
    assert_eq!(parse_u32(&big, 0, big.len()), Some(u32::MAX));
    let too_big = chars("4294967296");
    assert_eq!(parse_u32(&too_big, 0, too_big.len()), None);
    let mixed = chars("12a");
    assert_eq!(parse_u32(&mixed, 0, 3), None);
    assert_eq!(parse_u32(&mixed, 0, 2), Some(12));
    let lead = chars("0009");
    assert_eq!(parse_u32(&lead, 0, 4), Some(9));
    let neg = chars("-1");
    assert_eq!(parse_u32(&neg, 0, 2), None);
}

#[test]
fn characters_and_comparisons() {
    assert_eq!(chars_of("a×b"), vec!['a', '×', 'b']);
    assert_eq!(string_from_chars(&vec!['x', '×', '1']), "x×1");
    assert_eq!(string_from_chars(&Vec::new()), "");
    assert!(text_eq("--grid", "--grid"));
    assert!(!text_eq("--grid", "--gri"));
    assert!(!text_eq("-o", "-O"));
    assert!(text_ends_with("poster.pdf", ".pdf"));
    assert!(!text_ends_with("poster.PDF", ".pdf"));
    assert!(!text_ends_with("df", ".pdf"));
    assert!(text_ends_with(".pdf", ".pdf"));
}
