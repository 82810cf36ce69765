use less::defs::{AT_COLOR_SUBSEARCH, CONTROL, SRCH_SUBSEARCH};
use less::optfunc::srch_subsearch;
use less::prompt::page_num;
use less::util::{bytes_to_int, str_to_int};

#[test]
fn str_to_int_reads_leading_number() {
    let (v, rest) = str_to_int("42abc");
    assert_eq!(v, Some(42));
    assert_eq!(rest, "abc");
}

#[test]
fn str_to_int_negative() {
    let (v, rest) = str_to_int("-17 x");
    assert_eq!(v, Some(-17));
    assert_eq!(rest, " x");
}

#[test]
fn str_to_int_no_digits() {
    let (v, _) = str_to_int("abc");
    assert_eq!(v, None);
}

#[test]
fn bytes_to_int_reads_bytes() {
    let (v, rest) = bytes_to_int(b"123;");
    assert_eq!(v, Some(123));
    assert_eq!(rest, b";");
}

#[test]
fn control_char_values() {
    assert_eq!(CONTROL('E'), '\u{5}');
    assert_eq!(CONTROL('P'), '\u{10}');
    assert_eq!(CONTROL('a'), '\u{1}');
}

#[test]
fn subsearch_flags() {
    assert_eq!(SRCH_SUBSEARCH(1), 1 << 18);
    assert_eq!(srch_subsearch(5), 1 << 22);
    assert_eq!(AT_COLOR_SUBSEARCH(1), 11 << 8);
}

#[test]
fn page_numbers() {
    assert_eq!(page_num(1, 25, 0), 1);
    assert_eq!(page_num(24, 25, 0), 1);
    assert_eq!(page_num(25, 25, 0), 2);
    assert_eq!(page_num(30, 25, 4), 2);
}

#[test]
fn white_space_matches_std() {
    for u in 0u32..=0x10FFFF {
        if let Some(c) = char::from_u32(u) {
            assert_eq!(less::text::is_whitespace(c), c.is_whitespace(), "{:#x}", u);
        }
    }
}
