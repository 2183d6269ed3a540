use payme_backend::text::chars_of;
use payme_backend::text::contains;
use payme_backend::text::decimal;
use payme_backend::text::find_stop;
use payme_backend::text::is_whitespace;
use payme_backend::text::same_text;
use payme_backend::text::signed_decimal;
use payme_backend::text::starts_with;
use payme_backend::text::trim_bounds;

#[test]
fn chars_of_keeps_every_character() {
    assert_eq!(chars_of(""), Vec::<char>::new());
    assert_eq!(chars_of("a/b"), vec!['a', '/', 'b']);
    assert_eq!(chars_of("é€"), vec!['é', '€']);
}

#[test]
fn same_text_compares_characters() {
    assert!(same_text("", ""));
    assert!(same_text("GET", "GET"));
    assert!(!same_text("GET", "get"));
    assert!(!same_text("GET", "GETS"));
    assert!(!same_text("GETS", "GET"));
}

#[test]
fn decimal_of_unsigned_numbers() {
    assert_eq!(decimal(0), "0");
    assert_eq!(decimal(7), "7");
    assert_eq!(decimal(10), "10");
    assert_eq!(decimal(1234567890), "1234567890");
    assert_eq!(decimal(u64::MAX), "18446744073709551615");
}

#[test]
fn decimal_agrees_with_the_standard_rendering() {
    let mut n: u64 = 1;
    while n < 1_000_000_000_000 {
        assert_eq!(decimal(n), n.to_string());
        assert_eq!(decimal(n - 1), (n - 1).to_string());
        n *= 7;
    }
}

#[test]
fn decimal_of_signed_numbers() {
    assert_eq!(signed_decimal(0), "0");
    assert_eq!(signed_decimal(42), "42");
    assert_eq!(signed_decimal(-1), "-1");
    assert_eq!(signed_decimal(-305), "-305");
    assert_eq!(signed_decimal(i64::MAX), "9223372036854775807");
    assert_eq!(signed_decimal(i64::MIN), "-9223372036854775808");
}

#[test]
fn contains_finds_occurrences() {
    assert!(contains("no-cache", "no-cache"));
    assert!(contains("private, no-cache", "no-cache"));
    assert!(contains("no-store, max-age=0", "no-store"));
    assert!(contains("xno-storex", "no-store"));
    assert!(contains("anything", ""));
    assert!(contains("", ""));
    assert!(!contains("", "a"));
    assert!(!contains("no-cach", "no-cache"));
    assert!(!contains("no cache", "no-cache"));
    assert!(!contains("NO-CACHE", "no-cache"));
    assert!(contains("aab", "ab"));
    assert!(contains("ééa", "éa"));
}

#[test]
fn starts_with_checks_the_prefix() {
    assert!(starts_with("/api/audit/logs", "/api/audit"));
    assert!(starts_with("/api/audit", "/api/audit"));
    assert!(starts_with("abc", ""));
    assert!(!starts_with("/api/audi", "/api/audit"));
    assert!(!starts_with("x/api/audit", "/api/audit"));
    assert!(!starts_with("", "a"));
}

#[test]
fn white_space_is_what_unicode_says() {
    let spaces = [
        '\t', '\n', '\u{b}', '\u{c}', '\r', ' ', '\u{85}', '\u{a0}', '\u{1680}', '\u{2000}',
        '\u{2005}', '\u{200a}', '\u{2028}', '\u{2029}', '\u{202f}', '\u{205f}', '\u{3000}',
    ];
    for c in spaces {
        assert!(is_whitespace(c));
    }
    let others = ['a', '0', ',', '\u{8}', '\u{e}', '\u{1f}', '\u{200b}', '\u{feff}', '\u{2060}'];
    for c in others {
        assert!(!is_whitespace(c));
    }
}

#[test]
fn white_space_agrees_with_the_standard_library() {
    let mut code: u32 = 0;
    while code < 0x4000 {
        if let Some(c) = char::from_u32(code) {
            assert_eq!(is_whitespace(c), c.is_whitespace());
        }
        code += 1;
    }
}

#[test]
fn trim_bounds_cut_white_space_at_both_ends() {
    let chars = chars_of("  a b \t");
    assert_eq!(trim_bounds(&chars, 0, 7), (2, 5));
    assert_eq!(trim_bounds(&chars, 0, 2), (2, 2));
    assert_eq!(trim_bounds(&chars, 3, 5), (4, 5));
    assert_eq!(trim_bounds(&chars, 2, 5), (2, 5));
    assert_eq!(trim_bounds(&chars, 7, 7), (7, 7));
}

#[test]
fn find_stop_gives_the_first_position() {
    assert_eq!(find_stop(&chars_of("a,b,c"), ','), 1);
    assert_eq!(find_stop(&chars_of(",a"), ','), 0);
    assert_eq!(find_stop(&chars_of("abc"), ','), 3);
    assert_eq!(find_stop(&chars_of(""), ','), 0);
}
