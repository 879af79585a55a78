use loiter::numbers::{decimal, padded, parse_unsigned};
use loiter::slugify;
use loiter::text::{chars_of, join_from, space, split, string_of, strip_char, trim};
use loiter::{validate_tag, Error, NumberError};

#[test]
fn test_slugify() {
    let test_cases: &[(&str, &str)] = &[
        ("Project 1", "project-1"),
        ("String with spaces", "string-with-spaces"),
        ("String with emojis 😀", "string-with-emojis"),
        ("  String with leading spaces", "string-with-leading-spaces"),
        ("String with trailing spaces  ", "string-with-trailing-spaces"),
        ("It's more complicated than that.", "its-more-complicated-than-that"),
        ("\"Quoted strings\" slugify naturally", "quoted-strings-slugify-naturally"),
    ];
    for (s, expected) in test_cases {
        let actual = slugify(s);
        assert_eq!(actual, expected.to_string());
    }
}

#[test]
fn slugify_is_idempotent_on_samples() {
    for s in ["Project 1", "  a  b  ", "--x__y--", "ÄÖÜ straße", "", "---", "İstanbul", "K2"] {
        let once = slugify(s);
        assert_eq!(slugify(&once), once);
    }
}

#[test]
fn slugify_collapses_runs_to_one_hyphen() {
    assert_eq!(slugify("a  b"), "a-b");
    assert_eq!(slugify("a - b"), "a-b");
    assert_eq!(slugify("a ' b"), "a-b");
    assert_eq!(slugify("a'b"), "ab");
    assert_eq!(slugify("a_b-c d"), "a-b-c-d");
    assert_eq!(slugify("a--b__c"), "a-b-c");
    assert_eq!(slugify("-_ -"), "");
    assert_eq!(slugify(" - a - "), "a");
}

#[test]
fn slugify_lowers_letters_outside_ascii_first() {
    // The Kelvin sign lowers to an ordinary k, which a slug keeps.
    assert_eq!(slugify("\u{212A}"), "k");
    assert_eq!(slugify("ABC"), "abc");
}

#[test]
fn space_agrees_with_the_standard_library() {
    for n in 0u32..=0x10FFFF {
        if let Some(c) = char::from_u32(n) {
            assert_eq!(space(c), c.is_whitespace(), "code point {:x}", n);
        }
    }
}

#[test]
fn trim_and_strip() {
    assert_eq!(string_of(&trim(&chars_of("  a b \t\n"))), "a b");
    assert_eq!(string_of(&trim(&chars_of("\u{3000}x\u{00A0}"))), "x");
    assert_eq!(string_of(&trim(&chars_of("   "))), "");
    assert_eq!(string_of(&strip_char(&chars_of("--a-b--"), '-')), "a-b");
}

#[test]
fn split_gives_a_piece_between_every_two_separators() {
    let pieces: Vec<String> = split(&chars_of("a,,b,"), ',').iter().map(string_of).collect();
    assert_eq!(pieces, vec!["a", "", "b", ""]);
    let pieces: Vec<String> = split(&chars_of(""), ',').iter().map(string_of).collect();
    assert_eq!(pieces, vec![""]);
    let parts = split(&chars_of("from 2021-11-04 12:43"), ' ');
    assert_eq!(string_of(&join_from(&parts, 1, ' ')), "2021-11-04 12:43");
}

#[test]
fn numbers_are_read_as_the_standard_library_reads_them() {
    for s in ["0", "7", "+7", "0007", "255", "256", "", "+", "-", "-1", "1x", "x1", " 1", "99999999999999999999x"] {
        let mine = parse_unsigned(&chars_of(s), 255);
        let std = s.parse::<u8>();
        match (mine, std) {
            (Ok(a), Ok(b)) => assert_eq!(a, b as u64, "{:?}", s),
            (Err(a), Err(b)) => assert_eq!(a.message(), b.to_string(), "{:?}", s),
            (a, b) => panic!("{:?}: {:?} against {:?}", s, a, b),
        }
    }
    assert_eq!(parse_unsigned(&chars_of("4294967295"), u32::MAX as u64), Ok(4294967295));
    assert_eq!(parse_unsigned(&chars_of("4294967296"), u32::MAX as u64), Err(NumberError::TooLarge));
    assert_eq!(parse_unsigned(&chars_of("12a"), 100), Err(NumberError::InvalidDigit));
    assert_eq!(parse_unsigned(&chars_of(""), 100), Err(NumberError::Empty));
}

#[test]
fn numbers_are_written_with_padding() {
    assert_eq!(string_of(&decimal(0)), "0");
    assert_eq!(string_of(&decimal(u64::MAX)), "18446744073709551615");
    assert_eq!(string_of(&padded(1, 4)), "0001");
    assert_eq!(string_of(&padded(12345, 4)), "12345");
    assert_eq!(string_of(&padded(0, 5)), "00000");
    for n in [0u64, 1, 9, 10, 99, 9999, 10000, 4294967295] {
        assert_eq!(parse_unsigned(&padded(n, 5), u32::MAX as u64), Ok(n));
    }
}

#[test]
fn tags_are_lowered_and_checked() {
    assert_eq!(validate_tag("Work_1-x").unwrap(), "work_1-x");
    assert_eq!(validate_tag("a b"), Err(Error::TagHasInvalidChars("a b".to_string())));
    assert_eq!(validate_tag("É"), Err(Error::TagHasInvalidChars("é".to_string())));
    assert_eq!(validate_tag("").unwrap(), "");
}
