use acodex_server::paths::{file_name, join};
use acodex_server::text::numerals::{decimal_string, number_of_digits, parse_unsigned};
use acodex_server::text::scan::find_word;
use acodex_server::text::unicode::utf8_text;
use acodex_server::text::words::{
    is_whitespace, split_halves, split_whitespace, trim, trim_start_matches,
};
use std::path::Path;

#[test]
fn white_space_is_what_the_standard_library_says() {
    for n in 0..=0x10ffff_u32 {
        if let Some(c) = char::from_u32(n) {
            assert_eq!(is_whitespace(c), c.is_whitespace(), "{n:x}");
        }
    }
}

#[test]
fn words_are_split_as_the_standard_library_splits_them() {
    for text in ["", "  ", "a", " a  b\tc\n", "/bin/sh -c 'x y'", "\u{3000}é\u{2028}ß"] {
        let expected: Vec<String> = text.split_whitespace().map(|s| s.to_string()).collect();
        assert_eq!(split_whitespace(text), expected);
        assert_eq!(trim(text), text.trim());
    }
}

#[test]
fn leading_letters_are_taken_off() {
    for text in ["v1.2.3", "vv1", "1v", "", "vvv"] {
        assert_eq!(trim_start_matches(text, 'v'), text.trim_start_matches('v'));
    }
}

#[test]
fn halves_need_exactly_one_separator() {
    assert_eq!(split_halves("12,1.0.0", ','), Some(("12", "1.0.0")));
    assert_eq!(split_halves(",", ','), Some(("", "")));
    assert_eq!(split_halves("12", ','), None);
    assert_eq!(split_halves("1,2,3", ','), None);
}

#[test]
fn numerals_are_written_and_read() {
    for n in [0u64, 1, 9, 10, 99, 100, 65535, u64::MAX] {
        assert_eq!(decimal_string(n), n.to_string());
        assert_eq!(parse_unsigned(n.to_string().as_bytes(), u64::MAX), Some(n));
    }
    for text in ["", "+", "-1", "1a", " 1", "18446744073709551616"] {
        assert_eq!(parse_unsigned(text.as_bytes(), u64::MAX), text.parse::<u64>().ok());
    }
    assert_eq!(parse_unsigned(b"+007", 255), "+007".parse::<u8>().ok().map(u64::from));
    assert_eq!(parse_unsigned(b"256", 255), None);
    assert_eq!(number_of_digits(0), 0);
    assert_eq!(number_of_digits(9), 1);
    assert_eq!(number_of_digits(1000), 4);
}

#[test]
fn bytes_are_text_where_they_are_utf8() {
    assert_eq!(utf8_text("aé\u{1F600}".as_bytes()), Some("aé\u{1F600}".to_string()));
    assert_eq!(utf8_text(b"a\xffb"), None);
    assert_eq!(utf8_text(b""), Some(String::new()));
}

#[test]
fn words_are_found_in_bytes() {
    assert_eq!(find_word(b"abcabd", b"abd"), Some(3));
    assert_eq!(find_word(b"aab", b"ab"), Some(1));
    assert_eq!(find_word(b"ab", b"abc"), None);
}

#[test]
fn paths_are_joined_as_the_standard_library_joins_them() {
    for base in ["", "/", "/a", "/a/", "a/b"] {
        for part in ["", "x", "x/y", "/x"] {
            let expected = Path::new(base).join(part);
            assert_eq!(
                join(base.as_bytes(), part.as_bytes()),
                expected.to_str().unwrap().as_bytes().to_vec()
            );
        }
    }
}

#[test]
fn the_last_component_is_what_the_standard_library_says() {
    for path in [
        "", "/", "a", "/a", "a/b", "a/b/", "a/b//", "a/.", "a/./", ".", "..", "a/..", "/..", "a//b",
        "./", "a/b/././", "a/..b", "...",
    ] {
        let expected = Path::new(path).file_name().map(|n| n.to_str().unwrap().as_bytes());
        assert_eq!(file_name(path.as_bytes()), expected, "{path}");
    }
}
