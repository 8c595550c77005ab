//! Text helpers, held against the standard library.

use thatsmatter_bridge::text::{
    is_less, is_whitespace, parse_u64, split_before, starts_with, str_eq, to_chars, to_lower, trim,
};

const SAMPLES: [&str; 12] = [
    "",
    " ",
    "a",
    "  a b\t",
    "\u{a0}é\u{2003}",
    "Ünïcode ＡＢＣ",
    "MiXeD",
    "a.b.c",
    ".b",
    "\u{1f600}",
    "zz",
    "z",
];

#[test]
fn white_space_is_that_of_unicode() {
    for n in 0..=0x10ffffu32 {
        if let Some(c) = char::from_u32(n) {
            assert_eq!(is_whitespace(c), c.is_whitespace(), "U+{n:04X}");
        }
    }
}

#[test]
fn text_helpers_agree_with_std() {
    for s in SAMPLES {
        assert_eq!(trim(s), s.trim());
        assert_eq!(to_lower(s), s.to_ascii_lowercase());
        assert_eq!(to_chars(s), s.chars().collect::<Vec<char>>());
        assert_eq!(split_before(s, '.'), s.split('.').next().unwrap());
        for t in SAMPLES {
            assert_eq!(str_eq(s, t), s == t);
            assert_eq!(starts_with(s, t), s.starts_with(t));
            assert_eq!(is_less(s, t), s < t, "{s:?} {t:?}");
        }
    }
}

#[test]
fn whole_numbers_parse_as_in_std() {
    for s in [
        "", "+", "0", "7", "+7", "-1", "007", "18446744073709551615", "18446744073709551616",
        "99999999999999999999999", " 1", "1 ", "1.0", "0x1", "١", "++1",
    ] {
        assert_eq!(parse_u64(s), s.parse::<u64>().ok(), "{s:?}");
    }
}
