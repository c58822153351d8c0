//! The text functions agree with those of the standard library.
use ostt::text::{
    ascii_lowered, chars_of, decimal_text, find_chars, index_of, is_among, join_texts,
    padded_decimal_text, parse_u64, parse_usize, same_chars, same_text, split_at_char,
    split_lines, split_words, text_after, text_contains, text_of, text_starts_with,
    text_strip_prefix, text_strip_suffix, trim_bounds, trimmed, whitespace,
};

const SAMPLES: [&str; 24] = [
    "",
    " ",
    "a",
    " a ",
    "\ta b\n",
    "\u{a0}x\u{3000}",
    "\u{85}\u{2028}y z\u{2029}",
    "no-break\u{200b}",
    "a  b   c",
    "line one\nline two\n",
    "line one\r\nline two",
    "\n\n",
    "\r",
    "\r\n",
    "a\r\r\nb",
    "end\r",
    "node.nick = \"Mic\"",
    "aaa",
    "abcabc",
    "été À la carte",
    "ẞtraße",
    "日本 語",
    "_x__y_",
    "Default Source: alsa_input.usb-Blue_Yeti-00.analog-stereo",
];

const PATTERNS: [&str; 12] = [
    "", "a", " ", "b", "abc", "bca", "aa", "\n", "été", "語", "node.nick = \"", "zzz",
];

#[test]
fn whitespace_is_that_of_unicode() {
    for n in 0u32..=0x10ffff {
        if let Some(c) = char::from_u32(n) {
            assert_eq!(whitespace(c), c.is_whitespace(), "U+{:04X}", n);
        }
    }
}

#[test]
fn trimming_and_splitting_agree_with_std() {
    for s in SAMPLES {
        assert_eq!(trimmed(s), s.trim());
        assert_eq!(ascii_lowered(s), s.to_ascii_lowercase());
        assert_eq!(chars_of(s), s.chars().collect::<Vec<char>>());
        assert_eq!(split_words(s), s.split_whitespace().collect::<Vec<&str>>());
        assert_eq!(split_lines(s), s.lines().collect::<Vec<&str>>(), "{:?}", s);
        for c in ['_', ' ', '.', 'a', '\n'] {
            assert_eq!(split_at_char(s, c), s.split(c).collect::<Vec<&str>>());
        }
        assert_eq!(trimmed(&trimmed(s)), trimmed(s));
    }
}

#[test]
fn searching_agrees_with_std() {
    for s in SAMPLES {
        for p in PATTERNS {
            assert_eq!(text_contains(s, p), s.contains(p), "{:?} {:?}", s, p);
            assert_eq!(text_starts_with(s, p), s.starts_with(p));
            assert_eq!(text_strip_prefix(s, p).as_deref(), s.strip_prefix(p));
            assert_eq!(text_strip_suffix(s, p).as_deref(), s.strip_suffix(p));
            assert_eq!(
                text_after(s, p).as_deref(),
                s.split_once(p).map(|(_, rest)| rest)
            );
            assert_eq!(same_text(s, p), s == p);
        }
    }
}

#[test]
fn positions_are_counted_in_characters() {
    let cs = chars_of("été a");
    assert_eq!(find_chars(&cs, &['t', 'é']), Some(1));
    assert_eq!(find_chars(&cs, &['x']), None);
    assert_eq!(index_of(&cs, 0, 'é'), 0);
    assert_eq!(index_of(&cs, 1, 'é'), 2);
    assert_eq!(index_of(&cs, 3, 'é'), 5);
    assert_eq!(text_of(&cs, 1, 4), "té ");
    assert_eq!(trim_bounds(&chars_of("  ab ")), (2, 4));
    assert!(same_chars(&cs, &chars_of("été a")));
    assert!(!same_chars(&cs, &chars_of("été")));
}

#[test]
fn numbers_are_written_as_std_writes_them() {
    for n in [0u128, 1, 9, 10, 99, 100, 12345, u64::MAX as u128, u128::MAX] {
        assert_eq!(decimal_text(n), n.to_string());
        assert_eq!(padded_decimal_text(n, 3), format!("{:03}", n));
    }
    assert_eq!(padded_decimal_text(7, 3), "007");
}

#[test]
fn numbers_are_read_as_std_reads_them() {
    for s in [
        "", "+", "-", "0", "00", "+0", "-0", "+7", "-7", "42", " 42", "42 ", "4_2", "0x10", "٣",
        "18446744073709551615", "18446744073709551616", "00000000000000000000000000001",
        "99999999999999999999999999",
    ] {
        assert_eq!(parse_u64(s), s.parse::<u64>().ok(), "{:?}", s);
        assert_eq!(parse_usize(s), s.parse::<usize>().ok(), "{:?}", s);
    }
    for n in [0u64, 5, 1000, u64::MAX] {
        assert_eq!(parse_u64(&decimal_text(n as u128)), Some(n));
    }
}

#[test]
fn texts_are_joined_with_a_separator() {
    let parts = vec!["a".to_string(), "b".to_string(), "c".to_string()];
    assert_eq!(join_texts(&parts, " | "), "a | b | c");
    assert_eq!(join_texts(&parts[..1], " | "), "a");
    assert_eq!(join_texts(&[], " | "), "");
    assert!(is_among(&parts, "b"));
    assert!(!is_among(&parts, "B"));
}
