use spotstream::text::{before_char_str, find_str, is_white_space_char, starts_with_str, str_eq, trim_str};

#[test]
fn white_space_matches_std_for_every_char() {
    for code in 0u32..=0x10FFFF {
        if let Some(c) = char::from_u32(code) {
            assert_eq!(is_white_space_char(c), c.is_whitespace(), "U+{code:04X}");
        }
    }
}

#[test]
fn trim_matches_std() {
    for s in ["", " ", "  a b  ", "\u{2028}x\u{85}", "\t\n\r", "ab", "\u{feff}a\u{feff}", " \u{e9} "] {
        assert_eq!(trim_str(s), s.trim());
    }
}

#[test]
fn find_counts_characters() {
    assert_eq!(find_str("ab/track/c", "/track/"), Some(2));
    assert_eq!(find_str("\u{e9}/t", "/t"), Some(1));
    assert_eq!(find_str("abc", "abcd"), None);
    assert_eq!(find_str("abc", ""), Some(0));
    assert_eq!(find_str("xx/track", "/track/"), None);
    assert_eq!(find_str("/a/a", "/a"), Some(0));
}

#[test]
fn prefix_split_and_equality() {
    assert!(starts_with_str("spotify:track:x", "spotify:track:"));
    assert!(!starts_with_str("spotify:trac", "spotify:track:"));
    assert_eq!(before_char_str("abc?d?e", '?'), "abc");
    assert_eq!(before_char_str("abc", '?'), "abc");
    assert_eq!(before_char_str("?", '?'), "");
    assert!(str_eq("slow_down", "slow_down"));
    assert!(!str_eq("slow_down", "slow_dow"));
    assert!(!str_eq("a", "b"));
}
