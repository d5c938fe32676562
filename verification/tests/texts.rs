use airtalk::text;
use airtalk::ui::wide::{encode_utf16, strip_zeros, wide};

const SAMPLES: [&str; 12] = [
    "",
    " ",
    "a",
    " a b ",
    "\u{3000}你好\u{a0}\n",
    "line1\nline2\r\nline3",
    "\r\n\r\n",
    "no end\n",
    "aaa",
    "🌏 x 🌏",
    "ÄÖ ß",
    "\tx\r",
];

#[test]
fn whitespace_is_that_of_char() {
    for code in 0..=0x10FFFFu32 {
        if let Some(c) = char::from_u32(code) {
            assert_eq!(text::is_whitespace(c), c.is_whitespace(), "{code:x}");
        }
    }
}

#[test]
fn trimming_matches_str() {
    for s in SAMPLES {
        assert_eq!(text::trim(s), s.trim());
        assert_eq!(text::trim_end(s), s.trim_end());
        assert_eq!(text::trim_end_char(s, 'a'), s.trim_end_matches('a'));
    }
}

#[test]
fn lines_match_str() {
    for s in SAMPLES {
        assert_eq!(text::lines(s), s.lines().collect::<Vec<_>>());
    }
}

#[test]
fn searching_matches_str() {
    for s in SAMPLES {
        for part in ["", "a", "aa", "🌏", "\r\n", "zz"] {
            assert_eq!(text::contains(s, part), s.contains(part), "{s:?} {part:?}");
            assert_eq!(text::starts_with(s, part), s.starts_with(part));
            if !part.is_empty() {
                assert_eq!(text::replace(s, part, "<>"), s.replace(part, "<>"));
            }
        }
    }
}

#[test]
fn comparing_matches_str() {
    for a in SAMPLES {
        for b in SAMPLES {
            assert_eq!(text::same(a, b), a == b);
            assert_eq!(text::eq_ignore_ascii_case(a, b), a.eq_ignore_ascii_case(b));
        }
    }
    assert!(text::eq_ignore_ascii_case("WaV", "wav"));
    assert!(!text::eq_ignore_ascii_case("Ä", "ä"));
}

#[test]
fn parts_of_texts() {
    assert_eq!(text::skip_chars("你好世界", 1), "好世界");
    assert_eq!(text::drop_last_char("你好"), "你");
    assert_eq!(text::join(&["a".into(), "b".into()], ", "), "a, b");
    assert_eq!(text::join(&[], ", "), "");
}

#[test]
fn numbers_match_std() {
    for n in [0u64, 9, 10, 255, 1_000_000, u64::MAX] {
        assert_eq!(text::decimal_of(n), n.to_string());
    }
    for n in [i32::MIN, -1, 0, 7, i32::MAX] {
        assert_eq!(text::signed_decimal_of(n), n.to_string());
    }
    for s in ["", "+", "-", "7", "+7", "-7", "007", "2147483647", "2147483648", "-2147483648",
        "-2147483649", " 1", "1 ", "1a", "٣", "--1", "99999999999999999999"]
    {
        assert_eq!(text::parse_i32(s), s.parse::<i32>().ok(), "{s:?}");
        assert_eq!(text::parse_u64(s), s.parse::<u64>().ok(), "{s:?}");
    }
    assert_eq!(text::parse_u64("18446744073709551615"), Some(u64::MAX));
    assert_eq!(text::parse_u64("18446744073709551616"), None);
}

#[test]
fn utf16_matches_str() {
    for s in SAMPLES {
        assert_eq!(encode_utf16(s), s.encode_utf16().collect::<Vec<_>>());
        let mut units = wide(s);
        assert_eq!(units.pop(), Some(0));
        assert_eq!(units, encode_utf16(s));
        let mut closed = wide(s);
        strip_zeros(&mut closed);
        assert_eq!(closed, encode_utf16(s));
    }
}
