use macmon::http::is_white;
use macmon::text::{contains, decimal_text, ends_with, same_text, starts_with};

#[test]
fn comparisons_agree_with_std() {
    let texts = ["", "a", "ab", "aab", "ba", "abab", "é", "aé", "日本", "本"];
    for s in texts {
        for part in texts {
            assert_eq!(same_text(s, part), s == part);
            assert_eq!(starts_with(s, part), s.starts_with(part));
            assert_eq!(ends_with(s, part), s.ends_with(part));
            assert_eq!(contains(s, part), s.contains(part));
        }
    }
}

#[test]
fn decimal_notation_agrees_with_std() {
    for n in [0, 7, 9, 10, 99, 100, 1234567890, 4294967296, u64::MAX] {
        assert_eq!(decimal_text(n), n.to_string());
        assert_eq!(decimal_text(n).parse::<u64>(), Ok(n));
    }
}

#[test]
fn white_space_agrees_with_std() {
    for u in 0..=0x10ffffu32 {
        if let Some(c) = char::from_u32(u) {
            assert_eq!(is_white(c), c.is_whitespace(), "U+{u:04X}");
        }
    }
}
