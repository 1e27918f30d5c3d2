//! Text helpers, against what std makes of the same values.

use tower_cli::text::{
    before, byte_len, bytes_hex, chars_of, contains, dec_i64, dec_u64, hex_text, join_of, lines_of,
    padded_left, padded_right, strip_prefix, strip_suffix, text_of, three_digits_of, trim,
    trim_char, trim_end,
};

const SAMPLES: [&str; 10] =
    ["", " ", "a", " a b ", "\t→ π\n", "x\u{a0}", "\u{3000}y", "a\r\nb\n\nc", "\n", "\u{2028}z "];

#[test]
fn numbers_are_written_as_std_does() {
    for n in [0, 1, 9, 10, 12_345, u64::MAX] {
        assert_eq!(dec_u64(n), n.to_string());
    }
    for n in [0, -1, 5, i64::MIN, i64::MAX] {
        assert_eq!(dec_i64(n), n.to_string());
    }
    for n in [0, 0xab12, u32::MAX] {
        assert_eq!(hex_text(n, 8), format!("{n:08x}"));
    }
    assert_eq!(bytes_hex(&[0, 255]), "00ff");
    assert_eq!(three_digits_of(7), "007");
}

#[test]
fn trimming_follows_std() {
    for s in SAMPLES {
        assert_eq!(trim(s), s.trim());
        assert_eq!(trim_end(s), s.trim_end());
        let lines: Vec<&str> = s.lines().collect();
        assert_eq!(lines_of(s), lines);
        assert_eq!(byte_len(s), s.len());
        assert_eq!(chars_of(s), s.chars().collect::<Vec<char>>());
    }
    for c in ['a', ' ', '\n', '\u{a0}', '\u{200b}', '\u{85}', '\u{3000}'] {
        let s = format!("{c}x{c}");
        assert_eq!(trim(&s), s.trim());
    }
    assert_eq!(trim_char("//a/b//", '/'), "a/b");
}

#[test]
fn pieces_follow_std() {
    assert_eq!(strip_prefix("tower/x", "tower/"), Some("x"));
    assert_eq!(strip_prefix("x", "tower/"), None);
    assert_eq!(strip_suffix("x/req", "/req"), Some("x"));
    assert_eq!(strip_suffix("x", "/req"), None);
    assert_eq!(before("a/b/c", '/'), "a");
    assert_eq!(before("abc", '/'), "abc");
    assert!(contains("hello", "ell") && !contains("hello", "elo") && contains("x", ""));
    assert_eq!(join_of(&vec!["a".to_string(), "b".to_string()], ", "), "a, b");
    assert_eq!(join_of(&vec![], ", "), "");
    assert_eq!(padded_left("7".to_string(), 3), "  7");
    assert_eq!(padded_right("π".to_string(), 3), "π  ");
    assert_eq!(padded_left("long".to_string(), 3), "long");
}

#[test]
fn characters_are_put_together() {
    let v = chars_of("aπ→😀");
    assert_eq!(text_of(&v, 1, 4), "π→😀");
    assert_eq!(text_of(&v, 2, 2), "");
}

/// White space is what the Unicode property says, character by character.
#[test]
fn white_space_is_the_unicode_property() {
    let listed = |u: u32| {
        matches!(
            u,
            0x09..=0x0d
                | 0x20
                | 0x85
                | 0xa0
                | 0x1680
                | 0x2000..=0x200a
                | 0x2028
                | 0x2029
                | 0x202f
                | 0x205f
                | 0x3000
        )
    };
    for c in '\0'..=char::MAX {
        let s = String::from(c);
        assert_eq!(trim(&s).is_empty(), listed(c as u32), "{:x}", c as u32);
    }
}
