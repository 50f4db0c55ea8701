use iw::text::{decode_text, find_byte, find_char, is_whitespace, trim_bounds};

fn chars_of(text: &str) -> Vec<char> {
    text.chars().collect()
}

fn trimmed(text: &str) -> String {
    let chars = chars_of(text);
    let (a, b) = trim_bounds(&chars, 0, chars.len());
    chars[a..b].iter().collect()
}

#[test]
fn white_space_is_what_std_calls_so() {
    for code in 0..=0x11_0000u32 {
        if let Some(c) = char::from_u32(code) {
            assert_eq!(is_whitespace(c), c.is_whitespace(), "{:?}", c);
        }
    }
}

#[test]
fn first_character_is_found() {
    let text = chars_of("wlan0: 00:11");
    assert_eq!(find_char(&text, 0, text.len(), ':'), 5);
    assert_eq!(find_char(&text, 5, text.len(), ':'), 5);
    assert_eq!(find_char(&text, 6, text.len(), ':'), 9);
    assert_eq!(find_char(&text, 10, text.len(), ':'), 12);
    assert_eq!(find_char(&text, 0, 5, ':'), 5);
    assert_eq!(find_char(&text, 0, 3, ':'), 3);
    assert_eq!(find_char(&text, 0, text.len(), 'w'), 0);
    assert_eq!(find_char(&text, 0, text.len(), 'x'), 12);
    assert_eq!(find_char(&text, 4, 4, '0'), 4);
    assert_eq!(find_char(&[], 0, 0, ':'), 0);
}

#[test]
fn first_byte_is_found() {
    let bytes = b"Home\0Net\0";
    assert_eq!(find_byte(bytes, 0, bytes.len(), 0), 4);
    assert_eq!(find_byte(bytes, 4, bytes.len(), 0), 4);
    assert_eq!(find_byte(bytes, 5, bytes.len(), 0), 8);
    assert_eq!(find_byte(bytes, 0, 4, 0), 4);
    assert_eq!(find_byte(bytes, 0, 2, 0), 2);
    assert_eq!(find_byte(bytes, 0, bytes.len(), b'x'), 9);
    assert_eq!(find_byte(bytes, 0, bytes.len(), b'H'), 0);
    assert_eq!(find_byte(&[], 0, 0, 0), 0);
}

#[test]
fn white_space_is_cut_at_both_ends() {
    assert_eq!(trimmed("  wlan0\t"), "wlan0");
    assert_eq!(trimmed("wlan0"), "wlan0");
    assert_eq!(trimmed(" a b "), "a b");
    assert_eq!(trimmed("\u{3000}a\u{a0}"), "a");
    assert_eq!(trimmed("x "), "x");
    assert_eq!(trimmed(" x"), "x");
}

#[test]
fn blank_text_is_cut_to_nothing() {
    assert_eq!(trimmed(""), "");
    assert_eq!(trimmed(" "), "");
    assert_eq!(trimmed(" \t\r\n \u{2003}"), "");
}

#[test]
fn bounds_stay_within_the_range() {
    let text = chars_of("ab  cd  ef");
    assert_eq!(trim_bounds(&text, 2, 8), (4, 6));
    assert_eq!(trim_bounds(&text, 2, 4), (4, 4));
    assert_eq!(trim_bounds(&text, 6, 8), (8, 8));
    assert_eq!(trim_bounds(&text, 3, 3), (3, 3));
    assert_eq!(trim_bounds(&text, 0, 10), (0, 10));
    assert_eq!(trim_bounds(&text, 1, 9), (1, 9));
}

#[test]
fn trimming_agrees_with_std() {
    for text in ["", " ", "a", " a", "a ", " a ", "\t a b \n", "\u{85}x\u{2028}", "\u{200b} x"] {
        assert_eq!(trimmed(text), text.trim());
    }
}

#[test]
fn utf8_is_decoded() {
    assert_eq!(decode_text(b"HomeNet", 7).as_deref(), Some("HomeNet"));
    assert_eq!(decode_text(b"HomeNet", 4).as_deref(), Some("Home"));
    assert_eq!(decode_text(b"HomeNet", 0).as_deref(), Some(""));
    assert_eq!(decode_text(b"", 0).as_deref(), Some(""));
    assert_eq!(decode_text("Café".as_bytes(), 5).as_deref(), Some("Café"));
    assert_eq!(decode_text(b"a\0b", 3).as_deref(), Some("a\0b"));
}

#[test]
fn every_character_is_decoded_from_its_encoding() {
    for c in ['\0', '\u{7f}', '\u{80}', '\u{7ff}', '\u{800}', '\u{d7ff}', '\u{e000}', '\u{ffff}',
        '\u{10000}', '\u{10ffff}']
    {
        let mut bytes = [0u8; 4];
        let encoded = c.encode_utf8(&mut bytes).len();
        assert_eq!(decode_text(&bytes, encoded), Some(c.to_string()));
    }
}

#[test]
fn bytes_that_are_not_utf8_are_not_decoded() {
    let bad: [&[u8]; 14] = [
        &[0x80],
        &[0xbf],
        &[0xc0, 0x80],
        &[0xc1, 0xbf],
        &[0xc2],
        &[0xe0, 0x80, 0x80],
        &[0xe0, 0x9f, 0xbf],
        &[0xe1, 0x80],
        &[0xed, 0xa0, 0x80],
        &[0xed, 0xbf, 0xbf],
        &[0xf0, 0x80, 0x80, 0x80],
        &[0xf0, 0x8f, 0xbf, 0xbf],
        &[0xf4, 0x90, 0x80, 0x80],
        &[0xf5, 0x80, 0x80, 0x80],
    ];
    for bytes in bad {
        assert_eq!(decode_text(bytes, bytes.len()), None, "{:x?}", bytes);
    }
    assert_eq!(decode_text(&[b'a', 0xff], 2), None);
    assert_eq!(decode_text(&[0xff, b'a'], 2), None);
    assert_eq!(decode_text(&[0xf8, 0x88, 0x80, 0x80, 0x80], 5), None);
}

#[test]
fn only_the_counted_bytes_are_decoded() {
    assert_eq!(decode_text(&[b'a', 0xff], 1).as_deref(), Some("a"));
    assert_eq!(decode_text("é".as_bytes(), 1), None);
}
