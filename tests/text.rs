use linkman::text::{chars_of, is_white_space_char, utf8_len};

#[test]
fn white_space_matches_std() {
    for c in (0u32..=0x10ffff).filter_map(char::from_u32) {
        assert_eq!(is_white_space_char(c), c.is_whitespace(), "{:?}", c);
    }
}

#[test]
fn utf8_len_matches_std() {
    for c in ['a', '\u{7f}', '\u{80}', 'é', '\u{7ff}', '\u{800}', '€', '\u{ffff}', '\u{10000}', '🦀'] {
        assert_eq!(utf8_len(c), c.len_utf8(), "{:?}", c);
    }
}

#[test]
fn chars_of_keeps_order() {
    assert_eq!(chars_of("añb🦀"), vec!['a', 'ñ', 'b', '🦀']);
    assert_eq!(chars_of(""), Vec::<char>::new());
}
