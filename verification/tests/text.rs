use qr_screen::text::{clipped_field, encode_utf16, size_label, whole_field, wide_nul};

#[test]
fn encoding_agrees_with_std() {
    for text in ["", "plain", "\u{e9}\u{d7}", "a\u{1F600}b", "\u{FFFF}\u{10000}\u{10FFFF}"] {
        let expected: Vec<u16> = text.encode_utf16().collect();
        assert_eq!(encode_utf16(text), expected);
    }
    assert_eq!(encode_utf16("a\u{1F600}"), vec![0x61, 0xD83D, 0xDE00]);
}

#[test]
fn wide_text_ends_in_zero() {
    assert_eq!(wide_nul("Hi"), vec![72, 105, 0]);
    assert_eq!(wide_nul(""), vec![0]);
}

#[test]
fn clipped_field_leaves_room_for_zero() {
    assert_eq!(clipped_field("abc", 5), vec![97, 98, 99, 0, 0]);
    assert_eq!(clipped_field("abcd", 5), vec![97, 98, 99, 100, 0]);
    assert_eq!(clipped_field("abcdef", 5), vec![97, 98, 99, 100, 0]);
    assert_eq!(clipped_field("abc", 1), vec![0]);
}

#[test]
fn whole_field_may_be_full() {
    assert_eq!(whole_field("abc", 3), vec![97, 98, 99]);
    assert_eq!(whole_field("abc", 4), vec![97, 98, 99, 0]);
}

#[test]
fn sizes_are_decimal() {
    for (w, h) in [(0, 9), (10, 100), (1920, 1080), (65535, i32::MAX)] {
        let expected: Vec<u16> = format!("{}\u{d7}{}", w, h).encode_utf16().collect();
        assert_eq!(size_label(w, h), expected);
    }
}
