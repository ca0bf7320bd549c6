use jbuchong::text::{is_white_space, str_eq};

#[test]
fn white_space_is_what_std_calls_white_space() {
    let mut count = 0;
    for v in 0u32..=0x10FFFF {
        if let Some(c) = char::from_u32(v) {
            assert_eq!(is_white_space(c), c.is_whitespace(), "U+{v:04X}");
            if is_white_space(c) {
                count += 1;
            }
        }
    }
    assert_eq!(count, 25);
}

#[test]
fn texts_compare_by_their_characters() {
    assert!(str_eq("黑风雷", "黑风雷"));
    assert!(!str_eq("ab", "abc"));
    assert!(!str_eq("ab", "ac"));
    assert!(str_eq("", ""));
}
