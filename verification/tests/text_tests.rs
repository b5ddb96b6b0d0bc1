use virust::text::{chars_of, is_alphanumeric, is_whitespace, trim};

#[test]
fn white_space_matches_std_on_every_char() {
    for n in 0u32..=0x10FFFF {
        if let Some(c) = char::from_u32(n) {
            assert_eq!(is_whitespace(c), c.is_whitespace(), "U+{:04X}", n);
        }
    }
}

#[test]
fn alphanumeric_matches_std_on_every_char() {
    for n in 0u32..=0x10FFFF {
        if let Some(c) = char::from_u32(n) {
            assert_eq!(is_alphanumeric(c), c.is_alphanumeric(), "U+{:04X}", n);
        }
    }
}

#[test]
fn trim_drops_unicode_white_space() {
    let s = "\u{3000}\t a b \u{2028}\n";
    let t: String = trim(&chars_of(s)).into_iter().collect();
    assert_eq!(t, s.trim());
    assert_eq!(t, "a b");
}
