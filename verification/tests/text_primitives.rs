use rust_mqtt_client_tui::text::{
    char_is_whitespace, decimal_text, join_strings, parse_u16, take_chars, text_len, trim_text,
};

#[test]
fn decimal_and_parse() {
    assert_eq!(decimal_text(0), "0");
    assert_eq!(decimal_text(1883), "1883");
    assert_eq!(decimal_text(u64::MAX), u64::MAX.to_string());
    assert_eq!(parse_u16("65535"), Some(65535));
    assert_eq!(parse_u16("65536"), None);
    assert_eq!(parse_u16("000012"), Some(12));
    assert_eq!(parse_u16(""), None);
    assert_eq!(parse_u16("99999999999999999999999"), None);
}

#[test]
fn join_trim_and_lengths() {
    let parts = vec![String::from("a"), String::new(), String::from("b")];
    assert_eq!(join_strings(&parts, "\n"), "a\n\nb");
    assert_eq!(join_strings(&Vec::new(), "\n"), "");
    assert_eq!(text_len("aé"), 3);
    assert_eq!(take_chars("héllo", 2), "hé");
    assert_eq!(take_chars("hi", 9), "hi");
}

#[test]
fn trimming_follows_unicode_whitespace() {
    assert_eq!(trim_text("  a b \t"), "a b");
    assert_eq!(trim_text("\u{3000}x\u{a0}"), "x");
    assert_eq!(trim_text(" \n "), "");
    assert_eq!(trim_text(""), "");
    assert_eq!(trim_text("\u{200b}x"), "\u{200b}x");
    for c in (0u32..0x3100).filter_map(char::from_u32) {
        assert_eq!(char_is_whitespace(c), c.is_whitespace(), "{:?}", c);
    }
}
