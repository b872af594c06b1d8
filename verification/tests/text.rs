use whep_relay::text::{chars_of, is_whitespace, same_text, trimmed_prefix_is};

#[test]
fn same_text_compares_characters() {
    assert!(same_text("", ""));
    assert!(same_text("h264", "h264"));
    assert!(!same_text("h264", "h265"));
    assert!(!same_text("h264", "h26"));
    assert!(!same_text("h26", "h264"));
    assert!(same_text("caf\u{e9}", "caf\u{e9}"));
    assert!(!same_text("caf\u{e9}", "cafe"));
}

#[test]
fn chars_of_lists_the_characters() {
    assert_eq!(chars_of(""), Vec::<char>::new());
    assert_eq!(chars_of("a\u{e9}\u{1f600}"), vec!['a', '\u{e9}', '\u{1f600}']);
}

#[test]
fn white_space_is_what_char_says() {
    let mut code: u32 = 0;
    while code <= 0x10ffff {
        if let Some(c) = char::from_u32(code) {
            assert_eq!(is_whitespace(c), c.is_whitespace());
        }
        code += 1;
    }
}

#[test]
fn trimmed_prefix_cuts_at_the_stop_and_trims() {
    assert!(trimmed_prefix_is("  a b ; c", ';', "a b"));
    assert!(trimmed_prefix_is("a b", ';', "a b"));
    assert!(trimmed_prefix_is(";", ';', ""));
    assert!(trimmed_prefix_is("", ';', ""));
    assert!(trimmed_prefix_is(" \t\r\n ", ';', ""));
    assert!(trimmed_prefix_is("x;y;z", ';', "x"));
    assert!(!trimmed_prefix_is("x;y", ';', "x;y"));
    assert!(!trimmed_prefix_is(" x ", ';', " x "));
    assert!(!trimmed_prefix_is("xy", ';', "x"));
    assert!(!trimmed_prefix_is("x", ';', "xy"));
    let plain = "application/sdp";
    for value in ["application/sdp", " application/sdp ;q", plain] {
        let expected = value.split(';').next().map(|s| s.trim()) == Some(plain);
        assert_eq!(trimmed_prefix_is(value, ';', plain), expected);
    }
}
