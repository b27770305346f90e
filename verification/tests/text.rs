use port_scanner::text::{append_decimal, chars_of, trim};

#[test]
fn characters_of_a_text() {
    assert_eq!(chars_of("a,b"), vec!['a', ',', 'b']);
    assert_eq!(chars_of(""), Vec::<char>::new());
    assert_eq!(chars_of("\u{e9}\u{4e2d}"), vec!['\u{e9}', '\u{4e2d}']);
}

#[test]
fn trim_drops_whitespace_at_both_ends() {
    assert_eq!(trim("  a b \n"), "a b");
    assert_eq!(trim("a"), "a");
    assert_eq!(trim(""), "");
    assert_eq!(trim(" \t\r\n"), "");
    assert_eq!(trim("\u{2003}x\u{85}"), "x");
    assert_eq!(trim("\u{e9} "), "\u{e9}");
}

#[test]
fn trim_agrees_with_the_standard_library() {
    for code in 0u32..0x3100 {
        if let Some(c) = char::from_u32(code) {
            let text = format!("{}x{}", c, c);
            assert_eq!(trim(&text), text.trim());
        }
    }
}

#[test]
fn numbers_in_base_ten() {
    for (n, expected) in [
        (0u64, "0"),
        (7, "7"),
        (10, "10"),
        (99, "99"),
        (100, "100"),
        (65535, "65535"),
        (4_294_967_295, "4294967295"),
        (u64::MAX, "18446744073709551615"),
    ] {
        let mut out = String::from(">");
        append_decimal(&mut out, n);
        assert_eq!(out, format!(">{}", expected));
    }
}
