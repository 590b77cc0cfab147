use reactor_core::text::{
    append, append_decimal, append_digits, append_number, append_str, blank, chars_of, find,
    next_word, numbered, rfind,
};

#[test]
fn chars_of_gives_the_characters_in_order() {
    assert_eq!(chars_of("a\u{e9}b"), vec!['a', '\u{e9}', 'b']);
    assert!(chars_of("").is_empty());
}

#[test]
fn find_and_rfind_give_the_outermost_positions() {
    let chars = chars_of("a.b.c");
    assert_eq!(find(&chars, '.'), Some(1));
    assert_eq!(rfind(&chars, '.'), Some(3));
    assert_eq!(find(&chars, 'x'), None);
    assert_eq!(rfind(&chars, 'x'), None);
    assert_eq!(find(&chars_of(""), '.'), None);
    assert_eq!(rfind(&chars_of("."), '.'), Some(0));
}

#[test]
fn append_puts_bytes_at_the_end() {
    let mut out = b"ab".to_vec();
    append(&mut out, b"cd");
    append_str(&mut out, "\u{e9}");
    assert_eq!(out, vec![b'a', b'b', b'c', b'd', 0xc3, 0xa9]);
}

#[test]
fn append_digits_writes_decimal() {
    let mut out = Vec::new();
    append_digits(&mut out, 0);
    append_digits(&mut out, 7);
    append_digits(&mut out, 10);
    append_digits(&mut out, 1234567890);
    append_digits(&mut out, u64::MAX);
    assert_eq!(out, b"0710123456789018446744073709551615".to_vec());
}

#[test]
fn append_decimal_writes_the_sign() {
    let mut out = Vec::new();
    append_decimal(&mut out, -1);
    append_decimal(&mut out, 0);
    append_decimal(&mut out, 42);
    append_decimal(&mut out, i64::MIN);
    append_decimal(&mut out, i64::MAX);
    assert_eq!(out, b"-1042-92233720368547758089223372036854775807".to_vec());
}

#[test]
fn numbered_appends_the_number() {
    assert_eq!(numbered("ClientRequest ", 0), "ClientRequest 0");
    assert_eq!(numbered("x", 1907), "x1907");
    let mut s = String::from("n=");
    append_number(&mut s, usize::MAX);
    assert_eq!(s, format!("n={}", usize::MAX));
}

#[test]
fn blank_knows_the_separators() {
    for c in [' ', '\t', '\n', '\u{b}', '\u{c}', '\r', '\u{85}', '\u{a0}', '\u{1680}', '\u{2000}',
        '\u{2005}', '\u{200a}', '\u{2028}', '\u{2029}', '\u{202f}', '\u{205f}', '\u{3000}']
    {
        assert!(blank(c));
    }
    for c in ['a', '/', '0', '\0', '\u{8}', '\u{e}', '\u{1f}', '\u{200b}', '\u{180e}', '\u{feff}'] {
        assert!(!blank(c));
    }
    for n in 0u32..0x3100 {
        if let Some(c) = char::from_u32(n) {
            assert_eq!(blank(c), c.is_whitespace());
        }
    }
}

#[test]
fn next_word_finds_the_words_of_a_line() {
    let chars = chars_of("  GET\t /index  HTTP/1.1 ");
    let end = chars.len();
    assert_eq!(next_word(&chars, end, 0), Some((2, 5)));
    assert_eq!(next_word(&chars, end, 5), Some((7, 13)));
    assert_eq!(next_word(&chars, end, 13), Some((15, 23)));
    assert_eq!(next_word(&chars, end, 23), None);
    assert_eq!(next_word(&chars, 4, 0), Some((2, 4)));
    assert_eq!(next_word(&chars, 2, 0), None);
    assert_eq!(next_word(&chars, 0, 0), None);
}
