use c_ares::text::{append_decimal, cut_at_terminator, terminated_text};

#[test]
fn a_buffer_is_cut_at_its_first_zero() {
    assert_eq!(cut_at_terminator(b"abc\0def\0"), b"abc");
    assert_eq!(cut_at_terminator(b"abc"), b"abc");
    assert_eq!(cut_at_terminator(b"\0abc"), b"");
    assert_eq!(cut_at_terminator(b""), b"");
}

#[test]
fn text_is_read_up_to_the_terminator() {
    assert_eq!(terminated_text(b"hello\0world"), Some("hello".to_string()));
    assert_eq!(terminated_text(b"gr\xc3\xbc\xc3\x9fe\0"), Some("gr\u{fc}\u{df}e".to_string()));
    assert_eq!(terminated_text(b""), Some(String::new()));
    assert_eq!(terminated_text(b"\xff\0"), None);
    assert_eq!(terminated_text(b"\xed\xa0\x80"), None);
    assert_eq!(terminated_text(b"ok\0\xff"), Some("ok".to_string()));
}

#[test]
fn numbers_are_written_in_decimal() {
    let mut text = String::from("n=");
    append_decimal(&mut text, 0);
    assert_eq!(text, "n=0");
    append_decimal(&mut text, 7);
    append_decimal(&mut text, 10);
    append_decimal(&mut text, 4294967295);
    assert_eq!(text, "n=07104294967295");
    let mut text = String::new();
    append_decimal(&mut text, 1000);
    assert_eq!(text, "1000");
}
