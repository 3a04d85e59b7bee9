use libui::{text_from_c_bytes, to_c_text, NulByte, TextAlignment};

fn contents(buffer: &[u8]) -> &[u8] {
    let end = buffer.iter().position(|b| *b == 0).unwrap_or(buffer.len());
    &buffer[..end]
}

#[test]
fn c_text_appends_terminator() {
    assert_eq!(to_c_text("hello"), Ok(b"hello\0".to_vec()));
}

#[test]
fn c_text_of_empty_text_is_terminator_alone() {
    assert_eq!(to_c_text(""), Ok(vec![0u8]));
}

#[test]
fn c_text_keeps_multibyte_characters() {
    assert_eq!(to_c_text("héllo ✓"), Ok("héllo ✓\0".as_bytes().to_vec()));
}

#[test]
fn c_text_refuses_embedded_nul() {
    assert_eq!(to_c_text("a\0b"), Err(NulByte { position: 1 }));
}

#[test]
fn c_text_reports_first_nul_in_bytes() {
    assert_eq!(to_c_text("é\0x\0"), Err(NulByte { position: 2 }));
}

#[test]
fn c_text_refuses_leading_and_trailing_nul() {
    assert_eq!(to_c_text("\0"), Err(NulByte { position: 0 }));
    assert_eq!(to_c_text("abc\0"), Err(NulByte { position: 3 }));
}

#[test]
fn decoding_valid_bytes_keeps_text() {
    assert_eq!(text_from_c_bytes(b"hello"), "hello".to_string());
    assert_eq!(text_from_c_bytes("größe".as_bytes()), "größe".to_string());
    assert_eq!(text_from_c_bytes(b""), String::new());
}

#[test]
fn decoding_invalid_bytes_replaces_them() {
    assert_eq!(text_from_c_bytes(&[0x66, 0xFF, 0x67]), "f\u{FFFD}g".to_string());
}

#[test]
fn text_written_is_text_read() {
    for t in ["", "label", "Grüße, 世界"] {
        let buffer = to_c_text(t).unwrap();
        assert_eq!(text_from_c_bytes(contents(&buffer)), t.to_string());
    }
}

#[test]
fn second_text_replaces_first() {
    let first = to_c_text("first").unwrap();
    let second = to_c_text("second text").unwrap();
    assert_ne!(first, second);
    assert_eq!(text_from_c_bytes(contents(&second)), "second text".to_string());
}

#[test]
fn view_after_write_matches_bytes() {
    let t = "zero-copy ✓";
    let buffer = to_c_text(t).unwrap();
    assert_eq!(contents(&buffer), t.as_bytes());
}

#[test]
fn alignment_constants() {
    assert_eq!(TextAlignment::Left.into_ui_align(), 0);
    assert_eq!(TextAlignment::Center.into_ui_align(), 1);
    assert_eq!(TextAlignment::Right.into_ui_align(), 2);
}

#[test]
fn alignment_twice_gives_same_constant() {
    for a in [TextAlignment::Left, TextAlignment::Center, TextAlignment::Right] {
        assert_eq!(a.into_ui_align(), a.into_ui_align());
        assert!(a.into_ui_align() < 3);
    }
}
