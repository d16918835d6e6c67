use openshell_relay::octets::{byte_preview, constant_time_eq, encode_hex};

#[test]
fn equal_bytes_compare_equal() {
    assert!(constant_time_eq(b"", b""));
    assert!(constant_time_eq(b"abc", b"abc"));
    assert!(constant_time_eq(&[0xff; 32], &[0xff; 32]));
}

#[test]
fn different_bytes_compare_different() {
    assert!(!constant_time_eq(b"abc", b"abd"));
    assert!(!constant_time_eq(b"xbc", b"abc"));
    assert!(!constant_time_eq(b"abc", b"ab"));
    assert!(!constant_time_eq(b"", b"a"));
    assert!(!constant_time_eq(&[0x01, 0x02], &[0x02, 0x01]));
}

#[test]
fn hex_is_lowercase_with_two_digits_for_each_byte() {
    assert_eq!(encode_hex(&[]), "");
    assert_eq!(encode_hex(&[0x00, 0x0f, 0xf0, 0xff]), "000ff0ff");
    assert_eq!(encode_hex(&[0xde, 0xad, 0xbe, 0xef, 0x19]), "deadbeef19");
}

#[test]
fn hex_tells_byte_strings_apart() {
    let mut seen: Vec<String> = Vec::new();
    for b in 0..=255u8 {
        let text = encode_hex(&[b]);
        assert_eq!(text, format!("{b:02x}"));
        assert!(!seen.contains(&text));
        seen.push(text);
    }
    assert_ne!(encode_hex(&[0x01, 0x10]), encode_hex(&[0x11, 0x00]));
}

#[test]
fn preview_shows_printable_ascii() {
    assert_eq!(byte_preview(b"GET / HTTP/1.1\r\n~"), "GET / HTTP/1.1..~");
    assert_eq!(byte_preview(&[0x1f, 0x20, 0x7e, 0x7f, 0x80, 0xff]), ". ~...");
    assert_eq!(byte_preview(b""), "");
}

#[test]
fn preview_is_cut_after_the_limit() {
    assert_eq!(byte_preview(&[b'a'; 120]), "a".repeat(120));
    assert_eq!(byte_preview(&[b'a'; 121]), format!("{}...", "a".repeat(120)));
}
