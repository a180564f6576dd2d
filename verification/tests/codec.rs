use imp::codec::{base64_standard, base64_url_no_pad, decode_windows_1252, hex_encode, string_from_utf8};

#[test]
fn hex_is_lowercase_pairs() {
    assert_eq!(hex_encode(&[0x00, 0xff, 0x1a, 0xab]), "00ff1aab");
    assert_eq!(hex_encode(&[]), "");
}

#[test]
fn base64_flavours() {
    assert_eq!(base64_standard(b"hi"), "aGk=");
    assert_eq!(base64_standard(b"hello"), "aGVsbG8=");
    assert_eq!(base64_standard(b"abc"), "YWJj");
    assert_eq!(base64_standard(&[0xfb, 0xff]), "+/8=");
    assert_eq!(base64_url_no_pad(&[0xfb, 0xff]), "-_8");
    assert_eq!(base64_url_no_pad(b"a"), "YQ");
}

#[test]
fn utf8_decoding() {
    assert_eq!(string_from_utf8(vec![0x68, 0xc3, 0xa9]), Ok("hé".to_string()));
    assert_eq!(
        string_from_utf8(vec![0x61, 0xff]),
        Err("invalid utf-8 sequence of 1 bytes from index 1".to_string())
    );
}

#[test]
fn windows_1252_decoding() {
    assert_eq!(decode_windows_1252(b"plain"), "plain");
    assert_eq!(decode_windows_1252(&[0x41, 0x80, 0xe9]), "A€é");
}
