use letsconnectdreams_tui::frame::{
    abort_frame, auth_reply, echo_header, echo_reply_matches, encode_header, header_data_len, header_kind,
    u32_from_be_bytes, u32_to_be, AuthReply, HEADER_LEN,
};

#[test]
fn u32_big_endian_bytes() {
    assert_eq!(u32_to_be(0x0102_0304), [1, 2, 3, 4]);
    assert_eq!(u32_to_be(4), [0, 0, 0, 4]);
    assert_eq!(u32_to_be(u32::MAX), [0xff, 0xff, 0xff, 0xff]);
    assert_eq!(u32_from_be_bytes(&[0, 0, 1, 0]), 256);
    assert_eq!(u32_from_be_bytes(&[0x12, 0x34, 0x56, 0x78]), 0x1234_5678);
}

#[test]
fn u32_big_endian_roundtrip() {
    for x in [0u32, 1, 255, 256, 65535, 65536, 0xdead_beef, u32::MAX] {
        assert_eq!(u32_from_be_bytes(&u32_to_be(x)), x);
        assert_eq!(u32_to_be(x), x.to_be_bytes());
    }
}

#[test]
fn header_layout() {
    let h = encode_header(b"PUBKEY", 426);
    assert_eq!(h.len(), HEADER_LEN);
    assert_eq!(&h[..2], &[0, 0]);
    assert_eq!(&h[2..8], b"PUBKEY");
    assert_eq!(&h[8..12], &426u32.to_be_bytes());
}

#[test]
fn header_roundtrip() {
    for (kind, len) in [(b"ECHOOO", 4u32), (b"HELLOO", 384), (b"AUTHIN", 0), (b"UPDADR", u32::MAX)] {
        let h = encode_header(kind, len);
        assert_eq!(&header_kind(&h), kind);
        assert_eq!(header_data_len(&h), len);
    }
}

#[test]
fn abort_frame_bytes() {
    assert_eq!(&abort_frame(), b"\0\0ABORTT\0\0\0\0");
}

#[test]
fn echo_header_for_data() {
    assert_eq!(&echo_header(b"data"), b"\0\0ECHOOO\0\0\0\x04");
    assert_eq!(&echo_header(b""), b"\0\0ECHOOO\0\0\0\0");
    let long = vec![7u8; 300];
    assert_eq!(&echo_header(&long), b"\0\0ECHOOO\0\0\x01\x2c");
}

#[test]
fn reply_header_length() {
    let reply = *b"\0\0ECHOOO\0\0\0\x05";
    assert_eq!(header_data_len(&reply), 5);
    assert_eq!(&header_kind(&reply), b"ECHOOO");
}

#[test]
fn echo_reply_comparison() {
    assert!(echo_reply_matches(b"hello", b"hello"));
    assert!(echo_reply_matches(b"", b""));
    assert!(!echo_reply_matches(b"hello", b"hellO"));
    assert!(!echo_reply_matches(b"hello", b"hell"));
    assert!(!echo_reply_matches(b"hell", b"hello"));
}

#[test]
fn auth_replies() {
    assert_eq!(auth_reply(&encode_header(b"AUTHOK", 0)), Some(AuthReply::Accepted));
    assert_eq!(auth_reply(&encode_header(b"AUTHER", 3)), Some(AuthReply::Refused));
    assert_eq!(auth_reply(&encode_header(b"FORBID", 0)), None);
    assert_eq!(auth_reply(&encode_header(b"AUTHIN", 0)), None);
}
