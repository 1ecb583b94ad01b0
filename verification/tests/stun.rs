use letsconnectdreams_tui::stun::{
    new_binding_request, new_transaction_id, parse_stun_response, stun_binding_request,
    stun_response_readable, MappedAddress,
};

fn header() -> Vec<u8> {
    let mut h = vec![0x01, 0x01, 0x00, 0x0c, 0x21, 0x12, 0xa4, 0x42];
    h.extend_from_slice(&[9u8; 12]);
    h
}

fn xor_mapped(ip: [u8; 4], port: u16) -> Vec<u8> {
    let xp = port ^ 0x2112;
    let c = [0x21u8, 0x12, 0xa4, 0x42];
    vec![
        0x00, 0x20, 0x00, 0x08, 0x00, 0x01, (xp >> 8) as u8, xp as u8,
        ip[0] ^ c[0], ip[1] ^ c[1], ip[2] ^ c[2], ip[3] ^ c[3],
    ]
}

#[test]
fn binding_request_layout() {
    let t = [1u8, 2, 3, 4, 5, 6, 7, 8, 9, 10, 11, 12];
    let r = stun_binding_request(&t);
    assert_eq!(&r[..8], &[0x00, 0x01, 0x00, 0x00, 0x21, 0x12, 0xa4, 0x42]);
    assert_eq!(&r[8..], &t);
}

#[test]
fn fresh_binding_request_layout() {
    let r = new_binding_request();
    assert_eq!(&r[..8], &[0x00, 0x01, 0x00, 0x00, 0x21, 0x12, 0xa4, 0x42]);
    let a = new_transaction_id();
    let b = new_transaction_id();
    assert_eq!(a.len(), 12);
    assert_ne!(a, b);
}

#[test]
fn decodes_xor_mapped_address() {
    let mut buf = header();
    buf.extend(xor_mapped([203, 0, 113, 7], 54321));
    assert!(stun_response_readable(&buf));
    assert_eq!(parse_stun_response(&buf), MappedAddress { ip: [203, 0, 113, 7], port: 54321 });
}

#[test]
fn skips_other_attributes_with_padding() {
    let mut buf = header();
    // SOFTWARE attribute of 5 bytes, padded to 8.
    buf.extend_from_slice(&[0x80, 0x22, 0x00, 0x05, b'a', b'b', b'c', b'd', b'e', 0, 0, 0]);
    buf.extend(xor_mapped([192, 168, 1, 20], 4222));
    // FINGERPRINT attribute.
    buf.extend_from_slice(&[0x80, 0x28, 0x00, 0x04, 1, 2, 3, 4]);
    assert!(stun_response_readable(&buf));
    assert_eq!(parse_stun_response(&buf), MappedAddress { ip: [192, 168, 1, 20], port: 4222 });
}

#[test]
fn last_xor_mapped_address_wins() {
    let mut buf = header();
    buf.extend(xor_mapped([1, 1, 1, 1], 1));
    buf.extend(xor_mapped([8, 8, 4, 4], 2));
    assert_eq!(parse_stun_response(&buf), MappedAddress { ip: [8, 8, 4, 4], port: 2 });
}

#[test]
fn ipv6_family_sets_only_the_port() {
    let mut buf = header();
    let xp = 3478u16 ^ 0x2112;
    buf.extend_from_slice(&[0x00, 0x20, 0x00, 0x14, 0x00, 0x02, (xp >> 8) as u8, xp as u8]);
    buf.extend_from_slice(&[0u8; 16]);
    assert!(stun_response_readable(&buf));
    assert_eq!(parse_stun_response(&buf), MappedAddress { ip: [0, 0, 0, 0], port: 3478 });
}

#[test]
fn response_without_attributes() {
    assert_eq!(parse_stun_response(&header()), MappedAddress { ip: [0, 0, 0, 0], port: 0 });
    assert_eq!(parse_stun_response(&[]), MappedAddress { ip: [0, 0, 0, 0], port: 0 });
    assert_eq!(parse_stun_response(&[1, 2, 3]), MappedAddress { ip: [0, 0, 0, 0], port: 0 });
    assert!(stun_response_readable(&[]));
}

#[test]
fn truncated_responses_are_unreadable() {
    let mut buf = header();
    buf.extend_from_slice(&[0x00, 0x20, 0x00]);
    assert!(!stun_response_readable(&buf));
    let mut buf = header();
    buf.extend_from_slice(&[0x00, 0x20, 0x00, 0x08, 0x00, 0x01, 0x11]);
    assert!(!stun_response_readable(&buf));
    let mut buf = header();
    buf.extend_from_slice(&[0x00, 0x20, 0x00, 0x08, 0x00, 0x01, 0x11, 0x22, 0x33]);
    assert!(!stun_response_readable(&buf));
    // An IPv6 value needs no address bytes to be read.
    let mut buf = header();
    buf.extend_from_slice(&[0x00, 0x20, 0x00, 0x08, 0x00, 0x02, 0x11, 0x22]);
    assert!(stun_response_readable(&buf));
    // An attribute header of another type is enough; its value may be cut.
    let mut buf = header();
    buf.extend_from_slice(&[0x80, 0x22, 0x00, 0x40]);
    assert!(stun_response_readable(&buf));
}

#[test]
fn header_bytes_are_not_read() {
    let mut a = header();
    a.extend(xor_mapped([10, 1, 2, 3], 777));
    let mut b = a.clone();
    for x in b.iter_mut().take(20) {
        *x = 0xee;
    }
    assert_eq!(stun_response_readable(&a), stun_response_readable(&b));
    assert_eq!(parse_stun_response(&a), parse_stun_response(&b));
}
