//! Frames of the signaling protocol: a 12-byte header made of two zero
//! bytes, a 6-byte ASCII message kind and a big-endian `u32` length of the
//! data section that follows.

use vstd::prelude::*;

verus! {

/// Number of bytes in a frame header.
pub const HEADER_LEN: usize = 12;

/// The four big-endian bytes of `x`.
pub open spec fn u32_be_bytes(x: u32) -> Seq<u8> {
    seq![
        (x / 0x100_0000) as u8,
        ((x / 0x1_0000) % 0x100) as u8,
        ((x / 0x100) % 0x100) as u8,
        (x % 0x100) as u8,
    ]
}

/// The number that four bytes denote when read big-endian.
pub open spec fn u32_from_be(b: Seq<u8>) -> int {
    b[0] * 0x100_0000 + b[1] * 0x1_0000 + b[2] * 0x100 + b[3]
}

/// The header of a frame of kind `kind` whose data section is `length` bytes long.
pub open spec fn spec_header(kind: Seq<u8>, length: u32) -> Seq<u8> {
    seq![0u8, 0u8] + kind + u32_be_bytes(length)
}

/// The big-endian bytes of `x`.
pub fn u32_to_be(x: u32) -> (b: [u8; 4])
    ensures
        b@ == u32_be_bytes(x),
{
    let b0 = (x >> 24u32) as u8;
    let b1 = (x >> 16u32) as u8;
    let b2 = (x >> 8u32) as u8;
    let b3 = x as u8;
    assert(b0 == (x / 0x100_0000) as u8 && b1 == ((x / 0x1_0000) % 0x100) as u8
        && b2 == ((x / 0x100) % 0x100) as u8 && b3 == (x % 0x100) as u8) by (bit_vector)
        requires
            b0 == (x >> 24u32) as u8,
            b1 == (x >> 16u32) as u8,
            b2 == (x >> 8u32) as u8,
            b3 == x as u8,
    ;
    let b = [b0, b1, b2, b3];
    assert(b@ =~= u32_be_bytes(x));
    b
}

/// The number that `b` denotes when read big-endian.
pub fn u32_from_be_bytes(b: &[u8; 4]) -> (x: u32)
    ensures
        x == u32_from_be(b@),
{
    let b0 = b[0];
    let b1 = b[1];
    let b2 = b[2];
    let b3 = b[3];
    let x = ((b0 as u32) << 24u32) | ((b1 as u32) << 16u32) | ((b2 as u32) << 8u32) | (b3 as u32);
    assert(x == b0 * 0x100_0000 + b1 * 0x1_0000 + b2 * 0x100 + b3) by (bit_vector)
        requires
            x == ((b0 as u32) << 24u32) | ((b1 as u32) << 16u32) | ((b2 as u32) << 8u32) | (b3 as u32),
    ;
    x
}

/// Reading back the big-endian bytes of a number gives that number.
pub proof fn lemma_u32_be_roundtrip(x: u32)
    ensures
        u32_from_be(u32_be_bytes(x)) == x,
{
    let b = u32_be_bytes(x);
    let xi = x as int;
    assert(0 <= xi / 0x100_0000 < 0x100) by (nonlinear_arith)
        requires
            0 <= xi < 0x1_0000_0000,
    ;
    assert(b[0] == xi / 0x100_0000);
    assert(b[1] == (xi / 0x1_0000) % 0x100);
    assert(b[2] == (xi / 0x100) % 0x100);
    assert(b[3] == xi % 0x100);
    assert((xi / 0x100_0000) * 0x100_0000 + ((xi / 0x1_0000) % 0x100) * 0x1_0000 + ((xi / 0x100)
        % 0x100) * 0x100 + xi % 0x100 == xi) by (nonlinear_arith)
        requires
            0 <= xi,
    ;
}

/// The message kind of a header: its bytes 2 to 7.
pub open spec fn spec_header_kind(header: Seq<u8>) -> Seq<u8> {
    header.subrange(2, 8)
}

/// The data length of a header: its bytes 8 to 11, read big-endian.
pub open spec fn spec_header_data_len(header: Seq<u8>) -> int {
    u32_from_be(header.subrange(8, 12))
}

/// The kind `ECHOOO`: a text that the server sends back.
pub open spec fn echooo_kind() -> Seq<u8> {
    seq![0x45u8, 0x43u8, 0x48u8, 0x4fu8, 0x4fu8, 0x4fu8]
}

/// The kind `ABORTT`: the end of a session.
pub open spec fn abortt_kind() -> Seq<u8> {
    seq![0x41u8, 0x42u8, 0x4fu8, 0x52u8, 0x54u8, 0x54u8]
}

/// The header of a frame of kind `kind` with `length` bytes of data.
pub fn encode_header(kind: &[u8; 6], length: u32) -> (h: [u8; 12])
    ensures
        h@ == spec_header(kind@, length),
{
    let b = u32_to_be(length);
    let h = [0u8, 0u8, kind[0], kind[1], kind[2], kind[3], kind[4], kind[5], b[0], b[1], b[2], b[3]];
    assert(h@ =~= spec_header(kind@, length));
    h
}

/// The message kind that a header carries.
pub fn header_kind(header: &[u8; 12]) -> (k: [u8; 6])
    ensures
        k@ == spec_header_kind(header@),
{
    let k = [header[2], header[3], header[4], header[5], header[6], header[7]];
    assert(k@ =~= spec_header_kind(header@));
    k
}

/// The length of the data section that a header announces.
pub fn header_data_len(header: &[u8; 12]) -> (n: u32)
    ensures
        n == spec_header_data_len(header@),
{
    let b = [header[8], header[9], header[10], header[11]];
    assert(b@ =~= header@.subrange(8, 12));
    u32_from_be_bytes(&b)
}

/// Decoding an encoded header gives back its kind and its data length.
pub proof fn lemma_header_roundtrip(kind: Seq<u8>, length: u32)
    requires
        kind.len() == 6,
    ensures
        spec_header(kind, length).len() == HEADER_LEN,
        spec_header_kind(spec_header(kind, length)) == kind,
        spec_header_data_len(spec_header(kind, length)) == length,
{
    let h = spec_header(kind, length);
    assert(spec_header_kind(h) =~= kind);
    assert(h.subrange(8, 12) =~= u32_be_bytes(length));
    lemma_u32_be_roundtrip(length);
}

/// The header of an `ECHOOO` frame whose data section is `data`. The length
/// field holds the data length truncated to 32 bits.
pub fn echo_header(data: &[u8]) -> (h: [u8; 12])
    ensures
        h@ == spec_header(echooo_kind(), data@.len() as u32),
{
    let kind: [u8; 6] = [0x45u8, 0x43u8, 0x48u8, 0x4fu8, 0x4fu8, 0x4fu8];
    assert(kind@ =~= echooo_kind());
    encode_header(&kind, data.len() as u32)
}

/// The `ABORTT` frame that ends a session: a header with no data.
pub fn abort_frame() -> (h: [u8; 12])
    ensures
        h@ == spec_header(abortt_kind(), 0),
{
    let kind: [u8; 6] = [0x41u8, 0x42u8, 0x4fu8, 0x52u8, 0x54u8, 0x54u8];
    assert(kind@ =~= abortt_kind());
    encode_header(&kind, 0)
}

/// Whether the data that came back is exactly the data that was sent.
pub fn echo_reply_matches(sent: &[u8], received: &[u8]) -> (r: bool)
    ensures
        r == (sent@ == received@),
{
    if sent.len() != received.len() {
        return false;
    }
    let mut i: usize = 0;
    while i < sent.len()
        invariant
            sent@.len() == received@.len(),
            i <= sent@.len(),
            sent@.take(i as int) == received@.take(i as int),
        decreases sent@.len() - i,
    {
        if sent[i] != received[i] {
            assert(sent@[i as int] != received@[i as int]);
            return false;
        }
        assert(sent@.take(i + 1) =~= sent@.take(i as int).push(sent@[i as int]));
        assert(received@.take(i + 1) =~= received@.take(i as int).push(received@[i as int]));
        i = i + 1;
    }
    assert(sent@ =~= sent@.take(sent@.len() as int));
    assert(received@ =~= received@.take(received@.len() as int));
    true
}

/// The server's answer to an authentication request.
#[derive(Clone, Copy, Debug, PartialEq, Eq)]
pub enum AuthReply {
    /// Kind `AUTHOK`: the credentials were accepted.
    Accepted,
    /// Kind `AUTHER`: the credentials were refused.
    Refused,
}

/// The kind `AUTHOK`.
pub open spec fn authok_kind() -> Seq<u8> {
    seq![0x41u8, 0x55u8, 0x54u8, 0x48u8, 0x4fu8, 0x4bu8]
}

/// The kind `AUTHER`.
pub open spec fn auther_kind() -> Seq<u8> {
    seq![0x41u8, 0x55u8, 0x54u8, 0x48u8, 0x45u8, 0x52u8]
}

/// The answer that a header carries, or `None` when its kind is neither
/// `AUTHOK` nor `AUTHER`.
pub fn auth_reply(header: &[u8; 12]) -> (r: Option<AuthReply>)
    ensures
        r == Some(AuthReply::Accepted) <==> spec_header_kind(header@) == authok_kind(),
        r == Some(AuthReply::Refused) <==> spec_header_kind(header@) == auther_kind(),
{
    let k = header_kind(header);
    let is_authok = k[0] == 0x41u8 && k[1] == 0x55u8 && k[2] == 0x54u8 && k[3] == 0x48u8 && k[4]
        == 0x4fu8 && k[5] == 0x4bu8;
    let is_auther = k[0] == 0x41u8 && k[1] == 0x55u8 && k[2] == 0x54u8 && k[3] == 0x48u8 && k[4]
        == 0x45u8 && k[5] == 0x52u8;
    assert(is_authok <==> k@ =~= authok_kind());
    assert(is_auther <==> k@ =~= auther_kind());
    if is_authok {
        Some(AuthReply::Accepted)
    } else if is_auther {
        Some(AuthReply::Refused)
    } else {
        None
    }
}

} // verus!
