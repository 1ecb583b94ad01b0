//! STUN (RFC 5389) binding requests and the decoding of the
//! XOR-MAPPED-ADDRESS attribute of a binding response.

use rand::Rng;
use vstd::prelude::*;

verus! {

/// The message type of a STUN binding request.
pub const STUN_BINDING_REQUEST: u16 = 0x0001;

/// The fixed magic cookie of every STUN message.
pub const STUN_MAGIC_COOKIE: u32 = 0x2112A442;

/// The attribute type of XOR-MAPPED-ADDRESS.
pub const XOR_MAPPED_ADDRESS: u16 = 0x0020;

/// The length of a STUN message header; attributes start right after it.
pub const STUN_HEADER_LEN: usize = 20;

/// The public transport address that a STUN server reported.
#[derive(Clone, Copy, Debug, PartialEq, Eq)]
pub struct MappedAddress {
    /// The four octets of the IPv4 address.
    pub ip: [u8; 4],
    /// The UDP port.
    pub port: u16,
}

/// The magic cookie as big-endian bytes.
pub open spec fn cookie_bytes() -> Seq<u8> {
    seq![0x21u8, 0x12u8, 0xA4u8, 0x42u8]
}

/// The big-endian 16-bit number at positions `i` and `i + 1` of `b`.
pub open spec fn be16_at(b: Seq<u8>, i: int) -> int {
    b[i] * 0x100 + b[i + 1]
}

/// An attribute length rounded up to the next multiple of four.
pub open spec fn padded_len(len: int) -> int {
    if len % 4 != 0 {
        len + (4 - len % 4)
    } else {
        len
    }
}

/// The port of an XOR-MAPPED-ADDRESS value whose port field starts at `j`.
pub open spec fn xor_port_at(b: Seq<u8>, j: int) -> u16 {
    (be16_at(b, j) as u16) ^ 0x2112u16
}

/// The IPv4 address of an XOR-MAPPED-ADDRESS value whose address field starts at `j`.
pub open spec fn xor_ip_at(b: Seq<u8>, j: int) -> Seq<u8> {
    seq![b[j] ^ 0x21u8, b[j + 1] ^ 0x12u8, b[j + 2] ^ 0xA4u8, b[j + 3] ^ 0x42u8]
}

/// The measure that the walk over the attributes decreases.
pub open spec fn remaining_from(b: Seq<u8>, i: int) -> int {
    if i < b.len() {
        b.len() - i
    } else {
        0
    }
}

/// Every read that the walk over the attributes makes from position `i`
/// on falls inside `b`: each attribute header is complete, and so is the
/// value of each XOR-MAPPED-ADDRESS attribute (its IPv4 address only when
/// the family is IPv4).
pub open spec fn attributes_in_bounds(b: Seq<u8>, i: int) -> bool
    decreases remaining_from(b, i),
{
    if 0 <= i < b.len() {
        let j = i + 4;
        &&& i + 3 < b.len()
        &&& be16_at(b, i) == 0x20 ==> j + 3 < b.len() && (b[j + 1] == 1 ==> j + 7 < b.len())
        &&& attributes_in_bounds(b, j + padded_len(be16_at(b, i + 2)))
    } else {
        true
    }
}

/// The address and port after walking the attributes from position `i`,
/// starting from `ip` and `port`: each XOR-MAPPED-ADDRESS attribute sets the
/// port, and, when its family is IPv4 (1), the address.
pub open spec fn scan_attributes(b: Seq<u8>, i: int, ip: Seq<u8>, port: u16) -> (Seq<u8>, u16)
    decreases remaining_from(b, i),
{
    if 0 <= i < b.len() {
        let j = i + 4;
        let next = j + padded_len(be16_at(b, i + 2));
        if be16_at(b, i) == 0x20 {
            let new_ip = if b[j + 1] == 1 { xor_ip_at(b, j + 4) } else { ip };
            scan_attributes(b, next, new_ip, xor_port_at(b, j + 2))
        } else {
            scan_attributes(b, next, ip, port)
        }
    } else {
        (ip, port)
    }
}

/// The address that a binding response reports: the walk over its
/// attributes from the end of the header, starting from 0.0.0.0 and port 0.
pub open spec fn spec_mapped_address(b: Seq<u8>) -> (Seq<u8>, u16) {
    scan_attributes(b, 20, seq![0u8, 0u8, 0u8, 0u8], 0u16)
}

/// A response that `parse_stun_response` reads without leaving the buffer.
pub open spec fn response_readable(b: Seq<u8>) -> bool {
    attributes_in_bounds(b, 20)
}

/// Decodes the XOR-MAPPED-ADDRESS of a binding response. Attributes of
/// other types are skipped; when several XOR-MAPPED-ADDRESS attributes
/// occur, the last one wins; a response without one gives 0.0.0.0:0.
pub fn parse_stun_response(buf: &[u8]) -> (r: MappedAddress)
    requires
        response_readable(buf@),
        buf@.len() + 0x1_0008 <= usize::MAX,
    ensures
        (r.ip@, r.port) == spec_mapped_address(buf@),
{
    let mut i: usize = STUN_HEADER_LEN;
    let mut ip: [u8; 4] = [0u8, 0u8, 0u8, 0u8];
    let mut port: u16 = 0;
    assert(ip@ =~= seq![0u8, 0u8, 0u8, 0u8]);
    while i < buf.len()
        invariant
            20 <= i,
            buf@.len() + 0x1_0008 <= usize::MAX,
            attributes_in_bounds(buf@, i as int),
            scan_attributes(buf@, i as int, ip@, port) == spec_mapped_address(buf@),
        decreases remaining_from(buf@, i as int),
    {
        let attr_type: u16 = (buf[i] as u16) * 256 + (buf[i + 1] as u16);
        let attr_len: usize = (buf[i + 2] as usize) * 256 + (buf[i + 3] as usize);
        let ghost start = i as int;
        i = i + 4;
        if attr_type == XOR_MAPPED_ADDRESS {
            let family = buf[i + 1];
            let raw_port: u16 = (buf[i + 2] as u16) * 256 + (buf[i + 3] as u16);
            port = raw_port ^ 0x2112u16;
            if family == 1 {
                ip = [buf[i + 4] ^ 0x21u8, buf[i + 5] ^ 0x12u8, buf[i + 6] ^ 0xA4u8, buf[i + 7] ^ 0x42u8];
                assert(ip@ =~= xor_ip_at(buf@, i + 4));
            }
        }
        i = i + attr_len;
        if attr_len % 4 != 0 {
            i = i + (4 - attr_len % 4);
        }
        assert(i == start + 4 + padded_len(be16_at(buf@, start + 2)));
    }
    MappedAddress { ip, port }
}

/// Whether every read of `parse_stun_response` on `buf` stays inside it.
pub fn stun_response_readable(buf: &[u8]) -> (r: bool)
    requires
        buf@.len() + 0x1_0008 <= usize::MAX,
    ensures
        r == response_readable(buf@),
{
    let mut i: usize = STUN_HEADER_LEN;
    while i < buf.len()
        invariant
            20 <= i,
            buf@.len() + 0x1_0008 <= usize::MAX,
            attributes_in_bounds(buf@, i as int) == response_readable(buf@),
        decreases remaining_from(buf@, i as int),
    {
        if i + 3 >= buf.len() {
            return false;
        }
        let attr_type: u16 = (buf[i] as u16) * 256 + (buf[i + 1] as u16);
        let attr_len: usize = (buf[i + 2] as usize) * 256 + (buf[i + 3] as usize);
        let ghost start = i as int;
        i = i + 4;
        if attr_type == XOR_MAPPED_ADDRESS {
            if i + 3 >= buf.len() {
                return false;
            }
            if buf[i + 1] == 1 && i + 7 >= buf.len() {
                return false;
            }
        }
        i = i + attr_len;
        if attr_len % 4 != 0 {
            i = i + (4 - attr_len % 4);
        }
        assert(i == start + 4 + padded_len(be16_at(buf@, start + 2)));
    }
    true
}

/// The walk over the attributes from position `i` reads only from `i` on:
/// two buffers of one length that agree from `i` on give the same walk.
proof fn lemma_scan_reads_from(b1: Seq<u8>, b2: Seq<u8>, i: int, ip: Seq<u8>, port: u16)
    requires
        0 <= i,
        b1.len() == b2.len(),
        forall|k: int| i <= k < b1.len() ==> b1[k] == b2[k],
    ensures
        attributes_in_bounds(b1, i) == attributes_in_bounds(b2, i),
        attributes_in_bounds(b1, i) ==> scan_attributes(b1, i, ip, port) == scan_attributes(
            b2,
            i,
            ip,
            port,
        ),
    decreases remaining_from(b1, i),
{
    if i < b1.len() {
        let j = i + 4;
        if i + 3 < b1.len() {
            assert(be16_at(b1, i) == be16_at(b2, i));
            assert(be16_at(b1, i + 2) == be16_at(b2, i + 2));
            let next = j + padded_len(be16_at(b1, i + 2));
            if be16_at(b1, i) == 0x20 && j + 3 < b1.len() {
                assert(b1[j + 1] == b2[j + 1]);
                assert(be16_at(b1, j + 2) == be16_at(b2, j + 2));
                if b1[j + 1] == 1 && j + 7 < b1.len() {
                    assert(xor_ip_at(b1, j + 4) =~= xor_ip_at(b2, j + 4));
                }
                let new_ip = if b1[j + 1] == 1 { xor_ip_at(b1, j + 4) } else { ip };
                lemma_scan_reads_from(b1, b2, next, new_ip, xor_port_at(b1, j + 2));
            }
            lemma_scan_reads_from(b1, b2, next, ip, port);
        }
    }
}

/// The 20-byte header of a binding response (message type, length, magic
/// cookie and transaction id) is never read: two responses that differ at
/// most in their header are equally readable, and when readable they
/// decode to the same address and port.
pub proof fn lemma_header_not_read(b1: Seq<u8>, b2: Seq<u8>)
    requires
        b1.len() == b2.len(),
        b1.subrange(20, b1.len() as int) == b2.subrange(20, b2.len() as int),
    ensures
        response_readable(b1) == response_readable(b2),
        response_readable(b1) ==> spec_mapped_address(b1) == spec_mapped_address(b2),
{
    assert forall|k: int| 20 <= k < b1.len() implies b1[k] == b2[k] by {
        assert(b1[k] == b1.subrange(20, b1.len() as int)[k - 20]);
        assert(b2[k] == b2.subrange(20, b2.len() as int)[k - 20]);
    }
    lemma_scan_reads_from(b1, b2, 20, seq![0u8, 0u8, 0u8, 0u8], 0u16);
}

/// A binding request with the given transaction id: message type 0x0001,
/// message length 0, the magic cookie, then the 12-byte transaction id.
pub open spec fn spec_binding_request(transaction_id: Seq<u8>) -> Seq<u8> {
    seq![0x00u8, 0x01u8, 0x00u8, 0x00u8] + cookie_bytes() + transaction_id
}

/// Builds the binding request that carries `transaction_id`.
pub fn stun_binding_request(transaction_id: &[u8; 12]) -> (r: [u8; 20])
    ensures
        r@ == spec_binding_request(transaction_id@),
{
    let t = transaction_id;
    let r = [
        0x00u8, 0x01u8, 0x00u8, 0x00u8, 0x21u8, 0x12u8, 0xA4u8, 0x42u8,
        t[0], t[1], t[2], t[3], t[4], t[5], t[6], t[7], t[8], t[9], t[10], t[11],
    ];
    assert(r@ =~= spec_binding_request(transaction_id@));
    r
}

/// One byte from `rand::thread_rng()`, through `Rng::gen`. Nothing is
/// stated of the byte: it is drawn from the thread-local generator.
#[verifier::external_body]
fn random_byte() -> u8 {
    let mut rng = rand::thread_rng();
    rng.gen::<u8>()
}

/// A fresh transaction id of twelve random bytes.
pub fn new_transaction_id() -> (r: [u8; 12]) {
    [
        random_byte(), random_byte(), random_byte(), random_byte(),
        random_byte(), random_byte(), random_byte(), random_byte(),
        random_byte(), random_byte(), random_byte(), random_byte(),
    ]
}

/// A binding request with a fresh random transaction id.
pub fn new_binding_request() -> (r: [u8; 20])
    ensures
        exists|t: Seq<u8>| t.len() == 12 && r@ == spec_binding_request(t),
{
    let t = new_transaction_id();
    let r = stun_binding_request(&t);
    assert(t@.len() == 12);
    r
}

/// The 12-byte XOR-MAPPED-ADDRESS attribute (IPv4 family) that reports
/// `ip` and `port`.
pub open spec fn spec_xor_mapped_attribute(ip: Seq<u8>, port: u16) -> Seq<u8> {
    let xp = port ^ 0x2112u16;
    seq![0x00u8, 0x20u8, 0x00u8, 0x08u8, 0x00u8, 0x01u8, (xp / 0x100) as u8, (xp % 0x100) as u8]
        + seq![ip[0] ^ 0x21u8, ip[1] ^ 0x12u8, ip[2] ^ 0xA4u8, ip[3] ^ 0x42u8]
}

/// A binding response made of any 20-byte header followed by the
/// XOR-MAPPED-ADDRESS attribute of an IPv4 address and port is read
/// completely, and decodes to exactly that address and port.
pub proof fn lemma_xor_mapped_address_roundtrip(header: Seq<u8>, ip: Seq<u8>, port: u16)
    requires
        header.len() == 20,
        ip.len() == 4,
    ensures
        response_readable(header + spec_xor_mapped_attribute(ip, port)),
        spec_mapped_address(header + spec_xor_mapped_attribute(ip, port)) == (ip, port),
{
    let b = header + spec_xor_mapped_attribute(ip, port);
    let xp = port ^ 0x2112u16;
    assert(b.len() == 32);
    assert(b[20] == 0x00u8 && b[21] == 0x20u8 && b[22] == 0x00u8 && b[23] == 0x08u8);
    assert(b[25] == 0x01u8);
    assert(b[26] == (xp / 0x100) as u8 && b[27] == (xp % 0x100) as u8);
    assert(be16_at(b, 26) == xp);
    assert(xor_port_at(b, 26) == port) by {
        assert((xp ^ 0x2112u16) == port) by (bit_vector)
            requires
                xp == port ^ 0x2112u16,
        ;
    }
    let (i0, i1, i2, i3) = (ip[0], ip[1], ip[2], ip[3]);
    assert((i0 ^ 0x21u8) ^ 0x21u8 == i0 && (i1 ^ 0x12u8) ^ 0x12u8 == i1 && (i2 ^ 0xA4u8)
        ^ 0xA4u8 == i2 && (i3 ^ 0x42u8) ^ 0x42u8 == i3) by (bit_vector);
    assert(xor_ip_at(b, 28) =~= ip);
    assert(padded_len(8) == 8);
    assert(attributes_in_bounds(b, 32));
    assert(scan_attributes(b, 32, ip, port) == (ip, port));
}

/// Attribute values are padded to a multiple of four bytes: the padded
/// length of a value of `len` bytes is a multiple of four, at least `len`,
/// and less than `len + 4`.
pub proof fn lemma_padded_len_bounds(len: int)
    requires
        len >= 0,
    ensures
        padded_len(len) % 4 == 0,
        len <= padded_len(len) < len + 4,
{
}

/// An XOR-MAPPED-ADDRESS attribute (IPv4 family) of `ip` and `port` that
/// ends the buffer at position `i` is read completely, and the walk from
/// `i` ends on its address and port, whatever it started from.
proof fn lemma_last_xor_attribute(b: Seq<u8>, i: int, ip: Seq<u8>, port: u16, ip0: Seq<u8>, port0: u16)
    requires
        0 <= i,
        ip.len() == 4,
        b.len() == i + 12,
        b.subrange(i, i + 12) == spec_xor_mapped_attribute(ip, port),
    ensures
        attributes_in_bounds(b, i),
        scan_attributes(b, i, ip0, port0) == (ip, port),
{
    let a = spec_xor_mapped_attribute(ip, port);
    let xp = port ^ 0x2112u16;
    assert forall|k: int| 0 <= k < 12 implies b[i + k] == a[k] by {
        assert(b.subrange(i, i + 12)[k] == b[i + k]);
    }
    assert(a[0] == 0x00u8 && a[1] == 0x20u8 && a[2] == 0x00u8 && a[3] == 0x08u8 && a[5] == 0x01u8);
    assert(b[i + 0] == a[0] && b[i + 1] == a[1] && b[i + 2] == a[2] && b[i + 3] == a[3]);
    assert(b[i + 5] == a[5] && b[i + 6] == a[6] && b[i + 7] == a[7]);
    assert(b[i] == 0x00u8 && b[i + 1] == 0x20u8 && b[i + 2] == 0x00u8 && b[i + 3] == 0x08u8);
    assert(b[i + 5] == 0x01u8);
    assert(b[i + 6] == (xp / 0x100) as u8 && b[i + 7] == (xp % 0x100) as u8);
    assert(be16_at(b, i) == 0x20);
    assert(be16_at(b, i + 2) == 8);
    assert(be16_at(b, i + 6) == xp);
    assert(xor_port_at(b, i + 6) == port) by {
        assert((xp ^ 0x2112u16) == port) by (bit_vector)
            requires
                xp == port ^ 0x2112u16,
        ;
    }
    let (i0, i1, i2, i3) = (ip[0], ip[1], ip[2], ip[3]);
    assert((i0 ^ 0x21u8) ^ 0x21u8 == i0 && (i1 ^ 0x12u8) ^ 0x12u8 == i1 && (i2 ^ 0xA4u8)
        ^ 0xA4u8 == i2 && (i3 ^ 0x42u8) ^ 0x42u8 == i3) by (bit_vector);
    assert(b[i + 8] == a[8] && b[i + 9] == a[9] && b[i + 10] == a[10] && b[i + 11] == a[11]);
    assert(xor_ip_at(b, i + 8) =~= ip);
    assert(padded_len(8) == 8);
    assert(attributes_in_bounds(b, i + 12));
    assert(scan_attributes(b, i + 12, ip, port) == (ip, port));
}

/// Attributes of other types are skipped together with the padding of
/// their values: a response made of any 20-byte header, then any attribute
/// whose type is not XOR-MAPPED-ADDRESS, of any length, with its value padded
/// to a multiple of four bytes, then the XOR-MAPPED-ADDRESS attribute
/// (IPv4 family) of `ip` and `port`, is read completely and decodes to
/// exactly that address and port.
pub proof fn lemma_skips_padded_attribute(
    header: Seq<u8>,
    type_hi: u8,
    type_lo: u8,
    len: u16,
    value: Seq<u8>,
    pad: Seq<u8>,
    ip: Seq<u8>,
    port: u16,
)
    requires
        header.len() == 20,
        !(type_hi == 0x00u8 && type_lo == 0x20u8),
        value.len() == len,
        pad.len() < 4,
        (len + pad.len()) % 4 == 0,
        ip.len() == 4,
    ensures
        response_readable(
            header + seq![type_hi, type_lo, (len / 0x100) as u8, (len % 0x100) as u8] + value
                + pad + spec_xor_mapped_attribute(ip, port),
        ),
        spec_mapped_address(
            header + seq![type_hi, type_lo, (len / 0x100) as u8, (len % 0x100) as u8] + value
                + pad + spec_xor_mapped_attribute(ip, port),
        ) == (ip, port),
{
    let attr = seq![type_hi, type_lo, (len / 0x100) as u8, (len % 0x100) as u8];
    let b = header + attr + value + pad + spec_xor_mapped_attribute(ip, port);
    let x = 24 + len + pad.len();
    assert(b.len() == x + 12);
    assert(b[20] == type_hi && b[21] == type_lo);
    assert(b[22] == (len / 0x100) as u8 && b[23] == (len % 0x100) as u8);
    assert(be16_at(b, 20) != 0x20);
    assert(be16_at(b, 22) == len) by {
        assert((len / 0x100) as u8 as int == len as int / 0x100);
        assert((len % 0x100) as u8 as int == len as int % 0x100);
    }
    assert(padded_len(len as int) == len + pad.len());
    assert(b.subrange(x, x + 12) =~= spec_xor_mapped_attribute(ip, port));
    lemma_last_xor_attribute(b, x, ip, port, seq![0u8, 0u8, 0u8, 0u8], 0u16);
    assert(attributes_in_bounds(b, 20));
    assert(scan_attributes(b, 20, seq![0u8, 0u8, 0u8, 0u8], 0u16) == (ip, port));
}

} // verus!
