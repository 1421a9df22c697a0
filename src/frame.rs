//! The frame shared by both payload layouts: header, 32-bit payload and
//! checksum trailer, each stored little-endian.

use crate::checksum::{crc16_genibus, genibus_of};
use vstd::prelude::*;
use vstd::arithmetic::div_mod::{
    lemma_div_denominator, lemma_div_is_ordered_by_denominator, lemma_div_pos_is_pos,
    lemma_fundamental_div_mod, lemma_fundamental_div_mod_converse,
};
use vstd::slice::slice_subrange;

verus! {

/// Magic value that opens every frame.
pub const PROTO_HEADER: u16 = 0xBEEF;

/// Size of a frame on the wire, in bytes.
pub const PROTO_LENGTH: usize = 8;

/// Offset of the checksum trailer; the checksum covers the bytes before it.
pub const CRC16_OFFSET: usize = 6;

/// Little-endian bytes of a 16-bit value.
pub open spec fn le16(v: u16) -> Seq<u8> {
    seq![(v % 0x100) as u8, (v / 0x100) as u8]
}

/// Little-endian bytes of a 32-bit value.
pub open spec fn le32(v: u32) -> Seq<u8> {
    seq![
        (v % 0x100) as u8,
        (v / 0x100 % 0x100) as u8,
        (v / 0x1_0000 % 0x100) as u8,
        (v / 0x100_0000) as u8,
    ]
}

/// The 16-bit value stored little-endian at `b[i..i + 2]`.
pub open spec fn le16_at(b: Seq<u8>, i: int) -> u16 {
    (b[i] + b[i + 1] * 0x100) as u16
}

/// The 32-bit value stored little-endian at `b[i..i + 4]`.
pub open spec fn le32_at(b: Seq<u8>, i: int) -> u32 {
    (b[i] + b[i + 1] * 0x100 + b[i + 2] * 0x1_0000 + b[i + 3] * 0x100_0000) as u32
}

/// The bytes that the checksum covers: the header followed by the payload.
pub open spec fn body_bytes(payload: u32) -> Seq<u8> {
    le16(PROTO_HEADER) + le32(payload)
}

/// A complete frame carrying `payload`, its trailer computed over the body.
pub open spec fn sealed_bytes(payload: u32) -> Seq<u8> {
    body_bytes(payload) + le16(genibus_of(body_bytes(payload)))
}

/// `b` with its payload bytes replaced by `payload`; header and trailer kept.
pub open spec fn with_payload(b: Seq<u8>, payload: u32) -> Seq<u8> {
    b.subrange(0, 2) + le32(payload) + b.subrange(CRC16_OFFSET as int, PROTO_LENGTH as int)
}

/// `b` with its trailer replaced by the checksum of its first six bytes.
pub open spec fn resealed(b: Seq<u8>) -> Seq<u8> {
    b.subrange(0, CRC16_OFFSET as int) + le16(genibus_of(b.subrange(0, CRC16_OFFSET as int)))
}

/// An eight-byte buffer whose trailer is the checksum of its first six bytes.
pub open spec fn crc_matches(b: Seq<u8>) -> bool {
    &&& b.len() == PROTO_LENGTH
    &&& le16_at(b, CRC16_OFFSET as int) == genibus_of(b.subrange(0, CRC16_OFFSET as int))
}

/// The payload word of an eight-byte buffer.
pub open spec fn payload_of(b: Seq<u8>) -> u32 {
    le32_at(b, 2)
}

/// Why a received buffer was not taken as a frame.
#[derive(Debug, Clone, Copy, PartialEq, Eq, Structural)]
pub enum FrameError {
    /// The buffer does not hold exactly eight bytes.
    BadLength,
    /// The trailer differs from the checksum of the first six bytes.
    CrcMismatch,
}

/// The typed fields of a frame.
#[derive(Debug, Clone, Copy, PartialEq, Eq, Structural)]
pub struct ProtoFrame {
    /// Bytes zero and one: the magic header.
    pub header: u16,
    /// Bytes two to five: the command, in one of the two layouts.
    pub payload: u32,
    /// Bytes six and seven: the checksum of bytes zero to five.
    pub crc16_genibus: u16,
}

/// Reading four bytes back after writing them little-endian.
proof fn lemma_le32_read_back(b: Seq<u8>, i: int)
    requires
        0 <= i,
        i + 4 <= b.len(),
    ensures
        le32(le32_at(b, i)) == b.subrange(i, i + 4),
{
    let x0 = b[i] as int;
    let x1 = b[i + 1] as int;
    let x2 = b[i + 2] as int;
    let x3 = b[i + 3] as int;
    let p = x0 + x1 * 0x100 + x2 * 0x1_0000 + x3 * 0x100_0000;
    assert(0 <= p < 0x1_0000_0000) by (nonlinear_arith)
        requires
            p == x0 + x1 * 0x100 + x2 * 0x1_0000 + x3 * 0x100_0000,
            0 <= x0 < 0x100,
            0 <= x1 < 0x100,
            0 <= x2 < 0x100,
            0 <= x3 < 0x100,
    ;
    lemma_fundamental_div_mod_converse(p, 0x100, x1 + x2 * 0x100 + x3 * 0x1_0000, x0);
    lemma_fundamental_div_mod_converse(p / 0x100, 0x100, x2 + x3 * 0x100, x1);
    lemma_fundamental_div_mod_converse(p, 0x1_0000, x2 + x3 * 0x100, x0 + x1 * 0x100);
    lemma_fundamental_div_mod_converse(p / 0x1_0000, 0x100, x3, x2);
    lemma_fundamental_div_mod_converse(p, 0x100_0000, x3, x0 + x1 * 0x100 + x2 * 0x1_0000);
    assert(le32(le32_at(b, i)) =~= b.subrange(i, i + 4));
}

/// Reading two bytes back after writing them little-endian.
proof fn lemma_le16_read_back(b: Seq<u8>, i: int)
    requires
        0 <= i,
        i + 2 <= b.len(),
    ensures
        le16(le16_at(b, i)) == b.subrange(i, i + 2),
{
    let x0 = b[i] as int;
    let x1 = b[i + 1] as int;
    lemma_fundamental_div_mod_converse(x0 + x1 * 0x100, 0x100, x1, x0);
    assert(le16(le16_at(b, i)) =~= b.subrange(i, i + 2));
}

/// Writing a 32-bit value little-endian and reading it back.
pub proof fn lemma_le32_write_back(v: u32)
    ensures
        le32_at(le32(v), 0) == v,
{
    let x = v as int;
    lemma_fundamental_div_mod(x, 0x100);
    lemma_fundamental_div_mod(x / 0x100, 0x100);
    lemma_div_denominator(x, 0x100, 0x100);
    lemma_fundamental_div_mod(x / 0x1_0000, 0x100);
    lemma_div_denominator(x, 0x1_0000, 0x100);
    lemma_div_pos_is_pos(x, 0x100_0000);
    lemma_div_is_ordered_by_denominator(x, 0x100, 0x100_0000);
}

/// Writing a 16-bit value little-endian and reading it back.
pub proof fn lemma_le16_write_back(v: u16)
    ensures
        le16_at(le16(v), 0) == v,
{
    lemma_fundamental_div_mod(v as int, 0x100);
}

/// A resealed eight-byte buffer passes the checksum test.
pub proof fn lemma_resealed_matches(b: Seq<u8>)
    requires
        b.len() == PROTO_LENGTH,
    ensures
        crc_matches(resealed(b)),
        payload_of(resealed(b)) == payload_of(b),
{
    let r = resealed(b);
    assert(r.subrange(0, CRC16_OFFSET as int) =~= b.subrange(0, CRC16_OFFSET as int));
    lemma_le16_write_back(genibus_of(b.subrange(0, CRC16_OFFSET as int)));
    assert(r.subrange(CRC16_OFFSET as int, PROTO_LENGTH as int) =~= le16(
        genibus_of(b.subrange(0, CRC16_OFFSET as int)),
    ));
}

/// Storing a payload word and reading it back.
pub proof fn lemma_with_payload(b: Seq<u8>, payload: u32)
    requires
        b.len() == PROTO_LENGTH,
    ensures
        with_payload(b, payload).len() == PROTO_LENGTH,
        payload_of(with_payload(b, payload)) == payload,
{
    lemma_le32_write_back(payload);
    assert(with_payload(b, payload).subrange(2, 6) =~= le32(payload));
}

/// A sealed frame passes the checksum test and carries its payload.
pub proof fn lemma_sealed_matches(payload: u32)
    ensures
        crc_matches(sealed_bytes(payload)),
        payload_of(sealed_bytes(payload)) == payload,
{
    let s = sealed_bytes(payload);
    assert(s.subrange(0, CRC16_OFFSET as int) =~= body_bytes(payload));
    lemma_le16_write_back(genibus_of(body_bytes(payload)));
    lemma_le32_write_back(payload);
    assert(s.subrange(2, 6) =~= le32(payload));
}

impl ProtoFrame {
    /// The eight wire bytes of these fields.
    pub open spec fn wire(self) -> Seq<u8> {
        le16(self.header) + le32(self.payload) + le16(self.crc16_genibus)
    }

    /// A frame with the magic header, an all-zero payload and the checksum of
    /// that body.
    pub fn new() -> (r: ProtoFrame)
        ensures
            r.header == PROTO_HEADER,
            r.payload == 0,
            r.crc16_genibus == genibus_of(body_bytes(0)),
            r.wire() == sealed_bytes(0),
    {
        seal(0)
    }

    /// The eight wire bytes of these fields.
    pub fn to_bytes(&self) -> (r: [u8; 8])
        ensures
            r@ == self.wire(),
    {
        let h = self.header;
        let p = self.payload;
        let c = self.crc16_genibus;
        let r: [u8; 8] = [
            (h % 0x100) as u8,
            (h / 0x100) as u8,
            (p % 0x100) as u8,
            (p / 0x100 % 0x100) as u8,
            (p / 0x1_0000 % 0x100) as u8,
            (p / 0x100_0000) as u8,
            (c % 0x100) as u8,
            (c / 0x100) as u8,
        ];
        proof {
            assert(r@ =~= self.wire());
        }
        r
    }

    /// Reads the fields out of eight wire bytes.
    pub fn from_bytes(b: &[u8; 8]) -> (r: ProtoFrame)
        ensures
            r.header == le16_at(b@, 0),
            r.payload == payload_of(b@),
            r.crc16_genibus == le16_at(b@, CRC16_OFFSET as int),
            r.wire() == b@,
    {
        let header = (b[0] as u16) + (b[1] as u16) * 0x100;
        let payload = (b[2] as u32) + (b[3] as u32) * 0x100 + (b[4] as u32) * 0x1_0000 + (b[5] as u32)
            * 0x100_0000;
        let crc16_genibus = (b[6] as u16) + (b[7] as u16) * 0x100;
        let r = ProtoFrame { header, payload, crc16_genibus };
        proof {
            lemma_le16_read_back(b@, 0);
            lemma_le32_read_back(b@, 2);
            lemma_le16_read_back(b@, 6);
            assert(r.wire() =~= b@);
        }
        r
    }
}

/// The checksum of the first six bytes of a frame.
pub(crate) fn compute_crc16(b: &[u8; 8]) -> (r: u16)
    ensures
        r == genibus_of(b@.subrange(0, CRC16_OFFSET as int)),
{
    crc16_genibus(slice_subrange(b.as_slice(), 0, CRC16_OFFSET))
}

/// Stores the checksum of the first six bytes in the trailer.
pub(crate) fn update_crc16(b: &mut [u8; 8])
    ensures
        final(b)@ == resealed(old(b)@),
{
    let c = compute_crc16(b);
    b[6] = (c % 0x100) as u8;
    b[7] = (c / 0x100) as u8;
    proof {
        assert(final(b)@ =~= resealed(old(b)@));
    }
}

/// Stores a payload word in bytes two to five, little-endian.
pub(crate) fn store_payload(b: &mut [u8; 8], payload: u32)
    ensures
        final(b)@ == with_payload(old(b)@, payload),
{
    b[2] = (payload % 0x100) as u8;
    b[3] = (payload / 0x100 % 0x100) as u8;
    b[4] = (payload / 0x1_0000 % 0x100) as u8;
    b[5] = (payload / 0x100_0000) as u8;
    proof {
        assert(final(b)@ =~= with_payload(old(b)@, payload));
    }
}

/// Reads the payload word out of bytes two to five.
pub(crate) fn load_payload(b: &[u8; 8]) -> (r: u32)
    ensures
        r == payload_of(b@),
{
    ProtoFrame::from_bytes(b).payload
}

/// The fields of a frame carrying `payload` under a correct trailer.
pub(crate) fn seal(payload: u32) -> (r: ProtoFrame)
    ensures
        r.header == PROTO_HEADER,
        r.payload == payload,
        r.crc16_genibus == genibus_of(body_bytes(payload)),
        r.wire() == sealed_bytes(payload),
{
    let open = ProtoFrame { header: PROTO_HEADER, payload, crc16_genibus: 0 };
    let bytes = open.to_bytes();
    proof {
        assert(bytes@.subrange(0, CRC16_OFFSET as int) =~= body_bytes(payload));
    }
    let r = ProtoFrame { crc16_genibus: compute_crc16(&bytes), ..open };
    proof {
        assert(r.wire() =~= sealed_bytes(payload));
    }
    r
}

/// Copies a received buffer, provided it holds eight bytes under a matching
/// trailer.
pub(crate) fn checked_copy(raw: &[u8]) -> (r: Result<[u8; 8], FrameError>)
    ensures
        raw@.len() != PROTO_LENGTH ==> r == Err::<[u8; 8], FrameError>(FrameError::BadLength),
        raw@.len() == PROTO_LENGTH && !crc_matches(raw@) ==> r == Err::<[u8; 8], FrameError>(
            FrameError::CrcMismatch,
        ),
        crc_matches(raw@) ==> r is Ok && r->Ok_0@ == raw@,
{
    if raw.len() != PROTO_LENGTH {
        return Err(FrameError::BadLength);
    }
    let mut b: [u8; 8] = [0u8; 8];
    let mut i: usize = 0;
    while i < PROTO_LENGTH
        invariant
            raw@.len() == PROTO_LENGTH,
            i <= PROTO_LENGTH,
            forall|j: int| 0 <= j < i ==> b@[j] == raw@[j],
        decreases PROTO_LENGTH - i,
    {
        b[i] = raw[i];
        i = i + 1;
    }
    proof {
        assert(b@ =~= raw@);
    }
    let stored = (b[6] as u16) + (b[7] as u16) * 0x100;
    if compute_crc16(&b) != stored {
        return Err(FrameError::CrcMismatch);
    }
    Ok(b)
}

} // verus!
