//! The packed layout: every field of a command in one 32-bit payload word.
//!
//! | bits  | field                                   |
//! |-------|-----------------------------------------|
//! | 31    | access flag, set exactly when data != 0 |
//! | 30    | write flag                              |
//! | 29:28 | rank                                    |
//! | 27:16 | register address                        |
//! | 15:0  | data value                              |

use crate::frame::{
    compute_crc16, crc_matches, load_payload, payload_of, resealed, sealed_bytes, store_payload,
    update_crc16, with_payload, FrameError, ProtoFrame,
};
use crate::frame::{checked_copy, lemma_resealed_matches, lemma_sealed_matches, lemma_with_payload};
use std::sync::Arc;
use vstd::prelude::*;

verus! {

/// Bit 31: the command carries a nonzero data value.
pub const FLAG_ACCESS: u32 = 0x8000_0000;

/// Bit 30: the command is a write.
pub const FLAG_WRITE: u32 = 0x4000_0000;

/// Width mask of the rank field.
pub const MASK_RANK: i32 = 0b11;

/// Width mask of the register field.
pub const MASK_REGISTER: i32 = 0b1111_1111_1111;

/// Width mask of the data field.
pub const MASK_DATA: i32 = 0xFFFF;

/// Position of the rank field.
pub const BIT_SHIFT_RANK: u32 = 28;

/// Position of the register field.
pub const BIT_SHIFT_REGISTER: u32 = 16;

/// The payload word for a command: each field masked to its width and
/// shifted into place, the access flag set when the masked data is nonzero.
pub open spec fn packed_payload(is_write: bool, rank: i32, register: i32, data: i32) -> u32 {
    let d = (data & MASK_DATA) as u32;
    (if d != 0 { FLAG_ACCESS } else { 0u32 }) | (if is_write { FLAG_WRITE } else { 0u32 }) | ((
    (rank & MASK_RANK) as u32) << BIT_SHIFT_RANK) | (((register & MASK_REGISTER) as u32)
        << BIT_SHIFT_REGISTER) | d
}

/// The fields read back from a payload word: access flag, write flag, rank,
/// register and data. The register is read under the rank's two-bit mask, as
/// deployed readers do, unless `full_register` asks for all twelve bits.
pub open spec fn packed_info(payload: u32, full_register: bool) -> (bool, bool, i32, i32, i32) {
    let register_mask: u32 = if full_register {
        MASK_REGISTER as u32
    } else {
        MASK_RANK as u32
    };
    (
        payload & FLAG_ACCESS != 0,
        payload & FLAG_WRITE != 0,
        ((payload >> BIT_SHIFT_RANK) & (MASK_RANK as u32)) as i32,
        ((payload >> BIT_SHIFT_REGISTER) & register_mask) as i32,
        (payload & (MASK_DATA as u32)) as i32,
    )
}

/// Unpacking a packed command gives back its fields when each is within
/// its width.
proof fn lemma_unpack_packed(is_write: bool, rank: i32, register: i32, data: i32)
    requires
        0 <= rank <= 3,
        0 <= register <= 4095,
        0 <= data <= 65535,
    ensures
        packed_info(packed_payload(is_write, rank, register, data), true) == (
            data != 0,
            is_write,
            rank,
            register,
            data,
        ),
        packed_info(packed_payload(is_write, rank, register, data), false) == (
            data != 0,
            is_write,
            rank,
            register % 4,
            data,
        ),
{
    assert(rank & 3 == rank && register & 0xFFF == register && data & 0xFFFF == data) by (bit_vector)
        requires
            0 <= rank <= 3,
            0 <= register <= 4095,
            0 <= data <= 65535,
    ;
    let r = rank as u32;
    let g = register as u32;
    let d = data as u32;
    let a: u32 = if d != 0 { FLAG_ACCESS } else { 0u32 };
    let w: u32 = if is_write { FLAG_WRITE } else { 0u32 };
    let p = a | w | (r << 28) | (g << 16) | d;
    assert(p == packed_payload(is_write, rank, register, data));
    assert(((p >> 28) & 3) == r && ((p >> 16) & 0xFFF) == g && ((p >> 16) & 3) == g % 4 && (p
        & 0xFFFF) == d && ((p & 0x8000_0000) != 0) == (a != 0) && ((p & 0x4000_0000) != 0) == (w
        != 0)) by (bit_vector)
        requires
            r < 4,
            g < 4096,
            d < 65536,
            a == 0 || a == 0x8000_0000,
            w == 0 || w == 0x4000_0000,
            p == a | w | (r << 28) | (g << 16) | d,
    ;
}

/// Filling a frame and reading it back returns the command: the access flag
/// is set exactly when the data is nonzero, the write flag, rank and data come
/// back unchanged, and the register comes back whole when read with all twelve
/// bits and as its low two bits otherwise.
pub proof fn lemma_packed_round_trip(
    frame: Seq<u8>,
    is_write: bool,
    rank: i32,
    register: i32,
    data: i32,
)
    requires
        frame.len() == 8,
        0 <= rank <= 3,
        0 <= register <= 4095,
        0 <= data <= 65535,
    ensures
        packed_info(
            payload_of(resealed(with_payload(frame, packed_payload(is_write, rank, register, data)))),
            true,
        ) == (data != 0, is_write, rank, register, data),
        packed_info(
            payload_of(resealed(with_payload(frame, packed_payload(is_write, rank, register, data)))),
            false,
        ) == (data != 0, is_write, rank, register % 4, data),
{
    let p = packed_payload(is_write, rank, register, data);
    lemma_with_payload(frame, p);
    lemma_resealed_matches(with_payload(frame, p));
    lemma_unpack_packed(is_write, rank, register, data);
}

/// A frame in the packed layout, held as its eight wire bytes.
pub struct ProtoUnion {
    raw_frame: [u8; 8],
}

impl View for ProtoUnion {
    type V = Seq<u8>;

    closed spec fn view(&self) -> Seq<u8> {
        self.raw_frame@
    }
}

impl ProtoUnion {
    /// The frame's trailer matches the checksum of its first six bytes.
    pub open spec fn wf(&self) -> bool {
        crc_matches(self@)
    }

    /// Takes eight received bytes as the frame, provided their trailer is the
    /// checksum of the first six; otherwise the frame is left as it was.
    pub fn update_from_raw_bytes(&mut self, raw_bytes: &[u8]) -> (r: Result<(), FrameError>)
        ensures
            raw_bytes@.len() != 8 ==> r == Err::<(), FrameError>(FrameError::BadLength)
                && final(self)@ == old(self)@,
            raw_bytes@.len() == 8 && !crc_matches(raw_bytes@) ==> r == Err::<(), FrameError>(
                FrameError::CrcMismatch,
            ) && final(self)@ == old(self)@,
            crc_matches(raw_bytes@) ==> r == Ok::<(), FrameError>(()) && final(self)@
                == raw_bytes@,
    {
        match checked_copy(raw_bytes) {
            Ok(b) => {
                self.raw_frame = b;
                Ok(())
            },
            Err(e) => Err(e),
        }
    }

    /// The frame's wire bytes, read-only.
    pub fn borrow_raw_frame(&self) -> (r: Arc<&[u8; 8]>)
        ensures
            (**r)@ == self@,
    {
        Arc::new(&self.raw_frame)
    }

    /// `fill` with a zero data value.
    pub fn fill_with_empty_frame(&mut self, is_write_mode: bool, rank: i32, register: i32)
        ensures
            final(self)@ == resealed(with_payload(old(self)@, packed_payload(is_write_mode, rank, register, 0))),
            final(self).wf(),
    {
        self.fill(is_write_mode, rank, register, 0);
    }

    /// Packs a command into the payload, keeping the header, and recomputes
    /// the trailer. Out-of-range fields are masked to their width.
    pub fn fill(&mut self, is_write_mode: bool, rank: i32, register: i32, data: i32)
        ensures
            final(self)@ == resealed(with_payload(old(self)@, packed_payload(is_write_mode, rank, register, data))),
            final(self).wf(),
    {
        let d = (data & MASK_DATA) as u32;
        let access = if d != 0 {
            FLAG_ACCESS
        } else {
            0u32
        };
        let write = if is_write_mode {
            FLAG_WRITE
        } else {
            0u32
        };
        let payload = access | write | (((rank & MASK_RANK) as u32) << BIT_SHIFT_RANK) | (((register
            & MASK_REGISTER) as u32) << BIT_SHIFT_REGISTER) | d;
        store_payload(&mut self.raw_frame, payload);
        update_crc16(&mut self.raw_frame);
        proof {
            lemma_resealed_matches(with_payload(old(self)@, payload));
        }
    }

    /// Reads the command back out of the payload, the register under the
    /// two-bit mask that deployed readers apply.
    pub fn parse_info(&self) -> (r: (bool, bool, i32, i32, i32))
        ensures
            r == packed_info(payload_of(self@), false),
    {
        self.parse_info_with(false)
    }

    /// Reads the command back out of the payload; `full_register` reads all
    /// twelve register bits instead of two.
    pub fn parse_info_with(&self, full_register: bool) -> (r: (bool, bool, i32, i32, i32))
        ensures
            r == packed_info(payload_of(self@), full_register),
    {
        let payload = load_payload(&self.raw_frame);
        let register_mask: u32 = if full_register {
            MASK_REGISTER as u32
        } else {
            MASK_RANK as u32
        };
        (
            payload & FLAG_ACCESS != 0,
            payload & FLAG_WRITE != 0,
            ((payload >> BIT_SHIFT_RANK) & (MASK_RANK as u32)) as i32,
            ((payload >> BIT_SHIFT_REGISTER) & register_mask) as i32,
            (payload & (MASK_DATA as u32)) as i32,
        )
    }

    /// The checksum of the frame's first six bytes.
    pub fn compute_crc16(&self) -> (r: u16)
        ensures
            r == crate::checksum::genibus_of(self@.subrange(0, 6)),
    {
        compute_crc16(&self.raw_frame)
    }
}

impl Default for ProtoUnion {
    /// The magic header, an all-zero payload and the checksum of that body.
    fn default() -> (r: ProtoUnion)
        ensures
            r@ == sealed_bytes(0),
            r.wf(),
    {
        let r = ProtoUnion { raw_frame: ProtoFrame::new().to_bytes() };
        proof {
            lemma_sealed_matches(0);
        }
        r
    }
}

} // verus!
