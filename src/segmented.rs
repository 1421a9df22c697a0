//! The segmented layout: the payload is two 16-bit segments.
//!
//! `segment0` (bytes two and three) holds the access flag in bit 15, the write
//! flag in bit 14, the rank in bits 13:12 and the register address in bits
//! 11:0. `segment1` (bytes four and five) holds the data value as it is.

use crate::frame::{
    checked_copy, compute_crc16, crc_matches, lemma_resealed_matches, lemma_sealed_matches,
    lemma_with_payload, load_payload, payload_of, resealed, sealed_bytes, store_payload,
    update_crc16, with_payload, FrameError, ProtoFrame,
};
use std::sync::Arc;
use vstd::prelude::*;

verus! {

/// Bit 15 of `segment0`: the command carries a nonzero data value.
pub const SEGMENT_FLAG_ACCESS: u16 = 0x8000;

/// Bit 14 of `segment0`: the command is a write.
pub const SEGMENT_FLAG_WRITE: u16 = 0x4000;

/// Position of the rank field in `segment0`.
pub const SEGMENT_SHIFT_RANK: u16 = 12;

/// Width mask of the rank field.
pub const SEGMENT_MASK_RANK: i32 = 0b11;

/// Width mask of the register field.
pub const SEGMENT_MASK_REGISTER: i32 = 0b1111_1111_1111;

/// Width mask of the data segment.
pub const SEGMENT_MASK_DATA: i32 = 0xFFFF;

/// The command segment: flags, rank and register, each field masked to its
/// width, the access flag set when the masked data is nonzero.
pub open spec fn segment0(is_write: bool, rank: i32, register: i32, data: i32) -> u16 {
    (if segment1(data) != 0 { SEGMENT_FLAG_ACCESS } else { 0u16 }) | (if is_write {
        SEGMENT_FLAG_WRITE
    } else {
        0u16
    }) | (((rank & SEGMENT_MASK_RANK) as u16) << SEGMENT_SHIFT_RANK) | ((register
        & SEGMENT_MASK_REGISTER) as u16)
}

/// The data segment: the data value in its natural sixteen bits.
pub open spec fn segment1(data: i32) -> u16 {
    (data & SEGMENT_MASK_DATA) as u16
}

/// The payload word whose low half is `segment0` and whose high half is
/// `segment1`, so that they follow each other little-endian on the wire.
pub open spec fn segmented_payload(is_write: bool, rank: i32, register: i32, data: i32) -> u32 {
    (segment0(is_write, rank, register, data) as u32) | ((segment1(data) as u32) << 16u32)
}

/// The two segments of a payload word.
pub open spec fn segments_of(payload: u32) -> (u16, u16) {
    ((payload & 0xFFFF) as u16, (payload >> 16u32) as u16)
}

/// The fields read back from a payload word: access flag, write flag, rank,
/// register and data.
pub open spec fn segmented_info(payload: u32) -> (bool, bool, i32, i32, i32) {
    let (s0, s1) = segments_of(payload);
    (
        s0 & SEGMENT_FLAG_ACCESS != 0,
        s0 & SEGMENT_FLAG_WRITE != 0,
        ((s0 >> SEGMENT_SHIFT_RANK) & (SEGMENT_MASK_RANK as u16)) as i32,
        (s0 & (SEGMENT_MASK_REGISTER as u16)) as i32,
        s1 as i32,
    )
}

/// Unpacking a segmented command gives back its fields when each is within
/// its width.
proof fn lemma_unpack_segmented(is_write: bool, rank: i32, register: i32, data: i32)
    requires
        0 <= rank <= 3,
        0 <= register <= 4095,
        0 <= data <= 65535,
    ensures
        segmented_info(segmented_payload(is_write, rank, register, data)) == (
            data != 0,
            is_write,
            rank,
            register,
            data,
        ),
{
    assert(rank & 3 == rank && register & 0xFFF == register && data & 0xFFFF == data) by (bit_vector)
        requires
            0 <= rank <= 3,
            0 <= register <= 4095,
            0 <= data <= 65535,
    ;
    let r = rank as u16;
    let g = register as u16;
    let d = data as u16;
    let a: u16 = if d != 0 { SEGMENT_FLAG_ACCESS } else { 0u16 };
    let w: u16 = if is_write { SEGMENT_FLAG_WRITE } else { 0u16 };
    let s0 = a | w | (r << 12u16) | g;
    let p = (s0 as u32) | ((d as u32) << 16u32);
    assert(p == segmented_payload(is_write, rank, register, data));
    assert((p & 0xFFFF) as u16 == s0 && (p >> 16u32) as u16 == d) by (bit_vector)
        requires
            p == (s0 as u32) | ((d as u32) << 16u32),
    ;
    assert(((s0 >> 12u16) & 3) == r && (s0 & 0xFFF) == g && ((s0 & 0x8000) != 0) == (a != 0)
        && ((s0 & 0x4000) != 0) == (w != 0)) by (bit_vector)
        requires
            r < 4,
            g < 4096,
            a == 0 || a == 0x8000,
            w == 0 || w == 0x4000,
            s0 == a | w | (r << 12u16) | g,
    ;
}

/// Filling a frame in the segmented layout and reading it back returns the
/// command: the access flag is set exactly when the data is nonzero, and the
/// write flag, rank, register and data come back unchanged.
pub proof fn lemma_segmented_round_trip(
    frame: Seq<u8>,
    is_write: bool,
    rank: i32,
    register: i32,
    data: i32,
)
    requires
        frame.len() == 8,
        0 <= rank <= 3,
        0 <= register <= 4095,
        0 <= data <= 65535,
    ensures
        segmented_info(
            payload_of(
                resealed(with_payload(frame, segmented_payload(is_write, rank, register, data))),
            ),
        ) == (data != 0, is_write, rank, register, data),
{
    let p = segmented_payload(is_write, rank, register, data);
    lemma_with_payload(frame, p);
    lemma_resealed_matches(with_payload(frame, p));
    lemma_unpack_segmented(is_write, rank, register, data);
}

/// A frame in the segmented layout, held as its eight wire bytes.
pub struct SegmentedFrame {
    raw_frame: [u8; 8],
}

impl View for SegmentedFrame {
    type V = Seq<u8>;

    closed spec fn view(&self) -> Seq<u8> {
        self.raw_frame@
    }
}

impl SegmentedFrame {
    /// The frame's trailer matches the checksum of its first six bytes.
    pub open spec fn wf(&self) -> bool {
        crc_matches(self@)
    }

    /// Takes eight received bytes as the frame, provided their trailer is the
    /// checksum of the first six; otherwise the frame is left as it was.
    pub fn update_from_raw_bytes(&mut self, raw_bytes: &[u8]) -> (r: Result<(), FrameError>)
        ensures
            raw_bytes@.len() != 8 ==> r == Err::<(), FrameError>(FrameError::BadLength)
                && final(self)@ == old(self)@,
            raw_bytes@.len() == 8 && !crc_matches(raw_bytes@) ==> r == Err::<(), FrameError>(
                FrameError::CrcMismatch,
            ) && final(self)@ == old(self)@,
            crc_matches(raw_bytes@) ==> r == Ok::<(), FrameError>(()) && final(self)@
                == raw_bytes@,
    {
        match checked_copy(raw_bytes) {
            Ok(b) => {
                self.raw_frame = b;
                Ok(())
            },
            Err(e) => Err(e),
        }
    }

    /// The frame's wire bytes, read-only.
    pub fn borrow_raw_frame(&self) -> (r: Arc<&[u8; 8]>)
        ensures
            (**r)@ == self@,
    {
        Arc::new(&self.raw_frame)
    }

    /// `fill` with a zero data value.
    pub fn fill_with_empty_frame(&mut self, is_write_mode: bool, rank: i32, register: i32)
        ensures
            final(self)@ == resealed(
                with_payload(old(self)@, segmented_payload(is_write_mode, rank, register, 0)),
            ),
            final(self).wf(),
    {
        self.fill(is_write_mode, rank, register, 0);
    }

    /// Packs a command into the two segments, keeping the header, and
    /// recomputes the trailer. Out-of-range fields are masked to their width.
    pub fn fill(&mut self, is_write_mode: bool, rank: i32, register: i32, data: i32)
        ensures
            final(self)@ == resealed(
                with_payload(old(self)@, segmented_payload(is_write_mode, rank, register, data)),
            ),
            final(self).wf(),
    {
        let s1 = (data & SEGMENT_MASK_DATA) as u16;
        let access = if s1 != 0 {
            SEGMENT_FLAG_ACCESS
        } else {
            0u16
        };
        let write = if is_write_mode {
            SEGMENT_FLAG_WRITE
        } else {
            0u16
        };
        let s0 = access | write | (((rank & SEGMENT_MASK_RANK) as u16) << SEGMENT_SHIFT_RANK) | ((
        register & SEGMENT_MASK_REGISTER) as u16);
        let payload = (s0 as u32) | ((s1 as u32) << 16u32);
        store_payload(&mut self.raw_frame, payload);
        update_crc16(&mut self.raw_frame);
        proof {
            lemma_resealed_matches(with_payload(old(self)@, payload));
        }
    }

    /// The two segments of the payload, `segment0` first.
    pub fn segments(&self) -> (r: (u16, u16))
        ensures
            r == segments_of(payload_of(self@)),
    {
        let payload = load_payload(&self.raw_frame);
        ((payload & 0xFFFF) as u16, (payload >> 16u32) as u16)
    }

    /// Reads the command back out of the two segments.
    pub fn parse_info(&self) -> (r: (bool, bool, i32, i32, i32))
        ensures
            r == segmented_info(payload_of(self@)),
    {
        let (s0, s1) = self.segments();
        (
            s0 & SEGMENT_FLAG_ACCESS != 0,
            s0 & SEGMENT_FLAG_WRITE != 0,
            ((s0 >> SEGMENT_SHIFT_RANK) & (SEGMENT_MASK_RANK as u16)) as i32,
            (s0 & (SEGMENT_MASK_REGISTER as u16)) as i32,
            s1 as i32,
        )
    }

    /// The checksum of the frame's first six bytes.
    pub fn compute_crc16(&self) -> (r: u16)
        ensures
            r == crate::checksum::genibus_of(self@.subrange(0, 6)),
    {
        compute_crc16(&self.raw_frame)
    }
}

impl Default for SegmentedFrame {
    /// The magic header, an all-zero payload and the checksum of that body.
    fn default() -> (r: SegmentedFrame)
        ensures
            r@ == sealed_bytes(0),
            r.wf(),
    {
        let r = SegmentedFrame { raw_frame: ProtoFrame::new().to_bytes() };
        proof {
            lemma_sealed_matches(0);
        }
        r
    }
}

} // verus!
