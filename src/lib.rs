//! Codec for the fixed 8-byte frames of a point-of-sale RFID reader.
//!
//! A frame is a little-endian header (`0xBEEF`), a 32-bit payload and a
//! CRC-16/GENIBUS trailer over the first six bytes. Two payload layouts exist:
//! [`ProtoUnion`] packs every field into one 32-bit word, [`SegmentedFrame`]
//! splits it into a 16-bit command segment and a 16-bit data segment.

pub mod checksum;
pub mod frame;
pub mod packed;
pub mod segmented;

pub use frame::{FrameError, ProtoFrame, CRC16_OFFSET, PROTO_HEADER, PROTO_LENGTH};
pub use packed::ProtoUnion;
pub use segmented::SegmentedFrame;
