use rfidpos_proto::frame::FrameError;
use rfidpos_proto::{ProtoFrame, ProtoUnion, SegmentedFrame, PROTO_HEADER, PROTO_LENGTH};

fn packed_bytes(frame: &ProtoUnion) -> [u8; 8] {
    **frame.borrow_raw_frame()
}

fn segmented_bytes(frame: &SegmentedFrame) -> [u8; 8] {
    **frame.borrow_raw_frame()
}

fn trailer(bytes: &[u8; 8]) -> u16 {
    u16::from_le_bytes([bytes[6], bytes[7]])
}

#[test]
fn frame_size_is_eight() {
    assert_eq!(std::mem::size_of::<ProtoUnion>(), PROTO_LENGTH);
    assert_eq!(std::mem::size_of::<SegmentedFrame>(), PROTO_LENGTH);
    assert_eq!(std::mem::size_of::<[u8; 8]>(), PROTO_LENGTH);
}

#[test]
fn default_frame_bytes() {
    let expected = [0xEF, 0xBE, 0x00, 0x00, 0x00, 0x00, 0x42, 0x5E];
    assert_eq!(packed_bytes(&ProtoUnion::default()), expected);
    assert_eq!(segmented_bytes(&SegmentedFrame::default()), expected);
}

#[test]
fn default_checksum_covers_six_bytes() {
    let frame = ProtoUnion::default();
    assert_eq!(frame.compute_crc16(), 0x5E42);
    assert_eq!(trailer(&packed_bytes(&frame)), 0x5E42);
}

#[test]
fn proto_frame_new_fields() {
    let f = ProtoFrame::new();
    assert_eq!(f.header, PROTO_HEADER);
    assert_eq!(f.payload, 0);
    assert_eq!(f.crc16_genibus, 0x5E42);
    assert_eq!(f.to_bytes(), [0xEF, 0xBE, 0x00, 0x00, 0x00, 0x00, 0x42, 0x5E]);
}

#[test]
fn proto_frame_bytes_round_trip() {
    let bytes = [0x01, 0x02, 0x03, 0x04, 0x05, 0x06, 0x07, 0x08];
    let f = ProtoFrame::from_bytes(&bytes);
    assert_eq!(f.header, 0x0201);
    assert_eq!(f.payload, 0x0605_0403);
    assert_eq!(f.crc16_genibus, 0x0807);
    assert_eq!(f.to_bytes(), bytes);
}

#[test]
fn packed_example_register_b0() {
    let mut frame = ProtoUnion::default();
    frame.fill_with_empty_frame(true, 0, 0xB0);
    assert_eq!(packed_bytes(&frame), [0xEF, 0xBE, 0x00, 0x00, 0xB0, 0x40, 0x8B, 0x08]);
    assert_eq!(frame.parse_info_with(true), (false, true, 0, 0xB0, 0));
    assert_eq!(frame.parse_info(), (false, true, 0, 0xB0 & 0b11, 0));
}

#[test]
fn packed_all_fields() {
    let mut frame = ProtoUnion::default();
    frame.fill(true, 2, 0x123, 0xBEEF);
    assert_eq!(packed_bytes(&frame), [0xEF, 0xBE, 0xEF, 0xBE, 0x23, 0xE1, 0x02, 0x55]);
    assert_eq!(frame.parse_info_with(true), (true, true, 2, 0x123, 0xBEEF));
    assert_eq!(frame.parse_info(), (true, true, 2, 0x3, 0xBEEF));
}

#[test]
fn segmented_example_register_ec() {
    let mut frame = SegmentedFrame::default();
    frame.fill(true, 0, 0xEC, 0);
    assert_eq!(frame.segments(), (0x40EC, 0x0000));
    assert_eq!(segmented_bytes(&frame), [0xEF, 0xBE, 0xEC, 0x40, 0x00, 0x00, 0x37, 0x88]);
    assert_eq!(frame.parse_info(), (false, true, 0, 0xEC, 0));
}

#[test]
fn segmented_data_segment_verbatim() {
    let mut frame = SegmentedFrame::default();
    frame.fill(false, 3, 0xFFF, 0xABCD);
    assert_eq!(frame.segments(), (0x8000 | 0x3000 | 0x0FFF, 0xABCD));
    assert_eq!(frame.parse_info(), (true, false, 3, 0xFFF, 0xABCD));
}

#[test]
fn packed_masks_out_of_range_fields() {
    let mut frame = ProtoUnion::default();
    frame.fill(true, 4, 4096, 65536);
    assert_eq!(frame.parse_info_with(true), (false, true, 0, 0, 0));
    let mut plain = ProtoUnion::default();
    plain.fill(true, 0, 0, 0);
    assert_eq!(packed_bytes(&frame), packed_bytes(&plain));
}

#[test]
fn segmented_masks_out_of_range_fields() {
    let mut frame = SegmentedFrame::default();
    frame.fill(true, 4, 4096, 65536);
    assert_eq!(frame.parse_info(), (false, true, 0, 0, 0));
    assert_eq!(frame.segments(), (0x4000, 0));
}

#[test]
fn negative_fields_keep_their_low_bits() {
    let mut packed = ProtoUnion::default();
    packed.fill(false, -1, -1, -1);
    assert_eq!(packed.parse_info_with(true), (true, false, 3, 0xFFF, 0xFFFF));
    let mut segmented = SegmentedFrame::default();
    segmented.fill(false, -1, -1, -1);
    assert_eq!(segmented.parse_info(), (true, false, 3, 0xFFF, 0xFFFF));
}

#[test]
fn fill_then_parse_round_trip() {
    for &is_write in &[false, true] {
        for rank in 0..4 {
            for &register in &[0, 1, 0xB0, 0x7FF, 0xFFF] {
                for &data in &[0, 1, 0x1234, 0xFFFF] {
                    let mut packed = ProtoUnion::default();
                    packed.fill(is_write, rank, register, data);
                    assert_eq!(
                        packed.parse_info_with(true),
                        (data != 0, is_write, rank, register, data)
                    );
                    assert_eq!(
                        packed.parse_info(),
                        (data != 0, is_write, rank, register & 0b11, data)
                    );
                    let mut segmented = SegmentedFrame::default();
                    segmented.fill(is_write, rank, register, data);
                    assert_eq!(
                        segmented.parse_info(),
                        (data != 0, is_write, rank, register, data)
                    );
                }
            }
        }
    }
}

#[test]
fn filled_frames_carry_their_checksum() {
    let mut packed = ProtoUnion::default();
    packed.fill(true, 1, 0x456, 0x789A);
    let bytes = packed_bytes(&packed);
    assert_eq!(packed.compute_crc16(), trailer(&bytes));
    let mut copy = ProtoUnion::default();
    assert_eq!(copy.update_from_raw_bytes(&bytes), Ok(()));
    assert_eq!(packed_bytes(&copy), bytes);

    let mut segmented = SegmentedFrame::default();
    segmented.fill(false, 2, 0x0AB, 0);
    let bytes = segmented_bytes(&segmented);
    assert_eq!(segmented.compute_crc16(), trailer(&bytes));
    let mut copy = SegmentedFrame::default();
    assert_eq!(copy.update_from_raw_bytes(&bytes), Ok(()));
    assert_eq!(segmented_bytes(&copy), bytes);
}

#[test]
fn decoding_a_received_frame() {
    let received = [0xEF, 0xBE, 0xEF, 0xBE, 0x23, 0xE1, 0x02, 0x55];
    let mut frame = ProtoUnion::default();
    assert_eq!(frame.update_from_raw_bytes(&received), Ok(()));
    assert_eq!(frame.parse_info_with(true), (true, true, 2, 0x123, 0xBEEF));
}

#[test]
fn single_bit_flips_are_rejected() {
    let mut packed = ProtoUnion::default();
    packed.fill(true, 3, 0x0B0, 0x55AA);
    let mut segmented = SegmentedFrame::default();
    segmented.fill(false, 1, 0x0EC, 0x1234);
    for valid in [packed_bytes(&packed), segmented_bytes(&segmented), packed_bytes(&ProtoUnion::default())] {
        for byte in 0..6 {
            for bit in 0..8 {
                let mut tampered = valid;
                tampered[byte] ^= 1 << bit;
                let mut frame = ProtoUnion::default();
                let before = packed_bytes(&frame);
                assert_eq!(frame.update_from_raw_bytes(&tampered), Err(FrameError::CrcMismatch));
                assert_eq!(packed_bytes(&frame), before);
                let mut frame = SegmentedFrame::default();
                assert_eq!(frame.update_from_raw_bytes(&tampered), Err(FrameError::CrcMismatch));
            }
        }
    }
}

#[test]
fn wrong_length_is_rejected() {
    let mut frame = ProtoUnion::default();
    frame.fill(true, 1, 2, 3);
    let before = packed_bytes(&frame);
    assert_eq!(frame.update_from_raw_bytes(&before[..7]), Err(FrameError::BadLength));
    let longer = [0xEF, 0xBE, 0, 0, 0, 0, 0x42, 0x5E, 0];
    assert_eq!(frame.update_from_raw_bytes(&longer), Err(FrameError::BadLength));
    assert_eq!(frame.update_from_raw_bytes(&[]), Err(FrameError::BadLength));
    assert_eq!(packed_bytes(&frame), before);
    let mut segmented = SegmentedFrame::default();
    assert_eq!(segmented.update_from_raw_bytes(&longer), Err(FrameError::BadLength));
}

#[test]
fn fill_keeps_a_received_header() {
    let received = [0x34, 0x12, 0x00, 0x00, 0x00, 0x00, 0x1B, 0x98];
    let mut frame = ProtoUnion::default();
    assert_eq!(frame.update_from_raw_bytes(&received), Ok(()));
    frame.fill(true, 1, 0x0B0, 7);
    assert_eq!(packed_bytes(&frame), [0x34, 0x12, 0x07, 0x00, 0xB0, 0xD0, 0x46, 0x1C]);
}
