use anim_mul::anim::{decode_group, read_frame, AnimGroup, DecodeError, Row};
use anim_mul::buffer::ByteBuffer;

fn push_u16(v: &mut Vec<u8>, x: u16) {
    v.push((x & 0xFF) as u8);
    v.push((x >> 8) as u8);
}

fn push_u32(v: &mut Vec<u8>, x: u32) {
    v.push((x & 0xFF) as u8);
    v.push(((x >> 8) & 0xFF) as u8);
    v.push(((x >> 16) & 0xFF) as u8);
    v.push(((x >> 24) & 0xFF) as u8);
}

fn push_palette(v: &mut Vec<u8>) {
    for i in 0..256u16 {
        push_u16(v, i);
    }
}

/// One palette, one frame right after the offset table: header (0, 0, 2, 1),
/// a row with run length 3 and bytes [1, 2, 3], then the sentinel.
fn single_frame_record() -> Vec<u8> {
    let mut v = Vec::new();
    push_palette(&mut v);
    push_u32(&mut v, 1); // frame_count
    push_u32(&mut v, 8); // the frame sits right after the 8 bytes of count + table
    push_u16(&mut v, 0); // centre x
    push_u16(&mut v, 0); // centre y
    push_u16(&mut v, 2); // width
    push_u16(&mut v, 1); // height
    push_u32(&mut v, 0x00000003); // row header: run length 3
    v.push(1);
    v.push(2);
    v.push(3);
    push_u32(&mut v, 0x7FFF7FFF); // sentinel
    v
}

#[test]
fn single_frame_decodes() {
    let group = decode_group(single_frame_record()).unwrap();
    assert_eq!(group.frame_count, 1);
    assert_eq!(group.frames.len(), 1);
    let frame = &group.frames[0];
    assert_eq!(frame.image_centre_x, 0);
    assert_eq!(frame.image_centre_y, 0);
    assert_eq!(frame.width, 2);
    assert_eq!(frame.height, 1);
    assert_eq!(frame.data.len(), 1);
    assert_eq!(frame.data[0].header, 0x00000003);
    assert_eq!(frame.data[0].image_data, vec![1, 2, 3]);
}

#[test]
fn palette_has_256_entries_in_order() {
    let group = decode_group(single_frame_record()).unwrap();
    assert_eq!(group.palette.len(), 256);
    for i in 0..256usize {
        assert_eq!(group.palette[i], i as u16);
    }
}

#[test]
fn empty_offset_table_decodes_to_zero_frames() {
    let mut v = Vec::new();
    push_palette(&mut v);
    push_u32(&mut v, 0);
    let group = decode_group(v).unwrap();
    assert_eq!(group.frame_count, 0);
    assert_eq!(group.frames.len(), 0);
    assert_eq!(group.palette.len(), 256);
}

#[test]
fn truncated_after_palette_fails() {
    let mut v = Vec::new();
    push_palette(&mut v);
    assert_eq!(decode_group(v), Err(DecodeError::TruncatedData));
}

#[test]
fn every_strict_prefix_fails() {
    let record = single_frame_record();
    for n in 0..record.len() {
        let cut = record[..n].to_vec();
        assert_eq!(decode_group(cut), Err(DecodeError::TruncatedData));
    }
}

#[test]
fn trailing_slack_does_not_change_the_decode() {
    let record = single_frame_record();
    let mut padded = record.clone();
    padded.extend_from_slice(&[0xAA; 7]);
    assert_eq!(decode_group(record), decode_group(padded));
}

#[test]
fn offset_zero_points_at_the_frame_count_word() {
    // offsets are relative to the end of the palette, so offset 0 makes the
    // frame header overlap the count and table words themselves
    let mut v = Vec::new();
    push_palette(&mut v);
    push_u32(&mut v, 1); // frame_count = 1: also read back as centre x = 1
    push_u32(&mut v, 0); // offset 0: also read back as width = 0, height = 0
    push_u32(&mut v, 0x7FFF7FFF);
    let group = decode_group(v).unwrap();
    let frame = &group.frames[0];
    assert_eq!(frame.image_centre_x, 1);
    assert_eq!(frame.image_centre_y, 0);
    assert_eq!(frame.width, 0);
    assert_eq!(frame.height, 0);
    assert_eq!(frame.data.len(), 0);
}

#[test]
fn decoding_twice_is_identical() {
    let record = single_frame_record();
    let first = decode_group(record.clone()).unwrap();
    let second = decode_group(record).unwrap();
    assert_eq!(first, second);
}

#[test]
fn row_length_follows_header_low_bits() {
    let mut v = Vec::new();
    push_palette(&mut v);
    push_u32(&mut v, 1);
    push_u32(&mut v, 8);
    push_u16(&mut v, 5);
    push_u16(&mut v, 6);
    push_u16(&mut v, 7);
    push_u16(&mut v, 8);
    // upper header bits must not change the run length, which is 2 here
    push_u32(&mut v, 0xABC0_0002);
    v.push(9);
    v.push(10);
    push_u32(&mut v, 0x7FFF7FFF);
    let group = decode_group(v).unwrap();
    let row = &group.frames[0].data[0];
    assert_eq!(row.header & 0xFFF, 2);
    assert_eq!(row.image_data, vec![9, 10]);
}

#[test]
fn sentinel_is_not_stored_as_a_row() {
    let group = decode_group(single_frame_record()).unwrap();
    for frame in &group.frames {
        for row in &frame.data {
            assert_ne!(row.header, 0x7FFF7FFF);
        }
    }
    // a frame whose rows start with the sentinel has no rows at all
    let mut v = Vec::new();
    push_palette(&mut v);
    push_u32(&mut v, 1);
    push_u32(&mut v, 8);
    push_u16(&mut v, 0);
    push_u16(&mut v, 0);
    push_u16(&mut v, 1);
    push_u16(&mut v, 1);
    push_u32(&mut v, 0x7FFF7FFF);
    let group = decode_group(v).unwrap();
    assert_eq!(group.frames[0].data.len(), 0);
}

#[test]
fn missing_sentinel_fails() {
    let mut v = Vec::new();
    push_palette(&mut v);
    push_u32(&mut v, 1);
    push_u32(&mut v, 8);
    push_u16(&mut v, 0);
    push_u16(&mut v, 0);
    push_u16(&mut v, 1);
    push_u16(&mut v, 1);
    push_u32(&mut v, 0x00000001);
    v.push(42);
    // rows never reach a sentinel: the decode must fail, not stop silently
    assert_eq!(decode_group(v), Err(DecodeError::TruncatedData));
}

#[test]
fn offset_past_end_fails() {
    let mut v = Vec::new();
    push_palette(&mut v);
    push_u32(&mut v, 1);
    push_u32(&mut v, 0xFFFF); // far past the end of the block
    assert_eq!(decode_group(v), Err(DecodeError::TruncatedData));
}

#[test]
fn frame_count_is_carried_even_when_table_disagrees_with_data() {
    // two offsets naming the same frame: two frames decode
    let mut v = Vec::new();
    push_palette(&mut v);
    push_u32(&mut v, 2);
    push_u32(&mut v, 12);
    push_u32(&mut v, 12);
    push_u16(&mut v, 1);
    push_u16(&mut v, 2);
    push_u16(&mut v, 3);
    push_u16(&mut v, 4);
    push_u32(&mut v, 0x7FFF7FFF);
    let group = decode_group(v).unwrap();
    assert_eq!(group.frame_count, 2);
    assert_eq!(group.frames.len(), 2);
    assert_eq!(group.frames[0], group.frames[1]);
    assert_eq!(group.frames[0].image_centre_x, 1);
    assert_eq!(group.frames[0].image_centre_y, 2);
}

#[test]
fn read_frame_decodes_negative_centres() {
    let mut v = Vec::new();
    push_u16(&mut v, 0xFFFF); // -1 as little-endian int16
    push_u16(&mut v, 0x8000); // -32768
    push_u16(&mut v, 10);
    push_u16(&mut v, 20);
    push_u32(&mut v, 0x7FFF7FFF);
    let mut buf = ByteBuffer::new(v);
    let frame = read_frame(&mut buf).unwrap();
    assert_eq!(frame.image_centre_x, -1);
    assert_eq!(frame.image_centre_y, -32768);
    assert_eq!(frame.width, 10);
    assert_eq!(frame.height, 20);
    assert_eq!(frame.data.len(), 0);
}

#[test]
fn read_frame_truncated_header_fails() {
    let mut buf = ByteBuffer::new(vec![1, 2, 3]);
    assert_eq!(read_frame(&mut buf), Err(DecodeError::TruncatedData));
}

#[test]
fn row_offsets_expose_masked_header_field() {
    let row = Row { header: 0x007FF000, image_data: Vec::new() };
    // bits 12..22 all set, shifted down by 6: 0x1FFC0, low 16 bits 0xFFC0
    assert_eq!(row.x_offset(), 0xFFC0u16 as i16);
    assert_eq!(row.y_offset(), 0xFFC0u16 as i16);
    let row = Row { header: 0x00001000, image_data: Vec::new() };
    assert_eq!(row.x_offset(), 0x40);
    assert_eq!(row.y_offset(), 0x40);
    let row = Row { header: 0xFF800FFF, image_data: Vec::new() };
    assert_eq!(row.x_offset(), 0);
    assert_eq!(row.y_offset(), 0);
}

#[test]
fn group_decode_is_an_animgroup_value() {
    let record = single_frame_record();
    let group: AnimGroup = decode_group(record).unwrap();
    assert_eq!(group.palette[255], 255);
}
