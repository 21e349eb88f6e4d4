//! Mathematical model of the record format.
//!
//! These specification functions say, byte for byte, what a well-formed
//! record contains: a palette of 256 little-endian 16-bit colors, a 32-bit
//! frame count, a table of 32-bit frame offsets relative to the end of the
//! palette, and at each offset a frame header followed by run-length encoded
//! rows ending at the sentinel word. Each parser returns `None` exactly when
//! a required read would run past the end of the block.

use vstd::prelude::*;

verus! {

/// The 32-bit word that terminates a frame's row list.
pub const SENTINEL: u32 = 0x7FFF7FFF;

/// Byte length of the palette: 256 entries of two bytes each.
pub const PALETTE_BYTES: usize = 512;

/// A decoded row, as mathematics: its raw header word and its pixel bytes.
pub ghost struct RowModel {
    pub header: u32,
    pub image_data: Seq<u8>,
}

/// A decoded frame: centre point, dimensions, and its rows in order.
pub ghost struct FrameModel {
    pub image_centre_x: i16,
    pub image_centre_y: i16,
    pub width: u16,
    pub height: u16,
    pub data: Seq<RowModel>,
}

/// A decoded animation group: palette, declared frame count, frames in
/// offset-table order.
pub ghost struct GroupModel {
    pub palette: Seq<u16>,
    pub frame_count: u32,
    pub frames: Seq<FrameModel>,
}

/// The unsigned 16-bit value stored little-endian at `pos`.
pub open spec fn le16_at(raw: Seq<u8>, pos: int) -> u16
    recommends
        0 <= pos,
        pos + 2 <= raw.len(),
{
    (raw[pos] + raw[pos + 1] * 0x100) as u16
}

/// The unsigned 32-bit value stored little-endian at `pos`.
pub open spec fn le32_at(raw: Seq<u8>, pos: int) -> u32
    recommends
        0 <= pos,
        pos + 4 <= raw.len(),
{
    (raw[pos] + raw[pos + 1] * 0x100 + raw[pos + 2] * 0x10000 + raw[pos + 3] * 0x1000000) as u32
}

/// The signed 16-bit value with the same bit pattern as `u`.
pub open spec fn i16_of_u16(u: u16) -> i16 {
    if u < 0x8000 {
        u as i16
    } else {
        (u - 0x10000) as i16
    }
}

/// The run length carried in a row header: its low 12 bits.
pub open spec fn run_len_of(header: u32) -> u32 {
    header & 0xFFF
}

/// The rows of one frame, read from `pos`: headers and pixel runs until the
/// sentinel. Yields the rows and the position just past the sentinel, or
/// `None` if the data ends before the sentinel is reached.
pub open spec fn parse_rows(raw: Seq<u8>, pos: int) -> Option<(Seq<RowModel>, int)>
    recommends
        0 <= pos,
    decreases raw.len() - pos,
{
    if pos + 4 > raw.len() {
        None
    } else {
        let header = le32_at(raw, pos);
        if header == SENTINEL {
            Some((Seq::empty(), pos + 4))
        } else {
            let run = run_len_of(header) as int;
            if pos + 4 + run > raw.len() {
                None
            } else {
                match parse_rows(raw, pos + 4 + run) {
                    None => None,
                    Some(rest) => Some(
                        (
                            seq![
                                RowModel {
                                    header,
                                    image_data: raw.subrange(pos + 4, pos + 4 + run),
                                },
                            ] + rest.0,
                            rest.1,
                        ),
                    ),
                }
            }
        }
    }
}

/// One frame read from `pos`: an 8-byte header (centre x, centre y, width,
/// height) followed by its rows.
pub open spec fn parse_frame(raw: Seq<u8>, pos: int) -> Option<FrameModel>
    recommends
        0 <= pos,
{
    if pos + 8 > raw.len() {
        None
    } else {
        match parse_rows(raw, pos + 8) {
            None => None,
            Some(rows) => Some(
                FrameModel {
                    image_centre_x: i16_of_u16(le16_at(raw, pos)),
                    image_centre_y: i16_of_u16(le16_at(raw, pos + 2)),
                    width: le16_at(raw, pos + 4),
                    height: le16_at(raw, pos + 6),
                    data: rows.0,
                },
            ),
        }
    }
}

/// The frames named by `offsets[i..]`, each decoded at absolute position
/// `512 + offset`. `None` as soon as one frame fails to decode.
pub open spec fn parse_frames_from(raw: Seq<u8>, offsets: Seq<u32>, i: int) -> Option<
    Seq<FrameModel>,
>
    recommends
        0 <= i <= offsets.len(),
    decreases offsets.len() - i,
{
    if i >= offsets.len() {
        Some(Seq::empty())
    } else {
        match parse_frame(raw, PALETTE_BYTES + offsets[i] as int) {
            None => None,
            Some(frame) => match parse_frames_from(raw, offsets, i + 1) {
                None => None,
                Some(rest) => Some(seq![frame] + rest),
            },
        }
    }
}

/// The palette: 256 little-endian 16-bit values from the start of the block.
pub open spec fn palette_of(raw: Seq<u8>) -> Seq<u16> {
    Seq::new(256, |i: int| le16_at(raw, 2 * i))
}

/// The offset table: `frame_count` little-endian 32-bit values following the
/// frame count word.
pub open spec fn offsets_of(raw: Seq<u8>, frame_count: u32) -> Seq<u32> {
    Seq::new(frame_count as nat, |i: int| le32_at(raw, PALETTE_BYTES + 4 + 4 * i))
}

/// A whole record: palette, frame count, offset table, frames. `None`
/// exactly when some required read runs past the end of the block.
pub open spec fn parse_group(raw: Seq<u8>) -> Option<GroupModel> {
    if raw.len() < PALETTE_BYTES + 4 {
        None
    } else {
        let frame_count = le32_at(raw, PALETTE_BYTES as int);
        if PALETTE_BYTES + 4 + 4 * (frame_count as int) > raw.len() {
            None
        } else {
            match parse_frames_from(raw, offsets_of(raw, frame_count), 0) {
                None => None,
                Some(frames) => Some(
                    GroupModel { palette: palette_of(raw), frame_count, frames },
                ),
            }
        }
    }
}

} // verus!
