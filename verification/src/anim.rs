//! The animation-group data model and decoders.

use vstd::prelude::*;
use crate::buffer::{i16_reinterpret, ByteBuffer};
use crate::format::{
    i16_of_u16, offsets_of, palette_of, parse_frame, parse_frames_from, parse_group, parse_rows,
    run_len_of, FrameModel, GroupModel, RowModel, PALETTE_BYTES, SENTINEL,
};

verus! {

/// Why a decode failed. `NotFound` and `IOFailure` come from a record
/// locator that maps an id to its byte block; `TruncatedData` means a
/// structured read ran past the end of the block.
#[derive(Clone, Copy, Debug, PartialEq, Eq, Structural)]
pub enum DecodeError {
    NotFound,
    IOFailure,
    TruncatedData,
}

/// One run-length encoded row: its raw header word and its pixel bytes.
#[derive(Clone, Debug, PartialEq, Eq)]
pub struct Row {
    pub header: u32,
    pub image_data: Vec<u8>,
}

/// One decoded frame: centre point, dimensions, rows in order.
#[derive(Clone, Debug, PartialEq, Eq)]
pub struct AnimFrame {
    pub image_centre_x: i16,
    pub image_centre_y: i16,
    pub width: u16,
    pub height: u16,
    pub data: Vec<Row>,
}

/// One decoded animation group: palette, declared frame count, frames in
/// offset-table order.
#[derive(Clone, Debug, PartialEq, Eq)]
pub struct AnimGroup {
    pub palette: Vec<u16>,
    pub frame_count: u32,
    pub frames: Vec<AnimFrame>,
}

impl View for Row {
    type V = RowModel;

    open spec fn view(&self) -> RowModel {
        RowModel { header: self.header, image_data: self.image_data@ }
    }
}

impl View for AnimFrame {
    type V = FrameModel;

    open spec fn view(&self) -> FrameModel {
        FrameModel {
            image_centre_x: self.image_centre_x,
            image_centre_y: self.image_centre_y,
            width: self.width,
            height: self.height,
            data: self.data@.map_values(|r: Row| r@),
        }
    }
}

impl View for AnimGroup {
    type V = GroupModel;

    open spec fn view(&self) -> GroupModel {
        GroupModel {
            palette: self.palette@,
            frame_count: self.frame_count,
            frames: self.frames@.map_values(|f: AnimFrame| f@),
        }
    }
}

impl Row {
    /// The field the row header carries in bits 12 to 22, shifted down by 6
    /// and reinterpreted as a signed 16-bit value. In this legacy format the
    /// exact packing of the positional fields is unsettled; this exposes the
    /// raw masked quantity.
    pub fn x_offset(&self) -> (r: i16)
        ensures
            r == i16_of_u16((((self.header & 0x007FF000) >> 6) % 0x10000) as u16),
    {
        i16_reinterpret((((self.header & 0x007FF000) >> 6) % 0x10000) as u16)
    }

    /// The same raw masked quantity as `x_offset`; the legacy format does
    /// not settle how the two positional fields differ.
    pub fn y_offset(&self) -> (r: i16)
        ensures
            r == i16_of_u16((((self.header & 0x007FF000) >> 6) % 0x10000) as u16),
    {
        i16_reinterpret((((self.header & 0x007FF000) >> 6) % 0x10000) as u16)
    }
}

/// Decodes one frame from the cursor's position: the 8-byte frame header,
/// then rows until the sentinel word. Succeeds exactly when the model parser
/// `parse_frame` does, and returns the frame it describes; fails with
/// `TruncatedData` exactly when the data ends before the sentinel.
pub fn read_frame(buf: &mut ByteBuffer) -> (r: Result<AnimFrame, DecodeError>)
    requires
        old(buf).wf(),
    ensures
        final(buf).wf(),
        final(buf).bytes@ == old(buf).bytes@,
        (match r {
            Ok(frame) => parse_frame(old(buf).bytes@, old(buf).pos as int) == Some(frame@)
                && parse_rows(old(buf).bytes@, old(buf).pos + 8) == Some(
                (frame@.data, final(buf).pos as int),
            ),
            Err(e) => parse_frame(old(buf).bytes@, old(buf).pos as int) is None
                && e == DecodeError::TruncatedData,
        }),
{
    let ghost raw = buf.bytes@;
    let ghost fstart = buf.pos as int;
    let image_centre_x = match buf.try_read_i16() {
        Some(v) => v,
        None => { return Err(DecodeError::TruncatedData); },
    };
    let image_centre_y = match buf.try_read_i16() {
        Some(v) => v,
        None => { return Err(DecodeError::TruncatedData); },
    };
    let width = match buf.try_read_u16() {
        Some(v) => v,
        None => { return Err(DecodeError::TruncatedData); },
    };
    let height = match buf.try_read_u16() {
        Some(v) => v,
        None => { return Err(DecodeError::TruncatedData); },
    };
    let ghost rstart = fstart + 8;
    let mut data: Vec<Row> = Vec::new();
    let mut done = false;
    #[verifier::loop_isolation(false)]
    while !done
        invariant
            buf.wf(),
            buf.bytes@ == raw,
            rstart <= buf.pos as int,
            !done ==> (match parse_rows(raw, buf.pos as int) {
                Some(rest) => parse_rows(raw, rstart) == Some(
                    (data@.map_values(|r: Row| r@) + rest.0, rest.1),
                ),
                None => parse_rows(raw, rstart) is None,
            }),
            done ==> parse_rows(raw, rstart) == Some(
                (data@.map_values(|r: Row| r@), buf.pos as int),
            ),
        decreases (if done { 0int } else { raw.len() - buf.pos + 1 }),
    {
        let ghost pos0 = buf.pos as int;
        let header = match buf.try_read_u32() {
            Some(v) => v,
            None => {
                assert(parse_rows(raw, pos0) is None);
                return Err(DecodeError::TruncatedData);
            },
        };
        if header == SENTINEL {
            proof {
                assert(parse_rows(raw, pos0) == Some((Seq::<RowModel>::empty(), pos0 + 4)));
                assert(data@.map_values(|r: Row| r@) + Seq::<RowModel>::empty()
                    =~= data@.map_values(|r: Row| r@));
            }
            done = true;
        } else {
            assert(header & 0xFFF < 0x1000) by (bit_vector);
            let run = (header & 0xFFF) as usize;
            if buf.remaining() < run {
                assert(parse_rows(raw, pos0) is None);
                return Err(DecodeError::TruncatedData);
            }
            let image_data = buf.read(run);
            let ghost old_data = data@;
            data.push(Row { header, image_data });
            proof {
                let rm = RowModel {
                    header,
                    image_data: raw.subrange(pos0 + 4, pos0 + 4 + run_len_of(header) as int),
                };
                assert(data@.map_values(|r: Row| r@) =~= old_data.map_values(|r: Row| r@).push(
                    rm,
                ));
                assert(parse_rows(raw, pos0) == (match parse_rows(raw, buf.pos as int) {
                    None => None::<(Seq<RowModel>, int)>,
                    Some(rest) => Some((seq![rm] + rest.0, rest.1)),
                }));
                if parse_rows(raw, buf.pos as int) is Some {
                    let rest = parse_rows(raw, buf.pos as int).unwrap();
                    assert(old_data.map_values(|r: Row| r@).push(rm) + rest.0
                        =~= old_data.map_values(|r: Row| r@) + (seq![rm] + rest.0));
                }
            }
        }
    }
    Ok(AnimFrame { image_centre_x, image_centre_y, width, height, data })
}

/// Decodes one whole record: the 256-entry palette, the frame count, the
/// offset table, and every frame the table names. Succeeds exactly when the
/// model parser `parse_group` does, and returns the group it describes; any
/// read past the end of the block fails the whole decode with
/// `TruncatedData`, with no partial result.
pub fn decode_group(raw: Vec<u8>) -> (r: Result<AnimGroup, DecodeError>)
    ensures
        (match r {
            Ok(group) => parse_group(raw@) == Some(group@),
            Err(e) => parse_group(raw@) is None && e == DecodeError::TruncatedData,
        }),
{
    let ghost graw = raw@;
    let mut buf = ByteBuffer::new(raw);
    let mut palette: Vec<u16> = Vec::new();
    let mut i: usize = 0;
    #[verifier::loop_isolation(false)]
    while i < 256
        invariant
            buf.wf(),
            buf.bytes@ == graw,
            i <= 256,
            palette@.len() == i as int,
            buf.pos as int == 2 * i,
            forall|j: int| 0 <= j < i ==> palette@[j] == crate::format::le16_at(graw, 2 * j),
        decreases 256 - i,
    {
        let entry = match buf.try_read_u16() {
            Some(v) => v,
            None => { return Err(DecodeError::TruncatedData); },
        };
        palette.push(entry);
        i = i + 1;
    }
    let frame_count = match buf.try_read_u32() {
        Some(v) => v,
        None => { return Err(DecodeError::TruncatedData); },
    };
    assert(palette@ =~= palette_of(graw));
    let mut offsets: Vec<u32> = Vec::new();
    let mut k: usize = 0;
    let count = frame_count as usize;
    #[verifier::loop_isolation(false)]
    while k < count
        invariant
            buf.wf(),
            buf.bytes@ == graw,
            k <= count,
            offsets@.len() == k as int,
            buf.pos as int == PALETTE_BYTES + 4 + 4 * k,
            forall|j: int|
                0 <= j < k ==> offsets@[j] == crate::format::le32_at(
                    graw,
                    PALETTE_BYTES + 4 + 4 * j,
                ),
        decreases count - k,
    {
        let off = match buf.try_read_u32() {
            Some(v) => v,
            None => { return Err(DecodeError::TruncatedData); },
        };
        offsets.push(off);
        k = k + 1;
    }
    let ghost oseq = offsets_of(graw, frame_count);
    assert(offsets@ =~= oseq);
    let mut frames: Vec<AnimFrame> = Vec::new();
    let mut idx: usize = 0;
    #[verifier::loop_isolation(false)]
    while idx < count
        invariant
            buf.wf(),
            buf.bytes@ == graw,
            idx <= count,
            frames@.len() == idx as int,
            (match parse_frames_from(graw, oseq, idx as int) {
                Some(rest) => parse_frames_from(graw, oseq, 0) == Some(
                    frames@.map_values(|f: AnimFrame| f@) + rest,
                ),
                None => parse_frames_from(graw, oseq, 0) is None,
            }),
        decreases count - idx,
    {
        let off = offsets[idx];
        let target: u64 = PALETTE_BYTES as u64 + off as u64;
        if target > buf.bytes.len() as u64 {
            assert(parse_frame(graw, PALETTE_BYTES + oseq[idx as int] as int) is None);
            return Err(DecodeError::TruncatedData);
        }
        buf.seek(target as usize);
        let frame = match read_frame(&mut buf) {
            Ok(f) => f,
            Err(_) => { return Err(DecodeError::TruncatedData); },
        };
        let ghost old_frames = frames@;
        frames.push(frame);
        proof {
            let fm = parse_frame(graw, PALETTE_BYTES + oseq[idx as int] as int).unwrap();
            assert(frames@.map_values(|f: AnimFrame| f@) =~= old_frames.map_values(
                |f: AnimFrame| f@,
            ).push(fm));
            if parse_frames_from(graw, oseq, idx + 1) is Some {
                let rest = parse_frames_from(graw, oseq, idx + 1).unwrap();
                assert(old_frames.map_values(|f: AnimFrame| f@).push(fm) + rest
                    =~= old_frames.map_values(|f: AnimFrame| f@) + (seq![fm] + rest));
            }
        }
        idx = idx + 1;
    }
    proof {
        assert(frames@.map_values(|f: AnimFrame| f@) + Seq::<FrameModel>::empty()
            =~= frames@.map_values(|f: AnimFrame| f@));
    }
    Ok(AnimGroup { palette, frame_count, frames })
}

} // verus!
