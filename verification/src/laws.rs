//! Laws of the record format, proved of the model in `format`.

use vstd::prelude::*;
use crate::format::{
    le16_at, le32_at, offsets_of, palette_of, parse_frame, parse_frames_from, parse_group,
    parse_rows, run_len_of, FrameModel, GroupModel, RowModel, PALETTE_BYTES, SENTINEL,
};

verus! {

/// A stored row is well formed: its pixel run is exactly as long as the low
/// 12 bits of its header say, and its header is never the sentinel word.
pub open spec fn row_wf(row: RowModel) -> bool {
    row.image_data.len() == run_len_of(row.header) as nat && row.header != SENTINEL
}

/// Every row of a frame is well formed.
pub open spec fn frame_rows_wf(frame: FrameModel) -> bool {
    forall|i: int| 0 <= i < frame.data.len() ==> row_wf(#[trigger] frame.data[i])
}

/// Reading rows at a sentinel word stops at once: no row is stored, and the
/// position ends just past the sentinel.
pub proof fn lemma_sentinel_terminates(raw: Seq<u8>, pos: int)
    requires
        0 <= pos,
        pos + 4 <= raw.len(),
        le32_at(raw, pos) == SENTINEL,
    ensures
        parse_rows(raw, pos) == Some((Seq::<RowModel>::empty(), pos + 4)),
{
}

/// Every row a successful row parse yields is well formed.
pub proof fn lemma_rows_wf(raw: Seq<u8>, pos: int)
    requires
        0 <= pos,
        parse_rows(raw, pos) is Some,
    ensures
        (forall|i: int|
            0 <= i < parse_rows(raw, pos).unwrap().0.len() ==> row_wf(
                #[trigger] parse_rows(raw, pos).unwrap().0[i],
            )),
    decreases raw.len() - pos,
{
    let header = le32_at(raw, pos);
    if header != SENTINEL {
        let run = run_len_of(header) as int;
        lemma_rows_wf(raw, pos + 4 + run);
        let first = RowModel { header, image_data: raw.subrange(pos + 4, pos + 4 + run) };
        let rest = parse_rows(raw, pos + 4 + run).unwrap();
        let rows = parse_rows(raw, pos).unwrap().0;
        assert(rows == seq![first] + rest.0);
        assert(row_wf(first));
        assert(forall|i: int| 1 <= i < rows.len() ==> #[trigger] rows[i] == rest.0[i - 1]);
    }
}

/// Every row of every frame a successful frame parse yields is well formed.
pub proof fn lemma_frame_rows_wf(raw: Seq<u8>, pos: int)
    requires
        0 <= pos,
        parse_frame(raw, pos) is Some,
    ensures
        frame_rows_wf(parse_frame(raw, pos).unwrap()),
{
    lemma_rows_wf(raw, pos + 8);
}

/// A successful parse of frames `i..` yields one frame per table entry, and
/// every row of every one of them is well formed.
pub proof fn lemma_frames_from_wf(raw: Seq<u8>, offsets: Seq<u32>, i: int)
    requires
        0 <= i <= offsets.len(),
        parse_frames_from(raw, offsets, i) is Some,
    ensures
        parse_frames_from(raw, offsets, i).unwrap().len() == offsets.len() - i,
        (forall|j: int|
            0 <= j < parse_frames_from(raw, offsets, i).unwrap().len() ==> frame_rows_wf(
                #[trigger] parse_frames_from(raw, offsets, i).unwrap()[j],
            )),
    decreases offsets.len() - i,
{
    if i < offsets.len() {
        lemma_frame_rows_wf(raw, PALETTE_BYTES + offsets[i] as int);
        lemma_frames_from_wf(raw, offsets, i + 1);
    }
}

/// Shape of every successful decode: the palette holds exactly 256 entries,
/// and the frame sequence is as long as the offset table — which itself
/// holds exactly `frame_count` entries.
pub proof fn lemma_group_shape(raw: Seq<u8>)
    requires
        parse_group(raw) is Some,
    ensures
        parse_group(raw).unwrap().palette.len() == 256,
        parse_group(raw).unwrap().frames.len() == offsets_of(
            raw,
            parse_group(raw).unwrap().frame_count,
        ).len(),
        offsets_of(raw, parse_group(raw).unwrap().frame_count).len() == parse_group(
            raw,
        ).unwrap().frame_count as int,
{
    let frame_count = le32_at(raw, PALETTE_BYTES as int);
    lemma_frames_from_wf(raw, offsets_of(raw, frame_count), 0);
}

/// Every row of every frame of every successful decode is well formed: its
/// pixel run is exactly `header & 0xFFF` bytes long, and the sentinel word
/// is never stored as a row header.
pub proof fn lemma_group_rows_wf(raw: Seq<u8>)
    requires
        parse_group(raw) is Some,
    ensures
        (forall|i: int|
            0 <= i < parse_group(raw).unwrap().frames.len() ==> frame_rows_wf(
                #[trigger] parse_group(raw).unwrap().frames[i],
            )),
{
    let frame_count = le32_at(raw, PALETTE_BYTES as int);
    lemma_frames_from_wf(raw, offsets_of(raw, frame_count), 0);
}

/// A 16-bit read below a cut at `n` sees the same bytes in the whole block
/// and in its prefix.
pub proof fn lemma_le16_prefix(raw: Seq<u8>, n: int, pos: int)
    requires
        0 <= pos,
        pos + 2 <= n <= raw.len(),
    ensures
        le16_at(raw.take(n), pos) == le16_at(raw, pos),
{
    assert(raw.take(n)[pos] == raw[pos]);
    assert(raw.take(n)[pos + 1] == raw[pos + 1]);
}

/// A 32-bit read below a cut at `n` sees the same bytes in the whole block
/// and in its prefix.
pub proof fn lemma_le32_prefix(raw: Seq<u8>, n: int, pos: int)
    requires
        0 <= pos,
        pos + 4 <= n <= raw.len(),
    ensures
        le32_at(raw.take(n), pos) == le32_at(raw, pos),
{
    assert(raw.take(n)[pos] == raw[pos]);
    assert(raw.take(n)[pos + 1] == raw[pos + 1]);
    assert(raw.take(n)[pos + 2] == raw[pos + 2]);
    assert(raw.take(n)[pos + 3] == raw[pos + 3]);
}

/// Rows parsed from a prefix of the block also parse, identically, from the
/// whole block: cutting the block never changes a row parse that still
/// succeeds.
pub proof fn lemma_rows_prefix(raw: Seq<u8>, n: int, pos: int)
    requires
        0 <= pos,
        0 <= n <= raw.len(),
        parse_rows(raw.take(n), pos) is Some,
    ensures
        parse_rows(raw, pos) == parse_rows(raw.take(n), pos),
    decreases n - pos,
{
    let t = raw.take(n);
    lemma_le32_prefix(raw, n, pos);
    let header = le32_at(t, pos);
    if header != SENTINEL {
        let run = run_len_of(header) as int;
        assert(t.subrange(pos + 4, pos + 4 + run) =~= raw.subrange(pos + 4, pos + 4 + run));
        lemma_rows_prefix(raw, n, pos + 4 + run);
    }
}

/// A frame parsed from a prefix of the block also parses, identically, from
/// the whole block.
pub proof fn lemma_frame_prefix(raw: Seq<u8>, n: int, pos: int)
    requires
        0 <= pos,
        0 <= n <= raw.len(),
        parse_frame(raw.take(n), pos) is Some,
    ensures
        parse_frame(raw, pos) == parse_frame(raw.take(n), pos),
{
    lemma_le16_prefix(raw, n, pos);
    lemma_le16_prefix(raw, n, pos + 2);
    lemma_le16_prefix(raw, n, pos + 4);
    lemma_le16_prefix(raw, n, pos + 6);
    lemma_rows_prefix(raw, n, pos + 8);
}

/// Frames parsed from a prefix of the block also parse, identically, from
/// the whole block.
pub proof fn lemma_frames_from_prefix(raw: Seq<u8>, n: int, offsets: Seq<u32>, i: int)
    requires
        0 <= i <= offsets.len(),
        0 <= n <= raw.len(),
        parse_frames_from(raw.take(n), offsets, i) is Some,
    ensures
        parse_frames_from(raw, offsets, i) == parse_frames_from(raw.take(n), offsets, i),
    decreases offsets.len() - i,
{
    if i < offsets.len() {
        lemma_frame_prefix(raw, n, PALETTE_BYTES + offsets[i] as int);
        lemma_frames_from_prefix(raw, n, offsets, i + 1);
    }
}

/// The position just past the sentinel of the frame at `pos`: the last byte
/// the frame's decode requires.
pub open spec fn frame_end(raw: Seq<u8>, pos: int) -> int
    recommends
        parse_rows(raw, pos + 8) is Some,
{
    parse_rows(raw, pos + 8).unwrap().1
}

/// The furthest position any of the frames named by `offsets[i..]` requires.
pub open spec fn frames_hwm(raw: Seq<u8>, offsets: Seq<u32>, i: int) -> int
    decreases offsets.len() - i,
{
    if i >= offsets.len() {
        0
    } else {
        let end = frame_end(raw, PALETTE_BYTES + offsets[i] as int);
        let rest = frames_hwm(raw, offsets, i + 1);
        if end >= rest {
            end
        } else {
            rest
        }
    }
}

/// The furthest position a record's decode requires: the end of the offset
/// table, or of the furthest-reaching frame, whichever is greater.
pub open spec fn group_hwm(raw: Seq<u8>) -> int
    recommends
        parse_group(raw) is Some,
{
    let frame_count = le32_at(raw, PALETTE_BYTES as int);
    let table_end = PALETTE_BYTES + 4 + 4 * (frame_count as int);
    let fhwm = frames_hwm(raw, offsets_of(raw, frame_count), 0);
    if table_end >= fhwm {
        table_end
    } else {
        fhwm
    }
}

/// A successful row parse ends past its first header word and within the
/// block.
pub proof fn lemma_rows_end_bound(raw: Seq<u8>, pos: int)
    requires
        0 <= pos,
        parse_rows(raw, pos) is Some,
    ensures
        pos + 4 <= parse_rows(raw, pos).unwrap().1 <= raw.len(),
    decreases raw.len() - pos,
{
    let header = le32_at(raw, pos);
    if header != SENTINEL {
        lemma_rows_end_bound(raw, pos + 4 + run_len_of(header) as int);
    }
}

/// A successful row parse survives cutting the block anywhere at or past its
/// end position, with the same result.
pub proof fn lemma_rows_extend(raw: Seq<u8>, n: int, pos: int)
    requires
        0 <= pos,
        parse_rows(raw, pos) is Some,
        parse_rows(raw, pos).unwrap().1 <= n <= raw.len(),
    ensures
        parse_rows(raw.take(n), pos) == parse_rows(raw, pos),
    decreases raw.len() - pos,
{
    let t = raw.take(n);
    lemma_rows_end_bound(raw, pos);
    lemma_le32_prefix(raw, n, pos);
    let header = le32_at(raw, pos);
    if header != SENTINEL {
        let run = run_len_of(header) as int;
        lemma_rows_end_bound(raw, pos + 4 + run);
        assert(t.subrange(pos + 4, pos + 4 + run) =~= raw.subrange(pos + 4, pos + 4 + run));
        lemma_rows_extend(raw, n, pos + 4 + run);
    }
}

/// A successful frame parse survives cutting the block anywhere at or past
/// the frame's end position, with the same result.
pub proof fn lemma_frame_extend(raw: Seq<u8>, n: int, pos: int)
    requires
        0 <= pos,
        parse_frame(raw, pos) is Some,
        frame_end(raw, pos) <= n <= raw.len(),
    ensures
        parse_frame(raw.take(n), pos) == parse_frame(raw, pos),
{
    lemma_rows_end_bound(raw, pos + 8);
    lemma_le16_prefix(raw, n, pos);
    lemma_le16_prefix(raw, n, pos + 2);
    lemma_le16_prefix(raw, n, pos + 4);
    lemma_le16_prefix(raw, n, pos + 6);
    lemma_rows_extend(raw, n, pos + 8);
}

/// The high-water mark of a successfully parsed frame table lies within the
/// block.
pub proof fn lemma_frames_hwm_bound(raw: Seq<u8>, offsets: Seq<u32>, i: int)
    requires
        0 <= i <= offsets.len(),
        parse_frames_from(raw, offsets, i) is Some,
    ensures
        frames_hwm(raw, offsets, i) <= raw.len(),
    decreases offsets.len() - i,
{
    if i < offsets.len() {
        lemma_rows_end_bound(raw, PALETTE_BYTES + offsets[i] as int + 8);
        lemma_frames_hwm_bound(raw, offsets, i + 1);
    }
}

/// A successful frame-table parse survives cutting the block anywhere at or
/// past its high-water mark, with the same result.
pub proof fn lemma_frames_extend(raw: Seq<u8>, n: int, offsets: Seq<u32>, i: int)
    requires
        0 <= i <= offsets.len(),
        parse_frames_from(raw, offsets, i) is Some,
        frames_hwm(raw, offsets, i) <= n <= raw.len(),
    ensures
        parse_frames_from(raw.take(n), offsets, i) == parse_frames_from(raw, offsets, i),
    decreases offsets.len() - i,
{
    if i < offsets.len() {
        lemma_frame_extend(raw, n, PALETTE_BYTES + offsets[i] as int);
        lemma_frames_extend(raw, n, offsets, i + 1);
    }
}

/// A frame table parsed from a prefix of the block has the same high-water
/// mark as in the whole block.
pub proof fn lemma_frames_hwm_prefix_eq(raw: Seq<u8>, n: int, offsets: Seq<u32>, i: int)
    requires
        0 <= i <= offsets.len(),
        0 <= n <= raw.len(),
        parse_frames_from(raw.take(n), offsets, i) is Some,
    ensures
        frames_hwm(raw.take(n), offsets, i) == frames_hwm(raw, offsets, i),
    decreases offsets.len() - i,
{
    if i < offsets.len() {
        lemma_rows_prefix(raw, n, PALETTE_BYTES + offsets[i] as int + 8);
        lemma_frames_hwm_prefix_eq(raw, n, offsets, i + 1);
    }
}

/// The exact truncation boundary of a well-formed record: cut at or past the
/// record's high-water mark, the cut block decodes to the very same group;
/// cut anywhere strictly before it — before some structurally required read
/// completes — the parse fails, and the decoder reports `TruncatedData`.
pub proof fn lemma_truncation_boundary(raw: Seq<u8>, n: int)
    requires
        0 <= n <= raw.len(),
        parse_group(raw) is Some,
    ensures
        n >= group_hwm(raw) ==> parse_group(raw.take(n)) == parse_group(raw),
        n < group_hwm(raw) ==> parse_group(raw.take(n)) is None,
{
    let t = raw.take(n);
    let frame_count = le32_at(raw, PALETTE_BYTES as int);
    let offs = offsets_of(raw, frame_count);
    if n >= group_hwm(raw) {
        lemma_le32_prefix(raw, n, PALETTE_BYTES as int);
        assert forall|i: int| 0 <= i < 256 implies palette_of(t)[i] == palette_of(raw)[i] by {
            lemma_le16_prefix(raw, n, 2 * i);
        }
        assert(palette_of(t) =~= palette_of(raw));
        assert forall|i: int| 0 <= i < frame_count as int implies offsets_of(t, frame_count)[i]
            == offsets_of(raw, frame_count)[i] by {
            lemma_le32_prefix(raw, n, PALETTE_BYTES + 4 + 4 * i);
        }
        assert(offsets_of(t, frame_count) =~= offs);
        lemma_frames_extend(raw, n, offs, 0);
    }
    if n < group_hwm(raw) && parse_group(t) is Some {
        lemma_le32_prefix(raw, n, PALETTE_BYTES as int);
        assert forall|i: int| 0 <= i < frame_count as int implies offsets_of(t, frame_count)[i]
            == offsets_of(raw, frame_count)[i] by {
            lemma_le32_prefix(raw, n, PALETTE_BYTES + 4 + 4 * i);
        }
        assert(offsets_of(t, frame_count) =~= offs);
        lemma_frames_hwm_bound(t, offs, 0);
        lemma_frames_hwm_prefix_eq(raw, n, offs, 0);
        assert(false);
    }
}

/// Truncation yields no partial result: cutting a well-formed record's byte
/// block either leaves too little for some structurally required read — the
/// parse fails — or leaves every required byte in place, and the parse
/// returns the very same group. A cut block never decodes to different
/// contents.
pub proof fn lemma_truncation_no_partial(raw: Seq<u8>, n: int)
    requires
        0 <= n <= raw.len(),
        parse_group(raw) is Some,
    ensures
        parse_group(raw.take(n)) is Some ==> parse_group(raw.take(n)) == parse_group(raw),
{
    let t = raw.take(n);
    if parse_group(t) is Some {
        let frame_count = le32_at(t, PALETTE_BYTES as int);
        lemma_le32_prefix(raw, n, PALETTE_BYTES as int);
        assert forall|i: int| 0 <= i < 256 implies palette_of(t)[i] == palette_of(raw)[i] by {
            lemma_le16_prefix(raw, n, 2 * i);
        }
        assert(palette_of(t) =~= palette_of(raw));
        assert forall|i: int| 0 <= i < frame_count as int implies offsets_of(t, frame_count)[i]
            == offsets_of(raw, frame_count)[i] by {
            lemma_le32_prefix(raw, n, PALETTE_BYTES + 4 + 4 * i);
        }
        assert(offsets_of(t, frame_count) =~= offsets_of(raw, frame_count));
        lemma_frames_from_prefix(raw, n, offsets_of(raw, frame_count), 0);
    }
}

/// A record whose offset table is empty decodes cleanly: the group carries
/// the palette, a frame count of zero, and no frames.
pub proof fn lemma_empty_offset_table(raw: Seq<u8>)
    requires
        raw.len() >= PALETTE_BYTES + 4,
        le32_at(raw, PALETTE_BYTES as int) == 0,
    ensures
        parse_group(raw) == Some(
            (GroupModel { palette: palette_of(raw), frame_count: 0, frames: Seq::empty() }),
        ),
{
    assert(offsets_of(raw, 0).len() == 0);
}

} // verus!
