//! A seekable cursor over an owned byte block.
//!
//! `ByteBuffer` is the single linear read position the decoders work from.
//! `read` and `seek` demand in-bounds arguments; the `try_read_*` methods
//! check the bounds themselves and return `None` where a read would run past
//! the end of the block.

use vstd::prelude::*;
use vstd::slice::{slice_subrange, slice_to_vec};
use crate::format::{i16_of_u16, le16_at, le32_at};

verus! {

/// An owned byte block with one read/seek position.
pub struct ByteBuffer {
    pub bytes: Vec<u8>,
    pub pos: usize,
}

impl ByteBuffer {
    /// The position never lies past the end of the block.
    pub open spec fn wf(&self) -> bool {
        self.pos <= self.bytes@.len()
    }

    /// A fresh cursor positioned at the start of `bytes`.
    pub fn new(bytes: Vec<u8>) -> (r: ByteBuffer)
        ensures
            r.wf(),
            r.bytes@ == bytes@,
            r.pos == 0,
    {
        ByteBuffer { bytes, pos: 0 }
    }

    /// Whether the position has reached the end of the block.
    pub fn eof(&self) -> (r: bool)
        ensures
            r == (self.pos == self.bytes@.len()),
    {
        self.pos == self.bytes.len()
    }

    /// Reads exactly `number` bytes, advancing the position past them.
    pub fn read(&mut self, number: usize) -> (r: Vec<u8>)
        requires
            old(self).wf(),
            old(self).pos + number <= old(self).bytes@.len(),
        ensures
            final(self).wf(),
            final(self).bytes@ == old(self).bytes@,
            final(self).pos == old(self).pos + number,
            r@ == old(self).bytes@.subrange(
                old(self).pos as int,
                old(self).pos + number as int,
            ),
    {
        let len = self.bytes.len();
        let s = slice_subrange(self.bytes.as_slice(), self.pos, self.pos + number);
        let r = slice_to_vec(s);
        self.pos = self.pos + number;
        r
    }

    /// Moves the position to `pos`, which may be anywhere in the block, its
    /// end included.
    pub fn seek(&mut self, pos: usize)
        requires
            old(self).wf(),
            pos <= old(self).bytes@.len(),
        ensures
            final(self).wf(),
            final(self).bytes@ == old(self).bytes@,
            final(self).pos == pos,
    {
        self.pos = pos;
    }

    /// How many bytes remain between the position and the end of the block.
    pub fn remaining(&self) -> (r: usize)
        requires
            self.wf(),
        ensures
            r == self.bytes@.len() - self.pos,
    {
        self.bytes.len() - self.pos
    }

    /// Reads one byte, or `None` at the end of the block.
    pub fn try_read_u8(&mut self) -> (r: Option<u8>)
        requires
            old(self).wf(),
        ensures
            final(self).wf(),
            final(self).bytes@ == old(self).bytes@,
            (if old(self).pos + 1 <= old(self).bytes@.len() {
                r == Some(old(self).bytes@[old(self).pos as int])
                    && final(self).pos == old(self).pos + 1
            } else {
                r is None && final(self).pos == old(self).pos
            }),
    {
        if self.bytes.len() - self.pos >= 1 {
            let b = self.bytes[self.pos];
            self.pos = self.pos + 1;
            Some(b)
        } else {
            None
        }
    }

    /// Reads a little-endian unsigned 16-bit value, or `None` if fewer than
    /// two bytes remain.
    pub fn try_read_u16(&mut self) -> (r: Option<u16>)
        requires
            old(self).wf(),
        ensures
            final(self).wf(),
            final(self).bytes@ == old(self).bytes@,
            (if old(self).pos + 2 <= old(self).bytes@.len() {
                r == Some(le16_at(old(self).bytes@, old(self).pos as int))
                    && final(self).pos == old(self).pos + 2
            } else {
                r is None && final(self).pos == old(self).pos
            }),
    {
        if self.bytes.len() - self.pos >= 2 {
            let b0 = self.bytes[self.pos];
            let b1 = self.bytes[self.pos + 1];
            self.pos = self.pos + 2;
            Some(b0 as u16 + b1 as u16 * 0x100)
        } else {
            None
        }
    }

    /// Reads a little-endian signed 16-bit value, or `None` if fewer than
    /// two bytes remain.
    pub fn try_read_i16(&mut self) -> (r: Option<i16>)
        requires
            old(self).wf(),
        ensures
            final(self).wf(),
            final(self).bytes@ == old(self).bytes@,
            (if old(self).pos + 2 <= old(self).bytes@.len() {
                r == Some(i16_of_u16(le16_at(old(self).bytes@, old(self).pos as int)))
                    && final(self).pos == old(self).pos + 2
            } else {
                r is None && final(self).pos == old(self).pos
            }),
    {
        match self.try_read_u16() {
            None => None,
            Some(u) => Some(i16_reinterpret(u)),
        }
    }

    /// Reads a little-endian unsigned 32-bit value, or `None` if fewer than
    /// four bytes remain.
    pub fn try_read_u32(&mut self) -> (r: Option<u32>)
        requires
            old(self).wf(),
        ensures
            final(self).wf(),
            final(self).bytes@ == old(self).bytes@,
            (if old(self).pos + 4 <= old(self).bytes@.len() {
                r == Some(le32_at(old(self).bytes@, old(self).pos as int))
                    && final(self).pos == old(self).pos + 4
            } else {
                r is None && final(self).pos == old(self).pos
            }),
    {
        if self.bytes.len() - self.pos >= 4 {
            let b0 = self.bytes[self.pos];
            let b1 = self.bytes[self.pos + 1];
            let b2 = self.bytes[self.pos + 2];
            let b3 = self.bytes[self.pos + 3];
            self.pos = self.pos + 4;
            Some(b0 as u32 + b1 as u32 * 0x100 + b2 as u32 * 0x10000 + b3 as u32 * 0x1000000)
        } else {
            None
        }
    }
}

/// The signed 16-bit value with the same bit pattern as `u`.
pub fn i16_reinterpret(u: u16) -> (r: i16)
    ensures
        r == i16_of_u16(u),
{
    if u < 0x8000 {
        u as i16
    } else {
        ((u - 0x8000) as i16) - 0x7FFF - 1
    }
}

} // verus!
