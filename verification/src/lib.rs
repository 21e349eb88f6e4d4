//! Decoder for a legacy sprite-animation archive record format.
//!
//! A record is a little-endian byte block holding a 256-entry 16-bit color
//! palette, a frame count, a table of frame offsets, and, at each offset, a
//! frame: a header (centre point, width, height) followed by run-length
//! encoded pixel rows terminated by a sentinel word.

pub mod anim;
pub mod buffer;
pub mod format;
pub mod laws;
