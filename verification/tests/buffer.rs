use anim_mul::buffer::ByteBuffer;

#[test]
fn new_buffer_starts_at_zero() {
    let buf = ByteBuffer::new(vec![1, 2, 3]);
    assert_eq!(buf.pos, 0);
    assert_eq!(buf.bytes, vec![1, 2, 3]);
    assert!(!buf.eof());
}

#[test]
fn read_advances_and_returns_the_slice() {
    let mut buf = ByteBuffer::new(vec![10, 20, 30, 40, 50]);
    let first = buf.read(2);
    assert_eq!(first, vec![10, 20]);
    assert_eq!(buf.pos, 2);
    let second = buf.read(3);
    assert_eq!(second, vec![30, 40, 50]);
    assert!(buf.eof());
}

#[test]
fn seek_moves_the_position() {
    let mut buf = ByteBuffer::new(vec![10, 20, 30, 40]);
    buf.seek(3);
    assert_eq!(buf.pos, 3);
    assert_eq!(buf.read(1), vec![40]);
    buf.seek(0);
    assert_eq!(buf.read(1), vec![10]);
    buf.seek(4);
    assert!(buf.eof());
}

#[test]
fn empty_buffer_is_at_eof() {
    let buf = ByteBuffer::new(Vec::new());
    assert!(buf.eof());
}

#[test]
fn try_read_u8_returns_each_byte_then_none() {
    let mut buf = ByteBuffer::new(vec![7, 8]);
    assert_eq!(buf.try_read_u8(), Some(7));
    assert_eq!(buf.try_read_u8(), Some(8));
    assert_eq!(buf.try_read_u8(), None);
}

#[test]
fn try_read_u16_is_little_endian() {
    let mut buf = ByteBuffer::new(vec![0x34, 0x12, 0xFF]);
    assert_eq!(buf.try_read_u16(), Some(0x1234));
    assert_eq!(buf.try_read_u16(), None);
    assert_eq!(buf.pos, 2);
}

#[test]
fn try_read_i16_reinterprets_high_values() {
    let mut buf = ByteBuffer::new(vec![0xFF, 0xFF, 0x00, 0x80, 0xFF, 0x7F]);
    assert_eq!(buf.try_read_i16(), Some(-1));
    assert_eq!(buf.try_read_i16(), Some(-32768));
    assert_eq!(buf.try_read_i16(), Some(32767));
    assert_eq!(buf.try_read_i16(), None);
}

#[test]
fn try_read_u32_is_little_endian() {
    let mut buf = ByteBuffer::new(vec![0x78, 0x56, 0x34, 0x12, 0xFF, 0xFF, 0x7F, 0x7F]);
    assert_eq!(buf.try_read_u32(), Some(0x12345678));
    assert_eq!(buf.try_read_u32(), Some(0x7F7FFFFF));
    assert_eq!(buf.try_read_u32(), None);
}
