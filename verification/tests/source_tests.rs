use goldsrc_rs::error::DecodeError;
use goldsrc_rs::source::Source;

#[test]
fn scalar_reads_are_little_endian() {
    let b = [0x01u8, 0x02, 0x03, 0x04, 0xFF, 0xFF, 0xFE, 0xFF, 0xFF, 0xFF];
    let mut s = Source::new(&b);
    assert_eq!(s.read_u16(), Ok(0x0201));
    assert_eq!(s.read_u8(), Ok(0x03));
    assert_eq!(s.read_u8(), Ok(0x04));
    assert_eq!(s.read_i16(), Ok(-1));
    assert_eq!(s.read_i32(), Ok(-2));
}

#[test]
fn read_u32_assembles_four_bytes() {
    let b = [0x78u8, 0x56, 0x34, 0x12];
    let mut s = Source::new(&b);
    assert_eq!(s.read_u32(), Ok(0x12345678));
}

#[test]
fn reads_fail_past_the_end_and_keep_the_cursor() {
    let b = [1u8, 2, 3];
    let mut s = Source::new(&b);
    assert_eq!(s.read_u32(), Err(DecodeError::UnexpectedEnd));
    // the failed read did not consume anything
    assert_eq!(s.read_u16(), Ok(0x0201));
    assert_eq!(s.remaining(), 1);
}

#[test]
fn seek_and_take_cover_ranges() {
    let b = [9u8, 8, 7, 6, 5];
    let mut s = Source::new(&b);
    assert_eq!(s.seek(2), Ok(()));
    assert_eq!(s.take(2), Ok(vec![7, 6]));
    assert_eq!(s.take(2), Err(DecodeError::UnexpectedEnd));
    assert_eq!(s.take(1), Ok(vec![5]));
    assert_eq!(s.seek(9), Err(DecodeError::UnexpectedEnd));
}
