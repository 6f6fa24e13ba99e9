use flatbuf::Endian;

#[test]
fn u32_write_is_little_endian() {
    let mut buf = vec![0u8; 6];
    0x1234_5678u32.write_le(&mut buf, 1);
    assert_eq!(buf, vec![0, 0x78, 0x56, 0x34, 0x12, 0]);
    assert_eq!(u32::read_le(&buf, 1), 0x1234_5678);
}

#[test]
fn round_trip_each_width() {
    let mut buf = vec![0u8; 16];
    0xABu8.write_le(&mut buf, 0);
    assert_eq!(u8::read_le(&buf, 0), 0xAB);
    (-5i8).write_le(&mut buf, 0);
    assert_eq!(i8::read_le(&buf, 0), -5);
    0xBEEFu16.write_le(&mut buf, 3);
    assert_eq!(&buf[3..5], &0xBEEFu16.to_le_bytes());
    assert_eq!(u16::read_le(&buf, 3), 0xBEEF);
    (-1234i16).write_le(&mut buf, 3);
    assert_eq!(i16::read_le(&buf, 3), -1234);
    (-70000i32).write_le(&mut buf, 2);
    assert_eq!(&buf[2..6], &(-70000i32).to_le_bytes());
    assert_eq!(i32::read_le(&buf, 2), -70000);
    0x0102_0304_0506_0708u64.write_le(&mut buf, 8);
    assert_eq!(&buf[8..16], &[8, 7, 6, 5, 4, 3, 2, 1]);
    assert_eq!(u64::read_le(&buf, 8), 0x0102_0304_0506_0708);
    i64::MIN.write_le(&mut buf, 8);
    assert_eq!(i64::read_le(&buf, 8), i64::MIN);
}

#[test]
fn write_leaves_other_bytes() {
    let mut buf = vec![9u8; 8];
    7u16.write_le(&mut buf, 2);
    assert_eq!(buf, vec![9, 9, 7, 0, 9, 9, 9, 9]);
}
