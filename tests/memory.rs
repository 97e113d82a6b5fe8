use avm2_domain::{ByteArray, Error};

#[test]
fn write_at_last_byte_succeeds_and_past_end_fails() {
    let mut m = ByteArray::with_length(1024);
    assert!(m.write_u8(1023, 7).is_ok());
    assert_eq!(m.read_u8(1023).unwrap(), 7);
    assert!(matches!(m.write_u8(1024, 7), Err(Error::Range)));
    assert!(matches!(m.read_u8(1024), Err(Error::Range)));
    assert!(matches!(m.write_u32(1021, 1), Err(Error::Range)));
    assert!(m.write_u32(1020, 1).is_ok());
    assert!(matches!(m.read_u16(1023), Err(Error::Range)));
}

#[test]
fn growing_keeps_contents() {
    let mut m = ByteArray::with_length(1024);
    for i in 0..1024usize {
        m.write_u8(i, (i % 251) as u8).unwrap();
    }
    m.set_length(2048);
    assert_eq!(m.len(), 2048);
    for i in 0..1024usize {
        assert_eq!(m.read_u8(i).unwrap(), (i % 251) as u8);
    }
    for i in 1024..2048usize {
        assert_eq!(m.read_u8(i).unwrap(), 0);
    }
    assert!(m.write_u8(2047, 1).is_ok());
}

#[test]
fn shrinking_discards_tail() {
    let mut m = ByteArray::with_length(8);
    m.write_u8(6, 5).unwrap();
    m.set_length(4);
    assert_eq!(m.len(), 4);
    assert!(matches!(m.read_u8(6), Err(Error::Range)));
    m.set_length(8);
    assert_eq!(m.read_u8(6).unwrap(), 0);
    let empty = ByteArray::new();
    assert_eq!(empty.len(), 0);
    assert!(matches!(empty.read_u8(0), Err(Error::Range)));
}

#[test]
fn little_endian_words() {
    let mut m = ByteArray::with_length(8);
    m.write_u32(0, 0x1234_5678).unwrap();
    assert_eq!(m.read_u8(0).unwrap(), 0x78);
    assert_eq!(m.read_u8(1).unwrap(), 0x56);
    assert_eq!(m.read_u8(2).unwrap(), 0x34);
    assert_eq!(m.read_u8(3).unwrap(), 0x12);
    assert_eq!(m.read_u32(0).unwrap(), 0x1234_5678);
    assert_eq!(m.read_u16(1).unwrap(), 0x3456);
    m.write_u16(6, 0xBEEF).unwrap();
    assert_eq!(m.read_u8(6).unwrap(), 0xEF);
    assert_eq!(m.read_u8(7).unwrap(), 0xBE);
    assert_eq!(m.read_u32(4).unwrap(), 0xBEEF_0000);
}
