use libzmx::{
    best_effort_decode, decode_with_fallback, ByteCursor, CentralDirectoryHeader, Error, IoError,
    SeekFrom, ZipCentralDirectoryEntry,
};

fn entry(creator_version: u16, external_attributes: u32) -> ZipCentralDirectoryEntry {
    ZipCentralDirectoryEntry {
        entry: CentralDirectoryHeader {
            creator_version,
            external_attributes,
            ..CentralDirectoryHeader::default()
        },
        disk: 0,
        offset: 0,
    }
}

#[test]
fn is_executable_needs_all_four_conditions() {
    assert!(entry(0x0314, 0o100755 << 16).is_executable());
    assert!(entry(0x0300, 0o100001 << 16).is_executable());
    // a DOS directory bit overrides everything else
    assert!(!entry(0x0314, (0o100755 << 16) | 0x10).is_executable());
    // not made on Unix
    assert!(!entry(0x0014, 0o100755 << 16).is_executable());
    assert!(!entry(0x0B14, 0o100755 << 16).is_executable());
    // not a regular file
    assert!(!entry(0x0314, 0o040755 << 16).is_executable());
    assert!(!entry(0x0314, 0o120777 << 16).is_executable());
    // nobody may execute
    assert!(!entry(0x0314, 0o100666 << 16).is_executable());
}

#[test]
fn reads_both_byte_orders() {
    let bytes: Vec<u8> = (1..=16).collect();
    let mut c = ByteCursor::new(bytes.clone());
    assert_eq!(c.read_u8(), Ok(1));
    assert_eq!(c.read_u16_le(), Ok(0x0302));
    c.seek(SeekFrom::Start(1)).unwrap();
    assert_eq!(c.read_u16_be(), Ok(0x0203));
    c.seek(SeekFrom::Start(0)).unwrap();
    assert_eq!(c.read_u32_le(), Ok(0x04030201));
    c.seek(SeekFrom::Start(0)).unwrap();
    assert_eq!(c.read_u32_be(), Ok(0x01020304));
    c.seek(SeekFrom::Start(0)).unwrap();
    assert_eq!(c.read_u64_le(), Ok(0x0807060504030201));
    c.seek(SeekFrom::Start(0)).unwrap();
    assert_eq!(c.read_u64_be(), Ok(0x0102030405060708));
    c.seek(SeekFrom::Start(0)).unwrap();
    assert_eq!(c.read_u128_le(), Ok(u128::from_le_bytes(bytes.clone().try_into().unwrap())));
    c.seek(SeekFrom::Start(0)).unwrap();
    assert_eq!(c.read_u128_be(), Ok(u128::from_be_bytes(bytes.clone().try_into().unwrap())));
    assert_eq!(c.stream_position(), 16);
    assert_eq!(c.read_u8(), Err(Error::Io(IoError::UnexpectedEof)));
}

#[test]
fn signed_reads_reinterpret_bits() {
    let mut c = ByteCursor::new(vec![0xFF; 16]);
    assert_eq!(c.read_i8(), Ok(-1));
    c.seek(SeekFrom::Start(0)).unwrap();
    assert_eq!(c.read_i16_le(), Ok(-1));
    assert_eq!(c.read_i16_be(), Ok(-1));
    c.seek(SeekFrom::Start(0)).unwrap();
    assert_eq!(c.read_i32_le(), Ok(-1));
    assert_eq!(c.read_i32_be(), Ok(-1));
    c.seek(SeekFrom::Start(0)).unwrap();
    assert_eq!(c.read_i64_le(), Ok(-1));
    assert_eq!(c.read_i64_be(), Ok(-1));
    c.seek(SeekFrom::Start(0)).unwrap();
    assert_eq!(c.read_i128_le(), Ok(-1));
    c.seek(SeekFrom::Start(0)).unwrap();
    assert_eq!(c.read_i128_be(), Ok(-1));
    let mut c = ByteCursor::new(vec![0x00, 0x80]);
    assert_eq!(c.read_i16_le(), Ok(i16::MIN));
}

#[test]
fn short_read_leaves_position() {
    let mut c = ByteCursor::new(vec![1, 2, 3]);
    c.seek(SeekFrom::Start(1)).unwrap();
    assert_eq!(c.read_u32_le(), Err(Error::Io(IoError::UnexpectedEof)));
    assert_eq!(c.stream_position(), 1);
    assert_eq!(c.read_u16_be(), Ok(0x0203));
}

#[test]
fn writes_both_byte_orders() {
    let mut c = ByteCursor::new(Vec::new());
    c.write_u8(0xAA);
    c.write_i8(-2);
    c.write_u16_le(0x0102);
    c.write_u16_be(0x0102);
    c.write_i16_le(-2);
    c.write_i16_be(-2);
    c.write_u32_le(0x01020304);
    c.write_u32_be(0x01020304);
    c.write_i32_le(-2);
    c.write_i32_be(-2);
    assert_eq!(
        c.data,
        vec![
            0xAA, 0xFE, 0x02, 0x01, 0x01, 0x02, 0xFE, 0xFF, 0xFF, 0xFE, 0x04, 0x03, 0x02, 0x01,
            0x01, 0x02, 0x03, 0x04, 0xFE, 0xFF, 0xFF, 0xFF, 0xFF, 0xFF, 0xFF, 0xFE,
        ]
    );
    let mut c = ByteCursor::new(Vec::new());
    c.write_u64_le(0x0102030405060708);
    c.write_u64_be(0x0102030405060708);
    c.write_i64_le(-1);
    c.write_i64_be(i64::MIN);
    c.write_u128_le(1);
    c.write_u128_be(1);
    c.write_i128_le(-1);
    c.write_i128_be(-1);
    let d = &c.data;
    assert_eq!(&d[0..8], &[8, 7, 6, 5, 4, 3, 2, 1]);
    assert_eq!(&d[8..16], &[1, 2, 3, 4, 5, 6, 7, 8]);
    assert_eq!(&d[16..24], &[0xFF; 8]);
    assert_eq!(&d[24..32], &[0x80, 0, 0, 0, 0, 0, 0, 0]);
    assert_eq!(d[32], 1);
    assert_eq!(&d[33..48], &[0; 15]);
    assert_eq!(&d[48..63], &[0; 15]);
    assert_eq!(d[63], 1);
    assert_eq!(&d[64..96], &[0xFF; 32]);
}

#[test]
fn writes_overwrite_and_extend() {
    let mut c = ByteCursor::new(vec![1, 2, 3, 4]);
    c.seek(SeekFrom::Start(2)).unwrap();
    c.write_u32_le(0x0A0B0C0D);
    assert_eq!(c.data, vec![1, 2, 0x0D, 0x0C, 0x0B, 0x0A]);
    c.seek(SeekFrom::Start(8)).unwrap();
    c.write_u8(9);
    assert_eq!(c.data, vec![1, 2, 0x0D, 0x0C, 0x0B, 0x0A, 0, 0, 9]);
    c.seek(SeekFrom::Start(0)).unwrap();
    c.write_all(&[7, 7]);
    assert_eq!(c.stream_position(), 2);
    assert_eq!(c.into_inner(), vec![7, 7, 0x0D, 0x0C, 0x0B, 0x0A, 0, 0, 9]);
}

#[test]
fn write_then_read_round_trips() {
    let mut c = ByteCursor::new(Vec::new());
    c.write_u16_le(0xBEEF);
    c.write_u32_le(0xDEADBEEF);
    c.write_u64_le(0x0123_4567_89AB_CDEF);
    c.write_i32_le(-123456);
    c.write_i64_le(-1);
    c.seek(SeekFrom::Start(0)).unwrap();
    assert_eq!(c.read_u16_le(), Ok(0xBEEF));
    assert_eq!(c.read_u32_le(), Ok(0xDEADBEEF));
    assert_eq!(c.read_u64_le(), Ok(0x0123_4567_89AB_CDEF));
    assert_eq!(c.read_i32_le(), Ok(-123456));
    assert_eq!(c.read_i64_le(), Ok(-1));
}

#[test]
fn seeks_and_rejects_negative_positions() {
    let mut c = ByteCursor::new(vec![0; 10]);
    assert_eq!(c.seek(SeekFrom::End(-4)), Ok(6));
    assert_eq!(c.seek(SeekFrom::Current(-6)), Ok(0));
    assert_eq!(c.seek(SeekFrom::Current(-1)), Err(Error::Io(IoError::InvalidSeek)));
    assert_eq!(c.stream_position(), 0);
    assert_eq!(c.seek(SeekFrom::End(-11)), Err(Error::Io(IoError::InvalidSeek)));
    assert_eq!(c.seek(SeekFrom::Start(100)), Ok(100));
    assert_eq!(c.read_u8(), Err(Error::Io(IoError::UnexpectedEof)));
}

#[test]
fn read_bytes_and_skip() {
    let mut c = ByteCursor::new(vec![1, 2, 3, 4, 5]);
    assert_eq!(c.read_bytes(2), Ok(vec![1, 2]));
    assert_eq!(c.skip(2), Ok(()));
    assert_eq!(c.read_bytes(2), Err(Error::Io(IoError::UnexpectedEof)));
    assert_eq!(c.skip(2), Err(Error::Io(IoError::UnexpectedEof)));
    assert_eq!(c.stream_position(), 4);
    assert_eq!(c.read_bytes(1), Ok(vec![5]));
}

#[test]
fn decodes_valid_utf8() {
    assert_eq!(best_effort_decode(b"bin/run"), "bin/run");
    assert_eq!(best_effort_decode(&[0x63, 0x61, 0x66, 0xC3, 0xA9]), "caf\u{e9}");
    assert_eq!(best_effort_decode(&[]), "");
}

#[test]
fn falls_back_to_latin1() {
    assert_eq!(best_effort_decode(&[0x63, 0x61, 0x66, 0xE9]), "caf\u{e9}");
    assert_eq!(best_effort_decode(&[0xFF, 0x80, 0x41]), "\u{ff}\u{80}A");
}

#[test]
fn fallback_follows_the_given_decoding() {
    assert_eq!(decode_with_fallback(&[0xC3, 0xA9], Some("\u{e9}")), "\u{e9}");
    assert_eq!(decode_with_fallback(&[0xC3, 0xA9], None), "\u{c3}\u{a9}");
    assert_eq!(decode_with_fallback(&[], None), "");
}
