use libzmx::{
    lookback_for_signature, ByteCursor, CentralDirectoryHeader, EndOfCentralDirectory, Error,
    IoError, SeekFrom, Zip64EndOfCentralDirectory, Zip64EndOfCentralDirectoryLocator,
    Zip64ExtraField,
};

fn sample_header() -> CentralDirectoryHeader {
    CentralDirectoryHeader {
        creator_version: 0x031E,
        required_version: 0x0014,
        general_purpose_bit_flag: 0x0808,
        compression_method: 8,
        last_mod_file_time: 0x7A3C,
        last_mod_file_date: 0x5A21,
        crc32: 0x1234_5678,
        compressed_size: 0xFFFF_FFFF,
        uncompressed_size: 77,
        file_name: b"dir/file.bin".to_vec(),
        extra_fields: vec![1, 0, 8, 0, 9, 9, 9, 9, 9, 9, 9, 9],
        file_comment: b"note".to_vec(),
        disk_number_start: 0,
        internal_attributes: 1,
        external_attributes: 0o100755 << 16,
        local_header_relative_offset: -1,
    }
}

#[test]
fn signatures_and_lengths() {
    assert_eq!(EndOfCentralDirectory::signature().to_le_bytes(), *b"PK\x05\x06");
    assert_eq!(Zip64EndOfCentralDirectoryLocator::signature().to_le_bytes(), *b"PK\x06\x07");
    assert_eq!(Zip64EndOfCentralDirectory::signature().to_le_bytes(), *b"PK\x06\x06");
    assert_eq!(CentralDirectoryHeader::signature().to_le_bytes(), *b"PK\x01\x02");
    assert_eq!(Zip64ExtraField::tag(), 1);
    assert_eq!(EndOfCentralDirectory::min_len_bias(), 6);
    assert_eq!(EndOfCentralDirectory::min_len(), 22);
    assert_eq!(Zip64EndOfCentralDirectoryLocator::min_len_bias(), 4);
    assert_eq!(Zip64EndOfCentralDirectoryLocator::min_len(), 20);
    assert_eq!(Zip64EndOfCentralDirectory::min_len_bias(), 12);
    assert_eq!(Zip64EndOfCentralDirectory::min_len(), 56);
    assert_eq!(CentralDirectoryHeader::min_len_bias(), 4);
    assert_eq!(CentralDirectoryHeader::min_len(), 46);
}

#[test]
fn central_directory_header_round_trip() {
    let h = sample_header();
    let mut w = ByteCursor::new(Vec::new());
    h.write(&mut w).unwrap();
    assert_eq!(w.data.len(), 46 + 12 + 12 + 4);
    let mut r = ByteCursor::new(w.into_inner());
    assert_eq!(r.read_u32_le(), Ok(CentralDirectoryHeader::signature()));
    assert_eq!(CentralDirectoryHeader::read_after_signature(&mut r), Ok(h));
    assert_eq!(r.stream_position(), 74);
}

#[test]
fn central_directory_header_layout() {
    let h = sample_header();
    let mut w = ByteCursor::new(Vec::new());
    h.write(&mut w).unwrap();
    let b = w.into_inner();
    assert_eq!(&b[4..6], &[0x1E, 0x03]);
    assert_eq!(&b[28..30], &[12, 0]);
    assert_eq!(&b[30..32], &[12, 0]);
    assert_eq!(&b[32..34], &[4, 0]);
    assert_eq!(&b[38..42], &(0o100755u32 << 16).to_le_bytes());
    assert_eq!(&b[42..46], &[0xFF, 0xFF, 0xFF, 0xFF]);
    assert_eq!(&b[46..58], b"dir/file.bin");
}

#[test]
fn central_directory_header_long_name_is_capped() {
    let mut h = sample_header();
    h.file_name = vec![b'n'; 0x1_0005];
    let mut w = ByteCursor::new(Vec::new());
    h.write(&mut w).unwrap();
    let b = w.into_inner();
    assert_eq!(&b[28..30], &[0xFF, 0xFF]);
    assert_eq!(b.len(), 46 + 0x1_0005 + 12 + 4);
}

#[test]
fn end_of_central_directory_round_trip() {
    for comment in [None, Some(Vec::new()), Some(b"hello".to_vec())] {
        let e = EndOfCentralDirectory {
            disk_no: 0,
            start_central_dir_disk_no: 0,
            total_central_dir_entries_this_disk: 3,
            total_central_dir_entries: 3,
            central_directory_size: 0x1000,
            central_dir_offset_on_disk: 0x2000,
            comment,
        };
        let mut w = ByteCursor::new(Vec::new());
        e.write(&mut w).unwrap();
        let mut r = ByteCursor::new(w.into_inner());
        assert_eq!(r.read_u32_le(), Ok(EndOfCentralDirectory::signature()));
        assert_eq!(EndOfCentralDirectory::read_after_signature(&mut r), Ok(e));
        assert_eq!(r.stream_position() as usize, r.data.len());
    }
}

#[test]
fn end_of_central_directory_absent_comment_is_sentinel() {
    let e = EndOfCentralDirectory::default();
    let mut w = ByteCursor::new(Vec::new());
    let mut e2 = e.clone();
    e2.comment = None;
    e2.write(&mut w).unwrap();
    assert_eq!(&w.data[20..22], &[0xFF, 0xFF]);
    assert_eq!(w.data.len(), 22);
}

#[test]
fn end_of_central_directory_short_comment_is_short_read() {
    let mut bytes = vec![0u8; 16];
    bytes.extend_from_slice(&10u16.to_le_bytes());
    bytes.extend_from_slice(b"abc");
    let mut r = ByteCursor::new(bytes);
    assert_eq!(
        EndOfCentralDirectory::read_after_signature(&mut r),
        Err(Error::Io(IoError::UnexpectedEof))
    );
}

#[test]
fn should_check_zip64_on_each_sentinel() {
    let base = EndOfCentralDirectory::default();
    assert!(!base.should_check_zip64());
    let mut e = base.clone();
    e.disk_no = 0xFFFF;
    assert!(e.should_check_zip64());
    let mut e = base.clone();
    e.start_central_dir_disk_no = 0xFFFF;
    assert!(e.should_check_zip64());
    let mut e = base.clone();
    e.total_central_dir_entries_this_disk = 0xFFFF;
    assert!(e.should_check_zip64());
    let mut e = base.clone();
    e.total_central_dir_entries = 0xFFFF;
    assert!(e.should_check_zip64());
    let mut e = base.clone();
    e.central_directory_size = 0xFFFF_FFFF;
    assert!(e.should_check_zip64());
    let mut e = base.clone();
    e.central_dir_offset_on_disk = 0xFFFF_FFFF;
    assert!(e.should_check_zip64());
    let mut e = base.clone();
    e.central_dir_offset_on_disk = 0xFFFF_FFFE;
    assert!(!e.should_check_zip64());
}

#[test]
fn zip64_locator_round_trip() {
    let l = Zip64EndOfCentralDirectoryLocator {
        disk_no: 7,
        offset_on_disk: 0x0102_0304_0506_0708,
        total_disks: 9,
    };
    let mut w = ByteCursor::new(Vec::new());
    l.write(&mut w).unwrap();
    assert_eq!(w.data.len(), 20);
    let mut r = ByteCursor::new(w.into_inner());
    assert_eq!(r.read_u32_le(), Ok(Zip64EndOfCentralDirectoryLocator::signature()));
    assert_eq!(Zip64EndOfCentralDirectoryLocator::read_after_signature(&mut r), Ok(l));
}

#[test]
fn zip64_end_of_central_directory_round_trip() {
    let z = Zip64EndOfCentralDirectory {
        creator_version: 0x032D,
        required_version: 0x002D,
        disk_no: 0,
        start_central_dir_disk_no: 0,
        total_central_dir_entries_this_disk: 0x1_0000_0000,
        total_central_dir_entries: 0x1_0000_0000,
        central_directory_size: 12345,
        central_dir_offset_on_disk: 0x2_0000_0000,
        extensible_data_sector: vec![5, 6, 7],
    };
    let mut w = ByteCursor::new(Vec::new());
    z.write(&mut w).unwrap();
    assert_eq!(w.data.len(), 56 + 3);
    // the size counts what follows the size field
    assert_eq!(&w.data[4..12], &(44u64 + 3).to_le_bytes());
    let mut r = ByteCursor::new(w.into_inner());
    assert_eq!(r.read_u32_le(), Ok(Zip64EndOfCentralDirectory::signature()));
    assert_eq!(Zip64EndOfCentralDirectory::read_after_signature(&mut r), Ok(z));
}

#[test]
fn zip64_end_of_central_directory_too_small() {
    let mut bytes = 43u64.to_le_bytes().to_vec();
    bytes.extend_from_slice(&[0u8; 60]);
    let mut r = ByteCursor::new(bytes);
    assert_eq!(Zip64EndOfCentralDirectory::read_after_signature(&mut r), Err(Error::RecordTooSmall));
    assert_eq!(r.stream_position(), 8);
}

#[test]
fn error_messages() {
    assert_eq!(Error::RecordTooSmall.message(), "record too small");
    assert_eq!(
        Error::Io(IoError::UnexpectedEof).message(),
        "I/O error: unexpected end of file"
    );
    assert_eq!(Error::UnexpectedExtraDataLength(3).message(), "unexpected length of extra data");
    assert_eq!(Error::SpannedArchive.message(), "ZIP archive spans multiple files/disks");
}

#[test]
fn zip64_end_of_central_directory_huge_sector_is_short_read() {
    let mut bytes = u64::MAX.to_le_bytes().to_vec();
    bytes.extend_from_slice(&[0u8; 60]);
    let mut r = ByteCursor::new(bytes);
    assert_eq!(
        Zip64EndOfCentralDirectory::read_after_signature(&mut r),
        Err(Error::Io(IoError::UnexpectedEof))
    );
}

#[test]
fn zip64_extra_field_round_trip() {
    let f = Zip64ExtraField {
        uncompressed_size: Some(0x1_0000_0001),
        compressed_size: None,
        local_header_relative_offset: Some(-2),
        disk_number_start: Some(3),
    };
    let mut w = ByteCursor::new(Vec::new());
    f.write(&mut w).unwrap();
    assert_eq!(w.data.len(), 4 + 8 + 8 + 4);
    assert_eq!(&w.data[2..4], &20u16.to_le_bytes());
    let mut r = ByteCursor::new(w.into_inner());
    assert_eq!(r.read_u16_le(), Ok(Zip64ExtraField::tag()));
    assert_eq!(Zip64ExtraField::read_after_tag(&mut r, u32::MAX, 5, -1, u16::MAX), Ok(f));
}

#[test]
fn zip64_extra_field_empty() {
    let f = Zip64ExtraField::default();
    let mut w = ByteCursor::new(Vec::new());
    f.write(&mut w).unwrap();
    assert_eq!(w.data, vec![1, 0, 0, 0]);
    let mut r = ByteCursor::new(w.into_inner());
    r.seek(SeekFrom::Start(2)).unwrap();
    assert_eq!(Zip64ExtraField::read_after_tag(&mut r, 1, 2, 3, 4), Ok(f));
}

#[test]
fn zip64_extra_field_length_mismatch_reads_no_further() {
    // the central directory sentinels call for 8 + 8 bytes; the field declares 8
    let mut bytes = 8u16.to_le_bytes().to_vec();
    bytes.extend_from_slice(&[0xAB; 16]);
    let mut r = ByteCursor::new(bytes);
    assert_eq!(
        Zip64ExtraField::read_after_tag(&mut r, u32::MAX, u32::MAX, 0, 0),
        Err(Error::UnexpectedExtraDataLength(8))
    );
    assert_eq!(r.stream_position(), 2);
}

#[test]
fn zip64_extra_field_short_is_short_read() {
    let mut bytes = 12u16.to_le_bytes().to_vec();
    bytes.extend_from_slice(&[0xAB; 10]);
    let mut r = ByteCursor::new(bytes);
    assert_eq!(
        Zip64ExtraField::read_after_tag(&mut r, u32::MAX, 0, 0, u16::MAX),
        Err(Error::Io(IoError::UnexpectedEof))
    );
}

#[test]
fn lookback_from_position_zero_is_not_found() {
    let mut r = ByteCursor::new(Vec::new());
    assert_eq!(lookback_for_signature(&mut r, 0x06054B50), Ok(false));
    assert_eq!(r.stream_position(), 0);
    let mut r = ByteCursor::new(b"PK\x05".to_vec());
    assert_eq!(lookback_for_signature(&mut r, 0x06054B50), Ok(false));
    let mut r = ByteCursor::new(b"PK\x01\x02rest".to_vec());
    assert_eq!(lookback_for_signature(&mut r, 0x06054B50), Ok(false));
    assert_eq!(r.stream_position(), 0);
}

#[test]
fn lookback_examines_position_zero() {
    let mut r = ByteCursor::new(b"PK\x05\x06rest".to_vec());
    assert_eq!(lookback_for_signature(&mut r, 0x06054B50), Ok(true));
    assert_eq!(r.stream_position(), 4);
    let mut r = ByteCursor::new(b"PK\x05\x06rest".to_vec());
    r.seek(SeekFrom::Start(3)).unwrap();
    assert_eq!(lookback_for_signature(&mut r, 0x06054B50), Ok(true));
    assert_eq!(r.stream_position(), 4);
}

#[test]
fn lookback_finds_nearest_signature_backward() {
    let mut bytes = vec![0u8; 3];
    bytes.extend_from_slice(b"PK\x05\x06");
    bytes.extend_from_slice(&[0u8; 5]);
    bytes.extend_from_slice(b"PK\x05\x06");
    bytes.extend_from_slice(&[0u8; 10]);
    let mut r = ByteCursor::new(bytes);
    r.seek(SeekFrom::Start(10)).unwrap();
    assert_eq!(lookback_for_signature(&mut r, 0x06054B50), Ok(true));
    assert_eq!(r.stream_position(), 7);
    r.seek(SeekFrom::Start(20)).unwrap();
    assert_eq!(lookback_for_signature(&mut r, 0x06054B50), Ok(true));
    assert_eq!(r.stream_position(), 16);
}

#[test]
fn lookback_not_found_ends_at_start() {
    let mut r = ByteCursor::new(vec![7u8; 30]);
    r.seek(SeekFrom::Start(20)).unwrap();
    assert_eq!(lookback_for_signature(&mut r, 0x06054B50), Ok(false));
    assert_eq!(r.stream_position(), 0);
}

#[test]
fn lookback_past_the_end_is_short_read() {
    let mut r = ByteCursor::new(vec![7u8; 30]);
    r.seek(SeekFrom::Start(28)).unwrap();
    assert_eq!(lookback_for_signature(&mut r, 0x06054B50), Err(Error::Io(IoError::UnexpectedEof)));
}
