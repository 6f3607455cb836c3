use libzmx::{
    zip_get_files, zip_make_executable, zip_make_not_executable, ByteCursor, CentralDirectoryHeader,
    EndOfCentralDirectory, Error, IoError, SeekFrom, Zip64EndOfCentralDirectory,
    Zip64EndOfCentralDirectoryLocator, ZipCentralDirectoryEntry,
};

const REGULAR_644: u32 = 0o100644 << 16;

fn header(name: &[u8], creator_version: u16, external_attributes: u32) -> CentralDirectoryHeader {
    CentralDirectoryHeader {
        creator_version,
        required_version: 20,
        general_purpose_bit_flag: 0,
        compression_method: 0,
        last_mod_file_time: 0x6000,
        last_mod_file_date: 0x5021,
        crc32: 0xDEADBEEF,
        compressed_size: 3,
        uncompressed_size: 3,
        file_name: name.to_vec(),
        extra_fields: Vec::new(),
        file_comment: Vec::new(),
        disk_number_start: 0,
        internal_attributes: 0,
        external_attributes,
        local_header_relative_offset: 0,
    }
}

fn eocd(this_disk: u16, total: u16, size: u32, offset: u32) -> EndOfCentralDirectory {
    EndOfCentralDirectory {
        disk_no: 0,
        start_central_dir_disk_no: 0,
        total_central_dir_entries_this_disk: this_disk,
        total_central_dir_entries: total,
        central_directory_size: size,
        central_dir_offset_on_disk: offset,
        comment: Some(Vec::new()),
    }
}

/// Ten bytes of stand-in entry data, then the central directory with the given headers.
/// Returns the cursor (positioned at the end) and the offset of each header.
fn directory(headers: &[CentralDirectoryHeader]) -> (ByteCursor, Vec<u64>) {
    let mut w = ByteCursor::new(vec![0xAA; 10]);
    w.seek(SeekFrom::End(0)).unwrap();
    let mut offsets = Vec::new();
    for h in headers {
        offsets.push(w.stream_position());
        h.write(&mut w).unwrap();
    }
    (w, offsets)
}

/// An archive whose central directory holds "a.txt" and "bin/run".
fn two_entry_archive() -> (Vec<u8>, Vec<u64>) {
    let (mut w, offsets) = directory(&[
        header(b"a.txt", 0x0314, REGULAR_644),
        header(b"bin/run", 0x0314, REGULAR_644),
    ]);
    let size = (w.stream_position() - 10) as u32;
    eocd(2, 2, size, 10).write(&mut w).unwrap();
    (w.into_inner(), offsets)
}

fn names(entries: &[ZipCentralDirectoryEntry]) -> Vec<Vec<u8>> {
    entries.iter().map(|e| e.entry.file_name.clone()).collect()
}

#[test]
fn lists_two_entries_then_patches_one() {
    let (bytes, offsets) = two_entry_archive();
    let len = bytes.len();
    let mut cursor = ByteCursor::new(bytes);
    let entries = zip_get_files(&mut cursor).unwrap();
    assert_eq!(names(&entries), vec![b"a.txt".to_vec(), b"bin/run".to_vec()]);
    assert_eq!(entries[0].offset, 10);
    assert_eq!(entries[1].offset, 10 + 46 + 5);
    assert_eq!(offsets, vec![10, 61]);
    assert_eq!(entries[0].disk, 0);
    assert!(!entries[0].is_executable());
    assert!(!entries[1].is_executable());

    zip_make_executable(&mut cursor, entries[1].offset).unwrap();
    assert_eq!(cursor.data.len(), len);

    let again = zip_get_files(&mut cursor).unwrap();
    assert_eq!(names(&again), names(&entries));
    assert!(again[1].is_executable());
    assert!(!again[0].is_executable());
    assert_eq!(again[0], entries[0]);
    assert_eq!(again[1].entry.creator_version, 0x0314);
    assert_eq!(again[1].entry.external_attributes, 0o100755 << 16);
}

#[test]
fn make_executable_writes_only_two_fields() {
    let (bytes, offsets) = two_entry_archive();
    let mut cursor = ByteCursor::new(bytes.clone());
    // a DOS-made directory entry: its origin and type are replaced
    let at = offsets[0] as usize;
    cursor.data[at + 4..at + 6].copy_from_slice(&0x0014u16.to_le_bytes());
    cursor.data[at + 38..at + 42].copy_from_slice(&0x0000_0010u32.to_le_bytes());
    let before = cursor.data.clone();
    zip_make_executable(&mut cursor, offsets[0]).unwrap();
    let after = &cursor.data;
    for i in 0..before.len() {
        if !(at + 4..at + 6).contains(&i) && !(at + 38..at + 42).contains(&i) {
            assert_eq!(before[i], after[i], "byte {} changed", i);
        }
    }
    assert_eq!(&after[at + 4..at + 6], &0x0314u16.to_le_bytes());
    let attrs = u32::from_le_bytes([after[at + 38], after[at + 39], after[at + 40], after[at + 41]]);
    assert_eq!(attrs, (0o100111 << 16) | 0x10);
}

#[test]
fn make_executable_twice_is_once() {
    let (bytes, offsets) = two_entry_archive();
    let mut once = ByteCursor::new(bytes.clone());
    zip_make_executable(&mut once, offsets[1]).unwrap();
    let mut twice = ByteCursor::new(bytes);
    zip_make_executable(&mut twice, offsets[1]).unwrap();
    zip_make_executable(&mut twice, offsets[1]).unwrap();
    assert_eq!(once.data, twice.data);
}

#[test]
fn make_not_executable_twice_is_once() {
    let (mut w, offsets) = directory(&[header(b"tool", 0x0314, 0o100755 << 16)]);
    eocd(1, 1, 46 + 4, 10).write(&mut w).unwrap();
    let bytes = w.into_inner();
    let mut once = ByteCursor::new(bytes.clone());
    zip_make_not_executable(&mut once, offsets[0]).unwrap();
    let mut twice = ByteCursor::new(bytes);
    zip_make_not_executable(&mut twice, offsets[0]).unwrap();
    zip_make_not_executable(&mut twice, offsets[0]).unwrap();
    assert_eq!(once.data, twice.data);
    let entries = zip_get_files(&mut once).unwrap();
    assert_eq!(entries[0].entry.external_attributes, 0o100644 << 16);
    assert!(!entries[0].is_executable());
}

#[test]
fn executable_then_not_restores_bytes() {
    let (bytes, offsets) = two_entry_archive();
    let mut cursor = ByteCursor::new(bytes.clone());
    zip_make_executable(&mut cursor, offsets[0]).unwrap();
    assert_ne!(cursor.data, bytes);
    zip_make_not_executable(&mut cursor, offsets[0]).unwrap();
    assert_eq!(cursor.data, bytes);
}

#[test]
fn make_not_executable_leaves_non_unix_entry() {
    let (mut w, offsets) = directory(&[header(b"run.exe", 0x0014, 0o100755 << 16)]);
    eocd(1, 1, 46 + 7, 10).write(&mut w).unwrap();
    let bytes = w.into_inner();
    let mut cursor = ByteCursor::new(bytes.clone());
    zip_make_not_executable(&mut cursor, offsets[0]).unwrap();
    assert_eq!(cursor.data, bytes);
}

#[test]
fn make_not_executable_leaves_entry_without_execute_bits() {
    let (bytes, offsets) = two_entry_archive();
    let mut cursor = ByteCursor::new(bytes.clone());
    zip_make_not_executable(&mut cursor, offsets[1]).unwrap();
    assert_eq!(cursor.data, bytes);
}

#[test]
fn patch_at_wrong_offset_is_incorrect_signature() {
    let (bytes, offsets) = two_entry_archive();
    let mut cursor = ByteCursor::new(bytes.clone());
    assert_eq!(zip_make_executable(&mut cursor, offsets[1] + 1), Err(Error::IncorrectSignature));
    assert_eq!(zip_make_not_executable(&mut cursor, 0), Err(Error::IncorrectSignature));
    assert_eq!(cursor.data, bytes);
}

#[test]
fn patch_past_the_end_is_short_read() {
    let (bytes, _) = two_entry_archive();
    let len = bytes.len() as u64;
    let mut cursor = ByteCursor::new(bytes.clone());
    assert_eq!(
        zip_make_executable(&mut cursor, len - 2),
        Err(Error::Io(IoError::UnexpectedEof))
    );
    assert_eq!(cursor.data, bytes);
}

#[test]
fn truncated_header_is_short_read_and_untouched() {
    // a header signature with too few bytes after it for the external attributes
    let mut bytes = vec![0u8; 4];
    bytes.extend_from_slice(&0x02014B50u32.to_le_bytes());
    bytes.extend_from_slice(&[0u8; 20]);
    let mut cursor = ByteCursor::new(bytes.clone());
    assert_eq!(zip_make_executable(&mut cursor, 4), Err(Error::Io(IoError::UnexpectedEof)));
    assert_eq!(cursor.data, bytes);
}

#[test]
fn archive_without_eocd_is_missing() {
    let mut cursor = ByteCursor::new(vec![0x11; 64]);
    assert_eq!(zip_get_files(&mut cursor), Err(Error::MissingEndOfCentralDirectory));
}

#[test]
fn archive_shorter_than_eocd_is_bad_seek() {
    let mut cursor = ByteCursor::new(vec![0x50, 0x4B, 0x05, 0x06]);
    assert_eq!(zip_get_files(&mut cursor), Err(Error::Io(IoError::InvalidSeek)));
}

#[test]
fn empty_directory_lists_nothing() {
    let mut w = ByteCursor::new(vec![0u8; 4]);
    w.seek(SeekFrom::End(0)).unwrap();
    eocd(0, 0, 0, 4).write(&mut w).unwrap();
    let mut cursor = ByteCursor::new(w.into_inner());
    assert_eq!(zip_get_files(&mut cursor), Ok(Vec::new()));
}

/// An archive that is nothing but an End of Central Directory record at offset 0.
fn bare_eocd(this_disk: u16, total: u16) -> Vec<u8> {
    let mut w = ByteCursor::new(Vec::new());
    eocd(this_disk, total, 0, 0).write(&mut w).unwrap();
    w.into_inner()
}

#[test]
fn empty_archive_of_22_bytes_lists_nothing() {
    let bytes = bare_eocd(0, 0);
    assert_eq!(bytes.len(), 22);
    let mut cursor = ByteCursor::new(bytes);
    assert_eq!(zip_get_files(&mut cursor), Ok(Vec::new()));
}

#[test]
fn bare_eocd_with_sentinel_counts_lists_nothing() {
    let mut cursor = ByteCursor::new(bare_eocd(0xFFFF, 0xFFFF));
    assert_eq!(zip_get_files(&mut cursor), Ok(Vec::new()));
}

#[test]
fn bare_eocd_with_unequal_counts_is_spanned() {
    let mut cursor = ByteCursor::new(bare_eocd(0xFFFF, 3));
    assert_eq!(zip_get_files(&mut cursor), Err(Error::SpannedArchive));
}

#[test]
fn eocd_with_comment_is_found() {
    let (mut w, _) = directory(&[header(b"x", 0x0314, REGULAR_644)]);
    let mut record = eocd(1, 1, 47, 10);
    record.comment = Some(b"a comment that runs on for a while".to_vec());
    record.write(&mut w).unwrap();
    let mut cursor = ByteCursor::new(w.into_inner());
    let entries = zip_get_files(&mut cursor).unwrap();
    assert_eq!(names(&entries), vec![b"x".to_vec()]);
}

#[test]
fn disk_number_other_than_zero_is_spanned() {
    let (mut w, _) = directory(&[header(b"x", 0x0314, REGULAR_644)]);
    let mut record = eocd(1, 1, 47, 10);
    record.disk_no = 1;
    record.write(&mut w).unwrap();
    let mut cursor = ByteCursor::new(w.into_inner());
    assert_eq!(zip_get_files(&mut cursor), Err(Error::SpannedArchive));
}

#[test]
fn unequal_entry_counts_are_spanned() {
    let (mut w, _) = directory(&[header(b"x", 0x0314, REGULAR_644)]);
    eocd(1, 2, 47, 10).write(&mut w).unwrap();
    let mut cursor = ByteCursor::new(w.into_inner());
    assert_eq!(zip_get_files(&mut cursor), Err(Error::SpannedArchive));
}

#[test]
fn sentinel_count_without_locator_compares_raw_counts() {
    // this-disk count at its sentinel, total count not: no locator, so the raw values differ
    let (mut w, _) = directory(&[header(b"x", 0x0314, REGULAR_644)]);
    eocd(0xFFFF, 2, 47, 10).write(&mut w).unwrap();
    let mut cursor = ByteCursor::new(w.into_inner());
    assert_eq!(zip_get_files(&mut cursor), Err(Error::SpannedArchive));
}

#[test]
fn sentinel_counts_without_locator_fall_back_to_eocd() {
    // both counts at their sentinel and no locator: the classic offset is used
    let (mut w, _) = directory(&[header(b"x", 0x0314, REGULAR_644)]);
    eocd(0xFFFF, 0xFFFF, 47, 10).write(&mut w).unwrap();
    let mut cursor = ByteCursor::new(w.into_inner());
    let entries = zip_get_files(&mut cursor).unwrap();
    assert_eq!(names(&entries), vec![b"x".to_vec()]);
}

fn zip64_archive(locator_disk: u32, total_disks: u32, this_disk: u64, total: u64) -> Vec<u8> {
    let (mut w, _) = directory(&[
        header(b"first", 0x0314, REGULAR_644),
        header(b"second", 0x0314, REGULAR_644),
    ]);
    let cd_end = w.stream_position();
    let zip64 = Zip64EndOfCentralDirectory {
        creator_version: 0x032D,
        required_version: 0x002D,
        disk_no: 0,
        start_central_dir_disk_no: 0,
        total_central_dir_entries_this_disk: this_disk,
        total_central_dir_entries: total,
        central_directory_size: cd_end - 10,
        central_dir_offset_on_disk: 10,
        extensible_data_sector: Vec::new(),
    };
    zip64.write(&mut w).unwrap();
    let locator = Zip64EndOfCentralDirectoryLocator {
        disk_no: locator_disk,
        offset_on_disk: cd_end,
        total_disks,
    };
    locator.write(&mut w).unwrap();
    // the classic record points nowhere useful: only the Zip64 one must be used
    let mut record = eocd(0xFFFF, 0xFFFF, 0xFFFF_FFFF, 0xFFFF_FFFF);
    record.comment = None;
    record.write(&mut w).unwrap();
    w.into_inner()
}

#[test]
fn zip64_records_give_the_directory() {
    let mut cursor = ByteCursor::new(zip64_archive(0, 1, 2, 2));
    let entries = zip_get_files(&mut cursor).unwrap();
    assert_eq!(names(&entries), vec![b"first".to_vec(), b"second".to_vec()]);
    assert_eq!(entries[1].offset, 10 + 46 + 5);
}

#[test]
fn zip64_locator_on_other_disk_is_spanned() {
    let mut cursor = ByteCursor::new(zip64_archive(1, 1, 2, 2));
    assert_eq!(zip_get_files(&mut cursor), Err(Error::SpannedArchive));
    let mut cursor = ByteCursor::new(zip64_archive(0, 2, 2, 2));
    assert_eq!(zip_get_files(&mut cursor), Err(Error::SpannedArchive));
}

#[test]
fn zip64_unequal_counts_are_spanned() {
    let mut cursor = ByteCursor::new(zip64_archive(0, 1, 1, 2));
    assert_eq!(zip_get_files(&mut cursor), Err(Error::SpannedArchive));
}

#[test]
fn zip64_record_too_small() {
    let mut bytes = zip64_archive(0, 1, 2, 2);
    // the Zip64 record starts after the two headers; its size field follows its signature
    let at = 10 + 46 + 5 + 46 + 6 + 4;
    bytes[at..at + 8].copy_from_slice(&43u64.to_le_bytes());
    let mut cursor = ByteCursor::new(bytes);
    assert_eq!(zip_get_files(&mut cursor), Err(Error::RecordTooSmall));
}

#[test]
fn directory_past_the_end_is_short_read() {
    let (mut w, _) = directory(&[header(b"abc", 0x0314, REGULAR_644)]);
    eocd(1, 1, 49, 0x1000).write(&mut w).unwrap();
    let mut cursor = ByteCursor::new(w.into_inner());
    assert_eq!(zip_get_files(&mut cursor), Err(Error::Io(IoError::UnexpectedEof)));
}

#[test]
fn truncated_header_in_directory_is_short_read() {
    // the directory's only header claims a longer name than the archive holds
    let mut w = ByteCursor::new(Vec::new());
    let mut h = header(b"abc", 0x0314, REGULAR_644);
    h.file_comment = vec![0u8; 100];
    h.write(&mut w).unwrap();
    let mut bytes = w.into_inner();
    bytes.truncate(60);
    let mut cursor = ByteCursor::new(bytes);
    cursor.seek(SeekFrom::End(0)).unwrap();
    eocd(1, 1, 146, 0).write(&mut cursor).unwrap();
    assert_eq!(zip_get_files(&mut cursor), Err(Error::Io(IoError::UnexpectedEof)));
}
