//! # ZIP Make eXecutable
//!
//! Allows modification of ZIP archives in place to set some files as executable (by changing
//! their origin to Unix and setting their external file attributes).

use vstd::prelude::*;

pub mod error;
pub mod io_ext;
pub mod text;
pub mod zip_format;

pub use crate::error::{Error, IoError};
pub use crate::io_ext::{ByteCursor, SeekFrom};
pub use crate::text::{best_effort_decode, decode_with_fallback};
pub use crate::zip_format::{
    CentralDirectoryHeader, EndOfCentralDirectory, Zip64EndOfCentralDirectory,
    Zip64EndOfCentralDirectoryLocator, Zip64ExtraField,
};

use crate::error::{bad_seek, short_read};
use crate::io_ext::{
    le16, le16_bytes, le32, le32_bytes, lemma_le16_bytes_of_read, lemma_le16_round_trip,
    lemma_le32_bytes_of_read, lemma_le32_round_trip, lemma_overwrite_len, lemma_overwrite_same,
    lemma_overwrite_twice, lemma_overwrite_written, overwrite,
};
use crate::zip_format::{
    decode_cdh, decode_eocd, decode_zip64_eocd, decode_zip64_locator, eocd_should_check_zip64,
    CentralDirectoryHeaderView, EndOfCentralDirectoryView, CENTRAL_DIRECTORY_HEADER_SIGNATURE,
    END_OF_CENTRAL_DIRECTORY_SIGNATURE, ZIP64_END_OF_CENTRAL_DIRECTORY_SIGNATURE,
    ZIP64_LOCATOR_SIGNATURE,
};

verus! {

/// An entry encountered in a ZIP archive's central directory. Represents a single file system
/// item (file, folder, etc.).
#[derive(Clone, Debug, PartialEq, Eq, Hash, PartialOrd, Ord)]
pub struct ZipCentralDirectoryEntry {
    /// The actual information about this entry.
    pub entry: CentralDirectoryHeader,

    /// The number of the disk containing this central directory entry.
    pub disk: u32,

    /// The offset of this file's central directory entry from the beginning of its disk.
    pub offset: u64,
}

/// A central directory entry, as values.
pub struct ZipCentralDirectoryEntryView {
    pub entry: CentralDirectoryHeaderView,
    pub disk: u32,
    pub offset: u64,
}

impl View for ZipCentralDirectoryEntry {
    type V = ZipCentralDirectoryEntryView;

    open spec fn view(&self) -> ZipCentralDirectoryEntryView {
        ZipCentralDirectoryEntryView { entry: self.entry@, disk: self.disk, offset: self.offset }
    }
}

/// Whether the DOS attributes (the lower half of the external attributes) mark a directory.
pub open spec fn dos_directory(external_attributes: u32) -> bool {
    (external_attributes & 0x0000FFFF) & 0x10 != 0
}

/// Whether the upper byte of the creator version names Unix (0x03).
pub open spec fn unix_origin(creator_version: u16) -> bool {
    (creator_version >> 8) & 0xFF == 0x03
}

/// The Unix mode bits: the upper half of the external attributes.
pub open spec fn unix_mode(external_attributes: u32) -> u32 {
    (external_attributes >> 16) & 0x0000FFFF
}

/// Whether the Unix file type (mask 0o170000) is a regular file (0o100000).
pub open spec fn unix_regular_file(external_attributes: u32) -> bool {
    unix_mode(external_attributes) & 0o170000 == 0o100000
}

/// Whether the user, the group or others may execute (mask 0o000111).
pub open spec fn unix_any_execute(external_attributes: u32) -> bool {
    unix_mode(external_attributes) & 0o000111 != 0
}

/// Whether an entry is executable: not a DOS directory, made on Unix, a regular file, and
/// executable by someone.
pub open spec fn entry_is_executable(h: CentralDirectoryHeaderView) -> bool {
    !dos_directory(h.external_attributes) && unix_origin(h.creator_version) && unix_regular_file(
        h.external_attributes,
    ) && unix_any_execute(h.external_attributes)
}

/// An entry that its DOS attributes mark as a directory is never executable, whatever its other
/// fields hold.
pub proof fn lemma_directory_not_executable(h: CentralDirectoryHeaderView)
    requires
        dos_directory(h.external_attributes),
    ensures
        !entry_is_executable(h),
{
}

impl ZipCentralDirectoryEntry {
    /// Returns whether this entry is executable.
    ///
    /// An entry is considered executable if all of the following conditions are met:
    ///
    /// * According to the DOS file attributes, the entry is not a directory. (In the lower half
    ///   of the "external file attributes" field, the bit corresponding to the value 0x10 is not
    ///   set.)
    /// * The file has been created on a Unix system. (The upper byte of the "version made by"
    ///   field is 0x03.)
    /// * According to the Unix file attributes, the entry is a regular file. (In the top half of
    ///   the "external file attributes" field, the bits extracted using the mask 0o170000 are
    ///   0o100000.)
    /// * According to the Unix file attributes, at least user or group or others have permission
    ///   to execute the file. (In the top half of the "external file attributes" field, the bits
    ///   extracted using the mask 0o000111 are not 0o000000.)
    pub fn is_executable(&self) -> (r: bool)
        ensures
            r == entry_is_executable(self.entry@),
    {
        let dos_attribs = self.entry.external_attributes & 0x0000FFFF;
        if dos_attribs & 0x10 != 0 {
            // it's a directory!
            return false;
        }
        if ((self.entry.creator_version >> 8) & 0xFF) != 0x03 {
            // entry does not come from Unix
            return false;
        }
        let unix_attribs = (self.entry.external_attributes >> 16) & 0x0000FFFF;
        if unix_attribs & 0o170000 != 0o100000 {
            // not a regular file
            return false;
        }
        // return whether at least u/g/o has x
        unix_attribs & 0o000111 != 0o000000
    }
}

/// Where a backward search for `signature` that starts at `p` finds it, examining positions
/// `p`, `p - 1`, ... down to 0; `None` where position 0 has been examined without a match, or
/// where fewer than four bytes stand at position 0.
pub open spec fn lookback(d: Seq<u8>, p: int, signature: u32) -> Result<Option<int>, Error>
    decreases p,
{
    if p < 0 {
        Ok(None)
    } else if p + 4 > d.len() {
        if p == 0 {
            Ok(None)
        } else {
            Err(short_read())
        }
    } else if le32(d, p) == signature {
        Ok(Some(p))
    } else if p == 0 {
        Ok(None)
    } else {
        lookback(d, p - 1, signature)
    }
}

/// A backward search finds the signature at a position between 1 and where it started.
pub proof fn lemma_lookback_found(d: Seq<u8>, p: int, signature: u32)
    ensures
        lookback(d, p, signature) matches Ok(Some(q)) ==> 0 <= q <= p && q + 4 <= d.len() && le32(
            d,
            q,
        ) == signature,
    decreases p,
{
    if 0 < p && p + 4 <= d.len() && le32(d, p) != signature {
        lemma_lookback_found(d, p - 1, signature);
    }
}

/// Searches backward from the current position for `signature`.
///
/// Where it is found, the stream is positioned just after it; where the search has examined the
/// start of the stream without finding it, the stream is positioned there.
pub fn lookback_for_signature(file: &mut ByteCursor, signature: u32) -> (r: Result<bool, Error>)
    ensures
        final(file).data@ == old(file).data@,
        match lookback(old(file).data@, old(file).pos as int, signature) {
            Ok(Some(q)) => r == Ok::<bool, Error>(true) && final(file).pos == q + 4,
            Ok(None) => r == Ok::<bool, Error>(false) && final(file).pos == 0,
            Err(e) => r == Err::<bool, Error>(e),
        },
{
    loop
        invariant
            file.data@ == old(file).data@,
            lookback(file.data@, file.pos as int, signature) == lookback(
                old(file).data@,
                old(file).pos as int,
                signature,
            ),
        decreases file.pos,
    {
        let at = file.stream_position();
        if at == 0 && file.data.len() < 4 {
            // nothing can be read at the start: the search is over
            return Ok(false);
        }
        let possible_signature = file.read_u32_le()?;
        if possible_signature == signature {
            return Ok(true);
        }
        if at == 0 {
            // stepping back would go before the start
            file.seek(SeekFrom::Start(0))?;
            return Ok(false);
        }
        // back over the four bytes just read, and one more
        file.seek(SeekFrom::Current(-5))?;
    }
}

/// The offset of the central directory that the Zip64 records give, where the End of Central
/// Directory signature stands at `eocd_at`: `None` where no locator precedes it, or where the
/// locator does not point at a Zip64 End of Central Directory record.
pub open spec fn zip64_central_directory(d: Seq<u8>, eocd_at: int) -> Result<Option<u64>, Error> {
    match lookback(d, eocd_at + 4, ZIP64_LOCATOR_SIGNATURE) {
        Err(e) => Err(e),
        Ok(None) => Ok(None),
        Ok(Some(l)) => match decode_zip64_locator(d, l + 4) {
            Err(e) => Err(e),
            Ok(locator) => if locator.disk_no != 0 || locator.total_disks != 1 {
                Err(Error::SpannedArchive)
            } else if locator.offset_on_disk + 4 > d.len() {
                Err(short_read())
            } else if le32(d, locator.offset_on_disk as int)
                != ZIP64_END_OF_CENTRAL_DIRECTORY_SIGNATURE {
                Ok(None)
            } else {
                match decode_zip64_eocd(d, locator.offset_on_disk + 4) {
                    Err(e) => Err(e),
                    Ok((z, _)) => if z.total_central_dir_entries
                        != z.total_central_dir_entries_this_disk {
                        Err(Error::SpannedArchive)
                    } else {
                        Ok(Some(z.central_dir_offset_on_disk))
                    },
                }
            },
        },
    }
}

/// The offset of the central directory: from the Zip64 records where the End of Central
/// Directory record calls for them and they give one, else from the record itself, whose entry
/// counts must agree.
pub open spec fn central_directory_offset(
    d: Seq<u8>,
    eocd_at: int,
    eocd: EndOfCentralDirectoryView,
) -> Result<u64, Error> {
    let zip64 = if eocd_should_check_zip64(eocd) {
        zip64_central_directory(d, eocd_at)
    } else {
        Ok(None)
    };
    match zip64 {
        Err(e) => Err(e),
        Ok(Some(offset)) => Ok(offset),
        Ok(None) => if eocd.total_central_dir_entries != eocd.total_central_dir_entries_this_disk {
            Err(Error::SpannedArchive)
        } else {
            Ok(eocd.central_dir_offset_on_disk as u64)
        },
    }
}

/// The entries of the central directory from `p` on: one for each Central Directory Header
/// signature in a row, up to the first four bytes that are not one.
pub open spec fn directory_entries(d: Seq<u8>, p: int) -> Result<
    Seq<ZipCentralDirectoryEntryView>,
    Error,
>
    decreases d.len() - p,
{
    if p < 0 || p + 4 > d.len() {
        Err(short_read())
    } else if le32(d, p) != CENTRAL_DIRECTORY_HEADER_SIGNATURE {
        Ok(seq![])
    } else {
        match decode_cdh(d, p + 4) {
            Err(e) => Err(e),
            Ok((h, end)) => match directory_entries(d, end) {
                Err(e) => Err(e),
                Ok(rest) => Ok(
                    seq![ZipCentralDirectoryEntryView { entry: h, disk: 0, offset: p as u64 }]
                        + rest,
                ),
            },
        }
    }
}

/// The entries of the archive `d`, in the order of its central directory.
pub open spec fn archive_entries(d: Seq<u8>) -> Result<Seq<ZipCentralDirectoryEntryView>, Error> {
    if d.len() < 22 {
        Err(bad_seek())
    } else {
        match lookback(d, d.len() - 22, END_OF_CENTRAL_DIRECTORY_SIGNATURE) {
            Err(e) => Err(e),
            Ok(None) => Err(Error::MissingEndOfCentralDirectory),
            Ok(Some(eocd_at)) => match decode_eocd(d, eocd_at + 4) {
                Err(e) => Err(e),
                Ok((eocd, _)) => if eocd.disk_no != 0 {
                    Err(Error::SpannedArchive)
                } else {
                    match central_directory_offset(d, eocd_at, eocd) {
                        Err(e) => Err(e),
                        Ok(offset) => directory_entries(d, offset as int),
                    }
                },
            },
        }
    }
}

/// The views of a list of entries.
pub open spec fn entries_view(v: Seq<ZipCentralDirectoryEntry>) -> Seq<
    ZipCentralDirectoryEntryView,
> {
    v.map_values(|e: ZipCentralDirectoryEntry| e@)
}

/// Finds the Zip64 End of Central Directory record through its locator, searching backward from
/// the End of Central Directory signature at `eocd_at`, and returns the central directory offset
/// it gives.
fn find_zip64_central_directory(zip_file: &mut ByteCursor, eocd_at: u64) -> (r: Result<
    Option<u64>,
    Error,
>)
    requires
        eocd_at + 22 <= old(zip_file).data@.len(),
    ensures
        final(zip_file).data@ == old(zip_file).data@,
        r == zip64_central_directory(old(zip_file).data@, eocd_at as int),
{
    let ghost d = zip_file.data@;
    // the archive's length, like every position in it, fits in a usize
    let _ = zip_file.data.len();
    proof {
        lemma_lookback_found(d, eocd_at + 4, ZIP64_LOCATOR_SIGNATURE);
    }

    // go back to just after the EoCD signature
    zip_file.seek(SeekFrom::Start(eocd_at + 4))?;

    // try to find Zip64 EoCD locator
    let zip64_eocd_loc_found = lookback_for_signature(
        zip_file,
        Zip64EndOfCentralDirectoryLocator::signature(),
    )?;
    if !zip64_eocd_loc_found {
        return Ok(None);
    }
    let zip64_eocd_loc = Zip64EndOfCentralDirectoryLocator::read_after_signature(zip_file)?;
    if zip64_eocd_loc.disk_no != 0 || zip64_eocd_loc.total_disks != 1 {
        return Err(Error::SpannedArchive);
    }

    // try to find Zip64 EoCD
    zip_file.seek(SeekFrom::Start(zip64_eocd_loc.offset_on_disk))?;

    // try to read Zip64 EoCD
    let zip64_eocd_sig = zip_file.read_u32_le()?;
    if zip64_eocd_sig != Zip64EndOfCentralDirectory::signature() {
        return Ok(None);
    }
    let zip64_eocd = Zip64EndOfCentralDirectory::read_after_signature(zip_file)?;
    if zip64_eocd.total_central_dir_entries != zip64_eocd.total_central_dir_entries_this_disk {
        return Err(Error::SpannedArchive);
    }
    Ok(Some(zip64_eocd.central_dir_offset_on_disk))
}

/// Obtains the list of entries in the archive, in the order of its central directory.
pub fn zip_get_files(zip_file: &mut ByteCursor) -> (r: Result<Vec<ZipCentralDirectoryEntry>, Error>)
    ensures
        final(zip_file).data@ == old(zip_file).data@,
        match archive_entries(old(zip_file).data@) {
            Ok(entries) => r is Ok && entries_view(r->Ok_0@) == entries,
            Err(e) => r == Err::<Vec<ZipCentralDirectoryEntry>, Error>(e),
        },
{
    let ghost d = zip_file.data@;
    // the archive's length, like every position in it, fits in a usize
    let _ = zip_file.data.len();

    // start at the last possible location of the End of Central Directory record
    zip_file.seek(SeekFrom::End(-(EndOfCentralDirectory::min_len() as i64)))?;

    // look for EoCD
    let eocd_found = lookback_for_signature(zip_file, EndOfCentralDirectory::signature())?;
    if !eocd_found {
        return Err(Error::MissingEndOfCentralDirectory);
    }
    proof {
        lemma_lookback_found(d, d.len() - 22, END_OF_CENTRAL_DIRECTORY_SIGNATURE);
    }
    let eocd_at = zip_file.stream_position() - 4;

    // read EoCD
    let eocd = EndOfCentralDirectory::read_after_signature(zip_file)?;
    if eocd.disk_no != 0 {
        return Err(Error::SpannedArchive);
    }
    let zip64_central_directory_loc = if eocd.should_check_zip64() {
        find_zip64_central_directory(zip_file, eocd_at)?
    } else {
        None
    };
    let central_directory_loc: u64 = match zip64_central_directory_loc {
        Some(zcdl) => zcdl,
        None => {
            if eocd.total_central_dir_entries != eocd.total_central_dir_entries_this_disk {
                return Err(Error::SpannedArchive);
            }
            eocd.central_dir_offset_on_disk as u64
        },
    };
    zip_file.seek(SeekFrom::Start(central_directory_loc))?;

    // now we can read out the files
    let mut file_names: Vec<ZipCentralDirectoryEntry> = Vec::new();
    loop
        invariant_except_break
            directory_entries(d, central_directory_loc as int) == match directory_entries(
                d,
                zip_file.pos as int,
            ) {
                Ok(rest) => Ok(entries_view(file_names@) + rest),
                Err(e) => Err(e),
            },
        invariant
            d == old(zip_file).data@,
            zip_file.data@ == d,
            archive_entries(d) == directory_entries(d, central_directory_loc as int),
        ensures
            archive_entries(d) == Ok::<Seq<ZipCentralDirectoryEntryView>, Error>(
                entries_view(file_names@),
            ),
        decreases d.len() - zip_file.pos,
    {
        let file_header_loc = zip_file.stream_position();
        let signature = zip_file.read_u32_le()?;
        if signature != CentralDirectoryHeader::signature() {
            proof {
                assert(entries_view(file_names@) + seq![] =~= entries_view(file_names@));
            }
            break;
        }
        let cdh = CentralDirectoryHeader::read_after_signature(zip_file)?;
        let ghost before = file_names@;
        file_names.push(ZipCentralDirectoryEntry { entry: cdh, disk: 0, offset: file_header_loc });
        proof {
            let rest = directory_entries(d, zip_file.pos as int);
            if rest is Ok {
                assert(entries_view(file_names@) =~= entries_view(before).push(
                    file_names@.last()@,
                ));
                assert(entries_view(before) + (seq![file_names@.last()@] + rest->Ok_0)
                    =~= entries_view(file_names@) + rest->Ok_0);
            }
        }
    }

    Ok(file_names)
}

/// The creator version with its upper byte set to Unix (0x03), its lower byte kept.
pub open spec fn unix_creator_version(creator_version: u16) -> u16 {
    (creator_version & 0x00FF) | 0x0300
}

/// The external attributes of an executable regular file: the Unix file type set to a regular
/// file (0o100000 under the mask 0o170000) and the execute bits (0o000111) set for all, in the
/// upper half; every other bit kept.
pub open spec fn executable_attributes(external_attributes: u32) -> u32 {
    ((external_attributes & ((0o170000u32 << 16u32) ^ 0xFFFF_FFFFu32)) | (0o100000u32 << 16u32))
        | (0o000111u32 << 16u32)
}

/// The external attributes with the execute bits (0o000111 in the upper half) cleared.
pub open spec fn non_executable_attributes(external_attributes: u32) -> u32 {
    external_attributes & !(0o000111u32 << 16u32)
}

/// Whether any execute bit (0o000111 in the upper half) is set.
pub open spec fn has_execute_bits(external_attributes: u32) -> bool {
    external_attributes & (0o000111u32 << 16u32) != 0
}

/// The offset of the creator version within a Central Directory Header, signature included.
pub open spec fn creator_version_at(offset: int) -> int {
    offset + 4
}

/// The offset of the external attributes within a Central Directory Header, signature included.
pub open spec fn external_attributes_at(offset: int) -> int {
    offset + 38
}

/// The bytes of archive `d` after making the entry whose header starts at `offset` executable,
/// or the error that stops it. Nothing is written before every check has passed.
pub open spec fn make_executable(d: Seq<u8>, offset: int) -> Result<Seq<u8>, Error> {
    if offset + 4 > d.len() {
        Err(short_read())
    } else if le32(d, offset) != CENTRAL_DIRECTORY_HEADER_SIGNATURE {
        Err(Error::IncorrectSignature)
    } else if external_attributes_at(offset) + 4 > d.len() {
        Err(short_read())
    } else {
        let cv = le16(d, creator_version_at(offset));
        let ea = le32(d, external_attributes_at(offset));
        Ok(
            overwrite(
                overwrite(d, creator_version_at(offset) as nat, le16_bytes(unix_creator_version(cv))),
                external_attributes_at(offset) as nat,
                le32_bytes(executable_attributes(ea)),
            ),
        )
    }
}

/// The bytes of archive `d` after making the entry whose header starts at `offset` not
/// executable, or the error that stops it. An entry not made on Unix, or without execute bits,
/// is left as it is.
pub open spec fn make_not_executable(d: Seq<u8>, offset: int) -> Result<Seq<u8>, Error> {
    if offset + 4 > d.len() {
        Err(short_read())
    } else if le32(d, offset) != CENTRAL_DIRECTORY_HEADER_SIGNATURE {
        Err(Error::IncorrectSignature)
    } else if creator_version_at(offset) + 2 > d.len() {
        Err(short_read())
    } else if !unix_origin(le16(d, creator_version_at(offset))) {
        Ok(d)
    } else if external_attributes_at(offset) + 4 > d.len() {
        Err(short_read())
    } else {
        let ea = le32(d, external_attributes_at(offset));
        if !has_execute_bits(ea) {
            Ok(d)
        } else {
            Ok(
                overwrite(
                    d,
                    external_attributes_at(offset) as nat,
                    le32_bytes(non_executable_attributes(ea)),
                ),
            )
        }
    }
}

/// The bytes that a patch leaves: the patched bytes, or the unchanged ones where it failed.
pub open spec fn bytes_after(d: Seq<u8>, patched: Result<Seq<u8>, Error>) -> Seq<u8> {
    match patched {
        Ok(p) => p,
        Err(_) => d,
    }
}

/// The outcome of a patch, without its bytes.
pub open spec fn outcome(patched: Result<Seq<u8>, Error>) -> Result<(), Error> {
    match patched {
        Ok(_) => Ok(()),
        Err(e) => Err(e),
    }
}

/// Modifies the attributes of a ZIP file entry to make it executable.
///
/// `entry_header_offset` is the offset of the entry's Central Directory Header. Its creator
/// version is marked Unix and its external attributes a regular file that all may execute. The
/// archive keeps its length, and is left untouched where an error is returned.
pub fn zip_make_executable(zip_file: &mut ByteCursor, entry_header_offset: u64) -> (r: Result<
    (),
    Error,
>)
    ensures
        final(zip_file).data@ == bytes_after(
            old(zip_file).data@,
            make_executable(old(zip_file).data@, entry_header_offset as int),
        ),
        r == outcome(make_executable(old(zip_file).data@, entry_header_offset as int)),
        final(zip_file).data@.len() == old(zip_file).data@.len(),
{
    let ghost d = zip_file.data@;
    // the archive's length, like every position in it, fits in a usize
    let _ = zip_file.data.len();

    // seek to the given offset
    zip_file.seek(SeekFrom::Start(entry_header_offset))?;

    // check for central directory entry
    let signature = zip_file.read_u32_le()?;
    if signature != CentralDirectoryHeader::signature() {
        return Err(Error::IncorrectSignature);
    }

    // read the creator version, then skip the intervening fields to the external attributes
    let creator_version = zip_file.read_u16_le()?;
    zip_file.skip(
        2  // required_version
         + 2  // general_purpose_bit_flag
         + 2  // compression_method
         + 2  // last_mod_file_time
         + 2  // last_mod_file_date
         + 4  // crc32
         + 4  // compressed_size
         + 4  // uncompressed_size
         + 2  // file_name length
         + 2  // extra_fields length
         + 2  // file_comment length
         + 2  // disk_number_start
         + 2,  // internal_attributes
    )?;
    let external_attributes = zip_file.read_u32_le()?;

    // everything has been read: now write
    // set upper byte of creator version to 0x03 (Unix)
    let new_creator_version: u16 = (creator_version & 0x00FF) | 0x0300;
    zip_file.seek(SeekFrom::Start(entry_header_offset + 4))?;
    zip_file.write_u16_le(new_creator_version);
    proof {
        lemma_overwrite_len(
            d,
            creator_version_at(entry_header_offset as int) as nat,
            le16_bytes(new_creator_version),
        );
    }

    // perform this change to upper byte pair of external attributes:
    // 1. ensure bytes 0o170000 are set to 0o100000
    // 2. ensure bits 0o000111 are set
    let new_external_attributes: u32 = ((external_attributes & ((0o170000u32 << 16u32)
        ^ 0xFFFF_FFFFu32)) | (0o100000u32 << 16u32)) | (0o000111u32 << 16u32);
    zip_file.seek(SeekFrom::Start(entry_header_offset + 38))?;
    zip_file.write_u32_le(new_external_attributes);

    // done
    Ok(())
}

/// Modifies the attributes of a ZIP file entry to make it not executable.
///
/// `entry_header_offset` is the offset of the entry's Central Directory Header. An entry made on
/// Unix with execute bits loses them; any other entry is left as it is, and so is the archive
/// where an error is returned.
pub fn zip_make_not_executable(zip_file: &mut ByteCursor, entry_header_offset: u64) -> (r: Result<
    (),
    Error,
>)
    ensures
        final(zip_file).data@ == bytes_after(
            old(zip_file).data@,
            make_not_executable(old(zip_file).data@, entry_header_offset as int),
        ),
        r == outcome(make_not_executable(old(zip_file).data@, entry_header_offset as int)),
        final(zip_file).data@.len() == old(zip_file).data@.len(),
{
    let ghost d = zip_file.data@;
    // the archive's length, like every position in it, fits in a usize
    let _ = zip_file.data.len();

    // seek to the given offset
    zip_file.seek(SeekFrom::Start(entry_header_offset))?;

    // check for central directory entry
    let signature = zip_file.read_u32_le()?;
    if signature != CentralDirectoryHeader::signature() {
        return Err(Error::IncorrectSignature);
    }

    // check upper byte of creator version against 0x03 (Unix)
    let creator_version = zip_file.read_u16_le()?;
    if (creator_version & 0xFF00) != 0x0300 {
        // not Unix, cannot be executable
        proof {
            assert((creator_version & 0xFF00) != 0x0300 <==> (creator_version >> 8) & 0xFF != 0x03)
                by (bit_vector);
        }
        return Ok(());
    }
    proof {
        assert((creator_version & 0xFF00) == 0x0300 ==> (creator_version >> 8) & 0xFF == 0x03)
            by (bit_vector);
    }

    // skip the intervening fields
    zip_file.skip(
        2  // required_version
         + 2  // general_purpose_bit_flag
         + 2  // compression_method
         + 2  // last_mod_file_time
         + 2  // last_mod_file_date
         + 4  // crc32
         + 4  // compressed_size
         + 4  // uncompressed_size
         + 2  // file_name length
         + 2  // extra_fields length
         + 2  // file_comment length
         + 2  // disk_number_start
         + 2,  // internal_attributes
    )?;

    // remove 0o000111 from upper byte pair of external attributes (if necessary)
    let external_attributes = zip_file.read_u32_le()?;
    if (external_attributes & (0o000111u32 << 16u32)) != 0 {
        let new_external_attributes: u32 = external_attributes & !(0o000111u32 << 16u32);
        zip_file.seek(SeekFrom::Current(-4))?;
        zip_file.write_u32_le(new_external_attributes);
    }

    // done
    Ok(())
}

/// The signature and creator version of an entry stay where making it executable writes only
/// behind them, and the patched fields read back as written.
proof fn lemma_make_executable_fields(d: Seq<u8>, offset: int)
    requires
        0 <= offset,
        make_executable(d, offset) is Ok,
    ensures
        ({
            let d1 = make_executable(d, offset)->Ok_0;
            let cv = le16(d, creator_version_at(offset));
            let ea = le32(d, external_attributes_at(offset));
            &&& d1.len() == d.len()
            &&& le32(d1, offset) == le32(d, offset)
            &&& d1.subrange(creator_version_at(offset), creator_version_at(offset) + 2)
                == le16_bytes(unix_creator_version(cv))
            &&& d1.subrange(external_attributes_at(offset), external_attributes_at(offset) + 4)
                == le32_bytes(executable_attributes(ea))
            &&& le16(d1, creator_version_at(offset)) == unix_creator_version(cv)
            &&& le32(d1, external_attributes_at(offset)) == executable_attributes(ea)
        }),
{
    let cv = le16(d, creator_version_at(offset));
    let ea = le32(d, external_attributes_at(offset));
    let c = creator_version_at(offset);
    let x = external_attributes_at(offset);
    let mid = overwrite(d, c as nat, le16_bytes(unix_creator_version(cv)));
    let d1 = overwrite(mid, x as nat, le32_bytes(executable_attributes(ea)));
    lemma_overwrite_written(d, c as nat, le16_bytes(unix_creator_version(cv)));
    lemma_overwrite_written(mid, x as nat, le32_bytes(executable_attributes(ea)));
    assert(d1.subrange(c, c + 2) =~= mid.subrange(c, c + 2));
    lemma_le16_round_trip(d1, c, unix_creator_version(cv));
    lemma_le32_round_trip(d1, x, executable_attributes(ea));
}

/// Idempotence: making an entry executable a second time leaves the bytes that the first time
/// left, with the same outcome.
pub proof fn lemma_make_executable_idempotent(d: Seq<u8>, offset: int)
    requires
        0 <= offset,
    ensures
        ({
            let once = bytes_after(d, make_executable(d, offset));
            &&& bytes_after(once, make_executable(once, offset)) == once
            &&& outcome(make_executable(once, offset)) == outcome(make_executable(d, offset))
        }),
{
    if make_executable(d, offset) is Ok {
        let d1 = make_executable(d, offset)->Ok_0;
        let cv = le16(d, creator_version_at(offset));
        let ea = le32(d, external_attributes_at(offset));
        let c = creator_version_at(offset);
        let x = external_attributes_at(offset);
        lemma_make_executable_fields(d, offset);
        let cv1 = unix_creator_version(cv);
        let ea1 = executable_attributes(ea);
        assert(unix_creator_version(cv1) == cv1) by (bit_vector)
            requires
                cv1 == (cv & 0x00FF) | 0x0300,
        ;
        assert(executable_attributes(ea1) == ea1) by (bit_vector)
            requires
                ea1 == ((ea & ((0o170000u32 << 16u32) ^ 0xFFFF_FFFFu32)) | (0o100000u32 << 16u32))
                    | (0o000111u32 << 16u32),
        ;
        lemma_overwrite_same(d1, c as nat, le16_bytes(cv1));
        lemma_overwrite_same(d1, x as nat, le32_bytes(ea1));
    }
}

/// Idempotence: making an entry not executable a second time leaves the bytes that the first
/// time left, with the same outcome.
pub proof fn lemma_make_not_executable_idempotent(d: Seq<u8>, offset: int)
    requires
        0 <= offset,
    ensures
        ({
            let once = bytes_after(d, make_not_executable(d, offset));
            &&& bytes_after(once, make_not_executable(once, offset)) == once
            &&& outcome(make_not_executable(once, offset)) == outcome(
                make_not_executable(d, offset),
            )
        }),
{
    let c = creator_version_at(offset);
    let x = external_attributes_at(offset);
    if make_not_executable(d, offset) is Ok && make_not_executable(d, offset)->Ok_0 != d {
        let ea = le32(d, x);
        let ea1 = non_executable_attributes(ea);
        let d1 = overwrite(d, x as nat, le32_bytes(ea1));
        lemma_overwrite_written(d, x as nat, le32_bytes(ea1));
        lemma_le32_round_trip(d1, x, ea1);
        assert(!has_execute_bits(ea1)) by (bit_vector)
            requires
                ea1 == ea & !(0o000111u32 << 16u32),
        ;
        assert(le32(d1, offset) == le32(d, offset));
        assert(le16(d1, c) == le16(d, c));
    }
}

/// Inverse: for an entry made on Unix, of the regular-file type and with no execute bit, making
/// it executable sets exactly the execute bits of its external attributes, and making it not
/// executable right after restores every byte of the archive.
pub proof fn lemma_make_executable_then_not(d: Seq<u8>, offset: int)
    requires
        0 <= offset,
        external_attributes_at(offset) + 4 <= d.len(),
        le32(d, offset) == CENTRAL_DIRECTORY_HEADER_SIGNATURE,
        unix_origin(le16(d, creator_version_at(offset))),
        unix_regular_file(le32(d, external_attributes_at(offset))),
        !unix_any_execute(le32(d, external_attributes_at(offset))),
    ensures
        make_executable(d, offset) is Ok,
        le32(make_executable(d, offset)->Ok_0, external_attributes_at(offset)) == le32(
            d,
            external_attributes_at(offset),
        ) | (0o000111u32 << 16u32),
        make_not_executable(make_executable(d, offset)->Ok_0, offset) == Ok::<Seq<u8>, Error>(d),
{
    let c = creator_version_at(offset);
    let x = external_attributes_at(offset);
    let cv = le16(d, c);
    let ea = le32(d, x);
    lemma_make_executable_fields(d, offset);
    let d1 = make_executable(d, offset)->Ok_0;
    assert(unix_creator_version(cv) == cv) by (bit_vector)
        requires
            (cv >> 8) & 0xFF == 0x03,
    ;
    let ea1 = executable_attributes(ea);
    assert(ea1 == ea | (0o000111u32 << 16u32) && has_execute_bits(ea1)
        && non_executable_attributes(ea1) == ea) by (bit_vector)
        requires
            ((ea >> 16) & 0x0000FFFF) & 0o170000 == 0o100000,
            ((ea >> 16) & 0x0000FFFF) & 0o000111 == 0,
            ea1 == ((ea & ((0o170000u32 << 16u32) ^ 0xFFFF_FFFFu32)) | (0o100000u32 << 16u32))
                | (0o000111u32 << 16u32),
    ;
    lemma_le16_bytes_of_read(d, c);
    lemma_le32_bytes_of_read(d, x);
    lemma_overwrite_same(d, c as nat, le16_bytes(cv));
    assert(d1 == overwrite(d, x as nat, le32_bytes(ea1)));
    lemma_overwrite_twice(d, x as nat, le32_bytes(ea1), le32_bytes(ea));
    lemma_overwrite_same(d, x as nat, le32_bytes(ea));
}

/// After an entry is made executable, its header reads back as executable exactly when its DOS
/// attributes do not mark a directory, and its DOS attributes are the ones it had.
pub proof fn lemma_made_executable_reads_executable(d: Seq<u8>, offset: int)
    requires
        0 <= offset,
        make_executable(d, offset) is Ok,
    ensures
        ({
            let d1 = make_executable(d, offset)->Ok_0;
            decode_cdh(d1, offset + 4) matches Ok((h, _)) ==> {
                &&& h.external_attributes & 0x0000FFFF == le32(d, external_attributes_at(offset))
                    & 0x0000FFFF
                &&& entry_is_executable(h) == !dos_directory(h.external_attributes)
            }
        }),
{
    lemma_make_executable_fields(d, offset);
    let cv1 = unix_creator_version(le16(d, creator_version_at(offset)));
    let ea = le32(d, external_attributes_at(offset));
    let ea1 = executable_attributes(ea);
    let cv = le16(d, creator_version_at(offset));
    assert((cv1 >> 8) & 0xFF == 0x03) by (bit_vector)
        requires
            cv1 == (cv & 0x00FF) | 0x0300,
    ;
    assert(ea1 & 0x0000FFFF == ea & 0x0000FFFF && ((ea1 >> 16) & 0x0000FFFF) & 0o170000 == 0o100000
        && ((ea1 >> 16) & 0x0000FFFF) & 0o000111 != 0) by (bit_vector)
        requires
            ea1 == ((ea & ((0o170000u32 << 16u32) ^ 0xFFFF_FFFFu32)) | (0o100000u32 << 16u32))
                | (0o000111u32 << 16u32),
    ;
}

/// Fallback to the classic record: where the End of Central Directory record does not call for
/// the Zip64 records, or no locator precedes it, or the locator does not point at a Zip64 End of
/// Central Directory signature, the central directory is taken from the record itself, after its
/// raw entry counts (sentinels included) are compared.
pub proof fn lemma_classic_central_directory(
    d: Seq<u8>,
    eocd_at: int,
    eocd: EndOfCentralDirectoryView,
)
    requires
        !eocd_should_check_zip64(eocd) || lookback(d, eocd_at + 4, ZIP64_LOCATOR_SIGNATURE) == Ok::<
            Option<int>,
            Error,
        >(None) || ({
            let l = lookback(d, eocd_at + 4, ZIP64_LOCATOR_SIGNATURE);
            &&& l matches Ok(Some(at))
            &&& decode_zip64_locator(d, at + 4) matches Ok(locator)
            &&& locator.disk_no == 0
            &&& locator.total_disks == 1
            &&& locator.offset_on_disk + 4 <= d.len()
            &&& le32(d, locator.offset_on_disk as int) != ZIP64_END_OF_CENTRAL_DIRECTORY_SIGNATURE
        }),
    ensures
        central_directory_offset(d, eocd_at, eocd) == if eocd.total_central_dir_entries
            != eocd.total_central_dir_entries_this_disk {
            Err::<u64, Error>(Error::SpannedArchive)
        } else {
            Ok::<u64, Error>(eocd.central_dir_offset_on_disk as u64)
        },
{
}

} // verus!
