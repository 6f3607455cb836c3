//! Structures of the ZIP file format.

use vstd::prelude::*;

use crate::error::{short_read, Error};
use crate::io_ext::{
    le16, le16_bytes, le32, le32_bytes, le64, le64_bytes, lemma_le16_round_trip,
    lemma_le32_round_trip, lemma_le64_round_trip, lemma_overwrite_at_end, ByteCursor,
};

verus! {

/// The signature of an End of Central Directory record: `b"PK\x05\x06"` read as a little-endian
/// `u32`.
pub const END_OF_CENTRAL_DIRECTORY_SIGNATURE: u32 = 0x06054B50;

/// The signature of a Zip64 End of Central Directory Locator record: `b"PK\x06\x07"`.
pub const ZIP64_LOCATOR_SIGNATURE: u32 = 0x07064B50;

/// The signature of a Zip64 End of Central Directory record: `b"PK\x06\x06"`.
pub const ZIP64_END_OF_CENTRAL_DIRECTORY_SIGNATURE: u32 = 0x06064B50;

/// The signature of a Central Directory Header record: `b"PK\x01\x02"`.
pub const CENTRAL_DIRECTORY_HEADER_SIGNATURE: u32 = 0x02014B50;

/// The tag of the Zip64 Extended Information extra field.
pub const ZIP64_EXTRA_FIELD_TAG: u16 = 0x0001;

/// Bytes of the End of Central Directory record's fixed fields, after signature and before the
/// comment length.
pub const EOCD_FIXED_LEN: u64 = 2 + 2 + 2 + 2 + 4 + 4;

/// Bytes of the Zip64 End of Central Directory Locator's fields, after the signature.
pub const ZIP64_LOCATOR_FIXED_LEN: u64 = 4 + 8 + 4;

/// Bytes of the Zip64 End of Central Directory record's fixed fields, after signature and size.
pub const ZIP64_EOCD_FIXED_LEN: u64 = 2 + 2 + 4 + 4 + 8 + 8 + 8 + 8;

/// Bytes of the Central Directory Header's fixed fields, after the signature.
pub const CDH_FIXED_LEN: u64 = 2 + 2 + 2 + 2 + 2 + 2 + 4 + 4 + 4 + 2 + 2 + 2 + 2 + 2 + 4 + 4;

/// The value that a 16-bit length field holds for a length: the length, or `0xFFFF` where it
/// does not fit.
pub open spec fn capped16(n: nat) -> u16 {
    if n > 0xFFFF {
        0xFFFF
    } else {
        n as u16
    }
}

/// The "End of Central Directory" record.
///
/// This is the only record required by the ZIP file format.
#[derive(Clone, Debug, Default, PartialEq, Eq, Hash, PartialOrd, Ord)]
pub struct EndOfCentralDirectory {
    /// Number of this disk.
    pub disk_no: u16,

    /// Number of the disk with the start of the central directory.
    pub start_central_dir_disk_no: u16,

    /// Total number of entries in the central directory on this disk.
    pub total_central_dir_entries_this_disk: u16,

    /// Total number of entries in the central directory (on all disks).
    pub total_central_dir_entries: u16,

    /// Size of the central directory.
    pub central_directory_size: u32,

    /// Offset of the start of the central directory relative to its disk.
    pub central_dir_offset_on_disk: u32,

    /// The ZIP file comment.
    ///
    /// `None` if there is a comment but it is too long for its size to fit in a 16-bit field.
    /// Empty comments are stored as `Some(v)` with an empty `v`.
    pub comment: Option<Vec<u8>>,
}

/// The contents of an End of Central Directory record, as values.
pub struct EndOfCentralDirectoryView {
    pub disk_no: u16,
    pub start_central_dir_disk_no: u16,
    pub total_central_dir_entries_this_disk: u16,
    pub total_central_dir_entries: u16,
    pub central_directory_size: u32,
    pub central_dir_offset_on_disk: u32,
    pub comment: Option<Seq<u8>>,
}

impl View for EndOfCentralDirectory {
    type V = EndOfCentralDirectoryView;

    open spec fn view(&self) -> EndOfCentralDirectoryView {
        EndOfCentralDirectoryView {
            disk_no: self.disk_no,
            start_central_dir_disk_no: self.start_central_dir_disk_no,
            total_central_dir_entries_this_disk: self.total_central_dir_entries_this_disk,
            total_central_dir_entries: self.total_central_dir_entries,
            central_directory_size: self.central_directory_size,
            central_dir_offset_on_disk: self.central_dir_offset_on_disk,
            comment: match self.comment {
                Some(c) => Some(c@),
                None => None,
            },
        }
    }
}

/// The record that follows the signature at `p`, and where it ends.
pub open spec fn decode_eocd(d: Seq<u8>, p: int) -> Result<(EndOfCentralDirectoryView, int), Error> {
    let fixed_end = p + EOCD_FIXED_LEN + 2;
    if fixed_end > d.len() {
        Err(short_read())
    } else {
        let comment_length = le16(d, p + 16);
        let comment_end = fixed_end + comment_length;
        if comment_length != 0xFFFF && comment_end > d.len() {
            Err(short_read())
        } else {
            let v = EndOfCentralDirectoryView {
                disk_no: le16(d, p),
                start_central_dir_disk_no: le16(d, p + 2),
                total_central_dir_entries_this_disk: le16(d, p + 4),
                total_central_dir_entries: le16(d, p + 6),
                central_directory_size: le32(d, p + 8),
                central_dir_offset_on_disk: le32(d, p + 12),
                comment: if comment_length == 0xFFFF {
                    None
                } else {
                    Some(d.subrange(fixed_end, comment_end))
                },
            };
            if comment_length == 0xFFFF {
                Ok((v, fixed_end))
            } else {
                Ok((v, comment_end))
            }
        }
    }
}

/// The bytes of a record, signature first.
pub open spec fn encode_eocd(v: EndOfCentralDirectoryView) -> Seq<u8> {
    le32_bytes(END_OF_CENTRAL_DIRECTORY_SIGNATURE) + le16_bytes(v.disk_no) + le16_bytes(
        v.start_central_dir_disk_no,
    ) + le16_bytes(v.total_central_dir_entries_this_disk) + le16_bytes(v.total_central_dir_entries)
        + le32_bytes(v.central_directory_size) + le32_bytes(v.central_dir_offset_on_disk)
        + match v.comment {
        Some(c) => le16_bytes(capped16(c.len())) + c,
        None => le16_bytes(0xFFFF),
    }
}

/// Whether a record reads back as itself: a comment must be shorter than the `0xFFFF` that
/// stands for an absent one.
pub open spec fn eocd_round_trips(v: EndOfCentralDirectoryView) -> bool {
    match v.comment {
        Some(c) => c.len() < 0xFFFF,
        None => true,
    }
}

/// Whether any field holds its maximum, which sends the reader to the Zip64 records.
pub open spec fn eocd_should_check_zip64(v: EndOfCentralDirectoryView) -> bool {
    v.disk_no == u16::MAX || v.start_central_dir_disk_no == u16::MAX
        || v.total_central_dir_entries_this_disk == u16::MAX || v.total_central_dir_entries
        == u16::MAX || v.central_directory_size == u32::MAX || v.central_dir_offset_on_disk
        == u32::MAX
}

/// Round trip: an End of Central Directory record whose comment length fits in its field
/// encodes to bytes that start with its signature and decode to the record itself.
pub proof fn lemma_eocd_round_trip(v: EndOfCentralDirectoryView)
    requires
        eocd_round_trips(v),
    ensures
        le32(encode_eocd(v), 0) == END_OF_CENTRAL_DIRECTORY_SIGNATURE,
        decode_eocd(encode_eocd(v), 4) == Ok::<(EndOfCentralDirectoryView, int), Error>(
            (v, encode_eocd(v).len() as int),
        ),
{
    let e = encode_eocd(v);
    assert(e.subrange(0, 4) =~= le32_bytes(END_OF_CENTRAL_DIRECTORY_SIGNATURE));
    lemma_le32_round_trip(e, 0, END_OF_CENTRAL_DIRECTORY_SIGNATURE);
    assert(e.subrange(4, 6) =~= le16_bytes(v.disk_no));
    lemma_le16_round_trip(e, 4, v.disk_no);
    assert(e.subrange(6, 8) =~= le16_bytes(v.start_central_dir_disk_no));
    lemma_le16_round_trip(e, 6, v.start_central_dir_disk_no);
    assert(e.subrange(8, 10) =~= le16_bytes(v.total_central_dir_entries_this_disk));
    lemma_le16_round_trip(e, 8, v.total_central_dir_entries_this_disk);
    assert(e.subrange(10, 12) =~= le16_bytes(v.total_central_dir_entries));
    lemma_le16_round_trip(e, 10, v.total_central_dir_entries);
    assert(e.subrange(12, 16) =~= le32_bytes(v.central_directory_size));
    lemma_le32_round_trip(e, 12, v.central_directory_size);
    assert(e.subrange(16, 20) =~= le32_bytes(v.central_dir_offset_on_disk));
    lemma_le32_round_trip(e, 16, v.central_dir_offset_on_disk);
    match v.comment {
        Some(c) => {
            assert(e.subrange(20, 22) =~= le16_bytes(c.len() as u16));
            lemma_le16_round_trip(e, 20, c.len() as u16);
            assert(e.subrange(22, 22 + c.len() as int) =~= c);
        },
        None => {
            assert(e.subrange(20, 22) =~= le16_bytes(0xFFFF));
            lemma_le16_round_trip(e, 20, 0xFFFF);
        },
    }
    assert(decode_eocd(e, 4)->Ok_0.0 == v);
}

impl EndOfCentralDirectory {
    /// The constant signature of an End of Central Directory record.
    ///
    /// It is equivalent to `b"PK\x05\x06"`, interpreted as `u32` in little-endian byte order.
    pub fn signature() -> (r: u32)
        ensures
            r == END_OF_CENTRAL_DIRECTORY_SIGNATURE,
    {
        END_OF_CENTRAL_DIRECTORY_SIGNATURE
    }

    /// The bytes that precede or frame the fixed fields: signature and comment length.
    pub fn min_len_bias() -> (r: u64)
        ensures
            r == 4 + 2,
    {
        4 + 2
    }

    /// The least number of bytes a record takes.
    pub fn min_len() -> (r: u64)
        ensures
            r == 4 + 2 + EOCD_FIXED_LEN,
    {
        Self::min_len_bias() + EOCD_FIXED_LEN
    }

    /// Write the end-of-central-directory record.
    pub fn write(&self, writer: &mut ByteCursor) -> (r: Result<(), Error>)
        requires
            old(writer).pos + encode_eocd(self@).len() <= usize::MAX,
        ensures
            r == Ok::<(), Error>(()),
            final(writer).data@ == crate::io_ext::overwrite(
                old(writer).data@,
                old(writer).pos as nat,
                encode_eocd(self@),
            ),
            final(writer).pos == old(writer).pos + encode_eocd(self@).len(),
    {
        broadcast use lemma_overwrite_at_end;

        let mut buf = ByteCursor::new(Vec::new());
        buf.write_u32_le(Self::signature());
        buf.write_u16_le(self.disk_no);
        buf.write_u16_le(self.start_central_dir_disk_no);
        buf.write_u16_le(self.total_central_dir_entries_this_disk);
        buf.write_u16_le(self.total_central_dir_entries);
        buf.write_u32_le(self.central_directory_size);
        buf.write_u32_le(self.central_dir_offset_on_disk);
        match &self.comment {
            Some(c) => {
                let length: u16 = if c.len() > 0xFFFF {
                    0xFFFF
                } else {
                    c.len() as u16
                };
                buf.write_u16_le(length);
                buf.write_all(c.as_slice());
            },
            None => {
                buf.write_u16_le(0xFFFF);
            },
        }
        assert(buf.data@ =~= encode_eocd(self@));
        writer.write_all(buf.data.as_slice());
        Ok(())
    }

    /// Read an end-of-central-directory record.
    ///
    /// It is assumed that the reader is positioned after the signature.
    pub fn read_after_signature(reader: &mut ByteCursor) -> (r: Result<Self, Error>)
        ensures
            final(reader).data@ == old(reader).data@,
            match decode_eocd(old(reader).data@, old(reader).pos as int) {
                Ok((v, end)) => r is Ok && r->Ok_0@ == v && final(reader).pos == end,
                Err(e) => r == Err::<Self, Error>(e),
            },
    {
        let disk_no = reader.read_u16_le()?;
        let start_central_dir_disk_no = reader.read_u16_le()?;
        let total_central_dir_entries_this_disk = reader.read_u16_le()?;
        let total_central_dir_entries = reader.read_u16_le()?;
        let central_directory_size = reader.read_u32_le()?;
        let central_dir_offset_on_disk = reader.read_u32_le()?;

        let comment_length = reader.read_u16_le()?;
        let comment = if comment_length == 0xFFFF {
            None
        } else {
            Some(reader.read_bytes(comment_length as u64)?)
        };

        Ok(EndOfCentralDirectory {
            disk_no,
            start_central_dir_disk_no,
            total_central_dir_entries_this_disk,
            total_central_dir_entries,
            central_directory_size,
            central_dir_offset_on_disk,
            comment,
        })
    }

    /// Whether to check for Zip64 records as well.
    ///
    /// The ZIP specification states that if at least one of the fields in this record is greater
    /// than its maximum value (0xFFFF or 0xFFFFFFFF, depending on the field size), the information
    /// is to be extracted from the equivalent Zip64 record instead.
    pub fn should_check_zip64(&self) -> (r: bool)
        ensures
            r == eocd_should_check_zip64(self@),
    {
        self.disk_no == u16::MAX || self.start_central_dir_disk_no == u16::MAX
            || self.total_central_dir_entries_this_disk == u16::MAX
            || self.total_central_dir_entries == u16::MAX || self.central_directory_size
            == u32::MAX || self.central_dir_offset_on_disk == u32::MAX
    }
}

/// The "Zip64 End of Central Directory Locator" record.
///
/// This is used to find the Zip64 End of Central Directory record. It must be on the same disk as
/// the End of Central Directory record and is generally assumed to directly precede it. The Zip64
/// End of Central Directory record itself may be on a different disk.
#[derive(Clone, Copy, Debug, Default, PartialEq, Eq, Hash, PartialOrd, Ord)]
pub struct Zip64EndOfCentralDirectoryLocator {
    /// Number of the disk with the Zip64 End of Central Directory record.
    pub disk_no: u32,

    /// Offset of the Zip64 End of Central Directory record relative to its disk.
    pub offset_on_disk: u64,

    /// The total number of disks in this archive.
    pub total_disks: u32,
}

/// The locator that follows the signature at `p`; it ends at `p + 16`.
pub open spec fn decode_zip64_locator(d: Seq<u8>, p: int) -> Result<
    Zip64EndOfCentralDirectoryLocator,
    Error,
> {
    if p + ZIP64_LOCATOR_FIXED_LEN > d.len() {
        Err(short_read())
    } else {
        Ok(
            Zip64EndOfCentralDirectoryLocator {
                disk_no: le32(d, p),
                offset_on_disk: le64(d, p + 4),
                total_disks: le32(d, p + 12),
            },
        )
    }
}

/// The bytes of a locator, signature first.
pub open spec fn encode_zip64_locator(v: Zip64EndOfCentralDirectoryLocator) -> Seq<u8> {
    le32_bytes(ZIP64_LOCATOR_SIGNATURE) + le32_bytes(v.disk_no) + le64_bytes(v.offset_on_disk)
        + le32_bytes(v.total_disks)
}

/// Round trip: a Zip64 End of Central Directory Locator encodes to bytes that start with its
/// signature and decode to the locator itself.
pub proof fn lemma_zip64_locator_round_trip(v: Zip64EndOfCentralDirectoryLocator)
    ensures
        encode_zip64_locator(v).len() == 4 + ZIP64_LOCATOR_FIXED_LEN,
        le32(encode_zip64_locator(v), 0) == ZIP64_LOCATOR_SIGNATURE,
        decode_zip64_locator(encode_zip64_locator(v), 4) == Ok::<
            Zip64EndOfCentralDirectoryLocator,
            Error,
        >(v),
{
    let e = encode_zip64_locator(v);
    assert(e.subrange(0, 4) =~= le32_bytes(ZIP64_LOCATOR_SIGNATURE));
    lemma_le32_round_trip(e, 0, ZIP64_LOCATOR_SIGNATURE);
    assert(e.subrange(4, 8) =~= le32_bytes(v.disk_no));
    lemma_le32_round_trip(e, 4, v.disk_no);
    assert(e.subrange(8, 16) =~= le64_bytes(v.offset_on_disk));
    lemma_le64_round_trip(e, 8, v.offset_on_disk);
    assert(e.subrange(16, 20) =~= le32_bytes(v.total_disks));
    lemma_le32_round_trip(e, 16, v.total_disks);
}

impl Zip64EndOfCentralDirectoryLocator {
    /// The constant signature of a Zip64 End of Central Directory locator record.
    ///
    /// It is equivalent to `b"PK\x06\x07"`, interpreted as `u32` in little-endian byte order.
    pub fn signature() -> (r: u32)
        ensures
            r == ZIP64_LOCATOR_SIGNATURE,
    {
        ZIP64_LOCATOR_SIGNATURE
    }

    /// The bytes that precede the fixed fields: the signature.
    pub fn min_len_bias() -> (r: u64)
        ensures
            r == 4,
    {
        4
    }

    /// The number of bytes a record takes.
    pub fn min_len() -> (r: u64)
        ensures
            r == 4 + ZIP64_LOCATOR_FIXED_LEN,
    {
        Self::min_len_bias() + ZIP64_LOCATOR_FIXED_LEN
    }

    /// Write the Zip64 end-of-central-directory locator record.
    pub fn write(&self, writer: &mut ByteCursor) -> (r: Result<(), Error>)
        requires
            old(writer).pos + 4 + ZIP64_LOCATOR_FIXED_LEN <= usize::MAX,
        ensures
            r == Ok::<(), Error>(()),
            final(writer).data@ == crate::io_ext::overwrite(
                old(writer).data@,
                old(writer).pos as nat,
                encode_zip64_locator(*self),
            ),
            final(writer).pos == old(writer).pos + 4 + ZIP64_LOCATOR_FIXED_LEN,
    {
        broadcast use lemma_overwrite_at_end;

        let mut buf = ByteCursor::new(Vec::new());
        buf.write_u32_le(Self::signature());
        buf.write_u32_le(self.disk_no);
        buf.write_u64_le(self.offset_on_disk);
        buf.write_u32_le(self.total_disks);
        assert(buf.data@ =~= encode_zip64_locator(*self));
        writer.write_all(buf.data.as_slice());
        Ok(())
    }

    /// Read a Zip64 end-of-central-directory locator record.
    ///
    /// It is assumed that the reader is positioned after the signature.
    pub fn read_after_signature(reader: &mut ByteCursor) -> (r: Result<Self, Error>)
        ensures
            final(reader).data@ == old(reader).data@,
            r == decode_zip64_locator(old(reader).data@, old(reader).pos as int),
            r is Ok ==> final(reader).pos == old(reader).pos + ZIP64_LOCATOR_FIXED_LEN,
    {
        let disk_no = reader.read_u32_le()?;
        let offset_on_disk = reader.read_u64_le()?;
        let total_disks = reader.read_u32_le()?;

        Ok(Zip64EndOfCentralDirectoryLocator { disk_no, offset_on_disk, total_disks })
    }
}

/// The "Zip64 End of Central Directory" record.
///
/// This is used to augment the End of Central Directory record with fields with a larger value
/// range, allowing larger files.
#[derive(Clone, Debug, Default, PartialEq, Eq, Hash, PartialOrd, Ord)]
pub struct Zip64EndOfCentralDirectory {
    /// ZIP version supported by the software that created the file.
    pub creator_version: u16,

    /// ZIP version required to extract this ZIP file.
    pub required_version: u16,

    /// Number of this disk.
    pub disk_no: u32,

    /// Number of the disk with the start of the central directory.
    pub start_central_dir_disk_no: u32,

    /// Total number of entries in the central directory on this disk.
    pub total_central_dir_entries_this_disk: u64,

    /// Total number of entries in the central directory (on all disks).
    pub total_central_dir_entries: u64,

    /// Size of the central directory.
    pub central_directory_size: u64,

    /// Offset of the start of the central directory relative to its disk.
    pub central_dir_offset_on_disk: u64,

    /// Zip64 extensible data sector contents.
    pub extensible_data_sector: Vec<u8>,
}

/// The contents of a Zip64 End of Central Directory record, as values.
pub struct Zip64EndOfCentralDirectoryView {
    pub creator_version: u16,
    pub required_version: u16,
    pub disk_no: u32,
    pub start_central_dir_disk_no: u32,
    pub total_central_dir_entries_this_disk: u64,
    pub total_central_dir_entries: u64,
    pub central_directory_size: u64,
    pub central_dir_offset_on_disk: u64,
    pub extensible_data_sector: Seq<u8>,
}

impl View for Zip64EndOfCentralDirectory {
    type V = Zip64EndOfCentralDirectoryView;

    open spec fn view(&self) -> Zip64EndOfCentralDirectoryView {
        Zip64EndOfCentralDirectoryView {
            creator_version: self.creator_version,
            required_version: self.required_version,
            disk_no: self.disk_no,
            start_central_dir_disk_no: self.start_central_dir_disk_no,
            total_central_dir_entries_this_disk: self.total_central_dir_entries_this_disk,
            total_central_dir_entries: self.total_central_dir_entries,
            central_directory_size: self.central_directory_size,
            central_dir_offset_on_disk: self.central_dir_offset_on_disk,
            extensible_data_sector: self.extensible_data_sector@,
        }
    }
}

/// The record that follows the signature at `p`, and where it ends.
///
/// Its size field counts the bytes after itself: the fixed fields, then the extensible data
/// sector.
pub open spec fn decode_zip64_eocd(d: Seq<u8>, p: int) -> Result<
    (Zip64EndOfCentralDirectoryView, int),
    Error,
> {
    if p + 8 > d.len() {
        Err(short_read())
    } else {
        let size = le64(d, p);
        let q = p + 8;
        if size < ZIP64_EOCD_FIXED_LEN {
            Err(Error::RecordTooSmall)
        } else if q + size > d.len() {
            Err(short_read())
        } else {
            Ok(
                (
                    Zip64EndOfCentralDirectoryView {
                        creator_version: le16(d, q),
                        required_version: le16(d, q + 2),
                        disk_no: le32(d, q + 4),
                        start_central_dir_disk_no: le32(d, q + 8),
                        total_central_dir_entries_this_disk: le64(d, q + 12),
                        total_central_dir_entries: le64(d, q + 20),
                        central_directory_size: le64(d, q + 28),
                        central_dir_offset_on_disk: le64(d, q + 36),
                        extensible_data_sector: d.subrange(q + ZIP64_EOCD_FIXED_LEN, q + size),
                    },
                    q + size,
                ),
            )
        }
    }
}

/// The bytes of a record, signature first.
pub open spec fn encode_zip64_eocd(v: Zip64EndOfCentralDirectoryView) -> Seq<u8> {
    le32_bytes(ZIP64_END_OF_CENTRAL_DIRECTORY_SIGNATURE) + le64_bytes(
        (ZIP64_EOCD_FIXED_LEN + v.extensible_data_sector.len()) as u64,
    ) + le16_bytes(v.creator_version) + le16_bytes(v.required_version) + le32_bytes(v.disk_no)
        + le32_bytes(v.start_central_dir_disk_no) + le64_bytes(
        v.total_central_dir_entries_this_disk,
    ) + le64_bytes(v.total_central_dir_entries) + le64_bytes(v.central_directory_size)
        + le64_bytes(v.central_dir_offset_on_disk) + v.extensible_data_sector
}

/// Round trip: a Zip64 End of Central Directory record whose size fits in 64 bits encodes to
/// bytes that start with its signature and decode to the record itself.
pub proof fn lemma_zip64_eocd_round_trip(v: Zip64EndOfCentralDirectoryView)
    requires
        ZIP64_EOCD_FIXED_LEN + v.extensible_data_sector.len() <= u64::MAX,
    ensures
        le32(encode_zip64_eocd(v), 0) == ZIP64_END_OF_CENTRAL_DIRECTORY_SIGNATURE,
        decode_zip64_eocd(encode_zip64_eocd(v), 4) == Ok::<
            (Zip64EndOfCentralDirectoryView, int),
            Error,
        >((v, encode_zip64_eocd(v).len() as int)),
{
    let e = encode_zip64_eocd(v);
    let size = (ZIP64_EOCD_FIXED_LEN + v.extensible_data_sector.len()) as u64;
    assert(e.subrange(0, 4) =~= le32_bytes(ZIP64_END_OF_CENTRAL_DIRECTORY_SIGNATURE));
    lemma_le32_round_trip(e, 0, ZIP64_END_OF_CENTRAL_DIRECTORY_SIGNATURE);
    assert(e.subrange(4, 12) =~= le64_bytes(size));
    lemma_le64_round_trip(e, 4, size);
    assert(e.subrange(12, 14) =~= le16_bytes(v.creator_version));
    lemma_le16_round_trip(e, 12, v.creator_version);
    assert(e.subrange(14, 16) =~= le16_bytes(v.required_version));
    lemma_le16_round_trip(e, 14, v.required_version);
    assert(e.subrange(16, 20) =~= le32_bytes(v.disk_no));
    lemma_le32_round_trip(e, 16, v.disk_no);
    assert(e.subrange(20, 24) =~= le32_bytes(v.start_central_dir_disk_no));
    lemma_le32_round_trip(e, 20, v.start_central_dir_disk_no);
    assert(e.subrange(24, 32) =~= le64_bytes(v.total_central_dir_entries_this_disk));
    lemma_le64_round_trip(e, 24, v.total_central_dir_entries_this_disk);
    assert(e.subrange(32, 40) =~= le64_bytes(v.total_central_dir_entries));
    lemma_le64_round_trip(e, 32, v.total_central_dir_entries);
    assert(e.subrange(40, 48) =~= le64_bytes(v.central_directory_size));
    lemma_le64_round_trip(e, 40, v.central_directory_size);
    assert(e.subrange(48, 56) =~= le64_bytes(v.central_dir_offset_on_disk));
    lemma_le64_round_trip(e, 48, v.central_dir_offset_on_disk);
    assert(e.subrange(56, e.len() as int) =~= v.extensible_data_sector);
    assert(decode_zip64_eocd(e, 4)->Ok_0.0 == v);
}

impl Zip64EndOfCentralDirectory {
    /// The constant signature of a Zip64 End of Central Directory record.
    ///
    /// It is equivalent to `b"PK\x06\x06"`, interpreted as `u32` in little-endian byte order.
    pub fn signature() -> (r: u32)
        ensures
            r == ZIP64_END_OF_CENTRAL_DIRECTORY_SIGNATURE,
    {
        ZIP64_END_OF_CENTRAL_DIRECTORY_SIGNATURE
    }

    /// The bytes that precede the fixed fields: signature and size.
    pub fn min_len_bias() -> (r: u64)
        ensures
            r == 4 + 8,
    {
        4 + 8
    }

    /// The least number of bytes a record takes.
    pub fn min_len() -> (r: u64)
        ensures
            r == 4 + 8 + ZIP64_EOCD_FIXED_LEN,
    {
        Self::min_len_bias() + ZIP64_EOCD_FIXED_LEN
    }

    /// Write the Zip64 end-of-central-directory record.
    ///
    /// Its size field counts the fixed fields and the extensible data sector, but neither the
    /// signature nor the size field itself.
    pub fn write(&self, writer: &mut ByteCursor) -> (r: Result<(), Error>)
        requires
            old(writer).pos + encode_zip64_eocd(self@).len() <= usize::MAX,
        ensures
            r == Ok::<(), Error>(()),
            final(writer).data@ == crate::io_ext::overwrite(
                old(writer).data@,
                old(writer).pos as nat,
                encode_zip64_eocd(self@),
            ),
            final(writer).pos == old(writer).pos + encode_zip64_eocd(self@).len(),
    {
        broadcast use lemma_overwrite_at_end;

        let length: u64 = ZIP64_EOCD_FIXED_LEN + self.extensible_data_sector.len() as u64;

        let mut buf = ByteCursor::new(Vec::new());
        buf.write_u32_le(Self::signature());
        buf.write_u64_le(length);
        buf.write_u16_le(self.creator_version);
        buf.write_u16_le(self.required_version);
        buf.write_u32_le(self.disk_no);
        buf.write_u32_le(self.start_central_dir_disk_no);
        buf.write_u64_le(self.total_central_dir_entries_this_disk);
        buf.write_u64_le(self.total_central_dir_entries);
        buf.write_u64_le(self.central_directory_size);
        buf.write_u64_le(self.central_dir_offset_on_disk);
        buf.write_all(self.extensible_data_sector.as_slice());
        assert(buf.data@ =~= encode_zip64_eocd(self@));
        writer.write_all(buf.data.as_slice());
        Ok(())
    }

    /// Read a Zip64 end-of-central-directory record.
    ///
    /// It is assumed that the reader is positioned after the signature.
    pub fn read_after_signature(reader: &mut ByteCursor) -> (r: Result<Self, Error>)
        ensures
            final(reader).data@ == old(reader).data@,
            match decode_zip64_eocd(old(reader).data@, old(reader).pos as int) {
                Ok((v, end)) => r is Ok && r->Ok_0@ == v && final(reader).pos == end,
                Err(e) => r == Err::<Self, Error>(e),
            },
            r == Err::<Self, Error>(Error::RecordTooSmall) ==> final(reader).pos == old(reader).pos
                + 8,
    {
        let size = reader.read_u64_le()?;
        if size < ZIP64_EOCD_FIXED_LEN {
            return Err(Error::RecordTooSmall);
        }
        let extensible_length = size - ZIP64_EOCD_FIXED_LEN;

        let creator_version = reader.read_u16_le()?;
        let required_version = reader.read_u16_le()?;
        let disk_no = reader.read_u32_le()?;
        let start_central_dir_disk_no = reader.read_u32_le()?;
        let total_central_dir_entries_this_disk = reader.read_u64_le()?;
        let total_central_dir_entries = reader.read_u64_le()?;
        let central_directory_size = reader.read_u64_le()?;
        let central_dir_offset_on_disk = reader.read_u64_le()?;

        let extensible_data_sector = reader.read_bytes(extensible_length)?;

        Ok(Zip64EndOfCentralDirectory {
            creator_version,
            required_version,
            disk_no,
            start_central_dir_disk_no,
            total_central_dir_entries_this_disk,
            total_central_dir_entries,
            central_directory_size,
            central_dir_offset_on_disk,
            extensible_data_sector,
        })
    }
}

/// The "Central Directory Header" record.
///
/// This contains information about a single directory entry.
#[derive(Clone, Debug, Default, PartialEq, Eq, Hash, PartialOrd, Ord)]
pub struct CentralDirectoryHeader {
    /// ZIP version supported by the software that created this entry.
    pub creator_version: u16,

    /// ZIP version required to extract this entry.
    pub required_version: u16,

    /// General-purpose field of bit flags.
    pub general_purpose_bit_flag: u16,

    /// Method with which the file was compressed.
    pub compression_method: u16,

    /// The file's time of last modification.
    pub last_mod_file_time: u16,

    /// The file's date of last modification.
    pub last_mod_file_date: u16,

    /// CRC-32 checksum of the data.
    pub crc32: u32,

    /// The compressed size of this file.
    pub compressed_size: u32,

    /// The uncompressed size of this file.
    pub uncompressed_size: u32,

    /// The file name of this entry.
    pub file_name: Vec<u8>,

    /// Data in the extra field of this entry.
    pub extra_fields: Vec<u8>,

    /// The comment accompanying the file.
    pub file_comment: Vec<u8>,

    /// The number of the disk containing the first chunk of this file.
    pub disk_number_start: u16,

    /// The ZIP-internal attributes of this file.
    pub internal_attributes: u16,

    /// External attributes of this file.
    pub external_attributes: u32,

    /// Relative offset to the local file header.
    pub local_header_relative_offset: i32,
}

/// The contents of a Central Directory Header record, as values.
pub struct CentralDirectoryHeaderView {
    pub creator_version: u16,
    pub required_version: u16,
    pub general_purpose_bit_flag: u16,
    pub compression_method: u16,
    pub last_mod_file_time: u16,
    pub last_mod_file_date: u16,
    pub crc32: u32,
    pub compressed_size: u32,
    pub uncompressed_size: u32,
    pub file_name: Seq<u8>,
    pub extra_fields: Seq<u8>,
    pub file_comment: Seq<u8>,
    pub disk_number_start: u16,
    pub internal_attributes: u16,
    pub external_attributes: u32,
    pub local_header_relative_offset: i32,
}

impl View for CentralDirectoryHeader {
    type V = CentralDirectoryHeaderView;

    open spec fn view(&self) -> CentralDirectoryHeaderView {
        CentralDirectoryHeaderView {
            creator_version: self.creator_version,
            required_version: self.required_version,
            general_purpose_bit_flag: self.general_purpose_bit_flag,
            compression_method: self.compression_method,
            last_mod_file_time: self.last_mod_file_time,
            last_mod_file_date: self.last_mod_file_date,
            crc32: self.crc32,
            compressed_size: self.compressed_size,
            uncompressed_size: self.uncompressed_size,
            file_name: self.file_name@,
            extra_fields: self.extra_fields@,
            file_comment: self.file_comment@,
            disk_number_start: self.disk_number_start,
            internal_attributes: self.internal_attributes,
            external_attributes: self.external_attributes,
            local_header_relative_offset: self.local_header_relative_offset,
        }
    }
}

/// The record that follows the signature at `p`, and where it ends.
///
/// Three length fields among the fixed fields give the lengths of the file name, the extra
/// field and the file comment, which follow the fixed fields in that order.
pub open spec fn decode_cdh(d: Seq<u8>, p: int) -> Result<(CentralDirectoryHeaderView, int), Error> {
    let q = p + CDH_FIXED_LEN;
    if q > d.len() {
        Err(short_read())
    } else {
        let name_end = q + le16(d, p + 24);
        let extra_end = name_end + le16(d, p + 26);
        let comment_end = extra_end + le16(d, p + 28);
        if comment_end > d.len() {
            Err(short_read())
        } else {
            Ok(
                (
                    CentralDirectoryHeaderView {
                        creator_version: le16(d, p),
                        required_version: le16(d, p + 2),
                        general_purpose_bit_flag: le16(d, p + 4),
                        compression_method: le16(d, p + 6),
                        last_mod_file_time: le16(d, p + 8),
                        last_mod_file_date: le16(d, p + 10),
                        crc32: le32(d, p + 12),
                        compressed_size: le32(d, p + 16),
                        uncompressed_size: le32(d, p + 20),
                        file_name: d.subrange(q, name_end),
                        extra_fields: d.subrange(name_end, extra_end),
                        file_comment: d.subrange(extra_end, comment_end),
                        disk_number_start: le16(d, p + 30),
                        internal_attributes: le16(d, p + 32),
                        external_attributes: le32(d, p + 34),
                        local_header_relative_offset: le32(d, p + 38) as i32,
                    },
                    comment_end,
                ),
            )
        }
    }
}

/// The signature and fixed fields of a record.
pub open spec fn cdh_head(v: CentralDirectoryHeaderView) -> Seq<u8> {
    le32_bytes(CENTRAL_DIRECTORY_HEADER_SIGNATURE) + le16_bytes(v.creator_version) + le16_bytes(
        v.required_version,
    ) + le16_bytes(v.general_purpose_bit_flag) + le16_bytes(v.compression_method) + le16_bytes(
        v.last_mod_file_time,
    ) + le16_bytes(v.last_mod_file_date) + le32_bytes(v.crc32) + le32_bytes(v.compressed_size)
        + le32_bytes(v.uncompressed_size) + le16_bytes(capped16(v.file_name.len())) + le16_bytes(
        capped16(v.extra_fields.len()),
    ) + le16_bytes(capped16(v.file_comment.len())) + le16_bytes(v.disk_number_start)
        + le16_bytes(v.internal_attributes) + le32_bytes(v.external_attributes) + le32_bytes(
        v.local_header_relative_offset as u32,
    )
}

/// The bytes of a record, signature first.
pub open spec fn encode_cdh(v: CentralDirectoryHeaderView) -> Seq<u8> {
    cdh_head(v) + v.file_name + v.extra_fields + v.file_comment
}

/// Whether a record reads back as itself: each variable-length field must fit in its length
/// field.
pub open spec fn cdh_round_trips(v: CentralDirectoryHeaderView) -> bool {
    v.file_name.len() <= 0xFFFF && v.extra_fields.len() <= 0xFFFF && v.file_comment.len()
        <= 0xFFFF
}

/// The fixed fields of a record read back from its head.
#[verifier::rlimit(40)]
proof fn lemma_cdh_head_fields(v: CentralDirectoryHeaderView)
    ensures
        cdh_head(v).len() == 4 + CDH_FIXED_LEN,
        le32(cdh_head(v), 0) == CENTRAL_DIRECTORY_HEADER_SIGNATURE,
        le16(cdh_head(v), 4) == v.creator_version,
        le16(cdh_head(v), 6) == v.required_version,
        le16(cdh_head(v), 8) == v.general_purpose_bit_flag,
        le16(cdh_head(v), 10) == v.compression_method,
        le16(cdh_head(v), 12) == v.last_mod_file_time,
        le16(cdh_head(v), 14) == v.last_mod_file_date,
        le32(cdh_head(v), 16) == v.crc32,
        le32(cdh_head(v), 20) == v.compressed_size,
        le32(cdh_head(v), 24) == v.uncompressed_size,
        le16(cdh_head(v), 28) == capped16(v.file_name.len()),
        le16(cdh_head(v), 30) == capped16(v.extra_fields.len()),
        le16(cdh_head(v), 32) == capped16(v.file_comment.len()),
        le16(cdh_head(v), 34) == v.disk_number_start,
        le16(cdh_head(v), 36) == v.internal_attributes,
        le32(cdh_head(v), 38) == v.external_attributes,
        le32(cdh_head(v), 42) as i32 == v.local_header_relative_offset,
{
    let h = cdh_head(v);
    assert(le32(h, 0) == CENTRAL_DIRECTORY_HEADER_SIGNATURE) by {
        assert(h.subrange(0, 4) =~= le32_bytes(CENTRAL_DIRECTORY_HEADER_SIGNATURE));
        lemma_le32_round_trip(h, 0, CENTRAL_DIRECTORY_HEADER_SIGNATURE);
    }
    assert(le16(h, 4) == v.creator_version) by {
        assert(h.subrange(4, 6) =~= le16_bytes(v.creator_version));
        lemma_le16_round_trip(h, 4, v.creator_version);
    }
    assert(le16(h, 6) == v.required_version) by {
        assert(h.subrange(6, 8) =~= le16_bytes(v.required_version));
        lemma_le16_round_trip(h, 6, v.required_version);
    }
    assert(le16(h, 8) == v.general_purpose_bit_flag) by {
        assert(h.subrange(8, 10) =~= le16_bytes(v.general_purpose_bit_flag));
        lemma_le16_round_trip(h, 8, v.general_purpose_bit_flag);
    }
    assert(le16(h, 10) == v.compression_method) by {
        assert(h.subrange(10, 12) =~= le16_bytes(v.compression_method));
        lemma_le16_round_trip(h, 10, v.compression_method);
    }
    assert(le16(h, 12) == v.last_mod_file_time) by {
        assert(h.subrange(12, 14) =~= le16_bytes(v.last_mod_file_time));
        lemma_le16_round_trip(h, 12, v.last_mod_file_time);
    }
    assert(le16(h, 14) == v.last_mod_file_date) by {
        assert(h.subrange(14, 16) =~= le16_bytes(v.last_mod_file_date));
        lemma_le16_round_trip(h, 14, v.last_mod_file_date);
    }
    assert(le32(h, 16) == v.crc32) by {
        assert(h.subrange(16, 20) =~= le32_bytes(v.crc32));
        lemma_le32_round_trip(h, 16, v.crc32);
    }
    assert(le32(h, 20) == v.compressed_size) by {
        assert(h.subrange(20, 24) =~= le32_bytes(v.compressed_size));
        lemma_le32_round_trip(h, 20, v.compressed_size);
    }
    assert(le32(h, 24) == v.uncompressed_size) by {
        assert(h.subrange(24, 28) =~= le32_bytes(v.uncompressed_size));
        lemma_le32_round_trip(h, 24, v.uncompressed_size);
    }
    assert(le16(h, 28) == capped16(v.file_name.len())) by {
        assert(h.subrange(28, 30) =~= le16_bytes(capped16(v.file_name.len())));
        lemma_le16_round_trip(h, 28, capped16(v.file_name.len()));
    }
    assert(le16(h, 30) == capped16(v.extra_fields.len())) by {
        assert(h.subrange(30, 32) =~= le16_bytes(capped16(v.extra_fields.len())));
        lemma_le16_round_trip(h, 30, capped16(v.extra_fields.len()));
    }
    assert(le16(h, 32) == capped16(v.file_comment.len())) by {
        assert(h.subrange(32, 34) =~= le16_bytes(capped16(v.file_comment.len())));
        lemma_le16_round_trip(h, 32, capped16(v.file_comment.len()));
    }
    assert(le16(h, 34) == v.disk_number_start) by {
        assert(h.subrange(34, 36) =~= le16_bytes(v.disk_number_start));
        lemma_le16_round_trip(h, 34, v.disk_number_start);
    }
    assert(le16(h, 36) == v.internal_attributes) by {
        assert(h.subrange(36, 38) =~= le16_bytes(v.internal_attributes));
        lemma_le16_round_trip(h, 36, v.internal_attributes);
    }
    assert(le32(h, 38) == v.external_attributes) by {
        assert(h.subrange(38, 42) =~= le32_bytes(v.external_attributes));
        lemma_le32_round_trip(h, 38, v.external_attributes);
    }
    assert(le32(h, 42) == v.local_header_relative_offset as u32) by {
        assert(h.subrange(42, 46) =~= le32_bytes(v.local_header_relative_offset as u32));
        lemma_le32_round_trip(h, 42, v.local_header_relative_offset as u32);
    }
    let x = v.local_header_relative_offset;
    assert((x as u32) as i32 == x) by (bit_vector);
}

/// Round trip: a Central Directory Header whose file name, extra field and comment fit in their
/// length fields encodes to bytes that start with its signature and decode to the record itself.
pub proof fn lemma_cdh_round_trip(v: CentralDirectoryHeaderView)
    requires
        cdh_round_trips(v),
    ensures
        le32(encode_cdh(v), 0) == CENTRAL_DIRECTORY_HEADER_SIGNATURE,
        decode_cdh(encode_cdh(v), 4) == Ok::<(CentralDirectoryHeaderView, int), Error>(
            (v, encode_cdh(v).len() as int),
        ),
{
    let h = cdh_head(v);
    let e = encode_cdh(v);
    let n = v.file_name.len() as int;
    let m = v.extra_fields.len() as int;
    let k = v.file_comment.len() as int;
    lemma_cdh_head_fields(v);
    assert(forall|i: int| 0 <= i < 46 ==> e[i] == h[i]);
    assert(e.subrange(46, 46 + n) =~= v.file_name);
    assert(e.subrange(46 + n, 46 + n + m) =~= v.extra_fields);
    assert(e.subrange(46 + n + m, 46 + n + m + k) =~= v.file_comment);
    assert(decode_cdh(e, 4)->Ok_0.0 == v);
}

impl CentralDirectoryHeader {
    /// The constant signature of a Central Directory Header record.
    ///
    /// It is equivalent to `b"PK\x01\x02"`, interpreted as `u32` in little-endian byte order.
    pub fn signature() -> (r: u32)
        ensures
            r == CENTRAL_DIRECTORY_HEADER_SIGNATURE,
    {
        CENTRAL_DIRECTORY_HEADER_SIGNATURE
    }

    /// The bytes that precede the fixed fields: the signature.
    pub fn min_len_bias() -> (r: u64)
        ensures
            r == 4,
    {
        4
    }

    /// The least number of bytes a record takes.
    pub fn min_len() -> (r: u64)
        ensures
            r == 4 + CDH_FIXED_LEN,
    {
        Self::min_len_bias() + CDH_FIXED_LEN
    }

    /// Write the central directory header record.
    ///
    /// A length that does not fit in its 16-bit field is written as `0xFFFF`.
    pub fn write(&self, writer: &mut ByteCursor) -> (r: Result<(), Error>)
        requires
            old(writer).pos + encode_cdh(self@).len() <= usize::MAX,
        ensures
            r == Ok::<(), Error>(()),
            final(writer).data@ == crate::io_ext::overwrite(
                old(writer).data@,
                old(writer).pos as nat,
                encode_cdh(self@),
            ),
            final(writer).pos == old(writer).pos + encode_cdh(self@).len(),
    {
        broadcast use lemma_overwrite_at_end;

        let file_name_length: u16 = if self.file_name.len() > 0xFFFF {
            0xFFFF
        } else {
            self.file_name.len() as u16
        };
        let extra_field_length: u16 = if self.extra_fields.len() > 0xFFFF {
            0xFFFF
        } else {
            self.extra_fields.len() as u16
        };
        let file_comment_length: u16 = if self.file_comment.len() > 0xFFFF {
            0xFFFF
        } else {
            self.file_comment.len() as u16
        };

        let mut buf = ByteCursor::new(Vec::new());
        buf.write_u32_le(Self::signature());
        buf.write_u16_le(self.creator_version);
        buf.write_u16_le(self.required_version);
        buf.write_u16_le(self.general_purpose_bit_flag);
        buf.write_u16_le(self.compression_method);
        buf.write_u16_le(self.last_mod_file_time);
        buf.write_u16_le(self.last_mod_file_date);
        buf.write_u32_le(self.crc32);
        buf.write_u32_le(self.compressed_size);
        buf.write_u32_le(self.uncompressed_size);
        buf.write_u16_le(file_name_length);
        buf.write_u16_le(extra_field_length);
        buf.write_u16_le(file_comment_length);
        buf.write_u16_le(self.disk_number_start);
        buf.write_u16_le(self.internal_attributes);
        buf.write_u32_le(self.external_attributes);
        buf.write_i32_le(self.local_header_relative_offset);
        assert(buf.data@ =~= cdh_head(self@));

        buf.write_all(self.file_name.as_slice());
        buf.write_all(self.extra_fields.as_slice());
        buf.write_all(self.file_comment.as_slice());
        assert(buf.data@ =~= encode_cdh(self@));
        writer.write_all(buf.data.as_slice());
        Ok(())
    }

    /// Read a central directory header record.
    ///
    /// It is assumed that the reader is positioned after the signature.
    pub fn read_after_signature(reader: &mut ByteCursor) -> (r: Result<Self, Error>)
        ensures
            final(reader).data@ == old(reader).data@,
            match decode_cdh(old(reader).data@, old(reader).pos as int) {
                Ok((v, end)) => r is Ok && r->Ok_0@ == v && final(reader).pos == end,
                Err(e) => r == Err::<Self, Error>(e),
            },
    {
        let creator_version = reader.read_u16_le()?;
        let required_version = reader.read_u16_le()?;
        let general_purpose_bit_flag = reader.read_u16_le()?;
        let compression_method = reader.read_u16_le()?;
        let last_mod_file_time = reader.read_u16_le()?;
        let last_mod_file_date = reader.read_u16_le()?;
        let crc32 = reader.read_u32_le()?;
        let compressed_size = reader.read_u32_le()?;
        let uncompressed_size = reader.read_u32_le()?;
        let file_name_length = reader.read_u16_le()?;
        let extra_field_length = reader.read_u16_le()?;
        let file_comment_length = reader.read_u16_le()?;
        let disk_number_start = reader.read_u16_le()?;
        let internal_attributes = reader.read_u16_le()?;
        let external_attributes = reader.read_u32_le()?;
        let local_header_relative_offset = reader.read_i32_le()?;

        let file_name = reader.read_bytes(file_name_length as u64)?;
        let extra_fields = reader.read_bytes(extra_field_length as u64)?;
        let file_comment = reader.read_bytes(file_comment_length as u64)?;

        Ok(CentralDirectoryHeader {
            creator_version,
            required_version,
            general_purpose_bit_flag,
            compression_method,
            last_mod_file_time,
            last_mod_file_date,
            crc32,
            compressed_size,
            uncompressed_size,
            file_name,
            extra_fields,
            file_comment,
            disk_number_start,
            internal_attributes,
            external_attributes,
            local_header_relative_offset,
        })
    }
}

/// The "Zip64 Extended Information Extra Field" record.
///
/// This is one of the possible fields in a central directory entry's extra field data.
#[derive(Clone, Copy, Debug, Default, PartialEq, Eq, Hash, PartialOrd, Ord)]
pub struct Zip64ExtraField {
    /// The uncompressed size of this file.
    pub uncompressed_size: Option<u64>,

    /// The compressed size of this file.
    pub compressed_size: Option<u64>,

    /// Relative offset to the local file header.
    pub local_header_relative_offset: Option<i64>,

    /// The number of the disk containing the first chunk of this file.
    pub disk_number_start: Option<u32>,
}

/// The number of bytes a Zip64 extra field holds for the given central directory values: eight
/// for each size and for the offset, four for the disk number, where that value is at its
/// maximum (`-1` for the signed offset).
pub open spec fn zip64_extra_expected_len(
    cdir_uncompressed_size: u32,
    cdir_compressed_size: u32,
    cdir_local_header_relative_offset: i32,
    cdir_disk_number_start: u16,
) -> u16 {
    ((if cdir_uncompressed_size == u32::MAX {
        8int
    } else {
        0
    }) + (if cdir_compressed_size == u32::MAX {
        8int
    } else {
        0
    }) + (if cdir_local_header_relative_offset == -1 {
        8int
    } else {
        0
    }) + (if cdir_disk_number_start == u16::MAX {
        4int
    } else {
        0
    })) as u16
}

/// The field that follows the tag at `p`, for the given central directory values, and where it
/// ends.
///
/// Only the values that are at their maximum have a wider counterpart in the field, in the order
/// uncompressed size, compressed size, offset, disk number. The length must be exactly theirs.
pub open spec fn decode_zip64_extra(
    d: Seq<u8>,
    p: int,
    cdir_uncompressed_size: u32,
    cdir_compressed_size: u32,
    cdir_local_header_relative_offset: i32,
    cdir_disk_number_start: u16,
) -> Result<(Zip64ExtraField, int), Error> {
    if p + 2 > d.len() {
        Err(short_read())
    } else {
        let length = le16(d, p);
        let has_uncompressed = cdir_uncompressed_size == u32::MAX;
        let has_compressed = cdir_compressed_size == u32::MAX;
        let has_offset = cdir_local_header_relative_offset == -1;
        let has_disk = cdir_disk_number_start == u16::MAX;
        let q0 = p + 2;
        let q1 = q0 + if has_uncompressed {
            8int
        } else {
            0
        };
        let q2 = q1 + if has_compressed {
            8int
        } else {
            0
        };
        let q3 = q2 + if has_offset {
            8int
        } else {
            0
        };
        let end = q3 + if has_disk {
            4int
        } else {
            0
        };
        if length != zip64_extra_expected_len(
            cdir_uncompressed_size,
            cdir_compressed_size,
            cdir_local_header_relative_offset,
            cdir_disk_number_start,
        ) {
            Err(Error::UnexpectedExtraDataLength(length))
        } else if end > d.len() {
            Err(short_read())
        } else {
            Ok(
                (
                    Zip64ExtraField {
                        uncompressed_size: if has_uncompressed {
                            Some(le64(d, q0))
                        } else {
                            None
                        },
                        compressed_size: if has_compressed {
                            Some(le64(d, q1))
                        } else {
                            None
                        },
                        local_header_relative_offset: if has_offset {
                            Some(le64(d, q2) as i64)
                        } else {
                            None
                        },
                        disk_number_start: if has_disk {
                            Some(le32(d, q3))
                        } else {
                            None
                        },
                    },
                    end,
                ),
            )
        }
    }
}

/// The bytes of an optional 64-bit value: none where it is absent.
pub open spec fn opt_le64_bytes(v: Option<u64>) -> Seq<u8> {
    match v {
        Some(x) => le64_bytes(x),
        None => seq![],
    }
}

/// The length that a field writes: the bytes of its present values.
pub open spec fn zip64_extra_len(f: Zip64ExtraField) -> u16 {
    ((if f.uncompressed_size is Some {
        8int
    } else {
        0
    }) + (if f.compressed_size is Some {
        8int
    } else {
        0
    }) + (if f.local_header_relative_offset is Some {
        8int
    } else {
        0
    }) + (if f.disk_number_start is Some {
        4int
    } else {
        0
    })) as u16
}

/// The bytes of a field, tag and length first.
pub open spec fn encode_zip64_extra(f: Zip64ExtraField) -> Seq<u8> {
    le16_bytes(ZIP64_EXTRA_FIELD_TAG) + le16_bytes(zip64_extra_len(f)) + opt_le64_bytes(
        f.uncompressed_size,
    ) + opt_le64_bytes(f.compressed_size) + opt_le64_bytes(
        match f.local_header_relative_offset {
            Some(x) => Some(x as u64),
            None => None,
        },
    ) + match f.disk_number_start {
        Some(x) => le32_bytes(x),
        None => seq![],
    }
}

/// Round trip: a Zip64 extra field encodes to bytes that start with its tag and decode to the
/// field itself, given central directory values that are at their maximum exactly where the
/// field holds a value.
pub proof fn lemma_zip64_extra_round_trip(
    f: Zip64ExtraField,
    cdir_uncompressed_size: u32,
    cdir_compressed_size: u32,
    cdir_local_header_relative_offset: i32,
    cdir_disk_number_start: u16,
)
    requires
        f.uncompressed_size is Some <==> cdir_uncompressed_size == u32::MAX,
        f.compressed_size is Some <==> cdir_compressed_size == u32::MAX,
        f.local_header_relative_offset is Some <==> cdir_local_header_relative_offset == -1,
        f.disk_number_start is Some <==> cdir_disk_number_start == u16::MAX,
    ensures
        le16(encode_zip64_extra(f), 0) == ZIP64_EXTRA_FIELD_TAG,
        decode_zip64_extra(
            encode_zip64_extra(f),
            2,
            cdir_uncompressed_size,
            cdir_compressed_size,
            cdir_local_header_relative_offset,
            cdir_disk_number_start,
        ) == Ok::<(Zip64ExtraField, int), Error>((f, encode_zip64_extra(f).len() as int)),
{
    let e = encode_zip64_extra(f);
    let a = opt_le64_bytes(f.uncompressed_size);
    let b = opt_le64_bytes(f.compressed_size);
    let c = opt_le64_bytes(
        match f.local_header_relative_offset {
            Some(x) => Some(x as u64),
            None => None,
        },
    );
    assert(e.subrange(0, 2) =~= le16_bytes(ZIP64_EXTRA_FIELD_TAG));
    lemma_le16_round_trip(e, 0, ZIP64_EXTRA_FIELD_TAG);
    assert(e.subrange(2, 4) =~= le16_bytes(zip64_extra_len(f)));
    lemma_le16_round_trip(e, 2, zip64_extra_len(f));
    if let Some(x) = f.uncompressed_size {
        assert(e.subrange(4, 12) =~= le64_bytes(x));
        lemma_le64_round_trip(e, 4, x);
    }
    if let Some(x) = f.compressed_size {
        let q = (4 + a.len()) as int;
        assert(e.subrange(q, q + 8) =~= le64_bytes(x));
        lemma_le64_round_trip(e, q, x);
    }
    if let Some(x) = f.local_header_relative_offset {
        let q = (4 + a.len() + b.len()) as int;
        assert(e.subrange(q, q + 8) =~= le64_bytes(x as u64));
        lemma_le64_round_trip(e, q, x as u64);
        assert((x as u64) as i64 == x) by (bit_vector);
    }
    if let Some(x) = f.disk_number_start {
        let q = (4 + a.len() + b.len() + c.len()) as int;
        assert(e.subrange(q, q + 4) =~= le32_bytes(x));
        lemma_le32_round_trip(e, q, x);
    }
}

impl Zip64ExtraField {
    /// The tag for this extra field.
    pub fn tag() -> (r: u16)
        ensures
            r == ZIP64_EXTRA_FIELD_TAG,
    {
        ZIP64_EXTRA_FIELD_TAG
    }

    /// Write the extra field, including tag and length.
    pub fn write(&self, writer: &mut ByteCursor) -> (r: Result<(), Error>)
        requires
            old(writer).pos + 32 <= usize::MAX,
        ensures
            r == Ok::<(), Error>(()),
            final(writer).data@ == crate::io_ext::overwrite(
                old(writer).data@,
                old(writer).pos as nat,
                encode_zip64_extra(*self),
            ),
            final(writer).pos == old(writer).pos + encode_zip64_extra(*self).len(),
    {
        broadcast use lemma_overwrite_at_end;

        let mut buf = ByteCursor::new(Vec::new());
        buf.write_u16_le(Self::tag());

        // the size counts neither the tag nor the size field itself
        let size: u16 = if self.uncompressed_size.is_some() {
            8
        } else {
            0
        } + if self.compressed_size.is_some() {
            8
        } else {
            0
        } + if self.local_header_relative_offset.is_some() {
            8
        } else {
            0
        } + if self.disk_number_start.is_some() {
            4
        } else {
            0
        };
        buf.write_u16_le(size);

        if let Some(uncompressed_size) = self.uncompressed_size {
            buf.write_u64_le(uncompressed_size);
        }
        if let Some(compressed_size) = self.compressed_size {
            buf.write_u64_le(compressed_size);
        }
        if let Some(local_header_relative_offset) = self.local_header_relative_offset {
            buf.write_i64_le(local_header_relative_offset);
        }
        if let Some(disk_number_start) = self.disk_number_start {
            buf.write_u32_le(disk_number_start);
        }
        assert(buf.data@ =~= encode_zip64_extra(*self));
        writer.write_all(buf.data.as_slice());
        Ok(())
    }

    /// Read the extra field, including its length.
    ///
    /// It is assumed that its tag has just been read (to ensure the read function of the correct
    /// field is called).
    ///
    /// The relevant values from the central directory entry must be passed, as the extra field
    /// only contains those values that are out-of-range (and, therefore, have their max value).
    /// Where the length is not the one those values call for, nothing is read past it.
    pub fn read_after_tag(
        reader: &mut ByteCursor,
        cdir_uncompressed_size: u32,
        cdir_compressed_size: u32,
        cdir_local_header_relative_offset: i32,
        cdir_disk_number_start: u16,
    ) -> (r: Result<Self, Error>)
        ensures
            final(reader).data@ == old(reader).data@,
            match decode_zip64_extra(
                old(reader).data@,
                old(reader).pos as int,
                cdir_uncompressed_size,
                cdir_compressed_size,
                cdir_local_header_relative_offset,
                cdir_disk_number_start,
            ) {
                Ok((f, end)) => r == Ok::<Self, Error>(f) && final(reader).pos == end,
                Err(e) => r == Err::<Self, Error>(e),
            },
            r matches Err(Error::UnexpectedExtraDataLength(_)) ==> final(reader).pos == old(
                reader,
            ).pos + 2,
    {
        let mut expected_length: u16 = 0;
        if cdir_uncompressed_size == u32::MAX {
            expected_length += 8;
        }
        if cdir_compressed_size == u32::MAX {
            expected_length += 8;
        }
        // the relevant APPNOTE.TXT section only mentions 0xFFFF and 0xFFFFFFFF;
        // in signed (two's complement) arithmetic, this is equivalent to -1
        if cdir_local_header_relative_offset == -1 {
            expected_length += 8;
        }
        if cdir_disk_number_start == u16::MAX {
            expected_length += 4;
        }

        let length = reader.read_u16_le()?;
        if length != expected_length {
            return Err(Error::UnexpectedExtraDataLength(length));
        }

        let uncompressed_size = if cdir_uncompressed_size == u32::MAX {
            Some(reader.read_u64_le()?)
        } else {
            None
        };
        let compressed_size = if cdir_compressed_size == u32::MAX {
            Some(reader.read_u64_le()?)
        } else {
            None
        };
        let local_header_relative_offset = if cdir_local_header_relative_offset == -1 {
            Some(reader.read_i64_le()?)
        } else {
            None
        };
        let disk_number_start = if cdir_disk_number_start == u16::MAX {
            Some(reader.read_u32_le()?)
        } else {
            None
        };

        Ok(Zip64ExtraField {
            uncompressed_size,
            compressed_size,
            local_header_relative_offset,
            disk_number_start,
        })
    }
}

} // verus!
