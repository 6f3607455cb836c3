//! Errors of ZIP decoding, encoding and patching.

use vstd::prelude::*;

verus! {

/// Why an operation on a byte stream failed.
#[derive(Clone, Copy, Debug, PartialEq, Eq, Structural)]
pub enum IoError {
    /// Fewer bytes remained in the stream than a read asked for.
    UnexpectedEof,

    /// A seek would have moved before the start of the stream, or past the largest position.
    InvalidSeek,
}

/// An error that may occur during ZIP decoding or encoding.
#[derive(Clone, Copy, Debug, PartialEq, Eq, Structural)]
pub enum Error {
    /// An input/output error.
    Io(IoError),

    /// Missing end-of-central-directory record.
    MissingEndOfCentralDirectory,

    /// A ZIP archive spanning multiple disks/files is being read.
    ///
    /// Spanned ZIP archives are currently not supported.
    SpannedArchive,

    /// A field is too long to be read/written.
    FieldTooLong,

    /// An incorrect signature for the given structure was found.
    IncorrectSignature,

    /// A record is smaller than its minimum size.
    RecordTooSmall,

    /// The extra data has an unexpected length.
    ///
    /// The contained value can be used to seek to the next extra data entry.
    UnexpectedExtraDataLength(u16),
}

/// The error of a read that ran past the end of the stream.
pub open spec fn short_read() -> Error {
    Error::Io(IoError::UnexpectedEof)
}

/// The error of a seek to a position outside the representable range.
pub open spec fn bad_seek() -> Error {
    Error::Io(IoError::InvalidSeek)
}

/// The message that describes an error.
pub open spec fn error_message(e: Error) -> Seq<char> {
    match e {
        Error::Io(IoError::UnexpectedEof) => "I/O error: unexpected end of file"@,
        Error::Io(IoError::InvalidSeek) => "I/O error: invalid seek to a negative or overflowing position"@,
        Error::MissingEndOfCentralDirectory => "missing end-of-central-directory record"@,
        Error::SpannedArchive => "ZIP archive spans multiple files/disks"@,
        Error::FieldTooLong => "field too long"@,
        Error::IncorrectSignature => "incorrect signature for structure"@,
        Error::RecordTooSmall => "record too small"@,
        Error::UnexpectedExtraDataLength(_) => "unexpected length of extra data"@,
    }
}

impl Error {
    /// A message that describes this error.
    pub fn message(&self) -> (r: String)
        ensures
            r@ == error_message(*self),
    {
        let text: &str = match self {
            Error::Io(IoError::UnexpectedEof) => "I/O error: unexpected end of file",
            Error::Io(IoError::InvalidSeek) => "I/O error: invalid seek to a negative or overflowing position",
            Error::MissingEndOfCentralDirectory => "missing end-of-central-directory record",
            Error::SpannedArchive => "ZIP archive spans multiple files/disks",
            Error::FieldTooLong => "field too long",
            Error::IncorrectSignature => "incorrect signature for structure",
            Error::RecordTooSmall => "record too small",
            Error::UnexpectedExtraDataLength(_) => "unexpected length of extra data",
        };
        text.to_owned()
    }
}

} // verus!
