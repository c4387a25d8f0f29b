//! Errors raised while decoding modules and tags.
use vstd::prelude::*;

verus! {

/// Why a positioned read or seek on an in-memory reader failed.
#[derive(Debug, Clone, Copy, PartialEq, Eq, Structural)]
pub enum ReadFailure {
    /// Fewer bytes were left than the read asked for.
    UnexpectedEof,
    /// A relative seek would have left the range of positions.
    InvalidSeek,
}

/// Errors that can occur when reading a module file.
#[derive(Debug, Clone, Copy, PartialEq, Eq, Structural)]
pub enum ModuleError {
    /// The header does not start with "mohd" (0x64686F6D); holds what was found.
    IncorrectMagic(u32),
    /// The header names a revision other than 48, 51, 52 or 53; holds what was found.
    IncorrectVersion(i32),
    /// A file entry has blocks but a negative index of its first block.
    NegativeBlockIndex(i32),
    /// A block's compression marker is neither 0 nor 1.
    IncorrectCompressedValue,
}

/// Errors that can occur when reading a tag file.
#[derive(Debug, Clone, Copy, PartialEq, Eq, Structural)]
pub enum TagError {
    /// The tag header does not start with "ucsh" (0x68736375); holds what was found.
    IncorrectMagic(u32),
    /// The tag header's version is not 27; holds what was found.
    IncorrectVersion(i32),
    /// The payload of the file entry has not been assembled yet.
    NotLoaded,
    /// No struct definition of the tag is its main struct.
    MainStructNotFound,
    /// The file entry is a raw file and carries no tag header.
    NoTagInfo,
    /// A datablock names a section outside 0..=3; holds what was found.
    InvalidTagSection(u16),
    /// A struct definition names a kind outside 0..=4; holds what was found.
    InvalidTagStruct(u16),
    /// An enum field holds a number that its enum does not declare.
    NumEnumError,
    /// A chain of parents was followed deeper than three levels.
    RecursionDepth,
    /// A struct definition names a location outside 0..=2; holds what was found.
    InvalidTagStructLocation(u16),
}

/// Errors that can occur when decompressing data.
#[derive(Debug, Clone, Copy, PartialEq, Eq, Structural)]
pub enum DecompressionError {
    /// The decompressor reports more bytes than its buffer holds.
    BufferSizeOverflow,
    /// The decompressor failed; holds its negative return code.
    DecompressionFailed(i32),
}

/// Standard error type used throughout the crate.
#[derive(Debug, Clone, Copy, PartialEq, Eq, Structural)]
pub enum Error {
    /// A read or seek left the bytes of the reader.
    ReadError(ReadFailure),
    /// Bytes that should hold a string are not valid UTF-8.
    Utf8ReadingError,
    /// Decompression of a block failed.
    DecompressionError(DecompressionError),
    /// The module is malformed.
    ModuleError(ModuleError),
    /// An integer does not fit the type it has to be converted to.
    TryFromIntError,
    /// The tag is malformed, or was asked for something it does not hold.
    TagError(TagError),
}

/// Standard result type used throughout the crate.
pub type Result<T> = core::result::Result<T, Error>;

/// The error of a read that ran past the last byte.
pub open spec fn eof() -> Error {
    Error::ReadError(ReadFailure::UnexpectedEof)
}

} // verus!
