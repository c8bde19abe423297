//! Errors reported by the library.

use vstd::prelude::*;

verus! {

/// Errors from slow5 library
#[derive(Debug, PartialEq, Eq)]
#[non_exhaustive]
pub enum Slow5Error {
    /// No index was loaded for SLOW5 file
    NoIndex,
    /// Input/output error
    IOError,
    /// Read ID not found in index
    ReadIDNotInIndex(Vec<u8>),
    /// Interior NUL byte inside a name or value, at the given position
    InteriorNul(usize),
    /// Incorrect argument
    Argument,
    /// Failed to parse Record
    RecordParse,
    /// Failed to convert numeric value
    Conversion,
    /// Failed to allocate memory
    Allocation,
    /// Unexpected null pointer argument
    NullArgument,
    /// Unknown error, report if you see this
    Unknown,
    /// Duplicate Read ID found
    DuplicateReadId(Vec<u8>),
    /// Failed to write header to SLOW5 file
    HeaderWriteFailed,
    /// Failed to load auxiliary field
    AuxLoadFailure,
    /// Error setting compression method
    CompressionError,
    /// Either no SLOW5 index or read ID list not in index
    ReadIdIterError,
    /// Error in getting list of auxiliary field names
    AuxNameIterError,
    /// Error setting auxiliary field
    SetAuxFieldError,
    /// File path does not exist
    IncorrectPath(Vec<u8>),
    /// Error getting attribute
    AttributeError,
    /// Failed to add read group
    FailedAddReadGroup(u32),
    /// Set number of read groups lower than inferred: the number asked for,
    /// then the number inferred
    NumReadGroups(u32, u32),
    /// Failed to get Record from reader
    GetRecordFailed,
    /// Bytes are not UTF-8; they are valid up to the given position
    Utf8Error(usize),
    /// Compression was set but output was SLOW5. Only BLOW5 files are allowed
    /// to set compression options
    Slow5CompressionError,
    /// Invalid file path, the extension must be "slow5" or "blow5"
    InvalidFilePath(String),
    /// Failed to add attribute to header
    AddAttributeError(i32),
    /// Failed to set attribute to header
    SetAttributeError(i32),
    /// Failed to set auxiliary field
    AddAuxFieldError(i32),
    /// Number of labels for an auxiliary enum must fit an 8-bit index
    TooManyLabels(usize),
    /// Index given in EnumField is larger than number of labels
    EnumOutOfRange,
    /// The attribute was not found within the header
    ///
    /// Common cases include:
    /// * Misspelled the name of the attribute
    /// * Did not add the auxiliary field in WriteOptions before creating file
    MissingAttribute,
    /// Type requested or given doesn't match type in SLOW5 file
    AuxTypeMismatch,
}

/// Errors from building a record
#[derive(Debug, PartialEq, Eq)]
pub enum BuilderError {
    /// A required field was never supplied; holds the field's name
    RequiredValueUnset(&'static str),
    /// A length does not fit its on-disk width
    ConversionError,
    /// Failed to allocate memory
    AllocationError,
    /// The read id holds an interior NUL byte
    ReadIDError,
}

} // verus!
