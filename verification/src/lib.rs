//! Typed access layer for SLOW5/BLOW5 nanopore signal files: the auxiliary
//! field type system, headers, records and the reader/writer lifecycle, with
//! every rule stated as a machine-checked contract.
//!
//! The library works on values. The contents of a file are a [`FileImage`]:
//! a [`FileWriter`] builds one, record by record, and hands it back when it
//! is closed; a [`FileReader`] reads one. Bringing the contents of a file
//! from and to a disk is left to the caller, who finds in the module
//! [`engine`] the operations that finalize a file, in their order, the
//! meaning of the file engine's return codes, and the step by which records
//! are read one at a time.

pub mod auxiliary;
pub mod bytes;
pub mod compression;
pub mod engine;
pub mod error;
pub mod finalize;
pub mod header;
pub mod image;
pub mod laws;
pub mod log;
pub mod reader;
pub mod record;
pub mod table;
pub mod writer;

pub use auxiliary::{AuxValue, EnumField, FieldType, Slow5AuxType};
pub use bytes::to_cstring;
pub use compression::{RecordCompression, SignalCompression};
pub use engine::EngineOp;
pub use error::{BuilderError, Slow5Error};
pub use header::{AuxNamesIter, Header, HeaderExt};
pub use image::{FileImage, Slot};
pub use log::LogLevel;
pub use reader::{AttrKeysIter, AuxEnumLabelIter, FileReader, ReadIdIter, RecordIter};
pub use record::{RawSignalIter, Record, RecordBuilder};
pub use writer::{check_file_ext, FileType, FileWriter, Mode, WriteOptions};
