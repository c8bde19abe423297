//! Record and signal compression methods and their on-disk method codes.

use vstd::prelude::*;

verus! {

/// Method code for "no compression".
pub const COMPRESS_NONE: u32 = 0;

/// Method code for zlib record compression.
pub const COMPRESS_ZLIB: u32 = 1;

/// Method code for StreamVByte zig-zag delta signal compression.
pub const COMPRESS_SVB_ZD: u32 = 2;

/// Method code for zstd record compression.
pub const COMPRESS_ZSTD: u32 = 3;

/// Method code for ex-zd signal compression.
pub const COMPRESS_EX_ZD: u32 = 4;

/// SLOW5 record compression
#[non_exhaustive]
#[derive(Debug, PartialEq, Eq, Structural, PartialOrd, Ord, Hash, Clone, Copy)]
pub enum RecordCompression {
    /// No compression
    Uncompressed,
    /// Compress using zlib
    Zlib,
    /// Compress using zstd
    ZStd,
}

impl RecordCompression {
    /// The method code of this compression.
    pub open spec fn code(self) -> u32 {
        match self {
            RecordCompression::Uncompressed => COMPRESS_NONE,
            RecordCompression::Zlib => COMPRESS_ZLIB,
            RecordCompression::ZStd => COMPRESS_ZSTD,
        }
    }

    /// Whether `n` is the method code of some record compression.
    pub open spec fn is_code(n: u32) -> bool {
        n == COMPRESS_NONE || n == COMPRESS_ZLIB || n == COMPRESS_ZSTD
    }

    /// Method code written to the file for this compression.
    pub fn to_slow5_rep(self) -> (code: u32)
        ensures
            code == self.code(),
            Self::is_code(code),
    {
        match self {
            RecordCompression::Uncompressed => COMPRESS_NONE,
            RecordCompression::Zlib => COMPRESS_ZLIB,
            RecordCompression::ZStd => COMPRESS_ZSTD,
        }
    }

    /// Compression named by a method code; `None` when the code names no
    /// record compression.
    pub fn try_from_u32(n: u32) -> (method: Option<RecordCompression>)
        ensures
            Self::is_code(n) <==> method.is_some(),
            method matches Some(m) ==> m.code() == n,
    {
        if n == COMPRESS_NONE {
            Some(RecordCompression::Uncompressed)
        } else if n == COMPRESS_ZLIB {
            Some(RecordCompression::Zlib)
        } else if n == COMPRESS_ZSTD {
            Some(RecordCompression::ZStd)
        } else {
            None
        }
    }

    /// Compression named by a method code that is known to be valid.
    pub fn from_u32(n: u32) -> (method: RecordCompression)
        requires
            Self::is_code(n),
        ensures
            method.code() == n,
    {
        if n == COMPRESS_NONE {
            RecordCompression::Uncompressed
        } else if n == COMPRESS_ZLIB {
            RecordCompression::Zlib
        } else {
            RecordCompression::ZStd
        }
    }

    /// Whether any compression is applied.
    pub fn is_set(self) -> (set: bool)
        ensures
            set == (self != RecordCompression::Uncompressed),
    {
        match self {
            RecordCompression::Uncompressed => false,
            _ => true,
        }
    }
}

/// SLOW5 signal compression
#[non_exhaustive]
#[derive(Debug, PartialEq, Eq, Structural, Hash, PartialOrd, Ord, Clone, Copy)]
pub enum SignalCompression {
    /// No signal compression
    Uncompressed,
    /// Compress using streamvbyte library
    StreamVByte,
    /// Compress using ex-zd algorithm
    ExZd,
}

impl SignalCompression {
    /// The method code of this compression.
    pub open spec fn code(self) -> u32 {
        match self {
            SignalCompression::Uncompressed => COMPRESS_NONE,
            SignalCompression::StreamVByte => COMPRESS_SVB_ZD,
            SignalCompression::ExZd => COMPRESS_EX_ZD,
        }
    }

    /// Whether `n` is the method code of some signal compression.
    pub open spec fn is_code(n: u32) -> bool {
        n == COMPRESS_NONE || n == COMPRESS_SVB_ZD || n == COMPRESS_EX_ZD
    }

    /// Method code written to the file for this compression.
    pub fn to_slow5_rep(self) -> (code: u32)
        ensures
            code == self.code(),
            Self::is_code(code),
    {
        match self {
            SignalCompression::Uncompressed => COMPRESS_NONE,
            SignalCompression::StreamVByte => COMPRESS_SVB_ZD,
            SignalCompression::ExZd => COMPRESS_EX_ZD,
        }
    }

    /// Compression named by a method code; `None` when the code names no
    /// signal compression.
    pub fn try_from_u32(x: u32) -> (method: Option<SignalCompression>)
        ensures
            Self::is_code(x) <==> method.is_some(),
            method matches Some(m) ==> m.code() == x,
    {
        if x == COMPRESS_NONE {
            Some(SignalCompression::Uncompressed)
        } else if x == COMPRESS_SVB_ZD {
            Some(SignalCompression::StreamVByte)
        } else if x == COMPRESS_EX_ZD {
            Some(SignalCompression::ExZd)
        } else {
            None
        }
    }

    /// Compression named by a method code that is known to be valid.
    pub fn from_u32(x: u32) -> (method: SignalCompression)
        requires
            Self::is_code(x),
        ensures
            method.code() == x,
    {
        if x == COMPRESS_NONE {
            SignalCompression::Uncompressed
        } else if x == COMPRESS_SVB_ZD {
            SignalCompression::StreamVByte
        } else {
            SignalCompression::ExZd
        }
    }

    /// Whether any compression is applied.
    pub fn is_set(self) -> (set: bool)
        ensures
            set == (self != SignalCompression::Uncompressed),
    {
        match self {
            SignalCompression::Uncompressed => false,
            _ => true,
        }
    }
}

/// A method code names at most one record compression, and decoding the code
/// of a compression gives that compression back.
pub proof fn lemma_record_code_injective(a: RecordCompression, b: RecordCompression)
    ensures
        a.code() == b.code() <==> a == b,
{
}

/// A method code names at most one signal compression, and decoding the code
/// of a compression gives that compression back.
pub proof fn lemma_signal_code_injective(a: SignalCompression, b: SignalCompression)
    ensures
        a.code() == b.code() <==> a == b,
{
}

} // verus!
