//! Auxiliary field types and values: the mapping between host types and the
//! type tags stored in a file's header.

use vstd::prelude::*;
use crate::bytes::{byte_seqs, copy_byte_list, copy_vec};

verus! {

/// Type tag of a signed 8-bit integer field.
pub const TAG_INT8: u32 = 0;

/// Type tag of a signed 16-bit integer field.
pub const TAG_INT16: u32 = 1;

/// Type tag of a signed 32-bit integer field.
pub const TAG_INT32: u32 = 2;

/// Type tag of a signed 64-bit integer field.
pub const TAG_INT64: u32 = 3;

/// Type tag of an unsigned 8-bit integer field.
pub const TAG_UINT8: u32 = 4;

/// Type tag of an unsigned 16-bit integer field.
pub const TAG_UINT16: u32 = 5;

/// Type tag of an unsigned 32-bit integer field.
pub const TAG_UINT32: u32 = 6;

/// Type tag of an unsigned 64-bit integer field.
pub const TAG_UINT64: u32 = 7;

/// Type tag of a 32-bit float field.
pub const TAG_FLOAT: u32 = 8;

/// Type tag of a 64-bit float field.
pub const TAG_DOUBLE: u32 = 9;

/// Type tag of a single-character field.
pub const TAG_CHAR: u32 = 10;

/// Type tag of an enum field.
pub const TAG_ENUM: u32 = 11;

/// Type tag of an array of signed 8-bit integers.
pub const TAG_INT8_ARRAY: u32 = 12;

/// Type tag of an array of signed 16-bit integers.
pub const TAG_INT16_ARRAY: u32 = 13;

/// Type tag of an array of signed 32-bit integers.
pub const TAG_INT32_ARRAY: u32 = 14;

/// Type tag of an array of signed 64-bit integers.
pub const TAG_INT64_ARRAY: u32 = 15;

/// Type tag of an array of unsigned 8-bit integers.
pub const TAG_UINT8_ARRAY: u32 = 16;

/// Type tag of an array of unsigned 16-bit integers.
pub const TAG_UINT16_ARRAY: u32 = 17;

/// Type tag of an array of unsigned 32-bit integers.
pub const TAG_UINT32_ARRAY: u32 = 18;

/// Type tag of an array of unsigned 64-bit integers.
pub const TAG_UINT64_ARRAY: u32 = 19;

/// Type tag of an array of 32-bit floats.
pub const TAG_FLOAT_ARRAY: u32 = 20;

/// Type tag of an array of 64-bit floats.
pub const TAG_DOUBLE_ARRAY: u32 = 21;

/// Type tag of a string field.
pub const TAG_STRING: u32 = 22;

/// Largest number of labels an enum field can have: a value is stored as an
/// 8-bit index into them.
pub const MAX_ENUM_LABELS: usize = 255;

/// Maps between Rust types and SLOW5 C types
#[derive(Debug, PartialEq, Eq, PartialOrd, Ord, Hash)]
pub enum FieldType {
    /// i8
    Int8,
    /// i16
    Int16,
    /// i32
    Int32,
    /// i64
    Int64,
    /// u8
    Uint8,
    /// u16
    Uint16,
    /// u32
    Uint32,
    /// u64
    Uint64,
    /// f32
    Float,
    /// f64
    Double,
    /// char
    Char,
    /// &str,
    Str,
    /// &[u8], not a string representation
    Uint8Array,
    /// &[u16]
    Uint16Array,
    /// &[u32]
    Uint32Array,
    /// &[u64]
    Uint64Array,
    /// &[i8]
    Int8Array,
    /// &[i16]
    Int16Array,
    /// &[i32]
    Int32Array,
    /// &[i64]
    Int64Array,
    /// &[f32]
    FloatArray,
    /// &[f64]
    DoubleArray,
    /// EnumField
    Enum(Vec<Vec<u8>>),
}

/// What a field type is: its tag and, for an enum, its labels.
pub struct FieldTypeView {
    /// The type tag.
    pub tag: u32,
    /// The labels of an enum type, in index order; empty for any other type.
    pub labels: Seq<Seq<u8>>,
}

/// Wrapper around a type tag as it is stored in a file
#[derive(Debug, PartialEq, Eq, Structural, Clone, Copy)]
pub struct Slow5AuxType(pub u32);

impl View for FieldType {
    type V = FieldTypeView;

    open spec fn view(&self) -> FieldTypeView {
        FieldTypeView { tag: self.tag(), labels: self.labels() }
    }
}

impl FieldType {
    /// The type tag of this field type.
    pub open spec fn tag(&self) -> u32 {
        match self {
            FieldType::Int8 => TAG_INT8,
            FieldType::Int16 => TAG_INT16,
            FieldType::Int32 => TAG_INT32,
            FieldType::Int64 => TAG_INT64,
            FieldType::Uint8 => TAG_UINT8,
            FieldType::Uint16 => TAG_UINT16,
            FieldType::Uint32 => TAG_UINT32,
            FieldType::Uint64 => TAG_UINT64,
            FieldType::Float => TAG_FLOAT,
            FieldType::Double => TAG_DOUBLE,
            FieldType::Char => TAG_CHAR,
            FieldType::Str => TAG_STRING,
            FieldType::Uint8Array => TAG_UINT8_ARRAY,
            FieldType::Uint16Array => TAG_UINT16_ARRAY,
            FieldType::Uint32Array => TAG_UINT32_ARRAY,
            FieldType::Uint64Array => TAG_UINT64_ARRAY,
            FieldType::Int8Array => TAG_INT8_ARRAY,
            FieldType::Int16Array => TAG_INT16_ARRAY,
            FieldType::Int32Array => TAG_INT32_ARRAY,
            FieldType::Int64Array => TAG_INT64_ARRAY,
            FieldType::FloatArray => TAG_FLOAT_ARRAY,
            FieldType::DoubleArray => TAG_DOUBLE_ARRAY,
            FieldType::Enum(_) => TAG_ENUM,
        }
    }

    /// The labels of an enum type; empty for any other type.
    pub open spec fn labels(&self) -> Seq<Seq<u8>> {
        match self {
            FieldType::Enum(labels) => byte_seqs(labels@),
            _ => Seq::empty(),
        }
    }

    /// Whether `tag` is the type tag of some field type.
    pub open spec fn is_tag(tag: u32) -> bool {
        tag <= TAG_STRING
    }

    /// The on-disk type tag of this field type.
    pub fn to_slow5_t(&self) -> (code: Slow5AuxType)
        ensures
            code.0 == self.tag(),
            Self::is_tag(code.0),
    {
        Slow5AuxType(
            match self {
                FieldType::Int8 => TAG_INT8,
                FieldType::Int16 => TAG_INT16,
                FieldType::Int32 => TAG_INT32,
                FieldType::Int64 => TAG_INT64,
                FieldType::Uint8 => TAG_UINT8,
                FieldType::Uint16 => TAG_UINT16,
                FieldType::Uint32 => TAG_UINT32,
                FieldType::Uint64 => TAG_UINT64,
                FieldType::Float => TAG_FLOAT,
                FieldType::Double => TAG_DOUBLE,
                FieldType::Char => TAG_CHAR,
                FieldType::Str => TAG_STRING,
                FieldType::Uint8Array => TAG_UINT8_ARRAY,
                FieldType::Uint16Array => TAG_UINT16_ARRAY,
                FieldType::Uint32Array => TAG_UINT32_ARRAY,
                FieldType::Uint64Array => TAG_UINT64_ARRAY,
                FieldType::Int8Array => TAG_INT8_ARRAY,
                FieldType::Int16Array => TAG_INT16_ARRAY,
                FieldType::Int32Array => TAG_INT32_ARRAY,
                FieldType::Int64Array => TAG_INT64_ARRAY,
                FieldType::FloatArray => TAG_FLOAT_ARRAY,
                FieldType::DoubleArray => TAG_DOUBLE_ARRAY,
                FieldType::Enum(_) => TAG_ENUM,
            },
        )
    }

    /// The field type with the given tag; `labels` become the labels of an
    /// enum type and are dropped for any other type. `None` when the tag
    /// names no field type.
    pub fn from_slow5_t(code: Slow5AuxType, labels: Vec<Vec<u8>>) -> (field_type: Option<FieldType>)
        ensures
            field_type.is_some() <==> Self::is_tag(code.0),
            field_type matches Some(t) ==> t.tag() == code.0 && t.labels() == (if code.0 == TAG_ENUM {
                byte_seqs(labels@)
            } else {
                Seq::empty()
            }),
    {
        let tag = code.0;
        if tag == TAG_INT8 {
            Some(FieldType::Int8)
        } else if tag == TAG_INT16 {
            Some(FieldType::Int16)
        } else if tag == TAG_INT32 {
            Some(FieldType::Int32)
        } else if tag == TAG_INT64 {
            Some(FieldType::Int64)
        } else if tag == TAG_UINT8 {
            Some(FieldType::Uint8)
        } else if tag == TAG_UINT16 {
            Some(FieldType::Uint16)
        } else if tag == TAG_UINT32 {
            Some(FieldType::Uint32)
        } else if tag == TAG_UINT64 {
            Some(FieldType::Uint64)
        } else if tag == TAG_FLOAT {
            Some(FieldType::Float)
        } else if tag == TAG_DOUBLE {
            Some(FieldType::Double)
        } else if tag == TAG_CHAR {
            Some(FieldType::Char)
        } else if tag == TAG_ENUM {
            Some(FieldType::Enum(labels))
        } else if tag == TAG_INT8_ARRAY {
            Some(FieldType::Int8Array)
        } else if tag == TAG_INT16_ARRAY {
            Some(FieldType::Int16Array)
        } else if tag == TAG_INT32_ARRAY {
            Some(FieldType::Int32Array)
        } else if tag == TAG_INT64_ARRAY {
            Some(FieldType::Int64Array)
        } else if tag == TAG_UINT8_ARRAY {
            Some(FieldType::Uint8Array)
        } else if tag == TAG_UINT16_ARRAY {
            Some(FieldType::Uint16Array)
        } else if tag == TAG_UINT32_ARRAY {
            Some(FieldType::Uint32Array)
        } else if tag == TAG_UINT64_ARRAY {
            Some(FieldType::Uint64Array)
        } else if tag == TAG_FLOAT_ARRAY {
            Some(FieldType::FloatArray)
        } else if tag == TAG_DOUBLE_ARRAY {
            Some(FieldType::DoubleArray)
        } else if tag == TAG_STRING {
            Some(FieldType::Str)
        } else {
            None
        }
    }

    /// An enum type with the given labels.
    pub fn from_labels(labels: Vec<Vec<u8>>) -> (field_type: FieldType)
        ensures
            field_type.tag() == TAG_ENUM,
            field_type.labels() == byte_seqs(labels@),
    {
        FieldType::Enum(labels)
    }

    /// Whether two field types have the same tag.
    pub fn same_type(&self, other: &FieldType) -> (same: bool)
        ensures
            same == (self.tag() == other.tag()),
    {
        self.to_slow5_t().0 == other.to_slow5_t().0
    }

    /// Number of labels of an enum type; zero for any other type.
    pub fn label_count(&self) -> (n: usize)
        ensures
            n == self.labels().len(),
    {
        match self {
            FieldType::Enum(labels) => labels.len(),
            _ => 0,
        }
    }
}

impl Clone for FieldType {
    fn clone(&self) -> (copy: Self)
        ensures
            copy@ == self@,
    {
        match self {
            FieldType::Enum(labels) => FieldType::Enum(copy_byte_list(labels)),
            other => {
                let rebuilt = FieldType::from_slow5_t(other.to_slow5_t(), Vec::new());
                match rebuilt {
                    Some(t) => t,
                    None => FieldType::Int8,
                }
            },
        }
    }
}

/// Represents the value for an enum field. This struct wraps an index into the
/// labels used for auxiliary enum field.
///
/// The intended way to use is to index into the labels of the field.
#[derive(Debug, PartialEq, Eq, Structural, Clone, Copy)]
pub struct EnumField(pub usize);

/// A value of an auxiliary field, tagged with the host type it has.
#[derive(Debug, PartialEq, Eq)]
pub enum AuxValue {
    /// A signed 8-bit integer.
    Int8(i8),
    /// A signed 16-bit integer.
    Int16(i16),
    /// A signed 32-bit integer.
    Int32(i32),
    /// A signed 64-bit integer.
    Int64(i64),
    /// An unsigned 8-bit integer.
    Uint8(u8),
    /// An unsigned 16-bit integer.
    Uint16(u16),
    /// An unsigned 32-bit integer.
    Uint32(u32),
    /// An unsigned 64-bit integer.
    Uint64(u64),
    /// A 32-bit float, held as its IEEE 754 bit pattern.
    Float(u32),
    /// A 64-bit float, held as its IEEE 754 bit pattern.
    Double(u64),
    /// A single one-byte character.
    Char(u8),
    /// A string, as its bytes.
    Str(Vec<u8>),
    /// An array of unsigned 8-bit integers.
    Uint8Array(Vec<u8>),
    /// An array of unsigned 16-bit integers.
    Uint16Array(Vec<u16>),
    /// An array of unsigned 32-bit integers.
    Uint32Array(Vec<u32>),
    /// An array of unsigned 64-bit integers.
    Uint64Array(Vec<u64>),
    /// An array of signed 8-bit integers.
    Int8Array(Vec<i8>),
    /// An array of signed 16-bit integers.
    Int16Array(Vec<i16>),
    /// An array of signed 32-bit integers.
    Int32Array(Vec<i32>),
    /// An array of signed 64-bit integers.
    Int64Array(Vec<i64>),
    /// An array of 32-bit floats, each held as its bit pattern.
    FloatArray(Vec<u32>),
    /// An array of 64-bit floats, each held as its bit pattern.
    DoubleArray(Vec<u64>),
    /// An index into the labels of an enum field.
    Enum(EnumField),
}

/// What an auxiliary value is: the tag of its type, its number if it is a
/// scalar, and its items if it is a string or an array.
pub struct AuxValueView {
    /// The type tag.
    pub tag: u32,
    /// The value of a scalar, the index of an enum value; zero otherwise.
    pub scalar: int,
    /// The items of an array, the bytes of a string; empty otherwise.
    pub items: Seq<int>,
}

impl AuxValueView {
    /// The items as bytes: the text of a string value.
    pub open spec fn bytes(self) -> Seq<u8> {
        self.items.map_values(|x: int| x as u8)
    }
}

impl View for AuxValue {
    type V = AuxValueView;

    open spec fn view(&self) -> AuxValueView {
        AuxValueView { tag: self.tag(), scalar: self.scalar(), items: self.items() }
    }
}

impl AuxValue {
    /// The type tag of the value's type.
    pub open spec fn tag(&self) -> u32 {
        match self {
            AuxValue::Int8(_) => TAG_INT8,
            AuxValue::Int16(_) => TAG_INT16,
            AuxValue::Int32(_) => TAG_INT32,
            AuxValue::Int64(_) => TAG_INT64,
            AuxValue::Uint8(_) => TAG_UINT8,
            AuxValue::Uint16(_) => TAG_UINT16,
            AuxValue::Uint32(_) => TAG_UINT32,
            AuxValue::Uint64(_) => TAG_UINT64,
            AuxValue::Float(_) => TAG_FLOAT,
            AuxValue::Double(_) => TAG_DOUBLE,
            AuxValue::Char(_) => TAG_CHAR,
            AuxValue::Str(_) => TAG_STRING,
            AuxValue::Uint8Array(_) => TAG_UINT8_ARRAY,
            AuxValue::Uint16Array(_) => TAG_UINT16_ARRAY,
            AuxValue::Uint32Array(_) => TAG_UINT32_ARRAY,
            AuxValue::Uint64Array(_) => TAG_UINT64_ARRAY,
            AuxValue::Int8Array(_) => TAG_INT8_ARRAY,
            AuxValue::Int16Array(_) => TAG_INT16_ARRAY,
            AuxValue::Int32Array(_) => TAG_INT32_ARRAY,
            AuxValue::Int64Array(_) => TAG_INT64_ARRAY,
            AuxValue::FloatArray(_) => TAG_FLOAT_ARRAY,
            AuxValue::DoubleArray(_) => TAG_DOUBLE_ARRAY,
            AuxValue::Enum(_) => TAG_ENUM,
        }
    }

    /// The value of a scalar, the index of an enum value; zero otherwise.
    pub open spec fn scalar(&self) -> int {
        match self {
            AuxValue::Int8(x) => *x as int,
            AuxValue::Int16(x) => *x as int,
            AuxValue::Int32(x) => *x as int,
            AuxValue::Int64(x) => *x as int,
            AuxValue::Uint8(x) => *x as int,
            AuxValue::Uint16(x) => *x as int,
            AuxValue::Uint32(x) => *x as int,
            AuxValue::Uint64(x) => *x as int,
            AuxValue::Float(x) => *x as int,
            AuxValue::Double(x) => *x as int,
            AuxValue::Char(x) => *x as int,
            AuxValue::Enum(field) => field.0 as int,
            _ => 0,
        }
    }

    /// The items of an array, the bytes of a string; empty otherwise.
    pub open spec fn items(&self) -> Seq<int> {
        match self {
            AuxValue::Str(items) => items@.map_values(|x: u8| x as int),
            AuxValue::Uint8Array(items) => items@.map_values(|x: u8| x as int),
            AuxValue::Uint16Array(items) => items@.map_values(|x: u16| x as int),
            AuxValue::Uint32Array(items) => items@.map_values(|x: u32| x as int),
            AuxValue::Uint64Array(items) => items@.map_values(|x: u64| x as int),
            AuxValue::Int8Array(items) => items@.map_values(|x: i8| x as int),
            AuxValue::Int16Array(items) => items@.map_values(|x: i16| x as int),
            AuxValue::Int32Array(items) => items@.map_values(|x: i32| x as int),
            AuxValue::Int64Array(items) => items@.map_values(|x: i64| x as int),
            AuxValue::FloatArray(items) => items@.map_values(|x: u32| x as int),
            AuxValue::DoubleArray(items) => items@.map_values(|x: u64| x as int),
            _ => Seq::empty(),
        }
    }

    /// The bytes of a string value; empty for any other value.
    pub open spec fn text(&self) -> Seq<u8> {
        match self {
            AuxValue::Str(bytes) => bytes@,
            _ => Seq::empty(),
        }
    }

    /// The view of a string value holds the string's bytes.
    pub proof fn lemma_text(&self)
        ensures
            self is Str ==> self@.bytes() == self.text(),
    {
        if let AuxValue::Str(bytes) = self {
            assert(self@.bytes() =~= bytes@);
        }
    }

    /// The on-disk type tag of the value's type.
    pub fn to_slow5_t(&self) -> (code: Slow5AuxType)
        ensures
            code.0 == self.tag(),
            FieldType::is_tag(code.0),
    {
        Slow5AuxType(
            match self {
                AuxValue::Int8(_) => TAG_INT8,
                AuxValue::Int16(_) => TAG_INT16,
                AuxValue::Int32(_) => TAG_INT32,
                AuxValue::Int64(_) => TAG_INT64,
                AuxValue::Uint8(_) => TAG_UINT8,
                AuxValue::Uint16(_) => TAG_UINT16,
                AuxValue::Uint32(_) => TAG_UINT32,
                AuxValue::Uint64(_) => TAG_UINT64,
                AuxValue::Float(_) => TAG_FLOAT,
                AuxValue::Double(_) => TAG_DOUBLE,
                AuxValue::Char(_) => TAG_CHAR,
                AuxValue::Str(_) => TAG_STRING,
                AuxValue::Uint8Array(_) => TAG_UINT8_ARRAY,
                AuxValue::Uint16Array(_) => TAG_UINT16_ARRAY,
                AuxValue::Uint32Array(_) => TAG_UINT32_ARRAY,
                AuxValue::Uint64Array(_) => TAG_UINT64_ARRAY,
                AuxValue::Int8Array(_) => TAG_INT8_ARRAY,
                AuxValue::Int16Array(_) => TAG_INT16_ARRAY,
                AuxValue::Int32Array(_) => TAG_INT32_ARRAY,
                AuxValue::Int64Array(_) => TAG_INT64_ARRAY,
                AuxValue::FloatArray(_) => TAG_FLOAT_ARRAY,
                AuxValue::DoubleArray(_) => TAG_DOUBLE_ARRAY,
                AuxValue::Enum(_) => TAG_ENUM,
            },
        )
    }
}

impl Clone for AuxValue {
    fn clone(&self) -> (copy: Self)
        ensures
            copy@ == self@,
            copy.text() == self.text(),
    {
        match self {
            AuxValue::Int8(x) => AuxValue::Int8(*x),
            AuxValue::Int16(x) => AuxValue::Int16(*x),
            AuxValue::Int32(x) => AuxValue::Int32(*x),
            AuxValue::Int64(x) => AuxValue::Int64(*x),
            AuxValue::Uint8(x) => AuxValue::Uint8(*x),
            AuxValue::Uint16(x) => AuxValue::Uint16(*x),
            AuxValue::Uint32(x) => AuxValue::Uint32(*x),
            AuxValue::Uint64(x) => AuxValue::Uint64(*x),
            AuxValue::Float(x) => AuxValue::Float(*x),
            AuxValue::Double(x) => AuxValue::Double(*x),
            AuxValue::Char(x) => AuxValue::Char(*x),
            AuxValue::Str(items) => AuxValue::Str(copy_vec(items)),
            AuxValue::Uint8Array(items) => AuxValue::Uint8Array(copy_vec(items)),
            AuxValue::Uint16Array(items) => AuxValue::Uint16Array(copy_vec(items)),
            AuxValue::Uint32Array(items) => AuxValue::Uint32Array(copy_vec(items)),
            AuxValue::Uint64Array(items) => AuxValue::Uint64Array(copy_vec(items)),
            AuxValue::Int8Array(items) => AuxValue::Int8Array(copy_vec(items)),
            AuxValue::Int16Array(items) => AuxValue::Int16Array(copy_vec(items)),
            AuxValue::Int32Array(items) => AuxValue::Int32Array(copy_vec(items)),
            AuxValue::Int64Array(items) => AuxValue::Int64Array(copy_vec(items)),
            AuxValue::FloatArray(items) => AuxValue::FloatArray(copy_vec(items)),
            AuxValue::DoubleArray(items) => AuxValue::DoubleArray(copy_vec(items)),
            AuxValue::Enum(field) => AuxValue::Enum(*field),
        }
    }
}

/// Two field types with the same tag and labels are the same type, so a tag
/// names one scalar or array type only.
pub proof fn lemma_tag_decides_type(a: FieldType, b: FieldType)
    requires
        a.tag() == b.tag(),
    ensures
        a.tag() != TAG_ENUM ==> a == b,
        a.tag() == TAG_ENUM ==> (a is Enum && b is Enum),
{
}

} // verus!
