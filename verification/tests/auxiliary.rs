use slow5::auxiliary::{
    TAG_CHAR, TAG_DOUBLE, TAG_DOUBLE_ARRAY, TAG_ENUM, TAG_FLOAT, TAG_FLOAT_ARRAY, TAG_INT16, TAG_INT16_ARRAY,
    TAG_INT32, TAG_INT32_ARRAY, TAG_INT64, TAG_INT64_ARRAY, TAG_INT8, TAG_INT8_ARRAY, TAG_STRING, TAG_UINT16,
    TAG_UINT16_ARRAY, TAG_UINT32, TAG_UINT32_ARRAY, TAG_UINT64, TAG_UINT64_ARRAY, TAG_UINT8, TAG_UINT8_ARRAY,
};
use slow5::{AuxValue, EnumField, FieldType, RecordBuilder, Slow5AuxType, WriteOptions};

fn all_types() -> Vec<(FieldType, u32)> {
    vec![
        (FieldType::Int8, TAG_INT8),
        (FieldType::Int16, TAG_INT16),
        (FieldType::Int32, TAG_INT32),
        (FieldType::Int64, TAG_INT64),
        (FieldType::Uint8, TAG_UINT8),
        (FieldType::Uint16, TAG_UINT16),
        (FieldType::Uint32, TAG_UINT32),
        (FieldType::Uint64, TAG_UINT64),
        (FieldType::Float, TAG_FLOAT),
        (FieldType::Double, TAG_DOUBLE),
        (FieldType::Char, TAG_CHAR),
        (FieldType::Str, TAG_STRING),
        (FieldType::Uint8Array, TAG_UINT8_ARRAY),
        (FieldType::Uint16Array, TAG_UINT16_ARRAY),
        (FieldType::Uint32Array, TAG_UINT32_ARRAY),
        (FieldType::Uint64Array, TAG_UINT64_ARRAY),
        (FieldType::Int8Array, TAG_INT8_ARRAY),
        (FieldType::Int16Array, TAG_INT16_ARRAY),
        (FieldType::Int32Array, TAG_INT32_ARRAY),
        (FieldType::Int64Array, TAG_INT64_ARRAY),
        (FieldType::FloatArray, TAG_FLOAT_ARRAY),
        (FieldType::DoubleArray, TAG_DOUBLE_ARRAY),
        (FieldType::Enum(vec![b"a".to_vec(), b"b".to_vec()]), TAG_ENUM),
    ]
}

#[test]
fn test_aux_set() {
    let enum_labels = vec![b"a".to_vec(), b"b".to_vec(), b"c".to_vec()];
    let mut writer = WriteOptions::default()
        .aux(b"enum", FieldType::from_labels(enum_labels))
        .aux(b"char", FieldType::Char)
        .aux(b"read_number", FieldType::Uint8)
        .aux(b"string", FieldType::Str)
        .aux(b"array", FieldType::Uint16Array)
        .create(b"test.slow5")
        .unwrap();
    let mut rec = RecordBuilder::default()
        .digitisation(0.123f64.to_bits())
        .offset(0.456f64.to_bits())
        .range(0.999f64.to_bits())
        .read_group(0)
        .read_id(b"new")
        .sampling_rate(0.777f64.to_bits())
        .raw_signal(&[1, 2, 3])
        .build()
        .unwrap();
    assert!(rec.set_aux_field(&mut writer, b"string", AuxValue::Str(b"a string".to_vec())).is_ok());
    assert!(rec.set_aux_field(&mut writer, b"char", AuxValue::Char(b'a')).is_ok());
    assert!(rec.set_aux_field(&mut writer, b"char", AuxValue::Str(b"a".to_vec())).is_err());

    assert!(rec.set_aux_field(&mut writer, b"enum", AuxValue::Enum(EnumField(1))).is_ok());
    assert!(rec.set_aux_field(&mut writer, b"enum", AuxValue::Enum(EnumField(10))).is_err());
}

#[test]
fn every_type_has_its_own_tag() {
    let types = all_types();
    assert_eq!(types.len(), 23);
    for (i, (field_type, tag)) in types.iter().enumerate() {
        assert_eq!(field_type.to_slow5_t(), Slow5AuxType(*tag));
        for (other, _) in types.iter().skip(i + 1) {
            assert_ne!(field_type.to_slow5_t(), other.to_slow5_t());
            assert!(!field_type.same_type(other));
        }
        assert!(field_type.same_type(&field_type.clone()));
        assert_eq!(&field_type.clone(), field_type);
    }
    assert_eq!(TAG_INT8, 0);
    assert_eq!(TAG_CHAR, 10);
    assert_eq!(TAG_ENUM, 11);
    assert_eq!(TAG_INT8_ARRAY, 12);
    assert_eq!(TAG_UINT64_ARRAY, 19);
    assert_eq!(TAG_STRING, 22);
}

#[test]
fn tags_map_back_to_types() {
    for (field_type, tag) in all_types() {
        let labels = match &field_type {
            FieldType::Enum(labels) => labels.clone(),
            _ => vec![b"dropped".to_vec()],
        };
        assert_eq!(FieldType::from_slow5_t(Slow5AuxType(tag), labels), Some(field_type));
    }
    assert_eq!(FieldType::from_slow5_t(Slow5AuxType(23), Vec::new()), None);
    assert_eq!(FieldType::from_slow5_t(Slow5AuxType(u32::MAX), Vec::new()), None);
}

#[test]
fn labels_are_counted() {
    assert_eq!(FieldType::Int8.label_count(), 0);
    assert_eq!(FieldType::from_labels(Vec::new()).label_count(), 0);
    let labels = vec![b"x".to_vec(), b"y".to_vec(), b"z".to_vec()];
    assert_eq!(FieldType::from_labels(labels.clone()), FieldType::Enum(labels));
    assert_eq!(FieldType::Enum(vec![b"x".to_vec()]).label_count(), 1);
}

#[test]
fn values_carry_the_tag_of_their_type() {
    let values = vec![
        (AuxValue::Int8(-1), FieldType::Int8),
        (AuxValue::Int16(-1), FieldType::Int16),
        (AuxValue::Int32(-1), FieldType::Int32),
        (AuxValue::Int64(-1), FieldType::Int64),
        (AuxValue::Uint8(1), FieldType::Uint8),
        (AuxValue::Uint16(1), FieldType::Uint16),
        (AuxValue::Uint32(1), FieldType::Uint32),
        (AuxValue::Uint64(1), FieldType::Uint64),
        (AuxValue::Float(1.0f32.to_bits()), FieldType::Float),
        (AuxValue::Double(1.0f64.to_bits()), FieldType::Double),
        (AuxValue::Char(b'c'), FieldType::Char),
        (AuxValue::Str(b"s".to_vec()), FieldType::Str),
        (AuxValue::Uint8Array(vec![1]), FieldType::Uint8Array),
        (AuxValue::Uint16Array(vec![1]), FieldType::Uint16Array),
        (AuxValue::Uint32Array(vec![1]), FieldType::Uint32Array),
        (AuxValue::Uint64Array(vec![1]), FieldType::Uint64Array),
        (AuxValue::Int8Array(vec![1]), FieldType::Int8Array),
        (AuxValue::Int16Array(vec![1]), FieldType::Int16Array),
        (AuxValue::Int32Array(vec![1]), FieldType::Int32Array),
        (AuxValue::Int64Array(vec![1]), FieldType::Int64Array),
        (AuxValue::FloatArray(vec![1]), FieldType::FloatArray),
        (AuxValue::DoubleArray(vec![1]), FieldType::DoubleArray),
        (AuxValue::Enum(EnumField(1)), FieldType::Enum(Vec::new())),
    ];
    for (value, field_type) in values {
        assert_eq!(value.to_slow5_t(), field_type.to_slow5_t());
        assert_eq!(value.clone(), value);
    }
}
