use slow5::record::MAX_READ_ID_LEN;
use slow5::{AuxValue, BuilderError, EnumField, FieldType, FileWriter, Record, RecordBuilder, Slow5Error};

fn complete() -> RecordBuilder {
    let mut builder = RecordBuilder::default();
    builder
        .read_id(b"test_id")
        .read_group(0)
        .digitisation(4096.0f64.to_bits())
        .offset(4.0f64.to_bits())
        .range(12.0f64.to_bits())
        .sampling_rate(4000.0f64.to_bits())
        .raw_signal(&[0, 1, 2, 3]);
    builder
}

#[test]
fn record_test_aux() {
    let mut slow5 = FileWriter::options().aux(b"median", FieldType::Float).create(b"new.slow5").unwrap();
    let mut rec = RecordBuilder::default()
        .read_id(b"test_id")
        .read_group(0)
        .digitisation(4096.0f64.to_bits())
        .offset(4.0f64.to_bits())
        .range(12.0f64.to_bits())
        .sampling_rate(4000.0f64.to_bits())
        .raw_signal(&[0, 1, 2, 3])
        .build()
        .unwrap();
    rec.set_aux_field(&mut slow5, b"median", AuxValue::Float(10.0f32.to_bits())).unwrap();
    assert_eq!(rec.get_aux_field(b"median", &FieldType::Float), Ok(&AuxValue::Float(10.0f32.to_bits())));
}

#[test]
fn build_gives_the_fields_back() {
    let rec = complete().build().unwrap();
    assert_eq!(rec.read_id(), b"test_id");
    assert_eq!(rec.read_group(), 0);
    assert_eq!(rec.digitisation(), 4096.0f64.to_bits());
    assert_eq!(rec.offset(), 4.0f64.to_bits());
    assert_eq!(rec.range(), 12.0f64.to_bits());
    assert_eq!(rec.sampling_rate(), 4000.0f64.to_bits());
    assert_eq!(rec.len_signal(), 4);
    assert_eq!(rec.aux_len(), 0);
    let mut iter = rec.raw_signal_iter();
    assert_eq!(iter.next(), Some(0));
    assert_eq!(iter.next(), Some(1));
    assert_eq!(iter.next(), Some(2));
    assert_eq!(iter.next(), Some(3));
    assert_eq!(iter.next(), None);
    assert_eq!(iter.next(), None);
}

#[test]
fn build_names_the_first_missing_field() {
    let mut builder = Record::builder();
    assert_eq!(builder.build().unwrap_err(), BuilderError::RequiredValueUnset("read_id"));
    builder.read_id(b"id");
    assert_eq!(builder.build().unwrap_err(), BuilderError::RequiredValueUnset("read_group"));
    builder.read_group(1);
    assert_eq!(builder.build().unwrap_err(), BuilderError::RequiredValueUnset("digitisation"));
    builder.digitisation(1.0f64.to_bits());
    assert_eq!(builder.build().unwrap_err(), BuilderError::RequiredValueUnset("offset"));
    builder.offset(1.0f64.to_bits());
    assert_eq!(builder.build().unwrap_err(), BuilderError::RequiredValueUnset("range"));
    builder.range(1.0f64.to_bits());
    assert_eq!(builder.build().unwrap_err(), BuilderError::RequiredValueUnset("sampling_rate"));
    builder.sampling_rate(1.0f64.to_bits());
    assert_eq!(builder.build().unwrap_err(), BuilderError::RequiredValueUnset("raw_signal"));
    builder.raw_signal(&[]);
    let rec = builder.build().unwrap();
    assert_eq!(rec.len_signal(), 0);
    assert_eq!(rec.raw_signal_iter().next(), None);

    // the order of the setters does not matter, the order of the fields does
    let mut builder = Record::builder();
    builder.raw_signal(&[1]).sampling_rate(0).offset(0);
    assert_eq!(builder.build().unwrap_err(), BuilderError::RequiredValueUnset("read_id"));
    builder.read_id(b"x").read_group(0);
    assert_eq!(builder.build().unwrap_err(), BuilderError::RequiredValueUnset("digitisation"));
}

#[test]
fn build_checks_the_read_id() {
    let mut builder = complete();
    builder.read_id(b"in\0side");
    assert_eq!(builder.build().unwrap_err(), BuilderError::ReadIDError);

    let longest = vec![b'a'; MAX_READ_ID_LEN];
    builder.read_id(&longest);
    assert_eq!(builder.build().unwrap().read_id().len(), 65535);

    let too_long = vec![b'a'; MAX_READ_ID_LEN + 1];
    builder.read_id(&too_long);
    assert_eq!(builder.build().unwrap_err(), BuilderError::ConversionError);

    // a NUL byte is reported before the length
    let mut both = vec![b'a'; MAX_READ_ID_LEN + 1];
    both[7] = 0;
    builder.read_id(&both);
    assert_eq!(builder.build().unwrap_err(), BuilderError::ReadIDError);
}

#[test]
fn builder_can_be_used_again() {
    let mut builder = complete();
    let first = builder.build().unwrap();
    let second = builder.read_id(b"other").raw_signal(&[9, 8]).build().unwrap();
    assert_eq!(first.read_id(), b"test_id");
    assert_eq!(second.read_id(), b"other");
    assert_eq!(second.len_signal(), 2);
    assert_eq!(second.sampling_rate(), first.sampling_rate());
}

#[test]
fn aux_values_are_checked_against_the_schema() {
    let mut opts = FileWriter::options();
    opts.aux(b"median", FieldType::Float)
        .aux(b"count", FieldType::Int32)
        .aux(b"text", FieldType::Str)
        .aux(b"samples", FieldType::Uint16Array)
        .aux_enum(b"end_reason", vec![b"unknown".to_vec(), b"mux_change".to_vec(), b"positive".to_vec()]);
    let writer = opts.create(b"aux.blow5").unwrap();
    let mut rec = complete().build().unwrap();

    assert_eq!(rec.set_aux_field(&writer, b"nope", AuxValue::Int32(1)), Err(Slow5Error::MissingAttribute));
    assert_eq!(rec.set_aux_field(&writer, b"count", AuxValue::Int64(1)), Err(Slow5Error::AuxTypeMismatch));
    assert_eq!(rec.set_aux_field(&writer, b"count", AuxValue::Uint32(1)), Err(Slow5Error::AuxTypeMismatch));
    assert_eq!(rec.set_aux_field(&writer, b"co\0unt", AuxValue::Int32(1)), Err(Slow5Error::InteriorNul(2)));
    assert_eq!(
        rec.set_aux_field(&writer, b"text", AuxValue::Str(b"a\0b".to_vec())),
        Err(Slow5Error::InteriorNul(1))
    );
    assert_eq!(rec.aux_len(), 0);

    rec.set_aux_field(&writer, b"count", AuxValue::Int32(-5)).unwrap();
    rec.set_aux_field(&writer, b"samples", AuxValue::Uint16Array(vec![1, 2, 3])).unwrap();
    rec.set_aux_field(&writer, b"count", AuxValue::Int32(7)).unwrap();
    assert_eq!(rec.aux_len(), 2);
    assert_eq!(rec.aux_name_at(0), b"count");
    assert_eq!(rec.aux_value_at(0), &AuxValue::Int32(7));
    assert_eq!(rec.aux_name_at(1), b"samples");

    // reading: never set is "not found", another type is a mismatch
    assert_eq!(rec.get_aux_field(b"median", &FieldType::Float), Err(Slow5Error::AuxLoadFailure));
    assert_eq!(rec.get_aux_field(b"count", &FieldType::Int64), Err(Slow5Error::AuxTypeMismatch));
    assert_eq!(rec.get_aux_field(b"count", &FieldType::Uint32), Err(Slow5Error::AuxTypeMismatch));
    assert_eq!(rec.get_aux_field(b"count", &FieldType::Int32), Ok(&AuxValue::Int32(7)));
    assert_eq!(rec.get_aux_field(b"samples", &FieldType::Uint16Array), Ok(&AuxValue::Uint16Array(vec![1, 2, 3])));
    assert_eq!(rec.get_aux_field(b"samples", &FieldType::Uint16), Err(Slow5Error::AuxTypeMismatch));
    assert_eq!(rec.get_aux_field(b"\0", &FieldType::Uint16), Err(Slow5Error::InteriorNul(0)));
}

#[test]
fn enum_index_must_name_a_label() {
    let mut opts = FileWriter::options();
    opts.aux_enum(b"end_reason", vec![b"unknown".to_vec(), b"mux_change".to_vec(), b"positive".to_vec()]);
    opts.aux(b"count", FieldType::Int32);
    let writer = opts.create(b"enum.blow5").unwrap();
    let mut rec = complete().build().unwrap();
    assert_eq!(
        rec.set_aux_field(&writer, b"end_reason", AuxValue::Enum(EnumField(3))),
        Err(Slow5Error::EnumOutOfRange)
    );
    assert_eq!(
        rec.set_aux_field(&writer, b"end_reason", AuxValue::Enum(EnumField(255))),
        Err(Slow5Error::EnumOutOfRange)
    );
    assert_eq!(
        rec.set_aux_field(&writer, b"end_reason", AuxValue::Enum(EnumField(256))),
        Err(Slow5Error::EnumOutOfRange)
    );
    assert_eq!(
        rec.set_aux_field(&writer, b"end_reason", AuxValue::Enum(EnumField(usize::MAX))),
        Err(Slow5Error::EnumOutOfRange)
    );
    assert_eq!(
        rec.set_aux_field(&writer, b"count", AuxValue::Enum(EnumField(0))),
        Err(Slow5Error::AuxTypeMismatch)
    );
    assert_eq!(
        rec.set_aux_field(&writer, b"end_reason", AuxValue::Uint8(1)),
        Err(Slow5Error::AuxTypeMismatch)
    );
    rec.set_aux_field(&writer, b"end_reason", AuxValue::Enum(EnumField(2))).unwrap();
    let labels = FieldType::from_labels(Vec::new());
    match rec.get_aux_field(b"end_reason", &labels).unwrap() {
        AuxValue::Enum(EnumField(index)) => assert_eq!(*index, 2),
        other => panic!("unexpected value {:?}", other),
    }
}

#[test]
fn text_must_be_utf8_to_be_read() {
    let mut opts = FileWriter::options();
    opts.aux(b"text", FieldType::Str);
    let writer = opts.create(b"text.blow5").unwrap();
    let mut rec = complete().build().unwrap();
    rec.set_aux_field(&writer, b"text", AuxValue::Str("gr\u{fc}n".as_bytes().to_vec())).unwrap();
    assert_eq!(
        rec.get_aux_field(b"text", &FieldType::Str),
        Ok(&AuxValue::Str("gr\u{fc}n".as_bytes().to_vec()))
    );
    rec.set_aux_field(&writer, b"text", AuxValue::Str(vec![b'o', b'k', 0xff, b'x'])).unwrap();
    assert_eq!(rec.get_aux_field(b"text", &FieldType::Str), Err(Slow5Error::Utf8Error(2)));
    // a cut-off sequence at the end
    rec.set_aux_field(&writer, b"text", AuxValue::Str(vec![b'a', 0xc3])).unwrap();
    assert_eq!(rec.get_aux_field(b"text", &FieldType::Str), Err(Slow5Error::Utf8Error(1)));
    // the bytes of an array are never decoded
    assert_eq!(rec.get_aux_field(b"text", &FieldType::Uint8Array), Err(Slow5Error::AuxTypeMismatch));
}

#[test]
fn clone_is_a_copy() {
    let mut opts = FileWriter::options();
    opts.aux(b"count", FieldType::Int32).aux(b"samples", FieldType::DoubleArray);
    let writer = opts.create(b"c.blow5").unwrap();
    let mut rec = complete().build().unwrap();
    rec.set_aux_field(&writer, b"count", AuxValue::Int32(3)).unwrap();
    rec.set_aux_field(&writer, b"samples", AuxValue::DoubleArray(vec![1.5f64.to_bits()])).unwrap();
    let mut copy = rec.clone();
    assert_eq!(copy.read_id(), rec.read_id());
    assert_eq!(copy.len_signal(), rec.len_signal());
    assert_eq!(copy.aux_len(), 2);
    assert_eq!(copy.get_aux_field(b"count", &FieldType::Int32), Ok(&AuxValue::Int32(3)));
    assert_eq!(
        copy.get_aux_field(b"samples", &FieldType::DoubleArray),
        Ok(&AuxValue::DoubleArray(vec![1.5f64.to_bits()]))
    );
    copy.set_aux_field(&writer, b"count", AuxValue::Int32(4)).unwrap();
    assert_eq!(rec.get_aux_field(b"count", &FieldType::Int32), Ok(&AuxValue::Int32(3)));
}
