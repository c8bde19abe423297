use slow5::{
    AuxValue, EnumField, FieldType, FileImage, FileReader, HeaderExt, Record, RecordCompression,
    SignalCompression, Slow5Error, WriteOptions,
};

fn read(read_id: &[u8], signal: &[i16]) -> Record {
    Record::builder()
        .read_id(read_id)
        .read_group(0)
        .digitisation(8192.0f64.to_bits())
        .offset(23.0f64.to_bits())
        .range(1467.61f64.to_bits())
        .sampling_rate(4000.0f64.to_bits())
        .raw_signal(signal)
        .build()
        .unwrap()
}

/// A file of five reads without auxiliary fields.
fn example_slow5() -> FileImage {
    let mut opts = WriteOptions::default();
    opts.attr(b"bream_is_standard", b"1", 0).attr(b"run_id", b"d6e473a6d513ec6bfc150c60fd4556d72f0e6d18", 0);
    let mut writer = opts.create(b"examples/example.slow5").unwrap();
    for id in [&b"r1"[..], b"r2", b"r3", b"r4", b"r5"] {
        writer.add_record(&read(id, &[1039, 588, 588, 593])).unwrap();
    }
    writer.close()
}

/// A file of reads with five auxiliary fields.
fn example2_slow5() -> FileImage {
    let mut opts = WriteOptions::default();
    opts.aux(b"channel_number", FieldType::Str)
        .aux(b"median_before", FieldType::Double)
        .aux(b"read_number", FieldType::Int32)
        .aux(b"start_mux", FieldType::Uint8)
        .aux(b"start_time", FieldType::Uint64);
    let mut writer = opts.create(b"examples/example2.slow5").unwrap();
    for (id, channel, number) in [(&b"r0"[..], &b"281"[..], 4019), (b"r1", b"391", 287)] {
        let mut rec = read(id, &[430, 472, 463]);
        rec.set_aux_field(&writer, b"channel_number", AuxValue::Str(channel.to_vec())).unwrap();
        rec.set_aux_field(&writer, b"read_number", AuxValue::Int32(number)).unwrap();
        writer.add_record(&rec).unwrap();
    }
    writer.close()
}

/// A compressed file whose reads have an enum field.
fn example3_blow5() -> FileImage {
    let mut opts = WriteOptions::default();
    opts.record_compression(RecordCompression::Zlib)
        .signal_compression(SignalCompression::StreamVByte)
        .aux(b"start_time", FieldType::Uint64)
        .aux(b"read_number", FieldType::Int32)
        .aux_enum(b"end_reason", vec![b"unknown".to_vec(), b"partial".to_vec(), b"mux_change".to_vec()]);
    let mut writer = opts.create(b"examples/example3.blow5").unwrap();
    let mut rec = read(b"0035aaf9-a746-4bbd-97c4-390ddc27c756", &[502, 512, 515]);
    rec.set_aux_field(&writer, b"start_time", AuxValue::Uint64(335760788)).unwrap();
    rec.set_aux_field(&writer, b"read_number", AuxValue::Int32(13875)).unwrap();
    rec.set_aux_field(&writer, b"end_reason", AuxValue::Enum(EnumField(2))).unwrap();
    writer.add_record(&rec).unwrap();
    writer.close()
}

#[test]
fn test_reader() {
    let filename = b"examples/example.slow5";
    let mut reader = FileReader::open(filename, Some(example_slow5()), 0).unwrap();

    let read_id: &[u8] = b"r3";
    let rec = reader.get_record(read_id).unwrap();
    assert_eq!(rec.read_id(), read_id);

    let mut acc = Vec::new();
    let mut records = reader.records();
    while let Some(rec) = records.next() {
        acc.push(rec);
    }
    assert!(!acc.is_empty());
}

#[test]
fn test_no_compression() {
    let filename = b"examples/example.slow5";
    let reader = FileReader::open(filename, Some(example_slow5()), 0).unwrap();
    assert_eq!(reader.record_compression(), RecordCompression::Uncompressed);
    assert_eq!(reader.signal_compression(), SignalCompression::Uncompressed);
}

#[test]
fn test_aux_names_iter() {
    let slow5 = FileReader::open(b"examples/example2.slow5", Some(example2_slow5()), 0).unwrap();
    let header = slow5.header();
    let mut aux_names: Vec<&[u8]> = Vec::new();
    let mut iter = header.aux_names_iter();
    while let Some(name) = iter.next() {
        aux_names.push(name);
    }
    assert_eq!(aux_names.len(), 5);
    let names: [&[u8]; 5] = [b"channel_number", b"median_before", b"read_number", b"start_mux", b"start_time"];
    for name in names {
        assert!(aux_names.contains(&name));
    }
}

#[test]
fn test_no_aux_names() {
    let slow5 = FileReader::open(b"examples/example.slow5", Some(example_slow5()), 0).unwrap();
    let mut aux_names = slow5.aux_names_iter();
    assert!(aux_names.next().is_none());
}

#[test]
fn random_read_main() {
    let file_path = b"examples/example.slow5";
    let slow5 = FileReader::open(file_path, Some(example_slow5()), 0).unwrap();
    let rec = slow5.get_record(b"r3").unwrap();
    assert_eq!("r3".as_bytes(), rec.read_id());
}

#[test]
fn read_blow5_main() {
    let file_path = b"examples/example3.blow5";
    let mut slow5 = FileReader::open(file_path, Some(example3_blow5()), 0).unwrap();
    let mut records = slow5.records();
    let mut seen = 0;
    while let Some(Ok(rec)) = records.next() {
        println!("{:?}", rec.read_id());
        seen += 1;
    }
    assert_eq!(seen, 1);
}

#[test]
fn test_aux_get() {
    let reader = FileReader::open(b"examples/example2.slow5", Some(example2_slow5()), 0).unwrap();
    let rec = reader.get_record(b"r0").unwrap();
    let channel_number = rec.get_aux_field(b"channel_number", &FieldType::Str).unwrap();
    assert_eq!(channel_number, &AuxValue::Str(b"281".to_vec()));

    let rec = reader.get_record(b"r1").unwrap();
    let channel_number = rec.get_aux_field(b"channel_number", &FieldType::Str).unwrap();
    assert_eq!(channel_number, &AuxValue::Str(b"391".to_vec()));

    let reader = FileReader::open(b"examples/example3.blow5", Some(example3_blow5()), 0).unwrap();
    let rec = reader.get_record(b"0035aaf9-a746-4bbd-97c4-390ddc27c756").unwrap();
    assert_eq!(rec.get_aux_field(b"start_time", &FieldType::Uint64).unwrap(), &AuxValue::Uint64(335760788));
    assert_eq!(rec.get_aux_field(b"read_number", &FieldType::Int32).unwrap(), &AuxValue::Int32(13875));

    assert!(rec.get_aux_field(b"not real field", &FieldType::Uint8).is_err());
    assert!(rec.get_aux_field(b"read_number", &FieldType::Int64).is_err());
    assert!(rec.get_aux_field(b"also not real", &FieldType::Enum(Vec::new())).is_err());
    assert_eq!(rec.get_aux_field(b"read_number", &FieldType::Int64), Err(Slow5Error::AuxTypeMismatch));
    assert_eq!(rec.get_aux_field(b"not real field", &FieldType::Uint8), Err(Slow5Error::AuxLoadFailure));
}

#[test]
fn test_get_aux_enum() {
    let mut reader = FileReader::open(b"examples/example3.blow5", Some(example3_blow5()), 0).unwrap();
    let rec = reader.records().next().unwrap().unwrap();
    match rec.get_aux_field(b"end_reason", &FieldType::Enum(Vec::new())) {
        Ok(AuxValue::Enum(EnumField(end_reason))) => assert_eq!(*end_reason, 2),
        other => panic!("Unable to get end_reason enum field: {:?}", other),
    }
}

#[test]
fn example_attributes_and_read_ids() {
    let slow5 = FileReader::open(b"examples/example.slow5", Some(example_slow5()), 0).unwrap();
    let header = slow5.header();
    assert_eq!(header.get_attribute(b"bream_is_standard", 0).unwrap(), b"1");
    assert_eq!(slow5.get_attribute(b"run_id", 0).unwrap(), b"d6e473a6d513ec6bfc150c60fd4556d72f0e6d18");
    let mut read_ids = Vec::new();
    let mut iter = slow5.iter_read_ids().unwrap();
    while let Some(rid) = iter.next() {
        read_ids.push(rid);
    }
    assert_eq!(read_ids.len(), 5);
    assert_eq!(read_ids[0], b"r1");
    assert_eq!(read_ids[1], b"r2");
    let rec = FileReader::new(example2_slow5()).get_record(b"r0").unwrap();
    assert_eq!(rec.get_aux_field(b"read_number", &FieldType::Int32), Ok(&AuxValue::Int32(4019)));
}
