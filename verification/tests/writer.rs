use slow5::engine::EngineOp;
use slow5::writer::{copy_range, extension_of, file_name_of, rfind, trimmed_len};
use slow5::{
    AuxValue, check_file_ext, FieldType, FileReader, FileType, FileWriter, HeaderExt, Mode, Record,
    RecordCompression, SignalCompression, Slow5Error, WriteOptions,
};

fn sample_record(read_id: &[u8], read_group: u32, signal: &[i16]) -> Record {
    Record::builder()
        .read_id(read_id)
        .read_group(read_group)
        .digitisation(4096.0f64.to_bits())
        .offset(4.0f64.to_bits())
        .range(12.0f64.to_bits())
        .sampling_rate(4000.0f64.to_bits())
        .raw_signal(signal)
        .build()
        .unwrap()
}

#[test]
fn test_writer() {
    let file_path = b"test.slow5";
    let read_id: &[u8] = b"test";
    let mut writer = FileWriter::create(file_path).unwrap();
    let rec = Record::builder()
        .read_id(read_id)
        .read_group(0)
        .digitisation(4096.0f64.to_bits())
        .offset(4.0f64.to_bits())
        .range(12.0f64.to_bits())
        .sampling_rate(4000.0f64.to_bits())
        .raw_signal(&[0, 1, 2, 3])
        .build()
        .unwrap();
    writer.add_record(&rec).unwrap();
    let image = writer.close();
    assert_eq!(image.len(), 1);

    let reader = FileReader::open(file_path, Some(image), 0).unwrap();
    let rec = reader.get_record(read_id).unwrap();
    assert_eq!(rec.read_id(), read_id);
}

#[test]
fn test_err_slow5_compression() {
    let file_path = b"test.slow5";
    let writer = FileWriter::options().signal_compression(SignalCompression::StreamVByte).create(file_path);
    assert!(writer.is_err());

    let writer = FileWriter::options().record_compression(RecordCompression::ZStd).create(file_path);
    assert!(writer.is_err());

    let writer = FileWriter::options()
        .signal_compression(SignalCompression::StreamVByte)
        .record_compression(RecordCompression::Zlib)
        .create(file_path);
    assert!(writer.is_err());
}

#[test]
fn test_append() {
    let file_path = b"test.blow5";
    let writer = FileWriter::options().signal_compression(SignalCompression::StreamVByte).create(file_path).unwrap();
    let image = writer.close();
    let appender = FileWriter::append(file_path, image).unwrap();
    appender.close();
}

#[test]
fn test_extension() {
    let writer = FileWriter::create(b"test.blow");
    assert!(writer.is_err());
}

#[test]
fn test_compression_getter() {
    let record_press = RecordCompression::ZStd;
    let signal_press = SignalCompression::StreamVByte;
    let writer = FileWriter::options()
        .record_compression(record_press)
        .signal_compression(signal_press)
        .create(b"test.blow5")
        .unwrap();
    assert_eq!(record_press, writer.record_compression());
    assert_eq!(signal_press, writer.signal_compression());
}

#[test]
fn extension_selects_the_representation() {
    assert_eq!(check_file_ext(b"foo.slow5"), Ok(FileType::Slow5));
    assert_eq!(check_file_ext(b"foo.blow5"), Ok(FileType::Blow5));
    assert_eq!(check_file_ext(b"dir.d/sub/foo.bar.blow5"), Ok(FileType::Blow5));
    assert_eq!(check_file_ext(b"/tmp/x/a.slow5"), Ok(FileType::Slow5));
    assert_eq!(check_file_ext(b"..slow5"), Ok(FileType::Slow5));
    // separators and a `.` component at the end do not count
    assert_eq!(check_file_ext(b"a.blow5/"), Ok(FileType::Blow5));
    assert_eq!(check_file_ext(b"a.blow5/."), Ok(FileType::Blow5));
    assert_eq!(check_file_ext(b"a.slow5/"), Ok(FileType::Slow5));
    assert_eq!(check_file_ext(b"dir/a.slow5///"), Ok(FileType::Slow5));
    assert_eq!(check_file_ext(b"dir/a.slow5/./"), Ok(FileType::Slow5));
    assert_eq!(check_file_ext(b"dir/a.blow5/././/"), Ok(FileType::Blow5));
    // paths without an extension
    for path in [
        &b"foo"[..],
        b"",
        b".slow5",
        b"dir/.blow5",
        b"..",
        b".",
        b"/",
        b"/.",
        b"./",
        b"a.slow5/b",
        b"a.slow5/..",
        b"a.slow5/../",
        b"dir/.slow5/",
        b"a.blow5/.x",
    ] {
        assert!(matches!(check_file_ext(path), Err(Slow5Error::InvalidFilePath(_))), "{:?}", path);
    }
    // paths with another extension
    for path in [&b"foo.blow"[..], b"foo.slow55", b"foo.SLOW5", b"foo.", b"foo.slow5.gz", b"a.slow5."] {
        assert!(matches!(check_file_ext(path), Err(Slow5Error::InvalidFilePath(_))), "{:?}", path);
    }
}

#[test]
fn last_component_and_extension() {
    assert_eq!(trimmed_len(b"a/b"), 3);
    assert_eq!(trimmed_len(b"a/b///"), 3);
    assert_eq!(trimmed_len(b"a/b/."), 3);
    assert_eq!(trimmed_len(b"a/b/././"), 3);
    assert_eq!(trimmed_len(b"a/b."), 4);
    assert_eq!(trimmed_len(b"a/.."), 4);
    assert_eq!(trimmed_len(b"."), 1);
    assert_eq!(trimmed_len(b"./"), 1);
    assert_eq!(trimmed_len(b"/."), 0);
    assert_eq!(trimmed_len(b"///"), 0);
    assert_eq!(trimmed_len(b""), 0);
    assert_eq!(copy_range(b"abcdef", 2, 4), b"cd".to_vec());
    assert_eq!(copy_range(b"abcdef", 3, 3), Vec::<u8>::new());
    assert_eq!(rfind(b"a.b.c", b'.'), Some(3));
    assert_eq!(rfind(b"abc", b'.'), None);
    assert_eq!(file_name_of(b"dir/sub/name.ext"), b"name.ext".to_vec());
    assert_eq!(file_name_of(b"dir/sub/name.ext//"), b"name.ext".to_vec());
    assert_eq!(file_name_of(b"dir/sub/."), b"sub".to_vec());
    assert_eq!(file_name_of(b"name"), b"name".to_vec());
    assert_eq!(file_name_of(b"/"), Vec::<u8>::new());
    assert_eq!(extension_of(b"dir/name.tar.gz"), Some(b"gz".to_vec()));
    assert_eq!(extension_of(b"dir.d/name"), None);
    assert_eq!(extension_of(b"name."), Some(Vec::new()));
    assert_eq!(extension_of(b".hidden"), None);
    assert_eq!(extension_of(b".hidden.txt"), Some(b"txt".to_vec()));
    assert_eq!(extension_of(b"a/.."), None);
    assert_eq!(extension_of(b"a.blow5/"), Some(b"blow5".to_vec()));
    assert_eq!(extension_of(b"a.blow5/."), Some(b"blow5".to_vec()));
    assert_eq!(extension_of(b"..."), Some(Vec::new()));
}

#[test]
fn trailing_separator_keeps_the_dispatch() {
    let mut opts = WriteOptions::default();
    opts.signal_compression(SignalCompression::ExZd);
    assert_eq!(opts.create(b"a.slow5/").unwrap_err(), Slow5Error::Slow5CompressionError);
    assert_eq!(opts.create(b"a.slow5/.").unwrap_err(), Slow5Error::Slow5CompressionError);
    let writer = opts.create(b"a.blow5/").unwrap();
    assert_eq!(writer.file_type(), FileType::Blow5);
    assert_eq!(writer.signal_compression(), SignalCompression::ExZd);
    assert_eq!(writer.path(), b"a.blow5/");
}

#[test]
fn compression_is_for_binary_files_only() {
    let records = [RecordCompression::Uncompressed, RecordCompression::Zlib, RecordCompression::ZStd];
    let signals = [SignalCompression::Uncompressed, SignalCompression::StreamVByte, SignalCompression::ExZd];
    for rec in records {
        for sig in signals {
            let mut opts = WriteOptions::default();
            opts.record_compression(rec).signal_compression(sig);
            let ascii = opts.create(b"foo.slow5");
            let binary = opts.create(b"foo.blow5");
            if rec.is_set() || sig.is_set() {
                assert_eq!(ascii.unwrap_err(), Slow5Error::Slow5CompressionError);
            } else {
                let writer = ascii.unwrap();
                assert_eq!(writer.record_compression(), RecordCompression::Uncompressed);
                assert_eq!(writer.signal_compression(), SignalCompression::Uncompressed);
            }
            let writer = binary.unwrap();
            assert_eq!(writer.record_compression(), rec);
            assert_eq!(writer.signal_compression(), sig);
        }
    }
}

#[test]
fn path_with_nul_is_refused() {
    assert_eq!(FileWriter::create(b"fo\0o.blow5").unwrap_err(), Slow5Error::InteriorNul(2));
    let mut opts = WriteOptions::default();
    opts.record_compression(RecordCompression::Zlib);
    // the compression conflict is found before the path is converted
    assert_eq!(opts.create(b"\0.slow5").unwrap_err(), Slow5Error::Slow5CompressionError);
}

#[test]
fn append_needs_an_existing_file() {
    let opts = WriteOptions::default();
    let res = FileWriter::with_options(b"gone.blow5", &opts, Mode::Append, None);
    assert_eq!(res.unwrap_err(), Slow5Error::Allocation);
}

#[test]
fn append_keeps_header_and_compression() {
    let mut opts = WriteOptions::default();
    opts.attr(b"run_id", b"run_0", 0)
        .aux(b"median", FieldType::Float)
        .record_compression(RecordCompression::Zlib)
        .signal_compression(SignalCompression::ExZd);
    let mut writer = opts.create(b"a.blow5").unwrap();
    writer.add_record(&sample_record(b"r0", 0, &[1, 2])).unwrap();
    let image = writer.close();

    let mut appender = FileWriter::append(b"a.blow5", image).unwrap();
    assert!(appender.finalization().is_empty());
    assert_eq!(appender.record_compression(), RecordCompression::Zlib);
    assert_eq!(appender.signal_compression(), SignalCompression::ExZd);
    assert_eq!(appender.get_attribute(b"run_id", 0).unwrap(), b"run_0");
    assert_eq!(appender.aux_names_iter().count(), 1);
    // the records written before are still there
    assert!(matches!(
        appender.add_record(&sample_record(b"r0", 0, &[9])),
        Err(Slow5Error::DuplicateReadId(_))
    ));
    appender.add_record(&sample_record(b"r1", 0, &[3])).unwrap();
    let image = appender.close();
    assert_eq!(image.len(), 2);
}

#[test]
fn duplicate_read_id_is_rejected() {
    let mut writer = FileWriter::create(b"dup.blow5").unwrap();
    writer.add_record(&sample_record(b"same", 0, &[1, 2, 3])).unwrap();
    let second = writer.add_record(&sample_record(b"same", 0, &[4, 5, 6]));
    assert_eq!(second, Err(Slow5Error::DuplicateReadId(b"same".to_vec())));
    // the file is as it was
    let image = writer.close();
    assert_eq!(image.len(), 1);
    let reader = FileReader::new(image);
    let rec = reader.get_record(b"same").unwrap();
    let mut signal = Vec::new();
    let mut iter = rec.raw_signal_iter();
    while let Some(sample) = iter.next() {
        signal.push(sample);
    }
    assert_eq!(signal, vec![1, 2, 3]);
}

#[test]
fn check_tells_what_adding_gives() {
    let mut writer = FileWriter::create(b"c.blow5").unwrap();
    let first = sample_record(b"one", 0, &[1]);
    assert_eq!(writer.check_record(&first), Ok(()));
    // checking adds nothing
    assert_eq!(writer.check_record(&first), Ok(()));
    assert_eq!(writer.add_record(&first), Ok(()));
    assert_eq!(writer.check_record(&first), Err(Slow5Error::DuplicateReadId(b"one".to_vec())));
    assert_eq!(writer.add_record(&first), Err(Slow5Error::DuplicateReadId(b"one".to_vec())));
    let stray = sample_record(b"two", 3, &[1]);
    assert_eq!(writer.check_record(&stray), Err(Slow5Error::NullArgument));
    assert_eq!(writer.add_record(&stray), Err(Slow5Error::NullArgument));
    assert_eq!(writer.close().len(), 1);
}

#[test]
fn record_that_does_not_conform_is_refused() {
    // read group 1 does not exist in a file with one read group
    let mut writer = FileWriter::create(b"x.blow5").unwrap();
    assert_eq!(writer.add_record(&sample_record(b"r", 1, &[1])), Err(Slow5Error::NullArgument));

    // an auxiliary value that was set for another file's schema
    let mut with_median = WriteOptions::default();
    with_median.aux(b"median", FieldType::Float);
    let other = with_median.create(b"other.blow5").unwrap();
    let mut rec = sample_record(b"r", 0, &[1]);
    rec.set_aux_field(&other, b"median", AuxValue::Float(1.5f32.to_bits())).unwrap();
    assert_eq!(writer.add_record(&rec), Err(Slow5Error::NullArgument));
    assert_eq!(writer.close().len(), 0);
}

#[test]
fn finalization_order() {
    let mut opts = WriteOptions::default();
    opts.attr(b"a", b"a0", 0)
        .attr(b"b", b"b0", 0)
        .attr(b"a", b"a2", 2)
        .attr(b"a", b"a0 again", 0)
        .aux(b"median", FieldType::Float)
        .aux(b"read_number", FieldType::Uint32)
        .aux(b"median", FieldType::Double)
        .aux_enum(b"end_reason", vec![b"unknown".to_vec(), b"signal_positive".to_vec()])
        .record_compression(RecordCompression::Zlib);
    let expected_tail = vec![
        EngineOp::AddReadGroups(2),
        EngineOp::AddAttribute(b"a".to_vec()),
        EngineOp::SetAttribute(b"a".to_vec(), b"a0 again".to_vec(), 0),
        EngineOp::SetAttribute(b"a".to_vec(), b"a2".to_vec(), 2),
        EngineOp::AddAttribute(b"b".to_vec()),
        EngineOp::SetAttribute(b"b".to_vec(), b"b0".to_vec(), 0),
        EngineOp::AddAuxField(b"median".to_vec(), FieldType::Double),
        EngineOp::AddAuxField(b"read_number".to_vec(), FieldType::Uint32),
        EngineOp::AddAuxField(
            b"end_reason".to_vec(),
            FieldType::Enum(vec![b"unknown".to_vec(), b"signal_positive".to_vec()]),
        ),
        EngineOp::WriteHeader,
    ];
    let mut expected = vec![EngineOp::SetCompression(RecordCompression::Zlib, SignalCompression::Uncompressed)];
    expected.extend(expected_tail);
    assert_eq!(opts.finalization(FileType::Blow5), expected);
    // an ASCII file sets no compression
    assert_eq!(opts.finalization(FileType::Slow5)[0], EngineOp::AddReadGroups(2));

    let writer = opts.create(b"plan.blow5").unwrap();
    assert_eq!(writer.finalization(), &expected);
    let header = writer.header();
    assert_eq!(header.num_read_groups(), 3);
    assert_eq!(header.get_attribute(b"a", 0).unwrap(), b"a0 again");
    assert_eq!(header.get_attribute(b"a", 2).unwrap(), b"a2");
    assert_eq!(header.get_attribute(b"b", 0).unwrap(), b"b0");
    assert_eq!(header.get_attribute(b"b", 2), Err(Slow5Error::AttributeError));
    assert_eq!(header.aux_field_type(b"median"), Some(&FieldType::Double));
    let mut names = Vec::new();
    let mut iter = header.aux_names_iter();
    while let Some(name) = iter.next() {
        names.push(name.to_vec());
    }
    assert_eq!(names, vec![b"median".to_vec(), b"read_number".to_vec(), b"end_reason".to_vec()]);
}

#[test]
fn finalization_fails_on_bad_names() {
    let mut opts = WriteOptions::default();
    opts.attr(b"ok", b"fine", 0).attr(b"b\0ad", b"v", 0);
    assert_eq!(opts.create(b"x.blow5").unwrap_err(), Slow5Error::InteriorNul(1));

    let mut opts = WriteOptions::default();
    opts.attr(b"ok", b"va\0lue", 0);
    assert_eq!(opts.create(b"x.blow5").unwrap_err(), Slow5Error::InteriorNul(2));

    let mut opts = WriteOptions::default();
    opts.aux(b"\0", FieldType::Int8);
    assert_eq!(opts.create(b"x.blow5").unwrap_err(), Slow5Error::InteriorNul(0));

    let mut labels = Vec::new();
    for i in 0..256u32 {
        labels.push(format!("l{}", i).into_bytes());
    }
    let mut opts = WriteOptions::default();
    opts.aux_enum(b"big", labels.clone());
    assert_eq!(opts.create(b"x.blow5").unwrap_err(), Slow5Error::TooManyLabels(256));
    labels.pop();
    let mut opts = WriteOptions::default();
    opts.aux_enum(b"big", labels);
    assert!(opts.create(b"x.blow5").is_ok());

    let mut opts = WriteOptions::default();
    opts.aux_enum(b"e", vec![b"fine".to_vec(), b"no\0pe".to_vec()]);
    assert_eq!(opts.create(b"x.blow5").unwrap_err(), Slow5Error::InteriorNul(2));
}

#[test]
fn num_read_groups_only_grows() {
    let mut opts = WriteOptions::default();
    opts.attr(b"test", b"val", 0).attr(b"test", b"bigger", 10);
    assert_eq!(opts.num_read_groups(2).err(), Some(Slow5Error::NumReadGroups(2, 10)));
    assert!(opts.num_read_groups(10).is_ok());
    assert!(opts.num_read_groups(12).is_ok());
    assert_eq!(opts.num_read_groups(11).err(), Some(Slow5Error::NumReadGroups(11, 12)));
    let writer = opts.create(b"g.slow5").unwrap();
    assert_eq!(writer.header().num_read_groups(), 13);
    assert_eq!(writer.get_attribute(b"test", 10).unwrap(), b"bigger");
}

#[test]
fn later_attribute_value_wins() {
    let mut opts = WriteOptions::default();
    opts.attr(b"asic_id", b"123456", 0);
    opts.attr(b"asic_id", b"7891011", 1);
    opts.attr(b"device_type", b"cool", 0);
    opts.attr(b"device_type", b"wow", 0);
    let slow5 = opts.create(b"test.slow5").unwrap();
    let header = slow5.header();
    assert_eq!(header.get_attribute(b"device_type", 0).unwrap(), b"wow");
    assert_eq!(header.get_attribute(b"asic_id", 1).unwrap(), b"7891011");
}

#[test]
fn mode_strings() {
    assert_eq!(Mode::Write.to_c_mode(), "w");
    assert_eq!(Mode::Append.to_c_mode(), "a");
}
