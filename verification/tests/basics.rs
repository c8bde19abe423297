use slow5::bytes::{bytes_eq, copy_slice, copy_vec, find_nul};
use slow5::engine::EngineOp;
use slow5::table::Table;
use slow5::{to_cstring, FieldType, Header, LogLevel, RecordCompression, SignalCompression, Slow5Error};

#[test]
fn c_strings_end_in_nul() {
    assert_eq!(to_cstring(b"abc"), Ok(b"abc\0".to_vec()));
    assert_eq!(to_cstring(b""), Ok(vec![0]));
    assert_eq!(to_cstring(b"a\0c"), Err(Slow5Error::InteriorNul(1)));
    assert_eq!(to_cstring(b"abc\0"), Err(Slow5Error::InteriorNul(3)));
    assert_eq!(to_cstring(b"\0\0"), Err(Slow5Error::InteriorNul(0)));
    assert_eq!(find_nul(b"ab"), None);
    assert_eq!(find_nul(b"ab\0\0"), Some(2));
}

#[test]
fn byte_strings_compare_by_content() {
    assert!(bytes_eq(b"", b""));
    assert!(bytes_eq(b"abc", b"abc"));
    assert!(!bytes_eq(b"abc", b"abd"));
    assert!(!bytes_eq(b"abc", b"ab"));
    assert!(!bytes_eq(b"", b"a"));
    assert_eq!(copy_slice(b"xyz"), b"xyz".to_vec());
    assert_eq!(copy_slice(&[-1i16, 2]), vec![-1i16, 2]);
    assert_eq!(copy_vec(&vec![7u64, 8]), vec![7u64, 8]);
}

#[test]
fn table_keeps_insertion_order() {
    let mut table: Table<Vec<u8>, u32> = Table::new();
    assert_eq!(table.len(), 0);
    table.insert(b"b".to_vec(), 1);
    table.insert(b"a".to_vec(), 2);
    table.insert(b"b".to_vec(), 3);
    assert_eq!(table.len(), 2);
    assert!(table.is_balanced());
    assert_eq!(table.position(&b"b".to_vec()), Some(0));
    assert_eq!(table.position(&b"a".to_vec()), Some(1));
    assert_eq!(table.position(&b"c".to_vec()), None);
    assert_eq!(table.key_at(0), &b"b".to_vec());
    assert_eq!(table.val_at(0), &3);
    assert_eq!(table.val_at(1), &2);
    assert_eq!(table.key_list(), &vec![b"b".to_vec(), b"a".to_vec()]);

    let mut pairs: Table<(Vec<u8>, u32), u8> = Table::new();
    pairs.insert((b"k".to_vec(), 0), 10);
    pairs.insert((b"k".to_vec(), 1), 11);
    pairs.insert((b"k".to_vec(), 0), 12);
    assert_eq!(pairs.len(), 2);
    assert_eq!(pairs.position(&(b"k".to_vec(), 1)), Some(1));
    assert_eq!(pairs.val_at(0), &12);
}

#[test]
fn log_levels() {
    assert_eq!(LogLevel::Off.to_slow5_log_lvl(), 0);
    assert_eq!(LogLevel::Error.to_slow5_log_lvl(), 1);
    assert_eq!(LogLevel::Warn.to_slow5_log_lvl(), 2);
    assert_eq!(LogLevel::Info.to_slow5_log_lvl(), 3);
    assert_eq!(LogLevel::Verbose.to_slow5_log_lvl(), 4);
    assert_eq!(LogLevel::Debug.to_slow5_log_lvl(), 5);
}

#[test]
fn operations_change_the_header() {
    let mut header = Header::new();
    let none = RecordCompression::Uncompressed;
    assert_eq!(EngineOp::SetCompression(none, SignalCompression::ExZd).apply(&mut header), Ok(()));
    assert_eq!(EngineOp::AddReadGroups(1).apply(&mut header), Ok(()));
    assert_eq!(
        EngineOp::SetAttribute(b"a".to_vec(), b"v".to_vec(), 1).apply(&mut header),
        Err(Slow5Error::SetAttributeError(-1))
    );
    assert_eq!(EngineOp::AddAttribute(b"a".to_vec()).apply(&mut header), Ok(()));
    assert_eq!(EngineOp::SetAttribute(b"a".to_vec(), b"v".to_vec(), 1).apply(&mut header), Ok(()));
    assert_eq!(EngineOp::AddAuxField(b"m".to_vec(), FieldType::Float).apply(&mut header), Ok(()));
    assert_eq!(EngineOp::WriteHeader.apply(&mut header), Ok(()));
    assert_eq!(header.num_read_groups(), 2);
    assert_eq!(header.get_attribute(b"a", 1).unwrap(), b"v");
    assert_eq!(header.aux_field_type(b"m"), Some(&FieldType::Float));
}

#[test]
fn operations_read_return_codes() {
    let none = RecordCompression::Uncompressed;
    let set = EngineOp::SetCompression(none, SignalCompression::ExZd);
    assert_eq!(set.outcome(0, 0), Ok(()));
    assert_eq!(set.outcome(-1, 0), Err(Slow5Error::CompressionError));
    let groups = EngineOp::AddReadGroups(4);
    assert_eq!(groups.outcome(3, 3), Ok(()));
    assert_eq!(groups.outcome(-1, 2), Err(Slow5Error::FailedAddReadGroup(2)));
    let add = EngineOp::AddAttribute(b"a".to_vec());
    assert_eq!(add.outcome(0, 0), Ok(()));
    assert_eq!(add.outcome(-2, 0), Err(Slow5Error::AddAttributeError(-2)));
    let set = EngineOp::SetAttribute(b"a".to_vec(), b"v".to_vec(), 0);
    assert_eq!(set.outcome(-1, 0), Err(Slow5Error::SetAttributeError(-1)));
    let aux = EngineOp::AddAuxField(b"m".to_vec(), FieldType::Float);
    assert_eq!(aux.outcome(-3, 0), Err(Slow5Error::AddAuxFieldError(-3)));
    assert_eq!(aux.outcome(0, 0), Ok(()));
    assert_eq!(EngineOp::WriteHeader.outcome(-1, 0), Err(Slow5Error::HeaderWriteFailed));
    assert_eq!(EngineOp::WriteHeader.outcome(-2, 0), Ok(()));
    assert_eq!(EngineOp::WriteHeader.outcome(120, 0), Ok(()));
}
