use slow5::header::{check_labels, MAX_READ_GROUPS};
use slow5::{FieldType, Header, Slow5Error};

#[test]
fn new_header_has_one_read_group() {
    let header = Header::new();
    assert_eq!(header.num_read_groups(), 1);
    assert_eq!(header.aux_names_iter().count(), 0);
    assert!(header.aux_names_iter().next().is_none());
    assert!(header.attribute_names().is_empty());
    assert_eq!(header.get_attribute(b"run_id", 0), Err(Slow5Error::AttributeError));
}

#[test]
fn attribute_must_be_registered_before_it_is_set() {
    let mut header = Header::new();
    assert_eq!(header.set_attribute(b"run_id", b"run_0", 0), Err(Slow5Error::SetAttributeError(-1)));
    header.add_attribute(b"run_id").unwrap();
    assert_eq!(header.get_attribute(b"run_id", 0), Err(Slow5Error::AttributeError));
    header.set_attribute(b"run_id", b"run_0", 0).unwrap();
    assert_eq!(header.get_attribute(b"run_id", 0).unwrap(), b"run_0");
    // registering again changes nothing
    header.add_attribute(b"run_id").unwrap();
    assert_eq!(header.attribute_names(), &vec![b"run_id".to_vec()]);
    assert_eq!(header.get_attribute(b"run_id", 0).unwrap(), b"run_0");
}

#[test]
fn read_group_must_exist() {
    let mut header = Header::new();
    header.add_attribute(b"asic_id").unwrap();
    assert_eq!(header.set_attribute(b"asic_id", b"x", 1), Err(Slow5Error::SetAttributeError(-1)));
    header.add_read_groups(2).unwrap();
    assert_eq!(header.num_read_groups(), 3);
    header.set_attribute(b"asic_id", b"zero", 0).unwrap();
    header.set_attribute(b"asic_id", b"two", 2).unwrap();
    assert_eq!(header.set_attribute(b"asic_id", b"three", 3), Err(Slow5Error::SetAttributeError(-1)));
    assert_eq!(header.get_attribute(b"asic_id", 0).unwrap(), b"zero");
    assert_eq!(header.get_attribute(b"asic_id", 1), Err(Slow5Error::AttributeError));
    assert_eq!(header.get_attribute(b"asic_id", 2).unwrap(), b"two");
    header.set_attribute(b"asic_id", b"new", 2).unwrap();
    assert_eq!(header.get_attribute(b"asic_id", 2).unwrap(), b"new");
    assert_eq!(header.get_attribute(b"asic_id", 0).unwrap(), b"zero");
}

#[test]
fn read_groups_are_limited() {
    let mut header = Header::new();
    header.add_read_groups(0).unwrap();
    assert_eq!(header.num_read_groups(), 1);
    header.add_read_groups(u32::MAX).unwrap();
    assert_eq!(header.num_read_groups(), MAX_READ_GROUPS);
    assert_eq!(header.add_read_groups(1), Err(Slow5Error::FailedAddReadGroup(0)));
    assert_eq!(header.num_read_groups(), MAX_READ_GROUPS);
    header.add_read_groups(0).unwrap();

    let mut header = Header::new();
    header.add_read_groups(u32::MAX - 5).unwrap();
    assert_eq!(header.add_read_groups(10), Err(Slow5Error::FailedAddReadGroup(5)));
    assert_eq!(header.num_read_groups(), MAX_READ_GROUPS - 5);
}

#[test]
fn names_and_values_hold_no_nul() {
    let mut header = Header::new();
    assert_eq!(header.add_attribute(b"a\0"), Err(Slow5Error::InteriorNul(1)));
    assert_eq!(header.add_attribute(b"\0\0"), Err(Slow5Error::InteriorNul(0)));
    assert!(header.attribute_names().is_empty());
    header.add_attribute(b"a").unwrap();
    assert_eq!(header.set_attribute(b"a\0", b"v\0", 0), Err(Slow5Error::InteriorNul(1)));
    assert_eq!(header.set_attribute(b"a", b"val\0ue", 0), Err(Slow5Error::InteriorNul(3)));
    // the value is checked before the attribute is looked up
    assert_eq!(header.set_attribute(b"b", b"\0", 0), Err(Slow5Error::InteriorNul(0)));
    assert_eq!(header.get_attribute(b"\0a", 0), Err(Slow5Error::InteriorNul(0)));
    assert_eq!(header.add_aux_field(b"m\0", FieldType::Float), Err(Slow5Error::InteriorNul(1)));
    assert_eq!(header.aux_names_iter().count(), 0);
}

#[test]
fn aux_schema_is_ordered_and_last_type_wins() {
    let mut header = Header::new();
    header.add_aux_field(b"median", FieldType::Float).unwrap();
    header.add_aux_field(b"read_number", FieldType::Int32).unwrap();
    header.add_aux_field(b"start_time", FieldType::Uint64).unwrap();
    header.add_aux_field(b"read_number", FieldType::Uint8).unwrap();
    let mut iter = header.aux_names_iter();
    assert_eq!(iter.count(), 3);
    assert_eq!(iter.next().unwrap(), b"median");
    assert_eq!(iter.count(), 2);
    assert_eq!(iter.next().unwrap(), b"read_number");
    assert_eq!(iter.next().unwrap(), b"start_time");
    assert_eq!(iter.next(), None);
    assert_eq!(iter.next(), None);
    assert_eq!(iter.count(), 0);
    assert_eq!(header.aux_field_type(b"read_number"), Some(&FieldType::Uint8));
    assert_eq!(header.aux_field_type(b"median"), Some(&FieldType::Float));
    assert_eq!(header.aux_field_type(b"missing"), None);
    // a new iterator starts from the first name
    assert_eq!(header.aux_names_iter().next().unwrap(), b"median");
}

#[test]
fn enum_labels_fit_an_eight_bit_index() {
    let mut labels: Vec<Vec<u8>> = (0..255u32).map(|i| format!("label{}", i).into_bytes()).collect();
    let mut header = Header::new();
    header.add_aux_field(b"e", FieldType::Enum(labels.clone())).unwrap();
    assert_eq!(header.aux_field_type(b"e").unwrap().label_count(), 255);
    labels.push(b"one too many".to_vec());
    assert_eq!(header.add_aux_field(b"f", FieldType::Enum(labels.clone())), Err(Slow5Error::TooManyLabels(256)));
    assert_eq!(header.add_aux_field(b"e", FieldType::Enum(labels)), Err(Slow5Error::TooManyLabels(256)));
    assert_eq!(header.aux_field_type(b"e").unwrap().label_count(), 255);
    assert_eq!(header.aux_names_iter().count(), 1);
    header.add_aux_field(b"none", FieldType::Enum(Vec::new())).unwrap();
}

#[test]
fn labels_hold_no_nul() {
    assert_eq!(check_labels(&vec![]), Ok(()));
    assert_eq!(check_labels(&vec![b"a".to_vec(), b"".to_vec()]), Ok(()));
    assert_eq!(
        check_labels(&vec![b"fine".to_vec(), b"ab\0".to_vec(), b"\0".to_vec()]),
        Err(Slow5Error::InteriorNul(2))
    );
    let mut header = Header::new();
    assert_eq!(
        header.add_aux_field(b"e", FieldType::Enum(vec![b"\0x".to_vec()])),
        Err(Slow5Error::InteriorNul(0))
    );
    assert_eq!(header.aux_names_iter().count(), 0);
}
