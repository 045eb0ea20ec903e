use alox_48::de::error::Kind;
use alox_48::Deserializer;
use alox_48::Value;

#[test]
fn an_array_is_read_element_by_element() {
    let bytes = vec![4, 8, b'[', 7, b'i', 6, b'i', 7];
    let mut de = Deserializer::new(&bytes).unwrap();
    let mut a = de.begin_array().unwrap().unwrap();
    assert_eq!(a.len(), 2);
    assert!(matches!(a.next_element(&mut de), Ok(Some(Value::Integer(1)))));
    assert_eq!(a.index(), 1);
    assert_eq!(de.current_position(), 6);
    a.end(&mut de).unwrap();
    assert_eq!(de.current_position(), bytes.len());
}

#[test]
fn an_array_gives_none_after_its_last_element() {
    let bytes = vec![4, 8, b'[', 6, b'T'];
    let mut de = Deserializer::new(&bytes).unwrap();
    let mut a = de.begin_array().unwrap().unwrap();
    assert!(matches!(a.next_element(&mut de), Ok(Some(Value::Bool(true)))));
    assert!(matches!(a.next_element(&mut de), Ok(None)));
    assert_eq!(de.current_position(), 5);
}

#[test]
fn a_hash_is_read_key_then_value() {
    let bytes = vec![4, 8, b'{', 7, b'i', 6, b'i', 7, b'i', 8, b'i', 9];
    let mut de = Deserializer::new(&bytes).unwrap();
    let mut h = de.begin_hash().unwrap().unwrap();
    assert_eq!(h.len(), 2);
    let e = h.next_value(&mut de).unwrap_err();
    assert!(matches!(e.kind, Kind::ValueAfterValue));
    assert_eq!(de.current_position(), 4);
    assert!(matches!(h.next_key(&mut de), Ok(Some(Value::Integer(1)))));
    let e = h.next_key(&mut de).unwrap_err();
    assert!(matches!(e.kind, Kind::KeyAfterKey));
    assert_eq!(h.index(), 1);
    assert!(matches!(h.next_value(&mut de), Ok(Value::Integer(2))));
    h.end(&mut de).unwrap();
    assert_eq!(de.current_position(), bytes.len());
}

#[test]
fn another_value_begins_no_hash() {
    let bytes = vec![4, 8, b'[', 0];
    let mut de = Deserializer::new(&bytes).unwrap();
    assert!(de.begin_hash().unwrap().is_none());
    assert_eq!(de.current_position(), 2);
    assert!(de.begin_array().unwrap().is_some());
}

#[test]
fn a_short_hash_fails_when_its_rest_is_skipped() {
    let bytes = vec![4, 8, b'{', 6, b'i'];
    let mut de = Deserializer::new(&bytes).unwrap();
    let h = de.begin_hash().unwrap().unwrap();
    assert!(matches!(h.end(&mut de).unwrap_err().kind, Kind::Eof));
}

#[test]
fn an_object_is_read_name_then_value() {
    let bytes = vec![
        4, 8, b'o', b':', 8, b'F', b'o', b'o', 7, b':', 7, b'@', b'a', b'i', 6, b':', 7, b'@', b'b',
        b'i', 7,
    ];
    let mut de = Deserializer::new(&bytes).unwrap();
    let (class, mut ivars) = de.begin_object().unwrap().unwrap();
    assert_eq!(class.as_str(), "Foo");
    assert_eq!(ivars.len(), 2);
    assert!(matches!(ivars.next_value(&mut de).unwrap_err().kind, Kind::ValueAfterValue));
    assert_eq!(ivars.next_ivar(&mut de).unwrap().unwrap().as_str(), "@a");
    assert!(matches!(ivars.next_ivar(&mut de).unwrap_err().kind, Kind::KeyAfterKey));
    assert!(matches!(ivars.next_value(&mut de), Ok(Value::Integer(1))));
    ivars.end(&mut de).unwrap();
    assert_eq!(de.current_position(), bytes.len());
}

#[test]
fn ending_early_lands_where_a_whole_read_does() {
    let bytes = vec![4, 8, b'[', 8, b'[', 6, b'T', b'{', 6, b'i', 6, b'F', b'"', 6, b'x', b'0'];
    let mut whole = Deserializer::new(&bytes).unwrap();
    whole.deserialize_value().unwrap();
    let mut de = Deserializer::new(&bytes).unwrap();
    let mut a = de.begin_array().unwrap().unwrap();
    assert!(matches!(a.next_element(&mut de), Ok(Some(Value::Array(_)))));
    a.end(&mut de).unwrap();
    assert_eq!(de.current_position(), whole.current_position());
    assert_eq!(de.current_position(), bytes.len() - 1);
}

#[test]
fn a_struct_is_read_member_by_member() {
    let bytes = vec![
        4, 8, b'S', b':', 6, b'P', 7, b':', 6, b'a', b'i', 6, b':', 6, b'b', b'i', 7,
    ];
    let mut de = Deserializer::new(&bytes).unwrap();
    let (name, mut members) = de.begin_struct().unwrap().unwrap();
    assert_eq!(name.as_str(), "P");
    assert_eq!(members.len(), 2);
    assert_eq!(members.next_ivar(&mut de).unwrap().unwrap().as_str(), "a");
    assert!(matches!(members.next_value(&mut de), Ok(Value::Integer(1))));
    members.end(&mut de).unwrap();
    assert_eq!(de.current_position(), bytes.len());
}

#[test]
fn a_hash_with_a_default_skips_its_rest_and_its_default() {
    let bytes = vec![4, 8, b'}', 6, b'i', 6, b'i', 7, b'i', 8];
    let mut de = Deserializer::new(&bytes).unwrap();
    assert!(de.begin_hash().unwrap().is_none());
    let h = de.begin_hash_default().unwrap().unwrap();
    assert_eq!(h.len(), 1);
    h.end(&mut de).unwrap();
    assert_eq!(de.current_position(), bytes.len());
}

#[test]
fn a_hash_with_a_default_fails_when_the_default_is_missing() {
    let bytes = vec![4, 8, b'}', 0];
    let mut de = Deserializer::new(&bytes).unwrap();
    let h = de.begin_hash_default().unwrap().unwrap();
    assert!(matches!(h.end(&mut de).unwrap_err().kind, Kind::Eof));
}

#[test]
fn an_instance_is_read_value_then_ivars() {
    let bytes = vec![
        4, 8, b'[', 7, b'I', b'"', 6, b'x', 6, b':', 6, b'E', b'T', b'@', 6,
    ];
    let mut de = Deserializer::new(&bytes).unwrap();
    let mut a = de.begin_array().unwrap().unwrap();
    let inst = de.begin_instance().unwrap().unwrap();
    let (v, mut ivars) = inst.value(&mut de).unwrap();
    assert!(matches!(v, Value::String(_)));
    assert_eq!(ivars.len(), 1);
    ivars.end(&mut de).unwrap();
    assert_eq!(de.current_position(), 13);
    assert!(matches!(a.next_element(&mut de), Ok(Some(Value::Instance(_)))));
    assert_eq!(de.current_position(), bytes.len());
}
