use alox_48::de::deserializer::Deserializer;
use alox_48::de::error::{Error, Kind};
use alox_48::de::ignored::Ignored;
use alox_48::rb_types::sym::Sym;
use alox_48::ser::error::{Error as SerError, Kind as SerKind};
use alox_48::ser::serializer::Serializer;
use alox_48::tag::Tag;
use alox_48::value::Value;
use alox_48::from_bytes;

fn kind_of(bytes: &[u8]) -> Kind {
    from_bytes(bytes).unwrap_err().kind
}

#[test]
fn an_unknown_tag_is_refused() {
    assert!(matches!(kind_of(&[4, 8, b'X']), Kind::WrongTag(b'X')));
}

#[test]
fn a_negative_length_is_refused() {
    assert!(matches!(kind_of(&[4, 8, b'"', 0xfa]), Kind::UnexpectedNegativeLength(-1)));
}

#[test]
fn a_short_string_runs_out_of_input() {
    assert!(matches!(kind_of(&[4, 8, b'"', 8, b'a']), Kind::Eof));
}

#[test]
fn a_short_packed_integer_runs_out_of_input() {
    assert!(matches!(kind_of(&[4, 8, b'i', 2, 1]), Kind::Eof));
}

#[test]
fn an_unknown_symbol_link_is_refused() {
    assert!(matches!(kind_of(&[4, 8, b';', 0]), Kind::UnresolvedSymlink(0)));
}

#[test]
fn an_unknown_object_link_is_refused() {
    assert!(matches!(kind_of(&[4, 8, b'@', 0]), Kind::UnresolvedObjectlink(0)));
}

#[test]
fn a_link_into_its_own_array_is_refused() {
    assert!(matches!(kind_of(&[4, 8, b'[', 6, b'@', 0]), Kind::CircularReference));
}

#[test]
fn a_long_float_mantissa_is_refused() {
    let bytes = [4, 8, b'f', 12, b'1', 0, 1, 2, 3, 4, 5];
    assert!(matches!(kind_of(&bytes), Kind::ParseFloatMantissaTooLong));
}

#[test]
fn a_float_with_four_mantissa_bytes_is_kept() {
    let bytes = [4, 8, b'f', 11, b'1', 0, 1, 2, 3, 4];
    assert!(matches!(from_bytes(&bytes).unwrap(), Value::Float(t) if t == vec![b'1', 0, 1, 2, 3, 4]));
}

#[test]
fn a_class_name_must_be_a_symbol() {
    assert!(matches!(kind_of(&[4, 8, b'o', b'i', 0, 0]), Kind::ExpectedSymbol(Tag::Integer)));
}

#[test]
fn a_symbol_must_be_utf8() {
    assert!(matches!(kind_of(&[4, 8, b':', 6, 0xff]), Kind::SymbolInvalidUTF8(_)));
}

#[test]
fn deserializer_reports_where_it_is() {
    let bytes = [4, 8, b'i', 6, b'T'];
    let mut de = Deserializer::new(&bytes).unwrap();
    assert_eq!(de.current_position(), 2);
    assert_eq!(de.data(), &bytes);
    assert!(matches!(de.deserialize_value().unwrap(), Value::Integer(1)));
    assert_eq!(de.current_position(), 4);
    assert!(matches!(de.deserialize_value().unwrap(), Value::Bool(true)));
    assert!(matches!(de.deserialize_value().unwrap_err().kind, Kind::Eof));
}

#[test]
fn ignored_steps_over_a_value() {
    let bytes = [4, 8, b'[', 7, b'i', 6, b'"', 6, b'a', b'0'];
    let mut de = Deserializer::new(&bytes).unwrap();
    Ignored::deserialize(&mut de).unwrap();
    assert_eq!(de.current_position(), 9);
    assert!(matches!(de.deserialize_value().unwrap(), Value::Nil));
}

#[test]
fn ignored_fails_where_the_value_fails() {
    let bytes = [4, 8, b'[', 7, b'i', 6];
    let mut de = Deserializer::new(&bytes).unwrap();
    assert!(matches!(Ignored::deserialize(&mut de).unwrap_err().kind, Kind::Eof));
}

fn message(e: Error) -> String {
    match e.kind {
        Kind::Message(m) => m,
        other => panic!("not a message: {other:?}"),
    }
}

#[test]
fn error_messages_read_as_intended() {
    assert_eq!(message(Error::custom("boom")), "boom");
    assert_eq!(
        message(Error::invalid_length(3, &"an array of 2")),
        "invalid length: 3, expected `an array of 2`"
    );
    assert_eq!(message(Error::missing_field(Sym::new("a"))), "missing field `:a`");
    assert_eq!(message(Error::duplicate_field(Sym::new("a"))), "duplicate field `:a`");
}

#[test]
fn unknown_field_lists_what_was_expected() {
    let f = Sym::new("z");
    assert_eq!(message(Error::unknown_field(f, &[])), "unknown field :z, there should be none");
    assert_eq!(
        message(Error::unknown_field(f, &[Sym::new("a")])),
        "unknown field :z, expected `:a`"
    );
    assert_eq!(
        message(Error::unknown_field(f, &[Sym::new("a"), Sym::new("b")])),
        "unknown field :z, expected `:a` or `:b`"
    );
    assert_eq!(
        message(Error::unknown_field(f, &[Sym::new("a"), Sym::new("b"), Sym::new("c")])),
        "unknown field :z, `:a`, `:b`, `:c`"
    );
}

#[test]
fn unknown_tag_bytes_show_as_themselves_or_a_dot() {
    assert_eq!(alox_48::de::error::unknown_tag_to_char(b'X'), 'X');
    assert_eq!(alox_48::de::error::unknown_tag_to_char(b' '), '.');
    assert_eq!(alox_48::de::error::unknown_tag_to_char(0x7f), '.');
    assert_eq!(alox_48::de::error::unknown_tag_to_char(0xff), '.');
}

#[test]
fn ser_custom_error_keeps_its_message() {
    assert!(matches!(SerError::custom("bad").kind, SerKind::Message(m) if m == "bad"));
}

#[test]
fn too_many_ivars_overshoot() {
    let mut s = Serializer::new();
    let mut ivars = s.serialize_struct(&Sym::new("S"), 1).unwrap();
    ivars.serialize_entry(&mut s, &Sym::new("a"), &Value::Nil).unwrap();
    let before = s.output.clone();
    let e = ivars.serialize_field(&mut s, &Sym::new("b")).unwrap_err();
    assert!(matches!(e.kind, SerKind::OvershotProvidedLen(2, 1)));
    assert_eq!(s.output, before);
}

#[test]
fn too_few_ivars_undershoot() {
    let mut s = Serializer::new();
    let ivars = s.serialize_object(&Sym::new("O"), 2).unwrap();
    assert!(matches!(ivars.end().unwrap_err().kind, SerKind::UndershotProvidedLen(0, 2)));
}

#[test]
fn too_many_hash_keys_overshoot() {
    let mut s = Serializer::new();
    let mut h = s.serialize_hash(0).unwrap();
    let e = h.serialize_key(&mut s, &Value::Nil).unwrap_err();
    assert!(matches!(e.kind, SerKind::OvershotProvidedLen(1, 0)));
    assert_eq!(s.output, vec![4, 8, b'{', 0]);
}

#[test]
fn too_few_hash_entries_undershoot() {
    let mut s = Serializer::new();
    let mut h = s.serialize_hash(2).unwrap();
    h.serialize_entry(&mut s, &Value::Integer(1), &Value::Nil).unwrap();
    assert!(matches!(h.end().unwrap_err().kind, SerKind::UndershotProvidedLen(1, 2)));
}

#[test]
fn too_few_array_elements_undershoot() {
    let mut s = Serializer::new();
    let mut a = s.serialize_array(3).unwrap();
    a.serialize_element(&mut s, &Value::Nil).unwrap();
    assert!(matches!(a.end().unwrap_err().kind, SerKind::UndershotProvidedLen(1, 3)));
}

#[test]
fn extra_array_elements_are_written() {
    let mut s = Serializer::new();
    let mut a = s.serialize_array(0).unwrap();
    a.serialize_element(&mut s, &Value::Nil).unwrap();
    a.end().unwrap();
    assert_eq!(s.output, vec![4, 8, b'[', 0, b'0']);
}

#[test]
fn an_option_is_none_for_nil() {
    let bytes = [4, 8, b'0', b'i', 7];
    let mut de = Deserializer::new(&bytes).unwrap();
    assert!(de.deserialize_option().unwrap().is_none());
    assert_eq!(de.current_position(), 3);
    assert!(matches!(de.deserialize_option().unwrap(), Some(Value::Integer(2))));
    assert!(matches!(de.deserialize_option().unwrap_err().kind, Kind::Eof));
}

#[test]
fn an_instance_keeps_its_variables() {
    let bytes = [4, 8, b'I', b'"', 6, b'a', 6, b':', 6, b'E', b'T', b'i', 6];
    let mut de = Deserializer::new(&bytes).unwrap();
    let i = de.deserialize_instance().unwrap();
    assert!(matches!(*i.value, Value::String(ref s) if s.data == b"a".to_vec()));
    assert_eq!(i.fields.len(), 1);
    assert_eq!(i.fields[0].0.as_str(), "E");
    let j = de.deserialize_instance().unwrap();
    assert!(matches!(*j.value, Value::Integer(1)));
    assert!(j.fields.is_empty());
}
