use alox_48::de::error::Kind;
use alox_48::rb_types::rb_string::RbString;
use alox_48::rb_types::sym::Sym;
use alox_48::rb_types::symbol::Symbol;
use alox_48::ser::serializer::Serializer;
use alox_48::value::eq::value_eq;
use alox_48::value::{Instance, Object, RbStruct, Userdata};
use alox_48::{from_bytes, to_bytes, Value};

fn sym(s: &str) -> Symbol {
    Symbol::new(s.to_string())
}

fn string(s: &str) -> Value {
    Value::String(RbString { data: s.as_bytes().to_vec() })
}

fn utf8_string(s: &str) -> Value {
    Value::Instance(Instance {
        value: Box::new(string(s)),
        fields: vec![(sym("E"), Value::Bool(true))],
    })
}

const MY_STRUCT_BYTES: &[u8] = &[
    0x04, 0x08, 0x6F, 0x3A, 0x0D, 0x4D, 0x79, 0x53, 0x74, 0x72, 0x75, 0x63, 0x74, 0x06, 0x3A, 0x0A,
    0x40, 0x74, 0x65, 0x73, 0x74, 0x49, 0x22, 0x08, 0x68, 0x69, 0x21, 0x06, 0x3A, 0x06, 0x45, 0x54,
];

fn my_struct() -> Value {
    Value::Object(Object {
        class: sym("MyStruct"),
        fields: vec![(sym("@test"), utf8_string("hi!"))],
    })
}

#[test]
fn serialize_object_matches_marshal_bytes() {
    let out = to_bytes(&my_struct()).unwrap();
    assert_eq!(out, MY_STRUCT_BYTES);
}

#[test]
fn serialize_object_by_entries_matches_marshal_bytes() {
    let mut s = Serializer::new();
    let mut ivars = s.serialize_object(&Sym::new("MyStruct"), 1).unwrap();
    ivars.serialize_field(&mut s, &Sym::new("@test")).unwrap();
    s.serialize_rust_string("hi!").unwrap();
    ivars.end().unwrap();
    assert_eq!(s.output, MY_STRUCT_BYTES);
}

#[test]
fn deserialize_object_example() {
    let v = from_bytes(MY_STRUCT_BYTES).unwrap();
    assert!(value_eq(&v, &my_struct()));
}

#[test]
fn object_links_are_followed() {
    let bytes = [
        4, 8, 123, 7, 58, 11, 111, 98, 106, 101, 99, 116, 111, 58, 11, 79, 98, 106, 101, 99, 116,
        0, 58, 19, 115, 101, 108, 102, 95, 114, 101, 102, 101, 114, 101, 110, 99, 101, 91, 8, 64,
        6, 64, 6, 64, 6,
    ];
    let obj = || Value::Object(Object { class: sym("Object"), fields: vec![] });
    let expected = Value::Hash(vec![
        (Value::Symbol(sym("object")), obj()),
        (Value::Symbol(sym("self_reference")), Value::Array(vec![obj(), obj(), obj()])),
    ]);
    let v = from_bytes(&bytes).unwrap();
    assert!(value_eq(&v, &expected));
}

fn int_bytes(i: i32) -> Vec<u8> {
    to_bytes(&Value::Integer(i)).unwrap()
}

#[test]
fn packed_integers_are_written_as_marshal_does() {
    assert_eq!(int_bytes(0), vec![4, 8, 0x69, 0x00]);
    assert_eq!(int_bytes(1), vec![4, 8, 0x69, 0x06]);
    assert_eq!(int_bytes(122), vec![4, 8, 0x69, 0x7f]);
    assert_eq!(int_bytes(-1), vec![4, 8, 0x69, 0xfa]);
    assert_eq!(int_bytes(-122), vec![4, 8, 0x69, 0x81]);
    assert_eq!(int_bytes(123), vec![4, 8, 0x69, 0x01, 0x7b]);
    assert_eq!(int_bytes(255), vec![4, 8, 0x69, 0x01, 0xff]);
    assert_eq!(int_bytes(256), vec![4, 8, 0x69, 0x02, 0x00, 0x01]);
    assert_eq!(int_bytes(-123), vec![4, 8, 0x69, 0xff, 0x85]);
    assert_eq!(int_bytes(-256), vec![4, 8, 0x69, 0xff, 0x00]);
    assert_eq!(int_bytes(-257), vec![4, 8, 0x69, 0xfe, 0xff, 0xfe]);
    assert_eq!(int_bytes(i32::MAX), vec![4, 8, 0x69, 0x04, 0xff, 0xff, 0xff, 0x7f]);
    assert_eq!(int_bytes(i32::MIN), vec![4, 8, 0x69, 0xfc, 0x00, 0x00, 0x00, 0x80]);
}

#[test]
fn packed_integers_read_back() {
    for i in [0, 1, 5, -5, 122, -122, 123, -123, 255, 256, -256, -257, 65535, 65536, -65537,
        1 << 24, i32::MAX, i32::MIN]
    {
        let v = from_bytes(&int_bytes(i)).unwrap();
        assert!(matches!(v, Value::Integer(j) if j == i), "{i}");
    }
}

#[test]
fn a_symbol_written_twice_becomes_a_link() {
    let v = Value::Array(vec![Value::Symbol(sym("a")), Value::Symbol(sym("b")), Value::Symbol(sym("a"))]);
    let out = to_bytes(&v).unwrap();
    assert_eq!(out, vec![4, 8, b'[', 8, b':', 6, b'a', b':', 6, b'b', b';', 0]);
    let back = from_bytes(&out).unwrap();
    assert!(value_eq(&back, &v));
}

fn rich_value() -> Value {
    Value::Array(vec![
        Value::Nil,
        Value::Bool(true),
        Value::Bool(false),
        Value::Integer(-70000),
        Value::Float(b"1.5".to_vec()),
        Value::Float(b"2.25\x00\x01\x02".to_vec()),
        string("bytes"),
        Value::Symbol(sym("name")),
        Value::Hash(vec![
            (Value::Integer(1), string("one")),
            (Value::Symbol(sym("name")), Value::Nil),
        ]),
        Value::RbStruct(RbStruct {
            class: sym("Point"),
            fields: vec![(sym("x"), Value::Integer(1)), (sym("y"), Value::Integer(2))],
        }),
        utf8_string("text"),
        Value::Regex { data: RbString { data: b"a+b".to_vec() }, flags: 1 },
        Value::Class(sym("Foo")),
        Value::Module(sym("Bar")),
        Value::Extended { module: sym("Mod"), value: Box::new(Value::Array(vec![])) },
        Value::UserClass { class: sym("MyHash"), value: Box::new(Value::Hash(vec![])) },
        Value::UserMarshal { class: sym("Dumped"), value: Box::new(Value::Integer(3)) },
        Value::Data { class: sym("CData"), value: Box::new(Value::Nil) },
        Value::Userdata(Userdata { class: sym("Table"), data: vec![0, 1, 2, 255] }),
        Value::Object(Object { class: sym("Point"), fields: vec![(sym("@x"), Value::Symbol(sym("name")))] }),
    ])
}

#[test]
fn a_value_reads_back_as_written() {
    let v = rich_value();
    let out = to_bytes(&v).unwrap();
    let back = from_bytes(&out).unwrap();
    assert!(value_eq(&back, &v));
}

#[test]
fn an_instance_without_variables_is_written_bare() {
    let v = Value::Instance(Instance { value: Box::new(Value::Integer(1)), fields: vec![] });
    assert_eq!(to_bytes(&v).unwrap(), vec![4, 8, b'i', 6]);
}

#[test]
fn user_data_is_written_with_its_length() {
    let v = Value::Userdata(Userdata { class: sym("T"), data: vec![1, 2, 3] });
    let out = to_bytes(&v).unwrap();
    assert_eq!(out, vec![4, 8, b'u', b':', 6, b'T', 8, 1, 2, 3]);
    assert!(value_eq(&from_bytes(&out).unwrap(), &v));
}

#[test]
fn user_data_is_read_with_its_length() {
    let bytes = [4, 8, b'u', b':', 6, b'T', 8, 1, 2, 3];
    let v = from_bytes(&bytes).unwrap();
    let expected = Value::Userdata(Userdata { class: sym("T"), data: vec![1, 2, 3] });
    assert!(value_eq(&v, &expected));
}

#[test]
fn a_repeated_hash_key_keeps_its_place_and_takes_the_last_value() {
    let bytes = [4, 8, b'{', 8, b'i', 6, b'i', 7, b'i', 8, b'i', 9, b'i', 6, b'i', 10];
    let v = from_bytes(&bytes).unwrap();
    let expected = Value::Hash(vec![
        (Value::Integer(1), Value::Integer(5)),
        (Value::Integer(3), Value::Integer(4)),
    ]);
    assert!(value_eq(&v, &expected));
}

#[test]
fn a_hash_with_default_drops_the_default() {
    let bytes = [4, 8, b'}', 6, b'i', 6, b'i', 7, b'i', 8];
    let v = from_bytes(&bytes).unwrap();
    let expected = Value::Hash(vec![(Value::Integer(1), Value::Integer(2))]);
    assert!(value_eq(&v, &expected));
}

#[test]
fn bytes_after_the_value_are_not_read() {
    let v = from_bytes(&[4, 8, b'0', b'x', b'y']).unwrap();
    assert!(matches!(v, Value::Nil));
}

#[test]
fn an_instance_string_reads_back() {
    let bytes = [4, 8, b'I', b'"', 8, b'h', b'i', b'!', 6, b':', 6, b'E', b'T'];
    let v = from_bytes(&bytes).unwrap();
    assert!(value_eq(&v, &utf8_string("hi!")));
}

#[test]
fn a_document_must_start_with_the_version() {
    assert!(matches!(from_bytes(&[]).unwrap_err().kind, Kind::Eof));
    assert!(matches!(from_bytes(&[4]).unwrap_err().kind, Kind::Eof));
    assert!(matches!(from_bytes(&[4, 9, b'0']).unwrap_err().kind, Kind::VersionError([4, 9])));
    assert!(matches!(from_bytes(&[4, 8]).unwrap_err().kind, Kind::Eof));
}
