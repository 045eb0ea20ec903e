use alox_48::de::error::{Error, Kind};
use alox_48::path_to_error::{Context, Trace};
use alox_48::rb_types::symbol::Symbol;
use alox_48::ser::error::{Error as SerError, Kind as SerKind};
use alox_48::ser::serializer::Serializer;
use alox_48::tag::Tag;
use alox_48::value::eq::value_eq;
use alox_48::value::{Object, RbStruct};
use alox_48::Value;

fn kind_message(k: Kind) -> String {
    Error { kind: k }.message()
}

#[test]
fn reader_errors_have_messages() {
    assert_eq!(kind_message(Kind::UnexpectedNegativeLength(-3)), "Unexpected negative length -3");
    assert_eq!(kind_message(Kind::WrongTag(0x58)), "Wrong tag 0x58 (X)");
    assert_eq!(kind_message(Kind::WrongTag(0x0a)), "Wrong tag 0xA (.)");
    assert_eq!(kind_message(Kind::UnresolvedSymlink(4)), "Unresolved symlink 4");
    assert_eq!(kind_message(Kind::UnresolvedObjectlink(0)), "Unresolved Object link 0");
    assert_eq!(kind_message(Kind::ExpectedSymbol(Tag::Integer)), "Expected a symbol got Integer");
    assert_eq!(kind_message(Kind::Eof), "End of input");
    assert_eq!(kind_message(Kind::VersionError([4, 9])), "Version error, expected [4, 8], got [4, 9]");
    assert_eq!(kind_message(Kind::Message("boom".to_string())), "boom");
    assert_eq!(kind_message(Kind::ParseFloatMantissaTooLong), "Float mantissa too long");
    let e = alox_48::from_bytes(&[4, 8, b':', 6, 0xff]).unwrap_err();
    assert!(e.message().starts_with("Symbol is invalid utf8 "));
}

#[test]
fn writer_errors_have_messages() {
    let m = |k| SerError { kind: k }.message();
    assert_eq!(m(SerKind::OvershotProvidedLen(2, 1)), "Overshot the provided len 2 > 1");
    assert_eq!(m(SerKind::UndershotProvidedLen(0, 2)), "Undershot the provided len 0 < 2");
    assert_eq!(SerError::custom("boom").message(), "Custom error: boom");
    assert_eq!(m(SerKind::KeyAfterKey), "Tried to serialize a key without a value");
}

#[test]
fn contexts_and_traces_describe_themselves() {
    assert_eq!(Context::Hash(3).describe(), "while processing a hash with 3 entries");
    assert_eq!(Context::Int(-1).describe(), "while processing an integer: -1");
    assert_eq!(Context::Float(b"1.5".to_vec()).describe(), "while processing a float: 1.5");
    assert_eq!(
        Context::Object(Symbol::new("Foo".to_string()), 2).describe(),
        "while processing an instance of :Foo with 2 ivars"
    );
    assert_eq!(
        Context::Field(Some(Symbol::new("@a".to_string())), 1).describe(),
        "while processing :@a (field index 1)"
    );
    assert_eq!(Context::Field(None, 5).describe(), "while processing an invalid field at index 5");
    assert_eq!(Context::Regex("a+".to_string(), 3).describe(), "while processing a regex: /a+/ 3");
    let mut t = Trace::new();
    t.push(Context::Nil);
    t.push(Context::ArrayIndex(0));
    assert_eq!(
        t.describe(),
        "while processing the 0 element of an array\nwhile processing a nil\n"
    );
}

#[test]
fn clones_keep_their_contents() {
    let v = Value::Array(vec![Value::Integer(1), Value::Symbol(Symbol::new("s".to_string()))]);
    assert!(value_eq(&v.clone(), &v));
    let o = Object { class: Symbol::new("C".to_string()), fields: vec![] };
    assert_eq!(o.clone().class.as_str(), "C");
    let r = RbStruct { class: Symbol::new("S".to_string()), fields: vec![] };
    assert_eq!(r.clone().class.as_str(), "S");
    let mut s = Serializer::new();
    s.serialize_i32(1).unwrap();
    let c = s.clone();
    assert_eq!(c.output, s.output);
}
