use alox_48::de::error::{Error, Kind, Unexpected};
use alox_48::rb_types::rb_string::RbString;
use alox_48::rb_types::sym::Sym;
use alox_48::rb_types::symbol::Symbol;
use alox_48::value::de::{
    copy_value, deserialize_value_with, from_value, IntVisitor, ValueArrayAccess, ValueHashAccess,
    ValueIvarAccess,
};
use alox_48::value::eq::value_eq;
use alox_48::value::{Instance, Object};
use alox_48::Value;

fn sym(s: &str) -> Symbol {
    Symbol::new(s.to_string())
}

fn message(e: Error) -> String {
    match e.kind {
        Kind::Message(m) => m,
        other => panic!("not a message: {other:?}"),
    }
}

#[test]
fn from_value_reads_an_integer() {
    assert_eq!(from_value::<i32>(&Value::Integer(5)).unwrap(), 5);
    let wrapped = Value::Instance(Instance {
        value: Box::new(Value::Integer(-3)),
        fields: vec![(sym("@x"), Value::Nil)],
    });
    assert_eq!(from_value::<i32>(&wrapped).unwrap(), -3);
    let extended = Value::Extended { module: sym("M"), value: Box::new(Value::Integer(9)) };
    assert_eq!(deserialize_value_with(&extended, IntVisitor).unwrap(), 9);
}

#[test]
fn from_value_refuses_other_kinds() {
    assert_eq!(
        message(from_value::<i32>(&Value::Nil).unwrap_err()),
        "invalid value: nil, expected `an integer`"
    );
    assert_eq!(
        message(from_value::<i32>(&Value::Bool(true)).unwrap_err()),
        "invalid value: bool `true`, expected `an integer`"
    );
    assert_eq!(
        message(from_value::<i32>(&Value::Symbol(sym("a"))).unwrap_err()),
        "invalid value: symbol `:a`, expected `an integer`"
    );
    assert_eq!(
        message(from_value::<i32>(&Value::String(RbString { data: b"x\"y".to_vec() })).unwrap_err()),
        "invalid value: string \"x\\\"y\", expected `an integer`"
    );
    let o = Value::Object(Object { class: sym("Foo"), fields: vec![] });
    assert_eq!(
        message(from_value::<i32>(&o).unwrap_err()),
        "invalid value: an instance of `:Foo`, expected `an integer`"
    );
}

#[test]
fn from_value_copies_a_value() {
    let v = Value::Array(vec![Value::Integer(1), Value::Hash(vec![(Value::Nil, Value::Symbol(sym("s")))])]);
    let w: Value = from_value(&v).unwrap();
    assert!(value_eq(&v, &w));
    assert!(value_eq(&copy_value(&v), &v));
    assert!(v == w);
}

#[test]
fn unexpected_values_are_described() {
    assert_eq!(Unexpected::Integer(-12).describe(), "integer `-12`");
    assert_eq!(Unexpected::Float(b"1.5").describe(), "float `1.5`");
    assert_eq!(Unexpected::Hash.describe(), "hash");
    assert_eq!(Unexpected::Class(Sym::new("C")).describe(), "class `:C`");
    assert_eq!(Unexpected::Instance.describe(), "object with ivars");
    assert_eq!(
        message(Error::invalid_type(Unexpected::Array, &"a string")),
        "invalid type: array, expected `a string`"
    );
    assert_eq!(
        message(Error::invalid_value(Unexpected::Nil, &"a bool")),
        "invalid value: nil, expected `a bool`"
    );
}

#[test]
fn array_access_reads_one_at_a_time() {
    let items = vec![Value::Integer(1), Value::Nil, Value::Integer(3)];
    let mut a = ValueArrayAccess::new(&items);
    assert_eq!(a.len(), 3);
    assert_eq!(a.next_element::<i32>().unwrap(), Some(1));
    assert!(a.next_element::<i32>().is_err());
    assert_eq!(a.index(), 2);
    assert_eq!(a.next_element::<i32>().unwrap(), Some(3));
    assert_eq!(a.next_element::<i32>().unwrap(), None);
}

#[test]
fn hash_access_reads_a_key_then_its_value() {
    let h = vec![(Value::Integer(1), Value::Integer(10)), (Value::Integer(2), Value::Integer(20))];
    let mut a = ValueHashAccess::new(&h);
    assert_eq!(a.next_key::<i32>().unwrap(), Some(1));
    assert_eq!(a.next_key::<i32>().unwrap(), Some(1));
    assert_eq!(a.next_value::<i32>().unwrap(), 10);
    assert_eq!(a.next_key::<i32>().unwrap(), Some(2));
    assert_eq!(a.next_value::<i32>().unwrap(), 20);
    assert_eq!(a.next_key::<i32>().unwrap(), None);
    assert_eq!(message(a.next_value::<i32>().unwrap_err()), "out of values");
}

#[test]
fn ivar_access_reads_a_name_then_its_value() {
    let f = vec![(sym("@a"), Value::Integer(7))];
    let mut a = ValueIvarAccess::new(&f);
    assert_eq!(a.len(), 1);
    assert_eq!(a.next_ivar().unwrap().unwrap().as_str(), "@a");
    assert_eq!(a.next_value::<i32>().unwrap(), 7);
    assert!(a.next_ivar().unwrap().is_none());
    assert_eq!(message(a.next_value::<i32>().unwrap_err()), "out of values");
}

#[test]
fn other_integer_types_cast_what_was_read() {
    assert_eq!(from_value::<u8>(&Value::Integer(300)).unwrap(), 44);
    assert_eq!(from_value::<i64>(&Value::Integer(-5)).unwrap(), -5);
    assert_eq!(from_value::<u32>(&Value::Integer(-1)).unwrap(), u32::MAX);
    assert!(from_value::<u16>(&Value::Nil).is_err());
}
