use alox_48::rb_types::rb_string::RbString;
use alox_48::rb_types::symbol::Symbol;
use alox_48::value::{Instance, Object, Userdata};
use alox_48::Value;

#[test]
fn a_value_compares_with_plain_rust_values() {
    assert!(Value::Bool(true) == true);
    assert!(Value::Bool(true) != false);
    assert!(Value::Integer(3) == 3);
    assert!(Value::Nil != 0);
    assert!(Value::String(RbString::from(b"hi".to_vec())) == *"hi");
    assert!(Value::Symbol(Symbol::from("hi")) == "hi".to_string());
    assert!(Value::Symbol(Symbol::from("hi")) != *"ho");
    let wrapped = Value::Instance(Instance {
        value: Box::new(Value::String(RbString::from(b"hi".to_vec()))),
        fields: Vec::new(),
    });
    assert!(wrapped == *"hi");
    assert!(Value::Integer(1) != *"1");
}

#[test]
fn a_value_compares_with_library_types() {
    assert!(Value::String(RbString::from(vec![1, 2])) == RbString::from(vec![1, 2]));
    assert!(Value::Symbol(Symbol::from("a")) == Symbol::from("a"));
    assert!(Value::Symbol(Symbol::from("a")) != Symbol::from("b"));
    let u = Userdata { class: Symbol::from("C"), data: vec![7] };
    assert!(Value::Userdata(u.clone()) == u);
    let o = Object { class: Symbol::from("O"), fields: vec![(Symbol::from("@a"), Value::Integer(1))] };
    let o2 = Object { class: Symbol::from("O"), fields: vec![(Symbol::from("@a"), Value::Integer(1))] };
    assert!(Value::Object(o) == o2);
    assert!(Value::Array(vec![Value::Nil]) == vec![Value::Nil]);
    let h = vec![(Value::Integer(1), Value::Nil), (Value::Integer(2), Value::Bool(true))];
    let h2 = vec![(Value::Integer(2), Value::Bool(true)), (Value::Integer(1), Value::Nil)];
    assert!(Value::Hash(h) == h2);
}

#[test]
fn rust_values_convert_into_values() {
    assert!(matches!(Value::from("hé".to_string()), Value::String(s) if s.data == "hé".as_bytes().to_vec()));
    assert!(matches!(Value::from("x"), Value::String(s) if s.data == vec![b'x']));
    assert!(matches!(Value::from(None::<Value>), Value::Nil));
    assert!(matches!(Value::from(Some(Value::Integer(4))), Value::Integer(4)));
    assert!(matches!(Value::from(vec![Value::Nil]), Value::Array(a) if a.len() == 1));
    assert!(matches!(Value::from(vec![(Value::Nil, Value::Nil)]), Value::Hash(h) if h.len() == 1));
    let i = Instance { value: Box::new(Value::Nil), fields: Vec::new() };
    assert!(matches!(Value::from(i), Value::Instance(_)));
}
