use alox_48::rb_types::rb_string::RbString;
use alox_48::rb_types::sym::Sym;
use alox_48::rb_types::symbol::Symbol;
use alox_48::ser::serializer::Serializer;
use alox_48::ser::traits::Serialize;
use alox_48::ser::ByteString;
use alox_48::tag::Tag;
use alox_48::value::eq::value_eq;
use alox_48::value::insert::{get_field, insert_field, insert_pair};
use alox_48::value::{Instance, Object};
use alox_48::Value;

fn sym(s: &str) -> Symbol {
    Symbol::new(s.to_string())
}

#[test]
fn tags_come_back_from_their_bytes() {
    for b in 0u8..=255 {
        if let Some(t) = Tag::from_u8(b) {
            assert_eq!(t.to_u8(), b);
            assert_eq!(u8::from(t), b);
        }
    }
    assert!(matches!(Tag::from_u8(b'['), Some(Tag::Array)));
    assert!(matches!(Tag::from_u8(b'@'), Some(Tag::ObjectLink)));
    assert!(Tag::from_u8(b'x').is_none());
}

#[test]
fn only_some_tags_enter_the_object_table() {
    assert!(!Tag::Nil.is_object_link_referenceable());
    assert!(!Tag::True.is_object_link_referenceable());
    assert!(!Tag::Integer.is_object_link_referenceable());
    assert!(!Tag::Symbol.is_object_link_referenceable());
    assert!(!Tag::ObjectLink.is_object_link_referenceable());
    assert!(Tag::Array.is_object_link_referenceable());
    assert!(Tag::String.is_object_link_referenceable());
    assert!(Tag::Float.is_object_link_referenceable());
}

#[test]
fn sym_knows_instance_variables() {
    let s = Sym::new("@name");
    assert!(s.is_ivar());
    assert_eq!(s.to_ivar().as_str(), "@name");
    assert_eq!(s.to_rust_field_name().unwrap().as_str(), "name");
    let t = Sym::new("name");
    assert!(!t.is_ivar());
    assert_eq!(t.to_ivar().as_str(), "@name");
    assert!(t.to_rust_field_name().is_none());
    assert!(!Sym::new("").is_ivar());
    assert!(Sym::new("").is_empty());
    assert_eq!(Sym::new("é").len(), 2);
    assert_eq!(Sym::new("abc").to_symbol().as_str(), "abc");
}

#[test]
fn symbol_mirrors_sym() {
    let s = sym("@x");
    assert!(s.is_ivar());
    assert_eq!(s.as_rust_field_name().unwrap().as_str(), "x");
    assert_eq!(s.as_sym().as_str(), "@x");
    assert_eq!(s.len(), 2);
    assert!(!s.is_empty());
    assert!(sym("").is_empty());
    assert!(sym("a") == sym("a"));
    assert!(sym("a") != sym("b"));
}

#[test]
fn rb_string_views() {
    let s = RbString { data: b"hi".to_vec() };
    assert_eq!(s.len(), 2);
    assert!(!s.is_empty());
    assert_eq!(s.as_slice(), b"hi");
    assert_eq!(s.to_string_lossy(), "hi");
    assert_eq!(s.to_string().unwrap(), "hi");
    let bad = RbString { data: vec![b'a', 0xff, b'b'] };
    assert_eq!(bad.to_string_lossy(), "a\u{fffd}b");
    assert!(bad.to_string().is_err());
    assert!(RbString::default().is_empty());
}

#[test]
fn insert_field_replaces_in_place_or_appends() {
    let mut f = vec![(sym("a"), Value::Integer(1)), (sym("b"), Value::Integer(2))];
    insert_field(&mut f, sym("a"), Value::Integer(3));
    insert_field(&mut f, sym("c"), Value::Integer(4));
    assert_eq!(f.len(), 3);
    assert_eq!(f[0].0.as_str(), "a");
    assert!(matches!(f[0].1, Value::Integer(3)));
    assert_eq!(f[2].0.as_str(), "c");
    assert!(matches!(get_field(&f, &sym("b")), Some(Value::Integer(2))));
    assert!(get_field(&f, &sym("z")).is_none());
}

#[test]
fn insert_pair_replaces_in_place_or_appends() {
    let mut h = vec![(Value::Integer(1), Value::Nil)];
    insert_pair(&mut h, Value::Integer(2), Value::Bool(true));
    insert_pair(&mut h, Value::Integer(1), Value::Bool(false));
    assert_eq!(h.len(), 2);
    assert!(matches!(h[0], (Value::Integer(1), Value::Bool(false))));
    assert!(matches!(h[1], (Value::Integer(2), Value::Bool(true))));
}

#[test]
fn value_eq_compares_structure() {
    let a = Value::Array(vec![Value::Integer(1), Value::Symbol(sym("x"))]);
    let b = Value::Array(vec![Value::Integer(1), Value::Symbol(sym("x"))]);
    let c = Value::Array(vec![Value::Integer(1), Value::Symbol(sym("y"))]);
    assert!(value_eq(&a, &b));
    assert!(!value_eq(&a, &c));
    assert!(!value_eq(&Value::Nil, &Value::Bool(false)));
    assert!(value_eq(&Value::default(), &Value::Nil));
}

#[test]
fn instance_encoding_prefers_e() {
    let i = Instance {
        value: RbString { data: b"x".to_vec() },
        fields: vec![(sym("encoding"), Value::Integer(1)), (sym("E"), Value::Bool(true))],
    };
    assert!(matches!(i.encoding(), Some(Value::Bool(true))));
    let j = Instance { value: RbString::default(), fields: vec![(sym("encoding"), Value::Integer(1))] };
    assert!(matches!(j.encoding(), Some(Value::Integer(1))));
    let k = Instance { value: RbString::default(), fields: vec![] };
    assert!(k.encoding().is_none());
    let (v, f) = i.into_parts();
    assert_eq!(v.as_slice(), b"x");
    assert_eq!(f.len(), 2);
    assert_eq!(j.into_inner().len(), 0);
}

#[test]
fn object_into_parts() {
    let o = Object { class: sym("C"), fields: vec![(sym("@a"), Value::Nil)] };
    let (c, f) = o.into_parts();
    assert_eq!(c.as_str(), "C");
    assert_eq!(f.len(), 1);
}

#[test]
fn from_symbol_makes_a_symbol() {
    assert!(matches!(Value::from_symbol("s".to_string()), Value::Symbol(s) if s.as_str() == "s"));
}

#[test]
fn byte_string_is_written_as_a_string() {
    let mut s = Serializer::default();
    ByteString(b"ab").serialize(&mut s).unwrap();
    assert_eq!(s.output, vec![4, 8, b'"', 7, b'a', b'b']);
}

#[test]
fn primitives_are_written_with_their_tags() {
    let mut s = Serializer::new();
    s.serialize_nil().unwrap();
    s.serialize_bool(true).unwrap();
    s.serialize_bool(false).unwrap();
    s.serialize_i32(5).unwrap();
    s.serialize_float_text(b"1.5").unwrap();
    s.serialize_symbol(&Sym::new("k")).unwrap();
    s.serialize_symbol(&Sym::new("k")).unwrap();
    s.serialize_regular_expression(b"a", 3).unwrap();
    s.serialize_class(&Sym::new("C")).unwrap();
    s.serialize_module(&Sym::new("M")).unwrap();
    s.serialize_user_data(&Sym::new("k"), &[9]).unwrap();
    assert_eq!(
        s.output,
        vec![
            4, 8, b'0', b'T', b'F', b'i', 10, b'f', 8, b'1', b'.', b'5', b':', 6, b'k', b';', 0,
            b'/', 6, b'a', 3, b'c', 6, b'C', b'm', 6, b'M', b'u', b';', 0, 6, 9,
        ]
    );
}

#[test]
fn wrapped_values_carry_their_class() {
    let mut s = Serializer::new();
    s.serialize_extended(&Sym::new("E"), &Value::Nil).unwrap();
    s.serialize_user_class(&Sym::new("U"), &Value::Nil).unwrap();
    s.serialize_user_marshal(&Sym::new("E"), &Value::Nil).unwrap();
    s.serialize_data(&Sym::new("D"), &Value::Nil).unwrap();
    assert_eq!(
        s.output,
        vec![4, 8, b'e', b':', 6, b'E', b'0', b'C', b':', 6, b'U', b'0', b'U', b';', 0, b'0', b'd', b':', 6, b'D', b'0']
    );
}

#[test]
fn collections_by_entries_match_whole_values() {
    let items = vec![Value::Integer(1), Value::Nil];
    let mut s = Serializer::new();
    s.collect_array(&items).unwrap();
    let entries = vec![(Value::Integer(1), Value::Integer(2))];
    s.collect_hash(&entries).unwrap();
    let mut t = Serializer::new();
    t.serialize_value(&Value::Array(vec![Value::Integer(1), Value::Nil]));
    t.serialize_value(&Value::Hash(vec![(Value::Integer(1), Value::Integer(2))]));
    assert_eq!(s.output, t.output);
    assert_eq!(s.output, vec![4, 8, b'[', 7, b'i', 6, b'0', b'{', 6, b'i', 6, b'i', 7]);
}

#[test]
fn an_instance_is_begun_with_its_value() {
    let mut s = Serializer::new();
    let mut iv = s.serialize_instance(&Value::Integer(0), 1).unwrap();
    iv.serialize_entry(&mut s, &Sym::new("@a"), &Value::Nil).unwrap();
    iv.end().unwrap();
    assert_eq!(s.output, vec![4, 8, b'I', b'i', 0, 6, b':', 7, b'@', b'a', b'0']);
}

#[test]
fn ruby_truth_and_conversions() {
    assert!(!bool::from(Value::Nil));
    assert!(!bool::from(Value::Bool(false)));
    assert!(bool::from(Value::Bool(true)));
    assert!(bool::from(Value::Integer(0)));
    assert!(bool::from(Value::Array(vec![])));
    assert!(matches!(Value::from(true), Value::Bool(true)));
    assert!(matches!(Value::from(7), Value::Integer(7)));
    assert!(matches!(Value::from(sym("s")), Value::Symbol(_)));
    assert!(matches!(Value::from(RbString { data: vec![1] }), Value::String(_)));
}

#[test]
fn hashes_and_fields_compare_as_maps() {
    let h1 = Value::Hash(vec![(Value::Integer(1), Value::Integer(2)), (Value::Integer(3), Value::Integer(4))]);
    let h2 = Value::Hash(vec![(Value::Integer(3), Value::Integer(4)), (Value::Integer(1), Value::Integer(2))]);
    let h3 = Value::Hash(vec![(Value::Integer(3), Value::Integer(4)), (Value::Integer(1), Value::Integer(5))]);
    assert!(value_eq(&h1, &h2));
    assert!(!value_eq(&h1, &h3));
    let o1 = Value::Object(Object { class: sym("C"), fields: vec![(sym("@a"), Value::Nil), (sym("@b"), Value::Bool(true))] });
    let o2 = Value::Object(Object { class: sym("C"), fields: vec![(sym("@b"), Value::Bool(true)), (sym("@a"), Value::Nil)] });
    let o3 = Value::Object(Object { class: sym("D"), fields: vec![(sym("@b"), Value::Bool(true)), (sym("@a"), Value::Nil)] });
    assert!(value_eq(&o1, &o2));
    assert!(!value_eq(&o1, &o3));
}

#[test]
fn an_equal_key_keeps_its_entry() {
    let key = || Value::Hash(vec![(Value::Integer(1), Value::Nil), (Value::Integer(2), Value::Nil)]);
    let swapped = Value::Hash(vec![(Value::Integer(2), Value::Nil), (Value::Integer(1), Value::Nil)]);
    let mut h = vec![(key(), Value::Integer(1))];
    insert_pair(&mut h, swapped, Value::Integer(2));
    assert_eq!(h.len(), 1);
    assert!(value_eq(&h[0].0, &key()));
    assert!(matches!(&h[0].0, Value::Hash(e) if matches!(e[0].0, Value::Integer(1))));
    assert!(matches!(h[0].1, Value::Integer(2)));
}

#[test]
fn equality_is_an_equivalence_on_examples() {
    let a = || Value::Hash(vec![(Value::Integer(1), Value::Array(vec![Value::Nil])), (Value::Symbol(sym("k")), Value::Bool(true))]);
    let b = Value::Hash(vec![(Value::Symbol(sym("k")), Value::Bool(true)), (Value::Integer(1), Value::Array(vec![Value::Nil]))]);
    let c = Value::Hash(vec![(Value::Integer(1), Value::Array(vec![Value::Nil])), (Value::Symbol(sym("k")), Value::Bool(true))]);
    assert!(value_eq(&a(), &a()));
    assert!(value_eq(&a(), &b) && value_eq(&b, &a()));
    assert!(value_eq(&b, &c) && value_eq(&a(), &c));
}

#[test]
fn symbol_conversions_keep_the_text() {
    let s = "name".to_string();
    assert_eq!(Symbol::new(s.clone()).as_str(), s.as_str());
    assert!(Symbol::new(s.clone()) == Symbol::from(s.as_str()));
    assert!(Symbol::new(s.clone()) == Symbol::from(s.clone()));
    assert_eq!(String::from(Symbol::new(s.clone())), s);
    assert_eq!(Symbol::from_text("x").as_str(), "x");
}

#[test]
fn a_failed_conversion_gives_the_bytes_back() {
    let d = vec![0x68, 0xFF];
    let e = RbString::from(d.clone()).to_string().unwrap_err();
    assert_eq!(RbString::from_utf8_error(e).as_slice(), &d[..]);
    let e2 = RbString::from(d.clone()).to_string().unwrap_err();
    assert_eq!(e2.into_bytes(), d);
}
