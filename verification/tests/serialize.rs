use alox_48::rb_types::rb_string::RbString;
use alox_48::rb_types::symbol::Symbol;
use alox_48::ser::serializer::Serializer;
use alox_48::ser::traits::Serialize;
use alox_48::Value;

fn written<T: Serialize + ?Sized>(v: &T) -> Vec<u8> {
    let mut s = Serializer::new();
    v.serialize(&mut s).unwrap();
    s.output
}

#[test]
fn a_vec_is_written_as_an_array() {
    assert_eq!(written(&vec![1i32, 2]), vec![4, 8, b'[', 7, b'i', 6, b'i', 7]);
    assert_eq!(written(&Vec::<i32>::new()), vec![4, 8, b'[', 0]);
}

#[test]
fn an_option_is_written_as_its_value_or_nil() {
    assert_eq!(written(&Some(true)), vec![4, 8, b'T']);
    assert_eq!(written(&None::<i32>), vec![4, 8, b'0']);
}

#[test]
fn rust_text_is_written_as_a_utf8_string() {
    let hi = vec![4, 8, b'I', b'"', 7, b'h', b'i', 6, b':', 6, b'E', b'T'];
    assert_eq!(written(&"hi".to_string()), hi);
    let a = vec![4, 8, b'I', b'"', 6, b'a', 6, b':', 6, b'E', b'T'];
    assert_eq!(written(&'a'), a);
}

#[test]
fn wider_integers_are_cut_to_i32() {
    assert_eq!(written(&300u16), vec![4, 8, b'i', 2, 0x2c, 1]);
    assert_eq!(written(&(-1i64)), vec![4, 8, b'i', 0xfa]);
    assert_eq!(written(&0x1_0000_0001u64), vec![4, 8, b'i', 6]);
}

#[test]
fn a_pair_is_written_as_an_array_of_two() {
    assert_eq!(written(&(1i32, false)), vec![4, 8, b'[', 7, b'i', 6, b'F']);
}

#[test]
fn library_types_are_written_as_their_values() {
    assert_eq!(written(&Symbol::from("a")), vec![4, 8, b':', 6, b'a']);
    assert_eq!(written(&RbString::from(vec![b'x'])), vec![4, 8, b'"', 6, b'x']);
    assert_eq!(written(&Value::Integer(0)), vec![4, 8, b'i', 0]);
}

#[test]
fn borrowed_and_boxed_values_are_written_as_what_they_hold() {
    let hi = vec![4, 8, b'I', b'"', 7, b'h', b'i', 6, b':', 6, b'E', b'T'];
    assert_eq!(written("hi"), hi);
    assert_eq!(written(&[1i32, 2][..]), vec![4, 8, b'[', 7, b'i', 6, b'i', 7]);
    assert_eq!(written(&Box::new(true)), vec![4, 8, b'T']);
    assert_eq!(written(&&5i32), vec![4, 8, b'i', 10]);
}
