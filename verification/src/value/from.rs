//! Conversions between Rust values and [`Value`].
use vstd::prelude::*;

use crate::rb_types::rb_string::RbString;
use crate::rb_types::symbol::Symbol;
use crate::value::{Instance, RbArray, RbHash, Value, ValueModel};
use vstd::slice::slice_to_vec;
use vstd::utf8::encode_utf8;

verus! {

/// Ruby's truth: `nil` and `false` are false, every other value is true.
pub open spec fn truthy(v: Value) -> bool {
    match v {
        Value::Nil => false,
        Value::Bool(b) => b,
        _ => true,
    }
}

impl From<Value> for bool {
    fn from(value: Value) -> (b: bool) {
        match value {
            Value::Nil => false,
            Value::Bool(b) => b,
            _ => true,
        }
    }
}

impl vstd::std_specs::convert::FromSpecImpl<Value> for bool {
    open spec fn obeys_from_spec() -> bool {
        true
    }

    open spec fn from_spec(v: Value) -> bool {
        truthy(v)
    }
}

impl From<bool> for Value {
    fn from(value: bool) -> (v: Value) {
        Value::Bool(value)
    }
}

impl vstd::std_specs::convert::FromSpecImpl<bool> for Value {
    open spec fn obeys_from_spec() -> bool {
        true
    }

    open spec fn from_spec(v: bool) -> Value {
        Value::Bool(v)
    }
}

impl From<i32> for Value {
    fn from(value: i32) -> (v: Value) {
        Value::Integer(value)
    }
}

impl vstd::std_specs::convert::FromSpecImpl<i32> for Value {
    open spec fn obeys_from_spec() -> bool {
        true
    }

    open spec fn from_spec(v: i32) -> Value {
        Value::Integer(v)
    }
}

impl From<Symbol> for Value {
    fn from(value: Symbol) -> (v: Value) {
        Value::Symbol(value)
    }
}

impl vstd::std_specs::convert::FromSpecImpl<Symbol> for Value {
    open spec fn obeys_from_spec() -> bool {
        true
    }

    open spec fn from_spec(v: Symbol) -> Value {
        Value::Symbol(v)
    }
}

impl From<RbString> for Value {
    fn from(value: RbString) -> (v: Value) {
        Value::String(value)
    }
}

impl vstd::std_specs::convert::FromSpecImpl<RbString> for Value {
    open spec fn obeys_from_spec() -> bool {
        true
    }

    open spec fn from_spec(v: RbString) -> Value {
        Value::String(v)
    }
}

impl From<Vec<u8>> for RbString {
    fn from(value: Vec<u8>) -> (s: RbString) {
        RbString { data: value }
    }
}

impl vstd::std_specs::convert::FromSpecImpl<Vec<u8>> for RbString {
    open spec fn obeys_from_spec() -> bool {
        true
    }

    open spec fn from_spec(v: Vec<u8>) -> RbString {
        RbString { data: v }
    }
}


impl From<String> for Value {
    /// A string of the text's UTF-8 bytes.
    fn from(value: String) -> (v: Value)
        ensures
            v@ == ValueModel::String(encode_utf8(value@)),
    {
        Value::String(RbString { data: slice_to_vec(value.as_str().as_bytes()) })
    }
}

/// The trait's own spec names no result: no spec function can build the
/// byte vector inside. The impl above states the value.
impl vstd::std_specs::convert::FromSpecImpl<String> for Value {
    open spec fn obeys_from_spec() -> bool {
        false
    }

    open spec fn from_spec(v: String) -> Value {
        choose|x: Value| x@ == ValueModel::String(encode_utf8(v@))
    }
}

impl<'a> From<&'a str> for Value {
    /// A string of the text's UTF-8 bytes.
    fn from(value: &'a str) -> (v: Value)
        ensures
            v@ == ValueModel::String(encode_utf8(value@)),
    {
        Value::String(RbString { data: slice_to_vec(value.as_bytes()) })
    }
}

/// The trait's own spec names no result: no spec function can build the
/// byte vector inside. The impl above states the value.
impl<'a> vstd::std_specs::convert::FromSpecImpl<&'a str> for Value {
    open spec fn obeys_from_spec() -> bool {
        false
    }

    open spec fn from_spec(v: &'a str) -> Value {
        choose|x: Value| x@ == ValueModel::String(encode_utf8(v@))
    }
}

impl From<Option<Value>> for Value {
    fn from(value: Option<Value>) -> (v: Value) {
        match value {
            Some(v) => v,
            None => Value::Nil,
        }
    }
}

impl vstd::std_specs::convert::FromSpecImpl<Option<Value>> for Value {
    open spec fn obeys_from_spec() -> bool {
        true
    }

    open spec fn from_spec(v: Option<Value>) -> Value {
        match v {
            Some(x) => x,
            None => Value::Nil,
        }
    }
}

impl From<RbArray> for Value {
    fn from(value: RbArray) -> (v: Value) {
        Value::Array(value)
    }
}

impl vstd::std_specs::convert::FromSpecImpl<RbArray> for Value {
    open spec fn obeys_from_spec() -> bool {
        true
    }

    open spec fn from_spec(v: RbArray) -> Value {
        Value::Array(v)
    }
}

impl From<RbHash> for Value {
    fn from(value: RbHash) -> (v: Value) {
        Value::Hash(value)
    }
}

impl vstd::std_specs::convert::FromSpecImpl<RbHash> for Value {
    open spec fn obeys_from_spec() -> bool {
        true
    }

    open spec fn from_spec(v: RbHash) -> Value {
        Value::Hash(v)
    }
}

impl From<Instance<Box<Value>>> for Value {
    fn from(value: Instance<Box<Value>>) -> (v: Value) {
        Value::Instance(value)
    }
}

impl vstd::std_specs::convert::FromSpecImpl<Instance<Box<Value>>> for Value {
    open spec fn obeys_from_spec() -> bool {
        true
    }

    open spec fn from_spec(v: Instance<Box<Value>>) -> Value {
        Value::Instance(v)
    }
}

} // verus!
