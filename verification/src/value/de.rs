//! Reading Rust values out of a [`Value`]: visitors and the types they build.
use vstd::prelude::*;
use vstd::slice::slice_to_vec;
use vstd::string::StringExecFns;

use crate::de::error::{agrees, debug_quoted, named, Error, KindModel, Unexpected, unexpected_text};
use crate::fmt::int_decimal;
use crate::rb_types::rb_string::{utf8_lossy_text, RbString};
use crate::rb_types::sym::Sym;
use crate::rb_types::symbol::Symbol;
use crate::value::{
    field_models, lemma_field_models_index, lemma_models_index, lemma_pair_models_index, model,
    models, pair_models, Instance, Object, RbFields, RbHash, RbStruct, Userdata, Value, ValueModel,
};

verus! {

broadcast use vstd::std_specs::vec::group_vec_axioms, vstd::seq::group_seq_axioms;

/// A visitor: what a reader makes of each kind of value. Each method is
/// handed the parts of one kind of value and promises a result that the
/// visitor gives for that value.
pub trait Visitor<'de>: Sized {
    /// What the visitor makes.
    type Value;

    /// Whether `r` is a result that this visitor gives for a value with
    /// model `v`.
    spec fn gives(self, v: ValueModel, r: Result<Self::Value, Error>) -> bool;

    /// The input holds `nil`.
    fn visit_nil(self) -> (r: Result<Self::Value, Error>)
        ensures
            self.gives(ValueModel::Nil, r),
    ;

    /// The input holds a boolean.
    fn visit_bool(self, v: bool) -> (r: Result<Self::Value, Error>)
        ensures
            self.gives(ValueModel::Bool(v), r),
    ;

    /// The input holds an integer.
    fn visit_i32(self, v: i32) -> (r: Result<Self::Value, Error>)
        ensures
            self.gives(ValueModel::Integer(v), r),
    ;

    /// The input holds a float, given by the text that Marshal stores for it.
    fn visit_float_text(self, text: &'de [u8]) -> (r: Result<Self::Value, Error>)
        ensures
            self.gives(ValueModel::Float(text@), r),
    ;

    /// The input holds a hash.
    fn visit_hash(self, map: &'de RbHash) -> (r: Result<Self::Value, Error>)
        ensures
            self.gives(ValueModel::Hash(pair_models(map@)), r),
    ;

    /// The input holds an array.
    fn visit_array(self, array: &'de [Value]) -> (r: Result<Self::Value, Error>)
        ensures
            self.gives(ValueModel::Array(models(array@)), r),
    ;

    /// The input holds a string of bytes.
    fn visit_string(self, string: &'de [u8]) -> (r: Result<Self::Value, Error>)
        ensures
            self.gives(ValueModel::String(string@), r),
    ;

    /// The input holds a symbol.
    fn visit_symbol(self, symbol: Sym<'de>) -> (r: Result<Self::Value, Error>)
        ensures
            self.gives(ValueModel::Symbol(symbol@), r),
    ;

    /// The input holds a regular expression: its source and its flags.
    fn visit_regular_expression(self, regex: &'de [u8], flags: u8) -> (r: Result<Self::Value, Error>)
        ensures
            self.gives(ValueModel::Regex(regex@, flags), r),
    ;

    /// The input holds an object.
    fn visit_object(self, class: Sym<'de>, fields: &'de RbFields) -> (r: Result<Self::Value, Error>)
        ensures
            self.gives(ValueModel::Object(class@, field_models(fields@)), r),
    ;

    /// The input holds a struct.
    fn visit_struct(self, name: Sym<'de>, members: &'de RbFields) -> (r: Result<Self::Value, Error>)
        ensures
            self.gives(ValueModel::Struct(name@, field_models(members@)), r),
    ;

    /// The input holds a class, by name.
    fn visit_class(self, class: Sym<'de>) -> (r: Result<Self::Value, Error>)
        ensures
            self.gives(ValueModel::Class(class@), r),
    ;

    /// The input holds a module, by name.
    fn visit_module(self, module: Sym<'de>) -> (r: Result<Self::Value, Error>)
        ensures
            self.gives(ValueModel::Module(module@), r),
    ;

    /// The input holds a value with instance variables attached.
    fn visit_instance(self, value: &'de Value, fields: &'de RbFields) -> (r: Result<Self::Value, Error>)
        ensures
            self.gives(ValueModel::Instance(Box::new(value@), field_models(fields@)), r),
    ;

    /// The input holds a value extended with a module.
    fn visit_extended(self, module: Sym<'de>, value: &'de Value) -> (r: Result<Self::Value, Error>)
        ensures
            self.gives(ValueModel::Extended(module@, Box::new(value@)), r),
    ;

    /// The input holds a value of a subclass of a core class.
    fn visit_user_class(self, class: Sym<'de>, value: &'de Value) -> (r: Result<Self::Value, Error>)
        ensures
            self.gives(ValueModel::UserClass(class@, Box::new(value@)), r),
    ;

    /// The input holds user data: its class and its bytes.
    fn visit_user_data(self, class: Sym<'de>, data: &'de [u8]) -> (r: Result<Self::Value, Error>)
        ensures
            self.gives(ValueModel::Userdata(class@, data@), r),
    ;

    /// The input holds an object dumped as another value.
    fn visit_user_marshal(self, class: Sym<'de>, value: &'de Value) -> (r: Result<Self::Value, Error>)
        ensures
            self.gives(ValueModel::UserMarshal(class@, Box::new(value@)), r),
    ;

    /// The input holds C extension data.
    fn visit_data(self, class: Sym<'de>, value: &'de Value) -> (r: Result<Self::Value, Error>)
        ensures
            self.gives(ValueModel::Data(class@, Box::new(value@)), r),
    ;
}

/// Walks a value into the visitor method for its kind, with its parts.
///
/// # Errors
/// The errors of the visitor.
pub fn deserialize_value_with<'de, V: Visitor<'de>>(value: &'de Value, visitor: V) -> (r: Result<
    V::Value,
    Error,
>)
    ensures
        visitor.gives(value@, r),
{
    match value {
        Value::Nil => visitor.visit_nil(),
        Value::Bool(b) => visitor.visit_bool(*b),
        Value::Float(t) => visitor.visit_float_text(t.as_slice()),
        Value::Integer(i) => visitor.visit_i32(*i),
        Value::String(s) => visitor.visit_string(s.as_slice()),
        Value::Symbol(s) => visitor.visit_symbol(s.as_sym()),
        Value::Array(a) => visitor.visit_array(a.as_slice()),
        Value::Hash(h) => visitor.visit_hash(h),
        Value::Userdata(u) => visitor.visit_user_data(u.class.as_sym(), u.data.as_slice()),
        Value::Object(o) => visitor.visit_object(o.class.as_sym(), &o.fields),
        Value::Instance(i) => visitor.visit_instance(&*i.value, &i.fields),
        Value::Regex { data, flags } => visitor.visit_regular_expression(data.as_slice(), *flags),
        Value::RbStruct(s) => visitor.visit_struct(s.class.as_sym(), &s.fields),
        Value::Class(c) => visitor.visit_class(c.as_sym()),
        Value::Module(m) => visitor.visit_module(m.as_sym()),
        Value::Extended { module, value } => visitor.visit_extended(module.as_sym(), &**value),
        Value::UserClass { class, value } => visitor.visit_user_class(class.as_sym(), &**value),
        Value::UserMarshal { class, value } => visitor.visit_user_marshal(class.as_sym(), &**value),
        Value::Data { class, value } => visitor.visit_data(class.as_sym(), &**value),
    }
}

/// A type that can be read out of a value.
pub trait Deserialize<'de>: Sized {
    /// Whether `r` is what this type makes of a value with model `v`.
    spec fn made_from(v: ValueModel, r: Result<Self, Error>) -> bool;

    /// Reads this type out of a value.
    fn deserialize(value: &'de Value) -> (r: Result<Self, Error>)
        ensures
            Self::made_from(value@, r),
    ;
}

/// Reads a `T` out of a value.
///
/// # Errors
/// The errors of `T`'s reading.
pub fn from_value<'de, T: Deserialize<'de>>(value: &'de Value) -> (r: Result<T, Error>)
    ensures
        T::made_from(value@, r),
{
    T::deserialize(value)
}

/// How a value is described in a message, when it is not what was expected.
pub open spec fn described(v: ValueModel) -> Seq<char> {
    match v {
        ValueModel::Nil => "nil"@,
        ValueModel::Bool(b) => "bool `"@ + (if b { "true"@ } else { "false"@ }) + "`"@,
        ValueModel::Integer(i) => "integer `"@ + int_decimal(i as int) + "`"@,
        ValueModel::Float(t) => "float `"@ + utf8_lossy_text(t) + "`"@,
        ValueModel::Hash(_) => "hash"@,
        ValueModel::Array(_) => "array"@,
        ValueModel::String(s) => "string "@ + debug_quoted(utf8_lossy_text(s)),
        ValueModel::Symbol(s) => named("symbol "@, s),
        ValueModel::Regex(s, _) => "string "@ + debug_quoted(utf8_lossy_text(s)),
        ValueModel::Object(c, _) => named("an instance of "@, c),
        ValueModel::Struct(c, _) => named("a struct of "@, c),
        ValueModel::Class(c) => named("class "@, c),
        ValueModel::Module(c) => named("module "@, c),
        ValueModel::Instance(_, _) => "object with ivars"@,
        ValueModel::Extended(c, _) => named("extended object "@, c),
        ValueModel::UserClass(c, _) => named("user class object "@, c),
        ValueModel::Userdata(c, _) => named("user data object "@, c),
        ValueModel::UserMarshal(c, _) => named("user marshal object "@, c),
        ValueModel::Data(c, _) => named("c data object "@, c),
    }
}

/// The description of a value, for an error message.
pub fn unexpected_of<'a>(value: &'a Value) -> (u: Unexpected<'a>)
    ensures
        unexpected_text(u) == described(value@),
{
    match value {
        Value::Nil => Unexpected::Nil,
        Value::Bool(b) => Unexpected::Bool(*b),
        Value::Float(t) => Unexpected::Float(t.as_slice()),
        Value::Integer(i) => Unexpected::Integer(*i),
        Value::String(s) => Unexpected::String(s.as_slice()),
        Value::Symbol(s) => Unexpected::Symbol(s.as_sym()),
        Value::Array(_) => Unexpected::Array,
        Value::Hash(_) => Unexpected::Hash,
        Value::Userdata(u) => Unexpected::UserData(u.class.as_sym()),
        Value::Object(o) => Unexpected::Object(o.class.as_sym()),
        Value::Instance(_) => Unexpected::Instance,
        Value::Regex { data, .. } => Unexpected::Regex(data.as_slice()),
        Value::RbStruct(s) => Unexpected::Struct(s.class.as_sym()),
        Value::Class(c) => Unexpected::Class(c.as_sym()),
        Value::Module(m) => Unexpected::Module(m.as_sym()),
        Value::Extended { module, .. } => Unexpected::Extended(module.as_sym()),
        Value::UserClass { class, .. } => Unexpected::UserClass(class.as_sym()),
        Value::UserMarshal { class, .. } => Unexpected::UserMarshal(class.as_sym()),
        Value::Data { class, .. } => Unexpected::Data(class.as_sym()),
    }
}

/// What an integer reader makes of a value: the integer, looking through
/// instances and through the wrappers that carry a value inside; for any
/// other value, an error that says an integer was expected.
pub open spec fn int_made(v: ValueModel) -> Result<i32, KindModel>
    decreases v,
{
    match v {
        ValueModel::Integer(i) => Ok(i),
        ValueModel::Instance(inner, _) => int_made(*inner),
        ValueModel::Extended(_, inner) => int_made(*inner),
        ValueModel::UserClass(_, inner) => int_made(*inner),
        ValueModel::UserMarshal(_, inner) => int_made(*inner),
        ValueModel::Data(_, inner) => int_made(*inner),
        _ => Err(
            KindModel::Message("invalid value: "@ + described(v) + ", expected `"@ + "an integer"@ + "`"@),
        ),
    }
}

fn not_an_integer(u: Unexpected) -> (e: Error)
    ensures
        e@ == KindModel::Message("invalid value: "@ + unexpected_text(u) + ", expected `"@ + "an integer"@ + "`"@),
{
    Error::invalid_value(u, &"an integer")
}

fn int_of(value: &Value) -> (r: Result<i32, Error>)
    ensures
        agrees(r, int_made(value@)),
    decreases value,
{
    match value {
        Value::Integer(i) => Ok(*i),
        Value::Instance(i) => int_of(&*i.value),
        Value::Extended { value, .. } => int_of(&**value),
        Value::UserClass { value, .. } => int_of(&**value),
        Value::UserMarshal { value, .. } => int_of(&**value),
        Value::Data { value, .. } => int_of(&**value),
        _ => Err(not_an_integer(unexpected_of(value))),
    }
}

/// The visitor that reads integers.
pub struct IntVisitor;

impl<'de> Visitor<'de> for IntVisitor {
    type Value = i32;

    open spec fn gives(self, v: ValueModel, r: Result<i32, Error>) -> bool {
        agrees(r, int_made(v))
    }

    fn visit_nil(self) -> (r: Result<i32, Error>) {
        Err(not_an_integer(Unexpected::Nil))
    }

    fn visit_bool(self, v: bool) -> (r: Result<i32, Error>) {
        Err(not_an_integer(Unexpected::Bool(v)))
    }

    fn visit_i32(self, v: i32) -> (r: Result<i32, Error>) {
        Ok(v)
    }

    fn visit_float_text(self, text: &'de [u8]) -> (r: Result<i32, Error>) {
        Err(not_an_integer(Unexpected::Float(text)))
    }

    fn visit_hash(self, map: &'de RbHash) -> (r: Result<i32, Error>) {
        Err(not_an_integer(Unexpected::Hash))
    }

    fn visit_array(self, array: &'de [Value]) -> (r: Result<i32, Error>) {
        Err(not_an_integer(Unexpected::Array))
    }

    fn visit_string(self, string: &'de [u8]) -> (r: Result<i32, Error>) {
        Err(not_an_integer(Unexpected::String(string)))
    }

    fn visit_symbol(self, symbol: Sym<'de>) -> (r: Result<i32, Error>) {
        Err(not_an_integer(Unexpected::Symbol(symbol)))
    }

    fn visit_regular_expression(self, regex: &'de [u8], flags: u8) -> (r: Result<i32, Error>) {
        Err(not_an_integer(Unexpected::Regex(regex)))
    }

    fn visit_object(self, class: Sym<'de>, fields: &'de RbFields) -> (r: Result<i32, Error>) {
        Err(not_an_integer(Unexpected::Object(class)))
    }

    fn visit_struct(self, name: Sym<'de>, members: &'de RbFields) -> (r: Result<i32, Error>) {
        Err(not_an_integer(Unexpected::Struct(name)))
    }

    fn visit_class(self, class: Sym<'de>) -> (r: Result<i32, Error>) {
        Err(not_an_integer(Unexpected::Class(class)))
    }

    fn visit_module(self, module: Sym<'de>) -> (r: Result<i32, Error>) {
        Err(not_an_integer(Unexpected::Module(module)))
    }

    fn visit_instance(self, value: &'de Value, fields: &'de RbFields) -> (r: Result<i32, Error>) {
        int_of(value)
    }

    fn visit_extended(self, module: Sym<'de>, value: &'de Value) -> (r: Result<i32, Error>) {
        int_of(value)
    }

    fn visit_user_class(self, class: Sym<'de>, value: &'de Value) -> (r: Result<i32, Error>) {
        int_of(value)
    }

    fn visit_user_data(self, class: Sym<'de>, data: &'de [u8]) -> (r: Result<i32, Error>) {
        Err(not_an_integer(Unexpected::UserData(class)))
    }

    fn visit_user_marshal(self, class: Sym<'de>, value: &'de Value) -> (r: Result<i32, Error>) {
        int_of(value)
    }

    fn visit_data(self, class: Sym<'de>, value: &'de Value) -> (r: Result<i32, Error>) {
        int_of(value)
    }
}

impl<'de> Deserialize<'de> for i32 {
    open spec fn made_from(v: ValueModel, r: Result<i32, Error>) -> bool {
        agrees(r, int_made(v))
    }

    fn deserialize(value: &'de Value) -> (r: Result<i32, Error>) {
        deserialize_value_with(value, IntVisitor)
    }
}

impl<'de> Deserialize<'de> for u8 {
    /// The integer, cast to `u8` as `as` casts.
    open spec fn made_from(v: ValueModel, r: Result<u8, Error>) -> bool {
        match int_made(v) {
            Ok(i) => r == Ok::<u8, Error>(i as u8),
            Err(k) => r matches Err(e) && e@ == k,
        }
    }

    fn deserialize(value: &'de Value) -> (r: Result<u8, Error>) {
        match deserialize_value_with(value, IntVisitor) {
            Ok(i) => Ok(i as u8),
            Err(e) => Err(e),
        }
    }
}

impl<'de> Deserialize<'de> for u16 {
    /// The integer, cast to `u16` as `as` casts.
    open spec fn made_from(v: ValueModel, r: Result<u16, Error>) -> bool {
        match int_made(v) {
            Ok(i) => r == Ok::<u16, Error>(i as u16),
            Err(k) => r matches Err(e) && e@ == k,
        }
    }

    fn deserialize(value: &'de Value) -> (r: Result<u16, Error>) {
        match deserialize_value_with(value, IntVisitor) {
            Ok(i) => Ok(i as u16),
            Err(e) => Err(e),
        }
    }
}

impl<'de> Deserialize<'de> for u32 {
    /// The integer, cast to `u32` as `as` casts.
    open spec fn made_from(v: ValueModel, r: Result<u32, Error>) -> bool {
        match int_made(v) {
            Ok(i) => r == Ok::<u32, Error>(i as u32),
            Err(k) => r matches Err(e) && e@ == k,
        }
    }

    fn deserialize(value: &'de Value) -> (r: Result<u32, Error>) {
        match deserialize_value_with(value, IntVisitor) {
            Ok(i) => Ok(i as u32),
            Err(e) => Err(e),
        }
    }
}

impl<'de> Deserialize<'de> for u64 {
    /// The integer, cast to `u64` as `as` casts.
    open spec fn made_from(v: ValueModel, r: Result<u64, Error>) -> bool {
        match int_made(v) {
            Ok(i) => r == Ok::<u64, Error>(i as u64),
            Err(k) => r matches Err(e) && e@ == k,
        }
    }

    fn deserialize(value: &'de Value) -> (r: Result<u64, Error>) {
        match deserialize_value_with(value, IntVisitor) {
            Ok(i) => Ok(i as u64),
            Err(e) => Err(e),
        }
    }
}

impl<'de> Deserialize<'de> for u128 {
    /// The integer, cast to `u128` as `as` casts.
    open spec fn made_from(v: ValueModel, r: Result<u128, Error>) -> bool {
        match int_made(v) {
            Ok(i) => r == Ok::<u128, Error>(i as u128),
            Err(k) => r matches Err(e) && e@ == k,
        }
    }

    fn deserialize(value: &'de Value) -> (r: Result<u128, Error>) {
        match deserialize_value_with(value, IntVisitor) {
            Ok(i) => Ok(i as u128),
            Err(e) => Err(e),
        }
    }
}

impl<'de> Deserialize<'de> for i8 {
    /// The integer, cast to `i8` as `as` casts.
    open spec fn made_from(v: ValueModel, r: Result<i8, Error>) -> bool {
        match int_made(v) {
            Ok(i) => r == Ok::<i8, Error>(i as i8),
            Err(k) => r matches Err(e) && e@ == k,
        }
    }

    fn deserialize(value: &'de Value) -> (r: Result<i8, Error>) {
        match deserialize_value_with(value, IntVisitor) {
            Ok(i) => Ok(i as i8),
            Err(e) => Err(e),
        }
    }
}

impl<'de> Deserialize<'de> for i16 {
    /// The integer, cast to `i16` as `as` casts.
    open spec fn made_from(v: ValueModel, r: Result<i16, Error>) -> bool {
        match int_made(v) {
            Ok(i) => r == Ok::<i16, Error>(i as i16),
            Err(k) => r matches Err(e) && e@ == k,
        }
    }

    fn deserialize(value: &'de Value) -> (r: Result<i16, Error>) {
        match deserialize_value_with(value, IntVisitor) {
            Ok(i) => Ok(i as i16),
            Err(e) => Err(e),
        }
    }
}

impl<'de> Deserialize<'de> for i64 {
    /// The integer, cast to `i64` as `as` casts.
    open spec fn made_from(v: ValueModel, r: Result<i64, Error>) -> bool {
        match int_made(v) {
            Ok(i) => r == Ok::<i64, Error>(i as i64),
            Err(k) => r matches Err(e) && e@ == k,
        }
    }

    fn deserialize(value: &'de Value) -> (r: Result<i64, Error>) {
        match deserialize_value_with(value, IntVisitor) {
            Ok(i) => Ok(i as i64),
            Err(e) => Err(e),
        }
    }
}

impl<'de> Deserialize<'de> for i128 {
    /// The integer, cast to `i128` as `as` casts.
    open spec fn made_from(v: ValueModel, r: Result<i128, Error>) -> bool {
        match int_made(v) {
            Ok(i) => r == Ok::<i128, Error>(i as i128),
            Err(k) => r matches Err(e) && e@ == k,
        }
    }

    fn deserialize(value: &'de Value) -> (r: Result<i128, Error>) {
        match deserialize_value_with(value, IntVisitor) {
            Ok(i) => Ok(i as i128),
            Err(e) => Err(e),
        }
    }
}

/// An `i32` is read out of an integer value unchanged.
pub proof fn lemma_i32_reads_integers_unchanged(i: i32, r: Result<i32, Error>)
    requires
        <i32 as Deserialize>::made_from(ValueModel::Integer(i), r),
    ensures
        r == Ok::<i32, Error>(i),
{
}

/// Reading an integer out of `nil` fails.
pub proof fn lemma_i32_fails_on_nil(r: Result<i32, Error>)
    requires
        <i32 as Deserialize>::made_from(ValueModel::Nil, r),
    ensures
        r is Err,
{
}

/// An integer that `u8` can hold is read as a `u8` unchanged.
pub proof fn lemma_u8_reads_integers_unchanged(i: i32, r: Result<u8, Error>)
    requires
        <u8 as Deserialize>::made_from(ValueModel::Integer(i), r),
        0 <= i <= 255,
    ensures
        r matches Ok(x) && x as int == i as int,
{
}

/// A value that is not an integer fails to read as a `u8`, with the
/// error that `i32` gives.
pub proof fn lemma_u8_fails_as_i32_does(v: ValueModel, r: Result<u8, Error>, r32: Result<i32, Error>)
    requires
        <u8 as Deserialize>::made_from(v, r),
        <i32 as Deserialize>::made_from(v, r32),
    ensures
        r is Err <==> r32 is Err,
        r matches Err(e) ==> r32 matches Err(e2) && e@ == e2@,
{
}

/// An integer that `u16` can hold is read as a `u16` unchanged.
pub proof fn lemma_u16_reads_integers_unchanged(i: i32, r: Result<u16, Error>)
    requires
        <u16 as Deserialize>::made_from(ValueModel::Integer(i), r),
        0 <= i <= 65535,
    ensures
        r matches Ok(x) && x as int == i as int,
{
}

/// A value that is not an integer fails to read as a `u16`, with the
/// error that `i32` gives.
pub proof fn lemma_u16_fails_as_i32_does(v: ValueModel, r: Result<u16, Error>, r32: Result<i32, Error>)
    requires
        <u16 as Deserialize>::made_from(v, r),
        <i32 as Deserialize>::made_from(v, r32),
    ensures
        r is Err <==> r32 is Err,
        r matches Err(e) ==> r32 matches Err(e2) && e@ == e2@,
{
}

/// An integer that `u32` can hold is read as a `u32` unchanged.
pub proof fn lemma_u32_reads_integers_unchanged(i: i32, r: Result<u32, Error>)
    requires
        <u32 as Deserialize>::made_from(ValueModel::Integer(i), r),
        0 <= i <= 0x7fff_ffff,
    ensures
        r matches Ok(x) && x as int == i as int,
{
}

/// A value that is not an integer fails to read as a `u32`, with the
/// error that `i32` gives.
pub proof fn lemma_u32_fails_as_i32_does(v: ValueModel, r: Result<u32, Error>, r32: Result<i32, Error>)
    requires
        <u32 as Deserialize>::made_from(v, r),
        <i32 as Deserialize>::made_from(v, r32),
    ensures
        r is Err <==> r32 is Err,
        r matches Err(e) ==> r32 matches Err(e2) && e@ == e2@,
{
}

/// An integer that `u64` can hold is read as a `u64` unchanged.
pub proof fn lemma_u64_reads_integers_unchanged(i: i32, r: Result<u64, Error>)
    requires
        <u64 as Deserialize>::made_from(ValueModel::Integer(i), r),
        0 <= i <= 0x7fff_ffff,
    ensures
        r matches Ok(x) && x as int == i as int,
{
}

/// A value that is not an integer fails to read as a `u64`, with the
/// error that `i32` gives.
pub proof fn lemma_u64_fails_as_i32_does(v: ValueModel, r: Result<u64, Error>, r32: Result<i32, Error>)
    requires
        <u64 as Deserialize>::made_from(v, r),
        <i32 as Deserialize>::made_from(v, r32),
    ensures
        r is Err <==> r32 is Err,
        r matches Err(e) ==> r32 matches Err(e2) && e@ == e2@,
{
}

/// An integer that `u128` can hold is read as a `u128` unchanged.
pub proof fn lemma_u128_reads_integers_unchanged(i: i32, r: Result<u128, Error>)
    requires
        <u128 as Deserialize>::made_from(ValueModel::Integer(i), r),
        0 <= i <= 0x7fff_ffff,
    ensures
        r matches Ok(x) && x as int == i as int,
{
}

/// A value that is not an integer fails to read as a `u128`, with the
/// error that `i32` gives.
pub proof fn lemma_u128_fails_as_i32_does(v: ValueModel, r: Result<u128, Error>, r32: Result<i32, Error>)
    requires
        <u128 as Deserialize>::made_from(v, r),
        <i32 as Deserialize>::made_from(v, r32),
    ensures
        r is Err <==> r32 is Err,
        r matches Err(e) ==> r32 matches Err(e2) && e@ == e2@,
{
}

/// An integer that `i8` can hold is read as a `i8` unchanged.
pub proof fn lemma_i8_reads_integers_unchanged(i: i32, r: Result<i8, Error>)
    requires
        <i8 as Deserialize>::made_from(ValueModel::Integer(i), r),
        -128 <= i <= 127,
    ensures
        r matches Ok(x) && x as int == i as int,
{
}

/// A value that is not an integer fails to read as a `i8`, with the
/// error that `i32` gives.
pub proof fn lemma_i8_fails_as_i32_does(v: ValueModel, r: Result<i8, Error>, r32: Result<i32, Error>)
    requires
        <i8 as Deserialize>::made_from(v, r),
        <i32 as Deserialize>::made_from(v, r32),
    ensures
        r is Err <==> r32 is Err,
        r matches Err(e) ==> r32 matches Err(e2) && e@ == e2@,
{
}

/// An integer that `i16` can hold is read as a `i16` unchanged.
pub proof fn lemma_i16_reads_integers_unchanged(i: i32, r: Result<i16, Error>)
    requires
        <i16 as Deserialize>::made_from(ValueModel::Integer(i), r),
        -32768 <= i <= 32767,
    ensures
        r matches Ok(x) && x as int == i as int,
{
}

/// A value that is not an integer fails to read as a `i16`, with the
/// error that `i32` gives.
pub proof fn lemma_i16_fails_as_i32_does(v: ValueModel, r: Result<i16, Error>, r32: Result<i32, Error>)
    requires
        <i16 as Deserialize>::made_from(v, r),
        <i32 as Deserialize>::made_from(v, r32),
    ensures
        r is Err <==> r32 is Err,
        r matches Err(e) ==> r32 matches Err(e2) && e@ == e2@,
{
}

/// An integer that `i64` can hold is read as a `i64` unchanged.
pub proof fn lemma_i64_reads_integers_unchanged(i: i32, r: Result<i64, Error>)
    requires
        <i64 as Deserialize>::made_from(ValueModel::Integer(i), r),
        -0x8000_0000 <= i <= 0x7fff_ffff,
    ensures
        r matches Ok(x) && x as int == i as int,
{
}

/// A value that is not an integer fails to read as a `i64`, with the
/// error that `i32` gives.
pub proof fn lemma_i64_fails_as_i32_does(v: ValueModel, r: Result<i64, Error>, r32: Result<i32, Error>)
    requires
        <i64 as Deserialize>::made_from(v, r),
        <i32 as Deserialize>::made_from(v, r32),
    ensures
        r is Err <==> r32 is Err,
        r matches Err(e) ==> r32 matches Err(e2) && e@ == e2@,
{
}

/// An integer that `i128` can hold is read as a `i128` unchanged.
pub proof fn lemma_i128_reads_integers_unchanged(i: i32, r: Result<i128, Error>)
    requires
        <i128 as Deserialize>::made_from(ValueModel::Integer(i), r),
        -0x8000_0000 <= i <= 0x7fff_ffff,
    ensures
        r matches Ok(x) && x as int == i as int,
{
}

/// A value that is not an integer fails to read as a `i128`, with the
/// error that `i32` gives.
pub proof fn lemma_i128_fails_as_i32_does(v: ValueModel, r: Result<i128, Error>, r32: Result<i32, Error>)
    requires
        <i128 as Deserialize>::made_from(v, r),
        <i32 as Deserialize>::made_from(v, r32),
    ensures
        r is Err <==> r32 is Err,
        r matches Err(e) ==> r32 matches Err(e2) && e@ == e2@,
{
}

fn copy_symbol(s: &Symbol) -> (r: Symbol)
    ensures
        r@ == s@,
{
    Symbol::new(String::from_str(s.as_str()))
}

fn copy_values(a: &Vec<Value>) -> (r: Vec<Value>)
    ensures
        models(r@) == models(a@),
    decreases a,
{
    proof {
        lemma_models_index(a@);
    }
    let mut out: Vec<Value> = Vec::new();
    let mut i: usize = 0;
    while i < a.len()
        invariant
            i <= a@.len(),
            out@.len() == i,
            models(a@).len() == a@.len(),
            forall|j: int| 0 <= j < a@.len() ==> #[trigger] models(a@)[j] == model(a@[j]),
            forall|j: int| 0 <= j < i ==> #[trigger] model(out@[j]) == model(a@[j]),
        decreases a@.len() - i,
    {
        let v = copy_value(&a[i]);
        out.push(v);
        i = i + 1;
    }
    proof {
        lemma_models_index(out@);
        assert(models(out@) =~= models(a@));
    }
    out
}

fn copy_pairs(h: &RbHash) -> (r: RbHash)
    ensures
        pair_models(r@) == pair_models(h@),
    decreases h,
{
    proof {
        lemma_pair_models_index(h@);
    }
    let mut out: RbHash = Vec::new();
    let mut i: usize = 0;
    while i < h.len()
        invariant
            i <= h@.len(),
            out@.len() == i,
            pair_models(h@).len() == h@.len(),
            forall|j: int| 0 <= j < h@.len() ==> #[trigger] pair_models(h@)[j] == (model(h@[j].0), model(h@[j].1)),
            forall|j: int| 0 <= j < i ==> model(#[trigger] out@[j].0) == model(h@[j].0) && model(out@[j].1) == model(h@[j].1),
        decreases h@.len() - i,
    {
        let e = &h[i];
        let k = copy_value(&e.0);
        let v = copy_value(&e.1);
        out.push((k, v));
        i = i + 1;
    }
    proof {
        lemma_pair_models_index(out@);
        assert(pair_models(out@) =~= pair_models(h@));
    }
    out
}

fn copy_fields(f: &RbFields) -> (r: RbFields)
    ensures
        field_models(r@) == field_models(f@),
    decreases f,
{
    proof {
        lemma_field_models_index(f@);
    }
    let mut out: RbFields = Vec::new();
    let mut i: usize = 0;
    while i < f.len()
        invariant
            i <= f@.len(),
            out@.len() == i,
            field_models(f@).len() == f@.len(),
            forall|j: int| 0 <= j < f@.len() ==> #[trigger] field_models(f@)[j] == (f@[j].0@, model(f@[j].1)),
            forall|j: int| 0 <= j < i ==> (#[trigger] out@[j].0)@ == f@[j].0@ && model(out@[j].1) == model(f@[j].1),
        decreases f@.len() - i,
    {
        let e = &f[i];
        let k = copy_symbol(&e.0);
        let v = copy_value(&e.1);
        out.push((k, v));
        i = i + 1;
    }
    proof {
        lemma_field_models_index(out@);
        assert(field_models(out@) =~= field_models(f@));
    }
    out
}

/// A copy of a value, with the same model.
pub fn copy_value(value: &Value) -> (r: Value)
    ensures
        r@ == value@,
    decreases value,
{
    match value {
        Value::Nil => Value::Nil,
        Value::Bool(b) => Value::Bool(*b),
        Value::Float(t) => Value::Float(slice_to_vec(t.as_slice())),
        Value::Integer(i) => Value::Integer(*i),
        Value::String(s) => Value::String(RbString { data: slice_to_vec(s.as_slice()) }),
        Value::Symbol(s) => Value::Symbol(copy_symbol(s)),
        Value::Array(a) => Value::Array(copy_values(a)),
        Value::Hash(h) => Value::Hash(copy_pairs(h)),
        Value::Userdata(u) => Value::Userdata(
            Userdata { class: copy_symbol(&u.class), data: slice_to_vec(u.data.as_slice()) },
        ),
        Value::Object(o) => Value::Object(
            Object { class: copy_symbol(&o.class), fields: copy_fields(&o.fields) },
        ),
        Value::Instance(i) => Value::Instance(
            Instance { value: Box::new(copy_value(&*i.value)), fields: copy_fields(&i.fields) },
        ),
        Value::Regex { data, flags } => Value::Regex {
            data: RbString { data: slice_to_vec(data.as_slice()) },
            flags: *flags,
        },
        Value::RbStruct(s) => Value::RbStruct(
            RbStruct { class: copy_symbol(&s.class), fields: copy_fields(&s.fields) },
        ),
        Value::Class(c) => Value::Class(copy_symbol(c)),
        Value::Module(m) => Value::Module(copy_symbol(m)),
        Value::Extended { module, value } => Value::Extended {
            module: copy_symbol(module),
            value: Box::new(copy_value(&**value)),
        },
        Value::UserClass { class, value } => Value::UserClass {
            class: copy_symbol(class),
            value: Box::new(copy_value(&**value)),
        },
        Value::UserMarshal { class, value } => Value::UserMarshal {
            class: copy_symbol(class),
            value: Box::new(copy_value(&**value)),
        },
        Value::Data { class, value } => Value::Data {
            class: copy_symbol(class),
            value: Box::new(copy_value(&**value)),
        },
    }
}

impl<'de> Deserialize<'de> for Value {
    open spec fn made_from(v: ValueModel, r: Result<Value, Error>) -> bool {
        r matches Ok(x) && x@ == v
    }

    fn deserialize(value: &'de Value) -> (r: Result<Value, Error>) {
        Ok(copy_value(value))
    }
}

/// What a reader gives for one value: `Ok(Some(t))` or an error, as `T`
/// makes of the value.
pub open spec fn read_one<'de, T: Deserialize<'de>>(v: ValueModel, r: Result<Option<T>, Error>) -> bool {
    match r {
        Ok(Some(t)) => T::made_from(v, Ok(t)),
        Ok(None) => false,
        Err(e) => T::made_from(v, Err(e)),
    }
}

/// The elements of an array, read one at a time.
pub struct ValueArrayAccess<'de> {
    array: &'de [Value],
    index: usize,
}

impl<'de> ValueArrayAccess<'de> {
    /// The models of the elements.
    pub closed spec fn elements(&self) -> Seq<ValueModel> {
        models(self.array@)
    }

    /// How many elements were read.
    pub closed spec fn position(&self) -> nat {
        self.index as nat
    }

    /// Reads the elements of `array`, from the first.
    pub fn new(array: &'de [Value]) -> (a: Self)
        ensures
            a.elements() == models(array@),
            a.position() == 0,
    {
        ValueArrayAccess { array, index: 0 }
    }

    /// The number of elements.
    pub fn len(&self) -> (n: usize)
        ensures
            n == self.elements().len(),
    {
        proof {
            lemma_models_index(self.array@);
        }
        self.array.len()
    }

    /// The number of elements read.
    pub fn index(&self) -> (i: usize)
        ensures
            i == self.position(),
    {
        self.index
    }

    /// Reads the next element as a `T`, or gives `None` after the last.
    ///
    /// # Errors
    /// The errors of `T`'s reading.
    pub fn next_element<T: Deserialize<'de>>(&mut self) -> (r: Result<Option<T>, Error>)
        ensures
            final(self).elements() == old(self).elements(),
            old(self).position() >= old(self).elements().len() ==> (r matches Ok(None))
                && final(self).position() == old(self).position(),
            old(self).position() < old(self).elements().len() ==> read_one(
                old(self).elements()[old(self).position() as int],
                r,
            ) && final(self).position() == old(self).position() + 1,
    {
        proof {
            lemma_models_index(self.array@);
        }
        if self.index >= self.array.len() {
            return Ok(None);
        }
        let value = &self.array[self.index];
        self.index = self.index + 1;
        match T::deserialize(value) {
            Ok(t) => Ok(Some(t)),
            Err(e) => Err(e),
        }
    }
}

/// The entries of a hash, read one at a time: a key, then its value.
pub struct ValueHashAccess<'de> {
    hash: &'de RbHash,
    index: usize,
}

impl<'de> ValueHashAccess<'de> {
    /// The models of the entries.
    pub closed spec fn entries(&self) -> Seq<(ValueModel, ValueModel)> {
        pair_models(self.hash@)
    }

    /// How many entries were read.
    pub closed spec fn position(&self) -> nat {
        self.index as nat
    }

    /// Reads the entries of `hash`, from the first.
    pub fn new(hash: &'de RbHash) -> (h: Self)
        ensures
            h.entries() == pair_models(hash@),
            h.position() == 0,
    {
        ValueHashAccess { hash, index: 0 }
    }

    /// The number of entries.
    pub fn len(&self) -> (n: usize)
        ensures
            n == self.entries().len(),
    {
        proof {
            lemma_pair_models_index(self.hash@);
        }
        self.hash.len()
    }

    /// The number of entries read.
    pub fn index(&self) -> (i: usize)
        ensures
            i == self.position(),
    {
        self.index
    }

    /// Reads the key of the next entry as a `K`, or gives `None` after the
    /// last; the entry stays the next one until its value is read.
    ///
    /// # Errors
    /// The errors of `K`'s reading.
    pub fn next_key<K: Deserialize<'de>>(&mut self) -> (r: Result<Option<K>, Error>)
        ensures
            *final(self) == *old(self),
            old(self).position() >= old(self).entries().len() ==> r matches Ok(None),
            old(self).position() < old(self).entries().len() ==> read_one(
                old(self).entries()[old(self).position() as int].0,
                r,
            ),
    {
        proof {
            lemma_pair_models_index(self.hash@);
        }
        if self.index >= self.hash.len() {
            return Ok(None);
        }
        match K::deserialize(&self.hash[self.index].0) {
            Ok(k) => Ok(Some(k)),
            Err(e) => Err(e),
        }
    }

    /// Reads the value of the next entry as a `T` and moves past the entry.
    ///
    /// # Errors
    /// A message error `out of values` after the last entry, and the errors
    /// of `T`'s reading.
    pub fn next_value<T: Deserialize<'de>>(&mut self) -> (r: Result<T, Error>)
        ensures
            final(self).entries() == old(self).entries(),
            old(self).position() >= old(self).entries().len() ==> (r matches Err(e) && e@
                == KindModel::Message("out of values"@)) && final(self).position() == old(self).position(),
            old(self).position() < old(self).entries().len() ==> T::made_from(
                old(self).entries()[old(self).position() as int].1,
                r,
            ) && final(self).position() == old(self).position() + 1,
    {
        proof {
            lemma_pair_models_index(self.hash@);
        }
        if self.index >= self.hash.len() {
            return Err(Error::custom("out of values"));
        }
        let value = &self.hash[self.index].1;
        self.index = self.index + 1;
        T::deserialize(value)
    }
}

/// The instance variables of an object, a struct or an instance, read one
/// at a time: a name, then its value.
pub struct ValueIvarAccess<'de> {
    fields: &'de RbFields,
    index: usize,
}

impl<'de> ValueIvarAccess<'de> {
    /// The models of the instance variables.
    pub closed spec fn entries(&self) -> Seq<(Seq<char>, ValueModel)> {
        field_models(self.fields@)
    }

    /// How many instance variables were read.
    pub closed spec fn position(&self) -> nat {
        self.index as nat
    }

    /// Reads the instance variables `fields`, from the first.
    pub fn new(fields: &'de RbFields) -> (f: Self)
        ensures
            f.entries() == field_models(fields@),
            f.position() == 0,
    {
        ValueIvarAccess { fields, index: 0 }
    }

    /// The number of instance variables.
    pub fn len(&self) -> (n: usize)
        ensures
            n == self.entries().len(),
    {
        proof {
            lemma_field_models_index(self.fields@);
        }
        self.fields.len()
    }

    /// The number of instance variables read.
    pub fn index(&self) -> (i: usize)
        ensures
            i == self.position(),
    {
        self.index
    }

    /// The name of the next instance variable, or `None` after the last; it
    /// stays the next one until its value is read.
    ///
    /// # Errors
    /// Never fails.
    pub fn next_ivar(&mut self) -> (r: Result<Option<Sym<'de>>, Error>)
        ensures
            *final(self) == *old(self),
            old(self).position() >= old(self).entries().len() ==> r matches Ok(None),
            old(self).position() < old(self).entries().len() ==> (r matches Ok(Some(s)) && s@
                == old(self).entries()[old(self).position() as int].0),
    {
        proof {
            lemma_field_models_index(self.fields@);
        }
        if self.index >= self.fields.len() {
            return Ok(None);
        }
        Ok(Some(self.fields[self.index].0.as_sym()))
    }

    /// Reads the value of the next instance variable as a `T` and moves past
    /// it.
    ///
    /// # Errors
    /// A message error `out of values` after the last one, and the errors
    /// of `T`'s reading.
    pub fn next_value<T: Deserialize<'de>>(&mut self) -> (r: Result<T, Error>)
        ensures
            final(self).entries() == old(self).entries(),
            old(self).position() >= old(self).entries().len() ==> (r matches Err(e) && e@
                == KindModel::Message("out of values"@)) && final(self).position() == old(self).position(),
            old(self).position() < old(self).entries().len() ==> T::made_from(
                old(self).entries()[old(self).position() as int].1,
                r,
            ) && final(self).position() == old(self).position() + 1,
    {
        proof {
            lemma_field_models_index(self.fields@);
        }
        if self.index >= self.fields.len() {
            return Err(Error::custom("out of values"));
        }
        let value = &self.fields[self.index].1;
        self.index = self.index + 1;
        T::deserialize(value)
    }
}

impl Clone for Value {
    /// A copy with the same model.
    fn clone(&self) -> (r: Value)
        ensures
            r@ == self@,
    {
        copy_value(self)
    }
}

impl Clone for Object {
    /// A copy with the same class and instance variables.
    fn clone(&self) -> (r: Object)
        ensures
            r.class@ == self.class@,
            field_models(r.fields@) == field_models(self.fields@),
    {
        Object { class: copy_symbol(&self.class), fields: copy_fields(&self.fields) }
    }
}

impl Clone for RbStruct {
    /// A copy with the same class and members.
    fn clone(&self) -> (r: RbStruct)
        ensures
            r.class@ == self.class@,
            field_models(r.fields@) == field_models(self.fields@),
    {
        RbStruct { class: copy_symbol(&self.class), fields: copy_fields(&self.fields) }
    }
}

impl<T: Clone> Clone for Instance<T> {
    /// A copy with a clone of the value and the same instance variables.
    fn clone(&self) -> (r: Instance<T>)
        ensures
            field_models(r.fields@) == field_models(self.fields@),
            vstd::pervasive::cloned(self.value, r.value),
    {
        Instance { value: self.value.clone(), fields: copy_fields(&self.fields) }
    }
}

} // verus!
