//! The [`Value`] tree that holds any Marshal value, and its model.
use vstd::prelude::*;

use crate::rb_types::rb_string::RbString;
use crate::rb_types::symbol::Symbol;
use crate::value::insert::{field_index, get_field};
use vstd::string::StringExecFns;

pub mod de;
pub mod eq;
pub mod from;
pub mod insert;

verus! {

broadcast use vstd::std_specs::vec::group_vec_axioms, vstd::seq::group_seq_axioms;

/// Instance variables of an object, in the order they were given, each name at
/// most once.
pub type RbFields = Vec<(Symbol, Value)>;

/// A ruby array.
pub type RbArray = Vec<Value>;

/// A ruby hash: its entries in insertion order, each key at most once.
///
/// A `Vec` rather than an ordered hash map: a `Value` that holds itself
/// through a map type of another crate could not be reasoned about, and keys
/// are found by Marshal equality (`value_eq`), which a derived hash would not
/// follow.
pub type RbHash = Vec<(Value, Value)>;

/// A type equivalent to ruby's `Object`.
#[derive(Debug, Hash)]
pub struct Object {
    /// This object's class.
    pub class: Symbol,
    /// The fields on this object.
    pub fields: RbFields,
}

/// A type equivalent to ruby's `Struct`.
#[derive(Debug, Hash)]
pub struct RbStruct {
    /// The struct's class.
    pub class: Symbol,
    /// The members of the struct.
    pub fields: RbFields,
}

/// An object serialized by `_dump`: its class and the bytes that `_dump` made.
#[derive(Clone, Debug, Hash)]
pub struct Userdata {
    /// The class of the object.
    pub class: Symbol,
    /// The dumped bytes.
    pub data: Vec<u8>,
}

/// A value with extra instance variables attached.
#[derive(Debug, Hash)]
pub struct Instance<T> {
    /// The inner value.
    pub value: T,
    /// The extra instance variables attached to this value.
    pub fields: RbFields,
}

/// Any ruby value.
#[derive(Debug, Hash)]
pub enum Value {
    /// `nil`.
    Nil,
    /// A boolean.
    Bool(bool),
    /// A float, held as the text that Marshal stores for it: the decimal
    /// digits, optionally followed by a zero byte and up to four bytes of
    /// mantissa.
    Float(Vec<u8>),
    /// An integer.
    Integer(i32),
    /// A ruby string (bytes of no fixed encoding).
    String(RbString),
    /// A symbol.
    Symbol(Symbol),
    /// An array.
    Array(RbArray),
    /// A hash.
    Hash(RbHash),
    /// An object serialized by `_dump`.
    Userdata(Userdata),
    /// A generic ruby object.
    Object(Object),
    /// A value (like a string) with attached instance variables.
    Instance(Instance<Box<Value>>),
    /// A `Regexp`: its source and flags.
    Regex { data: RbString, flags: u8 },
    /// A `Struct`.
    RbStruct(RbStruct),
    /// A `Class`, by name.
    Class(Symbol),
    /// A `Module`, by name.
    Module(Symbol),
    /// A value that has been extended with a module.
    Extended { module: Symbol, value: Box<Value> },
    /// A subclass of a ruby class like `Hash` or `Array`.
    UserClass { class: Symbol, value: Box<Value> },
    /// An object that has been serialized as another type.
    UserMarshal { class: Symbol, value: Box<Value> },
    /// Data from a C extension.
    Data { class: Symbol, value: Box<Value> },
}

/// The model of instance variables: names and values, in order.
pub type FieldsModel = Seq<(Seq<char>, ValueModel)>;

/// The mathematical model of a [`Value`]: the same tree, with sequences in
/// place of vectors and the text of symbols in place of strings.
pub enum ValueModel {
    Nil,
    Bool(bool),
    Float(Seq<u8>),
    Integer(i32),
    String(Seq<u8>),
    Symbol(Seq<char>),
    Array(Seq<ValueModel>),
    Hash(Seq<(ValueModel, ValueModel)>),
    Userdata(Seq<char>, Seq<u8>),
    Object(Seq<char>, FieldsModel),
    Instance(Box<ValueModel>, FieldsModel),
    Regex(Seq<u8>, u8),
    Struct(Seq<char>, FieldsModel),
    Class(Seq<char>),
    Module(Seq<char>),
    Extended(Seq<char>, Box<ValueModel>),
    UserClass(Seq<char>, Box<ValueModel>),
    UserMarshal(Seq<char>, Box<ValueModel>),
    Data(Seq<char>, Box<ValueModel>),
}

/// The model of a value.
pub open spec fn model(v: Value) -> ValueModel
    decreases v,
{
    match v {
        Value::Nil => ValueModel::Nil,
        Value::Bool(b) => ValueModel::Bool(b),
        Value::Float(t) => ValueModel::Float(t@),
        Value::Integer(i) => ValueModel::Integer(i),
        Value::String(s) => ValueModel::String(s@),
        Value::Symbol(s) => ValueModel::Symbol(s@),
        Value::Array(a) => ValueModel::Array(models(a@)),
        Value::Hash(h) => ValueModel::Hash(pair_models(h@)),
        Value::Userdata(u) => ValueModel::Userdata(u.class@, u.data@),
        Value::Object(o) => ValueModel::Object(o.class@, field_models(o.fields@)),
        Value::Instance(i) => ValueModel::Instance(Box::new(model(*i.value)), field_models(i.fields@)),
        Value::Regex { data, flags } => ValueModel::Regex(data@, flags),
        Value::RbStruct(s) => ValueModel::Struct(s.class@, field_models(s.fields@)),
        Value::Class(c) => ValueModel::Class(c@),
        Value::Module(m) => ValueModel::Module(m@),
        Value::Extended { module, value } => ValueModel::Extended(module@, Box::new(model(*value))),
        Value::UserClass { class, value } => ValueModel::UserClass(class@, Box::new(model(*value))),
        Value::UserMarshal { class, value } => ValueModel::UserMarshal(class@, Box::new(model(*value))),
        Value::Data { class, value } => ValueModel::Data(class@, Box::new(model(*value))),
    }
}

/// The models of a sequence of values.
pub open spec fn models(s: Seq<Value>) -> Seq<ValueModel>
    decreases s,
{
    if s.len() == 0 {
        Seq::empty()
    } else {
        models(s.subrange(0, s.len() - 1)).push(model(s[s.len() - 1]))
    }
}

/// The models of a sequence of hash entries.
pub open spec fn pair_models(s: Seq<(Value, Value)>) -> Seq<(ValueModel, ValueModel)>
    decreases s,
{
    if s.len() == 0 {
        Seq::empty()
    } else {
        let last = s[s.len() - 1];
        pair_models(s.subrange(0, s.len() - 1)).push((model(last.0), model(last.1)))
    }
}

/// The models of a sequence of instance variables.
pub open spec fn field_models(s: Seq<(Symbol, Value)>) -> FieldsModel
    decreases s,
{
    if s.len() == 0 {
        Seq::empty()
    } else {
        let last = s[s.len() - 1];
        field_models(s.subrange(0, s.len() - 1)).push((last.0@, model(last.1)))
    }
}

impl View for Value {
    type V = ValueModel;

    open spec fn view(&self) -> ValueModel {
        model(*self)
    }
}

/// The models of a sequence of values, element by element.
pub proof fn lemma_models_index(s: Seq<Value>)
    ensures
        models(s).len() == s.len(),
        forall|i: int| 0 <= i < s.len() ==> #[trigger] models(s)[i] == model(s[i]),
    decreases s.len(),
{
    if s.len() > 0 {
        lemma_models_index(s.subrange(0, s.len() - 1));
    }
}

/// The models of a sequence of hash entries, entry by entry.
pub proof fn lemma_pair_models_index(s: Seq<(Value, Value)>)
    ensures
        pair_models(s).len() == s.len(),
        forall|i: int|
            0 <= i < s.len() ==> #[trigger] pair_models(s)[i] == (model(s[i].0), model(s[i].1)),
    decreases s.len(),
{
    if s.len() > 0 {
        lemma_pair_models_index(s.subrange(0, s.len() - 1));
    }
}

/// The models of a sequence of instance variables, entry by entry.
pub proof fn lemma_field_models_index(s: Seq<(Symbol, Value)>)
    ensures
        field_models(s).len() == s.len(),
        forall|i: int|
            0 <= i < s.len() ==> #[trigger] field_models(s)[i] == (s[i].0@, model(s[i].1)),
    decreases s.len(),
{
    if s.len() > 0 {
        lemma_field_models_index(s.subrange(0, s.len() - 1));
    }
}

impl<T> Instance<T> {
    /// Takes the inner value of this instance.
    pub fn into_inner(self) -> (v: T)
        ensures
            v == self.value,
    {
        self.value
    }

    /// Splits this instance into its value and its instance variables.
    pub fn into_parts(self) -> (p: (T, RbFields))
        ensures
            p.0 == self.value,
            p.1 == self.fields,
    {
        (self.value, self.fields)
    }
}

impl Instance<RbString> {
    /// The encoding of this string, if it has one: the instance variable `E`,
    /// or else `encoding`.
    pub fn encoding(&self) -> (r: Option<&Value>)
        ensures
            ({
                let fs = field_models(self.fields@);
                let e = field_index(fs, "E"@);
                let enc = field_index(fs, "encoding"@);
                &&& e >= 0 ==> (r matches Some(v) && *v == self.fields@[e].1)
                &&& e < 0 && enc >= 0 ==> (r matches Some(v) && *v == self.fields@[enc].1)
                &&& e < 0 && enc < 0 ==> r is None
            }),
    {
        let e = Symbol::new(String::from_str("E"));
        proof {
            reveal_strlit("E");
        }
        match get_field(&self.fields, &e) {
            Some(v) => Some(v),
            None => {
                let enc = Symbol::new(String::from_str("encoding"));
                proof {
                    reveal_strlit("encoding");
                }
                get_field(&self.fields, &enc)
            },
        }
    }
}

impl Object {
    /// Splits this object into its class and its instance variables.
    pub fn into_parts(self) -> (p: (Symbol, RbFields))
        ensures
            p.0 == self.class,
            p.1 == self.fields,
    {
        (self.class, self.fields)
    }
}

impl Value {
    /// A symbol with the given text, as a value.
    pub fn from_symbol(symbol: String) -> (v: Value)
        ensures
            v@ == ValueModel::Symbol(symbol@),
    {
        Value::Symbol(Symbol::new(symbol))
    }
}

impl Default for Value {
    /// `nil`.
    fn default() -> (v: Value)
        ensures
            v@ == ValueModel::Nil,
    {
        Value::Nil
    }
}

} // verus!
