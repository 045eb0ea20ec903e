//! Rust values that can be written as Marshal values.
use vstd::prelude::*;

use crate::packed::packed_int;
use crate::rb_types::rb_string::RbString;
use crate::rb_types::symbol::Symbol;
use crate::ser::encoding::{enc_value, enc_values};
use crate::ser::error::Error;
use crate::ser::serializer::{utf8_string, Serializer};
use crate::ser::ByteString;
use crate::value::{Value, ValueModel};

verus! {

broadcast use vstd::std_specs::vec::group_vec_axioms, vstd::seq::group_seq_axioms;

/// A Rust value that can be written as a Marshal value.
pub trait Serialize {
    /// The Marshal value that this is written as.
    spec fn written_as(&self) -> ValueModel;

    /// Writes this value; when that succeeds, the bytes are those of
    /// `written_as`.
    ///
    /// # Errors
    /// The errors of the writer's entry-by-entry builders.
    fn serialize(&self, serializer: &mut Serializer) -> (r: Result<(), Error>)
        requires
            old(serializer).wf(),
        ensures
            final(serializer).wf(),
            r is Ok ==> Serializer::wrote(
                *old(serializer),
                *final(serializer),
                enc_value(old(serializer).symbols(), self.written_as()),
            ),
    ;
}

impl Serialize for Value {
    open spec fn written_as(&self) -> ValueModel {
        self@
    }

    fn serialize(&self, serializer: &mut Serializer) -> (r: Result<(), Error>)
        ensures
            r is Ok,
    {
        serializer.serialize_value(self);
        Ok(())
    }
}

impl Serialize for bool {
    open spec fn written_as(&self) -> ValueModel {
        ValueModel::Bool(*self)
    }

    fn serialize(&self, serializer: &mut Serializer) -> (r: Result<(), Error>)
        ensures
            r is Ok,
    {
        serializer.serialize_bool(*self)
    }
}

impl Serialize for i32 {
    open spec fn written_as(&self) -> ValueModel {
        ValueModel::Integer(*self)
    }

    fn serialize(&self, serializer: &mut Serializer) -> (r: Result<(), Error>)
        ensures
            r is Ok,
    {
        serializer.serialize_i32(*self)
    }
}

impl Serialize for u8 {
    /// Written as an `i32`, cut to its low 32 bits.
    open spec fn written_as(&self) -> ValueModel {
        ValueModel::Integer(*self as i32)
    }

    fn serialize(&self, serializer: &mut Serializer) -> (r: Result<(), Error>)
        ensures
            r is Ok,
    {
        serializer.serialize_i32(*self as i32)
    }
}

impl Serialize for u16 {
    /// Written as an `i32`, cut to its low 32 bits.
    open spec fn written_as(&self) -> ValueModel {
        ValueModel::Integer(*self as i32)
    }

    fn serialize(&self, serializer: &mut Serializer) -> (r: Result<(), Error>)
        ensures
            r is Ok,
    {
        serializer.serialize_i32(*self as i32)
    }
}

impl Serialize for u32 {
    /// Written as an `i32`, cut to its low 32 bits.
    open spec fn written_as(&self) -> ValueModel {
        ValueModel::Integer(*self as i32)
    }

    fn serialize(&self, serializer: &mut Serializer) -> (r: Result<(), Error>)
        ensures
            r is Ok,
    {
        serializer.serialize_i32(*self as i32)
    }
}

impl Serialize for u64 {
    /// Written as an `i32`, cut to its low 32 bits.
    open spec fn written_as(&self) -> ValueModel {
        ValueModel::Integer(*self as i32)
    }

    fn serialize(&self, serializer: &mut Serializer) -> (r: Result<(), Error>)
        ensures
            r is Ok,
    {
        serializer.serialize_i32(*self as i32)
    }
}

impl Serialize for usize {
    /// Written as an `i32`, cut to its low 32 bits.
    open spec fn written_as(&self) -> ValueModel {
        ValueModel::Integer(*self as i32)
    }

    fn serialize(&self, serializer: &mut Serializer) -> (r: Result<(), Error>)
        ensures
            r is Ok,
    {
        serializer.serialize_i32(*self as i32)
    }
}

impl Serialize for i8 {
    /// Written as an `i32`, cut to its low 32 bits.
    open spec fn written_as(&self) -> ValueModel {
        ValueModel::Integer(*self as i32)
    }

    fn serialize(&self, serializer: &mut Serializer) -> (r: Result<(), Error>)
        ensures
            r is Ok,
    {
        serializer.serialize_i32(*self as i32)
    }
}

impl Serialize for i16 {
    /// Written as an `i32`, cut to its low 32 bits.
    open spec fn written_as(&self) -> ValueModel {
        ValueModel::Integer(*self as i32)
    }

    fn serialize(&self, serializer: &mut Serializer) -> (r: Result<(), Error>)
        ensures
            r is Ok,
    {
        serializer.serialize_i32(*self as i32)
    }
}

impl Serialize for i64 {
    /// Written as an `i32`, cut to its low 32 bits.
    open spec fn written_as(&self) -> ValueModel {
        ValueModel::Integer(*self as i32)
    }

    fn serialize(&self, serializer: &mut Serializer) -> (r: Result<(), Error>)
        ensures
            r is Ok,
    {
        serializer.serialize_i32(*self as i32)
    }
}

impl Serialize for isize {
    /// Written as an `i32`, cut to its low 32 bits.
    open spec fn written_as(&self) -> ValueModel {
        ValueModel::Integer(*self as i32)
    }

    fn serialize(&self, serializer: &mut Serializer) -> (r: Result<(), Error>)
        ensures
            r is Ok,
    {
        serializer.serialize_i32(*self as i32)
    }
}

impl Serialize for char {
    open spec fn written_as(&self) -> ValueModel {
        utf8_string(seq![*self])
    }

    fn serialize(&self, serializer: &mut Serializer) -> (r: Result<(), Error>)
        ensures
            r is Ok,
    {
        let mut text = String::new();
        text.push(*self);
        proof {
            assert(text@ =~= seq![*self]);
        }
        serializer.serialize_rust_string(text.as_str())
    }
}

impl Serialize for String {
    open spec fn written_as(&self) -> ValueModel {
        utf8_string(self@)
    }

    fn serialize(&self, serializer: &mut Serializer) -> (r: Result<(), Error>)
        ensures
            r is Ok,
    {
        serializer.serialize_rust_string(self.as_str())
    }
}

impl Serialize for Symbol {
    open spec fn written_as(&self) -> ValueModel {
        ValueModel::Symbol(self@)
    }

    fn serialize(&self, serializer: &mut Serializer) -> (r: Result<(), Error>)
        ensures
            r is Ok,
    {
        serializer.serialize_symbol(&self.as_sym())
    }
}

impl Serialize for RbString {
    open spec fn written_as(&self) -> ValueModel {
        ValueModel::String(self@)
    }

    fn serialize(&self, serializer: &mut Serializer) -> (r: Result<(), Error>)
        ensures
            r is Ok,
    {
        serializer.serialize_string(self.as_slice())
    }
}

impl<'a> Serialize for ByteString<'a> {
    open spec fn written_as(&self) -> ValueModel {
        ValueModel::String(self.0@)
    }

    fn serialize(&self, serializer: &mut Serializer) -> (r: Result<(), Error>)
        ensures
            r is Ok,
    {
        serializer.serialize_string(self.0)
    }
}

impl<T: Serialize> Serialize for Option<T> {
    open spec fn written_as(&self) -> ValueModel {
        match self {
            Some(v) => v.written_as(),
            None => ValueModel::Nil,
        }
    }

    fn serialize(&self, serializer: &mut Serializer) -> (r: Result<(), Error>)
        ensures
            self is None ==> r is Ok,
    {
        match self {
            Some(v) => v.serialize(serializer),
            None => serializer.serialize_nil(),
        }
    }
}

impl<A: Serialize, B: Serialize> Serialize for (A, B) {
    /// Written as an array of its two items.
    open spec fn written_as(&self) -> ValueModel {
        ValueModel::Array(seq![self.0.written_as(), self.1.written_as()])
    }

    fn serialize(&self, serializer: &mut Serializer) -> (r: Result<(), Error>) {
        let ghost ms = seq![self.0.written_as(), self.1.written_as()];
        let ghost t0 = serializer.symbols();
        let ghost w0 = serializer.written();
        let _announced = serializer.serialize_array(2)?;
        self.0.serialize(serializer)?;
        self.1.serialize(serializer)?;
        proof {
            let e1 = enc_value(t0, ms[0]);
            let e2 = enc_value(e1.1, ms[1]);
            let one = seq![ms[0]];
            assert(ms.subrange(0, 1) =~= one);
            assert(one.subrange(0, 0) =~= Seq::<ValueModel>::empty());
            assert(enc_values(t0, Seq::<ValueModel>::empty()) == (Seq::<u8>::empty(), t0));
            assert(one.len() == 1 && one[0] == ms[0]);
            assert(enc_values(t0, seq![ms[0]]) == (Seq::<u8>::empty() + e1.0, e1.1));
            assert(enc_values(t0, ms) == (Seq::<u8>::empty() + e1.0 + e2.0, e2.1));
            assert(serializer.written() =~= w0 + enc_value(t0, ValueModel::Array(ms)).0);
        }
        Ok(())
    }
}

/// The Marshal values that the items of a sequence are written as.
pub open spec fn items_written_as<T: Serialize>(s: Seq<T>) -> Seq<ValueModel> {
    s.map_values(|x: T| x.written_as())
}

/// Writes the items as an array, each by its own impl, in order.
fn serialize_items<T: Serialize>(items: &[T], serializer: &mut Serializer) -> (r: Result<(), Error>)
    requires
        old(serializer).wf(),
    ensures
        final(serializer).wf(),
        r is Ok ==> Serializer::wrote(
            *old(serializer),
            *final(serializer),
            enc_value(old(serializer).symbols(), ValueModel::Array(items_written_as(items@))),
        ),
        items@.len() == 0 ==> r is Ok,
{
    let ghost ms = items_written_as(items@);
    let ghost t0 = serializer.symbols();
    let ghost w0 = serializer.written();
    let _announced = serializer.serialize_array(items.len())?;
    let ghost head = serializer.written();
    let mut i: usize = 0;
    while i < items.len()
        invariant
            serializer.wf(),
            i <= items@.len(),
            ms == items_written_as(items@),
            ms.len() == items@.len(),
            head == w0 + (seq![0x5bu8] + packed_int(items@.len() as i64)),
            serializer.written() == head + enc_values(t0, ms.take(i as int)).0,
            serializer.symbols() == enc_values(t0, ms.take(i as int)).1,
        decreases items@.len() - i,
    {
        proof {
            assert(ms.take(i + 1).subrange(0, i as int) =~= ms.take(i as int));
            assert(ms.take(i + 1)[i as int] == ms[i as int]);
            assert(ms[i as int] == items@[i as int].written_as());
        }
        items[i].serialize(serializer)?;
        proof {
            let e = enc_values(t0, ms.take(i as int));
            let e2 = enc_value(e.1, ms[i as int]);
            assert(serializer.written() =~= head + (e.0 + e2.0));
        }
        i = i + 1;
    }
    proof {
        assert(ms.take(items@.len() as int) =~= ms);
        assert(serializer.written() =~= w0 + enc_value(t0, ValueModel::Array(ms)).0);
    }
    Ok(())
}

impl<T: Serialize> Serialize for Vec<T> {
    open spec fn written_as(&self) -> ValueModel {
        ValueModel::Array(items_written_as(self@))
    }

    fn serialize(&self, serializer: &mut Serializer) -> (r: Result<(), Error>)
        ensures
            self@.len() == 0 ==> r is Ok,
    {
        serialize_items(self.as_slice(), serializer)
    }
}

impl<T: Serialize> Serialize for [T] {
    open spec fn written_as(&self) -> ValueModel {
        ValueModel::Array(items_written_as(self@))
    }

    fn serialize(&self, serializer: &mut Serializer) -> (r: Result<(), Error>)
        ensures
            self@.len() == 0 ==> r is Ok,
    {
        serialize_items(self, serializer)
    }
}

impl Serialize for str {
    open spec fn written_as(&self) -> ValueModel {
        utf8_string(self@)
    }

    fn serialize(&self, serializer: &mut Serializer) -> (r: Result<(), Error>)
        ensures
            r is Ok,
    {
        serializer.serialize_rust_string(self)
    }
}

impl<T: Serialize + ?Sized> Serialize for Box<T> {
    open spec fn written_as(&self) -> ValueModel {
        (**self).written_as()
    }

    fn serialize(&self, serializer: &mut Serializer) -> (r: Result<(), Error>) {
        (**self).serialize(serializer)
    }
}

impl<'a, T: Serialize + ?Sized> Serialize for &'a T {
    open spec fn written_as(&self) -> ValueModel {
        (**self).written_as()
    }

    fn serialize(&self, serializer: &mut Serializer) -> (r: Result<(), Error>) {
        (**self).serialize(serializer)
    }
}

/// An `i32` is written as that very integer.
pub proof fn lemma_i32_written_as_its_value(n: i32)
    ensures
        n.written_as() == ValueModel::Integer(n),
{
}

/// A `u8` that an `i32` can hold is written as that very integer, as
/// an `i32` of the same value is.
pub proof fn lemma_u8_written_as_its_value(n: u8)
    requires
        0 <= n <= 255,
    ensures
        n.written_as() matches ValueModel::Integer(i) && i as int == n as int,
        n.written_as() == (n as i32).written_as(),
{
}

/// A `u16` that an `i32` can hold is written as that very integer, as
/// an `i32` of the same value is.
pub proof fn lemma_u16_written_as_its_value(n: u16)
    requires
        0 <= n <= 65535,
    ensures
        n.written_as() matches ValueModel::Integer(i) && i as int == n as int,
        n.written_as() == (n as i32).written_as(),
{
}

/// A `u32` that an `i32` can hold is written as that very integer, as
/// an `i32` of the same value is.
pub proof fn lemma_u32_written_as_its_value(n: u32)
    requires
        0 <= n <= 0x7fff_ffff,
    ensures
        n.written_as() matches ValueModel::Integer(i) && i as int == n as int,
        n.written_as() == (n as i32).written_as(),
{
}

/// A `u64` that an `i32` can hold is written as that very integer, as
/// an `i32` of the same value is.
pub proof fn lemma_u64_written_as_its_value(n: u64)
    requires
        0 <= n <= 0x7fff_ffff,
    ensures
        n.written_as() matches ValueModel::Integer(i) && i as int == n as int,
        n.written_as() == (n as i32).written_as(),
{
}

/// A `usize` that an `i32` can hold is written as that very integer, as
/// an `i32` of the same value is.
pub proof fn lemma_usize_written_as_its_value(n: usize)
    requires
        0 <= n <= 0x7fff_ffff,
    ensures
        n.written_as() matches ValueModel::Integer(i) && i as int == n as int,
        n.written_as() == (n as i32).written_as(),
{
}

/// A `i8` that an `i32` can hold is written as that very integer, as
/// an `i32` of the same value is.
pub proof fn lemma_i8_written_as_its_value(n: i8)
    requires
        -128 <= n <= 127,
    ensures
        n.written_as() matches ValueModel::Integer(i) && i as int == n as int,
        n.written_as() == (n as i32).written_as(),
{
}

/// A `i16` that an `i32` can hold is written as that very integer, as
/// an `i32` of the same value is.
pub proof fn lemma_i16_written_as_its_value(n: i16)
    requires
        -32768 <= n <= 32767,
    ensures
        n.written_as() matches ValueModel::Integer(i) && i as int == n as int,
        n.written_as() == (n as i32).written_as(),
{
}

/// A `i64` that an `i32` can hold is written as that very integer, as
/// an `i32` of the same value is.
pub proof fn lemma_i64_written_as_its_value(n: i64)
    requires
        -0x8000_0000 <= n <= 0x7fff_ffff,
    ensures
        n.written_as() matches ValueModel::Integer(i) && i as int == n as int,
        n.written_as() == (n as i32).written_as(),
{
}

/// A `isize` that an `i32` can hold is written as that very integer, as
/// an `i32` of the same value is.
pub proof fn lemma_isize_written_as_its_value(n: isize)
    requires
        -0x8000_0000 <= n <= 0x7fff_ffff,
    ensures
        n.written_as() matches ValueModel::Integer(i) && i as int == n as int,
        n.written_as() == (n as i32).written_as(),
{
}

} // verus!
