//! The bytes that the writer produces for a value, as a function of the
//! value's model and of the symbols written before it.
use vstd::prelude::*;
use vstd::utf8::encode_utf8;

use crate::packed::packed_int;
use crate::value::{FieldsModel, ValueModel};

verus! {

broadcast use vstd::seq::group_seq_axioms;

/// The symbols written so far, in the order they were first written. A
/// symbol written again is written as a link to its place in this list.
pub type SymTable = Seq<Seq<char>>;

/// The first place of `s` in `t`, or `-1` when `s` is not there.
pub open spec fn find_symbol(t: SymTable, s: Seq<char>) -> int
    decreases t.len(),
{
    if t.len() == 0 {
        -1
    } else {
        let i = find_symbol(t.drop_last(), s);
        if i >= 0 {
            i
        } else if t.last() == s {
            t.len() - 1
        } else {
            -1
        }
    }
}

/// A byte string preceded by its packed length.
pub open spec fn with_len(b: Seq<u8>) -> Seq<u8> {
    packed_int(b.len() as i64) + b
}

/// A symbol: a link (`;` and its place) when it was written before, else
/// `:` and its UTF-8 text, which then joins the table.
pub open spec fn enc_symbol(t: SymTable, s: Seq<char>) -> (Seq<u8>, SymTable) {
    let i = find_symbol(t, s);
    if i >= 0 {
        (seq![0x3bu8] + packed_int(i as i64), t)
    } else {
        (seq![0x3au8] + with_len(encode_utf8(s)), t.push(s))
    }
}

/// A value's bytes, and the symbol table after it.
pub open spec fn enc_value(t: SymTable, v: ValueModel) -> (Seq<u8>, SymTable)
    decreases v,
{
    match v {
        ValueModel::Nil => (seq![0x30u8], t),
        ValueModel::Bool(b) => (if b { seq![0x54u8] } else { seq![0x46u8] }, t),
        ValueModel::Integer(i) => (seq![0x69u8] + packed_int(i as i64), t),
        ValueModel::Float(f) => (seq![0x66u8] + with_len(f), t),
        ValueModel::String(s) => (seq![0x22u8] + with_len(s), t),
        ValueModel::Symbol(s) => enc_symbol(t, s),
        ValueModel::Array(a) => {
            let (b, t1) = enc_values(t, a);
            (seq![0x5bu8] + packed_int(a.len() as i64) + b, t1)
        },
        ValueModel::Hash(h) => {
            let (b, t1) = enc_pairs(t, h);
            (seq![0x7bu8] + packed_int(h.len() as i64) + b, t1)
        },
        ValueModel::Userdata(c, d) => {
            let (cb, t1) = enc_symbol(t, c);
            (seq![0x75u8] + cb + with_len(d), t1)
        },
        ValueModel::Object(c, f) => {
            let (cb, t1) = enc_symbol(t, c);
            let (fb, t2) = enc_fields(t1, f);
            (seq![0x6fu8] + cb + packed_int(f.len() as i64) + fb, t2)
        },
        ValueModel::Instance(inner, f) => {
            if f.len() == 0 {
                enc_value(t, *inner)
            } else {
                let (vb, t1) = enc_value(t, *inner);
                let (fb, t2) = enc_fields(t1, f);
                (seq![0x49u8] + vb + packed_int(f.len() as i64) + fb, t2)
            }
        },
        ValueModel::Regex(d, flags) => (seq![0x2fu8] + with_len(d) + seq![flags], t),
        ValueModel::Struct(c, f) => {
            let (cb, t1) = enc_symbol(t, c);
            let (fb, t2) = enc_fields(t1, f);
            (seq![0x53u8] + cb + packed_int(f.len() as i64) + fb, t2)
        },
        ValueModel::Class(c) => (seq![0x63u8] + with_len(encode_utf8(c)), t),
        ValueModel::Module(m) => (seq![0x6du8] + with_len(encode_utf8(m)), t),
        ValueModel::Extended(m, inner) => {
            let (mb, t1) = enc_symbol(t, m);
            let (vb, t2) = enc_value(t1, *inner);
            (seq![0x65u8] + mb + vb, t2)
        },
        ValueModel::UserClass(c, inner) => {
            let (cb, t1) = enc_symbol(t, c);
            let (vb, t2) = enc_value(t1, *inner);
            (seq![0x43u8] + cb + vb, t2)
        },
        ValueModel::UserMarshal(c, inner) => {
            let (cb, t1) = enc_symbol(t, c);
            let (vb, t2) = enc_value(t1, *inner);
            (seq![0x55u8] + cb + vb, t2)
        },
        ValueModel::Data(c, inner) => {
            let (cb, t1) = enc_symbol(t, c);
            let (vb, t2) = enc_value(t1, *inner);
            (seq![0x64u8] + cb + vb, t2)
        },
    }
}

/// The elements of an array, one after the other.
pub open spec fn enc_values(t: SymTable, s: Seq<ValueModel>) -> (Seq<u8>, SymTable)
    decreases s,
{
    if s.len() == 0 {
        (Seq::empty(), t)
    } else {
        let (b1, t1) = enc_values(t, s.subrange(0, s.len() - 1));
        let (b2, t2) = enc_value(t1, s[s.len() - 1]);
        (b1 + b2, t2)
    }
}

/// The entries of a hash: each key, then its value.
pub open spec fn enc_pairs(t: SymTable, s: Seq<(ValueModel, ValueModel)>) -> (Seq<u8>, SymTable)
    decreases s,
{
    if s.len() == 0 {
        (Seq::empty(), t)
    } else {
        let (b1, t1) = enc_pairs(t, s.subrange(0, s.len() - 1));
        let (b2, t2) = enc_value(t1, s[s.len() - 1].0);
        let (b3, t3) = enc_value(t2, s[s.len() - 1].1);
        (b1 + b2 + b3, t3)
    }
}

/// Instance variables: each name as a symbol, then its value.
pub open spec fn enc_fields(t: SymTable, f: FieldsModel) -> (Seq<u8>, SymTable)
    decreases f,
{
    if f.len() == 0 {
        (Seq::empty(), t)
    } else {
        let (b1, t1) = enc_fields(t, f.subrange(0, f.len() - 1));
        let (b2, t2) = enc_symbol(t1, f[f.len() - 1].0);
        let (b3, t3) = enc_value(t2, f[f.len() - 1].1);
        (b1 + b2 + b3, t3)
    }
}

/// A whole Marshal document: the version bytes `4, 8`, then the value.
pub open spec fn marshal_bytes(v: ValueModel) -> Seq<u8> {
    seq![4u8, 8u8] + enc_value(Seq::empty(), v).0
}

} // verus!
