//! What the reader gives back of what the writer wrote: the same value, for
//! every value that the format can carry as it is.
use vstd::prelude::*;
use vstd::utf8::{
    decode_utf8, encode_utf8, encode_utf8_decode_utf8, encode_utf8_valid_utf8, valid_utf8,
};

use crate::de::decoding::{
    advanced, at, d_bytes, d_bytes_len, d_fields, d_next_byte, d_packed_int, d_pairs,
    d_register, d_sane, d_str_len, d_symbol, d_symbol_either, d_symlink, d_tagged, d_usize,
    d_document, d_value, d_values, start_state, DecodeState,
};
use crate::tag::{lemma_tag_byte_roundtrip, tag_byte, tag_is_referenceable, Tag};
use crate::de::error::KindModel;
use crate::packed::{lemma_packed_int_roundtrip, packed_int, unpack_int};
use crate::de::decoding::check_float;
use crate::ser::encoding::{
    enc_fields, enc_pairs, enc_symbol, enc_value, enc_values, find_symbol, marshal_bytes, with_len,
    SymTable,
};
use crate::ser::serializer::lemma_find_symbol;
use crate::value::eq::same;
use crate::value::insert::{
    field_index, fields_from, hash_from, keys_distinct, lemma_field_index, lemma_pair_index,
    pair_index,
};
use crate::value::{FieldsModel, ValueModel};

verus! {

broadcast use vstd::seq::group_seq_axioms;

/// The largest length that a packed integer carries.
pub open spec fn max_len() -> int {
    0x7fff_ffff
}

/// The input holds `b` from `pos` on.
pub open spec fn at_pos(input: Seq<u8>, pos: int, b: Seq<u8>) -> bool {
    &&& 0 <= pos
    &&& pos + b.len() <= input.len()
    &&& input.subrange(pos, pos + b.len()) == b
}

/// Bytes that follow each other in the input.
pub proof fn lemma_at_pos_split(input: Seq<u8>, pos: int, a: Seq<u8>, b: Seq<u8>)
    requires
        at_pos(input, pos, a + b),
    ensures
        at_pos(input, pos, a),
        at_pos(input, pos + a.len(), b),
{
    let ab = a + b;
    assert(ab.subrange(0, a.len() as int) =~= a);
    assert(ab.subrange(a.len() as int, ab.len() as int) =~= b);
    assert(input.subrange(pos, pos + a.len()) =~= ab.subrange(0, a.len() as int));
    assert(input.subrange(pos + a.len(), pos + a.len() + b.len()) =~= ab.subrange(
        a.len() as int,
        ab.len() as int,
    ));
}

/// A packed integer is read back as written.
pub proof fn lemma_read_packed(input: Seq<u8>, st: DecodeState, x: i32)
    requires
        at_pos(input, st.pos, packed_int(x as i64)),
    ensures
        d_packed_int(input, st) == (
            Ok::<i32, KindModel>(x),
            at(st, st.pos + packed_int(x as i64).len()),
        ),
{
    let p = packed_int(x as i64);
    let s = input.subrange(st.pos, input.len() as int);
    assert(s =~= p + s.subrange(p.len() as int, s.len() as int));
    lemma_packed_int_roundtrip(x, s.subrange(p.len() as int, s.len() as int));
}

/// A length is read back as written.
pub proof fn lemma_read_usize(input: Seq<u8>, st: DecodeState, n: int)
    requires
        0 <= n <= max_len(),
        at_pos(input, st.pos, packed_int(n as i64)),
    ensures
        d_usize(input, st) == (
            Ok::<usize, KindModel>(n as usize),
            at(st, st.pos + packed_int(n as i64).len()),
        ),
{
    let x = n as i32;
    assert(x as i64 == n as i64);
    lemma_read_packed(input, st, x);
}

/// A byte string with its length is read back as written.
pub proof fn lemma_read_bytes_len(input: Seq<u8>, st: DecodeState, b: Seq<u8>)
    requires
        b.len() <= max_len(),
        at_pos(input, st.pos, with_len(b)),
    ensures
        d_bytes_len(input, st) == (
            Ok::<Seq<u8>, KindModel>(b),
            at(st, st.pos + with_len(b).len()),
        ),
{
    let p = packed_int(b.len() as i64);
    lemma_at_pos_split(input, st.pos, p, b);
    lemma_read_usize(input, st, b.len() as int);
    let s1 = at(st, st.pos + p.len());
    assert(d_bytes(input, s1, b.len() as usize).0 == Ok::<Seq<u8>, KindModel>(b));
}

/// A text with its length is read back as written.
pub proof fn lemma_read_str_len(input: Seq<u8>, st: DecodeState, s: Seq<char>)
    requires
        encode_utf8(s).len() <= max_len(),
        at_pos(input, st.pos, with_len(encode_utf8(s))),
    ensures
        d_str_len(input, st) == (
            Ok::<Seq<char>, KindModel>(s),
            at(st, st.pos + with_len(encode_utf8(s)).len()),
        ),
{
    lemma_read_bytes_len(input, st, encode_utf8(s));
    encode_utf8_valid_utf8(s);
    encode_utf8_decode_utf8(s);
}

/// The state after a symbol was read back: further on, and with the symbol
/// table that the writer had after writing it.
pub open spec fn after_symbol(st: DecodeState, t: SymTable, s: Seq<char>) -> DecodeState {
    DecodeState {
        pos: st.pos + enc_symbol(t, s).0.len(),
        symbols: enc_symbol(t, s).1,
        ..st
    }
}

/// A symbol is read back as written, and the reader's table of symbols
/// follows the writer's.
pub proof fn lemma_read_symbol(input: Seq<u8>, st: DecodeState, s: Seq<char>)
    requires
        input.len() <= max_len(),
        st.stack.len() == 0,
        st.symbols.len() <= st.pos,
        at_pos(input, st.pos, enc_symbol(st.symbols, s).0),
    ensures
        d_symbol_either(input, st) == (
            Ok::<Seq<char>, KindModel>(s),
            after_symbol(st, st.symbols, s),
        ),
        enc_symbol(st.symbols, s).0.len() >= 2,
{
    let t = st.symbols;
    let e = enc_symbol(t, s);
    lemma_find_symbol(t, s);
    let i = find_symbol(t, s);
    let s1 = at(st, st.pos + 1);
    assert(input[st.pos] == e.0[0]);
    if i >= 0 {
        let p = packed_int(i as i64);
        assert(e.0 =~= seq![0x3bu8] + p);
        lemma_at_pos_split(input, st.pos, seq![0x3bu8], p);
        lemma_read_packed(input, s1, i as i32);
        assert((i as i32) as i64 == i as i64);
        lemma_packed_int_roundtrip(i as i32, Seq::empty());
        assert(d_symlink(input, s1).0 == Ok::<Seq<char>, KindModel>(s));
    } else {
        let w = with_len(encode_utf8(s));
        assert(e.0 =~= seq![0x3au8] + w);
        lemma_at_pos_split(input, st.pos, seq![0x3au8], w);
        lemma_read_str_len(input, s1, s);
        lemma_packed_int_roundtrip(encode_utf8(s).len() as i32, Seq::empty());
        assert(d_symbol(input, s1).1 == after_symbol(st, t, s));
    }
}

/// The values that the writer and the reader carry through unchanged: no
/// instance without instance variables (the writer puts down the bare
/// value), no float whose text the reader refuses, within each hash no key
/// that equals an earlier key, and within each list of instance variables no
/// name that occurs twice.
pub open spec fn round_trips(v: ValueModel) -> bool
    decreases v,
{
    match v {
        ValueModel::Float(f) => check_float(f) is Ok,
        ValueModel::Array(a) => forall|i: int| 0 <= i < a.len() ==> round_trips(#[trigger] a[i]),
        ValueModel::Hash(h) => {
            &&& forall|i: int|
                0 <= i < h.len() ==> round_trips(#[trigger] h[i].0) && round_trips(h[i].1)
            &&& keys_distinct(h)
        },
        ValueModel::Object(_, f) => fields_round_trip(f),
        ValueModel::Struct(_, f) => fields_round_trip(f),
        ValueModel::Instance(inner, f) => f.len() > 0 && round_trips(*inner) && fields_round_trip(f),
        ValueModel::Extended(_, inner) => round_trips(*inner),
        ValueModel::UserClass(_, inner) => round_trips(*inner),
        ValueModel::UserMarshal(_, inner) => round_trips(*inner),
        ValueModel::Data(_, inner) => round_trips(*inner),
        _ => true,
    }
}

/// Instance variables whose values round-trip and whose names are distinct.
pub open spec fn fields_round_trip(f: FieldsModel) -> bool
    decreases f,
{
    &&& forall|i: int| 0 <= i < f.len() ==> round_trips(#[trigger] f[i].1)
    &&& forall|i: int, j: int| 0 <= i < j < f.len() ==> #[trigger] f[i].0 != #[trigger] f[j].0
}

/// The elements of an array, seen from the front: the first, then the rest.
pub proof fn lemma_enc_values_front(t: SymTable, s: Seq<ValueModel>)
    requires
        s.len() > 0,
    ensures
        ({
            let (b1, t1) = enc_value(t, s[0]);
            let (b2, t2) = enc_values(t1, s.drop_first());
            enc_values(t, s) == (b1 + b2, t2)
        }),
    decreases s.len(),
{
    let n = s.len();
    let (b1, t1) = enc_value(t, s[0]);
    if n == 1 {
        assert(s.subrange(0, 0) =~= Seq::<ValueModel>::empty());
        assert(s.drop_first() =~= Seq::<ValueModel>::empty());
        assert(enc_values(t, s.subrange(0, 0)) == (Seq::<u8>::empty(), t));
        assert(enc_values(t1, s.drop_first()) == (Seq::<u8>::empty(), t1));
        assert(enc_values(t, s) == (Seq::<u8>::empty() + b1, t1));
        assert(b1 + Seq::<u8>::empty() =~= Seq::<u8>::empty() + b1);
    } else {
        let init = s.subrange(0, n - 1);
        lemma_enc_values_front(t, init);
        assert(init.drop_first() =~= s.drop_first().subrange(0, n - 2));
        assert(s.drop_first()[n - 2] == s[n - 1]);
        let (c, tc) = enc_values(t1, init.drop_first());
        let (d, td) = enc_value(tc, s[n - 1]);
        assert(enc_values(t, init) == (b1 + c, tc));
        assert(enc_values(t, s) == (b1 + c + d, td));
        assert(enc_values(t1, s.drop_first()) == (c + d, td));
        assert(b1 + c + d =~= b1 + (c + d));
    }
}

/// The entries of a hash, seen from the front: the first, then the rest.
pub proof fn lemma_enc_pairs_front(t: SymTable, s: Seq<(ValueModel, ValueModel)>)
    requires
        s.len() > 0,
    ensures
        ({
            let (b1, t1) = enc_value(t, s[0].0);
            let (b2, t2) = enc_value(t1, s[0].1);
            let (b3, t3) = enc_pairs(t2, s.drop_first());
            enc_pairs(t, s) == (b1 + b2 + b3, t3)
        }),
    decreases s.len(),
{
    let n = s.len();
    let (b1, t1) = enc_value(t, s[0].0);
    let (b2, t2) = enc_value(t1, s[0].1);
    if n == 1 {
        assert(s.subrange(0, 0) =~= Seq::<(ValueModel, ValueModel)>::empty());
        assert(s.drop_first() =~= Seq::<(ValueModel, ValueModel)>::empty());
        assert(enc_pairs(t, s.subrange(0, 0)) == (Seq::<u8>::empty(), t));
        assert(enc_pairs(t2, s.drop_first()) == (Seq::<u8>::empty(), t2));
        assert(enc_pairs(t, s) == (Seq::<u8>::empty() + b1 + b2, t2));
        assert(b1 + b2 + Seq::<u8>::empty() =~= Seq::<u8>::empty() + b1 + b2);
    } else {
        let init = s.subrange(0, n - 1);
        lemma_enc_pairs_front(t, init);
        assert(init.drop_first() =~= s.drop_first().subrange(0, n - 2));
        assert(s.drop_first()[n - 2] == s[n - 1]);
        let (c, tc) = enc_pairs(t2, init.drop_first());
        let (d, td) = enc_value(tc, s[n - 1].0);
        let (e, te) = enc_value(td, s[n - 1].1);
        assert(enc_pairs(t, init) == (b1 + b2 + c, tc));
        assert(enc_pairs(t, s) == (b1 + b2 + c + d + e, te));
        assert(enc_pairs(t2, s.drop_first()) == (c + d + e, te));
        assert(b1 + b2 + c + d + e =~= b1 + b2 + (c + d + e));
    }
}

/// Instance variables, seen from the front: the first, then the rest.
pub proof fn lemma_enc_fields_front(t: SymTable, f: FieldsModel)
    requires
        f.len() > 0,
    ensures
        ({
            let (b1, t1) = enc_symbol(t, f[0].0);
            let (b2, t2) = enc_value(t1, f[0].1);
            let (b3, t3) = enc_fields(t2, f.drop_first());
            enc_fields(t, f) == (b1 + b2 + b3, t3)
        }),
    decreases f.len(),
{
    let n = f.len();
    let (b1, t1) = enc_symbol(t, f[0].0);
    let (b2, t2) = enc_value(t1, f[0].1);
    if n == 1 {
        assert(f.subrange(0, 0) =~= Seq::<(Seq<char>, ValueModel)>::empty());
        assert(f.drop_first() =~= Seq::<(Seq<char>, ValueModel)>::empty());
        assert(enc_fields(t, f.subrange(0, 0)) == (Seq::<u8>::empty(), t));
        assert(enc_fields(t2, f.drop_first()) == (Seq::<u8>::empty(), t2));
        assert(enc_fields(t, f) == (Seq::<u8>::empty() + b1 + b2, t2));
        assert(b1 + b2 + Seq::<u8>::empty() =~= Seq::<u8>::empty() + b1 + b2);
    } else {
        let init = f.subrange(0, n - 1);
        lemma_enc_fields_front(t, init);
        assert(init.drop_first() =~= f.drop_first().subrange(0, n - 2));
        assert(f.drop_first()[n - 2] == f[n - 1]);
        let (c, tc) = enc_fields(t2, init.drop_first());
        let (d, td) = enc_symbol(tc, f[n - 1].0);
        let (e, te) = enc_value(td, f[n - 1].1);
        assert(enc_fields(t, init) == (b1 + b2 + c, tc));
        assert(enc_fields(t, f) == (b1 + b2 + c + d + e, te));
        assert(enc_fields(t2, f.drop_first()) == (c + d + e, te));
        assert(b1 + b2 + c + d + e =~= b1 + b2 + (c + d + e));
    }
}

/// A symbol takes at least two bytes and adds at most one entry to the table.
pub proof fn lemma_enc_symbol_len(t: SymTable, s: Seq<char>)
    ensures
        enc_symbol(t, s).0.len() >= 2,
        enc_symbol(t, s).1.len() <= t.len() + 1,
{
}

/// A value takes at least one byte, and the table of symbols grows by at
/// most the number of bytes.
#[verifier::spinoff_prover]
#[verifier::rlimit(40)]
pub proof fn lemma_enc_value_len(t: SymTable, v: ValueModel)
    ensures
        enc_value(t, v).0.len() >= 1,
        enc_value(t, v).1.len() <= t.len() + enc_value(t, v).0.len(),
    decreases v,
{
    match v {
        ValueModel::Symbol(s) => lemma_enc_symbol_len(t, s),
        ValueModel::Array(a) => lemma_enc_values_len(t, a),
        ValueModel::Hash(h) => lemma_enc_pairs_len(t, h),
        ValueModel::Userdata(c, _) => lemma_enc_symbol_len(t, c),
        ValueModel::Object(c, f) => {
            lemma_enc_symbol_len(t, c);
            lemma_enc_fields_len(enc_symbol(t, c).1, f);
        },
        ValueModel::Struct(c, f) => {
            lemma_enc_symbol_len(t, c);
            lemma_enc_fields_len(enc_symbol(t, c).1, f);
        },
        ValueModel::Instance(inner, f) => {
            lemma_enc_value_len(t, *inner);
            lemma_enc_fields_len(enc_value(t, *inner).1, f);
        },
        ValueModel::Extended(c, inner) => {
            lemma_enc_symbol_len(t, c);
            lemma_enc_value_len(enc_symbol(t, c).1, *inner);
        },
        ValueModel::UserClass(c, inner) => {
            lemma_enc_symbol_len(t, c);
            lemma_enc_value_len(enc_symbol(t, c).1, *inner);
        },
        ValueModel::UserMarshal(c, inner) => {
            lemma_enc_symbol_len(t, c);
            lemma_enc_value_len(enc_symbol(t, c).1, *inner);
        },
        ValueModel::Data(c, inner) => {
            lemma_enc_symbol_len(t, c);
            lemma_enc_value_len(enc_symbol(t, c).1, *inner);
        },
        _ => {},
    }
}

/// The elements of an array take at least a byte each.
pub proof fn lemma_enc_values_len(t: SymTable, s: Seq<ValueModel>)
    ensures
        enc_values(t, s).0.len() >= s.len(),
        enc_values(t, s).1.len() <= t.len() + enc_values(t, s).0.len(),
    decreases s,
{
    if s.len() > 0 {
        let init = s.subrange(0, s.len() - 1);
        lemma_enc_values_len(t, init);
        lemma_enc_value_len(enc_values(t, init).1, s[s.len() - 1]);
    }
}

/// The entries of a hash take at least a byte each.
pub proof fn lemma_enc_pairs_len(t: SymTable, s: Seq<(ValueModel, ValueModel)>)
    ensures
        enc_pairs(t, s).0.len() >= s.len(),
        enc_pairs(t, s).1.len() <= t.len() + enc_pairs(t, s).0.len(),
    decreases s,
{
    if s.len() > 0 {
        let init = s.subrange(0, s.len() - 1);
        lemma_enc_pairs_len(t, init);
        let t1 = enc_pairs(t, init).1;
        lemma_enc_value_len(t1, s[s.len() - 1].0);
        lemma_enc_value_len(enc_value(t1, s[s.len() - 1].0).1, s[s.len() - 1].1);
    }
}

/// Instance variables take at least a byte each.
pub proof fn lemma_enc_fields_len(t: SymTable, f: FieldsModel)
    ensures
        enc_fields(t, f).0.len() >= f.len(),
        enc_fields(t, f).1.len() <= t.len() + enc_fields(t, f).0.len(),
    decreases f,
{
    if f.len() > 0 {
        let init = f.subrange(0, f.len() - 1);
        lemma_enc_fields_len(t, init);
        let t1 = enc_fields(t, init).1;
        lemma_enc_symbol_len(t1, f[f.len() - 1].0);
        lemma_enc_value_len(enc_symbol(t1, f[f.len() - 1].0).1, f[f.len() - 1].1);
    }
}

/// Entries with distinct keys are a hash as they stand.
pub proof fn lemma_hash_from_distinct(e: Seq<(ValueModel, ValueModel)>)
    requires
        keys_distinct(e),
    ensures
        hash_from(e) == e,
    decreases e.len(),
{
    if e.len() > 0 {
        let init = e.drop_last();
        assert forall|i: int, j: int| 0 <= i < j < init.len() implies !same(
            #[trigger] init[j].0,
            #[trigger] init[i].0,
        ) by {
            assert(init[i] == e[i] && init[j] == e[j]);
        }
        lemma_hash_from_distinct(init);
        lemma_pair_index(init, e.last().0);
        if pair_index(init, e.last().0) >= 0 {
            let k = pair_index(init, e.last().0);
            assert(same(e[e.len() - 1].0, e[k].0));
        }
        assert(init.push(e.last()) =~= e);
    }
}

/// Instance variables with distinct names are kept as they stand.
pub proof fn lemma_fields_from_distinct(e: FieldsModel)
    requires
        forall|i: int, j: int| 0 <= i < j < e.len() ==> #[trigger] e[i].0 != #[trigger] e[j].0,
    ensures
        fields_from(e) == e,
    decreases e.len(),
{
    if e.len() > 0 {
        let init = e.drop_last();
        assert forall|i: int, j: int| 0 <= i < j < init.len() implies #[trigger] init[i].0
            != #[trigger] init[j].0 by {
            assert(init[i] == e[i] && init[j] == e[j]);
        }
        lemma_fields_from_distinct(init);
        lemma_field_index(init, e.last().0);
        if field_index(init, e.last().0) >= 0 {
            let k = field_index(init, e.last().0);
            assert(e[k].0 == e[e.len() - 1].0);
        }
        assert(init.push(e.last()) =~= e);
    }
}

/// The state right after the tag `t` was read from `st`.
pub open spec fn after_tag(st: DecodeState, t: Tag) -> DecodeState {
    at(if tag_is_referenceable(t) { d_register(st) } else { st }, st.pos + 1)
}

/// A value that opens with the byte of `t` is read on after that tag.
pub proof fn lemma_read_tag(input: Seq<u8>, st: DecodeState, t: Tag, rest: Seq<u8>)
    requires
        at_pos(input, st.pos, seq![tag_byte(t)] + rest),
        st.stack.len() <= input.len() + 1,
    ensures
        d_value(input, st) == d_tagged(input, st, after_tag(st, t), t),
        at_pos(input, st.pos + 1, rest),
        after_tag(st, t).pos == st.pos + 1,
        after_tag(st, t).symbols == st.symbols,
        after_tag(st, t).stack == st.stack,
        advanced(input, st, after_tag(st, t)),
{
    lemma_at_pos_split(input, st.pos, seq![tag_byte(t)], rest);
    assert(input[st.pos] == tag_byte(t)) by {
        assert(input.subrange(st.pos, st.pos + 1)[0] == input[st.pos]);
    }
    lemma_tag_byte_roundtrip(t);
}

/// The reader is at the start of a value that the writer put down: no object
/// link is being followed, and its table of symbols is no longer than the
/// bytes before it.
pub open spec fn ready(input: Seq<u8>, st: DecodeState) -> bool {
    &&& input.len() <= max_len()
    &&& st.stack.len() == 0
    &&& st.symbols.len() <= st.pos
}

/// The state `s2` lies `n` bytes after `st`, with the symbol table `t`.
pub open spec fn landed(st: DecodeState, s2: DecodeState, n: int, t: SymTable) -> bool {
    &&& s2.pos == st.pos + n
    &&& s2.symbols == t
    &&& s2.stack == st.stack
}

/// The reader gives back the value that the writer put down, and ends where
/// the writer's bytes end, with the writer's table of symbols.
pub proof fn lemma_rt_value(input: Seq<u8>, st: DecodeState, v: ValueModel)
    requires
        round_trips(v),
        ready(input, st),
        at_pos(input, st.pos, enc_value(st.symbols, v).0),
    ensures
        d_value(input, st).0 == Ok::<ValueModel, KindModel>(v),
        landed(st, d_value(input, st).1, enc_value(st.symbols, v).0.len() as int, enc_value(st.symbols, v).1),
    decreases v, 1int,
{
    match v {
        ValueModel::Array(_) => lemma_rt_array(input, st, v),
        ValueModel::Hash(_) => lemma_rt_hash(input, st, v),
        ValueModel::Object(_, _) => lemma_rt_object(input, st, v),
        ValueModel::Struct(_, _) => lemma_rt_object(input, st, v),
        ValueModel::Instance(_, _) => lemma_rt_instance(input, st, v),
        ValueModel::Extended(c, inner) => lemma_rt_wrapped(input, st, Tag::Extended, c, *inner),
        ValueModel::UserClass(c, inner) => lemma_rt_wrapped(input, st, Tag::UserClass, c, *inner),
        ValueModel::UserMarshal(c, inner) => lemma_rt_wrapped(input, st, Tag::UserMarshal, c, *inner),
        ValueModel::Data(c, inner) => lemma_rt_wrapped(input, st, Tag::Data, c, *inner),
        ValueModel::Userdata(_, _) => lemma_rt_userdata(input, st, v),
        _ => lemma_rt_scalar(input, st, v),
    }
}

/// User data is read back as written.
#[verifier::spinoff_prover]
#[verifier::rlimit(60)]
pub proof fn lemma_rt_userdata(input: Seq<u8>, st: DecodeState, v: ValueModel)
    requires
        v is Userdata,
        ready(input, st),
        at_pos(input, st.pos, enc_value(st.symbols, v).0),
    ensures
        d_value(input, st).0 == Ok::<ValueModel, KindModel>(v),
        landed(st, d_value(input, st).1, enc_value(st.symbols, v).0.len() as int, enc_value(st.symbols, v).1),
{
    let t = st.symbols;
    let p = st.pos;
    let e = enc_value(t, v);
    lemma_enc_value_len(t, v);
    match v {
        ValueModel::Userdata(c, d) => {
            let (cb, t1) = enc_symbol(t, c);
            let w = with_len(d);
            assert(e.0 =~= seq![tag_byte(Tag::UserDef)] + (cb + w));
            lemma_read_tag(input, st, Tag::UserDef, cb + w);
            lemma_at_pos_split(input, p + 1, cb, w);
            let s1 = after_tag(st, Tag::UserDef);
            lemma_read_symbol(input, s1, c);
            let s2 = after_symbol(s1, t, c);
            lemma_read_bytes_len(input, s2, d);
        },
        _ => {},
    }
}

/// A value without values inside is read back as written.
#[verifier::spinoff_prover]
#[verifier::rlimit(80)]
pub proof fn lemma_rt_scalar(input: Seq<u8>, st: DecodeState, v: ValueModel)
    requires
        !(v is Array || v is Hash || v is Object || v is Struct || v is Instance || v is Extended || v is UserClass || v is UserMarshal || v is Data || v is Userdata),
        round_trips(v),
        ready(input, st),
        at_pos(input, st.pos, enc_value(st.symbols, v).0),
    ensures
        d_value(input, st).0 == Ok::<ValueModel, KindModel>(v),
        landed(st, d_value(input, st).1, enc_value(st.symbols, v).0.len() as int, enc_value(st.symbols, v).1),
{
    let t = st.symbols;
    let p = st.pos;
    let e = enc_value(t, v);
    lemma_enc_value_len(t, v);
    match v {
        ValueModel::Nil => {
            assert(e.0 =~= seq![tag_byte(Tag::Nil)] + Seq::<u8>::empty());
            lemma_read_tag(input, st, Tag::Nil, Seq::empty());
        },
        ValueModel::Bool(b) => {
            let tg = if b { Tag::True } else { Tag::False };
            assert(e.0 =~= seq![tag_byte(tg)] + Seq::<u8>::empty());
            lemma_read_tag(input, st, tg, Seq::empty());
        },
        ValueModel::Integer(i) => {
            let rest = packed_int(i as i64);
            assert(e.0 =~= seq![tag_byte(Tag::Integer)] + rest);
            lemma_read_tag(input, st, Tag::Integer, rest);
            lemma_read_packed(input, after_tag(st, Tag::Integer), i);
        },
        ValueModel::Float(f) => {
            let rest = with_len(f);
            assert(e.0 =~= seq![tag_byte(Tag::Float)] + rest);
            lemma_read_tag(input, st, Tag::Float, rest);
            lemma_read_bytes_len(input, after_tag(st, Tag::Float), f);
        },
        ValueModel::String(b) => {
            let rest = with_len(b);
            assert(e.0 =~= seq![tag_byte(Tag::String)] + rest);
            lemma_read_tag(input, st, Tag::String, rest);
            lemma_read_bytes_len(input, after_tag(st, Tag::String), b);
        },
        ValueModel::Symbol(sym) => {
            lemma_read_symbol(input, st, sym);
            lemma_find_symbol(t, sym);
            if find_symbol(t, sym) >= 0 {
                let rest = packed_int(find_symbol(t, sym) as i64);
                assert(e.0 =~= seq![tag_byte(Tag::Symlink)] + rest);
                lemma_read_tag(input, st, Tag::Symlink, rest);
            } else {
                let rest = with_len(encode_utf8(sym));
                assert(e.0 =~= seq![tag_byte(Tag::Symbol)] + rest);
                lemma_read_tag(input, st, Tag::Symbol, rest);
            }
        },
        ValueModel::Regex(d, flags) => {
            let rest = with_len(d) + seq![flags];
            assert(e.0 =~= seq![tag_byte(Tag::RawRegexp)] + rest);
            lemma_read_tag(input, st, Tag::RawRegexp, rest);
            let s1 = after_tag(st, Tag::RawRegexp);
            lemma_at_pos_split(input, p + 1, with_len(d), seq![flags]);
            lemma_read_bytes_len(input, s1, d);
            let s2 = at(s1, p + 1 + with_len(d).len());
            assert(input[s2.pos] == flags) by {
                assert(input.subrange(s2.pos, s2.pos + 1)[0] == input[s2.pos]);
            }
            assert(d_next_byte(input, s2).0 == Ok::<u8, KindModel>(flags));
        },
        ValueModel::Class(c) => {
            let rest = with_len(encode_utf8(c));
            assert(e.0 =~= seq![tag_byte(Tag::ClassRef)] + rest);
            lemma_read_tag(input, st, Tag::ClassRef, rest);
            lemma_read_str_len(input, after_tag(st, Tag::ClassRef), c);
        },
        ValueModel::Module(m) => {
            let rest = with_len(encode_utf8(m));
            assert(e.0 =~= seq![tag_byte(Tag::ModuleRef)] + rest);
            lemma_read_tag(input, st, Tag::ModuleRef, rest);
            lemma_read_str_len(input, after_tag(st, Tag::ModuleRef), m);
        },
        _ => {},
    }
}

/// An array is read back as written.
#[verifier::spinoff_prover]
pub proof fn lemma_rt_array(input: Seq<u8>, st: DecodeState, v: ValueModel)
    requires
        v is Array,
        round_trips(v),
        ready(input, st),
        at_pos(input, st.pos, enc_value(st.symbols, v).0),
    ensures
        d_value(input, st).0 == Ok::<ValueModel, KindModel>(v),
        landed(st, d_value(input, st).1, enc_value(st.symbols, v).0.len() as int, enc_value(st.symbols, v).1),
    decreases v, 0int,
{
    let t = st.symbols;
    let p = st.pos;
    let e = enc_value(t, v);
    lemma_enc_value_len(t, v);
    match v {
        ValueModel::Array(a) => {
            let (b, t1) = enc_values(t, a);
            let n = packed_int(a.len() as i64);
            assert(e.0 =~= seq![tag_byte(Tag::Array)] + (n + b));
            lemma_read_tag(input, st, Tag::Array, n + b);
            lemma_at_pos_split(input, p + 1, n, b);
            lemma_enc_values_len(t, a);
            lemma_read_usize(input, after_tag(st, Tag::Array), a.len() as int);
            let s2 = at(after_tag(st, Tag::Array), p + 1 + n.len());
            lemma_rt_values(input, s2, a);
        },
        _ => {},
    }
}

/// A hash is read back as written.
#[verifier::spinoff_prover]
pub proof fn lemma_rt_hash(input: Seq<u8>, st: DecodeState, v: ValueModel)
    requires
        v is Hash,
        round_trips(v),
        ready(input, st),
        at_pos(input, st.pos, enc_value(st.symbols, v).0),
    ensures
        d_value(input, st).0 == Ok::<ValueModel, KindModel>(v),
        landed(st, d_value(input, st).1, enc_value(st.symbols, v).0.len() as int, enc_value(st.symbols, v).1),
    decreases v, 0int,
{
    let t = st.symbols;
    let p = st.pos;
    let e = enc_value(t, v);
    lemma_enc_value_len(t, v);
    match v {
        ValueModel::Hash(h) => {
            let (b, t1) = enc_pairs(t, h);
            let n = packed_int(h.len() as i64);
            assert(e.0 =~= seq![tag_byte(Tag::Hash)] + (n + b));
            lemma_read_tag(input, st, Tag::Hash, n + b);
            lemma_at_pos_split(input, p + 1, n, b);
            lemma_enc_pairs_len(t, h);
            lemma_read_usize(input, after_tag(st, Tag::Hash), h.len() as int);
            let s2 = at(after_tag(st, Tag::Hash), p + 1 + n.len());
            lemma_rt_pairs(input, s2, h);
            lemma_hash_from_distinct(h);
        },
        _ => {},
    }
}

/// An object or a struct is read back as written.
#[verifier::spinoff_prover]
#[verifier::rlimit(100)]
pub proof fn lemma_rt_object(input: Seq<u8>, st: DecodeState, v: ValueModel)
    requires
        v is Object || v is Struct,
        round_trips(v),
        ready(input, st),
        at_pos(input, st.pos, enc_value(st.symbols, v).0),
    ensures
        d_value(input, st).0 == Ok::<ValueModel, KindModel>(v),
        landed(st, d_value(input, st).1, enc_value(st.symbols, v).0.len() as int, enc_value(st.symbols, v).1),
    decreases v, 0int,
{
    let t = st.symbols;
    let p = st.pos;
    let e = enc_value(t, v);
    lemma_enc_value_len(t, v);
    match v {
        ValueModel::Object(c, f) => {
            let (cb, t1) = enc_symbol(t, c);
            let (fb, t2) = enc_fields(t1, f);
            let n = packed_int(f.len() as i64);
            assert(e.0 =~= seq![tag_byte(Tag::Object)] + (cb + (n + fb)));
            lemma_read_tag(input, st, Tag::Object, cb + (n + fb));
            lemma_at_pos_split(input, p + 1, cb, n + fb);
            lemma_at_pos_split(input, p + 1 + cb.len(), n, fb);
            let s1 = after_tag(st, Tag::Object);
            lemma_read_symbol(input, s1, c);
            lemma_enc_symbol_len(t, c);
            let s2 = after_symbol(s1, t, c);
            lemma_enc_fields_len(t1, f);
            lemma_read_usize(input, s2, f.len() as int);
            let s3 = at(s2, s2.pos + n.len());
            assert(fields_round_trip(f));
            lemma_rt_fields(input, s3, f);
            lemma_fields_from_distinct(f);
        },
        ValueModel::Struct(c, f) => {
            let (cb, t1) = enc_symbol(t, c);
            let (fb, t2) = enc_fields(t1, f);
            let n = packed_int(f.len() as i64);
            assert(e.0 =~= seq![tag_byte(Tag::Struct)] + (cb + (n + fb)));
            lemma_read_tag(input, st, Tag::Struct, cb + (n + fb));
            lemma_at_pos_split(input, p + 1, cb, n + fb);
            lemma_at_pos_split(input, p + 1 + cb.len(), n, fb);
            let s1 = after_tag(st, Tag::Struct);
            lemma_read_symbol(input, s1, c);
            lemma_enc_symbol_len(t, c);
            let s2 = after_symbol(s1, t, c);
            lemma_enc_fields_len(t1, f);
            let k = f.len() as i32;
            assert(k as i64 == f.len() as i64);
            lemma_read_packed(input, s2, k);
            let s3 = at(s2, s2.pos + n.len());
            assert(fields_round_trip(f));
            lemma_rt_fields(input, s3, f);
            lemma_fields_from_distinct(f);
        },
        _ => {},
    }
}

/// An instance is read back as written.
#[verifier::spinoff_prover]
#[verifier::rlimit(100)]
pub proof fn lemma_rt_instance(input: Seq<u8>, st: DecodeState, v: ValueModel)
    requires
        v is Instance,
        round_trips(v),
        ready(input, st),
        at_pos(input, st.pos, enc_value(st.symbols, v).0),
    ensures
        d_value(input, st).0 == Ok::<ValueModel, KindModel>(v),
        landed(st, d_value(input, st).1, enc_value(st.symbols, v).0.len() as int, enc_value(st.symbols, v).1),
    decreases v, 0int,
{
    let t = st.symbols;
    let p = st.pos;
    let e = enc_value(t, v);
    lemma_enc_value_len(t, v);
    match v {
        ValueModel::Instance(inner, f) => {
            let (vb, t1) = enc_value(t, *inner);
            let (fb, t2) = enc_fields(t1, f);
            let n = packed_int(f.len() as i64);
            assert(e.0 =~= seq![tag_byte(Tag::Instance)] + (vb + (n + fb)));
            lemma_read_tag(input, st, Tag::Instance, vb + (n + fb));
            lemma_at_pos_split(input, p + 1, vb, n + fb);
            lemma_at_pos_split(input, p + 1 + vb.len(), n, fb);
            let s1 = after_tag(st, Tag::Instance);
            let s1i = DecodeState { reading_instance: true, ..s1 };
            lemma_enc_value_len(t, *inner);
            lemma_rt_value(input, s1i, *inner);
            let s2 = d_value(input, s1i).1;
            lemma_enc_fields_len(t1, f);
            lemma_read_usize(input, s2, f.len() as int);
            let s3 = at(s2, s2.pos + n.len());
            assert(fields_round_trip(f));
            lemma_rt_fields(input, s3, f);
            lemma_fields_from_distinct(f);
        },
        _ => {},
    }
}

/// The model of a class or module name with a value inside, for the four
/// tags that carry one.
pub open spec fn wrapped(tg: Tag, c: Seq<char>, inner: ValueModel) -> ValueModel {
    match tg {
        Tag::Extended => ValueModel::Extended(c, Box::new(inner)),
        Tag::UserClass => ValueModel::UserClass(c, Box::new(inner)),
        Tag::UserMarshal => ValueModel::UserMarshal(c, Box::new(inner)),
        _ => ValueModel::Data(c, Box::new(inner)),
    }
}

/// A name and a value inside it are read back as written.
#[verifier::spinoff_prover]
pub proof fn lemma_rt_wrapped(input: Seq<u8>, st: DecodeState, tg: Tag, c: Seq<char>, inner: ValueModel)
    requires
        tg is Extended || tg is UserClass || tg is UserMarshal || tg is Data,
        round_trips(inner),
        ready(input, st),
        at_pos(input, st.pos, enc_value(st.symbols, wrapped(tg, c, inner)).0),
    ensures
        d_value(input, st).0 == Ok::<ValueModel, KindModel>(wrapped(tg, c, inner)),
        landed(
            st,
            d_value(input, st).1,
            enc_value(st.symbols, wrapped(tg, c, inner)).0.len() as int,
            enc_value(st.symbols, wrapped(tg, c, inner)).1,
        ),
    decreases wrapped(tg, c, inner), 0int,
{
    let t = st.symbols;
    let p = st.pos;
    let v = wrapped(tg, c, inner);
    let e = enc_value(t, v);
    let (cb, t1) = enc_symbol(t, c);
    let (vb, t2) = enc_value(t1, inner);
    assert(e.0 =~= seq![tag_byte(tg)] + (cb + vb));
    lemma_read_tag(input, st, tg, cb + vb);
    lemma_at_pos_split(input, p + 1, cb, vb);
    let s1 = after_tag(st, tg);
    lemma_read_symbol(input, s1, c);
    lemma_enc_symbol_len(t, c);
    let s2 = after_symbol(s1, t, c);
    lemma_rt_value(input, s2, inner);
}

/// The elements of an array are read back as written.
#[verifier::spinoff_prover]
pub proof fn lemma_rt_values(input: Seq<u8>, cur: DecodeState, s: Seq<ValueModel>)
    requires
        forall|i: int| 0 <= i < s.len() ==> round_trips(#[trigger] s[i]),
        ready(input, cur),
        at_pos(input, cur.pos, enc_values(cur.symbols, s).0),
    ensures
        d_values(input, cur, s.len()).0 == Ok::<Seq<ValueModel>, KindModel>(s),
        landed(cur, d_values(input, cur, s.len()).1, enc_values(cur.symbols, s).0.len() as int, enc_values(cur.symbols, s).1),
    decreases s, 0int,
{
    let t = cur.symbols;
    if s.len() == 0 {
        assert(d_values(input, cur, 0).0 == Ok::<Seq<ValueModel>, KindModel>(Seq::empty()));
        assert(s =~= Seq::<ValueModel>::empty());
    } else {
        lemma_enc_values_front(t, s);
        let (b1, t1) = enc_value(t, s[0]);
        let (b2, t2) = enc_values(t1, s.drop_first());
        lemma_at_pos_split(input, cur.pos, b1, b2);
        lemma_enc_value_len(t, s[0]);
        lemma_rt_value(input, cur, s[0]);
        let s1 = d_value(input, cur).1;
        let rest = s.drop_first();
        assert forall|i: int| 0 <= i < rest.len() implies round_trips(#[trigger] rest[i]) by {
            assert(rest[i] == s[i + 1]);
        }
        lemma_rt_values(input, s1, rest);
        assert(seq![s[0]] + rest =~= s);
        assert((s.len() - 1) as nat == rest.len());
    }
}

/// The entries of a hash are read back as written.
#[verifier::spinoff_prover]
pub proof fn lemma_rt_pairs(input: Seq<u8>, cur: DecodeState, s: Seq<(ValueModel, ValueModel)>)
    requires
        forall|i: int| 0 <= i < s.len() ==> round_trips(#[trigger] s[i].0) && round_trips(s[i].1),
        ready(input, cur),
        at_pos(input, cur.pos, enc_pairs(cur.symbols, s).0),
    ensures
        d_pairs(input, cur, s.len()).0 == Ok::<Seq<(ValueModel, ValueModel)>, KindModel>(s),
        landed(cur, d_pairs(input, cur, s.len()).1, enc_pairs(cur.symbols, s).0.len() as int, enc_pairs(cur.symbols, s).1),
    decreases s, 0int,
{
    let t = cur.symbols;
    if s.len() == 0 {
        assert(s =~= Seq::<(ValueModel, ValueModel)>::empty());
    } else {
        lemma_enc_pairs_front(t, s);
        let (b1, t1) = enc_value(t, s[0].0);
        let (b2, t2) = enc_value(t1, s[0].1);
        let (b3, t3) = enc_pairs(t2, s.drop_first());
        lemma_at_pos_split(input, cur.pos, b1 + b2, b3);
        lemma_at_pos_split(input, cur.pos, b1, b2);
        lemma_enc_value_len(t, s[0].0);
        lemma_enc_value_len(t1, s[0].1);
        lemma_rt_value(input, cur, s[0].0);
        let s1 = d_value(input, cur).1;
        lemma_rt_value(input, s1, s[0].1);
        let s2 = d_value(input, s1).1;
        let rest = s.drop_first();
        assert forall|i: int| 0 <= i < rest.len() implies round_trips(#[trigger] rest[i].0) && round_trips(rest[i].1) by {
            assert(rest[i] == s[i + 1]);
        }
        lemma_rt_pairs(input, s2, rest);
        assert(seq![s[0]] + rest =~= s);
        assert((s.len() - 1) as nat == rest.len());
    }
}

/// Instance variables are read back as written.
#[verifier::spinoff_prover]
pub proof fn lemma_rt_fields(input: Seq<u8>, cur: DecodeState, f: FieldsModel)
    requires
        forall|i: int| 0 <= i < f.len() ==> round_trips(#[trigger] f[i].1),
        ready(input, cur),
        at_pos(input, cur.pos, enc_fields(cur.symbols, f).0),
    ensures
        d_fields(input, cur, f.len()).0 == Ok::<FieldsModel, KindModel>(f),
        landed(cur, d_fields(input, cur, f.len()).1, enc_fields(cur.symbols, f).0.len() as int, enc_fields(cur.symbols, f).1),
    decreases f, 0int,
{
    let t = cur.symbols;
    if f.len() == 0 {
        assert(f =~= Seq::<(Seq<char>, ValueModel)>::empty());
    } else {
        lemma_enc_fields_front(t, f);
        let (b1, t1) = enc_symbol(t, f[0].0);
        let (b2, t2) = enc_value(t1, f[0].1);
        let (b3, t3) = enc_fields(t2, f.drop_first());
        lemma_at_pos_split(input, cur.pos, b1 + b2, b3);
        lemma_at_pos_split(input, cur.pos, b1, b2);
        lemma_read_symbol(input, cur, f[0].0);
        lemma_enc_symbol_len(t, f[0].0);
        let s1 = after_symbol(cur, t, f[0].0);
        lemma_enc_value_len(t1, f[0].1);
        lemma_rt_value(input, s1, f[0].1);
        let s2 = d_value(input, s1).1;
        let rest = f.drop_first();
        assert forall|i: int| 0 <= i < rest.len() implies round_trips(#[trigger] rest[i].1) by {
            assert(rest[i] == f[i + 1]);
        }
        lemma_rt_fields(input, s2, rest);
        assert(seq![f[0]] + rest =~= f);
        assert((f.len() - 1) as nat == rest.len());
    }
}

/// Round trip: the document that the writer makes of a value reads back as
/// that very value, for every value that the format carries as it is and
/// whose document fits the lengths that packed integers can carry.
pub proof fn lemma_round_trip(v: ValueModel)
    requires
        round_trips(v),
        marshal_bytes(v).len() <= max_len(),
    ensures
        d_document(marshal_bytes(v)) == Ok::<ValueModel, KindModel>(v),
{
    let input = marshal_bytes(v);
    let st = start_state();
    let e = enc_value(Seq::empty(), v).0;
    assert(input.subrange(2, 2 + e.len() as int) =~= e);
    lemma_rt_value(input, st, v);
}

/// A document that the writer made reads back as a value that the writer
/// turns into the very same document.
pub proof fn lemma_document_round_trip(v: ValueModel)
    requires
        round_trips(v),
        marshal_bytes(v).len() <= max_len(),
    ensures
        d_document(marshal_bytes(v)) matches Ok(w) && marshal_bytes(w) == marshal_bytes(v),
{
    lemma_round_trip(v);
}

} // verus!
