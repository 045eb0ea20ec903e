//! The reader: turns Marshal bytes into values.
use vstd::prelude::*;
use vstd::utf8::{decode_utf8, encode_utf8, encode_utf8_decode_utf8, valid_utf8};

use crate::de::access::{ArrayAccess, HashAccess, InstanceAccess, IvarAccess};
use crate::de::cursor::Cursor;
use crate::de::decoding::{
    advanced, at, check_float, d_bytes, d_bytes_len, d_fields, d_packed_int, d_pairs, d_register,
    d_sane, d_skip_pairs, d_str_len, d_symbol, d_symbol_either, d_symlink, d_tagged, d_usize,
    d_document, d_peek_tag, d_value, d_values, first_zero, DecodeState, Step,
};
use crate::de::error::{agrees, agrees_view, fails_with, Error, Kind, KindModel};
use crate::packed::{
    lemma_le_push, lemma_or_byte, lemma_pow256_values, lemma_set_byte, lemma_signed_byte,
    lemma_le_bound_pub, lemma_pow256_succ_pub, lemma_wrap_i32, le_value, pow256, signed_byte,
    unpack_int,
};
use crate::rb_types::sym::Sym;
use crate::tag::Tag;
use crate::value::insert::{fields_from, hash_from, insert_field, insert_pair};
use crate::rb_types::rb_string::RbString;
use crate::value::{
    field_models, models, pair_models, FieldsModel, Instance, Object, RbFields, RbHash, RbStruct,
    Userdata, Value, ValueModel,
};
use vstd::slice::slice_to_vec;

verus! {

broadcast use vstd::std_specs::vec::group_vec_axioms, vstd::seq::group_seq_axioms;

/// `std::str::from_utf8`: the bytes as text when they are valid UTF-8,
/// else std's error.
#[verifier::external_body]
fn str_from_utf8<'a>(bytes: &'a [u8]) -> (r: Result<&'a str, std::str::Utf8Error>)
    ensures
        r is Ok <==> valid_utf8(bytes@),
        r matches Ok(s) ==> encode_utf8(s@) == bytes@,
{
    std::str::from_utf8(bytes)
}

/// The alox-48 deserializer.
#[derive(Debug, Clone)]
pub struct Deserializer<'de> {
    pub(crate) cursor: Cursor<'de>,
    objtable: Vec<usize>,
    stack: Vec<usize>,
    is_reading_instance: bool,
    sym_table: Vec<Sym<'de>>,
}

impl<'de> Deserializer<'de> {
    /// The bytes being read.
    pub closed spec fn input(&self) -> Seq<u8> {
        self.cursor.input@
    }

    /// The reader's state, in terms of the model.
    pub closed spec fn state(&self) -> DecodeState {
        DecodeState {
            pos: self.cursor.position as int,
            objects: positions(self.objtable@),
            stack: positions(self.stack@),
            reading_instance: self.is_reading_instance,
            symbols: self.sym_table@.map_values(|s: Sym<'de>| s@),
        }
    }

    /// The reader is within its input, every recorded object begins inside
    /// it, and the object links being followed return to distinct places.
    pub closed spec fn wf(&self) -> bool {
        &&& self.cursor.position <= self.cursor.input@.len()
        &&& forall|i: int|
            0 <= i < self.objtable@.len() ==> #[trigger] self.objtable@[i] < self.cursor.input@.len()
        &&& forall|i: int|
            0 <= i < self.stack@.len() ==> #[trigger] self.stack@[i] <= self.cursor.input@.len()
        &&& self.stack@.no_duplicates()
    }

    /// Create a new deserializer for the given input.
    ///
    /// # Errors
    /// Errors with [`Kind::Eof`] if the input has fewer than two bytes, and
    /// with [`Kind::VersionError`] if its first two bytes (the version
    /// number, major then minor) are not `4, 8`.
    pub fn new(input: &'de [u8]) -> (r: Result<Self, Error>)
        ensures
            input@.len() < 2 ==> fails_with(r, KindModel::Eof),
            input@.len() >= 2 && (input@[0] != 4 || input@[1] != 8) ==> fails_with(
                r,
                KindModel::VersionError(input@[0], input@[1]),
            ),
            input@.len() >= 2 && input@[0] == 4 && input@[1] == 8 ==> (r matches Ok(d) && d.wf()
                && d.input() == input@ && d.state() == crate::de::decoding::start_state()),
    {
        let mut cursor = Cursor::new(input);
        if input.len() < 2 {
            return Err(Error { kind: Kind::Eof });
        }
        let v1 = cursor.next_byte()?;
        let v2 = cursor.next_byte()?;
        if v1 != 4 || v2 != 8 {
            return Err(Error { kind: Kind::VersionError([v1, v2]) });
        }
        let d = Deserializer {
            cursor,
            objtable: Vec::new(),
            sym_table: Vec::new(),
            is_reading_instance: false,
            stack: Vec::new(),
        };
        assert(d.state().objects =~= Seq::<int>::empty());
        assert(d.state().stack =~= Seq::<int>::empty());
        assert(d.state().symbols =~= Seq::<Seq<char>>::empty());
        Ok(d)
    }

    /// The place of the next byte to read. This is useful for debugging.
    pub fn current_position(&self) -> (p: usize)
        ensures
            p == self.state().pos,
    {
        self.cursor.position
    }

    /// The data that the deserializer is reading from. This is useful for debugging.
    pub fn data(&self) -> (d: &'de [u8])
        ensures
            d@ == self.input(),
    {
        self.cursor.input
    }

    pub(crate) fn read_packed_int(&mut self) -> (r: Result<i32, Error>)
        requires
            old(self).wf(),
        ensures
            final(self).wf(),
            final(self).input() == old(self).input(),
            Self::moves_on(*old(self), *final(self)),
            agrees(r, d_packed_int(old(self).input(), old(self).state()).0),
            final(self).state() == d_packed_int(old(self).input(), old(self).state()).1,
    {
        let ghost input = self.input();
        let ghost st = self.state();
        let ghost p0 = st.pos;
        let ghost bytes = input.subrange(p0, input.len() as int);
        let c_byte = self.cursor.next_byte()?;
        proof {
            lemma_signed_byte(c_byte);
            lemma_pow256_values();
            assert(bytes[0] == c_byte);
        }
        let c = c_byte as i8;
        if c == 0 {
            Ok(0)
        } else if c >= 5 {
            Ok((c - 5) as i32)
        } else if c <= -5 {
            Ok((c + 5) as i32)
        } else if c > 0 {
            let n = c as u32;
            let mut x: u32 = 0;
            let mut i: u32 = 0;
            while i < n
                invariant
                    self.wf(),
                    self.input() == input,
                    input == old(self).input(),
                    st == old(self).state(),
                    p0 == st.pos,
                    bytes == input.subrange(p0, input.len() as int),
                    bytes.len() >= 1,
                    bytes[0] == c_byte,
                    self.state() == at(st, p0 + 1 + i),
                    1 <= n <= 4,
                    n == signed_byte(c_byte),
                    i <= n,
                    0 <= p0,
                    p0 + 1 + i <= input.len(),
                    x as int == le_value(input.subrange(p0 + 1, p0 + 1 + i)),
                decreases n - i,
            {
                let ghost prefix = input.subrange(p0 + 1, p0 + 1 + i);
                proof {
                    lemma_le_bound_pub(prefix);
                }
                let b = match self.cursor.next_byte() {
                    Ok(b) => b,
                    Err(e) => {
                        assert(bytes.len() < 1 + n);
                        return Err(e);
                    },
                };
                proof {
                    lemma_or_byte(x, b, i);
                    assert(input.subrange(p0 + 1, p0 + 2 + i) =~= prefix.push(b));
                    lemma_le_push(prefix, b);
                }
                x = x | ((b as u32) << (8 * i));
                i = i + 1;
            }
            proof {
                lemma_wrap_i32(x);
                assert(bytes.subrange(1, 1 + n as int) =~= input.subrange(p0 + 1, p0 + 1 + n));
            }
            Ok(x as i32)
        } else {
            let n = (-c) as u32;
            let mut x: u32 = 0xFFFF_FFFF;
            let mut i: u32 = 0;
            while i < n
                invariant
                    self.wf(),
                    self.input() == input,
                    input == old(self).input(),
                    st == old(self).state(),
                    p0 == st.pos,
                    bytes == input.subrange(p0, input.len() as int),
                    bytes.len() >= 1,
                    bytes[0] == c_byte,
                    self.state() == at(st, p0 + 1 + i),
                    1 <= n <= 4,
                    n == -signed_byte(c_byte),
                    i <= n,
                    0 <= p0,
                    p0 + 1 + i <= input.len(),
                    x as int == le_value(input.subrange(p0 + 1, p0 + 1 + i)) + 0x1_0000_0000
                        - pow256(i as nat),
                decreases n - i,
            {
                let ghost prefix = input.subrange(p0 + 1, p0 + 1 + i);
                proof {
                    lemma_le_bound_pub(prefix);
                }
                let a = !(0xFFu32 << (8 * i));
                let b = match self.cursor.next_byte() {
                    Ok(b) => b,
                    Err(e) => {
                        assert(bytes.len() < 1 + n);
                        return Err(e);
                    },
                };
                proof {
                    lemma_set_byte(x, b, i);
                    assert(input.subrange(p0 + 1, p0 + 2 + i) =~= prefix.push(b));
                    lemma_le_push(prefix, b);
                    lemma_pow256_succ_pub(i as nat);
                }
                x = (x & a) | ((b as u32) << (8 * i));
                i = i + 1;
            }
            proof {
                lemma_wrap_i32(x);
                assert(bytes.subrange(1, 1 + n as int) =~= input.subrange(p0 + 1, p0 + 1 + n));
            }
            Ok(x as i32)
        }
    }

    pub(crate) fn read_usize(&mut self) -> (r: Result<usize, Error>)
        requires
            old(self).wf(),
        ensures
            final(self).wf(),
            final(self).input() == old(self).input(),
            Self::moves_on(*old(self), *final(self)),
            agrees(r, d_usize(old(self).input(), old(self).state()).0),
            final(self).state() == d_usize(old(self).input(), old(self).state()).1,
    {
        let raw_length = self.read_packed_int()?;
        if raw_length < 0 {
            Err(Error { kind: Kind::UnexpectedNegativeLength(raw_length) })
        } else {
            Ok(raw_length as usize)
        }
    }

    fn read_bytes_len(&mut self) -> (r: Result<&'de [u8], Error>)
        requires
            old(self).wf(),
        ensures
            final(self).wf(),
            final(self).input() == old(self).input(),
            Self::moves_on(*old(self), *final(self)),
            agrees_view(r, d_bytes_len(old(self).input(), old(self).state()).0),
            final(self).state() == d_bytes_len(old(self).input(), old(self).state()).1,
    {
        let len = self.read_usize()?;
        let r = self.cursor.next_bytes_dyn(len);
        proof {
            let st = old(self).state();
            let s1 = d_usize(old(self).input(), st).1;
            assert(self.state() == d_bytes(self.input(), s1, len).1);
        }
        r
    }

    fn read_str_len(&mut self) -> (r: Result<&'de str, Error>)
        requires
            old(self).wf(),
        ensures
            final(self).wf(),
            final(self).input() == old(self).input(),
            Self::moves_on(*old(self), *final(self)),
            agrees_view(r, d_str_len(old(self).input(), old(self).state()).0),
            final(self).state() == d_str_len(old(self).input(), old(self).state()).1,
    {
        let bytes = self.read_bytes_len()?;
        match str_from_utf8(bytes) {
            Ok(s) => {
                proof {
                    encode_utf8_decode_utf8(s@);
                }
                Ok(s)
            },
            Err(e) => Err(Error { kind: Kind::SymbolInvalidUTF8(e) }),
        }
    }

    fn read_symbol(&mut self) -> (r: Result<Sym<'de>, Error>)
        requires
            old(self).wf(),
        ensures
            final(self).wf(),
            final(self).input() == old(self).input(),
            Self::moves_on(*old(self), *final(self)),
            agrees_view(r, d_symbol(old(self).input(), old(self).state()).0),
            final(self).state() == d_symbol(old(self).input(), old(self).state()).1,
    {
        let out = self.read_str_len()?;
        let sym = Sym::new(out);
        if self.stack.len() == 0 {
            let ghost before = self.sym_table@;
            self.sym_table.push(sym);
            assert(self.sym_table@.map_values(|s: Sym<'de>| s@) =~= before.map_values(
                |s: Sym<'de>| s@,
            ).push(sym@));
        }
        Ok(sym)
    }

    fn read_symlink(&mut self) -> (r: Result<Sym<'de>, Error>)
        requires
            old(self).wf(),
        ensures
            final(self).wf(),
            final(self).input() == old(self).input(),
            Self::moves_on(*old(self), *final(self)),
            agrees_view(r, d_symlink(old(self).input(), old(self).state()).0),
            final(self).state() == d_symlink(old(self).input(), old(self).state()).1,
    {
        let index = self.read_packed_int()? as usize;
        if index < self.sym_table.len() {
            Ok(self.sym_table[index])
        } else {
            Err(Error { kind: Kind::UnresolvedSymlink(index) })
        }
    }

    pub(crate) fn read_symbol_either(&mut self) -> (r: Result<Sym<'de>, Error>)
        requires
            old(self).wf(),
        ensures
            final(self).wf(),
            final(self).input() == old(self).input(),
            Self::moves_on(*old(self), *final(self)),
            r is Ok ==> final(self).state().pos > old(self).state().pos,
            agrees_view(r, d_symbol_either(old(self).input(), old(self).state()).0),
            final(self).state() == d_symbol_either(old(self).input(), old(self).state()).1,
    {
        match self.cursor.next_tag()? {
            Tag::Symbol => self.read_symbol(),
            Tag::Symlink => self.read_symlink(),
            t => Err(Error { kind: Kind::ExpectedSymbol(t) }),
        }
    }

    fn register_obj(&mut self)
        requires
            old(self).wf(),
            old(self).state().pos < old(self).input().len(),
        ensures
            final(self).wf(),
            final(self).input() == old(self).input(),
            final(self).state() == d_register(old(self).state()),
    {
        if self.stack.len() != 0 || self.is_reading_instance {
            self.is_reading_instance = false;
            return;
        }
        let ghost before = self.objtable@;
        self.objtable.push(self.cursor.position);
        assert(positions(self.objtable@) =~= positions(before).push(old(self).state().pos));
    }

    /// The text of a float, checked to carry at most four bytes of mantissa
    /// after its zero byte.
    fn read_float_text(&mut self) -> (r: Result<&'de [u8], Error>)
        requires
            old(self).wf(),
        ensures
            final(self).wf(),
            final(self).input() == old(self).input(),
            Self::moves_on(*old(self), *final(self)),
            agrees_view(
                r,
                match d_bytes_len(old(self).input(), old(self).state()).0 {
                    Ok(b) => check_float(b),
                    Err(e) => Err(e),
                },
            ),
            final(self).state() == d_bytes_len(old(self).input(), old(self).state()).1,
    {
        let out = self.read_bytes_len()?;
        let ghost b = out@;
        let mut i: usize = 0;
        while i < out.len()
            invariant
                b == out@,
                self.wf(),
                self.input() == old(self).input(),
                self.state() == d_bytes_len(old(self).input(), old(self).state()).1,
                d_bytes_len(old(self).input(), old(self).state()).0 == Ok::<Seq<u8>, KindModel>(b),
                i <= b.len(),
                forall|j: int| 0 <= j < i ==> b[j] != 0,
            decreases b.len() - i,
        {
            if out[i] == 0 {
                proof {
                    lemma_first_zero(b);
                }
                if out.len() - (i + 1) > 4 {
                    return Err(Error { kind: Kind::ParseFloatMantissaTooLong });
                }
                return Ok(out);
            }
            i = i + 1;
        }
        proof {
            lemma_first_zero(b);
        }
        Ok(out)
    }
}

/// `first_zero` is the place of the first zero byte.
pub proof fn lemma_first_zero(b: Seq<u8>)
    ensures
        -1 <= first_zero(b) < b.len(),
        first_zero(b) >= 0 ==> b[first_zero(b)] == 0,
        forall|j: int| 0 <= j < b.len() && (first_zero(b) < 0 || j < first_zero(b)) ==> b[j] != 0,
    decreases b.len(),
{
    if b.len() > 0 && b[0] != 0 {
        lemma_first_zero(b.drop_first());
        assert forall|j: int| 0 < j < b.len() implies b[j] == b.drop_first()[j - 1] by {}
    }
}

/// A sequence of distinct numbers from `0..hi` has at most `hi` members.
pub proof fn lemma_distinct_in_range(s: Seq<int>, hi: int)
    requires
        s.no_duplicates(),
        hi >= 0,
        forall|i: int| 0 <= i < s.len() ==> 0 <= #[trigger] s[i] < hi,
    ensures
        s.len() <= hi,
{
    s.unique_seq_to_set();
    vstd::set_lib::lemma_int_range(0, hi);
    assert(s.to_set().subset_of(vstd::set_lib::set_int_range(0, hi)));
    vstd::set_lib::lemma_len_subset(s.to_set(), vstd::set_lib::set_int_range(0, hi));
}

/// Values read in a row, after those already read (`acc`).
pub open spec fn prepend_values(acc: Seq<ValueModel>, r: Step<Seq<ValueModel>>) -> Step<
    Seq<ValueModel>,
> {
    match r.0 {
        Ok(rest) => (Ok(acc + rest), r.1),
        Err(e) => (Err(e), r.1),
    }
}

/// Hash entries read in a row, after `done` of them already read (`acc`).
pub open spec fn prepend_pairs(
    acc: Seq<(ValueModel, ValueModel)>,
    done: nat,
    r: (Result<Seq<(ValueModel, ValueModel)>, KindModel>, DecodeState, nat),
) -> (Result<Seq<(ValueModel, ValueModel)>, KindModel>, DecodeState, nat) {
    match r.0 {
        Ok(rest) => (Ok(acc + rest), r.1, done + r.2),
        Err(e) => (Err(e), r.1, done + r.2),
    }
}

/// Instance variables read in a row, after those already read (`acc`).
pub open spec fn prepend_fields(acc: FieldsModel, r: Step<FieldsModel>) -> Step<FieldsModel> {
    match r.0 {
        Ok(rest) => (Ok(acc + rest), r.1),
        Err(e) => (Err(e), r.1),
    }
}

/// Input positions as numbers.
pub open spec fn positions(s: Seq<usize>) -> Seq<int> {
    s.map_values(|p: usize| p as int)
}

/// Positions are equal when their models are.
proof fn lemma_positions_eq(a: Seq<usize>, b: Seq<usize>)
    requires
        positions(a) == positions(b),
    ensures
        a == b,
{
    assert(positions(a).len() == a.len());
    assert(positions(b).len() == b.len());
    assert forall|i: int| 0 <= i < a.len() implies a[i] == b[i] by {
        assert(positions(a)[i] == a[i] as int);
        assert(positions(b)[i] == b[i] as int);
    }
    assert(a =~= b);
}

fn stack_contains(stack: &Vec<usize>, p: usize) -> (r: bool)
    ensures
        r == stack@.contains(p),
{
    let mut i: usize = 0;
    while i < stack.len()
        invariant
            i <= stack@.len(),
            forall|j: int| 0 <= j < i ==> stack@[j] != p,
        decreases stack@.len() - i,
    {
        if stack[i] == p {
            return true;
        }
        i = i + 1;
    }
    false
}

impl<'de> Deserializer<'de> {
    /// The step from `old` to `new` follows no new object link and only
    /// moves forward, within the input.
    pub open spec fn moves_on(old: Self, new: Self) -> bool {
        &&& new.state().stack == old.state().stack
        &&& old.state().pos <= new.state().pos <= old.input().len()
    }

    /// What the reader promises of a step from `old` to `new` that read one
    /// value with result `r`.
    pub open spec fn value_step(old: Self, new: Self, r: Result<Value, Error>) -> bool {
        &&& new.wf()
        &&& new.input() == old.input()
        &&& agrees_view(r, d_value(old.input(), old.state()).0)
        &&& new.state() == d_value(old.input(), old.state()).1
        &&& new.state().stack == old.state().stack
        &&& old.state().pos <= new.state().pos <= old.input().len()
        &&& (r is Ok ==> new.state().pos > old.state().pos)
    }

    pub(crate) proof fn lemma_sane(&self)
        requires
            self.wf(),
        ensures
            d_sane(self.input(), self.state()),
            self.state().stack.len() <= self.input().len() + 1,
    {
        let s = self.state().stack;
        assert forall|i: int, j: int|
            0 <= i < s.len() && 0 <= j < s.len() && i != j implies s[i] != s[j] by {
            assert(self.stack@[i] != self.stack@[j]);
        }
        assert forall|i: int| 0 <= i < s.len() implies 0 <= #[trigger] s[i] < self.input().len()
            + 1 by {
            assert(self.stack@[i] <= self.cursor.input@.len());
        }
        lemma_distinct_in_range(s, self.input().len() + 1int);
    }
}

/// One more value read after `acc`.
proof fn lemma_prepend_values_step(acc: Seq<ValueModel>, x: ValueModel, r: Step<Seq<ValueModel>>)
    ensures
        prepend_values(
            acc,
            match r.0 {
                Ok(rest) => (Ok(seq![x] + rest), r.1),
                Err(e) => (Err(e), r.1),
            },
        ) == prepend_values(acc.push(x), r),
{
    if let Ok(rest) = r.0 {
        assert(acc + (seq![x] + rest) =~= acc.push(x) + rest);
    }
}

/// One more hash entry read after `acc`.
proof fn lemma_prepend_pairs_step(
    acc: Seq<(ValueModel, ValueModel)>,
    done: nat,
    x: (ValueModel, ValueModel),
    r: (Result<Seq<(ValueModel, ValueModel)>, KindModel>, DecodeState, nat),
)
    ensures
        prepend_pairs(
            acc,
            done,
            match r.0 {
                Ok(rest) => (Ok(seq![x] + rest), r.1, r.2 + 1),
                Err(e) => (Err(e), r.1, r.2 + 1),
            },
        ) == prepend_pairs(acc.push(x), done + 1, r),
{
    if let Ok(rest) = r.0 {
        assert(acc + (seq![x] + rest) =~= acc.push(x) + rest);
    }
}

/// One more instance variable read after `acc`.
proof fn lemma_prepend_fields_step(acc: FieldsModel, x: (Seq<char>, ValueModel), r: Step<FieldsModel>)
    ensures
        prepend_fields(
            acc,
            match r.0 {
                Ok(rest) => (Ok(seq![x] + rest), r.1),
                Err(e) => (Err(e), r.1),
            },
        ) == prepend_fields(acc.push(x), r),
{
    if let Ok(rest) = r.0 {
        assert(acc + (seq![x] + rest) =~= acc.push(x) + rest);
    }
}

impl<'de> Deserializer<'de> {
    /// What the reader promises of the rest of a value after its tag `t`;
    /// `st` is the state before the tag.
    pub open spec fn tagged_step(
        st: DecodeState,
        t: Tag,
        old: Self,
        new: Self,
        r: Result<Value, Error>,
    ) -> bool {
        &&& new.wf()
        &&& new.input() == old.input()
        &&& agrees_view(r, d_tagged(old.input(), st, old.state(), t).0)
        &&& new.state() == d_tagged(old.input(), st, old.state(), t).1
        &&& new.state().stack == st.stack
        &&& st.pos < new.state().pos <= old.input().len()
    }

    fn decode_fields(&mut self, len: usize, Ghost(st): Ghost<DecodeState>) -> (r: Result<
        RbFields,
        Error,
    >)
        requires
            old(self).wf(),
            d_sane(old(self).input(), st),
            advanced(old(self).input(), st, old(self).state()),
        ensures
            final(self).wf(),
            final(self).input() == old(self).input(),
            final(self).state().stack == st.stack,
            st.pos < final(self).state().pos <= old(self).input().len(),
            final(self).state() == d_fields(old(self).input(), old(self).state(), len as nat).1,
            match d_fields(old(self).input(), old(self).state(), len as nat).0 {
                Ok(e) => r matches Ok(f) && field_models(f@) == fields_from(e),
                Err(k) => fails_with(r, k),
            },
        decreases self.cursor.input@.len() + 2 - st.stack.len(), self.cursor.input@.len() - st.pos, 0int,
    {
        let ghost input = self.input();
        let ghost s0 = self.state();
        let mut fields: RbFields = Vec::new();
        let ghost mut acc: FieldsModel = Seq::empty();
        let mut index: usize = 0;
        assert(prepend_fields(acc, d_fields(input, s0, len as nat)) == d_fields(input, s0, len as nat)) by {
            if let Ok(rest) = d_fields(input, s0, len as nat).0 {
                assert(acc + rest =~= rest);
            }
        }
        while index < len
            invariant
                self.wf(),
                self.input() == input,
                input == old(self).input(),
                s0 == old(self).state(),
                d_sane(input, st),
                advanced(input, st, self.state()),
                index <= len,
                field_models(fields@) == fields_from(acc),
                d_fields(input, s0, len as nat) == prepend_fields(
                    acc,
                    d_fields(input, self.state(), (len - index) as nat),
                ),
            decreases len - index,
        {
            index = index + 1;
            let ghost cur = self.state();
            proof {
                self.lemma_sane();
            }
            let k = self.read_symbol_either()?;
            let v = self.decode()?;
            proof {
                let x = (k@, v@);
                lemma_prepend_fields_step(acc, x, d_fields(input, self.state(), (len - index) as nat));
                assert(acc.push(x).drop_last() =~= acc);
                acc = acc.push(x);
            }
            insert_field(&mut fields, k.to_symbol(), v);
        }
        assert(acc + Seq::<(Seq<char>, ValueModel)>::empty() =~= acc);
        Ok(fields)
    }

    fn decode_array(&mut self, Ghost(st): Ghost<DecodeState>) -> (r: Result<Value, Error>)
        requires
            old(self).wf(),
            d_sane(old(self).input(), st),
            advanced(old(self).input(), st, old(self).state()),
        ensures
            Self::tagged_step(st, Tag::Array, *old(self), *final(self), r),
        decreases self.cursor.input@.len() + 2 - st.stack.len(), self.cursor.input@.len() - st.pos, 1int,
    {
        let ghost input = self.input();
        let len = self.read_usize()?;
        let ghost s2 = self.state();
        let mut array: Vec<Value> = Vec::new();
        let ghost mut acc: Seq<ValueModel> = Seq::empty();
        let mut index: usize = 0;
        assert(prepend_values(acc, d_values(input, s2, len as nat)) == d_values(input, s2, len as nat)) by {
            if let Ok(rest) = d_values(input, s2, len as nat).0 {
                assert(acc + rest =~= rest);
            }
        }
        while index < len
            invariant
                self.wf(),
                self.input() == input,
                input == old(self).input(),
                d_sane(input, st),
                advanced(input, st, self.state()),
                index <= len,
                models(array@) == acc,
                advanced(input, st, old(self).state()),
                d_usize(input, old(self).state()).0 == Ok::<usize, KindModel>(len),
                d_usize(input, old(self).state()).1 == s2,
                d_values(input, s2, len as nat) == prepend_values(
                    acc,
                    d_values(input, self.state(), (len - index) as nat),
                ),
            decreases len - index,
        {
            index = index + 1;
            proof {
                self.lemma_sane();
            }
            let v = self.decode()?;
            proof {
                lemma_prepend_values_step(acc, v@, d_values(input, self.state(), (len - index) as nat));
                assert(array@.push(v).subrange(0, array@.len() as int) =~= array@);
                acc = acc.push(v@);
            }
            array.push(v);
        }
        assert(acc + Seq::<ValueModel>::empty() =~= acc);
        Ok(Value::Array(array))
    }

    fn decode_hash(&mut self, Ghost(st): Ghost<DecodeState>) -> (r: Result<Value, Error>)
        requires
            old(self).wf(),
            d_sane(old(self).input(), st),
            advanced(old(self).input(), st, old(self).state()),
        ensures
            Self::tagged_step(st, Tag::Hash, *old(self), *final(self), r),
        decreases self.cursor.input@.len() + 2 - st.stack.len(), self.cursor.input@.len() - st.pos, 1int,
    {
        let ghost input = self.input();
        let len = self.read_usize()?;
        let ghost s2 = self.state();
        let mut hash: RbHash = Vec::new();
        let ghost mut acc: Seq<(ValueModel, ValueModel)> = Seq::empty();
        let mut index: usize = 0;
        assert(prepend_pairs(acc, 0, d_pairs(input, s2, len as nat)) == d_pairs(input, s2, len as nat)) by {
            if let Ok(rest) = d_pairs(input, s2, len as nat).0 {
                assert(acc + rest =~= rest);
            }
        }
        while index < len
            invariant
                self.wf(),
                self.input() == input,
                input == old(self).input(),
                d_sane(input, st),
                advanced(input, st, self.state()),
                index <= len,
                pair_models(hash@) == hash_from(acc),
                advanced(input, st, old(self).state()),
                d_usize(input, old(self).state()).0 == Ok::<usize, KindModel>(len),
                d_usize(input, old(self).state()).1 == s2,
                d_pairs(input, s2, len as nat) == prepend_pairs(
                    acc,
                    index as nat,
                    d_pairs(input, self.state(), (len - index) as nat),
                ),
            decreases len - index,
        {
            index = index + 1;
            proof {
                self.lemma_sane();
            }
            let k = self.decode()?;
            proof {
                self.lemma_sane();
            }
            let v = self.decode()?;
            proof {
                let x = (k@, v@);
                lemma_prepend_pairs_step(
                    acc,
                    (index - 1) as nat,
                    x,
                    d_pairs(input, self.state(), (len - index) as nat),
                );
                assert(acc.push(x).drop_last() =~= acc);
                acc = acc.push(x);
            }
            insert_pair(&mut hash, k, v);
        }
        assert(acc + Seq::<(ValueModel, ValueModel)>::empty() =~= acc);
        Ok(Value::Hash(hash))
    }
}

impl<'de> Deserializer<'de> {
    fn decode_hash_default(&mut self, Ghost(st): Ghost<DecodeState>) -> (r: Result<Value, Error>)
        requires
            old(self).wf(),
            d_sane(old(self).input(), st),
            advanced(old(self).input(), st, old(self).state()),
        ensures
            Self::tagged_step(st, Tag::HashDefault, *old(self), *final(self), r),
        decreases self.cursor.input@.len() + 2 - st.stack.len(), self.cursor.input@.len() - st.pos, 1int,
    {
        let ghost input = self.input();
        let raw = self.read_packed_int()?;
        let len = raw as usize;
        let ghost s2 = self.state();
        let mut hash: RbHash = Vec::new();
        let ghost mut acc: Seq<(ValueModel, ValueModel)> = Seq::empty();
        let mut index: usize = 0;
        let mut failure: Option<Error> = None;
        assert(prepend_pairs(acc, 0, d_pairs(input, s2, len as nat)) == d_pairs(input, s2, len as nat)) by {
            if let Ok(rest) = d_pairs(input, s2, len as nat).0 {
                assert(acc + rest =~= rest);
            }
        }
        // The entries, until one fails.
        while index < len && failure.is_none()
            invariant
                self.wf(),
                self.input() == input,
                input == old(self).input(),
                d_sane(input, st),
                advanced(input, st, self.state()),
                index <= len,
                pair_models(hash@) == hash_from(acc),
                advanced(input, st, old(self).state()),
                d_packed_int(input, old(self).state()).0 == Ok::<i32, KindModel>(raw),
                d_packed_int(input, old(self).state()).1 == s2,
                len == raw as usize,
                failure is None ==> d_pairs(input, s2, len as nat) == prepend_pairs(
                    acc,
                    index as nat,
                    d_pairs(input, self.state(), (len - index) as nat),
                ),
                failure matches Some(e) ==> d_pairs(input, s2, len as nat) == (
                    Err::<Seq<(ValueModel, ValueModel)>, KindModel>(e@),
                    self.state(),
                    index as nat,
                ),
            decreases len - index,
        {
            index = index + 1;
            proof {
                self.lemma_sane();
            }
            match self.decode() {
                Err(e) => {
                    failure = Some(e);
                },
                Ok(k) => {
                    proof {
                        self.lemma_sane();
                    }
                    match self.decode() {
                        Err(e) => {
                            failure = Some(e);
                        },
                        Ok(v) => {
                            proof {
                                let x = (k@, v@);
                                lemma_prepend_pairs_step(
                                    acc,
                                    (index - 1) as nat,
                                    x,
                                    d_pairs(input, self.state(), (len - index) as nat),
                                );
                                assert(acc.push(x).drop_last() =~= acc);
                                acc = acc.push(x);
                            }
                            insert_pair(&mut hash, k, v);
                        },
                    }
                },
            }
        }
        let ghost s3 = self.state();
        let ghost count = index as nat;
        assert(failure is None ==> d_pairs(input, s2, len as nat) == (
            Ok::<Seq<(ValueModel, ValueModel)>, KindModel>(acc),
            s3,
            len as nat,
        )) by {
            if failure is None {
                assert(acc + Seq::<(ValueModel, ValueModel)>::empty() =~= acc);
            }
        }
        // The entries left after a failure are read and dropped.
        while index < len
            invariant
                self.wf(),
                self.input() == input,
                input == old(self).input(),
                d_sane(input, st),
                advanced(input, st, self.state()),
                index <= len,
                count <= index,
                failure is None ==> index == len,
                advanced(input, st, old(self).state()),
                d_packed_int(input, old(self).state()).0 == Ok::<i32, KindModel>(raw),
                d_packed_int(input, old(self).state()).1 == s2,
                len == raw as usize,
                advanced(input, st, s3),
                pair_models(hash@) == hash_from(acc),
                failure is None ==> d_pairs(input, s2, len as nat) == (
                    Ok::<Seq<(ValueModel, ValueModel)>, KindModel>(acc),
                    s3,
                    len as nat,
                ),
                failure matches Some(e) ==> d_pairs(input, s2, len as nat) == (
                    Err::<Seq<(ValueModel, ValueModel)>, KindModel>(e@),
                    s3,
                    count,
                ),
                d_skip_pairs(input, s3, (len - count) as nat) == d_skip_pairs(
                    input,
                    self.state(),
                    (len - index) as nat,
                ),
            decreases len - index,
        {
            index = index + 1;
            proof {
                self.lemma_sane();
            }
            self.decode()?;
            proof {
                self.lemma_sane();
            }
            self.decode()?;
        }
        proof {
            self.lemma_sane();
        }
        // The default value is read and dropped.
        self.decode()?;
        match failure {
            Some(e) => Err(e),
            None => {
                assert(acc + Seq::<(ValueModel, ValueModel)>::empty() =~= acc);
                Ok(Value::Hash(hash))
            },
        }
    }

    fn decode_instance(&mut self, Ghost(st): Ghost<DecodeState>) -> (r: Result<Value, Error>)
        requires
            old(self).wf(),
            d_sane(old(self).input(), st),
            advanced(old(self).input(), st, old(self).state()),
        ensures
            Self::tagged_step(st, Tag::Instance, *old(self), *final(self), r),
        decreases self.cursor.input@.len() + 2 - st.stack.len(), self.cursor.input@.len() - st.pos, 1int,
    {
        self.is_reading_instance = true;
        proof {
            self.lemma_sane();
        }
        let value = self.decode()?;
        let len = self.read_usize()?;
        let fields = self.decode_fields(len, Ghost(st))?;
        Ok(Value::Instance(Instance { value: Box::new(value), fields }))
    }

    fn decode_object(&mut self, Ghost(st): Ghost<DecodeState>) -> (r: Result<Value, Error>)
        requires
            old(self).wf(),
            d_sane(old(self).input(), st),
            advanced(old(self).input(), st, old(self).state()),
        ensures
            Self::tagged_step(st, Tag::Object, *old(self), *final(self), r),
        decreases self.cursor.input@.len() + 2 - st.stack.len(), self.cursor.input@.len() - st.pos, 1int,
    {
        let class = self.read_symbol_either()?;
        let len = self.read_usize()?;
        let fields = self.decode_fields(len, Ghost(st))?;
        Ok(Value::Object(Object { class: class.to_symbol(), fields }))
    }

    fn decode_struct(&mut self, Ghost(st): Ghost<DecodeState>) -> (r: Result<Value, Error>)
        requires
            old(self).wf(),
            d_sane(old(self).input(), st),
            advanced(old(self).input(), st, old(self).state()),
        ensures
            Self::tagged_step(st, Tag::Struct, *old(self), *final(self), r),
        decreases self.cursor.input@.len() + 2 - st.stack.len(), self.cursor.input@.len() - st.pos, 1int,
    {
        let name = self.read_symbol_either()?;
        let raw = self.read_packed_int()?;
        let fields = self.decode_fields(raw as usize, Ghost(st))?;
        Ok(Value::RbStruct(RbStruct { class: name.to_symbol(), fields }))
    }

    #[verifier::rlimit(60)]
    fn decode_link(&mut self, Ghost(st): Ghost<DecodeState>) -> (r: Result<Value, Error>)
        requires
            old(self).wf(),
            d_sane(old(self).input(), st),
            advanced(old(self).input(), st, old(self).state()),
        ensures
            Self::tagged_step(st, Tag::ObjectLink, *old(self), *final(self), r),
        decreases self.cursor.input@.len() + 2 - st.stack.len(), self.cursor.input@.len() - st.pos, 1int,
    {
        let ghost input = self.input();
        let index = self.read_usize()?;
        let ghost s2 = self.state();
        if index >= self.objtable.len() {
            return Err(Error { kind: Kind::UnresolvedObjectlink(index) });
        }
        let jump_target = self.objtable[index];
        let here = self.cursor.position;
        if stack_contains(&self.stack, here) {
            assert(s2.stack.contains(s2.pos)) by {
                let j = choose|j: int| 0 <= j < self.stack@.len() && self.stack@[j] == here;
                assert(s2.stack[j] == s2.pos);
            }
            return Err(Error { kind: Kind::CircularReference });
        }
        proof {
            assert(!s2.stack.contains(s2.pos)) by {
                if s2.stack.contains(s2.pos) {
                    let j = choose|j: int| 0 <= j < s2.stack.len() && s2.stack[j] == s2.pos;
                    assert(self.stack@[j] == here);
                }
            }
            let grown = positions(self.stack@.push(here));
            assert(self.stack@.push(here).no_duplicates());
            lemma_distinct_in_range(grown, input.len() + 1int);
        }
        let ghost before = self.stack@;
        self.stack.push(here);
        self.cursor.seek(jump_target);
        proof {
            assert(positions(self.stack@) =~= s2.stack.push(s2.pos));
            assert(self.objtable@[index as int] == s2.objects[index as int]);
        }
        let result = self.decode();
        proof {
            assert(positions(before.push(here)) =~= positions(before).push(here as int));
            lemma_positions_eq(self.stack@, before.push(here));
        }
        let back = match self.stack.pop() {
            Some(b) => b,
            None => {
                assert(false);
                0
            },
        };
        self.cursor.seek(back);
        assert(self.stack@ =~= before);
        result
    }

    fn decode_wrapped(&mut self, t: Tag, Ghost(st): Ghost<DecodeState>) -> (r: Result<Value, Error>)
        requires
            old(self).wf(),
            d_sane(old(self).input(), st),
            advanced(old(self).input(), st, old(self).state()),
            t is Extended || t is UserClass || t is UserMarshal || t is Data,
        ensures
            Self::tagged_step(st, t, *old(self), *final(self), r),
        decreases self.cursor.input@.len() + 2 - st.stack.len(), self.cursor.input@.len() - st.pos, 1int,
    {
        let class = self.read_symbol_either()?;
        proof {
            self.lemma_sane();
        }
        let value = self.decode()?;
        let class = class.to_symbol();
        let value = Box::new(value);
        match t {
            Tag::Extended => Ok(Value::Extended { module: class, value }),
            Tag::UserClass => Ok(Value::UserClass { class, value }),
            Tag::UserMarshal => Ok(Value::UserMarshal { class, value }),
            _ => Ok(Value::Data { class, value }),
        }
    }

    /// Reads the next value from the input.
    ///
    /// # Errors
    /// Errors where the bytes from the current position on are not a value
    /// of the format; `value_step` says which error comes for which input.
    pub fn deserialize_value(&mut self) -> (r: Result<Value, Error>)
        requires
            old(self).wf(),
        ensures
            Self::value_step(*old(self), *final(self), r),
    {
        self.decode()
    }

    /// Reads an optional value: `nil` is `None`, any other value is `Some`.
    ///
    /// # Errors
    /// The errors of reading a tag, and of [`Self::deserialize_value`].
    pub fn deserialize_option(&mut self) -> (r: Result<Option<Value>, Error>)
        requires
            old(self).wf(),
        ensures
            final(self).wf(),
            final(self).input() == old(self).input(),
            ({
                let input = old(self).input();
                let st = old(self).state();
                match d_peek_tag(input, st) {
                    Err(k) => (r matches Err(e) && e@ == k) && final(self).state() == st,
                    Ok(Tag::Nil) => r matches Ok(None) && final(self).state() == at(st, st.pos + 1),
                    Ok(_) => final(self).state() == d_value(input, st).1 && match (
                        r,
                        d_value(input, st).0,
                    ) {
                        (Ok(Some(v)), Ok(m)) => v@ == m,
                        (Err(e), Err(k)) => e@ == k,
                        _ => false,
                    },
                }
            }),
    {
        let t = self.cursor.peek_tag()?;
        if t == Tag::Nil {
            self.cursor.next_byte()?;
            Ok(None)
        } else {
            let v = self.deserialize_value()?;
            Ok(Some(v))
        }
    }

    /// Reads a value with the instance variables attached to it: for an
    /// instance, its value and its variables; for any other value, the value
    /// with no variables.
    ///
    /// # Errors
    /// The errors of [`Self::deserialize_value`].
    pub fn deserialize_instance(&mut self) -> (r: Result<Instance<Box<Value>>, Error>)
        requires
            old(self).wf(),
        ensures
            final(self).wf(),
            final(self).input() == old(self).input(),
            ({
                let input = old(self).input();
                let st = old(self).state();
                match d_peek_tag(input, st) {
                    Err(k) => (r matches Err(e) && e@ == k) && final(self).state() == st,
                    Ok(t) => final(self).state() == d_value(input, st).1 && match (
                        r,
                        d_value(input, st).0,
                    ) {
                        (Ok(i), Ok(m)) => if t is Instance {
                            m == ValueModel::Instance(Box::new((*i.value)@), field_models(i.fields@))
                        } else {
                            m == (*i.value)@ && i.fields@.len() == 0
                        },
                        (Err(e), Err(k)) => e@ == k,
                        _ => false,
                    },
                }
            }),
    {
        let t = self.cursor.peek_tag()?;
        let v = self.deserialize_value()?;
        if t == Tag::Instance {
            match v {
                Value::Instance(i) => Ok(i),
                other => {
                    proof {
                        assert(d_value(old(self).input(), old(self).state()).0 matches Ok(m) && m is Instance);
                    }
                    Ok(Instance { value: Box::new(other), fields: Vec::new() })
                },
            }
        } else {
            Ok(Instance { value: Box::new(v), fields: Vec::new() })
        }
    }

    /// Reads one value, with its tag.
    fn decode(&mut self) -> (r: Result<Value, Error>)
        requires
            old(self).wf(),
        ensures
            Self::value_step(*old(self), *final(self), r),
        decreases self.cursor.input@.len() + 2 - self.stack@.len(), self.cursor.input@.len()
            - self.cursor.position, 3int,
    {
        proof {
            self.lemma_sane();
        }
        let ghost st = self.state();
        let ghost input = self.input();
        let t0 = self.cursor.peek_tag()?;
        if t0.is_object_link_referenceable() {
            self.register_obj();
        }
        let t = self.cursor.next_tag()?;
        self.decode_tagged(t, Ghost(st))
    }

    /// Reads the rest of a value after its tag `t`; `st` is the state before
    /// the tag.
    fn decode_tagged(&mut self, t: Tag, Ghost(st): Ghost<DecodeState>) -> (r: Result<Value, Error>)
        requires
            old(self).wf(),
            d_sane(old(self).input(), st),
            advanced(old(self).input(), st, old(self).state()),
        ensures
            Self::tagged_step(st, t, *old(self), *final(self), r),
        decreases self.cursor.input@.len() + 2 - st.stack.len(), self.cursor.input@.len() - st.pos, 2int,
    {
        match t {
            Tag::Nil => Ok(Value::Nil),
            Tag::True => Ok(Value::Bool(true)),
            Tag::False => Ok(Value::Bool(false)),
            Tag::Integer => {
                let i = self.read_packed_int()?;
                Ok(Value::Integer(i))
            },
            Tag::Float => {
                let text = self.read_float_text()?;
                Ok(Value::Float(slice_to_vec(text)))
            },
            Tag::String => {
                let data = self.read_bytes_len()?;
                Ok(Value::String(RbString { data: slice_to_vec(data) }))
            },
            Tag::Symbol => {
                let s = self.read_symbol()?;
                Ok(Value::Symbol(s.to_symbol()))
            },
            Tag::Symlink => {
                let s = self.read_symlink()?;
                Ok(Value::Symbol(s.to_symbol()))
            },
            Tag::ClassRef => {
                let c = self.read_str_len()?;
                Ok(Value::Class(Sym::new(c).to_symbol()))
            },
            Tag::ModuleRef => {
                let m = self.read_str_len()?;
                Ok(Value::Module(Sym::new(m).to_symbol()))
            },
            Tag::RawRegexp => {
                let regex = self.read_bytes_len()?;
                let flags = self.cursor.next_byte()?;
                Ok(Value::Regex { data: RbString { data: slice_to_vec(regex) }, flags })
            },
            Tag::UserDef => {
                let class = self.read_symbol_either()?;
                let data = self.read_bytes_len()?;
                Ok(Value::Userdata(Userdata { class: class.to_symbol(), data: slice_to_vec(data) }))
            },
            Tag::Array => self.decode_array(Ghost(st)),
            Tag::Hash => self.decode_hash(Ghost(st)),
            Tag::HashDefault => self.decode_hash_default(Ghost(st)),
            Tag::Instance => self.decode_instance(Ghost(st)),
            Tag::Object => self.decode_object(Ghost(st)),
            Tag::Struct => self.decode_struct(Ghost(st)),
            Tag::ObjectLink => self.decode_link(Ghost(st)),
            _ => self.decode_wrapped(t, Ghost(st)),
        }
    }
}

impl<'de> Deserializer<'de> {
    /// Starts reading an array entry by entry: when the next value is an
    /// array, reads its tag and length; for any other value, reads nothing
    /// and gives `None`.
    ///
    /// # Errors
    /// The errors of reading the tag and the length.
    pub fn begin_array(&mut self) -> (r: Result<Option<ArrayAccess>, Error>)
        requires
            old(self).wf(),
        ensures
            final(self).wf(),
            final(self).input() == old(self).input(),
            ({
                let input = old(self).input();
                let st = old(self).state();
                match d_peek_tag(input, st) {
                    Err(k) => fails_with(r, k) && final(self).state() == st,
                    Ok(Tag::Array) => {
                        let (rl, s2) = d_usize(input, at(d_register(st), st.pos + 1));
                        final(self).state() == s2 && match rl {
                            Ok(n) => r matches Ok(Some(a)) && a.length() == n && a.taken() == 0,
                            Err(k) => fails_with(r, k),
                        }
                    },
                    Ok(_) => r matches Ok(None) && final(self).state() == st,
                }
            }),
    {
        let t = self.cursor.peek_tag()?;
        match t {
            Tag::Array => {
                self.register_obj();
                self.cursor.next_tag()?;
                let len = self.read_usize()?;
                Ok(Some(ArrayAccess::new(len)))
            },
            _ => Ok(None),
        }
    }

    /// Starts reading a hash entry by entry: when the next value is a hash
    /// without a default, reads its tag and length; for any other value,
    /// reads nothing and gives `None`.
    ///
    /// # Errors
    /// The errors of reading the tag and the length.
    pub fn begin_hash(&mut self) -> (r: Result<Option<HashAccess>, Error>)
        requires
            old(self).wf(),
        ensures
            final(self).wf(),
            final(self).input() == old(self).input(),
            ({
                let input = old(self).input();
                let st = old(self).state();
                match d_peek_tag(input, st) {
                    Err(k) => fails_with(r, k) && final(self).state() == st,
                    Ok(Tag::Hash) => {
                        let (rl, s2) = d_usize(input, at(d_register(st), st.pos + 1));
                        final(self).state() == s2 && match rl {
                            Ok(n) => r matches Ok(Some(a)) && a.length() == n && a.taken() == 0
                                && a.expects_key() && !a.has_default(),
                            Err(k) => fails_with(r, k),
                        }
                    },
                    Ok(_) => r matches Ok(None) && final(self).state() == st,
                }
            }),
    {
        let t = self.cursor.peek_tag()?;
        match t {
            Tag::Hash => {
                self.register_obj();
                self.cursor.next_tag()?;
                let len = self.read_usize()?;
                Ok(Some(HashAccess::new(len, false)))
            },
            _ => Ok(None),
        }
    }
}

impl<'de> Deserializer<'de> {
    /// Starts reading an object instance variable by instance variable: when
    /// the next value is an object, reads its tag, its class and its count of
    /// instance variables; for any other value, reads nothing and gives
    /// `None`.
    ///
    /// # Errors
    /// The errors of reading the tag, the class and the count.
    pub fn begin_object(&mut self) -> (r: Result<Option<(Sym<'de>, IvarAccess)>, Error>)
        requires
            old(self).wf(),
        ensures
            final(self).wf(),
            final(self).input() == old(self).input(),
            ({
                let input = old(self).input();
                let st = old(self).state();
                match d_peek_tag(input, st) {
                    Err(k) => fails_with(r, k) && final(self).state() == st,
                    Ok(Tag::Object) => {
                        let (rc, s2) = d_symbol_either(input, at(d_register(st), st.pos + 1));
                        match rc {
                            Err(k) => fails_with(r, k) && final(self).state() == s2,
                            Ok(c) => {
                                let (rl, s3) = d_usize(input, s2);
                                final(self).state() == s3 && match rl {
                                    Ok(n) => r matches Ok(Some((class, a))) && class@ == c
                                        && a.length() == n && a.taken() == 0 && a.expects_key(),
                                    Err(k) => fails_with(r, k),
                                }
                            },
                        }
                    },
                    Ok(_) => r matches Ok(None) && final(self).state() == st,
                }
            }),
    {
        let t = self.cursor.peek_tag()?;
        match t {
            Tag::Object => {
                self.register_obj();
                self.cursor.next_tag()?;
                let class = self.read_symbol_either()?;
                let len = self.read_usize()?;
                Ok(Some((class, IvarAccess::new(len))))
            },
            _ => Ok(None),
        }
    }
}

impl<'de> Deserializer<'de> {
    /// Starts reading a hash with a default value entry by entry: when the
    /// next value is one, reads its tag and length; for any other value,
    /// reads nothing and gives `None`. The length is read as a signed
    /// integer and cast, as the whole-value reader does.
    ///
    /// # Errors
    /// The errors of reading the tag and the length.
    pub fn begin_hash_default(&mut self) -> (r: Result<Option<HashAccess>, Error>)
        requires
            old(self).wf(),
        ensures
            final(self).wf(),
            final(self).input() == old(self).input(),
            ({
                let input = old(self).input();
                let st = old(self).state();
                match d_peek_tag(input, st) {
                    Err(k) => fails_with(r, k) && final(self).state() == st,
                    Ok(Tag::HashDefault) => {
                        let (rl, s2) = d_packed_int(input, at(d_register(st), st.pos + 1));
                        final(self).state() == s2 && match rl {
                            Ok(i) => r matches Ok(Some(a)) && a.length() == i as usize && a.taken()
                                == 0 && a.expects_key() && a.has_default(),
                            Err(k) => fails_with(r, k),
                        }
                    },
                    Ok(_) => r matches Ok(None) && final(self).state() == st,
                }
            }),
    {
        let t = self.cursor.peek_tag()?;
        match t {
            Tag::HashDefault => {
                self.register_obj();
                self.cursor.next_tag()?;
                let raw = self.read_packed_int()?;
                Ok(Some(HashAccess::new(raw as usize, true)))
            },
            _ => Ok(None),
        }
    }

    /// Starts reading a struct member by member: when the next value is a
    /// struct, reads its tag, its name and its count of members; for any
    /// other value, reads nothing and gives `None`. The count is read as a
    /// signed integer and cast, as the whole-value reader does.
    ///
    /// # Errors
    /// The errors of reading the tag, the name and the count.
    pub fn begin_struct(&mut self) -> (r: Result<Option<(Sym<'de>, IvarAccess)>, Error>)
        requires
            old(self).wf(),
        ensures
            final(self).wf(),
            final(self).input() == old(self).input(),
            ({
                let input = old(self).input();
                let st = old(self).state();
                match d_peek_tag(input, st) {
                    Err(k) => fails_with(r, k) && final(self).state() == st,
                    Ok(Tag::Struct) => {
                        let (rc, s2) = d_symbol_either(input, at(d_register(st), st.pos + 1));
                        match rc {
                            Err(k) => fails_with(r, k) && final(self).state() == s2,
                            Ok(c) => {
                                let (rl, s3) = d_packed_int(input, s2);
                                final(self).state() == s3 && match rl {
                                    Ok(i) => r matches Ok(Some((name, a))) && name@ == c
                                        && a.length() == i as usize && a.taken() == 0
                                        && a.expects_key(),
                                    Err(k) => fails_with(r, k),
                                }
                            },
                        }
                    },
                    Ok(_) => r matches Ok(None) && final(self).state() == st,
                }
            }),
    {
        let t = self.cursor.peek_tag()?;
        match t {
            Tag::Struct => {
                self.register_obj();
                self.cursor.next_tag()?;
                let name = self.read_symbol_either()?;
                let raw = self.read_packed_int()?;
                Ok(Some((name, IvarAccess::new(raw as usize))))
            },
            _ => Ok(None),
        }
    }

    /// Starts reading an instance: when the next value is one, reads its tag
    /// and marks the wrapped value, which comes next, as taking no slot of
    /// its own in the object table; for any other value, reads nothing and
    /// gives `None`.
    ///
    /// # Errors
    /// The errors of reading the tag.
    pub fn begin_instance(&mut self) -> (r: Result<Option<InstanceAccess>, Error>)
        requires
            old(self).wf(),
        ensures
            final(self).wf(),
            final(self).input() == old(self).input(),
            ({
                let input = old(self).input();
                let st = old(self).state();
                match d_peek_tag(input, st) {
                    Err(k) => fails_with(r, k) && final(self).state() == st,
                    Ok(Tag::Instance) => (r matches Ok(Some(_))) && final(self).state()
                        == (DecodeState { reading_instance: true, ..at(d_register(st), st.pos + 1) }),
                    Ok(_) => r matches Ok(None) && final(self).state() == st,
                }
            }),
    {
        let t = self.cursor.peek_tag()?;
        match t {
            Tag::Instance => {
                self.register_obj();
                self.cursor.next_tag()?;
                self.is_reading_instance = true;
                Ok(Some(InstanceAccess { sealed: () }))
            },
            _ => Ok(None),
        }
    }
}

/// Reads a Marshal document: the version bytes `4, 8`, then one value.
/// Bytes after that value are left unread.
///
/// # Errors
/// [`Kind::Eof`] for fewer than two bytes, [`Kind::VersionError`] for other
/// version bytes, and otherwise the errors of reading the value.
pub fn from_bytes(data: &[u8]) -> (r: Result<Value, Error>)
    ensures
        agrees_view(r, d_document(data@)),
{
    let mut de = Deserializer::new(data)?;
    de.deserialize_value()
}

} // verus!
