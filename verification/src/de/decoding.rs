//! What the reader makes of a byte string: the value (or error) and the
//! reader's state after it, as a function of the input and of the state
//! before it.
use vstd::prelude::*;
use vstd::utf8::{decode_utf8, valid_utf8};

use crate::de::error::KindModel;
use crate::packed::unpack_int;
use crate::tag::{tag_is_referenceable, tag_of_byte, Tag};
use crate::value::insert::{fields_from, hash_from};
use crate::value::{FieldsModel, ValueModel};

verus! {

/// The state of the reader between two values.
pub struct DecodeState {
    /// Where the next byte is read.
    pub pos: int,
    /// Where each value that an object link can point at begins.
    pub objects: Seq<int>,
    /// The positions to return to after the object links being followed.
    pub stack: Seq<int>,
    /// Set while the value inside an instance is read; the next value that
    /// would be recorded in the object table is not recorded.
    pub reading_instance: bool,
    /// The symbols read so far, for symbol links.
    pub symbols: Seq<Seq<char>>,
}

/// A result and the state after it.
pub type Step<T> = (Result<T, KindModel>, DecodeState);

/// The state that a reader starts in on a document: after the two version
/// bytes, with empty tables.
pub open spec fn start_state() -> DecodeState {
    DecodeState {
        pos: 2,
        objects: Seq::empty(),
        stack: Seq::empty(),
        reading_instance: false,
        symbols: Seq::empty(),
    }
}

/// The state moved to another position.
pub open spec fn at(st: DecodeState, pos: int) -> DecodeState {
    DecodeState { pos, ..st }
}

pub open spec fn d_peek_byte(input: Seq<u8>, st: DecodeState) -> Result<u8, KindModel> {
    if 0 <= st.pos < input.len() {
        Ok(input[st.pos])
    } else {
        Err(KindModel::Eof)
    }
}

pub open spec fn d_next_byte(input: Seq<u8>, st: DecodeState) -> Step<u8> {
    match d_peek_byte(input, st) {
        Ok(b) => (Ok(b), at(st, st.pos + 1)),
        Err(e) => (Err(e), st),
    }
}

pub open spec fn check_tag(b: u8) -> Result<Tag, KindModel> {
    match tag_of_byte(b) {
        Some(t) => Ok(t),
        None => Err(KindModel::WrongTag(b)),
    }
}

pub open spec fn d_peek_tag(input: Seq<u8>, st: DecodeState) -> Result<Tag, KindModel> {
    match d_peek_byte(input, st) {
        Ok(b) => check_tag(b),
        Err(e) => Err(e),
    }
}

pub open spec fn d_next_tag(input: Seq<u8>, st: DecodeState) -> Step<Tag> {
    let (r, s1) = d_next_byte(input, st);
    match r {
        Ok(b) => (check_tag(b), s1),
        Err(e) => (Err(e), s1),
    }
}

/// A packed integer; when the input ends first, the reader is left at its end.
pub open spec fn d_packed_int(input: Seq<u8>, st: DecodeState) -> Step<i32> {
    match unpack_int(input.subrange(st.pos, input.len() as int)) {
        Some((v, n)) => (Ok(v), at(st, st.pos + n)),
        None => (Err(KindModel::Eof), at(st, input.len() as int)),
    }
}

/// A packed integer that must not be negative.
pub open spec fn d_usize(input: Seq<u8>, st: DecodeState) -> Step<usize> {
    let (r, s1) = d_packed_int(input, st);
    match r {
        Ok(i) => if i < 0 {
            (Err(KindModel::UnexpectedNegativeLength(i)), s1)
        } else {
            (Ok(i as usize), s1)
        },
        Err(e) => (Err(e), s1),
    }
}

/// The next `n` bytes.
pub open spec fn d_bytes(input: Seq<u8>, st: DecodeState, n: usize) -> Step<Seq<u8>> {
    if n > input.len() - st.pos {
        (Err(KindModel::Eof), st)
    } else {
        (Ok(input.subrange(st.pos, st.pos + n)), at(st, st.pos + n))
    }
}

/// A byte string preceded by its length.
pub open spec fn d_bytes_len(input: Seq<u8>, st: DecodeState) -> Step<Seq<u8>> {
    let (r, s1) = d_usize(input, st);
    match r {
        Ok(n) => d_bytes(input, s1, n),
        Err(e) => (Err(e), s1),
    }
}

/// A UTF-8 text preceded by its length in bytes.
pub open spec fn d_str_len(input: Seq<u8>, st: DecodeState) -> Step<Seq<char>> {
    let (r, s1) = d_bytes_len(input, st);
    match r {
        Ok(b) => if valid_utf8(b) {
            (Ok(decode_utf8(b)), s1)
        } else {
            (Err(KindModel::SymbolInvalidUtf8), s1)
        },
        Err(e) => (Err(e), s1),
    }
}

/// A new symbol (after its `:`), which joins the symbol table unless an
/// object link is being followed.
pub open spec fn d_symbol(input: Seq<u8>, st: DecodeState) -> Step<Seq<char>> {
    let (r, s1) = d_str_len(input, st);
    match r {
        Ok(s) => (
            Ok(s),
            if s1.stack.len() == 0 {
                DecodeState { symbols: s1.symbols.push(s), ..s1 }
            } else {
                s1
            },
        ),
        Err(e) => (Err(e), s1),
    }
}

/// A symbol link (after its `;`): the symbol at that place of the table.
pub open spec fn d_symlink(input: Seq<u8>, st: DecodeState) -> Step<Seq<char>> {
    let (r, s1) = d_packed_int(input, st);
    match r {
        Ok(i) => {
            let idx = i as usize;
            if idx < s1.symbols.len() {
                (Ok(s1.symbols[idx as int]), s1)
            } else {
                (Err(KindModel::UnresolvedSymlink(idx)), s1)
            }
        },
        Err(e) => (Err(e), s1),
    }
}

/// A symbol or a symbol link, with its tag.
pub open spec fn d_symbol_either(input: Seq<u8>, st: DecodeState) -> Step<Seq<char>> {
    let (r, s1) = d_next_tag(input, st);
    match r {
        Ok(Tag::Symbol) => d_symbol(input, s1),
        Ok(Tag::Symlink) => d_symlink(input, s1),
        Ok(t) => (Err(KindModel::ExpectedSymbol(t)), s1),
        Err(e) => (Err(e), s1),
    }
}

/// Recording where a value begins, so that object links can point at it;
/// skipped (and the skip used up) right after an instance tag, and skipped
/// while an object link is followed.
pub open spec fn d_register(st: DecodeState) -> DecodeState {
    if st.stack.len() > 0 || st.reading_instance {
        DecodeState { reading_instance: false, ..st }
    } else {
        DecodeState { objects: st.objects.push(st.pos), ..st }
    }
}

/// The place of the first zero byte, or `-1`.
pub open spec fn first_zero(b: Seq<u8>) -> int
    decreases b.len(),
{
    if b.len() == 0 {
        -1
    } else if b[0] == 0 {
        0
    } else {
        let r = first_zero(b.drop_first());
        if r < 0 {
            -1
        } else {
            r + 1
        }
    }
}

/// The text of a float: after a zero byte there may be at most four bytes
/// of mantissa.
pub open spec fn check_float(b: Seq<u8>) -> Result<Seq<u8>, KindModel> {
    let z = first_zero(b);
    if z >= 0 && b.len() - (z + 1) > 4 {
        Err(KindModel::ParseFloatMantissaTooLong)
    } else {
        Ok(b)
    }
}

/// The reader can go on from this state: it is within the input, and it
/// follows no more object links than there are positions.
pub open spec fn d_sane(input: Seq<u8>, st: DecodeState) -> bool {
    0 <= st.pos <= input.len() && st.stack.len() <= input.len() + 1
}

/// `later` comes after `st` on the same path of object links, within the input.
pub open spec fn advanced(input: Seq<u8>, st: DecodeState, later: DecodeState) -> bool {
    later.pos > st.pos && later.stack == st.stack && later.pos <= input.len()
}

/// One value, with its tag.
pub open spec fn d_value(input: Seq<u8>, st: DecodeState) -> Step<ValueModel>
    decreases input.len() + 2 - st.stack.len(), input.len() - st.pos, 1int,
{
    if !d_sane(input, st) {
        (Err(KindModel::Eof), st)
    } else {
        match d_peek_tag(input, st) {
            Err(e) => (Err(e), st),
            Ok(t0) => {
                let st0 = if tag_is_referenceable(t0) {
                    d_register(st)
                } else {
                    st
                };
                let (rt, st1) = d_next_tag(input, st0);
                match rt {
                    Err(e) => (Err(e), st1),
                    Ok(t) => d_tagged(input, st, st1, t),
                }
            },
        }
    }
}

/// The rest of a value after its tag `t`; `st` is the state before the tag
/// and `st1` the state after it.
pub open spec fn d_tagged(input: Seq<u8>, st: DecodeState, st1: DecodeState, t: Tag) -> Step<
    ValueModel,
>
    decreases input.len() + 2 - st.stack.len(), input.len() - st.pos, 0int,
{
    if !(d_sane(input, st) && advanced(input, st, st1)) {
        (Err(KindModel::Eof), st1)
    } else {
        match t {
            Tag::Nil => (Ok(ValueModel::Nil), st1),
            Tag::True => (Ok(ValueModel::Bool(true)), st1),
            Tag::False => (Ok(ValueModel::Bool(false)), st1),
            Tag::Integer => {
                let (r, s2) = d_packed_int(input, st1);
                match r {
                    Ok(i) => (Ok(ValueModel::Integer(i)), s2),
                    Err(e) => (Err(e), s2),
                }
            },
            Tag::Float => {
                let (r, s2) = d_bytes_len(input, st1);
                match r {
                    Ok(b) => match check_float(b) {
                        Ok(f) => (Ok(ValueModel::Float(f)), s2),
                        Err(e) => (Err(e), s2),
                    },
                    Err(e) => (Err(e), s2),
                }
            },
            Tag::String => {
                let (r, s2) = d_bytes_len(input, st1);
                match r {
                    Ok(b) => (Ok(ValueModel::String(b)), s2),
                    Err(e) => (Err(e), s2),
                }
            },
            Tag::Array => {
                let (r, s2) = d_usize(input, st1);
                match r {
                    Ok(n) => {
                        let (r3, s3) = d_values(input, s2, n as nat);
                        match r3 {
                            Ok(items) => (Ok(ValueModel::Array(items)), s3),
                            Err(e) => (Err(e), s3),
                        }
                    },
                    Err(e) => (Err(e), s2),
                }
            },
            Tag::Hash => {
                let (r, s2) = d_usize(input, st1);
                match r {
                    Ok(n) => {
                        let (r3, s3, _) = d_pairs(input, s2, n as nat);
                        match r3 {
                            Ok(entries) => (Ok(ValueModel::Hash(hash_from(entries))), s3),
                            Err(e) => (Err(e), s3),
                        }
                    },
                    Err(e) => (Err(e), s2),
                }
            },
            Tag::HashDefault => {
                let (r, s2) = d_packed_int(input, st1);
                match r {
                    Ok(i) => {
                        let n = (i as usize) as nat;
                        let (r3, s3, count) = d_pairs(input, s2, n);
                        if !advanced(input, st, s3) {
                            (Err(KindModel::Eof), s3)
                        } else {
                            match r3 {
                                Ok(entries) => {
                                    let (r4, s4) = d_value(input, s3);
                                    match r4 {
                                        Ok(_) => (Ok(ValueModel::Hash(hash_from(entries))), s4),
                                        Err(e) => (Err(e), s4),
                                    }
                                },
                                Err(e) => {
                                    let (r5, s5) = d_skip_pairs(input, s3, (n - count) as nat);
                                    match r5 {
                                        Err(e2) => (Err(e2), s5),
                                        Ok(_) => if !advanced(input, st, s5) {
                                            (Err(KindModel::Eof), s5)
                                        } else {
                                            let (r6, s6) = d_value(input, s5);
                                            match r6 {
                                                Err(e3) => (Err(e3), s6),
                                                Ok(_) => (Err(e), s6),
                                            }
                                        },
                                    }
                                },
                            }
                        }
                    },
                    Err(e) => (Err(e), s2),
                }
            },
            Tag::Symbol => {
                let (r, s2) = d_symbol(input, st1);
                match r {
                    Ok(s) => (Ok(ValueModel::Symbol(s)), s2),
                    Err(e) => (Err(e), s2),
                }
            },
            Tag::Symlink => {
                let (r, s2) = d_symlink(input, st1);
                match r {
                    Ok(s) => (Ok(ValueModel::Symbol(s)), s2),
                    Err(e) => (Err(e), s2),
                }
            },
            Tag::Instance => {
                let s1i = DecodeState { reading_instance: true, ..st1 };
                let (r, s2) = d_value(input, s1i);
                match r {
                    Err(e) => (Err(e), s2),
                    Ok(inner) => if !advanced(input, st, s2) {
                        (Err(KindModel::Eof), s2)
                    } else {
                        let (r3, s3) = d_usize(input, s2);
                        match r3 {
                            Err(e) => (Err(e), s3),
                            Ok(n) => {
                                let (r4, s4) = d_fields(input, s3, n as nat);
                                match r4 {
                                    Ok(entries) => (
                                        Ok(ValueModel::Instance(Box::new(inner), fields_from(entries))),
                                        s4,
                                    ),
                                    Err(e) => (Err(e), s4),
                                }
                            },
                        }
                    },
                }
            },
            Tag::Object => {
                let (r, s2) = d_symbol_either(input, st1);
                match r {
                    Err(e) => (Err(e), s2),
                    Ok(class) => {
                        let (r3, s3) = d_usize(input, s2);
                        match r3 {
                            Err(e) => (Err(e), s3),
                            Ok(n) => {
                                let (r4, s4) = d_fields(input, s3, n as nat);
                                match r4 {
                                    Ok(entries) => (Ok(ValueModel::Object(class, fields_from(entries))), s4),
                                    Err(e) => (Err(e), s4),
                                }
                            },
                        }
                    },
                }
            },
            Tag::Struct => {
                let (r, s2) = d_symbol_either(input, st1);
                match r {
                    Err(e) => (Err(e), s2),
                    Ok(name) => {
                        let (r3, s3) = d_packed_int(input, s2);
                        match r3 {
                            Err(e) => (Err(e), s3),
                            Ok(i) => {
                                let (r4, s4) = d_fields(input, s3, (i as usize) as nat);
                                match r4 {
                                    Ok(entries) => (Ok(ValueModel::Struct(name, fields_from(entries))), s4),
                                    Err(e) => (Err(e), s4),
                                }
                            },
                        }
                    },
                }
            },
            Tag::ObjectLink => {
                let (r, s2) = d_usize(input, st1);
                match r {
                    Err(e) => (Err(e), s2),
                    Ok(idx) => if idx >= s2.objects.len() {
                        (Err(KindModel::UnresolvedObjectlink(idx)), s2)
                    } else if s2.stack.contains(s2.pos) {
                        (Err(KindModel::CircularReference), s2)
                    } else {
                        let target = s2.objects[idx as int];
                        if !(s2.stack.len() <= input.len() && 0 <= target <= input.len()) {
                            (Err(KindModel::CircularReference), s2)
                        } else {
                            let inner = DecodeState {
                                pos: target,
                                stack: s2.stack.push(s2.pos),
                                ..s2
                            };
                            let (r5, s5) = d_value(input, inner);
                            (r5, DecodeState { pos: s2.pos, stack: s2.stack, ..s5 })
                        }
                    },
                }
            },
            Tag::UserDef => {
                let (r, s2) = d_symbol_either(input, st1);
                match r {
                    Err(e) => (Err(e), s2),
                    Ok(class) => {
                        let (r3, s3) = d_bytes_len(input, s2);
                        match r3 {
                            Ok(data) => (Ok(ValueModel::Userdata(class, data)), s3),
                            Err(e) => (Err(e), s3),
                        }
                    },
                }
            },
            Tag::RawRegexp => {
                let (r, s2) = d_bytes_len(input, st1);
                match r {
                    Err(e) => (Err(e), s2),
                    Ok(data) => {
                        let (r3, s3) = d_next_byte(input, s2);
                        match r3 {
                            Ok(flags) => (Ok(ValueModel::Regex(data, flags)), s3),
                            Err(e) => (Err(e), s3),
                        }
                    },
                }
            },
            Tag::ClassRef => {
                let (r, s2) = d_str_len(input, st1);
                match r {
                    Ok(c) => (Ok(ValueModel::Class(c)), s2),
                    Err(e) => (Err(e), s2),
                }
            },
            Tag::ModuleRef => {
                let (r, s2) = d_str_len(input, st1);
                match r {
                    Ok(m) => (Ok(ValueModel::Module(m)), s2),
                    Err(e) => (Err(e), s2),
                }
            },
            _ => {
                // A symbol, then a value: Extended, UserClass, UserMarshal, Data.
                let (r, s2) = d_symbol_either(input, st1);
                match r {
                    Err(e) => (Err(e), s2),
                    Ok(c) => {
                        let (r3, s3) = d_value(input, s2);
                        match r3 {
                            Err(e) => (Err(e), s3),
                            Ok(v) => (
                                Ok(
                                    match t {
                                        Tag::Extended => ValueModel::Extended(c, Box::new(v)),
                                        Tag::UserClass => ValueModel::UserClass(c, Box::new(v)),
                                        Tag::UserMarshal => ValueModel::UserMarshal(c, Box::new(v)),
                                        _ => ValueModel::Data(c, Box::new(v)),
                                    },
                                ),
                                s3,
                            ),
                        }
                    },
                }
            },
        }
    }
}

/// `n` values in a row, read from `cur`; `st` is the state before the tag of
/// the value that holds them.
pub open spec fn d_values(input: Seq<u8>, cur: DecodeState, n: nat) -> Step<
    Seq<ValueModel>,
>
    decreases input.len() + 2 - cur.stack.len(), input.len() - cur.pos, n + 1,
{
    if !d_sane(input, cur) {
        (Err(KindModel::Eof), cur)
    } else if n == 0 {
        (Ok(Seq::empty()), cur)
    } else {
        let (r, s1) = d_value(input, cur);
        match r {
            Err(e) => (Err(e), s1),
            Ok(v) => if !advanced(input, cur, s1) {
                (Err(KindModel::Eof), s1)
            } else {
                let (r2, s2) = d_values(input, s1, (n - 1) as nat);
                match r2 {
                    Ok(rest) => (Ok(seq![v] + rest), s2),
                    Err(e) => (Err(e), s2),
                }
            },
        }
    }
}

/// `n` hash entries in a row, read from `cur`, and how many of them were
/// begun.
pub open spec fn d_pairs(input: Seq<u8>, cur: DecodeState, n: nat) -> (
    Result<Seq<(ValueModel, ValueModel)>, KindModel>,
    DecodeState,
    nat,
)
    decreases input.len() + 2 - cur.stack.len(), input.len() - cur.pos, n + 1,
{
    if !d_sane(input, cur) {
        (Err(KindModel::Eof), cur, 0)
    } else if n == 0 {
        (Ok(Seq::empty()), cur, 0)
    } else {
        let (rk, s1) = d_value(input, cur);
        match rk {
            Err(e) => (Err(e), s1, 1),
            Ok(k) => if !advanced(input, cur, s1) {
                (Err(KindModel::Eof), s1, 1)
            } else {
                let (rv, s2) = d_value(input, s1);
                match rv {
                    Err(e) => (Err(e), s2, 1),
                    Ok(v) => if !advanced(input, cur, s2) {
                        (Err(KindModel::Eof), s2, 1)
                    } else {
                        let (r3, s3, c) = d_pairs(input, s2, (n - 1) as nat);
                        match r3 {
                            Ok(rest) => (Ok(seq![(k, v)] + rest), s3, c + 1),
                            Err(e) => (Err(e), s3, c + 1),
                        }
                    },
                }
            },
        }
    }
}

/// `m` hash entries in a row, read and dropped.
pub open spec fn d_skip_pairs(input: Seq<u8>, cur: DecodeState, m: nat) -> Step<
    (),
>
    decreases input.len() + 2 - cur.stack.len(), input.len() - cur.pos, m + 1,
{
    if !d_sane(input, cur) {
        (Err(KindModel::Eof), cur)
    } else if m == 0 {
        (Ok(()), cur)
    } else {
        let (rk, s1) = d_value(input, cur);
        match rk {
            Err(e) => (Err(e), s1),
            Ok(_) => if !advanced(input, cur, s1) {
                (Err(KindModel::Eof), s1)
            } else {
                let (rv, s2) = d_value(input, s1);
                match rv {
                    Err(e) => (Err(e), s2),
                    Ok(_) => if !advanced(input, cur, s2) {
                        (Err(KindModel::Eof), s2)
                    } else {
                        d_skip_pairs(input, s2, (m - 1) as nat)
                    },
                }
            },
        }
    }
}

/// `n` instance variables in a row: each a symbol, then a value.
pub open spec fn d_fields(input: Seq<u8>, cur: DecodeState, n: nat) -> Step<
    FieldsModel,
>
    decreases input.len() + 2 - cur.stack.len(), input.len() - cur.pos, n + 1,
{
    if !d_sane(input, cur) {
        (Err(KindModel::Eof), cur)
    } else if n == 0 {
        (Ok(Seq::empty()), cur)
    } else {
        let (rs, s1) = d_symbol_either(input, cur);
        match rs {
            Err(e) => (Err(e), s1),
            Ok(name) => if !advanced(input, cur, s1) {
                (Err(KindModel::Eof), s1)
            } else {
                let (rv, s2) = d_value(input, s1);
                match rv {
                    Err(e) => (Err(e), s2),
                    Ok(v) => if !advanced(input, cur, s2) {
                        (Err(KindModel::Eof), s2)
                    } else {
                        let (r3, s3) = d_fields(input, s2, (n - 1) as nat);
                        match r3 {
                            Ok(rest) => (Ok(seq![(name, v)] + rest), s3),
                            Err(e) => (Err(e), s3),
                        }
                    },
                }
            },
        }
    }
}

/// A whole document: the version bytes `4, 8`, then one value.
pub open spec fn d_document(input: Seq<u8>) -> Result<ValueModel, KindModel> {
    if input.len() < 2 {
        Err(KindModel::Eof)
    } else if input[0] != 4 || input[1] != 8 {
        Err(KindModel::VersionError(input[0], input[1]))
    } else {
        d_value(input, start_state()).0
    }
}

} // verus!
