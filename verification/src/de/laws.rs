//! What the reader keeps in its tables: which values take a slot of the
//! object table, and which symbols join the symbol table.
use vstd::prelude::*;

use crate::de::decoding::{
    advanced, at, d_fields, d_next_tag, d_packed_int, d_pairs, d_peek_tag, d_register, d_sane,
    d_skip_pairs, d_symbol_either, d_tagged, d_usize, d_value, d_values, DecodeState,
};
use crate::tag::tag_is_referenceable;
use crate::de::error::KindModel;
use crate::tag::Tag;
use crate::value::insert::fields_from;
use crate::value::FieldsModel;
use crate::packed::{lemma_packed_int_roundtrip, packed_int};
use crate::value::ValueModel;

verus! {

/// The value wrapped by an instance takes no slot of its own in the object
/// table: registering it, right after the instance's tag, adds nothing and
/// uses up the mark.
pub proof fn lemma_wrapped_value_takes_no_slot(st: DecodeState)
    requires
        st.reading_instance,
    ensures
        d_register(st).objects == st.objects,
        !d_register(st).reading_instance,
        d_register(st).pos == st.pos,
        d_register(st).symbols == st.symbols,
{
}

/// Outside an instance and outside an object link, a value that can be
/// linked to takes the next slot of the object table, holding where it
/// begins.
pub proof fn lemma_new_value_takes_next_slot(st: DecodeState)
    requires
        !st.reading_instance,
        st.stack.len() == 0,
    ensures
        d_register(st).objects == st.objects.push(st.pos),
        d_register(st).pos == st.pos,
        d_register(st).symbols == st.symbols,
{
}

/// While an object link is followed nothing is recorded: registering a
/// value leaves the object table as it is.
#[verifier::spinoff_prover]
#[verifier::rlimit(40)]
pub proof fn lemma_followed_value_takes_no_slot(st: DecodeState)
    requires
        st.stack.len() > 0,
    ensures
        d_register(st).objects == st.objects,
        d_register(st).pos == st.pos,
{
}

/// The bytes of an instance around a string with no instance variables.
pub open spec fn string_instance_bytes(b: Seq<u8>) -> Seq<u8> {
    seq![0x49u8, 0x22u8] + packed_int(b.len() as i64) + b + seq![0u8]
}

/// An instance around a string, read from new input, takes exactly one slot
/// of the object table, the one of the instance itself: the string inside it
/// is not entered again. So a link that follows counts the instance once.
pub proof fn lemma_string_instance_takes_one_slot(input: Seq<u8>, st: DecodeState, b: Seq<u8>)
    requires
        st.stack.len() == 0,
        !st.reading_instance,
        b.len() <= 0x7fff_ffff,
        0 <= st.pos,
        st.pos + string_instance_bytes(b).len() <= input.len(),
        input.subrange(st.pos, st.pos + string_instance_bytes(b).len()) == string_instance_bytes(b),
    ensures
        d_value(input, st).0 is Ok,
        d_value(input, st).0->Ok_0 matches ValueModel::Instance(inner, f) && *inner
            == ValueModel::String(b) && f.len() == 0,
        d_value(input, st).1.objects == st.objects.push(st.pos),
        d_value(input, st).1.pos == st.pos + string_instance_bytes(b).len(),
        d_value(input, st).1.symbols == st.symbols,
{
    let enc = string_instance_bytes(b);
    let n = b.len() as i32;
    let lp = packed_int(n as i64);
    let m = lp.len() as int;
    let p = st.pos;
    let len = input.len() as int;
    assert(enc.len() == 2 + m + b.len() + 1);
    assert(input[p] == enc[0]);
    assert(input[p + 1] == enc[1]);
    assert forall|k: int| 0 <= k < m implies input[p + 2 + k] == lp[k] by {
        assert(input[p + 2 + k] == enc[2 + k]);
    }
    assert forall|k: int| 0 <= k < b.len() implies input[p + 2 + m + k] == b[k] by {
        assert(input[p + 2 + m + k] == enc[2 + m + k]);
    }
    assert(input[p + 2 + m + b.len()] == enc[2 + m + b.len()]);
    // the length of the string
    let rest1 = input.subrange(p + 2 + m, len);
    assert(input.subrange(p + 2, len) =~= lp + rest1);
    lemma_packed_int_roundtrip(n, rest1);
    assert(input.subrange(p + 2 + m, p + 2 + m + b.len()) =~= b);
    // the count of instance variables
    let rest2 = input.subrange(p + 3 + m + b.len(), len);
    assert(input.subrange(p + 2 + m + b.len(), len) =~= packed_int(0) + rest2);
    lemma_packed_int_roundtrip(0, rest2);
    // the string inside, read with the instance mark set
    let st0 = d_register(st);
    let st1 = at(st0, p + 1);
    let s1i = DecodeState { reading_instance: true, ..st1 };
    let inner = d_value(input, s1i);
    assert(inner.0 == Ok::<ValueModel, crate::de::error::KindModel>(ValueModel::String(b)));
    assert(inner.1.objects == st.objects.push(p));
    assert(inner.1.pos == p + 2 + m + b.len());
    assert(inner.1.stack == st.stack);
    let s2 = inner.1;
    let s3 = at(s2, s2.pos + 1);
    assert(d_usize(input, s2) == (Ok::<usize, KindModel>(0usize), s3));
    assert(d_fields(input, s3, 0) == (Ok::<FieldsModel, KindModel>(Seq::empty()), s3));
    assert(d_tagged(input, st, st1, Tag::Instance) == (
        Ok::<ValueModel, KindModel>(
            ValueModel::Instance(Box::new(ValueModel::String(b)), fields_from(Seq::empty())),
        ),
        s3,
    ));
    assert(d_value(input, st) == d_tagged(input, st, st1, Tag::Instance));
}

/// The symbol table grows only from new input: a new symbol joins it at the
/// end unless an object link is being followed, and a symbol link never
/// changes it.
pub proof fn lemma_symbols_join_only_from_new_input(input: Seq<u8>, st: DecodeState)
    requires
        0 <= st.pos < input.len(),
    ensures
        st.stack.len() > 0 ==> d_symbol_either(input, st).1.symbols == st.symbols,
        input[st.pos] == 0x3b ==> d_symbol_either(input, st).1.symbols == st.symbols,
        input[st.pos] == 0x3a && st.stack.len() == 0 && d_symbol_either(input, st).0 is Ok
            ==> d_symbol_either(input, st).1.symbols == st.symbols.push(
            d_symbol_either(input, st).0->Ok_0,
        ),
{
}


/// A symbol link to place `k` of the symbol table gives back the symbol
/// recorded there, and moves past the link's bytes without recording
/// anything.
pub proof fn lemma_symbol_link_gives_recorded_symbol(input: Seq<u8>, st: DecodeState, k: i32)
    requires
        0 <= k < st.symbols.len(),
        0 <= st.pos,
        st.pos + 1 + packed_int(k as i64).len() <= input.len(),
        input.subrange(st.pos, st.pos + 1 + packed_int(k as i64).len()) == seq![0x3bu8] + packed_int(
            k as i64,
        ),
    ensures
        d_symbol_either(input, st).0 == Ok::<Seq<char>, KindModel>(st.symbols[k as int]),
        d_symbol_either(input, st).1.symbols == st.symbols,
        d_symbol_either(input, st).1.pos == st.pos + 1 + packed_int(k as i64).len(),
{
    let p = st.pos;
    let lp = packed_int(k as i64);
    let enc = seq![0x3bu8] + lp;
    assert(input[p] == enc[0]);
    let rest = input.subrange(p + 1 + lp.len(), input.len() as int);
    assert forall|j: int| 0 <= j < lp.len() implies input[p + 1 + j] == lp[j] by {
        assert(input[p + 1 + j] == enc[1 + j]);
    }
    assert(input.subrange(p + 1, input.len() as int) =~= lp + rest);
    lemma_packed_int_roundtrip(k, rest);
}

/// An object link to place `k` of the object table reads the value that
/// begins where slot `k` points, as a value reached through a link; the
/// reader then goes on right after the link's bytes, with its tables as they
/// were.
pub proof fn lemma_object_link_reads_recorded_value(input: Seq<u8>, st: DecodeState, k: i32)
    requires
        st.stack.len() == 0,
        0 <= k < st.objects.len(),
        0 <= st.objects[k as int] <= input.len(),
        0 <= st.pos,
        st.pos + 1 + packed_int(k as i64).len() <= input.len(),
        input.subrange(st.pos, st.pos + 1 + packed_int(k as i64).len()) == seq![0x40u8] + packed_int(
            k as i64,
        ),
    ensures
        ({
            let after = st.pos + 1 + packed_int(k as i64).len();
            let target = DecodeState { pos: st.objects[k as int], stack: seq![after], ..at(st, after) };
            &&& d_value(input, st).0 == d_value(input, target).0
            &&& d_value(input, st).1.pos == after
            &&& d_value(input, st).1.objects == st.objects
            &&& d_value(input, st).1.symbols == st.symbols
        }),
{
    let p = st.pos;
    let lp = packed_int(k as i64);
    let enc = seq![0x40u8] + lp;
    let after = p + 1 + lp.len();
    assert(input[p] == enc[0]);
    let rest = input.subrange(after, input.len() as int);
    assert forall|j: int| 0 <= j < lp.len() implies input[p + 1 + j] == lp[j] by {
        assert(input[p + 1 + j] == enc[1 + j]);
    }
    assert(input.subrange(p + 1, input.len() as int) =~= lp + rest);
    lemma_packed_int_roundtrip(k, rest);
    let s2 = at(st, after);
    let target = DecodeState { pos: st.objects[k as int], stack: s2.stack.push(s2.pos), ..s2 };
    assert(target.stack =~= seq![after]);
    lemma_followed_value_records_nothing(input, target);
    let st1 = at(st, p + 1);
    assert(d_usize(input, st1) == (Ok::<usize, KindModel>(k as usize), s2));
    assert(!s2.stack.contains(s2.pos));
    assert(d_value(input, st) == d_tagged(input, st, st1, Tag::ObjectLink));
}

/// The tables of the reader and its path of links are the same in both
/// states.
pub open spec fn keeps_tables(a: DecodeState, b: DecodeState) -> bool {
    &&& b.symbols == a.symbols
    &&& b.objects == a.objects
    &&& b.stack == a.stack
}

/// Reading a value while an object link is followed records nothing: the
/// symbol table and the object table come out as they went in, whatever the
/// bytes hold. So a value reached again through a link does not shift the
/// symbol links or object links that come after it.
#[verifier::spinoff_prover]
#[verifier::rlimit(40)]
pub proof fn lemma_followed_value_records_nothing(input: Seq<u8>, st: DecodeState)
    requires
        st.stack.len() > 0,
    ensures
        keeps_tables(st, d_value(input, st).1),
    decreases input.len() + 2 - st.stack.len(), input.len() - st.pos, 2int,
{
    if d_sane(input, st) {
        if let Ok(t0) = d_peek_tag(input, st) {
            let st0 = if tag_is_referenceable(t0) {
                d_register(st)
            } else {
                st
            };
            let (rt, st1) = d_next_tag(input, st0);
            if let Ok(t) = rt {
                lemma_followed_tagged_records_nothing(input, st, st1, t);
            }
        }
    }
}

/// The rest of a value after its tag, read while an object link is
/// followed, records nothing.
#[verifier::spinoff_prover]
#[verifier::rlimit(60)]
pub proof fn lemma_followed_tagged_records_nothing(
    input: Seq<u8>,
    st: DecodeState,
    st1: DecodeState,
    t: Tag,
)
    requires
        st1.stack.len() > 0,
    ensures
        keeps_tables(st1, d_tagged(input, st, st1, t).1),
    decreases input.len() + 2 - st.stack.len(), input.len() - st.pos, 1int,
{
    if d_sane(input, st) && advanced(input, st, st1) {
        match t {
            Tag::Array => {
                let (r, s2) = d_usize(input, st1);
                if let Ok(n) = r {
                    lemma_followed_values_record_nothing(input, s2, n as nat);
                }
            },
            Tag::Hash => {
                let (r, s2) = d_usize(input, st1);
                if let Ok(n) = r {
                    lemma_followed_pairs_record_nothing(input, s2, n as nat);
                }
            },
            Tag::HashDefault => lemma_followed_hash_default_records_nothing(input, st, st1),
            Tag::Instance => lemma_followed_instance_records_nothing(input, st, st1),
            Tag::Object => {
                let (r, s2) = d_symbol_either(input, st1);
                if r is Ok {
                    let (r3, s3) = d_usize(input, s2);
                    if let Ok(n) = r3 {
                        lemma_followed_fields_record_nothing(input, s3, n as nat);
                    }
                }
            },
            Tag::Struct => {
                let (r, s2) = d_symbol_either(input, st1);
                if r is Ok {
                    let (r3, s3) = d_packed_int(input, s2);
                    if let Ok(i) = r3 {
                        lemma_followed_fields_record_nothing(input, s3, (i as usize) as nat);
                    }
                }
            },
            Tag::ObjectLink => lemma_followed_link_records_nothing(input, st, st1),
            Tag::Nil | Tag::True | Tag::False | Tag::Integer | Tag::Float | Tag::String | Tag::Symbol
            | Tag::Symlink | Tag::UserDef | Tag::RawRegexp | Tag::ClassRef | Tag::ModuleRef => {},
            _ => {
                let (r, s2) = d_symbol_either(input, st1);
                if r is Ok {
                    lemma_followed_value_records_nothing(input, s2);
                }
            },
        }
    }
}

/// Values in a row, read while an object link is followed, record nothing.
#[verifier::spinoff_prover]
#[verifier::rlimit(40)]
pub proof fn lemma_followed_values_record_nothing(input: Seq<u8>, cur: DecodeState, n: nat)
    requires
        cur.stack.len() > 0,
    ensures
        keeps_tables(cur, d_values(input, cur, n).1),
    decreases input.len() + 2 - cur.stack.len(), input.len() - cur.pos, n + 3,
{
    if d_sane(input, cur) && n > 0 {
        lemma_followed_value_records_nothing(input, cur);
        let (r, s1) = d_value(input, cur);
        if r is Ok && advanced(input, cur, s1) {
            lemma_followed_values_record_nothing(input, s1, (n - 1) as nat);
        }
    }
}

/// Hash entries in a row, read while an object link is followed, record
/// nothing.
#[verifier::spinoff_prover]
#[verifier::rlimit(40)]
pub proof fn lemma_followed_pairs_record_nothing(input: Seq<u8>, cur: DecodeState, n: nat)
    requires
        cur.stack.len() > 0,
    ensures
        keeps_tables(cur, d_pairs(input, cur, n).1),
    decreases input.len() + 2 - cur.stack.len(), input.len() - cur.pos, n + 3,
{
    if d_sane(input, cur) && n > 0 {
        lemma_followed_value_records_nothing(input, cur);
        let (rk, s1) = d_value(input, cur);
        if rk is Ok && advanced(input, cur, s1) {
            lemma_followed_value_records_nothing(input, s1);
            let (rv, s2) = d_value(input, s1);
            if rv is Ok && advanced(input, cur, s2) {
                lemma_followed_pairs_record_nothing(input, s2, (n - 1) as nat);
            }
        }
    }
}

/// Hash entries skipped while an object link is followed record nothing.
#[verifier::spinoff_prover]
#[verifier::rlimit(40)]
pub proof fn lemma_followed_skip_records_nothing(input: Seq<u8>, cur: DecodeState, m: nat)
    requires
        cur.stack.len() > 0,
    ensures
        keeps_tables(cur, d_skip_pairs(input, cur, m).1),
    decreases input.len() + 2 - cur.stack.len(), input.len() - cur.pos, m + 3,
{
    if d_sane(input, cur) && m > 0 {
        lemma_followed_value_records_nothing(input, cur);
        let (rk, s1) = d_value(input, cur);
        if rk is Ok && advanced(input, cur, s1) {
            lemma_followed_value_records_nothing(input, s1);
            let (rv, s2) = d_value(input, s1);
            if rv is Ok && advanced(input, cur, s2) {
                lemma_followed_skip_records_nothing(input, s2, (m - 1) as nat);
            }
        }
    }
}

/// Instance variables in a row, read while an object link is followed,
/// record nothing.
#[verifier::spinoff_prover]
#[verifier::rlimit(40)]
pub proof fn lemma_followed_fields_record_nothing(input: Seq<u8>, cur: DecodeState, n: nat)
    requires
        cur.stack.len() > 0,
    ensures
        keeps_tables(cur, d_fields(input, cur, n).1),
    decreases input.len() + 2 - cur.stack.len(), input.len() - cur.pos, n + 3,
{
    if d_sane(input, cur) && n > 0 {
        let (rs, s1) = d_symbol_either(input, cur);
        if rs is Ok && advanced(input, cur, s1) {
            lemma_followed_value_records_nothing(input, s1);
            let (rv, s2) = d_value(input, s1);
            if rv is Ok && advanced(input, cur, s2) {
                lemma_followed_fields_record_nothing(input, s2, (n - 1) as nat);
            }
        }
    }
}


/// The rest of a value with tag `HashDefault`, read while an object link is
/// followed, records nothing.
#[verifier::spinoff_prover]
#[verifier::rlimit(40)]
proof fn lemma_followed_hash_default_records_nothing(input: Seq<u8>, st: DecodeState, st1: DecodeState)
    requires
        st1.stack.len() > 0,
        d_sane(input, st),
        advanced(input, st, st1),
    ensures
        keeps_tables(st1, d_tagged(input, st, st1, Tag::HashDefault).1),
    decreases input.len() + 2 - st.stack.len(), input.len() - st.pos, 0int,
{
    let (r, s2) = d_packed_int(input, st1);
    if let Ok(i) = r {
        let n = (i as usize) as nat;
        lemma_followed_pairs_record_nothing(input, s2, n);
        let (r3, s3, count) = d_pairs(input, s2, n);
        if advanced(input, st, s3) {
            match r3 {
                Ok(_) => {
                    lemma_followed_value_records_nothing(input, s3);
                },
                Err(_) => {
                    lemma_followed_skip_records_nothing(input, s3, (n - count) as nat);
                    let (r5, s5) = d_skip_pairs(input, s3, (n - count) as nat);
                    if r5 is Ok && advanced(input, st, s5) {
                        lemma_followed_value_records_nothing(input, s5);
                    }
                },
            }
        }
    }
}

/// The rest of a value with tag `Instance`, read while an object link is
/// followed, records nothing.
#[verifier::spinoff_prover]
#[verifier::rlimit(40)]
proof fn lemma_followed_instance_records_nothing(input: Seq<u8>, st: DecodeState, st1: DecodeState)
    requires
        st1.stack.len() > 0,
        d_sane(input, st),
        advanced(input, st, st1),
    ensures
        keeps_tables(st1, d_tagged(input, st, st1, Tag::Instance).1),
    decreases input.len() + 2 - st.stack.len(), input.len() - st.pos, 0int,
{
    let s1i = DecodeState { reading_instance: true, ..st1 };
    lemma_followed_value_records_nothing(input, s1i);
    let (r, s2) = d_value(input, s1i);
    if r is Ok && advanced(input, st, s2) {
        let (r3, s3) = d_usize(input, s2);
        if let Ok(n) = r3 {
            lemma_followed_fields_record_nothing(input, s3, n as nat);
        }
    }
}

/// The rest of a value with tag `ObjectLink`, read while an object link is
/// followed, records nothing.
#[verifier::spinoff_prover]
#[verifier::rlimit(40)]
proof fn lemma_followed_link_records_nothing(input: Seq<u8>, st: DecodeState, st1: DecodeState)
    requires
        st1.stack.len() > 0,
        d_sane(input, st),
        advanced(input, st, st1),
    ensures
        keeps_tables(st1, d_tagged(input, st, st1, Tag::ObjectLink).1),
    decreases input.len() + 2 - st.stack.len(), input.len() - st.pos, 0int,
{
    let (r, s2) = d_usize(input, st1);
    if let Ok(idx) = r {
        if idx < s2.objects.len() && !s2.stack.contains(s2.pos) {
            let target = s2.objects[idx as int];
            if s2.stack.len() <= input.len() && 0 <= target <= input.len() {
                let inner = DecodeState { pos: target, stack: s2.stack.push(s2.pos), ..s2 };
                lemma_followed_value_records_nothing(input, inner);
            }
        }
    }
}


/// `a` is the start of `b`.
pub open spec fn starts<T>(a: Seq<T>, b: Seq<T>) -> bool {
    a.len() <= b.len() && forall|i: int| 0 <= i < a.len() ==> a[i] == b[i]
}

/// The tables in `b` extend those in `a`, on the same path of links.
pub open spec fn only_appends(a: DecodeState, b: DecodeState) -> bool {
    &&& starts(a.symbols, b.symbols)
    &&& starts(a.objects, b.objects)
    &&& b.stack == a.stack
}

/// A value that can be linked to, read from new input outside an instance,
/// takes the next slot of the object table before anything inside it does:
/// the table that comes out starts with the old one and then its position.
pub proof fn lemma_linkable_value_takes_next_slot(input: Seq<u8>, st: DecodeState)
    requires
        st.stack.len() == 0,
        !st.reading_instance,
        0 <= st.pos < input.len(),
        d_peek_tag(input, st) matches Ok(t) && tag_is_referenceable(t),
    ensures
        starts(st.objects.push(st.pos), d_value(input, st).1.objects),
{
    let t0 = d_peek_tag(input, st)->Ok_0;
    let st0 = d_register(st);
    let (rt, st1) = d_next_tag(input, st0);
    if let Ok(t) = rt {
        lemma_tagged_only_appends(input, st, st1, t);
    }
}

/// A value that cannot be linked to (nil, true, false, an integer, a symbol
/// or a symbol link) takes no slot of the object table.
pub proof fn lemma_plain_value_takes_no_slot(input: Seq<u8>, st: DecodeState)
    requires
        d_peek_tag(input, st) matches Ok(t) && !tag_is_referenceable(t) && !(t is ObjectLink),
    ensures
        d_value(input, st).1.objects == st.objects,
{
}
/// Reading a value only adds to the reader's tables: what the symbol table
/// and the object table held before stays at its place, so earlier links
/// keep pointing where they pointed.
#[verifier::spinoff_prover]
#[verifier::rlimit(40)]
pub proof fn lemma_value_only_appends(input: Seq<u8>, st: DecodeState)
    ensures
        only_appends(st, d_value(input, st).1),
    decreases input.len() + 2 - st.stack.len(), input.len() - st.pos, 2int,
{
    if d_sane(input, st) {
        if let Ok(t0) = d_peek_tag(input, st) {
            let st0 = if tag_is_referenceable(t0) {
                d_register(st)
            } else {
                st
            };
            let (rt, st1) = d_next_tag(input, st0);
            if let Ok(t) = rt {
                lemma_tagged_only_appends(input, st, st1, t);
            }
        }
    }
}

/// Reading the rest of a value after its tag only adds to the tables.
#[verifier::spinoff_prover]
#[verifier::rlimit(60)]
pub proof fn lemma_tagged_only_appends(
    input: Seq<u8>,
    st: DecodeState,
    st1: DecodeState,
    t: Tag,
)
    ensures
        only_appends(st1, d_tagged(input, st, st1, t).1),
    decreases input.len() + 2 - st.stack.len(), input.len() - st.pos, 1int,
{
    if d_sane(input, st) && advanced(input, st, st1) {
        match t {
            Tag::Array => {
                let (r, s2) = d_usize(input, st1);
                if let Ok(n) = r {
                    lemma_values_only_append(input, s2, n as nat);
                }
            },
            Tag::Hash => {
                let (r, s2) = d_usize(input, st1);
                if let Ok(n) = r {
                    lemma_pairs_only_append(input, s2, n as nat);
                }
            },
            Tag::HashDefault => lemma_hash_default_only_appends(input, st, st1),
            Tag::Instance => lemma_instance_only_appends(input, st, st1),
            Tag::Object => {
                let (r, s2) = d_symbol_either(input, st1);
                if r is Ok {
                    let (r3, s3) = d_usize(input, s2);
                    if let Ok(n) = r3 {
                        lemma_fields_only_append(input, s3, n as nat);
                    }
                }
            },
            Tag::Struct => {
                let (r, s2) = d_symbol_either(input, st1);
                if r is Ok {
                    let (r3, s3) = d_packed_int(input, s2);
                    if let Ok(i) = r3 {
                        lemma_fields_only_append(input, s3, (i as usize) as nat);
                    }
                }
            },
            Tag::ObjectLink => lemma_link_only_appends(input, st, st1),
            Tag::Nil | Tag::True | Tag::False | Tag::Integer | Tag::Float | Tag::String | Tag::Symbol
            | Tag::Symlink | Tag::UserDef | Tag::RawRegexp | Tag::ClassRef | Tag::ModuleRef => {},
            _ => {
                let (r, s2) = d_symbol_either(input, st1);
                if r is Ok {
                    lemma_value_only_appends(input, s2);
                }
            },
        }
    }
}

/// Reading values in a row only adds to the tables.
#[verifier::spinoff_prover]
#[verifier::rlimit(40)]
pub proof fn lemma_values_only_append(input: Seq<u8>, cur: DecodeState, n: nat)
    ensures
        only_appends(cur, d_values(input, cur, n).1),
    decreases input.len() + 2 - cur.stack.len(), input.len() - cur.pos, n + 3,
{
    if d_sane(input, cur) && n > 0 {
        lemma_value_only_appends(input, cur);
        let (r, s1) = d_value(input, cur);
        if r is Ok && advanced(input, cur, s1) {
            lemma_values_only_append(input, s1, (n - 1) as nat);
        }
    }
}

/// Reading hash entries in a row only adds to the tables.
#[verifier::spinoff_prover]
#[verifier::rlimit(40)]
pub proof fn lemma_pairs_only_append(input: Seq<u8>, cur: DecodeState, n: nat)
    ensures
        only_appends(cur, d_pairs(input, cur, n).1),
    decreases input.len() + 2 - cur.stack.len(), input.len() - cur.pos, n + 3,
{
    if d_sane(input, cur) && n > 0 {
        lemma_value_only_appends(input, cur);
        let (rk, s1) = d_value(input, cur);
        if rk is Ok && advanced(input, cur, s1) {
            lemma_value_only_appends(input, s1);
            let (rv, s2) = d_value(input, s1);
            if rv is Ok && advanced(input, cur, s2) {
                lemma_pairs_only_append(input, s2, (n - 1) as nat);
            }
        }
    }
}

/// Skipping hash entries only adds to the tables.
#[verifier::spinoff_prover]
#[verifier::rlimit(40)]
pub proof fn lemma_skip_only_appends(input: Seq<u8>, cur: DecodeState, m: nat)
    ensures
        only_appends(cur, d_skip_pairs(input, cur, m).1),
    decreases input.len() + 2 - cur.stack.len(), input.len() - cur.pos, m + 3,
{
    if d_sane(input, cur) && m > 0 {
        lemma_value_only_appends(input, cur);
        let (rk, s1) = d_value(input, cur);
        if rk is Ok && advanced(input, cur, s1) {
            lemma_value_only_appends(input, s1);
            let (rv, s2) = d_value(input, s1);
            if rv is Ok && advanced(input, cur, s2) {
                lemma_skip_only_appends(input, s2, (m - 1) as nat);
            }
        }
    }
}

/// Reading instance variables in a row only adds to the tables.
#[verifier::spinoff_prover]
#[verifier::rlimit(40)]
pub proof fn lemma_fields_only_append(input: Seq<u8>, cur: DecodeState, n: nat)
    ensures
        only_appends(cur, d_fields(input, cur, n).1),
    decreases input.len() + 2 - cur.stack.len(), input.len() - cur.pos, n + 3,
{
    if d_sane(input, cur) && n > 0 {
        let (rs, s1) = d_symbol_either(input, cur);
        if rs is Ok && advanced(input, cur, s1) {
            lemma_value_only_appends(input, s1);
            let (rv, s2) = d_value(input, s1);
            if rv is Ok && advanced(input, cur, s2) {
                lemma_fields_only_append(input, s2, (n - 1) as nat);
            }
        }
    }
}


/// Reading the rest of a hash with a default only adds to the tables.
#[verifier::spinoff_prover]
#[verifier::rlimit(40)]
proof fn lemma_hash_default_only_appends(input: Seq<u8>, st: DecodeState, st1: DecodeState)
    requires
        d_sane(input, st),
        advanced(input, st, st1),
    ensures
        only_appends(st1, d_tagged(input, st, st1, Tag::HashDefault).1),
    decreases input.len() + 2 - st.stack.len(), input.len() - st.pos, 0int,
{
    let (r, s2) = d_packed_int(input, st1);
    if let Ok(i) = r {
        let n = (i as usize) as nat;
        lemma_pairs_only_append(input, s2, n);
        let (r3, s3, count) = d_pairs(input, s2, n);
        if advanced(input, st, s3) {
            match r3 {
                Ok(_) => {
                    lemma_value_only_appends(input, s3);
                },
                Err(_) => {
                    lemma_skip_only_appends(input, s3, (n - count) as nat);
                    let (r5, s5) = d_skip_pairs(input, s3, (n - count) as nat);
                    if r5 is Ok && advanced(input, st, s5) {
                        lemma_value_only_appends(input, s5);
                    }
                },
            }
        }
    }
}

/// Reading the rest of an instance only adds to the tables.
#[verifier::spinoff_prover]
#[verifier::rlimit(40)]
proof fn lemma_instance_only_appends(input: Seq<u8>, st: DecodeState, st1: DecodeState)
    requires
        d_sane(input, st),
        advanced(input, st, st1),
    ensures
        only_appends(st1, d_tagged(input, st, st1, Tag::Instance).1),
    decreases input.len() + 2 - st.stack.len(), input.len() - st.pos, 0int,
{
    let s1i = DecodeState { reading_instance: true, ..st1 };
    lemma_value_only_appends(input, s1i);
    let (r, s2) = d_value(input, s1i);
    if r is Ok && advanced(input, st, s2) {
        let (r3, s3) = d_usize(input, s2);
        if let Ok(n) = r3 {
            lemma_fields_only_append(input, s3, n as nat);
        }
    }
}

/// Following an object link only adds to the tables (it adds nothing).
#[verifier::spinoff_prover]
#[verifier::rlimit(40)]
proof fn lemma_link_only_appends(input: Seq<u8>, st: DecodeState, st1: DecodeState)
    requires
        d_sane(input, st),
        advanced(input, st, st1),
    ensures
        only_appends(st1, d_tagged(input, st, st1, Tag::ObjectLink).1),
    decreases input.len() + 2 - st.stack.len(), input.len() - st.pos, 0int,
{
    let (r, s2) = d_usize(input, st1);
    if let Ok(idx) = r {
        if idx < s2.objects.len() && !s2.stack.contains(s2.pos) {
            let target = s2.objects[idx as int];
            if s2.stack.len() <= input.len() && 0 <= target <= input.len() {
                let inner = DecodeState { pos: target, stack: s2.stack.push(s2.pos), ..s2 };
                lemma_followed_value_records_nothing(input, inner);
            }
        }
    }
}

} // verus!
