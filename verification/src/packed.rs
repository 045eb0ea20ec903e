//! Marshal's packed integers: the variable-length encoding of integers and
//! lengths.
use vstd::prelude::*;

verus! {

/// `256` to the power `n`.
pub open spec fn pow256(n: nat) -> int
    decreases n,
{
    if n == 0 {
        1
    } else {
        256 * pow256((n - 1) as nat)
    }
}

/// The little-endian unsigned number that a sequence of bytes spells.
pub open spec fn le_value(bytes: Seq<u8>) -> int
    decreases bytes.len(),
{
    if bytes.len() == 0 {
        0
    } else {
        le_value(bytes.drop_last()) + bytes.last() * pow256((bytes.len() - 1) as nat)
    }
}

/// The bytes that the encoder emits after the length byte: the low byte of
/// `v`, then of `v` shifted right by eight bits, and so on, stopping once the
/// shifted value is `0` or `-1`, and after at most `k` bytes.
pub open spec fn int_digits(v: int, k: nat) -> Seq<u8>
    decreases k,
{
    if k == 0 {
        Seq::empty()
    } else {
        let b = (v % 256) as u8;
        let r = v / 256;
        if r == 0 || r == -1 || k == 1 {
            seq![b]
        } else {
            seq![b] + int_digits(r, (k - 1) as nat)
        }
    }
}

/// What is left of `v` after the bytes of [`int_digits`] were shifted out.
pub open spec fn int_rest(v: int, k: nat) -> int
    decreases k,
{
    if k == 0 {
        v
    } else {
        let r = v / 256;
        if r == 0 || r == -1 || k == 1 {
            r
        } else {
            int_rest(r, (k - 1) as nat)
        }
    }
}

/// The packed encoding of an integer: one byte for `-122..=122`, otherwise
/// a length byte (the byte count, negated for negative numbers) followed by
/// up to four little-endian bytes.
pub open spec fn packed_int(v: i64) -> Seq<u8> {
    if v == 0 {
        seq![0u8]
    } else if 1 <= v <= 122 {
        seq![(v + 5) as u8]
    } else if -122 <= v <= -1 {
        seq![(v + 251) as u8]
    } else {
        let d = int_digits(v as int, 4);
        let l = if int_rest(v as int, 4) < 0 {
            256 - d.len()
        } else {
            d.len() as int
        };
        seq![l as u8] + d
    }
}

/// A byte read as a signed 8-bit number.
pub open spec fn signed_byte(b: u8) -> int {
    if b < 128 {
        b as int
    } else {
        b - 256
    }
}

/// The 32-bit signed integer with the same low 32 bits as `x`
/// (for `0 <= x < 2^32`).
pub open spec fn wrap_i32(x: int) -> i32 {
    if x >= 0x8000_0000 {
        (x - 0x1_0000_0000) as i32
    } else {
        x as i32
    }
}

/// How a packed integer is read: `Some((value, bytes used))`, or `None` when
/// the bytes run out first.
pub open spec fn unpack_int(bytes: Seq<u8>) -> Option<(i32, nat)> {
    if bytes.len() == 0 {
        None
    } else {
        let c = signed_byte(bytes[0]);
        if c == 0 {
            Some((0i32, 1nat))
        } else if c >= 5 {
            Some(((c - 5) as i32, 1nat))
        } else if c <= -5 {
            Some(((c + 5) as i32, 1nat))
        } else {
            let n: nat = if c > 0 { c as nat } else { (-c) as nat };
            if bytes.len() < 1 + n {
                None
            } else {
                let le = le_value(bytes.subrange(1, 1 + n as int));
                let v = if c > 0 { wrap_i32(le) } else { wrap_i32(le + 0x1_0000_0000 - pow256(n)) };
                Some((v, (1 + n) as nat))
            }
        }
    }
}

pub proof fn lemma_pow256_values()
    ensures
        pow256(0) == 1,
        pow256(1) == 256,
        pow256(2) == 65536,
        pow256(3) == 16777216,
        pow256(4) == 0x1_0000_0000,
{
    reveal_with_fuel(pow256, 5);
}

/// Reading a number back from its digits: the digits spell `v` up to the part
/// that was shifted out.
proof fn lemma_digits_value(v: int, k: nat)
    requires
        k >= 1,
    ensures
        int_digits(v, k).len() >= 1,
        int_digits(v, k).len() <= k,
        v == le_value(int_digits(v, k)) + pow256(int_digits(v, k).len()) * int_rest(v, k),
    decreases k,
{
    let b = (v % 256) as u8;
    let r = v / 256;
    assert(v == b + 256 * r);
    if r == 0 || r == -1 || k == 1 {
        assert(int_digits(v, k) =~= seq![b]);
        assert(seq![b].drop_last() =~= Seq::<u8>::empty());
        reveal_with_fuel(pow256, 2);
        reveal_with_fuel(le_value, 2);
    } else {
        let rest = int_digits(r, (k - 1) as nat);
        lemma_digits_value(r, (k - 1) as nat);
        lemma_le_prepend(b, rest);
        lemma_pow256_succ(rest.len());
        assert(int_digits(v, k) =~= seq![b] + rest);
        assert(v == b + 256 * (le_value(rest) + pow256(rest.len()) * int_rest(r, (k - 1) as nat)))
            by (nonlinear_arith)
            requires
                v == b + 256 * r,
                r == le_value(rest) + pow256(rest.len()) * int_rest(r, (k - 1) as nat),
        ;
        assert(256 * (pow256(rest.len()) * int_rest(r, (k - 1) as nat)) == pow256(rest.len() + 1)
            * int_rest(r, (k - 1) as nat)) by (nonlinear_arith)
            requires
                pow256(rest.len() + 1) == 256 * pow256(rest.len()),
        ;
    }
}

proof fn lemma_pow256_succ(n: nat)
    ensures
        pow256(n + 1) == 256 * pow256(n),
        pow256(n) >= 1,
    decreases n,
{
    reveal_with_fuel(pow256, 2);
    if n > 0 {
        lemma_pow256_succ((n - 1) as nat);
    }
}

/// Putting a byte in front of a little-endian number multiplies it by 256.
proof fn lemma_le_prepend(b: u8, s: Seq<u8>)
    ensures
        le_value(seq![b] + s) == b + 256 * le_value(s),
    decreases s.len(),
{
    if s.len() == 0 {
        assert((seq![b] + s).drop_last() =~= Seq::<u8>::empty());
        reveal_with_fuel(le_value, 2);
    } else {
        let t = seq![b] + s;
        assert(t.drop_last() =~= seq![b] + s.drop_last());
        lemma_le_prepend(b, s.drop_last());
        lemma_pow256_succ((s.len() - 1) as nat);
        assert(t.last() == s.last());
        assert(256 * (s.last() * pow256((s.len() - 1) as nat)) == s.last() * pow256(s.len() as nat))
            by (nonlinear_arith)
            requires
                pow256(s.len() as nat) == 256 * pow256((s.len() - 1) as nat),
        ;
    }
}

/// A little-endian number of `n` bytes is below `256^n`.
proof fn lemma_le_bound(s: Seq<u8>)
    ensures
        0 <= le_value(s) < pow256(s.len()),
    decreases s.len(),
{
    if s.len() > 0 {
        lemma_le_bound(s.drop_last());
        lemma_pow256_succ((s.len() - 1) as nat);
        let p = pow256((s.len() - 1) as nat);
        assert(le_value(s.drop_last()) + s.last() * p < pow256(s.len())) by (nonlinear_arith)
            requires
                0 <= le_value(s.drop_last()) < p,
                0 <= s.last() <= 255,
                pow256(s.len()) == 256 * p,
        ;
        assert(s.last() * p >= 0) by (nonlinear_arith)
            requires
                p >= 1,
        ;
    }
}

/// After at most four shifts by eight bits, a 32-bit number is `0` or `-1`.
proof fn lemma_rest_small(v: int, k: nat, bound: int)
    requires
        1 <= k,
        bound == pow256(k) / 2,
        -bound <= v < bound,
    ensures
        int_rest(v, k) == 0 || int_rest(v, k) == -1,
    decreases k,
{
    let r = v / 256;
    if r == 0 || r == -1 || k == 1 {
        if k == 1 {
            reveal_with_fuel(pow256, 2);
        }
    } else {
        lemma_pow256_succ((k - 1) as nat);
        let b2 = pow256((k - 1) as nat) / 2;
        lemma_pow_half((k - 1) as nat);
        assert(-b2 <= r < b2);
        lemma_rest_small(r, (k - 1) as nat, b2);
    }
}

proof fn lemma_pow_half(n: nat)
    ensures
        n >= 1 ==> pow256(n) / 2 * 256 == pow256(n + 1) / 2,
        n >= 1 ==> pow256(n) % 2 == 0,
{
    lemma_pow256_succ(n);
    if n >= 1 {
        lemma_pow256_succ((n - 1) as nat);
        assert(pow256(n) == 256 * pow256((n - 1) as nat));
    }
}

/// Reading the packed encoding of a 32-bit integer gives the integer back
/// and uses exactly the encoded bytes, whatever follows them.
pub proof fn lemma_packed_int_roundtrip(v: i32, rest: Seq<u8>)
    ensures
        unpack_int(packed_int(v as i64) + rest) == Some((v, packed_int(v as i64).len())),
        1 <= packed_int(v as i64).len() <= 5,
{
    let e = packed_int(v as i64);
    let s = e + rest;
    lemma_pow256_values();
    if v == 0 {
    } else if 1 <= v <= 122 {
        assert(s[0] == e[0]);
    } else if -122 <= v <= -1 {
        assert(s[0] == e[0]);
    } else {
        let d = int_digits(v as int, 4);
        lemma_digits_value(v as int, 4);
        reveal_with_fuel(pow256, 5);
        lemma_rest_small(v as int, 4, 0x8000_0000);
        let r = int_rest(v as int, 4);
        let n = d.len();
        assert(1 <= n <= 4);
        assert(s[0] == e[0]);
        assert(s.subrange(1, 1 + n as int) =~= d);
        lemma_le_bound(d);
        if r == 0 {
            assert(signed_byte(e[0]) == n);
            assert(pow256(n) * r == 0) by (nonlinear_arith) requires r == 0;
            assert(v == le_value(d));
        } else {
            assert(signed_byte(e[0]) == -(n as int));
            assert(pow256(n) * r == -pow256(n)) by (nonlinear_arith) requires r == -1;
            assert(v == le_value(d) - pow256(n));
            assert(n <= 4);
        }
    }
}

proof fn lemma_shift_byte(w: i64)
    ensures
        (w & 255) as int == w % 256,
        (w >> 8) as int == w / 256,
        0 <= w & 255 < 256,
{
    assert((w & 255) as int == w % 256) by (bit_vector);
    assert((w >> 8) as int == w / 256) by (bit_vector);
    assert(0 <= w & 255 < 256) by (bit_vector);
}

/// Appends the packed encoding of `v` to `out`.
pub fn push_packed_int(out: &mut Vec<u8>, v: i64)
    ensures
        final(out)@ == old(out)@ + packed_int(v),
{
    if v == 0 {
        out.push(0);
    } else if 1 <= v && v <= 122 {
        out.push((v + 5) as u8);
    } else if -122 <= v && v <= 0 {
        out.push((256 + v - 5) as u8);
    } else {
        let mut res: Vec<u8> = Vec::new();
        let mut w = v;
        let mut i: usize = 0;
        let mut done = false;
        while !done
            invariant
                i <= 4,
                done ==> res@ == int_digits(v as int, 4) && w as int == int_rest(v as int, 4),
                !done ==> i < 4 && int_digits(v as int, 4) == res@ + int_digits(
                    w as int,
                    (4 - i) as nat,
                ) && int_rest(v as int, 4) == int_rest(w as int, (4 - i) as nat),
                res@.len() == i,
            decreases 4 - i,
        {
            proof {
                lemma_shift_byte(w);
            }
            let b = (w & 255) as u8;
            let ghost k = (4 - i) as nat;
            let ghost old_w = w as int;
            res.push(b);
            w = w >> 8;
            i = i + 1;
            if w == 0 || w == -1 || i == 4 {
                done = true;
                assert(int_digits(old_w, k) =~= seq![b]);
            } else {
                assert(int_digits(old_w, k) =~= seq![b] + int_digits(w as int, (k - 1) as nat));
            }
        }
        proof {
            lemma_digits_value(v as int, 4);
        }
        let l_byte: u8 = if w < 0 {
            (256 - res.len()) as u8
        } else {
            res.len() as u8
        };
        out.push(l_byte);
        out.append(&mut res);
    }
}

/// A byte read as a signed 8-bit number, as `as i8` reads it.
pub proof fn lemma_signed_byte(b: u8)
    ensures
        (b as i8) as int == signed_byte(b),
{
    assert((b as i8) as int == if b < 128 {
        b as int
    } else {
        b as int - 256
    }) by (bit_vector);
}

/// Reinterpreting 32 bits as a signed number.
pub proof fn lemma_wrap_i32(x: u32)
    ensures
        x as i32 == wrap_i32(x as int),
{
    assert((x as i32) as int == if x >= 0x8000_0000 {
        x as int - 0x1_0000_0000
    } else {
        x as int
    }) by (bit_vector);
}

/// Or-ing byte `i` into a number below `256^i` adds it at that place.
pub proof fn lemma_or_byte(x: u32, b: u8, i: u32)
    requires
        i < 4,
        (x as int) < pow256(i as nat),
    ensures
        (x | ((b as u32) << (8 * i))) as int == x + b * pow256(i as nat),
{
    lemma_pow256_values();
    if i == 0 {
        assert(x == 0u32 ==> (x | ((b as u32) << 0u32)) == b as u32) by (bit_vector);
    } else if i == 1 {
        assert(x < 256u32 ==> (x | ((b as u32) << 8u32)) == x + (b as u32) * 256) by (bit_vector);
    } else if i == 2 {
        assert(x < 65536u32 ==> (x | ((b as u32) << 16u32)) == x + (b as u32) * 65536)
            by (bit_vector);
    } else {
        assert(x < 16777216u32 ==> (x | ((b as u32) << 24u32)) == x + (b as u32) * 16777216)
            by (bit_vector);
    }
}

/// Replacing byte `i` of a number whose higher bytes are all ones.
pub proof fn lemma_set_byte(x: u32, b: u8, i: u32)
    requires
        i < 4,
        x as int >= 0x1_0000_0000 - pow256(i as nat),
    ensures
        ((x & !(0xFFu32 << (8 * i))) | ((b as u32) << (8 * i))) as int == x + b * pow256(i as nat)
            - 255 * pow256(i as nat),
{
    lemma_pow256_values();
    if i == 0 {
        assert(x == 0xFFFF_FFFFu32 ==> ((x & !(0xFFu32 << 0u32)) | ((b as u32) << 0u32)) as int
            == x as int + b as int - 255) by (bit_vector);
    } else if i == 1 {
        assert(x >= 0xFFFF_FF00u32 ==> ((x & !(0xFFu32 << 8u32)) | ((b as u32) << 8u32)) as int
            == x as int + (b as int) * 256 - 255 * 256) by (bit_vector);
    } else if i == 2 {
        assert(x >= 0xFFFF_0000u32 ==> ((x & !(0xFFu32 << 16u32)) | ((b as u32) << 16u32)) as int
            == x as int + (b as int) * 65536 - 255 * 65536) by (bit_vector);
    } else {
        assert(x >= 0xFF00_0000u32 ==> ((x & !(0xFFu32 << 24u32)) | ((b as u32) << 24u32)) as int
            == x as int + (b as int) * 16777216 - 255 * 16777216) by (bit_vector);
    }
}

/// Adding a byte at the end of a little-endian number.
pub proof fn lemma_le_push(s: Seq<u8>, b: u8)
    ensures
        le_value(s.push(b)) == le_value(s) + b * pow256(s.len()),
{
    assert(s.push(b).drop_last() =~= s);
}

/// A little-endian number of `n` bytes is below `256^n`.
pub proof fn lemma_le_bound_pub(s: Seq<u8>)
    ensures
        0 <= le_value(s) < pow256(s.len()),
{
    lemma_le_bound(s);
}

/// `256^(n+1) == 256 * 256^n`.
pub proof fn lemma_pow256_succ_pub(n: nat)
    ensures
        pow256(n + 1) == 256 * pow256(n),
        pow256(n) >= 1,
{
    lemma_pow256_succ(n);
}

} // verus!
