//! Byte-level encodings shared by the header and pixel codecs: little-endian
//! fixed-width integers, two's-complement signed values, zero padding and
//! trimming of fixed-width text slots.
use vstd::prelude::*;

verus! {

/// 256 to the power `n`: the number of values of an `n`-byte field.
pub open spec fn byte_base(n: nat) -> int
    decreases n,
{
    if n == 0 {
        1
    } else {
        256 * byte_base((n - 1) as nat)
    }
}

/// The unsigned value of the `n` bytes of `s` starting at `off`, read
/// little-endian (least significant byte first).
pub open spec fn le_val(s: Seq<u8>, off: int, n: int) -> int
    decreases n,
{
    if n <= 0 {
        0
    } else {
        s[off] + 256 * le_val(s, off + 1, n - 1)
    }
}

/// The `n` little-endian bytes of the value `v` (taken modulo `byte_base(n)`).
pub open spec fn le_bytes_of(v: int, n: nat) -> Seq<u8>
    decreases n,
{
    if n == 0 {
        Seq::empty()
    } else {
        seq![(v % 256) as u8] + le_bytes_of(v / 256, (n - 1) as nat)
    }
}

pub proof fn lemma_byte_base_values()
    ensures
        byte_base(1) == 0x100,
        byte_base(2) == 0x1_0000,
        byte_base(4) == 0x1_0000_0000,
        byte_base(8) == 0x1_0000_0000_0000_0000,
{
    reveal_with_fuel(byte_base, 9);
}

/// A little-endian read is always within the range of its width.
pub proof fn lemma_le_val_bound(s: Seq<u8>, off: int, n: nat)
    ensures
        0 <= le_val(s, off, n as int) < byte_base(n),
    decreases n,
{
    if n > 0 {
        lemma_le_val_bound(s, off + 1, (n - 1) as nat);
    }
}

pub broadcast proof fn lemma_le_bytes_of_len(v: int, n: nat)
    ensures
        (#[trigger] le_bytes_of(v, n)).len() == n,
    decreases n,
{
    if n > 0 {
        lemma_le_bytes_of_len(v / 256, (n - 1) as nat);
    }
}

/// Reading equal bytes at two places gives equal values.
pub proof fn lemma_le_val_shift(s1: Seq<u8>, off1: int, s2: Seq<u8>, off2: int, n: nat)
    requires
        forall|j: int| 0 <= j < n ==> #[trigger] s1[off1 + j] == s2[off2 + j],
    ensures
        le_val(s1, off1, n as int) == le_val(s2, off2, n as int),
    decreases n,
{
    if n > 0 {
        assert(s1[off1 + 0] == s2[off2 + 0]);
        assert forall|j: int| 0 <= j < n - 1 implies #[trigger] s1[(off1 + 1) + j] == s2[(off2 + 1)
            + j] by {
            assert(s1[off1 + (j + 1)] == s2[off2 + (j + 1)]);
        }
        lemma_le_val_shift(s1, off1 + 1, s2, off2 + 1, (n - 1) as nat);
    }
}

/// Reading back the little-endian bytes of an in-range value gives the value.
pub proof fn lemma_le_val_of_bytes(v: int, n: nat)
    requires
        0 <= v < byte_base(n),
    ensures
        le_val(le_bytes_of(v, n), 0, n as int) == v,
    decreases n,
{
    if n > 0 {
        let rest = le_bytes_of(v / 256, (n - 1) as nat);
        let whole = seq![(v % 256) as u8] + rest;
        lemma_le_bytes_of_len(v / 256, (n - 1) as nat);
        assert(le_val(whole, 0, n as int) == whole[0] + 256 * le_val(whole, 1, n as int - 1));
        assert forall|j: int| 0 <= j < n - 1 implies #[trigger] whole[1 + j] == rest[0 + j] by {}
        lemma_le_val_shift(whole, 1, rest, 0, (n - 1) as nat);
        lemma_le_val_of_bytes(v / 256, (n - 1) as nat);
        assert(v == 256 * (v / 256) + v % 256) by {
            vstd::arithmetic::div_mod::lemma_fundamental_div_mod(v, 256);
        }
    }
}

/// The little-endian bytes of the value read at `off` are exactly the bytes
/// at `off`.
pub proof fn lemma_le_bytes_of_val(s: Seq<u8>, off: int, n: nat)
    requires
        0 <= off,
        off + n <= s.len(),
    ensures
        le_bytes_of(le_val(s, off, n as int), n) == s.subrange(off, off + n),
    decreases n,
{
    if n == 0 {
        assert(le_bytes_of(0, 0) =~= s.subrange(off, off));
    } else {
        let v = le_val(s, off, n as int);
        let lo = s[off] as int;
        let hi = le_val(s, off + 1, n as int - 1);
        lemma_le_val_bound(s, off + 1, (n - 1) as nat);
        assert(v == lo + 256 * hi);
        assert(v % 256 == lo && v / 256 == hi) by {
            vstd::arithmetic::div_mod::lemma_fundamental_div_mod_converse(v, 256, hi, lo);
        }
        lemma_le_bytes_of_val(s, off + 1, (n - 1) as nat);
        assert(le_bytes_of(v, n) =~= s.subrange(off, off + n));
    }
}

/// The unsigned `n`-byte representation of the signed value `d`.
pub open spec fn twoc_of(d: int, n: nat) -> int {
    if d < 0 {
        d + byte_base(n)
    } else {
        d
    }
}

/// The signed value of the unsigned `n`-byte representation `u`.
pub open spec fn signed_of(u: int, n: nat) -> int {
    if u >= byte_base(n) / 2 {
        u - byte_base(n)
    } else {
        u
    }
}

/// Two's-complement round trip for values within the signed range.
pub proof fn lemma_twoc_round(d: int, n: nat)
    requires
        -byte_base(n) / 2 <= d < byte_base(n) / 2,
    ensures
        0 <= twoc_of(d, n) < byte_base(n),
        signed_of(twoc_of(d, n), n) == d,
{
    if n == 0 {
    } else {
        assert(byte_base(n) == 256 * byte_base((n - 1) as nat));
        assert(byte_base((n - 1) as nat) >= 1) by {
            lemma_byte_base_positive((n - 1) as nat);
        }
    }
}

pub proof fn lemma_byte_base_positive(n: nat)
    ensures
        byte_base(n) >= 1,
    decreases n,
{
    if n > 0 {
        lemma_byte_base_positive((n - 1) as nat);
    }
}

/// `s` truncated or zero-padded to exactly `n` bytes: the wire form of a
/// fixed-width text slot.
pub open spec fn pad_bytes(s: Seq<u8>, n: nat) -> Seq<u8> {
    Seq::new(n, |i: int| if i < s.len() { s[i] } else { 0u8 })
}

/// `s` with every trailing zero byte removed: the in-memory form of a
/// fixed-width text slot.
pub open spec fn trim_zeros(s: Seq<u8>) -> Seq<u8>
    decreases s.len(),
{
    if s.len() > 0 && s[s.len() - 1] == 0 {
        trim_zeros(s.drop_last())
    } else {
        s
    }
}

/// Trimming leaves a prefix with no trailing zero.
pub proof fn lemma_trim_zeros_shape(s: Seq<u8>)
    ensures
        trim_zeros(s).len() <= s.len(),
        forall|i: int| 0 <= i < trim_zeros(s).len() ==> trim_zeros(s)[i] == s[i],
        trim_zeros(s).len() > 0 ==> trim_zeros(s)[trim_zeros(s).len() - 1] != 0,
        forall|i: int| trim_zeros(s).len() <= i < s.len() ==> s[i] == 0,
    decreases s.len(),
{
    if s.len() > 0 && s[s.len() - 1] == 0 {
        let d = s.drop_last();
        lemma_trim_zeros_shape(d);
        assert(trim_zeros(s) == trim_zeros(d));
        assert forall|i: int| 0 <= i < trim_zeros(s).len() implies trim_zeros(s)[i] == s[i] by {
            assert(trim_zeros(d)[i] == d[i]);
            assert(d[i] == s[i]);
        }
        assert forall|i: int| trim_zeros(s).len() <= i < s.len() implies s[i] == 0 by {
            if i < s.len() - 1 {
                assert(d[i] == 0);
            }
        }
    }
}

/// Trimming the padded form of an already-trimmed field restores the field.
pub proof fn lemma_trim_pad(s: Seq<u8>, n: nat)
    requires
        s.len() <= n,
        trim_zeros(s) == s,
    ensures
        trim_zeros(pad_bytes(s, n)) == s,
    decreases n,
{
    let p = pad_bytes(s, n);
    if n == s.len() {
        assert(p =~= s);
    } else {
        assert(p[n - 1] == 0);
        assert(p.drop_last() =~= pad_bytes(s, (n - 1) as nat));
        lemma_trim_pad(s, (n - 1) as nat);
    }
}

/// Padding the trimmed form of a full slot back to the slot width restores
/// the slot.
pub proof fn lemma_pad_trim(s: Seq<u8>)
    ensures
        pad_bytes(trim_zeros(s), s.len()) == s,
{
    lemma_trim_zeros_shape(s);
    assert(pad_bytes(trim_zeros(s), s.len()) =~= s);
}

/// Reads the little-endian 32-bit value at `off`.
pub fn read_le_u32(raw: &Vec<u8>, off: usize) -> (v: u32)
    requires
        off + 4 <= raw@.len(),
    ensures
        v as int == le_val(raw@, off as int, 4),
{
    let _n = raw.len();
    let b0 = raw[off] as u32;
    let b1 = raw[off + 1] as u32;
    let b2 = raw[off + 2] as u32;
    let b3 = raw[off + 3] as u32;
    proof {
        let s = raw@;
        let o = off as int;
        reveal_with_fuel(le_val, 5);
        assert(le_val(s, o, 4) == s[o] + 256 * (s[o + 1] + 256 * (s[o + 2] + 256 * (s[o + 3] + 256
            * le_val(s, o + 4, 0)))));
    }
    b0 + 0x100 * b1 + 0x1_0000 * b2 + 0x100_0000 * b3
}

/// Reads the little-endian 64-bit value at `off`.
pub fn read_le_u64(raw: &Vec<u8>, off: usize) -> (v: u64)
    requires
        off + 8 <= raw@.len(),
    ensures
        v as int == le_val(raw@, off as int, 8),
{
    let _n = raw.len();
    let lo = read_le_u32(raw, off) as u64;
    let hi = read_le_u32(raw, off + 4) as u64;
    proof {
        let s = raw@;
        let o = off as int;
        lemma_le_val_split(s, o, 4, 4);
        lemma_le_val_bound(s, o, 4);
        lemma_le_val_bound(s, o + 4, 4);
        lemma_byte_base_values();
    }
    lo + 0x1_0000_0000 * hi
}

/// A little-endian read of `m + n` bytes splits at byte `m`.
pub proof fn lemma_le_val_split(s: Seq<u8>, off: int, m: nat, n: nat)
    ensures
        le_val(s, off, m + n as int) == le_val(s, off, m as int) + byte_base(m) * le_val(
            s,
            off + m,
            n as int,
        ),
    decreases m,
{
    if m == 0 {
    } else {
        lemma_le_val_split(s, off + 1, (m - 1) as nat, n);
        vstd::arithmetic::mul::lemma_mul_is_associative(
            256,
            byte_base((m - 1) as nat),
            le_val(s, off + m, n as int),
        );
        vstd::arithmetic::mul::lemma_mul_is_distributive_add(
            256,
            le_val(s, off + 1, m as int - 1),
            byte_base((m - 1) as nat) * le_val(s, off + m, n as int),
        );
    }
}

/// Appends the four little-endian bytes of `v`.
pub fn push_le_u32(out: &mut Vec<u8>, v: u32)
    ensures
        final(out)@ == old(out)@ + le_bytes_of(v as int, 4),
{
    let b0 = (v % 0x100) as u8;
    let b1 = ((v / 0x100) % 0x100) as u8;
    let b2 = ((v / 0x1_0000) % 0x100) as u8;
    let b3 = (v / 0x100_0000) as u8;
    out.push(b0);
    out.push(b1);
    out.push(b2);
    out.push(b3);
    proof {
        let x = v as int;
        vstd::arithmetic::div_mod::lemma_div_denominator(x, 256, 256);
        vstd::arithmetic::div_mod::lemma_div_denominator(x, 0x1_0000, 256);
        assert(x / 256 / 256 == x / 0x1_0000);
        assert(x / 0x1_0000 / 256 == x / 0x100_0000);
        reveal_with_fuel(le_bytes_of, 5);
        assert(le_bytes_of(x, 4) =~= seq![b0] + (seq![b1] + (seq![b2] + (seq![b3]
            + Seq::<u8>::empty()))));
        assert(out@ =~= old(out)@ + le_bytes_of(x, 4));
    }
}

/// Appends the eight little-endian bytes of `v`.
pub fn push_le_u64(out: &mut Vec<u8>, v: u64)
    ensures
        final(out)@ == old(out)@ + le_bytes_of(v as int, 8),
{
    let lo = (v % 0x1_0000_0000) as u32;
    let hi = (v / 0x1_0000_0000) as u32;
    push_le_u32(out, lo);
    push_le_u32(out, hi);
    proof {
        let x = v as int;
        lemma_byte_base_values();
        lemma_le_bytes_of_split(x % 0x1_0000_0000, x / 0x1_0000_0000, 4, 4);
        vstd::arithmetic::div_mod::lemma_fundamental_div_mod(x, 0x1_0000_0000);
        assert(le_bytes_of(x, 8) == le_bytes_of(lo as int, 4) + le_bytes_of(hi as int, 4));
        assert(out@ =~= old(out)@ + le_bytes_of(x, 8));
    }
}

/// The little-endian bytes of `lo + byte_base(m) * hi` are the bytes of
/// `lo` followed by the bytes of `hi`, when `lo` fits in `m` bytes.
pub proof fn lemma_le_bytes_of_split(lo: int, hi: int, m: nat, n: nat)
    requires
        0 <= lo < byte_base(m),
        0 <= hi,
    ensures
        le_bytes_of(lo + byte_base(m) * hi, (m + n) as nat) == le_bytes_of(lo, m) + le_bytes_of(
            hi,
            n,
        ),
    decreases m,
{
    let v = lo + byte_base(m) * hi;
    if m == 0 {
        assert(v == hi);
        assert(le_bytes_of(lo, 0) =~= Seq::<u8>::empty());
        assert(le_bytes_of(lo, 0) + le_bytes_of(hi, n) =~= le_bytes_of(hi, n));
    } else {
        assert(byte_base(m) == 256 * byte_base((m - 1) as nat));
        lemma_byte_base_positive((m - 1) as nat);
        assert(v == lo % 256 + 256 * (lo / 256 + byte_base((m - 1) as nat) * hi)) by {
            vstd::arithmetic::div_mod::lemma_fundamental_div_mod(lo, 256);
            vstd::arithmetic::mul::lemma_mul_is_associative(256, byte_base((m - 1) as nat), hi);
            vstd::arithmetic::mul::lemma_mul_is_distributive_add(
                256,
                lo / 256,
                byte_base((m - 1) as nat) * hi,
            );
        }
        assert(0 <= lo / 256 + byte_base((m - 1) as nat) * hi) by {
            vstd::arithmetic::mul::lemma_mul_nonnegative(byte_base((m - 1) as nat), hi);
        }
        assert(v % 256 == lo % 256 && v / 256 == lo / 256 + byte_base((m - 1) as nat) * hi) by {
            vstd::arithmetic::div_mod::lemma_fundamental_div_mod_converse(
                v,
                256,
                lo / 256 + byte_base((m - 1) as nat) * hi,
                lo % 256,
            );
        }
        assert(lo / 256 < byte_base((m - 1) as nat)) by {
            vstd::arithmetic::div_mod::lemma_multiply_divide_lt(lo, 256, byte_base((m - 1) as nat));
        }
        lemma_le_bytes_of_split(lo / 256, hi, (m - 1) as nat, n);
        assert(le_bytes_of(v, (m + n) as nat) =~= le_bytes_of(lo, m) + le_bytes_of(hi, n));
    }
}

/// A UTF-8 continuation byte (`10xxxxxx`).
pub open spec fn is_cont(b: u8) -> bool {
    0x80 <= b < 0xC0
}

/// Number of bytes of the UTF-8 character introduced by lead byte `b0`.
pub open spec fn utf8_step(b0: u8) -> int {
    if b0 < 0x80 {
        1
    } else if b0 < 0xE0 {
        2
    } else if b0 < 0xF0 {
        3
    } else {
        4
    }
}

/// Whether `s` is well-formed UTF-8: no overlong forms, no surrogate
/// code points, nothing beyond U+10FFFF.
pub open spec fn is_utf8(s: Seq<u8>) -> bool
    decreases s.len(),
{
    if s.len() == 0 {
        true
    } else {
        let b0 = s[0];
        if b0 < 0x80 {
            is_utf8(s.skip(1))
        } else if b0 < 0xC2 {
            false
        } else if b0 < 0xE0 {
            s.len() >= 2 && is_cont(s[1]) && is_utf8(s.skip(2))
        } else if b0 == 0xE0 {
            s.len() >= 3 && 0xA0 <= s[1] < 0xC0 && is_cont(s[2]) && is_utf8(s.skip(3))
        } else if b0 < 0xED {
            s.len() >= 3 && is_cont(s[1]) && is_cont(s[2]) && is_utf8(s.skip(3))
        } else if b0 == 0xED {
            s.len() >= 3 && 0x80 <= s[1] < 0xA0 && is_cont(s[2]) && is_utf8(s.skip(3))
        } else if b0 < 0xF0 {
            s.len() >= 3 && is_cont(s[1]) && is_cont(s[2]) && is_utf8(s.skip(3))
        } else if b0 == 0xF0 {
            s.len() >= 4 && 0x90 <= s[1] < 0xC0 && is_cont(s[2]) && is_cont(s[3]) && is_utf8(
                s.skip(4),
            )
        } else if b0 < 0xF4 {
            s.len() >= 4 && is_cont(s[1]) && is_cont(s[2]) && is_cont(s[3]) && is_utf8(s.skip(4))
        } else if b0 == 0xF4 {
            s.len() >= 4 && 0x80 <= s[1] < 0x90 && is_cont(s[2]) && is_cont(s[3]) && is_utf8(
                s.skip(4),
            )
        } else {
            false
        }
    }
}

/// Concatenating well-formed UTF-8 sequences gives a well-formed
/// sequence: the encoding is self-synchronising at character bounds.
pub proof fn lemma_is_utf8_append(a: Seq<u8>, b: Seq<u8>)
    requires
        is_utf8(a),
        is_utf8(b),
    ensures
        is_utf8(a + b),
    decreases a.len(),
{
    if a.len() == 0 {
        assert(a + b =~= b);
    } else {
        let n = utf8_step(a[0]);
        assert(a.len() >= n);
        assert((a + b).skip(n) =~= a.skip(n) + b);
        lemma_is_utf8_append(a.skip(n), b);
    }
}

/// An all-ASCII sequence is well-formed UTF-8; in particular a run of
/// zero bytes is.
pub proof fn lemma_is_utf8_ascii(s: Seq<u8>)
    requires
        forall|i: int| 0 <= i < s.len() ==> s[i] < 0x80,
    ensures
        is_utf8(s),
    decreases s.len(),
{
    if s.len() > 0 {
        lemma_is_utf8_ascii(s.skip(1));
    }
}

/// Checks whether the bytes of `data` in `[start, end)` are well-formed
/// UTF-8.
pub fn utf8_range_valid(data: &Vec<u8>, start: usize, end: usize) -> (r: bool)
    requires
        start <= end <= data@.len(),
    ensures
        r == is_utf8(data@.subrange(start as int, end as int)),
{
    let ghost t = data@.subrange(start as int, end as int);
    let mut p = start;
    while p < end
        invariant
            start <= p <= end <= data@.len(),
            t == data@.subrange(start as int, end as int),
            is_utf8(t) == is_utf8(data@.subrange(p as int, end as int)),
        decreases end - p,
    {
        let ghost rem = data@.subrange(p as int, end as int);
        let b0 = data[p];
        assert(rem[0] == b0);
        let n: usize = if b0 < 0x80 {
            1
        } else if b0 < 0xE0 {
            2
        } else if b0 < 0xF0 {
            3
        } else {
            4
        };
        if b0 >= 0x80 && b0 < 0xC2 {
            assert(!is_utf8(rem));
            return false;
        }
        if b0 >= 0xF5 {
            assert(!is_utf8(rem));
            return false;
        }
        if end - p < n {
            assert(rem.len() < n);
            assert(!is_utf8(rem));
            return false;
        }
        if n >= 2 {
            let b1 = data[p + 1];
            assert(rem[1] == b1);
            let ok1: bool = if b0 == 0xE0 {
                0xA0 <= b1 && b1 < 0xC0
            } else if b0 == 0xED {
                0x80 <= b1 && b1 < 0xA0
            } else if b0 == 0xF0 {
                0x90 <= b1 && b1 < 0xC0
            } else if b0 == 0xF4 {
                0x80 <= b1 && b1 < 0x90
            } else {
                0x80 <= b1 && b1 < 0xC0
            };
            if !ok1 {
                assert(!is_utf8(rem));
                return false;
            }
        }
        if n >= 3 {
            let b2 = data[p + 2];
            assert(rem[2] == b2);
            if !(0x80 <= b2 && b2 < 0xC0) {
                assert(!is_utf8(rem));
                return false;
            }
        }
        if n >= 4 {
            let b3 = data[p + 3];
            assert(rem[3] == b3);
            if !(0x80 <= b3 && b3 < 0xC0) {
                assert(!is_utf8(rem));
                return false;
            }
        }
        proof {
            assert(utf8_step(b0) == n);
            assert(rem.skip(n as int) =~= data@.subrange(p as int + n, end as int));
            assert(is_utf8(rem) == is_utf8(data@.subrange(p as int + n, end as int)));
        }
        p = p + n;
    }
    proof {
        assert(data@.subrange(end as int, end as int) =~= Seq::<u8>::empty());
    }
    true
}

} // verus!
