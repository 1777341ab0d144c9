//! The pixel codec: reconstruction of a row-major grid of unsigned 32-bit
//! samples from a compressed payload, and the inverse transform.
//!
//! A payload is laid out as `[lookup table][raw-copy region][residuals]`.
//! The lookup table packs one 2-bit code per predicted pixel, four codes per
//! byte, least significant pair first; its byte length is
//! `width * (height - 1) / 4` (floor). The raw-copy region holds the first
//! `width + 1` pixels as little-endian 32-bit literals. Every following
//! pixel is predicted from its upper, left and upper-left neighbours and
//! corrected by a signed residual of 1, 2 or 4 bytes, the width selected by
//! the pixel's code (0, 1 or 2; 3 is reserved and invalid).
use crate::bytes::{
    byte_base, le_bytes_of, le_val, lemma_byte_base_values, lemma_le_bytes_of_len,
    lemma_le_val_bound, push_le_u32, read_le_u32, signed_of, twoc_of,
};
use crate::errors::{DecodeError, EncodeError};
use vstd::arithmetic::div_mod::{
    lemma_div_denominator, lemma_fundamental_div_mod, lemma_fundamental_div_mod_converse,
    lemma_mul_mod_noop_general,
};
use vstd::arithmetic::mul::{
    lemma_mul_inequality, lemma_mul_is_distributive_sub, lemma_mul_left_inequality,
    lemma_mul_upper_bound,
};
use vstd::prelude::*;

verus! {

// ------------------------------------------------------------------
// Dimensions and payload geometry
// ------------------------------------------------------------------

/// Byte length of the lookup-table region (floor division).
pub open spec fn lut_len(w: int, h: int) -> int {
    w * (h - 1) / 4
}

/// Number of coded (predicted) pixels: all pixels except the raw-copy
/// region of `w + 1` literals.
pub open spec fn n_coded(w: int, h: int) -> int {
    w * h - (w + 1)
}

/// Dimensions under which the payload layout is well formed: the lookup
/// table region must have room for one 2-bit code per coded pixel, which
/// holds exactly when `w * (h - 1)` is 0 or 1 modulo 4.
pub open spec fn dims_ok(w: int, h: int) -> bool {
    &&& 1 <= w
    &&& 2 <= h
    &&& (w * (h - 1)) % 4 <= 1
}

/// Start of the raw-copy (literal) region.
pub open spec fn lit_off(w: int, h: int) -> int {
    lut_len(w, h)
}

/// Start of the residual stream.
pub open spec fn resid_base(w: int, h: int) -> int {
    lut_len(w, h) + 4 * (w + 1)
}

/// The least possible payload length: every residual takes at least one
/// byte.
pub open spec fn min_len(w: int, h: int) -> int {
    resid_base(w, h) + n_coded(w, h)
}

/// Geometry facts that relate the pixel count, the coded-pixel count and
/// the lookup-table capacity.
pub proof fn lemma_dims(w: int, h: int)
    requires
        dims_ok(w, h),
    ensures
        n_coded(w, h) == w * (h - 1) - 1,
        0 <= n_coded(w, h),
        n_coded(w, h) <= 4 * lut_len(w, h),
        4 * lut_len(w, h) <= w * (h - 1),
        0 <= lut_len(w, h),
        w + 1 <= w * h,
{
    let n = w * (h - 1);
    lemma_mul_is_distributive_sub(w, h, 1);
    assert(n == w * h - w);
    assert(1 * 1 <= w * (h - 1)) by {
        lemma_mul_upper_bound(1, w, 1, h - 1);
    }
    lemma_fundamental_div_mod(n, 4);
    assert(n == 4 * (n / 4) + n % 4);
}

// ------------------------------------------------------------------
// Encoding: codes, lookup-table bytes, literals, residuals
// ------------------------------------------------------------------

/// Spatial predictor difference of pixel `i` (valid for `w + 1 <= i`):
/// the pixel value minus its prediction from the upper (`i - w`), left
/// (`i - 1`) and upper-left (`i - w - 1`) neighbours.
pub open spec fn diff_at(g: Seq<u32>, w: int, i: int) -> int {
    g[i] + g[i - w - 1] - g[i - 1] - g[i - w]
}

/// The 2-bit code of the narrowest signed width that represents `d`.
pub open spec fn code_of_diff(d: int) -> int {
    if -128 <= d < 128 {
        0
    } else if -0x8000 <= d < 0x8000 {
        1
    } else {
        2
    }
}

/// Residual byte width selected by a 2-bit code.
pub open spec fn code_width(c: int) -> nat {
    if c == 0 {
        1
    } else if c == 1 {
        2
    } else {
        4
    }
}

/// Whether `d` is representable as a signed 32-bit residual.
pub open spec fn in_i32(d: int) -> bool {
    -0x8000_0000 <= d < 0x8000_0000
}

/// The code of coded pixel `k` (pixel index `w + 1 + k`); zero beyond the
/// last coded pixel, matching the zero fill of the lookup table's tail.
pub open spec fn enc_code(g: Seq<u32>, w: int, h: int, k: int) -> int {
    if 0 <= k < n_coded(w, h) {
        code_of_diff(diff_at(g, w, k + w + 1))
    } else {
        0
    }
}

/// Place value of the 2-bit slot `t` within a lookup-table byte (slot 0 is
/// least significant). The value for `t == 4` is the byte's range bound.
pub open spec fn lut_weight(t: int) -> int {
    if t == 0 {
        1
    } else if t == 1 {
        4
    } else if t == 2 {
        16
    } else if t == 3 {
        64
    } else {
        256
    }
}

/// Value of lookup-table byte `j` after its first `c` codes are packed.
pub open spec fn lut_byte_prefix(g: Seq<u32>, w: int, h: int, j: int, c: int) -> int
    decreases c,
{
    if c <= 0 {
        0
    } else {
        lut_byte_prefix(g, w, h, j, c - 1) + enc_code(g, w, h, 4 * j + (c - 1)) * lut_weight(c - 1)
    }
}

/// Final value of lookup-table byte `j`: four packed codes.
pub open spec fn lut_byte(g: Seq<u32>, w: int, h: int, j: int) -> int {
    lut_byte_prefix(g, w, h, j, 4)
}

/// The encoded lookup-table region.
pub open spec fn enc_lut(g: Seq<u32>, w: int, h: int) -> Seq<u8> {
    Seq::new(lut_len(w, h) as nat, |j: int| lut_byte(g, w, h, j) as u8)
}

/// The encoded raw-copy region: the first `m` pixels as little-endian
/// 32-bit literals.
pub open spec fn enc_lits(g: Seq<u32>, m: int) -> Seq<u8>
    decreases m,
{
    if m <= 0 {
        Seq::empty()
    } else {
        enc_lits(g, m - 1) + le_bytes_of(g[m - 1] as int, 4)
    }
}

/// The residual bytes of difference `d`: its two's-complement form in the
/// narrowest representing width.
pub open spec fn resid_bytes(d: int) -> Seq<u8> {
    le_bytes_of(twoc_of(d, code_width(code_of_diff(d))), code_width(code_of_diff(d)))
}

/// The residual stream of the first `k` coded pixels.
pub open spec fn enc_resids(g: Seq<u32>, w: int, k: int) -> Seq<u8>
    decreases k,
{
    if k <= 0 {
        Seq::empty()
    } else {
        enc_resids(g, w, k - 1) + resid_bytes(diff_at(g, w, (k - 1) + w + 1))
    }
}

/// The full encoded payload of grid `g` at dimensions `w`, `h`.
pub open spec fn spec_encode(g: Seq<u32>, w: int, h: int) -> Seq<u8> {
    enc_lut(g, w, h) + enc_lits(g, w + 1) + enc_resids(g, w, n_coded(w, h))
}

/// Every predictor difference of the grid fits a signed 32-bit residual.
pub open spec fn diffs_in_i32(g: Seq<u32>, w: int, h: int) -> bool {
    forall|k: int| 0 <= k < n_coded(w, h) ==> in_i32(#[trigger] diff_at(g, w, k + w + 1))
}

/// The inputs on which encoding succeeds.
pub open spec fn encode_ok(g: Seq<u32>, w: int, h: int) -> bool {
    &&& dims_ok(w, h)
    &&& g.len() == w * h
    &&& diffs_in_i32(g, w, h)
}

/// A partially packed lookup-table byte stays below the place value of its
/// next slot, so the next code can be added without carrying.
pub proof fn lemma_lut_byte_prefix_bound(g: Seq<u32>, w: int, h: int, j: int, c: int)
    requires
        0 <= c <= 4,
    ensures
        0 <= lut_byte_prefix(g, w, h, j, c) < lut_weight(c),
    decreases c,
{
    if c > 0 {
        lemma_lut_byte_prefix_bound(g, w, h, j, c - 1);
        assert(0 <= enc_code(g, w, h, 4 * j + (c - 1)) <= 3);
    }
}

/// A lookup-table byte whose trailing slots hold code zero equals its
/// prefix of the leading slots.
pub proof fn lemma_lut_byte_tail_zero(g: Seq<u32>, w: int, h: int, j: int, c: int)
    requires
        0 <= c <= 4,
        forall|t: int| c <= t < 4 ==> #[trigger] enc_code(g, w, h, 4 * j + t) == 0,
    ensures
        lut_byte(g, w, h, j) == lut_byte_prefix(g, w, h, j, c),
    decreases 4 - c,
{
    if c < 4 {
        assert(enc_code(g, w, h, 4 * j + c) == 0);
        lemma_lut_byte_tail_zero(g, w, h, j, c + 1);
    }
}

/// The raw-copy region of `m` pixels is `4 * m` bytes, and each byte comes
/// from the literal of the pixel it falls under.
pub proof fn lemma_enc_lits_shape(g: Seq<u32>, m: int)
    requires
        0 <= m,
    ensures
        enc_lits(g, m).len() == 4 * m,
        forall|p: int|
            0 <= p < 4 * m ==> enc_lits(g, m)[p] == le_bytes_of(g[p / 4] as int, 4)[p % 4],
    decreases m,
{
    if m > 0 {
        lemma_enc_lits_shape(g, m - 1);
        lemma_le_bytes_of_len(g[m - 1] as int, 4);
        assert forall|p: int| 0 <= p < 4 * m implies enc_lits(g, m)[p] == le_bytes_of(
            g[p / 4] as int,
            4,
        )[p % 4] by {
            if p < 4 * (m - 1) {
                assert(enc_lits(g, m)[p] == enc_lits(g, m - 1)[p]);
            } else {
                assert(p / 4 == m - 1 && p % 4 == p - 4 * (m - 1)) by {
                    lemma_fundamental_div_mod_converse(p, 4, m - 1, p - 4 * (m - 1));
                }
                assert(enc_lits(g, m)[p] == le_bytes_of(g[m - 1] as int, 4)[p - 4 * (m - 1)]);
            }
        }
    }
}

// ------------------------------------------------------------------
// Decoding: codes, residual offsets, reconstructed pixels
// ------------------------------------------------------------------

/// The 2-bit code of coded pixel `k`, read from the lookup-table region at
/// the front of `raw` (four codes per byte, least significant pair first).
pub open spec fn dec_code(raw: Seq<u8>, k: int) -> int {
    (raw[k / 4] as int / lut_weight(k % 4)) % 4
}

/// No code of the payload holds the reserved value 3.
pub open spec fn codes_ok(raw: Seq<u8>, w: int, h: int) -> bool {
    forall|k: int| 0 <= k < n_coded(w, h) ==> #[trigger] dec_code(raw, k) != 3
}

/// Byte offset of the `k`-th residual: the residual stream starts after
/// the raw-copy region, and each earlier code fixes its residual's width.
pub open spec fn resid_off(raw: Seq<u8>, w: int, h: int, k: int) -> int
    decreases k,
{
    if k <= 0 {
        resid_base(w, h)
    } else {
        resid_off(raw, w, h, k - 1) + code_width(dec_code(raw, k - 1))
    }
}

/// The value of pixel `i` of the decoded grid, as an unbounded integer:
/// a literal for the raw-copy region, prediction plus signed residual
/// after it.
pub open spec fn dec_pix(raw: Seq<u8>, w: int, h: int, i: int) -> int
    decreases i,
{
    if w < 1 || i <= w {
        le_val(raw, lit_off(w, h) + 4 * i, 4)
    } else {
        let k = i - (w + 1);
        let wd = code_width(dec_code(raw, k));
        dec_pix(raw, w, h, i - w) + dec_pix(raw, w, h, i - 1) - dec_pix(raw, w, h, i - w - 1)
            + signed_of(le_val(raw, resid_off(raw, w, h, k), wd as int), wd)
    }
}

/// Every reconstructed pixel lies in the unsigned 32-bit range.
pub open spec fn pix_in_range(raw: Seq<u8>, w: int, h: int) -> bool {
    forall|i: int| 0 <= i < w * h ==> 0 <= #[trigger] dec_pix(raw, w, h, i) < 0x1_0000_0000
}

/// The payloads on which decoding succeeds.
pub open spec fn decode_ok(raw: Seq<u8>, w: int, h: int) -> bool {
    &&& dims_ok(w, h)
    &&& min_len(w, h) <= raw.len()
    &&& codes_ok(raw, w, h)
    &&& resid_off(raw, w, h, n_coded(w, h)) <= raw.len()
    &&& pix_in_range(raw, w, h)
}

/// Residual offsets grow by one to four bytes per code.
pub proof fn lemma_resid_off_bounds(raw: Seq<u8>, w: int, h: int, k1: int, k2: int)
    requires
        0 <= k1 <= k2,
    ensures
        resid_off(raw, w, h, k1) + (k2 - k1) <= resid_off(raw, w, h, k2),
        resid_off(raw, w, h, k2) <= resid_off(raw, w, h, k1) + 4 * (k2 - k1),
    decreases k2 - k1,
{
    if k1 < k2 {
        lemma_resid_off_bounds(raw, w, h, k1, k2 - 1);
        assert(1 <= code_width(dec_code(raw, k2 - 1)) <= 4);
    }
}

// ------------------------------------------------------------------
// Executable helpers
// ------------------------------------------------------------------

/// Reads the 2-bit code of coded pixel `k` from the lookup-table region.
fn lut_code_read(raw: &Vec<u8>, k: usize) -> (c: u8)
    requires
        k / 4 < raw@.len(),
    ensures
        c as int == dec_code(raw@, k as int),
        c <= 3,
{
    let b = raw[k / 4];
    let t = k % 4;
    let dv: u8 = if t == 0 {
        1
    } else if t == 1 {
        4
    } else if t == 2 {
        16
    } else {
        64
    };
    (b / dv) % 4
}

/// Appends the minimal-width two's-complement residual of `diff` and packs
/// the corresponding 2-bit code into the lookup-table byte at `lut_idx`,
/// advancing the (byte, slot) cursor over the lookup table.
pub fn compress_data_impl(
    hnd_data: &mut Vec<u8>,
    diff: i64,
    lut_off: &mut usize,
    lut_idx: &mut usize,
)
    requires
        in_i32(diff as int),
        *old(lut_off) < 4,
        *old(lut_idx) < old(hnd_data)@.len(),
        old(hnd_data)@[*old(lut_idx) as int] < lut_weight(*old(lut_off) as int),
    ensures
        ({
            let c = code_of_diff(diff as int);
            let packed = (old(hnd_data)@[*old(lut_idx) as int] + c * lut_weight(
                *old(lut_off) as int,
            )) as u8;
            final(hnd_data)@ == old(hnd_data)@.update(*old(lut_idx) as int, packed) + resid_bytes(
                diff as int,
            )
        }),
        *old(lut_off) == 3 ==> *final(lut_off) == 0 && *final(lut_idx) == *old(lut_idx) + 1,
        *old(lut_off) < 3 ==> *final(lut_off) == *old(lut_off) + 1 && *final(lut_idx) == *old(
            lut_idx,
        ),
{
    proof {
        lemma_byte_base_values();
    }
    let _n = hnd_data.len();
    let v: u8;
    if -128 <= diff && diff <= 127 {
        let u: u8 = if diff < 0 {
            (diff + 256) as u8
        } else {
            diff as u8
        };
        hnd_data.push(u);
        v = 0;
        proof {
            reveal_with_fuel(le_bytes_of, 2);
            assert(resid_bytes(diff as int) =~= seq![u]);
            assert(hnd_data@ =~= old(hnd_data)@ + resid_bytes(diff as int));
        }
    } else if -32768 <= diff && diff <= 32767 {
        let u: u16 = if diff < 0 {
            (diff + 0x1_0000) as u16
        } else {
            diff as u16
        };
        let b0 = (u % 0x100) as u8;
        let b1 = (u / 0x100) as u8;
        hnd_data.push(b0);
        hnd_data.push(b1);
        v = 1;
        proof {
            reveal_with_fuel(le_bytes_of, 3);
            assert(resid_bytes(diff as int) =~= seq![b0, b1]);
            assert(hnd_data@ =~= old(hnd_data)@ + resid_bytes(diff as int));
        }
    } else {
        let u: u32 = if diff < 0 {
            (diff + 0x1_0000_0000) as u32
        } else {
            diff as u32
        };
        push_le_u32(hnd_data, u);
        v = 2;
        proof {
            assert(code_of_diff(diff as int) == 2);
            assert(twoc_of(diff as int, 4) == u as int);
            assert(hnd_data@ == old(hnd_data)@ + resid_bytes(diff as int));
        }
    }
    let w8: u8 = if *lut_off == 0 {
        1
    } else if *lut_off == 1 {
        4
    } else if *lut_off == 2 {
        16
    } else {
        64
    };
    let b = hnd_data[*lut_idx];
    hnd_data[*lut_idx] = b + v * w8;
    if *lut_off == 3 {
        *lut_off = 0;
        *lut_idx = *lut_idx + 1;
    } else {
        *lut_off = *lut_off + 1;
    }
    proof {
        let idx = *old(lut_idx) as int;
        let c = code_of_diff(diff as int);
        let packed = (old(hnd_data)@[idx] + c * lut_weight(*old(lut_off) as int)) as u8;
        assert(hnd_data@ =~= old(hnd_data)@.update(idx, packed) + resid_bytes(diff as int));
    }
}

/// The lookup-table byte holding code `k` lies inside the lookup-table
/// region.
proof fn lemma_code_slot(w: int, h: int, k: int)
    requires
        dims_ok(w, h),
        0 <= k < n_coded(w, h),
    ensures
        0 <= k / 4 < lut_len(w, h),
{
    lemma_dims(w, h);
    let ll = lut_len(w, h);
    assert(k <= 4 * ll - 1);
    assert((4 * ll - 1) / 4 == ll - 1) by {
        lemma_fundamental_div_mod_converse(4 * ll - 1, 4, ll - 1, 3);
    }
    assert(k / 4 <= (4 * ll - 1) / 4) by {
        vstd::arithmetic::div_mod::lemma_div_is_ordered(k, 4 * ll - 1, 4);
    }
}

/// Reads the signed residual of width `code_width(c)` at byte offset
/// `pos`.
fn read_resid(raw: &Vec<u8>, pos: usize, c: u8) -> (d: i64)
    requires
        c <= 2,
        pos + code_width(c as int) <= raw@.len(),
    ensures
        d as int == signed_of(
            le_val(raw@, pos as int, code_width(c as int) as int),
            code_width(c as int),
        ),
        in_i32(d as int),
{
    proof {
        lemma_byte_base_values();
        lemma_le_val_bound(raw@, pos as int, code_width(c as int));
        reveal_with_fuel(le_val, 3);
    }
    let _n = raw.len();
    if c == 0 {
        let u = raw[pos];
        if u < 128 {
            u as i64
        } else {
            u as i64 - 256
        }
    } else if c == 1 {
        let u = raw[pos] as u32 + 0x100 * (raw[pos + 1] as u32);
        if u < 0x8000 {
            u as i64
        } else {
            u as i64 - 0x1_0000
        }
    } else {
        let u = read_le_u32(raw, pos);
        if u < 0x8000_0000 {
            u as i64
        } else {
            u as i64 - 0x1_0000_0000i64
        }
    }
}

/// Decodes a compressed payload into the row-major grid of unsigned
/// 32-bit samples of the given dimensions. The payload may carry trailing
/// bytes beyond the residual stream; they are ignored.
pub fn decode(raw: &Vec<u8>, width: usize, height: usize) -> (r: Result<Vec<u32>, DecodeError>)
    ensures
        r is Ok <==> decode_ok(raw@, width as int, height as int),
        r matches Ok(out) ==> out@.len() == width * height && forall|i: int|
            0 <= i < out@.len() ==> out@[i] as int == dec_pix(
                raw@,
                width as int,
                height as int,
                i,
            ),
        r == Err::<Vec<u32>, DecodeError>(DecodeError::InvalidDims) <==> !dims_ok(
            width as int,
            height as int,
        ),
        r == Err::<Vec<u32>, DecodeError>(DecodeError::Truncated) <==> dims_ok(
            width as int,
            height as int,
        ) && (raw@.len() < min_len(width as int, height as int) || (codes_ok(
            raw@,
            width as int,
            height as int,
        ) && raw@.len() < resid_off(
            raw@,
            width as int,
            height as int,
            n_coded(width as int, height as int),
        ))),
        r == Err::<Vec<u32>, DecodeError>(DecodeError::InvalidLutCode) <==> dims_ok(
            width as int,
            height as int,
        ) && min_len(width as int, height as int) <= raw@.len() && !codes_ok(
            raw@,
            width as int,
            height as int,
        ),
        r == Err::<Vec<u32>, DecodeError>(DecodeError::PixelOutOfRange) <==> dims_ok(
            width as int,
            height as int,
        ) && min_len(width as int, height as int) <= raw@.len() && codes_ok(
            raw@,
            width as int,
            height as int,
        ) && resid_off(
            raw@,
            width as int,
            height as int,
            n_coded(width as int, height as int),
        ) <= raw@.len() && !pix_in_range(raw@, width as int, height as int),
{
    let w = width;
    let h = height;
    let ghost wi = w as int;
    let ghost hi = h as int;
    let ghost s = raw@;
    if w < 1 || h < 2 {
        return Err(DecodeError::InvalidDims);
    }
    let wm = w % 4;
    let hm = (h - 1) % 4;
    proof {
        lemma_mul_upper_bound(wm as int, 3, hm as int, 3);
        lemma_mul_mod_noop_general(wi, hi - 1, 4);
    }
    if (wm * hm) % 4 > 1 {
        assert(!dims_ok(wi, hi));
        return Err(DecodeError::InvalidDims);
    }
    proof {
        lemma_dims(wi, hi);
    }
    let rl = raw.len();
    let w128 = w as u128;
    let h128 = h as u128;
    proof {
        lemma_mul_upper_bound(
            w128 as int,
            0xFFFF_FFFF_FFFF_FFFF,
            h128 as int - 1,
            0xFFFF_FFFF_FFFF_FFFF,
        );
    }
    let n128 = w128 * (h128 - 1);
    let lut128 = n128 / 4;
    proof {
        assert(n128 as int == wi * (hi - 1));
        assert(lut128 as int == lut_len(wi, hi));
    }
    if (rl as u128) < lut128 {
        return Err(DecodeError::Truncated);
    }
    let lit_end128 = lut128 + 4 * (w128 + 1);
    proof {
        assert(lit_end128 as int == resid_base(wi, hi));
    }
    if (rl as u128) < lit_end128 {
        return Err(DecodeError::Truncated);
    }
    let minlen128 = lit_end128 + (n128 - 1);
    proof {
        assert(minlen128 as int == min_len(wi, hi));
    }
    if (rl as u128) < minlen128 {
        return Err(DecodeError::Truncated);
    }
    let lut_sz = lut128 as usize;
    let lit_end = lit_end128 as usize;
    let nc = (n128 - 1) as usize;
    proof {
        assert(nc as int == n_coded(wi, hi));
    }
    // Scan the lookup table: the code value 3 is reserved.
    let mut k: usize = 0;
    while k < nc
        invariant
            k <= nc,
            nc as int == n_coded(wi, hi),
            lut_sz as int == lut_len(wi, hi),
            lut_sz <= rl == raw@.len(),
            s == raw@,
            wi == width as int && hi == height as int,
            dims_ok(wi, hi),
            min_len(wi, hi) <= raw@.len(),
            forall|j: int| 0 <= j < k ==> #[trigger] dec_code(s, j) != 3,
        decreases nc - k,
    {
        proof {
            lemma_code_slot(wi, hi, k as int);
        }
        let c = lut_code_read(raw, k);
        if c == 3 {
            assert(!codes_ok(s, wi, hi));
            return Err(DecodeError::InvalidLutCode);
        }
        k = k + 1;
    }
    assert(codes_ok(s, wi, hi));
    // Walk the codes once to find the residual stream's total extent.
    let mut pos128: u128 = lit_end128;
    let mut k: usize = 0;
    while k < nc
        invariant
            k <= nc,
            nc as int == n_coded(wi, hi),
            lut_sz as int == lut_len(wi, hi),
            lut_sz <= rl == raw@.len(),
            s == raw@,
            wi == width as int && hi == height as int,
            dims_ok(wi, hi),
            lit_end128 as int == resid_base(wi, hi),
            pos128 as int == resid_off(s, wi, hi, k as int),
            pos128 <= lit_end128 + 4 * (k as u128),
        decreases nc - k,
    {
        proof {
            lemma_code_slot(wi, hi, k as int);
            lemma_resid_off_bounds(s, wi, hi, 0, k as int + 1);
        }
        let c = lut_code_read(raw, k);
        let wd: u128 = if c == 0 {
            1
        } else if c == 1 {
            2
        } else {
            4
        };
        pos128 = pos128 + wd;
        k = k + 1;
    }
    if (rl as u128) < pos128 {
        return Err(DecodeError::Truncated);
    }
    // Raw-copy region: the first w + 1 pixels are literals.
    let mut out: Vec<u32> = Vec::new();
    let mut i: usize = 0;
    while i < w + 1
        invariant
            i <= w + 1,
            out@.len() == i,
            s == raw@,
            rl == raw@.len(),
            wi == w as int && hi == h as int,
            w == width && h == height,
            dims_ok(wi, hi),
            lut_sz as int == lut_len(wi, hi),
            lit_end as int == resid_base(wi, hi),
            lit_end <= rl,
            forall|j: int|
                0 <= j < i ==> #[trigger] out@[j] as int == dec_pix(s, wi, hi, j),
        decreases w + 1 - i,
    {
        let v = read_le_u32(raw, lut_sz + 4 * i);
        out.push(v);
        proof {
            assert(dec_pix(s, wi, hi, i as int) == le_val(s, lit_off(wi, hi) + 4 * (i as int), 4));
        }
        i = i + 1;
    }
    // Predicted pixels: prediction from three neighbours plus residual.
    let ghost total = resid_off(s, wi, hi, nc as int);
    let mut pos: usize = lit_end;
    let mut k: usize = 0;
    while k < nc
        invariant
            k <= nc,
            nc as int == n_coded(wi, hi),
            out@.len() == w + 1 + k,
            s == raw@,
            rl == raw@.len(),
            wi == w as int && hi == h as int,
            w == width && h == height,
            dims_ok(wi, hi),
            min_len(wi, hi) <= raw@.len(),
            lut_sz as int == lut_len(wi, hi),
            lut_sz <= rl,
            codes_ok(s, wi, hi),
            pos as int == resid_off(s, wi, hi, k as int),
            total == resid_off(s, wi, hi, nc as int),
            total <= rl,
            forall|j: int|
                0 <= j < out@.len() ==> #[trigger] out@[j] as int == dec_pix(s, wi, hi, j),
        decreases nc - k,
    {
        proof {
            lemma_code_slot(wi, hi, k as int);
            lemma_resid_off_bounds(s, wi, hi, k as int + 1, nc as int);
            lemma_resid_off_bounds(s, wi, hi, 0, k as int);
        }
        let c = lut_code_read(raw, k);
        let d = read_resid(raw, pos, c);
        let wd: usize = if c == 0 {
            1
        } else if c == 1 {
            2
        } else {
            4
        };
        let r11 = out[k];
        let r12 = out[k + 1];
        let r21 = out[w + k];
        let val: i64 = r12 as i64 + r21 as i64 - r11 as i64 + d;
        proof {
            let ii = wi + 1 + k;
            assert(dec_pix(s, wi, hi, ii) == dec_pix(s, wi, hi, ii - wi) + dec_pix(s, wi, hi, ii - 1)
                - dec_pix(s, wi, hi, ii - wi - 1) + signed_of(
                le_val(s, resid_off(s, wi, hi, k as int), code_width(dec_code(s, k as int)) as int),
                code_width(dec_code(s, k as int)),
            ));
            assert(val as int == dec_pix(s, wi, hi, ii));
        }
        if val < 0 || val > 0xFFFF_FFFFi64 {
            proof {
                lemma_dims(wi, hi);
                assert(!(0 <= dec_pix(s, wi, hi, wi + 1 + k) < 0x1_0000_0000));
                assert(0 <= wi + 1 + k < wi * hi);
                assert(!pix_in_range(s, wi, hi));
            }
            return Err(DecodeError::PixelOutOfRange);
        }
        out.push(val as u32);
        pos = pos + wd;
        k = k + 1;
    }
    proof {
        assert(out@.len() == wi * hi);
        assert forall|i2: int| 0 <= i2 < wi * hi implies 0 <= #[trigger] dec_pix(s, wi, hi, i2)
            < 0x1_0000_0000 by {
            assert(out@[i2] as int == dec_pix(s, wi, hi, i2));
        }
        assert(decode_ok(s, wi, hi));
    }
    Ok(out)
}

// ------------------------------------------------------------------
// Encoding state: the payload after the first k codes are packed
// ------------------------------------------------------------------

/// Value of lookup-table byte `j` while the first `k` codes are packed:
/// earlier bytes are complete, the byte under the cursor holds a prefix,
/// later bytes still hold their zero fill.
pub open spec fn lut_state_byte(g: Seq<u32>, w: int, h: int, k: int, j: int) -> int {
    if j < k / 4 {
        lut_byte(g, w, h, j)
    } else if j == k / 4 {
        lut_byte_prefix(g, w, h, j, k % 4)
    } else {
        0
    }
}

/// The lookup-table region while the first `k` codes are packed.
pub open spec fn lut_state(g: Seq<u32>, w: int, h: int, k: int) -> Seq<u8> {
    Seq::new(lut_len(w, h) as nat, |j: int| lut_state_byte(g, w, h, k, j) as u8)
}

/// Position and value of the lookup-table byte under the cursor after `k`
/// codes.
proof fn lemma_lut_state_at(g: Seq<u32>, w: int, h: int, k: int)
    requires
        dims_ok(w, h),
        0 <= k < n_coded(w, h),
    ensures
        0 <= k / 4 < lut_len(w, h),
        lut_state(g, w, h, k)[k / 4] == lut_byte_prefix(g, w, h, k / 4, k % 4) as u8,
        0 <= lut_byte_prefix(g, w, h, k / 4, k % 4) < lut_weight(k % 4),
{
    lemma_dims(w, h);
    let ll = lut_len(w, h);
    assert(k <= 4 * ll - 1);
    assert((4 * ll - 1) / 4 == ll - 1) by {
        lemma_fundamental_div_mod_converse(4 * ll - 1, 4, ll - 1, 3);
    }
    assert(k / 4 <= (4 * ll - 1) / 4) by {
        vstd::arithmetic::div_mod::lemma_div_is_ordered(k, 4 * ll - 1, 4);
    }
    lemma_lut_byte_prefix_bound(g, w, h, k / 4, k % 4);
}

/// One packing step: adding code `k` to the byte under the cursor and
/// appending residual `k` turns the state-`k` payload into the state-`k+1`
/// payload.
proof fn lemma_encode_step(g: Seq<u32>, w: int, h: int, k: int, s_pre: Seq<u8>, s_post: Seq<u8>)
    requires
        dims_ok(w, h),
        0 <= k < n_coded(w, h),
        s_pre == lut_state(g, w, h, k) + enc_lits(g, w + 1) + enc_resids(g, w, k),
        s_post == s_pre.update(
            k / 4,
            ((s_pre[k / 4] + code_of_diff(diff_at(g, w, k + w + 1)) * lut_weight(k % 4)) as u8),
        ) + resid_bytes(diff_at(g, w, k + w + 1)),
    ensures
        s_post == lut_state(g, w, h, k + 1) + enc_lits(g, w + 1) + enc_resids(g, w, k + 1),
{
    lemma_dims(w, h);
    lemma_lut_state_at(g, w, h, k);
    let ll = lut_len(w, h);
    let q = k / 4;
    let t = k % 4;
    let c = code_of_diff(diff_at(g, w, k + w + 1));
    assert(k == 4 * q + t) by {
        lemma_fundamental_div_mod(k, 4);
    }
    assert(enc_code(g, w, h, k) == c);
    let packed = (lut_byte_prefix(g, w, h, q, t) + c * lut_weight(t)) as u8;
    assert(0 <= lut_byte_prefix(g, w, h, q, t) + c * lut_weight(t) < lut_weight(t + 1)) by {
        lemma_lut_byte_prefix_bound(g, w, h, q, t);
    }
    assert(lut_byte_prefix(g, w, h, q, t + 1) == lut_byte_prefix(g, w, h, q, t) + enc_code(
        g,
        w,
        h,
        4 * q + t,
    ) * lut_weight(t));
    if t < 3 {
        assert((k + 1) / 4 == q && (k + 1) % 4 == t + 1) by {
            lemma_fundamental_div_mod_converse(k + 1, 4, q, t + 1);
        }
    } else {
        assert((k + 1) / 4 == q + 1 && (k + 1) % 4 == 0) by {
            lemma_fundamental_div_mod_converse(k + 1, 4, q + 1, 0);
        }
        assert(lut_byte_prefix(g, w, h, q, 4) == lut_byte(g, w, h, q));
    }
    lemma_enc_lits_shape(g, w + 1);
    assert(enc_resids(g, w, k + 1) == enc_resids(g, w, k) + resid_bytes(diff_at(g, w, k + w + 1)));
    assert(s_post =~= lut_state(g, w, h, k + 1) + enc_lits(g, w + 1) + enc_resids(g, w, k + 1));
}

/// At the end of the packing the lookup-table state is the encoded lookup
/// table: trailing slots of the last byte hold code zero.
proof fn lemma_lut_state_complete(g: Seq<u32>, w: int, h: int)
    requires
        dims_ok(w, h),
    ensures
        lut_state(g, w, h, n_coded(w, h)) == enc_lut(g, w, h),
{
    lemma_dims(w, h);
    let nc = n_coded(w, h);
    let ll = lut_len(w, h);
    assert forall|j: int| 0 <= j < ll implies lut_state_byte(g, w, h, nc, j) as u8 == lut_byte(
        g,
        w,
        h,
        j,
    ) as u8 by {
        if j == nc / 4 {
            assert(4 * j + nc % 4 == nc) by {
                lemma_fundamental_div_mod(nc, 4);
            }
            assert forall|t: int| nc % 4 <= t < 4 implies #[trigger] enc_code(g, w, h, 4 * j + t)
                == 0 by {
                assert(4 * j + t >= nc);
            }
            lemma_lut_byte_tail_zero(g, w, h, j, nc % 4);
        } else if j > nc / 4 {
            assert forall|t: int| 0 <= t < 4 implies #[trigger] enc_code(g, w, h, 4 * j + t)
                == 0 by {
                assert(4 * j + t >= 4 * (nc / 4) + 4) by {
                    lemma_mul_inequality(nc / 4 + 1, j, 4);
                }
                assert(4 * (nc / 4) + 4 > nc) by {
                    lemma_fundamental_div_mod(nc, 4);
                }
            }
            lemma_lut_byte_tail_zero(g, w, h, j, 0);
        }
    }
    assert(lut_state(g, w, h, nc) =~= enc_lut(g, w, h));
}

/// Encodes a row-major grid of unsigned 32-bit samples at the given
/// dimensions into a compressed payload.
pub fn encode_u32(img: &Vec<u32>, width: usize, height: usize) -> (r: Result<Vec<u8>, EncodeError>)
    ensures
        r is Ok <==> encode_ok(img@, width as int, height as int),
        r matches Ok(out) ==> out@ == spec_encode(img@, width as int, height as int),
        r == Err::<Vec<u8>, EncodeError>(EncodeError::InvalidDims) <==> !(dims_ok(
            width as int,
            height as int,
        ) && img@.len() == width * height),
        r == Err::<Vec<u8>, EncodeError>(EncodeError::ResidualOverflow) <==> dims_ok(
            width as int,
            height as int,
        ) && img@.len() == width * height && !diffs_in_i32(img@, width as int, height as int),
{
    let w = width;
    let h = height;
    let ghost wi = w as int;
    let ghost hi = h as int;
    let ghost g = img@;
    if w < 1 || h < 2 {
        return Err(EncodeError::InvalidDims);
    }
    let wm = w % 4;
    let hm = (h - 1) % 4;
    proof {
        lemma_mul_upper_bound(wm as int, 3, hm as int, 3);
    }
    let mrem = (wm * hm) % 4;
    proof {
        lemma_mul_mod_noop_general(wi, hi - 1, 4);
    }
    if mrem > 1 {
        assert(mrem as int == (wi * (hi - 1)) % 4);
        assert(!dims_ok(wi, hi));
        return Err(EncodeError::InvalidDims);
    }
    proof {
        lemma_dims(wi, hi);
    }
    let gl = img.len();
    let n_px = match w.checked_mul(h) {
        Some(n) => n,
        None => {
            assert(img@.len() < wi * hi);
            return Err(EncodeError::InvalidDims);
        },
    };
    if gl != n_px {
        return Err(EncodeError::InvalidDims);
    }
    proof {
        lemma_mul_left_inequality(wi, hi - 1, hi);
    }
    let lut_sz = (w * (h - 1)) / 4;
    let nc = n_px - (w + 1);
    let mut out: Vec<u8> = Vec::new();
    let mut z: usize = 0;
    while z < lut_sz
        invariant
            z <= lut_sz,
            out@.len() == z,
            forall|p: int| 0 <= p < z ==> out@[p] == 0u8,
        decreases lut_sz - z,
    {
        out.push(0u8);
        z = z + 1;
    }
    proof {
        assert(out@ =~= lut_state(g, wi, hi, 0) + enc_lits(g, 0) + enc_resids(g, wi, 0));
    }
    let mut i: usize = 0;
    while i < w + 1
        invariant
            i <= w + 1,
            w + 1 <= n_px == img@.len(),
            img@ == g,
            lut_sz == lut_len(wi, hi),
            wi == w as int && hi == h as int,
            dims_ok(wi, hi),
            out@ == lut_state(g, wi, hi, 0) + enc_lits(g, i as int) + enc_resids(g, wi, 0),
        decreases w + 1 - i,
    {
        push_le_u32(&mut out, img[i]);
        proof {
            assert(enc_lits(g, i + 1) == enc_lits(g, i as int) + le_bytes_of(g[i as int] as int, 4));
            assert(out@ =~= lut_state(g, wi, hi, 0) + enc_lits(g, i + 1) + enc_resids(g, wi, 0));
        }
        i = i + 1;
    }
    let mut lut_off_c: usize = 0;
    let mut lut_idx_c: usize = 0;
    let mut k: usize = 0;
    while k < nc
        invariant
            k <= nc,
            nc == n_coded(wi, hi),
            n_px == wi * hi,
            w + 1 <= n_px == img@.len(),
            img@ == g,
            lut_sz == lut_len(wi, hi),
            w == width && h == height,
            wi == w as int && hi == h as int,
            dims_ok(wi, hi),
            lut_idx_c == k / 4,
            lut_off_c == k % 4,
            out@ == lut_state(g, wi, hi, k as int) + enc_lits(g, wi + 1) + enc_resids(
                g,
                wi,
                k as int,
            ),
            forall|j: int| 0 <= j < k ==> in_i32(#[trigger] diff_at(g, wi, j + wi + 1)),
        decreases nc - k,
    {
        let idx = w + 1 + k;
        let cur = img[idx];
        let r11 = img[k];
        let r21 = img[w + k];
        let r12 = img[k + 1];
        let diff: i64 = cur as i64 + r11 as i64 - r21 as i64 - r12 as i64;
        proof {
            assert(diff as int == diff_at(g, wi, idx as int));
        }
        if diff < -0x8000_0000i64 || diff > 0x7FFF_FFFFi64 {
            proof {
                assert(!in_i32(diff_at(g, wi, k as int + wi + 1)));
                assert(!diffs_in_i32(g, wi, hi));
            }
            return Err(EncodeError::ResidualOverflow);
        }
        proof {
            lemma_lut_state_at(g, wi, hi, k as int);
            lemma_enc_lits_shape(g, wi + 1);
            assert(out@[k as int / 4] == lut_state(g, wi, hi, k as int)[k as int / 4]);
        }
        let ghost s_pre = out@;
        compress_data_impl(&mut out, diff, &mut lut_off_c, &mut lut_idx_c);
        proof {
            lemma_encode_step(g, wi, hi, k as int, s_pre, out@);
        }
        k = k + 1;
    }
    proof {
        lemma_lut_state_complete(g, wi, hi);
        assert(out@ == spec_encode(g, wi, hi));
    }
    Ok(out)
}

/// A 16-bit grid widened sample by sample to the shared 32-bit form.
pub open spec fn widen_u16(g: Seq<u16>) -> Seq<u32> {
    Seq::new(g.len(), |i: int| g[i] as u32)
}

/// Predictor differences of a widened 16-bit grid always fit a signed
/// 32-bit residual.
proof fn lemma_u16_diffs(g: Seq<u16>, w: int, h: int)
    requires
        dims_ok(w, h),
        g.len() == w * h,
    ensures
        diffs_in_i32(widen_u16(g), w, h),
{
    lemma_dims(w, h);
    let gw = widen_u16(g);
    assert forall|k: int| 0 <= k < n_coded(w, h) implies in_i32(
        #[trigger] diff_at(gw, w, k + w + 1),
    ) by {
        let i = k + w + 1;
        assert(gw[i] < 0x1_0000 && gw[i - w - 1] < 0x1_0000 && gw[i - 1] >= 0 && gw[i - w] >= 0);
    }
}

/// Encodes a row-major grid of unsigned 16-bit samples: each sample is
/// widened to 32 bits, so the payload matches the 32-bit decode path.
pub fn encode_u16(img: &Vec<u16>, width: usize, height: usize) -> (r: Result<Vec<u8>, EncodeError>)
    ensures
        r is Ok <==> dims_ok(width as int, height as int) && img@.len() == width * height,
        r matches Ok(out) ==> out@ == spec_encode(widen_u16(img@), width as int, height as int),
        r is Err ==> r == Err::<Vec<u8>, EncodeError>(EncodeError::InvalidDims),
{
    let mut wide: Vec<u32> = Vec::new();
    let mut i: usize = 0;
    let n = img.len();
    while i < n
        invariant
            i <= n == img@.len(),
            wide@.len() == i,
            forall|j: int| 0 <= j < i ==> wide@[j] == img@[j] as u32,
        decreases n - i,
    {
        wide.push(img[i] as u32);
        i = i + 1;
    }
    proof {
        assert(wide@ =~= widen_u16(img@));
        if dims_ok(width as int, height as int) && img@.len() == width * height {
            lemma_u16_diffs(img@, width as int, height as int);
        }
    }
    encode_u32(&wide, width, height)
}

// ------------------------------------------------------------------
// Round trip: decoding an encoded payload restores the grid
// ------------------------------------------------------------------

/// Unpacking a packed byte recovers each of its four 2-bit codes.
proof fn lemma_byte_unpack(c0: int, c1: int, c2: int, c3: int)
    requires
        0 <= c0 < 4,
        0 <= c1 < 4,
        0 <= c2 < 4,
        0 <= c3 < 4,
    ensures
        ({
            let b = c0 + 4 * c1 + 16 * c2 + 64 * c3;
            &&& b / 1 % 4 == c0
            &&& b / 4 % 4 == c1
            &&& b / 16 % 4 == c2
            &&& b / 64 % 4 == c3
            &&& 0 <= b < 256
        }),
{
    let b = c0 + 4 * c1 + 16 * c2 + 64 * c3;
    let x1 = c1 + 4 * c2 + 16 * c3;
    let x2 = c2 + 4 * c3;
    lemma_fundamental_div_mod_converse(b, 4, x1, c0);
    lemma_fundamental_div_mod_converse(x1, 4, x2, c1);
    lemma_fundamental_div_mod_converse(x2, 4, c3, c2);
    lemma_div_denominator(b, 4, 4);
    assert(b / 16 == x2);
    lemma_div_denominator(b, 16, 4);
    assert(b / 64 == x2 / 4);
    lemma_fundamental_div_mod_converse(c3, 4, 0, c3);
}

/// The codes read back from an encoded payload are the codes the encoder
/// packed.
proof fn lemma_codes_round(g: Seq<u32>, w: int, h: int, k: int)
    requires
        dims_ok(w, h),
        0 <= k < n_coded(w, h),
    ensures
        dec_code(spec_encode(g, w, h), k) == enc_code(g, w, h, k),
{
    lemma_dims(w, h);
    lemma_code_slot(w, h, k);
    let enc = spec_encode(g, w, h);
    let j = k / 4;
    let t = k % 4;
    assert(enc[j] == enc_lut(g, w, h)[j]);
    let c0 = enc_code(g, w, h, 4 * j);
    let c1 = enc_code(g, w, h, 4 * j + 1);
    let c2 = enc_code(g, w, h, 4 * j + 2);
    let c3 = enc_code(g, w, h, 4 * j + 3);
    assert(lut_byte(g, w, h, j) == c0 + 4 * c1 + 16 * c2 + 64 * c3) by {
        reveal_with_fuel(lut_byte_prefix, 5);
    }
    lemma_byte_unpack(c0, c1, c2, c3);
    assert(k == 4 * j + t) by {
        lemma_fundamental_div_mod(k, 4);
    }
}

/// The first `k1` residual bytes are unchanged by encoding further
/// residuals.
proof fn lemma_enc_resids_prefix(g: Seq<u32>, w: int, k1: int, k2: int)
    requires
        0 <= k1 <= k2,
    ensures
        enc_resids(g, w, k1).len() <= enc_resids(g, w, k2).len(),
        forall|p: int|
            0 <= p < enc_resids(g, w, k1).len() ==> #[trigger] enc_resids(g, w, k2)[p]
                == enc_resids(g, w, k1)[p],
    decreases k2 - k1,
{
    if k1 < k2 {
        lemma_enc_resids_prefix(g, w, k1, k2 - 1);
    }
}

/// In an encoded payload the residual offsets track the encoder's
/// residual stream byte for byte.
proof fn lemma_resid_layout(g: Seq<u32>, w: int, h: int, k: int)
    requires
        dims_ok(w, h),
        0 <= k <= n_coded(w, h),
    ensures
        resid_off(spec_encode(g, w, h), w, h, k) == resid_base(w, h) + enc_resids(g, w, k).len(),
    decreases k,
{
    lemma_dims(w, h);
    let enc = spec_encode(g, w, h);
    if k == 0 {
        assert(enc_resids(g, w, 0).len() == 0);
    } else {
        lemma_resid_layout(g, w, h, k - 1);
        lemma_codes_round(g, w, h, k - 1);
        let d = diff_at(g, w, (k - 1) + w + 1);
        lemma_le_bytes_of_len(
            twoc_of(d, code_width(code_of_diff(d))),
            code_width(code_of_diff(d)),
        );
        assert(resid_bytes(d).len() == code_width(enc_code(g, w, h, k - 1)));
    }
}

/// Reading the residual of coded pixel `k` from an encoded payload gives
/// the two's-complement form of the predictor difference.
proof fn lemma_resid_round(g: Seq<u32>, w: int, h: int, k: int)
    requires
        dims_ok(w, h),
        0 <= k < n_coded(w, h),
        in_i32(diff_at(g, w, k + w + 1)),
    ensures
        ({
            let enc = spec_encode(g, w, h);
            let d = diff_at(g, w, k + w + 1);
            let wd = code_width(code_of_diff(d));
            &&& signed_of(le_val(enc, resid_off(enc, w, h, k), wd as int), wd) == d
        }),
{
    lemma_dims(w, h);
    lemma_byte_base_values();
    let enc = spec_encode(g, w, h);
    let d = diff_at(g, w, k + w + 1);
    let wd = code_width(code_of_diff(d));
    let nc = n_coded(w, h);
    lemma_resid_layout(g, w, h, k);
    let start = enc_resids(g, w, k).len() as int;
    lemma_le_bytes_of_len(twoc_of(d, wd), wd);
    assert(enc_resids(g, w, k + 1) == enc_resids(g, w, k) + resid_bytes(d));
    lemma_enc_resids_prefix(g, w, k + 1, nc);
    lemma_enc_lits_shape(g, w + 1);
    let lit_len = 4 * (w + 1);
    assert forall|p: int| 0 <= p < wd implies enc[resid_off(enc, w, h, k) + p] == le_bytes_of(
        twoc_of(d, wd),
        wd,
    )[p] by {
        let q = resid_off(enc, w, h, k) + p;
        assert(q == lut_len(w, h) + lit_len + (start + p));
        assert(enc[q] == enc_resids(g, w, nc)[start + p]);
        assert(enc_resids(g, w, nc)[start + p] == enc_resids(g, w, k + 1)[start + p]);
        assert(enc_resids(g, w, k + 1)[start + p] == resid_bytes(d)[p]);
    }
    crate::bytes::lemma_le_val_shift(
        enc,
        resid_off(enc, w, h, k),
        le_bytes_of(twoc_of(d, wd), wd),
        0,
        wd,
    );
    assert(-byte_base(wd) / 2 <= d < byte_base(wd) / 2);
    crate::bytes::lemma_twoc_round(d, wd);
    crate::bytes::lemma_le_val_of_bytes(twoc_of(d, wd), wd);
}

/// Decoding pixel `i` of an encoded payload restores the grid sample.
proof fn lemma_pix_round(g: Seq<u32>, w: int, h: int, i: int)
    requires
        encode_ok(g, w, h),
        0 <= i < w * h,
    ensures
        dec_pix(spec_encode(g, w, h), w, h, i) == g[i],
    decreases i,
{
    lemma_dims(w, h);
    let enc = spec_encode(g, w, h);
    lemma_enc_lits_shape(g, w + 1);
    if i <= w {
        let base = lit_off(w, h) + 4 * i;
        let bytes = le_bytes_of(g[i] as int, 4);
        lemma_le_bytes_of_len(g[i] as int, 4);
        assert forall|p: int| 0 <= p < 4 implies enc[base + p] == bytes[p] by {
            assert(enc[base + p] == enc_lits(g, w + 1)[4 * i + p]);
            assert((4 * i + p) / 4 == i && (4 * i + p) % 4 == p) by {
                lemma_fundamental_div_mod_converse(4 * i + p, 4, i, p);
            }
        }
        crate::bytes::lemma_le_val_shift(enc, base, bytes, 0, 4);
        lemma_byte_base_values();
        crate::bytes::lemma_le_val_of_bytes(g[i] as int, 4);
    } else {
        let k = i - (w + 1);
        assert(0 <= k < n_coded(w, h));
        assert(in_i32(diff_at(g, w, k + w + 1)));
        lemma_pix_round(g, w, h, i - w);
        lemma_pix_round(g, w, h, i - 1);
        lemma_pix_round(g, w, h, i - w - 1);
        lemma_codes_round(g, w, h, k);
        lemma_resid_round(g, w, h, k);
    }
}

/// Law: pixel round trip. Decoding an encodable payload (valid
/// dimensions, grid of matching length, all residuals representable)
/// succeeds and restores every sample of the grid. Together with the
/// contracts of `encode_u32` and `decode` this states
/// `decode(encode_u32(g, w, h), w, h) == g`.
pub proof fn lemma_encode_decode_round_trip(g: Seq<u32>, w: int, h: int)
    requires
        encode_ok(g, w, h),
    ensures
        decode_ok(spec_encode(g, w, h), w, h),
        spec_encode(g, w, h).len() == resid_off(
            spec_encode(g, w, h),
            w,
            h,
            n_coded(w, h),
        ),
        forall|i: int| 0 <= i < w * h ==> dec_pix(spec_encode(g, w, h), w, h, i) == g[i],
{
    lemma_dims(w, h);
    let enc = spec_encode(g, w, h);
    let nc = n_coded(w, h);
    lemma_enc_lits_shape(g, w + 1);
    lemma_resid_layout(g, w, h, nc);
    assert(enc.len() == resid_off(enc, w, h, nc));
    assert forall|k: int| 0 <= k < nc implies #[trigger] dec_code(enc, k) != 3 by {
        lemma_codes_round(g, w, h, k);
    }
    lemma_resid_off_bounds(enc, w, h, 0, nc);
    assert(min_len(w, h) <= enc.len());
    assert forall|i: int| 0 <= i < w * h implies 0 <= #[trigger] dec_pix(enc, w, h, i)
        < 0x1_0000_0000 by {
        lemma_pix_round(g, w, h, i);
    }
    assert forall|i: int| 0 <= i < w * h implies #[trigger] dec_pix(enc, w, h, i) == g[i] by {
        lemma_pix_round(g, w, h, i);
    }
}

/// Law: minimal residual width. Any byte width among 1, 2 and 4 whose
/// signed range contains the difference `d` is at least the width the
/// encoder selects for `d`.
pub proof fn lemma_residual_width_minimal(d: int, n: nat)
    requires
        n == 1 || n == 2 || n == 4,
        -byte_base(n) / 2 <= d < byte_base(n) / 2,
    ensures
        code_width(code_of_diff(d)) <= n,
{
    lemma_byte_base_values();
}

/// Law: lookup-table size. The lookup-table region of an encoded payload
/// is exactly `w * (h - 1) / 4` bytes (floor division) and stands at the
/// front of the payload.
pub proof fn lemma_lut_region_size(g: Seq<u32>, w: int, h: int)
    requires
        dims_ok(w, h),
    ensures
        enc_lut(g, w, h).len() == w * (h - 1) / 4,
        spec_encode(g, w, h).subrange(0, w * (h - 1) / 4) == enc_lut(g, w, h),
{
    lemma_dims(w, h);
    assert(spec_encode(g, w, h).subrange(0, w * (h - 1) / 4) =~= enc_lut(g, w, h));
}

} // verus!
