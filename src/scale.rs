//! Scale factors arrive as the bit pattern of an IEEE-754 binary64 value.
//! Every finite binary64 value is an integer multiple of `2^-1074`, so the
//! factor is modelled exactly as that integer (its "units"), and all rounding
//! below is exact rational arithmetic.
use vstd::arithmetic::div_mod::lemma_div_multiples_vanish_quotient;
use vstd::arithmetic::power2::{
    lemma2_to64, lemma2_to64_rest, lemma_pow2_adds, lemma_pow2_pos, lemma_pow2_strictly_increases,
    pow2,
};
use vstd::prelude::*;

use crate::error::CaptureError;

verus! {

/// The sign bit.
pub open spec fn f64_negative(b: u64) -> bool {
    (b >> 63u64) == 1
}

/// The biased exponent field (11 bits).
pub open spec fn f64_exponent_field(b: u64) -> u64 {
    (b >> 52u64) & 0x7ff
}

/// The fraction field (52 bits).
pub open spec fn f64_fraction_field(b: u64) -> u64 {
    b & 0xf_ffff_ffff_ffff
}

/// Neither an infinity nor a NaN.
pub open spec fn f64_is_finite(b: u64) -> bool {
    f64_exponent_field(b) != 0x7ff
}

/// The absolute value of a finite binary64 value, times `2^1074`.
pub open spec fn f64_magnitude_units(b: u64) -> nat {
    let e = f64_exponent_field(b);
    let f = f64_fraction_field(b);
    if e == 0 {
        f as nat
    } else {
        ((0x10_0000_0000_0000 + f) * pow2((e - 1) as nat)) as nat
    }
}

/// The value of a finite binary64 value, times `2^1074`.
pub open spec fn f64_units(b: u64) -> int {
    if f64_negative(b) {
        -f64_magnitude_units(b)
    } else {
        f64_magnitude_units(b) as int
    }
}

/// The bits encode a number `s` with `1 <= s <= 5`.
pub open spec fn valid_scale(b: u64) -> bool {
    &&& f64_is_finite(b)
    &&& pow2(1074) as int <= f64_units(b)
    &&& f64_units(b) <= 5 * pow2(1074)
}

/// `len * s` rounded to the nearest integer, halves away from zero
/// (`len * s` is never negative for a valid scale).
pub open spec fn scaled_round(len: nat, b: u64) -> int {
    (len * f64_units(b) + pow2(1073)) / (pow2(1074) as int)
}

/// A target size that can be produced: both sides at least one pixel, each
/// fitting in `u32`, and the resampler's working buffer, four 32-bit floats
/// per pixel, within the range of `isize`.
pub open spec fn fits_target(w: int, h: int) -> bool {
    &&& 1 <= w <= u32::MAX
    &&& 1 <= h <= u32::MAX
    &&& 16 * w * h <= isize::MAX
}

proof fn lemma_field_bounds(b: u64)
    ensures
        f64_exponent_field(b) <= 0x7ff,
        f64_fraction_field(b) < 0x10_0000_0000_0000,
        f64_negative(b) <==> (b >> 63u64) != 0,
{
    assert((b >> 52u64) & 0x7ff <= 0x7ff) by (bit_vector);
    assert(b & 0xf_ffff_ffff_ffff < 0x10_0000_0000_0000) by (bit_vector);
    assert((b >> 63u64) <= 1) by (bit_vector);
}

/// For an exponent field in `[1023, 1025]`, the units are
/// `(2^52 + fraction) * k * 2^1022` with `k = 2^(e - 1023)`.
proof fn lemma_units_normal(b: u64)
    requires
        1023 <= f64_exponent_field(b) <= 1025,
    ensures
        f64_magnitude_units(b) == (0x10_0000_0000_0000 + f64_fraction_field(b)) * pow2(
            (f64_exponent_field(b) - 1023) as nat,
        ) * pow2(1022),
{
    let e = f64_exponent_field(b);
    let m = 0x10_0000_0000_0000 + f64_fraction_field(b);
    lemma_pow2_adds((e - 1023) as nat, 1022);
    assert(((e - 1023) as nat + 1022) as nat == (e - 1) as nat);
    assert(m * (pow2((e - 1023) as nat) * pow2(1022)) == m * pow2((e - 1023) as nat) * pow2(1022))
        by (nonlinear_arith);
}

/// Which bit patterns encode a number in `[1, 5]`, read off the fields.
pub(crate) proof fn lemma_valid_scale_fields(b: u64)
    ensures
        valid_scale(b) <==> {
            let e = f64_exponent_field(b);
            &&& !f64_negative(b)
            &&& (e == 1023 || e == 1024 || (e == 1025 && f64_fraction_field(b) <= 0x4_0000_0000_0000))
        },
{
    lemma_field_bounds(b);
    lemma2_to64();
    lemma2_to64_rest();
    let e = f64_exponent_field(b);
    let f = f64_fraction_field(b);
    let m: int = 0x10_0000_0000_0000 + f;
    let p = pow2(1022);
    lemma_pow2_pos(1022);
    lemma_pow2_adds(52, 1022);
    assert(pow2(1074) == 0x10_0000_0000_0000 * p);
    let mag = f64_magnitude_units(b);
    assert(f64_units(b) <= mag);
    if e == 0 {
        assert(mag < 0x10_0000_0000_0000);
        assert(0x10_0000_0000_0000 <= 0x10_0000_0000_0000 * p) by (nonlinear_arith)
            requires
                p >= 1,
        ;
        assert(!valid_scale(b));
    } else if e <= 1022 {
        let q = pow2((e - 1) as nat);
        let r = pow2(1021);
        lemma_pow2_pos((e - 1) as nat);
        lemma_pow2_adds(1, 1021);
        assert(p == 2 * r);
        if e - 1 < 1021 {
            lemma_pow2_strictly_increases((e - 1) as nat, 1021);
        }
        assert(q <= r);
        assert(mag == m * q);
        assert(m * q < 0x10_0000_0000_0000 * p) by (nonlinear_arith)
            requires
                0 <= m < 0x20_0000_0000_0000,
                0 < q <= r,
                p == 2 * r,
        ;
        assert(!valid_scale(b));
    } else if e <= 1025 {
        lemma_units_normal(b);
        let k = pow2((e - 1023) as nat);
        assert(k == 1 || k == 2 || k == 4);
        assert(mag == m * k * p);
        if !f64_negative(b) {
            assert((0x10_0000_0000_0000 * p <= m * k * p) == (0x10_0000_0000_0000 <= m * k))
                by (nonlinear_arith)
                requires
                    p > 0,
            ;
            assert((m * k * p <= 5 * (0x10_0000_0000_0000 * p)) == (m * k <= 5
                * 0x10_0000_0000_0000)) by (nonlinear_arith)
                requires
                    p > 0,
            ;
            if e == 1023 {
                assert(k == pow2(0));
                assert(m * k == m) by (nonlinear_arith)
                    requires
                        k == 1,
                ;
            } else if e == 1024 {
                assert(k == pow2(1));
                assert(m * k == 2 * m) by (nonlinear_arith)
                    requires
                        k == 2,
                ;
            } else {
                assert(k == pow2(2));
                assert(m * k == 4 * m) by (nonlinear_arith)
                    requires
                        k == 4,
                ;
            }
        } else {
            assert(!valid_scale(b));
        }
    } else if e < 0x7ff {
        let q = pow2((e - 1) as nat);
        lemma_pow2_adds(3, 1022);
        if e - 1 > 1025 {
            lemma_pow2_strictly_increases(1025, (e - 1) as nat);
        }
        assert(q >= 8 * p);
        assert(mag == m * q);
        assert(m * q > 5 * (0x10_0000_0000_0000 * p)) by (nonlinear_arith)
            requires
                m >= 0x10_0000_0000_0000,
                q >= 8 * p,
                p > 0,
        ;
        assert(!valid_scale(b));
    }
}

/// Whether the bits encode a number `s` with `1 <= s <= 5` (NaN,
/// infinities and negative values included, all of them fail).
pub fn scale_in_range(bits: u64) -> (r: bool)
    ensures
        r == valid_scale(bits),
{
    proof {
        lemma_field_bounds(bits);
        lemma_valid_scale_fields(bits);
    }
    let negative = (bits >> 63u64) != 0;
    let e = (bits >> 52u64) & 0x7ff;
    let f = bits & 0xf_ffff_ffff_ffff;
    !negative && (e == 1023 || e == 1024 || (e == 1025 && f <= 0x4_0000_0000_0000))
}

/// `len` times the scale, rounded to the nearest integer.
pub fn scaled_length(len: u32, bits: u64) -> (r: u64)
    requires
        valid_scale(bits),
    ensures
        r == scaled_round(len as nat, bits),
{
    proof {
        lemma_field_bounds(bits);
        lemma_valid_scale_fields(bits);
        lemma_units_normal(bits);
        lemma2_to64();
        lemma2_to64_rest();
    }
    let e = (bits >> 52u64) & 0x7ff;
    let f = bits & 0xf_ffff_ffff_ffff;
    let m: u64 = 0x10_0000_0000_0000 + f;
    let k: u128 = if e == 1023 {
        1
    } else if e == 1024 {
        2
    } else {
        4
    };
    assert(k == pow2((e - 1023) as nat));
    let ghost a: int = len * m * k;
    assert(a < 0x80_0000_0000_0000_0000_0000) by (nonlinear_arith)
        requires
            a == len * m * k,
            0 <= len < 0x1_0000_0000,
            0 <= m < 0x20_0000_0000_0000,
            1 <= k <= 4,
    ;
    assert(a >= 0) by (nonlinear_arith)
        requires
            a == len * m * k,
            0 <= len,
            0 <= m,
            1 <= k,
    ;
    let prod: u128 = (len as u128) * (m as u128) * k;
    let r = (prod + 0x8_0000_0000_0000) / 0x10_0000_0000_0000;
    proof {
        let p = pow2(1022);
        lemma_pow2_pos(1022);
        lemma_pow2_adds(51, 1022);
        lemma_pow2_adds(52, 1022);
        lemma2_to64();
        assert(f64_units(bits) == m * k * p);
        let n = a + 0x8_0000_0000_0000;
        assert(len * (m * k * p) + 0x8_0000_0000_0000 * p == p * n) by (nonlinear_arith)
            requires
                a == len * m * k,
                n == a + 0x8_0000_0000_0000,
        ;
        assert(pow2(1074) as int == p * 0x10_0000_0000_0000);
        lemma_div_multiples_vanish_quotient(p as int, n, 0x10_0000_0000_0000);
        assert(n / 0x10_0000_0000_0000 < 0x1_0000_0000_0000_0000) by (nonlinear_arith)
            requires
                0 <= n < 0x80_0000_0000_0000_0000_0000 + 0x8_0000_0000_0000,
        ;
    }
    r as u64
}

/// Rounding never shrinks a side: the scale is at least one.
pub proof fn lemma_scaled_round_at_least(len: nat, b: u64)
    requires
        valid_scale(b),
    ensures
        scaled_round(len, b) >= len,
{
    let u = f64_units(b);
    let d = pow2(1074) as int;
    lemma_pow2_pos(1074);
    lemma_pow2_adds(1, 1073);
    lemma2_to64();
    assert(len * u + pow2(1073) >= len * d) by (nonlinear_arith)
        requires
            u >= d,
            len >= 0,
            pow2(1073) >= 0,
    ;
    assert((len * u + pow2(1073)) / d >= (len * d) / d) by {
        vstd::arithmetic::div_mod::lemma_div_is_ordered(len * d, len * u + pow2(1073), d);
    }
    assert((len * d) / d == len) by {
        vstd::arithmetic::div_mod::lemma_div_multiples_vanish(len as int, d);
        assert(len * d == d * len) by (nonlinear_arith);
    }
}

/// A scaled side is exact when the product is whole: `len * s` integral
/// means no rounding happens.
pub proof fn lemma_scaled_round_exact(len: nat, b: u64, n: int)
    requires
        valid_scale(b),
        len * f64_units(b) == n * pow2(1074),
    ensures
        scaled_round(len, b) == n,
{
    let d = pow2(1074) as int;
    lemma_pow2_pos(1074);
    lemma_pow2_adds(1, 1073);
    lemma2_to64();
    assert(0 <= pow2(1073) < d);
    vstd::arithmetic::div_mod::lemma_div_multiples_vanish_fancy(n, pow2(1073) as int, d);
    assert(d * n == n * d) by (nonlinear_arith);
}

/// The size of the scaled image: each side of `w` by `h` times the scale,
/// rounded. A side that rounds to zero, or a size that no buffer can hold,
/// is `DegenerateTargetSize`.
pub fn target_dimensions(w: u32, h: u32, bits: u64) -> (r: Result<(u32, u32), CaptureError>)
    requires
        valid_scale(bits),
    ensures
        r is Ok <==> fits_target(scaled_round(w as nat, bits), scaled_round(h as nat, bits)),
        r matches Ok((tw, th)) ==> tw == scaled_round(w as nat, bits) && th == scaled_round(
            h as nat,
            bits,
        ),
        r matches Err(e) ==> e == CaptureError::DegenerateTargetSize,
{
    let tw = scaled_length(w, bits);
    let th = scaled_length(h, bits);
    if tw == 0 || tw > u32::MAX as u64 || th == 0 || th > u32::MAX as u64 {
        return Err(CaptureError::DegenerateTargetSize);
    }
    assert(16 * (tw as int) * (th as int) < 0x100_0000_0000_0000_0000) by (nonlinear_arith)
        requires
            tw <= u32::MAX,
            th <= u32::MAX,
    ;
    let bytes: u128 = 16 * (tw as u128) * (th as u128);
    assert(bytes == 16 * tw * th) by (nonlinear_arith)
        requires
            bytes == 16 * (tw as int) * (th as int),
    ;
    if bytes > isize::MAX as u128 {
        return Err(CaptureError::DegenerateTargetSize);
    }
    Ok((tw as u32, th as u32))
}

} // verus!
