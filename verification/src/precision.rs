//! DDF storage precision: the FP16C codec.
//!
//! # FP16C
//!
//! 1 sign / 4 exponent (bias 15) / 11 mantissa, no infinities and no NaNs, so the
//! all-ones exponent is a normal number and the range is `+/-(2 - 2^-11)`. That
//! is exactly the trade a shifted distribution function wants: it cannot leave
//! `+/-1` in any stable simulation, so the exponent bits IEEE binary16 spends
//! reaching 65504 are dead weight, and moving one of them into the mantissa
//! halves the relative rounding error.
//!
//! | format  | mantissa bits | max relative error (RNE) | max magnitude |
//! |---------|---------------|--------------------------|---------------|
//! | binary16| 10            | 2^-11 = 4.88e-4          | 65504         |
//! | FP16C   | 11            | 2^-12 = 2.44e-4          | 1.99951       |
//!
//! An `f32` is handled as its bit pattern throughout: everything here is integer
//! bit manipulation on `u32`, so that it runs identically in a shader on an
//! adapter without a 16-bit float type. The contracts read such a pattern as the
//! integer number of `2^-149` it stands for.
use vstd::prelude::*;
use vstd::arithmetic::power2::*;
use vstd::std_specs::bits::axiom_u32_leading_zeros;
use vstd::string::StringExecFns;
use crate::float_order::{finite32, nan32};
use crate::minifloat::{
    code_value, distance, exact_values_round_to_themselves, lemma_code_step,
    lemma_code_value_monotonic, rounding_is_nearest, rounding_is_unique, rounds_to,
};

verus! {

/// Bit pattern of the largest magnitude representable in FP16C: `2 - 2^-11`.
pub const FP16C_MAX: u32 = 0x3fff_f000;

/// Bit pattern of the smallest positive normal: `2^-14`.
pub const FP16C_MIN_NORMAL: u32 = 0x3880_0000;

/// Bit pattern of the smallest positive subnormal: `2^-25`.
pub const FP16C_MIN_SUBNORMAL: u32 = 0x3300_0000;

/// The magnitude of a finite `f32`, as a number of `2^-149`.
pub open spec fn f32_magnitude(bits: u32) -> int {
    code_value((bits % 0x8000_0000) as int, 0x80_0000)
}

/// The magnitude an FP16C pattern stands for, as a number of `2^-149`.
pub open spec fn fp16c_magnitude(h: u16) -> int {
    code_value((h % 0x8000) as int, 2048) * pow2(124)
}

/// The magnitude a finite binary16 pattern stands for, as a number of `2^-149`.
pub open spec fn binary16_magnitude(h: u16) -> int {
    code_value((h % 0x8000) as int, 1024) * pow2(125)
}

/// Whether `h` is the FP16C image of the `f32` pattern `bits`: the sign is kept,
/// a finite magnitude goes to the nearest code with ties to the even one, and
/// what has no finite magnitude goes to the largest.
pub open spec fn fp16c_of(bits: u32, h: u16) -> bool {
    &&& h >= 0x8000 <==> bits >= 0x8000_0000
    &&& if finite32(bits) {
        rounds_to(f32_magnitude(bits), (h % 0x8000) as int, 2048, pow2(124) as int, 0x7fff)
    } else {
        h % 0x8000 == 0x7fff
    }
}

/// Whether `bits` is the `f32` pattern of an FP16C pattern: same sign, same
/// magnitude, and always finite.
pub open spec fn f32_of_fp16c(h: u16, bits: u32) -> bool {
    &&& bits >= 0x8000_0000 <==> h >= 0x8000
    &&& finite32(bits)
    &&& f32_magnitude(bits) == fp16c_magnitude(h)
}

/// Whether `h` is the IEEE binary16 image of the `f32` pattern `bits`. The code
/// of infinity takes part in the rounding as the value one step past the largest
/// finite one; every NaN becomes the quiet NaN.
pub open spec fn binary16_of(bits: u32, h: u16) -> bool {
    &&& h >= 0x8000 <==> bits >= 0x8000_0000
    &&& if nan32(bits) {
        h % 0x8000 == 0x7e00
    } else if finite32(bits) {
        rounds_to(f32_magnitude(bits), (h % 0x8000) as int, 1024, pow2(125) as int, 0x7c00)
    } else {
        h % 0x8000 == 0x7c00
    }
}

/// Whether `bits` is the `f32` pattern of a binary16 pattern: same sign, same
/// magnitude where that is finite, and the payload moved to the top mantissa
/// bits where it is not.
pub open spec fn f32_of_binary16(h: u16, bits: u32) -> bool {
    &&& bits >= 0x8000_0000 <==> h >= 0x8000
    &&& if h % 0x8000 < 0x7c00 {
        finite32(bits) && f32_magnitude(bits) == binary16_magnitude(h)
    } else {
        bits % 0x8000_0000 == 0x7f80_0000 + (h % 0x8000 - 0x7c00) * 0x2000
    }
}

// Bit-vector images of the two sides of the rounding, valid for inputs whose
// biased exponent lies in the range that needs rounding: FP16C in units of
// `2^-49`, binary16 in units of `2^-48`.

spec fn bv_code(bits: u32) -> u32 {
    let e = (bits >> 23) & 0xff;
    let b = (bits + 0x7ff + ((bits >> 12) & 1)) as u32;
    let e2 = (b >> 23) & 0xff;
    if e2 >= 128 {
        0x7fff
    } else if e2 >= 113 {
        (((e2 - 112) as u32) << 11) | ((b & 0x007f_ffff) >> 12)
    } else {
        let m32 = 0x0080_0000u32 | (bits & 0x007f_ffff);
        let shift = (125 - e) as u32;
        let half = 1u32 << ((shift - 1) as u32);
        ((m32 + half - 1 + ((m32 >> shift) & 1)) as u32) >> shift
    }
}

spec fn bv_value(c: u32) -> u128 {
    if c < 2048 {
        (c as u128) << 24
    } else {
        (0x800u128 | ((c & 0x7ff) as u128)) << (((c >> 11) + 23) as u128)
    }
}

spec fn bv_input(bits: u32) -> u128 {
    ((0x0080_0000u32 | (bits & 0x007f_ffff)) as u128) << ((((bits >> 23) & 0xff) - 101) as u128)
}

spec fn bv_code16(bits: u32) -> u32 {
    let e = (bits >> 23) & 0xff;
    let b = (bits + 0xfff + ((bits >> 13) & 1)) as u32;
    let e2 = (b >> 23) & 0xff;
    if e2 >= 143 {
        0x7c00
    } else if e2 >= 113 {
        (((e2 - 112) as u32) << 10) | ((b & 0x007f_ffff) >> 13)
    } else {
        let m32 = 0x0080_0000u32 | (bits & 0x007f_ffff);
        let shift = (126 - e) as u32;
        let half = 1u32 << ((shift - 1) as u32);
        ((m32 + half - 1 + ((m32 >> shift) & 1)) as u32) >> shift
    }
}

spec fn bv_value16(c: u32) -> u128 {
    if c < 1024 {
        (c as u128) << 24
    } else {
        (0x400u128 | ((c & 0x3ff) as u128)) << (((c >> 10) + 23) as u128)
    }
}

spec fn bv_input16(bits: u32) -> u128 {
    ((0x0080_0000u32 | (bits & 0x007f_ffff)) as u128) << ((((bits >> 23) & 0xff) - 102) as u128)
}

spec fn bv_rounds(below: u128, at: u128, above: u128, x: u128, code: u32, top: u32) -> bool {
    &&& code <= top
    &&& code > 0 ==> (below + at < 2 * x || (below + at == 2 * x && code % 2 == 0))
    &&& code < top ==> (2 * x < at + above || (2 * x == at + above && code % 2 == 0))
}

proof fn lemma_bv_fp16c(bits: u32)
    by (bit_vector)
    requires
        101 <= ((bits >> 23) & 0xff) <= 127,
    ensures
        bv_rounds(
            bv_value((bv_code(bits) - 1) as u32),
            bv_value(bv_code(bits)),
            bv_value((bv_code(bits) + 1) as u32),
            bv_input(bits),
            bv_code(bits),
            0x7fff,
        ),
{
}

proof fn lemma_bv_binary16(bits: u32)
    by (bit_vector)
    requires
        102 <= ((bits >> 23) & 0xff) <= 142,
    ensures
        bv_rounds(
            bv_value16((bv_code16(bits) - 1) as u32),
            bv_value16(bv_code16(bits)),
            bv_value16((bv_code16(bits) + 1) as u32),
            bv_input16(bits),
            bv_code16(bits),
            0x7c00,
        ),
{
}

/// The fields of an `f32` pattern, by shifting and by division.
proof fn lemma_f32_fields(bits: u32)
    by (bit_vector)
    ensures
        (bits >> 23) & 0xff == (bits % 0x8000_0000) / 0x80_0000,
        0x0080_0000u32 | (bits & 0x007f_ffff) == 0x80_0000 + bits % 0x80_0000,
        bits & 0x007f_ffff == bits % 0x80_0000,
        (bits % 0x8000_0000) % 0x80_0000 == bits % 0x80_0000,
        (bits >> 23) & 0xff <= 0xff,
        (bits >> 12) & 1 <= 1,
        (bits >> 13) & 1 <= 1,
        (bits >> 23) & 0xff < 0xff ==> bits <= 0xff7f_ffff,
        (bits >> 16) & 0x8000 == if bits >= 0x8000_0000 {
            0x8000u32
        } else {
            0u32
        },
{
}

/// A sign bit over a magnitude code keeps both.
proof fn lemma_sign_or(sign: u16, code: u16)
    by (bit_vector)
    requires
        sign == 0 || sign == 0x8000,
        code < 0x8000,
    ensures
        (sign | code) % 0x8000 == code,
        sign | code >= 0x8000 <==> sign == 0x8000,
{
}

/// Adding the rounding bits to a pattern whose exponent field is not all ones:
/// the exponent field cannot wrap, and the pieces of the result fit their fields.
proof fn lemma_round_up(bits: u32, add: u32, b: u32)
    by (bit_vector)
    requires
        (bits >> 23) & 0xff < 0xff,
        add <= 0x1000,
        b == bits + add,
    ensures
        (bits >> 23) & 0xff <= (b >> 23) & 0xff,
        (b & 0x007f_ffff) >> 12 <= 0x7ff,
        (b & 0x007f_ffff) >> 13 <= 0x3ff,
        forall|e: u32| e <= 15 ==> #[trigger] (e << 11) <= 0x7800,
        forall|e: u32| e <= 30 ==> #[trigger] (e << 10) <= 0x7800,
        forall|hi: u16, lo: u16, s: u16| #[trigger] (s | hi | lo) == s | (hi | lo),
        forall|hi: u32, lo: u32| hi < 0x8000 && lo < 0x8000 ==> #[trigger] (hi | lo) < 0x8000 && (
        hi | lo) as u16 == (hi as u16) | (lo as u16),
        forall|shift: u32| 1 <= shift <= 24 ==> 1 <= #[trigger] (1u32 << ((shift - 1) as u32))
            <= 0x80_0000,
        forall|m: u32, shift: u32| (#[trigger] (m >> shift)) & 1 <= 1,
{
}

/// Shifting left is multiplying by a power of two, while nothing falls off.
proof fn lemma_shl_is_mul(x: u128, n: nat)
    requires
        n < 128,
        x * pow2(n) <= u128::MAX,
    ensures
        x << (n as u128) == x * pow2(n),
    decreases n,
{
    lemma2_to64();
    if n == 0 {
        assert(x << 0u128 == x) by (bit_vector);
        assert(x * pow2(0) == x) by (nonlinear_arith)
            requires
                pow2(0) == 1,
        ;
    } else {
        let k = (n - 1) as nat;
        lemma_pow2_unfold(n);
        lemma_pow2_pos(k);
        assert(x * pow2(n) == 2 * (x * pow2(k))) by (nonlinear_arith)
            requires
                pow2(n) == 2 * pow2(k),
        ;
        lemma_shl_is_mul(x, k);
        let s = k as u128;
        let y = x << s;
        let t = n as u128;
        assert(x << t == 2 * y) by (bit_vector)
            requires
                s < 127,
                t == s + 1,
                y == x << s,
                y <= 0x7fff_ffff_ffff_ffff_ffff_ffff_ffff_ffffu128,
        ;
    }
}

/// Powers of two are ordered as their exponents.
proof fn lemma_pow2_le(a: nat, b: nat)
    requires
        a <= b,
    ensures
        0 < pow2(a) <= pow2(b),
{
    lemma_pow2_pos(a);
    if a < b {
        lemma_pow2_strictly_increases(a, b);
    }
}

/// Comparing a sum of two values with a doubled input may be done in finer units.
proof fn lemma_scale(a: int, b: int, x: int, fine: int, coarse: int)
    requires
        coarse > 0,
    ensures
        a * fine + b * fine < 2 * x <==> (a + b) * (fine * coarse) < 2 * (x * coarse),
        a * fine + b * fine == 2 * x <==> (a + b) * (fine * coarse) == 2 * (x * coarse),
        2 * x < a * fine + b * fine <==> 2 * (x * coarse) < (a + b) * (fine * coarse),
{
    let l = a * fine + b * fine;
    let r = 2 * x;
    assert((a + b) * (fine * coarse) == l * coarse) by (nonlinear_arith)
        requires
            l == a * fine + b * fine,
    ;
    assert(2 * (x * coarse) == r * coarse) by (nonlinear_arith)
        requires
            r == 2 * x,
    ;
    assert((l < r <==> l * coarse < r * coarse) && (l == r <==> l * coarse == r * coarse) && (r < l
        <==> r * coarse < l * coarse)) by (nonlinear_arith)
        requires
            coarse > 0,
    ;
}

/// A significand shifted to its binade is the value of its code.
proof fn lemma_code_shift(c: u32, s: u32, sig: u128, n: u128)
    requires
        1024 <= s <= 2048,
        c >= s,
        c / s <= 32,
        sig == s + c % s,
        n == c / s + 23,
    ensures
        sig << n == code_value(c as int, s as int) * pow2(24),
{
    let q = (c / s) as nat;
    assert(q >= 1) by (nonlinear_arith)
        requires
            q == c / s,
            c >= s,
            s > 0,
    ;
    lemma_pow2_adds((q - 1) as nat, 24);
    lemma_pow2_le((q + 23) as nat, 55);
    assert(pow2(55) == 0x80_0000_0000_0000) by {
        lemma2_to64_rest();
    }
    assert(sig * pow2((q + 23) as nat) <= 0xffff_ffff_ffff_ffff_ffff) by (nonlinear_arith)
        requires
            0 <= sig < 4096,
            0 < pow2((q + 23) as nat) <= 0x80_0000_0000_0000,
    ;
    lemma_shl_is_mul(sig, (q + 23) as nat);
    assert(sig * pow2((q - 1) as nat) * pow2(24) == sig * (pow2((q - 1) as nat) * pow2(24)))
        by (nonlinear_arith);
}

/// The bit-vector image of an FP16C code is its value.
proof fn lemma_bv_value(c: u32)
    requires
        c <= 0x8000,
    ensures
        bv_value(c) == code_value(c as int, 2048) * pow2(24),
{
    lemma2_to64();
    if c < 2048 {
        lemma_shl_is_mul(c as u128, 24);
    } else {
        assert(0x800u128 | ((c & 0x7ff) as u128) == 2048 + c % 2048 && c >> 11 == c / 2048)
            by (bit_vector);
        lemma_code_shift(
            c,
            2048,
            0x800u128 | ((c & 0x7ff) as u128),
            ((c >> 11) + 23) as u128,
        );
    }
}

/// The bit-vector image of a binary16 code is its value.
proof fn lemma_bv_value16(c: u32)
    requires
        c <= 0x8000,
    ensures
        bv_value16(c) == code_value(c as int, 1024) * pow2(24),
{
    lemma2_to64();
    if c < 1024 {
        lemma_shl_is_mul(c as u128, 24);
    } else {
        assert(0x400u128 | ((c & 0x3ff) as u128) == 1024 + c % 1024 && c >> 10 == c / 1024)
            by (bit_vector);
        lemma_code_shift(
            c,
            1024,
            0x400u128 | ((c & 0x3ff) as u128),
            ((c >> 10) + 23) as u128,
        );
    }
}

/// An `f32` at or above the exponent `base`, as a multiple of `2^(base - 150)`.
proof fn lemma_bv_input(bits: u32, base: u32)
    requires
        100 < base <= ((bits >> 23) & 0xff) <= base + 40,
        (bits >> 23) & 0xff < 0xff,
    ensures
        finite32(bits),
        f32_magnitude(bits) == (((0x0080_0000u32 | (bits & 0x007f_ffff)) as u128) << ((((bits
            >> 23) & 0xff) - base) as u128)) * pow2((base - 1) as nat),
{
    lemma_f32_fields(bits);
    let e = (bits >> 23) & 0xff;
    let sig = (0x0080_0000u32 | (bits & 0x007f_ffff)) as u128;
    let n = (e - base) as nat;
    lemma_pow2_le(n, 40);
    assert(pow2(40) == 0x100_0000_0000) by {
        lemma2_to64_rest();
    }
    assert(sig * pow2(n) <= 0xffff_ffff_ffff_ffff_ffff) by (nonlinear_arith)
        requires
            0 <= sig < 0x100_0000,
            0 < pow2(n) <= 0x100_0000_0000,
    ;
    lemma_shl_is_mul(sig, n);
    lemma_pow2_adds(n, (base - 1) as nat);
    assert(sig * pow2(n) * pow2((base - 1) as nat) == sig * (pow2(n) * pow2((base - 1) as nat)))
        by (nonlinear_arith);
}

/// An `f32` below the exponent `base` is under half of `2^(base + 23)`.
proof fn lemma_tiny(bits: u32, base: nat)
    requires
        (bits >> 23) & 0xff < base,
        100 < base < 200,
    ensures
        finite32(bits),
        0 <= 2 * f32_magnitude(bits) < pow2(base + 23),
{
    lemma_f32_fields(bits);
    let e = (bits >> 23) & 0xff;
    let f = (bits % 0x8000_0000) as int;
    lemma2_to64();
    lemma_pow2_adds(25, (base - 2) as nat);
    lemma_pow2_le(0, (base - 2) as nat);
    if f >= 0x80_0000 {
        let n = (e - 1) as nat;
        let sig = 0x80_0000 + f % 0x80_0000;
        lemma_pow2_le(n, (base - 2) as nat);
        assert(0 <= sig * pow2(n) < 0x100_0000 * pow2((base - 2) as nat)) by (nonlinear_arith)
            requires
                0 <= sig < 0x100_0000,
                0 < pow2(n) <= pow2((base - 2) as nat),
        ;
    }
}

/// An `f32` at or above the exponent `e0` is at least `2^(e0 + 22)`.
proof fn lemma_huge(bits: u32, e0: nat)
    requires
        0 < e0 <= (bits >> 23) & 0xff,
        (bits >> 23) & 0xff < 0xff,
    ensures
        finite32(bits),
        f32_magnitude(bits) >= 0x80_0000 * pow2((e0 - 1) as nat),
{
    lemma_f32_fields(bits);
    let e = (bits >> 23) & 0xff;
    let sig = 0x80_0000 + bits % 0x80_0000;
    let p = pow2((e - 1) as nat);
    lemma_pow2_le((e0 - 1) as nat, (e - 1) as nat);
    assert(sig * p >= 0x80_0000 * pow2((e0 - 1) as nat)) by (nonlinear_arith)
        requires
            sig >= 0x80_0000,
            p >= pow2((e0 - 1) as nat),
            pow2((e0 - 1) as nat) > 0,
    ;
}

/// Rounding, from its bit-vector image.
proof fn lemma_rounds_scaled(
    below: u128,
    at: u128,
    above: u128,
    x: u128,
    code: u32,
    top: u32,
    s: int,
    coarse: nat,
)
    requires
        bv_rounds(below, at, above, x, code, top),
        code > 0 ==> below == code_value(code - 1, s) * pow2(24),
        at == code_value(code as int, s) * pow2(24),
        code < top ==> above == code_value(code + 1, s) * pow2(24),
    ensures
        rounds_to(x * pow2(coarse), code as int, s, pow2(24 + coarse) as int, top as int),
{
    lemma_pow2_adds(24, coarse);
    lemma_pow2_pos(coarse);
    let v = code_value(code as int, s);
    if code > 0 {
        lemma_scale(code_value(code - 1, s), v, x as int, pow2(24) as int, pow2(coarse) as int);
    }
    if code < top {
        lemma_scale(v, code_value(code + 1, s), x as int, pow2(24) as int, pow2(coarse) as int);
    }
}

/// The code computed in the rounding range of FP16C is the rounded one.
proof fn lemma_fp16c_rounds(bits: u32, code: u32)
    requires
        101 <= ((bits >> 23) & 0xff) < 0xff,
        code == if (bits >> 23) & 0xff <= 127 {
            bv_code(bits)
        } else {
            0x7fff
        },
    ensures
        finite32(bits),
        rounds_to(f32_magnitude(bits), code as int, 2048, pow2(124) as int, 0x7fff),
{
    if (bits >> 23) & 0xff <= 127 {
        lemma_bv_fp16c(bits);
        lemma_bv_input(bits, 101);
        lemma_bv_value(code);
        if code > 0 {
            lemma_bv_value((code - 1) as u32);
        }
        lemma_bv_value((code + 1) as u32);
        lemma_rounds_scaled(
            bv_value((code - 1) as u32),
            bv_value(code),
            bv_value((code + 1) as u32),
            bv_input(bits),
            code,
            0x7fff,
            2048,
            100,
        );
    } else {
        lemma_huge(bits, 128);
        lemma2_to64();
        lemma_pow2_adds(3, 124);
        lemma_pow2_pos(124);
        assert(code_value(0x7fff, 2048) == 4095 * 0x4000);
        assert(code_value(0x7ffe, 2048) == 4094 * 0x4000);
        assert((4094 * 0x4000 + 4095 * 0x4000) * pow2(124) < 2 * (0x80_0000 * (8 * pow2(124))))
            by (nonlinear_arith)
            requires
                pow2(124) > 0,
        ;
    }
}

/// The code computed in the rounding range of binary16 is the rounded one.
proof fn lemma_binary16_rounds(bits: u32, code: u32)
    requires
        102 <= ((bits >> 23) & 0xff) < 0xff,
        code == if (bits >> 23) & 0xff <= 142 {
            bv_code16(bits)
        } else {
            0x7c00
        },
    ensures
        finite32(bits),
        rounds_to(f32_magnitude(bits), code as int, 1024, pow2(125) as int, 0x7c00),
{
    if (bits >> 23) & 0xff <= 142 {
        lemma_bv_binary16(bits);
        lemma_bv_input(bits, 102);
        lemma_bv_value16(code);
        if code > 0 {
            lemma_bv_value16((code - 1) as u32);
        }
        lemma_bv_value16((code + 1) as u32);
        lemma_rounds_scaled(
            bv_value16((code - 1) as u32),
            bv_value16(code),
            bv_value16((code + 1) as u32),
            bv_input16(bits),
            code,
            0x7c00,
            1024,
            101,
        );
    } else {
        lemma_huge(bits, 143);
        lemma2_to64();
        lemma_pow2_adds(17, 125);
        lemma_pow2_pos(125);
        assert(code_value(0x7c00, 1024) == 1024 * 0x4000_0000);
        assert(code_value(0x7bff, 1024) == 2047 * 0x2000_0000);
        assert((2047 * 0x2000_0000 + 1024 * 0x4000_0000) * pow2(125) < 2 * (0x80_0000 * (0x2_0000
            * pow2(125)))) by (nonlinear_arith)
            requires
                pow2(125) > 0,
        ;
    }
}

/// Encode an `f32` as FP16C. Saturates rather than producing an infinity,
/// because the format has none: an overflowing DDF is already a diverged
/// simulation, and a finite clamp keeps the failure legible instead of turning
/// the whole field into NaN one step later.
pub fn f32_to_fp16c(bits: u32) -> (h: u16)
    ensures
        fp16c_of(bits, h),
{
    proof {
        lemma_f32_fields(bits);
    }
    let sign: u16 = ((bits >> 16) & 0x8000) as u16;
    let e: u32 = (bits >> 23) & 0xff;
    // Inf / NaN have no encoding; saturate to the largest finite magnitude.
    if e == 0xff {
        proof {
            lemma_sign_or(sign, 0x7fff);
        }
        return sign | 0x7fff;
    }
    // Normal range: the FP16C biased exponent is `e - 112`, so `e` in 113..=127
    // lands in 1..=15. Round to nearest even on the 12 mantissa bits we drop,
    // *before* re-reading the exponent, so a mantissa carry propagates into the
    // exponent for free.

    if e >= 101 {
        let round: u32 = 0x7ff + ((bits >> 12) & 1);
        let b: u32 = bits.wrapping_add(round);
        let e2: u32 = (b >> 23) & 0xff;
        proof {
            lemma_round_up(bits, round, b);
        }
        if e2 >= 128 {
            proof {
                lemma_fp16c_rounds(bits, 0x7fff);
                lemma_sign_or(sign, 0x7fff);
            }
            return sign | 0x7fff;  // saturate
        }
        if e2 >= 113 {
            let m: u32 = (b & 0x007f_ffff) >> 12;
            let hi: u32 = (e2 - 112) << 11;
            proof {
                assert(hi | m < 0x8000);
                lemma_fp16c_rounds(bits, hi | m);
                lemma_sign_or(sign, (hi | m) as u16);
            }
            return sign | hi as u16 | m as u16;
        }
        // Subnormal: value = m * 2^-25 with m in 0..=2047. Reconstruct from the
        // *unrounded* significand so the rounding is applied at the right bit.

        let m32: u32 = 0x0080_0000 | (bits & 0x007f_ffff);
        let shift: u32 = 125 - e;  // >= 13 here, and <= 24 because e >= 101
        assert((m32 >> shift) & 1 <= 1);
        let half: u32 = 1u32 << (shift - 1);
        let m: u32 = (m32 + half - 1 + ((m32 >> shift) & 1)) >> shift;
        // `m == 0x800` means rounding pushed us up to the smallest normal, whose
        // encoding is exactly 0x0800, the same bit pattern. No special case.
        proof {
            lemma_fp16c_rounds(bits, m);
            lemma_sign_or(sign, m as u16);
        }
        return sign | m as u16;
    }
    // Below 2^-26: everything rounds to zero (2^-26 is half the smallest
    // subnormal, and round-to-nearest-even sends the tie to zero).

    proof {
        lemma_tiny(bits, 101);
        assert(code_value(1, 2048) == 1);
    }
    sign
}

/// IEEE binary16, for the comparison that justifies FP16C; the solver never
/// stores it.
pub fn f32_to_binary16(bits: u32) -> (h: u16)
    ensures
        binary16_of(bits, h),
{
    proof {
        lemma_f32_fields(bits);
    }
    let sign: u16 = ((bits >> 16) & 0x8000) as u16;
    let e: u32 = (bits >> 23) & 0xff;
    if e == 0xff {
        proof {
            lemma_sign_or(sign, 0x7c00);
            lemma_sign_or(sign, 0x7e00);
            assert(sign | 0x7c00 | 0x200 == sign | 0x7e00 && sign | 0x7c00 | 0 == sign | 0x7c00)
                by (bit_vector);
        }
        return sign | 0x7c00 | (if bits & 0x007f_ffff != 0 {
            0x200
        } else {
            0
        });
    }
    // 2^-25 is half the smallest binary16 subnormal, and sits at e == 102.

    if e >= 102 {
        let round: u32 = 0xfff + ((bits >> 13) & 1);
        let b: u32 = bits.wrapping_add(round);
        let e2: u32 = (b >> 23) & 0xff;
        proof {
            lemma_round_up(bits, round, b);
        }
        if e2 >= 143 {
            proof {
                lemma_binary16_rounds(bits, 0x7c00);
                lemma_sign_or(sign, 0x7c00);
            }
            return sign | 0x7c00;  // overflow to infinity
        }
        if e2 >= 113 {
            let m: u32 = (b & 0x007f_ffff) >> 13;
            let hi: u32 = (e2 - 112) << 10;
            proof {
                assert(hi | m < 0x8000);
                lemma_binary16_rounds(bits, hi | m);
                lemma_sign_or(sign, (hi | m) as u16);
            }
            return sign | hi as u16 | m as u16;
        }
        let m32: u32 = 0x0080_0000 | (bits & 0x007f_ffff);
        let shift: u32 = 126 - e;
        assert((m32 >> shift) & 1 <= 1);
        let half: u32 = 1u32 << (shift - 1);
        let m: u32 = (m32 + half - 1 + ((m32 >> shift) & 1)) >> shift;
        proof {
            lemma_binary16_rounds(bits, m);
            lemma_sign_or(sign, m as u16);
        }
        return sign | m as u16;
    }
    proof {
        lemma_tiny(bits, 102);
        assert(code_value(1, 1024) == 1);
    }
    sign
}

spec fn bv_normal(h: u32) -> u32 {
    ((h & 0x8000) << 16) | ((((h >> 11) & 0xf) + 112) as u32) << 23 | (h & 0x7ff) << 12
}

spec fn bv_subnormal(h: u32, k: u32) -> u32 {
    ((h & 0x8000) << 16) | ((k + 102) as u32) << 23 | ((h & 0x7ff) & !(1u32 << k)) << ((23 - k)
        as u32)
}

spec fn bv_normal16(h: u32) -> u32 {
    ((h & 0x8000) << 16) | ((((h >> 10) & 0x1f) + 112) as u32) << 23 | (h & 0x3ff) << 13
}

spec fn bv_subnormal16(h: u32, k: u32) -> u32 {
    ((h & 0x8000) << 16) | ((k + 103) as u32) << 23 | ((h & 0x3ff) & !(1u32 << k)) << ((23 - k)
        as u32)
}

/// The fields of an FP16C pattern, and the magnitude of the `f32` built of them.
proof fn lemma_bv_decode(h: u32, k: u32)
    by (bit_vector)
    requires
        h <= 0xffff,
        k < 32,
    ensures
        (h >> 11) & 0xf <= 15,
        (h & 0x8000) << 16 == if h >= 0x8000 {
            0x8000_0000u32
        } else {
            0u32
        },
        (h >> 11) & 0xf == 0 ==> h & 0x7ff == h % 0x8000,
        (h >> 11) & 0xf != 0 ==> {
            &&& bv_input(bv_normal(h)) == bv_value(h % 0x8000)
            &&& 101 <= ((bv_normal(h) >> 23) & 0xff) <= 127
            &&& (bv_normal(h) >= 0x8000_0000 <==> h >= 0x8000)
        },
        (h >> 11) & 0xf == 0 && ((h & 0x7ff) >> k) & 1 != 0 && (h & 0x7ff) >> ((k + 1) as u32) == 0
            ==> {
            &&& k <= 10
            &&& bv_input(bv_subnormal(h, k)) == bv_value(h % 0x8000)
            &&& 101 <= ((bv_subnormal(h, k) >> 23) & 0xff) <= 127
            &&& (bv_subnormal(h, k) >= 0x8000_0000 <==> h >= 0x8000)
        },
{
}

/// The fields of a binary16 pattern, and the magnitude of the `f32` built of them.
proof fn lemma_bv_decode16(h: u32, k: u32)
    by (bit_vector)
    requires
        h <= 0xffff,
        k < 32,
    ensures
        (h >> 10) & 0x1f <= 31,
        (h & 0x8000) << 16 == if h >= 0x8000 {
            0x8000_0000u32
        } else {
            0u32
        },
        (h >> 10) & 0x1f == 31 <==> h % 0x8000 >= 0x7c00,
        (h >> 10) & 0x1f == 31 ==> {
            let r = (h & 0x8000) << 16 | 0x7f80_0000 | (h & 0x3ff) << 13;
            &&& r % 0x8000_0000 == 0x7f80_0000 + (h % 0x8000 - 0x7c00) * 0x2000
            &&& (r >= 0x8000_0000 <==> h >= 0x8000)
        },
        (h >> 10) & 0x1f == 0 ==> h & 0x3ff == h % 0x8000,
        (h >> 10) & 0x1f != 0 && (h >> 10) & 0x1f != 31 ==> {
            &&& bv_input16(bv_normal16(h)) == bv_value16(h % 0x8000)
            &&& 102 <= ((bv_normal16(h) >> 23) & 0xff) <= 142
            &&& (bv_normal16(h) >= 0x8000_0000 <==> h >= 0x8000)
        },
        (h >> 10) & 0x1f == 0 && ((h & 0x3ff) >> k) & 1 != 0 && (h & 0x3ff) >> ((k + 1) as u32) == 0
            ==> {
            &&& k <= 9
            &&& bv_input16(bv_subnormal16(h, k)) == bv_value16(h % 0x8000)
            &&& 102 <= ((bv_subnormal16(h, k) >> 23) & 0xff) <= 142
            &&& (bv_subnormal16(h, k) >= 0x8000_0000 <==> h >= 0x8000)
        },
{
}

/// An `f32` whose bit-vector image is that of an FP16C code has its magnitude.
proof fn lemma_decoded(bits: u32, h: u16)
    requires
        101 <= ((bits >> 23) & 0xff) <= 127,
        bv_input(bits) == bv_value((h % 0x8000) as u32),
        bits >= 0x8000_0000 <==> h >= 0x8000,
    ensures
        f32_of_fp16c(h, bits),
{
    lemma_bv_input(bits, 101);
    lemma_bv_value((h % 0x8000) as u32);
    lemma_pow2_adds(24, 100);
    let v = code_value((h % 0x8000) as int, 2048);
    assert(v * pow2(24) * pow2(100) == v * (pow2(24) * pow2(100))) by (nonlinear_arith);
}

/// An `f32` whose bit-vector image is that of a binary16 code has its magnitude.
proof fn lemma_decoded16(bits: u32, h: u16)
    requires
        102 <= ((bits >> 23) & 0xff) <= 142,
        bv_input16(bits) == bv_value16((h % 0x8000) as u32),
        bits >= 0x8000_0000 <==> h >= 0x8000,
        h % 0x8000 < 0x7c00,
    ensures
        f32_of_binary16(h, bits),
{
    lemma_bv_input(bits, 102);
    lemma_bv_value16((h % 0x8000) as u32);
    lemma_pow2_adds(24, 101);
    let v = code_value((h % 0x8000) as int, 1024);
    assert(v * pow2(24) * pow2(101) == v * (pow2(24) * pow2(101))) by (nonlinear_arith);
}

/// Decode FP16C back to the bit pattern of an `f32`. Exact: every FP16C value is
/// representable in `f32`, so this direction never rounds.
pub fn fp16c_to_f32(h: u16) -> (bits: u32)
    ensures
        f32_of_fp16c(h, bits),
{
    let half: u16 = h;
    let h: u32 = h as u32;
    let sign: u32 = (h & 0x8000) << 16;
    let e: u32 = (h >> 11) & 0xf;
    let m: u32 = h & 0x7ff;
    proof {
        lemma_bv_decode(h, 0);
    }
    if e != 0 {
        proof {
            lemma_decoded(bv_normal(h), half);
        }
        return sign | (e + 112) << 23 | m << 12;
    }
    if m == 0 {
        proof {
            assert(code_value(0, 2048) == 0 && code_value(0, 0x80_0000) == 0);
        }
        return sign;  // +/- 0
    }
    // Subnormal: value = m * 2^-25. Normalise by hand: `k` is the index of the
    // leading set bit, so `m = 2^k * (1 + frac)` and the f32 exponent is
    // `k - 25 + 127`.

    proof {
        axiom_u32_leading_zeros(m);
    }
    let k: u32 = 31 - m.leading_zeros();
    proof {
        lemma_bv_decode(h, k);
        lemma_decoded(bv_subnormal(h, k), half);
    }
    sign | (k + 102) << 23 | (m & !(1u32 << k)) << (23 - k)
}

/// Decode IEEE binary16 to the bit pattern of an `f32`.
pub fn binary16_to_f32(h: u16) -> (bits: u32)
    ensures
        f32_of_binary16(h, bits),
{
    let half: u16 = h;
    let h: u32 = h as u32;
    let sign: u32 = (h & 0x8000) << 16;
    let e: u32 = (h >> 10) & 0x1f;
    let m: u32 = h & 0x3ff;
    proof {
        lemma_bv_decode16(h, 0);
    }
    if e == 0x1f {
        return sign | 0x7f80_0000 | m << 13;
    }
    if e != 0 {
        proof {
            lemma_decoded16(bv_normal16(h), half);
        }
        return sign | (e + 112) << 23 | m << 13;
    }
    if m == 0 {
        proof {
            assert(code_value(0, 1024) == 0 && code_value(0, 0x80_0000) == 0);
        }
        return sign;
    }
    proof {
        axiom_u32_leading_zeros(m);
    }
    let k: u32 = 31 - m.leading_zeros();
    proof {
        lemma_bv_decode16(h, k);
        lemma_decoded16(bv_subnormal16(h, k), half);
    }
    sign | (k + 103) << 23 | (m & !(1u32 << k)) << (23 - k)
}

/// Round trip through FP16C, i.e. the value the solver actually stores and reads
/// back. Handy for CPU reference solvers that need to mimic GPU truncation.
pub fn quantise_fp16c(bits: u32) -> (r: u32)
    ensures
        exists|h: u16| fp16c_of(bits, h) && f32_of_fp16c(h, r),
{
    fp16c_to_f32(f32_to_fp16c(bits))
}

/// Round trip through IEEE binary16.
pub fn quantise_binary16(bits: u32) -> (r: u32)
    ensures
        exists|h: u16| binary16_of(bits, h) && f32_of_binary16(h, r),
{
    binary16_to_f32(f32_to_binary16(bits))
}

/// The shader source of the storage codec, operation for operation what
/// [`f32_to_fp16c`] and [`fp16c_to_f32`] do. The shading language has no 16-bit
/// integer, so the encoded value lives in the low 16 bits of a `u32` throughout.
pub const WGSL_CODEC: &'static str = r#"
// GENERATED by ad_solver::precision::wgsl_codec - do not edit.
// 1 sign / 4 exponent (bias 15) / 11 mantissa, no inf, no NaN, range +/-1.99951.

fn f32_to_fp16c(x: f32) -> u32 {
    let bits: u32 = bitcast<u32>(x);
    let sign: u32 = (bits >> 16u) & 0x8000u;
    let e: u32 = (bits >> 23u) & 0xffu;
    if (e == 0xffu) { return sign | 0x7fffu; }          // inf/NaN -> saturate
    if (e < 101u)  { return sign; }                      // underflows to zero
    let round: u32 = 0x7ffu + ((bits >> 12u) & 1u);      // round to nearest even
    let b: u32 = bits + round;
    let e2: u32 = (b >> 23u) & 0xffu;
    if (e2 >= 128u) { return sign | 0x7fffu; }           // saturate
    if (e2 >= 113u) {
        return sign | (((e2 - 112u) << 11u) & 0x7800u) | ((b & 0x007fffffu) >> 12u);
    }
    // Subnormal: value = m * 2^-25, rounded from the unrounded significand.
    let m32: u32 = 0x00800000u | (bits & 0x007fffffu);
    let shift: u32 = 125u - e;                           // in 13..=24
    let half: u32 = 1u << (shift - 1u);
    let m: u32 = (m32 + half - 1u + ((m32 >> shift) & 1u)) >> shift;
    return sign | m;                                     // m == 0x800 is the smallest normal
}

fn fp16c_to_f32(h: u32) -> f32 {
    let sign: u32 = (h & 0x8000u) << 16u;
    let e: u32 = (h >> 11u) & 0xfu;
    let m: u32 = h & 0x7ffu;
    if (e != 0u) { return bitcast<f32>(sign | ((e + 112u) << 23u) | (m << 12u)); }
    if (m == 0u) { return bitcast<f32>(sign); }
    let k: u32 = firstLeadingBit(m);
    return bitcast<f32>(sign | ((k + 102u) << 23u) | ((m & ~(1u << k)) << (23u - k)));
}
"#;

/// WGSL source for the storage codec, matching [`f32_to_fp16c`] and
/// [`fp16c_to_f32`] operation for operation.
///
/// Kept beside them, so the two halves of the codec live in one place and cannot
/// drift.
pub fn wgsl_codec() -> (s: String)
    ensures
        s@ == WGSL_CODEC@,
{
    String::from_str(WGSL_CODEC)
}

/// How a distribution function is stored.
#[derive(Clone, Copy, Debug, PartialEq, Eq, Structural)]
pub enum DdfPrecision {
    Fp32,
    Fp16c,
}

/// Distributions per `u32` word, for the *packed* FP16C fallback layout.
///
/// Only the fallback shares a word between cells. Where the adapter can address
/// 16 bits each cell gets its own `u16` element and nothing is packed, so this
/// ratio does not describe that layout.
pub fn ddfs_per_word(p: DdfPrecision) -> (n: u64)
    ensures
        n == (match p {
            DdfPrecision::Fp32 => 1u64,
            DdfPrecision::Fp16c => 2u64,
        }),
{
    match p {
        DdfPrecision::Fp32 => 1,
        DdfPrecision::Fp16c => 2,
    }
}

// ---------------------------------------------------------------------------
// What the codec promises as a whole
// ---------------------------------------------------------------------------

/// A pattern has one FP16C image.
pub proof fn encoding_is_a_function(bits: u32, g: u16, h: u16)
    requires
        fp16c_of(bits, g),
        fp16c_of(bits, h),
    ensures
        g == h,
{
    if finite32(bits) {
        lemma_pow2_pos(124);
        rounding_is_unique(
            f32_magnitude(bits),
            (g % 0x8000) as int,
            (h % 0x8000) as int,
            2048,
            pow2(124) as int,
            0x7fff,
        );
    }
}

/// A code decodes to one pattern.
pub proof fn decoding_is_a_function(h: u16, a: u32, b: u32)
    requires
        f32_of_fp16c(h, a),
        f32_of_fp16c(h, b),
    ensures
        a == b,
{
    let x = (a % 0x8000_0000) as int;
    let y = (b % 0x8000_0000) as int;
    if x < y {
        lemma_code_value_monotonic(x, y, 0x80_0000);
    } else if y < x {
        lemma_code_value_monotonic(y, x, 0x80_0000);
    }
}

/// Decoding is exact: every one of the 65536 codes decodes to a finite pattern
/// that encodes to that code again, and to no other.
pub proof fn every_fp16c_pattern_round_trips(h: u16, bits: u32, back: u16)
    requires
        f32_of_fp16c(h, bits),
    ensures
        finite32(bits),
        fp16c_of(bits, back) <==> back == h,
{
    lemma_pow2_pos(124);
    exact_values_round_to_themselves((h % 0x8000) as int, 2048, pow2(124) as int, 0x7fff);
    assert(fp16c_of(bits, h));
    if fp16c_of(bits, back) {
        encoding_is_a_function(bits, back, h);
    }
}

/// Quantising a second time changes nothing.
pub proof fn quantising_is_idempotent(bits: u32, h: u16, once: u32, g: u16, twice: u32)
    requires
        fp16c_of(bits, h),
        f32_of_fp16c(h, once),
        fp16c_of(once, g),
        f32_of_fp16c(g, twice),
    ensures
        twice == once,
{
    every_fp16c_pattern_round_trips(h, once, g);
    decoding_is_a_function(h, once, twice);
}

/// Nothing that is not finite survives the codec: an infinity or a NaN comes
/// back as the largest magnitude, and so does every finite value at or past it.
pub proof fn fp16c_saturates(bits: u32, h: u16, back: u32)
    requires
        fp16c_of(bits, h),
        f32_of_fp16c(h, back),
        bits % 0x8000_0000 >= FP16C_MAX,
    ensures
        back % 0x8000_0000 == FP16C_MAX,
        back >= 0x8000_0000 <==> bits >= 0x8000_0000,
{
    lemma2_to64();
    lemma_pow2_pos(124);
    lemma_max_value();
    let top = code_value(0x7fff, 2048) * pow2(124);
    if finite32(bits) {
        let c = (h % 0x8000) as int;
        let x = (bits % 0x8000_0000) as int;
        if x > FP16C_MAX {
            lemma_code_value_monotonic(FP16C_MAX as int, x, 0x80_0000);
        }
        if c < 0x7fff {
            lemma_code_step(c, 2048);
            lemma_code_value_monotonic(c, 0x7fff, 2048);
            if c + 1 < 0x7fff {
                lemma_code_value_monotonic(c + 1, 0x7fff, 2048);
            }
            let a = code_value(c, 2048);
            let b = code_value(c + 1, 2048);
            let t = code_value(0x7fff, 2048);
            assert((a + b) * pow2(124) < 2 * (t * pow2(124))) by (nonlinear_arith)
                requires
                    a < t,
                    b <= t,
                    pow2(124) > 0,
            ;
        }
    }
    let y = (back % 0x8000_0000) as int;
    if y < FP16C_MAX {
        lemma_code_value_monotonic(y, FP16C_MAX as int, 0x80_0000);
    } else if y > FP16C_MAX {
        lemma_code_value_monotonic(FP16C_MAX as int, y, 0x80_0000);
    }
}

/// The pattern of the largest magnitude is the value of the largest code.
proof fn lemma_max_value()
    ensures
        code_value(FP16C_MAX as int, 0x80_0000) == code_value(0x7fff, 2048) * pow2(124),
{
    lemma2_to64();
    let f: int = 0x3fff_f000;
    assert(f / 0x80_0000 == 127 && f % 0x80_0000 == 0x7f_f000);
    assert(code_value(f, 0x80_0000) == 0xff_f000 * pow2(126));
    assert(0x7fff_int / 2048 == 15 && 0x7fff_int % 2048 == 2047);
    assert(code_value(0x7fff, 2048) == 4095 * pow2(14));
    lemma_pow2_adds(2, 124);
    assert(0xff_f000 * (4 * pow2(124)) == 4095 * 0x4000 * pow2(124)) by (nonlinear_arith);
}

/// A normal FP16C value is within one part in `2^12` of what was stored: half an
/// ulp of an 11-bit mantissa. It holds for magnitudes from `2^-14` to 2.
pub proof fn fp16c_relative_error(bits: u32, h: u16)
    requires
        fp16c_of(bits, h),
        FP16C_MIN_NORMAL <= bits % 0x8000_0000 <= 0x4000_0000,
    ensures
        4096 * distance(fp16c_magnitude(h), f32_magnitude(bits)) <= f32_magnitude(bits),
{
    lemma2_to64();
    lemma_pow2_pos(124);
    let u = pow2(124) as int;
    let x = f32_magnitude(bits);
    let c = (h % 0x8000) as int;
    let v = code_value(c, 2048);
    // The input lies between the smallest normal and two.
    let f = (bits % 0x8000_0000) as int;
    assert(code_value(FP16C_MIN_NORMAL as int, 0x80_0000) == 0x80_0000 * pow2(112)) by {
        assert(0x3880_0000int / 0x80_0000 == 113 && 0x3880_0000int % 0x80_0000 == 0);
    }
    assert(code_value(0x4000_0000, 0x80_0000) == 0x80_0000 * pow2(127)) by {
        assert(0x4000_0000int / 0x80_0000 == 128 && 0x4000_0000int % 0x80_0000 == 0);
    }
    lemma_pow2_adds(12, 112);
    lemma_pow2_adds(3, 124);
    if f > FP16C_MIN_NORMAL {
        lemma_code_value_monotonic(FP16C_MIN_NORMAL as int, f, 0x80_0000);
    }
    if f < 0x4000_0000 {
        lemma_code_value_monotonic(f, 0x4000_0000, 0x80_0000);
    }
    assert(2048 * u <= x <= 0x400_0000 * u);
    // So the code is normal.
    if c < 2048 {
        lemma_code_step(c, 2048);
        if c < 2047 {
            lemma_code_value_monotonic(c + 1, 2048, 2048);
        }
        assert(2048int / 2048 == 1 && 2048int % 2048 == 0);
        assert(code_value(2048, 2048) == 2048 * pow2(0));
        assert((v + code_value(c + 1, 2048)) * u < 4096 * u) by (nonlinear_arith)
            requires
                v < 2048,
                code_value(c + 1, 2048) <= 2048,
                u > 0,
        ;
    }
    let q = c / 2048;
    let r = c % 2048;
    let p = pow2((q - 1) as nat) as int;
    lemma_pow2_pos((q - 1) as nat);
    assert(v == (2048 + r) * p);
    lemma_code_step(c, 2048);
    lemma_code_step(c - 1, 2048);
    // Distance to the neighbours.
    let below = code_value(c - 1, 2048);
    let above = code_value(c + 1, 2048);
    assert(above == v + p);
    let step = v - below;
    assert(step <= p && (r == 0 && c > 2048 ==> 2 * step == p)) by {
        if r > 0 {
            assert((c - 1) / 2048 == q);
        } else {
            assert((c - 1) / 2048 == q - 1);
            if c > 2048 {
                lemma_pow2_unfold((q - 1) as nat);
            }
        }
    }
    lemma_relative_bound(x, u, v, r, p, step, above, c);
}

/// The arithmetic of the relative error bound.
proof fn lemma_relative_bound(
    x: int,
    u: int,
    v: int,
    r: int,
    p: int,
    step: int,
    above: int,
    c: int,
)
    requires
        u > 0,
        p > 0,
        0 <= r < 2048,
        v == (2048 + r) * p,
        0 < step <= p,
        r == 0 && c > 2048 ==> 2 * step == p,
        2048 <= c <= 0x7fff,
        c == 2048 ==> v == 2048 && r == 0,
        above == v + p,
        2048 * u <= x,
        (v - step + v) * u <= 2 * x,
        c < 0x7fff ==> 2 * x <= (v + above) * u,
        c == 0x7fff ==> r == 2047 && p == 0x4000 && x <= 0x400_0000 * u,
    ensures
        4096 * distance(v * u, x) <= x,
{
    let pu = p * u;
    let su = step * u;
    let vu = v * u;
    assert(pu > 0 && 0 < su <= pu) by (nonlinear_arith)
        requires
            pu == p * u,
            su == step * u,
            u > 0,
            p > 0,
            0 < step <= p,
    ;
    assert(vu == 2048 * pu + r * pu && r * pu >= 0 && (r >= 1 ==> r * pu >= pu)) by (nonlinear_arith)
        requires
            vu == v * u,
            v == (2048 + r) * p,
            pu == p * u,
            pu > 0,
            r >= 0,
    ;
    assert((v - step + v) * u == 2 * vu - su) by (nonlinear_arith)
        requires
            vu == v * u,
            su == step * u,
    ;
    assert((v + above) * u == 2 * vu + pu) by (nonlinear_arith)
        requires
            vu == v * u,
            pu == p * u,
            above == v + p,
    ;
    if c == 0x7fff {
        assert(r * pu == 2047 * pu);
        assert(pu == 0x4000 * u) by (nonlinear_arith)
            requires
                pu == p * u,
                p == 0x4000,
        ;
    }
    if c == 2048 {
        assert(vu == 2048 * u);
    }
    if r == 0 && c > 2048 {
        assert(2 * su == pu) by (nonlinear_arith)
            requires
                su == step * u,
                pu == p * u,
                2 * step == p,
        ;
    }
    if vu <= x {
        if c < 0x7fff {
            assert(2 * (x - vu) <= pu);
        } else {
            assert(x <= 4096 * pu);
        }
        assert(4096 * (x - vu) <= x);
    } else {
        assert(2 * (vu - x) <= su);
        assert(c > 2048);
        if r >= 1 {
            assert(x >= 2048 * pu);
        }
        assert(4096 * (vu - x) <= x);
    }
}

/// Below the smallest normal only an absolute bound is meaningful: half the
/// smallest subnormal, `2^-26`.
pub proof fn fp16c_subnormal_error(bits: u32, h: u16)
    requires
        fp16c_of(bits, h),
        bits % 0x8000_0000 < FP16C_MIN_NORMAL,
    ensures
        2 * distance(fp16c_magnitude(h), f32_magnitude(bits)) <= pow2(124),
{
    lemma2_to64();
    lemma_pow2_pos(124);
    let u = pow2(124) as int;
    let x = f32_magnitude(bits);
    let c = (h % 0x8000) as int;
    let f = (bits % 0x8000_0000) as int;
    assert(code_value(FP16C_MIN_NORMAL as int, 0x80_0000) == 0x80_0000 * pow2(112)) by {
        assert(0x3880_0000int / 0x80_0000 == 113 && 0x3880_0000int % 0x80_0000 == 0);
    }
    lemma_pow2_adds(12, 112);
    lemma_code_value_monotonic(f, FP16C_MIN_NORMAL as int, 0x80_0000);
    assert(x < 2048 * u);
    assert(2048int / 2048 == 1 && 2048int % 2048 == 0);
    assert(code_value(2048, 2048) == 2048 * pow2(0));
    if c > 2048 {
        lemma_code_value_monotonic(2048, c, 2048);
        if c - 1 > 2048 {
            lemma_code_value_monotonic(2048, c - 1, 2048);
        }
        assert((code_value(c - 1, 2048) + code_value(c, 2048)) * u >= 4096 * u) by (nonlinear_arith)
            requires
                code_value(c - 1, 2048) >= 2048,
                code_value(c, 2048) >= 2048,
                u > 0,
        ;
    }
    let v = code_value(c, 2048);
    lemma_code_step(f, 0x80_0000);
    assert(c == 0 ==> v * u == 0) by (nonlinear_arith)
        requires
            c == 0 ==> v == 0,
    ;
    if c > 0 {
        assert((code_value(c - 1, 2048) + v) * u == 2 * (v * u) - u) by (nonlinear_arith)
            requires
                code_value(c - 1, 2048) == v - 1,
        ;
    }
    if c < 2048 {
        lemma_code_step(c, 2048);
        assert((v + code_value(c + 1, 2048)) * u == 2 * (v * u) + u) by (nonlinear_arith)
            requires
                code_value(c + 1, 2048) == v + 1,
        ;
    }
}

/// Below 2, every binary16 value is an FP16C value, so FP16C is never further
/// from a stored value than binary16 is.
pub proof fn fp16c_is_at_least_as_close_as_binary16(bits: u32, h: u16, g: u16)
    requires
        fp16c_of(bits, h),
        binary16_of(bits, g),
        finite32(bits),
        g % 0x8000 < 0x4000,
    ensures
        distance(fp16c_magnitude(h), f32_magnitude(bits)) <= distance(
            binary16_magnitude(g),
            f32_magnitude(bits),
        ),
{
    let c = (g % 0x8000) as int;
    let x = f32_magnitude(bits);
    lemma_pow2_adds(1, 124);
    lemma2_to64();
    lemma_pow2_pos(124);
    let u = pow2(124) as int;
    assert(code_value(2 * c, 2048) == 2 * code_value(c, 1024)) by {
        if c >= 1024 {
            assert((2 * c) / 2048 == c / 1024 && (2 * c) % 2048 == 2 * (c % 1024));
            let p = pow2((c / 1024 - 1) as nat) as int;
            assert((2048 + 2 * (c % 1024)) * p == 2 * ((1024 + c % 1024) * p)) by (nonlinear_arith);
        }
    }
    assert(binary16_magnitude(g) == code_value(2 * c, 2048) * u) by (nonlinear_arith)
        requires
            binary16_magnitude(g) == code_value(c, 1024) * pow2(125),
            pow2(125) == 2 * u,
            code_value(2 * c, 2048) == 2 * code_value(c, 1024),
    ;
    if 2 * c != (h % 0x8000) as int {
        rounding_is_nearest(x, (h % 0x8000) as int, 2 * c, 2048, u, 0x7fff);
    }
}

/// A half-precision pattern keeps its kind and its sign as a single: numbers stay numbers,
/// infinities stay infinite, and a NaN stays one, quiet or not. No two become one.
pub proof fn a_half_stays_what_it_is(h: u16, k: u16, bits: u32)
    requires
        f32_of_binary16(h, bits),
    ensures
        bits >= 0x8000_0000 <==> h >= 0x8000,
        finite32(bits) <==> h % 0x8000 < 0x7c00,
        bits % 0x8000_0000 == 0x7f80_0000 <==> h % 0x8000 == 0x7c00,
        nan32(bits) <==> h % 0x8000 > 0x7c00,
        nan32(bits) ==> (bits % 0x80_0000 >= 0x40_0000 <==> h % 0x400 >= 0x200),
        nan32(bits) && f32_of_binary16(k, bits) ==> h == k,
{
}

} // verus!
