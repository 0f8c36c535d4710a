//! Sums and products of `f32` bit patterns, rounded to the nearest, ties to even.
//!
//! A finite magnitude stands for a whole number of the smallest subnormal, so an exact
//! sum or product is an integer, and rounding it is a statement about integers.
use vstd::prelude::*;
use vstd::arithmetic::power2::*;
use crate::float_order::{finite32, is_finite32, is_nan32, le32, nan32};
use crate::minifloat::{
    code_value, lemma_code_step, lemma_code_value_monotonic, lemma_midpoints_ordered, rounds_to,
};

verus! {

/// Significand steps per binade.
pub const STEPS: u32 = 0x80_0000;

/// The pattern of infinity.
pub const INFINITY: u32 = 0x7f80_0000;

/// The pattern of a NaN.
pub const QUIET_NAN: u32 = 0x7fc0_0000;

/// What a magnitude stands for, in units of the smallest subnormal.
pub open spec fn size_of(magnitude: int) -> int {
    code_value(magnitude, STEPS as int)
}

/// A size with a sign.
pub open spec fn signed(size: int, minus: bool) -> int {
    if minus {
        -size
    } else {
        size
    }
}

/// What a finite pattern stands for, in units of the smallest subnormal.
pub open spec fn value_of(bits: u32) -> int {
    signed(size_of(bits as int % 0x8000_0000), bits >= 0x8000_0000)
}

/// Whether `magnitude` is the nearest one to `x`, which is measured in units `unit`
/// times finer; beyond the largest finite one it is infinity.
pub open spec fn nearest(x: int, unit: int, magnitude: int) -> bool {
    rounds_to(x, magnitude, STEPS as int, unit, INFINITY as int)
}

/// Whether `r` is the number nearest to `x`; a zero has the sign it is told.
pub open spec fn is_rounded(x: int, minus_zero: bool, r: u32) -> bool {
    if x > 0 {
        r < 0x8000_0000 && nearest(x, 1, r as int)
    } else if x < 0 {
        r >= 0x8000_0000 && nearest(-x, 1, r - 0x8000_0000)
    } else if minus_zero {
        r == 0x8000_0000
    } else {
        r == 0
    }
}

/// Whether `r` is the sum of `a` and `b`.
pub open spec fn is_sum(a: u32, b: u32, r: u32) -> bool {
    if nan32(a) || nan32(b) {
        nan32(r)
    } else if !finite32(a) && !finite32(b) {
        if a == b {
            r == a
        } else {
            nan32(r)
        }
    } else if !finite32(a) {
        r == a
    } else if !finite32(b) {
        r == b
    } else {
        is_rounded(
            value_of(a) + value_of(b),
            a >= 0x8000_0000 && b >= 0x8000_0000,
            r,
        )
    }
}

/// Whether `r` is the product of two magnitudes, of which the second is finite and
/// above zero.
pub open spec fn is_product(a: u32, b: u32, r: u32) -> bool {
    if a == INFINITY {
        r == INFINITY
    } else {
        nearest(size_of(a as int) * size_of(b as int), pow2(149) as int, r as int)
    }
}

/// The exponent of a magnitude's unit.
pub open spec fn exponent_of(magnitude: int) -> int {
    if magnitude < STEPS {
        0
    } else {
        magnitude / (STEPS as int) - 1
    }
}

/// The significand of a magnitude and the exponent of its unit.
#[verifier::spinoff_prover]
#[verifier::rlimit(80)]
fn parts(magnitude: u32) -> (r: (u64, u32))
    requires
        magnitude < INFINITY,
    ensures
        size_of(magnitude as int) == r.0 * pow2(r.1 as nat),
        r.0 < 0x100_0000,
        r.1 < 254,
        r.1 == exponent_of(magnitude as int),
        r.1 > 0 ==> r.0 >= STEPS,
        r.0 > 0 <==> magnitude > 0,
{
    if magnitude < STEPS {
        proof {
            lemma2_to64();
        }
        (magnitude as u64, 0)
    } else {
        (STEPS as u64 + (magnitude % STEPS) as u64, magnitude / STEPS - 1)
    }
}

/// Rounding with no largest magnitude.
spec fn nearest_freely(x: int, unit: int, code: int) -> bool {
    &&& code >= 0
    &&& code > 0 ==> {
        let below = (size_of(code - 1) + size_of(code)) * unit;
        below < 2 * x || (below == 2 * x && code % 2 == 0)
    }
    &&& ({
        let above = (size_of(code) + size_of(code + 1)) * unit;
        2 * x < above || (2 * x == above && code % 2 == 0)
    })
}

/// Beyond the largest finite magnitude the nearest one is infinity.
proof fn lemma_capped(x: int, unit: int, code: int)
    requires
        unit > 0,
        nearest_freely(x, unit, code),
    ensures
        nearest(
            x,
            unit,
            if code > INFINITY {
                INFINITY as int
            } else {
                code
            },
        ),
{
    if code > INFINITY {
        lemma_midpoints_ordered(INFINITY - 1, code, STEPS as int, unit);
    }
}

/// The magnitude with significand `m` in units of `2^(q-1)`.
#[verifier::spinoff_prover]
#[verifier::rlimit(80)]
proof fn lemma_coded(q: nat, m: int)
    requires
        q >= 1,
        0 <= m <= 2 * STEPS,
        q > 1 ==> m >= STEPS,
    ensures
        size_of((q - 1) * STEPS + m) == m * pow2((q - 1) as nat),
        ((q - 1) * STEPS + m) % 2 == m % 2,
        m < STEPS ==> q == 1 && (q - 1) * STEPS + m < STEPS,
        STEPS <= m < 2 * STEPS ==> ((q - 1) * STEPS + m) / (STEPS as int) == q,
        m == 2 * STEPS ==> ((q - 1) * STEPS + m) / (STEPS as int) == q + 1,
{
    let s = STEPS as int;
    let code = (q - 1) * STEPS + m;
    assert((q - 1) * 0x80_0000 == 2 * ((q - 1) * 0x40_0000)) by (nonlinear_arith);
    lemma2_to64();
    if m < s {
        assert(code == m);
    } else if m < 2 * s {
        assert(code == q * s + (m - s)) by (nonlinear_arith)
            requires
                code == (q - 1) * s + m,
        ;
        vstd::arithmetic::div_mod::lemma_fundamental_div_mod_converse(code, s, q as int, m - s);
    } else {
        assert(code == (q + 1) * s + 0) by (nonlinear_arith)
            requires
                code == (q - 1) * s + m,
                m == 2 * s,
        ;
        vstd::arithmetic::div_mod::lemma_fundamental_div_mod_converse(code, s, (q + 1) as int, 0);
        lemma_pow2_unfold(q as nat);
        assert((s + 0) * pow2(q as nat) == m * pow2((q - 1) as nat)) by (nonlinear_arith)
            requires
                m == 2 * s,
                pow2(q as nat) == 2 * pow2((q - 1) as nat),
        ;
    }
}

/// Whether `m` of `w` is the nearest multiple to `p`, ties to even.
spec fn snapped(p: int, w: int, m: int) -> bool {
    &&& -w <= 2 * (p - m * w) <= w
    &&& 2 * (p - m * w) == w ==> m % 2 == 0
    &&& 2 * (p - m * w) == -w ==> m % 2 == 0
}

/// A number rounded at the last bit of its significand is rounded to the nearest
/// magnitude.
#[verifier::spinoff_prover]
#[verifier::rlimit(80)]
proof fn lemma_snapped(p: int, e: nat, u: nat, q: nat, d: nat, m: int)
    requires
        p >= 0,
        q >= 1,
        d + e == q - 1 + u,
        0 <= m <= 2 * STEPS,
        q > 1 ==> m >= STEPS,
        snapped(p, pow2(d) as int, m),
        q > 1 && m == STEPS ==> p >= m * pow2(d),
    ensures
        nearest_freely(p * pow2(e), pow2(u) as int, (q - 1) * STEPS + m),
{
    let s = STEPS as int;
    let code = (q - 1) * STEPS + m;
    let step = pow2((q - 1) as nat) as int;
    let w = pow2(d) as int;
    let z = pow2(e) as int;
    let unit = pow2(u) as int;
    lemma_pow2_adds((q - 1) as nat, u);
    lemma_pow2_adds(d, e);
    lemma_pow2_pos((q - 1) as nat);
    lemma_pow2_pos(d);
    lemma_pow2_pos(e);
    lemma_pow2_pos(u);
    lemma2_to64();
    assert(step * unit == w * z);
    lemma_coded(q, m);
    assert(code >= 0) by (nonlinear_arith)
        requires
            code == (q - 1) * 0x80_0000 + m,
            q >= 1,
            m >= 0,
    ;
    let v = size_of(code);
    assert(v * unit == m * (w * z)) by (nonlinear_arith)
        requires
            v == m * step,
            step * unit == w * z,
    ;
    // Upward.
    lemma_code_step(code, s);
    let up = size_of(code + 1) - v;
    lemma_pow2_unfold(q as nat);
    assert(up == step || up == 2 * step);
    assert(up * unit >= w * z) by (nonlinear_arith)
        requires
            up == step || up == 2 * step,
            step * unit == w * z,
            w > 0,
            z > 0,
    ;
    assert((v + size_of(code + 1)) * unit == 2 * (v * unit) + up * unit) by (nonlinear_arith)
        requires
            up == size_of(code + 1) - v,
    ;
    let off = p - m * w;
    assert(2 * (p * z) == 2 * (m * (w * z)) + (2 * off) * z) by (nonlinear_arith)
        requires
            off == p - m * w,
    ;
    assert((2 * off) * z <= w * z && ((2 * off) * z == w * z ==> 2 * off == w)) by (nonlinear_arith)
        requires
            2 * off <= w,
            z > 0,
    ;
    assert(-(w * z) <= (2 * off) * z && ((2 * off) * z == -(w * z) ==> 2 * off == -w))
        by (nonlinear_arith)
        requires
            -w <= 2 * off,
            z > 0,
    ;
    // Downward.
    if code > 0 {
        lemma_code_step(code - 1, s);
        let down = v - size_of(code - 1);
        assert((size_of(code - 1) + v) * unit == 2 * (v * unit) - down * unit) by (nonlinear_arith)
            requires
                down == v - size_of(code - 1),
        ;
        if q > 1 && m == s {
            assert(code - 1 == (q - 1) * s + (s - 1)) by (nonlinear_arith)
                requires
                    code == (q - 1) * s + s,
            ;
            vstd::arithmetic::div_mod::lemma_fundamental_div_mod_converse(
                code - 1,
                s,
                q - 1,
                s - 1,
            );
            assert(code - 1 >= s) by (nonlinear_arith)
                requires
                    code - 1 == (q - 1) * s + (s - 1),
                    q > 1,
                    s > 0,
            ;
            lemma_pow2_pos((q - 2) as nat);
            assert(down > 0);
            assert(down * unit > 0) by (nonlinear_arith)
                requires
                    down > 0,
                    unit > 0,
            ;
            assert((2 * off) * z >= 0) by (nonlinear_arith)
                requires
                    off >= 0,
                    z > 0,
            ;
        } else {
            if q > 1 || m > s {
                lemma_coded(q, m - 1);
            }
            assert(down == step);
        }
    }
}

/// `2^n`.
fn power(n: u32) -> (w: u64)
    requires
        n < 64,
    ensures
        w == pow2(n as nat),
{
    proof {
        lemma2_to64();
        vstd::bits::lemma_u64_pow2_no_overflow(n as nat);
        vstd::bits::lemma_u64_shl_is_mul(1, n as u64);
    }
    1u64 << (n as u64)
}

/// How many bits a number takes.
#[verifier::spinoff_prover]
#[verifier::rlimit(80)]
fn length(p: u64) -> (l: u32)
    ensures
        l <= 64,
        p < pow2(l as nat),
        p > 0 ==> l > 0 && p >= pow2((l - 1) as nat),
        p == 0 ==> l == 0,
{
    let mut l: u32 = 0;
    let mut rest: u64 = p;
    proof {
        lemma2_to64();
    }
    while rest > 0
        invariant
            l <= 64,
            rest * pow2(l as nat) <= p < (rest + 1) * pow2(l as nat),
            p <= u64::MAX,
            p > 0 && rest == 0 ==> l > 0 && p >= pow2((l - 1) as nat),
            p == 0 ==> l == 0,
        decreases rest,
    {
        let ghost r = rest as int;
        let ghost w = pow2(l as nat) as int;
        proof {
            lemma_pow2_unfold((l + 1) as nat);
            lemma_pow2_pos(l as nat);
            lemma2_to64();
            assert(r * w >= w && (r == 1 ==> r * w == w)) by (nonlinear_arith)
                requires
                    r >= 1,
                    w > 0,
            ;
            assert((r / 2) * (2 * w) <= r * w && (r + 1) * w <= (r / 2 + 1) * (2 * w))
                by (nonlinear_arith)
                requires
                    r >= 0,
                    w > 0,
            ;
        }
        rest = rest / 2;
        l = l + 1;
    }
    assert((0 + 1) * pow2(l as nat) == pow2(l as nat)) by (nonlinear_arith);
    l
}

/// The magnitude nearest to `p * 2^e` units of `2^-u`.
#[verifier::spinoff_prover]
#[verifier::rlimit(60)]
fn rounded(p: u64, e: u32, u: u32) -> (code: u32)
    requires
        p < 0x400_0000_0000_0000,
        e <= 600,
        u <= 200,
    ensures
        code <= INFINITY,
        nearest(p * pow2(e as nat), pow2(u as nat) as int, code as int),
{
    proof {
        lemma_pow2_pos(u as nat);
        lemma2_to64();
        lemma2_to64_rest();
    }
    if p == 0 {
        assert(0 * pow2(e as nat) == 0) by (nonlinear_arith);
        assert((size_of(0) + size_of(1)) * pow2(u as nat) > 0) by (nonlinear_arith)
            requires
                size_of(0) == 0,
                size_of(1) == 1,
                pow2(u as nat) > 0,
        ;
        return 0;
    }
    let l: u32 = length(p);
    proof {
        if l > 58 {
            lemma_pow2_at_least(58, (l - 1) as nat);
        }
    }
    let k: i64 = u as i64 - e as i64;
    let fit: i64 = l as i64 - 23 - k;
    let q: i64 = if fit < 1 {
        1
    } else {
        fit
    };
    let d: i64 = q - 1 + k;
    let m: u64;
    if d <= 0 {
        // Exact: the significand has room to spare.
        let n: u32 = (-d) as u32;
        assert(n + l <= 24);
        let w: u64 = power(n);
        proof {
            lemma_pow2_adds(l as nat, n as nat);
            lemma_pow2_at_least((l + n) as nat, 24);
            lemma_pow2_pos(n as nat);
            assert(p * w < pow2(l as nat) * pow2(n as nat)) by (nonlinear_arith)
                requires
                    p < pow2(l as nat),
                    w == pow2(n as nat),
                    w > 0,
            ;
        }
        m = p * w;
        proof {
            if q > 1 {
                lemma_pow2_adds((l - 1) as nat, n as nat);
                assert(l - 1 + n == 23);
                assert(p * w >= pow2((l - 1) as nat) * pow2(n as nat)) by (nonlinear_arith)
                    requires
                        p >= pow2((l - 1) as nat),
                        w == pow2(n as nat),
                ;
            }
            let low = (e - n) as nat;
            lemma_pow2_adds(n as nat, low);
            assert(p * pow2(e as nat) == m * pow2(low)) by (nonlinear_arith)
                requires
                    m == p * pow2(n as nat),
                    pow2(e as nat) == pow2(n as nat) * pow2(low),
            ;
            lemma_snapped(m as int, low, u as nat, q as nat, 0, m as int);
        }
    } else {
        if d >= 60 {
            m = 0;
            proof {
                lemma_pow2_at_least(60, d as nat);
                assert(q == 1);
                lemma_snapped(p as int, e as nat, u as nat, 1, d as nat, 0);
            }
        } else {
            let w: u64 = power(d as u32);
            let base: u64 = p / w;
            let rem: u64 = p % w;
            let half: u64 = w / 2;
            proof {
                lemma_pow2_pos(d as nat);
                lemma_pow2_unfold(d as nat);
                assert(p == base * w + rem && rem < w) by (nonlinear_arith)
                    requires
                        base == p / w,
                        rem == p % w,
                        w > 0,
                ;
                // Twenty-four bits at most, and no fewer above the subnormals.
                lemma_pow2_adds(24, d as nat);
                lemma_pow2_at_least(l as nat, (d + 24) as nat);
                assert(base < 0x100_0000) by (nonlinear_arith)
                    requires
                        base * w <= p,
                        p < 0x100_0000 * w,
                ;
                if q > 1 {
                    lemma_pow2_adds(23, d as nat);
                    assert(l - 1 == d + 23);
                    assert(base >= 0x80_0000) by (nonlinear_arith)
                        requires
                            p < base * w + w,
                            p >= 0x80_0000 * w,
                            w > 0,
                    ;
                }
            }
            m = if rem > half || (rem == half && base % 2 == 1) {
                base + 1
            } else {
                base
            };
            proof {
                assert((base + 1) * w == base * w + w) by (nonlinear_arith);
                lemma_snapped(p as int, e as nat, u as nat, q as nat, d as nat, m as int);
            }
        }
    }
    proof {
        lemma_capped(
            p * pow2(e as nat),
            pow2(u as nat) as int,
            (q - 1) * STEPS + m,
        );
    }
    let code: u64 = (q - 1) as u64 * STEPS as u64 + m;
    if code > INFINITY as u64 {
        INFINITY
    } else {
        code as u32
    }
}

/// The product of two magnitudes, of which the second is finite and above zero.
#[verifier::spinoff_prover]
#[verifier::rlimit(80)]
pub fn product(a: u32, b: u32) -> (r: u32)
    requires
        a <= INFINITY,
        0 < b < INFINITY,
    ensures
        r <= INFINITY,
        is_product(a, b, r),
{
    if a == INFINITY {
        return INFINITY;
    }
    let x: (u64, u32) = parts(a);
    let y: (u64, u32) = parts(b);
    assert(x.0 * y.0 < 0x1_0000_0000_0000) by (nonlinear_arith)
        requires
            x.0 < 0x100_0000,
            y.0 < 0x100_0000,
    ;
    let p: u64 = x.0 * y.0;
    proof {
        lemma_pow2_adds(x.1 as nat, y.1 as nat);
        assert(size_of(a as int) * size_of(b as int) == p * pow2((x.1 + y.1) as nat))
            by (nonlinear_arith)
            requires
                size_of(a as int) == x.0 * pow2(x.1 as nat),
                size_of(b as int) == y.0 * pow2(y.1 as nat),
                pow2((x.1 + y.1) as nat) == pow2(x.1 as nat) * pow2(y.1 as nat),
                p == x.0 * y.0,
        ;
    }
    rounded(p, x.1 + y.1, 149)
}

/// What is off a large magnitude by far less than its last bit rounds to it.
#[verifier::spinoff_prover]
#[verifier::rlimit(80)]
proof fn lemma_absorbed(a: int, x: int)
    requires
        STEPS <= a < INFINITY,
        exponent_of(a) > 32,
        8 * (x - size_of(a)) < pow2(exponent_of(a) as nat),
        -(pow2(exponent_of(a) as nat)) < 8 * (x - size_of(a)),
    ensures
        nearest(x, 1, a),
{
    let s = STEPS as int;
    let e = exponent_of(a) as nat;
    lemma_code_step(a, s);
    lemma_code_step(a - 1, s);
    lemma_pow2_unfold(e);
    lemma_pow2_pos((e - 1) as nat);
    assert(a / s == e + 1);
    assert((a - 1) / s == e + 1 || (a - 1) / s == e);
}

/// The sum of two magnitudes, or their difference, the larger one first.
#[verifier::spinoff_prover]
#[verifier::rlimit(80)]
fn combined(a: u32, b: u32, apart: bool) -> (r: u32)
    requires
        b <= a < INFINITY,
    ensures
        r <= INFINITY,
        nearest(
            if apart {
                size_of(a as int) - size_of(b as int)
            } else {
                size_of(a as int) + size_of(b as int)
            },
            1,
            r as int,
        ),
{
    let x: (u64, u32) = parts(a);
    let y: (u64, u32) = parts(b);
    proof {
        lemma2_to64();
        lemma2_to64_rest();
    }
    let n: u32 = x.1 - y.1;
    if n > 32 {
        proof {
            lemma_pow2_adds(24, y.1 as nat);
            lemma_pow2_adds(3, (24 + y.1) as nat);
            lemma_pow2_at_least((27 + y.1) as nat, x.1 as nat);
            lemma_pow2_pos(y.1 as nat);
            assert(0 <= y.0 * pow2(y.1 as nat) < 0x100_0000 * pow2(y.1 as nat)) by (nonlinear_arith)
                requires
                    0 <= y.0 < 0x100_0000,
                    pow2(y.1 as nat) > 0,
            ;
            lemma_absorbed(
                a as int,
                if apart {
                    size_of(a as int) - size_of(b as int)
                } else {
                    size_of(a as int) + size_of(b as int)
                },
            );
        }
        return a;
    }
    let w: u64 = power(n);
    proof {
        lemma_pow2_at_least(n as nat, 32);
        lemma_pow2_adds(n as nat, y.1 as nat);
    }
    assert(0 <= x.0 * w <= 0x100_0000 * 0x1_0000_0000) by (nonlinear_arith)
        requires
            0 <= x.0 < 0x100_0000,
            0 < w <= 0x1_0000_0000,
    ;
    let big: u64 = x.0 * w;
    assert(size_of(a as int) == big * pow2(y.1 as nat)) by (nonlinear_arith)
        requires
            size_of(a as int) == x.0 * pow2(x.1 as nat),
            pow2(x.1 as nat) == pow2(n as nat) * pow2(y.1 as nat),
            big == x.0 * pow2(n as nat),
    ;
    if apart {
        proof {
            lemma_pow2_pos(y.1 as nat);
            lemma_ordered(b as int, a as int);
            assert(big >= y.0) by (nonlinear_arith)
                requires
                    big * pow2(y.1 as nat) >= y.0 * pow2(y.1 as nat),
                    pow2(y.1 as nat) > 0,
            ;
            assert((big - y.0) * pow2(y.1 as nat) == big * pow2(y.1 as nat) - y.0 * pow2(
                y.1 as nat,
            )) by (nonlinear_arith);
        }
        rounded(big - y.0, y.1, 0)
    } else {
        assert((big + y.0) * pow2(y.1 as nat) == big * pow2(y.1 as nat) + y.0 * pow2(y.1 as nat))
            by (nonlinear_arith);
        rounded(big + y.0, y.1, 0)
    }
}

/// A larger magnitude stands for more.
pub proof fn lemma_ordered(a: int, b: int)
    requires
        0 <= a <= b,
    ensures
        0 <= size_of(a) <= size_of(b),
        a < b ==> size_of(a) < size_of(b),
{
    lemma_code_step(a, STEPS as int);
    if a < b {
        lemma_code_value_monotonic(a, b, STEPS as int);
    }
}

/// The sum of two magnitudes with signs.
#[verifier::spinoff_prover]
#[verifier::rlimit(80)]
fn signed_sum(x: u32, minus_a: bool, y: u32, minus_b: bool) -> (r: u32)
    requires
        x < INFINITY,
        y < INFINITY,
    ensures
        is_rounded(
            signed(size_of(x as int), minus_a) + signed(size_of(y as int), minus_b),
            minus_a && minus_b,
            r,
        ),
{
    proof {
        lemma_ordered(0, x as int);
        lemma_ordered(0, y as int);
        if x <= y {
            lemma_ordered(x as int, y as int);
        } else {
            lemma_ordered(y as int, x as int);
        }
    }
    if x == 0 && y == 0 {
        return if minus_a && minus_b {
            0x8000_0000
        } else {
            0
        };
    }
    let apart: bool = minus_a != minus_b;
    if x == y && apart {
        return 0;
    }
    let r: u32;
    let minus: bool;
    if x >= y {
        r = combined(x, y, apart);
        minus = minus_a;
    } else {
        r = combined(y, x, apart);
        minus = minus_b;
    }
    if minus {
        r + 0x8000_0000
    } else {
        r
    }
}

/// The sum of two numbers.
#[verifier::spinoff_prover]
#[verifier::rlimit(80)]
pub fn sum(a: u32, b: u32) -> (r: u32)
    ensures
        is_sum(a, b, r),
{
    if is_nan32(a) || is_nan32(b) {
        return QUIET_NAN;
    }
    if !is_finite32(a) {
        if !is_finite32(b) && a != b {
            return QUIET_NAN;
        }
        return a;
    }
    if !is_finite32(b) {
        return b;
    }
    signed_sum(a % 0x8000_0000, a >= 0x8000_0000, b % 0x8000_0000, b >= 0x8000_0000)
}

/// The nearest magnitude is never below one that is no larger than the number.
#[verifier::spinoff_prover]
#[verifier::rlimit(80)]
pub proof fn lemma_at_least(x: int, unit: int, r: int, c: int)
    requires
        unit > 0,
        nearest(x, unit, r),
        0 <= c <= INFINITY,
        size_of(c) * unit <= x,
    ensures
        r >= c,
{
    if r < c {
        lemma_ordered(r, r + 1);
        lemma_ordered(r + 1, c);
        assert((size_of(r) + size_of(r + 1)) * unit < 2 * (size_of(c) * unit)) by (nonlinear_arith)
            requires
                size_of(r) < size_of(r + 1) <= size_of(c),
                unit > 0,
        ;
    }
}

/// The nearest magnitude is never above one that is no smaller than the number.
#[verifier::spinoff_prover]
#[verifier::rlimit(80)]
pub proof fn lemma_at_most(x: int, unit: int, r: int, c: int)
    requires
        unit > 0,
        nearest(x, unit, r),
        0 <= c <= INFINITY,
        size_of(c) * unit >= x,
    ensures
        r <= c,
{
    if r > c {
        lemma_ordered(c, r - 1);
        lemma_ordered(r - 1, r);
        assert((size_of(r - 1) + size_of(r)) * unit > 2 * (size_of(c) * unit)) by (nonlinear_arith)
            requires
                size_of(c) <= size_of(r - 1) < size_of(r),
                unit > 0,
        ;
    }
}

/// Dropping `k` from the exponent of a normal magnitude divides it by `2^k`.
#[verifier::spinoff_prover]
#[verifier::rlimit(80)]
pub proof fn lemma_scaled_down(a: int, k: nat)
    requires
        a - k * STEPS >= STEPS,
    ensures
        size_of(a) == size_of(a - k * STEPS) * pow2(k),
{
    let s = STEPS as int;
    let q = a / s;
    let r = a % s;
    let b = a - k * s;
    assert(b == (q - k) * s + r) by (nonlinear_arith)
        requires
            a == q * s + r,
            b == a - k * s,
    ;
    vstd::arithmetic::div_mod::lemma_fundamental_div_mod_converse(b, s, q - k, r);
    assert(q - k >= 1);
    lemma_pow2_adds((q - k - 1) as nat, k);
    assert((s + r) * pow2((q - 1) as nat) == ((s + r) * pow2((q - k - 1) as nat)) * pow2(k))
        by (nonlinear_arith)
        requires
            pow2((q - 1) as nat) == pow2((q - k - 1) as nat) * pow2(k),
    ;
}

proof fn lemma_pow2_at_least(a: nat, b: nat)
    requires
        a <= b,
    ensures
        0 < pow2(a) <= pow2(b),
{
    lemma_pow2_pos(a);
    if a < b {
        lemma_pow2_strictly_increases(a, b);
    }
}

/// Adding what is not positive never gives more, and adding what is not negative never
/// less.
#[verifier::spinoff_prover]
#[verifier::rlimit(80)]
pub proof fn sums_keep_to_their_side(a: u32, b: u32, r: u32)
    requires
        finite32(a),
        !nan32(b),
        is_sum(a, b, r),
    ensures
        le32(b, 0) ==> le32(r, a),
        le32(0, b) ==> le32(a, r),
{
    if finite32(b) {
        let x = value_of(a) + value_of(b);
        let m = a as int % 0x8000_0000;
        let n = b as int % 0x8000_0000;
        lemma_size_sign(m);
        lemma_size_sign(n);
        if x > 0 {
            let k = r as int;
            if le32(b, 0) {
                lemma_at_most(x, 1, k, m);
            }
            if le32(0, b) && a < 0x8000_0000 {
                lemma_at_least(x, 1, k, m);
            }
        } else if x < 0 {
            let k = r - 0x8000_0000;
            if le32(b, 0) && a >= 0x8000_0000 {
                lemma_at_least(-x, 1, k, m);
            }
            if le32(0, b) {
                lemma_at_most(-x, 1, k, m);
            }
        }
    }
}

proof fn lemma_size_sign(m: int)
    requires
        0 <= m,
    ensures
        size_of(m) >= 0,
        size_of(m) == 0 <==> m == 0,
{
    if m > 0 {
        lemma_code_value_monotonic(0, m, STEPS as int);
    }
}

/// A pattern from one on stands for so many times what one stands for.
pub proof fn lemma_multiple_of_one(c: u32, n: int)
    requires
        0x3f80_0000 <= c < INFINITY,
        (STEPS + c % STEPS) * pow2((c / STEPS - 127) as nat) == n * STEPS,
    ensures
        value_of(c) == n * value_of(0x3f80_0000),
{
    let e = (c / STEPS) as int;
    let f = (c % STEPS) as int;
    let s = STEPS as int;
    let p = pow2(126) as int;
    let q = pow2((e - 127) as nat) as int;
    lemma_pow2_adds(126, (e - 127) as nat);
    assert(size_of(c as int) == (s + f) * pow2((e - 1) as nat));
    assert(size_of(0x3f80_0000) == s * p);
    assert((s + f) * (p * q) == n * (s * p)) by (nonlinear_arith)
        requires
            (s + f) * q == n * s,
    {
        assert((s + f) * (p * q) == ((s + f) * q) * p);
        assert(n * (s * p) == (n * s) * p);
    }
}

/// Adding nothing changes nothing.
pub proof fn adding_zero_changes_nothing(a: u32, b: u32, r: u32)
    requires
        a % 0x8000_0000 == 0,
        finite32(b),
        is_sum(a, b, r),
    ensures
        value_of(r) == value_of(b),
{
    let x = value_of(b);
    let m = b as int % 0x8000_0000;
    lemma_size_sign(m);
    assert(value_of(a) == 0);
    if x > 0 {
        lemma_at_least(x, 1, r as int, m);
        lemma_at_most(x, 1, r as int, m);
    } else if x < 0 {
        lemma_at_least(-x, 1, r - 0x8000_0000, m);
        lemma_at_most(-x, 1, r - 0x8000_0000, m);
    }
}

/// A product by one is the other factor.
pub proof fn one_times_a_number_is_the_number(a: u32, r: u32)
    requires
        a <= INFINITY,
        r <= INFINITY,
        is_product(a, 0x3f80_0000, r),
    ensures
        r == a,
{
    if a < INFINITY {
        let p = pow2(149) as int;
        let s = STEPS as int;
        lemma2_to64();
        lemma_pow2_pos(149);
        lemma_pow2_adds(23, 126);
        assert(pow2(23) == 0x80_0000);
        assert(0x3f80_0000int / s == 127 && 0x3f80_0000int % s == 0);
        assert(size_of(0x3f80_0000) == s * pow2(126));
        assert(size_of(0x3f80_0000) == p);
        let x = size_of(a as int) * p;
        lemma_at_least(x, p, r as int, a as int);
        lemma_at_most(x, p, r as int, a as int);
    }
}

/// A sum of two numbers of one sign has that sign, zeros included.
pub proof fn a_sum_of_one_sign_keeps_it(a: u32, b: u32, r: u32)
    requires
        finite32(a),
        finite32(b),
        is_sum(a, b, r),
    ensures
        a >= 0x8000_0000 && b >= 0x8000_0000 ==> r >= 0x8000_0000,
        a < 0x8000_0000 && b < 0x8000_0000 ==> r < 0x8000_0000,
{
    lemma_size_sign(a as int % 0x8000_0000);
    lemma_size_sign(b as int % 0x8000_0000);
}

} // verus!
