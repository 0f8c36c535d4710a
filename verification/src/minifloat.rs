//! Small binary floating-point formats, as integers.
//!
//! A magnitude code of a format with `s = 2^p` significand steps per binade
//! stands for an integer number of the format's smallest subnormal. Codes below
//! `s` are subnormal and stand for themselves; above that each run of `s` codes
//! doubles the step. Rounding to such a format is then a statement about
//! integers: which code's half-way points enclose the value.
use vstd::prelude::*;
use vstd::arithmetic::power2::*;
use vstd::arithmetic::mul::*;

verus! {

/// What magnitude code `code` stands for, in units of the smallest subnormal.
pub open spec fn code_value(code: int, s: int) -> int {
    if code < s {
        code
    } else {
        (s + code % s) * (pow2((code / s - 1) as nat) as int)
    }
}

/// Whether `code` is the round-to-nearest, ties-to-even image of `x` among the
/// codes `0..=top`. `x` is measured in units `unit` times finer than a code's.
pub open spec fn rounds_to(x: int, code: int, s: int, unit: int, top: int) -> bool {
    &&& 0 <= code <= top
    &&& code > 0 ==> {
        let below = (code_value(code - 1, s) + code_value(code, s)) * unit;
        below < 2 * x || (below == 2 * x && code % 2 == 0)
    }
    &&& code < top ==> {
        let above = (code_value(code, s) + code_value(code + 1, s)) * unit;
        2 * x < above || (2 * x == above && code % 2 == 0)
    }
}

/// Consecutive codes stand for strictly increasing values, at a distance of one
/// power of two.
pub proof fn lemma_code_step(code: int, s: int)
    requires
        code >= 0,
        s > 0,
    ensures
        code_value(code, s) < code_value(code + 1, s),
        code_value(code + 1, s) == code_value(code, s) + (if code < s {
            1
        } else {
            pow2((code / s - 1) as nat) as int
        }),
        code_value(code, s) >= 0,
{
    if code + 1 < s {
    } else if code < s {
        assert(code + 1 == s);
        assert((code + 1) / s == 1 && (code + 1) % s == 0) by (nonlinear_arith)
            requires
                code + 1 == s,
                s > 0,
        ;
        lemma2_to64();
        assert(code_value(code + 1, s) == (s + 0) * 1);
    } else {
        let q = code / s;
        let r = code % s;
        assert(code == q * s + r && 0 <= r < s) by (nonlinear_arith)
            requires
                q == code / s,
                r == code % s,
                s > 0,
        ;
        assert(q >= 1) by (nonlinear_arith)
            requires
                q == code / s,
                code >= s,
                s > 0,
        ;
        lemma_pow2_pos((q - 1) as nat);
        let p = pow2((q - 1) as nat) as int;
        if r + 1 < s {
            assert((code + 1) / s == q && (code + 1) % s == r + 1) by {
                vstd::arithmetic::div_mod::lemma_fundamental_div_mod_converse(
                    code + 1,
                    s,
                    q,
                    r + 1,
                );
            }
            assert((s + (r + 1)) * p == (s + r) * p + p) by (nonlinear_arith);
            assert((s + r) * p >= 0) by (nonlinear_arith)
                requires
                    s > 0,
                    r >= 0,
                    p > 0,
            ;
        } else {
            assert((q + 1) * s == q * s + s) by (nonlinear_arith);
            assert((code + 1) / s == q + 1 && (code + 1) % s == 0) by {
                vstd::arithmetic::div_mod::lemma_fundamental_div_mod_converse(
                    code + 1,
                    s,
                    q + 1,
                    0,
                );
            }
            lemma_pow2_unfold(q as nat);
            let p2 = pow2(q as nat) as int;
            assert(p2 == 2 * p);
            assert((s + 0) * p2 == (s + r) * p + p) by (nonlinear_arith)
                requires
                    p2 == 2 * p,
                    r + 1 == s,
            ;
            assert((s + r) * p >= 0) by (nonlinear_arith)
                requires
                    s > 0,
                    r >= 0,
                    p > 0,
            ;
        }
    }
}

/// A larger code stands for a larger value.
pub proof fn lemma_code_value_monotonic(a: int, b: int, s: int)
    requires
        0 <= a < b,
        s > 0,
    ensures
        code_value(a, s) < code_value(b, s),
    decreases b - a,
{
    lemma_code_step(b - 1, s);
    if a < b - 1 {
        lemma_code_value_monotonic(a, b - 1, s);
    }
}

/// Half-way points in order: a value at or below the point above `a` is at or
/// below every later half-way point.
pub proof fn lemma_midpoints_ordered(a: int, b: int, s: int, unit: int)
    requires
        0 <= a < b,
        s > 0,
        unit > 0,
    ensures
        (code_value(a, s) + code_value(a + 1, s)) * unit <= (code_value(b - 1, s) + code_value(
            b,
            s,
        )) * unit,
        a + 1 < b ==> (code_value(a, s) + code_value(a + 1, s)) * unit < (code_value(b - 1, s)
            + code_value(b, s)) * unit,
{
    let lo = code_value(a, s) + code_value(a + 1, s);
    let hi = code_value(b - 1, s) + code_value(b, s);
    if a + 1 < b {
        lemma_code_value_monotonic(a, b - 1, s);
        lemma_code_value_monotonic(a + 1, b, s);
        assert(lo * unit < hi * unit) by (nonlinear_arith)
            requires
                lo < hi,
                unit > 0,
        ;
    }
}

/// Rounding has one result: no value rounds to two codes.
pub proof fn rounding_is_unique(x: int, a: int, b: int, s: int, unit: int, top: int)
    requires
        s > 0,
        unit > 0,
        rounds_to(x, a, s, unit, top),
        rounds_to(x, b, s, unit, top),
    ensures
        a == b,
{
    if a < b {
        lemma_midpoints_ordered(a, b, s, unit);
    } else if b < a {
        lemma_midpoints_ordered(b, a, s, unit);
    }
}

/// The rounded code is a nearest one: no other code of the format is closer, and
/// one that is exactly as close leaves the even code chosen.
pub proof fn rounding_is_nearest(x: int, code: int, other: int, s: int, unit: int, top: int)
    requires
        s > 0,
        unit > 0,
        rounds_to(x, code, s, unit, top),
        0 <= other <= top,
        other != code,
    ensures
        distance(code_value(code, s) * unit, x) <= distance(code_value(other, s) * unit, x),
        distance(code_value(code, s) * unit, x) == distance(code_value(other, s) * unit, x)
            ==> code % 2 == 0,
{
    let v = code_value(code, s) * unit;
    let w = code_value(other, s) * unit;
    if other < code {
        lemma_code_value_monotonic(other, code, s);
        if other < code - 1 {
            lemma_code_value_monotonic(other, code - 1, s);
        }
        lemma_code_step(code - 1, s);
        let n = code_value(code - 1, s);
        let c = code_value(code, s);
        let o = code_value(other, s);
        assert((n + c) * unit == n * unit + c * unit) by (nonlinear_arith);
        assert(o * unit <= n * unit < c * unit) by (nonlinear_arith)
            requires
                o <= n < c,
                unit > 0,
        ;
    } else {
        lemma_code_value_monotonic(code, other, s);
        if code + 1 < other {
            lemma_code_value_monotonic(code + 1, other, s);
        }
        lemma_code_step(code, s);
        let n = code_value(code + 1, s);
        let c = code_value(code, s);
        let o = code_value(other, s);
        assert((c + n) * unit == c * unit + n * unit) by (nonlinear_arith);
        assert(c * unit < n * unit <= o * unit) by (nonlinear_arith)
            requires
                c < n <= o,
                unit > 0,
        ;
    }
}

/// How far apart two values are.
pub open spec fn distance(a: int, b: int) -> int {
    if a <= b {
        b - a
    } else {
        a - b
    }
}

/// A value that a code stands for exactly rounds to that code.
pub proof fn exact_values_round_to_themselves(code: int, s: int, unit: int, top: int)
    requires
        s > 0,
        unit > 0,
        0 <= code <= top,
    ensures
        rounds_to(code_value(code, s) * unit, code, s, unit, top),
{
    let c = code_value(code, s);
    if code > 0 {
        lemma_code_step(code - 1, s);
        let n = code_value(code - 1, s);
        assert((n + c) * unit < 2 * (c * unit)) by (nonlinear_arith)
            requires
                n < c,
                unit > 0,
        ;
    }
    lemma_code_step(code, s);
    let n = code_value(code + 1, s);
    assert(2 * (c * unit) < (c + n) * unit) by (nonlinear_arith)
        requires
            c < n,
            unit > 0,
    ;
}

} // verus!
