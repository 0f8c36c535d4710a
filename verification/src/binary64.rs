//! What `f64` bit patterns stand for.
//!
//! A finite magnitude stands for a whole number of the smallest subnormal, which is
//! `2^-1074`, so whether it reaches a fraction is a statement about integers.
use vstd::prelude::*;
use vstd::arithmetic::power2::*;
use crate::float_order::finite64;
use crate::minifloat::{code_value, lemma_code_step, lemma_code_value_monotonic};

verus! {

/// Significand steps per binade.
pub const STEPS64: u64 = 0x10_0000_0000_0000;

/// The magnitude of a finite pattern, in units of the smallest subnormal.
pub open spec fn size64(bits: u64) -> int {
    code_value(bits as int % 0x8000_0000_0000_0000, STEPS64 as int)
}

/// Whether the magnitude of a finite pattern is at least `num / den`.
pub open spec fn reaches(bits: u64, num: int, den: int) -> bool {
    size64(bits) * den >= num * pow2(1074)
}

/// A magnitude reaches a fraction exactly if its pattern is at least the first one that
/// does, `t`.
pub proof fn lemma_reaches(t: u64, num: int, den: int, v: u64)
    requires
        STEPS64 <= t < 0x7ff0_0000_0000_0000,
        t / STEPS64 <= 1075,
        num > 0,
        den > 0,
        (STEPS64 + t % STEPS64) * den >= num * pow2((1075 - t / STEPS64) as nat),
        t % STEPS64 > 0 ==> (STEPS64 + t % STEPS64 - 1) * den < num * pow2(
            (1075 - t / STEPS64) as nat,
        ),
        t % STEPS64 == 0 ==> STEPS64 * den == num * pow2((1075 - t / STEPS64) as nat),
        finite64(v),
    ensures
        reaches(v, num, den) <==> v % 0x8000_0000_0000_0000 >= t,
{
    let s = STEPS64 as int;
    let e = (t / STEPS64) as int;
    let f = (t % STEPS64) as int;
    let p = pow2((e - 1) as nat) as int;
    let r = pow2((1075 - e) as nat) as int;
    lemma_pow2_pos((e - 1) as nat);
    lemma_pow2_adds((e - 1) as nat, (1075 - e) as nat);
    assert(pow2(1074) == p * r);
    let n = num * pow2(1074);
    assert(n == (num * r) * p) by (nonlinear_arith)
        requires
            n == num * (p * r),
    ;
    let top = code_value(t as int, s);
    let below = code_value(t - 1, s);
    lemma_code_step(t - 1, s);
    assert(top == (s + f) * p);
    assert(top * den == ((s + f) * den) * p) by (nonlinear_arith)
        requires
            top == (s + f) * p,
    ;
    assert(((s + f) * den) * p >= (num * r) * p) by (nonlinear_arith)
        requires
            (s + f) * den >= num * r,
            p > 0,
    ;
    assert(top * den >= n);
    assert(below * den < n) by {
        if f > 0 {
            assert((t - 1) / s == e && (t - 1) % s == f - 1) by {
                vstd::arithmetic::div_mod::lemma_fundamental_div_mod(t as int, s);
                vstd::arithmetic::div_mod::lemma_fundamental_div_mod_converse(t - 1, s, e, f - 1);
            }
            assert(below == (s + f - 1) * p);
            assert(below * den == ((s + f - 1) * den) * p) by (nonlinear_arith)
                requires
                    below == (s + f - 1) * p,
            ;
            assert(((s + f - 1) * den) * p < (num * r) * p) by (nonlinear_arith)
                requires
                    (s + f - 1) * den < num * r,
                    p > 0,
            ;
        } else {
            assert(top * den == n);
            assert(below * den < top * den) by (nonlinear_arith)
                requires
                    below < top,
                    den > 0,
            ;
        }
    }
    let m = v as int % 0x8000_0000_0000_0000;
    let x = code_value(m, s);
    if m >= t {
        if m > t {
            lemma_code_value_monotonic(t as int, m, s);
        }
        assert(x * den >= top * den) by (nonlinear_arith)
            requires
                x >= top,
                den > 0,
        ;
    } else {
        if m < t - 1 {
            lemma_code_value_monotonic(m, t - 1, s);
        }
        assert(x * den <= below * den) by (nonlinear_arith)
            requires
                x <= below,
                den > 0,
        ;
    }
}

/// Only zero is as small as nothing.
pub proof fn lemma_size_positive(v: u64)
    ensures
        size64(v) >= 0,
        size64(v) > 0 <==> v % 0x8000_0000_0000_0000 > 0,
{
    let m = v as int % 0x8000_0000_0000_0000;
    if m > 0 {
        lemma_code_value_monotonic(0, m, STEPS64 as int);
    }
}

/// A pattern just below a fraction is less than it, by one part in `2^52` at most.
pub proof fn lemma_near_miss(t: u64, num: int, den: int, v: u64)
    requires
        STEPS64 <= t < 0x7fe0_0000_0000_0000,
        (t + 1) / STEPS64 as int <= 1075,
        t % STEPS64 + 1 < STEPS64,
        num > 0,
        den > 0,
        (STEPS64 + t % STEPS64 + 1) * den >= num * pow2((1075 - t / STEPS64) as nat),
        (STEPS64 + t % STEPS64) * den < num * pow2((1075 - t / STEPS64) as nat),
        finite64(v),
    ensures
        v % 0x8000_0000_0000_0000 >= t ==> size64(v) * den * (STEPS64 + 1) >= num * pow2(1074)
            * STEPS64,
        v % 0x8000_0000_0000_0000 < t ==> size64(v) * den < num * pow2(1074),
{
    let s = STEPS64 as int;
    let e = t as int / s;
    let f = t as int % s;
    let next = (t + 1) as u64;
    assert((t + 1) / s == e && (t + 1) % s == f + 1) by {
        vstd::arithmetic::div_mod::lemma_fundamental_div_mod(t as int, s);
        vstd::arithmetic::div_mod::lemma_fundamental_div_mod_converse(t + 1, s, e, f + 1);
    }
    lemma_reaches(next, num, den, v);
    let n = num * pow2(1074);
    if v % 0x8000_0000_0000_0000 >= t {
        let x = size64(v);
        lemma_size_positive(v);
        if v % 0x8000_0000_0000_0000 > t {
            assert(x * den * (s + 1) >= n * s) by (nonlinear_arith)
                requires
                    x * den >= n,
                    x >= 0,
                    den > 0,
                    s > 0,
            ;
        } else {
            lemma_code_step(t as int, s);
            let p = pow2((e - 1) as nat) as int;
            lemma_pow2_pos((e - 1) as nat);
            assert(x == (s + f) * p);
            lemma_reaches(next, num, den, next);
            assert(size64(next) == x + p);
            assert(x * den * (s + 1) >= n * s) by (nonlinear_arith)
                requires
                    x == (s + f) * p,
                    f >= 0,
                    p > 0,
                    s > 0,
                    den > 0,
                    (x + p) * den >= n,
            {
                assert(x >= s * p);
                assert(x * (s + 1) >= s * (x + p));
                assert(x * (s + 1) * den >= s * (x + p) * den);
                assert(s * ((x + p) * den) >= s * n);
            }
        }
    }
}

/// Whether a normal pattern reaches a fraction, by its significand.
pub proof fn lemma_reaches_at(c: u64, num: int, den: int)
    requires
        STEPS64 <= c < 0x7ff0_0000_0000_0000,
        c / STEPS64 <= 1075,
    ensures
        reaches(c, num, den) <==> (STEPS64 + c % STEPS64) * den >= num * pow2(
            (1075 - c / STEPS64) as nat,
        ),
{
    let s = STEPS64 as int;
    let e = (c / STEPS64) as int;
    let f = (c % STEPS64) as int;
    let p = pow2((e - 1) as nat) as int;
    let r = pow2((1075 - e) as nat) as int;
    lemma_pow2_pos((e - 1) as nat);
    lemma_pow2_adds((e - 1) as nat, (1075 - e) as nat);
    assert(size64(c) == (s + f) * p);
    assert(((s + f) * p) * den >= num * (p * r) <==> (s + f) * den >= num * r) by (nonlinear_arith)
        requires
            p > 0,
    {
        assert(((s + f) * p) * den == ((s + f) * den) * p);
        assert(num * (p * r) == (num * r) * p);
    }
}

/// Whether a number is `num / den`, but for one part in a million million.
pub open spec fn nearly(factor: u64, num: int, den: int) -> bool {
    &&& finite64(factor)
    &&& factor < 0x8000_0000_0000_0000
    &&& reaches(factor, num * 999_999_999_999, den * 1_000_000_000_000)
    &&& !reaches(factor, num * 1_000_000_000_001, den * 1_000_000_000_000)
}

/// A number clearly below or above a fraction is so of the pattern nearest to it.
pub proof fn lemma_clear_of(t: u64, num: int, den: int, v: u64)
    requires
        nearly(t, num, den),
        finite64(v),
        v < 0x8000_0000_0000_0000,
        den > 0,
    ensures
        !reaches(v, num * 999_999_999_999, den * 1_000_000_000_000) ==> v < t,
        reaches(v, num * 1_000_000_000_001, den * 1_000_000_000_000) ==> v > t,
{
    let x = size64(v);
    let y = size64(t);
    let d = den * 1_000_000_000_000;
    if v >= t {
        if v > t {
            lemma_code_value_monotonic(t as int, v as int, STEPS64 as int);
        }
        assert(x * d >= y * d) by (nonlinear_arith)
            requires
                x >= y,
                d > 0,
        ;
    }
    if v <= t {
        if v < t {
            lemma_code_value_monotonic(v as int, t as int, STEPS64 as int);
        }
        assert(x * d <= y * d) by (nonlinear_arith)
            requires
                x <= y,
                d > 0,
        ;
    }
}

} // verus!
