//! Ordering of IEEE floats by their bit patterns.
//!
//! The library handles floating-point quantities as bit patterns. Here they are
//! compared, clamped and changed in sign; every comparison is an integer one on a
//! sign-and-magnitude key. Sums and products are in [`crate::binary32`].
use vstd::prelude::*;

verus! {

/// Sign and magnitude of an `f32` pattern as one integer. Both zeros are 0, and
/// the order of the keys is the order of the values.
pub open spec fn key32(bits: u32) -> int {
    if bits >= 0x8000_0000 {
        -(bits - 0x8000_0000)
    } else {
        bits as int
    }
}

/// Whether an `f32` pattern is a NaN.
pub open spec fn nan32(bits: u32) -> bool {
    bits % 0x8000_0000 > 0x7f80_0000
}

/// Whether an `f32` pattern is neither an infinity nor a NaN.
pub open spec fn finite32(bits: u32) -> bool {
    bits % 0x8000_0000 < 0x7f80_0000
}

/// `a < b`, as `f32`.
pub open spec fn lt32(a: u32, b: u32) -> bool {
    !nan32(a) && !nan32(b) && key32(a) < key32(b)
}

/// `a <= b`, as `f32`.
pub open spec fn le32(a: u32, b: u32) -> bool {
    !nan32(a) && !nan32(b) && key32(a) <= key32(b)
}

/// `a == b`, as `f32`.
pub open spec fn eq32(a: u32, b: u32) -> bool {
    !nan32(a) && !nan32(b) && key32(a) == key32(b)
}

fn signed32(bits: u32) -> (k: i64)
    ensures
        k == key32(bits),
{
    if bits >= 0x8000_0000 {
        -((bits - 0x8000_0000) as i64)
    } else {
        bits as i64
    }
}

pub fn is_nan32(bits: u32) -> (r: bool)
    ensures
        r == nan32(bits),
{
    bits % 0x8000_0000 > 0x7f80_0000
}

pub fn is_finite32(bits: u32) -> (r: bool)
    ensures
        r == finite32(bits),
{
    bits % 0x8000_0000 < 0x7f80_0000
}

pub fn less32(a: u32, b: u32) -> (r: bool)
    ensures
        r == lt32(a, b),
{
    !is_nan32(a) && !is_nan32(b) && signed32(a) < signed32(b)
}

pub fn at_most32(a: u32, b: u32) -> (r: bool)
    ensures
        r == le32(a, b),
{
    !is_nan32(a) && !is_nan32(b) && signed32(a) <= signed32(b)
}

pub fn equal32(a: u32, b: u32) -> (r: bool)
    ensures
        r == eq32(a, b),
{
    !is_nan32(a) && !is_nan32(b) && signed32(a) == signed32(b)
}

/// `x` held between `lo` and `hi`; a NaN stays as it is.
pub open spec fn clamped32(x: u32, lo: u32, hi: u32) -> u32 {
    if lt32(x, lo) {
        lo
    } else if lt32(hi, x) {
        hi
    } else {
        x
    }
}

pub fn clamp32(x: u32, lo: u32, hi: u32) -> (r: u32)
    ensures
        r == clamped32(x, lo, hi),
{
    if less32(x, lo) {
        lo
    } else if less32(hi, x) {
        hi
    } else {
        x
    }
}

/// The larger of two `f32`; the other one where one is a NaN.
pub open spec fn greater32(a: u32, b: u32) -> u32 {
    if nan32(a) {
        b
    } else if lt32(a, b) {
        b
    } else {
        a
    }
}

pub fn max32(a: u32, b: u32) -> (r: u32)
    ensures
        r == greater32(a, b),
{
    if is_nan32(a) {
        b
    } else if less32(a, b) {
        b
    } else {
        a
    }
}

/// Clamping lands between the bounds, leaves what is between them alone, and a
/// second time changes nothing.
pub proof fn clamping_holds(x: u32, lo: u32, hi: u32)
    requires
        le32(lo, hi),
    ensures
        !nan32(x) ==> le32(lo, clamped32(x, lo, hi)) && le32(clamped32(x, lo, hi), hi),
        le32(lo, x) && le32(x, hi) ==> clamped32(x, lo, hi) == x,
        clamped32(clamped32(x, lo, hi), lo, hi) == clamped32(x, lo, hi),
{
}

/// The bit pattern without its sign.
pub open spec fn magnitude32(bits: u32) -> u32 {
    if bits >= 0x8000_0000 {
        (bits - 0x8000_0000) as u32
    } else {
        bits
    }
}

/// The absolute value.
pub fn abs32(bits: u32) -> (r: u32)
    ensures
        r == magnitude32(bits),
{
    if bits >= 0x8000_0000 {
        bits - 0x8000_0000
    } else {
        bits
    }
}

/// The bit pattern with the other sign.
pub open spec fn negated32(bits: u32) -> u32 {
    if bits >= 0x8000_0000 {
        (bits - 0x8000_0000) as u32
    } else {
        (bits + 0x8000_0000) as u32
    }
}

/// The negative.
pub fn neg32(bits: u32) -> (r: u32)
    ensures
        r == negated32(bits),
{
    if bits >= 0x8000_0000 {
        bits - 0x8000_0000
    } else {
        bits + 0x8000_0000
    }
}

/// Sign and magnitude of an `f64` pattern as one integer.
pub open spec fn key64(bits: u64) -> int {
    if bits >= 0x8000_0000_0000_0000 {
        -(bits - 0x8000_0000_0000_0000)
    } else {
        bits as int
    }
}

/// Whether an `f64` pattern is a NaN.
pub open spec fn nan64(bits: u64) -> bool {
    bits % 0x8000_0000_0000_0000 > 0x7ff0_0000_0000_0000
}

/// Whether an `f64` pattern is neither an infinity nor a NaN.
pub open spec fn finite64(bits: u64) -> bool {
    bits % 0x8000_0000_0000_0000 < 0x7ff0_0000_0000_0000
}

/// `a < b`, as `f64`.
pub open spec fn lt64(a: u64, b: u64) -> bool {
    !nan64(a) && !nan64(b) && key64(a) < key64(b)
}

/// `a <= b`, as `f64`.
pub open spec fn le64(a: u64, b: u64) -> bool {
    !nan64(a) && !nan64(b) && key64(a) <= key64(b)
}

/// `a == b`, as `f64`.
pub open spec fn eq64(a: u64, b: u64) -> bool {
    !nan64(a) && !nan64(b) && key64(a) == key64(b)
}

fn signed64(bits: u64) -> (k: i64)
    ensures
        k == key64(bits),
{
    if bits >= 0x8000_0000_0000_0000 {
        -((bits - 0x8000_0000_0000_0000) as i64)
    } else {
        bits as i64
    }
}

pub fn is_nan64(bits: u64) -> (r: bool)
    ensures
        r == nan64(bits),
{
    bits % 0x8000_0000_0000_0000 > 0x7ff0_0000_0000_0000
}

pub fn is_finite64(bits: u64) -> (r: bool)
    ensures
        r == finite64(bits),
{
    bits % 0x8000_0000_0000_0000 < 0x7ff0_0000_0000_0000
}

pub fn less64(a: u64, b: u64) -> (r: bool)
    ensures
        r == lt64(a, b),
{
    !is_nan64(a) && !is_nan64(b) && signed64(a) < signed64(b)
}

pub fn at_most64(a: u64, b: u64) -> (r: bool)
    ensures
        r == le64(a, b),
{
    !is_nan64(a) && !is_nan64(b) && signed64(a) <= signed64(b)
}

pub fn equal64(a: u64, b: u64) -> (r: bool)
    ensures
        r == eq64(a, b),
{
    !is_nan64(a) && !is_nan64(b) && signed64(a) == signed64(b)
}

/// `x` held between `lo` and `hi`; a NaN stays as it is.
pub open spec fn clamped64(x: u64, lo: u64, hi: u64) -> u64 {
    if lt64(x, lo) {
        lo
    } else if lt64(hi, x) {
        hi
    } else {
        x
    }
}

pub fn clamp64(x: u64, lo: u64, hi: u64) -> (r: u64)
    ensures
        r == clamped64(x, lo, hi),
{
    if less64(x, lo) {
        lo
    } else if less64(hi, x) {
        hi
    } else {
        x
    }
}

/// The larger of two `f64`; the other one where one is a NaN.
pub open spec fn greater64(a: u64, b: u64) -> u64 {
    if nan64(a) {
        b
    } else if lt64(a, b) {
        b
    } else {
        a
    }
}

pub fn max64(a: u64, b: u64) -> (r: u64)
    ensures
        r == greater64(a, b),
{
    if is_nan64(a) {
        b
    } else if less64(a, b) {
        b
    } else {
        a
    }
}

} // verus!
