//! The per-cell flag byte.
//!
//! Six bits say what a cell is; the two high bits number the inlet that drives
//! an inlet cell.
use vstd::prelude::*;

verus! {

pub const FLUID: u8 = 0;

pub const SOLID: u8 = 1;

pub const SOLID_BOUNDARY: u8 = 2;

pub const INLET: u8 = 4;

pub const OUTLET: u8 = 8;

pub const SPONGE: u8 = 16;

pub const EQUILIBRIUM: u8 = 32;

/// Whether the bit `flag` is set in `f`.
pub open spec fn flagged(f: u8, flag: u8) -> bool {
    f & flag != 0
}

/// Whether a cell with these flags is part of the flow.
pub open spec fn fluid(f: u8) -> bool {
    !flagged(f, SOLID)
}

/// Whether a cell with these flags is part of the flow.
pub fn is_fluid(f: u8) -> (r: bool)
    ensures
        r == fluid(f),
{
    f & SOLID == 0
}

/// The number of the inlet that drives a cell.
pub fn inlet_slot(f: u8) -> (slot: usize)
    ensures
        slot == f / 64,
        slot < 4,
{
    assert(f >> 6 == f / 64) by (bit_vector);
    (f >> 6) as usize
}

/// The flags of an inlet cell driven by inlet `slot`.
pub fn inlet_in_slot(slot: u8) -> (f: u8)
    requires
        slot < 4,
    ensures
        f == INLET + 64 * slot,
        f / 64 == slot,
        flagged(f, INLET),
        fluid(f),
{
    assert(slot < 4 ==> 4u8 | (slot << 6) == 4 + 64 * slot && (4u8 | (slot << 6)) & 4 != 0 && (4u8
        | (slot << 6)) & 1 == 0) by (bit_vector);
    INLET | (slot << 6)
}

/// Each flag is a bit of its own, and none of them is one of the two bits that number an
/// inlet.
pub proof fn the_flags_are_separate_bits(f: u8)
    ensures
        flagged(f, SOLID) <==> f % 2 == 1,
        flagged(f, SOLID_BOUNDARY) <==> (f / 2) % 2 == 1,
        flagged(f, INLET) <==> (f / 4) % 2 == 1,
        flagged(f, OUTLET) <==> (f / 8) % 2 == 1,
        flagged(f, SPONGE) <==> (f / 16) % 2 == 1,
        flagged(f, EQUILIBRIUM) <==> (f / 32) % 2 == 1,
        FLUID == 0,
{
    assert((f & 1 != 0 <==> f % 2 == 1) && (f & 2 != 0 <==> (f / 2) % 2 == 1) && (f & 4 != 0 <==> (f
        / 4) % 2 == 1) && (f & 8 != 0 <==> (f / 8) % 2 == 1) && (f & 16 != 0 <==> (f / 16) % 2
        == 1) && (f & 32 != 0 <==> (f / 32) % 2 == 1)) by (bit_vector);
}

} // verus!
