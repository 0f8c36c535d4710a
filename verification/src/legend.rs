//! The colour-bar legend and its draggable range handles.
//!
//! Three gestures:
//!
//! * **drag an end** to rescale that end of the range,
//! * **double-click** to auto-range to the data,
//! * **lock** to freeze the range for an A/B comparison.
//!
//! The lock is the one that matters. Two designs rendered with independently
//! auto-ranged colour bars look identical no matter how different they are,
//! because auto-ranging *removes* exactly the information you are trying to
//! compare. So the lock is a first-class piece of state here, and it is sticky
//! across a field switch, because that is the moment it is most often wanted and
//! most easily lost.
//!
//! The ends are bit patterns of `f32`. Where a dragged end lands and where the ticks
//! are takes logarithms, and is computed by functions that the caller hands in.
use vstd::prelude::*;
use vstd::arithmetic::power2::*;
use crate::binary32::{
    is_product, is_sum, lemma_at_least, lemma_at_most, lemma_ordered, lemma_scaled_down, nearest,
    product, size_of, sum, sums_keep_to_their_side, value_of, INFINITY, STEPS,
};
use crate::config::ONE;
use crate::float_order::{
    abs32, at_most32, eq32, equal32, finite32, greater32, is_finite32, is_nan32, le32, lt32,
    magnitude32, max32, nan32, neg32, negated32,
};
use crate::minifloat::lemma_code_step;

verus! {

/// How data values are laid out along the bar.
#[derive(Clone, Copy, Debug, PartialEq, Eq, Structural)]
pub enum RangeScale {
    Linear,
    Log,
}

/// Which end of the bar is being dragged.
#[derive(Clone, Copy, Debug, PartialEq, Eq, Structural)]
pub enum Handle {
    Low,
    High,
}

/// What the legend and the renderer's transfer function have in common.
#[derive(Clone, Copy, Debug, PartialEq, Eq, Structural)]
pub struct TransferFunction {
    pub lo: u32,
    pub hi: u32,
    pub scale: RangeScale,
    pub symmetric_lock: bool,
}

/// The ways a range can break the invariants the shader and the tick generator
/// rely on, in the order in which they are mended.
#[derive(Clone, Copy, Debug, PartialEq, Eq, Structural)]
pub enum Repair {
    /// An end is not finite: the range becomes `[0, 1]`.
    Unit,
    /// The ends met or crossed: the top is put a minimum span above the bottom.
    /// Swapping them instead would make the bar flip under the cursor.
    Span,
    /// A logarithmic range starts at or below zero: the bottom is put some decades
    /// below the top.
    Floor,
    /// A logarithmic range is still empty: the top is put a decade above the
    /// bottom.
    Top,
}

/// Bit patterns of the numbers a range is mended with: one ten-thousandth, one
/// millionth and ten; and of two percent.
pub const PART: u32 = 0x38d1_b717;

pub const LEAST: u32 = 0x3586_37bd;

pub const TEN: u32 = 0x4120_0000;

pub const TWO_PERCENT: u32 = 0x3ca3_d70a;

/// Bit pattern of `1e30`.
pub const LARGE: u32 = 0x7149_f2ca;

/// The legend's own state, separate from the transfer function it drives.
///
/// Kept separate because the transfer function is what the shader reads, while
/// this is what the *widget* remembers.
#[derive(Clone, Copy, Debug, PartialEq, Eq, Structural)]
pub struct LegendRange {
    pub lo: u32,
    pub hi: u32,
    pub scale: RangeScale,
    /// Frozen: neither a drag nor an auto-range may change it.
    pub locked: bool,
    /// Keep `[-m, m]`: dragging one end drags the other.
    pub symmetric: bool,
    /// Handle currently under the mouse button, for the drag.
    pub dragging: Option<Handle>,
}

impl Default for LegendRange {
    fn default() -> (r: Self)
        ensures
            r == LegendRange::unit(),
    {
        LegendRange {
            lo: 0,
            hi: ONE,
            scale: RangeScale::Linear,
            locked: false,
            symmetric: false,
            dragging: None,
        }
    }
}

impl LegendRange {
    /// The range `[0, 1]`, linear and free.
    pub open spec fn unit() -> LegendRange {
        LegendRange {
            lo: 0,
            hi: ONE,
            scale: RangeScale::Linear,
            locked: false,
            symmetric: false,
            dragging: None,
        }
    }

    /// What the shader and the tick generator rely on.
    pub open spec fn sound(self) -> bool {
        &&& finite32(self.lo)
        &&& finite32(self.hi)
        &&& lt32(self.lo, self.hi)
        &&& self.scale == RangeScale::Log ==> lt32(0, self.lo)
    }

    /// Whether the range is broken in this way.
    pub open spec fn broken(self, step: Repair) -> bool {
        match step {
            Repair::Unit => !finite32(self.lo) || !finite32(self.hi),
            Repair::Span => le32(self.hi, self.lo),
            Repair::Floor => self.scale == RangeScale::Log && le32(self.lo, 0),
            Repair::Top => self.scale == RangeScale::Log && le32(self.hi, self.lo),
        }
    }

    /// The range with one break mended by `value`.
    pub open spec fn mended(self, step: Repair, value: u32) -> LegendRange {
        match step {
            Repair::Unit => LegendRange { lo: 0, hi: ONE, ..self },
            Repair::Span => LegendRange { hi: value, ..self },
            Repair::Floor => LegendRange { lo: value, ..self },
            Repair::Top => LegendRange { hi: value, ..self },
        }
    }

    /// Whether `v` is the value that mends a break: for a top that met the bottom, the
    /// bottom and a minimum span; for a logarithmic bottom at or below zero, four
    /// decades below the top; for a logarithmic top at or below that, a decade above.
    pub open spec fn mends(self, step: Repair, v: u32) -> bool {
        match step {
            Repair::Unit => v == 0,
            Repair::Span => exists|span: u32| #[trigger]
                is_product(greater32(magnitude32(self.lo), ONE), PART, span) && is_sum(
                    self.lo,
                    greater32(span, LEAST),
                    v,
                ),
            Repair::Floor => is_product(greater32(magnitude32(self.hi), LEAST), PART, v),
            Repair::Top => is_product(self.lo, TEN, v),
        }
    }

    /// One step of repair: nothing where nothing is broken, else the range mended.
    pub open spec fn repaired(self, step: Repair, after: LegendRange) -> bool {
        if self.broken(step) {
            exists|v: u32| #[trigger] self.mends(step, v) && after == self.mended(step, v)
        } else {
            after == self
        }
    }

    /// The range with its ends made finite.
    pub open spec fn with_finite_ends(self) -> LegendRange {
        if self.broken(Repair::Unit) {
            self.mended(Repair::Unit, 0)
        } else {
            self
        }
    }

    /// All four steps of repair, in order.
    pub open spec fn sanitised(self, after: LegendRange) -> bool {
        exists|a: LegendRange, b: LegendRange| #[trigger]
            self.with_finite_ends().repaired(Repair::Span, a) && #[trigger] a.repaired(
                Repair::Floor,
                b,
            ) && b.repaired(Repair::Top, after)
    }

    /// Whether the range is broken in this way.
    pub fn needs(&self, step: Repair) -> (r: bool)
        ensures
            r == self.broken(step),
    {
        match step {
            Repair::Unit => !is_finite32(self.lo) || !is_finite32(self.hi),
            Repair::Span => at_most32(self.hi, self.lo),
            Repair::Floor => match self.scale {
                RangeScale::Log => at_most32(self.lo, 0),
                RangeScale::Linear => false,
            },
            Repair::Top => match self.scale {
                RangeScale::Log => at_most32(self.hi, self.lo),
                RangeScale::Linear => false,
            },
        }
    }

    /// Keep the invariants the shader and the tick generator rely on.
    #[verifier::spinoff_prover]
    #[verifier::rlimit(80)]
    pub fn sanitise(&mut self)
        ensures
            old(self).sanitised(*final(self)),
    {
        if self.needs(Repair::Unit) {
            self.lo = 0;
            self.hi = ONE;
        }
        let ghost ends = *self;
        if self.needs(Repair::Span) {
            // A dragged handle can cross the other one. Rather than swapping, which
            // makes the bar flip under the cursor, hold a minimum span.
            let span: u32 = product(max32(abs32(self.lo), ONE), PART);
            self.hi = sum(self.lo, max32(span, LEAST));
            assert(ends.mends(Repair::Span, self.hi));
        }
        let ghost a = *self;
        proof {
            lemma_no_nan(ends, a);
        }
        if self.needs(Repair::Floor) {
            // The usual useful window for a duct speed field, where the separated
            // region sits two decades under the core jet.
            self.lo = product(max32(abs32(self.hi), LEAST), PART);
            assert(a.mends(Repair::Floor, self.lo));
        }
        let ghost b = *self;
        if self.needs(Repair::Top) {
            self.hi = product(self.lo, TEN);
            assert(b.mends(Repair::Top, self.hi));
        }
        assert(old(self).with_finite_ends().repaired(Repair::Span, a));
        assert(a.repaired(Repair::Floor, b));
    }

    pub fn new(lo: u32, hi: u32, scale: RangeScale, symmetric: bool) -> (r: Self)
        ensures
            (LegendRange { lo, hi, scale, symmetric, ..LegendRange::unit() }).sanitised(r),
    {
        let mut r: LegendRange = LegendRange {
            lo,
            hi,
            scale,
            locked: false,
            symmetric,
            dragging: None,
        };
        r.sanitise();
        r
    }

    /// The ends as the symmetric lock leaves them: `[-m, m]` around the larger
    /// magnitude where it is on.
    pub open spec fn centred(self) -> LegendRange {
        if self.symmetric {
            let m = greater32(magnitude32(self.lo), magnitude32(self.hi));
            LegendRange { lo: negated32(m), hi: m, ..self }
        } else {
            self
        }
    }

    fn centre(&mut self)
        ensures
            *final(self) == old(self).centred(),
    {
        if self.symmetric {
            let m: u32 = max32(abs32(self.lo), abs32(self.hi));
            self.lo = neg32(m);
            self.hi = m;
        }
    }

    /// Whether the two ranges end at different numbers.
    pub open spec fn moved(self, before: LegendRange) -> bool {
        !(eq32(self.lo, before.lo) && eq32(self.hi, before.hi))
    }

    /// The end that is not being dragged.
    pub open spec fn other_end(self, handle: Handle) -> u32 {
        match handle {
            Handle::Low => self.hi,
            Handle::High => self.lo,
        }
    }

    /// The range with one end dragged to `v`. Where the symmetric lock is on the other
    /// end follows, keeping zero at the midpoint of the diverging map; a landing that is
    /// no number leaves it at the end that was not dragged.
    pub open spec fn with_end(self, handle: Handle, v: u32) -> LegendRange {
        if self.symmetric {
            let m = magnitude32(
                if nan32(v) {
                    self.other_end(handle)
                } else {
                    v
                },
            );
            LegendRange { lo: negated32(m), hi: m, ..self }
        } else {
            match handle {
                Handle::Low => LegendRange { lo: v, ..self },
                Handle::High => LegendRange { hi: v, ..self },
            }
        }
    }

    /// Whether a drag by this much of the bar does anything.
    pub open spec fn draggable(self, delta_fraction: u32) -> bool {
        !self.locked && !eq32(delta_fraction, 0) && finite32(delta_fraction)
    }

    /// Drag one end by `delta_fraction` of the bar's length. `land` gives the data
    /// value the dragged end lands on.
    ///
    /// Returns whether anything moved, so the caller only re-bakes the LUT when it
    /// has to. A locked legend always returns false: that is the whole contract of
    /// the lock, and enforcing it here rather than at the call site means no panel
    /// can forget.
    #[verifier::spinoff_prover]
    #[verifier::rlimit(80)]
    pub fn drag_handle<M: Fn(LegendRange, Handle, u32) -> u32>(
        &mut self,
        handle: Handle,
        delta_fraction: u32,
        land: &M,
    ) -> (changed: bool)
        requires
            land.requires((*old(self), handle, delta_fraction)),
        ensures
            !old(self).draggable(delta_fraction) ==> *final(self) == *old(self) && !changed,
            old(self).draggable(delta_fraction) ==> {
                &&& exists|v: u32|
                    #[trigger] land.ensures((*old(self), handle, delta_fraction), v) && old(
                        self,
                    ).with_end(handle, v).sanitised(*final(self))
                &&& changed == final(self).moved(*old(self))
            },
    {
        if self.locked || equal32(delta_fraction, 0) || !is_finite32(delta_fraction) {
            return false;
        }
        let lo: u32 = self.lo;
        let hi: u32 = self.hi;
        let v: u32 = land(*self, handle, delta_fraction);
        assert(land.ensures((*old(self), handle, delta_fraction), v));
        if self.symmetric {
            // Dragging either end of a symmetric range moves both, keeping zero at the
            // midpoint of the diverging map.
            let m: u32 = if !is_nan32(v) {
                abs32(v)
            } else {
                match handle {
                    Handle::Low => abs32(hi),
                    Handle::High => abs32(lo),
                }
            };
            self.lo = neg32(m);
            self.hi = m;
        } else {
            match handle {
                Handle::Low => {
                    self.lo = v;
                },
                Handle::High => {
                    self.hi = v;
                },
            }
        }
        self.sanitise();
        !(equal32(self.lo, lo) && equal32(self.hi, hi))
    }

    /// Whether measured extremes may change the range.
    pub open spec fn rangeable(self, data_min: u32, data_max: u32) -> bool {
        !self.locked && finite32(data_min) && finite32(data_max)
    }

    /// Whether the ends are the measured extremes with headroom: 2% of their distance
    /// each way, and a millionth at least.
    pub open spec fn padded(data_min: u32, data_max: u32, lo: u32, hi: u32) -> bool {
        exists|distance: u32, part: u32| #[trigger]
            is_sum(data_max, negated32(data_min), distance) && #[trigger] is_product(
                magnitude32(distance),
                TWO_PERCENT,
                part,
            ) && is_sum(data_min, negated32(greater32(part, LEAST)), lo) && is_sum(
                data_max,
                greater32(part, LEAST),
                hi,
            )
    }

    /// Snap the range onto measured extremes. Ignored while locked.
    ///
    /// The padding is 2% of the span, so the top of the data does not sit exactly on
    /// the last LUT entry where linear filtering has nothing to interpolate against.
    #[verifier::spinoff_prover]
    #[verifier::rlimit(80)]
    pub fn auto_range(&mut self, data_min: u32, data_max: u32) -> (changed: bool)
        ensures
            !old(self).rangeable(data_min, data_max) ==> *final(self) == *old(self) && !changed,
            old(self).rangeable(data_min, data_max) ==> {
                &&& exists|lo: u32, hi: u32| #[trigger]
                    Self::padded(data_min, data_max, lo, hi) && (LegendRange {
                        lo,
                        hi,
                        ..*old(self)
                    }).centred().sanitised(*final(self))
                &&& changed == final(self).moved(*old(self))
            },
    {
        if self.locked || !is_finite32(data_min) || !is_finite32(data_max) {
            return false;
        }
        let before: LegendRange = *self;
        let distance: u32 = sum(data_max, neg32(data_min));
        let part: u32 = product(abs32(distance), TWO_PERCENT);
        let pad: u32 = max32(part, LEAST);
        self.lo = sum(data_min, neg32(pad));
        self.hi = sum(data_max, pad);
        assert(Self::padded(data_min, data_max, self.lo, self.hi));
        self.centre();
        self.sanitise();
        !(equal32(self.lo, before.lo) && equal32(self.hi, before.hi))
    }

    /// The transfer function's part of the legend.
    pub open spec fn exported(self) -> TransferFunction {
        TransferFunction {
            lo: self.lo,
            hi: self.hi,
            scale: self.scale,
            symmetric_lock: self.symmetric,
        }
    }

    /// The legend after reading a transfer function back: unchanged where locked.
    pub open spec fn synced(self, tf: TransferFunction) -> LegendRange {
        if self.locked {
            self
        } else {
            LegendRange {
                lo: tf.lo,
                hi: tf.hi,
                scale: tf.scale,
                symmetric: tf.symmetric_lock,
                ..self
            }
        }
    }

    /// Copy into a renderer transfer function, which then puts itself in order by its
    /// own `sanitise`.
    pub fn apply_to<S: Fn(TransferFunction) -> TransferFunction>(
        &self,
        tf: &mut TransferFunction,
        sanitise: &S,
    )
        requires
            sanitise.requires((self.exported(),)),
        ensures
            sanitise.ensures((self.exported(),), *final(tf)),
    {
        tf.lo = self.lo;
        tf.hi = self.hi;
        tf.scale = self.scale;
        tf.symmetric_lock = self.symmetric;
        *tf = sanitise(*tf);
    }

    /// Read back from a renderer transfer function, keeping the lock.
    ///
    /// The lock surviving this is the point: switching field, or re-fitting a
    /// range, must not quietly unfreeze a comparison.
    pub fn sync_from(&mut self, tf: &TransferFunction)
        ensures
            *final(self) == old(self).synced(*tf),
    {
        if self.locked {
            return;
        }
        self.lo = tf.lo;
        self.hi = tf.hi;
        self.scale = tf.scale;
        self.symmetric = tf.symmetric_lock;
    }
}

/// A minimum span is a number.
#[verifier::spinoff_prover]
#[verifier::rlimit(80)]
proof fn lemma_no_nan(ends: LegendRange, a: LegendRange)
    requires
        finite32(ends.lo),
        finite32(ends.hi),
        ends.repaired(Repair::Span, a),
    ensures
        magnitude32(a.hi) <= INFINITY,
        a.lo == ends.lo,
{
    if ends.broken(Repair::Span) {
        let v = choose|v: u32| #[trigger]
            ends.mends(Repair::Span, v) && a == ends.mended(Repair::Span, v);
    }
}

/// A part of one ten-thousandth, in size: between fourteen and thirteen halvings.
#[verifier::spinoff_prover]
#[verifier::rlimit(80)]
proof fn lemma_part(m: u32, r: u32)
    requires
        m < INFINITY,
        m >= 15 * STEPS,
        is_product(m, PART, r),
    ensures
        m - 14 * STEPS <= r <= m - 13 * STEPS,
{
    let x = size_of(m as int) * size_of(PART as int);
    let unit = pow2(149) as int;
    lemma2_to64();
    lemma_pow2_pos(149);
    assert(PART / STEPS == 113 && PART % STEPS == 0x51_b717);
    assert(size_of(PART as int) == 0xd1_b717 * pow2(112));
    lemma_pow2_adds(112, 23);
    lemma_pow2_adds(112, 24);
    lemma_pow2_adds(14, 135);
    lemma_pow2_adds(13, 136);
    lemma_scaled_down(m as int, 14);
    lemma_scaled_down(m as int, 13);
    lemma_ordered(0, m - 14 * STEPS);
    lemma_ordered(0, m - 13 * STEPS);
    let c = size_of(m - 14 * STEPS);
    let d = size_of(m - 13 * STEPS);
    let k = size_of(PART as int);
    lemma_pow2_pos(112);
    assert(pow2(135) <= k <= pow2(136)) by (nonlinear_arith)
        requires
            k == 0xd1_b717 * pow2(112),
            pow2(135) == pow2(112) * pow2(23),
            pow2(136) == pow2(112) * pow2(24),
            pow2(23) == 0x80_0000,
            pow2(24) == 0x100_0000,
            pow2(112) > 0,
    ;
    assert(c * unit <= x) by (nonlinear_arith)
        requires
            x == (c * pow2(14)) * k,
            k >= pow2(135),
            unit == pow2(14) * pow2(135),
            c >= 0,
            pow2(14) >= 0,
    ;
    assert(d * unit >= x) by (nonlinear_arith)
        requires
            x == (d * pow2(13)) * k,
            k <= pow2(136),
            unit == pow2(13) * pow2(136),
            d >= 0,
            pow2(13) >= 0,
    ;
    lemma_at_least(x, unit, r as int, m - 14 * STEPS);
    lemma_at_most(x, unit, r as int, m - 13 * STEPS);
}

/// The distance to the next magnitude is less than the part of one that is no smaller
/// and at least one.
#[verifier::spinoff_prover]
#[verifier::rlimit(80)]
proof fn lemma_part_moves(a: int, m: int)
    requires
        0 <= a <= m < INFINITY,
        m >= ONE,
    ensures
        size_of(a + 1) - size_of(a) <= size_of(m - 14 * STEPS),
{
    let s = STEPS as int;
    let c = m - 14 * s;
    lemma_code_step(a, s);
    lemma2_to64();
    let q = c / s;
    assert(q == m / s - 14 && q >= 1);
    lemma_pow2_pos((q - 1) as nat);
    lemma_pow2_adds(23, (q - 1) as nat);
    assert((s + c % s) * pow2((q - 1) as nat) >= s * pow2((q - 1) as nat)) by (nonlinear_arith)
        requires
            c % s >= 0,
            pow2((q - 1) as nat) > 0,
    ;
    if a >= s {
        assert(a / s <= m / s);
        lemma_pow2_grows((a / s - 1) as nat, (q + 22) as nat);
    } else {
        lemma_pow2_grows(0, (q + 22) as nat);
    }
}

proof fn lemma_pow2_grows(a: nat, b: nat)
    requires
        a <= b,
    ensures
        pow2(a) <= pow2(b),
{
    if a < b {
        lemma_pow2_strictly_increases(a, b);
    }
}

/// Adding the part of a magnitude that is no smaller leads to a larger one, and no
/// further than twice that magnitude.
#[verifier::spinoff_prover]
#[verifier::rlimit(80)]
proof fn lemma_added(lo: int, m: int, span: int, v: int)
    requires
        0 <= lo <= m <= LARGE,
        m >= ONE,
        m - 14 * STEPS <= span <= m - 13 * STEPS,
        nearest(size_of(lo) + size_of(span), 1, v),
    ensures
        lo < v <= m + STEPS,
{
    let x = size_of(lo) + size_of(span);
    lemma_ordered(m - 14 * STEPS, span);
    lemma_ordered(span, m);
    lemma_ordered(lo, m);
    lemma_part_moves(lo, m);
    lemma_at_least(x, 1, v, lo + 1);
    lemma_scaled_down(m + STEPS, 1);
    lemma2_to64();
    lemma_at_most(x, 1, v, m + STEPS);
}

/// Taking it away leads to a smaller one.
#[verifier::spinoff_prover]
#[verifier::rlimit(80)]
proof fn lemma_taken(lo: int, m: int, span: int, v: int)
    requires
        0 < lo <= m <= LARGE,
        m >= ONE,
        m - 14 * STEPS <= span,
        nearest(size_of(lo) - size_of(span), 1, v),
    ensures
        v < lo,
{
    lemma_ordered(m - 14 * STEPS, span);
    lemma_part_moves(lo - 1, m);
    lemma_at_most(size_of(lo) - size_of(span), 1, v, lo - 1);
}

/// The sum of a bottom and the part of a magnitude that is no smaller, in patterns.
#[verifier::spinoff_prover]
#[verifier::rlimit(80)]
proof fn lemma_placed(lo: u32, m: u32, span: u32, v: u32)
    requires
        finite32(lo),
        magnitude32(lo) <= m <= LARGE,
        m >= ONE,
        m - 14 * STEPS <= span <= m - 13 * STEPS,
        is_sum(lo, span, v),
    ensures
        lo < 0x8000_0000 ==> lo < v < INFINITY,
        lo >= 0x8000_0000 ==> v < INFINITY || 0x8000_0000 <= v < lo,
        magnitude32(lo) > 0 || lo < v < INFINITY || (lo == 0x8000_0000 && 0 < v < INFINITY),
{
    let a = magnitude32(lo) as int;
    lemma_sum_of(lo, span, v);
    lemma_ordered(0, a);
    if lo < 0x8000_0000 {
        lemma_added(a, m as int, span as int, v as int);
    } else if size_of(span as int) > size_of(a) {
        let x = size_of(span as int) - size_of(a);
        lemma_at_most(x, 1, v as int, span as int);
        if a == 0 {
            lemma_at_least(x, 1, v as int, span as int);
        }
    } else if size_of(span as int) < size_of(a) {
        lemma_taken(a, m as int, span as int, v - 0x8000_0000);
    }
}

/// A bottom and a minimum span make a finite top above the bottom.
#[verifier::spinoff_prover]
#[verifier::rlimit(80)]
proof fn lemma_span(r: LegendRange, v: u32)
    requires
        finite32(r.lo),
        magnitude32(r.lo) <= LARGE,
        r.mends(Repair::Span, v),
    ensures
        finite32(v),
        lt32(r.lo, v),
{
    let m = greater32(magnitude32(r.lo), ONE);
    let span = choose|span: u32| #[trigger]
        is_product(m, PART, span) && is_sum(r.lo, greater32(span, LEAST), v);
    assert(ONE <= m && magnitude32(r.lo) <= m && m <= LARGE);
    lemma_part(m, span);
    assert(greater32(span, LEAST) == span);
    lemma_placed(r.lo, m, span, v);
    lemma_above(r.lo, v);
}

/// Which patterns are above another.
proof fn lemma_above(lo: u32, v: u32)
    requires
        finite32(lo),
        lo < 0x8000_0000 ==> lo < v < INFINITY,
        lo >= 0x8000_0000 ==> v < INFINITY || 0x8000_0000 <= v < lo,
        magnitude32(lo) > 0 || lo < v < INFINITY || (lo == 0x8000_0000 && 0 < v < INFINITY),
    ensures
        finite32(v),
        lt32(lo, v),
{
}

/// The sum of a number and a finite magnitude above zero.
#[verifier::spinoff_prover]
#[verifier::rlimit(80)]
proof fn lemma_sum_of(lo: u32, span: u32, v: u32)
    requires
        finite32(lo),
        0 < span < INFINITY,
        is_sum(lo, span, v),
    ensures
        lo < 0x8000_0000 ==> v < 0x8000_0000 && nearest(
            size_of(lo as int) + size_of(span as int),
            1,
            v as int,
        ),
        lo >= 0x8000_0000 ==> {
            let a = size_of(magnitude32(lo) as int);
            let b = size_of(span as int);
            &&& b > a ==> v < 0x8000_0000 && nearest(b - a, 1, v as int)
            &&& b < a ==> v >= 0x8000_0000 && nearest(a - b, 1, v - 0x8000_0000)
            &&& b == a ==> v == 0
        },
        size_of(span as int) > 0,
{
    lemma_ordered(0, magnitude32(lo) as int);
    lemma_ordered(0, span as int);
    assert(value_of(span) == size_of(span as int));
    assert(value_of(lo) == if lo >= 0x8000_0000 {
        -size_of(magnitude32(lo) as int)
    } else {
        size_of(lo as int)
    });
}

/// Four decades below a finite top, or below the least, is above zero and far from
/// infinity.
#[verifier::spinoff_prover]
#[verifier::rlimit(80)]
proof fn lemma_floor(r: LegendRange, v: u32)
    requires
        finite32(r.hi),
        r.mends(Repair::Floor, v),
    ensures
        STEPS <= v < INFINITY - 13 * STEPS,
{
    lemma_part(greater32(magnitude32(r.hi), LEAST), v);
}

/// A decade above a bottom that is far from infinity is finite, and above it.
#[verifier::spinoff_prover]
#[verifier::rlimit(80)]
proof fn lemma_top(r: LegendRange, v: u32)
    requires
        STEPS <= r.lo < INFINITY - 13 * STEPS,
        r.mends(Repair::Top, v),
    ensures
        r.lo < v < INFINITY,
{
    let lo = r.lo as int;
    let x = size_of(lo) * size_of(TEN as int);
    let unit = pow2(149) as int;
    lemma2_to64();
    lemma_pow2_pos(149);
    assert(TEN / STEPS == 130 && TEN % STEPS == 0x20_0000);
    assert(size_of(TEN as int) == 0xa0_0000 * pow2(129));
    lemma_pow2_adds(129, 23);
    lemma_pow2_adds(129, 24);
    lemma_pow2_adds(3, 149);
    lemma_pow2_adds(4, 149);
    lemma_scaled_down(lo + 3 * STEPS, 3);
    lemma_scaled_down(lo + 4 * STEPS, 4);
    lemma_ordered(0, lo);
    let a = size_of(lo);
    let k = size_of(TEN as int);
    lemma_pow2_pos(129);
    assert(pow2(152) <= k <= pow2(153)) by (nonlinear_arith)
        requires
            k == 0xa0_0000 * pow2(129),
            pow2(152) == pow2(129) * pow2(23),
            pow2(153) == pow2(129) * pow2(24),
            pow2(23) == 0x80_0000,
            pow2(24) == 0x100_0000,
            pow2(129) > 0,
    ;
    assert((a * pow2(3)) * unit <= x) by (nonlinear_arith)
        requires
            x == a * k,
            k >= pow2(152),
            pow2(152) == pow2(3) * unit,
            a >= 0,
    ;
    assert((a * pow2(4)) * unit >= x) by (nonlinear_arith)
        requires
            x == a * k,
            k <= pow2(153),
            pow2(153) == pow2(4) * unit,
            a >= 0,
    ;
    lemma_at_least(x, unit, v as int, lo + 3 * STEPS);
    lemma_at_most(x, unit, v as int, lo + 4 * STEPS);
}

/// After the first two repairs the ends are finite and in order.
#[verifier::spinoff_prover]
#[verifier::rlimit(80)]
proof fn lemma_ends_in_order(ends: LegendRange, a: LegendRange)
    requires
        finite32(ends.lo),
        finite32(ends.hi),
        magnitude32(ends.lo) <= LARGE,
        ends.repaired(Repair::Span, a),
    ensures
        finite32(a.lo),
        finite32(a.hi),
        lt32(a.lo, a.hi),
        a == (LegendRange { hi: a.hi, ..ends }),
{
    if ends.broken(Repair::Span) {
        let v = choose|v: u32| #[trigger]
            ends.mends(Repair::Span, v) && a == ends.mended(Repair::Span, v);
        lemma_span(ends, v);
    }
}

/// The third repair leaves a bottom that the fourth can work on.
#[verifier::spinoff_prover]
#[verifier::rlimit(80)]
proof fn lemma_bottom_in_place(a: LegendRange, b: LegendRange)
    requires
        finite32(a.lo),
        finite32(a.hi),
        lt32(a.lo, a.hi),
        a.repaired(Repair::Floor, b),
    ensures
        b == (LegendRange { lo: b.lo, ..a }),
        finite32(b.lo),
        a.scale == RangeScale::Log ==> lt32(0, b.lo),
        !a.broken(Repair::Floor) ==> b == a,
        a.broken(Repair::Floor) ==> STEPS <= b.lo < INFINITY - 13 * STEPS,
{
    if a.broken(Repair::Floor) {
        let v = choose|v: u32| #[trigger]
            a.mends(Repair::Floor, v) && b == a.mended(Repair::Floor, v);
        lemma_floor(a, v);
    }
}

/// The fourth repair leaves a sound range.
#[verifier::spinoff_prover]
#[verifier::rlimit(80)]
proof fn lemma_top_in_place(b: LegendRange, after: LegendRange)
    requires
        finite32(b.lo),
        finite32(b.hi),
        b.scale == RangeScale::Log ==> lt32(0, b.lo),
        lt32(b.lo, b.hi) || (b.scale == RangeScale::Log && STEPS <= b.lo < INFINITY - 13 * STEPS),
        b.repaired(Repair::Top, after),
    ensures
        after.sound(),
        after == (LegendRange { hi: after.hi, ..b }),
{
    if b.broken(Repair::Top) {
        let v = choose|v: u32| #[trigger]
            b.mends(Repair::Top, v) && after == b.mended(Repair::Top, v);
        lemma_top(b, v);
    }
}

/// A repaired range is sound, whatever it was before, numbers or not: its ends are
/// finite and in order, and a logarithmic one starts above zero. The one exception is a
/// finite bottom beyond `1e30`, where a minimum span may reach infinity.
#[verifier::spinoff_prover]
#[verifier::rlimit(80)]
pub proof fn a_repaired_range_is_sound(before: LegendRange, after: LegendRange)
    requires
        before.sanitised(after),
        finite32(before.lo) ==> magnitude32(before.lo) <= LARGE,
    ensures
        after.sound(),
        after.scale == before.scale,
        after.locked == before.locked,
        after.symmetric == before.symmetric,
        after.dragging == before.dragging,
{
    let ends = before.with_finite_ends();
    let (a, b) = choose|a: LegendRange, b: LegendRange| #[trigger]
        ends.repaired(Repair::Span, a) && #[trigger] a.repaired(Repair::Floor, b) && b.repaired(
            Repair::Top,
            after,
        );
    lemma_ends_in_order(ends, a);
    lemma_bottom_in_place(a, b);
    lemma_top_in_place(b, after);
}

/// A sound range needs no repair and keeps its ends.
#[verifier::spinoff_prover]
#[verifier::rlimit(80)]
pub proof fn a_sound_range_is_left_alone(before: LegendRange, after: LegendRange)
    requires
        before.sound(),
        before.sanitised(after),
    ensures
        after == before,
{
}

/// A symmetric linear range stays centred on zero, whatever its ends were before
/// they were mirrored, unless both were zero or one was not a number: then there is
/// no `m` to mirror.
#[verifier::spinoff_prover]
#[verifier::rlimit(80)]
pub proof fn a_symmetric_range_stays_centred(
    ends: LegendRange,
    after: LegendRange,
)
    requires
        ends.symmetric,
        ends.scale == RangeScale::Linear,
        finite32(ends.lo),
        finite32(ends.hi),
        !eq32(ends.lo, 0) || !eq32(ends.hi, 0),
        ends.centred().sanitised(after),
    ensures
        after.lo == negated32(after.hi),
        lt32(0, after.hi),
{
}

/// Bit patterns of `2.0f32` and `5.0f32`.
pub const TWO: u32 = 0x4000_0000;

pub const FIVE: u32 = 0x40a0_0000;

/// The multiple of a power of ten that a linear bar is ticked at.
pub open spec fn multiple_for(norm: u32) -> u32 {
    if le32(norm, ONE) {
        1
    } else if le32(norm, TWO) {
        2
    } else if le32(norm, FIVE) {
        5
    } else {
        10
    }
}

/// The readable spacing at or above `norm`, an even share of the bar over the power
/// of ten below it: 1, 2, 5 or 10 of those.
pub fn tick_multiple(norm: u32) -> (r: u32)
    ensures
        r == multiple_for(norm),
{
    if at_most32(norm, ONE) {
        1
    } else if at_most32(norm, TWO) {
        2
    } else if at_most32(norm, FIVE) {
        5
    } else {
        10
    }
}

/// An even share of a linear bar, and that share over the power of ten at or below it.
#[derive(Clone, Copy, Debug, PartialEq, Eq, Structural)]
pub struct Share {
    pub raw: u32,
    pub norm: u32,
}

/// The exponents a logarithmic bar lies between, and the decades in an even share of
/// it.
#[derive(Clone, Copy, Debug, PartialEq, Eq, Structural)]
pub struct Decades {
    pub first: i32,
    pub last: i32,
    pub step: i32,
}

/// The `k`-th of the exponents from `first` on, `step` apart.
pub open spec fn exponent(first: i32, step: int, k: int) -> int {
    first + k * step
}

/// Whether `r` holds every `step`-th integer from `first` to `last`, as many of them
/// as there is room for.
pub open spec fn is_decades(first: i32, last: i32, step: int, room: nat, r: Seq<i32>) -> bool {
    &&& r.len() <= room
    &&& forall|k: int|
        0 <= k < r.len() ==> #[trigger] r[k] == exponent(first, step, k) && r[k] <= last
    &&& r.len() < room ==> exponent(first, step, r.len() as int) > last
}

/// A step below one counts as one.
pub open spec fn stride_of(step: i32) -> int {
    if step < 1 {
        1
    } else {
        step as int
    }
}

/// The exponents ticked on a logarithmic bar, every `step`-th decade from `first`;
/// a step below one counts as one.
pub fn decade_ticks(first: i32, last: i32, step: i32, max_ticks: usize) -> (r: Vec<i32>)
    ensures
        is_decades(first, last, stride_of(step), max_ticks as nat, r@),
{
    let stride: i64 = if step < 1 {
        1
    } else {
        step as i64
    };
    let mut out: Vec<i32> = Vec::new();
    let mut e: i64 = first as i64;
    while e <= last as i64 && out.len() < max_ticks
        invariant
            1 <= stride <= i32::MAX,
            stride == stride_of(step),
            first <= e <= i32::MAX + stride,
            e == exponent(first, stride as int, out@.len() as int),
            out@.len() <= max_ticks,
            forall|k: int|
                0 <= k < out@.len() ==> #[trigger] out@[k] == exponent(first, stride as int, k)
                    && out@[k] <= last,
        decreases max_ticks - out@.len(),
    {
        out.push(e as i32);
        proof {
            let n = out@.len() as int;
            assert(n * stride == (n - 1) * stride + stride) by (nonlinear_arith);
        }
        e = e + stride;
    }
    out
}

/// Whether `r` is the run of ticks that starts at `first` and goes on by `advance`
/// up to `limit`, as many of them as there is room for.
pub open spec fn is_run<A: Fn(Share, u32, u32) -> u32>(
    first: u32,
    limit: u32,
    share: Share,
    multiple: u32,
    advance: A,
    room: nat,
    r: Seq<u32>,
) -> bool {
    &&& r.len() <= room
    &&& r.len() > 0 ==> r[0] == first
    &&& forall|k: int| 0 <= k < r.len() ==> le32(#[trigger] r[k], limit)
    &&& forall|j: int, k: int|
        0 <= j && k == j + 1 && k < r.len() ==> advance.ensures(
            (share, multiple, #[trigger] r[j]),
            #[trigger] r[k],
        )
    &&& r.len() < room ==> if r.len() == 0 {
        !le32(first, limit)
    } else {
        exists|v: u32| #[trigger]
            advance.ensures((share, multiple, r.last()), v) && !le32(v, limit)
    }
}

/// The ticks of a linear bar: from `first` by `advance` up to `limit`, at most
/// `max_ticks` of them.
pub fn run_of_ticks<A: Fn(Share, u32, u32) -> u32>(
    first: u32,
    limit: u32,
    share: Share,
    multiple: u32,
    advance: &A,
    max_ticks: usize,
) -> (r: Vec<u32>)
    requires
        forall|v: u32| #[trigger] advance.requires((share, multiple, v)),
    ensures
        is_run(first, limit, share, multiple, *advance, max_ticks as nat, r@),
{
    let mut out: Vec<u32> = Vec::new();
    let mut v: u32 = first;
    while at_most32(v, limit) && out.len() < max_ticks
        invariant
            forall|v: u32| #[trigger] advance.requires((share, multiple, v)),
            out@.len() <= max_ticks,
            out@.len() == 0 ==> v == first,
            out@.len() > 0 ==> out@[0] == first && advance.ensures(
                (share, multiple, out@.last()),
                v,
            ),
            forall|k: int| 0 <= k < out@.len() ==> le32(#[trigger] out@[k], limit),
            forall|j: int, k: int|
                0 <= j && k == j + 1 && k < out@.len() ==> advance.ensures(
                    (share, multiple, #[trigger] out@[j]),
                    #[trigger] out@[k],
                ),
        decreases max_ticks - out@.len(),
    {
        out.push(v);
        v = advance(share, multiple, v);
    }
    out
}

/// The shares a bar is cut into: two at least.
pub open spec fn shares(max_ticks: usize) -> usize {
    if max_ticks < 2 {
        2
    } else {
        max_ticks
    }
}

impl LegendRange {
    /// Whether `r` holds one power of ten for each of the decades `d` names.
    pub open spec fn ticked_by_decades<P: Fn(i32) -> u32>(
        d: Decades,
        power: P,
        max_ticks: usize,
        r: Seq<u32>,
    ) -> bool {
        exists|e: Seq<i32>| #[trigger]
            is_decades(
                d.first,
                d.last,
                stride_of(d.step),
                max_ticks as nat,
                e,
            ) && e.len() == r.len() && forall|k: int|
                0 <= k < r.len() ==> power.ensures((e[k],), #[trigger] r[k])
    }

    /// Whether `r` is the run of readable numbers that `share` asks for. A bar with no
    /// share to speak of gets its two ends.
    pub open spec fn ticked_by_shares<
        B: Fn(LegendRange, Share, u32) -> (u32, u32),
        A: Fn(Share, u32, u32) -> u32,
    >(self, share: Share, bounds: B, advance: A, max_ticks: usize, r: Seq<u32>) -> bool {
        if !finite32(share.raw) || le32(share.raw, 0) {
            r == seq![self.lo, self.hi].take(if max_ticks < 2 { max_ticks as int } else { 2 })
        } else {
            exists|b: (u32, u32)| #[trigger]
                bounds.ensures((self, share, multiple_for(share.norm)), b) && is_run(
                    b.0,
                    b.1,
                    share,
                    multiple_for(share.norm),
                    advance,
                    max_ticks as nat,
                    r,
                )
        }
    }

    /// Nice tick values across the bar, at most `max_ticks` of them.
    ///
    /// Linear ticks land on 1/2/5 times a power of ten so the labels are readable
    /// numbers; log ticks land on decades. Evenly spaced ticks would produce labels
    /// like `3.7142` and make the legend look like a debug readout.
    ///
    /// `decades` and `share` measure a bar cut into so many shares, `power` raises ten
    /// to an exponent, `bounds` gives the first tick and the limit, and `advance` the
    /// tick after another.
    pub fn ticks<
        D: Fn(LegendRange, usize) -> Decades,
        P: Fn(i32) -> u32,
        S: Fn(LegendRange, usize) -> Share,
        B: Fn(LegendRange, Share, u32) -> (u32, u32),
        A: Fn(Share, u32, u32) -> u32,
    >(
        &self,
        max_ticks: usize,
        decades: &D,
        power: &P,
        share: &S,
        bounds: &B,
        advance: &A,
    ) -> (r: Vec<u32>)
        requires
            forall|l: LegendRange, n: usize| #[trigger] decades.requires((l, n)),
            forall|e: i32| #[trigger] power.requires((e,)),
            forall|l: LegendRange, n: usize| #[trigger] share.requires((l, n)),
            forall|l: LegendRange, s: Share, m: u32| #[trigger] bounds.requires((l, s, m)),
            forall|s: Share, m: u32, v: u32| #[trigger] advance.requires((s, m, v)),
        ensures
            r@.len() <= max_ticks,
            self.scale == RangeScale::Log ==> exists|d: Decades| #[trigger]
                decades.ensures((*self, shares(max_ticks)), d) && Self::ticked_by_decades(
                    d,
                    *power,
                    max_ticks,
                    r@,
                ),
            self.scale == RangeScale::Linear ==> exists|s: Share| #[trigger]
                share.ensures((*self, shares(max_ticks)), s) && self.ticked_by_shares(
                    s,
                    *bounds,
                    *advance,
                    max_ticks,
                    r@,
                ),
    {
        let n: usize = if max_ticks < 2 {
            2
        } else {
            max_ticks
        };
        match self.scale {
            RangeScale::Log => {
                let d: Decades = decades(*self, n);
                let e: Vec<i32> = decade_ticks(d.first, d.last, d.step, max_ticks);
                let mut out: Vec<u32> = Vec::new();
                let mut k: usize = 0;
                while k < e.len()
                    invariant
                        forall|e: i32| #[trigger] power.requires((e,)),
                        k <= e@.len(),
                        out@.len() == k,
                        forall|j: int| 0 <= j < k ==> power.ensures((e@[j],), #[trigger] out@[j]),
                    decreases e@.len() - k,
                {
                    out.push(power(e[k]));
                    k = k + 1;
                }
                out
            },
            RangeScale::Linear => {
                let s: Share = share(*self, n);
                if !is_finite32(s.raw) || at_most32(s.raw, 0) {
                    let mut out: Vec<u32> = Vec::new();
                    if max_ticks > 0 {
                        out.push(self.lo);
                    }
                    if max_ticks > 1 {
                        out.push(self.hi);
                    }
                    proof {
                        assert(out@ =~= seq![self.lo, self.hi].take(
                            if max_ticks < 2 { max_ticks as int } else { 2 },
                        ));
                    }
                    return out;
                }
                let m: u32 = tick_multiple(s.norm);
                let b: (u32, u32) = bounds(*self, s, m);
                run_of_ticks(b.0, b.1, s, m, advance, max_ticks)
            },
        }
    }
}

/// Linear ticks never leave the bar: where the first lies at or above its low end and
/// a step never leads down, each lies between that end and the limit.
pub proof fn ticks_stay_inside_the_bar<A: Fn(Share, u32, u32) -> u32>(
    lo: u32,
    first: u32,
    limit: u32,
    share: Share,
    multiple: u32,
    advance: A,
    room: nat,
    r: Seq<u32>,
    k: int,
)
    requires
        is_run(first, limit, share, multiple, advance, room, r),
        le32(lo, first),
        forall|a: u32, b: u32| #[trigger] advance.ensures((share, multiple, a), b) ==> le32(a, b),
        0 <= k < r.len(),
    ensures
        le32(lo, r[k]) && le32(r[k], limit),
    decreases k,
{
    if k > 0 {
        ticks_stay_inside_the_bar(lo, first, limit, share, multiple, advance, room, r, k - 1);
        assert(advance.ensures((share, multiple, r[k - 1]), r[k]));
    }
}

/// Dragging an end of a sound symmetric range where the landing is no number leaves the
/// range as it was.
pub proof fn a_drag_to_no_number_changes_nothing(
    before: LegendRange,
    handle: Handle,
    v: u32,
)
    requires
        before.symmetric,
        before.hi == magnitude32(before.hi),
        before.lo == negated32(before.hi),
        nan32(v),
    ensures
        before.with_end(handle, v) == before,
{
}

/// Dragging one end of a symmetric linear range drags the other: the value the dragged
/// end landed on fixes both, inward as well as outward, unless it is zero or no number.
#[verifier::spinoff_prover]
#[verifier::rlimit(80)]
pub proof fn dragging_one_end_drags_the_other(
    before: LegendRange,
    handle: Handle,
    v: u32,
    after: LegendRange,
)
    requires
        before.symmetric,
        before.scale == RangeScale::Linear,
        finite32(v),
        !eq32(v, 0),
        before.with_end(handle, v).sanitised(after),
    ensures
        after.hi == magnitude32(v),
        after.lo == negated32(magnitude32(v)),
{
}

/// What one sound legend copies into a transfer function any unlocked one reads back,
/// and a locked one ignores, where putting itself in order leaves a sound range of the
/// transfer function alone.
pub proof fn the_transfer_function_hands_back_the_range<
    S: Fn(TransferFunction) -> TransferFunction,
>(r: LegendRange, sanitise: S, tf: TransferFunction, back: LegendRange)
    requires
        r.sound(),
        forall|l: LegendRange, t: TransferFunction|
            l.sound() && #[trigger] sanitise.ensures((l.exported(),), t) ==> t == l.exported(),
        sanitise.ensures((r.exported(),), tf),
    ensures
        back.locked ==> back.synced(tf) == back,
        !back.locked ==> back.synced(tf) == (LegendRange {
            locked: back.locked,
            dragging: back.dragging,
            ..r
        }),
{
}

/// The room left beside measured extremes is never negative.
proof fn lemma_room(part: u32)
    ensures
        !nan32(greater32(part, LEAST)),
        !nan32(negated32(greater32(part, LEAST))),
        le32(0, greater32(part, LEAST)),
        le32(negated32(greater32(part, LEAST)), 0),
{
}

/// A range fitted to measured extremes holds them, with room to spare or none.
#[verifier::spinoff_prover]
#[verifier::rlimit(100)]
pub proof fn a_fitted_range_holds_the_data(data_min: u32, data_max: u32, lo: u32, hi: u32)
    requires
        finite32(data_min),
        finite32(data_max),
        LegendRange::padded(data_min, data_max, lo, hi),
    ensures
        le32(lo, data_min),
        le32(data_max, hi),
{
    let (distance, part) = choose|distance: u32, part: u32| #[trigger]
        is_sum(data_max, negated32(data_min), distance) && #[trigger] is_product(
            magnitude32(distance),
            TWO_PERCENT,
            part,
        ) && is_sum(data_min, negated32(greater32(part, LEAST)), lo) && is_sum(
            data_max,
            greater32(part, LEAST),
            hi,
        );
    let pad = greater32(part, LEAST);
    lemma_room(part);
    sums_keep_to_their_side(data_min, negated32(pad), lo);
    sums_keep_to_their_side(data_max, pad, hi);
}

/// A lock freezes a range: no drag and no measured extremes change it, whatever they are,
/// and without it every finite drag but none and every finite pair does.
pub proof fn a_lock_freezes_the_range(r: LegendRange, delta: u32, data_min: u32, data_max: u32)
    ensures
        r.locked ==> !r.draggable(delta) && !r.rangeable(data_min, data_max),
        !r.locked && finite32(delta) && !eq32(delta, 0) ==> r.draggable(delta),
        !r.locked && finite32(data_min) && finite32(data_max) ==> r.rangeable(data_min, data_max),
        !finite32(delta) || eq32(delta, 0) ==> !r.draggable(delta),
        !finite32(data_min) || !finite32(data_max) ==> !r.rangeable(data_min, data_max),
{
}

/// Dragging one end of a range that is not symmetric puts it where it landed and leaves
/// the other, as long as the ends stay in order.
#[verifier::spinoff_prover]
#[verifier::rlimit(80)]
pub proof fn dragging_one_end_leaves_the_other(
    before: LegendRange,
    handle: Handle,
    v: u32,
    after: LegendRange,
)
    requires
        !before.symmetric,
        before.with_end(handle, v).sanitised(after),
        finite32(v),
        before.sound(),
        handle == Handle::Low ==> lt32(v, before.hi) && (before.scale == RangeScale::Log ==> lt32(
            0,
            v,
        )),
        handle == Handle::High ==> lt32(before.lo, v),
    ensures
        handle == Handle::Low ==> after.lo == v && after.hi == before.hi,
        handle == Handle::High ==> after.hi == v && after.lo == before.lo,
        after.scale == before.scale,
{
    a_sound_range_is_left_alone(before.with_end(handle, v), after);
}

/// The pattern of a tick multiple as a number.
pub open spec fn multiple_bits(m: u32) -> u32 {
    if m == 1 {
        0x3f80_0000
    } else if m == 2 {
        0x4000_0000
    } else if m == 5 {
        0x40a0_0000
    } else {
        0x4120_0000
    }
}

/// Ticks are one, two, five or ten of a power of ten apart: the least of these that is no
/// less than an even share of the bar.
pub proof fn ticks_are_readable_and_just_wide_enough(norm: u32, smaller: u32)
    requires
        !nan32(norm),
        smaller == 1 || smaller == 2 || smaller == 5 || smaller == 10,
    ensures
        multiple_for(norm) == 1 || multiple_for(norm) == 2 || multiple_for(norm) == 5
            || multiple_for(norm) == 10,
        le32(norm, 0x4120_0000) ==> le32(norm, multiple_bits(multiple_for(norm))),
        smaller < multiple_for(norm) ==> lt32(multiple_bits(smaller), norm),
{
}

/// The decades ticked on a logarithmic bar go from the first on, evenly, as far as the
/// last and the room allow, and are never nearer than one decade.
pub proof fn decades_run_evenly_to_the_end(
    first: i32,
    last: i32,
    step: i32,
    room: nat,
    r: Seq<i32>,
    k: int,
)
    requires
        is_decades(first, last, stride_of(step), room, r),
        0 <= k < r.len(),
    ensures
        r[0] == first,
        r[k] <= last,
        k > 0 ==> r[k] - r[k - 1] == (if step < 1 {
            1
        } else {
            step as int
        }),
        k == r.len() - 1 && r.len() < room ==> r[k] + (if step < 1 {
            1
        } else {
            step as int
        }) > last,
{
    let s = stride_of(step);
    assert(exponent(first, s, 0) == first);
    if k > 0 {
        assert(r[k - 1] == exponent(first, s, k - 1));
        assert(k * s == (k - 1) * s + s) by (nonlinear_arith);
    }
    assert((k + 1) * s == k * s + s) by (nonlinear_arith);
    assert(r[0] == exponent(first, s, 0));
}

/// A bar with no share to speak of, be it nothing, negative or no number, is ticked at its
/// two ends, as far as there is room.
pub proof fn a_bar_without_shares_is_ticked_at_its_ends<
    B: Fn(LegendRange, Share, u32) -> (u32, u32),
    A: Fn(Share, u32, u32) -> u32,
>(l: LegendRange, share: Share, bounds: B, advance: A, max_ticks: usize, r: Seq<u32>)
    requires
        l.ticked_by_shares(share, bounds, advance, max_ticks, r),
        share.raw % 0x8000_0000 == 0 || share.raw >= 0x7f80_0000,
    ensures
        max_ticks >= 2 ==> r.len() == 2 && r[0] == l.lo && r[1] == l.hi,
        max_ticks == 1 ==> r.len() == 1 && r[0] == l.lo,
        max_ticks == 0 ==> r.len() == 0,
{
}

} // verus!
