//! A/B comparison: freeze a baseline, then show every HUD number as a delta.
//!
//! This is *the* workflow for a design tool. Nobody cares that a duct has
//! `K = 0.58`; they care whether the fillet they just added made it better than
//! the `K = 0.71` it had five minutes ago.
//!
//! # The part that is easy to get wrong
//!
//! A delta must be judged against the *combined* error bars, not against zero. A
//! naive difference produces a coloured arrow on every frame and trains the user
//! to ignore it. A change inside the noise is reported as
//! [`Significance::WithinNoise`], which the panel draws in grey with a flat bar
//! rather than an arrow.
use vstd::prelude::*;
use vstd::string::StringExecFns;
use vstd::arithmetic::power2::*;
use crate::binary32::{is_sum, lemma_at_least, lemma_at_most, lemma_ordered, sum, value_of};
use crate::config::ONE;
use crate::binary64::{lemma_reaches, reaches, STEPS64};
use crate::float_order::{
    abs32, eq32, finite32, finite64, greater32, greater64, le32, less32, less64, lt32, lt64,
    magnitude32, max32, nan64, neg32, negated32,
};
use crate::view::{
    abs64, magnitude64, MetricsView, Reading, ReadingArithmetic, MIN_POSITIVE, NAN64, TINY,
};

verus! {

/// How to read the sign of a change.
///
/// Necessary because "up" is good for uniformity and bad for pressure drop, and
/// a UI that paints every increase green is worse than one that paints nothing.
#[derive(Clone, Copy, Debug, PartialEq, Eq, Structural)]
pub enum Better {
    /// Lower is better: pressure drop, loss coefficient, deflection.
    Lower,
    /// Higher is better: uniformity, flow rate at a fixed fan.
    Higher,
    /// Neither: report the change without a verdict.
    Neutral,
}

/// Whether a change survived the noise floor.
#[derive(Clone, Copy, Debug, PartialEq, Eq, Structural)]
pub enum Significance {
    /// One or both readings had no samples.
    Unknown,
    /// Inside the combined error bars. Draw it flat and grey.
    WithinNoise,
    /// Outside them. Draw the arrow.
    Real,
}

/// The direction an arrow points, once significance has been established.
#[derive(Clone, Copy, Debug, PartialEq, Eq, Structural)]
pub enum Direction {
    Up,
    Down,
    Flat,
}

impl Direction {
    /// A single ASCII glyph. Deliberately not an arrow character: the default
    /// font has none and would draw boxes.
    pub fn glyph(self) -> (s: &'static str)
        ensures
            s@ == (match self {
                Direction::Up => "^"@,
                Direction::Down => "v"@,
                Direction::Flat => "="@,
            }),
    {
        match self {
            Direction::Up => "^",
            Direction::Down => "v",
            Direction::Flat => "=",
        }
    }
}

/// The difference of two readings as measured, as `f64` bits.
#[derive(Clone, Copy, Debug, PartialEq, Eq, Structural)]
pub struct Difference {
    /// `now - baseline`, in the readings' own unit.
    pub absolute: u64,
    /// The difference over the magnitude of the baseline.
    pub relative: u64,
    /// Combined standard error.
    pub combined_sem: u64,
    /// What the magnitude of the difference must exceed to count:
    /// [`SIGNIFICANCE_SIGMA`] combined standard errors.
    pub bound: u64,
}

/// The result of comparing one reading against its baseline.
#[derive(Clone, Copy, Debug, PartialEq, Eq, Structural)]
pub struct Delta {
    /// `now - baseline`, in the reading's own (SI) unit.
    pub absolute: u64,
    /// The change over the magnitude of the baseline. NaN when the baseline is
    /// ~zero, where a relative change is not defined rather than merely huge.
    pub relative: u64,
    /// Combined standard error.
    pub combined_sem: u64,
    pub significance: Significance,
    pub direction: Direction,
    /// `true` when the change is real *and* an improvement, given [`Better`].
    /// `None` for [`Better::Neutral`] or an insignificant change.
    pub improved: Option<bool>,
}

impl Delta {
    /// How many combined standard errors apart the two readings are, or a NaN where there
    /// are no standard errors. Used for the tooltip, so a borderline result can be
    /// inspected rather than merely judged. `divide` divides two `f64`.
    pub fn sigma<D: Fn(u64, u64) -> u64>(&self, divide: &D) -> (r: u64)
        requires
            divide.requires((self.absolute, self.combined_sem)),
        ensures
            lt64(0, self.combined_sem) ==> divide.ensures((self.absolute, self.combined_sem), r),
            !lt64(0, self.combined_sem) ==> r == NAN64,
    {
        if less64(0, self.combined_sem) {
            divide(self.absolute, self.combined_sem)
        } else {
            NAN64
        }
    }

    /// Colour for the arrow, RGBA as `f32` bits: green for a real improvement, red
    /// for a real regression, grey for anything the statistics cannot distinguish.
    pub fn color(&self) -> (c: [u32; 4])
        ensures
            c@ == (match (self.significance, self.improved) {
                (Significance::Real, Some(true)) => seq![0x3eb8_51ecu32, 0x3f51_eb85, 0x3ef0_a3d7, 0x3f80_0000],
                (Significance::Real, Some(false)) => seq![0x3f70_a3d7u32, 0x3ea8_f5c3, 0x3e9e_b852, 0x3f80_0000],
                (Significance::Real, None) => seq![0x3f38_51ecu32, 0x3f47_ae14, 0x3f6b_851f, 0x3f80_0000],
                _ => seq![0x3f0c_cccdu32, 0x3f11_eb85, 0x3f1c_28f6, 0x3f80_0000],
            }),
    {
        match (self.significance, self.improved) {
            (Significance::Real, Some(true)) => [0x3eb8_51ec, 0x3f51_eb85, 0x3ef0_a3d7, 0x3f80_0000],
            (Significance::Real, Some(false)) => [0x3f70_a3d7, 0x3ea8_f5c3, 0x3e9e_b852, 0x3f80_0000],
            (Significance::Real, None) => [0x3f38_51ec, 0x3f47_ae14, 0x3f6b_851f, 0x3f80_0000],
            _ => [0x3f0c_cccd, 0x3f11_eb85, 0x3f1c_28f6, 0x3f80_0000],
        }
    }

    pub fn is_real(&self) -> (r: bool)
        ensures
            r == (self.significance == Significance::Real),
    {
        self.significance == Significance::Real
    }
}

/// The verdict on a change.
pub open spec fn judged(now: Reading, base: Reading, better: Better, d: Difference) -> Delta {
    if !now.known() || !base.known() {
        Delta {
            absolute: NAN64,
            relative: NAN64,
            combined_sem: d.combined_sem,
            significance: Significance::Unknown,
            direction: Direction::Flat,
            improved: None,
        }
    } else {
        let counts = lt64(d.bound, magnitude64(d.absolute));
        Delta {
            absolute: d.absolute,
            relative: if lt64(TINY, magnitude64(base.value)) {
                d.relative
            } else {
                NAN64
            },
            combined_sem: d.combined_sem,
            significance: if counts {
                Significance::Real
            } else {
                Significance::WithinNoise
            },
            direction: if !counts {
                Direction::Flat
            } else if lt64(0, d.absolute) {
                Direction::Up
            } else {
                Direction::Down
            },
            improved: if !counts {
                None
            } else {
                match better {
                    Better::Lower => Some(lt64(d.absolute, 0)),
                    Better::Higher => Some(lt64(0, d.absolute)),
                    Better::Neutral => None,
                }
            },
        }
    }
}

/// Number of combined standard errors a change must exceed to count: bit pattern of
/// two. At one, roughly a third of pure-noise comparisons would light up; two puts the
/// false-positive rate around 5%.
pub const SIGNIFICANCE_SIGMA: u64 = 0x4000_0000_0000_0000;

/// Whether `d` is the difference of two readings.
pub open spec fn measured<
    H: Fn(u64, u64) -> u64,
    S: Fn(u64, u64) -> u64,
    M: Fn(u64, u64) -> u64,
    D: Fn(u64, u64) -> u64,
>(now: Reading, base: Reading, a: &ReadingArithmetic<H, S, M, D>, d: Difference) -> bool {
    &&& a.bounds(now.sem, base.sem, SIGNIFICANCE_SIGMA, d.combined_sem, d.bound)
    &&& a.minus.ensures((now.value, base.value), d.absolute)
    &&& a.divide.ensures((d.absolute, magnitude64(base.value)), d.relative)
}

/// Whether `r` is what comparing a reading with its baseline gives.
pub open spec fn is_delta<
    H: Fn(u64, u64) -> u64,
    S: Fn(u64, u64) -> u64,
    M: Fn(u64, u64) -> u64,
    D: Fn(u64, u64) -> u64,
>(
    now: Reading,
    base: Reading,
    better: Better,
    a: &ReadingArithmetic<H, S, M, D>,
    r: Delta,
) -> bool {
    exists|d: Difference| #[trigger] measured(now, base, a, d) && r == judged(now, base, better, d)
}

/// Compare one reading against its baseline.
pub fn delta<
    H: Fn(u64, u64) -> u64,
    S: Fn(u64, u64) -> u64,
    M: Fn(u64, u64) -> u64,
    D: Fn(u64, u64) -> u64,
>(now: Reading, base: Reading, better: Better, a: &ReadingArithmetic<H, S, M, D>) -> (r: Delta)
    requires
        a.total(),
    ensures
        is_delta(now, base, better, a, r),
{
    let minus = &a.minus;
    let divide = &a.divide;
    let b: (u64, u64) = a.bound(now.sem, base.sem, SIGNIFICANCE_SIGMA);
    let absolute: u64 = minus(now.value, base.value);
    let d: Difference = Difference {
        absolute,
        relative: divide(absolute, abs64(base.value)),
        combined_sem: b.0,
        bound: b.1,
    };
    assert(measured(now, base, a, d));
    if !now.is_known() || !base.is_known() {
        return Delta {
            absolute: NAN64,
            relative: NAN64,
            combined_sem: d.combined_sem,
            significance: Significance::Unknown,
            direction: Direction::Flat,
            improved: None,
        };
    }
    let relative: u64 = if less64(TINY, abs64(base.value)) {
        d.relative
    } else {
        NAN64
    };
    let significance: Significance = if less64(d.bound, abs64(d.absolute)) {
        Significance::Real
    } else {
        Significance::WithinNoise
    };
    let direction: Direction = match significance {
        Significance::Real => if less64(0, d.absolute) {
            Direction::Up
        } else {
            Direction::Down
        },
        _ => Direction::Flat,
    };
    let improved: Option<bool> = match (significance, better) {
        (Significance::Real, Better::Lower) => Some(less64(d.absolute, 0)),
        (Significance::Real, Better::Higher) => Some(less64(0, d.absolute)),
        _ => None,
    };
    Delta {
        absolute: d.absolute,
        relative,
        combined_sem: d.combined_sem,
        significance,
        direction,
        improved,
    }
}

/// A frozen snapshot to compare against.
///
/// Stores the whole [`MetricsView`] rather than a handful of scalars, so a metric added
/// later is comparable without touching this file. It also keeps the solver step and a
/// human label, because a baseline whose provenance you cannot recall is a baseline you
/// stop trusting.
#[derive(Clone, Debug)]
pub struct Baseline {
    pub label: String,
    /// Solver step the snapshot was taken at.
    pub step: u64,
    /// Inlet velocity at the time, m/s, as `f32` bits. Shown next to the label
    /// because comparing two designs at different operating points is the single
    /// easiest way to fool yourself with this feature.
    pub inlet_velocity_ms: u32,
    pub metrics: MetricsView,
}

/// Bit pattern of the largest relative velocity change that still counts as the
/// same operating point: 0.01.
pub const SAME_POINT: u32 = 0x3c23_d70a;

/// Bit pattern of the least inlet velocity that a deviation is a fraction of, a
/// millionth.
pub const LEAST_VELOCITY: u32 = 0x3586_37bd;

impl Baseline {
    pub fn capture(
        label: &str,
        step: u64,
        inlet_velocity_ms: u32,
        metrics: &MetricsView,
    ) -> (b: Self)
        ensures
            b.label@ == label@,
            b.step == step,
            b.inlet_velocity_ms == inlet_velocity_ms,
            b.metrics.same(metrics),
    {
        Baseline {
            label: String::from_str(label),
            step,
            inlet_velocity_ms,
            metrics: metrics.copied(),
        }
    }

    /// Whether `r` says that an inlet velocity is within one percent of this baseline's,
    /// which counts as a millionth at least.
    pub open spec fn near<D: Fn(u32, u32) -> u32>(
        &self,
        inlet_velocity_ms: u32,
        divide: D,
        r: bool,
    ) -> bool {
        exists|gap: u32, deviation: u32| #[trigger]
            is_sum(self.inlet_velocity_ms, negated32(inlet_velocity_ms), gap) && #[trigger]
            divide.ensures(
                (
                    magnitude32(gap),
                    greater32(magnitude32(self.inlet_velocity_ms), LEAST_VELOCITY),
                ),
                deviation,
            ) && r == lt32(deviation, SAME_POINT)
    }

    /// Whether the live run is at the same operating point as this baseline.
    ///
    /// Compared at 1% because the velocity slider is continuous and an exact
    /// match would essentially never hold. When this is false the panel says so:
    /// the deltas are still computed but they are not a like-for-like design
    /// comparison.
    #[verifier::spinoff_prover]
    #[verifier::rlimit(80)]
    pub fn same_operating_point<D: Fn(u32, u32) -> u32>(
        &self,
        inlet_velocity_ms: u32,
        divide: &D,
    ) -> (r: bool)
        requires
            forall|a: u32, b: u32| #[trigger] divide.requires((a, b)),
        ensures
            self.near(inlet_velocity_ms, *divide, r),
    {
        let gap: u32 = sum(self.inlet_velocity_ms, neg32(inlet_velocity_ms));
        let deviation: u32 = divide(
            abs32(gap),
            max32(abs32(self.inlet_velocity_ms), LEAST_VELOCITY),
        );
        less32(deviation, SAME_POINT)
    }
}

/// Every delta the HUD shows, in one struct so the panel is a straight-line
/// render with no comparison logic in it.
#[derive(Clone, Copy, Debug, PartialEq, Eq, Structural)]
pub struct MetricDeltas {
    pub flow_rate: Delta,
    pub pressure_drop: Delta,
    pub loss_coefficient: Delta,
    pub uniformity: Delta,
    pub deflection_deg: Delta,
    pub max_speed: Delta,
}

/// Whether `r` holds what comparing the whole HUD row with a baseline gives.
pub open spec fn are_compared<
    H: Fn(u64, u64) -> u64,
    S: Fn(u64, u64) -> u64,
    M: Fn(u64, u64) -> u64,
    D: Fn(u64, u64) -> u64,
>(now: &MetricsView, base: &MetricsView, a: &ReadingArithmetic<H, S, M, D>, r: MetricDeltas) -> bool {
    &&& is_delta(now.flow_rate, base.flow_rate, Better::Neutral, a, r.flow_rate)
    &&& is_delta(now.pressure_drop, base.pressure_drop, Better::Lower, a, r.pressure_drop)
    &&& is_delta(
        now.loss_coefficient,
        base.loss_coefficient,
        Better::Lower,
        a,
        r.loss_coefficient,
    )
    &&& is_delta(now.uniformity, base.uniformity, Better::Higher, a, r.uniformity)
    &&& is_delta(now.deflection_deg, base.deflection_deg, Better::Lower, a, r.deflection_deg)
    &&& is_delta(now.max_speed, base.max_speed, Better::Lower, a, r.max_speed)
}

/// Compare the whole HUD row against a baseline.
///
/// The [`Better`] choice per metric is deliberately not configurable: a duct with
/// a lower loss coefficient is a better duct, and letting that be a setting
/// invites someone to flip it to make a bad result look good.
pub fn compare<
    H: Fn(u64, u64) -> u64,
    S: Fn(u64, u64) -> u64,
    M: Fn(u64, u64) -> u64,
    D: Fn(u64, u64) -> u64,
>(now: &MetricsView, base: &MetricsView, a: &ReadingArithmetic<H, S, M, D>) -> (r: MetricDeltas)
    requires
        a.total(),
    ensures
        are_compared(now, base, a, r),
{
    MetricDeltas {
        // At a fixed inlet velocity more flow means more open area, which is
        // usually the goal but is not unambiguously better, so: neutral.
        flow_rate: delta(now.flow_rate, base.flow_rate, Better::Neutral, a),
        pressure_drop: delta(now.pressure_drop, base.pressure_drop, Better::Lower, a),
        loss_coefficient: delta(now.loss_coefficient, base.loss_coefficient, Better::Lower, a),
        uniformity: delta(now.uniformity, base.uniformity, Better::Higher, a),
        deflection_deg: delta(now.deflection_deg, base.deflection_deg, Better::Lower, a),
        // A higher peak speed at the same flow means a tighter separation
        // bubble or a sharper vena contracta: worse.
        max_speed: delta(now.max_speed, base.max_speed, Better::Lower, a),
    }
}

/// A change that is not real is never called an improvement or a regression, and
/// points nowhere; and the same real change that improves a metric where lower is
/// better worsens one where higher is.
pub proof fn only_real_changes_get_a_verdict(
    now: Reading,
    base: Reading,
    better: Better,
    d: Difference,
)
    ensures
        judged(now, base, better, d).significance != Significance::Real ==> {
            &&& judged(now, base, better, d).improved is None
            &&& judged(now, base, better, d).direction == Direction::Flat
        },
        judged(now, base, Better::Lower, d).improved == Some(true) ==> judged(
            now,
            base,
            Better::Higher,
            d,
        ).improved == Some(false),
        judged(now, base, Better::Neutral, d).improved is None,
        judged(now, base, Better::Neutral, d).direction == judged(
            now,
            base,
            Better::Lower,
            d,
        ).direction,
{
}

/// What a change says of two measured readings: how far the new one lies from the old,
/// whether that is more than twice the error of both together, which way it went if so,
/// and whether that way is `wanted`, where a way is.
pub open spec fn tells<
    H: Fn(u64, u64) -> u64,
    S: Fn(u64, u64) -> u64,
    M: Fn(u64, u64) -> u64,
    D: Fn(u64, u64) -> u64,
>(
    now: Reading,
    base: Reading,
    wanted: Option<Direction>,
    a: &ReadingArithmetic<H, S, M, D>,
    r: Delta,
) -> bool {
    if now.samples == 0 || base.samples == 0 || !finite64(now.value) || !finite64(base.value) {
        &&& r.significance == Significance::Unknown
        &&& r.direction == Direction::Flat
        &&& r.improved is None
        &&& nan64(r.absolute) && nan64(r.relative)
    } else {
        &&& a.minus.ensures((now.value, base.value), r.absolute)
        &&& a.quadrature.ensures((greater64(now.sem, 0), greater64(base.sem, 0)), r.combined_sem)
        &&& exists|far: u64| #[trigger]
            a.times.ensures((0x4000_0000_0000_0000, greater64(r.combined_sem, MIN_POSITIVE)), far)
                && r.significance == if lt64(far, magnitude64(r.absolute)) {
                Significance::Real
            } else {
                Significance::WithinNoise
            }
        &&& r.direction == Direction::Flat <==> r.significance != Significance::Real
        &&& r.direction == Direction::Up ==> lt64(0, r.absolute)
        &&& r.direction == Direction::Down ==> !lt64(0, r.absolute)
        &&& r.improved is Some <==> r.significance == Significance::Real && wanted is Some
        &&& r.improved matches Some(better) ==> (better <==> match wanted {
            Some(Direction::Up) => lt64(0, r.absolute),
            _ => lt64(r.absolute, 0),
        })
        &&& if reaches(base.value, 1, 1_000_000_000_000) {
            a.divide.ensures((r.absolute, magnitude64(base.value)), r.relative)
        } else {
            nan64(r.relative)
        }
    }
}

/// A change of one metric says what changed, whichever way is better.
pub proof fn a_change_tells_what_changed<
    H: Fn(u64, u64) -> u64,
    S: Fn(u64, u64) -> u64,
    M: Fn(u64, u64) -> u64,
    D: Fn(u64, u64) -> u64,
>(
    now: Reading,
    base: Reading,
    better: Better,
    a: &ReadingArithmetic<H, S, M, D>,
    r: Delta,
)
    requires
        is_delta(now, base, better, a, r),
    ensures
        tells(
            now,
            base,
            match better {
                Better::Lower => Some(Direction::Down),
                Better::Higher => Some(Direction::Up),
                Better::Neutral => None,
            },
            a,
            r,
        ),
{
    let d = choose|d: Difference| #[trigger]
        measured(now, base, a, d) && r == judged(now, base, better, d);
    assert(a.times.ensures((SIGNIFICANCE_SIGMA, greater64(d.combined_sem, MIN_POSITIVE)), d.bound));
    if finite64(base.value) {
        lemma2_to64();
        lemma2_to64_rest();
        assert((TINY + 1) as u64 / STEPS64 == 0x3d7);
        lemma_pow2_adds(64, 28);
        lemma_reaches((TINY + 1) as u64, 1, 1_000_000_000_000, base.value);
    }
}

/// Comparing the whole row compares each metric with itself: every change is that of its
/// own metric and of no other. Less pressure drop, loss, deflection and peak speed are
/// better, more uniformity is, and more flow is neither.
pub proof fn each_change_is_of_its_own_metric<
    H: Fn(u64, u64) -> u64,
    S: Fn(u64, u64) -> u64,
    M: Fn(u64, u64) -> u64,
    D: Fn(u64, u64) -> u64,
>(
    now: &MetricsView,
    base: &MetricsView,
    a: &ReadingArithmetic<H, S, M, D>,
    r: MetricDeltas,
)
    requires
        are_compared(now, base, a, r),
    ensures
        tells(now.flow_rate, base.flow_rate, None, a, r.flow_rate),
        tells(now.pressure_drop, base.pressure_drop, Some(Direction::Down), a, r.pressure_drop),
        tells(
            now.loss_coefficient,
            base.loss_coefficient,
            Some(Direction::Down),
            a,
            r.loss_coefficient,
        ),
        tells(now.uniformity, base.uniformity, Some(Direction::Up), a, r.uniformity),
        tells(now.deflection_deg, base.deflection_deg, Some(Direction::Down), a, r.deflection_deg),
        tells(now.max_speed, base.max_speed, Some(Direction::Down), a, r.max_speed),
{
    a_change_tells_what_changed(now.flow_rate, base.flow_rate, Better::Neutral, a, r.flow_rate);
    a_change_tells_what_changed(now.pressure_drop, base.pressure_drop, Better::Lower, a, r.pressure_drop);
    a_change_tells_what_changed(now.loss_coefficient, base.loss_coefficient, Better::Lower, a, r.loss_coefficient);
    a_change_tells_what_changed(now.uniformity, base.uniformity, Better::Higher, a, r.uniformity);
    a_change_tells_what_changed(now.deflection_deg, base.deflection_deg, Better::Lower, a, r.deflection_deg);
    a_change_tells_what_changed(now.max_speed, base.max_speed, Better::Lower, a, r.max_speed);
}

/// A baseline is of the same operating point as its own velocity, and no moving one is of
/// the same point as a standstill.
#[verifier::spinoff_prover]
#[verifier::rlimit(60)]
pub proof fn a_baseline_knows_its_own_point<D: Fn(u32, u32) -> u32>(
    b: Baseline,
    velocity: u32,
    divide: D,
    r: bool,
)
    requires
        finite32(b.inlet_velocity_ms),
        b.near(velocity, divide, r),
        forall|x: u32, y: u32, q: u32|
            #![trigger divide.ensures((x, y), q)]
            divide.ensures((x, y), q) && finite32(x) && finite32(y) && lt32(0, y) ==> {
                &&& x == 0 ==> eq32(q, 0)
                &&& le32(y, x) ==> le32(ONE, q)
            },
    ensures
        velocity == b.inlet_velocity_ms ==> r,
        velocity % 0x8000_0000 == 0 && LEAST_VELOCITY <= magnitude32(b.inlet_velocity_ms) ==> !r,
{
    let v = b.inlet_velocity_ms;
    let (gap, deviation) = choose|gap: u32, deviation: u32| #[trigger]
        is_sum(v, negated32(velocity), gap) && #[trigger] divide.ensures(
            (magnitude32(gap), greater32(magnitude32(v), LEAST_VELOCITY)),
            deviation,
        ) && r == lt32(deviation, SAME_POINT);
    if velocity == v {
        assert(value_of(negated32(v)) == -value_of(v));
        assert(magnitude32(gap) == 0);
    } else if velocity % 0x8000_0000 == 0 && LEAST_VELOCITY <= magnitude32(v) {
        lemma_sum_with_zero(v, negated32(velocity), gap);
    }
}

proof fn lemma_sum_with_zero(v: u32, z: u32, gap: u32)
    requires
        finite32(v),
        v % 0x8000_0000 != 0,
        z % 0x8000_0000 == 0,
        is_sum(v, z, gap),
    ensures
        gap == v,
{
    let m = v as int % 0x8000_0000;
    lemma_ordered(0, m);
    let x = value_of(v);
    if x > 0 {
        lemma_at_least(x, 1, gap as int, m);
        lemma_at_most(x, 1, gap as int, m);
    } else {
        lemma_at_least(-x, 1, gap - 0x8000_0000, m);
        lemma_at_most(-x, 1, gap - 0x8000_0000, m);
    }
}

} // verus!
