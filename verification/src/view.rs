//! The view models: plain data the UI renders.
//!
//! Every number the UI can display lives in a struct defined *here*, in terms
//! the UI needs: a value, its uncertainty, a traffic light, a unit label. The
//! panels never learn where a number came from.
//!
//! # The rule that shapes everything here
//!
//! **Every scalar carries its uncertainty.** [`Reading`] has no constructor that
//! takes a bare value without also taking a standard error. A lattice-Boltzmann
//! duct simulation produces a *fluctuating* signal; quoting `47.3184 Pa` off one
//! time step is not precision, it is noise with decimal places.
//!
//! Values are carried as bit patterns: `u64` for an `f64`, `u32` for an `f32`.
use vstd::prelude::*;
use vstd::string::StringExecFns;
use crate::config::{Vec3, ONE};
use crate::float_order::{
    at_most64, clamp64, clamped64, finite64, greater64, is_finite64, le64, less64, lt64, max64,
    nan64,
};
use vstd::arithmetic::power2::*;
use crate::binary64::{
    lemma_clear_of, lemma_reaches_at, lemma_size_positive, nearly, reaches, size64, STEPS64,
};
use crate::format::ONE64;
use crate::minifloat::lemma_code_value_monotonic;
use crate::text::{decimal, decimal_string};

verus! {

/// Bit pattern of an `f64` NaN.
pub const NAN64: u64 = 0x7ff8_0000_0000_0000;

/// The traffic light next to a number.
///
/// Deliberately four-valued: [`Health::Unknown`] is not [`Health::Good`]. A
/// statistic that has not accumulated enough samples yet must look different
/// from one that has and is fine, or the user reads a warm-up transient as a
/// result.
#[derive(Clone, Copy, Debug, PartialEq, Eq, Structural)]
pub enum Health {
    /// Not enough data yet, or no threshold defined for this quantity.
    Unknown,
    /// Within the design target.
    Good,
    /// Outside the target but not alarming.
    Watch,
    /// Outside anything acceptable, or physically suspicious.
    Bad,
}

impl Default for Health {
    fn default() -> (h: Self)
        ensures
            h == Health::Unknown,
    {
        Health::Unknown
    }
}

impl Health {
    /// Linear-space RGBA for the label, as `f32` bits. Chosen to stay
    /// distinguishable under deuteranopia: the amber and green differ in luminance as
    /// well as hue, and red is the darkest of the three.
    pub fn color(self) -> (c: [u32; 4])
        ensures
            c@ == (match self {
                Health::Unknown => seq![0x3f1e_b852u32, 0x3f23_d70a, 0x3f2e_147b, 0x3f80_0000],
                Health::Good => seq![0x3eb8_51ecu32, 0x3f51_eb85, 0x3ef0_a3d7, 0x3f80_0000],
                Health::Watch => seq![0x3f73_3333u32, 0x3f38_51ec, 0x3e38_51ec, 0x3f80_0000],
                Health::Bad => seq![0x3f70_a3d7u32, 0x3ea8_f5c3, 0x3e9e_b852, 0x3f80_0000],
            }),
    {
        match self {
            Health::Unknown => [0x3f1e_b852, 0x3f23_d70a, 0x3f2e_147b, 0x3f80_0000],
            Health::Good => [0x3eb8_51ec, 0x3f51_eb85, 0x3ef0_a3d7, 0x3f80_0000],
            Health::Watch => [0x3f73_3333, 0x3f38_51ec, 0x3e38_51ec, 0x3f80_0000],
            Health::Bad => [0x3f70_a3d7, 0x3ea8_f5c3, 0x3e9e_b852, 0x3f80_0000],
        }
    }

    pub fn label(self) -> (s: &'static str)
        ensures
            s@ == (match self {
                Health::Unknown => "unknown"@,
                Health::Good => "good"@,
                Health::Watch => "watch"@,
                Health::Bad => "bad"@,
            }),
    {
        match self {
            Health::Unknown => "unknown",
            Health::Good => "good",
            Health::Watch => "watch",
            Health::Bad => "bad",
        }
    }

    /// The verdict on `v` in a band where lower is better.
    pub open spec fn judged_below(v: u64, good: u64, bad: u64) -> Health {
        if !finite64(v) {
            Health::Unknown
        } else if le64(v, good) {
            Health::Good
        } else if lt64(bad, v) {
            Health::Bad
        } else {
            Health::Watch
        }
    }

    /// The verdict on `v` in a band where higher is better.
    pub open spec fn judged_above(v: u64, good: u64, bad: u64) -> Health {
        if !finite64(v) {
            Health::Unknown
        } else if le64(good, v) {
            Health::Good
        } else if lt64(v, bad) {
            Health::Bad
        } else {
            Health::Watch
        }
    }

    /// Classify `v` against a band where **lower is better**: good below `good`,
    /// bad above `bad`. Exactly on a boundary counts as the better verdict.
    pub fn below(v: u64, good: u64, bad: u64) -> (h: Health)
        ensures
            h == Self::judged_below(v, good, bad),
    {
        if !is_finite64(v) {
            Health::Unknown
        } else if at_most64(v, good) {
            Health::Good
        } else if less64(bad, v) {
            Health::Bad
        } else {
            Health::Watch
        }
    }

    /// Classify `v` where **higher is better**: good above `good`, bad below
    /// `bad`. Exactly on a boundary counts as the better verdict.
    pub fn above(v: u64, good: u64, bad: u64) -> (h: Health)
        ensures
            h == Self::judged_above(v, good, bad),
    {
        if !is_finite64(v) {
            Health::Unknown
        } else if at_most64(good, v) {
            Health::Good
        } else if less64(v, bad) {
            Health::Bad
        } else {
            Health::Watch
        }
    }
}

/// One measured scalar: the mean, its standard error, and a judgement.
///
/// `sem` is the standard error **of the mean**, not the standard deviation of
/// the signal. Those differ by `sqrt(n)` and confusing them is the classic way
/// to publish an error bar an order of magnitude too wide.
#[derive(Clone, Copy, Debug, PartialEq, Eq, Structural)]
pub struct Reading {
    /// Mean over the averaging window, in the canonical SI unit for the
    /// quantity, as `f64` bits.
    pub value: u64,
    /// Standard error of the mean, same unit, as `f64` bits. Negative or
    /// non-finite means "not known yet".
    pub sem: u64,
    pub state: Health,
    /// Independent samples behind `value`. Zero means the window is empty, and
    /// the UI greys the number out rather than showing a confident zero.
    pub samples: u32,
}

/// A reading with no data behind it.
pub open spec fn no_reading() -> Reading {
    Reading { value: NAN64, sem: NAN64, state: Health::Unknown, samples: 0 }
}

impl Default for Reading {
    fn default() -> (r: Self)
        ensures
            r == no_reading(),
    {
        Reading::unknown()
    }
}

impl Reading {
    /// A reading with no data behind it. This is what a fresh app shows, and
    /// what a statistics reset returns every metric to.
    pub fn unknown() -> (r: Self)
        ensures
            r == no_reading(),
    {
        Reading { value: NAN64, sem: NAN64, state: Health::Unknown, samples: 0 }
    }

    pub fn new(value: u64, sem: u64, state: Health, samples: u32) -> (r: Self)
        ensures
            r == (Reading { value, sem, state, samples }),
    {
        Reading { value, sem, state, samples }
    }

    /// Whether there is something worth showing.
    pub open spec fn known(&self) -> bool {
        self.samples > 0 && finite64(self.value)
    }

    /// Whether `sem` is a usable error bar.
    pub open spec fn error_bar(&self) -> bool {
        finite64(self.sem) && lt64(0, self.sem)
    }

    /// True when there is something worth showing. A reading with no samples
    /// is not the same as a reading of zero.
    pub fn is_known(&self) -> (r: bool)
        ensures
            r == self.known(),
    {
        self.samples > 0 && is_finite64(self.value)
    }

    /// True when `sem` is a usable error bar.
    pub fn has_error_bar(&self) -> (r: bool)
        ensures
            r == self.error_bar(),
    {
        is_finite64(self.sem) && less64(0, self.sem)
    }

    /// Whether an error relative to the value means something: both halves are usable and
    /// the value is not (near) zero.
    pub open spec fn relatable(&self) -> bool {
        self.error_bar() && finite64(self.value) && !lt64(magnitude64(self.value), TINY)
    }

    /// Relative standard error, as a fraction. `None` when either half is unusable or the
    /// value is (near) zero, where a relative error is meaningless rather than merely
    /// large. `divide` divides two `f64`.
    pub fn relative_error<D: Fn(u64, u64) -> u64>(&self, divide: &D) -> (r: Option<u64>)
        requires
            divide.requires((self.sem, magnitude64(self.value))),
        ensures
            r is Some <==> self.relatable(),
            r matches Some(x) ==> divide.ensures((self.sem, magnitude64(self.value)), x),
    {
        if !self.has_error_bar() || !is_finite64(self.value) || less64(abs64(self.value), TINY) {
            return None;
        }
        let x: u64 = divide(self.sem, abs64(self.value));
        Some(x)
    }

    /// Whether two readings differ by more than `k` of their combined error bars.
    pub open spec fn apart<
        H: Fn(u64, u64) -> u64,
        S: Fn(u64, u64) -> u64,
        M: Fn(u64, u64) -> u64,
        D: Fn(u64, u64) -> u64,
    >(&self, other: &Reading, k: u64, a: &ReadingArithmetic<H, S, M, D>, r: bool) -> bool {
        if !self.known() || !other.known() {
            !r
        } else {
            exists|gap: u64, combined: u64, bound: u64| #[trigger]
                a.minus.ensures((self.value, other.value), gap) && #[trigger]
                a.bounds(self.sem, other.sem, k, combined, bound) && r == lt64(
                    bound,
                    magnitude64(gap),
                )
        }
    }

    /// Whether two readings differ by more than their combined error bars.
    ///
    /// The test is `|a - b| > k * sqrt(sem_a^2 + sem_b^2)`. This is what stops the A/B
    /// panel from painting a green arrow on a change that is pure noise, which on a
    /// design tool is worse than showing nothing.
    pub fn differs_from<
        H: Fn(u64, u64) -> u64,
        S: Fn(u64, u64) -> u64,
        M: Fn(u64, u64) -> u64,
        D: Fn(u64, u64) -> u64,
    >(&self, other: &Reading, k: u64, a: &ReadingArithmetic<H, S, M, D>) -> (r: bool)
        requires
            a.total(),
        ensures
            self.apart(other, k, a, r),
    {
        if !self.is_known() || !other.is_known() {
            return false;
        }
        let minus = &a.minus;
        let gap: u64 = minus(self.value, other.value);
        let b: (u64, u64) = a.bound(self.sem, other.sem, k);
        assert(a.bounds(self.sem, other.sem, k, b.0, b.1));
        less64(b.1, abs64(gap))
    }
}

/// The arithmetic of comparing readings, on bit patterns of `f64`.
pub struct ReadingArithmetic<H, S, M, D> {
    /// The root of the sum of two squares.
    pub quadrature: H,
    pub minus: S,
    pub times: M,
    pub divide: D,
}

/// Bit pattern of the smallest positive normal `f64`.
pub const MIN_POSITIVE: u64 = 0x0010_0000_0000_0000;

impl<
    H: Fn(u64, u64) -> u64,
    S: Fn(u64, u64) -> u64,
    M: Fn(u64, u64) -> u64,
    D: Fn(u64, u64) -> u64,
> ReadingArithmetic<H, S, M, D> {
    /// Whether every operation can be called.
    pub open spec fn total(&self) -> bool {
        &&& forall|a: u64, b: u64| #[trigger] self.quadrature.requires((a, b))
        &&& forall|a: u64, b: u64| #[trigger] self.minus.requires((a, b))
        &&& forall|a: u64, b: u64| #[trigger] self.times.requires((a, b))
        &&& forall|a: u64, b: u64| #[trigger] self.divide.requires((a, b))
    }

    /// Whether `combined` is the combined standard error of two, of which a negative one
    /// or one that is no number counts as zero.
    pub open spec fn combines(&self, a: u64, b: u64, combined: u64) -> bool {
        self.quadrature.ensures((greater64(a, 0), greater64(b, 0)), combined)
    }

    /// Whether `bound` is `k` combined standard errors, which are never less than the
    /// smallest positive number.
    pub open spec fn bounds(&self, a: u64, b: u64, k: u64, combined: u64, bound: u64) -> bool {
        &&& self.combines(a, b, combined)
        &&& self.times.ensures((k, greater64(combined, MIN_POSITIVE)), bound)
    }

    /// The combined standard error of two, and `k` of them.
    pub(crate) fn bound(&self, a: u64, b: u64, k: u64) -> (r: (u64, u64))
        requires
            self.total(),
        ensures
            self.bounds(a, b, k, r.0, r.1),
    {
        let quadrature = &self.quadrature;
        let times = &self.times;
        let combined: u64 = quadrature(max64(a, 0), max64(b, 0));
        (combined, times(k, max64(combined, MIN_POSITIVE)))
    }
}

/// Bit pattern of `1e-12`.
pub const TINY: u64 = 0x3d71_9799_812d_ea11;

/// The magnitude of an `f64`.
pub open spec fn magnitude64(bits: u64) -> u64 {
    (bits % 0x8000_0000_0000_0000) as u64
}

pub fn abs64(bits: u64) -> (r: u64)
    ensures
        r == magnitude64(bits),
{
    bits % 0x8000_0000_0000_0000
}

/// Why the statistics window restarted.
///
/// The variants are the *user-visible causes*, not the internal mechanism,
/// because the toast quotes them verbatim.
#[derive(Clone, Copy, Debug, PartialEq, Eq, Structural)]
pub enum ResetCause {
    InletVelocity,
    /// The louver aim, or the install pose while a louver aim is set: either
    /// changes the angle the air enters the part at.
    InletAngle,
    InletOutletSwapped,
    /// A vent's speed or aim.
    VentChanged,
    GeometryChanged,
    /// The simulated box's margins.
    DomainChanged,
    ResolutionChanged,
    FluidChanged,
    SolverRestarted,
    Manual,
}

impl ResetCause {
    /// What the user is told.
    pub open spec fn text(self) -> Seq<char> {
        match self {
            ResetCause::InletVelocity => "inlet velocity changed"@,
            ResetCause::InletAngle => "inlet air angle changed"@,
            ResetCause::InletOutletSwapped => "inlet and outlet swapped"@,
            ResetCause::VentChanged => "vent air changed"@,
            ResetCause::GeometryChanged => "geometry changed"@,
            ResetCause::DomainChanged => "simulated box changed"@,
            ResetCause::ResolutionChanged => "grid resolution changed"@,
            ResetCause::FluidChanged => "fluid properties changed"@,
            ResetCause::SolverRestarted => "solver restarted"@,
            ResetCause::Manual => "statistics reset by hand"@,
        }
    }

    pub fn message(self) -> (s: &'static str)
        ensures
            s@ == self.text(),
    {
        match self {
            ResetCause::InletVelocity => "inlet velocity changed",
            ResetCause::InletAngle => "inlet air angle changed",
            ResetCause::InletOutletSwapped => "inlet and outlet swapped",
            ResetCause::VentChanged => "vent air changed",
            ResetCause::GeometryChanged => "geometry changed",
            ResetCause::DomainChanged => "simulated box changed",
            ResetCause::ResolutionChanged => "grid resolution changed",
            ResetCause::FluidChanged => "fluid properties changed",
            ResetCause::SolverRestarted => "solver restarted",
            ResetCause::Manual => "statistics reset by hand",
        }
    }
}

/// Where the averaging window stands, and why it last restarted.
///
/// Surfaced because silently averaging across a parameter change produces a
/// confidently wrong number.
#[derive(Clone, Copy, Debug, PartialEq, Eq, Structural)]
pub struct StatsWindowView {
    /// Solver steps since the window opened.
    pub steps_in_window: u64,
    /// Steps the window wants before it will call itself converged.
    pub steps_target: u64,
    /// Flow-throughs of the domain accumulated, and the target, as `f64` bits. A
    /// statistic averaged over less than a couple of flow-throughs has not seen
    /// the flow it is describing.
    pub flow_throughs: u64,
    pub flow_throughs_target: u64,
    /// Why the window last restarted. `None` on a fresh run.
    pub last_reset: Option<ResetCause>,
    /// Steps ago the last reset happened.
    pub steps_since_reset: u64,
}

/// Bit pattern of the default target of 15 flow-throughs.
pub const FLOW_THROUGHS_TARGET: u64 = 0x402e_0000_0000_0000;

/// The window of a fresh run.
pub open spec fn empty_window() -> StatsWindowView {
    StatsWindowView {
        steps_in_window: 0,
        steps_target: 0,
        flow_throughs: 0,
        flow_throughs_target: FLOW_THROUGHS_TARGET,
        last_reset: None,
        steps_since_reset: 0,
    }
}

impl Default for StatsWindowView {
    fn default() -> (s: Self)
        ensures
            s == empty_window(),
    {
        StatsWindowView {
            steps_in_window: 0,
            steps_target: 0,
            flow_throughs: 0,
            flow_throughs_target: FLOW_THROUGHS_TARGET,
            last_reset: None,
            steps_since_reset: 0,
        }
    }
}

impl StatsWindowView {
    /// How much of the target has been accumulated, between 0 and 1; 0 where there is no
    /// target. `divide` divides two `f64`, `narrow` rounds one to an `f32`.
    pub fn progress<D: Fn(u64, u64) -> u64, N: Fn(u64) -> u32>(
        &self,
        divide: &D,
        narrow: &N,
    ) -> (r: u32)
        requires
            divide.requires((self.flow_throughs, self.flow_throughs_target)),
            forall|x: u64| #[trigger] narrow.requires((x,)),
        ensures
            le64(self.flow_throughs_target, 0) ==> r == 0,
            !le64(self.flow_throughs_target, 0) ==> exists|x: u64| #[trigger]
                divide.ensures((self.flow_throughs, self.flow_throughs_target), x)
                    && narrow.ensures((clamped64(x, 0, ONE64),), r),
    {
        if at_most64(self.flow_throughs_target, 0) {
            return 0;
        }
        let x: u64 = divide(self.flow_throughs, self.flow_throughs_target);
        narrow(clamp64(x, 0, ONE64))
    }
}

/// Progress lies between 0 and 1: the accumulated share of the target does, unless it
/// is no number, and it is the share itself while the target has not been passed.
pub proof fn progress_is_a_share(x: u64)
    ensures
        !nan64(x) ==> le64(0, clamped64(x, 0, ONE64)) && le64(clamped64(x, 0, ONE64), ONE64),
        le64(0, x) && le64(x, ONE64) ==> clamped64(x, 0, ONE64) == x,
        lt64(ONE64, x) ==> clamped64(x, 0, ONE64) == ONE64,
{
}

/// How the run is doing, independent of any one metric.
#[derive(Clone, Copy, Debug, PartialEq, Eq, Structural)]
pub enum ConvergenceState {
    /// Transient still washing through; nothing quoted yet.
    Warmup,
    /// Accumulating statistics.
    Averaging,
    /// Residuals flat and the window long enough.
    Converged,
    /// NaN or a runaway velocity. The one state that must be impossible to
    /// miss, because every number downstream of it is meaningless.
    Diverged,
}

impl Default for ConvergenceState {
    fn default() -> (s: Self)
        ensures
            s == ConvergenceState::Warmup,
    {
        ConvergenceState::Warmup
    }
}

impl ConvergenceState {
    pub fn label(self) -> (s: &'static str)
        ensures
            s@ == (match self {
                ConvergenceState::Warmup => "warming up"@,
                ConvergenceState::Averaging => "averaging"@,
                ConvergenceState::Converged => "converged"@,
                ConvergenceState::Diverged => "DIVERGED"@,
            }),
    {
        match self {
            ConvergenceState::Warmup => "warming up",
            ConvergenceState::Averaging => "averaging",
            ConvergenceState::Converged => "converged",
            ConvergenceState::Diverged => "DIVERGED",
        }
    }

    pub fn health(self) -> (h: Health)
        ensures
            h == (match self {
                ConvergenceState::Warmup => Health::Unknown,
                ConvergenceState::Averaging => Health::Watch,
                ConvergenceState::Converged => Health::Good,
                ConvergenceState::Diverged => Health::Bad,
            }),
    {
        match self {
            ConvergenceState::Warmup => Health::Unknown,
            ConvergenceState::Averaging => Health::Watch,
            ConvergenceState::Converged => Health::Good,
            ConvergenceState::Diverged => Health::Bad,
        }
    }
}

/// A named trace for a plot.
///
/// Two parallel lists rather than a list of pairs, because the plot takes
/// separate x and y slices.
#[derive(Clone, Debug)]
pub struct Trace {
    pub name: String,
    /// Unit of `y`, for the axis label. Empty for a dimensionless residual.
    pub unit: String,
    /// Solver step (or seconds), as `f64` bits.
    pub x: Vec<u64>,
    pub y: Vec<u64>,
    /// Plot this one on a log axis. Residuals span decades; flow rates do not.
    pub log_y: bool,
}

/// The last `n` elements, or all of them.
pub open spec fn newest<T>(s: Seq<T>, n: int) -> Seq<T> {
    if s.len() <= n {
        s
    } else {
        s.skip(s.len() - n)
    }
}

impl Trace {
    /// Whether the trace has no name and no points.
    pub open spec fn blank(&self) -> bool {
        &&& self.name@.len() == 0
        &&& self.unit@.len() == 0
        &&& self.x@.len() == 0
        &&& self.y@.len() == 0
        &&& !self.log_y
    }
}

impl Default for Trace {
    fn default() -> (t: Self)
        ensures
            t.blank(),
    {
        Trace {
            name: String::new(),
            unit: String::new(),
            x: Vec::new(),
            y: Vec::new(),
            log_y: false,
        }
    }
}

impl Trace {
    pub fn new(name: &str, unit: &str) -> (t: Self)
        ensures
            t.name@ == name@,
            t.unit@ == unit@,
            t.x@.len() == 0,
            t.y@.len() == 0,
            !t.log_y,
    {
        Trace {
            name: String::from_str(name),
            unit: String::from_str(unit),
            x: Vec::new(),
            y: Vec::new(),
            log_y: false,
        }
    }

    /// Append a point, discarding the oldest once `capacity` is reached. A trace
    /// always keeps at least two points.
    pub fn push(&mut self, x: u64, y: u64, capacity: usize)
        requires
            old(self).x@.len() == old(self).y@.len(),
        ensures
            ({
                let cap = if capacity < 2 {
                    2
                } else {
                    capacity as int
                };
                &&& final(self).x@ == newest(old(self).x@.push(x), cap)
                &&& final(self).y@ == newest(old(self).y@.push(y), cap)
            }),
            final(self).x@.len() == final(self).y@.len(),
            final(self).name == old(self).name,
            final(self).unit == old(self).unit,
            final(self).log_y == old(self).log_y,
    {
        self.x.push(x);
        self.y.push(y);
        let cap: usize = if capacity < 2 {
            2
        } else {
            capacity
        };
        if self.x.len() > cap {
            let drop: usize = self.x.len() - cap;
            let xs: Vec<u64> = self.x.split_off(drop);
            let ys: Vec<u64> = self.y.split_off(drop);
            self.x = xs;
            self.y = ys;
        }
        proof {
            assert(self.x@ =~= newest(old(self).x@.push(x), cap as int));
            assert(self.y@ =~= newest(old(self).y@.push(y), cap as int));
        }
    }

    pub fn clear(&mut self)
        ensures
            final(self).x@.len() == 0,
            final(self).y@.len() == 0,
            final(self).name == old(self).name,
            final(self).unit == old(self).unit,
            final(self).log_y == old(self).log_y,
    {
        self.x.clear();
        self.y.clear();
    }

    pub fn is_empty(&self) -> (r: bool)
        ensures
            r == (self.x@.len() == 0),
    {
        self.x.len() == 0
    }

    pub fn last(&self) -> (r: Option<(u64, u64)>)
        ensures
            r == if self.x@.len() > 0 && self.y@.len() > 0 {
                Some((self.x@.last(), self.y@.last()))
            } else {
                None
            },
    {
        if self.x.len() == 0 || self.y.len() == 0 {
            return None;
        }
        Some((self.x[self.x.len() - 1], self.y[self.y.len() - 1]))
    }
}

/// Bit pattern of -30, where a log plot draws what has no logarithm.
pub const LOG_FLOOR: u64 = 0xc03e_0000_0000_0000;

impl Trace {
    /// The heights to plot: the values themselves, or on a log trace their decimal
    /// logarithms, which are the same picture as a log axis. A value that is not positive
    /// is drawn at the floor. `log10` is the logarithm of an `f64`.
    pub fn heights<L: Fn(u64) -> u64>(&self, log10: &L) -> (h: Vec<u64>)
        requires
            forall|v: u64| #[trigger] log10.requires((v,)),
        ensures
            !self.log_y ==> h@ == self.y@,
            self.log_y ==> h@.len() == self.y@.len() && forall|i: int|
                0 <= i < h@.len() ==> if lt64(0, self.y@[i]) {
                    log10.ensures((self.y@[i],), #[trigger] h@[i])
                } else {
                    h@[i] == LOG_FLOOR
                },
    {
        if !self.log_y {
            let h: Vec<u64> = self.y.clone();
            assert(h@ =~= self.y@);
            return h;
        }
        let mut h: Vec<u64> = Vec::new();
        let mut i: usize = 0;
        while i < self.y.len()
            invariant
                i <= self.y@.len(),
                h@.len() == i,
                forall|v: u64| #[trigger] log10.requires((v,)),
                forall|k: int|
                    0 <= k < i ==> if lt64(0, self.y@[k]) {
                        log10.ensures((self.y@[k],), #[trigger] h@[k])
                    } else {
                        h@[k] == LOG_FLOOR
                    },
            decreases self.y@.len() - i,
        {
            let v: u64 = self.y[i];
            let l: u64 = if less64(0, v) {
                log10(v)
            } else {
                LOG_FLOOR
            };
            h.push(l);
            i += 1;
        }
        h
    }
}

impl Trace {
    /// Whether two traces hold the same.
    pub open spec fn same(&self, o: &Trace) -> bool {
        &&& self.name@ == o.name@
        &&& self.unit@ == o.unit@
        &&& self.x@ == o.x@
        &&& self.y@ == o.y@
        &&& self.log_y == o.log_y
    }

    /// A trace that holds the same.
    pub fn copied(&self) -> (t: Trace)
        ensures
            t.same(self),
    {
        let t = Trace {
            name: self.name.clone(),
            unit: self.unit.clone(),
            x: self.x.clone(),
            y: self.y.clone(),
            log_y: self.log_y,
        };
        assert(t.x@ =~= self.x@ && t.y@ =~= self.y@);
        t
    }
}

/// Everything the convergence panel draws.
#[derive(Clone, Debug)]
pub struct ConvergenceView {
    pub state: ConvergenceState,
    /// Residual traces.
    pub residuals: Vec<Trace>,
    /// Inlet and outlet flow rate against step. Their *separation* is the
    /// honest convergence signal for a duct: mass in must equal mass out.
    pub flow_in: Trace,
    pub flow_out: Trace,
    /// Pressure drop against step.
    pub pressure_drop: Trace,
    /// True when the x axis is solver steps rather than seconds.
    pub x_is_steps: bool,
    /// Mass imbalance, dimensionless. The single number that says whether the
    /// solution is trustworthy at all. Deliberately mass flux, not volume flux:
    /// the flow is weakly compressible, so the *volumetric* rates differ by the
    /// density ratio across the duct, which is real physics, not solver error.
    pub mass_imbalance: Reading,
}

impl ConvergenceView {
    /// Whether nothing has been drawn yet.
    pub open spec fn blank(&self) -> bool {
        &&& self.state == ConvergenceState::Warmup
        &&& self.residuals@.len() == 0
        &&& self.flow_in.blank()
        &&& self.flow_out.blank()
        &&& self.pressure_drop.blank()
        &&& !self.x_is_steps
        &&& self.mass_imbalance == no_reading()
    }
}

impl Default for ConvergenceView {
    fn default() -> (c: Self)
        ensures
            c.blank(),
    {
        ConvergenceView {
            state: ConvergenceState::Warmup,
            residuals: Vec::new(),
            flow_in: Trace::default(),
            flow_out: Trace::default(),
            pressure_drop: Trace::default(),
            x_is_steps: false,
            mass_imbalance: Reading::unknown(),
        }
    }
}

impl ConvergenceView {
    /// Whether two views hold the same.
    pub open spec fn same(&self, o: &ConvergenceView) -> bool {
        &&& self.state == o.state
        &&& self.residuals@.len() == o.residuals@.len()
        &&& forall|i: int|
            0 <= i < self.residuals@.len() ==> (#[trigger] self.residuals@[i]).same(
                &o.residuals@[i],
            )
        &&& self.flow_in.same(&o.flow_in)
        &&& self.flow_out.same(&o.flow_out)
        &&& self.pressure_drop.same(&o.pressure_drop)
        &&& self.x_is_steps == o.x_is_steps
        &&& self.mass_imbalance == o.mass_imbalance
    }

    /// A view that holds the same.
    pub fn copied(&self) -> (c: ConvergenceView)
        ensures
            c.same(self),
    {
        let mut residuals: Vec<Trace> = Vec::new();
        while residuals.len() < self.residuals.len()
            invariant
                residuals@.len() <= self.residuals@.len(),
                forall|i: int|
                    0 <= i < residuals@.len() ==> (#[trigger] residuals@[i]).same(
                        &self.residuals@[i],
                    ),
            decreases self.residuals@.len() - residuals@.len(),
        {
            let t: Trace = self.residuals[residuals.len()].copied();
            residuals.push(t);
        }
        ConvergenceView {
            state: self.state,
            residuals,
            flow_in: self.flow_in.copied(),
            flow_out: self.flow_out.copied(),
            pressure_drop: self.pressure_drop.copied(),
            x_is_steps: self.x_is_steps,
            mass_imbalance: self.mass_imbalance,
        }
    }
}

/// One inlet or outlet plane, as the toolbar and HUD need it.
#[derive(Clone, Debug)]
pub struct PatchView {
    pub name: String,
    /// True open area, mm^2: the hole, not its bounding rectangle.
    pub open_area_mm2: u32,
    pub hydraulic_diameter_mm: u32,
    pub center_mm: Vec3,
    /// Unit normal pointing into the fluid.
    pub normal: Vec3,
    /// Bulk velocity through the plane, m/s.
    pub mean_velocity: Reading,
    /// Peak speed on the plane, m/s.
    pub max_velocity: Reading,
    /// Fraction of the area flowing the wrong way. Non-zero at an outlet means
    /// recirculation is being sucked back in, which invalidates the pressure
    /// reading there.
    pub backflow_fraction: Reading,
    /// Air comes in here: the chosen inlet mouth, or every mouth a vent is
    /// sealed to.
    pub is_inlet: bool,
    /// The mouth the outflow face is taken from.
    pub is_outlet: bool,
}

impl PatchView {
    /// Whether this is no plane in particular.
    pub open spec fn blank(&self) -> bool {
        &&& self.name@.len() == 0
        &&& self.open_area_mm2 == 0
        &&& self.hydraulic_diameter_mm == 0
        &&& self.center_mm == (Vec3 { x: 0, y: 0, z: 0 })
        &&& self.normal == (Vec3 { x: ONE, y: 0, z: 0 })
        &&& self.mean_velocity == no_reading()
        &&& self.max_velocity == no_reading()
        &&& self.backflow_fraction == no_reading()
        &&& !self.is_inlet
        &&& !self.is_outlet
    }
}

impl Default for PatchView {
    fn default() -> (p: Self)
        ensures
            p.blank(),
    {
        PatchView {
            name: String::new(),
            open_area_mm2: 0,
            hydraulic_diameter_mm: 0,
            center_mm: Vec3::new(0, 0, 0),
            normal: Vec3::new(ONE, 0, 0),
            mean_velocity: Reading::unknown(),
            max_velocity: Reading::unknown(),
            backflow_fraction: Reading::unknown(),
            is_inlet: false,
            is_outlet: false,
        }
    }
}

impl PatchView {
    /// The same plane once more.
    pub fn copied(&self) -> (p: PatchView)
        ensures
            p == *self,
    {
        PatchView {
            name: self.name.clone(),
            open_area_mm2: self.open_area_mm2,
            hydraulic_diameter_mm: self.hydraulic_diameter_mm,
            center_mm: self.center_mm,
            normal: self.normal,
            mean_velocity: self.mean_velocity,
            max_velocity: self.max_velocity,
            backflow_fraction: self.backflow_fraction,
            is_inlet: self.is_inlet,
            is_outlet: self.is_outlet,
        }
    }
}

/// The cell-size control.
///
/// Apply-on-commit, never live. Changing the cell size reallocates every lattice
/// buffer, re-voxelises the part and restarts the statistics, so it has to
/// happen once, on purpose, rather than on every pixel of a slider drag. The
/// panel holds what has been typed; the app fills in [`Self::estimate`] so the
/// cost is on screen before the button is pressed.
#[derive(Clone, Debug)]
pub struct ResolutionPanel {
    /// Cell size in the input box, mm, as `f32` bits. Nothing happens to it
    /// until Apply.
    pub pending_dx_mm: u32,
    /// What `pending_dx_mm` would cost. `None` until the app has looked.
    pub estimate: Option<ResolutionEstimate>,
}

/// Bit pattern of the finest cell size the control accepts: 0.2 mm.
pub const MIN_MM: u32 = 0x3e4c_cccd;

/// Bit pattern of the coarsest cell size the control accepts: 3 mm.
pub const MAX_MM: u32 = 0x4040_0000;

impl ResolutionPanel {
    /// One-click tiers: 1 mm for a quick look, 0.75 mm the default, and 0.5,
    /// 0.4 and 0.3 mm the fine end of the resolution study.
    pub fn presets_mm() -> (p: [u32; 5])
        ensures
            p@ == seq![0x3f80_0000u32, 0x3f40_0000, 0x3f00_0000, 0x3ecc_cccd, 0x3e99_999a],
    {
        [0x3f80_0000, 0x3f40_0000, 0x3f00_0000, 0x3ecc_cccd, 0x3e99_999a]
    }

    pub fn new(dx_mm: u32) -> (p: Self)
        ensures
            p == (ResolutionPanel { pending_dx_mm: dx_mm, estimate: None }),
    {
        ResolutionPanel { pending_dx_mm: dx_mm, estimate: None }
    }

    /// Whether there is an estimate and it describes what is in the box.
    pub open spec fn is_current(&self) -> bool {
        self.estimate matches Some(e) && e.dx_mm == self.pending_dx_mm
    }

    /// The estimate, if it describes what is in the box right now.
    pub fn current_estimate(&self) -> (r: Option<&ResolutionEstimate>)
        ensures
            r is Some <==> self.is_current(),
            r matches Some(e) ==> self.estimate == Some(*e),
    {
        match &self.estimate {
            Some(e) => if e.dx_mm == self.pending_dx_mm {
                Some(e)
            } else {
                None
            },
            None => None,
        }
    }

    /// The estimate, if it describes the cell size in the box *and* the box
    /// margins the user is asking for.
    pub fn estimate_for(&self, domain_mm: Option<[u32; 6]>) -> (r: Option<&ResolutionEstimate>)
        ensures
            r is Some <==> self.is_current() && same_margins(
                self.estimate->Some_0.domain_mm,
                domain_mm,
            ),
            r matches Some(e) ==> self.estimate == Some(*e),
    {
        match self.current_estimate() {
            Some(e) => if margins_equal(e.domain_mm, domain_mm) {
                Some(e)
            } else {
                None
            },
            None => None,
        }
    }
}

/// Whether two settings of the box margins are the same, bit for bit.
pub open spec fn same_margins(a: Option<[u32; 6]>, b: Option<[u32; 6]>) -> bool {
    match (a, b) {
        (Some(x), Some(y)) => x@ == y@,
        (None, None) => true,
        _ => false,
    }
}

pub fn margins_equal(a: Option<[u32; 6]>, b: Option<[u32; 6]>) -> (r: bool)
    ensures
        r == same_margins(a, b),
{
    match (a, b) {
        (Some(x), Some(y)) => {
            let mut i: usize = 0;
            while i < 6
                invariant
                    i <= 6,
                    a == Some(x),
                    b == Some(y),
                    forall|j: int| 0 <= j < i ==> x@[j] == y@[j],
                decreases 6 - i,
            {
                if x[i] != y[i] {
                    assert(x@[i as int] != y@[i as int]);
                    return false;
                }
                i += 1;
            }
            proof {
                assert(x@ =~= y@);
            }
            true
        },
        (None, None) => true,
        _ => false,
    }
}

/// What a candidate cell size would cost, worked out before anything is
/// allocated.
#[derive(Clone, Debug)]
pub struct ResolutionEstimate {
    /// The cell size this describes, mm, as `f32` bits.
    pub dx_mm: u32,
    /// The box margins it was costed with; `None` is the automatic box.
    pub domain_mm: Option<[u32; 6]>,
    /// Lattice dimensions, cells.
    pub dims: [u32; 3],
    /// Lattice cells.
    pub cells: u64,
    /// Device memory the lattice needs once built, bytes.
    pub vram_bytes: u64,
    /// Device memory the app lets itself use, bytes. `None` when the GPU was
    /// not recognised; the memory check is then skipped.
    pub budget_bytes: Option<u64>,
    /// Expected solver steps per second, as `f64` bits. `None` with neither a
    /// measured rate to scale nor a known memory bandwidth to predict from.
    pub steps_per_s: Option<u64>,
    /// Expected wall-clock seconds per flow-through at that rate, as `f64` bits.
    pub flow_through_s: Option<u64>,
    /// Base relaxation time at the current operating point, as `f64` bits.
    pub tau0: u64,
    /// Worth knowing, but the change is allowed.
    pub warnings: Vec<String>,
    /// Why the change will be refused. `None` means it fits.
    pub blocker: Option<String>,
}

/// A histogram ready to draw.
///
/// Pre-binned rather than raw samples, because the sample set lives on the GPU
/// and the UI must never pull a million values across the bus to draw forty
/// bars.
#[derive(Clone, Debug)]
pub struct HistogramView {
    pub name: String,
    pub unit: String,
    pub edges: Vec<u64>,
    pub counts: Vec<u64>,
    /// Area-weighted mean of the underlying quantity, for the annotation line.
    pub mean: Reading,
}

impl HistogramView {
    /// Whether there are no bars.
    pub open spec fn blank(&self) -> bool {
        &&& self.name@.len() == 0
        &&& self.unit@.len() == 0
        &&& self.edges@.len() == 0
        &&& self.counts@.len() == 0
        &&& self.mean == no_reading()
    }
}

impl Default for HistogramView {
    fn default() -> (h: Self)
        ensures
            h.blank(),
    {
        HistogramView {
            name: String::new(),
            unit: String::new(),
            edges: Vec::new(),
            counts: Vec::new(),
            mean: Reading::unknown(),
        }
    }
}

impl HistogramView {
    /// Whether two histograms hold the same.
    pub open spec fn same(&self, o: &HistogramView) -> bool {
        &&& self.name@ == o.name@
        &&& self.unit@ == o.unit@
        &&& self.edges@ == o.edges@
        &&& self.counts@ == o.counts@
        &&& self.mean == o.mean
    }

    /// A histogram that holds the same.
    pub fn copied(&self) -> (h: HistogramView)
        ensures
            h.same(self),
    {
        let h = HistogramView {
            name: self.name.clone(),
            unit: self.unit.clone(),
            edges: self.edges.clone(),
            counts: self.counts.clone(),
            mean: self.mean,
        };
        assert(h.edges@ =~= self.edges@ && h.counts@ =~= self.counts@);
        h
    }

    /// One more edge than bars, and at least one bar.
    pub open spec fn valid(&self) -> bool {
        self.edges@.len() >= 2 && self.counts@.len() + 1 == self.edges@.len()
    }

    /// One more edge than bars, and at least one bar.
    pub fn is_valid(&self) -> (r: bool)
        ensures
            r == self.valid(),
    {
        self.edges.len() >= 2 && self.counts.len() == self.edges.len() - 1
    }

    /// Bin centres, which is what a bar plot wants for x. `middle` computes the
    /// middle of two edges.
    pub fn centers<M: Fn(u64, u64) -> u64>(&self, middle: &M) -> (c: Vec<u64>)
        requires
            forall|a: u64, b: u64| #[trigger] middle.requires((a, b)),
        ensures
            !self.valid() ==> c@.len() == 0,
            self.valid() ==> c@.len() == self.edges@.len() - 1 && forall|i: int|
                0 <= i < c@.len() ==> middle.ensures(
                    (self.edges@[i], self.edges@[i + 1]),
                    #[trigger] c@[i],
                ),
    {
        let mut c: Vec<u64> = Vec::new();
        if !self.is_valid() {
            return c;
        }
        let n: usize = self.edges.len();
        let mut i: usize = 0;
        while i < n - 1
            invariant
                n == self.edges@.len(),
                n >= 2,
                i <= n - 1,
                c@.len() == i,
                forall|a: u64, b: u64| #[trigger] middle.requires((a, b)),
                forall|j: int|
                    0 <= j < i ==> middle.ensures(
                        (self.edges@[j], self.edges@[j + 1]),
                        #[trigger] c@[j],
                    ),
            decreases n - i,
        {
            let v: u64 = middle(self.edges[i], self.edges[i + 1]);
            c.push(v);
            i += 1;
        }
        c
    }

    /// The width of a bin: the distance from the first edge to the last over the number
    /// of bins, or 0 where there is none. `minus` subtracts two `f64`, `share` divides one
    /// by a count.
    pub fn bin_width<M: Fn(u64, u64) -> u64, S: Fn(u64, usize) -> u64>(
        &self,
        minus: &M,
        share: &S,
    ) -> (w: u64)
        requires
            self.edges@.len() >= 2 ==> minus.requires((self.edges@.last(), self.edges@[0])),
            forall|x: u64| #[trigger] share.requires((x, (self.edges@.len() - 1) as usize)),
        ensures
            self.edges@.len() < 2 ==> w == 0,
            self.edges@.len() >= 2 ==> exists|x: u64| #[trigger]
                minus.ensures((self.edges@.last(), self.edges@[0]), x) && share.ensures(
                    (x, (self.edges@.len() - 1) as usize),
                    w,
                ),
    {
        let n: usize = self.edges.len();
        if n < 2 {
            return 0;
        }
        let x: u64 = minus(self.edges[n - 1], self.edges[0]);
        assert(minus.ensures((self.edges@.last(), self.edges@[0]), x));
        share(x, n - 1)
    }
}

/// Residence-time distribution: how long air actually spends inside the duct.
///
/// A long tail is a stagnant pocket, and that is a design defect no
/// pressure-drop number reveals.
#[derive(Clone, Debug)]
pub struct ResidenceTimeView {
    pub histogram: HistogramView,
    /// First moment of the distribution, seconds.
    pub mean_residence_s: Reading,
    /// Variance over the squared mean. 0 is plug flow, 1 is a perfectly stirred
    /// tank.
    pub variance_ratio: Reading,
    /// Ideal residence time from volume over flow rate, seconds, as `f64` bits.
    pub ideal_residence_s: u64,
    /// Particles that never left, as a fraction.
    pub trapped_fraction: Reading,
}

impl ResidenceTimeView {
    /// Whether nothing has been measured.
    pub open spec fn blank(&self) -> bool {
        &&& self.histogram.blank()
        &&& self.mean_residence_s == no_reading()
        &&& self.variance_ratio == no_reading()
        &&& self.ideal_residence_s == 0
        &&& self.trapped_fraction == no_reading()
    }
}

impl Default for ResidenceTimeView {
    fn default() -> (r: Self)
        ensures
            r.blank(),
    {
        ResidenceTimeView {
            histogram: HistogramView::default(),
            mean_residence_s: Reading::unknown(),
            variance_ratio: Reading::unknown(),
            ideal_residence_s: 0,
            trapped_fraction: Reading::unknown(),
        }
    }
}

impl ResidenceTimeView {
    /// Whether two distributions hold the same.
    pub open spec fn same(&self, o: &ResidenceTimeView) -> bool {
        &&& self.histogram.same(&o.histogram)
        &&& self.mean_residence_s == o.mean_residence_s
        &&& self.variance_ratio == o.variance_ratio
        &&& self.ideal_residence_s == o.ideal_residence_s
        &&& self.trapped_fraction == o.trapped_fraction
    }

    /// A distribution that holds the same.
    pub fn copied(&self) -> (r: ResidenceTimeView)
        ensures
            r.same(self),
    {
        ResidenceTimeView {
            histogram: self.histogram.copied(),
            mean_residence_s: self.mean_residence_s,
            variance_ratio: self.variance_ratio,
            ideal_residence_s: self.ideal_residence_s,
            trapped_fraction: self.trapped_fraction,
        }
    }
}

/// A one-sided spectrum.
#[derive(Clone, Debug)]
pub struct SpectrumView {
    pub source: String,
    pub freq_hz: Vec<u64>,
    /// Magnitude in dB re 20 uPa when `db` is set, otherwise linear Pa.
    pub magnitude: Vec<u64>,
    pub db: bool,
    /// Highest frequency the time step can represent, as `f64` bits.
    pub nyquist_hz: u64,
    /// Samples the transform was taken over. Zero means "not computed yet".
    pub window_samples: u32,
}

impl SpectrumView {
    /// Whether nothing has been computed.
    pub open spec fn blank(&self) -> bool {
        &&& self.source@.len() == 0
        &&& self.freq_hz@.len() == 0
        &&& self.magnitude@.len() == 0
        &&& !self.db
        &&& self.nyquist_hz == 0
        &&& self.window_samples == 0
    }
}

impl Default for SpectrumView {
    fn default() -> (s: Self)
        ensures
            s.blank(),
    {
        SpectrumView {
            source: String::new(),
            freq_hz: Vec::new(),
            magnitude: Vec::new(),
            db: false,
            nyquist_hz: 0,
            window_samples: 0,
        }
    }
}

impl SpectrumView {
    /// Whether two spectra hold the same.
    pub open spec fn same(&self, o: &SpectrumView) -> bool {
        &&& self.source@ == o.source@
        &&& self.freq_hz@ == o.freq_hz@
        &&& self.magnitude@ == o.magnitude@
        &&& self.db == o.db
        &&& self.nyquist_hz == o.nyquist_hz
        &&& self.window_samples == o.window_samples
    }

    /// A spectrum that holds the same.
    pub fn copied(&self) -> (s: SpectrumView)
        ensures
            s.same(self),
    {
        let s = SpectrumView {
            source: self.source.clone(),
            freq_hz: self.freq_hz.clone(),
            magnitude: self.magnitude.clone(),
            db: self.db,
            nyquist_hz: self.nyquist_hz,
            window_samples: self.window_samples,
        };
        assert(s.freq_hz@ =~= self.freq_hz@ && s.magnitude@ =~= self.magnitude@);
        s
    }
}

/// A point probe dropped in the viewport.
#[derive(Clone, Debug)]
pub struct ProbeView {
    pub id: u32,
    pub label: String,
    pub position_mm: Vec3,
    /// Static pressure history, Pa.
    pub pressure: Trace,
    /// Speed history, m/s.
    pub speed: Trace,
    /// Instantaneous velocity vector, m/s, for the arrow drawn at the probe.
    pub velocity_ms: Vec3,
    /// False when the probe landed inside solid, where every reading is a lie.
    pub in_fluid: bool,
    pub visible: bool,
    /// Selected in the list, so the gizmo attaches to it.
    pub selected: bool,
}

impl ProbeView {
    /// Whether this is a probe as it is first dropped.
    pub open spec fn fresh(&self, id: u32, position_mm: Vec3) -> bool {
        &&& self.id == id
        &&& self.label@ == "probe "@ + decimal(id as int)
        &&& self.position_mm == position_mm
        &&& self.pressure.name@ == "p"@
        &&& self.pressure.unit@ == "Pa"@
        &&& self.pressure.x@.len() == 0
        &&& self.pressure.y@.len() == 0
        &&& !self.pressure.log_y
        &&& self.speed.name@ == "|u|"@
        &&& self.speed.unit@ == "m/s"@
        &&& self.speed.x@.len() == 0
        &&& self.speed.y@.len() == 0
        &&& !self.speed.log_y
        &&& self.velocity_ms == (Vec3 { x: 0, y: 0, z: 0 })
        &&& self.in_fluid
        &&& self.visible
        &&& !self.selected
    }

    pub fn new(id: u32, position_mm: Vec3) -> (p: Self)
        ensures
            p.fresh(id, position_mm),
    {
        let mut label: String = String::from_str("probe ");
        label.append(decimal_string(id as u64).as_str());
        ProbeView {
            id,
            label,
            position_mm,
            pressure: Trace::new("p", "Pa"),
            speed: Trace::new("|u|", "m/s"),
            velocity_ms: Vec3::new(0, 0, 0),
            in_fluid: true,
            visible: true,
            selected: false,
        }
    }
}

/// The engineering numbers, all of them, in canonical SI.
///
/// **Units are fixed here and converted only at the moment of display.** Storing
/// display units would make the A/B deltas wrong the moment someone toggles the
/// unit system mid-comparison.
#[derive(Clone, Debug)]
pub struct MetricsView {
    /// Volumetric flow, m^3/s.
    pub flow_rate: Reading,
    /// Total-pressure drop inlet to outlet, Pa.
    pub pressure_drop: Reading,
    /// Loss coefficient, dimensionless. The design target is below 1, ideally
    /// 0.3-0.6.
    pub loss_coefficient: Reading,
    /// Weltens uniformity index at the outlet, dimensionless, 1 = perfectly
    /// uniform.
    pub uniformity: Reading,
    /// Angle between the outlet momentum vector and the outlet normal, degrees.
    pub deflection_deg: Reading,
    /// Measured direction of the air leaving the outlet, unit, in the **lattice**
    /// frame. `None` until the outlet has been measured.
    pub jet_direction: Option<Vec3>,
    /// Peak speed anywhere in the domain, m/s. Watched because a runaway here
    /// is the first visible symptom of an instability.
    pub max_speed: Reading,
    /// Reynolds number on the inlet hydraulic diameter.
    pub reynolds: u64,
    /// Lattice Mach number.
    pub mach_lb: u64,
    /// Base relaxation time. Near one half it is the single best predictor of an
    /// unstable run.
    pub tau0: u64,
    pub inlet: PatchView,
    pub outlet: PatchView,
    pub convergence: ConvergenceView,
    pub stats: StatsWindowView,
    pub outlet_velocity_histogram: HistogramView,
    pub residence_time: ResidenceTimeView,
    pub spectrum: SpectrumView,
    /// Shown in the status bar and, if non-empty, as a persistent badge.
    pub warnings: Vec<String>,
}

impl MetricsView {
    /// Whether nothing has been measured.
    pub open spec fn blank(&self) -> bool {
        &&& self.flow_rate == no_reading()
        &&& self.pressure_drop == no_reading()
        &&& self.loss_coefficient == no_reading()
        &&& self.uniformity == no_reading()
        &&& self.deflection_deg == no_reading()
        &&& self.jet_direction is None
        &&& self.max_speed == no_reading()
        &&& self.reynolds == NAN64
        &&& self.mach_lb == NAN64
        &&& self.tau0 == NAN64
        &&& self.inlet.blank()
        &&& self.outlet.blank()
        &&& self.convergence.blank()
        &&& self.stats == empty_window()
        &&& self.outlet_velocity_histogram.blank()
        &&& self.residence_time.blank()
        &&& self.spectrum.blank()
        &&& self.warnings@.len() == 0
    }
}

impl Default for MetricsView {
    fn default() -> (m: Self)
        ensures
            m.blank(),
    {
        MetricsView {
            flow_rate: Reading::unknown(),
            pressure_drop: Reading::unknown(),
            loss_coefficient: Reading::unknown(),
            uniformity: Reading::unknown(),
            deflection_deg: Reading::unknown(),
            jet_direction: None,
            max_speed: Reading::unknown(),
            reynolds: NAN64,
            mach_lb: NAN64,
            tau0: NAN64,
            inlet: PatchView::default(),
            outlet: PatchView::default(),
            convergence: ConvergenceView::default(),
            stats: StatsWindowView::default(),
            outlet_velocity_histogram: HistogramView::default(),
            residence_time: ResidenceTimeView::default(),
            spectrum: SpectrumView::default(),
            warnings: Vec::new(),
        }
    }
}

impl MetricsView {
    /// Whether two sets of metrics hold the same.
    pub open spec fn same(&self, o: &MetricsView) -> bool {
        &&& self.flow_rate == o.flow_rate
        &&& self.pressure_drop == o.pressure_drop
        &&& self.loss_coefficient == o.loss_coefficient
        &&& self.uniformity == o.uniformity
        &&& self.deflection_deg == o.deflection_deg
        &&& self.jet_direction == o.jet_direction
        &&& self.max_speed == o.max_speed
        &&& self.reynolds == o.reynolds
        &&& self.mach_lb == o.mach_lb
        &&& self.tau0 == o.tau0
        &&& self.inlet == o.inlet
        &&& self.outlet == o.outlet
        &&& self.convergence.same(&o.convergence)
        &&& self.stats == o.stats
        &&& self.outlet_velocity_histogram.same(&o.outlet_velocity_histogram)
        &&& self.residence_time.same(&o.residence_time)
        &&& self.spectrum.same(&o.spectrum)
        &&& self.warnings@.len() == o.warnings@.len()
        &&& forall|i: int|
            0 <= i < self.warnings@.len() ==> (#[trigger] self.warnings@[i])@ == o.warnings@[i]@
    }

    /// Metrics that hold the same.
    pub fn copied(&self) -> (m: MetricsView)
        ensures
            m.same(self),
    {
        let mut warnings: Vec<String> = Vec::new();
        while warnings.len() < self.warnings.len()
            invariant
                warnings@.len() <= self.warnings@.len(),
                forall|i: int|
                    0 <= i < warnings@.len() ==> (#[trigger] warnings@[i])@
                        == self.warnings@[i]@,
            decreases self.warnings@.len() - warnings@.len(),
        {
            let w: String = self.warnings[warnings.len()].clone();
            warnings.push(w);
        }
        MetricsView {
            flow_rate: self.flow_rate,
            pressure_drop: self.pressure_drop,
            loss_coefficient: self.loss_coefficient,
            uniformity: self.uniformity,
            deflection_deg: self.deflection_deg,
            jet_direction: self.jet_direction,
            max_speed: self.max_speed,
            reynolds: self.reynolds,
            mach_lb: self.mach_lb,
            tau0: self.tau0,
            inlet: self.inlet.copied(),
            outlet: self.outlet.copied(),
            convergence: self.convergence.copied(),
            stats: self.stats,
            outlet_velocity_histogram: self.outlet_velocity_histogram.copied(),
            residence_time: self.residence_time.copied(),
            spectrum: self.spectrum.copied(),
            warnings,
        }
    }
}

/// A reading with another verdict.
pub open spec fn with_state(r: Reading, state: Health) -> Reading {
    Reading { state, ..r }
}

/// Whether `after` is `before` with the verdicts that the design targets give.
pub open spec fn judged_by_targets<D: Fn(u64, u64) -> u64>(
    before: &MetricsView,
    after: &MetricsView,
    divide: D,
) -> bool {
    // 0.6 is the "ideal" ceiling; an uncut mitred bend runs 2.0-3.5, so
    // anything above 1.5 is a genuine failure.
    &&& after.loss_coefficient == with_state(
        before.loss_coefficient,
        Health::judged_below(
            before.loss_coefficient.value,
            0x3fe3_3333_3333_3333,
            0x3ff8_0000_0000_0000,
        ),
    )
    // 0.95 is a good outlet, below 0.8 is a jet with a dead zone beside it.
    &&& after.uniformity == with_state(
        before.uniformity,
        Health::judged_above(
            before.uniformity.value,
            0x3fee_6666_6666_6666,
            0x3fe9_9999_9999_999a,
        ),
    )
    // 5 and 15 degrees from the outlet normal.
    &&& after.deflection_deg == with_state(
        before.deflection_deg,
        Health::judged_below(
            before.deflection_deg.value,
            0x4014_0000_0000_0000,
            0x402e_0000_0000_0000,
        ),
    )
    // 3.5 and 6 times the inlet bulk, where that is above 1e-6.
    &&& if finite64(before.inlet.mean_velocity.value) && lt64(
        0x3eb0_c6f7_a0b5_ed8d,
        before.inlet.mean_velocity.value,
    ) {
        exists|ratio: u64| #[trigger]
            divide.ensures(
                (before.max_speed.value, before.inlet.mean_velocity.value),
                ratio,
            ) && after.max_speed == with_state(
                before.max_speed,
                Health::judged_below(
                    ratio,
                    0x400c_0000_0000_0000,
                    0x4018_0000_0000_0000,
                ),
            )
    } else {
        after.max_speed == before.max_speed
    }
    // 1% is fine, 5% means the answer is not converged.
    &&& after.convergence.mass_imbalance == with_state(
        before.convergence.mass_imbalance,
        Health::judged_below(
            magnitude64(before.convergence.mass_imbalance.value),
            0x3f84_7ae1_47ae_147b,
            0x3fa9_9999_9999_999a,
        ),
    )
    // Backflow of 0.5% and 5%: it invalidates the pressure reading.
    &&& after.outlet.backflow_fraction == with_state(
        before.outlet.backflow_fraction,
        Health::judged_below(
            before.outlet.backflow_fraction.value,
            0x3f74_7ae1_47ae_147b,
            0x3fa9_9999_9999_999a,
        ),
    )
    &&& *after == (MetricsView {
        loss_coefficient: after.loss_coefficient,
        uniformity: after.uniformity,
        deflection_deg: after.deflection_deg,
        max_speed: after.max_speed,
        convergence: ConvergenceView {
            mass_imbalance: after.convergence.mass_imbalance,
            ..before.convergence
        },
        outlet: PatchView {
            backflow_fraction: after.outlet.backflow_fraction,
            ..before.outlet
        },
        ..*before
    })
}

impl MetricsView {
    /// Apply the design targets to every metric that has one.
    ///
    /// `Health::Unknown` is left alone for anything with no sensible target (flow
    /// rate depends entirely on the operating point).
    pub fn apply_default_thresholds<D: Fn(u64, u64) -> u64>(&mut self, divide: &D)
        requires
            forall|a: u64, b: u64| #[trigger] divide.requires((a, b)),
        ensures
            judged_by_targets(old(self), final(self), *divide),
    {
        self.loss_coefficient.state = Health::below(
            self.loss_coefficient.value,
            0x3fe3_3333_3333_3333,
            0x3ff8_0000_0000_0000,
        );
        self.uniformity.state = Health::above(
            self.uniformity.value,
            0x3fee_6666_6666_6666,
            0x3fe9_9999_9999_999a,
        );
        self.deflection_deg.state = Health::below(
            self.deflection_deg.value,
            0x4014_0000_0000_0000,
            0x402e_0000_0000_0000,
        );
        let u_in: u64 = self.inlet.mean_velocity.value;
        if is_finite64(u_in) && less64(0x3eb0_c6f7_a0b5_ed8d, u_in) {
            let ratio: u64 = divide(self.max_speed.value, u_in);
            assert(divide.ensures(
                (old(self).max_speed.value, old(self).inlet.mean_velocity.value),
                ratio,
            ));
            self.max_speed.state = Health::below(
                ratio,
                0x400c_0000_0000_0000,
                0x4018_0000_0000_0000,
            );
        }
        self.convergence.mass_imbalance.state = Health::below(
            abs64(self.convergence.mass_imbalance.value),
            0x3f84_7ae1_47ae_147b,
            0x3fa9_9999_9999_999a,
        );
        self.outlet.backflow_fraction.state = Health::below(
            self.outlet.backflow_fraction.value,
            0x3f74_7ae1_47ae_147b,
            0x3fa9_9999_9999_999a,
        );
    }
}

/// A number that is not finite has no verdict, whatever the band; and a value
/// exactly on a boundary gets the better of the two verdicts beside it: good on the
/// good boundary, and worth watching on the bad one, where the two are apart.
pub proof fn verdicts_reject_nonfinite_and_favour_boundaries(v: u64, good: u64, bad: u64)
    ensures
        !finite64(v) ==> Health::judged_below(v, good, bad) == Health::Unknown
            && Health::judged_above(v, good, bad) == Health::Unknown,
        finite64(good) ==> Health::judged_below(good, good, bad) == Health::Good
            && Health::judged_above(good, good, bad) == Health::Good,
        finite64(bad) && lt64(good, bad) ==> Health::judged_below(bad, good, bad)
            == Health::Watch,
        finite64(bad) && lt64(bad, good) ==> Health::judged_above(bad, good, bad)
            == Health::Watch,
{
}

/// Whether a verdict is right where lower is better: good clearly below one fraction, bad
/// clearly above another, worth watching clearly between them, and none on what is no
/// number.
pub open spec fn graded(v: u64, good: (int, int), bad: (int, int), state: Health) -> bool {
    &&& !finite64(v) ==> state == Health::Unknown
    &&& finite64(v) && v < 0x8000_0000_0000_0000 ==> {
        &&& clearly_below(v, good) ==> state == Health::Good
        &&& clearly_above(v, good) && clearly_below(v, bad) ==> state == Health::Watch
        &&& clearly_above(v, bad) ==> state == Health::Bad
    }
}

/// Whether a number is less than a fraction by more than one part in a million million.
pub open spec fn clearly_below(v: u64, f: (int, int)) -> bool {
    !reaches(v, f.0 * 999_999_999_999, f.1 * 1_000_000_000_000)
}

/// Whether a number is more than a fraction by one part in a million million at least.
pub open spec fn clearly_above(v: u64, f: (int, int)) -> bool {
    reaches(v, f.0 * 1_000_000_000_001, f.1 * 1_000_000_000_000)
}

proof fn lemma_graded(v: u64, good: u64, bad: u64, g: (int, int), b: (int, int))
    requires
        nearly(good, g.0, g.1),
        nearly(bad, b.0, b.1),
        g.1 > 0,
        b.1 > 0,
        good <= bad,
    ensures
        graded(v, g, b, Health::judged_below(v, good, bad)),
{
    if finite64(v) && v < 0x8000_0000_0000_0000 {
        lemma_clear_of(good, g.0, g.1, v);
        lemma_clear_of(bad, b.0, b.1, v);
    }
}

/// The patterns of the design targets are those of the numbers.
proof fn lemma_targets()
    ensures
        nearly(0x3fe3_3333_3333_3333, 6, 10),
        nearly(0x3ff8_0000_0000_0000, 15, 10),
        nearly(0x3fee_6666_6666_6666, 95, 100),
        nearly(0x3fe9_9999_9999_999a, 8, 10),
        nearly(0x4014_0000_0000_0000, 5, 1),
        nearly(0x402e_0000_0000_0000, 15, 1),
        nearly(0x400c_0000_0000_0000, 35, 10),
        nearly(0x4018_0000_0000_0000, 6, 1),
        nearly(0x3f84_7ae1_47ae_147b, 1, 100),
        nearly(0x3fa9_9999_9999_999a, 5, 100),
        nearly(0x3f74_7ae1_47ae_147b, 5, 1000),
{
    lemma2_to64();
    lemma2_to64_rest();
    assert(0x3fe3_3333_3333_3333u64 / STEPS64 == 1022);
    lemma_reaches_at(0x3fe3_3333_3333_3333, 5999999999994, 10000000000000);
    lemma_reaches_at(0x3fe3_3333_3333_3333, 6000000000006, 10000000000000);
    assert(0x3ff8_0000_0000_0000u64 / STEPS64 == 1023);
    lemma_reaches_at(0x3ff8_0000_0000_0000, 14999999999985, 10000000000000);
    lemma_reaches_at(0x3ff8_0000_0000_0000, 15000000000015, 10000000000000);
    assert(0x3fee_6666_6666_6666u64 / STEPS64 == 1022);
    lemma_reaches_at(0x3fee_6666_6666_6666, 94999999999905, 100000000000000);
    lemma_reaches_at(0x3fee_6666_6666_6666, 95000000000095, 100000000000000);
    assert(0x3fe9_9999_9999_999au64 / STEPS64 == 1022);
    lemma_reaches_at(0x3fe9_9999_9999_999a, 7999999999992, 10000000000000);
    lemma_reaches_at(0x3fe9_9999_9999_999a, 8000000000008, 10000000000000);
    assert(0x4014_0000_0000_0000u64 / STEPS64 == 1025);
    lemma_reaches_at(0x4014_0000_0000_0000, 4999999999995, 1000000000000);
    lemma_reaches_at(0x4014_0000_0000_0000, 5000000000005, 1000000000000);
    assert(0x402e_0000_0000_0000u64 / STEPS64 == 1026);
    lemma_reaches_at(0x402e_0000_0000_0000, 14999999999985, 1000000000000);
    lemma_reaches_at(0x402e_0000_0000_0000, 15000000000015, 1000000000000);
    assert(0x400c_0000_0000_0000u64 / STEPS64 == 1024);
    lemma_reaches_at(0x400c_0000_0000_0000, 34999999999965, 10000000000000);
    lemma_reaches_at(0x400c_0000_0000_0000, 35000000000035, 10000000000000);
    assert(0x4018_0000_0000_0000u64 / STEPS64 == 1025);
    lemma_reaches_at(0x4018_0000_0000_0000, 5999999999994, 1000000000000);
    lemma_reaches_at(0x4018_0000_0000_0000, 6000000000006, 1000000000000);
    assert(0x3f84_7ae1_47ae_147bu64 / STEPS64 == 1016);
    lemma_reaches_at(0x3f84_7ae1_47ae_147b, 999999999999, 100000000000000);
    lemma_reaches_at(0x3f84_7ae1_47ae_147b, 1000000000001, 100000000000000);
    assert(0x3fa9_9999_9999_999au64 / STEPS64 == 1018);
    lemma_reaches_at(0x3fa9_9999_9999_999a, 4999999999995, 100000000000000);
    lemma_reaches_at(0x3fa9_9999_9999_999a, 5000000000005, 100000000000000);
    assert(0x3f74_7ae1_47ae_147bu64 / STEPS64 == 1015);
    lemma_reaches_at(0x3f74_7ae1_47ae_147b, 4999999999995, 1000000000000000);
    lemma_reaches_at(0x3f74_7ae1_47ae_147b, 5000000000005, 1000000000000000);
}

/// What the design targets are, metric by metric: a loss coefficient up to 0.6 is good and
/// from 1.5 bad; a deflection up to 5 and from 15 degrees; a peak speed up to 3.5 and from
/// 6 times the inlet's; a mass imbalance up to 1% and from 5%; a backflow up to 0.5% and
/// from 5%. Uniformity is good from 0.95 and bad below 0.8. Nothing but those verdicts
/// changes.
pub proof fn the_verdicts_follow_the_design_targets<D: Fn(u64, u64) -> u64>(
    before: &MetricsView,
    after: &MetricsView,
    divide: D,
)
    requires
        judged_by_targets(before, after, divide),
    ensures
        graded(
            before.loss_coefficient.value,
            (6, 10),
            (15, 10),
            after.loss_coefficient.state,
        ),
        graded(before.deflection_deg.value, (5, 1), (15, 1), after.deflection_deg.state),
        graded(
            (before.convergence.mass_imbalance.value % 0x8000_0000_0000_0000) as u64,
            (1, 100),
            (5, 100),
            after.convergence.mass_imbalance.state,
        ),
        graded(
            before.outlet.backflow_fraction.value,
            (5, 1000),
            (5, 100),
            after.outlet.backflow_fraction.state,
        ),
        finite64(before.uniformity.value) && before.uniformity.value < 0x8000_0000_0000_0000 ==> {
            let v = before.uniformity.value;
            let h = after.uniformity.state;
            &&& clearly_above(v, (95, 100)) ==> h == Health::Good
            &&& clearly_above(v, (8, 10)) && clearly_below(v, (95, 100)) ==> h == Health::Watch
            &&& clearly_below(v, (8, 10)) ==> h == Health::Bad
        },
        finite64(before.inlet.mean_velocity.value) && before.inlet.mean_velocity.value
            < 0x8000_0000_0000_0000 && reaches(before.inlet.mean_velocity.value, 1, 999_999)
            ==> exists|ratio: u64| #[trigger]
            divide.ensures((before.max_speed.value, before.inlet.mean_velocity.value), ratio)
                && graded(ratio, (35, 10), (6, 1), after.max_speed.state),
        after.loss_coefficient.value == before.loss_coefficient.value,
        after.uniformity.value == before.uniformity.value,
        after.deflection_deg.value == before.deflection_deg.value,
        after.max_speed.value == before.max_speed.value,
        after.flow_rate == before.flow_rate,
        after.pressure_drop == before.pressure_drop,
        after.inlet == before.inlet,
        after.stats == before.stats,
{
    lemma_targets();
    lemma_graded(
        before.loss_coefficient.value,
        0x3fe3_3333_3333_3333,
        0x3ff8_0000_0000_0000,
        (6, 10),
        (15, 10),
    );
    lemma_graded(
        before.deflection_deg.value,
        0x4014_0000_0000_0000,
        0x402e_0000_0000_0000,
        (5, 1),
        (15, 1),
    );
    lemma_graded(
        magnitude64(before.convergence.mass_imbalance.value),
        0x3f84_7ae1_47ae_147b,
        0x3fa9_9999_9999_999a,
        (1, 100),
        (5, 100),
    );
    lemma_graded(
        before.outlet.backflow_fraction.value,
        0x3f74_7ae1_47ae_147b,
        0x3fa9_9999_9999_999a,
        (5, 1000),
        (5, 100),
    );
    let v = before.uniformity.value;
    if finite64(v) && v < 0x8000_0000_0000_0000 {
        lemma_clear_of(0x3fee_6666_6666_6666, 95, 100, v);
        lemma_clear_of(0x3fe9_9999_9999_999a, 8, 10, v);
    }
    let u = before.inlet.mean_velocity.value;
    if finite64(u) && u < 0x8000_0000_0000_0000 && reaches(u, 1, 999_999) {
        lemma2_to64();
        lemma2_to64_rest();
        assert(0x3eb0_c6f7_a0b5_ed8du64 / STEPS64 == 0x3eb);
        lemma_pow2_adds(64, 8);
        lemma_reaches_at(0x3eb0_c6f7_a0b5_ed8d, 1, 999_999);
        assert(!reaches(0x3eb0_c6f7_a0b5_ed8d, 1, 999_999));
        if u <= 0x3eb0_c6f7_a0b5_ed8d {
            if u < 0x3eb0_c6f7_a0b5_ed8d {
                lemma_code_value_monotonic(
                    u as int,
                    0x3eb0_c6f7_a0b5_ed8d,
                    STEPS64 as int,
                );
            }
            assert(false);
        }
        let ratio = choose|ratio: u64| #[trigger]
            divide.ensures((before.max_speed.value, u), ratio) && after.max_speed == with_state(
                before.max_speed,
                Health::judged_below(ratio, 0x400c_0000_0000_0000, 0x4018_0000_0000_0000),
            );
        lemma_graded(ratio, 0x400c_0000_0000_0000, 0x4018_0000_0000_0000, (35, 10), (6, 1));
    }
}

/// How good a verdict is.
pub open spec fn rank(h: Health) -> int {
    match h {
        Health::Unknown => 0,
        Health::Bad => 1,
        Health::Watch => 2,
        Health::Good => 3,
    }
}

/// A lower number never gets a worse verdict where lower is better, nor a higher one where
/// higher is; and it is the good boundary that parts the good, the bad one the bad.
pub proof fn better_numbers_get_no_worse_verdicts(v: u64, w: u64, good: u64, bad: u64)
    requires
        finite64(v),
        finite64(w),
        le64(v, w),
    ensures
        le64(good, bad) ==> rank(Health::judged_below(v, good, bad)) >= rank(
            Health::judged_below(w, good, bad),
        ),
        le64(bad, good) ==> rank(Health::judged_above(w, good, bad)) >= rank(
            Health::judged_above(v, good, bad),
        ),
        Health::judged_below(v, good, bad) == Health::Good <==> le64(v, good),
        Health::judged_above(v, good, bad) == Health::Good <==> le64(good, v),
        le64(good, bad) ==> (Health::judged_below(v, good, bad) == Health::Bad <==> lt64(bad, v)),
        le64(bad, good) ==> (Health::judged_above(v, good, bad) == Health::Bad <==> lt64(v, bad)),
{
}

/// A full trace keeps its latest points: the list is as long as it may be, and every
/// point it has is as far from its end as it was.
pub proof fn the_latest_points_stay(s: Seq<u64>, n: int, back: int)
    requires
        n >= 0,
        1 <= back <= s.len(),
        back <= n,
    ensures
        newest(s, n).len() == if s.len() < n {
            s.len() as int
        } else {
            n
        },
        newest(s, n)[newest(s, n).len() - back] == s[s.len() - back],
{
}

/// Holding the same is what it says: everything holds the same as itself, and metrics
/// that do have the same readings.
pub proof fn copies_hold_what_they_copy(m: MetricsView, o: MetricsView)
    ensures
        m.same(&m),
        m.same(&o) ==> m.flow_rate == o.flow_rate && m.pressure_drop == o.pressure_drop
            && m.loss_coefficient == o.loss_coefficient && m.uniformity == o.uniformity
            && m.deflection_deg == o.deflection_deg && m.max_speed == o.max_speed && m.inlet
            == o.inlet && m.outlet == o.outlet && m.stats == o.stats && m.jet_direction
            == o.jet_direction && m.reynolds == o.reynolds && m.mach_lb == o.mach_lb && m.tau0
            == o.tau0,
        m.same(&o) ==> m.convergence.state == o.convergence.state && m.convergence.flow_in.y@
            == o.convergence.flow_in.y@ && m.convergence.flow_out.y@ == o.convergence.flow_out.y@
            && m.convergence.pressure_drop.y@ == o.convergence.pressure_drop.y@
            && m.outlet_velocity_histogram.counts@ == o.outlet_velocity_histogram.counts@
            && m.residence_time.mean_residence_s == o.residence_time.mean_residence_s
            && m.spectrum.magnitude@ == o.spectrum.magnitude@,
{
}

/// Two readings are told apart only where both were measured and they lie further apart
/// than `k` of their errors taken together.
pub proof fn only_distant_readings_are_apart<
    H: Fn(u64, u64) -> u64,
    S: Fn(u64, u64) -> u64,
    M: Fn(u64, u64) -> u64,
    D: Fn(u64, u64) -> u64,
>(x: Reading, y: Reading, k: u64, a: &ReadingArithmetic<H, S, M, D>, r: bool)
    requires
        x.apart(&y, k, a, r),
    ensures
        r ==> x.samples > 0 && y.samples > 0 && finite64(x.value) && finite64(y.value),
        x.samples > 0 && y.samples > 0 && finite64(x.value) && finite64(y.value) ==> exists|
            gap: u64,
            together: u64,
            bound: u64,
        | #[trigger]
            a.minus.ensures((x.value, y.value), gap) && #[trigger] a.quadrature.ensures(
                (greater64(x.sem, 0), greater64(y.sem, 0)),
                together,
            ) && #[trigger] a.times.ensures((k, greater64(together, MIN_POSITIVE)), bound) && (r
                <==> lt64(bound, magnitude64(gap))),
{
}

/// An error bar is a positive number, one relative to its value needs a value other than
/// zero, and a reading with nothing behind it has neither.
pub proof fn an_error_needs_something_to_be_an_error_of(r: Reading)
    ensures
        r.error_bar() ==> size64(r.sem) > 0 && r.sem < 0x8000_0000_0000_0000 && finite64(r.sem),
        r.relatable() ==> r.error_bar() && finite64(r.value) && size64(r.value) > 0,
        r.error_bar() && finite64(r.value) ==> (r.relatable() <==> magnitude64(r.value) >= TINY),
        !no_reading().known(),
        !no_reading().error_bar(),
        !no_reading().relatable(),
        r.known() ==> r.samples > 0 && finite64(r.value),
        r.samples == 0 ==> !r.known(),
{
    lemma_size_positive(r.sem);
    lemma_size_positive(r.value);
}

/// A histogram has a bar between every two edges that follow each other, and one at least.
pub proof fn a_histogram_has_a_bar_between_edges(h: HistogramView)
    ensures
        h.valid() <==> h.counts@.len() >= 1 && h.edges@.len() == h.counts@.len() + 1,
{
}

} // verus!
