//! The clocks the status bar has to keep straight, and the rate they are measured by.
//!
//! Times and rates are bit patterns of `f64`; sums, products and quotients of them are
//! computed by functions that the caller hands in.
use vstd::prelude::*;
use vstd::string::StringExecFns;
use vstd::arithmetic::power2::pow2;
use crate::binary64::{lemma_reaches, lemma_size_positive, reaches, size64};
use crate::float_order::{at_most64, finite64, is_finite64, le64, less64, lt64, nan64};
use crate::format::ONE64;
use crate::text::{decimal, decimal_string};
use crate::view::NAN64;

verus! {

/// The three clocks the status bar has to keep straight.
#[derive(Clone, Copy, Debug, PartialEq, Eq, Structural)]
pub struct Clock {
    /// Physical time the solver has advanced, seconds.
    pub sim_time_s: u64,
    /// Wall-clock time spent stepping, seconds. Excludes paused time, so
    /// "x real-time" does not improve while the sim is stopped.
    pub wall_time_s: u64,
    pub steps: u64,
    /// Measured over a recent window, not since startup.
    pub steps_per_second: u64,
    /// Steps in one physical second at this operating point.
    pub steps_per_physical_second: u64,
    /// Rendered frames per second.
    pub fps: u64,
    /// Steps dispatched per rendered frame.
    pub steps_per_frame: u32,
}

/// Nothing simulated and nothing measured.
pub open spec fn idle_clock() -> Clock {
    Clock {
        sim_time_s: 0,
        wall_time_s: 0,
        steps: 0,
        steps_per_second: 0,
        steps_per_physical_second: NAN64,
        fps: 0,
        steps_per_frame: 1,
    }
}

impl Default for Clock {
    fn default() -> (c: Self)
        ensures
            c == idle_clock(),
    {
        Clock {
            sim_time_s: 0,
            wall_time_s: 0,
            steps: 0,
            steps_per_second: 0,
            steps_per_physical_second: NAN64,
            fps: 0,
            steps_per_frame: 1,
        }
    }
}

/// How the pace is written.
#[derive(Clone, Copy, Debug, PartialEq, Eq, Structural)]
pub enum Pace {
    /// Not known.
    Unknown,
    /// As a multiple of real time.
    Multiple,
    /// As a fraction of real time, with what a simulated second costs. A number like
    /// 0.00036 is unreadable: how long a simulated second takes is the form the user
    /// can plan around.
    Fraction,
}

/// How a pace of this many simulated seconds per second is written.
pub open spec fn pace_form(factor: u64) -> Pace {
    if !finite64(factor) || le64(factor, 0) {
        Pace::Unknown
    } else if le64(ONE64, factor) {
        Pace::Multiple
    } else {
        Pace::Fraction
    }
}

/// How a pace of this many simulated seconds per second is written.
pub fn pace_of(factor: u64) -> (p: Pace)
    ensures
        p == pace_form(factor),
{
    if !is_finite64(factor) || at_most64(factor, 0) {
        Pace::Unknown
    } else if at_most64(ONE64, factor) {
        Pace::Multiple
    } else {
        Pace::Fraction
    }
}

/// The numbers and words that the status line is made of.
pub struct ClockDigits {
    /// Simulated seconds per wall second, and one over it.
    pub factor: u64,
    pub cost_s: u64,
    pub sim: String,
    pub wall: String,
    /// The factor, or one over it where it is below one.
    pub pace: String,
    /// Wall clock per simulated second.
    pub cost: String,
    pub steps_per_second: String,
    pub fps: String,
}

/// The words for the pace.
#[verifier::opaque]
pub open spec fn pace_text(form: Pace, pace: Seq<char>, cost: Seq<char>) -> Seq<char> {
    match form {
        Pace::Unknown => "x real-time --"@,
        Pace::Multiple => pace + "x real-time"@,
        Pace::Fraction => "1/"@ + pace + " real-time ("@ + cost
            + " of wall clock per simulated second)"@,
    }
}

fn pace_words(form: Pace, pace: &str, cost: &str) -> (s: String)
    ensures
        s@ == pace_text(form, pace@, cost@),
{
    proof {
        reveal(pace_text);
    }
    match form {
        Pace::Unknown => String::from_str("x real-time --"),
        Pace::Multiple => {
            let mut s: String = String::from_str(pace);
            s.append("x real-time");
            s
        },
        Pace::Fraction => {
            let mut s: String = String::from_str("1/");
            s.append(pace);
            s.append(" real-time (");
            s.append(cost);
            s.append(" of wall clock per simulated second)");
            s
        },
    }
}

impl Clock {
    /// Simulated seconds per wall second, by `divide`. Far below 1 for any real duct
    /// case; the number exists to be looked at, not to be reassuring.
    pub fn realtime_factor<D: Fn(u64, u64) -> u64>(&self, divide: &D) -> (f: u64)
        requires
            forall|a: u64, b: u64| #[trigger] divide.requires((a, b)),
        ensures
            self.runs_at(*divide, f),
    {
        if is_finite64(self.steps_per_physical_second) && less64(
            0,
            self.steps_per_physical_second,
        ) {
            divide(self.steps_per_second, self.steps_per_physical_second)
        } else {
            NAN64
        }
    }

    /// Whether `f` is the simulated seconds per wall second; no number where the length
    /// of a step is not known.
    pub open spec fn runs_at<D: Fn(u64, u64) -> u64>(&self, divide: D, f: u64) -> bool {
        if self.paced() {
            divide.ensures((self.steps_per_second, self.steps_per_physical_second), f)
        } else {
            f == NAN64
        }
    }

    /// Whether `w` is the wall clock that a simulated second costs at a pace; no number
    /// without one.
    pub open spec fn costs<D: Fn(u64, u64) -> u64>(factor: u64, divide: D, w: u64) -> bool {
        if finite64(factor) && lt64(0, factor) {
            divide.ensures((ONE64, factor), w)
        } else {
            w == NAN64
        }
    }

    /// Whether the length of a step is known.
    pub open spec fn paced(&self) -> bool {
        finite64(self.steps_per_physical_second) && lt64(0, self.steps_per_physical_second)
    }

    /// Whether `w` is the wall clock that one more second of physical time takes.
    pub open spec fn takes<D: Fn(u64, u64) -> u64>(&self, divide: D, w: u64) -> bool {
        exists|f: u64| #[trigger] self.runs_at(divide, f) && Self::costs(f, divide, w)
    }

    /// Wall-clock seconds to advance one more second of physical time, by `divide`.
    pub fn wall_seconds_per_sim_second<D: Fn(u64, u64) -> u64>(&self, divide: &D) -> (w: u64)
        requires
            forall|a: u64, b: u64| #[trigger] divide.requires((a, b)),
        ensures
            self.takes(*divide, w),
    {
        let factor: u64 = self.realtime_factor(divide);
        cost_of(factor, divide)
    }

    /// Whether `t` is what this clock reads: its times as `duration` writes them, its
    /// rates as `digits` writes them with so many decimals.
    pub open spec fn reads<
        D: Fn(u64, u64) -> u64,
        T: Fn(u64) -> String,
        N: Fn(u64, usize) -> String,
    >(&self, divide: D, duration: T, digits: N, t: ClockDigits) -> bool {
        &&& self.runs_at(divide, t.factor)
        &&& Self::costs(t.factor, divide, t.cost_s)
        &&& duration.ensures((self.sim_time_s,), t.sim)
        &&& duration.ensures((self.wall_time_s,), t.wall)
        &&& match pace_form(t.factor) {
            Pace::Unknown => true,
            Pace::Multiple => digits.ensures((t.factor, 2), t.pace),
            Pace::Fraction => digits.ensures((t.cost_s, 0), t.pace) && duration.ensures(
                (t.cost_s,),
                t.cost,
            ),
        }
        &&& digits.ensures((self.steps_per_second, 0), t.steps_per_second)
        &&& digits.ensures((self.fps, 0), t.fps)
    }

    /// The status line made of what a clock reads.
    pub open spec fn line(&self, t: ClockDigits) -> Seq<char> {
        "sim "@ + t.sim@ + " | wall "@ + t.wall@ + " | "@ + pace_text(
            pace_form(t.factor),
            t.pace@,
            t.cost@,
        ) + " | "@ + t.steps_per_second@ + " steps/s | "@ + decimal(self.steps_per_frame as int)
            + " steps/frame | "@ + t.fps@ + " fps"@
    }

    /// One line for the status bar, with the "real-time" ambiguity resolved rather
    /// than left to the reader. `duration` writes seconds and `digits` a number with so
    /// many decimals.
    #[verifier::rlimit(40)]
    pub fn status_line<
        D: Fn(u64, u64) -> u64,
        T: Fn(u64) -> String,
        N: Fn(u64, usize) -> String,
    >(&self, divide: &D, duration: &T, digits: &N) -> (s: String)
        requires
            forall|a: u64, b: u64| #[trigger] divide.requires((a, b)),
            forall|a: u64| #[trigger] duration.requires((a,)),
            forall|a: u64, n: usize| #[trigger] digits.requires((a, n)),
        ensures
            exists|t: ClockDigits| #[trigger]
                self.reads(*divide, *duration, *digits, t) && s@ == self.line(t),
    {
        let factor: u64 = self.realtime_factor(divide);
        let cost_s: u64 = cost_of(factor, divide);
        let form: Pace = pace_of(factor);
        let t: ClockDigits = ClockDigits {
            factor,
            cost_s,
            sim: duration(self.sim_time_s),
            wall: duration(self.wall_time_s),
            pace: match form {
                Pace::Unknown => String::new(),
                Pace::Multiple => digits(factor, 2),
                Pace::Fraction => digits(cost_s, 0),
            },
            cost: match form {
                Pace::Fraction => duration(cost_s),
                _ => String::new(),
            },
            steps_per_second: digits(self.steps_per_second, 0),
            fps: digits(self.fps, 0),
        };
        assert(self.reads(*divide, *duration, *digits, t));
        let mut s: String = String::from_str("sim ");
        s.append(t.sim.as_str());
        s.append(" | wall ");
        s.append(t.wall.as_str());
        s.append(" | ");
        s.append(pace_words(form, t.pace.as_str(), t.cost.as_str()).as_str());
        s.append(" | ");
        s.append(t.steps_per_second.as_str());
        s.append(" steps/s | ");
        s.append(decimal_string(self.steps_per_frame as u64).as_str());
        s.append(" steps/frame | ");
        s.append(t.fps.as_str());
        s.append(" fps");
        assert(s@ == self.line(t));
        s
    }
}

fn cost_of<D: Fn(u64, u64) -> u64>(factor: u64, divide: &D) -> (w: u64)
    requires
        forall|a: u64, b: u64| #[trigger] divide.requires((a, b)),
    ensures
        Clock::costs(factor, *divide, w),
{
    if is_finite64(factor) && less64(0, factor) {
        divide(ONE64, factor)
    } else {
        NAN64
    }
}

/// Bit pattern of the shortest window, a millisecond.
pub const MIN_WINDOW_S: u64 = 0x3f50_624d_d2f1_a9fc;

/// Rolling wall-clock rate estimator.
///
/// Windowed rather than cumulative on purpose. A since-startup average is dominated by
/// the first few seconds and keeps reporting a rate the machine has not achieved for
/// minutes. A one-second window tracks what is happening now, which is what someone
/// dragging a slider is asking about.
#[derive(Clone, Copy, Debug, PartialEq, Eq, Structural)]
pub struct RateMeter {
    pub window_s: u64,
    pub elapsed_s: u64,
    pub count: u64,
    pub rate: u64,
}

impl Default for RateMeter {
    fn default() -> (m: Self)
        ensures
            m == (RateMeter { window_s: ONE64, elapsed_s: 0, count: 0, rate: 0 }),
    {
        RateMeter { window_s: ONE64, elapsed_s: 0, count: 0, rate: 0 }
    }
}

/// What a frame time adds to the window: nothing where it is negative or not a
/// number.
pub open spec fn forward(dt: u64) -> u64 {
    if lt64(0, dt) {
        dt
    } else {
        0
    }
}

impl RateMeter {
    /// A meter with a window of at least a millisecond.
    pub fn new(window_s: u64) -> (m: Self)
        ensures
            m == (RateMeter {
                window_s: if lt64(MIN_WINDOW_S, window_s) {
                    window_s
                } else {
                    MIN_WINDOW_S
                },
                elapsed_s: 0,
                count: 0,
                rate: 0,
            }),
    {
        RateMeter {
            window_s: if less64(MIN_WINDOW_S, window_s) {
                window_s
            } else {
                MIN_WINDOW_S
            },
            elapsed_s: 0,
            count: 0,
            rate: 0,
        }
    }

    /// Record `n` events over `dt` seconds, with sums by `plus` and quotients by
    /// `divide`. When the window is full the rate is taken and the window starts
    /// over.
    pub fn tick<P: Fn(u64, u64) -> u64, D: Fn(u64, u64) -> u64>(
        &mut self,
        n: u64,
        dt: u64,
        plus: &P,
        divide: &D,
    )
        requires
            forall|a: u64, b: u64| #[trigger] plus.requires((a, b)),
            forall|a: u64, b: u64| #[trigger] divide.requires((a, b)),
        ensures
            final(self).window_s == old(self).window_s,
            exists|count: u64, elapsed: u64| #[trigger]
                plus.ensures((old(self).count, n), count) && #[trigger] plus.ensures(
                    (old(self).elapsed_s, forward(dt)),
                    elapsed,
                ) && if le64(old(self).window_s, elapsed) {
                    &&& divide.ensures((count, elapsed), final(self).rate)
                    &&& final(self).count == 0
                    &&& final(self).elapsed_s == 0
                } else {
                    &&& final(self).rate == old(self).rate
                    &&& final(self).count == count
                    &&& final(self).elapsed_s == elapsed
                },
    {
        let count: u64 = plus(self.count, n);
        let step: u64 = if less64(0, dt) {
            dt
        } else {
            0
        };
        let elapsed: u64 = plus(self.elapsed_s, step);
        assert(plus.ensures((old(self).count, n), count));
        assert(plus.ensures((old(self).elapsed_s, forward(dt)), elapsed));
        self.count = count;
        self.elapsed_s = elapsed;
        if at_most64(self.window_s, elapsed) {
            self.rate = divide(count, elapsed);
            self.count = 0;
            self.elapsed_s = 0;
        }
    }

    /// Events per second over the last completed window. Zero until the first window
    /// closes, which is honest: nothing has been measured yet.
    pub fn rate(&self) -> (r: u64)
        ensures
            r == self.rate,
    {
        self.rate
    }
}

/// Whether quotients fall on the right side of one, as rounded ones do: one at least where
/// the numerator is the larger, one at most where it is the smaller.
pub open spec fn quotients_keep_to_their_side<D: Fn(u64, u64) -> u64>(divide: D) -> bool {
    forall|a: u64, b: u64, q: u64|
        #![trigger divide.ensures((a, b), q)]
        divide.ensures((a, b), q) && finite64(a) && finite64(b) && lt64(0, a) && lt64(0, b) ==> {
            &&& le64(0, q)
            &&& le64(b, a) ==> le64(ONE64, q)
            &&& le64(a, b) ==> le64(q, ONE64)
        }
}

/// A run reaches real time where it steps as often as a physical second has steps, and a
/// simulated second then costs a second at most; a run that steps less often never beats
/// real time, and a simulated second then costs a second at least.
pub proof fn the_pace_is_steps_over_steps<D: Fn(u64, u64) -> u64>(
    c: Clock,
    divide: D,
    factor: u64,
    cost: u64,
)
    requires
        quotients_keep_to_their_side(divide),
        c.runs_at(divide, factor),
        Clock::costs(factor, divide, cost),
        finite64(c.steps_per_second) && lt64(0, c.steps_per_second),
        finite64(c.steps_per_physical_second) && lt64(0, c.steps_per_physical_second),
        finite64(factor) && lt64(0, factor),
    ensures
        le64(c.steps_per_physical_second, c.steps_per_second) ==> pace_form(factor)
            == Pace::Multiple && le64(cost, ONE64),
        lt64(c.steps_per_second, c.steps_per_physical_second) ==> le64(factor, ONE64) && le64(
            ONE64,
            cost,
        ),
{
}

/// No pace is claimed of a run that has none: an unknown length of step, a standstill or no
/// number at all give no pace and no cost. Every other pace is written as a multiple from
/// real time on, and as a fraction below it.
pub proof fn no_pace_is_claimed_without_one<D: Fn(u64, u64) -> u64>(
    c: Clock,
    divide: D,
    factor: u64,
    cost: u64,
)
    requires
        c.runs_at(divide, factor),
        Clock::costs(factor, divide, cost),
    ensures
        !finite64(c.steps_per_physical_second) || le64(c.steps_per_physical_second, 0) ==> nan64(
            factor,
        ) && nan64(cost) && pace_form(factor) == Pace::Unknown,
        pace_form(factor) == Pace::Unknown ==> cost == NAN64,
        finite64(factor) && reaches(factor, 1, 1) && factor < 0x8000_0000_0000_0000 <==> pace_form(
            factor,
        ) == Pace::Multiple,
        finite64(factor) && size64(factor) > 0 && !reaches(factor, 1, 1) && factor
            < 0x8000_0000_0000_0000 <==> pace_form(factor) == Pace::Fraction,
{
    lemma_size_positive(factor);
    lemma_one(factor);
}

proof fn lemma_one(v: u64)
    ensures
        finite64(v) ==> (reaches(v, 1, 1) <==> v % 0x8000_0000_0000_0000 >= ONE64),
{
    if finite64(v) {
        assert(pow2(52) == 0x10_0000_0000_0000) by {
            vstd::arithmetic::power2::lemma2_to64();
            vstd::arithmetic::power2::lemma2_to64_rest();
        }
        lemma_reaches(ONE64, 1, 1, v);
    }
}

/// Time only adds to a window, and only where there is any.
pub proof fn time_only_runs_forward(dt: u64)
    ensures
        le64(0, forward(dt)),
        lt64(0, dt) ==> forward(dt) == dt,
        !lt64(0, dt) ==> forward(dt) == 0,
{
}

} // verus!
