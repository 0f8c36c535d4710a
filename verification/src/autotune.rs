//! Auto-tuning the number of solver steps per rendered frame.
//!
//! The app wants two things at once: the highest sim throughput the GPU can
//! deliver, and a UI that stays draggable. So: pick a frame-time budget, measure
//! the achieved frame time, and move the step count toward the budget, by a
//! clamped factor and outside a dead band only.
//!
//! The frame interval that is measured is the bill for a batch dispatched a
//! couple of frames earlier, because the swapchain lets the CPU run that far
//! ahead of the GPU. So the steps of the most recent frames are kept, and each
//! frame time is charged to the batch that caused it. Where the GPU's per-step
//! cost is known the tuner splits the budget instead of chasing it; the
//! multiplicative law remains the fallback.
//!
//! Numbers are bit patterns of `f32`; the four operations on them are handed in.
use std::collections::VecDeque;
use vstd::prelude::*;
use crate::config::ONE;
use crate::float_order::{
    abs32, clamp32, clamped32, finite32, greater32, is_finite32, le32, less32, lt32, magnitude32,
    max32, nan32,
};

verus! {

/// Tunable limits for [`StepAutoTuner`]. Floating-point limits are `f32` bits.
#[derive(Clone, Copy, Debug, PartialEq, Eq, Structural)]
pub struct AutoTuneConfig {
    /// Wall-clock budget for one whole frame, seconds.
    pub frame_budget_s: u32,
    pub min_steps: u32,
    pub max_steps: u32,
    /// Relative dead band around the budget. Inside it, do nothing.
    pub dead_band: u32,
    /// Largest multiplicative change per frame.
    pub max_ratio: u32,
    /// Exponential-smoothing weight for the frame-time estimate. Small enough
    /// that one hitched frame does not halve the step count.
    pub smoothing: u32,
    /// Frames between dispatching a batch and seeing its cost in the measured
    /// frame interval.
    pub latency_frames: u32,
    /// Smoothing weight for the overhead estimate when the step cost is known.
    pub overhead_smoothing: u32,
}

/// The limits of a fresh session.
pub open spec fn default_tuning() -> AutoTuneConfig {
    AutoTuneConfig {
        frame_budget_s: 0x3c88_8889,
        min_steps: 1,
        max_steps: 4096,
        dead_band: 0x3df5_c28f,
        max_ratio: 0x4000_0000,
        smoothing: 0x3e19_999a,
        latency_frames: 2,
        overhead_smoothing: 0x3e19_999a,
    }
}

impl Default for AutoTuneConfig {
    fn default() -> (c: Self)
        ensures
            c == default_tuning(),
    {
        AutoTuneConfig {
            frame_budget_s: 0x3c88_8889,
            min_steps: 1,
            max_steps: 4096,
            dead_band: 0x3df5_c28f,
            max_ratio: 0x4000_0000,
            smoothing: 0x3e19_999a,
            latency_frames: 2,
            overhead_smoothing: 0x3e19_999a,
        }
    }
}

/// How the step count follows from a frame.
#[derive(Clone, Copy, Debug, PartialEq, Eq, Structural)]
pub enum TunerLaw {
    /// The count stays: it is pinned by hand, or the frame ran nothing and says
    /// nothing. A paused frame is fast because it ran nothing; read as headroom,
    /// it would walk the count up.
    Keep,
    /// Split the budget: the frame is the bill for `billed` steps of known cost.
    Split { billed: u32, cost_s: u32 },
    /// Move the count by the ratio of budget to measured frame time.
    Multiply,
}

/// Bit patterns of the bounds: a frame takes a microsecond at least, a smoothing
/// weight is a hundredth at least, a budget is a tenth of a millisecond at least, and
/// nothing is divided by a count below a thousandth.
pub const SHORTEST_FRAME: u32 = 0x3586_37bd;

pub const LEAST_WEIGHT: u32 = 0x3c23_d70a;

pub const LEAST_BUDGET: u32 = 0x38d1_b717;

pub const LEAST_COUNT: u32 = 0x3a83_126f;

/// Bit patterns of `2.0f32` and `-1.0f32`.
pub const TWO: u32 = 0x4000_0000;

/// Bit pattern of negative zero, whose reciprocal is negative infinity.
pub const MINUS_ZERO: u32 = 0x8000_0000;

pub const MINUS_ONE: u32 = 0xbf80_0000;

/// The arithmetic of the laws, on bit patterns of `f32`.
pub struct Arithmetic<A, S, M, D, F, R> {
    pub plus: A,
    pub minus: S,
    pub times: M,
    pub divide: D,
    /// A count as a number.
    pub float: F,
    /// A number as a count, to the nearest.
    pub round: R,
}

/// The numbers one frame goes through in the tuner, in order.
pub struct Tuning {
    /// What a whole frame takes, smoothed.
    pub smoothed: u32,
    /// The limits of the count as numbers.
    pub least: u32,
    pub most: u32,
    /// What the batch that the frame is the bill for cost, and what was left.
    pub batch: u32,
    pub bill: u32,
    pub left: u32,
    /// Twice the budget, the most one frame's overhead counts for.
    pub ceiling: u32,
    pub overhead: u32,
    /// What the overhead leaves of the budget, and the steps that buys.
    pub room: u32,
    pub wanted: u32,
    /// What the count is to be multiplied by, and how far that is from one.
    pub ratio: u32,
    pub off: u32,
    /// The smallest factor of a frame.
    pub slowest: u32,
    pub moved: u32,
}

impl<
    A: Fn(u32, u32) -> u32,
    S: Fn(u32, u32) -> u32,
    M: Fn(u32, u32) -> u32,
    D: Fn(u32, u32) -> u32,
    F: Fn(u32) -> u32,
    R: Fn(u32) -> i64,
> Arithmetic<A, S, M, D, F, R> {
    /// Whether every operation can be called.
    pub open spec fn total(&self) -> bool {
        &&& forall|a: u32, b: u32| #[trigger] self.plus.requires((a, b))
        &&& forall|a: u32, b: u32| #[trigger] self.minus.requires((a, b))
        &&& forall|a: u32, b: u32| #[trigger] self.times.requires((a, b))
        &&& forall|a: u32, b: u32| #[trigger] self.divide.requires((a, b))
        &&& forall|a: u32| #[trigger] self.float.requires((a,))
        &&& forall|a: u32| #[trigger] self.round.requires((a,))
    }

    /// Whether `r` is the estimate `old` moved toward `x` by a weight.
    pub open spec fn smoothed(&self, old: u32, x: u32, weight: u32, r: u32) -> bool {
        exists|d: u32, m: u32| #[trigger]
            self.minus.ensures((x, old), d) && #[trigger] self.times.ensures((d, weight), m)
                && self.plus.ensures((old, m), r)
    }

    fn smooth(&self, old: u32, x: u32, weight: u32) -> (r: u32)
        requires
            self.total(),
        ensures
            self.smoothed(old, x, weight, r),
    {
        let minus = &self.minus;
        let times = &self.times;
        let plus = &self.plus;
        let d: u32 = minus(x, old);
        let m: u32 = times(d, weight);
        plus(old, m)
    }
}

/// Picks a steps-per-frame count that keeps the frame inside a time budget.
#[derive(Clone, Debug)]
pub struct StepAutoTuner {
    pub config: AutoTuneConfig,
    /// Off means the user pinned the count by hand.
    pub enabled: bool,
    /// The wanted count, a number between the limits.
    pub steps: u32,
    /// Smoothed whole-frame time, seconds.
    pub smoothed_frame_s: u32,
    /// The part of a frame the step count does not buy: render, metrics, the
    /// macroscopic pass, the UI. Estimated only when a step cost is supplied.
    pub overhead_s: Option<u32>,
    /// Steps actually run by the most recent frames, newest first, so each
    /// frame time is charged to the batch that caused it.
    pub recent: VecDeque<u32>,
}

/// The newest `n` entries of a newest-first list.
pub open spec fn latest(s: Seq<u32>, n: int) -> Seq<u32> {
    if s.len() <= n {
        s
    } else {
        s.take(n)
    }
}

/// The count the tuner starts from: the least there is, and one at least.
pub open spec fn first_count(config: AutoTuneConfig) -> u32 {
    if config.min_steps < 1 {
        1
    } else {
        config.min_steps
    }
}

impl AutoTuneConfig {
    /// Whether the limits of a frame's factor are in order: it lies between
    /// `1 / max_ratio` and `max_ratio`.
    pub open spec fn ordered(self) -> bool {
        ||| le32(ONE, self.max_ratio)
        ||| le32(MINUS_ONE, self.max_ratio) && lt32(self.max_ratio, 0)
        ||| self.max_ratio == MINUS_ZERO
    }

    /// The budget in force.
    pub open spec fn budget(self) -> u32 {
        greater32(self.frame_budget_s, LEAST_BUDGET)
    }
}

impl StepAutoTuner {
    /// The tuner at its start on a configuration.
    pub open spec fn fresh(&self, config: AutoTuneConfig) -> bool {
        &&& self.config == config
        &&& self.enabled
        &&& self.smoothed_frame_s == config.frame_budget_s
        &&& self.overhead_s is None
        &&& self.recent@.len() == 0
    }

    pub fn new<F: Fn(u32) -> u32>(config: AutoTuneConfig, float: &F) -> (t: Self)
        requires
            float.requires((first_count(config),)),
        ensures
            t.fresh(config),
            float.ensures((first_count(config),), t.steps),
    {
        let first: u32 = if config.min_steps < 1 {
            1
        } else {
            config.min_steps
        };
        StepAutoTuner {
            config,
            enabled: true,
            steps: float(first),
            smoothed_frame_s: config.frame_budget_s,
            overhead_s: None,
            recent: VecDeque::new(),
        }
    }

    /// A rounded step count held to the limits.
    pub open spec fn limited(&self, rounded: int) -> int {
        if rounded < self.config.min_steps {
            self.config.min_steps as int
        } else if rounded > self.config.max_steps {
            self.config.max_steps as int
        } else {
            rounded
        }
    }

    /// Whether `n` is the count to dispatch: the wanted one rounded, within the limits.
    pub open spec fn dispatches<R: Fn(u32) -> i64>(&self, round: R, n: u32) -> bool {
        exists|r: i64| #[trigger]
            round.ensures((self.steps,), r) && n == self.limited(r as int)
    }

    /// Steps to dispatch this frame.
    pub fn steps<R: Fn(u32) -> i64>(&self, round: &R) -> (n: u32)
        requires
            self.config.min_steps <= self.config.max_steps,
            round.requires((self.steps,)),
        ensures
            self.dispatches(*round, n),
            self.config.min_steps <= n <= self.config.max_steps,
    {
        let rounded: i64 = round(self.steps);
        if rounded < self.config.min_steps as i64 {
            self.config.min_steps
        } else if rounded > self.config.max_steps as i64 {
            self.config.max_steps
        } else {
            rounded as u32
        }
    }

    /// Smoothed whole-frame time, seconds.
    pub fn frame_time_s(&self) -> (s: u32)
        ensures
            s == self.smoothed_frame_s,
    {
        self.smoothed_frame_s
    }

    /// Pin the count by hand, which also turns auto-tuning off. Manual control
    /// exists because reproducing a bug sometimes needs a fixed step count.
    pub fn set_manual<F: Fn(u32) -> u32>(&mut self, steps: u32, float: &F)
        requires
            old(self).config.min_steps <= old(self).config.max_steps,
            forall|n: u32| #[trigger] float.requires((n,)),
        ensures
            *final(self) == (StepAutoTuner {
                enabled: false,
                steps: final(self).steps,
                ..*old(self)
            }),
            float.ensures((old(self).limited(steps as int) as u32,), final(self).steps),
    {
        self.enabled = false;
        let held: u32 = if steps < self.config.min_steps {
            self.config.min_steps
        } else if steps > self.config.max_steps {
            self.config.max_steps
        } else {
            steps
        };
        self.steps = float(held);
    }

    /// Which law a frame falls under, with the steps of the most recent frames on
    /// record.
    pub open spec fn law(&self, steps_run: u32, step_cost: Option<u32>, recent: Seq<u32>) -> TunerLaw {
        if !self.enabled {
            TunerLaw::Keep
        } else if step_cost matches Some(c) && finite32(c) && lt32(0, c) {
            TunerLaw::Split { billed: recent.last(), cost_s: step_cost->Some_0 }
        } else if steps_run == 0 {
            TunerLaw::Keep
        } else {
            TunerLaw::Multiply
        }
    }

    /// Take note of the steps the frame ran (zero while paused) and of the GPU
    /// cost of one step, where it is known, and say how the count follows.
    ///
    /// Until the pipeline has filled, a frame is billed for the oldest batch on
    /// record.
    pub fn record(&mut self, steps_run: u32, step_cost: Option<u32>) -> (law: TunerLaw)
        ensures
            *final(self) == (StepAutoTuner { recent: final(self).recent, ..*old(self) }),
            final(self).recent@ == latest(
                seq![steps_run] + old(self).recent@,
                old(self).config.latency_frames + 1,
            ),
            law == old(self).law(steps_run, step_cost, final(self).recent@),
    {
        self.recent.push_front(steps_run);
        let keep: u64 = self.config.latency_frames as u64 + 1;
        if self.recent.len() as u64 > keep {
            self.recent.truncate(keep as usize);
        }
        proof {
            assert(self.recent@ =~= latest(
                seq![steps_run] + old(self).recent@,
                old(self).config.latency_frames + 1,
            ));
        }
        let billed: u32 = self.recent[self.recent.len() - 1];
        if !self.enabled {
            return TunerLaw::Keep;
        }
        match step_cost {
            Some(c) => if is_finite32(c) && less32(0, c) {
                return TunerLaw::Split { billed, cost_s: c };
            },
            None => {},
        }
        if steps_run == 0 {
            TunerLaw::Keep
        } else {
            TunerLaw::Multiply
        }
    }

    /// Splitting the budget: what the frame took beyond the batch it is the bill for is
    /// overhead, and the steps that fit beside the overhead are asked for. A stall is
    /// not overhead the step count could make room for, so one hitched frame moves the
    /// estimate by a bounded amount.
    pub open spec fn splits<
        A: Fn(u32, u32) -> u32,
        S: Fn(u32, u32) -> u32,
        M: Fn(u32, u32) -> u32,
        D: Fn(u32, u32) -> u32,
        F: Fn(u32) -> u32,
        R: Fn(u32) -> i64,
    >(
        &self,
        a: &Arithmetic<A, S, M, D, F, R>,
        frame: u32,
        billed: u32,
        cost_s: u32,
        t: Tuning,
    ) -> bool {
        let budget = self.config.budget();
        let sample = clamped32(t.left, 0, t.ceiling);
        &&& a.float.ensures((billed,), t.batch)
        &&& a.times.ensures((t.batch, cost_s), t.bill)
        &&& a.minus.ensures((frame, t.bill), t.left)
        &&& a.times.ensures((TWO, budget), t.ceiling)
        &&& match self.overhead_s {
            Some(o) => a.smoothed(
                o,
                sample,
                clamped32(self.config.overhead_smoothing, LEAST_WEIGHT, ONE),
                t.overhead,
            ),
            None => t.overhead == sample,
        }
        &&& a.minus.ensures((budget, t.overhead), t.room)
        &&& a.divide.ensures((t.room, cost_s), t.wanted)
        &&& a.divide.ensures(
            (clamped32(t.wanted, t.least, t.most), greater32(self.steps, LEAST_COUNT)),
            t.ratio,
        )
    }

    /// The correction: the count moves by the ratio, held to a factor per frame, and
    /// only outside the dead band.
    pub open spec fn corrects<
        A: Fn(u32, u32) -> u32,
        S: Fn(u32, u32) -> u32,
        M: Fn(u32, u32) -> u32,
        D: Fn(u32, u32) -> u32,
        F: Fn(u32) -> u32,
        R: Fn(u32) -> i64,
    >(
        &self,
        a: &Arithmetic<A, S, M, D, F, R>,
        t: Tuning,
        steps: u32,
    ) -> bool {
        &&& a.minus.ensures((t.ratio, ONE), t.off)
        &&& if lt32(self.config.dead_band, magnitude32(t.off)) {
            &&& a.divide.ensures((ONE, self.config.max_ratio), t.slowest)
            &&& a.times.ensures(
                (self.steps, clamped32(t.ratio, t.slowest, self.config.max_ratio)),
                t.moved,
            )
            &&& steps == clamped32(t.moved, t.least, t.most)
        } else {
            steps == self.steps
        }
    }

    /// Whether `t` takes the tuner through a frame under a law to a ratio outside the
    /// dead band, so that a factor is used.
    pub open spec fn corrected<
        A: Fn(u32, u32) -> u32,
        S: Fn(u32, u32) -> u32,
        M: Fn(u32, u32) -> u32,
        D: Fn(u32, u32) -> u32,
        F: Fn(u32) -> u32,
        R: Fn(u32) -> i64,
    >(&self, a: &Arithmetic<A, S, M, D, F, R>, frame: u32, law: TunerLaw, t: Tuning) -> bool {
        &&& match law {
            TunerLaw::Keep => false,
            TunerLaw::Split { billed, cost_s } => {
                &&& a.float.ensures((self.config.min_steps,), t.least)
                &&& a.float.ensures((self.config.max_steps,), t.most)
                &&& self.splits(a, frame, billed, cost_s, t)
            },
            TunerLaw::Multiply => {
                &&& a.smoothed(
                    self.smoothed_frame_s,
                    frame,
                    clamped32(self.config.smoothing, LEAST_WEIGHT, ONE),
                    t.smoothed,
                )
                &&& a.divide.ensures(
                    (self.config.budget(), greater32(t.smoothed, SHORTEST_FRAME)),
                    t.ratio,
                )
            },
        }
        &&& a.minus.ensures((t.ratio, ONE), t.off)
        &&& lt32(self.config.dead_band, magnitude32(t.off))
    }

    /// The steps of the most recent frames, with one more.
    pub open spec fn with_frame(&self, steps_run: u32) -> Seq<u32> {
        latest(seq![steps_run] + self.recent@, self.config.latency_frames + 1)
    }

    /// Whether `t` takes the tuner through a frame under a law, to `after`.
    pub open spec fn tunes<
        A: Fn(u32, u32) -> u32,
        S: Fn(u32, u32) -> u32,
        M: Fn(u32, u32) -> u32,
        D: Fn(u32, u32) -> u32,
        F: Fn(u32) -> u32,
        R: Fn(u32) -> i64,
    >(
        &self,
        a: &Arithmetic<A, S, M, D, F, R>,
        frame: u32,
        law: TunerLaw,
        t: Tuning,
        after: StepAutoTuner,
    ) -> bool {
        let c = self.config;
        &&& a.smoothed(
            self.smoothed_frame_s,
            frame,
            clamped32(c.smoothing, LEAST_WEIGHT, ONE),
            t.smoothed,
        )
        &&& a.float.ensures((c.min_steps,), t.least)
        &&& a.float.ensures((c.max_steps,), t.most)
        &&& after.config == c
        &&& after.enabled == self.enabled
        &&& after.smoothed_frame_s == t.smoothed
        &&& match law {
            TunerLaw::Keep => after.steps == self.steps && after.overhead_s == self.overhead_s,
            TunerLaw::Split { billed, cost_s } => {
                &&& self.splits(a, frame, billed, cost_s, t)
                &&& after.overhead_s == Some(t.overhead)
                &&& self.corrects(a, t, after.steps)
            },
            TunerLaw::Multiply => {
                &&& a.divide.ensures(
                    (c.budget(), greater32(t.smoothed, SHORTEST_FRAME)),
                    t.ratio,
                )
                &&& after.overhead_s == self.overhead_s
                &&& self.corrects(a, t, after.steps)
            },
        }
    }

    fn split<
        A: Fn(u32, u32) -> u32,
        S: Fn(u32, u32) -> u32,
        M: Fn(u32, u32) -> u32,
        D: Fn(u32, u32) -> u32,
        F: Fn(u32) -> u32,
        R: Fn(u32) -> i64,
    >(
        &self,
        a: &Arithmetic<A, S, M, D, F, R>,
        frame: u32,
        billed: u32,
        cost_s: u32,
        limits: (u32, u32),
    ) -> (r: (u32, u32))
        requires
            a.total(),
        ensures
            exists|t: Tuning| #[trigger]
                self.splits(a, frame, billed, cost_s, t) && t.least == limits.0 && t.most
                    == limits.1 && t.overhead == r.0 && t.ratio == r.1,
    {
        let minus = &a.minus;
        let times = &a.times;
        let divide = &a.divide;
        let float = &a.float;
        let budget: u32 = max32(self.config.frame_budget_s, LEAST_BUDGET);
        let batch: u32 = float(billed);
        let bill: u32 = times(batch, cost_s);
        let left: u32 = minus(frame, bill);
        let ceiling: u32 = times(TWO, budget);
        let sample: u32 = clamp32(left, 0, ceiling);
        let overhead: u32 = match self.overhead_s {
            Some(o) => a.smooth(
                o,
                sample,
                clamp32(self.config.overhead_smoothing, LEAST_WEIGHT, ONE),
            ),
            None => sample,
        };
        let room: u32 = minus(budget, overhead);
        let wanted: u32 = divide(room, cost_s);
        let ratio: u32 = divide(
            clamp32(wanted, limits.0, limits.1),
            max32(self.steps, LEAST_COUNT),
        );
        proof {
            let t = Tuning {
                smoothed: 0,
                least: limits.0,
                most: limits.1,
                batch,
                bill,
                left,
                ceiling,
                overhead,
                room,
                wanted,
                ratio,
                off: 0,
                slowest: 0,
                moved: 0,
            };
            assert(self.splits(a, frame, billed, cost_s, t));
        }
        (overhead, ratio)
    }

    fn correct<
        A: Fn(u32, u32) -> u32,
        S: Fn(u32, u32) -> u32,
        M: Fn(u32, u32) -> u32,
        D: Fn(u32, u32) -> u32,
        F: Fn(u32) -> u32,
        R: Fn(u32) -> i64,
    >(
        &self,
        a: &Arithmetic<A, S, M, D, F, R>,
        ratio: u32,
        limits: (u32, u32),
    ) -> (steps: u32)
        requires
            a.total(),
        ensures
            exists|t: Tuning| #[trigger]
                self.corrects(a, t, steps) && t.least == limits.0 && t.most == limits.1 && t.ratio
                    == ratio,
    {
        let minus = &a.minus;
        let times = &a.times;
        let divide = &a.divide;
        let off: u32 = minus(ratio, ONE);
        let mut slowest: u32 = 0;
        let mut moved: u32 = 0;
        let steps: u32 = if less32(self.config.dead_band, abs32(off)) {
            slowest = divide(ONE, self.config.max_ratio);
            moved = times(self.steps, clamp32(ratio, slowest, self.config.max_ratio));
            clamp32(moved, limits.0, limits.1)
        } else {
            self.steps
        };
        proof {
            let t = Tuning {
                smoothed: 0,
                least: limits.0,
                most: limits.1,
                batch: 0,
                bill: 0,
                left: 0,
                ceiling: 0,
                overhead: 0,
                room: 0,
                wanted: 0,
                ratio,
                off,
                slowest,
                moved,
            };
            assert(self.corrects(a, t, steps));
        }
        steps
    }

    /// Feed in what the frame loop actually knows: the seconds the frame took, the
    /// steps it ran (zero while paused) and the GPU cost of one step, when timestamps
    /// provide it. Gives the count for the next frame.
    pub fn update_measured<
        A: Fn(u32, u32) -> u32,
        S: Fn(u32, u32) -> u32,
        M: Fn(u32, u32) -> u32,
        D: Fn(u32, u32) -> u32,
        F: Fn(u32) -> u32,
        R: Fn(u32) -> i64,
    >(
        &mut self,
        frame_s: u32,
        steps_run: u32,
        step_cost: Option<u32>,
        a: &Arithmetic<A, S, M, D, F, R>,
    ) -> (n: u32)
        requires
            old(self).config.min_steps <= old(self).config.max_steps,
            forall|t: Tuning| #[trigger]
                old(self).corrected(
                    a,
                    greater32(frame_s, SHORTEST_FRAME),
                    old(self).law(steps_run, step_cost, old(self).with_frame(steps_run)),
                    t,
                ) ==> old(self).config.ordered(),
            a.total(),
        ensures
            final(self).recent@ == old(self).with_frame(steps_run),
            exists|t: Tuning| #[trigger]
                old(self).tunes(
                    a,
                    greater32(frame_s, SHORTEST_FRAME),
                    old(self).law(steps_run, step_cost, final(self).recent@),
                    t,
                    *final(self),
                ),
            final(self).dispatches(a.round, n),
            final(self).config.min_steps <= n <= final(self).config.max_steps,
    {
        let frame: u32 = max32(frame_s, SHORTEST_FRAME);
        let law: TunerLaw = self.record(steps_run, step_cost);
        let ghost mid = *self;
        let weight: u32 = clamp32(self.config.smoothing, LEAST_WEIGHT, ONE);
        let smoothed: u32 = a.smooth(self.smoothed_frame_s, frame, weight);
        let float = &a.float;
        let divide = &a.divide;
        let least: u32 = float(self.config.min_steps);
        let most: u32 = float(self.config.max_steps);
        self.smoothed_frame_s = smoothed;
        let ghost mut seen = arbitrary::<Tuning>();
        match law {
            TunerLaw::Keep => {},
            TunerLaw::Split { billed, cost_s } => {
                let r: (u32, u32) = self.split(a, frame, billed, cost_s, (least, most));
                let ghost one = choose|t: Tuning| #[trigger]
                    self.splits(a, frame, billed, cost_s, t) && t.least == least && t.most == most
                        && t.overhead == r.0 && t.ratio == r.1;
                let steps: u32 = self.correct(a, r.1, (least, most));
                let ghost two = choose|t: Tuning| #[trigger]
                    self.corrects(a, t, steps) && t.least == least && t.most == most && t.ratio
                        == r.1;
                proof {
                    seen = Tuning { off: two.off, slowest: two.slowest, moved: two.moved, ..one };
                }
                self.overhead_s = Some(r.0);
                self.steps = steps;
            },
            TunerLaw::Multiply => {
                let budget: u32 = max32(self.config.frame_budget_s, LEAST_BUDGET);
                let ratio: u32 = divide(budget, max32(smoothed, SHORTEST_FRAME));
                let steps: u32 = self.correct(a, ratio, (least, most));
                proof {
                    seen = choose|t: Tuning| #[trigger]
                        self.corrects(a, t, steps) && t.least == least && t.most == most && t.ratio
                            == ratio;
                }
                self.steps = steps;
            },
        }
        proof {
            let t = Tuning { smoothed, least, most, ..seen };
            assert(old(self).tunes(a, frame, law, t, *self));
        }
        let round = &a.round;
        self.steps(round)
    }

    /// Feed in the seconds the frame just finished took and get the count for the next
    /// one. Assumes the frame ran the count asked for and that no step cost is known:
    /// the multiplicative law alone.
    pub fn update<
        A: Fn(u32, u32) -> u32,
        S: Fn(u32, u32) -> u32,
        M: Fn(u32, u32) -> u32,
        D: Fn(u32, u32) -> u32,
        F: Fn(u32) -> u32,
        R: Fn(u32) -> i64,
    >(&mut self, frame_s: u32, a: &Arithmetic<A, S, M, D, F, R>) -> (n: u32)
        requires
            old(self).config.min_steps <= old(self).config.max_steps,
            forall|n: u32, t: Tuning| #[trigger]
                old(self).dispatches(a.round, n) && #[trigger] old(self).corrected(
                    a,
                    greater32(frame_s, SHORTEST_FRAME),
                    old(self).law(n, None, old(self).with_frame(n)),
                    t,
                ) ==> old(self).config.ordered(),
            a.total(),
        ensures
            exists|steps_run: u32| #[trigger]
                old(self).dispatches(a.round, steps_run) && final(self).recent@ == old(
                    self,
                ).with_frame(steps_run) && exists|t: Tuning| #[trigger]
                    old(self).tunes(
                        a,
                        greater32(frame_s, SHORTEST_FRAME),
                        old(self).law(steps_run, None, final(self).recent@),
                        t,
                        *final(self),
                    ),
            final(self).dispatches(a.round, n),
            final(self).config.min_steps <= n <= final(self).config.max_steps,
    {
        let round = &a.round;
        let steps_run: u32 = self.steps(round);
        assert(self.dispatches(a.round, steps_run));
        self.update_measured(frame_s, steps_run, None, a)
    }

    /// Forget the history, e.g. after a resolution change makes every past
    /// measurement irrelevant.
    ///
    /// A pinned count survives: it is what the tuner was told, not something it
    /// learned.
    pub fn reset<F: Fn(u32) -> u32>(&mut self, float: &F)
        requires
            float.requires((first_count(old(self).config),)),
        ensures
            final(self).config == old(self).config,
            final(self).enabled == old(self).enabled,
            final(self).smoothed_frame_s == old(self).config.frame_budget_s,
            final(self).overhead_s is None,
            final(self).recent@.len() == 0,
            if old(self).enabled {
                float.ensures((first_count(old(self).config),), final(self).steps)
            } else {
                final(self).steps == old(self).steps
            },
    {
        if self.enabled {
            let first: u32 = if self.config.min_steps < 1 {
                1
            } else {
                self.config.min_steps
            };
            self.steps = float(first);
        }
        self.smoothed_frame_s = self.config.frame_budget_s;
        self.overhead_s = None;
        self.recent.clear();
    }
}

impl Default for StepAutoTuner {
    fn default() -> (t: Self)
        ensures
            t.fresh(default_tuning()),
            t.steps == ONE,
    {
        let config: AutoTuneConfig = AutoTuneConfig::default();
        StepAutoTuner {
            config,
            enabled: true,
            steps: ONE,
            smoothed_frame_s: config.frame_budget_s,
            overhead_s: None,
            recent: VecDeque::new(),
        }
    }
}

/// A frame is billed for the batch that was dispatched `latency` frames before
/// it, once that many have been recorded.
pub proof fn a_frame_is_billed_for_its_own_batch(before: Seq<u32>, steps_run: u32, latency: int)
    requires
        latency >= 0,
        before.len() == latency + 1 || before.len() == latency,
    ensures
        latest(seq![steps_run] + before, latency + 1).last() == (if latency == 0 {
            steps_run
        } else {
            before[latency - 1]
        }),
        latest(seq![steps_run] + before, latency + 1).len() == latency + 1,
{
}

/// Inside the dead band nothing changes, and outside it one frame moves the count by a
/// factor between `1 / max_ratio` and `max_ratio`, to between the limits, unless the
/// arithmetic gave no number.
pub proof fn one_frame_moves_the_count_by_a_bounded_factor<
    A: Fn(u32, u32) -> u32,
    S: Fn(u32, u32) -> u32,
    M: Fn(u32, u32) -> u32,
    D: Fn(u32, u32) -> u32,
    F: Fn(u32) -> u32,
    R: Fn(u32) -> i64,
>(
    before: StepAutoTuner,
    a: &Arithmetic<A, S, M, D, F, R>,
    frame: u32,
    law: TunerLaw,
    t: Tuning,
    after: StepAutoTuner,
)
    requires
        before.tunes(a, frame, law, t, after),
        le32(t.least, t.most),
        le32(t.slowest, before.config.max_ratio),
    ensures
        after.steps == before.steps || {
            let factor = clamped32(t.ratio, t.slowest, before.config.max_ratio);
            &&& lt32(before.config.dead_band, magnitude32(t.off))
            &&& nan32(factor) || (le32(t.slowest, factor) && le32(
                factor,
                before.config.max_ratio,
            ))
            &&& a.times.ensures((before.steps, factor), t.moved)
            &&& nan32(after.steps) || (le32(t.least, after.steps) && le32(after.steps, t.most))
        },
        law != TunerLaw::Keep && lt32(before.config.dead_band, magnitude32(t.off)) ==> {
            let factor = clamped32(t.ratio, t.slowest, before.config.max_ratio);
            &&& a.times.ensures((before.steps, factor), t.moved)
            &&& le32(t.least, t.moved) && le32(t.moved, t.most) ==> after.steps == t.moved
            &&& lt32(t.moved, t.least) ==> after.steps == t.least
            &&& lt32(t.most, t.moved) ==> after.steps == t.most
        },
        law != TunerLaw::Keep ==> a.minus.ensures((t.ratio, ONE), t.off),
{
}

/// A pinned count stays pinned: no frame moves it, and neither does a paused one where
/// the cost of a step is not known.
pub proof fn a_pinned_or_paused_count_stays<
    A: Fn(u32, u32) -> u32,
    S: Fn(u32, u32) -> u32,
    M: Fn(u32, u32) -> u32,
    D: Fn(u32, u32) -> u32,
    F: Fn(u32) -> u32,
    R: Fn(u32) -> i64,
>(
    before: StepAutoTuner,
    a: &Arithmetic<A, S, M, D, F, R>,
    frame: u32,
    steps_run: u32,
    recent: Seq<u32>,
    t: Tuning,
    after: StepAutoTuner,
)
    requires
        !before.enabled || steps_run == 0,
        before.tunes(a, frame, before.law(steps_run, None, recent), t, after),
    ensures
        after.steps == before.steps,
{
}

/// Whether quotients and products fall on the side of their operands that exact ones do, as
/// rounded ones do.
pub open spec fn keeps_to_its_side<
    A: Fn(u32, u32) -> u32,
    S: Fn(u32, u32) -> u32,
    M: Fn(u32, u32) -> u32,
    D: Fn(u32, u32) -> u32,
    F: Fn(u32) -> u32,
    R: Fn(u32) -> i64,
>(a: &Arithmetic<A, S, M, D, F, R>) -> bool {
    &&& forall|x: u32, y: u32, q: u32|
        #![trigger a.divide.ensures((x, y), q)]
        a.divide.ensures((x, y), q) && lt32(0, x) && lt32(0, y) ==> {
            &&& le32(x, y) ==> le32(q, ONE)
            &&& le32(y, x) ==> le32(ONE, q)
        }
    &&& forall|x: u32, y: u32, p: u32|
        #![trigger a.times.ensures((x, y), p)]
        a.times.ensures((x, y), p) && le32(0, x) ==> {
            &&& le32(y, ONE) ==> le32(p, x)
            &&& le32(ONE, y) ==> le32(x, p)
        }
}

/// A frame that takes longer than the budget never raises the count, beyond the least it
/// may be, and one that is done sooner never lowers it, below the most it may be.
#[verifier::spinoff_prover]
#[verifier::rlimit(60)]
pub proof fn the_count_follows_the_budget<
    A: Fn(u32, u32) -> u32,
    S: Fn(u32, u32) -> u32,
    M: Fn(u32, u32) -> u32,
    D: Fn(u32, u32) -> u32,
    F: Fn(u32) -> u32,
    R: Fn(u32) -> i64,
>(
    before: StepAutoTuner,
    a: &Arithmetic<A, S, M, D, F, R>,
    frame: u32,
    t: Tuning,
    after: StepAutoTuner,
)
    requires
        keeps_to_its_side(a),
        before.tunes(a, frame, TunerLaw::Multiply, t, after),
        le32(0, before.steps),
        le32(t.least, t.most),
        le32(t.slowest, ONE),
        le32(ONE, before.config.max_ratio),
        lt32(SHORTEST_FRAME, t.smoothed),
        lt32(LEAST_BUDGET, before.config.frame_budget_s),
    ensures
        le32(before.config.frame_budget_s, t.smoothed) ==> le32(after.steps, before.steps) || le32(
            after.steps,
            t.least,
        ),
        le32(t.smoothed, before.config.frame_budget_s) ==> le32(before.steps, after.steps) || le32(
            t.most,
            after.steps,
        ),
{
}

/// Where a step's cost is known, the count goes toward what the budget has room for: it
/// never rises where that is no more than the count, nor falls where it is no less.
#[verifier::spinoff_prover]
#[verifier::rlimit(60)]
pub proof fn the_count_goes_toward_what_there_is_room_for<
    A: Fn(u32, u32) -> u32,
    S: Fn(u32, u32) -> u32,
    M: Fn(u32, u32) -> u32,
    D: Fn(u32, u32) -> u32,
    F: Fn(u32) -> u32,
    R: Fn(u32) -> i64,
>(
    before: StepAutoTuner,
    a: &Arithmetic<A, S, M, D, F, R>,
    frame: u32,
    billed: u32,
    cost_s: u32,
    t: Tuning,
    after: StepAutoTuner,
)
    requires
        keeps_to_its_side(a),
        before.tunes(a, frame, TunerLaw::Split { billed, cost_s }, t, after),
        lt32(LEAST_COUNT, before.steps),
        lt32(0, t.least),
        le32(t.least, before.steps),
        le32(before.steps, t.most),
        le32(t.least, t.most),
        le32(t.slowest, ONE),
        le32(ONE, before.config.max_ratio),
    ensures
        le32(t.wanted, before.steps) ==> le32(after.steps, before.steps) || le32(
            after.steps,
            t.least,
        ),
        le32(before.steps, t.wanted) ==> le32(before.steps, after.steps) || le32(
            t.most,
            after.steps,
        ),
        a.divide.ensures((t.room, cost_s), t.wanted),
        after.overhead_s matches Some(o) && a.minus.ensures((before.config.budget(), o), t.room),
        before.overhead_s is None ==> (after.overhead_s matches Some(o) && (nan32(o) || le32(0, o)
            || !le32(0, t.ceiling))),
{
}

/// The budget in force is the configured one, unless that is too short to be kept or no
/// number; and the count starts from one at least.
pub proof fn there_is_always_a_budget(c: AutoTuneConfig)
    ensures
        le32(LEAST_BUDGET, c.budget()),
        lt32(LEAST_BUDGET, c.frame_budget_s) ==> c.budget() == c.frame_budget_s,
        !lt32(LEAST_BUDGET, c.frame_budget_s) ==> le32(c.budget(), LEAST_BUDGET),
        first_count(c) >= 1,
        first_count(c) >= c.min_steps,
        first_count(c) <= 1 || first_count(c) == c.min_steps,
{
}

/// A known, positive cost of a step is used wherever the tuner is on, for the batch at the
/// end of the record; without one a frame that ran steps is judged by its length alone.
pub proof fn a_known_cost_decides_the_law(
    t: StepAutoTuner,
    steps_run: u32,
    cost: u32,
    recent: Seq<u32>,
)
    requires
        t.enabled,
        recent.len() > 0,
    ensures
        0 < cost < 0x7f80_0000 ==> t.law(steps_run, Some(cost), recent) == (TunerLaw::Split {
            billed: recent[recent.len() - 1],
            cost_s: cost,
        }),
        cost == 0 || cost >= 0x7f80_0000 ==> t.law(steps_run, Some(cost), recent) == t.law(
            steps_run,
            None,
            recent,
        ),
        t.law(steps_run, None, recent) == (if steps_run == 0 {
            TunerLaw::Keep
        } else {
            TunerLaw::Multiply
        }),
{
}

/// What is dispatched is the wanted count, rounded, unless a limit is in the way.
pub proof fn the_wanted_count_is_dispatched<R: Fn(u32) -> i64>(t: StepAutoTuner, round: R, n: u32)
    requires
        t.dispatches(round, n),
        t.config.min_steps <= t.config.max_steps,
    ensures
        t.config.min_steps <= n <= t.config.max_steps,
        exists|r: i64| #[trigger]
            round.ensures((t.steps,), r) && (t.config.min_steps <= r <= t.config.max_steps ==> n
                == r) && (n < r ==> n == t.config.max_steps) && (n > r ==> n == t.config.min_steps),
{
    let r = choose|r: i64| #[trigger]
        round.ensures((t.steps,), r) && n == t.limited(r as int);
    assert(round.ensures((t.steps,), r));
}

} // verus!
