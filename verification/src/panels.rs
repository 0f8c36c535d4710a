//! What the widgets do.
//!
//! The widgets are drawn elsewhere; what a click, a typed number or a dragged handle
//! does to the UI state, and which actions it queues, is decided here.
//!
//! Two rules hold throughout:
//!
//! * **No modal dialogs.** Every destructive action takes effect immediately and
//!   announces itself.
//! * **No bare numbers.** Every measured scalar is written as
//!   [`crate::format::uncertain`] says, which alone knows how many digits an error bar
//!   justifies.
use vstd::prelude::*;
use vstd::string::StringExecFns;
use crate::autotune::StepAutoTuner;
use crate::config::Vec3;
use crate::float_order::{
    clamp32, clamped32, eq32, equal32, finite32, greater32, is_finite32, le32, less32, less64,
    lt32, lt64, magnitude32, max32, nan32,
};
use crate::format::{grouped, grouped_decimal, UnitSystem};
use crate::layers::{Layer, LayerId, LayerKind};
use crate::legend::{LegendRange, RangeScale, TransferFunction};
use crate::overlays::{GizmoSpace, Placement, SliceSettings, VentSettings};
use crate::params::SimParams;
use crate::pose::{lattice_axis, main_axis, DuctGeometry};
use crate::state::{is_outlet_of, the_outlet_is_another_mouth, UiAction, UiState};
use crate::text::{decimal, decimal_string};
use crate::view::{
    margins_equal, same_margins, PatchView, ReadingArithmetic, ResetCause, ResolutionEstimate,
    ResolutionPanel, MAX_MM, MIN_MM,
};

verus! {

/// What the widgets keep between frames.
#[derive(Clone, Debug)]
pub struct Scratch {
    pub baseline_label: String,
    /// Manual steps-per-frame, when the auto-tuner is off.
    pub manual_steps: i32,
    /// Curve point being dragged in the opacity editor, so a drag that leaves the
    /// point behind does not grab its neighbour.
    pub dragging_curve_point: Option<usize>,
    /// Last view preset applied, so the combo shows what was chosen rather than
    /// snapping back to the first entry on the next frame.
    pub view_preset: usize,
}

impl Default for Scratch {
    fn default() -> (s: Self)
        ensures
            s.baseline_label@ == ""@,
            s.manual_steps == 16,
            s.dragging_curve_point is None,
            s.view_preset == 0,
    {
        Scratch {
            baseline_label: String::from_str(""),
            manual_steps: 16,
            dragging_curve_point: None,
            view_preset: 0,
        }
    }
}

impl UiState {
    /// The play/pause button. Note what there is not: a Run button. The sim is always
    /// running; pause exists to freeze a transient for inspection.
    pub fn toggle_playing(&mut self)
        ensures
            final(self).queued(
                (UiState { playing: !old(self).playing, ..*old(self) }),
                seq![UiAction::SetPlaying(!old(self).playing)],
            ),
    {
        let playing: bool = !self.playing;
        self.playing = playing;
        self.push_action(UiAction::SetPlaying(playing));
    }

    /// The step button: one dispatch of the current steps per frame.
    pub fn step_once(&mut self, steps: u32)
        ensures
            final(self).queued(
                *old(self),
                seq![
                    UiAction::StepOnce(
                        if steps < 1 {
                            1
                        } else {
                            steps
                        },
                    ),
                ],
            ),
    {
        let n: u32 = if steps < 1 {
            1
        } else {
            steps
        };
        self.push_action(UiAction::StepOnce(n));
    }

    /// The field reset button. The statistics go with the field.
    pub fn reset_field(&mut self)
        ensures
            final(self).queued(
                (UiState { watcher: old(self).watcher.invalidated(), ..*old(self) }),
                seq![UiAction::ResetSolver],
            ),
    {
        self.push_action(UiAction::ResetSolver);
        self.invalidate_statistics();
    }

    /// The statistics reset button.
    pub fn reset_statistics(&mut self)
        ensures
            final(self).queued(
                (UiState { watcher: old(self).watcher.invalidated(), ..*old(self) }),
                seq![UiAction::ResetStatistics(ResetCause::Manual)],
            ),
    {
        self.invalidate_statistics();
        self.push_action(UiAction::ResetStatistics(ResetCause::Manual));
    }

    /// Whether the tuner is `before` with the count pinned at `n`, within the limits.
    pub open spec fn pinned<F: Fn(u32) -> u32>(&self, before: UiState, n: int, float: F) -> bool {
        &&& *self == (UiState { tuner: self.tuner, ..before })
        &&& self.tuner == (StepAutoTuner {
            enabled: false,
            steps: self.tuner.steps,
            ..before.tuner
        })
        &&& float.ensures((before.tuner.limited(n) as u32,), self.tuner.steps)
    }

    /// The checkbox that turns the auto-tuner on, or off with the count it had.
    pub fn set_auto_steps<F: Fn(u32) -> u32>(
        &mut self,
        auto: bool,
        steps: u32,
        scratch: &mut Scratch,
        float: &F,
    )
        requires
            old(self).tuner.config.min_steps <= old(self).tuner.config.max_steps,
            steps <= i32::MAX,
            forall|n: u32| #[trigger] float.requires((n,)),
        ensures
            auto ==> *final(self) == (UiState {
                tuner: StepAutoTuner { enabled: true, ..old(self).tuner },
                ..*old(self)
            }) && *final(scratch) == *old(scratch),
            !auto ==> final(self).pinned(*old(self), steps as int, *float) && *final(scratch) == (
            Scratch { manual_steps: steps as i32, ..*old(scratch) }),
    {
        if auto {
            self.tuner.enabled = true;
        } else {
            self.tuner.set_manual(steps, float);
            scratch.manual_steps = steps as i32;
        }
    }

    /// The manual step slider.
    pub fn pin_steps<F: Fn(u32) -> u32>(&mut self, n: i32, scratch: &mut Scratch, float: &F)
        requires
            old(self).tuner.config.min_steps <= old(self).tuner.config.max_steps,
            n >= 1,
            forall|n: u32| #[trigger] float.requires((n,)),
        ensures
            final(self).pinned(*old(self), n as int, *float),
            *final(scratch) == (Scratch { manual_steps: n, ..*old(scratch) }),
    {
        scratch.manual_steps = n;
        self.tuner.set_manual(n as u32, float);
    }

    /// The view combo: go to the chosen one of `presets` presets.
    pub fn choose_view(&mut self, scratch: &mut Scratch, chosen: usize, presets: usize)
        requires
            presets > 0,
        ensures
            *final(scratch) == (Scratch { view_preset: chosen, ..*old(scratch) }),
            final(self).queued(
                *old(self),
                seq![
                    UiAction::ApplyViewPreset(
                        if chosen < presets {
                            chosen
                        } else {
                            (presets - 1) as usize
                        },
                    ),
                ],
            ),
    {
        scratch.view_preset = chosen;
        let i: usize = if chosen < presets {
            chosen
        } else {
            presets - 1
        };
        self.push_action(UiAction::ApplyViewPreset(i));
    }

    /// The inlet velocity slider. It hot-applies; the statistics reset it causes is
    /// announced by [`UiState::sync_params`], so no path can forget it.
    pub fn set_inlet_velocity(&mut self, u: u32)
        ensures
            final(self).queued(
                (UiState {
                    params: SimParams { inlet_velocity_ms: u, ..old(self).params },
                    ..*old(self)
                }),
                seq![UiAction::SetInletVelocity(u)],
            ),
    {
        self.params.inlet_velocity_ms = u;
        self.push_action(UiAction::SetInletVelocity(u));
    }

    /// The units checkbox. Display only.
    pub fn set_imperial(&mut self, imperial: bool)
        ensures
            *final(self) == (UiState {
                units: if imperial {
                    UnitSystem::Imperial
                } else {
                    UnitSystem::Metric
                },
                ..*old(self)
            }),
    {
        self.units = if imperial {
            UnitSystem::Imperial
        } else {
            UnitSystem::Metric
        };
    }

    /// The label a baseline gets: what was typed, or the step where nothing but blanks
    /// was. `trimmed` is the typed label without the blanks around it.
    pub fn baseline_name(label: &str, trimmed: &str, step: u64) -> (s: String)
        ensures
            s@ == if trimmed@.len() == 0 {
                "step "@ + grouped_decimal(step as int)
            } else {
                label@
            },
    {
        if trimmed.is_empty() {
            let mut s: String = String::from_str("step ");
            s.append(grouped(step).as_str());
            s
        } else {
            String::from_str(label)
        }
    }

    /// The baseline button.
    pub fn press_baseline<
        H: Fn(u64, u64) -> u64,
        S: Fn(u64, u64) -> u64,
        M: Fn(u64, u64) -> u64,
        D: Fn(u64, u64) -> u64,
    >(
        &mut self,
        label: &str,
        step: u64,
        arithmetic: &ReadingArithmetic<H, S, M, D>,
    )
        requires
            old(self).wf(),
            old(self).toasts.countable("baseline"@),
            arithmetic.total(),
        ensures
            final(self).wf(),
            exists|mid: UiState| #[trigger]
                mid.saved(*old(self), label@, step, arithmetic) && final(self).queued(
                    mid,
                    seq![UiAction::SaveBaseline],
                ),
    {
        self.save_baseline(label, step, arithmetic);
        let ghost mid = *self;
        self.push_action(UiAction::SaveBaseline);
        assert(mid.saved(*old(self), label@, step, arithmetic));
    }

    /// The button that drops the baseline.
    pub fn press_clear_baseline(&mut self)
        ensures
            final(self).queued(
                (UiState { baseline: None, deltas: None, ..*old(self) }),
                seq![UiAction::ClearBaseline],
            ),
    {
        self.clear_baseline();
        self.push_action(UiAction::ClearBaseline);
    }
}

/// Whether a change can be applied.
#[derive(Clone, Copy, Debug, PartialEq, Eq, Structural)]
pub struct Gate {
    /// What is in the box is what the solver is running.
    pub unchanged: bool,
    /// It would not fit, or nobody has worked out yet whether it does.
    pub blocked: bool,
}

impl Gate {
    /// Whether Apply can be pressed.
    pub open spec fn is_open(self) -> bool {
        !self.unchanged && !self.blocked
    }

    /// Whether Apply can be pressed.
    pub fn open(self) -> (r: bool)
        ensures
            r == self.is_open(),
    {
        !self.unchanged && !self.blocked
    }
}

/// What stands beside an Apply button.
#[derive(Clone, Copy, Debug, PartialEq, Eq, Structural)]
pub enum CostLine {
    /// No estimate yet.
    Waiting,
    /// It would not fit; the estimate says why.
    WontFit,
    /// The cost, and whether there are warnings to show.
    Fits { warned: bool },
}

/// What stands beside an Apply button, from the estimate for what is in the box.
pub open spec fn cost_line_of(estimate: Option<ResolutionEstimate>, unchanged: bool) -> CostLine {
    match estimate {
        None => CostLine::Waiting,
        Some(e) => if !unchanged && e.blocker is Some {
            CostLine::WontFit
        } else {
            CostLine::Fits { warned: !unchanged && e.warnings@.len() > 0 }
        },
    }
}

/// What stands beside an Apply button, from the estimate for what is in the box.
pub fn cost_line(estimate: Option<&ResolutionEstimate>, unchanged: bool) -> (c: CostLine)
    ensures
        c == cost_line_of(
            match estimate {
                Some(e) => Some(*e),
                None => None,
            },
            unchanged,
        ),
{
    match estimate {
        None => CostLine::Waiting,
        Some(e) => {
            if !unchanged && e.blocker.is_some() {
                CostLine::WontFit
            } else {
                CostLine::Fits { warned: !unchanged && e.warnings.len() > 0 }
            }
        },
    }
}

impl ResolutionPanel {
    /// Which of the preset tiers is in the box, if one is.
    pub fn chosen_preset(&self) -> (r: Option<usize>)
        ensures
            match r {
                Some(i) => i < 5 && preset_mm(i as int) == self.pending_dx_mm,
                None => forall|i: int| 0 <= i < 5 ==> #[trigger] preset_mm(i) != self.pending_dx_mm,
            },
    {
        let presets: [u32; 5] = ResolutionPanel::presets_mm();
        let mut i: usize = 0;
        while i < 5
            invariant
                i <= 5,
                presets@ == seq![0x3f80_0000u32, 0x3f40_0000, 0x3f00_0000, 0x3ecc_cccd, 0x3e99_999a],
                forall|j: int| 0 <= j < i ==> #[trigger] preset_mm(j) != self.pending_dx_mm,
            decreases 5 - i,
        {
            assert(presets@[i as int] == preset_mm(i as int));
            if presets[i] == self.pending_dx_mm {
                return Some(i);
            }
            i += 1;
        }
        None
    }

    /// Put a preset tier in the box.
    pub fn choose_preset(&mut self, i: usize)
        requires
            i < 5,
        ensures
            *final(self) == (ResolutionPanel { pending_dx_mm: preset_mm(i as int), ..*old(self) }),
    {
        let presets: [u32; 5] = ResolutionPanel::presets_mm();
        assert(presets@[i as int] == preset_mm(i as int));
        self.pending_dx_mm = presets[i];
    }

    /// Put a typed cell size in the box, held to the sizes on offer. What is not a
    /// finite number is ignored.
    pub fn type_custom(&mut self, custom: u32)
        ensures
            *final(self) == (ResolutionPanel {
                pending_dx_mm: if finite32(custom) {
                    clamped32(custom, MIN_MM, MAX_MM)
                } else {
                    old(self).pending_dx_mm
                },
                ..*old(self)
            }),
    {
        if is_finite32(custom) {
            self.pending_dx_mm = clamp32(custom, MIN_MM, MAX_MM);
        }
    }
}

/// The preset cell sizes, mm.
pub open spec fn preset_mm(i: int) -> u32 {
    if i == 0 {
        0x3f80_0000
    } else if i == 1 {
        0x3f40_0000
    } else if i == 2 {
        0x3f00_0000
    } else if i == 3 {
        0x3ecc_cccd
    } else {
        0x3e99_999a
    }
}

/// Whether a change is blocked: the estimate says so, or there is none that
/// describes what is in the box.
pub open spec fn blocks(panel: ResolutionPanel, described: bool) -> bool {
    !described || panel.estimate->Some_0.blocker is Some
}

impl UiState {
    /// Whether the cell size in the box can be applied.
    pub open spec fn resolution_gate_of(&self) -> Gate {
        Gate {
            unchanged: self.resolution.pending_dx_mm == self.params.dx_mm,
            blocked: blocks(self.resolution, self.resolution.is_current()),
        }
    }

    /// Whether the cell size in the box can be applied. Blocked until the app has
    /// costed the value in the box, so a click can never race ahead of the check it is
    /// supposed to wait for.
    pub fn resolution_gate(&self) -> (g: Gate)
        ensures
            g == self.resolution_gate_of(),
    {
        Gate {
            unchanged: self.resolution.pending_dx_mm == self.params.dx_mm,
            blocked: match self.resolution.current_estimate() {
                Some(e) => e.blocker.is_some(),
                None => true,
            },
        }
    }

    /// The Apply button beside the cell size.
    ///
    /// Apply only *asks*: the app pre-flights the size before it writes the
    /// parameters, so a refused size never touches them, and never raises a
    /// statistics-reset toast for a change that did not happen.
    pub fn apply_resolution(&mut self)
        ensures
            old(self).resolution_gate_of().is_open() ==> final(self).queued(
                *old(self),
                seq![UiAction::SetResolution(old(self).resolution.pending_dx_mm)],
            ),
            !old(self).resolution_gate_of().is_open() ==> *final(self) == *old(self),
    {
        if self.resolution_gate().open() {
            let pending: u32 = self.resolution.pending_dx_mm;
            self.push_action(UiAction::SetResolution(pending));
        }
    }

    /// Type a box margin, held to two metres. What is not a finite number is ignored.
    pub fn type_margin(&mut self, face: usize, value: u32)
        requires
            face < 6,
        ensures
            final(self).pending_domain_mm@ == if finite32(value) {
                old(self).pending_domain_mm@.update(
                    face as int,
                    clamped32(value, 0, MAX_MARGIN_MM),
                )
            } else {
                old(self).pending_domain_mm@
            },
            *final(self) == (UiState {
                pending_domain_mm: final(self).pending_domain_mm,
                ..*old(self)
            }),
    {
        if is_finite32(value) {
            self.pending_domain_mm[face] = clamp32(value, 0, MAX_MARGIN_MM);
        }
    }

    /// Whether the margins in the box can be applied.
    pub open spec fn domain_gate_of(&self) -> Gate {
        Gate {
            unchanged: self.pending_domain_mm@ == self.domain_margins_mm@,
            blocked: blocks(
                self.resolution,
                self.resolution.is_current() && same_margins(
                    self.resolution.estimate->Some_0.domain_mm,
                    Some(self.pending_domain_mm),
                ),
            ),
        }
    }

    /// Whether the margins in the box can be applied.
    pub fn domain_gate(&self) -> (g: Gate)
        ensures
            g == self.domain_gate_of(),
    {
        Gate {
            unchanged: margins_equal(Some(self.pending_domain_mm), Some(self.domain_margins_mm)),
            blocked: match self.resolution.estimate_for(Some(self.pending_domain_mm)) {
                Some(e) => e.blocker.is_some(),
                None => true,
            },
        }
    }

    /// The Apply button under the margins.
    pub fn apply_domain(&mut self)
        ensures
            old(self).domain_gate_of().is_open() ==> final(self).queued(
                *old(self),
                seq![UiAction::SetDomainMargins(old(self).pending_domain_mm)],
            ),
            !old(self).domain_gate_of().is_open() ==> *final(self) == *old(self),
    {
        if self.domain_gate().open() {
            let pending: [u32; 6] = self.pending_domain_mm;
            self.push_action(UiAction::SetDomainMargins(pending));
        }
    }

    /// The button that goes back to the margins the domain rules pick, where the
    /// user's are in force.
    pub fn automatic_domain(&mut self)
        ensures
            old(self).params.domain_mm is Some ==> final(self).queued(
                *old(self),
                seq![UiAction::ResetDomainMargins],
            ),
            old(self).params.domain_mm is None ==> *final(self) == *old(self),
    {
        if self.params.domain_mm.is_some() {
            self.push_action(UiAction::ResetDomainMargins);
        }
    }
}

/// Bit pattern of the largest box margin, two metres.
pub const MAX_MARGIN_MM: u32 = 0x44fa_0000;

/// A size nobody has costed is never asked for, and neither is one that does not fit
/// or the one that is running.
pub proof fn only_costed_sizes_are_asked_for(s: UiState)
    requires
        s.resolution_gate_of().is_open(),
    ensures
        s.resolution.estimate matches Some(e) && e.dx_mm == s.resolution.pending_dx_mm
            && e.blocker is None,
        s.resolution.pending_dx_mm != s.params.dx_mm,
{
}

/// `n` over `d`, to the nearest integer, ties to the even one.
pub open spec fn nearest_even(n: int, d: int) -> int {
    let q = n / d;
    let r = n % d;
    if 2 * r < d || (2 * r == d && q % 2 == 0) {
        q
    } else {
        q + 1
    }
}

fn round_div(n: u128, d: u128) -> (q: u128)
    requires
        0 < d <= 0x1_0000_0000_0000_0000,
        n <= 0xffff_ffff_ffff_ffff_ffff,
    ensures
        q == nearest_even(n as int, d as int),
{
    let q: u128 = n / d;
    let r: u128 = n % d;
    assert(q <= n) by (nonlinear_arith)
        requires
            q == n as int / d as int,
            0 < d,
            0 <= n,
    ;
    assert(0 <= r < d);
    if 2 * r < d || (2 * r == d && q % 2 == 0) {
        q
    } else {
        q + 1
    }
}

/// The unit of the last place of a double that holds `n`.
pub open spec fn double_ulp(n: int, unit: int) -> int
    decreases (if unit >= 2048 {
        0
    } else {
        2048 - unit
    }),
{
    if unit < 1 || unit >= 2048 || n < 0x20_0000_0000_0000 * unit {
        unit
    } else {
        double_ulp(n, 2 * unit)
    }
}

/// The tenths of a gibibyte in `bytes`, as double-precision arithmetic rounds them:
/// the count to the nearest double, the quotient to the nearest tenth, ties to even
/// both times.
pub open spec fn tenths_of_gib(bytes: int) -> int {
    let unit = double_ulp(bytes, 1);
    nearest_even(10 * (nearest_even(bytes, unit) * unit), 0x4000_0000)
}

/// `bytes` in gibibytes with one decimal.
pub open spec fn gib_text(bytes: u64) -> Seq<char> {
    decimal(tenths_of_gib(bytes as int) / 10) + "."@ + decimal(tenths_of_gib(bytes as int) % 10)
        + " GiB"@
}

/// `bytes` in gibibytes with one decimal.
pub fn gib(bytes: u64) -> (s: String)
    ensures
        s@ == gib_text(bytes),
{
    let mut unit: u128 = 1;
    while unit < 2048 && bytes as u128 >= 0x20_0000_0000_0000 * unit
        invariant
            1 <= unit <= 2048,
            unit == 1 || unit == 2 || unit == 4 || unit == 8 || unit == 16 || unit == 32 || unit
                == 64 || unit == 128 || unit == 256 || unit == 512 || unit == 1024 || unit == 2048,
            double_ulp(bytes as int, 1) == double_ulp(bytes as int, unit as int),
        decreases 2048 - unit,
    {
        unit = 2 * unit;
    }
    let steps: u128 = round_div(bytes as u128, unit);
    assert(steps * unit <= bytes + unit) by (nonlinear_arith)
        requires
            unit >= 1,
            steps <= bytes as int / unit as int + 1,
            0 <= bytes,
    ;
    let tenths: u128 = round_div(10 * (steps * unit), 0x4000_0000);
    assert(tenths <= 0x28_0000_1000);
    let t: u64 = tenths as u64;
    let mut s: String = decimal_string(t / 10);
    s.append(".");
    s.append(decimal_string(t % 10).as_str());
    s.append(" GiB");
    s
}

/// The cost line beside Apply: size, memory, time. `megacells` and `time` are the
/// digits of the cells in millions and of the time per flow-through.
#[verifier::rlimit(40)]
pub fn resolution_summary(e: &ResolutionEstimate, megacells: &str, time: &str) -> (s: String)
    ensures
        s@ == megacells@ + " M cells | "@ + gib_text(e.vram_bytes) + (match e.budget_bytes {
            Some(b) => " of "@ + gib_text(b),
            None => ""@,
        }) + " | "@ + (match e.flow_through_s {
            Some(_) => time@ + " per flow-through"@,
            None => "speed unknown"@,
        }),
{
    let mut s: String = String::from_str(megacells);
    s.append(" M cells | ");
    s.append(gib(e.vram_bytes).as_str());
    let ghost head = s@;
    match e.budget_bytes {
        Some(b) => {
            s.append(" of ");
            s.append(gib(b).as_str());
            assert(s@ =~= head + (" of "@ + gib_text(b)));
        },
        None => {
            s.append("");
        },
    }
    s.append(" | ");
    let ghost head = s@;
    match e.flow_through_s {
        Some(_) => {
            s.append(time);
            s.append(" per flow-through");
            assert(s@ =~= head + (time@ + " per flow-through"@));
        },
        None => {
            s.append("speed unknown");
        },
    }
    s
}

/// The first line of the cost in full.
#[verifier::opaque]
pub open spec fn detail_cells(e: ResolutionEstimate, running: bool, dx: Seq<char>) -> Seq<char> {
    (if running {
        "running: "@
    } else {
        ""@
    }) + decimal(e.dims@[0] as int) + " x "@ + decimal(e.dims@[1] as int) + " x "@ + decimal(
        e.dims@[2] as int,
    ) + " = "@ + grouped_decimal(e.cells as int) + " cells at "@ + dx + " mm"@
}

/// The memory line of the cost in full.
#[verifier::opaque]
pub open spec fn detail_memory(e: ResolutionEstimate) -> Seq<char> {
    "\nGPU memory: "@ + gib_text(e.vram_bytes) + " for the lattice"@ + (match e.budget_bytes {
        Some(b) => ", of "@ + gib_text(b) + " the app allows itself"@,
        None => ""@,
    })
}

/// The speed line of the cost in full, from the steps per second, rounded.
#[verifier::opaque]
pub open spec fn detail_speed(e: ResolutionEstimate, rate: u64, time: Seq<char>) -> Seq<char> {
    (match e.steps_per_s {
        Some(_) => "\nabout "@ + grouped_decimal(rate as int) + " steps/s"@,
        None => "\nspeed unknown: nothing measured, and no bandwidth figure for this GPU"@,
    }) + (match e.flow_through_s {
        Some(_) => ", so "@ + time + " per flow-through"@,
        None => ""@,
    })
}

#[verifier::rlimit(40)]
fn push_detail_cells(e: &ResolutionEstimate, running: bool, dx: &str) -> (s: String)
    ensures
        s@ == detail_cells(*e, running, dx@),
{
    proof {
        reveal(detail_cells);
    }
    let mut s: String = String::from_str(
        if running {
            "running: "
        } else {
            ""
        },
    );
    s.append(decimal_string(e.dims[0] as u64).as_str());
    s.append(" x ");
    s.append(decimal_string(e.dims[1] as u64).as_str());
    s.append(" x ");
    s.append(decimal_string(e.dims[2] as u64).as_str());
    s.append(" = ");
    s.append(grouped(e.cells).as_str());
    s.append(" cells at ");
    s.append(dx);
    s.append(" mm");
    s
}

#[verifier::rlimit(40)]
fn push_detail_memory(s: &mut String, e: &ResolutionEstimate)
    ensures
        final(s)@ == old(s)@ + detail_memory(*e),
{
    proof {
        reveal(detail_memory);
    }
    s.append("\nGPU memory: ");
    s.append(gib(e.vram_bytes).as_str());
    s.append(" for the lattice");
    match e.budget_bytes {
        Some(b) => {
            s.append(", of ");
            s.append(gib(b).as_str());
            s.append(" the app allows itself");
        },
        None => {
            s.append("");
        },
    }
    assert(s@ =~= old(s)@ + detail_memory(*e));
}

#[verifier::rlimit(40)]
fn push_detail_speed(s: &mut String, e: &ResolutionEstimate, rate: u64, time: &str)
    ensures
        final(s)@ == old(s)@ + detail_speed(*e, rate, time@),
{
    proof {
        reveal(detail_speed);
    }
    match e.steps_per_s {
        Some(_) => {
            s.append("\nabout ");
            s.append(grouped(rate).as_str());
            s.append(" steps/s");
        },
        None => {
            s.append("\nspeed unknown: nothing measured, and no bandwidth figure for this GPU");
        },
    }
    match e.flow_through_s {
        Some(_) => {
            s.append(", so ");
            s.append(time);
            s.append(" per flow-through");
        },
        None => {
            s.append("");
        },
    }
    assert(s@ =~= old(s)@ + detail_speed(*e, rate, time@));
}

/// The cost in full, for the tooltip. `rate` is the steps per second, rounded, and
/// `dx`, `time` and `tau` are the digits of the cell size, of the time per
/// flow-through and of the relaxation time.
pub fn resolution_detail(
    e: &ResolutionEstimate,
    running: bool,
    rate: u64,
    dx: &str,
    time: &str,
    tau: &str,
) -> (s: String)
    ensures
        s@ == detail_cells(*e, running, dx@) + detail_memory(*e) + detail_speed(*e, rate, time@)
            + "\ntau = "@ + tau@,
{
    let mut s: String = push_detail_cells(e, running, dx);
    push_detail_memory(&mut s, e);
    push_detail_speed(&mut s, e, rate, time);
    s.append("\ntau = ");
    s.append(tau);
    s
}

/// The name of a mouth that has none: A, B, C or D.
pub open spec fn mouth_letter(i: int) -> Seq<char> {
    if i == 0 {
        "A"@
    } else if i == 1 {
        "B"@
    } else if i == 2 {
        "C"@
    } else {
        "D"@
    }
}

/// How many mouths the inlet control offers: up to four, none where there is no
/// choice.
pub open spec fn choices(mouths: int) -> int {
    if mouths < 2 {
        0
    } else if mouths > 4 {
        4
    } else {
        mouths
    }
}

impl UiState {
    /// How many mouths the inlet control offers.
    pub fn inlet_choices(&self) -> (n: usize)
        ensures
            n == choices(self.mouths@.len() as int),
    {
        let n: usize = self.mouths.len();
        if n < 2 {
            0
        } else if n > 4 {
            4
        } else {
            n
        }
    }

    /// The name of an offered mouth: its own, or its letter.
    pub fn mouth_name(&self, i: usize) -> (s: String)
        requires
            i < choices(self.mouths@.len() as int),
        ensures
            s@ == if self.mouths@[i as int].name@.len() == 0 {
                mouth_letter(i as int)
            } else {
                self.mouths@[i as int].name@
            },
    {
        if self.mouths[i].name.as_str().is_empty() {
            String::from_str(
                match i {
                    0 => "A",
                    1 => "B",
                    2 => "C",
                    _ => "D",
                },
            )
        } else {
            String::from_str(self.mouths[i].name.as_str())
        }
    }

    /// What a mouth is to the flow, in words.
    pub fn mouth_role(m: &PatchView) -> (s: &'static str)
        ensures
            s@ == if m.is_inlet {
                "supplying air"@
            } else if m.is_outlet {
                "the outflow face"@
            } else {
                "an open mouth"@
            },
    {
        if m.is_inlet {
            "supplying air"
        } else if m.is_outlet {
            "the outflow face"
        } else {
            "an open mouth"
        }
    }

    /// The inlet radio buttons.
    pub fn choose_inlet(&mut self, i: usize)
        ensures
            final(self).queued(
                (UiState {
                    params: SimParams { inlet_mouth: i, ..old(self).params },
                    ..*old(self)
                }),
                seq![UiAction::SetInletMouth(i)],
            ),
    {
        self.params.inlet_mouth = i;
        self.push_action(UiAction::SetInletMouth(i));
    }

    /// The swap button: blow the other way.
    pub fn press_swap(&mut self)
        ensures
            exists|outlet: Option<usize>|
                {
                    &&& #[trigger] is_outlet_of(
                        old(self).mouths@,
                        old(self).params.inlet_mouth,
                        old(self).params.outlet_mouth,
                        outlet,
                    )
                    &&& match outlet {
                        None => final(self).queued(*old(self), seq![UiAction::SwapInletOutlet]),
                        Some(o) => final(self).queued(
                            (UiState {
                                params: SimParams { inlet_mouth: o, ..old(self).params },
                                ..*old(self)
                            }),
                            seq![UiAction::SetInletMouth(o), UiAction::SwapInletOutlet],
                        ),
                    }
                },
    {
        self.swap_inlet_outlet();
        let ghost mid = *self;
        self.push_action(UiAction::SwapInletOutlet);
        proof {
            let outlet = choose|outlet: Option<usize>|
                {
                    &&& #[trigger] is_outlet_of(
                        old(self).mouths@,
                        old(self).params.inlet_mouth,
                        old(self).params.outlet_mouth,
                        outlet,
                    )
                    &&& match outlet {
                        None => mid == *old(self),
                        Some(o) => mid.queued(
                            (UiState {
                                params: SimParams { inlet_mouth: o, ..old(self).params },
                                ..*old(self)
                            }),
                            seq![UiAction::SetInletMouth(o)],
                        ),
                    }
                };
            if let Some(o) = outlet {
                assert(self.actions@ =~= old(self).actions@ + seq![
                    UiAction::SetInletMouth(o),
                    UiAction::SwapInletOutlet,
                ]);
            }
        }
    }

    /// The outlet radio buttons, offered where there is a third mouth: a mouth, or
    /// the largest that is not supplying air. The inlet cannot be chosen.
    pub fn choose_outlet(&mut self, outlet: Option<usize>)
        ensures
            *final(self) == if outlet == Some(old(self).params.inlet_mouth) {
                *old(self)
            } else {
                UiState {
                    params: SimParams { outlet_mouth: outlet, ..old(self).params },
                    ..*old(self)
                }
            },
    {
        match outlet {
            Some(o) => {
                if o == self.params.inlet_mouth {
                    return;
                }
            },
            None => {},
        }
        self.params.outlet_mouth = outlet;
    }
}

impl LayerKind {
    /// Whether the layer list offers to remove the layer.
    pub open spec fn removable(self) -> bool {
        self is Slice || self is Obstruction || self is Vent
    }

    /// Whether the layer list offers to remove the layer.
    pub fn is_removable(self) -> (r: bool)
        ensures
            r == self.removable(),
    {
        match self {
            LayerKind::Slice(_) => true,
            LayerKind::Obstruction(_) => true,
            LayerKind::Vent(_) => true,
            _ => false,
        }
    }

    /// Whether the layer honours an opacity of its own.
    pub fn has_opacity(self) -> (r: bool)
        ensures
            r == !(self is Volume),
    {
        match self {
            LayerKind::Volume => false,
            _ => true,
        }
    }
}

/// A list without its `i`-th entry, where it has one.
pub open spec fn dropped<T>(s: Seq<T>, i: int) -> Seq<T> {
    if 0 <= i < s.len() {
        s.remove(i)
    } else {
        s
    }
}

fn drop_entry<T>(v: &mut Vec<T>, i: usize)
    ensures
        final(v)@ == dropped(old(v)@, i as int),
{
    if i < v.len() {
        let _gone: T = v.remove(i);
    }
}

fn drop_payload(
    slices: &mut Vec<SliceSettings>,
    vents: &mut Vec<VentSettings>,
    actions: &mut Vec<UiAction>,
    kind: LayerKind,
)
    ensures
        final(slices)@ == (match kind {
            LayerKind::Slice(i) => dropped(old(slices)@, i as int),
            _ => old(slices)@,
        }),
        final(vents)@ == (match kind {
            LayerKind::Vent(i) => dropped(old(vents)@, i as int),
            _ => old(vents)@,
        }),
        final(actions)@ == (match kind {
            LayerKind::Slice(i) => old(actions)@.push(UiAction::RemoveSlice(i)),
            LayerKind::Obstruction(i) => old(actions)@.push(UiAction::RemoveObstruction(i)),
            _ => old(actions)@,
        }),
{
    match kind {
        LayerKind::Slice(i) => {
            drop_entry(slices, i);
            actions.push(UiAction::RemoveSlice(i));
        },
        LayerKind::Obstruction(i) => {
            actions.push(UiAction::RemoveObstruction(i));
        },
        // An edit of the vent list; the app rebuilds once it settles.
        LayerKind::Vent(i) => {
            drop_entry(vents, i);
        },
        _ => {},
    }
}

/// Whether `after` is `before` without the layer at `p` and what belongs to it.
pub open spec fn without_layer(before: UiState, after: UiState, p: int) -> bool {
    let gone = before.layers.layers@[p];
    &&& after.layers.next_id == before.layers.next_id
    &&& after.layers.layers@ == before.layers.layers@.remove(p).map_values(
        |k: Layer| Layer { kind: k.kind.without(gone.kind), ..k },
    )
    &&& after.slices@ == (match gone.kind {
        LayerKind::Slice(i) => dropped(before.slices@, i as int),
        _ => before.slices@,
    })
    &&& after.vents@ == (match gone.kind {
        LayerKind::Vent(i) => dropped(before.vents@, i as int),
        _ => before.vents@,
    })
    &&& after.actions@ == (match gone.kind {
        LayerKind::Slice(i) => before.actions@.push(UiAction::RemoveSlice(i)),
        LayerKind::Obstruction(i) => before.actions@.push(UiAction::RemoveObstruction(i)),
        _ => before.actions@,
    })
    &&& after == (UiState {
        layers: after.layers,
        slices: after.slices,
        vents: after.vents,
        actions: after.actions,
        ..before
    })
}

impl UiState {
    /// The remove button of a layer: the layer goes, and with it what it stands for.
    /// A slice or a vent leaves its list at once; an obstruction is the app's, which
    /// is asked to take it out.
    pub fn remove_layer(&mut self, id: LayerId)
        requires
            old(self).wf(),
        ensures
            final(self).wf(),
            !final(self).layers.holds(id),
            old(self).layers.holds(id) ==> exists|p: int|
                0 <= p < old(self).layers.layers@.len() && #[trigger] old(
                    self,
                ).layers.layers@[p].id == id && without_layer(*old(self), *final(self), p),
            !old(self).layers.holds(id) ==> *final(self) == (UiState {
                layers: final(self).layers,
                ..*old(self)
            }) && final(self).layers.layers@ == old(self).layers.layers@
                && final(self).layers.next_id == old(self).layers.next_id,
    {
        let ghost before = *self;
        let removed: Option<Layer> = self.layers.remove(id);
        match removed {
            None => {},
            Some(layer) => {
                let ghost p = choose|p: int|
                    0 <= p < before.layers.layers@.len() && #[trigger] before.layers.layers@[p]
                        == layer && self.layers.layers@ == before.layers.layers@.remove(
                        p,
                    ).map_values(|k: Layer| Layer { kind: k.kind.without(layer.kind), ..k });
                drop_payload(
                    &mut self.slices,
                    &mut self.vents,
                    &mut self.actions,
                    layer.kind,
                );
                proof {
                    assert(before.layers.layers@[p].id == id);
                    assert(without_layer(before, *self, p));
                }
            },
        }
    }

    /// The remove button of a probe.
    pub fn remove_probe(&mut self, id: u32)
        requires
            old(self).wf(),
        ensures
            final(self).wf(),
            !final(self).probes.holds(id),
            final(self).actions@ == old(self).actions@.push(UiAction::RemoveProbe(id)),
            *final(self) == (UiState {
                probes: final(self).probes,
                actions: final(self).actions,
                ..*old(self)
            }),
            old(self).probes.holds(id) ==> exists|p: int|
                0 <= p < old(self).probes.items@.len() && #[trigger] old(self).probes.items@[p].id
                    == id && final(self).probes.items@ == old(self).probes.items@.remove(p),
            !old(self).probes.holds(id) ==> final(self).probes.items@ == old(self).probes.items@,
    {
        let _removed: bool = self.probes.remove(id);
        self.push_action(UiAction::RemoveProbe(id));
        assert(self.actions@ =~= old(self).actions@.push(UiAction::RemoveProbe(id)));
    }
}

/// Every layer that stays still stands for the same slice or vent: taking one out
/// moves the entries behind it and the layers that name them together.
pub proof fn remaining_layers_keep_their_data(before: UiState, after: UiState, p: int, q: int)
    requires
        0 <= p < before.layers.layers@.len(),
        0 <= q < before.layers.layers@.len(),
        p != q,
        before.layers.layers@[p].kind != before.layers.layers@[q].kind,
        without_layer(before, after, p),
    ensures
        ({
            let old_kind = before.layers.layers@[q].kind;
            let kept = after.layers.layers@[if q < p {
                q
            } else {
                q - 1
            }];
            &&& kept.id == before.layers.layers@[q].id
            &&& old_kind matches LayerKind::Slice(j) ==> (j < before.slices@.len() ==> (kept.kind
                matches LayerKind::Slice(k) && k < after.slices@.len() && after.slices@[k as int]
                == before.slices@[j as int]))
            &&& old_kind matches LayerKind::Vent(j) ==> (j < before.vents@.len() ==> (kept.kind
                matches LayerKind::Vent(k) && k < after.vents@.len() && after.vents@[k as int]
                == before.vents@[j as int]))
        }),
{
    let rest = before.layers.layers@.remove(p);
    let at = if q < p {
        q
    } else {
        q - 1
    };
    assert(rest[at] == before.layers.layers@[q]);
}

/// A typed number held to a range; what is not finite leaves the old one.
pub open spec fn entered(old_value: u32, typed: u32, lo: u32, hi: u32) -> u32 {
    if finite32(typed) {
        clamped32(typed, lo, hi)
    } else {
        old_value
    }
}

fn enter(old_value: u32, typed: u32, lo: u32, hi: u32) -> (r: u32)
    ensures
        r == entered(old_value, typed, lo, hi),
{
    if is_finite32(typed) {
        clamp32(typed, lo, hi)
    } else {
        old_value
    }
}

/// Bit patterns of the smallest and the largest scale of a part, a tenth and ten.
pub const MIN_SCALE: u32 = 0x3dcc_cccd;

pub const MAX_SCALE: u32 = 0x4120_0000;

/// Bit patterns of the smallest and the largest side of a vent, mm: one and a
/// thousand.
pub const MIN_VENT_MM: u32 = 0x3f80_0000;

pub const MAX_VENT_MM: u32 = 0x447a_0000;

/// Bit pattern of the smallest scale of an obstruction, a thousandth.
pub const MIN_OBSTRUCTION_SCALE: u32 = 0x3a83_126f;

impl VentSettings {
    /// Type the width of the vent.
    pub fn type_width(&mut self, w: u32)
        ensures
            *final(self) == (VentSettings {
                width_mm: entered(old(self).width_mm, w, MIN_VENT_MM, MAX_VENT_MM),
                ..*old(self)
            }),
    {
        self.width_mm = enter(self.width_mm, w, MIN_VENT_MM, MAX_VENT_MM);
    }

    /// Type the height of the vent.
    pub fn type_height(&mut self, h: u32)
        ensures
            *final(self) == (VentSettings {
                height_mm: entered(old(self).height_mm, h, MIN_VENT_MM, MAX_VENT_MM),
                ..*old(self)
            }),
    {
        self.height_mm = enter(self.height_mm, h, MIN_VENT_MM, MAX_VENT_MM);
    }
}

/// Which curve point the remove button takes out: the one being dragged, or the
/// middle one of more than two.
pub fn curve_point_to_remove(scratch: &mut Scratch, points: usize) -> (i: Option<usize>)
    ensures
        i == match old(scratch).dragging_curve_point {
            Some(k) => Some(k),
            None => if points > 2 {
                Some((points / 2) as usize)
            } else {
                None
            },
        },
        *final(scratch) == (Scratch { dragging_curve_point: None, ..*old(scratch) }),
{
    match scratch.dragging_curve_point {
        Some(k) => {
            scratch.dragging_curve_point = None;
            Some(k)
        },
        None => {
            if points > 2 {
                Some(points / 2)
            } else {
                None
            }
        },
    }
}

impl UiState {
    /// Type the scale of the part itself.
    pub fn type_duct_scale(&mut self, scale: u32)
        ensures
            *final(self) == (UiState {
                duct: DuctGeometry {
                    scale: entered(old(self).duct.scale, scale, MIN_SCALE, MAX_SCALE),
                    ..old(self).duct
                },
                ..*old(self)
            }),
    {
        self.duct.scale = enter(self.duct.scale, scale, MIN_SCALE, MAX_SCALE);
    }

    /// Slide the scale of an obstruction.
    pub fn set_obstruction_scale(&mut self, i: usize, scale: u32)
        requires
            i < old(self).obstructions@.len(),
        ensures
            final(self).obstructions@ == old(self).obstructions@.update(
                i as int,
                Placement {
                    scale: greater32(scale, MIN_OBSTRUCTION_SCALE),
                    ..old(self).obstructions@[i as int]
                },
            ),
            *final(self) == (UiState { obstructions: final(self).obstructions, ..*old(self) }),
    {
        let mut p: Placement = self.obstructions[i];
        p.scale = max32(scale, MIN_OBSTRUCTION_SCALE);
        self.obstructions[i] = p;
    }

    /// The field combo.
    pub fn choose_field(&mut self, field: usize)
        ensures
            final(self).queued((UiState { field, ..*old(self) }), seq![UiAction::SetField(field)]),
    {
        self.field = field;
        self.push_action(UiAction::SetField(field));
    }

    /// The checkbox between world and local axes.
    pub fn set_world_axes(&mut self, world: bool)
        ensures
            *final(self) == (UiState {
                gizmo_space: if world {
                    GizmoSpace::World
                } else {
                    GizmoSpace::Local
                },
                ..*old(self)
            }),
    {
        self.gizmo_space = if world {
            GizmoSpace::World
        } else {
            GizmoSpace::Local
        };
    }

    /// The snap checkbox: half a millimetre and fifteen degrees, or neither.
    pub fn set_snap(&mut self, on: bool)
        ensures
            *final(self) == (UiState {
                gizmo_snap_mm: if on {
                    Some(0x3f00_0000)
                } else {
                    None
                },
                gizmo_snap_deg: if on {
                    Some(0x4170_0000)
                } else {
                    None
                },
                ..*old(self)
            }),
    {
        if on {
            self.gizmo_snap_mm = Some(0x3f00_0000);
            self.gizmo_snap_deg = Some(0x4170_0000);
        } else {
            self.gizmo_snap_mm = None;
            self.gizmo_snap_deg = None;
        }
    }

    /// The log-scale checkbox: the transfer function takes the scale and puts itself in
    /// order by its own `sanitise`, and the legend follows it.
    pub fn set_log_scale<S: Fn(TransferFunction) -> TransferFunction>(
        &mut self,
        log: bool,
        tf: &mut TransferFunction,
        sanitise: &S,
    )
        requires
            forall|t: TransferFunction| #[trigger] sanitise.requires((t,)),
        ensures
            sanitise.ensures(
                (TransferFunction {
                    scale: if log {
                        RangeScale::Log
                    } else {
                        RangeScale::Linear
                    },
                    ..*old(tf)
                },),
                *final(tf),
            ),
            (LegendRange { scale: final(tf).scale, ..old(self).legend }).sanitised(
                final(self).legend,
            ),
            *final(self) == (UiState { legend: final(self).legend, ..*old(self) }),
    {
        tf.scale = if log {
            RangeScale::Log
        } else {
            RangeScale::Linear
        };
        *tf = sanitise(*tf);
        self.legend.scale = tf.scale;
        self.legend.sanitise();
    }

    /// The symmetric checkbox: the transfer function takes the lock and puts itself in
    /// order by its own `sanitise`, and the legend takes the lock.
    pub fn set_symmetric<S: Fn(TransferFunction) -> TransferFunction>(
        &mut self,
        symmetric: bool,
        tf: &mut TransferFunction,
        sanitise: &S,
    )
        requires
            forall|t: TransferFunction| #[trigger] sanitise.requires((t,)),
        ensures
            sanitise.ensures(
                (TransferFunction { symmetric_lock: symmetric, ..*old(tf) },),
                *final(tf),
            ),
            *final(self) == (UiState {
                legend: LegendRange { symmetric, ..old(self).legend },
                ..*old(self)
            }),
    {
        tf.symmetric_lock = symmetric;
        *tf = sanitise(*tf);
        self.legend.symmetric = symmetric;
    }

    /// The visibility checkbox of a layer. One with nothing to draw cannot be clicked:
    /// a checkbox that silently does nothing is worse.
    pub fn check_visible(&mut self, id: LayerId, visible: bool)
        requires
            old(self).layers.wf(),
        ensures
            final(self).layers.wf(),
            final(self).layers.next_id == old(self).layers.next_id,
            final(self).layers.layers@ == old(self).layers.layers@.map_values(
                |l: Layer|
                    if l.id == id && l.enabled {
                        Layer { visible, ..l }
                    } else {
                        l
                    },
            ),
            *final(self) == (UiState { layers: final(self).layers, ..*old(self) }),
    {
        let enabled: bool = match self.layers.get(id) {
            Some(l) => l.enabled,
            None => false,
        };
        if enabled {
            self.layers.set_visible(id, visible);
        }
        proof {
            assert(self.layers.layers@ =~= old(self).layers.layers@.map_values(
                |l: Layer|
                    if l.id == id && l.enabled {
                        Layer { visible, ..l }
                    } else {
                        l
                    },
            ));
        }
    }

    /// The legend's auto button and the double click on its bar: fit the bar to the
    /// measured extremes, where the app knows them, and ask the app to. Returns
    /// whether the bar moved.
    pub fn auto_legend(&mut self, extremes: Option<(u32, u32)>) -> (moved: bool)
        ensures
            final(self).actions@ == old(self).actions@.push(UiAction::AutoRangeLegend),
            *final(self) == (UiState {
                legend: final(self).legend,
                actions: final(self).actions,
                ..*old(self)
            }),
            old(self).legend.locked || extremes is None ==> !moved && final(self).legend == old(
                self,
            ).legend,
            extremes matches Some(e) ==> {
                &&& !old(self).legend.rangeable(e.0, e.1) ==> !moved && final(self).legend == old(
                    self,
                ).legend
                &&& old(self).legend.rangeable(e.0, e.1) ==> {
                    &&& exists|lo: u32, hi: u32| #[trigger]
                        LegendRange::padded(e.0, e.1, lo, hi) && (LegendRange {
                            lo,
                            hi,
                            ..old(self).legend
                        }).centred().sanitised(final(self).legend)
                    &&& moved == final(self).legend.moved(old(self).legend)
                }
            },
    {
        let moved: bool = match extremes {
            Some(e) => self.legend.auto_range(e.0, e.1),
            None => false,
        };
        self.actions.push(UiAction::AutoRangeLegend);
        moved
    }

    /// Type the ends of the range. A locked legend refuses. Returns whether it took
    /// them.
    pub fn edit_range(&mut self, lo: u32, hi: u32) -> (taken: bool)
        ensures
            taken == !old(self).legend.locked,
            !taken ==> *final(self) == *old(self),
            taken ==> {
                &&& (LegendRange { lo, hi, ..old(self).legend }).sanitised(final(self).legend)
                &&& *final(self) == (UiState { legend: final(self).legend, ..*old(self) })
            },
    {
        if self.legend.locked {
            return false;
        }
        self.legend.lo = lo;
        self.legend.hi = hi;
        self.legend.sanitise();
        true
    }

    /// Whether the louver is what aims the air: with any vent present the vents
    /// supply it, and the mouth is an opening.
    pub fn louver_aims(&self) -> (r: bool)
        ensures
            r == (self.vents@.len() == 0),
    {
        self.vents.len() == 0
    }

    /// Whether the inlet air is tilted at all.
    pub fn is_tilted(&self) -> (r: bool)
        ensures
            r == !(eq32(self.params.inlet_tilt_deg@[0], 0) && eq32(
                self.params.inlet_tilt_deg@[1],
                0,
            )),
    {
        !(equal32(self.params.inlet_tilt_deg[0], 0) && equal32(self.params.inlet_tilt_deg[1], 0))
    }

    /// Whether the arrow of the inlet air is drawn: only while a tilt is set and the
    /// mouth is what supplies the air. At zero it would restate the mouth normal.
    pub fn shows_inlet_arrow(&self) -> (r: bool)
        ensures
            r == (self.params.inlet_mouth < self.mouths@.len() && self.vents@.len() == 0 && !(
            eq32(self.params.inlet_tilt_deg@[0], 0) && eq32(self.params.inlet_tilt_deg@[1], 0))),
    {
        self.params.inlet_mouth < self.mouths.len() && self.louver_aims() && self.is_tilted()
    }
}

/// The face of the box that a mouth's outside air is on. The normal points into the
/// duct, so the outside is on the lower side when it is positive.
pub open spec fn outside_face(n: Vec3, axis: int) -> int {
    2 * axis + if lt32(n.axis(axis), 0) {
        1int
    } else {
        0int
    }
}

fn face_of(n: Vec3) -> (k: usize)
    ensures
        exists|axis: int| #[trigger] main_axis(n, axis) && k == outside_face(n, axis),
        k < 6,
{
    let axis: usize = lattice_axis(n);
    let v: u32 = n.get(axis);
    let k: usize = if less32(v, 0) {
        2 * axis + 1
    } else {
        2 * axis
    };
    assert(main_axis(n, axis as int) && k == outside_face(n, axis as int));
    k
}

/// Whether the role of face `k` is this mouth's.
pub open spec fn faces(m: PatchView, k: int) -> bool {
    exists|axis: int| #[trigger] main_axis(m.normal, axis) && k == outside_face(m.normal, axis)
}

/// The text of a face's role.
pub open spec fn role_text(what: Seq<char>, m: PatchView) -> Seq<char> {
    what + " "@ + m.name@
}

/// Whether `role` is the role of face `k`: the outlet's where it is the outlet's
/// face, else the inlet's where it is the inlet's.
pub open spec fn role_is(
    inlet: Option<PatchView>,
    outlet: Option<PatchView>,
    k: int,
    role: Option<String>,
) -> bool {
    if outlet matches Some(m) && faces(m, k) {
        role matches Some(r) && r@ == role_text("past outlet"@, outlet->Some_0)
    } else if inlet matches Some(m) && faces(m, k) {
        role matches Some(r) && r@ == role_text("behind inlet"@, inlet->Some_0)
    } else {
        role is None
    }
}

proof fn lemma_one_main_axis(n: Vec3, a: int, b: int)
    requires
        main_axis(n, a),
        main_axis(n, b),
    ensures
        a == b,
{
    assert(magnitude32(n.axis(a)) <= magnitude32(n.axis(b)));
    assert(magnitude32(n.axis(b)) <= magnitude32(n.axis(a)));
}

fn role(what: &str, m: &PatchView) -> (s: String)
    ensures
        s@ == role_text(what@, *m),
{
    let mut s: String = String::from_str(what);
    s.append(" ");
    s.append(m.name.as_str());
    s
}

impl UiState {
    /// The mouth that supplies the air, if it is one of those detected.
    pub open spec fn inlet_patch(&self) -> Option<PatchView> {
        if self.params.inlet_mouth < self.mouths@.len() {
            Some(self.mouths@[self.params.inlet_mouth as int])
        } else {
            None
        }
    }

    /// What each face of the box is to the flow, from the mouths' normals: the face
    /// the inlet mouth's outside air is on, and the one the outlet exhausts through.
    /// Indexed `[-x, +x, -y, +y, -z, +z]`.
    pub fn face_roles(&self) -> (roles: Vec<Option<String>>)
        ensures
            roles@.len() == 6,
            exists|outlet: Option<usize>|
                {
                    &&& #[trigger] is_outlet_of(
                        self.mouths@,
                        self.params.inlet_mouth,
                        self.params.outlet_mouth,
                        outlet,
                    )
                    &&& forall|k: int|
                        0 <= k < 6 ==> role_is(
                            self.inlet_patch(),
                            match outlet {
                                Some(o) => Some(self.mouths@[o as int]),
                                None => None,
                            },
                            k,
                            #[trigger] roles@[k],
                        )
                },
    {
        let mut roles: Vec<Option<String>> = Vec::new();
        roles.push(None);
        roles.push(None);
        roles.push(None);
        roles.push(None);
        roles.push(None);
        roles.push(None);
        let i: usize = self.params.inlet_mouth;
        if i < self.mouths.len() {
            let m: &PatchView = &self.mouths[i];
            let k: usize = face_of(m.normal);
            roles[k] = Some(role("behind inlet", m));
            proof {
                assert forall|j: int| faces(*m, j) implies j == k by {
                    let a = choose|a: int| #[trigger]
                        main_axis(m.normal, a) && j == outside_face(m.normal, a);
                    let b = choose|b: int| #[trigger]
                        main_axis(m.normal, b) && k == outside_face(m.normal, b);
                    lemma_one_main_axis(m.normal, a, b);
                }
                assert(faces(*m, k as int));
            }
        }
        let ghost inner = roles@;
        assert forall|k: int| 0 <= k < 6 implies role_is(
            self.inlet_patch(),
            None,
            k,
            #[trigger] roles@[k],
        ) by {}
        let outlet: Option<usize> = self.outlet_mouth();
        match outlet {
            Some(o) => {
                proof {
                    the_outlet_is_another_mouth(
                        self.mouths@,
                        self.params.inlet_mouth,
                        self.params.outlet_mouth,
                        outlet,
                    );
                }
                let m: &PatchView = &self.mouths[o];
                let k: usize = face_of(m.normal);
                roles[k] = Some(role("past outlet", m));
                proof {
                    assert forall|j: int| faces(*m, j) implies j == k by {
                        let a = choose|a: int| #[trigger]
                            main_axis(m.normal, a) && j == outside_face(m.normal, a);
                        let b = choose|b: int| #[trigger]
                            main_axis(m.normal, b) && k == outside_face(m.normal, b);
                        lemma_one_main_axis(m.normal, a, b);
                    }
                    assert(faces(*m, k as int));
                    assert forall|j: int| 0 <= j < 6 implies role_is(
                        self.inlet_patch(),
                        Some(*m),
                        j,
                        #[trigger] roles@[j],
                    ) by {
                        if j != k {
                            assert(roles@[j] == inner[j]);
                            assert(role_is(self.inlet_patch(), None, j, inner[j]));
                        }
                    }
                }
            },
            None => {},
        }
        assert(is_outlet_of(
            self.mouths@,
            self.params.inlet_mouth,
            self.params.outlet_mouth,
            outlet,
        ));
        roles
    }
}

/// Bit pattern of the lattice speed above which the weakly compressible scheme's error is
/// worth a warning, 0.1.
pub const COMPRESSIBLE: u64 = 0x3fb9_9999_9999_999a;

/// The warning under a tilted inlet, where its lattice speed is too high. `digits` is the
/// speed, written out.
pub fn compressibility_warning(lattice_speed: u64, digits: &str) -> (w: Option<String>)
    ensures
        w is Some <==> lt64(COMPRESSIBLE, lattice_speed),
        w matches Some(s) ==> s@ == "lattice speed "@ + digits@
            + ": compressibility error rising"@,
{
    if !less64(COMPRESSIBLE, lattice_speed) {
        return None;
    }
    let mut s: String = String::from_str("lattice speed ");
    s.append(digits);
    s.append(": compressibility error rising");
    Some(s)
}

/// The line beside an Apply button waits for an estimate, speaks of a blocker or of warnings
/// only where there is something to apply, and otherwise gives the cost.
pub proof fn the_cost_line_tells_of_the_estimate(e: ResolutionEstimate, unchanged: bool)
    ensures
        cost_line_of(None, unchanged) == CostLine::Waiting,
        cost_line_of(Some(e), true) == (CostLine::Fits { warned: false }),
        e.blocker is Some ==> cost_line_of(Some(e), false) == CostLine::WontFit,
        e.blocker is None ==> cost_line_of(Some(e), false) == (CostLine::Fits {
            warned: e.warnings@.len() != 0,
        }),
{
}

/// The presets go from a millimetre down, each finer than the one before it.
pub proof fn presets_get_finer(i: int)
    requires
        0 <= i < 4,
    ensures
        preset_mm(0) == 0x3f80_0000,
        0 < preset_mm(i + 1) < preset_mm(i),
        4 * preset_mm(4) > 3 * preset_mm(0),
{
}

/// Margins are asked for only where they differ from those in force and the estimate is for
/// them, at the cell size in the box, and finds nothing in the way; and then they are.
pub proof fn only_costed_margins_are_asked_for(s: UiState)
    ensures
        s.domain_gate_of().is_open() <==> {
            &&& s.pending_domain_mm@ != s.domain_margins_mm@
            &&& s.resolution.estimate is Some
            &&& s.resolution.estimate->Some_0.dx_mm == s.resolution.pending_dx_mm
            &&& s.resolution.estimate->Some_0.blocker is None
            &&& s.resolution.estimate->Some_0.domain_mm is Some
            &&& s.resolution.estimate->Some_0.domain_mm->Some_0@ == s.pending_domain_mm@
        },
        s.resolution_gate_of().is_open() <==> {
            &&& s.resolution.pending_dx_mm != s.params.dx_mm
            &&& s.resolution.estimate is Some
            &&& s.resolution.estimate->Some_0.dx_mm == s.resolution.pending_dx_mm
            &&& s.resolution.estimate->Some_0.blocker is None
        },
{
}

/// Rounding to the nearest is off by half at most, and by half only to an even number.
pub proof fn rounding_is_off_by_half_at_most(n: int, d: int)
    requires
        n >= 0,
        d > 0,
    ensures
        -d <= 2 * (nearest_even(n, d) * d - n) <= d,
        2 * (nearest_even(n, d) * d - n) == d || 2 * (nearest_even(n, d) * d - n) == -d
            ==> nearest_even(n, d) % 2 == 0,
{
    let q = n / d;
    vstd::arithmetic::div_mod::lemma_fundamental_div_mod(n, d);
    assert(d * q == q * d && (q + 1) * d == q * d + d) by (nonlinear_arith);
}

proof fn lemma_double_ulp(n: int, unit: int)
    requires
        unit >= 1,
        n < 0x20_0000_0000_0000 * unit,
    ensures
        double_ulp(n, unit) == unit,
{
}

/// A size in gibibytes is told to the nearest tenth, as long as it is a whole number of
/// bytes to double precision.
pub proof fn gibibytes_are_told_to_the_nearest_tenth(bytes: int)
    requires
        0 <= bytes < 0x20_0000_0000_0000,
    ensures
        -0x4000_0000 <= 2 * (tenths_of_gib(bytes) * 0x4000_0000 - 10 * bytes) <= 0x4000_0000,
{
    lemma_double_ulp(bytes, 1);
    assert(nearest_even(bytes, 1) == bytes);
    rounding_is_off_by_half_at_most(10 * bytes, 0x4000_0000);
}

/// The inlet is offered where there is a choice, of four mouths at most, each under its own
/// letter.
pub proof fn a_choice_of_mouths_is_offered(mouths: int, i: int, j: int)
    requires
        mouths >= 0,
    ensures
        mouths < 2 ==> choices(mouths) == 0,
        mouths >= 2 ==> 2 <= choices(mouths) <= 4,
        choices(mouths) <= mouths,
        mouths >= 2 ==> choices(mouths) == mouths || choices(mouths) == 4,
        0 <= i < j < choices(mouths) ==> mouth_letter(i) != mouth_letter(j),
        0 <= i < choices(mouths) ==> mouth_letter(i).len() == 1 && mouth_letter(i)[0] as int
            == 'A' as int + i,
{
    reveal_strlit("A");
    reveal_strlit("B");
    reveal_strlit("C");
    reveal_strlit("D");
    if 0 <= j < choices(mouths) {
        assert(mouth_letter(j)[0] as int == 'A' as int + j);
    }
}

/// What can be removed is what was added: a slice, an obstruction or a vent, never the duct
/// or what is drawn of the field.
pub proof fn what_was_added_can_be_removed(kind: LayerKind)
    ensures
        kind.removable() <==> kind.transformable() && kind != LayerKind::Duct,
{
}

/// A layer takes with it the object it stands for and no other: a slice or a vent leaves
/// its list at once, and the app is asked for a slice or an obstruction.
pub proof fn a_layer_takes_its_object_with_it(before: UiState, after: UiState, p: int, i: usize)
    requires
        0 <= p < before.layers.layers@.len(),
        without_layer(before, after, p),
    ensures
        after.layers.layers@.len() == before.layers.layers@.len() - 1,
        before.layers.layers@[p].kind == LayerKind::Slice(i) ==> {
            &&& after.actions@ == before.actions@.push(UiAction::RemoveSlice(i))
            &&& after.vents@ == before.vents@
            &&& i < before.slices@.len() ==> after.slices@.len() == before.slices@.len() - 1
        },
        before.layers.layers@[p].kind == LayerKind::Vent(i) ==> {
            &&& after.actions@ == before.actions@
            &&& after.slices@ == before.slices@
            &&& i < before.vents@.len() ==> after.vents@.len() == before.vents@.len() - 1
        },
        before.layers.layers@[p].kind == LayerKind::Obstruction(i) ==> {
            &&& after.actions@ == before.actions@.push(UiAction::RemoveObstruction(i))
            &&& after.slices@ == before.slices@
            &&& after.vents@ == before.vents@
        },
        !before.layers.layers@[p].kind.removable() ==> after.actions@ == before.actions@
            && after.slices@ == before.slices@ && after.vents@ == before.vents@,
        after.obstructions@ == before.obstructions@,
        after.params == before.params,
{
}

/// What is typed is taken where it is within the limits, held to the nearer one where it is
/// not, and left alone where it is no finite number.
pub proof fn what_is_typed_is_held_to_the_limits(old_value: u32, typed: u32, lo: u32, hi: u32)
    requires
        le32(lo, hi),
    ensures
        !finite32(typed) ==> entered(old_value, typed, lo, hi) == old_value,
        finite32(typed) ==> {
            let r = entered(old_value, typed, lo, hi);
            &&& le32(lo, r) && le32(r, hi)
            &&& le32(lo, typed) && le32(typed, hi) ==> r == typed
            &&& lt32(typed, lo) ==> r == lo
            &&& lt32(hi, typed) ==> r == hi
        },
{
}

/// The air outside a mouth is behind it: a mouth that blows toward the end of an axis has
/// it past the face at the start, and the other way about.
pub proof fn the_outside_is_behind_the_mouth(n: Vec3, axis: int)
    requires
        0 <= axis < 3,
        !nan32(n.axis(axis)),
    ensures
        outside_face(n, axis) / 2 == axis,
        0 <= n.axis(axis) <= 0x8000_0000 ==> outside_face(n, axis) % 2 == 0,
        n.axis(axis) > 0x8000_0000 ==> outside_face(n, axis) % 2 == 1,
{
}

/// A face has the role of the mouth behind it; the outlet's goes before the inlet's, and a
/// mouth has one face.
pub proof fn a_face_has_the_role_of_its_mouth(
    inlet: Option<PatchView>,
    outlet: Option<PatchView>,
    k: int,
    j: int,
    role: Option<String>,
)
    requires
        role_is(inlet, outlet, k, role),
    ensures
        outlet matches Some(m) ==> (faces(m, k) ==> (role matches Some(r) && r@ == "past outlet"@
            + " "@ + m.name@)),
        inlet matches Some(m) ==> (faces(m, k) && outlet is None ==> (role matches Some(r) && r@
            == "behind inlet"@ + " "@ + m.name@)),
        role is Some ==> (inlet is Some && faces(inlet->Some_0, k)) || (outlet is Some && faces(
            outlet->Some_0,
            k,
        )),
        outlet matches Some(m) ==> (faces(m, k) && faces(m, j) ==> k == j),
{
    if outlet is Some && faces(outlet->Some_0, k) && faces(outlet->Some_0, j) {
        let n = outlet->Some_0.normal;
        let a = choose|axis: int| #[trigger] main_axis(n, axis) && k == outside_face(n, axis);
        let b = choose|axis: int| #[trigger] main_axis(n, axis) && j == outside_face(n, axis);
        lemma_one_main_axis(n, a, b);
    }
}

/// A pinned count is the one asked for, within the limits, and the tuner leaves it alone.
pub proof fn a_pinned_count_is_within_the_limits<F: Fn(u32) -> u32>(
    before: UiState,
    after: UiState,
    n: int,
    float: F,
)
    requires
        after.pinned(before, n, float),
        before.tuner.config.min_steps <= before.tuner.config.max_steps,
    ensures
        !after.tuner.enabled,
        after.params == before.params,
        exists|k: u32| #[trigger]
            float.ensures((k,), after.tuner.steps) && before.tuner.config.min_steps <= k
                <= before.tuner.config.max_steps && (before.tuner.config.min_steps <= n
                <= before.tuner.config.max_steps ==> k == n),
{
    let k = before.tuner.limited(n) as u32;
    assert(float.ensures((k,), after.tuner.steps));
}

} // verus!
