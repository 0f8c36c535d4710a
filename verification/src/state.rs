//! The whole UI state, and the action list the app drains each frame.
//!
//! The panels do not own the solver, the renderer or the scene, and they must not:
//! an immediate-mode panel runs inside a UI frame, where taking a mutable borrow of
//! half the application to service a button press is a good way to end up
//! rebuilding a solver in the middle of recording a draw list.
//!
//! Instead every panel pushes a [`UiAction`] and returns. The app drains the queue
//! at a point of its choosing, after the UI frame and before the solver step, where
//! it has clean mutable access to everything.
//!
//! Anything the renderer or solver already owns is not in here: the camera, the
//! transfer functions, the mesh visibility. Floating-point numbers are bit patterns,
//! and what takes floating-point arithmetic is computed by functions that the caller
//! hands in.
use vstd::prelude::*;
use vstd::string::StringExecFns;
use crate::autotune::{default_tuning, StepAutoTuner};
use crate::camera_input::{default_camera_input, CameraInput, PointerOwnership};
use crate::clock::{idle_clock, Clock};
use crate::compare::{
    are_compared, compare, Baseline, MetricDeltas,
};
use crate::config::{Vec3, ONE};
use crate::float_order::{at_most32, finite32, is_finite32, le32, less32, lt32};
use crate::format::UnitSystem;
use crate::layers::{LayerId, LayerStack};
use crate::legend::LegendRange;
use crate::overlays::{
    default_iso, default_particles, default_streamlines, GizmoMode, GizmoSpace, IsoSettings, ParticleSettings, Placement, Probes, Quat, SliceSettings,
    StreamlineSettings, VentSettings,
};
use crate::params::{no_change, ParamChange, ParamWatcher, SimParams};
use crate::pose::{
    is_tilt, lattice_axis, louver_to_tilt, main_axis, DuctGeometry, InstallPose, LouverAim,
};
use crate::text::{decimal, decimal_string};
use crate::toast::{Severity, Toast, Toasts};
use crate::view::{MetricsView, PatchView, ReadingArithmetic, ResetCause, ResolutionPanel};

verus! {

/// Something the app must do. Drained once per frame.
#[derive(Clone, Debug, PartialEq)]
pub enum UiAction {
    /// Play / pause the sim. The sim being *always on* is the model, so pause
    /// exists only for inspecting a transient, never as a prerequisite to editing
    /// anything.
    SetPlaying(bool),
    /// Advance exactly `n` steps while paused.
    StepOnce(u32),
    /// Reinitialise the field to equilibrium and zero the step counter.
    ResetSolver,
    /// Throw away accumulated statistics, with a reason for the toast.
    ResetStatistics(ResetCause),
    /// Hot-apply a new inlet velocity, m/s.
    SetInletVelocity(u32),
    /// Make mouth `i` the inlet; the other detected mouth becomes the outlet.
    SetInletMouth(usize),
    /// One-click swap of the two auto-detected mouths.
    SwapInletOutlet,
    /// New cell size, mm. Reallocates.
    SetResolution(u32),
    /// New lattice velocity.
    SetLatticeVelocity(u64),
    /// Smagorinsky constant.
    SetSmagorinsky(u32),
    /// Go to a view preset, by its place in the list.
    ApplyViewPreset(usize),
    /// Fit the camera to the scene.
    FrameScene,
    /// Show a field, by its place in the list.
    SetField(usize),
    /// Auto-range the legend to the field's measured extremes.
    AutoRangeLegend,
    /// Load the main duct STL, replacing whatever is loaded.
    LoadDuct(String),
    /// Add an obstruction STL.
    LoadObstruction(String),
    RemoveObstruction(usize),
    SetObstructionPlacement(usize, Placement),
    /// Add a vent at the inlet mouth. Removal is an edit of [`UiState::vents`]; the
    /// app notices.
    AddVent,
    /// Turn the part itself by the quarter turns nearest the install pose, and take
    /// those out of the pose. Rebuilds.
    BakePose,
    /// Rebuild with these six box margins, mm (`[-x, +x, -y, +y, -z, +z]`, part
    /// frame), if they fit.
    SetDomainMargins([u32; 6]),
    /// Back to the automatic box.
    ResetDomainMargins,
    /// Drop a probe where a viewport ray hits the flow.
    ProbeFromRay { origin_mm: Vec3, direction: Vec3 },
    MoveProbe { id: u32, position_mm: Vec3 },
    RemoveProbe(u32),
    AddSlice,
    RemoveSlice(usize),
    /// Freeze the current metrics as the A/B baseline.
    SaveBaseline,
    ClearBaseline,
    /// Write a supersampled PNG.
    Screenshot,
    RequestQuit,
}

/// Which bottom-strip plot is showing.
#[derive(Clone, Copy, Debug, PartialEq, Eq, Structural)]
pub enum PlotTab {
    Flow,
    PressureDrop,
    Probes,
    Residence,
    Histogram,
    Spectrum,
}

impl Default for PlotTab {
    fn default() -> (t: Self)
        ensures
            t == PlotTab::Flow,
    {
        PlotTab::Flow
    }
}

impl PlotTab {
    pub fn label(self) -> (s: &'static str)
        ensures
            s@ == (match self {
                PlotTab::Flow => "Q_in / Q_out"@,
                PlotTab::PressureDrop => "dp"@,
                PlotTab::Probes => "probe p(t)"@,
                PlotTab::Residence => "RTD E(t)"@,
                PlotTab::Histogram => "U_out histogram"@,
                PlotTab::Spectrum => "spectrum"@,
            }),
    {
        match self {
            PlotTab::Flow => "Q_in / Q_out",
            PlotTab::PressureDrop => "dp",
            PlotTab::Probes => "probe p(t)",
            PlotTab::Residence => "RTD E(t)",
            PlotTab::Histogram => "U_out histogram",
            PlotTab::Spectrum => "spectrum",
        }
    }

    /// Every tab, in the order of the strip.
    pub fn all() -> (a: [PlotTab; 6])
        ensures
            a@ == seq![
                PlotTab::Flow,
                PlotTab::PressureDrop,
                PlotTab::Probes,
                PlotTab::Residence,
                PlotTab::Histogram,
                PlotTab::Spectrum,
            ],
    {
        [
            PlotTab::Flow,
            PlotTab::PressureDrop,
            PlotTab::Probes,
            PlotTab::Residence,
            PlotTab::Histogram,
            PlotTab::Spectrum,
        ]
    }
}

/// Which panels are open.
#[derive(Clone, Copy, Debug, PartialEq, Eq, Structural)]
pub struct PanelVisibility {
    pub layers: bool,
    pub properties: bool,
    pub plots: bool,
    pub hud: bool,
    pub legend: bool,
    pub diagnostics: bool,
}

/// Everything open but the diagnostics.
pub open spec fn default_panels() -> PanelVisibility {
    PanelVisibility {
        layers: true,
        properties: true,
        plots: true,
        hud: true,
        legend: true,
        diagnostics: false,
    }
}

impl Default for PanelVisibility {
    fn default() -> (p: Self)
        ensures
            p == default_panels(),
    {
        PanelVisibility {
            layers: true,
            properties: true,
            plots: true,
            hud: true,
            legend: true,
            diagnostics: false,
        }
    }
}

/// A rectangle on the screen, in pixels.
#[derive(Clone, Copy, Debug, PartialEq, Eq, Structural)]
pub struct Rect {
    pub x: u32,
    pub y: u32,
    pub w: u32,
    pub h: u32,
}

/// Two `f32` bit patterns.
#[derive(Clone, Copy, Debug, PartialEq, Eq, Structural)]
pub struct Vec2 {
    pub x: u32,
    pub y: u32,
}

/// Everything the UI owns.
#[derive(Debug)]
pub struct UiState {
    /// The simulation runs unless this is false. There is no "Run" button; this is
    /// a pause for inspecting a transient.
    pub playing: bool,
    pub tuner: StepAutoTuner,
    pub clock: Clock,
    /// The parameters as the user has them set. The app compares this against
    /// [`Self::watcher`] to decide what to apply.
    pub params: SimParams,
    pub watcher: ParamWatcher,
    pub layers: LayerStack,
    pub probes: Probes,
    pub slices: Vec<SliceSettings>,
    pub particles: ParticleSettings,
    pub iso: IsoSettings,
    pub streamlines: StreamlineSettings,
    pub gizmo_mode: GizmoMode,
    pub gizmo_space: GizmoSpace,
    /// Translation snap in mm; `None` disables snapping.
    pub gizmo_snap_mm: Option<u32>,
    /// Rotation snap in degrees; `None` disables it.
    pub gizmo_snap_deg: Option<u32>,
    /// Where the duct sits in the car. The solver never sees it.
    pub install: InstallPose,
    /// The point `install` turns about, lattice mm: the duct's bounding-box centre.
    /// Written by the app whenever the geometry is built.
    pub install_pivot_mm: Vec3,
    /// Vent louver aim, degrees, car terms. The source of truth for the inlet air
    /// angle; [`Self::sync_inlet_tilt`] turns it into the part-frame tilt the solver
    /// takes.
    pub inlet_louver_deg: LouverAim,
    /// Where each obstruction sits in the car (world frame), indexed like
    /// `LayerKind::Obstruction`.
    pub obstructions: Vec<Placement>,
    /// The part's own scale and quarter turns in the lattice: a real change of
    /// geometry, rebuilt when it settles.
    pub duct: DuctGeometry,
    /// The vents in the room (car frame), indexed like `LayerKind::Vent`.
    pub vents: Vec<VentSettings>,
    /// The simulated box's six margins beyond the duct as built, mm,
    /// `[-x, +x, -y, +y, -z, +z]` in the part's frame. Written by the app.
    pub domain_margins_mm: [u32; 6],
    /// The margins in the box, waiting for Apply.
    pub pending_domain_mm: [u32; 6],
    pub legend: LegendRange,
    pub units: UnitSystem,
    pub camera_input: CameraInput,
    /// The field on show, by its place in the list.
    pub field: usize,
    /// Everything the HUD and the plots read.
    pub metrics: MetricsView,
    /// The detected mouths, in detection order. Index 0 and 1 are what the inlet
    /// toggle switches between.
    pub mouths: Vec<PatchView>,
    /// The cell-size control: what is typed in it, and what the app says it would
    /// cost.
    pub resolution: ResolutionPanel,
    pub baseline: Option<Baseline>,
    /// Recomputed each frame when a baseline exists.
    pub deltas: Option<MetricDeltas>,
    pub toasts: Toasts,
    pub panels: PanelVisibility,
    pub plot_tab: PlotTab,
    /// Screen-space rectangle of the 3D viewport in physical pixels. Written by the
    /// viewport panel each frame; read by the gizmo and by click-to-probe.
    pub viewport_rect: Rect,
    /// True while the UI wants the mouse.
    pub ui_capture_mouse: bool,
    /// True while a gizmo is hovered or being dragged.
    pub gizmo_active: bool,
    /// Physical pixels per logical pixel: the window's DPI factor.
    pub ui_scale: u32,
    /// One line per GPU pass, from the renderer's profiler.
    pub profiling: Vec<String>,
    /// Free-form line the app writes for the status bar (device name, grid size,
    /// VRAM).
    pub status: String,
    pub actions: Vec<UiAction>,
}

/// Order of `f32` patterns that ranks every pattern: the total order of the
/// standard, negative NaN lowest and positive NaN highest.
pub open spec fn total_key(bits: u32) -> int {
    if bits >= 0x8000_0000 {
        -1 - (bits - 0x8000_0000)
    } else {
        bits as int
    }
}

fn total_rank(bits: u32) -> (k: i64)
    ensures
        k == total_key(bits),
{
    if bits >= 0x8000_0000 {
        -1 - ((bits - 0x8000_0000) as i64)
    } else {
        bits as i64
    }
}

/// Where the first mouth marked as the outlet is, from `i` on, or the number of
/// mouths where there is none.
pub open spec fn first_outlet(mouths: Seq<PatchView>, i: int) -> int
    decreases mouths.len() - i,
{
    if i >= mouths.len() || mouths[i].is_outlet {
        i
    } else {
        first_outlet(mouths, i + 1)
    }
}

/// Whether `k` is the largest mouth that is not the inlet, the last of equals.
pub open spec fn largest_other(mouths: Seq<PatchView>, inlet: int, k: int) -> bool {
    &&& 0 <= k < mouths.len()
    &&& k != inlet
    &&& forall|j: int|
        0 <= j < mouths.len() && j != inlet ==> total_key((#[trigger] mouths[j]).open_area_mm2)
            <= total_key(mouths[k].open_area_mm2)
    &&& forall|j: int|
        k < j < mouths.len() && j != inlet ==> total_key((#[trigger] mouths[j]).open_area_mm2)
            < total_key(mouths[k].open_area_mm2)
}

/// Whether `outlet` is the outlet to this inlet: none with fewer than two mouths;
/// else the first marked one, then the wanted one, each unless it is the inlet; then
/// the other one of two, or the largest of the rest.
pub open spec fn is_outlet_of(
    mouths: Seq<PatchView>,
    inlet: usize,
    wanted: Option<usize>,
    outlet: Option<usize>,
) -> bool {
    let marked = first_outlet(mouths, 0);
    if mouths.len() < 2 {
        outlet is None
    } else if marked < mouths.len() && marked != inlet {
        outlet == Some(marked as usize)
    } else if wanted matches Some(o) && o < mouths.len() && o != inlet {
        outlet == wanted
    } else if mouths.len() == 2 {
        outlet == Some(
            if inlet == 0 {
                1usize
            } else {
                0usize
            },
        )
    } else {
        outlet matches Some(k) && largest_other(mouths, inlet as int, k as int)
    }
}

/// Whether `deltas` compare these metrics with the baseline; none without a baseline.
pub open spec fn are_deltas<
    H: Fn(u64, u64) -> u64,
    S: Fn(u64, u64) -> u64,
    M: Fn(u64, u64) -> u64,
    D: Fn(u64, u64) -> u64,
>(
    now: &MetricsView,
    baseline: Option<Baseline>,
    arithmetic: &ReadingArithmetic<H, S, M, D>,
    deltas: Option<MetricDeltas>,
) -> bool {
    match baseline {
        None => deltas is None,
        Some(b) => deltas is Some && are_compared(now, &b.metrics, arithmetic, deltas->Some_0),
    }
}

/// The detail line of the toast that announces a baseline.
pub open spec fn baseline_detail(label: Seq<char>, step: u64) -> Seq<char> {
    "\""@ + label + "\" at step "@ + decimal(step as int) + "; the HUD now shows deltas"@
}

/// Whether a toast announces a baseline.
pub open spec fn announces_baseline(t: Toast, label: Seq<char>, step: u64) -> bool {
    &&& t.severity == Severity::Info
    &&& t.title@ == "Baseline saved"@
    &&& t.detail@ == baseline_detail(label, step)
    &&& t.key@ == "baseline"@
    &&& t.age_s == 0
    &&& t.repeats == 0
}

impl UiState {
    /// The parts are well formed.
    pub open spec fn wf(&self) -> bool {
        self.layers.wf() && self.probes.wf() && self.toasts.wf()
    }

    pub fn new(params: SimParams) -> (s: Self)
        ensures
            s.wf(),
            s.playing,
            s.tuner.fresh(default_tuning()),
            s.tuner.steps == ONE,
            s.clock == idle_clock(),
            s.params == params,
            s.watcher == ParamWatcher::watching(params),
            s.layers.is_opening(),
            s.probes.items@.len() == 0,
            s.probes.next_id == 1,
            s.probes.history == 2048,
            s.slices@.len() == 0,
            s.particles == default_particles(),
            s.iso == default_iso(),
            s.streamlines == default_streamlines(),
            s.gizmo_mode == GizmoMode::Translate,
            s.gizmo_space == GizmoSpace::World,
            s.gizmo_snap_mm == Some(0x3f00_0000u32),
            s.gizmo_snap_deg == Some(0x4170_0000u32),
            s.install == InstallPose::identity(),
            s.install_pivot_mm == (Vec3 { x: 0, y: 0, z: 0 }),
            s.inlet_louver_deg == (LouverAim { up_down: 0, sideways: 0 }),
            s.obstructions@.len() == 0,
            s.duct.is_unchanged(),
            s.vents@.len() == 0,
            s.domain_margins_mm@ == seq![0u32, 0, 0, 0, 0, 0],
            s.pending_domain_mm@ == seq![0u32, 0, 0, 0, 0, 0],
            s.legend == LegendRange::unit(),
            s.units == UnitSystem::Metric,
            s.camera_input == default_camera_input(),
            s.field == 0,
            s.metrics.blank(),
            s.mouths@.len() == 0,
            s.resolution == (ResolutionPanel { pending_dx_mm: params.dx_mm, estimate: None }),
            s.baseline is None,
            s.deltas is None,
            s.toasts.items@.len() == 0,
            s.panels == default_panels(),
            s.plot_tab == PlotTab::Flow,
            s.viewport_rect == (Rect { x: 0, y: 0, w: ONE, h: ONE }),
            !s.ui_capture_mouse,
            !s.gizmo_active,
            s.ui_scale == ONE,
            s.profiling@.len() == 0,
            s.status@.len() == 0,
            s.actions@.len() == 0,
    {
        proof {
            reveal_strlit("");
        }
        let s: UiState = UiState {
            playing: true,
            tuner: StepAutoTuner::default(),
            clock: Clock::default(),
            params,
            watcher: ParamWatcher::new(params),
            layers: LayerStack::defaults(),
            probes: Probes::new(),
            slices: Vec::new(),
            particles: ParticleSettings::default(),
            iso: IsoSettings::default(),
            streamlines: StreamlineSettings::default(),
            gizmo_mode: GizmoMode::Translate,
            gizmo_space: GizmoSpace::World,
            gizmo_snap_mm: Some(0x3f00_0000),
            gizmo_snap_deg: Some(0x4170_0000),
            install: InstallPose::default(),
            install_pivot_mm: Vec3::new(0, 0, 0),
            inlet_louver_deg: LouverAim { up_down: 0, sideways: 0 },
            obstructions: Vec::new(),
            duct: DuctGeometry::default(),
            vents: Vec::new(),
            domain_margins_mm: [0, 0, 0, 0, 0, 0],
            pending_domain_mm: [0, 0, 0, 0, 0, 0],
            legend: LegendRange::default(),
            units: UnitSystem::Metric,
            camera_input: CameraInput::default(),
            field: 0,
            metrics: MetricsView::default(),
            mouths: Vec::new(),
            resolution: ResolutionPanel::new(params.dx_mm),
            baseline: None,
            deltas: None,
            toasts: Toasts::new(),
            panels: PanelVisibility::default(),
            plot_tab: PlotTab::Flow,
            viewport_rect: Rect { x: 0, y: 0, w: ONE, h: ONE },
            ui_capture_mouse: false,
            gizmo_active: false,
            ui_scale: ONE,
            profiling: Vec::new(),
            status: String::from_str(""),
            actions: Vec::new(),
        };
        s
    }

    /// Whether this is `before` with `more` queued behind what was there, and
    /// nothing else changed.
    pub open spec fn queued(&self, before: UiState, more: Seq<UiAction>) -> bool {
        &&& self.actions@ == before.actions@ + more
        &&& *self == (UiState { actions: self.actions, ..before })
    }

    /// Queue an action for the app to service.
    pub fn push_action(&mut self, action: UiAction)
        ensures
            final(self).queued(*old(self), seq![action]),
    {
        self.actions.push(action);
        proof {
            assert(self.actions@ =~= old(self).actions@ + seq![action]);
        }
    }

    /// Take the queued actions. The app calls this once per frame; an action is
    /// delivered once.
    pub fn drain_actions(&mut self) -> (a: Vec<UiAction>)
        ensures
            a@ == old(self).actions@,
            final(self).actions@.len() == 0,
            *final(self) == (UiState { actions: final(self).actions, ..*old(self) }),
    {
        let mut a: Vec<UiAction> = Vec::new();
        std::mem::swap(&mut self.actions, &mut a);
        a
    }

    pub fn pending_actions(&self) -> (a: &Vec<UiAction>)
        ensures
            *a == self.actions,
    {
        &self.actions
    }

    /// Whether this change is announced.
    pub open spec fn announced(change: ParamChange) -> bool {
        change.cause is Some && change.reset_statistics
    }

    /// Detect parameter changes and raise the reset toast.
    ///
    /// This is where the "statistics reset must be visible" requirement is actually
    /// enforced, and it is one call rather than a rule people have to remember: any
    /// path that edits [`Self::params`] gets the toast for free.
    ///
    /// Returns the classification so the app can rebuild or hot-apply.
    pub fn sync_params(&mut self) -> (change: ParamChange)
        requires
            old(self).wf(),
            Self::announced(old(self).watcher.verdict(&old(self).params)) ==> old(
                self,
            ).toasts.countable("stats-reset"@),
        ensures
            final(self).wf(),
            change == old(self).watcher.verdict(&old(self).params),
            *final(self) == (UiState {
                watcher: ParamWatcher::watching(old(self).params),
                toasts: final(self).toasts,
                probes: final(self).probes,
                ..*old(self)
            }),
            Self::announced(change) ==> {
                &&& exists|t: Toast| #[trigger]
                    t.is_reset_of(change.cause->Some_0) && old(self).toasts.pushed(
                        t,
                        final(self).toasts,
                    )
                &&& final(self).probes.items@.len() == old(self).probes.items@.len()
                &&& final(self).probes.next_id == old(self).probes.next_id
                &&& final(self).probes.history == old(self).probes.history
                &&& forall|i: int|
                    0 <= i < old(self).probes.items@.len() ==> (
                    #[trigger] final(self).probes.items@[i]).forgot(old(self).probes.items@[i])
            },
            !Self::announced(change) ==> {
                &&& final(self).toasts == old(self).toasts
                &&& final(self).probes == old(self).probes
            },
    {
        let change: ParamChange = self.watcher.observe(self.params);
        match change.cause {
            Some(cause) => {
                if change.reset_statistics {
                    let t: Toast = Toast::statistics_reset(cause);
                    assert(t.is_reset_of(cause));
                    self.toasts.push(t);
                    // A probe trace spanning a boundary-condition change shows a
                    // step the flow never took, so it goes with the averages.
                    self.probes.clear_history();
                }
            },
            None => {},
        }
        change
    }

    /// What [`Self::sync_params`] would report now, without committing it, raising a
    /// toast or clearing a probe.
    ///
    /// The frame loop asks this before a rebuild, because a rebuild can fail, and a
    /// failed one has to be undone with [`Self::revert_params`] before anything
    /// announces it.
    pub fn peek_params(&self) -> (change: ParamChange)
        ensures
            change == self.watcher.verdict(&self.params),
    {
        self.watcher.classify(&self.params)
    }

    /// The parameters the running solver actually has: the last set
    /// [`Self::sync_params`] committed.
    pub fn committed_params(&self) -> (p: SimParams)
        ensures
            p == self.watcher.prev,
    {
        *self.watcher.current()
    }

    /// Discard edits to [`Self::params`] that have not been committed.
    ///
    /// For the one case where the app cannot honour an edit: a rebuild that failed.
    /// The controls then show what the solver is really running, and the next
    /// [`Self::sync_params`] finds nothing to announce.
    pub fn revert_params(&mut self)
        ensures
            *final(self) == (UiState { params: old(self).watcher.prev, ..*old(self) }),
    {
        self.params = self.committed_params();
    }

    /// Force the next [`Self::sync_params`] to report a reset. Used by the explicit
    /// "reset statistics" button so the toast still appears.
    pub fn invalidate_statistics(&mut self)
        ensures
            *final(self) == (UiState {
                watcher: old(self).watcher.invalidated(),
                ..*old(self)
            }),
    {
        self.watcher.invalidate();
    }

    /// Recompute the A/B deltas. Cheap, and doing it every frame keeps them in step
    /// with a live-updating [`Self::metrics`].
    pub fn refresh_deltas<
        H: Fn(u64, u64) -> u64,
        S: Fn(u64, u64) -> u64,
        M: Fn(u64, u64) -> u64,
        D: Fn(u64, u64) -> u64,
    >(&mut self, arithmetic: &ReadingArithmetic<H, S, M, D>)
        requires
            arithmetic.total(),
        ensures
            *final(self) == (UiState { deltas: final(self).deltas, ..*old(self) }),
            are_deltas(&old(self).metrics, old(self).baseline, arithmetic, final(self).deltas),
    {
        let deltas: Option<MetricDeltas> = match &self.baseline {
            Some(b) => Some(compare(&self.metrics, &b.metrics, arithmetic)),
            None => None,
        };
        self.deltas = deltas;
    }

    /// Whether this is `before` with its metrics frozen as the baseline, compared with
    /// it, and that announced.
    pub open spec fn saved<
        H: Fn(u64, u64) -> u64,
        S: Fn(u64, u64) -> u64,
        M: Fn(u64, u64) -> u64,
        D: Fn(u64, u64) -> u64,
    >(
        &self,
        before: UiState,
        label: Seq<char>,
        step: u64,
        arithmetic: &ReadingArithmetic<H, S, M, D>,
    ) -> bool {
        &&& *self == (UiState {
            baseline: self.baseline,
            deltas: self.deltas,
            toasts: self.toasts,
            ..before
        })
        &&& self.baseline matches Some(b) && b.label@ == label && b.step == step
            && b.inlet_velocity_ms == before.params.inlet_velocity_ms && b.metrics.same(
            &before.metrics,
        )
        &&& are_deltas(&before.metrics, self.baseline, arithmetic, self.deltas)
        &&& exists|t: Toast| #[trigger]
            before.toasts.pushed(t, self.toasts) && announces_baseline(t, label, step)
    }

    /// Freeze the current metrics as the baseline.
    pub fn save_baseline<
        H: Fn(u64, u64) -> u64,
        S: Fn(u64, u64) -> u64,
        M: Fn(u64, u64) -> u64,
        D: Fn(u64, u64) -> u64,
    >(&mut self, label: &str, step: u64, arithmetic: &ReadingArithmetic<H, S, M, D>)
        requires
            old(self).wf(),
            old(self).toasts.countable("baseline"@),
            arithmetic.total(),
        ensures
            final(self).wf(),
            final(self).saved(*old(self), label@, step, arithmetic),
    {
        let b: Baseline = Baseline::capture(
            label,
            step,
            self.params.inlet_velocity_ms,
            &self.metrics,
        );
        self.baseline = Some(b);
        self.refresh_deltas(arithmetic);
        let mut detail: String = String::from_str("\"");
        detail.append(label);
        detail.append("\" at step ");
        detail.append(decimal_string(step).as_str());
        detail.append("; the HUD now shows deltas");
        let t: Toast = Toast::new(Severity::Info, "Baseline saved").with_detail(
            detail.as_str(),
        ).with_key("baseline");
        let ghost made = t;
        self.toasts.push(t);
        assert(old(self).toasts.pushed(made, self.toasts));
    }

    pub fn clear_baseline(&mut self)
        ensures
            *final(self) == (UiState { baseline: None, deltas: None, ..*old(self) }),
    {
        self.baseline = None;
        self.deltas = None;
    }

    /// Whether the baseline is at the same operating point as the live run. `None` when
    /// there is no baseline.
    pub fn baseline_comparable<D: Fn(u32, u32) -> u32>(&self, divide: &D) -> (r: Option<bool>)
        requires
            forall|a: u32, b: u32| #[trigger] divide.requires((a, b)),
        ensures
            match self.baseline {
                None => r is None,
                Some(b) => r is Some && b.near(
                    self.params.inlet_velocity_ms,
                    *divide,
                    r->Some_0,
                ),
            },
    {
        match &self.baseline {
            Some(b) => Some(
                b.same_operating_point(self.params.inlet_velocity_ms, divide),
            ),
            None => None,
        }
    }

    /// Which mouth is the outlet, given the chosen inlet. With exactly two mouths
    /// this is the other one; with more, the largest of the rest, on the grounds
    /// that a duct's main outlet is not a drain hole.
    pub fn outlet_mouth(&self) -> (outlet: Option<usize>)
        ensures
            is_outlet_of(
                self.mouths@,
                self.params.inlet_mouth,
                self.params.outlet_mouth,
                outlet,
            ),
    {
        let n: usize = self.mouths.len();
        if n < 2 {
            return None;
        }
        let inlet: usize = self.params.inlet_mouth;
        // What the app built, when it has said: it knows which mouths the vents are
        // sealed to, which this view model does not.
        let mut o: usize = 0;
        while o < n && !self.mouths[o].is_outlet
            invariant
                n == self.mouths@.len(),
                o <= n,
                first_outlet(self.mouths@, 0) == first_outlet(self.mouths@, o as int),
            decreases n - o,
        {
            o += 1;
        }
        if o < n && o != inlet {
            return Some(o);
        }
        match self.params.outlet_mouth {
            Some(w) => {
                if w < n && w != inlet {
                    return Some(w);
                }
            },
            None => {},
        }
        if n == 2 {
            return Some(
                if inlet == 0 {
                    1
                } else {
                    0
                },
            );
        }
        let mut best: usize = if inlet == 0 {
            1
        } else {
            0
        };
        let mut i: usize = best + 1;
        while i < n
            invariant
                n == self.mouths@.len(),
                best < i <= n,
                best != inlet,
                forall|j: int|
                    0 <= j < i && j != inlet ==> total_key(
                        (#[trigger] self.mouths@[j]).open_area_mm2,
                    ) <= total_key(self.mouths@[best as int].open_area_mm2),
                forall|j: int|
                    best < j < i && j != inlet ==> total_key(
                        (#[trigger] self.mouths@[j]).open_area_mm2,
                    ) < total_key(self.mouths@[best as int].open_area_mm2),
            decreases n - i,
        {
            if i != inlet && total_rank(self.mouths[i].open_area_mm2) >= total_rank(
                self.mouths[best].open_area_mm2,
            ) {
                best = i;
            }
            i += 1;
        }
        Some(best)
    }

    /// Queue the one-click inlet/outlet swap.
    pub fn swap_inlet_outlet(&mut self)
        ensures
            exists|outlet: Option<usize>|
                {
                    &&& #[trigger] is_outlet_of(
                        old(self).mouths@,
                        old(self).params.inlet_mouth,
                        old(self).params.outlet_mouth,
                        outlet,
                    )
                    &&& match outlet {
                        None => *final(self) == *old(self),
                        Some(o) => final(self).queued(
                            (UiState {
                                params: SimParams { inlet_mouth: o, ..old(self).params },
                                ..*old(self)
                            }),
                            seq![UiAction::SetInletMouth(o)],
                        ),
                    }
                },
    {
        let outlet: Option<usize> = self.outlet_mouth();
        match outlet {
            Some(o) => {
                self.params.inlet_mouth = o;
                self.push_action(UiAction::SetInletMouth(o));
            },
            None => {},
        }
        assert(is_outlet_of(
            old(self).mouths@,
            old(self).params.inlet_mouth,
            old(self).params.outlet_mouth,
            outlet,
        ));
    }

    /// Convert a point in the viewport rectangle to normalised device coordinates,
    /// `y` up. Returns `None` outside the rectangle. `within` computes where in the
    /// rectangle the point is, as fractions; `to_ndc` turns those into device
    /// coordinates.
    pub fn viewport_ndc<W: Fn(Rect, Vec2) -> Vec2, N: Fn(Vec2) -> Vec2>(
        &self,
        screen: Vec2,
        within: &W,
        to_ndc: &N,
    ) -> (ndc: Option<Vec2>)
        requires
            within.requires((self.viewport_rect, screen)),
            forall|uv: Vec2| #[trigger] to_ndc.requires((uv,)),
        ensures
            le32(self.viewport_rect.w, 0) || le32(self.viewport_rect.h, 0) ==> ndc is None,
            !(le32(self.viewport_rect.w, 0) || le32(self.viewport_rect.h, 0)) ==> exists|uv: Vec2| #[trigger]
                within.ensures((self.viewport_rect, screen), uv) && {
                    let inside = le32(0, uv.x) && le32(uv.x, ONE) && le32(0, uv.y) && le32(
                        uv.y,
                        ONE,
                    );
                    &&& ndc is Some <==> inside
                    &&& ndc matches Some(p) ==> to_ndc.ensures((uv,), p)
                },
    {
        if at_most32(self.viewport_rect.w, 0) || at_most32(self.viewport_rect.h, 0) {
            return None;
        }
        let uv: Vec2 = within(self.viewport_rect, screen);
        assert(within.ensures((self.viewport_rect, screen), uv));
        if at_most32(0, uv.x) && at_most32(uv.x, ONE) && at_most32(0, uv.y) && at_most32(
            uv.y,
            ONE,
        ) {
            Some(to_ndc(uv))
        } else {
            None
        }
    }

    /// Pointer ownership for the camera controller.
    pub fn pointer_ownership(&self) -> (o: PointerOwnership)
        ensures
            o == (PointerOwnership {
                ui_capture: self.ui_capture_mouse,
                gizmo_active: self.gizmo_active,
            }),
    {
        PointerOwnership { ui_capture: self.ui_capture_mouse, gizmo_active: self.gizmo_active }
    }

    /// The layer currently armed for the gizmo, if it is one that can be moved.
    pub fn gizmo_target(&self) -> (id: Option<LayerId>)
        ensures
            match id {
                Some(id) => self.gizmo_mode != GizmoMode::Off && exists|i: int| #[trigger]
                    self.layers.first_selected(i) && self.layers.layers@[i].id == id
                        && self.layers.layers@[i].kind.transformable(),
                None => self.gizmo_mode == GizmoMode::Off || forall|i: int| #[trigger]
                    self.layers.first_selected(i)
                        ==> !self.layers.layers@[i].kind.transformable(),
            },
    {
        match self.layers.selected() {
            None => None,
            Some(l) => {
                let ghost i = choose|i: int| #[trigger]
                    self.layers.first_selected(i) && self.layers.layers@[i] == *l;
                proof {
                    assert(self.layers.first_selected(i));
                    assert forall|j: int| #[trigger]
                        self.layers.first_selected(j) implies j == i by {
                        assert(!(j < i && self.layers.layers@[j].selected));
                        assert(!(i < j && self.layers.layers@[i].selected));
                    }
                }
                if l.kind.is_transformable() && self.gizmo_mode != GizmoMode::Off {
                    Some(l.id)
                } else {
                    None
                }
            },
        }
    }

    /// Physical pixels per logical pixel, or one where the window's factor makes no
    /// sense.
    pub fn logical_scale(&self) -> (s: u32)
        ensures
            s == if finite32(self.ui_scale) && lt32(0, self.ui_scale) {
                self.ui_scale
            } else {
                ONE
            },
    {
        if is_finite32(self.ui_scale) && less32(0, self.ui_scale) {
            self.ui_scale
        } else {
            ONE
        }
    }

    /// Set the part-frame inlet tilt the solver takes from the louver aim the user
    /// gave in car terms. `project` computes the tilt of an aim that is not level.
    ///
    /// Cheap and idempotent, so the app calls it every frame: the louver is fixed in
    /// the car, so re-posing the part or swapping the inlet mouth changes the tilt
    /// relative to the part, and that change then goes through [`Self::sync_params`]
    /// like any other.
    pub fn sync_inlet_tilt<T: Fn(LouverAim, Vec3, usize, Quat) -> (u32, u32)>(
        &mut self,
        project: &T,
    )
        requires
            forall|aim: LouverAim, n: Vec3, axis: usize, r: Quat| #[trigger]
                project.requires((aim, n, axis, r)),
        ensures
            old(self).params.inlet_mouth >= old(self).mouths@.len() ==> *final(self) == *old(self),
            *final(self) == (UiState {
                params: SimParams {
                    inlet_tilt_deg: final(self).params.inlet_tilt_deg,
                    ..old(self).params
                },
                ..*old(self)
            }),
            old(self).params.inlet_mouth < old(self).mouths@.len() ==> exists|axis: usize| #[trigger]
                is_tilt(
                    old(self).inlet_louver_deg,
                    old(self).mouths@[old(self).params.inlet_mouth as int].normal,
                    axis,
                    old(self).install.rotation,
                    *project,
                    (final(self).params.inlet_tilt_deg@[0], final(self).params.inlet_tilt_deg@[1]),
                ) && main_axis(
                    old(self).mouths@[old(self).params.inlet_mouth as int].normal,
                    axis as int,
                ),
    {
        let k: usize = self.params.inlet_mouth;
        if k >= self.mouths.len() {
            return;
        }
        let n: Vec3 = self.mouths[k].normal;
        let axis: usize = lattice_axis(n);
        let t: (u32, u32) = louver_to_tilt(
            self.inlet_louver_deg,
            n,
            axis,
            self.install.rotation,
            project,
        );
        self.params.inlet_tilt_deg = [t.0, t.1];
        proof {
            assert((self.params.inlet_tilt_deg@[0], self.params.inlet_tilt_deg@[1]) == t);
        }
    }
}

/// A change that was reverted is never announced: once the parameters are back at
/// what the watcher last saw, the next look finds nothing.
pub proof fn a_reverted_change_is_never_announced(s: UiState)
    requires
        s.watcher == ParamWatcher::watching(s.watcher.prev),
    ensures
        ({
            let reverted = UiState { params: s.watcher.prev, ..s };
            &&& reverted.watcher.verdict(&reverted.params) == no_change()
            &&& !UiState::announced(reverted.watcher.verdict(&reverted.params))
        }),
{
}

/// Every reset of the statistics is announced, whatever was edited and whether a
/// field or a hand asked for it, and the frame after it is quiet.
pub proof fn every_reset_is_announced_once(s: UiState)
    ensures
        s.watcher.verdict(&s.params).reset_statistics <==> UiState::announced(
            s.watcher.verdict(&s.params),
        ),
        ParamWatcher::watching(s.params).verdict(&s.params) == no_change(),
{
}

/// With two mouths the outlet is always the other one, so swapping is reversible: a
/// second swap brings the first inlet back.
pub proof fn swapping_two_mouths_is_reversible(
    mouths: Seq<PatchView>,
    inlet: usize,
    wanted: Option<usize>,
    outlet: Option<usize>,
    again: Option<usize>,
)
    requires
        mouths.len() == 2,
        inlet < 2,
        is_outlet_of(mouths, inlet, wanted, outlet),
        outlet is Some,
        is_outlet_of(mouths, outlet->Some_0, wanted, again),
    ensures
        outlet->Some_0 == 1 - inlet,
        again == Some(inlet),
{
    lemma_first_outlet(mouths, 0);
}

proof fn lemma_first_outlet(mouths: Seq<PatchView>, i: int)
    requires
        0 <= i <= mouths.len(),
    ensures
        i <= first_outlet(mouths, i) <= mouths.len(),
        forall|j: int| i <= j < first_outlet(mouths, i) ==> !(#[trigger] mouths[j]).is_outlet,
        first_outlet(mouths, i) < mouths.len() ==> mouths[first_outlet(mouths, i)].is_outlet,
    decreases mouths.len() - i,
{
    if i < mouths.len() && !mouths[i].is_outlet {
        lemma_first_outlet(mouths, i + 1);
    }
}

/// The outlet is never the inlet, and it is one of the mouths.
pub proof fn the_outlet_is_another_mouth(
    mouths: Seq<PatchView>,
    inlet: usize,
    wanted: Option<usize>,
    outlet: Option<usize>,
)
    requires
        mouths.len() <= usize::MAX,
        is_outlet_of(mouths, inlet, wanted, outlet),
    ensures
        outlet is Some <==> mouths.len() >= 2,
        outlet matches Some(o) ==> o < mouths.len() && o != inlet,
{
    lemma_first_outlet(mouths, 0);
}

/// The order that picks the largest mouth agrees with that of the numbers, and tells any
/// two patterns apart.
pub proof fn the_order_of_areas_is_total(a: u32, b: u32)
    ensures
        lt32(a, b) ==> total_key(a) < total_key(b),
        total_key(a) == total_key(b) ==> a == b,
        total_key(0x8000_0000) < total_key(0),
{
}

/// The outlet is the mouth that is marked, else the wanted one, else the largest: each
/// unless it is the inlet.
pub proof fn the_mark_then_the_wish_then_the_size_decides(
    mouths: Seq<PatchView>,
    inlet: usize,
    wanted: Option<usize>,
    outlet: usize,
    k: int,
)
    requires
        mouths.len() <= usize::MAX,
        is_outlet_of(mouths, inlet, wanted, Some(outlet)),
        0 <= k < mouths.len(),
    ensures
        mouths[k].is_outlet && k != inlet && (forall|j: int|
            0 <= j < k ==> !(#[trigger] mouths[j]).is_outlet) ==> outlet == k,
        (forall|j: int| 0 <= j < mouths.len() ==> !(#[trigger] mouths[j]).is_outlet) ==> {
            &&& wanted matches Some(o) ==> (o < mouths.len() && o != inlet ==> outlet == o)
            &&& wanted is None && inlet < mouths.len() && k != inlet ==> mouths.len() == 2 || !lt32(
                mouths[outlet as int].open_area_mm2,
                mouths[k].open_area_mm2,
            )
        },
{
    lemma_first_outlet(mouths, 0);
    let m = first_outlet(mouths, 0);
    if m < mouths.len() {
        assert(mouths[m].is_outlet);
    }
}

} // verus!
