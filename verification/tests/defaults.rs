use aeroduct::autotune::AutoTuneConfig;
use aeroduct::camera_input::CameraInput;
use aeroduct::collision::CollisionModel;
use aeroduct::config::{SolverConfig, Vec3};
use aeroduct::lattice::VelocitySet;
use aeroduct::overlays::{
    IsoSettings, ParticleSeed, ParticleSettings, SliceSettings, StreamlineSettings,
};
use aeroduct::params::SimParams;
use aeroduct::platform::WinitPlatform;
use aeroduct::precision::DdfPrecision;
use aeroduct::state::{PanelVisibility, PlotTab, UiState};
use aeroduct::toast::Severity;
use aeroduct::view::{ResolutionPanel, StatsWindowView, MAX_MM, MIN_MM};
use aeroduct::volume::VolumeSettings;

fn f(x: u32) -> f32 {
    f32::from_bits(x)
}

fn d(x: u64) -> f64 {
    f64::from_bits(x)
}

fn xyz(v: Vec3) -> [f32; 3] {
    [f(v.x), f(v.y), f(v.z)]
}

#[test]
fn the_solver_opens_with_the_stable_settings() {
    let c = SolverConfig::default();
    assert_eq!((c.set, c.precision), (VelocitySet::D3Q19, DdfPrecision::Fp32));
    assert_eq!((c.collision, c.periodic), (CollisionModel::Trt, [false; 3]));
    assert_eq!((c.workgroup_size, c.macroscopic_buffer), (64, false));
    assert_eq!((f(c.tau0), f(c.trt_lambda), f(c.tau_max)), (0.6, 3.0 / 16.0, 1.0));
    assert_eq!((f(c.outflow_velocity), f(c.sponge_strength), c.sponge_cells), (0.0, 0.0, 0));
    assert_eq!((f(c.rho_ref), d(c.dt_s)), (1.0, 1.0));
    assert_eq!(xyz(c.inlet_normal), [1.0, 0.0, 0.0]);
    assert_eq!(xyz(c.outlet_normal), [1.0, 0.0, 0.0]);
    assert_eq!(xyz(c.body_force), [0.0; 3]);
    assert_eq!(xyz(c.inlet_slot(0).normal), [1.0, 0.0, 0.0]);
    assert!(!c.inlet_slot(2).local_density && !c.outlet_anti_bounce_back);
}

#[test]
fn the_parameters_open_at_a_vent_speed() {
    let p = SimParams::new(1.2f64.to_bits(), 1.5e-5f64.to_bits());
    assert_eq!((f(p.inlet_velocity_ms), f(p.dx_mm), d(p.u_lb)), (3.0, 0.75, 0.05));
    assert_eq!((d(p.rho), d(p.nu)), (1.2, 1.5e-5));
    assert_eq!((f(p.smagorinsky_c), f(p.trt_lambda), p.sponge_cells), (0.17, 3.0 / 16.0, 20));
    assert_eq!((p.inlet_mouth, p.outlet_mouth, p.domain_mm), (0, None, None));
}

#[test]
fn the_overlays_open_as_documented() {
    let p = ParticleSettings::default();
    assert_eq!((p.count, p.trail, p.seed), (20_000, 8, ParticleSeed::Inlet));
    assert_eq!((f(p.lifetime_s), f(p.speed_scale)), (4.0, 1.0));
    assert_eq!((f(p.size_px), f(p.reseed_rate)), (2.5, 0.25));
    let i = IsoSettings::default();
    assert_eq!((f(i.level), f(i.opacity)), (0.5, 0.85));
    let s = StreamlineSettings::default();
    assert_eq!((s.count, s.max_steps, s.bidirectional), (256, 2000, true));
    assert_eq!((f(s.step_cells), f(s.width_px)), (0.5, 1.5));
    let s = SliceSettings::default();
    assert_eq!((s.name.as_str(), xyz(s.normal)), ("slice", [0.0, 1.0, 0.0]));
    assert_eq!((f(s.vector_spacing_mm), f(s.vector_scale), f(s.opacity)), (2.0, 1.0, 1.0));
}

#[test]
fn the_controls_open_as_documented() {
    let c = CameraInput::default();
    assert_eq!((f(c.wheel_gain), f(c.dolly_drag_pixels), c.invert_orbit_y), (1.0, 60.0, false));
    let t = AutoTuneConfig::default();
    assert_eq!((f(t.frame_budget_s), t.min_steps, t.max_steps), (1.0 / 60.0, 1, 4096));
    assert_eq!((f(t.dead_band), f(t.max_ratio), f(t.smoothing)), (0.12, 2.0, 0.15));
    assert_eq!((t.latency_frames, f(t.overhead_smoothing)), (2, 0.15));
    let presets = ResolutionPanel::presets_mm().map(f);
    assert_eq!(presets, [1.0, 0.75, 0.5, 0.4, 0.3]);
    assert_eq!((f(MIN_MM), f(MAX_MM)), (0.2, 3.0));
    assert_eq!(d(StatsWindowView::default().flow_throughs_target), 15.0);
    let w = WinitPlatform::default();
    assert_eq!((f(w.logical_size.x), f(w.logical_size.y)), (1280.0, 800.0));
    let p = PanelVisibility::default();
    assert!(p.layers && p.properties && p.plots && p.hud && p.legend && !p.diagnostics);
    assert_eq!(PlotTab::all().map(|t| t.label())[3], "RTD E(t)");
    let s = UiState::new(SimParams::new(0, 0));
    assert_eq!((s.gizmo_snap_mm.map(f), s.gizmo_snap_deg.map(f)), (Some(0.5), Some(15.0)));
    assert!(s.playing && s.slices.is_empty() && s.mouths.is_empty());
    assert_eq!((s.probes.history, s.probes.items.len()), (2048, 0));
    let layers: Vec<(&str, bool)> =
        s.layers.layers.iter().map(|l| (l.name.as_str(), l.visible)).collect();
    assert_eq!(layers.len(), 7);
    assert_eq!(layers[..4], [
        ("Duct", true),
        ("Particles", true),
        ("Volume", true),
        ("Q-isosurface", false),
    ]);
}

#[test]
fn toasts_live_as_long_as_they_matter() {
    let seconds = |s: Severity| s.lifetime_s().map(f);
    assert_eq!(seconds(Severity::Info), Some(3.0));
    assert_eq!(seconds(Severity::Notice), Some(5.0));
    assert_eq!(seconds(Severity::Warning), Some(9.0));
    assert_eq!(seconds(Severity::Critical), None);
    assert_eq!(Severity::Critical.prefix(), "ERROR: ");
    assert_eq!(Severity::Warning.prefix(), "warning: ");
}

#[test]
fn the_volume_opens_at_half_resolution() {
    let v = VolumeSettings::default();
    assert_eq!((f(v.step_scale), f(v.density), v.max_steps), (1.0, 1.0, 2048));
    assert_eq!((f(v.shading), f(v.specular), f(v.front_alpha)), (0.75, 0.35, 0.1));
    assert_eq!((xyz(v.ambient), v.resolution_divisor), ([0.16, 0.18, 0.22], 2));
    let n = (0.45f32 * 0.45 + 0.75 * 0.75 + 0.48 * 0.48).sqrt();
    for (got, want) in xyz(v.light_dir).into_iter().zip([0.45f32, 0.75, 0.48]) {
        assert!((got - want / n).abs() < 1e-6);
    }
}
