use aeroduct::autotune::{Arithmetic, AutoTuneConfig, StepAutoTuner, TunerLaw};
use aeroduct::clock::{Clock, RateMeter};
use aeroduct::config::Vec3;
use aeroduct::dock::{DockLayout, Panel};
use aeroduct::gizmo::{GizmoReading, GizmoSubject};
use aeroduct::hud::{chip_tip, warning_badge, window_tip, x_label};
use aeroduct::keys::{
    map_cursor, map_key, map_mouse_button, CursorIcon, Key, KeyCode, MouseButton, MouseCursor,
    WindowButton,
};
use aeroduct::layers::LayerKind;
use aeroduct::legend::{RangeScale, TransferFunction};
use aeroduct::overlays::{
    snap_for, GizmoMode, GizmoSpace, IsoSettings, ParticleSettings, Placement, Probes, Quat,
    SliceSettings, StreamlineSettings, VentSettings,
};
use aeroduct::panels::{
    compressibility_warning, cost_line, curve_point_to_remove, gib, resolution_detail,
    resolution_summary, CostLine, Scratch,
};
use aeroduct::params::{ParamWatcher, SimParams};
use aeroduct::platform::{Capture, Modifiers, UiInput, WindowInput, WinitPlatform};
use aeroduct::pose::{InstallPose, LouverAim};
use aeroduct::state::{Rect, UiAction, UiState, Vec2};
use aeroduct::view::{
    Health, PatchView, Reading, ReadingArithmetic, ResetCause, ResolutionEstimate,
};

fn f(x: u32) -> f32 {
    f32::from_bits(x)
}

fn d(x: u64) -> f64 {
    f64::from_bits(x)
}

fn v(x: f32, y: f32, z: f32) -> Vec3 {
    Vec3::new(x.to_bits(), y.to_bits(), z.to_bits())
}

fn params() -> SimParams {
    SimParams::new(1.204f64.to_bits(), 1.516e-5f64.to_bits())
}

fn state() -> UiState {
    UiState::new(params())
}

// ---- parameters ----

#[test]
fn a_fast_lattice_is_warned_about() {
    let warn = |speed: f64| compressibility_warning(speed.to_bits(), &format!("{speed:.3}"));
    assert_eq!(warn(0.05), None);
    assert_eq!(warn(0.1), None);
    assert_eq!(warn(f64::NAN), None);
    assert_eq!(
        warn(0.125).as_deref(),
        Some("lattice speed 0.125: compressibility error rising")
    );
}

#[test]
fn the_box_margins_rebuild_and_a_vent_edit_hot_applies() {
    let p = params();
    let mut w = ParamWatcher::new(p);
    let mut q = p;
    q.domain_mm = Some([58.0f32, 58.0, 58.0, 150.0, 58.0, 58.0].map(f32::to_bits));
    let c = w.observe(q);
    assert!(c.rebuild && c.reset_statistics, "{c:?}");
    assert_eq!(c.cause, Some(ResetCause::DomainChanged));
    let mut r = q;
    r.vent_generation += 1;
    let c = w.observe(r);
    assert!(c.hot_apply && !c.rebuild && c.reset_statistics, "{c:?}");
    assert_eq!(c.cause, Some(ResetCause::VentChanged));
}

#[test]
fn an_inlet_angle_is_hot_applied_and_resets_the_statistics() {
    let p = params();
    let mut w = ParamWatcher::new(p);
    let mut q = p;
    q.inlet_tilt_deg = [20.0f32.to_bits(), 0];
    let c = w.observe(q);
    assert!(c.hot_apply && !c.rebuild && c.reset_statistics, "{c:?}");
    assert_eq!(c.cause, Some(ResetCause::InletAngle));
}

#[test]
fn nothing_changing_costs_nothing_and_reports_nothing() {
    let p = params();
    let mut w = ParamWatcher::new(p);
    assert!(w.observe(p).is_none());
    assert!(w.observe(p).is_none(), "repeated identical frames must stay quiet");
}

#[test]
fn classify_previews_a_change_without_committing_it() {
    let p = params();
    let mut w = ParamWatcher::new(p);
    let finer = SimParams { dx_mm: 0.5f32.to_bits(), ..p };

    let preview = w.classify(&finer);
    assert!(preview.rebuild, "a resolution change must rebuild");
    assert!(preview.reset_statistics);
    assert_eq!(preview.cause, Some(ResetCause::ResolutionChanged));
    assert_eq!(w.classify(&finer), preview, "asking twice must see the same change");
    assert_eq!(w.current().dx_mm, p.dx_mm, "asking must not adopt");
    assert!(w.observe(p).is_none());
    assert_eq!(w.observe(finer), preview);
    assert!(w.observe(finer).is_none());
}

#[test]
fn the_inlet_slider_hot_applies_and_resets_statistics() {
    let p = params();
    let mut w = ParamWatcher::new(p);
    let c = w.observe(SimParams { inlet_velocity_ms: 5.0f32.to_bits(), ..p });
    assert!(c.hot_apply);
    assert!(!c.rebuild, "the velocity must never trigger a rebuild");
    assert!(c.reset_statistics);
    assert_eq!(c.cause, Some(ResetCause::InletVelocity));
}

#[test]
fn swapping_the_inlet_rebuilds_and_says_so() {
    let p = params();
    let mut w = ParamWatcher::new(p);
    let c = w.observe(SimParams { inlet_mouth: 1, ..p });
    assert!(c.rebuild, "the flag field changes, so the solver is rebuilt");
    assert!(!c.hot_apply, "a rebuild subsumes the uniform write");
    assert!(c.reset_statistics);
    assert_eq!(c.cause, Some(ResetCause::InletOutletSwapped));
}

#[test]
fn a_resolution_change_outranks_a_simultaneous_velocity_change_in_the_message() {
    let p = params();
    let mut w = ParamWatcher::new(p);
    let c = w.observe(SimParams {
        dx_mm: 0.4f32.to_bits(),
        inlet_velocity_ms: 8.0f32.to_bits(),
        ..p
    });
    assert_eq!(c.cause, Some(ResetCause::ResolutionChanged));
    assert!(c.rebuild && c.reset_statistics);
}

#[test]
fn geometry_and_shader_generations_are_detected() {
    let p = params();
    let mut w = ParamWatcher::new(p);
    assert_eq!(
        w.observe(SimParams { geometry_generation: 1, ..p }).cause,
        Some(ResetCause::GeometryChanged)
    );
    let p = *w.current();
    assert_eq!(
        w.observe(SimParams { shader_generation: 1, ..p }).cause,
        Some(ResetCause::SolverRestarted)
    );
}

#[test]
fn the_rebuild_hash_ignores_the_inlet_velocity_but_the_stats_hash_does_not() {
    let a = params();
    let b = SimParams { inlet_velocity_ms: 7.5f32.to_bits(), ..a };
    assert_eq!(a.rebuild_hash(), b.rebuild_hash());
    assert_ne!(a.statistics_hash(), b.statistics_hash());
}

#[test]
fn every_rebuild_trigger_also_invalidates_the_statistics() {
    let base = params();
    let variants = [
        SimParams { dx_mm: 0.4f32.to_bits(), ..base },
        SimParams { u_lb: 0.1f64.to_bits(), ..base },
        SimParams { rho: 1.0f64.to_bits(), ..base },
        SimParams { nu: 1.0e-5f64.to_bits(), ..base },
        SimParams { inlet_mouth: 1, ..base },
        SimParams { sponge_cells: 4, ..base },
        SimParams { geometry_generation: 9, ..base },
        SimParams { shader_generation: 9, ..base },
    ];
    for v in variants {
        assert_ne!(v.rebuild_hash(), base.rebuild_hash(), "{v:?} should rebuild");
        assert_ne!(
            v.statistics_hash(),
            base.statistics_hash(),
            "{v:?} rebuilds but claims the statistics survive"
        );
    }
}

#[test]
fn a_nan_parameter_does_not_reset_the_statistics_on_every_frame() {
    let p = SimParams { inlet_velocity_ms: f32::NAN.to_bits(), ..params() };
    let mut w = ParamWatcher::new(p);
    assert!(w.observe(p).is_none());
    assert_eq!(p.statistics_hash(), p.statistics_hash());
    let other = SimParams { inlet_velocity_ms: 0xffc0_0001, ..p };
    assert!(w.observe(other).is_none(), "every NaN is the same one");
}

fn inlet_direction(p: &SimParams, n: [f32; 3], axis: usize) -> [f32; 3] {
    let tangents = |a: u32, b: u32| {
        let tan = |x: u32| f32::from_bits(x).to_radians().tan().to_bits();
        (tan(a), tan(b))
    };
    let cap = |x: u32, y: u32| {
        let (x, y) = (f32::from_bits(x), f32::from_bits(y));
        let (length, cap) = ((x * x + y * y).sqrt(), 60f32.to_radians().tan());
        let k = if length > cap { cap / length } else { 1.0 };
        ((x * k).to_bits(), (y * k).to_bits())
    };
    let n = Vec3::new(n[0].to_bits(), n[1].to_bits(), n[2].to_bits());
    let d = p.inlet_direction(n, axis, &tangents, &cap);
    [d.x, d.y, d.z].map(f32::from_bits)
}

#[test]
fn a_tilted_inlet_keeps_its_normal_component() {
    let tilted = |a: f32, b: f32| SimParams {
        inlet_tilt_deg: [a.to_bits(), b.to_bits()],
        ..params()
    };
    for n in [[0.0, 0.0, 1.0f32], [0.0, 0.0, -1.0]] {
        assert_eq!(inlet_direction(&tilted(0.0, 0.0), n, 2), n);
        let d = inlet_direction(&tilted(30.0, -10.0), n, 2);
        assert_eq!(d[2] * n[2], 1.0, "the flow rate is the untilted one");
        assert!((d[0] - 30f32.to_radians().tan()).abs() < 1e-6, "e1 of axis 2 is x");
        assert!((d[1] - (-10f32).to_radians().tan()).abs() < 1e-6, "e2 of axis 2 is y");
    }
    let d = inlet_direction(&tilted(89.0, 89.0), [0.0, 0.0, 1.0], 2);
    let length = (d[0] * d[0] + d[1] * d[1] + d[2] * d[2]).sqrt();
    assert!(length <= 2.0 + 1e-5, "capped at 60 degrees off-normal: {d:?}");
    assert_eq!(inlet_direction(&tilted(f32::NAN, 0.0), [0.0, 0.0, 1.0], 2), [0.0, 0.0, 1.0]);

    let one = 1f32.to_radians().tan();
    let two = 2f32.to_radians().tan();
    assert_eq!(inlet_direction(&tilted(1.0, 2.0), [1.0, 0.0, 0.0], 0), [1.0, one, two]);
    assert_eq!(inlet_direction(&tilted(1.0, 2.0), [0.0, 1.0, 0.0], 1), [two, 1.0, one]);
    assert_eq!(inlet_direction(&tilted(1.0, 2.0), [0.0, 0.0, 1.0], 5), [one, two, 1.0]);
}

#[test]
fn invalidate_forces_one_reset_and_then_settles() {
    let p = params();
    let mut w = ParamWatcher::new(p);
    w.invalidate();
    let c = w.observe(p);
    assert!(c.reset_statistics);
    assert!(w.observe(p).is_none(), "the forced reset must not repeat");
}

// ---- overlays ----

#[test]
fn a_vent_is_typed_within_limits() {
    let v = VentSettings::new("v", Placement::default(), 140.0f32.to_bits(), 15.0f32.to_bits());
    let mut moved = v.clone();
    moved.type_width(141.0f32.to_bits());
    assert!(!v.same_cells(&moved));
    moved.type_width(f32::NAN.to_bits());
    assert_eq!(f(moved.width_mm), 141.0);
    moved.type_width(0.0f32.to_bits());
    moved.type_height(5000.0f32.to_bits());
    assert_eq!((f(moved.width_mm), f(moved.height_mm)), (1.0, 1000.0));
}

#[test]
fn each_gizmo_operation_snaps_in_its_own_units() {
    let (mm, deg) = (Some(0.5f32.to_bits()), Some(15.0f32.to_bits()));
    assert_eq!(snap_for(GizmoMode::Translate, mm, deg), mm);
    assert_eq!(snap_for(GizmoMode::Rotate, mm, deg), deg);
    assert_eq!(snap_for(GizmoMode::Scale, mm, deg), None);
    assert_eq!(snap_for(GizmoMode::Rotate, mm, None), None, "no snap means none");
}

#[test]
fn probe_ids_are_never_reused() {
    let mut p = Probes::new();
    let a = p.add(v(0.0, 0.0, 0.0));
    let b = p.add(v(1.0, 0.0, 0.0));
    assert!(p.remove(a));
    let c = p.add(v(0.0, 1.0, 0.0));
    assert_ne!(c, a);
    assert_ne!(c, b);
    assert_eq!(p.len(), 2);
    assert!(!p.remove(a), "removing twice must report nothing happened");
}

#[test]
fn an_empty_probe_list_starts_at_one_and_finds_the_first() {
    let mut p = Probes::default();
    assert_eq!((p.len(), p.history), (0, 0));
    assert_eq!(p.add(v(0.0, 0.0, 0.0)), 1);
    let b = p.add(v(1.0, 0.0, 0.0));
    p.items_mut()[1].id = 1;
    assert_eq!(p.get(1).unwrap().position_mm, v(0.0, 0.0, 0.0));
    p.get_mut(1).unwrap().visible = false;
    assert!(!p.items()[0].visible && p.items()[1].visible);
    assert!(p.get(b).is_none());
}

#[test]
fn adding_a_probe_selects_it_and_deselects_the_rest() {
    let mut p = Probes::new();
    p.add(v(0.0, 0.0, 0.0));
    let b = p.add(v(1.0, 0.0, 0.0));
    assert_eq!(p.selected().map(|x| x.id), Some(b));
    assert_eq!(p.items().iter().filter(|x| x.selected).count(), 1);
    p.select(None);
    assert!(p.selected().is_none());
}

#[test]
fn probe_history_is_bounded_and_clearable() {
    let mut p = Probes::new();
    p.history = 16;
    let id = p.add(v(0.0, 0.0, 0.0));
    for i in 0..100 {
        let (t, pa) = ((i as f64).to_bits(), (i as f64 * 0.1).to_bits());
        p.record(id, t, pa, v(i as f32, 0.0, 0.0), t, true);
    }
    let probe = p.get(id).unwrap();
    assert_eq!(probe.pressure.x.len(), 16);
    assert_eq!(probe.speed.x.len(), 16);
    assert!((f(probe.velocity_ms.x) - 99.0).abs() < 1e-6);
    p.clear_history();
    assert!(p.get(id).unwrap().pressure.is_empty(), "a reset must drop probe history too");
    assert_eq!(p.len(), 1, "the probes themselves survive");
}

#[test]
fn recording_marks_a_probe_that_landed_in_solid() {
    let mut p = Probes::new();
    let id = p.add(v(0.0, 0.0, 0.0));
    p.record(id, 0, 0, v(0.0, 0.0, 0.0), 0, false);
    assert!(!p.get(id).unwrap().in_fluid, "a probe inside the wall reads nonsense");
}

#[test]
fn defaults_are_sane_for_a_fresh_session() {
    assert!(ParticleSettings::default().enabled);
    assert!(!IsoSettings::default().enabled, "an empty isosurface looks like a bug");
    assert!(!StreamlineSettings::default().enabled);
    assert_eq!(GizmoMode::default(), GizmoMode::Translate);
    assert_eq!(GizmoSpace::default(), GizmoSpace::World);
}

// ---- state ----

type Binary64 = fn(u64, u64) -> u64;

fn readings() -> ReadingArithmetic<Binary64, Binary64, Binary64, Binary64> {
    ReadingArithmetic {
        quadrature: |a, b| (d(a).powi(2) + d(b).powi(2)).sqrt().to_bits(),
        minus: |a, b| (d(a) - d(b)).to_bits(),
        times: |a, b| (d(a) * d(b)).to_bits(),
        divide: divide64,
    }
}

fn comparable(s: &UiState) -> Option<bool> {
    s.baseline_comparable(&arithmetic().divide)
}

#[test]
fn actions_queue_and_drain_once() {
    let mut s = state();
    s.push_action(UiAction::ResetSolver);
    s.push_action(UiAction::SetPlaying(false));
    assert_eq!(s.pending_actions().len(), 2);
    let drained = s.drain_actions();
    assert_eq!(drained.len(), 2);
    assert!(s.drain_actions().is_empty(), "actions must not be delivered twice");
}

#[test]
fn changing_a_parameter_raises_exactly_one_visible_reset() {
    let mut s = state();
    assert!(s.sync_params().is_none());
    assert!(s.toasts.is_empty());

    s.params.inlet_velocity_ms = 5.0f32.to_bits();
    let change = s.sync_params();
    assert!(change.reset_statistics && change.hot_apply && !change.rebuild);
    assert_eq!(s.toasts.len(), 1);
    assert!(
        s.toasts.items()[0].detail.contains("inlet velocity"),
        "the toast must name the cause"
    );
    s.sync_params();
    assert_eq!(s.toasts.len(), 1);
}

#[test]
fn a_change_that_was_reverted_is_never_announced() {
    let mut s = state();
    let running = s.committed_params();
    s.params.dx_mm = 0.3f32.to_bits();

    let preview = s.peek_params();
    assert!(preview.rebuild && preview.reset_statistics);
    assert!(s.toasts.is_empty(), "peeking must not toast");
    assert_eq!(s.committed_params().dx_mm, running.dx_mm, "peeking must not commit");

    s.revert_params();
    assert_eq!(s.params.dx_mm, running.dx_mm);
    assert!(s.sync_params().is_none());
    assert!(s.toasts.is_empty(), "a change that never took effect must not be announced");
}

#[test]
fn a_statistics_reset_also_drops_probe_history() {
    let mut s = state();
    let id = s.probes.add(v(0.0, 0.0, 0.0));
    for i in 0..10 {
        let t = (i as f64).to_bits();
        s.probes.record(id, t, 1.0f64.to_bits(), v(1.0, 0.0, 0.0), t, true);
    }
    assert!(!s.probes.get(id).unwrap().pressure.is_empty());
    s.params.inlet_velocity_ms = 4.0f32.to_bits();
    s.sync_params();
    assert!(s.probes.get(id).unwrap().pressure.is_empty());
}

#[test]
fn an_explicit_reset_still_produces_a_toast() {
    let mut s = state();
    s.invalidate_statistics();
    let c = s.sync_params();
    assert!(c.reset_statistics);
    assert_eq!(c.cause, Some(ResetCause::Manual));
    assert_eq!(s.toasts.len(), 1);
    assert!(s.toasts.items()[0].detail.starts_with("statistics reset by hand"));
    assert!(s.sync_params().is_none());
    assert_eq!(s.toasts.len(), 1);
}

#[test]
fn swapping_the_inlet_is_one_action_and_is_reversible() {
    let mut s = state();
    s.mouths = vec![PatchView::default(), PatchView::default()];
    assert_eq!(s.outlet_mouth(), Some(1));
    s.swap_inlet_outlet();
    assert_eq!(s.params.inlet_mouth, 1);
    assert_eq!(s.drain_actions(), vec![UiAction::SetInletMouth(1)]);
    s.swap_inlet_outlet();
    assert_eq!(s.params.inlet_mouth, 0);
}

fn mouth(area: f32) -> PatchView {
    PatchView { open_area_mm2: area.to_bits(), ..PatchView::default() }
}

#[test]
fn with_more_than_two_mouths_the_outlet_is_the_largest_of_the_rest() {
    let mut s = state();
    s.mouths = vec![mouth(2116.0), mouth(30.0), mouth(1141.0)];
    assert_eq!(s.outlet_mouth(), Some(2), "a drain hole is not the outlet");
    s.params.inlet_mouth = 2;
    assert_eq!(s.outlet_mouth(), Some(0));
    s.params.outlet_mouth = Some(1);
    assert_eq!(s.outlet_mouth(), Some(1), "what the user asked for");
    s.mouths[0].is_outlet = true;
    assert_eq!(s.outlet_mouth(), Some(0), "what was built");
}

#[test]
fn a_single_mouth_has_no_outlet_and_swapping_does_nothing() {
    let mut s = state();
    s.mouths = vec![PatchView::default()];
    assert_eq!(s.outlet_mouth(), None);
    s.swap_inlet_outlet();
    assert!(s.pending_actions().is_empty());
}

fn rect(x: f32, y: f32, w: f32, h: f32) -> Rect {
    Rect { x: x.to_bits(), y: y.to_bits(), w: w.to_bits(), h: h.to_bits() }
}

fn ndc(s: &UiState, x: f32, y: f32) -> Option<(f32, f32)> {
    let within = |r: Rect, p: Vec2| Vec2 {
        x: ((f(p.x) - f(r.x)) / f(r.w)).to_bits(),
        y: ((f(p.y) - f(r.y)) / f(r.h)).to_bits(),
    };
    let to_ndc = |uv: Vec2| Vec2 {
        x: (f(uv.x) * 2.0 - 1.0).to_bits(),
        y: (1.0 - f(uv.y) * 2.0).to_bits(),
    };
    s.viewport_ndc(Vec2 { x: x.to_bits(), y: y.to_bits() }, &within, &to_ndc)
        .map(|p| (f(p.x), f(p.y)))
}

#[test]
fn viewport_picking_flips_y_and_rejects_clicks_outside() {
    let mut s = state();
    s.viewport_rect = rect(100.0, 50.0, 800.0, 400.0);
    let c = ndc(&s, 500.0, 250.0).unwrap();
    assert!(c.0.abs() < 1e-6 && c.1.abs() < 1e-6, "centre should be NDC origin: {c:?}");
    assert!(ndc(&s, 500.0, 50.0).unwrap().1 > 0.99);
    assert!(ndc(&s, 500.0, 450.0).unwrap().1 < -0.99);
    assert!(ndc(&s, 50.0, 250.0).is_none(), "a click on the layer panel is not a pick");
    assert!(ndc(&s, 500.0, 500.0).is_none());
}

#[test]
fn a_degenerate_viewport_does_not_divide_by_zero() {
    let mut s = state();
    s.viewport_rect = rect(0.0, 0.0, 0.0, 0.0);
    assert!(ndc(&s, 0.0, 0.0).is_none());
}

#[test]
fn a_senseless_dpi_factor_counts_as_one() {
    let mut s = state();
    for bad in [0.0f32, -1.0, f32::NAN, f32::INFINITY] {
        s.ui_scale = bad.to_bits();
        assert_eq!(f(s.logical_scale()), 1.0);
    }
    s.ui_scale = 1.5f32.to_bits();
    assert_eq!(f(s.logical_scale()), 1.5);
}

#[test]
fn the_baseline_drives_the_deltas_and_reports_comparability() {
    let mut s = state();
    let dp = |x: f64| Reading::new(x.to_bits(), 0.6f64.to_bits(), Health::Good, 200);
    s.metrics.pressure_drop = dp(47.3);
    s.save_baseline("as loaded", 12_000, &readings());
    assert_eq!(comparable(&s), Some(true));
    assert!(s.deltas.is_some());
    assert_eq!(
        s.toasts.items()[0].detail,
        "\"as loaded\" at step 12000; the HUD now shows deltas"
    );

    s.metrics.pressure_drop = dp(41.0);
    s.refresh_deltas(&readings());
    assert_eq!(s.deltas.unwrap().pressure_drop.improved, Some(true));

    s.params.inlet_velocity_ms = 8.0f32.to_bits();
    assert_eq!(comparable(&s), Some(false));

    s.clear_baseline();
    assert!(s.deltas.is_none());
    assert_eq!(comparable(&s), None);
}

#[test]
fn the_gizmo_only_arms_on_a_placeable_layer() {
    let mut s = state();
    let volume = s.layers.find(LayerKind::Volume).unwrap();
    s.layers.select(Some(volume));
    assert!(s.gizmo_target().is_none(), "the volume is not a placeable object");

    let obstruction = s.layers.push(LayerKind::Obstruction(0), "Vane");
    s.layers.select(Some(obstruction));
    assert_eq!(s.gizmo_target(), Some(obstruction));

    s.gizmo_mode = GizmoMode::Off;
    assert!(s.gizmo_target().is_none(), "'off' must actually suppress the gizmo");
}

#[test]
fn pointer_ownership_reaches_the_camera_mapping() {
    let mut s = state();
    assert!(s.pointer_ownership().viewport_has_mouse());
    s.ui_capture_mouse = true;
    assert!(!s.pointer_ownership().viewport_has_mouse());
    s.ui_capture_mouse = false;
    s.gizmo_active = true;
    assert!(!s.pointer_ownership().viewport_has_mouse());
}

#[test]
fn the_tilt_follows_the_louver_of_the_inlet_mouth() {
    let mut s = state();
    let project = |aim: LouverAim, _: Vec3, axis: usize, _: Quat| (aim.up_down, axis as u32);
    s.inlet_louver_deg = LouverAim { up_down: 20.0f32.to_bits(), sideways: 0 };
    s.sync_inlet_tilt(&project);
    assert_eq!(s.params.inlet_tilt_deg, [0, 0], "no mouth, no tilt");
    s.mouths = vec![PatchView { normal: v(0.0, -1.0, 0.0), ..PatchView::default() }];
    s.sync_inlet_tilt(&project);
    assert_eq!(s.params.inlet_tilt_deg, [20.0f32.to_bits(), 1]);
    assert!(s.is_tilted() && s.shows_inlet_arrow());
    s.vents.push(VentSettings::new("v", Placement::default(), 0, 0));
    assert!(!s.shows_inlet_arrow() && !s.louver_aims());
}

// ---- controls ----

#[test]
fn the_toolbar_queues_what_it_says() {
    let mut s = state();
    s.toggle_playing();
    s.step_once(0);
    s.reset_field();
    s.reset_statistics();
    s.set_inlet_velocity(4.0f32.to_bits());
    assert_eq!(
        s.drain_actions(),
        vec![
            UiAction::SetPlaying(false),
            UiAction::StepOnce(1),
            UiAction::ResetSolver,
            UiAction::ResetStatistics(ResetCause::Manual),
            UiAction::SetInletVelocity(4.0f32.to_bits()),
        ]
    );
    assert!(!s.playing);
    assert!(s.sync_params().reset_statistics);
}

#[test]
fn pinning_the_steps_keeps_the_count_within_limits() {
    let mut s = state();
    let mut scratch = Scratch::default();
    let steps = |s: &UiState| s.tuner.steps(&arithmetic().round);
    s.set_auto_steps(false, 20, &mut scratch, &float);
    assert!(!s.tuner.enabled);
    assert_eq!((steps(&s), scratch.manual_steps), (20, 20));
    s.pin_steps(9000, &mut scratch, &float);
    assert_eq!(steps(&s), 4096);
    s.set_auto_steps(true, 20, &mut scratch, &float);
    assert!(s.tuner.enabled);
    assert_eq!((steps(&s), scratch.manual_steps), (4096, 9000));
    s.choose_view(&mut scratch, 99, 7);
    assert_eq!(s.drain_actions(), vec![UiAction::ApplyViewPreset(6)]);
}

#[test]
fn the_scale_and_the_symmetric_lock_reach_both_ranges() {
    let mut s = state();
    let mut tf = TransferFunction {
        lo: (-2.0f32).to_bits(),
        hi: 8.0f32.to_bits(),
        scale: RangeScale::Linear,
        symmetric_lock: false,
    };
    let ordered = |tf: TransferFunction| TransferFunction { hi: 9.0f32.to_bits(), ..tf };
    s.set_symmetric(true, &mut tf, &ordered);
    assert!(tf.symmetric_lock && s.legend.symmetric);
    assert_eq!(f(tf.hi), 9.0, "the transfer function put itself in order");
    s.set_log_scale(true, &mut tf, &ordered);
    assert_eq!((tf.scale, s.legend.scale), (RangeScale::Log, RangeScale::Log));
    assert_eq!(f(s.legend.lo), 1e-4, "a log range starts above zero");
    s.set_log_scale(false, &mut tf, &ordered);
    assert_eq!((tf.scale, s.legend.scale), (RangeScale::Linear, RangeScale::Linear));
}

#[test]
fn a_layer_with_nothing_to_draw_cannot_be_clicked() {
    let mut s = state();
    let id = s.layers.find(LayerKind::Particles).unwrap();
    s.check_visible(id, false);
    assert!(!s.layers.get(id).unwrap().visible);
    s.layers.get_mut(id).unwrap().disable("no particles yet");
    s.check_visible(id, true);
    assert!(!s.layers.get(id).unwrap().visible);
    s.layers.get_mut(id).unwrap().enable();
    s.check_visible(id, true);
    assert!(s.layers.get(id).unwrap().visible);
}

#[test]
fn a_baseline_without_a_name_is_called_after_its_step() {
    assert_eq!(UiState::baseline_name("  ", "", 12_345), "step 12,345");
    assert_eq!(UiState::baseline_name(" wide ", "wide", 12_345), " wide ");
    let mut s = state();
    s.press_baseline("x", 3, &readings());
    s.press_clear_baseline();
    assert_eq!(s.drain_actions(), vec![UiAction::SaveBaseline, UiAction::ClearBaseline]);
}

fn estimate(dx: f32, blocker: Option<&str>) -> ResolutionEstimate {
    ResolutionEstimate {
        dx_mm: dx.to_bits(),
        domain_mm: None,
        dims: [347, 240, 240],
        cells: 19_987_200,
        vram_bytes: 1 << 30,
        budget_bytes: Some(8 << 30),
        steps_per_s: Some(1234.4f64.to_bits()),
        flow_through_s: Some(12.5f64.to_bits()),
        tau0: 0.50081f64.to_bits(),
        warnings: vec![],
        blocker: blocker.map(|b| b.to_string()),
    }
}

#[test]
fn apply_waits_for_the_cost_of_what_is_in_the_box() {
    let mut s = state();
    s.resolution.type_custom(0.5f32.to_bits());
    assert!(s.resolution_gate().blocked && !s.resolution_gate().unchanged);
    s.apply_resolution();
    assert!(s.drain_actions().is_empty());
    s.resolution.estimate = Some(estimate(0.5, Some("too big")));
    s.apply_resolution();
    assert!(s.drain_actions().is_empty());
    assert_eq!(cost_line(s.resolution.current_estimate(), false), CostLine::WontFit);
    s.resolution.estimate = Some(estimate(0.5, None));
    s.apply_resolution();
    assert_eq!(s.drain_actions(), vec![UiAction::SetResolution(0.5f32.to_bits())]);
    assert_eq!(cost_line(s.resolution.current_estimate(), false), CostLine::Fits { warned: false });
    assert_eq!(cost_line(None, false), CostLine::Waiting);
    s.resolution.type_custom(f32::NAN.to_bits());
    assert_eq!(f(s.resolution.pending_dx_mm), 0.5);
    s.resolution.type_custom(100.0f32.to_bits());
    assert_eq!(f(s.resolution.pending_dx_mm), 3.0);
    s.resolution.choose_preset(1);
    assert_eq!(s.resolution.chosen_preset(), Some(1));
    assert!(s.resolution_gate().unchanged);
}

#[test]
fn the_box_margins_are_held_and_applied() {
    let mut s = state();
    s.type_margin(3, 150.0f32.to_bits());
    s.type_margin(0, (-5.0f32).to_bits());
    s.type_margin(1, f32::INFINITY.to_bits());
    s.type_margin(2, 9999.0f32.to_bits());
    assert_eq!(s.pending_domain_mm.map(f), [0.0, 0.0, 2000.0, 150.0, 0.0, 0.0]);
    s.apply_domain();
    assert!(s.pending_actions().is_empty(), "nobody has costed it");
    let pending = s.pending_domain_mm;
    let dx = f(s.params.dx_mm);
    s.resolution.estimate =
        Some(ResolutionEstimate { domain_mm: Some(pending), ..estimate(dx, None) });
    s.apply_domain();
    s.automatic_domain();
    assert_eq!(s.drain_actions(), vec![UiAction::SetDomainMargins(pending)]);
    s.params.domain_mm = Some(pending);
    s.automatic_domain();
    assert_eq!(s.drain_actions(), vec![UiAction::ResetDomainMargins]);
}

#[test]
fn memory_is_written_as_double_precision_rounds_it() {
    let mut samples: Vec<u64> = vec![0, 1, 1 << 28, 3 << 28, 5 << 28, 1 << 30, u64::MAX];
    let mut x = 1u64;
    for i in 0..400u64 {
        x = x.wrapping_mul(6_364_136_223_846_793_005).wrapping_add(1_442_695_040_888_963_407 + i);
        samples.push(x);
        samples.push(x >> (i % 60));
    }
    for k in 0..200u64 {
        samples.push(((2 * k + 1) << 28) / 5 * 5);
        samples.push((2 * k + 1) << 27);
    }
    for n in samples {
        let want = format!("{:.1} GiB", n as f64 / (1u64 << 30) as f64);
        assert_eq!(gib(n), want, "{n} bytes");
    }
}

#[test]
fn the_cost_is_spelled_out() {
    let e = estimate(0.75, None);
    assert_eq!(
        resolution_summary(&e, "20.0", "12.50 s"),
        "20.0 M cells | 1.0 GiB of 8.0 GiB | 12.50 s per flow-through"
    );
    assert_eq!(
        resolution_detail(&e, true, 1234, "0.75", "12.50 s", "0.50081"),
        "running: 347 x 240 x 240 = 19,987,200 cells at 0.75 mm\nGPU memory: 1.0 GiB for the \
         lattice, of 8.0 GiB the app allows itself\nabout 1,234 steps/s, so 12.50 s per \
         flow-through\ntau = 0.50081"
    );
    let unknown =
        ResolutionEstimate { budget_bytes: None, steps_per_s: None, flow_through_s: None, ..e };
    assert_eq!(
        resolution_summary(&unknown, "20.0", ""),
        "20.0 M cells | 1.0 GiB | speed unknown"
    );
    assert_eq!(
        resolution_detail(&unknown, false, 0, "0.75", "", "0.5"),
        "347 x 240 x 240 = 19,987,200 cells at 0.75 mm\nGPU memory: 1.0 GiB for the \
         lattice\nspeed unknown: nothing measured, and no bandwidth figure for this GPU\ntau = 0.5"
    );
}

#[test]
fn the_inlet_control_offers_up_to_four_mouths() {
    let mut s = state();
    assert_eq!(s.inlet_choices(), 0);
    s.mouths = (0..6).map(|i| mouth(i as f32)).collect();
    s.mouths[1].name = "front".to_string();
    s.mouths[2].is_outlet = true;
    assert_eq!(s.inlet_choices(), 4);
    assert_eq!((s.mouth_name(0), s.mouth_name(1)), ("A".to_string(), "front".to_string()));
    assert_eq!(UiState::mouth_role(&s.mouths[2]), "the outflow face");
    assert_eq!(UiState::mouth_role(&s.mouths[0]), "an open mouth");
    s.choose_inlet(1);
    s.press_swap();
    assert_eq!(
        s.drain_actions(),
        vec![
            UiAction::SetInletMouth(1),
            UiAction::SetInletMouth(2),
            UiAction::SwapInletOutlet,
        ]
    );
    s.choose_outlet(Some(2));
    assert_eq!(s.params.outlet_mouth, None, "the inlet cannot be the outlet");
    s.choose_outlet(Some(3));
    assert_eq!(s.params.outlet_mouth, Some(3));
}

#[test]
fn removing_a_layer_takes_its_own_data_with_it() {
    let mut s = state();
    for i in 0..3u8 {
        let name = format!("slice {i}");
        s.slices.push(SliceSettings::axis_aligned(&name, v(0.0, 0.0, 0.0), i));
    }
    let ids: Vec<_> = (0..3).map(|i| s.layers.push(LayerKind::Slice(i), "s")).collect();
    let vent = s.layers.push(LayerKind::Vent(0), "v");
    s.vents.push(VentSettings::new("v", Placement::default(), 0, 0));
    let stone = s.layers.push(LayerKind::Obstruction(0), "o");
    s.remove_layer(ids[0]);
    assert_eq!(s.slices.len(), 2);
    assert_eq!(s.layers.get(ids[2]).unwrap().kind, LayerKind::Slice(1));
    assert_eq!(s.slices[1].name, "slice 2");
    s.remove_layer(vent);
    s.remove_layer(stone);
    s.remove_layer(stone);
    assert!(s.vents.is_empty());
    assert_eq!(
        s.drain_actions(),
        vec![UiAction::RemoveSlice(0), UiAction::RemoveObstruction(0)]
    );
    assert!(LayerKind::Vent(0).is_removable() && !LayerKind::Duct.is_removable());
    assert!(LayerKind::Duct.has_opacity() && !LayerKind::Volume.has_opacity());
}

#[test]
fn removing_a_probe_tells_the_app() {
    let mut s = state();
    let id = s.probes.add(v(1.0, 2.0, 3.0));
    s.remove_probe(id);
    assert!(s.probes.is_empty());
    assert_eq!(s.drain_actions(), vec![UiAction::RemoveProbe(id)]);
}

#[test]
fn the_faces_of_the_box_are_named_after_the_mouths() {
    let mut s = state();
    s.mouths = vec![mouth(10.0), mouth(20.0)];
    s.mouths[0].normal = v(0.0, 0.0, 1.0);
    s.mouths[0].name = "A".to_string();
    s.mouths[1].normal = v(0.0, -1.0, 0.0);
    s.mouths[1].name = "B".to_string();
    let roles = s.face_roles();
    let want = [None, None, None, Some("past outlet B"), Some("behind inlet A"), None];
    assert_eq!(roles.iter().map(|r| r.as_deref()).collect::<Vec<_>>(), want);
}

#[test]
fn settings_are_held_to_their_ranges() {
    let mut s = state();
    s.type_duct_scale(100.0f32.to_bits());
    assert_eq!(f(s.duct.scale), 10.0);
    s.type_duct_scale(f32::NAN.to_bits());
    assert_eq!(f(s.duct.scale), 10.0);
    s.obstructions.push(Placement::default());
    s.set_obstruction_scale(0, 0);
    assert_eq!(f(s.obstructions[0].scale), 1e-3);
    s.set_snap(false);
    assert_eq!((s.gizmo_snap_mm, s.gizmo_snap_deg), (None, None));
    s.set_snap(true);
    assert_eq!(s.gizmo_snap_deg.map(f), Some(15.0));
    s.set_world_axes(false);
    assert_eq!(s.gizmo_space, GizmoSpace::Local);
    s.set_imperial(true);
    assert_eq!(s.units.label(), "imperial");
    s.choose_field(3);
    assert_eq!(s.drain_actions(), vec![UiAction::SetField(3)]);
    let mut scratch = Scratch { dragging_curve_point: Some(1), ..Scratch::default() };
    assert_eq!(curve_point_to_remove(&mut scratch, 9), Some(1));
    assert_eq!(curve_point_to_remove(&mut scratch, 9), Some(4));
    assert_eq!(curve_point_to_remove(&mut scratch, 2), None);
}

#[test]
fn a_locked_legend_ignores_the_panel() {
    let mut s = state();
    s.legend.locked = true;
    assert!(!s.auto_legend(Some((0, 5.0f32.to_bits()))));
    assert!(!s.edit_range(0, 7.0f32.to_bits()));
    assert_eq!(f(s.legend.hi), 1.0);
    s.legend.locked = false;
    assert!(s.auto_legend(Some((0, 5.0f32.to_bits()))));
    assert!(s.edit_range(0, 7.0f32.to_bits()));
    assert_eq!(f(s.legend.hi), 7.0);
    assert!(!s.auto_legend(None));
    assert_eq!(s.drain_actions(), vec![UiAction::AutoRangeLegend; 3]);
}

#[test]
fn the_gizmo_moves_what_is_selected() {
    let mut s = state();
    s.gizmo_active = true;
    assert_eq!(s.begin_gizmo(), None);
    assert!(!s.gizmo_active, "nothing is selected");
    let vent = s.layers.push(LayerKind::Vent(0), "v");
    s.layers.select(Some(vent));
    assert_eq!(s.begin_gizmo(), None, "its list has no such vent");
    s.vents.push(VentSettings::new("v", Placement::default(), 0, 0));
    assert_eq!(s.begin_gizmo(), Some(GizmoSubject::Vent(0)));
    let reading = GizmoReading {
        pose: InstallPose { offset_mm: v(1.0, 0.0, 0.0), ..InstallPose::default() },
        placement: Placement {
            translation_mm: v(9.0, 0.0, 0.0),
            scale: 20.0f32.to_bits(),
            ..Placement::default()
        },
        origin_mm: v(3.0, 0.0, 0.0),
        normal: v(0.0, 0.0, 1.0),
    };
    s.end_gizmo(GizmoSubject::Vent(0), true, false, reading);
    assert_eq!(s.vents[0].placement.translation_mm, v(9.0, 0.0, 0.0));
    assert_eq!(f(s.vents[0].placement.scale), 1.0, "a vent's size is its own fields");
    assert!(s.gizmo_active);
    s.gizmo_mode = GizmoMode::Scale;
    assert_eq!(s.begin_gizmo(), None);
    assert!(!s.gizmo_active);
    s.end_gizmo(GizmoSubject::Duct, true, true, reading);
    assert_eq!(f(s.duct.scale), 10.0);
    assert_eq!(s.install.offset_mm, v(1.0, 0.0, 0.0));
    s.slices.push(SliceSettings::default());
    s.end_gizmo(GizmoSubject::Slice(0), false, true, reading);
    assert_eq!(s.slices[0].origin_mm, v(0.0, 0.0, 0.0), "only hovered");
    s.end_gizmo(GizmoSubject::Slice(0), true, true, reading);
    assert_eq!(s.slices[0].origin_mm, v(3.0, 0.0, 0.0));
}

#[test]
fn the_hud_says_what_it_shows() {
    let mut s = state();
    s.metrics.pressure_drop =
        Reading::new(47.3f64.to_bits(), 0.6f64.to_bits(), Health::Good, 200);
    let chips = s.hud_chips();
    assert_eq!(chips.map(|c| c.name), ["Q", "dp", "K", "gamma", "theta", "U_max"]);
    assert_eq!(chips[1].quantity.unit, "Pa");
    assert_eq!(
        chip_tip(&chips[1], "47.3 +/- 0.6 Pa", Some("1.3%"), None),
        "dp: 47.3 +/- 0.6 Pa\nstate: good\nsamples: 200\nrelative error: 1.3%"
    );
    s.save_baseline("x", 1, &readings());
    s.metrics.pressure_drop =
        Reading::new(41.0f64.to_bits(), 0.6f64.to_bits(), Health::Good, 200);
    s.refresh_deltas(&readings());
    let tip = chip_tip(&s.hud_chips()[1], "41.0", None, Some(("-6.30", "-7.4")));
    assert!(tip.ends_with("\nvs baseline: -6.30 (-7.4 sigma, significant)"), "{tip}");
    s.metrics.stats.steps_in_window = 12_345;
    s.metrics.stats.last_reset = Some(ResetCause::Manual);
    let tip = window_tip(&s.metrics.stats);
    assert!(tip.starts_with("12,345 steps in this averaging window."), "{tip}");
    assert!(tip.ends_with(&format!("\n\nlast reset: {} (0 steps ago)", ResetCause::Manual.message())));
    assert_eq!(x_label(true), "step");
    assert_eq!(warning_badge(&vec![]), None);
    assert_eq!(warning_badge(&vec!["w".to_string()]).unwrap(), "[1 warning(s)]");
}

#[test]
fn the_dock_layout_is_valid_and_names_every_panel() {
    fn collect(layout: &DockLayout, out: &mut Vec<&'static str>) {
        match layout {
            DockLayout::Tabs(keys) => out.extend(keys.iter().map(|k| k.stable_id())),
            DockLayout::Split { first, second, .. } => {
                collect(first, out);
                collect(second, out);
            }
        }
    }
    fn empty_leaves(layout: &DockLayout) -> usize {
        match layout {
            DockLayout::Tabs(keys) => usize::from(keys.is_empty()),
            DockLayout::Split { first, second, .. } => empty_leaves(first) + empty_leaves(second),
        }
    }
    let layout = DockLayout::standard();
    let mut seen = Vec::new();
    collect(&layout, &mut seen);
    for want in ["toolbar", "layers", "properties", "legend", "plots", "diagnostics"] {
        assert!(seen.iter().any(|s| *s == want), "{want} is not in the layout");
    }
    assert_eq!(empty_leaves(&layout), 1, "the viewport hole is missing or duplicated");
    assert_eq!(Panel::Toolbar.title(), "Simulation");
}

// ---- platform ----

#[test]
fn every_letter_and_digit_has_a_key_mapping() {
    for code in [
        KeyCode::KeyA,
        KeyCode::KeyM,
        KeyCode::KeyZ,
        KeyCode::Digit0,
        KeyCode::Digit7,
        KeyCode::Digit9,
    ] {
        assert!(map_key(code).is_some(), "{code:?} is unmapped");
    }
    for d in 1..=7u32 {
        assert!(
            aeroduct::camera_input::preset_for_digit(d, 7).is_some(),
            "digit {d} should select a view preset"
        );
    }
}

#[test]
fn editing_and_navigation_keys_are_mapped() {
    for code in [
        KeyCode::Tab,
        KeyCode::Enter,
        KeyCode::NumpadEnter,
        KeyCode::Escape,
        KeyCode::Backspace,
        KeyCode::Delete,
        KeyCode::ArrowLeft,
        KeyCode::Home,
        KeyCode::End,
        KeyCode::ControlLeft,
        KeyCode::ShiftRight,
    ] {
        assert!(map_key(code).is_some(), "{code:?} is unmapped");
    }
    assert_eq!(map_key(KeyCode::Enter), map_key(KeyCode::NumpadEnter));
}

#[test]
fn unmapped_keys_are_reported_rather_than_defaulted() {
    assert!(map_key(KeyCode::Fn).is_none());
    assert!(map_key(KeyCode::MediaPlayPause).is_none());
    assert!(map_key(KeyCode::Unnamed).is_none());
}

#[test]
fn only_the_three_real_mouse_buttons_are_forwarded() {
    assert!(map_mouse_button(WindowButton::Left).is_some());
    assert!(map_mouse_button(WindowButton::Middle).is_some());
    assert!(map_mouse_button(WindowButton::Right).is_some());
    assert!(map_mouse_button(WindowButton::Back).is_none());
    assert!(map_mouse_button(WindowButton::Other(7)).is_none());
}

#[test]
fn framebuffer_size_is_the_logical_size_times_the_dpi_factor() {
    let pixels = |l: u32, s: u32| (f(l) * f(s)).round() as u32;
    let mut p = WinitPlatform::default();
    p.scale_factor = 2.0f32.to_bits();
    p.logical_size = Vec2 { x: 640.0f32.to_bits(), y: 400.0f32.to_bits() };
    assert_eq!(p.framebuffer_size(&pixels), (1280, 800));
    p.logical_size = Vec2 { x: 0, y: 0 };
    assert_eq!(p.framebuffer_size(&pixels), (1, 1));
}

#[test]
fn frame_options_never_pass_a_zero_delta() {
    for dt in [0.0f32, -1.0, f32::NAN] {
        assert_eq!(f(WinitPlatform::frame_delta(dt.to_bits())), 1.0e-6);
    }
    assert_eq!(f(WinitPlatform::frame_delta(0.5f32.to_bits())), 0.5);
}

#[test]
fn cursor_icons_cover_every_imgui_cursor() {
    for c in [
        MouseCursor::Arrow,
        MouseCursor::TextInput,
        MouseCursor::ResizeAll,
        MouseCursor::ResizeNS,
        MouseCursor::ResizeEW,
        MouseCursor::ResizeNESW,
        MouseCursor::ResizeNWSE,
        MouseCursor::Hand,
        MouseCursor::NotAllowed,
        MouseCursor::Unset,
    ] {
        let _ = map_cursor(c);
    }
    let mut p = WinitPlatform::default();
    assert_eq!(p.apply_cursor(None), None, "nothing changed");
    assert_eq!(p.apply_cursor(Some(MouseCursor::Hand)), Some(Some(CursorIcon::Grab)));
    assert_eq!(p.apply_cursor(Some(MouseCursor::Hand)), None, "it would flicker");
    assert_eq!(p.apply_cursor(None), Some(None));
}

#[test]
fn window_events_become_input() {
    let divide = |a: u32, b: u32| (f(a) / f(b)).to_bits();
    let mut p = WinitPlatform::default();
    p.resized(2.0f32.to_bits(), (1280, 800), &|a: u32, b: u32| (a as f32 / f(b)).to_bits());
    assert_eq!((f(p.logical_size.x), f(p.scale_factor)), (640.0, 2.0));
    p.resized(f32::NAN.to_bits(), (10, 10), &|a: u32, b: u32| (a as f32 / f(b)).to_bits());
    assert_eq!(f(p.scale_factor), 1.0);
    p.scale_factor = 2.0f32.to_bits();

    let at = Vec2 { x: 100.0f32.to_bits(), y: 40.0f32.to_bits() };
    let r = p.handle_window_event(&WindowInput::CursorMoved(at), &divide);
    let logical = Vec2 { x: 50.0f32.to_bits(), y: 20.0f32.to_bits() };
    assert_eq!(r.inputs, vec![UiInput::MousePos(logical)]);
    assert_eq!((r.capture, p.cursor_physical), (Capture::Mouse, at));

    let scroll = Vec2 { x: 0, y: 60.0f32.to_bits() };
    let r = p.handle_window_event(&WindowInput::MouseWheel { lines: false, delta: scroll }, &divide);
    assert_eq!(r.inputs, vec![UiInput::Wheel(Vec2 { x: 0, y: 2.0f32.to_bits() })]);
    let r = p.handle_window_event(&WindowInput::MouseWheel { lines: true, delta: scroll }, &divide);
    assert_eq!(r.inputs, vec![UiInput::Wheel(scroll)]);

    let m = Modifiers { ctrl: true, shift: false, alt: false, logo: false };
    let r = p.handle_window_event(&WindowInput::ModifiersChanged(m), &divide);
    assert_eq!(r.inputs[0], UiInput::Key(Key::ModCtrl, true));
    assert_eq!((r.inputs.len(), r.capture, p.modifiers), (4, Capture::Free, m));

    let press = |synthetic, text: &str| WindowInput::Keyboard {
        synthetic,
        pressed: true,
        key: Some(KeyCode::KeyA),
        text: Some(text.to_string()),
    };
    let r = p.handle_window_event(&press(false, "a\u{7f}\n\u{85}é"), &divide);
    assert_eq!(r.inputs, vec![UiInput::Key(Key::A, true)]);
    assert_eq!(r.typed, vec!['a', 'é'], "control characters would be drawn as boxes");
    let r = p.handle_window_event(&press(true, "a"), &divide);
    assert!(r.inputs.is_empty() && r.typed.is_empty());
    assert_eq!(r.capture, Capture::Keyboard);

    let click = WindowInput::MouseInput { button: WindowButton::Back, pressed: true };
    assert!(p.handle_window_event(&click, &divide).inputs.is_empty());
    let click = WindowInput::MouseInput { button: WindowButton::Left, pressed: true };
    let r = p.handle_window_event(&click, &divide);
    assert_eq!(r.inputs, vec![UiInput::Button(MouseButton::Left, true)]);
    let r = p.handle_window_event(&WindowInput::Focused(false), &divide);
    assert_eq!((r.inputs, p.focused), (vec![UiInput::Focus(false)], false));
    let r = p.handle_window_event(&WindowInput::CursorLeft, &divide);
    assert_eq!((r.inputs, r.capture), (vec![UiInput::NoMouse], Capture::Free));
    let r = p.handle_window_event(&WindowInput::Resized, &divide);
    assert_eq!(r.inputs, vec![UiInput::Resize]);
    assert!(p.handle_window_event(&WindowInput::Other, &divide).inputs.is_empty());
}

// ---- auto-tuning ----

/// The tuner with its arithmetic.
struct Tuner(StepAutoTuner);

type Binary = fn(u32, u32) -> u32;

fn float(n: u32) -> u32 {
    (n as f32).to_bits()
}

fn arithmetic() -> Arithmetic<Binary, Binary, Binary, Binary, fn(u32) -> u32, fn(u32) -> i64> {
    Arithmetic {
        plus: |a, b| (f(a) + f(b)).to_bits(),
        minus: |a, b| (f(a) - f(b)).to_bits(),
        times: |a, b| (f(a) * f(b)).to_bits(),
        divide: |a, b| (f(a) / f(b)).to_bits(),
        float,
        round: |x| f(x).round() as i64,
    }
}

impl Tuner {
    fn new(config: AutoTuneConfig) -> Self {
        Tuner(StepAutoTuner::new(config, &float))
    }

    fn steps(&self) -> u32 {
        self.0.steps(&arithmetic().round)
    }

    fn set_manual(&mut self, n: u32) {
        self.0.set_manual(n, &float);
    }

    fn update(&mut self, ms: f32) -> u32 {
        self.0.update((ms / 1000.0).to_bits(), &arithmetic())
    }

    fn update_measured(&mut self, ms: f32, steps_run: u32, cost_ms: Option<f32>) -> u32 {
        let cost = cost_ms.map(|m| (m / 1000.0).to_bits());
        self.0.update_measured((ms / 1000.0).to_bits(), steps_run, cost, &arithmetic())
    }

    fn reset(&mut self) {
        self.0.reset(&float);
    }
}

#[test]
fn a_factor_limit_of_negative_zero_drops_to_the_fewest_steps() {
    let config = AutoTuneConfig { max_ratio: (-0.0f32).to_bits(), ..AutoTuneConfig::default() };
    let mut t = Tuner::new(config);
    t.set_manual(64);
    t.0.enabled = true;
    for _ in 0..20 {
        t.update(1.0);
    }
    assert_eq!(t.steps(), config.min_steps);
}

fn tuner() -> Tuner {
    Tuner::new(AutoTuneConfig::default())
}

#[test]
fn the_tuner_climbs_toward_the_budget_and_settles() {
    let mut t = tuner();
    let mut steps = t.steps();
    for _ in 0..400 {
        steps = t.update(3.0 + steps as f32 * 0.15);
    }
    let frame = 3.0 + steps as f32 * 0.15;
    assert!((frame - 16.67).abs() < 3.0, "settled at {steps} steps, {frame:.1} ms/frame");
    let a = t.steps();
    for _ in 0..60 {
        let ms = 3.0 + t.steps() as f32 * 0.15;
        t.update(ms);
    }
    let b = t.steps();
    assert!(
        (a as i64 - b as i64).abs() <= (a as i64 / 8).max(2),
        "step count oscillates: {a} then {b}"
    );
}

#[test]
fn the_tuner_backs_off_hard_when_frames_blow_the_budget() {
    let mut t = tuner();
    t.set_manual(2000);
    t.0.enabled = true;
    for _ in 0..40 {
        t.update(400.0);
    }
    assert!(t.steps() < 200, "still at {} steps after a sustained overrun", t.steps());
}

#[test]
fn one_hitched_frame_does_not_collapse_the_step_count() {
    let mut t = tuner();
    for _ in 0..200 {
        t.update(16.0);
    }
    let before = t.steps();
    t.update(300.0);
    let after = t.steps();
    assert!(
        after as f32 > before as f32 * 0.45,
        "one hitch took {before} steps down to {after}"
    );
}

#[test]
fn the_dead_band_stops_jitter_near_the_budget() {
    let mut t = tuner();
    for _ in 0..200 {
        t.update(16.0);
    }
    let settled = t.steps();
    for i in 0..40 {
        t.update(if i % 2 == 0 { 15.8 } else { 17.5 });
    }
    assert_eq!(t.steps(), settled, "the count moved inside the dead band");
}

#[test]
fn manual_mode_pins_the_count_and_still_measures_frame_time() {
    let mut t = tuner();
    t.set_manual(64);
    assert!(!t.0.enabled);
    for _ in 0..50 {
        t.update(500.0);
    }
    assert_eq!(t.steps(), 64, "manual mode must not be overridden");
    assert!(f(t.0.frame_time_s()) > 0.2, "frame time must still be tracked");
}

#[test]
fn a_reset_keeps_a_pinned_count() {
    let mut t = tuner();
    t.set_manual(20);
    t.reset();
    assert_eq!(t.steps(), 20, "a rebuild must not unpin the count");
    let mut auto = tuner();
    for _ in 0..50 {
        auto.update(2.0);
    }
    auto.reset();
    assert_eq!(auto.steps(), auto.0.config.min_steps.max(1), "an auto count starts over");
}

#[test]
fn one_frame_moves_the_count_by_a_bounded_factor() {
    // 16.7 ms less 9 ms of overhead buys more than seven steps of 1 ms; one frame doubles.
    let mut t = tuner();
    assert_eq!(t.update_measured(10.0, 1, Some(1.0)), 2);
    let overhead = f(t.0.overhead_s.unwrap());
    assert!((overhead - 0.009).abs() < 1e-6, "overhead {overhead}");
    // The overhead of a stall counts for two budgets at most.
    let mut t = tuner();
    t.update_measured(5000.0, 1, Some(1.0));
    assert!((f(t.0.overhead_s.unwrap()) - 2.0 / 60.0).abs() < 1e-6);
    // 12% off the budget is left alone; the frame time is smoothed all the same.
    let mut t = tuner();
    assert_eq!(t.update(5.0), 1);
    let smoothed = f(t.0.frame_time_s());
    assert!((smoothed - (1.0 / 60.0 - 0.15 * (1.0 / 60.0 - 0.005))).abs() < 1e-6, "{smoothed}");
}

#[test]
fn a_frame_falls_under_one_law() {
    let mut t = tuner();
    let cost = Some(0.001f32.to_bits());
    assert_eq!(t.0.record(5, None), TunerLaw::Multiply);
    assert_eq!(t.0.record(0, None), TunerLaw::Keep);
    assert_eq!(t.0.record(7, Some(0)), TunerLaw::Multiply);
    assert_eq!(t.0.record(7, Some(f32::NAN.to_bits())), TunerLaw::Multiply);
    // Three frames are on record; the oldest is billed.
    assert_eq!(t.0.recent, [7, 7, 0]);
    assert_eq!(
        t.0.record(9, cost),
        TunerLaw::Split { billed: 7, cost_s: 0.001f32.to_bits() }
    );
    t.set_manual(3);
    assert_eq!(t.0.record(9, cost), TunerLaw::Keep);
}

#[test]
fn limits_are_respected_at_both_ends() {
    let cfg = AutoTuneConfig { min_steps: 4, max_steps: 32, ..AutoTuneConfig::default() };
    let mut t = Tuner::new(cfg);
    for _ in 0..200 {
        t.update(0.01);
    }
    assert_eq!(t.steps(), 32);
    for _ in 0..200 {
        t.update(5000.0);
    }
    assert_eq!(t.steps(), 4);
}

fn run_plant(
    t: &mut Tuner,
    frames: usize,
    latency: usize,
    overhead_ms: f32,
    cost_ms: f32,
    timed: bool,
) -> Vec<(u32, f32)> {
    let mut in_flight: std::collections::VecDeque<u32> =
        std::iter::repeat(t.steps()).take(latency).collect();
    (0..frames)
        .map(|_| {
            let n = t.steps();
            in_flight.push_back(n);
            let billed = in_flight.pop_front().unwrap_or(n);
            let frame = overhead_ms + billed as f32 * cost_ms;
            t.update_measured(frame, n, timed.then_some(cost_ms));
            (n, frame)
        })
        .collect()
}

#[test]
fn splitting_the_budget_holds_steady_when_the_solver_is_most_of_the_frame() {
    let mut t = tuner();
    let log = run_plant(&mut t, 300, 2, 4.6, 4.4, true);
    let tail = &log[240..];
    let (lo, hi) = tail.iter().fold((u32::MAX, 0), |(lo, hi), &(n, _)| (lo.min(n), hi.max(n)));
    assert!(hi - lo <= 1, "the step count still swings {lo}..{hi}");
    let mean = tail.iter().map(|&(_, f)| f).sum::<f32>() / tail.len() as f32;
    assert!(
        (mean - 16.67).abs() < 16.67 * 0.15,
        "settled at {mean:.1} ms/frame against a 16.7 ms budget"
    );
}

#[test]
fn a_change_in_overhead_moves_the_count_without_a_long_overrun() {
    let mut t = tuner();
    run_plant(&mut t, 200, 2, 3.0, 1.0, true);
    let before = t.steps();
    let log = run_plant(&mut t, 200, 2, 10.0, 1.0, true);
    let after = t.steps();
    assert!(after < before, "the count did not fall: {before} -> {after}");
    assert!((after as f32 - 6.67).abs() <= 1.5, "settled at {after} steps, want about 6.7");
    let worst = log.iter().map(|&(_, f)| f).fold(0.0, f32::max);
    assert!(worst < 16.67 * 1.6, "worst frame {worst:.1} ms during the transition");
    let over = log.iter().filter(|&&(_, f)| f > 16.67 * 1.12).count();
    assert!(over < 40, "{over} frames over budget before the count came down");
}

#[test]
fn one_hitched_frame_does_not_collapse_the_split_budget() {
    let mut t = tuner();
    run_plant(&mut t, 200, 2, 3.0, 0.15, true);
    let before = t.steps();
    t.update_measured(300.0, before, Some(0.15));
    let after = t.steps();
    assert!(
        after as f32 > before as f32 * 0.45,
        "one hitch took {before} steps down to {after}"
    );
}

#[test]
fn a_paused_run_does_not_wind_the_count_up() {
    for timed in [false, true] {
        let mut t = tuner();
        run_plant(&mut t, 200, 2, 4.6, 4.4, timed);
        let settled = t.steps();
        for _ in 0..200 {
            t.update_measured(1.5, 0, timed.then_some(4.4));
        }
        assert!(
            t.steps() <= settled + 1,
            "paused for 200 frames (timed: {timed}), the count went {settled} -> {}",
            t.steps()
        );
    }
}

// ---- clocks ----

fn divide64(a: u64, b: u64) -> u64 {
    (d(a) / d(b)).to_bits()
}

fn status_line(c: &Clock) -> String {
    c.status_line(&divide64, &|s: u64| format!("{:.2} s", d(s)), &|x: u64, places: usize| {
        format!("{:.places$}", d(x))
    })
}

#[test]
fn the_clock_is_honest_about_how_slow_the_physics_is() {
    let c = Clock {
        sim_time_s: 0.0035f64.to_bits(),
        wall_time_s: 10.0f64.to_bits(),
        steps: 700,
        steps_per_second: 70.0f64.to_bits(),
        steps_per_physical_second: 200_000.0f64.to_bits(),
        fps: 60.0f64.to_bits(),
        steps_per_frame: 1,
    };
    let factor = c.realtime_factor(&divide64);
    assert!((d(factor) - 3.5e-4).abs() < 1e-6, "factor was {}", d(factor));
    let line = status_line(&c);
    assert!(line.contains("1/2857 real-time"), "{line}");
    assert!(line.contains("per simulated second"), "{line}");
    assert!(!line.contains("0.00x"), "the misleading rounding is back: {line}");
    let cost = d(c.wall_seconds_per_sim_second(&divide64));
    assert!((cost - 2857.0).abs() < 2.0, "{cost}");
    let fast = Clock { steps_per_second: 400_000.0f64.to_bits(), ..c };
    assert!(status_line(&fast).contains(" | 2.00x real-time | 400000 steps/s"));
}

#[test]
fn a_clock_with_no_measurement_yet_reports_dashes_not_zero() {
    let line = status_line(&Clock::default());
    assert!(line.contains("x real-time --"), "{line}");
}

fn tick(m: &mut RateMeter, n: f64, dt: f64) {
    let plus = |a: u64, b: u64| (d(a) + d(b)).to_bits();
    m.tick(n.to_bits(), dt.to_bits(), &plus, &divide64);
}

#[test]
fn the_rate_meter_reports_the_recent_rate_not_the_lifetime_one() {
    let mut m = RateMeter::new(1.0f64.to_bits());
    tick(&mut m, 5.0, 1.0);
    assert!((d(m.rate()) - 5.0).abs() < 1e-9);
    for _ in 0..4 {
        tick(&mut m, 500.0, 1.0);
    }
    assert!((d(m.rate()) - 500.0).abs() < 1e-6, "rate was {}", d(m.rate()));
}

#[test]
fn the_rate_meter_is_zero_until_a_window_closes() {
    let mut m = RateMeter::new(1.0f64.to_bits());
    tick(&mut m, 100.0, 0.2);
    assert_eq!(d(m.rate()), 0.0, "an unfinished window must not be extrapolated");
    tick(&mut m, 100.0, -5.0);
    tick(&mut m, 0.0, f64::NAN);
    assert_eq!(d(m.rate()), 0.0, "time does not run backwards");
    assert_eq!(d(RateMeter::new(0).window_s), 1e-3);
}
