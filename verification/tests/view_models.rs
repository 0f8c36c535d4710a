use aeroduct::camera_input::{
    preset_for_digit, CameraInput, CameraMove, Gesture, MouseState, PointerOwnership,
};
use aeroduct::compare::{
    compare, delta, Baseline, Better, Delta, Direction, Significance,
};
use aeroduct::layers::{Layer, LayerId, LayerKind, LayerStack};
use aeroduct::toast::{Severity, Toast, Toasts, MAX_TOASTS};
use aeroduct::view::{
    ConvergenceState, Health, HistogramView, MetricsView, Reading, ReadingArithmetic,
    ResetCause, ResolutionEstimate, ResolutionPanel, StatsWindowView, Trace,
};
use aeroduct::volume::{sdf_uniform, SdfPlace, VolumeRenderer, VolumeSettings};
use aeroduct::config::Vec3;

fn reading(value: f64, sem: f64, state: Health, samples: u32) -> Reading {
    Reading::new(value.to_bits(), sem.to_bits(), state, samples)
}

fn r(value: f64, sem: f64) -> Reading {
    reading(value, sem, Health::Good, 256)
}

fn f(x: u64) -> f64 {
    f64::from_bits(x)
}

// ---- readings ----

#[test]
fn an_unknown_reading_is_not_a_zero_reading() {
    let r = Reading::unknown();
    assert!(!r.is_known());
    assert!(!r.has_error_bar());
    assert_eq!(r.state, Health::Unknown);
    assert_eq!(reading(0.0, 0.1, Health::Good, 0).is_known(), false);
    assert!(reading(0.0, 0.1, Health::Good, 12).is_known());
}

#[test]
fn traffic_lights_are_ordered_and_reject_nonfinite() {
    let below = |v: f64| Health::below(v.to_bits(), 0.6f64.to_bits(), 1.5f64.to_bits());
    assert_eq!(below(0.4), Health::Good);
    assert_eq!(below(1.0), Health::Watch);
    assert_eq!(below(2.0), Health::Bad);
    assert_eq!(below(f64::NAN), Health::Unknown);

    let above = |v: f64| Health::above(v.to_bits(), 0.95f64.to_bits(), 0.8f64.to_bits());
    assert_eq!(above(0.99), Health::Good);
    assert_eq!(above(0.9), Health::Watch);
    assert_eq!(above(0.5), Health::Bad);
    assert_eq!(below(0.6), Health::Good);
    assert_eq!(above(0.95), Health::Good);
    assert_eq!(below(1.5), Health::Watch);
    assert_eq!(above(0.8), Health::Watch);
    assert_eq!(below(1.5f64.next_up()), Health::Bad);
    assert_eq!(above(0.8f64.next_down()), Health::Bad);
}

#[test]
fn the_lights_have_their_colours_and_names() {
    for (h, name, rgba) in [
        (Health::Unknown, "unknown", [0.62f32, 0.64, 0.68, 1.0]),
        (Health::Good, "good", [0.36, 0.82, 0.47, 1.0]),
        (Health::Watch, "watch", [0.95, 0.72, 0.18, 1.0]),
        (Health::Bad, "bad", [0.94, 0.33, 0.31, 1.0]),
    ] {
        assert_eq!(h.label(), name);
        assert_eq!(h.color(), rgba.map(f32::to_bits));
    }
    assert_eq!(Severity::Notice.color(), [0.45f32, 0.76, 0.95, 1.0].map(f32::to_bits));
    assert_eq!(ConvergenceState::default().label(), "warming up");
}

#[test]
fn contract_targets_land_on_the_expected_colours() {
    let mut m = MetricsView::default();
    m.inlet.mean_velocity = reading(3.0, 0.01, Health::Unknown, 100);
    m.loss_coefficient = reading(0.58, 0.02, Health::Unknown, 100);
    m.uniformity = reading(0.91, 0.01, Health::Unknown, 100);
    m.deflection_deg = reading(3.2, 0.2, Health::Unknown, 100);
    m.max_speed = reading(18.4, 0.3, Health::Unknown, 100);
    m.apply_default_thresholds(&readings().divide);

    assert_eq!(m.loss_coefficient.state, Health::Good, "K = 0.58 is in the ideal band");
    assert_eq!(m.uniformity.state, Health::Watch, "gamma = 0.91 is not great");
    assert_eq!(m.deflection_deg.state, Health::Good);
    assert_eq!(m.max_speed.state, Health::Bad);
}

#[test]
fn a_mitred_bend_fails_the_loss_coefficient_target() {
    let mut m = MetricsView::default();
    m.loss_coefficient = reading(2.6, 0.1, Health::Unknown, 500);
    m.apply_default_thresholds(&readings().divide);
    assert_eq!(m.loss_coefficient.state, Health::Bad);
}

#[test]
fn differs_from_respects_the_error_bars() {
    let differs = |a: Reading, b: Reading, sigma: f64| {
        a.differs_from(&b, sigma.to_bits(), &readings())
    };
    let a = reading(47.3, 0.6, Health::Good, 200);
    let b = reading(47.6, 0.6, Health::Good, 200);
    assert!(!differs(a, b, 2.0), "0.3 Pa apart with +/-0.6 is noise");
    let c = reading(52.0, 0.6, Health::Good, 200);
    assert!(differs(a, c, 2.0), "4.7 Pa apart with +/-0.6 is real");
    assert!(!differs(a, Reading::unknown(), 2.0));
    // A negative error bar counts as none, and no error bar is never quite zero.
    let sharp = |v: f64, sem: f64| reading(v, sem, Health::Good, 200);
    assert!(differs(sharp(47.3, -0.6), sharp(47.6, 0.1), 2.0));
    assert!(differs(sharp(47.3, f64::NAN), sharp(47.6, 0.1), 2.0));
    assert!(!differs(sharp(0.0, 0.0), sharp(1e-310, 0.0), 2.0));
    assert!(differs(sharp(0.0, 0.0), sharp(1e-300, 0.0), 2.0));
}

fn quotient(a: u64, b: u64) -> u64 {
    (f(a) / f(b)).to_bits()
}

#[test]
fn a_relative_error_needs_something_to_be_relative_to() {
    let error = |x: Reading| x.relative_error(&quotient).map(f);
    assert_eq!(error(r(-50.0, 0.5)), Some(0.01));
    assert_eq!(error(r(0.0, 0.5)), None);
    assert_eq!(error(r(50.0, f64::NAN)), None);
    assert_eq!(error(r(50.0, 0.0)), None);
}

#[test]
fn a_trace_drops_the_oldest_points_when_full() {
    let mut t = Trace::new("residual", "");
    for i in 0..10 {
        t.push((i as f64).to_bits(), ((i * i) as f64).to_bits(), 4);
    }
    assert_eq!(t.x.len(), 4);
    assert_eq!(t.y.len(), 4);
    assert_eq!(f(t.x[0]), 6.0, "the window must slide, not restart");
    assert_eq!(t.last().map(|(x, y)| (f(x), f(y))), Some((9.0, 81.0)));
    t.push(10f64.to_bits(), 100f64.to_bits(), 0);
    assert_eq!(t.x.len(), 2);
    t.clear();
    assert!(t.is_empty() && t.last().is_none());
}

#[test]
fn a_log_trace_is_drawn_by_its_logarithms_above_a_floor() {
    let log10 = |v: u64| f(v).log10().to_bits();
    let mut t = Trace::new("residual", "");
    for y in [1e-3, 0.0, -2.0, 100.0, f64::NAN] {
        t.push(0, y.to_bits(), 8);
    }
    assert_eq!(t.heights(&log10), t.y);
    t.log_y = true;
    let heights: Vec<f64> = t.heights(&log10).into_iter().map(f).collect();
    assert_eq!(heights, vec![-3.0, -30.0, -30.0, 2.0, -30.0]);
}

#[test]
fn histogram_geometry_is_self_consistent() {
    let bits = |v: &[f64]| v.iter().map(|x| x.to_bits()).collect::<Vec<u64>>();
    let h = HistogramView {
        name: "U_out".into(),
        unit: "m/s".into(),
        edges: bits(&[0.0, 1.0, 2.0, 3.0]),
        counts: bits(&[5.0, 9.0, 2.0]),
        mean: reading(1.4, 0.05, Health::Unknown, 300),
    };
    assert!(h.is_valid());
    let middle = |a: u64, b: u64| (0.5 * (f(a) + f(b))).to_bits();
    assert_eq!(h.centers(&middle), bits(&[0.5, 1.5, 2.5]));
    let minus = |a: u64, b: u64| (f(a) - f(b)).to_bits();
    let share = |x: u64, n: usize| (f(x) / n as f64).to_bits();
    assert!((f(h.bin_width(&minus, &share)) - 1.0).abs() < 1e-12);

    let bad = HistogramView { counts: bits(&[1.0, 2.0, 3.0, 4.0]), ..h };
    assert!(!bad.is_valid());
    assert!(bad.centers(&middle).is_empty());
    assert_eq!(f(HistogramView::default().bin_width(&minus, &share)), 0.0);
    let wide = HistogramView { edges: bits(&[1.0, 2.0, 8.0]), ..HistogramView::default() };
    assert_eq!(f(wide.bin_width(&minus, &share)), 3.5);
}

#[test]
fn stats_progress_is_clamped_and_safe_at_zero_target() {
    let narrow = |x: u64| (f(x) as f32).to_bits();
    let progress = |s: &StatsWindowView| f32::from_bits(s.progress(&quotient, &narrow));
    let mut s = StatsWindowView {
        flow_throughs: 7.3f64.to_bits(),
        flow_throughs_target: 15.0f64.to_bits(),
        ..StatsWindowView::default()
    };
    assert!((progress(&s) - 7.3 / 15.0).abs() < 1e-6);
    s.flow_throughs = 40.0f64.to_bits();
    assert_eq!(progress(&s), 1.0);
    s.flow_throughs_target = 0;
    assert_eq!(progress(&s), 0.0, "no target must not divide by zero");
}

#[test]
fn an_estimate_counts_only_for_what_is_in_the_box() {
    let mut p = ResolutionPanel::new(0.75f32.to_bits());
    assert!(p.current_estimate().is_none());
    p.estimate = Some(ResolutionEstimate {
        dx_mm: 0.75f32.to_bits(),
        domain_mm: Some([1, 2, 3, 4, 5, 6]),
        dims: [1, 2, 3],
        cells: 6,
        vram_bytes: 0,
        budget_bytes: None,
        steps_per_s: None,
        flow_through_s: None,
        tau0: 0,
        warnings: vec![],
        blocker: None,
    });
    assert!(p.current_estimate().is_some());
    assert!(p.estimate_for(Some([1, 2, 3, 4, 5, 6])).is_some());
    assert!(p.estimate_for(Some([1, 2, 3, 4, 5, 7])).is_none());
    assert!(p.estimate_for(None).is_none());
    p.pending_dx_mm = 0.5f32.to_bits();
    assert!(p.current_estimate().is_none(), "a stale estimate is no estimate");
}

// ---- toasts ----

fn g(x: u32) -> f32 {
    f32::from_bits(x)
}

fn plus(a: u32, b: u32) -> u32 {
    (g(a) + g(b)).to_bits()
}

fn divide(a: u32, b: u32) -> u32 {
    (g(a) / g(b)).to_bits()
}

fn update(ts: &mut Toasts, dt: f32) {
    ts.update(dt.to_bits());
}

fn remaining(t: &Toast) -> f32 {
    g(t.remaining(&divide))
}

#[test]
fn a_statistics_reset_names_its_cause() {
    let t = Toast::statistics_reset(ResetCause::InletVelocity);
    assert_eq!(t.severity, Severity::Notice);
    assert!(t.detail.contains("inlet velocity changed"), "{}", t.detail);
    assert!(t.detail.contains("start again"), "the consequence must be spelled out");
}

#[test]
fn dragging_a_slider_produces_one_toast_not_sixty() {
    let mut ts = Toasts::new();
    for _ in 0..60 {
        ts.push(Toast::statistics_reset(ResetCause::InletVelocity));
        update(&mut ts, 1.0 / 60.0);
    }
    assert_eq!(ts.len(), 1);
    let t = &ts.items()[0];
    assert_eq!(t.repeats, 59);
    assert!(t.display_title().contains("(x60)"), "{}", t.display_title());
    assert!(g(t.age_s) < 0.02, "the timer did not restart: {}", g(t.age_s));
}

#[test]
fn coalesced_toasts_keep_the_worse_severity() {
    let mut ts = Toasts::new();
    ts.push(Toast::new(Severity::Notice, "boundary changed").with_key("k"));
    ts.push(Toast::new(Severity::Warning, "boundary changed").with_key("k"));
    assert_eq!(ts.len(), 1);
    assert_eq!(ts.items()[0].severity, Severity::Warning);
    ts.push(Toast::new(Severity::Info, "boundary changed").with_key("k"));
    assert_eq!(ts.items()[0].severity, Severity::Warning);
}

#[test]
fn unkeyed_toasts_stack_rather_than_merging() {
    let mut ts = Toasts::new();
    ts.info("a");
    ts.info("b");
    assert_eq!(ts.len(), 2);
}

#[test]
fn toasts_expire_on_their_own_schedule() {
    let mut ts = Toasts::new();
    ts.info("quick");
    ts.warn("slower");
    update(&mut ts, 4.0);
    assert_eq!(ts.len(), 1, "the info toast should have gone");
    assert_eq!(ts.items()[0].severity, Severity::Warning);
    update(&mut ts, 6.0);
    assert!(ts.is_empty());
}

#[test]
fn a_critical_toast_never_expires_on_its_own() {
    let mut ts = Toasts::new();
    ts.error("solver diverged");
    update(&mut ts, 600.0);
    assert_eq!(ts.len(), 1);
    assert_eq!(remaining(&ts.items()[0]), 1.0, "a critical toast must not fade");
    ts.dismiss(0);
    assert!(ts.is_empty());
}

#[test]
fn overflow_drops_the_oldest_expirable_toast_and_keeps_criticals() {
    let mut ts = Toasts::new();
    ts.error("diverged");
    for i in 0..MAX_TOASTS + 3 {
        ts.info(&format!("msg {i}"));
    }
    assert_eq!(ts.len(), MAX_TOASTS);
    assert!(
        ts.iter().any(|t| t.severity == Severity::Critical),
        "the critical toast was evicted"
    );
}

#[test]
fn fade_is_monotone_and_bounded() {
    let mut t = Toast::new(Severity::Info, "x");
    let mut last = 1.0;
    for _ in 0..40 {
        let r = remaining(&t);
        assert!(r <= last + 1e-6 && (0.0..=1.0).contains(&r));
        last = r;
        t.age_s = plus(t.age_s, 0.1f32.to_bits());
    }
    assert_eq!(remaining(&t), 0.0);
    assert!(t.expired());
}

#[test]
fn time_never_runs_backwards_and_only_the_raised_toast_is_counted() {
    let mut ts = Toasts::new();
    ts.warn("slow");
    update(&mut ts, 2.5);
    update(&mut ts, -5.0);
    update(&mut ts, f32::NAN);
    assert_eq!(g(ts.items()[0].age_s), 2.5);
    assert_eq!(remaining(&ts.items()[0]), 1.0 - 2.5 / 9.0);
    update(&mut ts, 6.5);
    assert!(ts.is_empty(), "nine seconds are nine seconds");
    let worn = Toast { repeats: u32::MAX, ..Toast::new(Severity::Info, "a").with_key("a") };
    ts.push(worn);
    ts.push(Toast::new(Severity::Info, "b").with_key("b"));
    ts.push(Toast::new(Severity::Info, "b").with_key("b"));
    ts.info("c");
    assert_eq!(ts.iter().map(|t| t.repeats).collect::<Vec<u32>>(), [u32::MAX, 1, 0]);
}

#[test]
fn every_reset_cause_has_a_message() {
    for cause in [
        ResetCause::InletVelocity,
        ResetCause::InletAngle,
        ResetCause::InletOutletSwapped,
        ResetCause::VentChanged,
        ResetCause::GeometryChanged,
        ResetCause::DomainChanged,
        ResetCause::ResolutionChanged,
        ResetCause::FluidChanged,
        ResetCause::SolverRestarted,
        ResetCause::Manual,
    ] {
        assert!(!cause.message().is_empty(), "{cause:?} has no message");
        assert!(Toast::statistics_reset(cause).detail.contains(cause.message()));
    }
}

// ---- layers ----

#[test]
fn the_default_stack_matches_the_mock_up() {
    let s = LayerStack::defaults();
    assert!(s.is_drawn(LayerKind::Duct));
    assert!(s.is_drawn(LayerKind::Volume));
    assert!(s.is_drawn(LayerKind::Particles));
    assert!(!s.is_drawn(LayerKind::Isosurface), "an empty isosurface looks like a bug");
    assert!(!s.is_drawn(LayerKind::GridOutline));
    assert_eq!(s.len(), 7);
    assert!(!s.is_empty());
}

#[test]
fn a_disabled_layer_is_not_drawn_even_when_visible() {
    let mut s = LayerStack::defaults();
    let id = s.find(LayerKind::Particles).unwrap();
    s.get_mut(id).unwrap().disable("no particles seeded");
    assert!(s.get(id).unwrap().visible);
    assert!(!s.is_drawn(LayerKind::Particles));
    assert_eq!(s.get(id).unwrap().disabled_reason, "no particles seeded");
    s.get_mut(id).unwrap().enable();
    assert!(s.is_drawn(LayerKind::Particles));
    assert!(s.get(id).unwrap().disabled_reason.is_empty());
}

#[test]
fn zero_opacity_counts_as_not_drawn() {
    let mut s = LayerStack::defaults();
    let id = s.find(LayerKind::Volume).unwrap();
    s.get_mut(id).unwrap().opacity = 0;
    assert!(!s.is_drawn(LayerKind::Volume));
}

#[test]
fn solo_leaves_exactly_one_layer_visible() {
    let mut s = LayerStack::defaults();
    let id = s.find(LayerKind::Volume).unwrap();
    s.solo(id);
    assert_eq!(s.layers().iter().filter(|l| l.visible).count(), 1);
    assert!(s.get(id).unwrap().visible);
    s.show_all();
    assert!(s.layers().iter().all(|l| l.visible));
    s.toggle(id);
    assert!(!s.get(id).unwrap().visible);
    s.set_visible(id, true);
    assert!(s.get(id).unwrap().visible);
}

#[test]
fn removing_a_slice_renumbers_the_ones_above_it() {
    let mut s = LayerStack::default();
    let a = s.push(LayerKind::Slice(0), "Slice 1");
    let b = s.push(LayerKind::Slice(1), "Slice 2");
    let c = s.push(LayerKind::Slice(2), "Slice 3");
    s.remove(a);
    assert_eq!(s.get(b).unwrap().kind, LayerKind::Slice(0));
    assert_eq!(s.get(c).unwrap().kind, LayerKind::Slice(1));
    assert!(s.get(b).is_some() && s.get(c).is_some());
    assert!(s.remove(a).is_none(), "it is gone");
}

#[test]
fn removing_an_obstruction_does_not_disturb_slice_indices() {
    let mut s = LayerStack::default();
    let o0 = s.push(LayerKind::Obstruction(0), "Vane A");
    let o1 = s.push(LayerKind::Obstruction(1), "Vane B");
    let sl = s.push(LayerKind::Slice(1), "Slice 2");
    s.remove(o0);
    assert_eq!(s.get(o1).unwrap().kind, LayerKind::Obstruction(0));
    assert_eq!(s.get(sl).unwrap().kind, LayerKind::Slice(1), "slices must be untouched");
}

#[test]
fn vent_layers_shift_and_reset_like_the_others() {
    let mut s = LayerStack::default();
    let a = s.push(LayerKind::Vent(0), "Vent 1");
    let b = s.push(LayerKind::Vent(1), "Vent 2");
    let o = s.push(LayerKind::Obstruction(0), "Vane");
    s.remove(a);
    assert_eq!(s.get(b).unwrap().kind, LayerKind::Vent(0));
    assert_eq!(s.get(o).unwrap().kind, LayerKind::Obstruction(0), "obstructions untouched");
    s.reset_vents(&vec!["x".to_string(), "y".to_string(), "z".to_string()]);
    let vents: Vec<LayerKind> = s
        .layers()
        .iter()
        .filter(|l| matches!(l.kind, LayerKind::Vent(_)))
        .map(|l| l.kind)
        .collect();
    assert_eq!(vents, vec![LayerKind::Vent(0), LayerKind::Vent(1), LayerKind::Vent(2)]);
    assert!(LayerKind::Vent(0).is_transformable());
}

#[test]
fn an_obstruction_layer_put_back_restores_the_indices() {
    let mut s = LayerStack::default();
    let a = s.push(LayerKind::Obstruction(0), "Vane A");
    let b = s.push(LayerKind::Obstruction(1), "Vane B");
    s.remove(a);
    assert_eq!(s.get(b).unwrap().kind, LayerKind::Obstruction(0));
    let a = s.insert_obstruction(0, "Vane A");
    assert_eq!(s.get(a).unwrap().kind, LayerKind::Obstruction(0));
    assert_eq!(s.get(b).unwrap().kind, LayerKind::Obstruction(1));
}

#[test]
fn selection_is_single_and_clearable() {
    let mut s = LayerStack::defaults();
    let a = s.find(LayerKind::Duct).unwrap();
    let b = s.find(LayerKind::Volume).unwrap();
    s.select(Some(a));
    s.select(Some(b));
    assert_eq!(s.layers().iter().filter(|l| l.selected).count(), 1);
    assert_eq!(s.selected().map(|l| l.id), Some(b));
    s.select(None);
    assert!(s.selected().is_none());
}

#[test]
fn only_placeable_layers_arm_the_gizmo() {
    assert!(LayerKind::Obstruction(0).is_transformable());
    assert!(LayerKind::Slice(2).is_transformable());
    assert!(!LayerKind::Volume.is_transformable());
    assert!(LayerKind::Duct.is_transformable(), "the duct's gizmo sets its install pose");
}

#[test]
fn reordering_stays_inside_the_list() {
    let mut s = LayerStack::default();
    let a = s.push(LayerKind::Duct, "a");
    let b = s.push(LayerKind::Volume, "b");
    s.move_up(a);
    assert_eq!(s.layers()[0].id, a, "moving the first item up must be a no-op");
    s.move_down(b);
    assert_eq!(s.layers()[1].id, b, "moving the last item down must be a no-op");
    s.move_down(a);
    assert_eq!(s.layers()[0].id, b);
    assert!(Layer::new(LayerId(9), LayerKind::Duct, "x").is_drawn());
}

// ---- comparison ----

type Binary = fn(u64, u64) -> u64;

fn readings() -> ReadingArithmetic<Binary, Binary, Binary, Binary> {
    ReadingArithmetic {
        quadrature: |a, b| (f(a).powi(2) + f(b).powi(2)).sqrt().to_bits(),
        minus: |a, b| (f(a) - f(b)).to_bits(),
        times: |a, b| (f(a) * f(b)).to_bits(),
        divide: |a, b| (f(a) / f(b)).to_bits(),
    }
}

fn compared(now: Reading, base: Reading, better: Better) -> Delta {
    delta(now, base, better, &readings())
}

fn sigma(d: &Delta) -> f64 {
    f(d.sigma(&quotient))
}

#[test]
fn a_change_inside_the_error_bars_is_not_an_improvement() {
    let d = compared(r(47.4, 0.6), r(47.3, 0.6), Better::Lower);
    assert_eq!(d.significance, Significance::WithinNoise);
    assert_eq!(d.direction, Direction::Flat);
    assert_eq!(d.improved, None);
    assert_eq!(d.color(), [0.55f32, 0.57, 0.61, 1.0].map(f32::to_bits));
}

#[test]
fn a_real_reduction_in_pressure_drop_is_green_and_points_down() {
    let d = compared(r(41.0, 0.6), r(47.3, 0.6), Better::Lower);
    assert_eq!(d.significance, Significance::Real);
    assert_eq!(d.direction, Direction::Down);
    assert_eq!(d.improved, Some(true));
    assert!((f(d.absolute) + 6.3).abs() < 1e-9);
    assert!((f(d.relative) + 6.3 / 47.3).abs() < 1e-9);
    assert!(sigma(&d) < -7.0, "6.3 Pa on +/-0.85 combined is many sigma");
    assert_eq!(d.color(), [0.36f32, 0.82, 0.47, 1.0].map(f32::to_bits));
    assert!(d.is_real());
}

#[test]
fn the_same_rise_is_good_or_bad_depending_on_the_metric() {
    let up = |better| compared(r(0.95, 0.005), r(0.88, 0.005), better);
    assert_eq!(up(Better::Higher).improved, Some(true));
    assert_eq!(up(Better::Lower).improved, Some(false));
    assert_eq!(up(Better::Neutral).improved, None);
    assert_eq!(up(Better::Neutral).direction, Direction::Up, "neutral still reports the sign");
}

#[test]
fn comparing_against_an_unmeasured_baseline_reports_unknown() {
    let d = compared(r(47.3, 0.6), Reading::unknown(), Better::Lower);
    assert_eq!(d.significance, Significance::Unknown);
    assert!(f(d.absolute).is_nan());
    assert_eq!(d.improved, None);
    assert_eq!(
        compared(Reading::unknown(), r(47.3, 0.6), Better::Lower).significance,
        Significance::Unknown
    );
}

#[test]
fn a_zero_baseline_has_no_relative_change_but_still_has_an_absolute_one() {
    let d = compared(r(0.4, 0.01), r(0.0, 0.01), Better::Lower);
    assert!((f(d.absolute) - 0.4).abs() < 1e-12);
    assert!(f(d.relative).is_nan(), "a percentage of zero is not a number");
    assert_eq!(d.significance, Significance::Real);
}

#[test]
fn zero_error_bars_do_not_make_every_comparison_significant_by_dividing_by_zero() {
    let d = compared(r(1.0, 0.0), r(1.0, 0.0), Better::Lower);
    assert_eq!(d.significance, Significance::WithinNoise);
    assert!(sigma(&d).is_nan());
    assert_eq!(
        compared(r(2.0, 0.0), r(1.0, 0.0), Better::Lower).significance,
        Significance::Real
    );
}

#[test]
fn the_whole_hud_row_compares_with_the_right_polarity() {
    let base = MetricsView {
        pressure_drop: r(47.3, 0.6),
        loss_coefficient: r(0.71, 0.01),
        uniformity: r(0.88, 0.005),
        deflection_deg: r(8.0, 0.2),
        max_speed: r(18.4, 0.3),
        flow_rate: r(0.006_35, 0.000_04),
        ..MetricsView::default()
    };
    let now = MetricsView {
        pressure_drop: r(41.0, 0.6),
        loss_coefficient: r(0.58, 0.01),
        uniformity: r(0.95, 0.005),
        deflection_deg: r(3.2, 0.2),
        max_speed: r(14.0, 0.3),
        ..base.clone()
    };
    let d = compare(&now, &base, &readings());
    assert_eq!(d.pressure_drop.improved, Some(true));
    assert_eq!(d.loss_coefficient.improved, Some(true));
    assert_eq!(d.uniformity.improved, Some(true));
    assert_eq!(d.deflection_deg.improved, Some(true));
    assert_eq!(d.max_speed.improved, Some(true));
    assert_eq!(d.flow_rate.significance, Significance::WithinNoise);
}

#[test]
fn a_baseline_knows_whether_it_is_comparable() {
    let mut live = MetricsView::default();
    live.warnings.push("tau0 is low".to_string());
    live.convergence.residuals.push(Trace::new("du", ""));
    live.convergence.residuals[0].push(1, 2, 8);
    live.outlet.name = "B".to_string();
    live.spectrum.freq_hz.push(7);
    let base = Baseline::capture("as loaded", 12_000, 3.0f32.to_bits(), &live);
    // The whole of the metrics is frozen.
    assert_eq!(base.metrics.warnings, ["tau0 is low"]);
    assert_eq!(base.metrics.convergence.residuals[0].last(), Some((1, 2)));
    assert_eq!(base.metrics.outlet.name, "B");
    assert_eq!(base.metrics.spectrum.freq_hz, [7]);
    let same = |u: f32| base.same_operating_point(u.to_bits(), &divide);
    assert!(same(3.0));
    assert!(same(3.02));
    assert!(!same(5.0), "comparing 3 m/s to 5 m/s is not an A/B test");
    assert_eq!(base.step, 12_000);
    assert_eq!(base.label, "as loaded");
    // A baseline at rest compares with the floor, not with zero.
    let rest = Baseline::capture("at rest", 0, 0, &live);
    assert!(rest.same_operating_point(1e-9f32.to_bits(), &divide));
    assert!(!rest.same_operating_point(1e-7f32.to_bits(), &divide));
}

// ---- camera ----

fn owner() -> PointerOwnership {
    PointerOwnership::default()
}

#[test]
fn the_ui_and_the_gizmo_take_precedence_over_the_camera() {
    let ci = CameraInput::default();
    let left = MouseState { left: true, ..MouseState::default() };
    assert_eq!(ci.gesture(left, owner()), Gesture::Orbit);
    assert_eq!(
        ci.gesture(left, PointerOwnership { ui_capture: true, gizmo_active: false }),
        Gesture::Idle
    );
    assert_eq!(
        ci.gesture(left, PointerOwnership { ui_capture: false, gizmo_active: true }),
        Gesture::Idle
    );
}

#[test]
fn button_and_modifier_combinations_map_as_documented() {
    let ci = CameraInput::default();
    let m = |f: fn(&mut MouseState)| {
        let mut s = MouseState::default();
        f(&mut s);
        ci.gesture(s, owner())
    };
    assert_eq!(m(|s| s.left = true), Gesture::Orbit);
    assert_eq!(m(|s| s.middle = true), Gesture::Pan);
    assert_eq!(m(|s| s.right = true), Gesture::DollyDrag);
    assert_eq!(
        m(|s| {
            s.left = true;
            s.shift = true;
        }),
        Gesture::Pan
    );
    assert_eq!(
        m(|s| {
            s.left = true;
            s.alt = true;
        }),
        Gesture::DollyDrag
    );
    assert_eq!(m(|_| {}), Gesture::Idle);
    assert_eq!(
        m(|s| {
            s.left = true;
            s.middle = true;
        }),
        Gesture::Pan
    );
}

/// A camera on a sphere about its target.
#[derive(Clone, Copy, Debug, PartialEq)]
struct Orbit {
    yaw: f32,
    pitch: f32,
    target: [f32; 2],
    distance: f32,
}

const START: Orbit = Orbit { yaw: 0.6, pitch: 0.4, target: [0.0, 0.0], distance: 400.0 };

impl Orbit {
    fn apply(&mut self, m: CameraMove) -> bool {
        match m {
            CameraMove::Stay => return false,
            CameraMove::Orbit { dx, dy } => {
                self.yaw -= g(dx) * 0.006;
                self.pitch += g(dy) * 0.006;
            }
            CameraMove::Pan { dx, dy, viewport_height } => {
                let scale = self.distance / g(viewport_height);
                self.target[0] -= g(dx) * scale;
                self.target[1] += g(dy) * scale;
            }
            CameraMove::Dolly { notches } => self.distance *= 0.88f32.powf(g(notches)),
        }
        true
    }
}

fn drag(ci: &CameraInput, c: &mut Orbit, gesture: Gesture, dx: f32, dy: f32) {
    let over = |a: u32, b: u32| (g(a) / g(b)).to_bits();
    c.apply(ci.apply_drag(gesture, dx.to_bits(), dy.to_bits(), 800f32.to_bits(), &over));
}

fn wheel(ci: &CameraInput, c: &mut Orbit, notches: f32, owner: PointerOwnership) -> bool {
    let times = |a: u32, b: u32| (g(a) * g(b)).to_bits();
    c.apply(ci.apply_wheel(notches.to_bits(), owner, &times))
}

#[test]
fn orbit_and_pan_move_the_camera_in_the_expected_direction() {
    let ci = CameraInput::default();
    let mut c = START;
    drag(&ci, &mut c, Gesture::Orbit, 50.0, 0.0);
    assert!(c.yaw < START.yaw, "dragging right must swing the model to the right");

    let mut c = START;
    drag(&ci, &mut c, Gesture::Pan, 40.0, 0.0);
    assert_ne!(c.target, START.target);
    assert_eq!(c.yaw, START.yaw);
    assert_eq!(c.distance, START.distance);

    let mut c = START;
    drag(&ci, &mut c, Gesture::Idle, 40.0, 30.0);
    assert_eq!(c, START);
}

#[test]
fn inverting_the_vertical_axis_actually_inverts_it() {
    let (mut c, mut c2) = (START, START);
    drag(&CameraInput::default(), &mut c, Gesture::Orbit, 0.0, 30.0);
    let inverted = CameraInput { invert_orbit_y: true, ..CameraInput::default() };
    drag(&inverted, &mut c2, Gesture::Orbit, 0.0, 30.0);
    assert!((c.pitch - START.pitch).signum() != (c2.pitch - START.pitch).signum());
    assert_eq!((c.yaw, c2.yaw), (START.yaw, START.yaw));
    assert_eq!(
        inverted.apply_drag(Gesture::Orbit, 1f32.to_bits(), 30f32.to_bits(), 0, &|a: u32, _: u32| a),
        CameraMove::Orbit { dx: 1f32.to_bits(), dy: (-30f32).to_bits() }
    );
}

#[test]
fn the_wheel_zooms_in_when_pushed_forward_and_is_multiplicative() {
    let ci = CameraInput::default();
    let mut c = START;
    assert!(wheel(&ci, &mut c, 1.0, owner()));
    assert!(c.distance < START.distance, "wheel forward must zoom in");
    let ratio_far = c.distance / START.distance;
    let mut near = Orbit { distance: 40.0, ..START };
    wheel(&ci, &mut near, 1.0, owner());
    assert!((near.distance / 40.0 - ratio_far).abs() < 1e-5);
    let quick = CameraInput { wheel_gain: 2f32.to_bits(), ..ci };
    let mut twice = START;
    wheel(&quick, &mut twice, 1.0, owner());
    assert!((twice.distance / START.distance - ratio_far * ratio_far).abs() < 1e-5);
}

#[test]
fn the_wheel_is_ignored_when_a_panel_owns_the_pointer() {
    let ci = CameraInput::default();
    let mut c = START;
    let owned = PointerOwnership { ui_capture: true, gizmo_active: false };
    assert!(!wheel(&ci, &mut c, 3.0, owned));
    assert_eq!(c.distance, START.distance);
    assert!(!wheel(&ci, &mut c, 0.0, owner()));
    assert!(wheel(&ci, &mut c, 3.0, owner()));
}

#[test]
fn dolly_drag_pulls_the_camera_in_when_dragged_up() {
    let ci = CameraInput::default();
    let mut c = START;
    drag(&ci, &mut c, Gesture::DollyDrag, 0.0, -60.0);
    assert!(c.distance < START.distance, "drag up should zoom in, got {}", c.distance);
    // Sixty pixels are one notch, and a notch takes at least one pixel.
    let over = |a: u32, b: u32| (g(a) / g(b)).to_bits();
    let notches = |ci: &CameraInput, dy: f32| {
        ci.apply_drag(Gesture::DollyDrag, 0, dy.to_bits(), 0, &over)
    };
    assert_eq!(notches(&ci, -60.0), CameraMove::Dolly { notches: 1f32.to_bits() });
    let fine = CameraInput { dolly_drag_pixels: 0, ..ci };
    assert_eq!(notches(&fine, 3.0), CameraMove::Dolly { notches: (-3f32).to_bits() });
}

#[test]
fn digit_shortcuts_cover_every_preset_and_reject_the_rest() {
    for i in 0..7 {
        assert_eq!(preset_for_digit(i + 1, 7), Some(i as usize));
    }
    assert_eq!(preset_for_digit(0, 7), None, "there is no view 0");
    assert_eq!(preset_for_digit(9, 7), None);
}

// ---- volume ----

#[test]
fn default_settings_are_sane() {
    let f = f32::from_bits;
    let s = VolumeSettings::default();
    assert!(f(s.step_scale) > 0.0 && f(s.step_scale) <= 2.0);
    assert!(s.skip_empty_space, "skipping must be on by default");
    let l = [f(s.light_dir.x), f(s.light_dir.y), f(s.light_dir.z)];
    let length = (l[0] * l[0] + l[1] * l[1] + l[2] * l[2]).sqrt();
    assert!((length - 1.0).abs() < 1e-5, "light must be normalised");
    assert!(s.resolution_divisor >= 1);
    assert!(f(s.front_alpha) > 0.02 && f(s.front_alpha) < 0.5);
}

#[test]
fn a_reduced_target_covers_the_output() {
    let s = VolumeSettings { resolution_divisor: 2, ..VolumeSettings::default() };
    let mut v = VolumeRenderer::new(1921, 1080, s);
    assert_eq!(v.size(), (961, 540));
    assert_eq!(v.dispatch(), (121, 68));
    assert!(!v.set_settings(s, 1921, 1080));
    assert!(v.set_settings(VolumeSettings { resolution_divisor: 0, ..s }, 10, 20));
    assert_eq!(v.size(), (10, 20));
    v.resize(0, 0);
    assert_eq!(v.size(), (1, 1), "a target has at least one pixel");
    let wild = VolumeSettings { max_steps: 0, step_scale: 100f32.to_bits(), ..s };
    v.set_settings(wild, 8, 8);
    assert_eq!(v.march_uniform().max_steps, 1);
    assert_eq!(f32::from_bits(v.march_uniform().step_scale), 8.0);
}

#[test]
fn a_distance_field_is_handed_over_or_marked_absent() {
    let reciprocal = |x: u32| (1.0 / g(x)).to_bits();
    let v = |x: f32, y: f32, z: f32| Vec3::new(x.to_bits(), y.to_bits(), z.to_bits());
    let place = SdfPlace {
        min_mm: v(1.0, 2.0, 3.0),
        size_mm: v(4.0, 0.0, -2.0),
        surface_offset_mm: 0.25f32.to_bits(),
    };
    let u = sdf_uniform(Some(place), &reciprocal);
    assert_eq!([u.min_mm.x, u.min_mm.y, u.min_mm.z, u.min_mm.w].map(g), [1.0, 2.0, 3.0, 0.0]);
    let inverse = [u.inv_size.x, u.inv_size.y, u.inv_size.z, u.inv_size.w].map(g);
    assert_eq!(inverse, [0.25, 1.0 / 1e-6, 1.0 / 1e-6, 0.25]);
    assert_eq!(u.present, 1);
    let none = sdf_uniform(None, &reciprocal);
    assert_eq!((none.present, none.inv_size.x, none.min_mm.x), (0, 0, 0));
}
