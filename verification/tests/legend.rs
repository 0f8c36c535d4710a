use aeroduct::legend::{
    decade_ticks, tick_multiple, Decades, Handle, LegendRange, RangeScale, Repair, Share,
    TransferFunction,
};

fn f(x: u32) -> f32 {
    f32::from_bits(x)
}

fn log_bounds(r: &LegendRange) -> (f32, f32) {
    let lo = f(r.lo).max(1e-30).ln();
    let hi = f(r.hi).max(f(r.lo) * 1.000_001).max(1e-29).ln();
    (lo, hi.max(lo + 1e-6))
}

fn normalise(r: &LegendRange, v: f32) -> f32 {
    match r.scale {
        RangeScale::Linear => (v - f(r.lo)) / (f(r.hi) - f(r.lo)),
        RangeScale::Log => {
            let (lo, hi) = log_bounds(r);
            (v.max(1e-30).ln() - lo) / (hi - lo)
        }
    }
}

fn denormalise(r: &LegendRange, t: f32) -> f32 {
    match r.scale {
        RangeScale::Linear => f(r.lo) + t * (f(r.hi) - f(r.lo)),
        RangeScale::Log => {
            let (lo, hi) = log_bounds(r);
            (lo + t * (hi - lo)).exp()
        }
    }
}

fn land(r: LegendRange, handle: Handle, delta: u32) -> u32 {
    let end = match handle {
        Handle::Low => f(r.lo),
        Handle::High => f(r.hi),
    };
    denormalise(&r, normalise(&r, end) + f(delta)).to_bits()
}

fn range(lo: f32, hi: f32, scale: RangeScale, symmetric: bool) -> LegendRange {
    LegendRange::new(lo.to_bits(), hi.to_bits(), scale, symmetric)
}

fn drag(r: &mut LegendRange, handle: Handle, delta: f32) -> bool {
    r.drag_handle(handle, delta.to_bits(), &land)
}

fn auto_range(r: &mut LegendRange, min: f32, max: f32) -> bool {
    r.auto_range(min.to_bits(), max.to_bits())
}

#[test]
fn dragging_the_top_handle_rescales_only_that_end() {
    let mut r = range(0.0, 10.0, RangeScale::Linear, false);
    assert!(drag(&mut r, Handle::High, -0.2));
    assert!((f(r.lo) - 0.0).abs() < 1e-6);
    assert!((f(r.hi) - 8.0).abs() < 1e-5, "hi was {}", f(r.hi));
}

#[test]
fn a_locked_legend_refuses_every_change() {
    let mut r = range(0.0, 10.0, RangeScale::Linear, false);
    r.locked = true;
    assert!(!drag(&mut r, Handle::High, 0.5));
    assert!(!drag(&mut r, Handle::Low, -0.5));
    assert!(!auto_range(&mut r, -100.0, 100.0));
    assert_eq!((f(r.lo), f(r.hi)), (0.0, 10.0));
    let tf = TransferFunction {
        lo: (-3.0f32).to_bits(),
        hi: 77.0f32.to_bits(),
        scale: RangeScale::Linear,
        symmetric_lock: false,
    };
    r.sync_from(&tf);
    assert_eq!((f(r.lo), f(r.hi)), (0.0, 10.0));
}

#[test]
fn a_drag_by_nothing_or_by_no_number_does_nothing() {
    let mut r = range(0.0, 10.0, RangeScale::Linear, false);
    for delta in [0.0f32, -0.0, f32::NAN, f32::INFINITY] {
        assert!(!drag(&mut r, Handle::High, delta));
    }
    assert!(!auto_range(&mut r, f32::NAN, 1.0));
    assert!(!auto_range(&mut r, 0.0, f32::INFINITY));
    assert_eq!((f(r.lo), f(r.hi)), (0.0, 10.0));
}

#[test]
fn double_click_auto_ranges_with_a_little_headroom() {
    let mut r = range(0.0, 1.0, RangeScale::Linear, false);
    assert!(auto_range(&mut r, 2.0, 12.0));
    let (lo, hi) = (f(r.lo), f(r.hi));
    assert!(lo < 2.0 && hi > 12.0, "range {:?} does not contain the data", (lo, hi));
    assert!(lo > 1.5 && hi < 12.5, "the padding is far too generous");
}

#[test]
fn a_log_drag_moves_the_same_fraction_of_the_bar_at_both_ends() {
    let mut r = range(0.01, 100.0, RangeScale::Log, false);
    let t_before = normalise(&r, 1.0);
    drag(&mut r, Handle::High, 0.25);
    assert!((f(r.hi) - 1000.0).abs() / 1000.0 < 0.02, "hi was {}", f(r.hi));
    assert!(normalise(&r, 1.0) < t_before);
}

#[test]
fn a_symmetric_range_stays_centred_on_zero_however_it_is_dragged() {
    let mut r = range(-50.0, 50.0, RangeScale::Linear, true);
    drag(&mut r, Handle::High, 0.3);
    assert!((f(r.lo) + f(r.hi)).abs() < 1e-4, "range is off-centre");
    assert!((normalise(&r, 0.0) - 0.5).abs() < 1e-6);
    drag(&mut r, Handle::Low, -0.2);
    assert!((f(r.lo) + f(r.hi)).abs() < 1e-4);
    auto_range(&mut r, -12.0, 80.0);
    assert!((f(r.lo) + f(r.hi)).abs() < 1e-4);
}

#[test]
fn a_symmetric_range_too_wide_to_measure_stays_where_it_is() {
    let mut r = range(-3e38, 3e38, RangeScale::Linear, true);
    assert!(!drag(&mut r, Handle::High, 0.1), "the landing is no number");
    assert_eq!((f(r.lo), f(r.hi)), (-3e38, 3e38));
    let landed = |_: LegendRange, _: Handle, _: u32| (-20f32).to_bits();
    assert!(r.drag_handle(Handle::High, 0.1f32.to_bits(), &landed));
    assert_eq!((f(r.lo), f(r.hi)), (-20.0, 20.0));
    // The low end lands at an infinity, which is repaired.
    let mut r = range(-3e38, 3e38, RangeScale::Linear, true);
    assert!(drag(&mut r, Handle::Low, 0.1));
    assert_eq!((f(r.lo), f(r.hi)), (0.0, 1.0));
    // The end that was not dragged decides where the two differ.
    let mut r = range(-1.0, 4.0, RangeScale::Linear, false);
    r.symmetric = true;
    let nowhere = |_: LegendRange, _: Handle, _: u32| f32::NAN.to_bits();
    assert!(r.drag_handle(Handle::Low, 0.1f32.to_bits(), &nowhere));
    assert_eq!((f(r.lo), f(r.hi)), (-4.0, 4.0));
}

#[test]
fn handles_crossing_hold_a_minimum_span_instead_of_flipping() {
    let mut r = range(0.0, 10.0, RangeScale::Linear, false);
    drag(&mut r, Handle::High, -5.0);
    let span = f(r.hi) - f(r.lo);
    assert!(f(r.hi) > f(r.lo), "range inverted");
    assert!(span > 0.0 && span < 0.1);
}

#[test]
fn a_log_range_never_admits_a_non_positive_lower_bound() {
    let mut r = range(0.1, 100.0, RangeScale::Log, false);
    drag(&mut r, Handle::Low, -10.0);
    assert!(f(r.lo) > 0.0, "log lower bound went to {}", f(r.lo));
    assert!(f(r.hi) > f(r.lo));
    let r2 = range(-5.0, 100.0, RangeScale::Log, false);
    assert!(f(r2.lo) > 0.0);
}

#[test]
fn every_break_is_mended() {
    let unit = range(f32::NAN, 3.0, RangeScale::Linear, false);
    assert_eq!((f(unit.lo), f(unit.hi)), (0.0, 1.0));
    let span = range(4.0, 4.0, RangeScale::Linear, false);
    assert!(f(span.hi) > 4.0);
    let floor = range(-5.0, 100.0, RangeScale::Log, false);
    assert_eq!((f(floor.lo), f(floor.hi)), (100.0 * 1e-4, 100.0));
    let top = range(-5.0, -3.0, RangeScale::Log, false);
    assert_eq!((f(top.lo), f(top.hi)), (3.0 * 1e-4, 3.0 * 1e-4 * 10.0));
    assert!(!top.needs(Repair::Unit) && !top.needs(Repair::Span));
    assert!(!top.needs(Repair::Floor) && !top.needs(Repair::Top));
}

fn sanitised(tf: TransferFunction) -> TransferFunction {
    let r = LegendRange::new(tf.lo, tf.hi, tf.scale, tf.symmetric_lock);
    TransferFunction { lo: r.lo, hi: r.hi, ..tf }
}

#[test]
fn dragging_one_end_of_a_symmetric_range_drags_the_other() {
    let mut r = range(-50.0, 50.0, RangeScale::Linear, true);
    assert!(drag(&mut r, Handle::High, -0.3), "an inward drag moves the range");
    assert!((f(r.hi) - 20.0).abs() < 1e-4 && (f(r.lo) + 20.0).abs() < 1e-4);
    assert!(drag(&mut r, Handle::Low, -0.25));
    assert!((f(r.hi) - 30.0).abs() < 1e-4 && (f(r.lo) + 30.0).abs() < 1e-4);
    auto_range(&mut r, -10.0, 100.0);
    assert!((f(r.hi) - 102.2).abs() < 1e-3 && (f(r.lo) + 102.2).abs() < 1e-3);
}

#[test]
fn a_transfer_function_puts_itself_in_order() {
    let mut tf = LegendRange::default();
    tf.hi = 0;
    let unsound = LegendRange { lo: f32::NAN.to_bits(), ..tf };
    let mut out = TransferFunction {
        lo: 0,
        hi: 0,
        scale: RangeScale::Linear,
        symmetric_lock: false,
    };
    unsound.apply_to(&mut out, &sanitised);
    assert_eq!([f(out.lo), f(out.hi)], [0.0, 1.0]);
}

#[test]
fn applying_to_a_transfer_function_round_trips_through_sync() {
    let mut tf = TransferFunction {
        lo: 0,
        hi: 1.0f32.to_bits(),
        scale: RangeScale::Log,
        symmetric_lock: true,
    };
    let r = range(2.0, 9.0, RangeScale::Linear, false);
    r.apply_to(&mut tf, &sanitised);
    assert_eq!([f(tf.lo), f(tf.hi)], [2.0, 9.0]);
    let mut back = LegendRange::default();
    back.sync_from(&tf);
    assert!((f(back.lo) - 2.0).abs() < 1e-6 && (f(back.hi) - 9.0).abs() < 1e-6);
}

fn decades(r: LegendRange, n: usize) -> Decades {
    let (lo, hi) = (f(r.lo).max(1e-30).log10(), f(r.hi).max(1e-29).log10());
    Decades {
        first: lo.ceil() as i32,
        last: hi.floor() as i32,
        step: ((hi - lo) / n as f32).ceil() as i32,
    }
}

fn magnitude(raw: f32) -> f32 {
    10f32.powf(raw.log10().floor())
}

fn share(r: LegendRange, n: usize) -> Share {
    let raw = (f(r.hi) - f(r.lo)) / n as f32;
    Share { raw: raw.to_bits(), norm: (raw / magnitude(raw)).to_bits() }
}

fn spacing(s: Share, multiple: u32) -> f32 {
    multiple as f32 * magnitude(f(s.raw))
}

fn bounds(r: LegendRange, s: Share, multiple: u32) -> (u32, u32) {
    let step = spacing(s, multiple);
    (((f(r.lo) / step).ceil() * step).to_bits(), (f(r.hi) + step * 1e-4).to_bits())
}

fn ticks(r: &LegendRange, max_ticks: usize) -> Vec<f32> {
    let power = |e: i32| 10f32.powi(e).to_bits();
    let advance = |s: Share, multiple: u32, v: u32| (f(v) + spacing(s, multiple)).to_bits();
    r.ticks(max_ticks, &decades, &power, &share, &bounds, &advance).into_iter().map(f).collect()
}

#[test]
fn ticks_are_readable_numbers_inside_the_range() {
    let r = range(0.0, 10.0, RangeScale::Linear, false);
    let t = ticks(&r, 5);
    assert!(t.len() >= 3 && t.len() <= 8, "{t:?}");
    assert!(t.iter().all(|t| *t >= f(r.lo) - 1e-3 && *t <= f(r.hi) + 1e-3));
    assert!((t[1] - t[0] - 2.0).abs() < 1e-4, "{t:?}");

    let log = range(0.01, 100.0, RangeScale::Log, false);
    let lt = ticks(&log, 6);
    assert!(lt.iter().all(|t| (t.log10() - t.log10().round()).abs() < 1e-4), "{lt:?}");
}

#[test]
fn there_are_never_more_ticks_than_asked_for() {
    for n in 0..12 {
        for (lo, hi) in [(0.0, 10.0), (-1.0, 1.0), (0.3, 0.7), (2.0, 2000.0)] {
            assert!(ticks(&range(lo, hi, RangeScale::Linear, false), n).len() <= n);
        }
        assert!(ticks(&range(0.01, 100.0, RangeScale::Log, false), n).len() <= n);
    }
    assert_eq!(ticks(&range(0.0, 10.0, RangeScale::Linear, false), 5), [0.0, 2.0, 4.0, 6.0, 8.0]);
    let flat = LegendRange { hi: 0, ..LegendRange::default() };
    assert_eq!(ticks(&flat, 6), [0.0, 0.0]);
    assert_eq!(ticks(&flat, 1), [0.0]);
    assert_eq!(ticks(&flat, 0), [0.0f32; 0]);
}

#[test]
fn ticks_fall_on_one_two_or_five() {
    let multiple = |norm: f32| tick_multiple(norm.to_bits());
    assert_eq!([1.0, 1.5, 2.0, 3.0, 5.0, 7.5].map(multiple), [1, 2, 2, 5, 5, 10]);
    assert_eq!(decade_ticks(-2, 2, 1, 6), [-2, -1, 0, 1, 2]);
    assert_eq!(decade_ticks(-2, 2, 1, 3), [-2, -1, 0]);
    assert_eq!(decade_ticks(-2, 2, 3, 6), [-2, 1]);
    assert_eq!(decade_ticks(0, 2, 0, 6), [0, 1, 2]);
    assert!(decade_ticks(3, 2, 1, 6).is_empty());
    assert_eq!(decade_ticks(i32::MAX, i32::MAX, i32::MAX, 6), [i32::MAX]);
}

#[test]
fn a_repaired_range_is_sound_whatever_it_was() {
    let odd = [
        f32::NAN,
        f32::INFINITY,
        f32::NEG_INFINITY,
        0.0,
        -0.0,
        1.0,
        -1.0,
        1e-45,
        -3e-39,
        1e30,
        -1e30,
        3.4e38,
        0.3,
        12345.678,
    ];
    for lo in odd {
        for hi in odd {
            for scale in [RangeScale::Linear, RangeScale::Log] {
                // What the ends come to in floating point.
                let (mut a, mut b) = (lo, hi);
                if !a.is_finite() || !b.is_finite() {
                    (a, b) = (0.0, 1.0);
                }
                if b <= a {
                    b = a + (a.abs().max(1.0) * 1e-4).max(1e-6);
                }
                if scale == RangeScale::Log {
                    if a <= 0.0 {
                        a = b.abs().max(1e-6) * 1e-4;
                    }
                    if b <= a {
                        b = a * 10.0;
                    }
                }
                let r = range(lo, hi, scale, false);
                assert_eq!([r.lo, r.hi], [a, b].map(f32::to_bits), "{lo} {hi} {scale:?}");
                if !(lo.is_finite() && lo.abs() > 1e30) {
                    assert!(f(r.hi).is_finite() && f(r.lo) < f(r.hi), "{lo} {hi} {scale:?}");
                    assert!(scale == RangeScale::Linear || f(r.lo) > 0.0);
                }
            }
        }
    }
}
