use aeroduct::format::{
    decimals_for, duration, grouped, long_duration_text, percent, short, uncertain, uncertain_text,
    value_only, DurationForm, Quantity, Short, Shown, UnitSystem, ValueOnly,
};
use aeroduct::view::{Health, Reading};

fn r(value: f64, sem: f64) -> Reading {
    Reading::new(value.to_bits(), sem.to_bits(), Health::Good, 128)
}

fn times(a: u64, b: u64) -> u64 {
    (f64::from_bits(a) * f64::from_bits(b)).to_bits()
}

fn short_text(v: f64) -> String {
    match short(v.to_bits()) {
        Short::Dash => "--".to_string(),
        Short::Zero => "0".to_string(),
        Short::Exponent => format!("{v:.2e}"),
        Short::Fixed(d) => format!("{v:.d$}"),
    }
}

fn shown(r: Reading, q: Quantity) -> String {
    let c = q.convert(r, &times);
    let form = uncertain(c);
    let (v, s) = (f64::from_bits(c.value), f64::from_bits(c.sem));
    let (value, sem) = match form {
        Shown::Dash => (String::new(), String::new()),
        Shown::WithError(d) => (format!("{v:.d$}"), format!("{s:.d$}")),
        Shown::Provisional(_) => (short_text(v), String::new()),
    };
    uncertain_text(form, &value, &sem, &q)
}

fn duration_text(s: f64) -> String {
    match duration(s.to_bits()) {
        DurationForm::Dash => "--".to_string(),
        DurationForm::Microseconds => format!("{:.0} us", s * 1e6),
        DurationForm::Milliseconds => format!("{:.1} ms", s * 1e3),
        DurationForm::Seconds => format!("{s:.2} s"),
        DurationForm::Minutes | DurationForm::Hours => long_duration_text(s as u64),
    }
}

#[test]
fn uncertainty_sets_the_precision_of_the_value() {
    assert_eq!(
        shown(r(47.31843, 0.6), Quantity::pressure(UnitSystem::Metric)),
        "47.3 +/- 0.6 Pa"
    );
    assert_eq!(
        shown(r(47.31843, 0.14), Quantity::pressure(UnitSystem::Metric)),
        "47.32 +/- 0.14 Pa"
    );
    assert_eq!(
        shown(r(47.31843, 3.0), Quantity::pressure(UnitSystem::Metric)),
        "47 +/- 3 Pa"
    );
    assert_eq!(
        shown(r(1470.0, 40.0), Quantity::pressure(UnitSystem::Metric)),
        "1470 +/- 40 Pa"
    );
}

#[test]
fn decimals_track_the_error_bar_across_decades() {
    let d = |x: f64| decimals_for(x.to_bits());
    assert_eq!(d(0.6), Some(1));
    assert_eq!(d(0.06), Some(2));
    assert_eq!(d(0.14), Some(2));
    assert_eq!(d(0.014), Some(3));
    assert_eq!(d(3.0), Some(0));
    assert_eq!(d(14.0), Some(0));
    assert_eq!(d(40.0), Some(0), "tens are already coarser than one place");
    assert_eq!(d(0.0), None);
    assert_eq!(d(-1.0), None);
    assert_eq!(d(f64::NAN), None);
    assert_eq!(d(f64::INFINITY), None);
}

#[test]
fn the_decimals_follow_the_leading_digit_at_every_scale() {
    for k in -12i32..=3 {
        for lead in [1.0f64, 1.5, 1.99, 2.0, 3.0, 5.0, 9.99] {
            let sem = lead * 10f64.powi(k);
            let exp = sem.log10().floor();
            let first = (sem / 10f64.powf(exp)).floor();
            let places = (-exp) as i32 + i32::from(first == 1.0);
            let want = places.clamp(0, 9) as usize;
            assert_eq!(decimals_for(sem.to_bits()), Some(want), "sem {sem:e}");
        }
    }
}

#[test]
fn a_reading_with_no_samples_renders_as_a_dash_not_a_number() {
    let q = Quantity::pressure(UnitSystem::Metric);
    assert_eq!(shown(Reading::unknown(), q), "-- Pa");
    assert_eq!(
        shown(Reading::new(0f64.to_bits(), 0.1f64.to_bits(), Health::Good, 0), q),
        "-- Pa"
    );
    assert_eq!(value_only(Reading::unknown()), ValueOnly::Dash);
}

#[test]
fn a_reading_with_no_error_bar_is_marked_provisional() {
    let q = Quantity::plain();
    let s = shown(
        Reading::new(1.234f64.to_bits(), f64::NAN.to_bits(), Health::Unknown, 1),
        q,
    );
    assert!(s.starts_with('~'), "an un-averaged sample must be marked: {s}");
    assert!(!s.contains("+/-"));
    assert_eq!(s, "~1.23");
}

#[test]
fn conversion_scales_the_error_bar_with_the_value() {
    let si = r(0.006_35, 0.000_05);
    let cfm = Quantity::flow(UnitSystem::Imperial).convert(si, &times);
    let (value, sem) = (f64::from_bits(cfm.value), f64::from_bits(cfm.sem));
    assert!((value - 13.45).abs() < 0.01, "{value} CFM");
    assert!(
        (sem / value - 0.000_05 / 0.006_35).abs() < 1e-12,
        "relative error must be invariant under a unit change"
    );
    assert_eq!(cfm.samples, si.samples);
    assert_eq!(cfm.state, si.state);
}

#[test]
fn the_contract_table_round_trips_through_the_flow_conversion() {
    let si = r(0.006_35, 0.000_04);
    assert_eq!(shown(si, Quantity::flow(UnitSystem::Metric)), "6.35 +/- 0.04 L/s");
    let imperial = shown(si, Quantity::flow(UnitSystem::Imperial));
    assert!(imperial.starts_with("13.45 +/- 0.08"), "{imperial}");
    assert!(imperial.ends_with(" CFM"));
}

#[test]
fn pressure_in_inches_of_water_keeps_enough_digits() {
    let s = shown(r(47.3, 0.6), Quantity::pressure(UnitSystem::Imperial));
    assert_eq!(s, "0.190 +/- 0.002 inH2O");
}

#[test]
fn unit_system_toggles_both_ways() {
    assert_eq!(UnitSystem::Metric.toggled(), UnitSystem::Imperial);
    assert_eq!(UnitSystem::Imperial.toggled().toggled(), UnitSystem::Imperial);
    assert_eq!(UnitSystem::default().label(), "metric");
}

#[test]
fn the_other_units_have_their_labels() {
    assert_eq!(Quantity::velocity(UnitSystem::Metric).unit, "m/s");
    assert_eq!(Quantity::velocity(UnitSystem::Imperial).unit, "ft/min");
    assert_eq!(Quantity::length(UnitSystem::Metric).unit, "mm");
    assert_eq!(Quantity::length(UnitSystem::Imperial).unit, "in");
    assert_eq!(Quantity::degrees().unit, "deg");
    let inches = f64::from_bits(Quantity::length(UnitSystem::Imperial).factor);
    assert!((inches * 25.4 - 1.0).abs() < 1e-12);
    let feet = f64::from_bits(Quantity::velocity(UnitSystem::Imperial).factor);
    assert!((feet - 196.850_393_7).abs() < 1e-6);
    let water = f64::from_bits(Quantity::pressure(UnitSystem::Imperial).factor);
    assert!((1.0 / water - 249.08).abs() < 0.1);
}

#[test]
fn short_form_covers_the_range_a_duct_sim_actually_produces() {
    assert_eq!(short_text(0.0), "0");
    assert_eq!(short_text(0.5), "0.500");
    assert_eq!(short_text(5.25), "5.25");
    assert_eq!(short_text(52.5), "52.5");
    assert_eq!(short_text(525.4), "525");
    assert_eq!(short_text(1.0e-5), "1.00e-5");
    assert_eq!(short_text(1.32e8), "1.32e8");
    assert_eq!(short_text(f64::NAN), "--");
    assert_eq!(short_text(0.0042), "0.00420");
    assert_eq!(short_text(-0.0456), "-0.0456");
    assert_eq!(short_text(0.1), "0.100");
    assert_eq!(short_text(0.01), "0.0100");
    assert_eq!(short_text(0.001), "0.00100");
}

#[test]
fn grouping_matches_the_obvious_cases() {
    assert_eq!(grouped(0), "0");
    assert_eq!(grouped(999), "999");
    assert_eq!(grouped(1_000), "1,000");
    assert_eq!(grouped(132_000_000), "132,000,000");
}

#[test]
fn grouping_only_adds_commas_to_any_number() {
    for n in [1u64, 12, 1_234, 12_345, 1_000_001, u64::MAX] {
        assert_eq!(grouped(n).replace(',', ""), n.to_string());
    }
}

#[test]
fn durations_pick_a_readable_unit() {
    assert_eq!(duration_text(5.0e-6), "5 us");
    assert_eq!(duration_text(0.25), "250.0 ms");
    assert_eq!(duration_text(12.5), "12.50 s");
    assert_eq!(duration_text(125.0), "2m 05s");
    assert_eq!(duration_text(7_300.0), "2h 01m");
    assert_eq!(duration_text(-1.0), "--");
}

#[test]
fn a_duration_is_cut_off_not_rounded() {
    assert_eq!(duration_text(119.6), "1m 59s");
    assert_eq!(duration_text(3_599.9), "59m 59s");
    assert_eq!(duration_text(3_600.0), "1h 00m");
}

#[test]
fn a_percentage_of_nothing_is_a_dash() {
    let digits = |x: u64| format!("{:.1}", f64::from_bits(x) * 100.0);
    assert_eq!(percent(0.0123f64.to_bits(), &digits), "1.2%");
    assert_eq!(percent(f64::NAN.to_bits(), &digits), "--");
    assert_eq!(percent(f64::INFINITY.to_bits(), &digits), "--");
}
