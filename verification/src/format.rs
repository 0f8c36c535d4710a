//! Turning numbers into strings, honestly.
//!
//! Two jobs, and both of them are places where a plausible-looking shortcut
//! produces a misleading UI:
//!
//! 1. **Uncertainty.** `47.31843 Pa` is not a measurement, it is a float. The
//!    number of digits worth showing is decided by the error bar and by nothing
//!    else.
//! 2. **Units.** Everything upstream is SI (or millimetres); the conversion to
//!    CFM or inches of water happens at the last moment. Converting earlier would
//!    mean the A/B baseline and the live reading could be in different units
//!    without anything noticing.
//!
//! What is decided here is the form: how many decimals, which unit, what stands
//! around the digits. Numbers are bit patterns of `f64`.
use vstd::prelude::*;
use vstd::string::StringExecFns;
use vstd::arithmetic::power2::*;
use crate::binary64::{
    lemma_near_miss, lemma_reaches, lemma_reaches_at, lemma_size_positive, nearly, reaches,
    size64, STEPS64,
};
use crate::float_order::{at_most64, eq64, equal64, finite64, is_finite64, le64, less64, lt64};
use crate::minifloat::lemma_code_value_monotonic;
use crate::text::{decimal, decimal_string, digit, digit_str};
use crate::view::{abs64, magnitude64, Reading};

verus! {

/// Which unit family the display is in.
///
/// Duct work is quoted in CFM and inches of water in North America and in L/s
/// and pascals almost everywhere else. This is a display switch only.
#[derive(Clone, Copy, Debug, PartialEq, Eq, Structural)]
pub enum UnitSystem {
    /// L/s, Pa, m/s, mm.
    Metric,
    /// CFM, inH2O, ft/min, in.
    Imperial,
}

impl Default for UnitSystem {
    fn default() -> (u: Self)
        ensures
            u == UnitSystem::Metric,
    {
        UnitSystem::Metric
    }
}

impl UnitSystem {
    pub fn label(self) -> (s: &'static str)
        ensures
            s@ == (match self {
                UnitSystem::Metric => "metric"@,
                UnitSystem::Imperial => "imperial"@,
            }),
    {
        match self {
            UnitSystem::Metric => "metric",
            UnitSystem::Imperial => "imperial",
        }
    }

    /// The other system.
    pub open spec fn other(self) -> UnitSystem {
        match self {
            UnitSystem::Metric => UnitSystem::Imperial,
            UnitSystem::Imperial => UnitSystem::Metric,
        }
    }

    pub fn toggled(self) -> (u: Self)
        ensures
            u == self.other(),
    {
        match self {
            UnitSystem::Metric => UnitSystem::Imperial,
            UnitSystem::Imperial => UnitSystem::Metric,
        }
    }
}

/// Toggling twice is doing nothing, and toggling once is not.
pub proof fn unit_systems_toggle_both_ways(u: UnitSystem)
    ensures
        u.other().other() == u,
        u.other() != u,
{
}

/// Bit pattern of cubic feet per minute per cubic metre per second.
pub const CFM_PER_M3S: u64 = 0x40a0_8dc2_8fca_87f7;

/// Bit pattern of litres per second per cubic metre per second.
pub const LPS_PER_M3S: u64 = 0x408f_4000_0000_0000;

/// Bit pattern of inches of water column (at 4 C) per pascal.
pub const INH2O_PER_PA: u64 = 0x3f70_71a5_482c_a274;

/// Bit pattern of feet per minute per metre per second.
pub const FPM_PER_MS: u64 = 0x4068_9b36_6cd9_b359;

/// Bit pattern of inches per millimetre.
pub const IN_PER_MM: u64 = 0x3fa4_2850_a142_850a;

/// Bit pattern of one.
pub const ONE64: u64 = 0x3ff0_0000_0000_0000;

/// A linear unit conversion plus the label to print after the number.
///
/// Linear-and-through-the-origin is the only kind of conversion this app needs,
/// which matters: a reading's *uncertainty* scales by the same factor as its
/// value.
#[derive(Clone, Copy, Debug)]
pub struct Quantity {
    pub factor: u64,
    pub unit: &'static str,
}

/// What a quantity is multiplied by in a unit family, and the unit's label.
pub open spec fn conversion(kind: Kind, system: UnitSystem) -> (u64, Seq<char>) {
    match (kind, system) {
        (Kind::Flow, UnitSystem::Metric) => (LPS_PER_M3S, "L/s"@),
        (Kind::Flow, UnitSystem::Imperial) => (CFM_PER_M3S, "CFM"@),
        (Kind::Pressure, UnitSystem::Metric) => (ONE64, "Pa"@),
        (Kind::Pressure, UnitSystem::Imperial) => (INH2O_PER_PA, "inH2O"@),
        (Kind::Velocity, UnitSystem::Metric) => (ONE64, "m/s"@),
        (Kind::Velocity, UnitSystem::Imperial) => (FPM_PER_MS, "ft/min"@),
        (Kind::Length, UnitSystem::Metric) => (ONE64, "mm"@),
        (Kind::Length, UnitSystem::Imperial) => (IN_PER_MM, "in"@),
    }
}

/// What is measured: a flow in cubic metres per second, a pressure in pascals, a velocity
/// in metres per second, a length in millimetres.
pub enum Kind {
    Flow,
    Pressure,
    Velocity,
    Length,
}

impl Quantity {
    /// Whether this is the conversion by `factor` to `unit`.
    pub open spec fn is(&self, factor: u64, unit: Seq<char>) -> bool {
        self.factor == factor && self.unit@ == unit
    }

    pub fn new(factor: u64, unit: &'static str) -> (q: Self)
        ensures
            q.is(factor, unit@),
    {
        Quantity { factor, unit }
    }

    /// Volumetric flow, from m^3/s.
    pub fn flow(system: UnitSystem) -> (q: Self)
        ensures
            q.is(conversion(Kind::Flow, system).0, conversion(Kind::Flow, system).1),
    {
        match system {
            UnitSystem::Metric => Self::new(LPS_PER_M3S, "L/s"),
            UnitSystem::Imperial => Self::new(CFM_PER_M3S, "CFM"),
        }
    }

    /// Pressure, from Pa.
    pub fn pressure(system: UnitSystem) -> (q: Self)
        ensures
            q.is(conversion(Kind::Pressure, system).0, conversion(Kind::Pressure, system).1),
    {
        match system {
            UnitSystem::Metric => Self::new(ONE64, "Pa"),
            UnitSystem::Imperial => Self::new(INH2O_PER_PA, "inH2O"),
        }
    }

    /// Velocity, from m/s.
    pub fn velocity(system: UnitSystem) -> (q: Self)
        ensures
            q.is(conversion(Kind::Velocity, system).0, conversion(Kind::Velocity, system).1),
    {
        match system {
            UnitSystem::Metric => Self::new(ONE64, "m/s"),
            UnitSystem::Imperial => Self::new(FPM_PER_MS, "ft/min"),
        }
    }

    /// Length, from mm.
    pub fn length(system: UnitSystem) -> (q: Self)
        ensures
            q.is(conversion(Kind::Length, system).0, conversion(Kind::Length, system).1),
    {
        match system {
            UnitSystem::Metric => Self::new(ONE64, "mm"),
            UnitSystem::Imperial => Self::new(IN_PER_MM, "in"),
        }
    }

    /// Dimensionless, so nothing is scaled and nothing is appended.
    pub fn plain() -> (q: Self)
        ensures
            q.is(ONE64, ""@),
    {
        Self::new(ONE64, "")
    }

    /// Degrees. Written as `deg` rather than the degree sign because the default
    /// font would render that as a box.
    pub fn degrees() -> (q: Self)
        ensures
            q.is(ONE64, "deg"@),
    {
        Self::new(ONE64, "deg")
    }
}

impl Quantity {
    /// A reading in this unit: its value and its error bar scale alike, by `times`,
    /// and nothing else changes.
    pub fn convert<M: Fn(u64, u64) -> u64>(&self, r: Reading, times: &M) -> (c: Reading)
        requires
            forall|a: u64, b: u64| #[trigger] times.requires((a, b)),
        ensures
            times.ensures((r.value, self.factor), c.value),
            times.ensures((r.sem, self.factor), c.sem),
            c.state == r.state,
            c.samples == r.samples,
    {
        let value: u64 = times(r.value, self.factor);
        let sem: u64 = times(r.sem, self.factor);
        Reading { value, sem, state: r.state, samples: r.samples }
    }
}

/// Bit pattern of twice `10^-p`, the smallest error bar that `p` decimals show.
pub open spec fn decimal_threshold(p: int) -> u64 {
    if p == 0 {
        0x4000_0000_0000_0000
    } else if p == 1 {
        0x3fc9_9999_9999_999a
    } else if p == 2 {
        0x3f94_7ae1_47ae_147b
    } else if p == 3 {
        0x3f60_624d_d2f1_a9fc
    } else if p == 4 {
        0x3f2a_36e2_eb1c_432d
    } else if p == 5 {
        0x3ef4_f8b5_88e3_68f1
    } else if p == 6 {
        0x3ec0_c6f7_a0b5_ed8d
    } else if p == 7 {
        0x3e8a_d7f2_9abc_af48
    } else {
        0x3e55_798e_e230_8c3a
    }
}

fn threshold(p: usize) -> (t: u64)
    ensures
        t == decimal_threshold(p as int),
{
    match p {
        0 => 0x4000_0000_0000_0000,
        1 => 0x3fc9_9999_9999_999a,
        2 => 0x3f94_7ae1_47ae_147b,
        3 => 0x3f60_624d_d2f1_a9fc,
        4 => 0x3f2a_36e2_eb1c_432d,
        5 => 0x3ef4_f8b5_88e3_68f1,
        6 => 0x3ec0_c6f7_a0b5_ed8d,
        7 => 0x3e8a_d7f2_9abc_af48,
        _ => 0x3e55_798e_e230_8c3a,
    }
}

/// The fewest decimals, from `p` on and at most nine, whose threshold an error
/// bar reaches.
pub open spec fn decimals_from(sem: u64, p: int) -> int
    decreases 9 - p,
{
    if p >= 9 || le64(decimal_threshold(p), sem) {
        p
    } else {
        decimals_from(sem, p + 1)
    }
}

/// Decimal places justified by an uncertainty of `sem`.
///
/// The convention: **one significant figure in the uncertainty, two when its
/// leading digit is 1.** So `p` decimals go with an error bar from twice `10^-p`
/// up to ten times that.
///
/// Returns `None` when `sem` is unusable, so callers can fall back to a fixed
/// format rather than inventing a precision.
pub fn decimals_for(sem: u64) -> (d: Option<usize>)
    ensures
        d == if finite64(sem) && lt64(0, sem) {
            Some(decimals_from(sem, 0) as usize)
        } else {
            None
        },
        d matches Some(p) ==> p <= 9,
{
    if !is_finite64(sem) || at_most64(sem, 0) {
        return None;
    }
    let mut p: usize = 0;
    while p < 9 && !at_most64(threshold(p), sem)
        invariant
            p <= 9,
            decimals_from(sem, 0) == decimals_from(sem, p as int),
        decreases 9 - p,
    {
        p += 1;
    }
    Some(p)
}

/// How a number with no error bar is written.
#[derive(Clone, Copy, Debug, PartialEq, Eq, Structural)]
pub enum Short {
    /// Not a number: `--`.
    Dash,
    /// Exactly `0`.
    Zero,
    /// Two decimals and an exponent.
    Exponent,
    /// Plain, with this many decimals.
    Fixed(usize),
}

/// How a number with no error bar is written.
pub open spec fn short_form(v: u64) -> Short {
    let a = magnitude64(v);
    if !finite64(v) {
        Short::Dash
    } else if eq64(a, 0) {
        Short::Zero
    } else if lt64(a, 0x3f50_624d_d2f1_a9fc) || le64(0x412e_8480_0000_0000, a) {
        Short::Exponent
    } else if le64(0x4059_0000_0000_0000, a) {
        Short::Fixed(0)
    } else if le64(0x4024_0000_0000_0000, a) {
        Short::Fixed(1)
    } else if le64(ONE64, a) {
        Short::Fixed(2)
    } else if le64(0x3fb9_9999_9999_999a, a) {
        Short::Fixed(3)
    } else if le64(0x3f84_7ae1_47ae_147b, a) {
        Short::Fixed(4)
    } else {
        Short::Fixed(5)
    }
}

/// Three-significant-figure rendering for a number with no error bar attached.
///
/// Switches to exponent form outside `[1e-3, 1e6)`, because a duct simulation
/// legitimately produces both very small flows and very large cell counts, and a
/// fixed format is unreadable for one of them.
pub fn short(v: u64) -> (s: Short)
    ensures
        s == short_form(v),
{
    if !is_finite64(v) {
        return Short::Dash;
    }
    let a: u64 = abs64(v);
    if equal64(a, 0) {
        return Short::Zero;
    }
    if less64(a, 0x3f50_624d_d2f1_a9fc) || at_most64(0x412e_8480_0000_0000, a) {
        return Short::Exponent;
    }
    if at_most64(0x4059_0000_0000_0000, a) {
        Short::Fixed(0)
    } else if at_most64(0x4024_0000_0000_0000, a) {
        Short::Fixed(1)
    } else if at_most64(ONE64, a) {
        Short::Fixed(2)
    } else if at_most64(0x3fb9_9999_9999_999a, a) {
        Short::Fixed(3)
    } else if at_most64(0x3f84_7ae1_47ae_147b, a) {
        Short::Fixed(4)
    } else {
        Short::Fixed(5)
    }
}

/// How a reading is written.
#[derive(Clone, Copy, Debug, PartialEq, Eq, Structural)]
pub enum Shown {
    /// Nothing measured: `--`.
    Dash,
    /// Value and error bar, both with this many decimals.
    WithError(usize),
    /// No error bar yet: a tilde, so the number never masquerades as converged.
    Provisional(Short),
}

/// How a reading, already in display units, is written.
pub open spec fn shown(r: Reading) -> Shown {
    if !r.known() {
        Shown::Dash
    } else if finite64(r.sem) && lt64(0, r.sem) {
        Shown::WithError(decimals_from(r.sem, 0) as usize)
    } else {
        Shown::Provisional(short_form(r.value))
    }
}

/// How a reading, already in display units, is written.
pub fn uncertain(r: Reading) -> (s: Shown)
    ensures
        s == shown(r),
{
    if !r.is_known() {
        return Shown::Dash;
    }
    match decimals_for(r.sem) {
        Some(d) => Shown::WithError(d),
        None => Shown::Provisional(short(r.value)),
    }
}

/// What follows the digits.
pub open spec fn unit_suffix(unit: Seq<char>) -> Seq<char> {
    if unit.len() == 0 {
        Seq::empty()
    } else {
        " "@ + unit
    }
}

/// The text of a reading written as `form`, from the digits of its value and of
/// its error bar: `"47.3 +/- 0.6 Pa"`.
///
/// ASCII `+/-` rather than the plus-minus sign, which the default font would draw
/// as a hollow box.
pub fn uncertain_text(form: Shown, value: &str, sem: &str, q: &Quantity) -> (s: String)
    ensures
        s@ == (match form {
            Shown::Dash => "--"@,
            Shown::WithError(_) => value@ + " +/- "@ + sem@,
            Shown::Provisional(_) => "~"@ + value@,
        }) + unit_suffix(q.unit@),
{
    let mut s: String = match form {
        Shown::Dash => String::from_str("--"),
        Shown::WithError(_) => {
            let mut s: String = String::from_str(value);
            s.append(" +/- ");
            s.append(sem);
            s
        },
        Shown::Provisional(_) => {
            let mut s: String = String::from_str("~");
            s.append(value);
            s
        },
    };
    let ghost head = s@;
    if !q.unit.is_empty() {
        s.append(" ");
        s.append(q.unit);
    }
    proof {
        assert(s@ =~= head + unit_suffix(q.unit@));
    }
    s
}

/// Just the value, at the precision the error bar justifies.
#[derive(Clone, Copy, Debug, PartialEq, Eq, Structural)]
pub enum ValueOnly {
    Dash,
    Fixed(usize),
    Provisional(Short),
}

/// Just the value, at the precision the error bar justifies. For a HUD chip that
/// shows the error bar separately or not at all.
pub fn value_only(r: Reading) -> (s: ValueOnly)
    ensures
        s == (match shown(r) {
            Shown::Dash => ValueOnly::Dash,
            Shown::WithError(d) => ValueOnly::Fixed(d),
            Shown::Provisional(f) => ValueOnly::Provisional(f),
        }),
{
    match uncertain(r) {
        Shown::Dash => ValueOnly::Dash,
        Shown::WithError(d) => ValueOnly::Fixed(d),
        Shown::Provisional(f) => ValueOnly::Provisional(f),
    }
}

/// How a duration is written.
#[derive(Clone, Copy, Debug, PartialEq, Eq, Structural)]
pub enum DurationForm {
    /// Not a duration: `--`.
    Dash,
    /// Whole microseconds.
    Microseconds,
    /// Milliseconds with one decimal.
    Milliseconds,
    /// Seconds with two decimals.
    Seconds,
    /// Whole minutes and seconds.
    Minutes,
    /// Whole hours and minutes.
    Hours,
}

/// How a duration is written.
pub open spec fn duration_form(seconds: u64) -> DurationForm {
    if !finite64(seconds) || lt64(seconds, 0) {
        DurationForm::Dash
    } else if lt64(seconds, 0x3f50_624d_d2f1_a9fc) {
        DurationForm::Microseconds
    } else if lt64(seconds, ONE64) {
        DurationForm::Milliseconds
    } else if lt64(seconds, 0x404e_0000_0000_0000) {
        DurationForm::Seconds
    } else if lt64(seconds, 0x40ac_2000_0000_0000) {
        DurationForm::Minutes
    } else {
        DurationForm::Hours
    }
}

/// A duration in the largest unit that keeps it readable.
pub fn duration(seconds: u64) -> (f: DurationForm)
    ensures
        f == duration_form(seconds),
{
    if !is_finite64(seconds) || less64(seconds, 0) {
        return DurationForm::Dash;
    }
    if less64(seconds, 0x3f50_624d_d2f1_a9fc) {
        DurationForm::Microseconds
    } else if less64(seconds, ONE64) {
        DurationForm::Milliseconds
    } else if less64(seconds, 0x404e_0000_0000_0000) {
        DurationForm::Seconds
    } else if less64(seconds, 0x40ac_2000_0000_0000) {
        DurationForm::Minutes
    } else {
        DurationForm::Hours
    }
}

/// Two digits, with a leading zero.
pub open spec fn two_digits(n: int) -> Seq<char> {
    seq![digit((n / 10) % 10), digit(n % 10)]
}

/// A ratio as a percentage, or `--` when it is not a number. `digits` writes the
/// hundredfold of a number with one decimal.
pub fn percent<G: Fn(u64) -> String>(x: u64, digits: &G) -> (s: String)
    requires
        finite64(x) ==> digits.requires((x,)),
    ensures
        if finite64(x) {
            exists|d: String| #[trigger] digits.ensures((x,), d) && s@ == d@ + "%"@
        } else {
            s@ == "--"@
        },
{
    if !is_finite64(x) {
        return String::from_str("--");
    }
    let d: String = digits(x);
    let ghost made = d;
    let mut s: String = d;
    s.append("%");
    assert(digits.ensures((x,), made));
    s
}

/// The text of a duration of at least a minute, from its whole seconds.
pub open spec fn long_form(seconds: int) -> Seq<char> {
    if seconds < 3600 {
        decimal(seconds / 60) + "m "@ + two_digits(seconds % 60) + "s"@
    } else {
        decimal(seconds / 3600) + "h "@ + two_digits((seconds % 3600) / 60) + "m"@
    }
}

/// The text of a duration of at least a minute, from its whole seconds: minutes
/// and seconds below an hour, hours and minutes from there. The remainder is cut
/// off, not rounded: 119.6 s reads `1m 59s`, not `1m 60s`.
pub fn long_duration_text(seconds: u64) -> (s: String)
    ensures
        s@ == long_form(seconds as int),
{
    let (big, small, big_unit, small_unit): (u64, u64, &'static str, &'static str) = if seconds
        < 3600 {
        (seconds / 60, seconds % 60, "m ", "s")
    } else {
        (seconds / 3600, (seconds % 3600) / 60, "h ", "m")
    };
    let mut s: String = decimal_string(big);
    s.append(big_unit);
    let ghost head = s@;
    s.append(digit_str((small / 10) % 10));
    s.append(digit_str(small % 10));
    proof {
        assert(s@ =~= head + two_digits(small as int));
    }
    s.append(small_unit);
    s
}

/// `n` in decimal, with a comma before every group of three digits.
pub open spec fn grouped_decimal(n: int) -> Seq<char>
    decreases n,
{
    if n < 1000 {
        decimal(n)
    } else {
        grouped_decimal(n / 1000) + seq![
            ',',
            digit((n / 100) % 10),
            digit((n / 10) % 10),
            digit(n % 10),
        ]
    }
}

/// `132000000` as `132,000,000`.
pub fn grouped(n: u64) -> (s: String)
    ensures
        s@ == grouped_decimal(n as int),
    decreases n,
{
    if n < 1000 {
        decimal_string(n)
    } else {
        let mut s: String = grouped(n / 1000);
        let ghost head = s@;
        proof {
            reveal_strlit(",");
        }
        s.append(",");
        s.append(digit_str((n / 100) % 10));
        s.append(digit_str((n / 10) % 10));
        s.append(digit_str(n % 10));
        assert(s@ =~= head + seq![
            ',',
            digit(((n as int) / 100) % 10),
            digit(((n as int) / 10) % 10),
            digit((n as int) % 10),
        ]);
        s
    }
}

/// Grouping adds commas and nothing else: without them the digits are those of
/// the plain number.
pub proof fn grouping_only_adds_commas(n: int)
    requires
        n >= 0,
    ensures
        grouped_decimal(n).filter(|c: char| c != ',') == decimal(n),
    decreases n,
{
    let p = |c: char| c != ',';
    if n < 1000 {
        lemma_digits_are_not_commas(n);
        lemma_filter_all(decimal(n), p);
    } else {
        grouping_only_adds_commas(n / 1000);
        let kept = seq![digit((n / 100) % 10), digit((n / 10) % 10), digit(n % 10)];
        let comma = seq![','];
        let head = grouped_decimal(n / 1000);
        lemma_filter_all(kept, p);
        lemma_filter_comma(p);
        Seq::filter_distributes_over_add(comma, kept, p);
        Seq::filter_distributes_over_add(head, comma + kept, p);
        assert(grouped_decimal(n) =~= head + (comma + kept));
        assert(comma.filter(p) + kept.filter(p) =~= kept);
        lemma_three_digits(n);
    }
}

proof fn lemma_three_digits(n: int)
    requires
        n >= 1000,
    ensures
        decimal(n) == decimal(n / 1000) + seq![
            digit((n / 100) % 10),
            digit((n / 10) % 10),
            digit(n % 10),
        ],
{
    let a = n / 10;
    let b = n / 100;
    assert(a / 10 == b && b / 10 == n / 1000);
    assert(decimal(n) == decimal(a) + seq![digit(n % 10)]);
    assert(decimal(a) == decimal(b) + seq![digit(a % 10)]);
    assert(decimal(b) == decimal(n / 1000) + seq![digit(b % 10)]);
    assert(decimal(n) =~= decimal(n / 1000) + seq![digit(b % 10), digit(a % 10), digit(n % 10)]);
}

proof fn lemma_filter_comma(p: spec_fn(char) -> bool)
    requires
        p == (|c: char| c != ','),
    ensures
        seq![','].filter(p) == Seq::<char>::empty(),
{
    reveal(Seq::filter);
    let s = seq![','];
    assert(s.drop_last() =~= Seq::<char>::empty());
    assert(s.drop_last().filter(p) =~= Seq::<char>::empty());
}

proof fn lemma_digits_are_not_commas(n: int)
    requires
        n >= 0,
    ensures
        forall|i: int| 0 <= i < decimal(n).len() ==> #[trigger] decimal(n)[i] != ',',
    decreases n,
{
    if n >= 10 {
        let d = digit(n % 10);
        let head = decimal(n / 10);
        lemma_digits_are_not_commas(n / 10);
        assert(decimal(n) == head + seq![d]);
        assert forall|i: int| 0 <= i < decimal(n).len() implies #[trigger] decimal(n)[i] != ',' by {
            if i < head.len() {
                assert((head + seq![d])[i] == head[i]);
            } else {
                assert((head + seq![d])[i] == d);
            }
        }
    }
}

proof fn lemma_filter_all(s: Seq<char>, p: spec_fn(char) -> bool)
    requires
        forall|i: int| 0 <= i < s.len() ==> p(#[trigger] s[i]),
    ensures
        s.filter(p) == s,
    decreases s.len(),
{
    reveal(Seq::filter);
    if s.len() > 0 {
        let front = s.drop_last();
        assert forall|i: int| 0 <= i < front.len() implies p(#[trigger] front[i]) by {
            assert(p(s[i]));
        }
        lemma_filter_all(front, p);
        assert(p(s[s.len() - 1]));
        assert(front.push(s.last()) =~= s);
    }
}

/// A finer error bar never shows fewer decimals.
pub proof fn finer_error_bars_show_more_decimals(fine: u64, coarse: u64, p: int)
    requires
        le64(fine, coarse),
        0 <= p <= 9,
    ensures
        p <= decimals_from(coarse, p) <= decimals_from(fine, p) <= 9,
    decreases 9 - p,
{
    if p < 9 && !le64(decimal_threshold(p), coarse) {
        finer_error_bars_show_more_decimals(fine, coarse, p + 1);
    } else if p < 9 && !le64(decimal_threshold(p), fine) {
        lemma_decimals_bounded(fine, p + 1);
    }
}

proof fn lemma_decimals_bounded(sem: u64, p: int)
    requires
        0 <= p <= 9,
    ensures
        p <= decimals_from(sem, p) <= 9,
    decreases 9 - p,
{
    if p < 9 && !le64(decimal_threshold(p), sem) {
        lemma_decimals_bounded(sem, p + 1);
    }
}

/// Ten to a power.
pub open spec fn tens(d: int) -> int
    decreases d,
{
    if d <= 0 {
        1
    } else {
        10 * tens(d - 1)
    }
}

/// Where the short form changes.
proof fn lemma_short_steps(v: u64)
    requires
        finite64(v),
    ensures
        reaches(v, 1, 1000) <==> magnitude64(v) >= 0x3f50_624d_d2f1_a9fc,
        reaches(v, 1000000, 1) <==> magnitude64(v) >= 0x412e_8480_0000_0000,
        reaches(v, 100, 1) <==> magnitude64(v) >= 0x4059_0000_0000_0000,
        reaches(v, 10, 1) <==> magnitude64(v) >= 0x4024_0000_0000_0000,
        reaches(v, 1, 1) <==> magnitude64(v) >= ONE64,
        reaches(v, 1, 10) <==> magnitude64(v) >= 0x3fb9_9999_9999_999a,
        reaches(v, 1, 100) <==> magnitude64(v) >= 0x3f84_7ae1_47ae_147b,
{
    lemma2_to64();
    lemma2_to64_rest();
    assert(0x3f50_624d_d2f1_a9fcu64 / STEPS64 == 1013);
    lemma_reaches(0x3f50_624d_d2f1_a9fc, 1, 1000, v);
    assert(0x412e_8480_0000_0000u64 / STEPS64 == 1042);
    lemma_reaches(0x412e_8480_0000_0000, 1000000, 1, v);
    assert(0x4059_0000_0000_0000u64 / STEPS64 == 1029);
    lemma_reaches(0x4059_0000_0000_0000, 100, 1, v);
    assert(0x4024_0000_0000_0000u64 / STEPS64 == 1026);
    lemma_reaches(0x4024_0000_0000_0000, 10, 1, v);
    assert(ONE64 / STEPS64 == 1023);
    lemma_reaches(ONE64, 1, 1, v);
    assert(0x3fb9_9999_9999_999au64 / STEPS64 == 1019);
    lemma_reaches(0x3fb9_9999_9999_999a, 1, 10, v);
    assert(0x3f84_7ae1_47ae_147bu64 / STEPS64 == 1016);
    lemma_reaches(0x3f84_7ae1_47ae_147b, 1, 100, v);
}

/// What the short form of a number is for. Only a zero reads as zero and only what is no
/// number as a dash; the exponent form takes exactly what is below a thousandth or from
/// a million on; and everything between is written with three significant figures: with
/// so many decimals that the last one is worth at most a hundredth of the number, and no
/// more of them than that takes.
pub proof fn the_short_form_shows_three_figures(v: u64)
    ensures
        short_form(v) == Short::Dash <==> !finite64(v),
        short_form(v) == Short::Zero <==> (v == 0 || v == 0x8000_0000_0000_0000),
        short_form(v) == Short::Exponent <==> finite64(v) && size64(v) != 0 && (!reaches(
            v,
            1,
            1000,
        ) || reaches(v, 1000000, 1)),
        short_form(v) matches Short::Fixed(d) ==> {
            &&& size64(v) * tens(d as int) >= 100 * pow2(1074)
            &&& d == 0 || size64(v) * tens(d - 1) < 100 * pow2(1074)
        },
{
    if finite64(v) {
        lemma_short_steps(v);
        let m = magnitude64(v) as int;
        assert(v as int % 0x8000_0000_0000_0000 == m);
        assert(size64(v) != 0 <==> m != 0) by {
            if m > 0 {
                lemma_code_value_monotonic(0, m, STEPS64 as int);
            }
        }
        reveal_with_fuel(tens, 7);
        assert(tens(0) == 1 && tens(1) == 10 && tens(2) == 100 && tens(3) == 1000 && tens(4)
            == 10000 && tens(5) == 100000);
        let x = size64(v);
        if let Short::Fixed(d) = short_form(v) {
            if d == 0 {
                assert(x * tens(d as int) == x);
            } else if d == 1 {
                assert(x * tens(d as int) == x * 10 && x * tens(d - 1) == x);
            } else if d == 2 {
                assert(x * tens(d as int) == x * 100 && x * tens(d - 1) == x * 10);
            } else if d == 3 {
                assert(x * tens(d as int) == x * 1000 && x * tens(d - 1) == x * 100);
            } else if d == 4 {
                assert(x * tens(d as int) == x * 10000 && x * tens(d - 1) == x * 1000);
            } else {
                assert(d == 5);
                assert(x * tens(d as int) == x * 100000 && x * tens(d - 1) == x * 10000);
            }
        }
    }
}

/// Where the number of decimals changes.
proof fn lemma_decimal_steps(v: u64, p: int)
    requires
        finite64(v),
        0 <= p < 9,
    ensures
        magnitude64(v) >= decimal_threshold(p) ==> size64(v) * tens(p) * (STEPS64 + 1) >= 2 * pow2(
            1074,
        ) * STEPS64,
        magnitude64(v) < decimal_threshold(p) ==> size64(v) * tens(p) < 2 * pow2(1074),
{
    lemma2_to64();
    lemma2_to64_rest();
    reveal_with_fuel(tens, 10);
    let x = size64(v);
    lemma_size_positive(v);
    lemma_pow2_pos(1074);
    let n = pow2(1074) as int;
    if p == 0 {
        assert(0x4000_0000_0000_0000u64 / STEPS64 == 1024);
        lemma_reaches(0x4000_0000_0000_0000, 2, 1, v);
        assert(tens(0) == 1);
    }
    if p == 1 {
        assert(0x3fc9_9999_9999_999au64 / STEPS64 == 1020);
        lemma_reaches(0x3fc9_9999_9999_999a, 2, 10, v);
        assert(tens(1) == 10);
    }
    if p == 2 {
        assert(0x3f94_7ae1_47ae_147bu64 / STEPS64 == 1017);
        lemma_reaches(0x3f94_7ae1_47ae_147b, 2, 100, v);
        assert(tens(2) == 100);
    }
    if p == 3 {
        assert(0x3f60_624d_d2f1_a9fcu64 / STEPS64 == 1014);
        lemma_reaches(0x3f60_624d_d2f1_a9fc, 2, 1000, v);
        assert(tens(3) == 1000);
    }
    if p == 4 {
        assert(0x3f2a_36e2_eb1c_432du64 / STEPS64 == 1010);
        lemma_pow2_adds(64, 1);
        lemma_reaches(0x3f2a_36e2_eb1c_432d, 2, 10000, v);
        assert(tens(4) == 10000);
    }
    if p == 5 {
        assert(0x3ef4_f8b5_88e3_68f1u64 / STEPS64 == 1007);
        lemma_pow2_adds(64, 4);
        lemma_reaches(0x3ef4_f8b5_88e3_68f1, 2, 100000, v);
        assert(tens(5) == 100000);
    }
    if p == 6 {
        assert(0x3ec0_c6f7_a0b5_ed8du64 / STEPS64 == 1004);
        lemma_pow2_adds(64, 7);
        assert((0x3ec0_c6f7_a0b5_ed8du64 + 1) as u64 / STEPS64 == 1004);
        lemma_near_miss(0x3ec0_c6f7_a0b5_ed8d, 2, 1000000, v);
        assert(tens(6) == 1000000);
    }
    if p == 7 {
        assert(0x3e8a_d7f2_9abc_af48u64 / STEPS64 == 1000);
        lemma_pow2_adds(64, 11);
        assert((0x3e8a_d7f2_9abc_af48u64 + 1) as u64 / STEPS64 == 1000);
        lemma_near_miss(0x3e8a_d7f2_9abc_af48, 2, 10000000, v);
        assert(tens(7) == 10000000);
    }
    if p == 8 {
        assert(0x3e55_798e_e230_8c3au64 / STEPS64 == 997);
        lemma_pow2_adds(64, 14);
        lemma_reaches(0x3e55_798e_e230_8c3a, 2, 100000000, v);
        assert(tens(8) == 100000000);
    }
    assert(x * tens(p) >= 2 * n ==> x * tens(p) * (STEPS64 + 1) >= 2 * n * STEPS64) by (nonlinear_arith)
        requires
            x >= 0,
            tens(p) > 0,
            n > 0,
    ;
}

/// What the decimals of an error bar are for: one significant figure of it shows, two
/// where the first is a one. The last decimal shown is worth at most half the error bar,
/// to the precision of a double, and one decimal less would be worth more than half of
/// it; nine decimals are the most.
pub proof fn decimals_follow_the_error_bar(sem: u64)
    requires
        finite64(sem),
        lt64(0, sem),
    ensures
        0 <= decimals_from(sem, 0) <= 9,
        decimals_from(sem, 0) < 9 ==> size64(sem) * tens(decimals_from(sem, 0)) * (STEPS64 + 1)
            >= 2 * pow2(1074) * STEPS64,
        decimals_from(sem, 0) > 0 ==> size64(sem) * tens(decimals_from(sem, 0) - 1) < 2 * pow2(1074),
{
    lemma_decimals_at(sem, 0);
    let d = decimals_from(sem, 0);
    if d < 9 {
        lemma_decimal_steps(sem, d);
    }
    if d > 0 {
        lemma_decimal_steps(sem, d - 1);
    }
}

proof fn lemma_decimals_at(sem: u64, p: int)
    requires
        0 <= p <= 9,
    ensures
        p <= decimals_from(sem, p) <= 9,
        decimals_from(sem, p) < 9 ==> le64(decimal_threshold(decimals_from(sem, p)), sem),
        decimals_from(sem, p) > p ==> !le64(decimal_threshold(decimals_from(sem, p) - 1), sem),
    decreases 9 - p,
{
    if p < 9 && !le64(decimal_threshold(p), sem) {
        lemma_decimals_at(sem, p + 1);
    }
}

/// What the forms of a duration are for: each takes exactly the durations from one of its
/// unit up to one of the next.
pub proof fn a_duration_is_in_the_largest_unit_it_fills(v: u64)
    ensures
        duration_form(v) == DurationForm::Dash <==> !finite64(v) || v > 0x8000_0000_0000_0000,
        duration_form(v) != DurationForm::Dash ==> {
            &&& duration_form(v) == DurationForm::Microseconds <==> !reaches(v, 1, 1000)
            &&& duration_form(v) == DurationForm::Milliseconds <==> reaches(v, 1, 1000) && !reaches(
                v,
                1,
                1,
            )
            &&& duration_form(v) == DurationForm::Seconds <==> reaches(v, 1, 1) && !reaches(v, 60, 1)
            &&& duration_form(v) == DurationForm::Minutes <==> reaches(v, 60, 1) && !reaches(
                v,
                3600,
                1,
            )
            &&& duration_form(v) == DurationForm::Hours <==> reaches(v, 3600, 1)
        },
{
    if finite64(v) {
        lemma2_to64();
        lemma2_to64_rest();
        lemma_short_steps(v);
        assert(0x404e_0000_0000_0000u64 / STEPS64 == 1028);
        lemma_reaches(0x404e_0000_0000_0000, 60, 1, v);
        assert(0x40ac_2000_0000_0000u64 / STEPS64 == 1034);
        lemma_reaches(0x40ac_2000_0000_0000, 3600, 1, v);
    }
}

/// The text of a long duration gives its two parts back: whole minutes and seconds below
/// an hour, whole hours and the minutes begun from there on, the rest cut off.
pub proof fn a_long_duration_reads_back(seconds: int)
    requires
        seconds >= 0,
    ensures
        seconds < 3600 ==> exists|big: int, small: int|
            0 <= small < 60 && 60 * big + small == seconds && #[trigger] spaced(
                big,
                "m "@,
                small,
                "s"@,
            ) == long_form(seconds),
        seconds >= 3600 ==> exists|big: int, small: int|
            0 <= small < 60 && 60 * (60 * big + small) <= seconds < 60 * (60 * big + small) + 60
                && #[trigger] spaced(big, "h "@, small, "m"@) == long_form(seconds),
{
    if seconds < 3600 {
        assert(spaced(seconds / 60, "m "@, seconds % 60, "s"@) == long_form(seconds));
    } else {
        assert(spaced(seconds / 3600, "h "@, (seconds % 3600) / 60, "m"@) == long_form(seconds));
    }
}

/// Two numbers with their units, the second with two digits.
pub open spec fn spaced(big: int, unit: Seq<char>, small: int, last: Seq<char>) -> Seq<char> {
    decimal(big) + unit + seq![digit(small / 10), digit(small % 10)] + last
}

/// Only a reading that was measured is written, with an error bar exactly where it has
/// one, and then with the decimals that the error bar justifies and no others.
pub proof fn a_reading_is_written_as_it_was_measured(r: Reading)
    ensures
        shown(r) == Shown::Dash <==> r.samples == 0 || !finite64(r.value),
        shown(r) is WithError <==> r.samples > 0 && finite64(r.value) && finite64(r.sem) && lt64(
            0,
            r.sem,
        ),
        shown(r) matches Shown::Provisional(f) ==> f == short_form(r.value) && f != Short::Dash,
{
}

/// What the units are: a litre is a thousandth of a cubic metre, a foot is 0.3048 m, an
/// inch 25.4 mm and an inch of water 249.0889 Pa. A number that is multiplied by its
/// factor is the same amount in the unit that is written behind it.
pub proof fn the_factors_are_those_of_the_units()
    ensures
        nearly(conversion(Kind::Flow, UnitSystem::Metric).0, 1000, 1),
        conversion(Kind::Flow, UnitSystem::Metric).1 == "L/s"@,
        nearly(conversion(Kind::Flow, UnitSystem::Imperial).0, 60000000000000, 28316846592),
        conversion(Kind::Flow, UnitSystem::Imperial).1 == "CFM"@,
        nearly(conversion(Kind::Pressure, UnitSystem::Metric).0, 1, 1),
        conversion(Kind::Pressure, UnitSystem::Metric).1 == "Pa"@,
        nearly(conversion(Kind::Pressure, UnitSystem::Imperial).0, 10000, 2490889),
        conversion(Kind::Pressure, UnitSystem::Imperial).1 == "inH2O"@,
        nearly(conversion(Kind::Velocity, UnitSystem::Metric).0, 1, 1),
        conversion(Kind::Velocity, UnitSystem::Metric).1 == "m/s"@,
        nearly(conversion(Kind::Velocity, UnitSystem::Imperial).0, 600000, 3048),
        conversion(Kind::Velocity, UnitSystem::Imperial).1 == "ft/min"@,
        nearly(conversion(Kind::Length, UnitSystem::Metric).0, 1, 1),
        conversion(Kind::Length, UnitSystem::Metric).1 == "mm"@,
        nearly(conversion(Kind::Length, UnitSystem::Imperial).0, 10, 254),
        conversion(Kind::Length, UnitSystem::Imperial).1 == "in"@,
{
    lemma2_to64();
    lemma2_to64_rest();
    assert(LPS_PER_M3S / STEPS64 == 1032);
    lemma_reaches_at(LPS_PER_M3S, 999999999999000, 1000000000000);
    lemma_reaches_at(LPS_PER_M3S, 1000000000001000, 1000000000000);
    assert(CFM_PER_M3S / STEPS64 == 1034);
    lemma_reaches_at(CFM_PER_M3S, 59999999999940000000000000, 28316846592000000000000);
    lemma_reaches_at(CFM_PER_M3S, 60000000000060000000000000, 28316846592000000000000);
    assert(ONE64 / STEPS64 == 1023);
    lemma_reaches_at(ONE64, 999999999999, 1000000000000);
    lemma_reaches_at(ONE64, 1000000000001, 1000000000000);
    assert(INH2O_PER_PA / STEPS64 == 1015);
    lemma_reaches_at(INH2O_PER_PA, 9999999999990000, 2490889000000000000);
    lemma_reaches_at(INH2O_PER_PA, 10000000000010000, 2490889000000000000);
    assert(FPM_PER_MS / STEPS64 == 1030);
    lemma_reaches_at(FPM_PER_MS, 599999999999400000, 3048000000000000);
    lemma_reaches_at(FPM_PER_MS, 600000000000600000, 3048000000000000);
    assert(IN_PER_MM / STEPS64 == 1018);
    lemma_reaches_at(IN_PER_MM, 9999999999990, 254000000000000);
    lemma_reaches_at(IN_PER_MM, 10000000000010, 254000000000000);
}

} // verus!
