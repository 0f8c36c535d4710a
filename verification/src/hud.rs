//! The HUD row and the status lines: which numbers stand there, and in what words.
use vstd::prelude::*;
use vstd::string::StringExecFns;
use crate::compare::{Delta, MetricDeltas, Significance};
use crate::float_order::{finite64, is_finite64};
use crate::format::{
    conversion, grouped, grouped_decimal, Kind, Quantity, UnitSystem, CFM_PER_M3S, FPM_PER_MS, INH2O_PER_PA,
    LPS_PER_M3S, ONE64,
};
use crate::state::UiState;
use crate::text::{decimal, decimal_string};
use crate::view::{Health, Reading, StatsWindowView};

verus! {

/// One metric of the row: its name, its value with the unit it is shown in, and how
/// it compares with the baseline.
#[derive(Clone, Copy, Debug)]
pub struct HudChip {
    pub name: &'static str,
    pub reading: Reading,
    pub quantity: Quantity,
    pub delta: Option<Delta>,
}

impl HudChip {
    /// Whether the chip shows this.
    pub open spec fn shows(
        &self,
        name: Seq<char>,
        reading: Reading,
        factor: u64,
        unit: Seq<char>,
        delta: Option<Delta>,
    ) -> bool {
        self.name@ == name && self.reading == reading && self.quantity.is(factor, unit)
            && self.delta == delta
    }
}

/// What the flow is shown in.
pub open spec fn flow_unit(units: UnitSystem) -> (u64, Seq<char>) {
    match units {
        UnitSystem::Metric => (LPS_PER_M3S, "L/s"@),
        UnitSystem::Imperial => (CFM_PER_M3S, "CFM"@),
    }
}

/// What a pressure is shown in.
pub open spec fn pressure_unit(units: UnitSystem) -> (u64, Seq<char>) {
    match units {
        UnitSystem::Metric => (ONE64, "Pa"@),
        UnitSystem::Imperial => (INH2O_PER_PA, "inH2O"@),
    }
}

/// What a velocity is shown in.
pub open spec fn velocity_unit(units: UnitSystem) -> (u64, Seq<char>) {
    match units {
        UnitSystem::Metric => (ONE64, "m/s"@),
        UnitSystem::Imperial => (FPM_PER_MS, "ft/min"@),
    }
}

/// Whether the row shows these metrics: their values, the units they are shown in and how
/// they compare with the baseline.
pub open spec fn shows_the_metrics(s: UiState, chips: [HudChip; 6]) -> bool {
    let m = s.metrics;
    let d = s.deltas;
    let flow = flow_unit(s.units);
    let pressure = pressure_unit(s.units);
    let velocity = velocity_unit(s.units);
    &&& chips@[0].shows(
        "Q"@,
        m.flow_rate,
        flow.0,
        flow.1,
        match d {
            Some(x) => Some(x.flow_rate),
            None => None,
        },
    )
    &&& chips@[1].shows(
        "dp"@,
        m.pressure_drop,
        pressure.0,
        pressure.1,
        match d {
            Some(x) => Some(x.pressure_drop),
            None => None,
        },
    )
    &&& chips@[2].shows(
        "K"@,
        m.loss_coefficient,
        ONE64,
        ""@,
        match d {
            Some(x) => Some(x.loss_coefficient),
            None => None,
        },
    )
    &&& chips@[3].shows(
        "gamma"@,
        m.uniformity,
        ONE64,
        ""@,
        match d {
            Some(x) => Some(x.uniformity),
            None => None,
        },
    )
    &&& chips@[4].shows(
        "theta"@,
        m.deflection_deg,
        ONE64,
        "deg"@,
        match d {
            Some(x) => Some(x.deflection_deg),
            None => None,
        },
    )
    &&& chips@[5].shows(
        "U_max"@,
        m.max_speed,
        velocity.0,
        velocity.1,
        match d {
            Some(x) => Some(x.max_speed),
            None => None,
        },
    )
}

impl UiState {
    /// The metrics of the row, in order: flow, pressure drop, loss coefficient,
    /// uniformity, deflection and peak speed.
    pub fn hud_chips(&self) -> (chips: [HudChip; 6])
        ensures
            shows_the_metrics(*self, chips),
    {
        let d: Option<MetricDeltas> = self.deltas;
        [
            HudChip {
                name: "Q",
                reading: self.metrics.flow_rate,
                quantity: Quantity::flow(self.units),
                delta: match d {
                    Some(x) => Some(x.flow_rate),
                    None => None,
                },
            },
            HudChip {
                name: "dp",
                reading: self.metrics.pressure_drop,
                quantity: Quantity::pressure(self.units),
                delta: match d {
                    Some(x) => Some(x.pressure_drop),
                    None => None,
                },
            },
            HudChip {
                name: "K",
                reading: self.metrics.loss_coefficient,
                quantity: Quantity::plain(),
                delta: match d {
                    Some(x) => Some(x.loss_coefficient),
                    None => None,
                },
            },
            HudChip {
                name: "gamma",
                reading: self.metrics.uniformity,
                quantity: Quantity::plain(),
                delta: match d {
                    Some(x) => Some(x.uniformity),
                    None => None,
                },
            },
            HudChip {
                name: "theta",
                reading: self.metrics.deflection_deg,
                quantity: Quantity::degrees(),
                delta: match d {
                    Some(x) => Some(x.deflection_deg),
                    None => None,
                },
            },
            HudChip {
                name: "U_max",
                reading: self.metrics.max_speed,
                quantity: Quantity::velocity(self.units),
                delta: match d {
                    Some(x) => Some(x.max_speed),
                    None => None,
                },
            },
        ]
    }
}

/// Whether a change is shown as a percentage, rather than as it is: where there is
/// something to take a percentage of.
pub fn shows_percentage(d: &Delta) -> (r: bool)
    ensures
        r == finite64(d.relative),
{
    is_finite64(d.relative)
}

/// What a verdict is called.
pub open spec fn health_name(h: Health) -> Seq<char> {
    match h {
        Health::Good => "good"@,
        Health::Watch => "watch"@,
        Health::Bad => "bad"@,
        Health::Unknown => "unknown"@,
    }
}

/// The tooltip of a chip, from its value and error bar as text, its relative error as
/// text where it has one, and the change and its sigmas as text where there is a
/// baseline.
#[verifier::rlimit(40)]
pub fn chip_tip(
    chip: &HudChip,
    value: &str,
    relative_error: Option<&str>,
    change: Option<(&str, &str)>,
) -> (s: String)
    ensures
        s@ == chip.name@ + ": "@ + value@ + "\nstate: "@ + health_name(chip.reading.state)
            + "\nsamples: "@ + decimal(chip.reading.samples as int) + (match relative_error {
            Some(r) => "\nrelative error: "@ + r@,
            None => ""@,
        }) + (match (chip.delta, change) {
            (Some(d), Some(c)) => "\nvs baseline: "@ + c.0@ + " ("@ + c.1@ + " sigma, "@ + (
            if d.significance == Significance::Real {
                "significant"@
            } else {
                "inside the noise"@
            }) + ")"@,
            _ => ""@,
        }),
{
    let mut s: String = String::from_str(chip.name);
    s.append(": ");
    s.append(value);
    s.append("\nstate: ");
    s.append(chip.reading.state.label());
    s.append("\nsamples: ");
    s.append(decimal_string(chip.reading.samples as u64).as_str());
    let ghost head = s@;
    match relative_error {
        Some(r) => {
            s.append("\nrelative error: ");
            s.append(r);
            assert(s@ =~= head + ("\nrelative error: "@ + r@));
        },
        None => {
            s.append("");
        },
    }
    let ghost head = s@;
    match (chip.delta, change) {
        (Some(d), Some(c)) => {
            let verdict: &'static str = if d.is_real() {
                "significant"
            } else {
                "inside the noise"
            };
            s.append("\nvs baseline: ");
            s.append(c.0);
            s.append(" (");
            s.append(c.1);
            s.append(" sigma, ");
            s.append(verdict);
            s.append(")");
            assert(s@ =~= head + ("\nvs baseline: "@ + c.0@ + " ("@ + c.1@ + " sigma, "@
                + verdict@ + ")"@));
        },
        _ => {
            s.append("");
        },
    }
    s
}

/// The tooltip of the averaging window.
#[verifier::rlimit(40)]
pub fn window_tip(stats: &StatsWindowView) -> (s: String)
    ensures
        s@ == grouped_decimal(stats.steps_in_window as int)
            + " steps in this averaging window.\nA duct statistic averaged over less than a couple of flow-throughs has not seen the flow it describes."@
            + (match stats.last_reset {
            Some(cause) => "\n\nlast reset: "@ + cause.text() + " ("@ + grouped_decimal(
                stats.steps_since_reset as int,
            ) + " steps ago)"@,
            None => ""@,
        }),
{
    let mut s: String = grouped(stats.steps_in_window);
    s.append(
        " steps in this averaging window.\nA duct statistic averaged over less than a couple of flow-throughs has not seen the flow it describes.",
    );
    let ghost head = s@;
    match stats.last_reset {
        Some(cause) => {
            s.append("\n\nlast reset: ");
            s.append(cause.message());
            s.append(" (");
            s.append(grouped(stats.steps_since_reset).as_str());
            s.append(" steps ago)");
            assert(s@ =~= head + ("\n\nlast reset: "@ + cause.text() + " ("@ + grouped_decimal(
                stats.steps_since_reset as int,
            ) + " steps ago)"@));
        },
        None => {
            s.append("");
        },
    }
    s
}

/// What the x axis of the convergence plots is called.
pub fn x_label(x_is_steps: bool) -> (s: &'static str)
    ensures
        s@ == if x_is_steps {
            "step"@
        } else {
            "time (s)"@
        },
{
    if x_is_steps {
        "step"
    } else {
        "time (s)"
    }
}

/// The badge in the status bar: how many warnings there are, where there are any.
pub fn warning_badge(warnings: &Vec<String>) -> (s: Option<String>)
    ensures
        match s {
            Some(s) => warnings@.len() > 0 && s@ == "["@ + decimal(warnings@.len() as int)
                + " warning(s)]"@,
            None => warnings@.len() == 0,
        },
{
    if warnings.len() == 0 {
        return None;
    }
    let mut s: String = String::from_str("[");
    s.append(decimal_string(warnings.len() as u64).as_str());
    s.append(" warning(s)]");
    Some(s)
}

/// The units of the row are those of its quantities: a flow, a pressure and a velocity.
pub proof fn the_row_uses_the_units_of_its_quantities(units: UnitSystem)
    ensures
        flow_unit(units) == conversion(Kind::Flow, units),
        pressure_unit(units) == conversion(Kind::Pressure, units),
        velocity_unit(units) == conversion(Kind::Velocity, units),
{
}

/// Each chip reads the metric it is named after, and compares that one with the baseline:
/// what one chip shows does not depend on the other metrics.
pub proof fn each_chip_shows_its_own_metric(s: UiState, chips: [HudChip; 6])
    requires
        shows_the_metrics(s, chips),
    ensures
        chips@[0].name@ == "Q"@ && chips@[0].reading == s.metrics.flow_rate,
        chips@[1].name@ == "dp"@ && chips@[1].reading == s.metrics.pressure_drop,
        chips@[2].name@ == "K"@ && chips@[2].reading == s.metrics.loss_coefficient,
        chips@[3].name@ == "gamma"@ && chips@[3].reading == s.metrics.uniformity,
        chips@[4].name@ == "theta"@ && chips@[4].reading == s.metrics.deflection_deg,
        chips@[5].name@ == "U_max"@ && chips@[5].reading == s.metrics.max_speed,
        forall|i: int| 0 <= i < 6 ==> ((#[trigger] chips@[i]).delta is Some <==> s.deltas is Some),
        s.deltas matches Some(d) ==> {
            &&& chips@[0].delta == Some(d.flow_rate)
            &&& chips@[1].delta == Some(d.pressure_drop)
            &&& chips@[2].delta == Some(d.loss_coefficient)
            &&& chips@[3].delta == Some(d.uniformity)
            &&& chips@[4].delta == Some(d.deflection_deg)
            &&& chips@[5].delta == Some(d.max_speed)
        },
        chips@[2].quantity.factor == ONE64 && chips@[3].quantity.factor == ONE64
            && chips@[4].quantity.factor == ONE64,
{
}

/// No two verdicts have the same name.
pub proof fn verdicts_have_names_of_their_own(a: Health, b: Health)
    requires
        health_name(a) == health_name(b),
    ensures
        a == b,
{
    reveal_strlit("good");
    reveal_strlit("watch");
    reveal_strlit("bad");
    reveal_strlit("unknown");
    assert("good"@.len() == 4 && "watch"@.len() == 5 && "bad"@.len() == 3 && "unknown"@.len() == 7);
}

} // verus!
