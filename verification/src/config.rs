//! Everything that parameterises a run, shared by the GPU solver and the CPU
//! reference so the two cannot be configured differently by accident.
//!
//! Floating-point parameters are carried as bit patterns: `u32` for an `f32`,
//! `u64` for an `f64`.
use vstd::prelude::*;
use crate::collision::CollisionModel;
use crate::float_order::{le32, less32, lt32};
use crate::grid::UVec3;
use crate::lattice::VelocitySet;
use crate::precision::DdfPrecision;

verus! {

/// Three `f32` bit patterns.
#[derive(Clone, Copy, Debug, PartialEq, Eq, Structural)]
pub struct Vec3 {
    pub x: u32,
    pub y: u32,
    pub z: u32,
}

impl Vec3 {
    pub fn new(x: u32, y: u32, z: u32) -> (v: Vec3)
        ensures
            v == (Vec3 { x, y, z }),
    {
        Vec3 { x, y, z }
    }

    /// Component by axis: 0, 1 and 2 are x, y and z.
    pub open spec fn axis(self, a: int) -> u32 {
        if a == 0 {
            self.x
        } else if a == 1 {
            self.y
        } else {
            self.z
        }
    }

    /// Component by axis: 0, 1 and 2 are x, y and z.
    pub fn get(self, a: usize) -> (v: u32)
        requires
            a < 3,
        ensures
            v == self.axis(a as int),
    {
        if a == 0 {
            self.x
        } else if a == 1 {
            self.y
        } else {
            self.z
        }
    }
}

/// Bit pattern of 1.
pub const ONE: u32 = 0x3f80_0000;

/// Bit pattern of one half.
pub const HALF: u32 = 0x3f00_0000;

/// Bit pattern of the relaxation time below which a grid counts as coarse: 0.515.
pub const COARSE_TAU: u32 = 0x3f03_d70a;

/// Bit pattern of the Smagorinsky constant a coarse grid needs to survive: 0.17.
pub const STABLE_SMAGORINSKY: u32 = 0x3e2e_147b;

/// Bit pattern of the Smagorinsky constant for accuracy on a fine grid: 0.11.
pub const ACCURATE_SMAGORINSKY: u32 = 0x3de1_47ae;

/// The lattice a run is on.
#[derive(Clone, Copy, Debug, PartialEq, Eq, Structural)]
pub struct Grid {
    pub dims: UVec3,
    /// Cell size in millimetres, as `f32` bits.
    pub dx_mm: u32,
    /// Position of the low corner in millimetres.
    pub origin_mm: Vec3,
}

/// One velocity inlet as the solver sees it: the lattice velocity it imposes,
/// the inward normal of the plane its cells lie on, and where its density
/// comes from.
#[derive(Clone, Copy, Debug, PartialEq, Eq, Structural)]
pub struct InletSpec {
    pub velocity: Vec3,
    pub normal: Vec3,
    /// Take the density from the populations that arrived rather than from
    /// the plane closure. Every neighbour of a plane standing free in the
    /// fluid is real, so the raw moment *is* the local density, and resetting
    /// the cell to equilibrium conserves mass: a fan disc that pushes on the
    /// air rather than a source of it. A vent has a duct behind it, so the vents
    /// use the closure and this stays available for a true fan.
    pub local_density: bool,
}

/// An inlet at rest, facing along x.
pub open spec fn default_inlet() -> InletSpec {
    InletSpec {
        velocity: Vec3 { x: 0, y: 0, z: 0 },
        normal: Vec3 { x: ONE, y: 0, z: 0 },
        local_density: false,
    }
}

impl Default for InletSpec {
    fn default() -> (s: Self)
        ensures
            s == default_inlet(),
    {
        InletSpec {
            velocity: Vec3::new(0, 0, 0),
            normal: Vec3::new(ONE, 0, 0),
            local_density: false,
        }
    }
}

/// Solver parameters.
///
/// Split into two groups by mutability: the fields above `inlet_velocity` are
/// baked into the compiled shader, so changing one means constructing a new
/// solver (and [`Self::needs_rebuild`] says when that is necessary); the fields
/// below are uniform data and apply without touching a pipeline. The inlet
/// velocity in particular must be hot-updatable, because that is the slider the
/// user spends the whole session dragging.
#[derive(Clone, Copy, Debug)]
pub struct SolverConfig {
    // ---- compile-time (shader defines) ----
    pub set: VelocitySet,
    pub precision: DdfPrecision,
    pub collision: CollisionModel,
    /// Per-axis periodicity. Production runs are open on every side; the
    /// validation cases need it. A non-periodic axis costs one cell of solid
    /// halo at each end.
    pub periodic: [bool; 3],
    /// Threads per workgroup along X. X is the fastest-varying axis, so this is
    /// the direction that coalesces; 64 and 128 are the values worth trying.
    pub workgroup_size: u32,
    /// Also write the macroscopic fields to a plain storage buffer, for CPU
    /// readback in validation.
    pub macroscopic_buffer: bool,
    // ---- hot-updatable (uniform data) ----
    /// Inlet velocity, lattice units.
    pub inlet_velocity: Vec3,
    /// Inward normal of the inlet plane.
    ///
    /// The inlet density is closed from the populations that are actually
    /// known, which means knowing which links are the unknown ones.
    pub inlet_normal: Vec3,
    /// Inlet slots 1-3, for cells whose flag byte carries a slot index. Slot 0
    /// is `inlet_velocity` / `inlet_normal` above, with the plane closure.
    pub extra_inlets: [InletSpec; 3],
    /// Velocity the field is initialised to, lattice units.
    pub initial_velocity: Vec3,
    /// Uniform body force per unit volume, lattice units. Drives the periodic
    /// channel cases; zero in production.
    pub body_force: Vec3,
    /// Base relaxation time.
    pub tau0: u32,
    /// TRT magic parameter. 3/16 places the bounce-back wall exactly halfway.
    pub trt_lambda: u32,
    /// Smagorinsky constant; 0 disables the LES model.
    pub smagorinsky_c: u32,
    /// Upper clamp on the LES-raised relaxation time.
    pub tau_max: u32,
    /// Convective outflow speed, lattice units.
    pub outflow_velocity: u32,
    /// Outward normal of the outlet plane.
    ///
    /// Anti-bounce-back is applied only to links arriving from *outside* along
    /// this normal. Without it, an outlet cell that also sits on a solid wall
    /// would have its wall links turned into pressure boundaries too. A zero
    /// normal means every blocked link, which is correct only when the outlet
    /// plane touches nothing else.
    pub outlet_normal: Vec3,
    /// Pin the outlet pressure with anti-bounce-back. **Off by default**: it
    /// negates a population, so it is not a contraction, and under real
    /// through-flow it diverges. The convective relaxation reaches the same
    /// density without that.
    pub outlet_anti_bounce_back: bool,
    pub sponge_cells: u32,
    pub sponge_strength: u32,
    /// Reference density the outlet pressure is pinned to.
    pub rho_ref: u32,
    /// Seconds of physical time per lattice step, as `f64` bits. Reporting only.
    pub dt_s: u64,
}

/// The configuration to start from: at rest, open on every side, stable.
pub open spec fn default_config() -> SolverConfig {
    SolverConfig {
        set: VelocitySet::D3Q19,
        precision: DdfPrecision::Fp32,
        collision: CollisionModel::Trt,
        periodic: [false, false, false],
        workgroup_size: 64,
        macroscopic_buffer: false,
        inlet_velocity: Vec3 { x: 0, y: 0, z: 0 },
        inlet_normal: Vec3 { x: ONE, y: 0, z: 0 },
        extra_inlets: [default_inlet(), default_inlet(), default_inlet()],
        initial_velocity: Vec3 { x: 0, y: 0, z: 0 },
        body_force: Vec3 { x: 0, y: 0, z: 0 },
        tau0: 0x3f19_999a,
        trt_lambda: 0x3e40_0000,
        smagorinsky_c: STABLE_SMAGORINSKY,
        tau_max: ONE,
        outflow_velocity: 0,
        outlet_normal: Vec3 { x: ONE, y: 0, z: 0 },
        outlet_anti_bounce_back: false,
        sponge_cells: 0,
        sponge_strength: 0,
        rho_ref: ONE,
        dt_s: 0x3ff0_0000_0000_0000,
    }
}

impl Default for SolverConfig {
    fn default() -> (c: Self)
        ensures
            c == default_config(),
    {
        let zero: Vec3 = Vec3::new(0, 0, 0);
        let x: Vec3 = Vec3::new(ONE, 0, 0);
        SolverConfig {
            set: VelocitySet::D3Q19,
            precision: DdfPrecision::Fp32,
            collision: CollisionModel::Trt,
            periodic: [false, false, false],
            workgroup_size: 64,
            macroscopic_buffer: false,
            inlet_velocity: zero,
            inlet_normal: x,
            extra_inlets: [InletSpec::default(), InletSpec::default(), InletSpec::default()],
            initial_velocity: zero,
            body_force: zero,
            tau0: 0x3f19_999a,
            trt_lambda: 0x3e40_0000,
            // 0.17, not the accuracy-motivated 0.11, because a default has no
            // tau to consult and must therefore be the safe one. Callers who
            // want the accurate value should build through `from_units`, which
            // picks by resolution.
            smagorinsky_c: STABLE_SMAGORINSKY,
            tau_max: ONE,
            outflow_velocity: 0,
            outlet_normal: x,
            outlet_anti_bounce_back: false,
            sponge_cells: 0,
            sponge_strength: 0,
            rho_ref: ONE,
            dt_s: 0x3ff0_0000_0000_0000,
        }
    }
}

impl SolverConfig {
    /// Whether the relaxation time starts below its limit, where the eddy viscosity is on.
    pub open spec fn capped(&self) -> bool {
        !le32(self.smagorinsky_c, 0) ==> le32(self.tau0, self.tau_max)
    }

    /// The inlet a cell in `slot` is driven by.
    pub open spec fn inlet(&self, slot: int) -> InletSpec {
        if slot == 0 {
            InletSpec {
                velocity: self.inlet_velocity,
                normal: self.inlet_normal,
                local_density: false,
            }
        } else if slot <= 3 {
            self.extra_inlets[slot - 1]
        } else {
            self.extra_inlets[2]
        }
    }

    /// Whether the two configurations compile to the same shader.
    pub open spec fn same_shader(&self, other: &Self) -> bool {
        &&& self.set == other.set
        &&& self.precision == other.precision
        &&& self.collision == other.collision
        &&& self.periodic@ == other.periodic@
        &&& self.workgroup_size == other.workgroup_size
        &&& self.macroscopic_buffer == other.macroscopic_buffer
    }

    /// Config for a production duct run at the given physical operating point:
    /// the base relaxation time and the seconds per step, as bit patterns.
    ///
    /// Picks the Smagorinsky constant from `tau0`, because the right value
    /// depends on the grid and getting it wrong is the difference between a run
    /// that converges and one that goes NaN. Everything else is the default.
    pub fn from_units(tau0: u32, dt_s: u64) -> (c: Self)
        ensures
            c == (SolverConfig {
                tau0,
                dt_s,
                smagorinsky_c: smagorinsky(tau0),
                ..default_config()
            }),
    {
        let d: SolverConfig = SolverConfig::default();
        SolverConfig { tau0, dt_s, smagorinsky_c: Self::smagorinsky_for_tau(tau0), ..d }
    }

    /// Smagorinsky constant appropriate to a given base relaxation time.
    ///
    /// There are two defensible values and they disagree, so this picks between
    /// them by resolution: 0.11 is the standard internal-flow value, chosen for
    /// *accuracy*; 0.17 is what the coarse tier actually needs to *survive*. A
    /// small relaxation time means a coarse grid. The threshold sits at 0.515,
    /// between the measured 0.51 (needs 0.17) and 0.52 (fine at 0.11).
    pub fn smagorinsky_for_tau(tau0: u32) -> (c: u32)
        ensures
            c == smagorinsky(tau0),
    {
        if less32(tau0, COARSE_TAU) {
            STABLE_SMAGORINSKY
        } else {
            ACCURATE_SMAGORINSKY
        }
    }

    /// The inlet a cell in `slot` (0-3) is driven by. Slot 0 is the duct-mouth
    /// inlet with the plane closure; the rest are [`Self::extra_inlets`].
    pub fn inlet_slot(&self, slot: u8) -> (s: InletSpec)
        ensures
            s == self.inlet(slot as int),
    {
        if slot == 0 {
            InletSpec {
                velocity: self.inlet_velocity,
                normal: self.inlet_normal,
                local_density: false,
            }
        } else if slot <= 3 {
            self.extra_inlets[(slot - 1) as usize]
        } else {
            self.extra_inlets[2]
        }
    }

    /// True when a shader rebuild is needed to go from `self` to `other`.
    pub fn needs_rebuild(&self, other: &Self) -> (r: bool)
        ensures
            r == !self.same_shader(other),
    {
        let same_axes: bool = self.periodic[0] == other.periodic[0] && self.periodic[1]
            == other.periodic[1] && self.periodic[2] == other.periodic[2];
        proof {
            if same_axes {
                assert(self.periodic@ =~= other.periodic@);
            } else {
                assert(self.periodic@[0] != other.periodic@[0] || self.periodic@[1]
                    != other.periodic@[1] || self.periodic@[2] != other.periodic@[2]);
            }
        }
        self.set != other.set || self.precision != other.precision || self.collision
            != other.collision || !same_axes || self.workgroup_size != other.workgroup_size
            || self.macroscopic_buffer != other.macroscopic_buffer
    }

    /// The parameters every pass shares.
    pub open spec fn shared_uniforms(
        &self,
        grid: &Grid,
        step_parity: u32,
        total_steps: u32,
    ) -> SimUniforms {
        SimUniforms {
            dims: grid.dims,
            step_parity,
            origin_mm: grid.origin_mm,
            dx_mm: grid.dx_mm,
            inlet_velocity: self.inlet_velocity,
            tau0: self.tau0,
            smagorinsky_c: self.smagorinsky_c,
            trt_lambda: self.trt_lambda,
            tau_max: self.tau_max,
            outflow_velocity: self.outflow_velocity,
            sponge_cells: self.sponge_cells,
            sponge_strength: self.sponge_strength,
            total_steps,
        }
    }

    /// The parameters every pass shares.
    pub fn sim_uniforms(&self, grid: &Grid, step_parity: u32, total_steps: u32) -> (u: SimUniforms)
        ensures
            u == self.shared_uniforms(grid, step_parity, total_steps),
    {
        SimUniforms {
            dims: grid.dims,
            step_parity,
            origin_mm: grid.origin_mm,
            dx_mm: grid.dx_mm,
            inlet_velocity: self.inlet_velocity,
            tau0: self.tau0,
            smagorinsky_c: self.smagorinsky_c,
            trt_lambda: self.trt_lambda,
            tau_max: self.tau_max,
            outflow_velocity: self.outflow_velocity,
            sponge_cells: self.sponge_cells,
            sponge_strength: self.sponge_strength,
            total_steps,
        }
    }
}

/// Smagorinsky constant appropriate to a given base relaxation time.
pub open spec fn smagorinsky(tau0: u32) -> u32 {
    if lt32(tau0, COARSE_TAU) {
        STABLE_SMAGORINSKY
    } else {
        ACCURATE_SMAGORINSKY
    }
}

/// The parameters every pass shares.
#[derive(Clone, Copy, Debug, PartialEq, Eq, Structural)]
pub struct SimUniforms {
    pub dims: UVec3,
    pub step_parity: u32,
    pub origin_mm: Vec3,
    pub dx_mm: u32,
    pub inlet_velocity: Vec3,
    pub tau0: u32,
    pub smagorinsky_c: u32,
    pub trt_lambda: u32,
    pub tau_max: u32,
    pub outflow_velocity: u32,
    pub sponge_cells: u32,
    pub sponge_strength: u32,
    pub total_steps: u32,
}

/// Changing only the uniform data never needs a rebuild, whatever it is changed
/// to: in particular no inlet velocity does.
pub proof fn uniform_data_never_needs_a_rebuild(a: SolverConfig, b: SolverConfig)
    requires
        a.set == b.set,
        a.precision == b.precision,
        a.collision == b.collision,
        a.periodic == b.periodic,
        a.workgroup_size == b.workgroup_size,
        a.macroscopic_buffer == b.macroscopic_buffer,
    ensures
        a.same_shader(&b),
{
}

/// What is compiled in needs a rebuild to change: the velocity set, the storage, the
/// operator, a periodic axis, the workgroup size and the macroscopic buffer.
pub proof fn a_compiled_choice_needs_a_rebuild(a: SolverConfig, b: SolverConfig)
    requires
        a.set != b.set || a.precision != b.precision || a.collision != b.collision
            || a.periodic[0] != b.periodic[0] || a.periodic[1] != b.periodic[1] || a.periodic[2]
            != b.periodic[2] || a.workgroup_size != b.workgroup_size || a.macroscopic_buffer
            != b.macroscopic_buffer,
    ensures
        !a.same_shader(&b),
        !b.same_shader(&a),
{
    assert(a.periodic@[0] == a.periodic[0] && b.periodic@[0] == b.periodic[0]);
    assert(a.periodic@[1] == a.periodic[1] && b.periodic@[1] == b.periodic[1]);
    assert(a.periodic@[2] == a.periodic[2] && b.periodic@[2] == b.periodic[2]);
}

/// The first inlet is the duct's own, with the plane closure; the three after it are the
/// extra ones, in order.
pub proof fn the_inlets_are_numbered_in_order(c: SolverConfig)
    ensures
        c.inlet(0).velocity == c.inlet_velocity,
        c.inlet(0).normal == c.inlet_normal,
        !c.inlet(0).local_density,
        c.inlet(1) == c.extra_inlets[0],
        c.inlet(2) == c.extra_inlets[1],
        c.inlet(3) == c.extra_inlets[2],
{
}

/// A coarse grid gets the constant it needs to survive and a fine one the accurate
/// constant: 0.17 up to a relaxation time of 0.51, 0.11 from 0.52 on, and never anything
/// else.
pub proof fn coarse_grids_get_the_stable_constant(tau0: u32)
    ensures
        le32(tau0, 0x3f02_8f5c) ==> smagorinsky(tau0) == 0x3e2e_147b,
        le32(0x3f05_1eb8, tau0) ==> smagorinsky(tau0) == 0x3de1_47ae,
        smagorinsky(tau0) == 0x3e2e_147b || smagorinsky(tau0) == 0x3de1_47ae,
{
}

/// Every parameter reaches the passes under its own name.
pub proof fn the_shared_parameters_are_the_configured_ones(
    c: SolverConfig,
    grid: Grid,
    parity: u32,
    steps: u32,
)
    ensures
        ({
            let u = c.shared_uniforms(&grid, parity, steps);
            &&& u.tau0 == c.tau0 && u.tau_max == c.tau_max && u.trt_lambda == c.trt_lambda
            &&& u.smagorinsky_c == c.smagorinsky_c && u.inlet_velocity == c.inlet_velocity
            &&& u.outflow_velocity == c.outflow_velocity
            &&& u.sponge_cells == c.sponge_cells && u.sponge_strength == c.sponge_strength
            &&& u.dims == grid.dims && u.origin_mm == grid.origin_mm && u.dx_mm == grid.dx_mm
            &&& u.step_parity == parity && u.total_steps == steps
        }),
{
}

/// The components of a vector go by the axes in order.
pub proof fn components_go_by_the_axes(v: Vec3)
    ensures
        v.axis(0) == v.x,
        v.axis(1) == v.y,
        v.axis(2) == v.z,
{
}

} // verus!
