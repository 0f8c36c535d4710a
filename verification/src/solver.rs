//! The solver as its host sees it: the domain it runs on, what it uploads, and
//! the plan of a run of steps.
//!
//! # Shape of a step
//!
//! One dispatch. Esoteric Pull streams in place, so there is no second buffer to
//! swap and no separate streaming pass. The only per-step state is the parity
//! bit: two uniform buffers are written once, and stepping alternates between
//! two prebuilt bind groups. A run of `n` steps is `n` dispatches recorded into
//! as few command buffers as the driver tolerates.
//!
//! # Why the grid is padded
//!
//! See [`crate::boundary`]. Every non-periodic axis gains one cell of solid halo
//! at each end. The macroscopic textures are sized to the caller's *interior*
//! grid, so nothing downstream ever sees the halo.
use vstd::prelude::*;
use crate::boundary::{can_pad, padded_dim, PaddedDomain};
use crate::config::{Grid, InletSpec, SolverConfig, Vec3, ONE};
use crate::flags;
use crate::float_order::lt32;
use crate::grid::{cell_at, in_grid, UVec3};
use crate::lattice::VelocitySet;
use crate::links::{in_order, remapped, with_key, BoundaryLink, LinkTable};
use crate::precision::DdfPrecision;

verus! {

/// Name of the profiler scope the step kernel reports under.
pub const STEP_SCOPE: &'static str = "stream_collide";

/// Name of the profiler scope the macroscopic pass reports under.
pub const MACRO_SCOPE: &'static str = "macroscopic";

/// Four `f32` bit patterns.
#[derive(Clone, Copy, Debug, PartialEq, Eq, Structural)]
pub struct Vec4 {
    pub x: u32,
    pub y: u32,
    pub z: u32,
    pub w: u32,
}

/// The solver parameters the shader reads.
#[derive(Clone, Copy, Debug)]
pub struct LbmUniforms {
    pub dims: UVec3,
    pub step_parity: u32,
    pub interior: UVec3,
    pub cell_count: u32,
    pub offset: UVec3,
    pub flag_words: u32,
    pub inlet_velocity: Vec3,
    pub tau0: u32,
    pub initial_velocity: Vec3,
    pub trt_lambda: u32,
    pub body_force: Vec3,
    pub smagorinsky_c: u32,
    pub tau_max: u32,
    pub outflow_velocity: u32,
    pub rho_ref: u32,
    pub sponge_strength: u32,
    pub sponge_cells: u32,
    /// Bit `a` is set where axis `a` is periodic.
    pub periodic: u32,
    pub total_steps: u32,
    pub outlet_normal: Vec3,
    pub inlet_normal: Vec3,
    pub outlet_anti_bounce_back: u32,
    /// The four inlet slots: xyz = lattice velocity, w > 0 = free-standing
    /// (density from the local moment). Slot 0 repeats `inlet_velocity`, so the
    /// shader reads one table.
    pub inlet_vel: [Vec4; 4],
    /// xyz = inward normal of each slot's plane.
    pub inlet_nrm: [Vec4; 4],
}

/// `v` with a fourth component.
pub open spec fn extended(v: Vec3, w: u32) -> Vec4 {
    Vec4 { x: v.x, y: v.y, z: v.z, w }
}

fn extend(v: Vec3, w: u32) -> (r: Vec4)
    ensures
        r == extended(v, w),
{
    Vec4 { x: v.x, y: v.y, z: v.z, w }
}

/// One or zero.
pub open spec fn bit(b: bool) -> u32 {
    if b {
        1
    } else {
        0
    }
}

fn as_bit(b: bool) -> (r: u32)
    ensures
        r == bit(b),
{
    if b {
        1
    } else {
        0
    }
}

/// How many whole groups of `n` it takes to cover `x`.
pub open spec fn ceil_div(x: int, n: int) -> int {
    (x + n - 1) / n
}

pub fn div_ceil(x: u32, n: u32) -> (r: u32)
    requires
        n > 0,
    ensures
        r == ceil_div(x as int, n as int),
{
    let q: u32 = x / n;
    let m: u32 = x % n;
    proof {
        let (xi, ni, qi, mi) = (x as int, n as int, q as int, m as int);
        vstd::arithmetic::div_mod::lemma_fundamental_div_mod(xi, ni);
        assert(qi * ni == ni * qi) by (nonlinear_arith);
        if m == 0 {
            vstd::arithmetic::div_mod::lemma_fundamental_div_mod_converse(
                xi + ni - 1,
                ni,
                qi,
                ni - 1,
            );
        } else {
            assert((qi + 1) * ni == ni * qi + ni) by (nonlinear_arith);
            vstd::arithmetic::div_mod::lemma_fundamental_div_mod_converse(
                xi + ni - 1,
                ni,
                qi + 1,
                mi - 1,
            );
            assert(qi < u32::MAX) by (nonlinear_arith)
                requires
                    xi == ni * qi + mi,
                    mi > 0,
                    ni >= 1,
                    qi >= 0,
                    xi <= u32::MAX,
            ;
        }
    }
    if m == 0 {
        q
    } else {
        q + 1
    }
}

/// A change that the compiled shader does not cover: it needs a new solver.
#[derive(Clone, Copy, Debug, PartialEq, Eq, Structural)]
pub struct NeedsRebuild;

/// One submit's worth of work.
#[derive(Clone, Copy, Debug, PartialEq, Eq, Structural)]
pub struct Batch {
    /// Parity of the first step; the steps after it alternate.
    pub first_parity: u32,
    pub steps: u32,
    /// Recompute the macroscopic fields after the last step of the batch.
    pub macroscopic: bool,
}

/// The batches of a run of `n` steps of which `per_submit` fit in one submit.
pub open spec fn batch_at(
    taken: int,
    n: int,
    per_submit: int,
    macroscopic: bool,
    k: int,
) -> Batch {
    let left = n - k * per_submit;
    let last = left <= per_submit;
    Batch {
        first_parity: ((taken + k * per_submit) % 2) as u32,
        steps: (if last {
            left
        } else {
            per_submit
        }) as u32,
        macroscopic: macroscopic && last,
    }
}

/// The solver's host-side state.
pub struct Solver {
    pub grid: Grid,
    pub domain: PaddedDomain,
    pub links: LinkTable,
    pub cfg: SolverConfig,
    pub profiling: bool,
    pub steps: u64,
}

impl Solver {
    /// The domain is the padded image of the grid, with its link mask, and the
    /// links are in order.
    pub open spec fn wf(&self) -> bool {
        &&& self.domain.shaped()
        &&& self.domain.interior == self.grid.dims
        &&& self.domain.periodic@ == self.cfg.periodic@
        &&& self.domain.masked(self.cfg.set)
        &&& in_order(self.links.links@)
    }

    /// Build a solver for `grid`, with one flag byte per interior cell.
    ///
    /// `boundary_links` may be empty.
    pub fn new(grid: Grid, mask: &[u8], boundary_links: &[BoundaryLink], cfg: SolverConfig) -> (s:
        Self)
        requires
            can_pad(grid.dims, cfg.periodic),
            mask@.len() == grid.dims.volume(),
            forall|i: int|
                #![trigger boundary_links@[i]]
                0 <= i < boundary_links@.len() ==> boundary_links@[i].cell < grid.dims.volume(),
        ensures
            s.wf(),
            s.grid == grid,
            s.cfg == cfg,
            s.steps == 0,
            !s.profiling,
            s.domain.interior_is(mask@),
            s.domain.halo_is_solid(),
            s.links.links@.len() == boundary_links@.len(),
            forall|k: int| #[trigger]
                with_key(s.links.links@, k) == with_key(
                    boundary_links@.map_values(
                        |l: BoundaryLink| remapped(l, grid.dims, &s.domain),
                    ),
                    k,
                ),
    {
        let domain: PaddedDomain = PaddedDomain::new(grid.dims, cfg.periodic, mask, cfg.set);
        proof {
            assert forall|i: int|
                #![trigger boundary_links@[i]]
                0 <= i < boundary_links@.len() implies boundary_links@[i].cell
                < grid.dims.volume() && in_grid(
                domain.interior,
                cell_at(grid.dims, boundary_links@[i].cell as int),
            ) by {
                crate::grid::every_index_is_a_cell(grid.dims, boundary_links@[i].cell as int);
            }
        }
        let links: LinkTable = LinkTable::remap(boundary_links, grid.dims, &domain);
        Solver { grid, domain, links, cfg, profiling: false, steps: 0 }
    }

    pub fn config(&self) -> (c: &SolverConfig)
        ensures
            *c == self.cfg,
    {
        &self.cfg
    }

    pub fn steps_taken(&self) -> (n: u64)
        ensures
            n == self.steps,
    {
        self.steps
    }

    /// Apply new parameters without rebuilding anything.
    ///
    /// Refused if the change would need a different shader: the inlet velocity,
    /// the relaxation time, the Smagorinsky constant and the whole outlet
    /// configuration are all uniform data and apply immediately, which is the
    /// point: the inlet slider must not stall on a pipeline compile.
    pub fn update(&mut self, cfg: SolverConfig) -> (r: Result<(), NeedsRebuild>)
        requires
            old(self).wf(),
        ensures
            final(self).wf(),
            r is Ok <==> old(self).cfg.same_shader(&cfg),
            match r {
                Ok(_) => *final(self) == (Solver { cfg, ..*old(self) }),
                Err(_) => *final(self) == *old(self),
            },
    {
        if self.cfg.needs_rebuild(&cfg) {
            return Err(NeedsRebuild);
        }
        self.cfg = cfg;
        Ok(())
    }

    /// Hot-update just the inlet velocity, in lattice units.
    pub fn set_inlet_velocity(&mut self, v: Vec3)
        requires
            old(self).wf(),
        ensures
            final(self).wf(),
            *final(self) == (Solver {
                cfg: SolverConfig { inlet_velocity: v, ..old(self).cfg },
                ..*old(self)
            }),
    {
        self.cfg.inlet_velocity = v;
    }

    /// Zero the step counter; the host reinitialises every fluid cell.
    pub fn reset(&mut self)
        ensures
            *final(self) == (Solver { steps: 0, ..*old(self) }),
    {
        self.steps = 0;
    }

    /// Turn GPU timestamp profiling on or off. Only takes where the device can
    /// time passes at all.
    pub fn set_profiling(&mut self, on: bool, available: bool)
        ensures
            *final(self) == (Solver { profiling: on && available, ..*old(self) }),
    {
        self.profiling = on && available;
    }

    pub fn is_profiling(&self) -> (r: bool)
        ensures
            r == self.profiling,
    {
        self.profiling
    }

    /// Largest number of steps to put in one submit, from the grid size.
    pub fn max_steps_per_submit(&self) -> (n: u32)
        requires
            self.wf(),
        ensures
            n == steps_per_submit(self.domain.padded.volume()),
    {
        max_steps_per_submit_for(self.domain.padded_cell_count())
    }

    /// Whether these are the submits of `n` steps from here.
    pub open spec fn planned(&self, n: u32, macroscopic: bool, batches: Seq<Batch>) -> bool {
        if n == 0 {
            batches == (if macroscopic {
                seq![
                    Batch {
                        first_parity: (self.steps % 2) as u32,
                        steps: 0,
                        macroscopic: true,
                    },
                ]
            } else {
                Seq::empty()
            })
        } else {
            let per = steps_per_submit(self.domain.padded.volume());
            &&& batches.len() == ceil_div(n as int, per)
            &&& forall|k: int|
                0 <= k < batches.len() ==> #[trigger] batches[k] == batch_at(
                    self.steps as int,
                    n as int,
                    per,
                    macroscopic,
                    k,
                )
        }
    }

    /// Advance `n` steps: the submits to make.
    pub fn step(&mut self, n: u32) -> (batches: Vec<Batch>)
        requires
            old(self).wf(),
            old(self).steps + n <= u64::MAX,
        ensures
            *final(self) == (Solver { steps: (old(self).steps + n) as u64, ..*old(self) }),
            old(self).planned(n, false, batches@),
    {
        self.advance(n, false)
    }

    /// Advance `n` steps, then recompute the macroscopic fields in the last submit.
    ///
    /// The frame loop's path. It saves a submit, and it is the only way the macroscopic
    /// pass gets timed.
    pub fn step_and_compute_macroscopic(&mut self, n: u32) -> (batches: Vec<Batch>)
        requires
            old(self).wf(),
            old(self).steps + n <= u64::MAX,
        ensures
            *final(self) == (Solver { steps: (old(self).steps + n) as u64, ..*old(self) }),
            old(self).planned(n, true, batches@),
    {
        self.advance(n, true)
    }

    /// Recompute the macroscopic fields from the current populations.
    pub fn compute_macroscopic(&mut self) -> (batches: Vec<Batch>)
        requires
            old(self).wf(),
        ensures
            *final(self) == *old(self),
            old(self).planned(0, true, batches@),
    {
        self.advance(0, true)
    }

    /// Plan the submits of `n` steps and count the steps as taken.
    ///
    /// Split into several submits when `n` is large. On a large grid a single
    /// submit of hundreds of steps occupies the GPU for seconds, and the driver
    /// kills a job that does not yield within roughly two. So the work per
    /// submit is bounded, in cell-steps, because the cost of a submit is the
    /// grid size times the number of dispatches in it.
    ///
    /// With `macroscopic`, the macroscopic fields are recomputed in the last
    /// submit, or in a submit of their own where there are no steps to take.
    pub fn advance(&mut self, n: u32, macroscopic: bool) -> (batches: Vec<Batch>)
        requires
            old(self).wf(),
            old(self).steps + n <= u64::MAX,
        ensures
            *final(self) == (Solver { steps: (old(self).steps + n) as u64, ..*old(self) }),
            old(self).planned(n, macroscopic, batches@),
    {
        let mut batches: Vec<Batch> = Vec::new();
        if n == 0 {
            if macroscopic {
                batches.push(
                    Batch { first_parity: (self.steps % 2) as u32, steps: 0, macroscopic: true },
                );
            }
            return batches;
        }
        let per_submit: u32 = self.max_steps_per_submit();
        let mut left: u32 = n;
        let ghost mut k: int = 0;
        let ghost start = *self;
        proof {
            assert(0 * (per_submit as int) == 0);
        }
        while left > 0
            invariant
                start == *old(self),
                start.steps + n <= u64::MAX,
                *self == (Solver { steps: (start.steps + (n - left)) as u64, ..start }),
                n > 0,
                left <= n,
                per_submit == steps_per_submit(start.domain.padded.volume()),
                1 <= per_submit <= 4096,
                k >= 0,
                k == batches@.len(),
                left > 0 ==> left == n - k * per_submit,
                left == 0 ==> k > 0 && 0 < n - (k - 1) * per_submit <= per_submit,
                forall|j: int|
                    0 <= j < batches@.len() ==> #[trigger] batches@[j] == batch_at(
                        start.steps as int,
                        n as int,
                        per_submit as int,
                        macroscopic,
                        j,
                    ),
            decreases left,
        {
            let chunk: u32 = if left <= per_submit {
                left
            } else {
                per_submit
            };
            let first_parity: u32 = (self.steps % 2) as u32;
            left = left - chunk;
            self.steps = self.steps + chunk as u64;
            batches.push(
                Batch { first_parity, steps: chunk, macroscopic: macroscopic && left == 0 },
            );
            proof {
                let p = per_submit as int;
                assert((k + 1) * p == k * p + p) by (nonlinear_arith);
                k = k + 1;
            }
        }
        proof {
            let p = per_submit as int;
            let r = n - (k - 1) * p;
            assert((k - 1) * p + p == k * p) by (nonlinear_arith);
            vstd::arithmetic::div_mod::lemma_fundamental_div_mod_converse(
                n + p - 1,
                p,
                k,
                r - 1,
            );
        }
        batches
    }

    /// Workgroups that cover the padded grid.
    pub fn padded_dispatch(&self) -> (d: UVec3)
        ensures
            d == dispatch(self.domain.padded, self.cfg.workgroup_size),
    {
        dispatch_of(self.domain.padded, self.cfg.workgroup_size)
    }

    /// Workgroups that cover the interior grid.
    pub fn interior_dispatch(&self) -> (d: UVec3)
        ensures
            d == dispatch(self.domain.interior, self.cfg.workgroup_size),
    {
        dispatch_of(self.domain.interior, self.cfg.workgroup_size)
    }

    /// Bytes of the macroscopic readback, four `f32` per interior cell, or `None`
    /// where the configuration keeps no such buffer.
    pub fn read_macroscopic(&self) -> (bytes: Option<u64>)
        requires
            self.wf(),
        ensures
            bytes == if self.cfg.macroscopic_buffer {
                Some((self.grid.dims.volume() * 16) as u64)
            } else {
                None::<u64>
            },
    {
        if !self.cfg.macroscopic_buffer {
            return None;
        }
        proof {
            lemma_volume_fits(self.domain.interior, self.domain.padded);
        }
        Some(self.domain.interior_cell_count() * 16)
    }

    /// Bytes of memory traffic one step moves.
    pub fn bytes_per_step(&self) -> (b: u64)
        requires
            self.wf(),
        ensures
            b == (traffic_per_cell(self.cfg.set, self.cfg.precision) + 4)
                * self.domain.padded.volume(),
    {
        // The link mask is 4 B/cell on top of the populations and the flag byte.
        // Counting it keeps the roofline percentage honest.
        let ddf: u64 = match self.cfg.precision {
            DdfPrecision::Fp32 => 4,
            DdfPrecision::Fp16c => 2,
        };
        let q: u64 = self.cfg.set.q() as u64;
        let cells: u64 = self.domain.padded_cell_count();
        proof {
            assert(2 * q * ddf <= 216) by (nonlinear_arith)
                requires
                    q <= 27,
                    ddf <= 4,
            ;
            let t = 2 * q * ddf + 5;
            assert(t * cells <= 221 * 0xffff_ffff) by (nonlinear_arith)
                requires
                    0 <= t <= 221,
                    cells <= 0xffff_ffff,
            ;
        }
        (2 * q * ddf + 1 + 4) * cells
    }

    /// What the shader's link buffer is filled with: the links, or one dummy
    /// entry where there are none, because a zero-length storage buffer is
    /// invalid.
    pub fn boundary_link_data(&self) -> (data: Vec<BoundaryLink>)
        ensures
            data@ == if self.links.links@.len() == 0 {
                seq![BoundaryLink { cell: 0, direction: 0, q_quantised: 0 }]
            } else {
                self.links.links@
            },
    {
        let mut data: Vec<BoundaryLink> = Vec::new();
        if self.links.is_empty() {
            data.push(BoundaryLink { cell: 0, direction: 0, q_quantised: 0 });
            return data;
        }
        let mut i: usize = 0;
        while i < self.links.links.len()
            invariant
                i <= self.links.links@.len(),
                data@ == self.links.links@.take(i as int),
            decreases self.links.links@.len() - i,
        {
            data.push(self.links.links[i]);
            i += 1;
            proof {
                assert(self.links.links@.take(i as int) =~= self.links.links@.take(i - 1).push(
                    self.links.links@[i - 1],
                ));
            }
        }
        proof {
            assert(self.links.links@.take(i as int) =~= self.links.links@);
        }
        data
    }

    /// The uniform data of a step of the given parity.
    pub open spec fn uniform_data(&self, parity: u32) -> LbmUniforms {
        LbmUniforms {
            dims: self.domain.padded,
            step_parity: parity,
            interior: self.domain.interior,
            cell_count: self.domain.padded.volume() as u32,
            offset: self.domain.offset,
            flag_words: ceil_div(self.domain.padded.volume(), 4) as u32,
            inlet_velocity: self.cfg.inlet_velocity,
            tau0: self.cfg.tau0,
            initial_velocity: self.cfg.initial_velocity,
            trt_lambda: self.cfg.trt_lambda,
            body_force: self.cfg.body_force,
            smagorinsky_c: self.cfg.smagorinsky_c,
            tau_max: self.cfg.tau_max,
            outflow_velocity: self.cfg.outflow_velocity,
            rho_ref: self.cfg.rho_ref,
            sponge_strength: self.cfg.sponge_strength,
            sponge_cells: self.cfg.sponge_cells,
            periodic: (bit(self.cfg.periodic[0]) + 2 * bit(self.cfg.periodic[1]) + 4 * bit(
                self.cfg.periodic[2],
            )) as u32,
            total_steps: (self.steps as int % 0x1_0000_0000) as u32,
            outlet_normal: self.cfg.outlet_normal,
            inlet_normal: self.cfg.inlet_normal,
            outlet_anti_bounce_back: bit(self.cfg.outlet_anti_bounce_back),
            inlet_vel: [
                self.slot_velocity(0),
                self.slot_velocity(1),
                self.slot_velocity(2),
                self.slot_velocity(3),
            ],
            inlet_nrm: [
                extended(self.cfg.inlet(0).normal, 0),
                extended(self.cfg.inlet(1).normal, 0),
                extended(self.cfg.inlet(2).normal, 0),
                extended(self.cfg.inlet(3).normal, 0),
            ],
        }
    }

    /// The velocity of an inlet slot, with a fourth component of 1 where its
    /// density is the local moment.
    pub open spec fn slot_velocity(&self, slot: int) -> Vec4 {
        let s = self.cfg.inlet(slot);
        extended(
            s.velocity,
            if s.local_density {
                ONE
            } else {
                0
            },
        )
    }

    fn slot_vel(&self, slot: u8) -> (v: Vec4)
        ensures
            v == self.slot_velocity(slot as int),
    {
        let s = self.cfg.inlet_slot(slot);
        extend(
            s.velocity,
            if s.local_density {
                ONE
            } else {
                0
            },
        )
    }

    /// The uniform data of a step of the given parity.
    pub fn uniforms(&self, parity: u32) -> (u: LbmUniforms)
        requires
            self.wf(),
        ensures
            u == self.uniform_data(parity),
    {
        let cells: u32 = self.domain.padded_cell_count() as u32;
        LbmUniforms {
            dims: self.domain.padded,
            step_parity: parity,
            interior: self.domain.interior,
            cell_count: cells,
            offset: self.domain.offset,
            flag_words: div_ceil(cells, 4),
            inlet_velocity: self.cfg.inlet_velocity,
            tau0: self.cfg.tau0,
            initial_velocity: self.cfg.initial_velocity,
            trt_lambda: self.cfg.trt_lambda,
            body_force: self.cfg.body_force,
            smagorinsky_c: self.cfg.smagorinsky_c,
            tau_max: self.cfg.tau_max,
            outflow_velocity: self.cfg.outflow_velocity,
            rho_ref: self.cfg.rho_ref,
            sponge_strength: self.cfg.sponge_strength,
            sponge_cells: self.cfg.sponge_cells,
            periodic: as_bit(self.cfg.periodic[0]) + 2 * as_bit(self.cfg.periodic[1]) + 4 * as_bit(
                self.cfg.periodic[2],
            ),
            total_steps: (self.steps % 0x1_0000_0000) as u32,
            outlet_normal: self.cfg.outlet_normal,
            inlet_normal: self.cfg.inlet_normal,
            outlet_anti_bounce_back: as_bit(self.cfg.outlet_anti_bounce_back),
            inlet_vel: [self.slot_vel(0), self.slot_vel(1), self.slot_vel(2), self.slot_vel(3)],
            inlet_nrm: [
                extend(self.cfg.inlet_slot(0).normal, 0),
                extend(self.cfg.inlet_slot(1).normal, 0),
                extend(self.cfg.inlet_slot(2).normal, 0),
                extend(self.cfg.inlet_slot(3).normal, 0),
            ],
        }
    }
}

/// Bytes one step moves per cell, the link mask aside: every population in and
/// out, and the flag byte.
pub open spec fn traffic_per_cell(set: VelocitySet, precision: DdfPrecision) -> int {
    2 * set.count() * (match precision {
        DdfPrecision::Fp32 => 4int,
        DdfPrecision::Fp16c => 2int,
    }) + 1
}

/// Workgroups of `size` threads along x, at least one, that cover a grid.
pub open spec fn dispatch(dims: UVec3, size: u32) -> UVec3 {
    let wg = if size == 0 {
        1
    } else {
        size as int
    };
    UVec3 { x: ceil_div(dims.x as int, wg) as u32, y: dims.y, z: dims.z }
}

fn dispatch_of(dims: UVec3, size: u32) -> (d: UVec3)
    ensures
        d == dispatch(dims, size),
{
    let wg: u32 = if size == 0 {
        1
    } else {
        size
    };
    UVec3::new(div_ceil(dims.x, wg), dims.y, dims.z)
}

proof fn lemma_volume_fits(interior: UVec3, padded: UVec3)
    requires
        interior.x <= padded.x,
        interior.y <= padded.y,
        interior.z <= padded.z,
        padded.volume() <= u32::MAX,
    ensures
        0 <= interior.volume() <= u32::MAX,
{
    assert(0 <= interior.x * interior.y <= padded.x * padded.y) by (nonlinear_arith)
        requires
            interior.x <= padded.x,
            interior.y <= padded.y,
    ;
    let a = interior.x * interior.y;
    let b = padded.x * padded.y;
    assert(0 <= a * interior.z <= b * padded.z) by (nonlinear_arith)
        requires
            0 <= a <= b,
            interior.z <= padded.z,
    ;
}

/// Cell-steps per submit. A run of 2.1e10 survived and one of 5.05e10 lost the
/// device; this sits well below both while keeping submits large enough that
/// their overhead stays negligible.
pub const BUDGET_CELL_STEPS: u64 = 10_000_000_000;

/// Largest number of steps to put in one submit, for a grid of `cells` cells.
pub open spec fn steps_per_submit(cells: int) -> int {
    let n = BUDGET_CELL_STEPS as int / (if cells < 1 {
        1
    } else {
        cells
    });
    if n < 1 {
        1
    } else if n > 4096 {
        4096
    } else {
        n
    }
}

/// Largest number of steps to put in one submit, for a grid of `cells` cells.
///
/// Being wrong one way costs a few microseconds of submit overhead, and the
/// other way costs a lost device and the whole run.
pub fn max_steps_per_submit_for(cells: u64) -> (n: u32)
    ensures
        n == steps_per_submit(cells as int),
        1 <= n <= 4096,
{
    let n: u64 = BUDGET_CELL_STEPS / (if cells < 1 {
        1
    } else {
        cells
    });
    if n < 1 {
        1
    } else if n > 4096 {
        4096
    } else {
        n as u32
    }
}

/// A submit never carries more than the budget of cell-steps, save where a
/// single step of the grid alone exceeds it; and a bigger grid never gets a
/// bigger batch.
pub proof fn a_submit_stays_within_budget(cells: int, more: int)
    requires
        0 <= cells <= more,
    ensures
        steps_per_submit(cells) >= 1,
        steps_per_submit(cells) * cells <= BUDGET_CELL_STEPS || steps_per_submit(cells) == 1,
        steps_per_submit(more) <= steps_per_submit(cells),
{
    let b = BUDGET_CELL_STEPS as int;
    let c = if cells < 1 {
        1
    } else {
        cells
    };
    let m = if more < 1 {
        1
    } else {
        more
    };
    vstd::arithmetic::div_mod::lemma_fundamental_div_mod(b, c);
    assert(b / m <= b / c) by {
        vstd::arithmetic::div_mod::lemma_div_is_ordered_by_denominator(b, c, m);
    }
    let n = steps_per_submit(cells);
    if n > 1 {
        assert(n * cells <= c * (b / c)) by (nonlinear_arith)
            requires
                0 <= n <= b / c,
                0 <= cells <= c,
        ;
    }
}

/// The flag bytes of up to four cells, lowest cell lowest.
pub open spec fn packed_word(bytes: Seq<u8>, word: int) -> int {
    byte_at(bytes, 4 * word) + 0x100 * byte_at(bytes, 4 * word + 1) + 0x1_0000 * byte_at(
        bytes,
        4 * word + 2,
    ) + 0x100_0000 * byte_at(bytes, 4 * word + 3)
}

/// A byte, or zero past the end.
pub open spec fn byte_at(bytes: Seq<u8>, i: int) -> int {
    if 0 <= i < bytes.len() {
        bytes[i] as int
    } else {
        0
    }
}

/// The byte `j` behind `start`, of which `rest` are left.
fn byte_or_zero(bytes: &[u8], start: usize, j: usize, rest: usize) -> (b: u32)
    requires
        start + rest == bytes@.len(),
    ensures
        b == byte_at(bytes@, start + j),
        b <= 0xff,
{
    let n: usize = bytes.len();
    if j < rest {
        assert(start + j < n);
        bytes[start + j] as u32
    } else {
        0
    }
}

/// Pack one flag byte per cell into `u32` words, four cells per word.
pub fn pack_flags(bytes: &[u8]) -> (words: Vec<u32>)
    ensures
        words@.len() == ceil_div(bytes@.len() as int, 4),
        forall|k: int| 0 <= k < words@.len() ==> #[trigger] words@[k] == packed_word(bytes@, k),
{
    let whole: usize = bytes.len() / 4;
    let n: usize = if bytes.len() % 4 == 0 {
        whole
    } else {
        whole + 1
    };
    let mut words: Vec<u32> = Vec::new();
    let mut k: usize = 0;
    while k < n
        invariant
            n == (bytes@.len() + 3) / 4,
            k <= n,
            words@.len() == k,
            forall|j: int| 0 <= j < words@.len() ==> #[trigger] words@[j] == packed_word(bytes@, j),
        decreases n - k,
    {
        let rest: usize = bytes.len() - 4 * k;
        let a: u32 = byte_or_zero(bytes, 4 * k, 0, rest);
        let b: u32 = byte_or_zero(bytes, 4 * k, 1, rest);
        let c: u32 = byte_or_zero(bytes, 4 * k, 2, rest);
        let d: u32 = byte_or_zero(bytes, 4 * k, 3, rest);
        let w: u32 = a + 0x100 * b + 0x1_0000 * c + 0x100_0000 * d;
        words.push(w);
        k += 1;
    }
    words
}

/// The shader's unpacking undoes the packing: shifting a cell's word down by
/// eight bits per cell before it and masking gives the cell's byte back.
pub proof fn unpacking_undoes_packing(bytes: Seq<u8>, i: int, word: u32)
    requires
        0 <= i < bytes.len(),
        word == packed_word(bytes, i / 4),
    ensures
        (word >> ((8 * (i % 4)) as u32)) & 0xff == bytes[i],
{
    let a = byte_at(bytes, 4 * (i / 4)) as u32;
    let b = byte_at(bytes, 4 * (i / 4) + 1) as u32;
    let c = byte_at(bytes, 4 * (i / 4) + 2) as u32;
    let d = byte_at(bytes, 4 * (i / 4) + 3) as u32;
    assert(i == 4 * (i / 4) + i % 4);
    assert(a <= 0xff && b <= 0xff && c <= 0xff && d <= 0xff && word == a + 0x100 * b + 0x1_0000 * c
        + 0x100_0000 * d ==> (word >> 0u32) & 0xff == a && (word >> 8u32) & 0xff == b && (word
        >> 16u32) & 0xff == c && (word >> 24u32) & 0xff == d) by (bit_vector);
}

/// Why a grid cannot be solved on.
#[derive(Clone, Copy, Debug, PartialEq, Eq, Structural)]
pub enum GridError {
    /// A cell index or a coordinate would not fit.
    TooLarge,
    /// The mask does not hold one byte per cell.
    MaskLength,
    /// A boundary link names a cell outside the grid.
    LinkOutside,
}

/// Whether every link names a cell of a grid of this many cells.
pub open spec fn links_inside(links: Seq<BoundaryLink>, cells: int) -> bool {
    forall|i: int| 0 <= i < links.len() ==> (#[trigger] links[i]).cell < cells
}

/// What is wrong with a grid, its mask or its links, if anything.
pub open spec fn grid_verdict(
    dims: UVec3,
    periodic: [bool; 3],
    mask: Seq<u8>,
    links: Seq<BoundaryLink>,
) -> Result<(), GridError> {
    if !can_pad(dims, periodic) {
        Err(GridError::TooLarge)
    } else if mask.len() != dims.volume() {
        Err(GridError::MaskLength)
    } else if !links_inside(links, dims.volume()) {
        Err(GridError::LinkOutside)
    } else {
        Ok(())
    }
}

/// Whether [`Solver::new`] takes these.
pub fn check_grid(
    grid: &Grid,
    periodic: [bool; 3],
    mask: &[u8],
    boundary_links: &[BoundaryLink],
) -> (r: Result<(), GridError>)
    ensures
        r == grid_verdict(grid.dims, periodic, mask@, boundary_links@),
{
    let x: u64 = grid.dims.x as u64 + if periodic[0] {
        0
    } else {
        2
    };
    let y: u64 = grid.dims.y as u64 + if periodic[1] {
        0
    } else {
        2
    };
    let z: u64 = grid.dims.z as u64 + if periodic[2] {
        0
    } else {
        2
    };
    if x > 0x7fff_ffff || y > 0x7fff_ffff || z > 0x7fff_ffff {
        return Err(GridError::TooLarge);
    }
    assert(x * y <= 0x7fff_ffff * 0x7fff_ffff) by (nonlinear_arith)
        requires
            0 <= x <= 0x7fff_ffff,
            0 <= y <= 0x7fff_ffff,
    ;
    if x * y > 0xffff_ffff {
        return Err(GridError::TooLarge);
    }
    let plane: u64 = x * y;
    assert(plane * z <= 0xffff_ffff * 0x7fff_ffff) by (nonlinear_arith)
        requires
            0 <= plane <= 0xffff_ffff,
            0 <= z <= 0x7fff_ffff,
    ;
    if plane * z > 0xffff_ffff {
        return Err(GridError::TooLarge);
    }
    let (nx, ny, nz): (u64, u64, u64) = (
        grid.dims.x as u64,
        grid.dims.y as u64,
        grid.dims.z as u64,
    );
    assert(nx * ny <= x * y) by (nonlinear_arith)
        requires
            0 <= nx <= x,
            0 <= ny <= y,
    ;
    assert(0 <= nx * ny) by (nonlinear_arith)
        requires
            0 <= nx,
            0 <= ny,
    ;
    let face: u64 = nx * ny;
    assert(face * nz <= plane * z) by (nonlinear_arith)
        requires
            0 <= face <= plane,
            0 <= nz <= z,
    ;
    let cells: u64 = face * nz;
    assert(cells == grid.dims.volume());
    if mask.len() as u64 != cells {
        return Err(GridError::MaskLength);
    }
    let mut i: usize = 0;
    while i < boundary_links.len()
        invariant
            i <= boundary_links@.len(),
            cells == grid.dims.volume(),
            can_pad(grid.dims, periodic),
            mask@.len() == grid.dims.volume(),
            forall|j: int| 0 <= j < i ==> (#[trigger] boundary_links@[j]).cell < cells,
        decreases boundary_links@.len() - i,
    {
        if boundary_links[i].cell as u64 >= cells {
            return Err(GridError::LinkOutside);
        }
        i += 1;
    }
    Ok(())
}

/// A fully solid-free mask for a grid, for analytic cases.
pub fn open_mask(dims: UVec3) -> (mask: Vec<u8>)
    requires
        dims.x * dims.y <= u32::MAX,
        dims.volume() <= u32::MAX,
        dims.volume() <= usize::MAX,
    ensures
        mask@.len() == dims.volume(),
        forall|i: int| 0 <= i < mask@.len() ==> mask@[i] == flags::FLUID,
{
    vec![flags::FLUID; (dims.x * dims.y * dims.z) as usize]
}

/// Bytes of one direction's buffer: whole `u32` words.
pub open spec fn direction_size(cells: int, precision: DdfPrecision) -> int {
    match precision {
        DdfPrecision::Fp32 => 4 * cells,
        DdfPrecision::Fp16c => 4 * ceil_div(cells, 2),
    }
}

/// Bytes of VRAM the populations of a grid would need, halo and all.
pub open spec fn ddf_size(
    dims: UVec3,
    periodic: [bool; 3],
    set: VelocitySet,
    precision: DdfPrecision,
) -> int {
    direction_size(
        padded_dim(dims.x, periodic[0]) * padded_dim(dims.y, periodic[1]) * padded_dim(
            dims.z,
            periodic[2],
        ),
        precision,
    ) * set.count()
}

/// Bytes of VRAM the populations of a grid would need, halo and all. For any grid, also
/// one that is too large to index.
pub fn ddf_bytes(
    grid: Grid,
    periodic: [bool; 3],
    set: VelocitySet,
    precision: DdfPrecision,
) -> (bytes: u64)
    requires
        padded_dim(grid.dims.x, periodic[0]) <= u32::MAX,
        padded_dim(grid.dims.y, periodic[1]) <= u32::MAX,
        padded_dim(grid.dims.z, periodic[2]) <= u32::MAX,
        ddf_size(grid.dims, periodic, set, precision) <= u64::MAX,
    ensures
        bytes == ddf_size(grid.dims, periodic, set, precision),
{
    let x: u32 = grid.dims.x + if periodic[0] {
        0
    } else {
        2
    };
    let y: u32 = grid.dims.y + if periodic[1] {
        0
    } else {
        2
    };
    let z: u32 = grid.dims.z + if periodic[2] {
        0
    } else {
        2
    };
    let q: u64 = set.q() as u64;
    let ghost cells = x as int * y as int * z as int;
    proof {
        let per = direction_size(cells, precision);
        assert(0 <= x * y <= 0xffff_ffff * 0xffff_ffff) by (nonlinear_arith)
            requires
                0 <= x <= 0xffff_ffff,
                0 <= y <= 0xffff_ffff,
        ;
        assert(0 <= cells) by (nonlinear_arith)
            requires
                cells == (x * y) * z,
                0 <= x * y,
                0 <= z,
        ;
        assert(per <= per * q) by (nonlinear_arith)
            requires
                0 <= per,
                1 <= q,
        ;
    }
    let cells: u64 = x as u64 * y as u64 * z as u64;
    let per_direction: u64 = match precision {
        DdfPrecision::Fp32 => 4 * cells,
        DdfPrecision::Fp16c => 4 * ((cells + 1) / 2),
    };
    per_direction * q
}

/// Groups of `n` cover `x` and no whole group is left over.
pub proof fn whole_groups_just_cover(x: int, n: int)
    requires
        x >= 0,
        n > 0,
    ensures
        ceil_div(x, n) * n >= x,
        (ceil_div(x, n) - 1) * n < x,
{
    vstd::arithmetic::div_mod::lemma_fundamental_div_mod(x + n - 1, n);
    let k = ceil_div(x, n);
    assert(n * k == k * n && (k - 1) * n == k * n - n) by (nonlinear_arith);
}

/// Every cell is in exactly one workgroup's reach: the groups cover the grid along x with
/// less than one group to spare, and the other axes cell by cell.
pub proof fn the_workgroups_just_cover_the_grid(dims: UVec3, size: u32)
    ensures
        size > 0 ==> dispatch(dims, size).x * size >= dims.x,
        size > 0 && dims.x > 0 ==> (dispatch(dims, size).x - 1) * size < dims.x,
        size == 0 ==> dispatch(dims, size).x == dims.x,
        dispatch(dims, size).y == dims.y,
        dispatch(dims, size).z == dims.z,
{
    let wg = if size == 0 {
        1
    } else {
        size as int
    };
    whole_groups_just_cover(dims.x as int, wg);
    let k = ceil_div(dims.x as int, wg);
    assert(0 <= k <= dims.x) by (nonlinear_arith)
        requires
            k * wg >= dims.x,
            (k - 1) * wg < dims.x,
            wg >= 1,
            dims.x >= 0,
    ;
}

/// How many steps the first `k` submits take.
pub open spec fn steps_before(batches: Seq<Batch>, k: int) -> int
    decreases k,
{
    if k <= 0 {
        0
    } else {
        steps_before(batches, k - 1) + batches[k - 1].steps
    }
}

/// The submits of a run add up: together they take exactly the steps asked for, none more
/// than a submit may carry, and none is empty. Each starts with the parity of the steps
/// taken until then, and the macroscopic fields are recomputed once, at the end, where
/// they are asked for.
pub proof fn the_submits_add_up(s: &Solver, n: u32, macroscopic: bool, batches: Seq<Batch>, k: int)
    requires
        s.planned(n, macroscopic, batches),
        0 <= k < batches.len(),
    ensures
        steps_before(batches, batches.len() as int) == n,
        n > 0 ==> 1 <= batches[k].steps <= steps_per_submit(s.domain.padded.volume()),
        batches[k].first_parity == (s.steps + steps_before(batches, k)) % 2,
        batches[k].macroscopic <==> macroscopic && k == batches.len() - 1,
{
    let per = steps_per_submit(s.domain.padded.volume());
    if n == 0 {
        reveal_with_fuel(steps_before, 2);
    } else {
        a_submit_stays_within_budget(0, 0);
        assert(per >= 1);
        whole_groups_just_cover(n as int, per);
        lemma_steps_before(s.steps as int, n as int, per, macroscopic, batches, k);
        lemma_steps_before(
            s.steps as int,
            n as int,
            per,
            macroscopic,
            batches,
            batches.len() - 1,
        );
        let last = batches.len() - 1;
        assert(batches[last] == batch_at(s.steps as int, n as int, per, macroscopic, last));
        assert(batches[k] == batch_at(s.steps as int, n as int, per, macroscopic, k));
        assert(k * per <= last * per) by (nonlinear_arith)
            requires
                k <= last,
                per >= 1,
        ;
        if k < last {
            assert(k * per + per <= last * per) by (nonlinear_arith)
                requires
                    k + 1 <= last,
                    per >= 1,
            ;
        }
        assert(last * per + per == (last + 1) * per) by (nonlinear_arith);
    }
}

proof fn lemma_steps_before(
    taken: int,
    n: int,
    per: int,
    macroscopic: bool,
    batches: Seq<Batch>,
    k: int,
)
    requires
        1 <= per <= 4096,
        0 <= k < batches.len(),
        (batches.len() - 1) * per < n,
        forall|j: int|
            0 <= j < batches.len() ==> #[trigger] batches[j] == batch_at(
                taken,
                n,
                per,
                macroscopic,
                j,
            ),
    ensures
        steps_before(batches, k) == k * per,
    decreases k,
{
    if k > 0 {
        lemma_steps_before(taken, n, per, macroscopic, batches, k - 1);
        assert(batches[k - 1] == batch_at(taken, n, per, macroscopic, k - 1));
        assert((k - 1) * per + per == k * per) by (nonlinear_arith);
        let last = batches.len() - 1;
        assert(k * per <= last * per) by (nonlinear_arith)
            requires
                k <= last,
                per >= 1,
        ;
    } else {
        assert(0 * per == 0);
    }
}

/// A submit holds as many steps as the budget and the cap allow: one more would exceed
/// one of them.
pub proof fn a_submit_is_as_long_as_it_may_be(cells: int)
    requires
        cells >= 1,
    ensures
        steps_per_submit(cells) <= 4096,
        steps_per_submit(cells) < 4096 ==> (steps_per_submit(cells) + 1) * cells > 10_000_000_000,
{
    let b = BUDGET_CELL_STEPS as int;
    vstd::arithmetic::div_mod::lemma_fundamental_div_mod(b, cells);
    let n = steps_per_submit(cells);
    assert((b / cells + 1) * cells > b) by (nonlinear_arith)
        requires
            b == cells * (b / cells) + b % cells,
            b % cells < cells,
    ;
    if n < 4096 {
        assert((n + 1) * cells >= (b / cells + 1) * cells) by (nonlinear_arith)
            requires
                n >= b / cells,
                cells >= 1,
        ;
    }
}

/// Every parameter of the solver reaches the shader under its own name.
pub proof fn the_uniforms_are_the_solvers_parameters(s: &Solver, parity: u32, a: int)
    requires
        s.wf(),
        0 <= a < 3,
    ensures
        ({
            let u = s.uniform_data(parity);
            &&& u.dims == s.domain.padded && u.interior == s.domain.interior && u.offset
                == s.domain.offset
            &&& u.step_parity == parity && u.cell_count == s.domain.padded.volume()
            &&& u.flag_words * 4 >= u.cell_count && u.flag_words * 4 < u.cell_count + 4
            &&& u.tau0 == s.cfg.tau0 && u.tau_max == s.cfg.tau_max && u.trt_lambda
                == s.cfg.trt_lambda
            &&& u.smagorinsky_c == s.cfg.smagorinsky_c && u.rho_ref == s.cfg.rho_ref
            &&& u.inlet_velocity == s.cfg.inlet_velocity && u.inlet_normal == s.cfg.inlet_normal
            &&& u.initial_velocity == s.cfg.initial_velocity && u.body_force == s.cfg.body_force
            &&& u.outflow_velocity == s.cfg.outflow_velocity && u.outlet_normal
                == s.cfg.outlet_normal
            &&& u.outlet_anti_bounce_back == 1 <==> s.cfg.outlet_anti_bounce_back
            &&& u.outlet_anti_bounce_back <= 1
            &&& u.sponge_strength == s.cfg.sponge_strength && u.sponge_cells == s.cfg.sponge_cells
            &&& u.total_steps == s.steps % 0x1_0000_0000
            &&& u.periodic < 8
            &&& (if a == 0 {
                u.periodic % 2
            } else if a == 1 {
                (u.periodic / 2) % 2
            } else {
                u.periodic / 4
            }) == 1 <==> s.cfg.periodic[a]
        }),
{
    whole_groups_just_cover(s.domain.padded.volume(), 4);
}

/// The inlet table: every slot has the velocity and the normal of the inlet of its
/// number, and is marked where that inlet stands free in the fluid. The first slot is the
/// duct's own inlet.
pub proof fn the_inlet_table_follows_the_inlets(s: &Solver, parity: u32, slot: int)
    requires
        0 <= slot < 4,
    ensures
        ({
            let v = s.uniform_data(parity).inlet_vel[slot];
            let n = s.uniform_data(parity).inlet_nrm[slot];
            let i = if slot == 0 {
                InletSpec {
                    velocity: s.cfg.inlet_velocity,
                    normal: s.cfg.inlet_normal,
                    local_density: false,
                }
            } else {
                s.cfg.extra_inlets[slot - 1]
            };
            &&& v.x == i.velocity.x && v.y == i.velocity.y && v.z == i.velocity.z
            &&& lt32(0, v.w) <==> i.local_density
            &&& n.x == i.normal.x && n.y == i.normal.y && n.z == i.normal.z
        }),
{
}

/// A step reads and writes every population of a cell once, and its flag byte: full
/// precision moves twice the population bytes of the 16-bit storage.
pub proof fn every_population_moves_in_and_out(set: VelocitySet)
    ensures
        traffic_per_cell(set, DdfPrecision::Fp32) - 1 == 2 * (traffic_per_cell(
            set,
            DdfPrecision::Fp16c,
        ) - 1),
        traffic_per_cell(VelocitySet::D3Q19, DdfPrecision::Fp32) == 153,
        traffic_per_cell(VelocitySet::D3Q27, DdfPrecision::Fp32) == 217,
{
}

/// The buffer of a direction holds one population for each cell, in whole words: four
/// bytes each in full precision, two in 16 bits with at most half a word to spare.
pub proof fn a_buffer_holds_one_population_per_cell(cells: int, precision: DdfPrecision)
    requires
        cells >= 0,
    ensures
        direction_size(cells, precision) % 4 == 0,
        precision == DdfPrecision::Fp32 ==> direction_size(cells, precision) == 4 * cells,
        precision == DdfPrecision::Fp16c ==> 2 * cells <= direction_size(cells, precision) <= 2
            * cells + 2,
{
    whole_groups_just_cover(cells, 2);
}

/// A grid is taken exactly where its cells can be numbered, there is one flag byte for
/// each, and every link belongs to one of them; and the first of these that fails is the
/// one that is named.
pub proof fn a_grid_is_refused_for_what_is_wrong_with_it(
    dims: UVec3,
    periodic: [bool; 3],
    mask: Seq<u8>,
    links: Seq<BoundaryLink>,
)
    ensures
        grid_verdict(dims, periodic, mask, links) is Ok <==> can_pad(dims, periodic) && mask.len()
            == dims.volume() && (forall|i: int|
            0 <= i < links.len() ==> (#[trigger] links[i]).cell < dims.volume()),
        grid_verdict(dims, periodic, mask, links) == Err::<(), GridError>(GridError::TooLarge)
            <==> !can_pad(dims, periodic),
        grid_verdict(dims, periodic, mask, links) == Err::<(), GridError>(GridError::MaskLength)
            <==> can_pad(dims, periodic) && mask.len() != dims.volume(),
{
}

/// A grid takes one plane per direction, of all its cells with a halo of two along each open
/// axis: four bytes each in full precision, and two, to whole words, in half.
pub proof fn a_grid_takes_a_plane_per_direction(
    dims: UVec3,
    periodic: [bool; 3],
    set: VelocitySet,
    precision: DdfPrecision,
)
    ensures
        ({
            let x = dims.x + if periodic[0] { 0int } else { 2 };
            let y = dims.y + if periodic[1] { 0int } else { 2 };
            let z = dims.z + if periodic[2] { 0int } else { 2 };
            let q = if set == VelocitySet::D3Q19 { 19int } else { 27 };
            let cells = x * y * z;
            let size = ddf_size(dims, periodic, set, precision);
            &&& precision == DdfPrecision::Fp32 ==> size == q * (4 * cells)
            &&& precision == DdfPrecision::Fp16c ==> q * (2 * cells) <= size <= q * (2 * cells + 2)
        }),
{
    let x = dims.x + if periodic[0] { 0int } else { 2 };
    let y = dims.y + if periodic[1] { 0int } else { 2 };
    let z = dims.z + if periodic[2] { 0int } else { 2 };
    let cells = x * y * z;
    assert(cells >= 0) by (nonlinear_arith)
        requires
            x >= 0,
            y >= 0,
            z >= 0,
            cells == x * y * z,
    ;
    whole_groups_just_cover(cells, 2);
}

} // verus!
