//! The streaming half of a CPU lattice-Boltzmann solver that mirrors the GPU
//! kernel step for step.
//!
//! Populations are carried as `f32` bit patterns: streaming moves them and never
//! computes with them. Collision, which does, happens between a load and the
//! next store.
//!
//! # The bounce-back rule
//!
//! Esoteric Pull gives a cell two addresses per direction pair `(m, m+1)`:
//! `X = slot(n - c_m, alpha)` and `Y = slot(n, !alpha)`, with
//! `alpha = p ? m : m+1` and `p` the step parity. `X` carries the link between
//! `n` and `n - c_m`; `Y` carries the link between `n` and `n + c_m`. Read and
//! write use the *same* address, and the two cells sharing a link swap which of
//! the pair's two slots they own on every step.
//!
//! Now let `s = n - c_m` be solid. Cell `n` owns *both* slots at cell-index `s`,
//! because nothing on the other side of the link ever executes. At step `p` it
//! stores its outgoing `f_{m+1}` into `slot(s, alpha)`. At step `p+1` the
//! unmodified rule would have it load `f_m` from `slot(s, !alpha)`, which nobody
//! wrote. Loading with the parity *flipped* instead reads `slot(s, alpha)`,
//! exactly the value it stored, and that is halfway bounce-back verbatim.
//!
//! So: **stores are never flipped; a load flips exactly when the upstream
//! neighbour `n - c_i` is solid.**
//!
//! The same rule makes initialisation trivial: writing the initial equilibrium
//! as the store half of a virtual step before the first lands every value, wall
//! links included, exactly where step 0 will look for it.
use vstd::prelude::*;
use crate::binary32::{is_sum, sum};
use crate::boundary::{mask_bit, CellKind, PaddedDomain};
use crate::collision::CollisionModel;
use crate::config::{InletSpec, SolverConfig, Vec3, ONE};
use crate::flags::{self, fluid};
use crate::float_order::{equal32, eq32, finite32, is_finite32, less32, lt32};
use crate::grid::{
    cell_at, every_index_is_a_cell, in_grid, linear_index, linear_index_leads_back,
    neighbours_are_mutual, reversed, wrapped_neighbour, IVec3, UVec3,
};
use crate::lattice::{
    direction, load_addr, opposite, opposite_of, opposites_reverse, pair_first, pair_first_of,
    slots_are_distinct, store_addr, velocity, EsotericPull, VelocitySet,
};
use crate::kernel::{CellState, Kernel, Moments, Passage, Pull};
use crate::precision::{f32_of_fp16c, fp16c_of, quantise_fp16c, DdfPrecision};

verus! {

/// Whether storing the population `v` at a precision reads back as `r`.
pub open spec fn stores_as(precision: DdfPrecision, v: u32, r: u32) -> bool {
    match precision {
        DdfPrecision::Fp32 => r == v,
        DdfPrecision::Fp16c => exists|h: u16| fp16c_of(v, h) && f32_of_fp16c(h, r),
    }
}

/// Bit pattern of a `f32` that is no number.
pub const QUIET_NAN: u32 = 0x7fc0_0000;

/// Bit pattern of minus one.
pub const MINUS_ONE: u32 = 0xbf80_0000;

/// Density and velocity at one cell, in lattice units.
#[derive(Clone, Copy, Debug, PartialEq, Eq, Structural)]
pub struct Macro {
    pub rho: u32,
    pub u: Vec3,
}

/// What one step does to one cell between its load and its store.
#[derive(Clone, Copy, Debug, PartialEq, Eq, Structural)]
pub struct CellPlan {
    pub kind: CellKind,
    /// Replace the populations on outflow links before taking moments.
    pub anti_bounce_back: bool,
    /// The inlet that drives the cell, where it is an inlet cell.
    pub inlet: Option<InletSpec>,
    /// Store the equilibrium itself: the boundary discards the non-equilibrium
    /// entirely and so has no mechanism by which to diverge.
    pub discard_nonequilibrium: bool,
    /// The magic parameter of the collision; zero for the single-rate operators.
    pub trt_lambda: u32,
    /// Relax toward the reference density with the convective outflow weight.
    pub convective: bool,
    /// How deep in the absorbing layer the cell is, where the sponge acts.
    pub sponge_depth: Option<u32>,
}

/// The cell that shares the pair of direction `i` with `cell`: the one at
/// `n - c_m` for the pair `(m, m+1)`, or the cell itself for rest.
pub open spec fn partner(padded: UVec3, cell: int, i: int) -> int {
    if i == 0 {
        cell
    } else {
        linear_index(
            padded,
            wrapped_neighbour(
                padded,
                cell_at(padded, cell),
                velocity(opposite_of(pair_first_of(i))),
            ),
        )
    }
}

/// The slot a cell stores direction `i` into, on a step of the given parity.
pub open spec fn store_index(ep: EsotericPull, padded: UVec3, cell: int, i: int, odd: bool) -> int {
    ep.resolve(store_addr(i, odd), cell, partner(padded, cell, i))
}

/// The slot a cell loads direction `i` from, with the given parity.
pub open spec fn load_index(ep: EsotericPull, padded: UVec3, cell: int, i: int, odd: bool) -> int {
    ep.resolve(load_addr(i, odd), cell, partner(padded, cell, i))
}

/// The partner of a cell is a cell, and of no other cell.
proof fn lemma_partner(padded: UVec3, set: VelocitySet, cell: int, other: int, i: int)
    requires
        0 <= cell < padded.volume(),
        0 <= other < padded.volume(),
        0 <= i < set.count(),
    ensures
        0 <= partner(padded, cell, i) < padded.volume(),
        partner(padded, cell, i) == partner(padded, other, i) ==> cell == other,
{
    every_index_is_a_cell(padded, cell);
    every_index_is_a_cell(padded, other);
    if i > 0 {
        let m = pair_first_of(i);
        opposites_reverse(set, m);
        let d = velocity(opposite_of(m));
        let a = cell_at(padded, cell);
        let b = cell_at(padded, other);
        neighbours_are_mutual(padded, a, d);
        neighbours_are_mutual(padded, b, d);
        linear_index_leads_back(padded, wrapped_neighbour(padded, a, d));
        linear_index_leads_back(padded, wrapped_neighbour(padded, b, d));
    }
}

/// Every slot is owned by exactly one cell and direction for the whole step: no
/// two stores of a step meet.
pub proof fn stores_never_meet(
    ep: EsotericPull,
    padded: UVec3,
    set: VelocitySet,
    odd: bool,
    cell: int,
    i: int,
    other: int,
    j: int,
)
    requires
        ep.cells == padded.volume(),
        ep.q == set.count(),
        0 <= cell < padded.volume(),
        0 <= other < padded.volume(),
        0 <= i < set.count(),
        0 <= j < set.count(),
        store_index(ep, padded, cell, i, odd) == store_index(ep, padded, other, j, odd),
    ensures
        cell == other,
        i == j,
{
    lemma_partner(padded, set, cell, other, i);
    lemma_partner(padded, set, other, cell, j);
    let a = store_addr(i, odd);
    let b = store_addr(j, odd);
    let ca = if a.neighbour_dir is Some {
        partner(padded, cell, i)
    } else {
        cell
    };
    let cb = if b.neighbour_dir is Some {
        partner(padded, other, j)
    } else {
        other
    };
    slots_are_distinct(ep, a.dir as int, ca, b.dir as int, cb);
    assert(i == j);
}

/// A slot index is within the buffers.
pub proof fn lemma_index_in_range(
    ep: EsotericPull,
    padded: UVec3,
    set: VelocitySet,
    cell: int,
    i: int,
    odd: bool,
)
    requires
        ep.cells == padded.volume(),
        ep.q == set.count(),
        0 <= cell < padded.volume(),
        0 <= i < set.count(),
    ensures
        0 <= store_index(ep, padded, cell, i, odd) < ep.cells * ep.q,
        0 <= load_index(ep, padded, cell, i, odd) < ep.cells * ep.q,
{
    lemma_partner(padded, set, cell, cell, i);
    let n = ep.cells as int;
    let q = ep.q as int;
    assert forall|d: int, c: int| 0 <= d < q && 0 <= c < n implies 0 <= #[trigger] ep.slot_of(d, c)
        < n * q by {
        assert(0 <= d * n && d * n + n <= n * q) by (nonlinear_arith)
            requires
                0 <= d < q,
                n >= 0,
        ;
    }
    let a = store_addr(i, odd);
    let b = load_addr(i, odd);
    assert(0 <= a.dir < q && 0 <= b.dir < q);
}

/// The streaming solver: same index scheme and same boundary treatment as the
/// shader.
pub struct ReferenceLbm {
    pub domain: PaddedDomain,
    pub cfg: SolverConfig,
    /// Shifted populations, structure-of-arrays.
    pub g: Vec<u32>,
    pub steps: u64,
}

impl ReferenceLbm {
    /// The populations, one buffer per direction.
    pub open spec fn populations(&self) -> Seq<u32> {
        self.g@
    }

    /// Steps taken so far.
    pub open spec fn taken(&self) -> int {
        self.steps as int
    }

    /// Whether the step to come is an odd one.
    pub open spec fn odd(&self) -> bool {
        self.taken() % 2 == 1
    }

    /// The addressing of the populations.
    pub open spec fn addressing(&self) -> EsotericPull {
        EsotericPull {
            cells: self.domain.padded.volume() as u64,
            q: self.cfg.set.count() as usize,
        }
    }

    /// Domain, link mask and populations fit each other.
    pub open spec fn wf(&self) -> bool {
        &&& self.domain.shaped()
        &&& self.domain.masked(self.cfg.set)
        &&& self.populations().len() == self.domain.padded.volume() * self.cfg.set.count()
        &&& self.domain.padded.volume() * self.cfg.set.count() <= usize::MAX
    }

    /// Whether a padded cell is part of the flow.
    pub open spec fn flows(&self, cell: int) -> bool {
        fluid(self.domain.flags@[cell])
    }

    /// The population a cell loads along direction `i` on the step to come.
    pub open spec fn loaded(&self, cell: int, i: int) -> u32 {
        let flip = i > 0 && mask_bit(self.domain.link_mask@[cell], i);
        self.populations()[load_index(
            self.addressing(),
            self.domain.padded,
            cell,
            i,
            self.odd() != flip,
        )]
    }

    /// Whether every fluid cell's populations, given cell by cell in `values`,
    /// stand where a step of the given parity stores them.
    pub open spec fn holds(&self, values: Seq<u32>, odd: bool) -> bool {
        forall|cell: int, i: int|
            #![trigger store_index(self.addressing(), self.domain.padded, cell, i, odd)]
            0 <= cell < self.domain.padded.volume() && 0 <= i < self.cfg.set.count() && self.flows(
                cell,
            ) ==> stores_as(
                self.cfg.precision,
                values[cell * self.cfg.set.count() + i],
                self.populations()[store_index(
                    self.addressing(),
                    self.domain.padded,
                    cell,
                    i,
                    odd,
                )],
            )
    }

    /// Whether slot `k` is one that a fluid cell stores into on a step of the
    /// given parity.
    pub open spec fn owned(&self, k: int, odd: bool) -> bool {
        exists|cell: int, i: int|
            #![trigger store_index(self.addressing(), self.domain.padded, cell, i, odd)]
            0 <= cell < self.domain.padded.volume() && 0 <= i < self.cfg.set.count() && self.flows(
                cell,
            ) && k == store_index(self.addressing(), self.domain.padded, cell, i, odd)
    }

    pub fn steps_taken(&self) -> (n: u64)
        ensures
            n == self.taken(),
    {
        self.steps
    }

    fn odd_step(&self) -> (r: bool)
        ensures
            r == self.odd(),
    {
        self.steps % 2 == 1
    }

    /// Raw access to the populations, for the comparison with the GPU.
    pub fn raw(&self) -> (g: &Vec<u32>)
        ensures
            g@ == self.populations(),
    {
        &self.g
    }

    /// The cell that shares the pair of direction `i` with `cell`, which lies at `c`.
    fn neighbour_index(&self, cell: u64, c: UVec3, i: usize) -> (n: u64)
        requires
            self.wf(),
            cell < self.domain.padded.volume(),
            c == cell_at(self.domain.padded, cell as int),
            in_grid(self.domain.padded, c),
            i < self.cfg.set.count(),
        ensures
            n == partner(self.domain.padded, cell as int, i as int),
            n < self.domain.padded.volume(),
    {
        if i == 0 {
            return cell;
        }
        let d: usize = opposite(pair_first(i));
        self.domain.linear(self.domain.neighbour(c, direction(d))) as u64
    }

    /// Storage round trip, so the reference truncates exactly as the GPU does
    /// when running in FP16C.
    fn quantise(&self, v: u32) -> (r: u32)
        ensures
            stores_as(self.cfg.precision, v, r),
    {
        match self.cfg.precision {
            DdfPrecision::Fp32 => v,
            DdfPrecision::Fp16c => quantise_fp16c(v),
        }
    }

    /// Load a cell's full population set for the step to come.
    pub fn load(&self, cell: u64) -> (out: Vec<u32>)
        requires
            self.wf(),
            cell < self.domain.padded.volume(),
        ensures
            out@.len() == self.cfg.set.count(),
            forall|i: int|
                0 <= i < out@.len() ==> #[trigger] out@[i] == self.loaded(cell as int, i),
    {
        let q: usize = self.cfg.set.q();
        let odd: bool = self.odd_step();
        let c: UVec3 = self.domain.coords(cell as u32);
        let mask: u32 = self.domain.link_mask[cell as usize];
        let ep: EsotericPull = EsotericPull::new(self.domain.padded_cell_count(), q);
        let mut out: Vec<u32> = Vec::new();
        let mut i: usize = 0;
        while i < q
            invariant
                self.wf(),
                cell < self.domain.padded.volume(),
                q == self.cfg.set.count(),
                odd == self.odd(),
                c == cell_at(self.domain.padded, cell as int),
                in_grid(self.domain.padded, c),
                mask == self.domain.link_mask@[cell as int],
                ep == self.addressing(),
                i <= q,
                out@.len() == i,
                forall|k: int|
                    0 <= k < out@.len() ==> #[trigger] out@[k] == self.loaded(cell as int, k),
            decreases q - i,
        {
            let flip: bool = i > 0 && (mask >> (i as u32)) & 1 == 1;
            let nb: u64 = self.neighbour_index(cell, c, i);
            let at: u64 = ep.load_slot(cell, i, odd != flip, nb);
            out.push(self.g[at as usize]);
            i += 1;
        }
        out
    }

    /// The inlet that drives a cell: the slot in the two high bits of its flag
    /// byte, looked up in the config.
    pub fn inlet_spec(&self, cell: u64) -> (s: InletSpec)
        requires
            self.wf(),
            cell < self.domain.padded.volume(),
        ensures
            s == self.cfg.inlet((self.domain.flags@[cell as int] / 64) as int),
    {
        self.cfg.inlet_slot(flags::inlet_slot(self.domain.flags[cell as usize]) as u8)
    }

    /// What a step does to a cell, or `None` where the cell is solid and does
    /// not execute.
    pub fn plan(&self, cell: u64) -> (p: Option<CellPlan>)
        requires
            self.wf(),
            cell < self.domain.padded.volume(),
        ensures
            p == self.plan_of(cell as int),
    {
        let f: u8 = self.domain.flags[cell as usize];
        let kind: CellKind = CellKind::of(f);
        if kind == CellKind::Solid {
            return None;
        }
        let c: UVec3 = self.domain.coords(cell as u32);
        let sponge_depth: Option<u32> = if less32(0, self.cfg.sponge_strength) {
            self.domain.sponge_depth(c, f, self.cfg.sponge_cells)
        } else {
            None
        };
        let inlet: Option<InletSpec> = if kind == CellKind::Inlet {
            Some(self.inlet_spec(cell))
        } else {
            None
        };
        Some(
            CellPlan {
                kind,
                anti_bounce_back: kind == CellKind::Outlet && self.cfg.outlet_anti_bounce_back,
                inlet,
                discard_nonequilibrium: kind == CellKind::Inlet || kind == CellKind::Equilibrium,
                trt_lambda: if self.cfg.collision == CollisionModel::Trt {
                    self.cfg.trt_lambda
                } else {
                    0
                },
                convective: kind == CellKind::Outlet && less32(0, self.cfg.outflow_velocity),
                sponge_depth,
            },
        )
    }

    /// The sponge's pull on a cell so deep in the layer.
    pub open spec fn sponge_pull(&self, depth: u32) -> Pull {
        Pull::Sponge { strength: self.cfg.sponge_strength, depth, cells: self.cfg.sponge_cells }
    }

    /// What a step does to a cell, or `None` where the cell is solid.
    pub open spec fn plan_of(&self, cell: int) -> Option<CellPlan> {
        let f = self.domain.flags@[cell];
        let kind = CellKind::kind(f);
        let c = cell_at(self.domain.padded, cell);
        if !fluid(f) {
            None
        } else {
            Some(
                CellPlan {
                    kind,
                    anti_bounce_back: kind == CellKind::Outlet && self.cfg.outlet_anti_bounce_back,
                    inlet: if kind == CellKind::Inlet {
                        Some(self.cfg.inlet((f / 64) as int))
                    } else {
                        None
                    },
                    discard_nonequilibrium: kind == CellKind::Inlet || kind
                        == CellKind::Equilibrium,
                    trt_lambda: if self.cfg.collision == CollisionModel::Trt {
                        self.cfg.trt_lambda
                    } else {
                        0
                    },
                    convective: kind == CellKind::Outlet && lt32(0, self.cfg.outflow_velocity),
                    sponge_depth: if lt32(0, self.cfg.sponge_strength) {
                        self.domain.sponged(c, f, self.cfg.sponge_cells)
                    } else {
                        None
                    },
                },
            )
        }
    }

    /// Whether axis `a` lies in a plane with the given normal: the axis link's
    /// product with the normal is exactly zero.
    pub open spec fn tangential(normal: Vec3, a: int) -> bool {
        &&& eq32(normal.axis(a), 0)
        &&& forall|b: int| 0 <= b < 3 ==> finite32(#[trigger] normal.axis(b))
    }

    /// Whether a wall beside an inlet cell takes away component `a` of its velocity:
    /// the axis lies in the inlet plane, and one of the cell's two neighbours along it
    /// is solid.
    pub open spec fn walled(&self, cell: int, normal: Vec3, a: int) -> bool {
        Self::tangential(normal, a) && (mask_bit(self.domain.link_mask@[cell], 2 * a + 1)
            || mask_bit(self.domain.link_mask@[cell], 2 * a + 2))
    }

    /// The velocity an inlet cell imposes: the configured one, less its component
    /// normal to any wall beside the cell. Taking a component out of a velocity that is
    /// not finite leaves no number at all.
    pub open spec fn imposed(&self, cell: int, spec: InletSpec) -> Vec3 {
        let v = spec.velocity;
        let x = self.walled(cell, spec.normal, 0);
        let y = self.walled(cell, spec.normal, 1);
        let z = self.walled(cell, spec.normal, 2);
        if !x && !y && !z {
            v
        } else if !finite32(v.x) || !finite32(v.y) || !finite32(v.z) {
            Vec3 { x: QUIET_NAN, y: QUIET_NAN, z: QUIET_NAN }
        } else {
            Vec3 {
                x: if x { 0 } else { v.x },
                y: if y { 0 } else { v.y },
                z: if z { 0 } else { v.z },
            }
        }
    }

    /// The velocity one inlet cell imposes: the configured one, less its component
    /// normal to any wall beside the cell.
    ///
    /// A tilted inlet (a louver aim) carries a velocity *along* the inlet plane.
    /// Where the plane meets the duct wall, part of that is a velocity through
    /// an impermeable wall, and the wall's bounce-back hands it straight to the
    /// density closure, which reads the reflections as data. So the wall-normal
    /// component goes, which is also just the no-penetration condition, and the
    /// rest stays. Only the four axis links in the plane are tested, which
    /// covers axis-aligned walls; a corner loses both in-plane components.
    ///
    /// With no tilt the in-plane components are exactly zero, so this is the
    /// configured velocity.
    pub fn inlet_velocity_at(&self, cell: u64, spec: InletSpec) -> (u: Vec3)
        requires
            self.wf(),
            cell < self.domain.padded.volume(),
        ensures
            u == self.imposed(cell as int, spec),
    {
        let mask: u32 = self.domain.link_mask[cell as usize];
        let normal: Vec3 = spec.normal;
        let v: Vec3 = spec.velocity;
        let sane: bool = is_finite32(normal.x) && is_finite32(normal.y) && is_finite32(normal.z);
        proof {
            assert(normal.axis(0) == normal.x && normal.axis(1) == normal.y && normal.axis(2)
                == normal.z);
        }
        let x: bool = sane && equal32(normal.x, 0) && ((mask >> 1u32) & 1 == 1 || (mask >> 2u32) & 1
            == 1);
        let y: bool = sane && equal32(normal.y, 0) && ((mask >> 3u32) & 1 == 1 || (mask >> 4u32) & 1
            == 1);
        let z: bool = sane && equal32(normal.z, 0) && ((mask >> 5u32) & 1 == 1 || (mask >> 6u32) & 1
            == 1);
        if !x && !y && !z {
            v
        } else if !is_finite32(v.x) || !is_finite32(v.y) || !is_finite32(v.z) {
            Vec3 { x: QUIET_NAN, y: QUIET_NAN, z: QUIET_NAN }
        } else {
            Vec3 {
                x: if x { 0 } else { v.x },
                y: if y { 0 } else { v.y },
                z: if z { 0 } else { v.z },
            }
        }
    }

    /// Is link `i` at padded cell `cc` a genuine outflow link?
    pub open spec fn outflow_link(&self, cc: UVec3, i: int, against: bool) -> bool {
        let n = self.cfg.outlet_normal;
        let zero = eq32(n.x, 0) && eq32(n.y, 0) && eq32(n.z, 0);
        zero || (against && forall|a: int|
            #![trigger n.axis(a)]
            0 <= a < 3 && !lt32(0x3f00_0000, n.axis(a) % 0x8000_0000) ==> {
                let up = cc.axis(a) - velocity(i).axis(a);
                self.domain.offset.axis(a) <= up < self.domain.offset.axis(a)
                    + self.domain.interior.axis(a)
            })
    }

    /// Is link `i` at padded cell `cc` a genuine outflow link? `against` says
    /// whether the link's velocity points against the outlet normal.
    ///
    /// The direction must point back into the domain against the outlet normal,
    /// *and* the upstream cell must leave the domain only along the normal axis.
    /// The second condition is what keeps the corner where the outlet plane
    /// meets a side wall from turning that wall into a pressure boundary.
    pub fn is_outflow_link(&self, cc: UVec3, i: usize, against: bool) -> (r: bool)
        requires
            self.wf(),
            in_grid(self.domain.padded, cc),
            i < self.cfg.set.count(),
        ensures
            r == self.outflow_link(cc, i as int, against),
    {
        let n: Vec3 = self.cfg.outlet_normal;
        if equal32(n.x, 0) && equal32(n.y, 0) && equal32(n.z, 0) {
            return true;
        }
        if !against {
            return false;
        }
        proof {
            if i > 0 {
                opposites_reverse(self.cfg.set, i as int);
            }
        }
        let c: IVec3 = direction(i);
        let mut a: usize = 0;
        while a < 3
            invariant
                self.wf(),
                in_grid(self.domain.padded, cc),
                i < self.cfg.set.count(),
                n == self.cfg.outlet_normal,
                !(eq32(n.x, 0) && eq32(n.y, 0) && eq32(n.z, 0)),
                against,
                c == velocity(i as int),
                -1 <= c.x <= 1,
                -1 <= c.y <= 1,
                -1 <= c.z <= 1,
                a <= 3,
                forall|b: int|
                    #![trigger n.axis(b)]
                    0 <= b < a && !lt32(0x3f00_0000, n.axis(b) % 0x8000_0000) ==> {
                        let up = cc.axis(b) - velocity(i as int).axis(b);
                        self.domain.offset.axis(b) <= up < self.domain.offset.axis(b)
                            + self.domain.interior.axis(b)
                    },
            decreases 3 - a,
        {
            // The normal axis may be outside.
            if !less32(0x3f00_0000, n.get(a) % 0x8000_0000) {
                let up: i64 = cc.get(a) as i64 - c.get(a) as i64;
                let lo: i64 = self.domain.offset.get(a) as i64;
                let hi: i64 = lo + self.domain.interior.get(a) as i64;
                if up < lo || up >= hi {
                    assert(!lt32(0x3f00_0000, n.axis(a as int) % 0x8000_0000));
                    return false;
                }
            }
            a += 1;
        }
        true
    }

    /// Whether `links` marks the links of a cell that anti-bounce-back replaces: those
    /// that end on a solid cell and are genuine outflow links.
    pub open spec fn replaced(&self, cell: int, against: Seq<bool>, links: Seq<bool>) -> bool {
        &&& links.len() == self.cfg.set.count()
        &&& forall|i: int|
            0 <= i < links.len() ==> (#[trigger] links[i] <==> i > 0 && mask_bit(
                self.domain.link_mask@[cell],
                i,
            ) && self.outflow_link(cell_at(self.domain.padded, cell), i, against[i]))
    }

    /// Which links of a cell anti-bounce-back replaces: those that end on a
    /// solid cell and are genuine outflow links. `against[i]` says whether
    /// direction `i` points against the outlet normal.
    pub fn anti_bounce_back(&self, cell: u64, against: &Vec<bool>) -> (links: Vec<bool>)
        requires
            self.wf(),
            cell < self.domain.padded.volume(),
            against@.len() == self.cfg.set.count(),
        ensures
            self.replaced(cell as int, against@, links@),
    {
        let q: usize = self.cfg.set.q();
        let mask: u32 = self.domain.link_mask[cell as usize];
        let cc: UVec3 = self.domain.coords(cell as u32);
        let mut links: Vec<bool> = Vec::new();
        let mut i: usize = 0;
        while i < q
            invariant
                self.wf(),
                cell < self.domain.padded.volume(),
                q == self.cfg.set.count(),
                against@.len() == q,
                mask == self.domain.link_mask@[cell as int],
                cc == cell_at(self.domain.padded, cell as int),
                in_grid(self.domain.padded, cc),
                i <= q,
                links@.len() == i,
                forall|k: int|
                    0 <= k < links@.len() ==> (#[trigger] links@[k] <==> k > 0 && mask_bit(
                        self.domain.link_mask@[cell as int],
                        k,
                    ) && self.outflow_link(cc, k, against@[k])),
            decreases q - i,
        {
            let blocked: bool = i > 0 && (mask >> (i as u32)) & 1 == 1;
            let replaced: bool = blocked && self.is_outflow_link(cc, i, against[i]);
            links.push(replaced);
            i += 1;
        }
        links
    }

    /// Write `values`, the populations of every cell in turn, as the store half
    /// of a step of the given parity.
    fn store_all(&mut self, values: &Vec<u32>, odd: bool)
        requires
            old(self).wf(),
            values@.len() == old(self).populations().len(),
        ensures
            final(self).wf(),
            final(self).domain == old(self).domain,
            final(self).cfg == old(self).cfg,
            final(self).taken() == old(self).taken(),
            final(self).holds(values@, odd),
            forall|k: int|
                0 <= k < old(self).populations().len() && !old(self).owned(k, odd)
                    ==> #[trigger] final(self).populations()[k] == old(self).populations()[k],
    {
        let q: usize = self.cfg.set.q();
        let cells: u64 = self.domain.padded_cell_count();
        let ep: EsotericPull = EsotericPull::new(cells, q);
        let ghost before = *self;
        let ghost padded = self.domain.padded;
        let mut cell: u64 = 0;
        while cell < cells
            invariant
                self.wf(),
                self.domain == before.domain,
                self.cfg == before.cfg,
                self.steps == before.steps,
                padded == self.domain.padded,
                cells == padded.volume(),
                q == self.cfg.set.count(),
                ep == self.addressing(),
                values@.len() == self.populations().len(),
                cell <= cells,
                self.stored_until(&before, values@, odd, cell as int, 0),
            decreases cells - cell,
        {
            if flags::is_fluid(self.domain.flags[cell as usize]) {
                let at: UVec3 = self.domain.coords(cell as u32);
                let mut i: usize = 0;
                while i < q
                    invariant
                        at == cell_at(padded, cell as int),
                        in_grid(padded, at),
                        self.wf(),
                        self.domain == before.domain,
                        self.cfg == before.cfg,
                        self.steps == before.steps,
                        padded == self.domain.padded,
                        cells == padded.volume(),
                        q == self.cfg.set.count(),
                        ep == self.addressing(),
                        values@.len() == self.populations().len(),
                        cell < cells,
                        i <= q,
                        self.flows(cell as int),
                        self.stored_until(&before, values@, odd, cell as int, i as int),
                    decreases q - i,
                {
                    proof {
                        let c = cell as int;
                        let n = cells as int;
                        let w = q as int;
                        assert(0 <= c * w && c * w + w <= n * w) by (nonlinear_arith)
                            requires
                                0 <= c < n,
                                w >= 0,
                        ;
                    }
                    let v: u32 = self.quantise(values[(cell as usize) * q + i]);
                    let nb: u64 = self.neighbour_index(cell, at, i);
                    let slot: u64 = ep.store_slot(cell, i, odd, nb);
                    let ghost prev = *self;
                    self.g.set(slot as usize, v);
                    proof {
                        lemma_store_one(
                            prev,
                            *self,
                            before,
                            values@,
                            odd,
                            cell as int,
                            i as int,
                            v,
                        );
                    }
                    i += 1;
                }
                proof {
                    lemma_row_done(*self, before, values@, odd, cell as int);
                }
            } else {
                proof {
                    lemma_row_done(*self, before, values@, odd, cell as int);
                }
            }
            cell += 1;
        }
    }

    /// Whether the stores of all cells below `cell`, and of the first `i`
    /// directions of `cell`, have been made, and nothing else has changed.
    spec fn stored_until(
        &self,
        before: &ReferenceLbm,
        values: Seq<u32>,
        odd: bool,
        cell: int,
        i: int,
    ) -> bool {
        &&& forall|c: int, k: int|
            #![trigger store_index(self.addressing(), self.domain.padded, c, k, odd)]
            0 <= c < self.domain.padded.volume() && 0 <= k < self.cfg.set.count() && self.flows(c)
                && (c < cell || (c == cell && k < i)) ==> stores_as(
                self.cfg.precision,
                values[c * self.cfg.set.count() + k],
                self.g@[store_index(self.addressing(), self.domain.padded, c, k, odd)],
            )
        &&& forall|s: int|
            0 <= s < self.g@.len() && !before.owned(s, odd) ==> #[trigger] self.g@[s]
                == before.g@[s]
    }

    /// Overwrite the whole field with the populations given cell by cell, as the
    /// state the step to come starts from.
    ///
    /// The write goes through the stores of the step *before* the current one,
    /// which is the only choice that leaves wall links populated; see the module
    /// comment. Everything no fluid cell will read is zeroed.
    pub fn write_field(&mut self, values: &Vec<u32>)
        requires
            old(self).wf(),
            values@.len() == old(self).populations().len(),
        ensures
            final(self).wf(),
            final(self).domain == old(self).domain,
            final(self).cfg == old(self).cfg,
            final(self).taken() == old(self).taken(),
            final(self).holds(values@, !final(self).odd()),
            forall|k: int|
                0 <= k < final(self).populations().len() && !final(self).owned(
                    k,
                    !final(self).odd(),
                ) ==> #[trigger] final(self).populations()[k] == 0,
    {
        let n: usize = self.g.len();
        let mut k: usize = 0;
        while k < n
            invariant
                self.wf(),
                self.domain == old(self).domain,
                self.cfg == old(self).cfg,
                self.steps == old(self).steps,
                n == self.g@.len(),
                k <= n,
                n == old(self).g@.len(),
                forall|j: int| 0 <= j < k ==> self.g@[j] == 0,
            decreases n - k,
        {
            self.g.set(k, 0);
            k += 1;
        }
        let ghost zeroed = *self;
        let parity: bool = !self.odd_step();
        self.store_all(values, parity);
        proof {
            assert forall|k: int|
                0 <= k < self.populations().len() && !self.owned(k, parity) implies #[trigger] self.populations()[k]
                == 0 by {
                assert(!zeroed.owned(k, parity)) by {
                    if zeroed.owned(k, parity) {
                        let (c, i) = choose|c: int, i: int|
                            #![trigger store_index(zeroed.addressing(), zeroed.domain.padded, c, i, parity)]
                            0 <= c < zeroed.domain.padded.volume() && 0 <= i
                                < zeroed.cfg.set.count() && zeroed.flows(c) && k == store_index(
                                zeroed.addressing(),
                                zeroed.domain.padded,
                                c,
                                i,
                                parity,
                            );
                        assert(k == store_index(
                            self.addressing(),
                            self.domain.padded,
                            c,
                            i,
                            parity,
                        ));
                    }
                }
            }
        }
    }

    /// Finish one step: store the populations after collision, given cell by
    /// cell.
    pub fn finish_step(&mut self, values: &Vec<u32>)
        requires
            old(self).wf(),
            old(self).taken() < u64::MAX,
            values@.len() == old(self).populations().len(),
        ensures
            final(self).wf(),
            final(self).domain == old(self).domain,
            final(self).cfg == old(self).cfg,
            final(self).taken() == old(self).taken() + 1,
            final(self).holds(values@, old(self).odd()),
            forall|k: int|
                0 <= k < old(self).populations().len() && !old(self).owned(k, old(self).odd())
                    ==> #[trigger] final(self).populations()[k] == old(self).populations()[k],
    {
        let odd: bool = self.odd_step();
        self.store_all(values, odd);
        let ghost stored = *self;
        self.steps = self.steps + 1;
        proof {
            assert(self.populations() == stored.populations());
            assert forall|cell: int, i: int|
                #![trigger store_index(self.addressing(), self.domain.padded, cell, i, odd)]
                0 <= cell < self.domain.padded.volume() && 0 <= i < self.cfg.set.count()
                    && self.flows(cell) implies stores_as(
                self.cfg.precision,
                values@[cell * self.cfg.set.count() + i],
                self.populations()[store_index(
                    self.addressing(),
                    self.domain.padded,
                    cell,
                    i,
                    odd,
                )],
            ) by {
                assert(store_index(stored.addressing(), stored.domain.padded, cell, i, odd)
                    == store_index(self.addressing(), self.domain.padded, cell, i, odd));
            }
        }
    }
}

/// Where the population of direction `i` at a cell stands in a list given cell by
/// cell.
pub open spec fn value_index(q: int, cell: int, i: int) -> int {
    cell * q + i
}

proof fn lemma_value_index(q: int, cell: int, i: int, c: int, k: int)
    requires
        0 <= i < q,
        0 <= k < q,
        0 <= c < cell,
    ensures
        0 <= value_index(q, c, k) < cell * q <= value_index(q, cell, i),
{
    assert(c * q + k < cell * q) by (nonlinear_arith)
        requires
            0 <= k < q,
            c + 1 <= cell,
    ;
    assert(0 <= c * q) by (nonlinear_arith)
        requires
            0 <= c,
            0 < q,
    ;
}

impl ReferenceLbm {
    /// The interior coordinates of a padded cell.
    pub open spec fn interior_of(&self, cell: int) -> UVec3 {
        let c = cell_at(self.domain.padded, cell);
        UVec3 {
            x: (c.x - self.domain.offset.x) as u32,
            y: (c.y - self.domain.offset.y) as u32,
            z: (c.z - self.domain.offset.z) as u32,
        }
    }

    /// Whether `values` hold, for a cell, the equilibrium at a state.
    pub open spec fn filled<E: Fn(CellState) -> Vec<u32>>(
        &self,
        equilibrium: E,
        state: CellState,
        cell: int,
        values: Seq<u32>,
    ) -> bool {
        exists|r: Vec<u32>|
            {
                &&& #[trigger] equilibrium.ensures((state,), r)
                &&& forall|i: int|
                    0 <= i < self.cfg.set.count() ==> r@[i] == values[#[trigger] value_index(
                        self.cfg.set.count(),
                        cell,
                        i,
                    )]
            }
    }

    /// Whether `values` hold, for every fluid cell, the equilibrium at its state.
    pub open spec fn initialised<E: Fn(CellState) -> Vec<u32>>(
        &self,
        equilibrium: E,
        states: Seq<CellState>,
        values: Seq<u32>,
    ) -> bool {
        forall|cell: int|
            0 <= cell < self.domain.padded.volume() && #[trigger] self.flows(cell)
                ==> self.filled(equilibrium, states[cell], cell, values)
    }

    /// Whether `states` hold what `state` gives for every fluid cell, by its *interior*
    /// coordinates: the density, that less one, and the velocity.
    pub open spec fn described<F: Fn(UVec3) -> (u32, Vec3)>(
        &self,
        state: F,
        states: Seq<CellState>,
    ) -> bool {
        forall|cell: int|
            0 <= cell < self.domain.padded.volume() && #[trigger] self.flows(cell)
                ==> state.ensures(
                (self.interior_of(cell),),
                (states[cell].rho, states[cell].u),
            ) && is_sum(states[cell].rho, MINUS_ONE, states[cell].drho)
    }

    /// The state every fluid cell starts at: a density of one, moving at the configured
    /// initial velocity.
    pub open spec fn starting(&self) -> CellState {
        CellState { drho: 0, rho: ONE, u: self.cfg.initial_velocity }
    }

    /// Whether the populations are those of a fresh start: the equilibrium at the
    /// starting state, stored as by a step before the first, and zero elsewhere.
    pub open spec fn fresh<E: Fn(CellState) -> Vec<u32>>(&self, equilibrium: E) -> bool {
        &&& self.taken() == 0
        &&& exists|values: Seq<u32>| #[trigger]
            self.holds(values, true) && forall|cell: int|
                0 <= cell < self.domain.padded.volume() && #[trigger] self.flows(cell)
                    ==> self.filled(equilibrium, self.starting(), cell, values)
        &&& forall|k: int|
            0 <= k < self.populations().len() && !self.owned(k, true)
                ==> #[trigger] self.populations()[k] == 0
    }

    /// The equilibria at the states of the cells, cell by cell, zero where nothing
    /// flows.
    fn initial_values<E: Fn(CellState) -> Vec<u32>>(
        &self,
        states: &Vec<CellState>,
        equilibrium: &E,
    ) -> (values: Vec<u32>)
        requires
            self.wf(),
            states@.len() == self.domain.padded.volume(),
            forall|s: CellState| #[trigger] equilibrium.requires((s,)),
            forall|s: CellState, r: Vec<u32>| #[trigger]
                equilibrium.ensures((s,), r) ==> r@.len() == self.cfg.set.count(),
        ensures
            values@.len() == self.populations().len(),
            self.initialised(*equilibrium, states@, values@),
    {
        let q: usize = self.cfg.set.q();
        let cells: u64 = self.domain.padded_cell_count();
        let mut values: Vec<u32> = Vec::new();
        let mut cell: u64 = 0;
        while cell < cells
            invariant
                self.wf(),
                states@.len() == self.domain.padded.volume(),
                forall|s: CellState| #[trigger] equilibrium.requires((s,)),
                forall|s: CellState, r: Vec<u32>| #[trigger]
                    equilibrium.ensures((s,), r) ==> r@.len() == self.cfg.set.count(),
                q == self.cfg.set.count(),
                cells == self.domain.padded.volume(),
                cell <= cells,
                values@.len() == cell * q,
                forall|c: int|
                    0 <= c < cell && #[trigger] self.flows(c) ==> self.filled(
                        *equilibrium,
                        states@[c],
                        c,
                        values@,
                    ),
            decreases cells - cell,
        {
            let ghost before = values@;
            let mut r: Vec<u32> = if flags::is_fluid(self.domain.flags[cell as usize]) {
                equilibrium(states[cell as usize])
            } else {
                vec![0u32; q]
            };
            let ghost post = r;
            assert(r@.len() == q);
            values.append(&mut r);
            proof {
                assert(values@ =~= before + post@);
                assert((cell + 1) * q == cell * q + q) by (nonlinear_arith);
                assert forall|c: int| 0 <= c < cell + 1 && #[trigger] self.flows(
                    c,
                ) implies self.filled(*equilibrium, states@[c], c, values@) by {
                    if c < cell {
                        assert(self.filled(*equilibrium, states@[c], c, before));
                        let r = choose|r: Vec<u32>|
                            {
                                &&& #[trigger] equilibrium.ensures((states@[c],), r)
                                &&& forall|i: int|
                                    0 <= i < self.cfg.set.count() ==> r@[i]
                                        == before[#[trigger] value_index(
                                        self.cfg.set.count(),
                                        c,
                                        i,
                                    )]
                            };
                        assert forall|i: int| 0 <= i < self.cfg.set.count() implies r@[i]
                            == values@[#[trigger] value_index(self.cfg.set.count(), c, i)] by {
                            lemma_value_index(q as int, cell as int, 0, c, i);
                        }
                    } else {
                        assert(equilibrium.ensures((states@[c],), post));
                        assert forall|i: int| 0 <= i < self.cfg.set.count() implies post@[i]
                            == values@[#[trigger] value_index(self.cfg.set.count(), c, i)] by {}
                    }
                }
            }
            cell += 1;
        }
        values
    }

    /// What `state` gives for every fluid cell.
    fn initial_states<F: Fn(UVec3) -> (u32, Vec3)>(&self, state: &F) -> (states: Vec<CellState>)
        requires
            self.wf(),
            self.domain.halo_is_solid(),
            forall|c: UVec3| #[trigger] state.requires((c,)),
        ensures
            states@.len() == self.domain.padded.volume(),
            self.described(*state, states@),
    {
        let cells: u64 = self.domain.padded_cell_count();
        let mut states: Vec<CellState> = Vec::new();
        let mut cell: u64 = 0;
        while cell < cells
            invariant
                self.wf(),
                self.domain.halo_is_solid(),
                forall|c: UVec3| #[trigger] state.requires((c,)),
                cells == self.domain.padded.volume(),
                cell <= cells,
                states@.len() == cell,
                forall|c: int|
                    0 <= c < cell && #[trigger] self.flows(c) ==> state.ensures(
                        (self.interior_of(c),),
                        (states@[c].rho, states@[c].u),
                    ) && is_sum(states@[c].rho, MINUS_ONE, states@[c].drho),
            decreases cells - cell,
        {
            let c: UVec3 = self.domain.coords(cell as u32);
            let o: UVec3 = self.domain.offset;
            let s: CellState = if flags::is_fluid(self.domain.flags[cell as usize]) {
                proof {
                    if !self.domain.is_inside(c) {
                        assert(self.domain.flag_at(c) == flags::SOLID);
                        assert(1u8 & 1u8 != 0) by (bit_vector);
                    }
                }
                let at: UVec3 = UVec3::new(c.x - o.x, c.y - o.y, c.z - o.z);
                let m: (u32, Vec3) = state(at);
                CellState { drho: sum(m.0, MINUS_ONE), rho: m.0, u: m.1 }
            } else {
                CellState { drho: 0, rho: 0, u: Vec3 { x: 0, y: 0, z: 0 } }
            };
            states.push(s);
            cell += 1;
        }
        states
    }

    /// A solver on a domain, every fluid cell at the equilibrium of a density of one and
    /// the configured initial velocity.
    pub fn new<E: Fn(CellState) -> Vec<u32>>(
        domain: PaddedDomain,
        cfg: SolverConfig,
        equilibrium: &E,
    ) -> (lbm: Self)
        requires
            domain.shaped(),
            domain.masked(cfg.set),
            domain.padded.volume() * cfg.set.count() <= usize::MAX,
            forall|s: CellState| #[trigger] equilibrium.requires((s,)),
            forall|s: CellState, r: Vec<u32>| #[trigger]
                equilibrium.ensures((s,), r) ==> r@.len() == cfg.set.count(),
        ensures
            lbm.wf(),
            lbm.domain == domain,
            lbm.cfg == cfg,
            lbm.fresh(*equilibrium),
    {
        let q: usize = cfg.set.q();
        let cells: usize = domain.padded_cell_count() as usize;
        proof {
            let n = domain.padded.volume();
            assert(n <= n * q) by (nonlinear_arith)
                requires
                    n >= 0,
                    q >= 1,
            ;
        }
        let g: Vec<u32> = vec![0u32; cells * q];
        let mut lbm: ReferenceLbm = ReferenceLbm { domain, cfg, g, steps: 0 };
        lbm.reset(equilibrium);
        lbm
    }

    /// Overwrite the whole field with equilibrium at the density and velocity that
    /// `state` gives for each fluid cell, by its *interior* coordinates.
    ///
    /// The write is the store half of the step *before* the current one, which is the
    /// only choice that leaves wall links populated.
    pub fn set_equilibrium<F: Fn(UVec3) -> (u32, Vec3), E: Fn(CellState) -> Vec<u32>>(
        &mut self,
        state: &F,
        equilibrium: &E,
    )
        requires
            old(self).wf(),
            old(self).domain.halo_is_solid(),
            forall|c: UVec3| #[trigger] state.requires((c,)),
            forall|s: CellState| #[trigger] equilibrium.requires((s,)),
            forall|s: CellState, r: Vec<u32>| #[trigger]
                equilibrium.ensures((s,), r) ==> r@.len() == old(self).cfg.set.count(),
        ensures
            final(self).wf(),
            final(self).domain == old(self).domain,
            final(self).cfg == old(self).cfg,
            final(self).taken() == old(self).taken(),
            exists|states: Seq<CellState>, values: Seq<u32>| #[trigger]
                old(self).described(*state, states) && #[trigger] old(self).initialised(
                    *equilibrium,
                    states,
                    values,
                ) && final(self).holds(values, !final(self).odd()),
            forall|k: int|
                0 <= k < final(self).populations().len() && !final(self).owned(
                    k,
                    !final(self).odd(),
                ) ==> #[trigger] final(self).populations()[k] == 0,
    {
        let states: Vec<CellState> = self.initial_states(state);
        let values: Vec<u32> = self.initial_values(&states, equilibrium);
        assert(self.described(*state, states@));
        assert(self.initialised(*equilibrium, states@, values@));
        self.write_field(&values);
    }

    /// Reset to equilibrium at a density of one and the configured initial velocity.
    ///
    /// Writes as the store half of a virtual step before the first, which is exactly
    /// what step 0's loads expect, for ordinary links *and* for wall links.
    pub fn reset<E: Fn(CellState) -> Vec<u32>>(&mut self, equilibrium: &E)
        requires
            old(self).wf(),
            forall|s: CellState| #[trigger] equilibrium.requires((s,)),
            forall|s: CellState, r: Vec<u32>| #[trigger]
                equilibrium.ensures((s,), r) ==> r@.len() == old(self).cfg.set.count(),
        ensures
            final(self).wf(),
            final(self).domain == old(self).domain,
            final(self).cfg == old(self).cfg,
            final(self).fresh(*equilibrium),
    {
        let start: CellState = CellState { drho: 0, rho: ONE, u: self.cfg.initial_velocity };
        let cells: usize = self.domain.padded_cell_count() as usize;
        let mut states: Vec<CellState> = Vec::new();
        while states.len() < cells
            invariant
                states@.len() <= cells,
                forall|c: int| 0 <= c < states@.len() ==> #[trigger] states@[c] == start,
            decreases cells - states@.len(),
        {
            states.push(start);
        }
        let values: Vec<u32> = self.initial_values(&states, equilibrium);
        let ghost before = *self;
        self.steps = 0;
        self.write_field(&values);
        proof {
            assert(self.holds(values@, true));
            assert forall|cell: int|
                0 <= cell < self.domain.padded.volume() && #[trigger] self.flows(
                    cell,
                ) implies self.filled(*equilibrium, self.starting(), cell, values@) by {
                assert(before.flows(cell));
                assert(before.filled(*equilibrium, states@[cell], cell, values@));
                let r = choose|r: Vec<u32>|
                    {
                        &&& #[trigger] equilibrium.ensures((states@[cell],), r)
                        &&& forall|i: int|
                            0 <= i < before.cfg.set.count() ==> r@[i]
                                == values@[#[trigger] value_index(
                                before.cfg.set.count(),
                                cell,
                                i,
                            )]
                    };
                assert(equilibrium.ensures((self.starting(),), r));
            }
        }
    }

    /// Whether `g` is what a cell loads.
    pub open spec fn loads(&self, cell: int, g: Vec<u32>) -> bool {
        &&& g@.len() == self.cfg.set.count()
        &&& forall|i: int| 0 <= i < g@.len() ==> #[trigger] g@[i] == self.loaded(cell, i)
    }

    /// Whether `values` hold, for a cell, what the kernel makes of what the cell loads.
    pub open spec fn collided<
        M: Fn(&Vec<u32>) -> Moments,
        R: Fn(&Vec<u32>, &Vec<bool>, Moments) -> Vec<u32>,
        P: Fn(u32) -> u32,
        V: Fn(Moments, u32) -> Vec3,
        D: Fn(&Vec<u32>, Vec3, Vec3) -> u32,
        E: Fn(CellState) -> Vec<u32>,
        B: Fn(&Vec<u32>, &Vec<u32>, u32) -> Vec<u32>,
        L: Fn(Pull) -> u32,
        N: Fn(&Vec<u32>, &Vec<u32>) -> u32,
        T: Fn(u32, u32, u32, u32) -> u32,
        U: Fn(u32) -> u32,
        O: Fn(u32, u32) -> u32,
        S: Fn(u32, u32, u32) -> u32,
        Q: Fn(u32, u32, u32, u32, u32, u32) -> (u32, u32),
        H: Fn(&Vec<u32>, &Vec<u32>, u32) -> Vec<u32>,
        G: Fn(usize, Vec3, Vec3) -> u32,
        X: Fn(u32, u32, u32) -> u32,
        W: Fn(u32, u32, u32, u32, u32, u32) -> (u32, u32),
    >(
        &self,
        kernel: &Kernel<M, R, P, V, D, E, B, L, N, T, U, O, S, Q, H, G, X, W>,
        cell: int,
        values: Seq<u32>,
    ) -> bool {
        exists|t: Passage|
            {
                &&& #[trigger] kernel.passes(self, cell, self.plan_of(cell)->Some_0, t)
                &&& self.loads(cell, t.loaded)
                &&& forall|i: int|
                    0 <= i < self.cfg.set.count() ==> t.out@[i] == values[#[trigger] value_index(
                        self.cfg.set.count(),
                        cell,
                        i,
                    )]
            }
    }

    fn collided_values<
        M: Fn(&Vec<u32>) -> Moments,
        R: Fn(&Vec<u32>, &Vec<bool>, Moments) -> Vec<u32>,
        P: Fn(u32) -> u32,
        V: Fn(Moments, u32) -> Vec3,
        D: Fn(&Vec<u32>, Vec3, Vec3) -> u32,
        E: Fn(CellState) -> Vec<u32>,
        B: Fn(&Vec<u32>, &Vec<u32>, u32) -> Vec<u32>,
        L: Fn(Pull) -> u32,
        N: Fn(&Vec<u32>, &Vec<u32>) -> u32,
        T: Fn(u32, u32, u32, u32) -> u32,
        U: Fn(u32) -> u32,
        O: Fn(u32, u32) -> u32,
        S: Fn(u32, u32, u32) -> u32,
        Q: Fn(u32, u32, u32, u32, u32, u32) -> (u32, u32),
        H: Fn(&Vec<u32>, &Vec<u32>, u32) -> Vec<u32>,
        G: Fn(usize, Vec3, Vec3) -> u32,
        X: Fn(u32, u32, u32) -> u32,
        W: Fn(u32, u32, u32, u32, u32, u32) -> (u32, u32),
    >(&self, kernel: &Kernel<M, R, P, V, D, E, B, L, N, T, U, O, S, Q, H, G, X, W>) -> (values: Vec<u32>)
        requires
            self.wf(),
            kernel.fits(self.cfg.set.count() as int),
            self.cfg.capped(),
        ensures
            values@.len() == self.populations().len(),
            forall|cell: int|
                0 <= cell < self.domain.padded.volume() && #[trigger] self.flows(cell)
                    ==> self.collided(kernel, cell, values@),
    {
        let q: usize = self.cfg.set.q();
        let cells: u64 = self.domain.padded_cell_count();
        let mut values: Vec<u32> = Vec::new();
        let mut cell: u64 = 0;
        while cell < cells
            invariant
                self.wf(),
                kernel.fits(self.cfg.set.count() as int),
                self.cfg.capped(),
                q == self.cfg.set.count(),
                cells == self.domain.padded.volume(),
                cell <= cells,
                values@.len() == cell * q,
                forall|c: int|
                    0 <= c < cell && #[trigger] self.flows(c) ==> self.collided(
                        kernel,
                        c,
                        values@,
                    ),
            decreases cells - cell,
        {
            let ghost before = values@;
            let mut r: Vec<u32> = match self.plan(cell) {
                Some(plan) => {
                    let g: Vec<u32> = self.load(cell);
                    assert(self.loads(cell as int, g));
                    kernel.relax(self, cell, plan, g)
                },
                None => vec![0u32; q],
            };
            let ghost post = r;
            assert(r@.len() == q);
            values.append(&mut r);
            proof {
                assert(values@ =~= before + post@);
                assert((cell + 1) * q == cell * q + q) by (nonlinear_arith);
                assert forall|c: int| 0 <= c < cell + 1 && #[trigger] self.flows(c) implies self.collided(
                    kernel,
                    c,
                    values@,
                ) by {
                    if c < cell {
                        assert(self.collided(kernel, c, before));
                        let t = choose|t: Passage|
                            {
                                &&& #[trigger] kernel.passes(
                                    self,
                                    c,
                                    self.plan_of(c)->Some_0,
                                    t,
                                )
                                &&& self.loads(c, t.loaded)
                                &&& forall|i: int|
                                    0 <= i < self.cfg.set.count() ==> t.out@[i]
                                        == before[#[trigger] value_index(
                                        self.cfg.set.count(),
                                        c,
                                        i,
                                    )]
                            };
                        assert forall|i: int| 0 <= i < self.cfg.set.count() implies t.out@[i]
                            == values@[#[trigger] value_index(self.cfg.set.count(), c, i)] by {
                            lemma_value_index(q as int, cell as int, 0, c, i);
                        }
                    } else {
                        let plan = self.plan_of(c)->Some_0;
                        let t = choose|t: Passage| #[trigger]
                            kernel.passes(self, c, plan, t) && self.loads(c, t.loaded) && t.out
                                == post;
                        assert forall|i: int| 0 <= i < self.cfg.set.count() implies t.out@[i]
                            == values@[#[trigger] value_index(self.cfg.set.count(), c, i)] by {}
                    }
                }
            }
            cell += 1;
        }
        values
    }

    /// Whether `after` is what a step makes of this: every cell that flows holds what the
    /// kernel makes of what it loaded, and slots that no such cell owns are unchanged.
    pub open spec fn steps_to<
        M: Fn(&Vec<u32>) -> Moments,
        R: Fn(&Vec<u32>, &Vec<bool>, Moments) -> Vec<u32>,
        P: Fn(u32) -> u32,
        V: Fn(Moments, u32) -> Vec3,
        D: Fn(&Vec<u32>, Vec3, Vec3) -> u32,
        E: Fn(CellState) -> Vec<u32>,
        B: Fn(&Vec<u32>, &Vec<u32>, u32) -> Vec<u32>,
        L: Fn(Pull) -> u32,
        N: Fn(&Vec<u32>, &Vec<u32>) -> u32,
        T: Fn(u32, u32, u32, u32) -> u32,
        U: Fn(u32) -> u32,
        O: Fn(u32, u32) -> u32,
        S: Fn(u32, u32, u32) -> u32,
        Q: Fn(u32, u32, u32, u32, u32, u32) -> (u32, u32),
        H: Fn(&Vec<u32>, &Vec<u32>, u32) -> Vec<u32>,
        G: Fn(usize, Vec3, Vec3) -> u32,
        X: Fn(u32, u32, u32) -> u32,
        W: Fn(u32, u32, u32, u32, u32, u32) -> (u32, u32),
    >(&self, kernel: &Kernel<M, R, P, V, D, E, B, L, N, T, U, O, S, Q, H, G, X, W>, after: &ReferenceLbm) -> bool {
        &&& after.domain == self.domain
        &&& after.cfg == self.cfg
        &&& after.taken() == self.taken() + 1
        &&& exists|values: Seq<u32>| #[trigger]
            after.holds(values, self.odd()) && forall|cell: int|
                0 <= cell < self.domain.padded.volume() && #[trigger] self.flows(cell)
                    ==> self.collided(kernel, cell, values)
        &&& forall|k: int|
            0 <= k < self.populations().len() && !self.owned(k, self.odd())
                ==> #[trigger] after.populations()[k] == self.populations()[k]
    }

    /// Advance one step: every cell that flows loads its populations, the kernel makes
    /// the new ones of them by the cell's plan, and the cell stores those.
    ///
    /// Esoteric Pull is in place: every slot is owned by exactly one cell for the
    /// whole step, so one buffer with no ordering constraints is enough.
    pub fn step<
        M: Fn(&Vec<u32>) -> Moments,
        R: Fn(&Vec<u32>, &Vec<bool>, Moments) -> Vec<u32>,
        P: Fn(u32) -> u32,
        V: Fn(Moments, u32) -> Vec3,
        D: Fn(&Vec<u32>, Vec3, Vec3) -> u32,
        E: Fn(CellState) -> Vec<u32>,
        B: Fn(&Vec<u32>, &Vec<u32>, u32) -> Vec<u32>,
        L: Fn(Pull) -> u32,
        N: Fn(&Vec<u32>, &Vec<u32>) -> u32,
        T: Fn(u32, u32, u32, u32) -> u32,
        U: Fn(u32) -> u32,
        O: Fn(u32, u32) -> u32,
        S: Fn(u32, u32, u32) -> u32,
        Q: Fn(u32, u32, u32, u32, u32, u32) -> (u32, u32),
        H: Fn(&Vec<u32>, &Vec<u32>, u32) -> Vec<u32>,
        G: Fn(usize, Vec3, Vec3) -> u32,
        X: Fn(u32, u32, u32) -> u32,
        W: Fn(u32, u32, u32, u32, u32, u32) -> (u32, u32),
    >(&mut self, kernel: &Kernel<M, R, P, V, D, E, B, L, N, T, U, O, S, Q, H, G, X, W>)
        requires
            old(self).wf(),
            old(self).taken() < u64::MAX,
            kernel.fits(old(self).cfg.set.count() as int),
            old(self).cfg.capped(),
        ensures
            final(self).wf(),
            old(self).steps_to(kernel, final(self)),
    {
        let values: Vec<u32> = self.collided_values(kernel);
        self.finish_step(&values);
        assert(self.holds(values@, old(self).odd()));
    }

    /// Whether `m` is the density and velocity at a padded cell: the state that an open
    /// side or an inlet imposes, and the moments of what any other fluid cell loads.
    pub open spec fn measured<
        M: Fn(&Vec<u32>) -> Moments,
        R: Fn(&Vec<u32>, &Vec<bool>, Moments) -> Vec<u32>,
        P: Fn(u32) -> u32,
        V: Fn(Moments, u32) -> Vec3,
        D: Fn(&Vec<u32>, Vec3, Vec3) -> u32,
        E: Fn(CellState) -> Vec<u32>,
        B: Fn(&Vec<u32>, &Vec<u32>, u32) -> Vec<u32>,
        L: Fn(Pull) -> u32,
        N: Fn(&Vec<u32>, &Vec<u32>) -> u32,
        T: Fn(u32, u32, u32, u32) -> u32,
        U: Fn(u32) -> u32,
        O: Fn(u32, u32) -> u32,
        S: Fn(u32, u32, u32) -> u32,
        Q: Fn(u32, u32, u32, u32, u32, u32) -> (u32, u32),
        H: Fn(&Vec<u32>, &Vec<u32>, u32) -> Vec<u32>,
        G: Fn(usize, Vec3, Vec3) -> u32,
        X: Fn(u32, u32, u32) -> u32,
        W: Fn(u32, u32, u32, u32, u32, u32) -> (u32, u32),
    >(
        &self,
        kernel: &Kernel<M, R, P, V, D, E, B, L, N, T, U, O, S, Q, H, G, X, W>,
        cell: int,
        m: Macro,
    ) -> bool {
        let kind = CellKind::kind(self.domain.flags@[cell]);
        if !self.flows(cell) {
            m == Macro { rho: ONE, u: Vec3 { x: 0, y: 0, z: 0 } }
        } else if kind == CellKind::Equilibrium {
            m == Macro { rho: self.cfg.rho_ref, u: Vec3 { x: 0, y: 0, z: 0 } }
        } else {
            exists|g: Vec<u32>, sums: Moments| {
                &&& self.loads(cell, g)
                &&& #[trigger] kernel.moments.ensures((&g,), sums)
                &&& if kind == CellKind::Inlet {
                    let spec = self.cfg.inlet((self.domain.flags@[cell] / 64) as int);
                    &&& m.u == self.imposed(cell, spec)
                    &&& exists|drho: u32| #[trigger]
                        kernel.density.ensures((drho,), m.rho) && kernel.floats(
                            spec,
                            m.u,
                            g,
                            sums,
                            drho,
                        )
                } else {
                    &&& kernel.density.ensures((sums.drho,), m.rho)
                    &&& kernel.velocity.ensures((sums, m.rho), m.u)
                }
            }
        }
    }

    /// Whether `m` is the density and velocity as they are read off the flow at a padded
    /// cell: those of [`Self::measured`] but at an inlet, where the density is that of
    /// the populations that arrived.
    pub open spec fn sampled<
        M: Fn(&Vec<u32>) -> Moments,
        R: Fn(&Vec<u32>, &Vec<bool>, Moments) -> Vec<u32>,
        P: Fn(u32) -> u32,
        V: Fn(Moments, u32) -> Vec3,
        D: Fn(&Vec<u32>, Vec3, Vec3) -> u32,
        E: Fn(CellState) -> Vec<u32>,
        B: Fn(&Vec<u32>, &Vec<u32>, u32) -> Vec<u32>,
        L: Fn(Pull) -> u32,
        N: Fn(&Vec<u32>, &Vec<u32>) -> u32,
        T: Fn(u32, u32, u32, u32) -> u32,
        U: Fn(u32) -> u32,
        O: Fn(u32, u32) -> u32,
        S: Fn(u32, u32, u32) -> u32,
        Q: Fn(u32, u32, u32, u32, u32, u32) -> (u32, u32),
        H: Fn(&Vec<u32>, &Vec<u32>, u32) -> Vec<u32>,
        G: Fn(usize, Vec3, Vec3) -> u32,
        X: Fn(u32, u32, u32) -> u32,
        W: Fn(u32, u32, u32, u32, u32, u32) -> (u32, u32),
    >(
        &self,
        kernel: &Kernel<M, R, P, V, D, E, B, L, N, T, U, O, S, Q, H, G, X, W>,
        cell: int,
        m: Macro,
    ) -> bool {
        if self.flows(cell) && CellKind::kind(self.domain.flags@[cell]) == CellKind::Inlet {
            &&& m.u == self.imposed(
                cell,
                self.cfg.inlet((self.domain.flags@[cell] / 64) as int),
            )
            &&& exists|g: Vec<u32>, sums: Moments| {
                &&& self.loads(cell, g)
                &&& #[trigger] kernel.moments.ensures((&g,), sums)
                &&& kernel.density.ensures((sums.drho,), m.rho)
            }
        } else {
            self.measured(kernel, cell, m)
        }
    }

    /// Density and velocity at one *interior* cell, as they are read off the flow.
    ///
    /// At an inlet that is the velocity it imposes at the density that arrived there,
    /// which is what tells how the flow leans on it: it is this density that a tilted
    /// inlet holds within a tenth of the reference, and the one it imposes, which
    /// [`Self::macroscopic_padded`] gives, stands above it by about the velocity through
    /// the plane. Everywhere else the two are the same.
    pub fn macroscopic<
        M: Fn(&Vec<u32>) -> Moments,
        R: Fn(&Vec<u32>, &Vec<bool>, Moments) -> Vec<u32>,
        P: Fn(u32) -> u32,
        V: Fn(Moments, u32) -> Vec3,
        D: Fn(&Vec<u32>, Vec3, Vec3) -> u32,
        E: Fn(CellState) -> Vec<u32>,
        B: Fn(&Vec<u32>, &Vec<u32>, u32) -> Vec<u32>,
        L: Fn(Pull) -> u32,
        N: Fn(&Vec<u32>, &Vec<u32>) -> u32,
        T: Fn(u32, u32, u32, u32) -> u32,
        U: Fn(u32) -> u32,
        O: Fn(u32, u32) -> u32,
        S: Fn(u32, u32, u32) -> u32,
        Q: Fn(u32, u32, u32, u32, u32, u32) -> (u32, u32),
        H: Fn(&Vec<u32>, &Vec<u32>, u32) -> Vec<u32>,
        G: Fn(usize, Vec3, Vec3) -> u32,
        X: Fn(u32, u32, u32) -> u32,
        W: Fn(u32, u32, u32, u32, u32, u32) -> (u32, u32),
    >(&self, ic: UVec3, kernel: &Kernel<M, R, P, V, D, E, B, L, N, T, U, O, S, Q, H, G, X, W>) -> (m: Macro)
        requires
            self.wf(),
            in_grid(self.domain.interior, ic),
            kernel.fits(self.cfg.set.count() as int),
        ensures
            self.sampled(
                kernel,
                linear_index(self.domain.padded, self.domain.inside(ic)),
                m,
            ),
    {
        let cell: u64 = self.domain.interior_linear(ic) as u64;
        if CellKind::of(self.domain.flags[cell as usize]) != CellKind::Inlet {
            return self.macroscopic_padded(cell, kernel);
        }
        let moments = &kernel.moments;
        let density = &kernel.density;
        let g: Vec<u32> = self.load(cell);
        assert(self.loads(cell as int, g));
        let sums: Moments = moments(&g);
        Macro {
            rho: density(sums.drho),
            u: self.inlet_velocity_at(cell, self.inlet_spec(cell)),
        }
    }

    /// Density and velocity at a padded cell index.
    ///
    /// Equilibrium boundaries report the state they *impose*, not the moment of their
    /// incoming populations. At an inlet the post-step state is exactly the equilibrium
    /// at the imposed density and velocity; the pre-collision moment there is dominated
    /// by links reflecting off the domain wall behind the plane and can have the wrong
    /// sign entirely.
    pub fn macroscopic_padded<
        M: Fn(&Vec<u32>) -> Moments,
        R: Fn(&Vec<u32>, &Vec<bool>, Moments) -> Vec<u32>,
        P: Fn(u32) -> u32,
        V: Fn(Moments, u32) -> Vec3,
        D: Fn(&Vec<u32>, Vec3, Vec3) -> u32,
        E: Fn(CellState) -> Vec<u32>,
        B: Fn(&Vec<u32>, &Vec<u32>, u32) -> Vec<u32>,
        L: Fn(Pull) -> u32,
        N: Fn(&Vec<u32>, &Vec<u32>) -> u32,
        T: Fn(u32, u32, u32, u32) -> u32,
        U: Fn(u32) -> u32,
        O: Fn(u32, u32) -> u32,
        S: Fn(u32, u32, u32) -> u32,
        Q: Fn(u32, u32, u32, u32, u32, u32) -> (u32, u32),
        H: Fn(&Vec<u32>, &Vec<u32>, u32) -> Vec<u32>,
        G: Fn(usize, Vec3, Vec3) -> u32,
        X: Fn(u32, u32, u32) -> u32,
        W: Fn(u32, u32, u32, u32, u32, u32) -> (u32, u32),
    >(&self, cell: u64, kernel: &Kernel<M, R, P, V, D, E, B, L, N, T, U, O, S, Q, H, G, X, W>) -> (m: Macro)
        requires
            self.wf(),
            cell < self.domain.padded.volume(),
            kernel.fits(self.cfg.set.count() as int),
        ensures
            self.measured(kernel, cell as int, m),
    {
        let f: u8 = self.domain.flags[cell as usize];
        let kind: CellKind = CellKind::of(f);
        if kind == CellKind::Solid {
            return Macro { rho: ONE, u: Vec3 { x: 0, y: 0, z: 0 } };
        }
        if kind == CellKind::Equilibrium {
            return Macro { rho: self.cfg.rho_ref, u: Vec3 { x: 0, y: 0, z: 0 } };
        }
        let moments = &kernel.moments;
        let density = &kernel.density;
        let velocity = &kernel.velocity;
        let g: Vec<u32> = self.load(cell);
        assert(self.loads(cell as int, g));
        let sums: Moments = moments(&g);
        if kind == CellKind::Inlet {
            let spec: InletSpec = self.inlet_spec(cell);
            let u: Vec3 = self.inlet_velocity_at(cell, spec);
            let drho: u32 = kernel.inlet_drho(spec, u, &g, sums);
            return Macro { rho: density(drho), u };
        }
        let rho: u32 = density(sums.drho);
        Macro { rho, u: velocity(sums, rho) }
    }

    /// Whether `sum` is what adding up the densities of the fluid cells below `cells`
    /// gives, one after the other.
    pub open spec fn weighs<
        M: Fn(&Vec<u32>) -> Moments,
        R: Fn(&Vec<u32>, &Vec<bool>, Moments) -> Vec<u32>,
        P: Fn(u32) -> u32,
        V: Fn(Moments, u32) -> Vec3,
        D: Fn(&Vec<u32>, Vec3, Vec3) -> u32,
        E: Fn(CellState) -> Vec<u32>,
        B: Fn(&Vec<u32>, &Vec<u32>, u32) -> Vec<u32>,
        L: Fn(Pull) -> u32,
        N: Fn(&Vec<u32>, &Vec<u32>) -> u32,
        T: Fn(u32, u32, u32, u32) -> u32,
        U: Fn(u32) -> u32,
        O: Fn(u32, u32) -> u32,
        S: Fn(u32, u32, u32) -> u32,
        Q: Fn(u32, u32, u32, u32, u32, u32) -> (u32, u32),
        H: Fn(&Vec<u32>, &Vec<u32>, u32) -> Vec<u32>,
        G: Fn(usize, Vec3, Vec3) -> u32,
        X: Fn(u32, u32, u32) -> u32,
        W: Fn(u32, u32, u32, u32, u32, u32) -> (u32, u32),
        A: Fn(u64, u32) -> u64,
    >(
        &self,
        kernel: &Kernel<M, R, P, V, D, E, B, L, N, T, U, O, S, Q, H, G, X, W>,
        accumulate: A,
        cells: nat,
        sum: u64,
    ) -> bool
        decreases cells,
    {
        if cells == 0 {
            sum == 0
        } else if !self.flows(cells - 1) {
            self.weighs(kernel, accumulate, (cells - 1) as nat, sum)
        } else {
            exists|before: u64, m: Macro| {
                &&& self.weighs(kernel, accumulate, (cells - 1) as nat, before)
                &&& self.measured(kernel, cells - 1, m)
                &&& #[trigger] accumulate.ensures((before, m.rho), sum)
            }
        }
    }

    /// Total lattice mass over the fluid cells. Conserved to round-off in a closed
    /// periodic box, which makes it the cheapest possible streaming test.
    pub fn total_mass<
        M: Fn(&Vec<u32>) -> Moments,
        R: Fn(&Vec<u32>, &Vec<bool>, Moments) -> Vec<u32>,
        P: Fn(u32) -> u32,
        V: Fn(Moments, u32) -> Vec3,
        D: Fn(&Vec<u32>, Vec3, Vec3) -> u32,
        E: Fn(CellState) -> Vec<u32>,
        B: Fn(&Vec<u32>, &Vec<u32>, u32) -> Vec<u32>,
        L: Fn(Pull) -> u32,
        N: Fn(&Vec<u32>, &Vec<u32>) -> u32,
        T: Fn(u32, u32, u32, u32) -> u32,
        U: Fn(u32) -> u32,
        O: Fn(u32, u32) -> u32,
        S: Fn(u32, u32, u32) -> u32,
        Q: Fn(u32, u32, u32, u32, u32, u32) -> (u32, u32),
        H: Fn(&Vec<u32>, &Vec<u32>, u32) -> Vec<u32>,
        G: Fn(usize, Vec3, Vec3) -> u32,
        X: Fn(u32, u32, u32) -> u32,
        W: Fn(u32, u32, u32, u32, u32, u32) -> (u32, u32),
        A: Fn(u64, u32) -> u64,
    >(&self, kernel: &Kernel<M, R, P, V, D, E, B, L, N, T, U, O, S, Q, H, G, X, W>, accumulate: &A) -> (sum: u64)
        requires
            self.wf(),
            kernel.fits(self.cfg.set.count() as int),
            forall|s: u64, rho: u32| #[trigger] accumulate.requires((s, rho)),
        ensures
            self.weighs(kernel, *accumulate, self.domain.padded.volume() as nat, sum),
    {
        let cells: u64 = self.domain.padded_cell_count();
        let mut sum: u64 = 0;
        let mut cell: u64 = 0;
        while cell < cells
            invariant
                self.wf(),
                kernel.fits(self.cfg.set.count() as int),
                forall|s: u64, rho: u32| #[trigger] accumulate.requires((s, rho)),
                cells == self.domain.padded.volume(),
                cell <= cells,
                self.weighs(kernel, *accumulate, cell as nat, sum),
            decreases cells - cell,
        {
            let ghost before = sum;
            if flags::is_fluid(self.domain.flags[cell as usize]) {
                let m: Macro = self.macroscopic_padded(cell, kernel);
                sum = accumulate(sum, m.rho);
                assert(accumulate.ensures((before, m.rho), sum));
            }
            cell += 1;
            assert(self.weighs(kernel, *accumulate, cell as nat, sum));
        }
        sum
    }
}

/// Where the population that a fluid cell loads along direction `i` was before
/// streaming: at the cell upstream, still moving along `i`, or, where that cell
/// is solid, at the cell itself and moving the opposite way.
pub open spec fn source(d: &PaddedDomain, cell: int, i: int) -> (int, int) {
    let up = linear_index(d.padded, d.upstream(cell_at(d.padded, cell), i));
    if i == 0 {
        (cell, 0)
    } else if fluid(d.flags@[up]) {
        (up, i)
    } else {
        (cell, opposite_of(i))
    }
}

/// The source of a population is a direction of a fluid cell.
pub proof fn lemma_source(d: &PaddedDomain, set: VelocitySet, cell: int, i: int)
    requires
        d.shaped(),
        0 <= cell < d.padded.volume(),
        0 <= i < set.count(),
        fluid(d.flags@[cell]),
    ensures
        0 <= source(d, cell, i).0 < d.padded.volume(),
        0 <= source(d, cell, i).1 < set.count(),
        fluid(d.flags@[source(d, cell, i).0]),
{
    every_index_is_a_cell(d.padded, cell);
    if i > 0 {
        opposites_reverse(set, i);
        let c = cell_at(d.padded, cell);
        neighbours_are_mutual(d.padded, c, reversed(velocity(i)));
        linear_index_leads_back(d.padded, d.upstream(c, i));
    }
}

/// Streaming, with halfway bounce-back at walls: once every fluid cell's
/// populations stand where the previous step stores them, the next load of a
/// fluid cell along direction `i` reads what the cell upstream had along `i`,
/// and where that cell is solid, what the cell itself had the opposite way.
pub proof fn loads_stream_and_bounce_back(lbm: ReferenceLbm, values: Seq<u32>, cell: int, i: int)
    requires
        lbm.wf(),
        lbm.holds(values, !lbm.odd()),
        0 <= cell < lbm.domain.padded.volume(),
        0 <= i < lbm.cfg.set.count(),
        lbm.flows(cell),
    ensures
        ({
            let (from, dir) = source(&lbm.domain, cell, i);
            stores_as(
                lbm.cfg.precision,
                values[from * lbm.cfg.set.count() + dir],
                lbm.loaded(cell, i),
            )
        }),
{
    let set = lbm.cfg.set;
    let padded = lbm.domain.padded;
    let ep = lbm.addressing();
    let p = !lbm.odd();
    let (from, dir) = source(&lbm.domain, cell, i);
    lemma_source(&lbm.domain, set, cell, i);
    every_index_is_a_cell(padded, cell);
    let c = cell_at(padded, cell);
    if i > 0 {
        opposites_reverse(set, i);
        let up = lbm.domain.upstream(c, i);
        neighbours_are_mutual(padded, c, reversed(velocity(i)));
        linear_index_leads_back(padded, up);
        let flip = mask_bit(lbm.domain.link_mask@[cell], i);
        assert(flip <==> !fluid(lbm.domain.flags@[linear_index(padded, up)]));
        if !flip && i % 2 == 0 {
            assert(cell_at(padded, from) == up);
            assert(reversed(reversed(velocity(i))) == velocity(i));
            assert(wrapped_neighbour(padded, up, velocity(i)) == c);
            assert(partner(padded, from, i) == cell);
        }
        assert(load_index(ep, padded, cell, i, lbm.odd() != flip) == store_index(
            ep,
            padded,
            from,
            dir,
            p,
        ));
    }
    assert(load_index(
        ep,
        padded,
        cell,
        i,
        lbm.odd() != (i > 0 && mask_bit(lbm.domain.link_mask@[cell], i)),
    ) == store_index(ep, padded, from, dir, p));
}

/// Streaming moves each population once: no two loads of fluid cells read the
/// same one, so none is duplicated and none is lost, walls or not.
pub proof fn streaming_moves_each_population_once(
    d: &PaddedDomain,
    set: VelocitySet,
    cell: int,
    i: int,
    other: int,
    j: int,
)
    requires
        d.shaped(),
        0 <= cell < d.padded.volume(),
        0 <= other < d.padded.volume(),
        0 <= i < set.count(),
        0 <= j < set.count(),
        fluid(d.flags@[cell]),
        fluid(d.flags@[other]),
        source(d, cell, i) == source(d, other, j),
    ensures
        cell == other,
        i == j,
{
    let padded = d.padded;
    every_index_is_a_cell(padded, cell);
    every_index_is_a_cell(padded, other);
    let a = cell_at(padded, cell);
    let b = cell_at(padded, other);
    if i > 0 {
        opposites_reverse(set, i);
        neighbours_are_mutual(padded, a, reversed(velocity(i)));
        linear_index_leads_back(padded, d.upstream(a, i));
        assert(reversed(reversed(velocity(i))) == velocity(i));
    }
    if j > 0 {
        opposites_reverse(set, j);
        neighbours_are_mutual(padded, b, reversed(velocity(j)));
        linear_index_leads_back(padded, d.upstream(b, j));
        assert(reversed(reversed(velocity(j))) == velocity(j));
    }
}

/// A wall hands a population straight back: what a cell sends along the opposite
/// of `i` on a step is what it loads along `i` on the next, where the cell
/// upstream along `i` is solid.
pub proof fn a_population_aimed_at_a_wall_comes_back_reversed(
    ep: EsotericPull,
    padded: UVec3,
    set: VelocitySet,
    cell: int,
    i: int,
    odd: bool,
)
    requires
        1 <= i < set.count(),
    ensures
        store_index(ep, padded, cell, opposite_of(i), odd) == load_index(
            ep,
            padded,
            cell,
            i,
            odd,
        ),
{
    opposites_reverse(set, i);
}

/// One more store leaves the earlier ones alone.
proof fn lemma_store_one(
    prev: ReferenceLbm,
    now: ReferenceLbm,
    before: ReferenceLbm,
    values: Seq<u32>,
    odd: bool,
    cell: int,
    i: int,
    v: u32,
)
    requires
        prev.wf(),
        prev.stored_until(&before, values, odd, cell, i),
        prev.domain == before.domain,
        prev.cfg == before.cfg,
        0 <= cell < prev.domain.padded.volume(),
        0 <= i < prev.cfg.set.count(),
        prev.flows(cell),
        stores_as(prev.cfg.precision, values[cell * prev.cfg.set.count() + i], v),
        now.domain == prev.domain,
        now.cfg == prev.cfg,
        now.g@ == prev.g@.update(
            store_index(prev.addressing(), prev.domain.padded, cell, i, odd),
            v,
        ),
    ensures
        now.stored_until(&before, values, odd, cell, i + 1),
{
    let ep = prev.addressing();
    let padded = prev.domain.padded;
    let set = prev.cfg.set;
    let at = store_index(ep, padded, cell, i, odd);
    lemma_index_in_range(ep, padded, set, cell, i, odd);
    assert forall|c: int, k: int|
        #![trigger store_index(now.addressing(), now.domain.padded, c, k, odd)]
        0 <= c < now.domain.padded.volume() && 0 <= k < now.cfg.set.count() && now.flows(c) && (c
            < cell || (c == cell && k < i + 1)) implies stores_as(
        now.cfg.precision,
        values[c * now.cfg.set.count() + k],
        now.g@[store_index(now.addressing(), now.domain.padded, c, k, odd)],
    ) by {
        let s = store_index(ep, padded, c, k, odd);
        lemma_index_in_range(ep, padded, set, c, k, odd);
        if s == at {
            stores_never_meet(ep, padded, set, odd, c, k, cell, i);
        } else {
            assert(prev.flows(c));
        }
    }
    assert(before.owned(at, odd)) by {
        assert(before.flows(cell));
        assert(at == store_index(before.addressing(), before.domain.padded, cell, i, odd));
    }
}

/// A finished row is the start of the next one.
proof fn lemma_row_done(
    now: ReferenceLbm,
    before: ReferenceLbm,
    values: Seq<u32>,
    odd: bool,
    cell: int,
)
    requires
        now.stored_until(&before, values, odd, cell, now.cfg.set.count()) || (
        now.stored_until(&before, values, odd, cell, 0) && !now.flows(cell)),
    ensures
        now.stored_until(&before, values, odd, cell + 1, 0),
{
}

/// Steps are even and odd in turn, and the first is even.
pub proof fn steps_are_even_and_odd_in_turn(a: &ReferenceLbm, b: &ReferenceLbm)
    ensures
        a.steps == 0 ==> !a.odd(),
        b.steps == a.steps + 1 ==> b.odd() == !a.odd(),
{
}

} // verus!
