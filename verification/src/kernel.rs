//! What one step makes of the populations one cell loaded.
//!
//! The order of the work, and which of it a cell gets, is decided here; the
//! arithmetic is handed in as the functions of a [`Kernel`]. Numbers are bit patterns
//! of `f32`.
use vstd::prelude::*;
use crate::boundary::CellKind;
use crate::collision::{Collision, Stages};
use crate::config::{InletSpec, Vec3};
use crate::float_order::{clamp32, clamped32, le32, less32, lt32, nan32};
use crate::reference::{CellPlan, ReferenceLbm};

verus! {

/// Sums over a cell's shifted populations: the density less one, and the momentum.
#[derive(Clone, Copy, Debug, PartialEq, Eq, Structural)]
pub struct Moments {
    pub drho: u32,
    pub momentum: Vec3,
}

/// The state an equilibrium is taken at. `drho` is `rho - 1`, carried separately: it
/// is a sum of small numbers, and deriving it from `rho` would throw that precision
/// away again.
#[derive(Clone, Copy, Debug, PartialEq, Eq, Structural)]
pub struct CellState {
    pub drho: u32,
    pub rho: u32,
    pub u: Vec3,
}

/// What draws a cell's populations toward the equilibrium at the reference density.
#[derive(Clone, Copy, Debug, PartialEq, Eq, Structural)]
pub enum Pull {
    /// The convective outflow, at its velocity.
    Outflow(u32),
    /// The absorbing layer of a strength, so many cells deep out of `cells`.
    Sponge { strength: u32, depth: u32, cells: u32 },
}

/// The arithmetic of a step.
pub struct Kernel<M, R, P, V, D, E, B, L, N, T, U, O, S, Q, H, G, X, W> {
    /// Density and momentum of the populations.
    pub moments: M,
    /// The populations with anti-bounce-back on the marked links, which pins the
    /// density there; the velocity is predicted from the moments.
    pub reflect: R,
    /// The density above a deviation from one.
    pub density: P,
    /// The velocity at a density, half the body force's impulse in it.
    pub velocity: V,
    /// The density deviation at an inlet plane, closed from the *known* populations:
    /// those not streaming in along the normal.
    pub closure: D,
    /// The shifted equilibrium at a state.
    pub equilibrium: E,
    /// Populations drawn toward a target by a weight.
    pub blend: B,
    /// The weight of a pull.
    pub weight: L,
    /// The collision and the body force.
    pub collision: Collision<N, T, U, O, S, Q, H, G, X, W>,
    /// Whether each direction points against the outlet normal.
    pub against: Vec<bool>,
    /// The reference density less one.
    pub reference_drho: u32,
    /// The band an inlet's density deviation is held in, so that it cannot blow up.
    pub band: (u32, u32),
}

/// The values one cell goes through in a step, in order.
pub struct Passage {
    pub loaded: Vec<u32>,
    /// Which links anti-bounce-back replaces.
    pub links: Vec<bool>,
    /// Moments of what was loaded.
    pub predicted: Moments,
    /// The populations the boundary settled on, and their moments.
    pub settled: Vec<u32>,
    pub sums: Moments,
    /// The density and velocity of those moments.
    pub rho: u32,
    pub u: Vec3,
    pub state: CellState,
    pub eq: Vec<u32>,
    /// The collision's own values, and what it left.
    pub stages: Stages,
    pub collided: Vec<u32>,
    /// The weight of the outflow and of the sponge, and the equilibrium at the reference
    /// density for each.
    pub outflow_weight: u32,
    pub outflow_target: Vec<u32>,
    pub drained: Vec<u32>,
    pub sponge_weight: u32,
    pub sponge_target: Vec<u32>,
    pub out: Vec<u32>,
}

impl<
    M: Fn(&Vec<u32>) -> Moments,
    R: Fn(&Vec<u32>, &Vec<bool>, Moments) -> Vec<u32>,
    P: Fn(u32) -> u32,
    V: Fn(Moments, u32) -> Vec3,
    D: Fn(&Vec<u32>, Vec3, Vec3) -> u32,
    E: Fn(CellState) -> Vec<u32>,
    B: Fn(&Vec<u32>, &Vec<u32>, u32) -> Vec<u32>,
    L: Fn(Pull) -> u32,
    N: Fn(&Vec<u32>, &Vec<u32>) -> u32,
    T: Fn(u32, u32, u32, u32) -> u32,
    U: Fn(u32) -> u32,
    O: Fn(u32, u32) -> u32,
    S: Fn(u32, u32, u32) -> u32,
    Q: Fn(u32, u32, u32, u32, u32, u32) -> (u32, u32),
    H: Fn(&Vec<u32>, &Vec<u32>, u32) -> Vec<u32>,
    G: Fn(usize, Vec3, Vec3) -> u32,
    X: Fn(u32, u32, u32) -> u32,
    W: Fn(u32, u32, u32, u32, u32, u32) -> (u32, u32),
> Kernel<M, R, P, V, D, E, B, L, N, T, U, O, S, Q, H, G, X, W> {
    /// Whether every function of the kernel can be called, and hands back as many
    /// populations as there are directions.
    pub open spec fn fits(&self, q: int) -> bool {
        &&& self.against@.len() == q
        &&& forall|g: &Vec<u32>| #[trigger] self.moments.requires((g,))
        &&& forall|g: &Vec<u32>, l: &Vec<bool>, m: Moments| #[trigger]
            self.reflect.requires((g, l, m))
        &&& forall|d: u32| #[trigger] self.density.requires((d,))
        &&& forall|m: Moments, d: u32| #[trigger] self.velocity.requires((m, d))
        &&& forall|g: &Vec<u32>, n: Vec3, u: Vec3| #[trigger] self.closure.requires((g, n, u))
        &&& forall|s: CellState| #[trigger] self.equilibrium.requires((s,))
        &&& self.collision.fits(q)
        &&& forall|g: &Vec<u32>, e: &Vec<u32>, w: u32| #[trigger] self.blend.requires((g, e, w))
        &&& forall|p: Pull| #[trigger] self.weight.requires((p,))
        &&& forall|s: CellState, r: Vec<u32>| #[trigger]
            self.equilibrium.ensures((s,), r) ==> r@.len() == q
        &&& forall|g: &Vec<u32>, l: &Vec<bool>, m: Moments, r: Vec<u32>| #[trigger]
            self.reflect.ensures((g, l, m), r) ==> r@.len() == q
        &&& forall|g: &Vec<u32>, e: &Vec<u32>, w: u32, r: Vec<u32>| #[trigger]
            self.blend.ensures((g, e, w), r) ==> r@.len() == q
    }

    /// At an outlet that pins its pressure, the marked links are replaced before the
    /// moments that count are taken.
    pub open spec fn settles(&self, lbm: &ReferenceLbm, cell: int, plan: CellPlan, t: Passage) -> bool {
        &&& self.moments.ensures((&t.loaded,), t.predicted)
        &&& if plan.anti_bounce_back {
            &&& lbm.replaced(cell, self.against@, t.links@)
            &&& self.reflect.ensures((&t.loaded, &t.links, t.predicted), t.settled)
            &&& self.moments.ensures((&t.settled,), t.sums)
        } else {
            t.settled == t.loaded && t.sums == t.predicted
        }
        &&& self.density.ensures((t.sums.drho,), t.rho)
        &&& self.velocity.ensures((t.sums, t.rho), t.u)
    }

    /// Whether `drho` is the density deviation an inlet imposes with its velocity: that
    /// of the populations that arrived where it stands free in the fluid, that of the
    /// plane closure elsewhere, held in the band either way.
    pub open spec fn floats(
        &self,
        spec: InletSpec,
        u: Vec3,
        g: Vec<u32>,
        sums: Moments,
        drho: u32,
    ) -> bool {
        if spec.local_density {
            drho == clamped32(sums.drho, self.band.0, self.band.1)
        } else {
            exists|closed: u32| #[trigger]
                self.closure.ensures((&g, spec.normal, u), closed) && drho == clamped32(
                    closed,
                    self.band.0,
                    self.band.1,
                )
        }
    }

    /// The density deviation an inlet imposes with its velocity.
    pub fn inlet_drho(&self, spec: InletSpec, u: Vec3, g: &Vec<u32>, sums: Moments) -> (drho: u32)
        requires
            forall|g: &Vec<u32>, n: Vec3, u: Vec3| #[trigger] self.closure.requires((g, n, u)),
        ensures
            self.floats(spec, u, *g, sums, drho),
    {
        let closure = &self.closure;
        let open: u32 = if spec.local_density {
            sums.drho
        } else {
            closure(g, spec.normal, u)
        };
        clamp32(open, self.band.0, self.band.1)
    }

    /// An inlet imposes its velocity, at a density taken from the populations that
    /// arrived where it stands free in the fluid and from the plane closure
    /// elsewhere; an open side imposes the reference density at rest; any other cell
    /// has the state it has.
    pub open spec fn imposes(&self, lbm: &ReferenceLbm, cell: int, plan: CellPlan, t: Passage) -> bool {
        match plan.inlet {
            Some(spec) => {
                &&& t.state.u == lbm.imposed(cell, spec)
                &&& self.floats(spec, t.state.u, t.settled, t.sums, t.state.drho)
                &&& self.density.ensures((t.state.drho,), t.state.rho)
            },
            None => t.state == if plan.kind == CellKind::Equilibrium {
                self.reference(lbm, Vec3 { x: 0, y: 0, z: 0 })
            } else {
                CellState { drho: t.sums.drho, rho: t.rho, u: t.u }
            },
        }
    }

    /// The reference density, moving at `u`.
    pub open spec fn reference(&self, lbm: &ReferenceLbm, u: Vec3) -> CellState {
        CellState { drho: self.reference_drho, rho: lbm.cfg.rho_ref, u }
    }

    /// Whether `t` is what a cell goes through: it settles its boundary, takes its
    /// state, collides or becomes the equilibrium itself, and is then drawn toward the
    /// reference density by the outflow and by the sponge, at its own velocity.
    pub open spec fn passes(&self, lbm: &ReferenceLbm, cell: int, plan: CellPlan, t: Passage) -> bool {
        &&& self.settles(lbm, cell, plan, t)
        &&& self.imposes(lbm, cell, plan, t)
        &&& self.equilibrium.ensures((t.state,), t.eq)
        &&& if plan.discard_nonequilibrium {
            t.collided == t.eq
        } else {
            self.collision.relaxes(
                &lbm.cfg,
                plan.trt_lambda,
                t.state.rho,
                t.state.u,
                t.settled,
                t.eq,
                t.stages,
                t.collided@,
            )
        }
        &&& if plan.convective {
            &&& self.weight.ensures((Pull::Outflow(lbm.cfg.outflow_velocity),), t.outflow_weight)
            &&& self.equilibrium.ensures((self.reference(lbm, t.state.u),), t.outflow_target)
            &&& self.blend.ensures(
                (&t.collided, &t.outflow_target, t.outflow_weight),
                t.drained,
            )
        } else {
            t.drained == t.collided
        }
        &&& match plan.sponge_depth {
            Some(depth) => {
                &&& self.weight.ensures((lbm.sponge_pull(depth),), t.sponge_weight)
                &&& if lt32(0, t.sponge_weight) {
                    &&& self.equilibrium.ensures((self.reference(lbm, t.state.u),), t.sponge_target)
                    &&& self.blend.ensures(
                        (&t.drained, &t.sponge_target, t.sponge_weight),
                        t.out,
                    )
                } else {
                    t.out == t.drained
                }
            },
            None => t.out == t.drained,
        }
    }

    /// What one step makes of the populations a cell loaded.
    pub fn relax(&self, lbm: &ReferenceLbm, cell: u64, plan: CellPlan, loaded: Vec<u32>) -> (out: Vec<u32>)
        requires
            lbm.wf(),
            cell < lbm.domain.padded.volume(),
            self.fits(lbm.cfg.set.count() as int),
            lbm.cfg.capped(),
            loaded@.len() == lbm.cfg.set.count(),
        ensures
            out@.len() == lbm.cfg.set.count(),
            exists|t: Passage| #[trigger]
                self.passes(lbm, cell as int, plan, t) && t.loaded == loaded && t.out == out,
    {
        let moments = &self.moments;
        let reflect = &self.reflect;
        let density = &self.density;
        let velocity = &self.velocity;
        let equilibrium = &self.equilibrium;
        let blend = &self.blend;
        let weight = &self.weight;

        let ghost start = loaded;
        let predicted: Moments = moments(&loaded);
        let mut sums: Moments = predicted;
        let mut settled: Vec<u32> = loaded;
        let mut links: Vec<bool> = Vec::new();
        if plan.anti_bounce_back {
            links = lbm.anti_bounce_back(cell, &self.against);
            settled = reflect(&settled, &links, predicted);
            sums = moments(&settled);
        }
        let rho: u32 = density(sums.drho);
        let u: Vec3 = velocity(sums, rho);

        let state: CellState = match plan.inlet {
            Some(spec) => {
                let imposed: Vec3 = lbm.inlet_velocity_at(cell, spec);
                let drho: u32 = self.inlet_drho(spec, imposed, &settled, sums);
                CellState { drho, rho: density(drho), u: imposed }
            },
            None => if plan.kind == CellKind::Equilibrium {
                CellState {
                    drho: self.reference_drho,
                    rho: lbm.cfg.rho_ref,
                    u: Vec3 { x: 0, y: 0, z: 0 },
                }
            } else {
                CellState { drho: sums.drho, rho, u }
            },
        };
        let eq: Vec<u32> = equilibrium(state);
        let ghost eq_view = eq;
        let ghost settled_view = settled;
        let ghost mut stages = arbitrary::<Stages>();
        let collided: Vec<u32> = if plan.discard_nonequilibrium {
            eq
        } else {
            let r: Vec<u32> = self.collision.relax(
                &lbm.cfg,
                plan.trt_lambda,
                state.rho,
                state.u,
                settled,
                &eq,
            );
            proof {
                stages = choose|t: Stages| #[trigger]
                    self.collision.relaxes(
                        &lbm.cfg,
                        plan.trt_lambda,
                        state.rho,
                        state.u,
                        settled_view,
                        eq_view,
                        t,
                        r@,
                    );
            }
            r
        };
        let ghost after_collision = collided;
        let target: CellState = CellState {
            drho: self.reference_drho,
            rho: lbm.cfg.rho_ref,
            u: state.u,
        };
        let mut outflow_weight: u32 = 0;
        let mut outflow_target: Vec<u32> = Vec::new();
        let drained: Vec<u32> = if plan.convective {
            outflow_weight = weight(Pull::Outflow(lbm.cfg.outflow_velocity));
            outflow_target = equilibrium(target);
            blend(&collided, &outflow_target, outflow_weight)
        } else {
            collided
        };
        let ghost after_outflow = drained;
        let mut sponge_weight: u32 = 0;
        let mut sponge_target: Vec<u32> = Vec::new();
        let out: Vec<u32> = match plan.sponge_depth {
            Some(depth) => {
                sponge_weight = weight(
                    Pull::Sponge {
                        strength: lbm.cfg.sponge_strength,
                        depth,
                        cells: lbm.cfg.sponge_cells,
                    },
                );
                if less32(0, sponge_weight) {
                    sponge_target = equilibrium(target);
                    blend(&drained, &sponge_target, sponge_weight)
                } else {
                    drained
                }
            },
            None => drained,
        };
        proof {
            let t = Passage {
                loaded: start,
                links,
                predicted,
                settled: settled_view,
                sums,
                rho,
                u,
                state,
                eq: eq_view,
                stages,
                collided: after_collision,
                outflow_weight,
                outflow_target,
                drained: after_outflow,
                sponge_weight,
                sponge_target,
                out,
            };
            assert(self.settles(lbm, cell as int, plan, t));
            assert(self.imposes(lbm, cell as int, plan, t));
            assert(self.passes(lbm, cell as int, plan, t));
        }
        out
    }
}

/// An inlet cannot blow up: it imposes the velocity it was given, its density stays in
/// the band unless the arithmetic gave no number, and what leaves the collision is the
/// equilibrium there, whatever arrived.
pub proof fn an_inlet_cannot_blow_up<
    M: Fn(&Vec<u32>) -> Moments,
    R: Fn(&Vec<u32>, &Vec<bool>, Moments) -> Vec<u32>,
    P: Fn(u32) -> u32,
    V: Fn(Moments, u32) -> Vec3,
    D: Fn(&Vec<u32>, Vec3, Vec3) -> u32,
    E: Fn(CellState) -> Vec<u32>,
    B: Fn(&Vec<u32>, &Vec<u32>, u32) -> Vec<u32>,
    L: Fn(Pull) -> u32,
    N: Fn(&Vec<u32>, &Vec<u32>) -> u32,
    T: Fn(u32, u32, u32, u32) -> u32,
    U: Fn(u32) -> u32,
    O: Fn(u32, u32) -> u32,
    S: Fn(u32, u32, u32) -> u32,
    Q: Fn(u32, u32, u32, u32, u32, u32) -> (u32, u32),
    H: Fn(&Vec<u32>, &Vec<u32>, u32) -> Vec<u32>,
    G: Fn(usize, Vec3, Vec3) -> u32,
    X: Fn(u32, u32, u32) -> u32,
    W: Fn(u32, u32, u32, u32, u32, u32) -> (u32, u32),
>(
    kernel: &Kernel<M, R, P, V, D, E, B, L, N, T, U, O, S, Q, H, G, X, W>,
    lbm: &ReferenceLbm,
    cell: int,
    t: Passage,
)
    requires
        le32(kernel.band.0, kernel.band.1),
        lbm.plan_of(cell) is Some,
        lbm.plan_of(cell)->Some_0.kind == CellKind::Inlet,
        kernel.passes(lbm, cell, lbm.plan_of(cell)->Some_0, t),
    ensures
        t.state.u == lbm.imposed(cell, lbm.plan_of(cell)->Some_0.inlet->Some_0),
        nan32(t.state.drho) || (le32(kernel.band.0, t.state.drho) && le32(
            t.state.drho,
            kernel.band.1,
        )),
        kernel.equilibrium.ensures((t.state,), t.collided),
{
}

/// An open side forgets what arrived: outside the sponge it stores the equilibrium at
/// the reference density at rest.
pub proof fn an_open_side_forgets_what_arrived<
    M: Fn(&Vec<u32>) -> Moments,
    R: Fn(&Vec<u32>, &Vec<bool>, Moments) -> Vec<u32>,
    P: Fn(u32) -> u32,
    V: Fn(Moments, u32) -> Vec3,
    D: Fn(&Vec<u32>, Vec3, Vec3) -> u32,
    E: Fn(CellState) -> Vec<u32>,
    B: Fn(&Vec<u32>, &Vec<u32>, u32) -> Vec<u32>,
    L: Fn(Pull) -> u32,
    N: Fn(&Vec<u32>, &Vec<u32>) -> u32,
    T: Fn(u32, u32, u32, u32) -> u32,
    U: Fn(u32) -> u32,
    O: Fn(u32, u32) -> u32,
    S: Fn(u32, u32, u32) -> u32,
    Q: Fn(u32, u32, u32, u32, u32, u32) -> (u32, u32),
    H: Fn(&Vec<u32>, &Vec<u32>, u32) -> Vec<u32>,
    G: Fn(usize, Vec3, Vec3) -> u32,
    X: Fn(u32, u32, u32) -> u32,
    W: Fn(u32, u32, u32, u32, u32, u32) -> (u32, u32),
>(
    kernel: &Kernel<M, R, P, V, D, E, B, L, N, T, U, O, S, Q, H, G, X, W>,
    lbm: &ReferenceLbm,
    cell: int,
    t: Passage,
)
    requires
        lbm.plan_of(cell) is Some,
        lbm.plan_of(cell)->Some_0.kind == CellKind::Equilibrium,
        lbm.plan_of(cell)->Some_0.sponge_depth is None,
        kernel.passes(lbm, cell, lbm.plan_of(cell)->Some_0, t),
    ensures
        kernel.equilibrium.ensures((kernel.reference(lbm, Vec3 { x: 0, y: 0, z: 0 }),), t.out),
{
}

} // verus!
