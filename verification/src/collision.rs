//! Which collision operator the solver runs.
//!
//! - **TRT** (default). Two relaxation rates: the symmetric part of the
//!   non-equilibrium carries the viscous stress, the antisymmetric part has a
//!   free rate, chosen so that the bounce-back wall sits exactly halfway between
//!   the last fluid node and the first solid node independently of viscosity.
//! - **BGK**. One rate. Kept because it makes TRT bugs obvious.
//! - **Regularized BGK**. Projects the non-equilibrium onto the second-order
//!   Hermite basis before relaxing: a stability escape hatch, not a default.
use vstd::prelude::*;
use crate::config::{SolverConfig, Vec3};
use crate::float_order::{
    at_most32, clamp32, clamped32, eq32, equal32, le32, nan32,
};
use crate::lattice::{opposite_of, VelocitySet};

verus! {

/// Which collision operator the solver runs.
#[derive(Clone, Copy, Debug, PartialEq, Eq, Structural)]
pub enum CollisionModel {
    /// Two-relaxation-time. The default, and the only one whose wall position is
    /// viscosity-independent.
    Trt,
    /// Single-relaxation-time. Comparison baseline.
    Bgk,
    /// Hermite-regularized BGK. Stability escape hatch.
    RegularizedBgk,
}

impl Default for CollisionModel {
    fn default() -> (m: Self)
        ensures
            m == CollisionModel::Trt,
    {
        CollisionModel::Trt
    }
}

impl CollisionModel {
    /// The preprocessor flag of an operator.
    pub open spec fn define(self) -> Seq<char> {
        match self {
            CollisionModel::Trt => "COLLIDE_TRT"@,
            CollisionModel::Bgk => "COLLIDE_BGK"@,
            CollisionModel::RegularizedBgk => "COLLIDE_RBGK"@,
        }
    }

    /// Preprocessor flag selecting the operator in the collision shader.
    pub fn shader_define(self) -> (s: &'static str)
        ensures
            s@ == self.define(),
    {
        match self {
            CollisionModel::Trt => "COLLIDE_TRT",
            CollisionModel::Bgk => "COLLIDE_BGK",
            CollisionModel::RegularizedBgk => "COLLIDE_RBGK",
        }
    }

    pub fn name(self) -> (s: &'static str)
        ensures
            s@ == (match self {
                CollisionModel::Trt => "TRT"@,
                CollisionModel::Bgk => "BGK"@,
                CollisionModel::RegularizedBgk => "regularized BGK"@,
            }),
    {
        match self {
            CollisionModel::Trt => "TRT",
            CollisionModel::Bgk => "BGK",
            CollisionModel::RegularizedBgk => "regularized BGK",
        }
    }
}

/// The two relaxation rates at a relaxation time with a magic parameter: the even one
/// alone fixes the viscosity, and a magic parameter that is not positive makes the odd
/// one the same, so that one code path serves both operators.
pub open spec fn are_rates<E: Fn(u32) -> u32, O: Fn(u32, u32) -> u32>(
    tau: u32,
    lambda: u32,
    even: E,
    odd: O,
    r: (u32, u32),
) -> bool {
    &&& even.ensures((tau,), r.0)
    &&& if le32(lambda, 0) {
        r.1 == r.0
    } else {
        odd.ensures((tau, lambda), r.1)
    }
}

/// The two TRT relaxation rates for a relaxation time and magic parameter.
///
/// `even` is `1/tau`, `odd` is `1 / (lambda / (tau - 1/2) + 1/2)`.
pub fn trt_rates<E: Fn(u32) -> u32, O: Fn(u32, u32) -> u32>(
    tau: u32,
    lambda: u32,
    even: &E,
    odd: &O,
) -> (r: (u32, u32))
    requires
        even.requires((tau,)),
        odd.requires((tau, lambda)),
    ensures
        are_rates(tau, lambda, *even, *odd, r),
{
    let s_e: u32 = even(tau);
    if at_most32(lambda, 0) {
        (s_e, s_e)
    } else {
        (s_e, odd(tau, lambda))
    }
}

/// Whether `r` is the relaxation time the eddy viscosity gives: `tau0` itself where the
/// model is off, and what `raised` gives held between `tau0` and `tau_max` elsewhere.
pub open spec fn is_raised<F: Fn(u32, u32, u32, u32) -> u32>(
    tau0: u32,
    tau_max: u32,
    cs_smag: u32,
    rho: u32,
    pi_norm: u32,
    raised: F,
    r: u32,
) -> bool {
    if le32(cs_smag, 0) {
        r == tau0
    } else {
        exists|t: u32| #[trigger]
            raised.ensures((tau0, cs_smag, rho, pi_norm), t) && r == clamped32(t, tau0, tau_max)
    }
}

/// Smagorinsky-Lilly eddy viscosity, from the local non-equilibrium second moment. A
/// constant of zero gives `tau0` exactly, so the model switches off cleanly.
///
/// `raised` is `0.5 (tau0 + sqrt(tau0^2 + 18 sqrt(2) Cs^2 |Pi| / rho))`.
pub fn smagorinsky_tau<F: Fn(u32, u32, u32, u32) -> u32>(
    tau0: u32,
    tau_max: u32,
    cs_smag: u32,
    rho: u32,
    pi_norm: u32,
    raised: &F,
) -> (r: u32)
    requires
        !le32(cs_smag, 0) ==> le32(tau0, tau_max),
        raised.requires((tau0, cs_smag, rho, pi_norm)),
    ensures
        is_raised(tau0, tau_max, cs_smag, rho, pi_norm, *raised, r),
{
    if at_most32(cs_smag, 0) {
        return tau0;
    }
    let t: u32 = raised(tau0, cs_smag, rho, pi_norm);
    clamp32(t, tau0, tau_max)
}

/// The eddy viscosity only ever raises the relaxation time, and never past its limit,
/// unless its own arithmetic gave no number.
pub proof fn the_eddy_viscosity_only_raises<F: Fn(u32, u32, u32, u32) -> u32>(
    tau0: u32,
    tau_max: u32,
    cs_smag: u32,
    rho: u32,
    pi_norm: u32,
    raised: F,
    r: u32,
)
    requires
        le32(tau0, tau_max),
        is_raised(tau0, tau_max, cs_smag, rho, pi_norm, raised, r),
    ensures
        nan32(r) || (le32(tau0, r) && le32(r, tau_max)),
{
}

/// Whether `pair` takes a direction and its opposite from `before`, and the two values
/// that go with them, to `after`, at the two rates.
pub open spec fn relaxed_together<Q: Fn(u32, u32, u32, u32, u32, u32) -> (u32, u32)>(
    pair: Q,
    before: Seq<u32>,
    with: Seq<u32>,
    rates: (u32, u32),
    after: Seq<u32>,
    i: int,
) -> bool {
    let j = opposite_of(i);
    pair.ensures(
        (before[i], before[j], with[i], with[j], rates.0, rates.1),
        (after[i], after[j]),
    )
}

/// Whether `after` is what an operator makes of the populations `before` and their
/// equilibrium at the even and the odd rate. The single-rate operator relaxes each
/// population by itself. TRT does so with the rest population, which is purely
/// symmetric, and relaxes each direction together with its opposite. The regularized
/// one rebuilds all of them.
pub open spec fn is_collided<
    S: Fn(u32, u32, u32) -> u32,
    Q: Fn(u32, u32, u32, u32, u32, u32) -> (u32, u32),
    H: Fn(&Vec<u32>, &Vec<u32>, u32) -> Vec<u32>,
>(
    model: CollisionModel,
    before: Vec<u32>,
    geq: Vec<u32>,
    rates: (u32, u32),
    single: S,
    pair: Q,
    rebuild: H,
    after: Seq<u32>,
) -> bool {
    &&& after.len() == before@.len()
    &&& match model {
        CollisionModel::Bgk => forall|i: int|
            0 <= i < after.len() ==> single.ensures(
                (before@[i], geq@[i], rates.0),
                #[trigger] after[i],
            ),
        CollisionModel::Trt => {
            &&& single.ensures((before@[0], geq@[0], rates.0), after[0])
            &&& forall|i: int|
                0 < i < after.len() && i % 2 == 1 ==> #[trigger] relaxed_together(
                    pair,
                    before@,
                    geq@,
                    rates,
                    after,
                    i,
                )
        },
        CollisionModel::RegularizedBgk => exists|r: Vec<u32>| #[trigger]
            rebuild.ensures((&before, &geq, rates.0), r) && r@ == after,
    }
}

/// Apply the collision operator in place to shifted populations, at the even and the
/// odd rate.
///
/// `single` relaxes one population toward its equilibrium at a rate; `pair` relaxes a
/// direction and its opposite, the symmetric part of what they are off by at the even
/// rate and the antisymmetric part at the odd one; `rebuild` keeps only the second
/// moment of the non-equilibrium, relaxed at a rate.
pub fn collide<
    S: Fn(u32, u32, u32) -> u32,
    Q: Fn(u32, u32, u32, u32, u32, u32) -> (u32, u32),
    H: Fn(&Vec<u32>, &Vec<u32>, u32) -> Vec<u32>,
>(
    model: CollisionModel,
    set: VelocitySet,
    g: &mut Vec<u32>,
    geq: &Vec<u32>,
    rates: (u32, u32),
    single: &S,
    pair: &Q,
    rebuild: &H,
)
    requires
        old(g)@.len() == set.count(),
        geq@.len() == set.count(),
        forall|a: u32, b: u32, s: u32| #[trigger] single.requires((a, b, s)),
        forall|a: u32, b: u32, c: u32, d: u32, s: u32, o: u32| #[trigger]
            pair.requires((a, b, c, d, s, o)),
        forall|a: &Vec<u32>, b: &Vec<u32>, s: u32| #[trigger] rebuild.requires((a, b, s)),
        forall|a: &Vec<u32>, b: &Vec<u32>, s: u32, r: Vec<u32>| #[trigger]
            rebuild.ensures((a, b, s), r) ==> r@.len() == set.count(),
    ensures
        is_collided(model, *old(g), *geq, rates, *single, *pair, *rebuild, final(g)@),
{
    let q: usize = set.q();
    let ghost before = *g;
    match model {
        CollisionModel::Bgk => {
            let mut i: usize = 0;
            while i < q
                invariant
                    q == set.count(),
                    i <= q,
                    g@.len() == q,
                    before@.len() == q,
                    geq@.len() == q,
                    forall|a: u32, b: u32, s: u32| #[trigger] single.requires((a, b, s)),
                    forall|k: int|
                        0 <= k < i ==> single.ensures(
                            (before@[k], geq@[k], rates.0),
                            #[trigger] g@[k],
                        ),
                    forall|k: int| i <= k < q ==> #[trigger] g@[k] == before@[k],
                decreases q - i,
            {
                let v: u32 = single(g[i], geq[i], rates.0);
                g.set(i, v);
                i += 1;
            }
        },
        CollisionModel::Trt => {
            let v: u32 = single(g[0], geq[0], rates.0);
            g.set(0, v);
            let ghost mid = g@;
            relax_pairs(g, geq, rates, pair);
            assert forall|i: int| 0 < i < g@.len() && i % 2 == 1 implies #[trigger] relaxed_together(
                *pair,
                before@,
                geq@,
                rates,
                g@,
                i,
            ) by {
                assert(relaxed_together(*pair, mid, geq@, rates, g@, i));
                assert(before@[i] == mid[i] && before@[i + 1] == mid[i + 1]);
            }
        },
        CollisionModel::RegularizedBgk => {
            let r: Vec<u32> = rebuild(&*g, geq, rates.0);
            *g = r;
        },
    }
}

/// Take every direction with its opposite, and the two values that go with them,
/// through `pair`; the rest population stays.
fn relax_pairs<Q: Fn(u32, u32, u32, u32, u32, u32) -> (u32, u32)>(
    g: &mut Vec<u32>,
    with: &Vec<u32>,
    rates: (u32, u32),
    pair: &Q,
)
    requires
        old(g)@.len() % 2 == 1,
        with@.len() == old(g)@.len(),
        forall|a: u32, b: u32, c: u32, d: u32, s: u32, o: u32| #[trigger]
            pair.requires((a, b, c, d, s, o)),
    ensures
        final(g)@.len() == old(g)@.len(),
        final(g)@[0] == old(g)@[0],
        forall|i: int|
            0 < i < old(g)@.len() && i % 2 == 1 ==> #[trigger] relaxed_together(
                *pair,
                old(g)@,
                with@,
                rates,
                final(g)@,
                i,
            ),
{
    let q: usize = g.len();
    let ghost start = g@;
    let mut i: usize = 1;
    while i < q
        invariant
            q % 2 == 1,
            i % 2 == 1,
            i <= q,
            g@.len() == q,
            start.len() == q,
            with@.len() == q,
            forall|a: u32, b: u32, c: u32, d: u32, s: u32, o: u32| #[trigger]
                pair.requires((a, b, c, d, s, o)),
            g@[0] == start[0],
            forall|k: int|
                0 < k < i && k % 2 == 1 ==> #[trigger] relaxed_together(
                    *pair,
                    start,
                    with@,
                    rates,
                    g@,
                    k,
                ),
            forall|k: int| i <= k < q ==> #[trigger] g@[k] == start[k],
        decreases q - i,
    {
        let ghost mid = g@;
        let r: (u32, u32) = pair(g[i], g[i + 1], with[i], with[i + 1], rates.0, rates.1);
        g.set(i, r.0);
        g.set(i + 1, r.1);
        proof {
            assert forall|k: int| 0 < k < i + 2 && k % 2 == 1 implies #[trigger] relaxed_together(
                *pair,
                start,
                with@,
                rates,
                g@,
                k,
            ) by {
                if k < i {
                    assert(relaxed_together(*pair, start, with@, rates, mid, k));
                    assert(g@[k] == mid[k] && g@[k + 1] == mid[k + 1]);
                }
            }
        }
        i += 2;
    }
}

/// Whether `after` is `before` with the body force in it: nothing moves without a
/// force, the rest population takes its term whole, and each direction takes the
/// symmetric and the antisymmetric part of its own term and its opposite's.
pub open spec fn is_forced<
    G: Fn(usize, Vec3, Vec3) -> u32,
    X: Fn(u32, u32, u32) -> u32,
    W: Fn(u32, u32, u32, u32, u32, u32) -> (u32, u32),
>(
    u: Vec3,
    force: Vec3,
    rates: (u32, u32),
    before: Seq<u32>,
    term: G,
    rest: X,
    pair: W,
    after: Seq<u32>,
) -> bool {
    if eq32(force.x, 0) && eq32(force.y, 0) && eq32(force.z, 0) {
        after == before
    } else {
        exists|terms: Seq<u32>| {
            &&& #[trigger] are_terms(term, u, force, terms)
            &&& terms.len() == before.len()
            &&& after.len() == before.len()
            &&& rest.ensures((before[0], terms[0], rates.0), after[0])
            &&& forall|i: int|
                0 < i < after.len() && i % 2 == 1 ==> #[trigger] relaxed_together(
                    pair,
                    before,
                    terms,
                    rates,
                    after,
                    i,
                )
        }
    }
}

/// Whether `terms` holds the forcing term of each direction at a velocity.
pub open spec fn are_terms<G: Fn(usize, Vec3, Vec3) -> u32>(
    term: G,
    u: Vec3,
    force: Vec3,
    terms: Seq<u32>,
) -> bool {
    forall|i: int|
        0 <= i < terms.len() ==> term.ensures((i as usize, u, force), #[trigger] terms[i])
}

/// Guo's forcing term, split for TRT.
///
/// `term` is `w_i [3 (c_i - u).F + 9 (c_i.u)(c_i.F)]`; `rest` adds the rest
/// population's, scaled by the even rate; `pair` adds a direction's and its opposite's,
/// the symmetric part scaled by the even rate and the antisymmetric one by the odd. The
/// velocity already has half the force's impulse in it.
pub fn apply_force<
    G: Fn(usize, Vec3, Vec3) -> u32,
    X: Fn(u32, u32, u32) -> u32,
    W: Fn(u32, u32, u32, u32, u32, u32) -> (u32, u32),
>(
    set: VelocitySet,
    g: &mut Vec<u32>,
    u: Vec3,
    force: Vec3,
    rates: (u32, u32),
    term: &G,
    rest: &X,
    pair: &W,
)
    requires
        old(g)@.len() == set.count(),
        forall|i: usize, u: Vec3, f: Vec3| i < set.count() ==> #[trigger] term.requires((i, u, f)),
        forall|a: u32, b: u32, s: u32| #[trigger] rest.requires((a, b, s)),
        forall|a: u32, b: u32, c: u32, d: u32, s: u32, o: u32| #[trigger]
            pair.requires((a, b, c, d, s, o)),
    ensures
        final(g)@.len() == old(g)@.len(),
        is_forced(u, force, rates, old(g)@, *term, *rest, *pair, final(g)@),
{
    if equal32(force.x, 0) && equal32(force.y, 0) && equal32(force.z, 0) {
        return;
    }
    let q: usize = set.q();
    let mut terms: Vec<u32> = Vec::new();
    while terms.len() < q
        invariant
            q == set.count(),
            terms@.len() <= q,
            forall|i: usize, u: Vec3, f: Vec3|
                i < set.count() ==> #[trigger] term.requires((i, u, f)),
            are_terms(*term, u, force, terms@),
        decreases q - terms@.len(),
    {
        let t: u32 = term(terms.len(), u, force);
        terms.push(t);
    }
    let ghost before = g@;
    let v: u32 = rest(g[0], terms[0], rates.0);
    g.set(0, v);
    let ghost mid = g@;
    relax_pairs(g, &terms, rates, pair);
    assert forall|i: int| 0 < i < g@.len() && i % 2 == 1 implies #[trigger] relaxed_together(
        *pair,
        before,
        terms@,
        rates,
        g@,
        i,
    ) by {
        assert(relaxed_together(*pair, mid, terms@, rates, g@, i));
        assert(before[i] == mid[i] && before[i + 1] == mid[i + 1]);
    }
    assert(are_terms(*term, u, force, terms@));
}

/// The arithmetic of a collision.
pub struct Collision<N, T, U, O, S, Q, H, G, X, W> {
    /// Norm of the second moment of what populations and equilibrium are apart.
    pub strain: N,
    /// The relaxation time that the eddy viscosity gives.
    pub raised: T,
    /// The even rate at a relaxation time.
    pub even: U,
    /// The odd rate at a relaxation time and magic parameter.
    pub odd: O,
    /// One population, relaxed at a rate.
    pub single: S,
    /// A direction and its opposite, relaxed at the two rates.
    pub pair: Q,
    /// The populations rebuilt from their second moment, relaxed at a rate.
    pub rebuild: H,
    /// The forcing term of a direction.
    pub term: G,
    /// The rest population with its forcing term.
    pub rest: X,
    /// A direction and its opposite with their forcing terms.
    pub push: W,
}

/// The values a collision goes through, in order.
pub struct Stages {
    pub strain: u32,
    pub tau: u32,
    pub rates: (u32, u32),
    pub collided: Seq<u32>,
}

impl<
    N: Fn(&Vec<u32>, &Vec<u32>) -> u32,
    T: Fn(u32, u32, u32, u32) -> u32,
    U: Fn(u32) -> u32,
    O: Fn(u32, u32) -> u32,
    S: Fn(u32, u32, u32) -> u32,
    Q: Fn(u32, u32, u32, u32, u32, u32) -> (u32, u32),
    H: Fn(&Vec<u32>, &Vec<u32>, u32) -> Vec<u32>,
    G: Fn(usize, Vec3, Vec3) -> u32,
    X: Fn(u32, u32, u32) -> u32,
    W: Fn(u32, u32, u32, u32, u32, u32) -> (u32, u32),
> Collision<N, T, U, O, S, Q, H, G, X, W> {
    /// Whether every function can be called, and the rebuilt populations are as many as
    /// there are directions.
    pub open spec fn fits(&self, q: int) -> bool {
        &&& forall|g: &Vec<u32>, e: &Vec<u32>| #[trigger] self.strain.requires((g, e))
        &&& forall|a: u32, b: u32, c: u32, d: u32| #[trigger] self.raised.requires((a, b, c, d))
        &&& forall|a: u32| #[trigger] self.even.requires((a,))
        &&& forall|a: u32, b: u32| #[trigger] self.odd.requires((a, b))
        &&& forall|a: u32, b: u32, s: u32| #[trigger] self.single.requires((a, b, s))
        &&& forall|a: u32, b: u32, c: u32, d: u32, s: u32, o: u32| #[trigger]
            self.pair.requires((a, b, c, d, s, o))
        &&& forall|g: &Vec<u32>, e: &Vec<u32>, s: u32| #[trigger] self.rebuild.requires((g, e, s))
        &&& forall|g: &Vec<u32>, e: &Vec<u32>, s: u32, r: Vec<u32>| #[trigger]
            self.rebuild.ensures((g, e, s), r) ==> r@.len() == q
        &&& forall|i: usize, u: Vec3, f: Vec3| i < q ==> #[trigger] self.term.requires((i, u, f))
        &&& forall|a: u32, b: u32, s: u32| #[trigger] self.rest.requires((a, b, s))
        &&& forall|a: u32, b: u32, c: u32, d: u32, s: u32, o: u32| #[trigger]
            self.push.requires((a, b, c, d, s, o))
    }

    /// Whether `t` takes the populations `g` with their equilibrium, at a density and a
    /// velocity, to `after`: the eddy viscosity follows from the strain and the density,
    /// the rates from the relaxation time it gives, the operator works at those rates,
    /// and the body force follows the operator.
    pub open spec fn relaxes(
        &self,
        cfg: &SolverConfig,
        lambda: u32,
        rho: u32,
        u: Vec3,
        g: Vec<u32>,
        geq: Vec<u32>,
        t: Stages,
        after: Seq<u32>,
    ) -> bool {
        &&& self.strain.ensures((&g, &geq), t.strain)
        &&& is_raised(
            cfg.tau0,
            cfg.tau_max,
            cfg.smagorinsky_c,
            rho,
            t.strain,
            self.raised,
            t.tau,
        )
        &&& are_rates(t.tau, lambda, self.even, self.odd, t.rates)
        &&& is_collided(
            cfg.collision,
            g,
            geq,
            t.rates,
            self.single,
            self.pair,
            self.rebuild,
            t.collided,
        )
        &&& is_forced(
            u,
            cfg.body_force,
            t.rates,
            t.collided,
            self.term,
            self.rest,
            self.push,
            after,
        )
    }

    /// Collide populations with their equilibrium at a density and a velocity.
    pub fn relax(
        &self,
        cfg: &SolverConfig,
        lambda: u32,
        rho: u32,
        u: Vec3,
        g: Vec<u32>,
        geq: &Vec<u32>,
    ) -> (after: Vec<u32>)
        requires
            self.fits(cfg.set.count()),
            cfg.capped(),
            g@.len() == cfg.set.count(),
            geq@.len() == cfg.set.count(),
        ensures
            after@.len() == cfg.set.count(),
            exists|t: Stages| #[trigger]
                self.relaxes(cfg, lambda, rho, u, g, *geq, t, after@),
    {
        let strain_of = &self.strain;
        let strain: u32 = strain_of(&g, geq);
        let tau: u32 = smagorinsky_tau(
            cfg.tau0,
            cfg.tau_max,
            cfg.smagorinsky_c,
            rho,
            strain,
            &self.raised,
        );
        let rates: (u32, u32) = trt_rates(tau, lambda, &self.even, &self.odd);
        let mut out: Vec<u32> = g;
        collide(
            cfg.collision,
            cfg.set,
            &mut out,
            geq,
            rates,
            &self.single,
            &self.pair,
            &self.rebuild,
        );
        let ghost collided = out@;
        apply_force(
            cfg.set,
            &mut out,
            u,
            cfg.body_force,
            rates,
            &self.term,
            &self.rest,
            &self.push,
        );
        proof {
            let t = Stages { strain, tau, rates, collided };
            assert(self.relaxes(cfg, lambda, rho, u, g, *geq, t, out@));
        }
        out
    }
}

/// An equilibrium is left alone by every operator: where the arithmetic keeps a population
/// that is at its equilibrium, a pair that is, and a list that is, collision keeps them
/// all.
pub proof fn an_equilibrium_is_left_alone<
    S: Fn(u32, u32, u32) -> u32,
    Q: Fn(u32, u32, u32, u32, u32, u32) -> (u32, u32),
    H: Fn(&Vec<u32>, &Vec<u32>, u32) -> Vec<u32>,
>(
    model: CollisionModel,
    set: VelocitySet,
    geq: Vec<u32>,
    rates: (u32, u32),
    single: S,
    pair: Q,
    rebuild: H,
    after: Seq<u32>,
)
    requires
        geq@.len() == set.count(),
        is_collided(model, geq, geq, rates, single, pair, rebuild, after),
        forall|e: u32, s: u32, r: u32| #[trigger] single.ensures((e, e, s), r) ==> r == e,
        forall|a: u32, b: u32, s: u32, o: u32, r: (u32, u32)| #[trigger]
            pair.ensures((a, b, a, b, s, o), r) ==> r == (a, b),
        forall|e: &Vec<u32>, s: u32, r: Vec<u32>| #[trigger]
            rebuild.ensures((e, e, s), r) ==> r@ == e@,
    ensures
        after == geq@,
{
    match model {
        CollisionModel::Bgk => {
            assert(after =~= geq@);
        },
        CollisionModel::Trt => {
            assert forall|i: int| 0 <= i < after.len() implies after[i] == geq@[i] by {
                if i % 2 == 1 {
                    assert(relaxed_together(pair, geq@, geq@, rates, after, i));
                } else if i > 0 {
                    assert(relaxed_together(pair, geq@, geq@, rates, after, i - 1));
                }
            }
            assert(after =~= geq@);
        },
        CollisionModel::RegularizedBgk => {},
    }
}

/// At one rate the two-rate operator is the single-rate one: where relaxing a direction
/// and its opposite at the same rate relaxes each by itself, it relaxes every population
/// toward its own equilibrium.
pub proof fn two_equal_rates_are_one<
    S: Fn(u32, u32, u32) -> u32,
    Q: Fn(u32, u32, u32, u32, u32, u32) -> (u32, u32),
    H: Fn(&Vec<u32>, &Vec<u32>, u32) -> Vec<u32>,
>(
    set: VelocitySet,
    before: Vec<u32>,
    geq: Vec<u32>,
    s: u32,
    single: S,
    pair: Q,
    rebuild: H,
    after: Seq<u32>,
)
    requires
        before@.len() == set.count(),
        is_collided(CollisionModel::Trt, before, geq, (s, s), single, pair, rebuild, after),
        forall|a: u32, b: u32, c: u32, d: u32, r: (u32, u32)| #[trigger]
            pair.ensures((a, b, c, d, s, s), r) ==> single.ensures((a, c, s), r.0)
                && single.ensures((b, d, s), r.1),
    ensures
        after.len() == set.count(),
        forall|i: int|
            0 <= i < after.len() ==> single.ensures((before@[i], geq@[i], s), #[trigger] after[i]),
        is_collided(CollisionModel::Bgk, before, geq, (s, s), single, pair, rebuild, after),
{
    assert forall|i: int| 0 <= i < after.len() implies single.ensures(
        (before@[i], geq@[i], s),
        #[trigger] after[i],
    ) by {
        if i % 2 == 1 {
            assert(relaxed_together(pair, before@, geq@, (s, s), after, i));
        } else if i > 0 {
            assert(relaxed_together(pair, before@, geq@, (s, s), after, i - 1));
        }
    }
}

/// What leaves a collision depends on a population, its opposite and their equilibria
/// alone, in either two- or single-rate form: two lists that agree on a pair of opposite
/// directions come out of the same arithmetic on it.
pub proof fn opposites_collide_together<
    S: Fn(u32, u32, u32) -> u32,
    Q: Fn(u32, u32, u32, u32, u32, u32) -> (u32, u32),
    H: Fn(&Vec<u32>, &Vec<u32>, u32) -> Vec<u32>,
>(
    model: CollisionModel,
    set: VelocitySet,
    before: Vec<u32>,
    geq: Vec<u32>,
    rates: (u32, u32),
    single: S,
    pair: Q,
    rebuild: H,
    after: Seq<u32>,
    i: int,
)
    requires
        model != CollisionModel::RegularizedBgk,
        before@.len() == set.count(),
        is_collided(model, before, geq, rates, single, pair, rebuild, after),
        1 <= i < set.count(),
        i % 2 == 1,
    ensures
        single.ensures((before@[0], geq@[0], rates.0), after[0]),
        model == CollisionModel::Trt ==> pair.ensures(
            (before@[i], before@[i + 1], geq@[i], geq@[i + 1], rates.0, rates.1),
            (after[i], after[i + 1]),
        ),
        model == CollisionModel::Bgk ==> single.ensures(
            (before@[i], geq@[i], rates.0),
            after[i],
        ) && single.ensures((before@[i + 1], geq@[i + 1], rates.0), after[i + 1]),
{
    if model == CollisionModel::Trt {
        assert(relaxed_together(pair, before@, geq@, rates, after, i));
    } else {
        assert(after[i + 1] == after[i + 1]);
    }
}

/// What the rates of a collision come from. Without the eddy viscosity model the
/// relaxation time is the configured one; with it, it is what the strain raises it to,
/// as far as that is between the configured time and the limit. The even rate is that
/// time's, and so is the odd one where there is a magic parameter; without one the two
/// are the same.
pub proof fn the_rates_come_from_the_viscosity<
    N: Fn(&Vec<u32>, &Vec<u32>) -> u32,
    T: Fn(u32, u32, u32, u32) -> u32,
    U: Fn(u32) -> u32,
    O: Fn(u32, u32) -> u32,
    S: Fn(u32, u32, u32) -> u32,
    Q: Fn(u32, u32, u32, u32, u32, u32) -> (u32, u32),
    H: Fn(&Vec<u32>, &Vec<u32>, u32) -> Vec<u32>,
    G: Fn(usize, Vec3, Vec3) -> u32,
    X: Fn(u32, u32, u32) -> u32,
    W: Fn(u32, u32, u32, u32, u32, u32) -> (u32, u32),
>(
    c: &Collision<N, T, U, O, S, Q, H, G, X, W>,
    cfg: &SolverConfig,
    lambda: u32,
    rho: u32,
    u: Vec3,
    g: Vec<u32>,
    geq: Vec<u32>,
    t: Stages,
    after: Seq<u32>,
)
    requires
        c.relaxes(cfg, lambda, rho, u, g, geq, t, after),
    ensures
        le32(cfg.smagorinsky_c, 0) ==> t.tau == cfg.tau0,
        !le32(cfg.smagorinsky_c, 0) ==> exists|strain: u32, raised: u32| #[trigger]
            c.strain.ensures((&g, &geq), strain) && #[trigger] c.raised.ensures(
                (cfg.tau0, cfg.smagorinsky_c, rho, strain),
                raised,
            ) && (le32(cfg.tau0, raised) && le32(raised, cfg.tau_max) ==> t.tau == raised),
        c.even.ensures((t.tau,), t.rates.0),
        le32(lambda, 0) ==> t.rates.1 == t.rates.0,
        !le32(lambda, 0) ==> c.odd.ensures((t.tau, lambda), t.rates.1),
{
    if !le32(cfg.smagorinsky_c, 0) {
        let raised = choose|x: u32| #[trigger]
            c.raised.ensures((cfg.tau0, cfg.smagorinsky_c, rho, t.strain), x) && t.tau == clamped32(
                x,
                cfg.tau0,
                cfg.tau_max,
            );
        assert(c.strain.ensures((&g, &geq), t.strain));
    }
}

/// What the body force does after the collision: nothing where there is none; else every
/// population takes the term of its own direction, together with its opposite's.
pub proof fn the_force_follows_the_collision<
    N: Fn(&Vec<u32>, &Vec<u32>) -> u32,
    T: Fn(u32, u32, u32, u32) -> u32,
    U: Fn(u32) -> u32,
    O: Fn(u32, u32) -> u32,
    S: Fn(u32, u32, u32) -> u32,
    Q: Fn(u32, u32, u32, u32, u32, u32) -> (u32, u32),
    H: Fn(&Vec<u32>, &Vec<u32>, u32) -> Vec<u32>,
    G: Fn(usize, Vec3, Vec3) -> u32,
    X: Fn(u32, u32, u32) -> u32,
    W: Fn(u32, u32, u32, u32, u32, u32) -> (u32, u32),
>(
    c: &Collision<N, T, U, O, S, Q, H, G, X, W>,
    cfg: &SolverConfig,
    lambda: u32,
    rho: u32,
    u: Vec3,
    g: Vec<u32>,
    geq: Vec<u32>,
    t: Stages,
    after: Seq<u32>,
    i: int,
)
    requires
        c.relaxes(cfg, lambda, rho, u, g, geq, t, after),
        g@.len() == cfg.set.count(),
        1 <= i < cfg.set.count(),
        i % 2 == 1,
    ensures
        eq32(cfg.body_force.x, 0) && eq32(cfg.body_force.y, 0) && eq32(cfg.body_force.z, 0)
            ==> after == t.collided,
        !(eq32(cfg.body_force.x, 0) && eq32(cfg.body_force.y, 0) && eq32(cfg.body_force.z, 0)) ==> {
            &&& exists|r: u32| #[trigger]
                c.term.ensures((0usize, u, cfg.body_force), r) && c.rest.ensures(
                    (t.collided[0], r, t.rates.0),
                    after[0],
                )
            &&& t.collided.len() == cfg.set.count() ==> exists|a: u32, b: u32| #[trigger]
                c.term.ensures((i as usize, u, cfg.body_force), a) && #[trigger] c.term.ensures(
                    ((i + 1) as usize, u, cfg.body_force),
                    b,
                ) && c.push.ensures(
                    (t.collided[i], t.collided[i + 1], a, b, t.rates.0, t.rates.1),
                    (after[i], after[i + 1]),
                )
        },
        t.collided.len() == cfg.set.count(),
        is_collided(cfg.collision, g, geq, t.rates, c.single, c.pair, c.rebuild, t.collided),
{
    let f = cfg.body_force;
    if !(eq32(f.x, 0) && eq32(f.y, 0) && eq32(f.z, 0)) {
        let terms = choose|terms: Seq<u32>| {
            &&& #[trigger] are_terms(c.term, u, f, terms)
            &&& terms.len() == t.collided.len()
            &&& after.len() == t.collided.len()
            &&& c.rest.ensures((t.collided[0], terms[0], t.rates.0), after[0])
            &&& forall|i: int|
                0 < i < after.len() && i % 2 == 1 ==> #[trigger] relaxed_together(
                    c.push,
                    t.collided,
                    terms,
                    t.rates,
                    after,
                    i,
                )
        };
        assert(c.term.ensures((0usize, u, f), terms[0]));
        assert(c.term.ensures((i as usize, u, f), terms[i]));
        assert(c.term.ensures(((i + 1) as usize, u, f), terms[i + 1]));
        assert(relaxed_together(c.push, t.collided, terms, t.rates, after, i));
    }
}

} // verus!
