//! What inlets, outlets and the absorbing layer do to the flow.
use vstd::prelude::*;
use crate::boundary::{mask_bit, CellKind, PaddedDomain};
use crate::config::{InletSpec, Vec3, ONE};
use crate::flags::{self, flagged, fluid};
use crate::float_order::{eq32, finite32, le32, lt32, nan32};
use crate::grid::{
    cell_at, every_index_is_a_cell, linear_index, wrapped_neighbour, IVec3, UVec3,
};
use crate::kernel::{CellState, Kernel, Moments, Passage, Pull};
use crate::lattice::velocity;
use crate::reference::{Macro, ReferenceLbm};

verus! {

/// One cell along axis `a`, forward or back.
pub open spec fn step_along(a: int, forward: bool) -> IVec3 {
    let d = if forward {
        1i32
    } else {
        -1i32
    };
    IVec3 {
        x: if a == 0 { d } else { 0 },
        y: if a == 1 { d } else { 0 },
        z: if a == 2 { d } else { 0 },
    }
}

/// Whether the cell next to one, along axis `a`, is solid.
pub open spec fn wall_beside(d: &PaddedDomain, cell: int, a: int, forward: bool) -> bool {
    flagged(
        d.flags@[linear_index(
            d.padded,
            wrapped_neighbour(d.padded, cell_at(d.padded, cell), step_along(a, forward)),
        )],
        flags::SOLID,
    )
}

/// The link mask says which of a fluid cell's neighbours along an axis are solid.
proof fn lemma_walls(lbm: &ReferenceLbm, cell: int, a: int)
    requires
        lbm.wf(),
        0 <= cell < lbm.domain.padded.volume(),
        lbm.flows(cell),
        0 <= a < 3,
    ensures
        mask_bit(lbm.domain.link_mask@[cell], 2 * a + 1) <==> wall_beside(
            &lbm.domain,
            cell,
            a,
            false,
        ),
        mask_bit(lbm.domain.link_mask@[cell], 2 * a + 2) <==> wall_beside(
            &lbm.domain,
            cell,
            a,
            true,
        ),
{
    let d = &lbm.domain;
    let c = cell_at(d.padded, cell);
    let mask = d.link_mask@[cell];
    every_index_is_a_cell(d.padded, cell);
    assert(mask_bit(mask, 2 * a + 1) <==> d.flips(lbm.cfg.set, c, 2 * a + 1));
    assert(mask_bit(mask, 2 * a + 2) <==> d.flips(lbm.cfg.set, c, 2 * a + 2));
    assert(d.upstream(c, 2 * a + 1) == wrapped_neighbour(d.padded, c, step_along(a, false)));
    assert(d.upstream(c, 2 * a + 2) == wrapped_neighbour(d.padded, c, step_along(a, true)));
}

/// No air is blown through a wall: where an inlet cell has a wall on either side along an
/// axis that lies in the inlet plane, the velocity it imposes has no component along that
/// axis. Every other component is the one the inlet is set to. All axes are alike.
pub proof fn no_air_is_blown_through_a_wall(
    lbm: &ReferenceLbm,
    cell: int,
    spec: InletSpec,
    a: int,
)
    requires
        lbm.wf(),
        0 <= cell < lbm.domain.padded.volume(),
        lbm.flows(cell),
        0 <= a < 3,
        forall|b: int| 0 <= b < 3 ==> finite32(#[trigger] spec.normal.axis(b)),
        forall|b: int| 0 <= b < 3 ==> finite32(#[trigger] spec.velocity.axis(b)),
    ensures
        eq32(spec.normal.axis(a), 0) && (wall_beside(&lbm.domain, cell, a, true) || wall_beside(
            &lbm.domain,
            cell,
            a,
            false,
        )) ==> lbm.imposed(cell, spec).axis(a) == 0,
        !(eq32(spec.normal.axis(a), 0) && (wall_beside(&lbm.domain, cell, a, true) || wall_beside(
            &lbm.domain,
            cell,
            a,
            false,
        ))) ==> lbm.imposed(cell, spec).axis(a) == spec.velocity.axis(a),
{
    assert(spec.velocity.axis(0) == spec.velocity.x && spec.velocity.axis(1) == spec.velocity.y
        && spec.velocity.axis(2) == spec.velocity.z);
    lemma_walls(lbm, cell, 0);
    lemma_walls(lbm, cell, 1);
    lemma_walls(lbm, cell, 2);
    assert(ReferenceLbm::tangential(spec.normal, a) <==> eq32(spec.normal.axis(a), 0));
}

/// An inlet away from every wall imposes the velocity it is set to, whatever that is.
pub proof fn an_inlet_away_from_walls_is_left_alone(lbm: &ReferenceLbm, cell: int, spec: InletSpec)
    requires
        lbm.wf(),
        0 <= cell < lbm.domain.padded.volume(),
        lbm.flows(cell),
        forall|a: int, forward: bool|
            0 <= a < 3 ==> !#[trigger] wall_beside(&lbm.domain, cell, a, forward),
    ensures
        lbm.imposed(cell, spec) == spec.velocity,
{
    lemma_walls(lbm, cell, 0);
    lemma_walls(lbm, cell, 1);
    lemma_walls(lbm, cell, 2);
}

/// How many cells a padded cell lies from the nearest face, if it lies within `limit` of
/// one: it is that far from one end of some open axis, and no nearer to any.
pub open spec fn from_the_face(d: &PaddedDomain, c: UVec3, gap: int) -> bool {
    &&& exists|a: int|
        0 <= a < 3 && !d.periodic[a] && (#[trigger] c.axis(a) == gap || c.axis(a) + gap
            == d.padded.axis(a) - 1)
    &&& forall|a: int|
        0 <= a < 3 && !d.periodic[a] ==> gap <= #[trigger] c.axis(a) && c.axis(a) + gap
            <= d.padded.axis(a) - 1
}

/// Where the absorbing layer is: a fluid cell takes part in it exactly where it is marked
/// for it, the layer has a strength, and the cell is less than its thickness from an open
/// face. Its depth is what is left of the thickness: all of it at the face, one cell less
/// with every cell inward.
pub proof fn the_absorbing_layer_lines_the_open_faces(lbm: &ReferenceLbm, cell: int, gap: int)
    requires
        lbm.wf(),
        0 <= cell < lbm.domain.padded.volume(),
        lbm.flows(cell),
        from_the_face(&lbm.domain, cell_at(lbm.domain.padded, cell), gap),
    ensures
        lbm.plan_of(cell)->Some_0.sponge_depth == if flagged(lbm.domain.flags@[cell], 16) && lt32(
            0,
            lbm.cfg.sponge_strength,
        ) && gap < lbm.cfg.sponge_cells {
            Some((lbm.cfg.sponge_cells - gap) as u32)
        } else {
            None::<u32>
        },
{
    let c = cell_at(lbm.domain.padded, cell);
    every_index_is_a_cell(lbm.domain.padded, cell);
    let a = choose|a: int|
        0 <= a < 3 && !lbm.domain.periodic[a] && (#[trigger] c.axis(a) == gap || c.axis(a) + gap
            == lbm.domain.padded.axis(a) - 1);
    assert(c.axis(0) == c.x && c.axis(1) == c.y && c.axis(2) == c.z);
    assert(c.axis(a) == gap || c.axis(a) + gap == lbm.domain.padded.axis(a) - 1);
}

/// No face, no layer: where every axis is periodic no cell is part of it.
pub proof fn a_periodic_box_has_no_absorbing_layer(lbm: &ReferenceLbm, cell: int)
    requires
        lbm.domain.periodic[0] && lbm.domain.periodic[1] && lbm.domain.periodic[2],
        lbm.flows(cell),
    ensures
        lbm.plan_of(cell)->Some_0.sponge_depth is None,
{
}

/// The reference density, moving at `u`.
pub open spec fn reference_at(drho: u32, rho: u32, u: Vec3) -> CellState {
    CellState { drho, rho, u }
}

/// What the absorbing layer does: it draws a cell that is part of it toward the
/// equilibrium at the reference density and the cell's own velocity, by the weight of the
/// layer's strength at the cell's depth. By any measure of distance that the blend
/// shortens, what is stored is nearer to that equilibrium than what left the collision
/// and the outflow. A cell outside the layer, or where the weight is nothing, is not
/// touched.
pub proof fn the_absorbing_layer_draws_to_the_reference<
    M: Fn(&Vec<u32>) -> Moments,
    R: Fn(&Vec<u32>, &Vec<bool>, Moments) -> Vec<u32>,
    P: Fn(u32) -> u32,
    V: Fn(Moments, u32) -> Vec3,
    D: Fn(&Vec<u32>, Vec3, Vec3) -> u32,
    E: Fn(CellState) -> Vec<u32>,
    B: Fn(&Vec<u32>, &Vec<u32>, u32) -> Vec<u32>,
    L: Fn(Pull) -> u32,
    N: Fn(&Vec<u32>, &Vec<u32>) -> u32,
    T: Fn(u32, u32, u32, u32) -> u32,
    U: Fn(u32) -> u32,
    O: Fn(u32, u32) -> u32,
    S: Fn(u32, u32, u32) -> u32,
    Q: Fn(u32, u32, u32, u32, u32, u32) -> (u32, u32),
    H: Fn(&Vec<u32>, &Vec<u32>, u32) -> Vec<u32>,
    G: Fn(usize, Vec3, Vec3) -> u32,
    X: Fn(u32, u32, u32) -> u32,
    W: Fn(u32, u32, u32, u32, u32, u32) -> (u32, u32),
>(
    kernel: &Kernel<M, R, P, V, D, E, B, L, N, T, U, O, S, Q, H, G, X, W>,
    lbm: &ReferenceLbm,
    cell: int,
    plan: crate::reference::CellPlan,
    t: Passage,
    away: spec_fn(Seq<u32>, Seq<u32>) -> int,
)
    requires
        kernel.passes(lbm, cell, plan, t),
        forall|g: Vec<u32>, e: Vec<u32>, w: u32, r: Vec<u32>| #[trigger]
            kernel.blend.ensures((&g, &e, w), r) && lt32(0, w) && away(g@, e@) > 0 ==> away(r@, e@)
                < away(g@, e@),
    ensures
        plan.sponge_depth is None ==> t.out == t.drained,
        plan.sponge_depth matches Some(depth) ==> exists|w: u32| #[trigger]
            kernel.weight.ensures(
                (
                    Pull::Sponge {
                        strength: lbm.cfg.sponge_strength,
                        depth,
                        cells: lbm.cfg.sponge_cells,
                    },
                ),
                w,
            ) && if lt32(0, w) {
                exists|target: Vec<u32>| #[trigger]
                    kernel.equilibrium.ensures(
                        (reference_at(kernel.reference_drho, lbm.cfg.rho_ref, t.state.u),),
                        target,
                    ) && kernel.blend.ensures((&t.drained, &target, w), t.out) && (away(
                        t.drained@,
                        target@,
                    ) > 0 ==> away(t.out@, target@) < away(t.drained@, target@))
            } else {
                t.out == t.drained
            },
{
    if let Some(depth) = plan.sponge_depth {
        assert(kernel.weight.ensures((lbm.sponge_pull(depth),), t.sponge_weight));
        if lt32(0, t.sponge_weight) {
            assert(kernel.equilibrium.ensures(
                (reference_at(kernel.reference_drho, lbm.cfg.rho_ref, t.state.u),),
                t.sponge_target,
            ));
        }
    }
}

/// What an outlet does: with an outflow velocity it draws what left the collision toward
/// the equilibrium at the reference density and its own velocity, by the weight of that
/// velocity; any other cell hands on what left the collision.
pub proof fn an_outlet_drains_to_the_reference<
    M: Fn(&Vec<u32>) -> Moments,
    R: Fn(&Vec<u32>, &Vec<bool>, Moments) -> Vec<u32>,
    P: Fn(u32) -> u32,
    V: Fn(Moments, u32) -> Vec3,
    D: Fn(&Vec<u32>, Vec3, Vec3) -> u32,
    E: Fn(CellState) -> Vec<u32>,
    B: Fn(&Vec<u32>, &Vec<u32>, u32) -> Vec<u32>,
    L: Fn(Pull) -> u32,
    N: Fn(&Vec<u32>, &Vec<u32>) -> u32,
    T: Fn(u32, u32, u32, u32) -> u32,
    U: Fn(u32) -> u32,
    O: Fn(u32, u32) -> u32,
    S: Fn(u32, u32, u32) -> u32,
    Q: Fn(u32, u32, u32, u32, u32, u32) -> (u32, u32),
    H: Fn(&Vec<u32>, &Vec<u32>, u32) -> Vec<u32>,
    G: Fn(usize, Vec3, Vec3) -> u32,
    X: Fn(u32, u32, u32) -> u32,
    W: Fn(u32, u32, u32, u32, u32, u32) -> (u32, u32),
>(
    kernel: &Kernel<M, R, P, V, D, E, B, L, N, T, U, O, S, Q, H, G, X, W>,
    lbm: &ReferenceLbm,
    cell: int,
    t: Passage,
    away: spec_fn(Seq<u32>, Seq<u32>) -> int,
)
    requires
        lbm.flows(cell),
        kernel.passes(lbm, cell, lbm.plan_of(cell)->Some_0, t),
        forall|g: Vec<u32>, e: Vec<u32>, w: u32, r: Vec<u32>| #[trigger]
            kernel.blend.ensures((&g, &e, w), r) && lt32(0, w) && away(g@, e@) > 0 ==> away(r@, e@)
                < away(g@, e@),
    ensures
        is_outlet(lbm.domain.flags@[cell]) && lt32(0, lbm.cfg.outflow_velocity) ==> exists|
            w: u32,
            target: Vec<u32>,
        | #[trigger]
            kernel.weight.ensures((Pull::Outflow(lbm.cfg.outflow_velocity),), w) && #[trigger]
            kernel.equilibrium.ensures(
                (reference_at(kernel.reference_drho, lbm.cfg.rho_ref, t.state.u),),
                target,
            ) && kernel.blend.ensures((&t.collided, &target, w), t.drained) && (lt32(0, w) && away(
                t.collided@,
                target@,
            ) > 0 ==> away(t.drained@, target@) < away(t.collided@, target@)),
        !(is_outlet(lbm.domain.flags@[cell]) && lt32(0, lbm.cfg.outflow_velocity)) ==> t.drained
            == t.collided,
{
    let f = lbm.domain.flags@[cell];
    assert(8u8 == flags::OUTLET && 4u8 == flags::INLET);
    if is_outlet(f) && lt32(0, lbm.cfg.outflow_velocity) {
        assert(kernel.weight.ensures((Pull::Outflow(lbm.cfg.outflow_velocity),), t.outflow_weight));
        assert(kernel.equilibrium.ensures(
            (reference_at(kernel.reference_drho, lbm.cfg.rho_ref, t.state.u),),
            t.outflow_target,
        ));
    }
}

/// Whether the flags of a fluid cell make it an outlet.
pub open spec fn is_outlet(f: u8) -> bool {
    flagged(f, 8) && !flagged(f, 4)
}

/// Whether the flags of a fluid cell make it an open side.
pub open spec fn is_open_side(f: u8) -> bool {
    flagged(f, 32) && !flagged(f, 4) && !flagged(f, 8)
}

/// The state a cell relaxes to: an inlet's is the velocity of the inlet that its two high
/// flag bits number, an open side's is the reference density at rest, and any other
/// cell's is its own density and velocity. Inlets and open sides store that equilibrium
/// and nothing of what arrived; every other cell collides.
pub proof fn each_kind_of_cell_has_its_state<
    M: Fn(&Vec<u32>) -> Moments,
    R: Fn(&Vec<u32>, &Vec<bool>, Moments) -> Vec<u32>,
    P: Fn(u32) -> u32,
    V: Fn(Moments, u32) -> Vec3,
    D: Fn(&Vec<u32>, Vec3, Vec3) -> u32,
    E: Fn(CellState) -> Vec<u32>,
    B: Fn(&Vec<u32>, &Vec<u32>, u32) -> Vec<u32>,
    L: Fn(Pull) -> u32,
    N: Fn(&Vec<u32>, &Vec<u32>) -> u32,
    T: Fn(u32, u32, u32, u32) -> u32,
    U: Fn(u32) -> u32,
    O: Fn(u32, u32) -> u32,
    S: Fn(u32, u32, u32) -> u32,
    Q: Fn(u32, u32, u32, u32, u32, u32) -> (u32, u32),
    H: Fn(&Vec<u32>, &Vec<u32>, u32) -> Vec<u32>,
    G: Fn(usize, Vec3, Vec3) -> u32,
    X: Fn(u32, u32, u32) -> u32,
    W: Fn(u32, u32, u32, u32, u32, u32) -> (u32, u32),
>(
    kernel: &Kernel<M, R, P, V, D, E, B, L, N, T, U, O, S, Q, H, G, X, W>,
    lbm: &ReferenceLbm,
    cell: int,
    t: Passage,
)
    requires
        lbm.flows(cell),
        kernel.passes(lbm, cell, lbm.plan_of(cell)->Some_0, t),
    ensures
        flagged(lbm.domain.flags@[cell], 4) ==> t.state.u == lbm.imposed(
            cell,
            lbm.cfg.inlet((lbm.domain.flags@[cell] / 64) as int),
        ) && t.collided == t.eq && kernel.density.ensures((t.state.drho,), t.state.rho),
        is_open_side(lbm.domain.flags@[cell]) ==> t.state == reference_at(
            kernel.reference_drho,
            lbm.cfg.rho_ref,
            Vec3 { x: 0, y: 0, z: 0 },
        ) && t.collided == t.eq,
        !flagged(lbm.domain.flags@[cell], 4) && !is_open_side(lbm.domain.flags@[cell]) ==> {
            &&& t.state.drho == t.sums.drho
            &&& kernel.moments.ensures((&t.settled,), t.sums)
            &&& kernel.density.ensures((t.sums.drho,), t.state.rho)
            &&& kernel.velocity.ensures((t.sums, t.state.rho), t.state.u)
            &&& kernel.collision.relaxes(
                &lbm.cfg,
                if lbm.cfg.collision == crate::collision::CollisionModel::Trt {
                    lbm.cfg.trt_lambda
                } else {
                    0
                },
                t.state.rho,
                t.state.u,
                t.settled,
                t.eq,
                t.stages,
                t.collided@,
            )
        },
        kernel.equilibrium.ensures((t.state,), t.eq),
        !(is_outlet(lbm.domain.flags@[cell]) && lbm.cfg.outlet_anti_bounce_back) ==> t.settled
            == t.loaded,
{
    assert(8u8 == flags::OUTLET && 4u8 == flags::INLET && 32u8 == flags::EQUILIBRIUM);
}

/// The density an inlet floats at: within the band it is exactly the density that arrived
/// where the inlet stands free in the fluid, and exactly the one closed from the known
/// populations along its normal elsewhere; beyond the band it is the end of the band that
/// is nearer.
pub proof fn an_inlet_floats_at_the_density_of_the_flow<
    M: Fn(&Vec<u32>) -> Moments,
    R: Fn(&Vec<u32>, &Vec<bool>, Moments) -> Vec<u32>,
    P: Fn(u32) -> u32,
    V: Fn(Moments, u32) -> Vec3,
    D: Fn(&Vec<u32>, Vec3, Vec3) -> u32,
    E: Fn(CellState) -> Vec<u32>,
    B: Fn(&Vec<u32>, &Vec<u32>, u32) -> Vec<u32>,
    L: Fn(Pull) -> u32,
    N: Fn(&Vec<u32>, &Vec<u32>) -> u32,
    T: Fn(u32, u32, u32, u32) -> u32,
    U: Fn(u32) -> u32,
    O: Fn(u32, u32) -> u32,
    S: Fn(u32, u32, u32) -> u32,
    Q: Fn(u32, u32, u32, u32, u32, u32) -> (u32, u32),
    H: Fn(&Vec<u32>, &Vec<u32>, u32) -> Vec<u32>,
    G: Fn(usize, Vec3, Vec3) -> u32,
    X: Fn(u32, u32, u32) -> u32,
    W: Fn(u32, u32, u32, u32, u32, u32) -> (u32, u32),
>(
    kernel: &Kernel<M, R, P, V, D, E, B, L, N, T, U, O, S, Q, H, G, X, W>,
    spec: InletSpec,
    u: Vec3,
    g: Vec<u32>,
    sums: Moments,
    drho: u32,
    free: u32,
)
    requires
        kernel.floats(spec, u, g, sums, drho),
        lt32(kernel.band.0, kernel.band.1),
        spec.local_density ==> free == sums.drho,
        !spec.local_density ==> forall|closed: u32| #[trigger]
            kernel.closure.ensures((&g, spec.normal, u), closed) ==> closed == free,
    ensures
        le32(kernel.band.0, free) && le32(free, kernel.band.1) ==> drho == free,
        lt32(free, kernel.band.0) ==> drho == kernel.band.0,
        lt32(kernel.band.1, free) ==> drho == kernel.band.1,
        nan32(free) ==> nan32(drho),
{
}

/// Which links an outlet that pins its pressure replaces, with a normal along axis `a`:
/// those that come from a solid cell, point against the normal, and whose far end leaves
/// the interior along that axis alone. A link that leaves sideways is a wall's and never
/// replaced, so a side wall does not become an opening at the corner.
pub proof fn an_outlet_replaces_the_links_that_leave_through_it(
    lbm: &ReferenceLbm,
    cell: int,
    against: Seq<bool>,
    links: Seq<bool>,
    a: int,
    i: int,
)
    requires
        lbm.wf(),
        0 <= cell < lbm.domain.padded.volume(),
        lbm.flows(cell),
        lbm.replaced(cell, against, links),
        0 <= a < 3,
        lbm.cfg.outlet_normal.axis(a) == 0x3f80_0000 || lbm.cfg.outlet_normal.axis(a)
            == 0xbf80_0000,
        forall|b: int|
            0 <= b < 3 && b != a ==> eq32(#[trigger] lbm.cfg.outlet_normal.axis(b), 0),
        1 <= i < lbm.cfg.set.count(),
    ensures
        links[i] <==> {
            &&& against[i]
            &&& flagged(
                lbm.domain.flag_at(lbm.domain.upstream(cell_at(lbm.domain.padded, cell), i)),
                flags::SOLID,
            )
            &&& forall|b: int|
                0 <= b < 3 && b != a ==> {
                    let far = #[trigger] cell_at(lbm.domain.padded, cell).axis(b) - velocity(i).axis(b);
                    lbm.domain.offset.axis(b) <= far < lbm.domain.offset.axis(b)
                        + lbm.domain.interior.axis(b)
                }
        },
        !links[0],
{
    let n = lbm.cfg.outlet_normal;
    let c = cell_at(lbm.domain.padded, cell);
    every_index_is_a_cell(lbm.domain.padded, cell);
    assert(mask_bit(lbm.domain.link_mask@[cell], i) <==> lbm.domain.flips(lbm.cfg.set, c, i));
    assert(n.axis(0) == n.x && n.axis(1) == n.y && n.axis(2) == n.z);
    assert(!eq32(n.axis(a), 0));
    assert(!(eq32(n.x, 0) && eq32(n.y, 0) && eq32(n.z, 0)));
    assert(lt32(0x3f00_0000, n.axis(a) % 0x8000_0000));
    assert forall|b: int| 0 <= b < 3 && b != a implies !lt32(
        0x3f00_0000,
        #[trigger] n.axis(b) % 0x8000_0000,
    ) by {
        assert(eq32(n.axis(b), 0));
    }
    if links[i] {
        assert forall|b: int| 0 <= b < 3 && b != a implies {
            let far = #[trigger] c.axis(b) - velocity(i).axis(b);
            lbm.domain.offset.axis(b) <= far < lbm.domain.offset.axis(b)
                + lbm.domain.interior.axis(b)
        } by {
            assert(!lt32(0x3f00_0000, n.axis(b) % 0x8000_0000));
        }
    }
    if against[i] && forall|b: int|
        0 <= b < 3 && b != a ==> {
            let far = #[trigger] c.axis(b) - velocity(i).axis(b);
            lbm.domain.offset.axis(b) <= far < lbm.domain.offset.axis(b)
                + lbm.domain.interior.axis(b)
        } {
        assert forall|b: int|
            #![trigger n.axis(b)]
            0 <= b < 3 && !lt32(0x3f00_0000, n.axis(b) % 0x8000_0000) implies {
            let up = c.axis(b) - velocity(i).axis(b);
            lbm.domain.offset.axis(b) <= up < lbm.domain.offset.axis(b)
                + lbm.domain.interior.axis(b)
        } by {
            assert(c.axis(b) == c.axis(b));
        }
    }
}

/// What is read of a cell, whether for a picture or for the mass: a solid one has unit
/// density at rest, an open side the reference density at rest, and an inlet the velocity
/// it imposes. The two readings differ at an inlet only, and there in the density alone.
pub proof fn a_reading_tells_what_the_cell_is<
    M: Fn(&Vec<u32>) -> Moments,
    R: Fn(&Vec<u32>, &Vec<bool>, Moments) -> Vec<u32>,
    P: Fn(u32) -> u32,
    V: Fn(Moments, u32) -> Vec3,
    D: Fn(&Vec<u32>, Vec3, Vec3) -> u32,
    E: Fn(CellState) -> Vec<u32>,
    B: Fn(&Vec<u32>, &Vec<u32>, u32) -> Vec<u32>,
    L: Fn(Pull) -> u32,
    N: Fn(&Vec<u32>, &Vec<u32>) -> u32,
    T: Fn(u32, u32, u32, u32) -> u32,
    U: Fn(u32) -> u32,
    O: Fn(u32, u32) -> u32,
    S: Fn(u32, u32, u32) -> u32,
    Q: Fn(u32, u32, u32, u32, u32, u32) -> (u32, u32),
    H: Fn(&Vec<u32>, &Vec<u32>, u32) -> Vec<u32>,
    G: Fn(usize, Vec3, Vec3) -> u32,
    X: Fn(u32, u32, u32) -> u32,
    W: Fn(u32, u32, u32, u32, u32, u32) -> (u32, u32),
>(
    kernel: &Kernel<M, R, P, V, D, E, B, L, N, T, U, O, S, Q, H, G, X, W>,
    lbm: &ReferenceLbm,
    cell: int,
    m: Macro,
    s: Macro,
)
    requires
        lbm.measured(kernel, cell, m),
        lbm.sampled(kernel, cell, s),
    ensures
        !lbm.flows(cell) ==> m.rho == ONE && m.u == (Vec3 { x: 0, y: 0, z: 0 }) && s == m,
        lbm.flows(cell) && CellKind::kind(lbm.domain.flags@[cell]) == CellKind::Equilibrium
            ==> m.rho == lbm.cfg.rho_ref && m.u == (Vec3 { x: 0, y: 0, z: 0 }) && s == m,
        lbm.flows(cell) && CellKind::kind(lbm.domain.flags@[cell]) == CellKind::Inlet ==> m.u
            == s.u && m.u == lbm.imposed(
            cell,
            lbm.cfg.inlet((lbm.domain.flags@[cell] / 64) as int),
        ),
        CellKind::kind(lbm.domain.flags@[cell]) != CellKind::Inlet ==> lbm.measured(
            kernel,
            cell,
            s,
        ),
        lbm.flows(cell) && CellKind::kind(lbm.domain.flags@[cell]) != CellKind::Equilibrium
            ==> exists|g: Vec<u32>, sums: Moments|
            lbm.loads(cell, g) && #[trigger] kernel.moments.ensures((&g,), sums)
                && kernel.density.ensures((sums.drho,), s.rho),
{
}

/// The mass is that of the fluid: by any way of adding up that adds a cell's density to
/// what came before, it is the sum of the fluid cells' densities, and solid cells weigh
/// nothing.
pub proof fn the_mass_is_that_of_the_fluid<
    M: Fn(&Vec<u32>) -> Moments,
    R: Fn(&Vec<u32>, &Vec<bool>, Moments) -> Vec<u32>,
    P: Fn(u32) -> u32,
    V: Fn(Moments, u32) -> Vec3,
    D: Fn(&Vec<u32>, Vec3, Vec3) -> u32,
    E: Fn(CellState) -> Vec<u32>,
    B: Fn(&Vec<u32>, &Vec<u32>, u32) -> Vec<u32>,
    L: Fn(Pull) -> u32,
    N: Fn(&Vec<u32>, &Vec<u32>) -> u32,
    T: Fn(u32, u32, u32, u32) -> u32,
    U: Fn(u32) -> u32,
    O: Fn(u32, u32) -> u32,
    S: Fn(u32, u32, u32) -> u32,
    Q: Fn(u32, u32, u32, u32, u32, u32) -> (u32, u32),
    H: Fn(&Vec<u32>, &Vec<u32>, u32) -> Vec<u32>,
    G: Fn(usize, Vec3, Vec3) -> u32,
    X: Fn(u32, u32, u32) -> u32,
    W: Fn(u32, u32, u32, u32, u32, u32) -> (u32, u32),
    A: Fn(u64, u32) -> u64,
>(
    kernel: &Kernel<M, R, P, V, D, E, B, L, N, T, U, O, S, Q, H, G, X, W>,
    lbm: &ReferenceLbm,
    accumulate: A,
    amount: spec_fn(u64) -> int,
    weight: spec_fn(int) -> int,
    cells: nat,
    sum: u64,
)
    requires
        lbm.weighs(kernel, accumulate, cells, sum),
        amount(0) == 0,
        forall|before: u64, m: Macro, after: u64, cell: int|
            #![trigger accumulate.ensures((before, m.rho), after), lbm.measured(kernel, cell, m)]
            accumulate.ensures((before, m.rho), after) && lbm.measured(kernel, cell, m)
                ==> amount(after) == amount(before) + weight(cell),
    ensures
        amount(sum) == fluid_weight(lbm, weight, cells),
    decreases cells,
{
    if cells > 0 {
        let last = cells - 1;
        if lbm.flows(last) {
            let (before, m) = choose|before: u64, m: Macro| {
                &&& lbm.weighs(kernel, accumulate, (cells - 1) as nat, before)
                &&& lbm.measured(kernel, cells - 1, m)
                &&& #[trigger] accumulate.ensures((before, m.rho), sum)
            };
            the_mass_is_that_of_the_fluid(
                kernel,
                lbm,
                accumulate,
                amount,
                weight,
                last as nat,
                before,
            );
        } else {
            the_mass_is_that_of_the_fluid(
                kernel,
                lbm,
                accumulate,
                amount,
                weight,
                last as nat,
                sum,
            );
        }
    }
}

/// What the fluid cells below `cells` weigh together.
pub open spec fn fluid_weight(lbm: &ReferenceLbm, weight: spec_fn(int) -> int, cells: nat) -> int
    decreases cells,
{
    if cells == 0 {
        0
    } else {
        fluid_weight(lbm, weight, (cells - 1) as nat) + if lbm.flows(cells - 1) {
            weight(cells - 1)
        } else {
            0
        }
    }
}

} // verus!
