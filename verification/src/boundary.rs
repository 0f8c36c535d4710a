//! Domain padding, the per-cell link mask, and the boundary-condition taxonomy.
//!
//! # Why the domain is padded
//!
//! Esoteric Pull parks half of every cell's distributions in the slot belonging
//! to the neighbour at `n - c_m` (see [`crate::lattice`]). For a cell on the low
//! face of the domain that neighbour is outside the grid, and there is nowhere
//! to put the population, including the one that bounce-back needs to hand
//! straight back. So every non-periodic axis gets one cell of solid halo at each
//! end. Periodic axes get no halo and use genuine modular indexing.
//!
//! # Why there is a link mask
//!
//! The bounce-back rule is "load direction `i` with the *opposite* step parity
//! when the upstream neighbour `n - c_i` is solid". Evaluating that literally
//! costs `q - 1` scattered neighbour-flag reads per cell per step. The geometry
//! is static, so one `u32` per cell is computed once, whose bit `i` is set
//! exactly when direction `i` must flip.
use vstd::prelude::*;
use crate::flags::{self, flagged, fluid};
use crate::float_order::{at_most32, le32};
use crate::grid::{
    cell_at, every_index_is_a_cell, in_grid, linear_index, linear_index_leads_back,
    reversed, wrap, wrapped_neighbour, IVec3, UVec3,
};
use crate::lattice::{direction, opposites_reverse, velocity, VelocitySet};

verus! {

/// Interior grid plus the solid halo Esoteric Pull needs on open axes.
#[derive(Clone, Debug)]
pub struct PaddedDomain {
    /// Dimensions the caller asked for.
    pub interior: UVec3,
    /// Dimensions actually allocated, `interior + 2` on each non-periodic axis.
    pub padded: UVec3,
    /// Interior cell `(i,j,k)` lives at padded `(i,j,k) + offset`.
    pub offset: UVec3,
    pub periodic: [bool; 3],
    /// One byte per padded cell. The halo shell is [`flags::SOLID`].
    pub flags: Vec<u8>,
    /// One `u32` per padded cell; bit `i` means "flip the load parity for
    /// direction `i`", i.e. this link ends on a solid cell.
    pub link_mask: Vec<u32>,
}

/// The smaller of two distances.
pub open spec fn least(a: int, b: int) -> int {
    if b < a {
        b
    } else {
        a
    }
}

/// Distance from coordinate `v` to the nearer end of an axis of `n` cells; zero
/// past the far end.
pub open spec fn axis_gap(n: int, v: int) -> int {
    let far = if v < n {
        n - 1 - v
    } else {
        0
    };
    least(v, far)
}

/// Bit `i` of a link mask.
pub open spec fn mask_bit(mask: u32, i: int) -> bool {
    (mask >> (i as u32)) & 1 == 1
}

/// The dimensions after one cell of halo at each end of every open axis.
pub open spec fn padded_dim(n: u32, periodic: bool) -> int {
    if periodic {
        n as int
    } else {
        n + 2
    }
}

/// Whether a padded grid of these interior dimensions can be indexed: every cell
/// index fits in `u32`, and every coordinate in `i32`.
pub open spec fn can_pad(interior: UVec3, periodic: [bool; 3]) -> bool {
    let x = padded_dim(interior.x, periodic[0]);
    let y = padded_dim(interior.y, periodic[1]);
    let z = padded_dim(interior.z, periodic[2]);
    &&& x <= i32::MAX
    &&& y <= i32::MAX
    &&& z <= i32::MAX
    &&& x * y <= u32::MAX
    &&& x * y * z <= u32::MAX
}

impl PaddedDomain {
    /// The shape of a padded domain: dimensions, halo width and array lengths
    /// agree, and every index fits.
    pub open spec fn shaped(&self) -> bool {
        &&& can_pad(self.interior, self.periodic)
        &&& self.offset.x == (if self.periodic[0] { 0u32 } else { 1u32 })
        &&& self.offset.y == (if self.periodic[1] { 0u32 } else { 1u32 })
        &&& self.offset.z == (if self.periodic[2] { 0u32 } else { 1u32 })
        &&& self.padded.x == self.interior.x + 2 * self.offset.x
        &&& self.padded.y == self.interior.y + 2 * self.offset.y
        &&& self.padded.z == self.interior.z + 2 * self.offset.z
        &&& self.flags@.len() == self.padded.volume()
    }

    /// The flags of a padded cell.
    pub open spec fn flag_at(&self, c: UVec3) -> u8 {
        self.flags@[linear_index(self.padded, c)]
    }

    /// Where the population arriving along direction `i` comes from.
    pub open spec fn upstream(&self, c: UVec3, i: int) -> UVec3 {
        wrapped_neighbour(self.padded, c, reversed(velocity(i)))
    }

    /// Whether the load of direction `i` at a cell must flip its parity: the
    /// cell is in the flow and the cell upstream along `i` is not.
    pub open spec fn flips(&self, set: VelocitySet, c: UVec3, i: int) -> bool {
        &&& fluid(self.flag_at(c))
        &&& 1 <= i < set.count()
        &&& !fluid(self.flag_at(self.upstream(c, i)))
    }

    /// The link mask says exactly which links end on a solid cell.
    pub open spec fn masked(&self, set: VelocitySet) -> bool {
        &&& self.link_mask@.len() == self.padded.volume()
        &&& forall|cell: int, i: int|
            #![trigger mask_bit(self.link_mask@[cell], i)]
            0 <= cell < self.padded.volume() && 0 <= i < 32 ==> (mask_bit(self.link_mask@[cell], i)
                <==> self.flips(set, cell_at(self.padded, cell), i))
    }

    /// The padded cell of an interior cell.
    pub open spec fn inside(&self, c: UVec3) -> UVec3 {
        UVec3 {
            x: (c.x + self.offset.x) as u32,
            y: (c.y + self.offset.y) as u32,
            z: (c.z + self.offset.z) as u32,
        }
    }

    /// Whether a padded cell belongs to the interior rather than to the halo.
    pub open spec fn is_inside(&self, c: UVec3) -> bool {
        &&& self.offset.x <= c.x < self.offset.x + self.interior.x
        &&& self.offset.y <= c.y < self.offset.y + self.interior.y
        &&& self.offset.z <= c.z < self.offset.z + self.interior.z
    }

    /// Whether every halo cell is solid.
    pub open spec fn halo_is_solid(&self) -> bool {
        forall|c: UVec3|
            in_grid(self.padded, c) && !self.is_inside(c) ==> #[trigger] self.flag_at(c)
                == flags::SOLID
    }

    /// Whether the interior cells carry the flags `mask`, X-fastest.
    pub open spec fn interior_is(&self, mask: Seq<u8>) -> bool {
        forall|c: UVec3|
            #![trigger self.flag_at(self.inside(c))]
            in_grid(self.interior, c) ==> self.flag_at(self.inside(c)) == mask[linear_index(
                self.interior,
                c,
            )]
    }

    /// Build the padded domain from the interior classification produced by the
    /// geometry stage.
    ///
    /// `mask` is one flag byte per interior cell, X-fastest.
    pub fn new(interior: UVec3, periodic: [bool; 3], mask: &[u8], set: VelocitySet) -> (d: Self)
        requires
            can_pad(interior, periodic),
            mask@.len() == interior.volume(),
        ensures
            d.shaped(),
            d.interior == interior,
            d.periodic == periodic,
            d.interior_is(mask@),
            d.halo_is_solid(),
            d.masked(set),
    {
        let pad: UVec3 = UVec3::new(
            if periodic[0] {
                0
            } else {
                1
            },
            if periodic[1] {
                0
            } else {
                1
            },
            if periodic[2] {
                0
            } else {
                1
            },
        );
        let padded: UVec3 = UVec3::new(
            interior.x + pad.x * 2,
            interior.y + pad.y * 2,
            interior.z + pad.z * 2,
        );
        proof {
            lemma_interior_fits(interior, padded);
        }
        let n: u64 = padded.x as u64 * padded.y as u64 * padded.z as u64;
        let mut cell_flags: Vec<u8> = Vec::new();
        let mut cell: u32 = 0;
        while (cell as u64) < n
            invariant
                n == padded.volume(),
                n <= u32::MAX,
                cell <= n,
                pad.x <= 1,
                pad.y <= 1,
                pad.z <= 1,
                padded.x == interior.x + 2 * pad.x,
                padded.y == interior.y + 2 * pad.y,
                padded.z == interior.z + 2 * pad.z,
                interior.volume() <= padded.volume(),
                mask@.len() == interior.volume(),
                cell_flags@.len() == cell,
                forall|k: int|
                    0 <= k < cell ==> #[trigger] cell_flags@[k] == padded_flag(
                        interior,
                        pad,
                        mask@,
                        cell_at(padded, k),
                    ),
            decreases n - cell,
        {
            let c: UVec3 = coords_of(padded, cell);
            let inside: bool = pad.x <= c.x && c.x - pad.x < interior.x && pad.y <= c.y && c.y
                - pad.y < interior.y && pad.z <= c.z && c.z - pad.z < interior.z;
            if inside {
                let at: u32 = linear_of(
                    interior,
                    UVec3::new(c.x - pad.x, c.y - pad.y, c.z - pad.z),
                );
                cell_flags.push(mask[at as usize]);
            } else {
                cell_flags.push(flags::SOLID);
            }
            cell += 1;
        }
        let mut me: PaddedDomain = PaddedDomain {
            interior,
            padded,
            offset: pad,
            periodic,
            flags: cell_flags,
            link_mask: Vec::new(),
        };
        me.rebuild_link_mask(set);
        proof {
            assert forall|c: UVec3| in_grid(padded, c) implies #[trigger] me.flag_at(c)
                == padded_flag(interior, pad, mask@, c) by {
                linear_index_leads_back(padded, c);
            }
            assert forall|c: UVec3| in_grid(interior, c) implies #[trigger] me.flag_at(me.inside(c))
                == mask@[linear_index(interior, c)] by {
                assert(in_grid(padded, me.inside(c)));
            }
        }
        me
    }

    /// A domain of pure fluid, for the analytic validation cases.
    pub fn uniform_fluid(interior: UVec3, periodic: [bool; 3], set: VelocitySet) -> (d: Self)
        requires
            can_pad(interior, periodic),
        ensures
            d.shaped(),
            d.interior == interior,
            d.periodic == periodic,
            forall|c: UVec3|
                in_grid(interior, c) ==> #[trigger] d.flag_at(d.inside(c)) == flags::FLUID,
            d.halo_is_solid(),
            d.masked(set),
    {
        proof {
            lemma_interior_fits(
                interior,
                UVec3 {
                    x: padded_dim(interior.x, periodic[0]) as u32,
                    y: padded_dim(interior.y, periodic[1]) as u32,
                    z: padded_dim(interior.z, periodic[2]) as u32,
                },
            );
        }
        let n: u64 = interior.x as u64 * interior.y as u64 * interior.z as u64;
        let mask: Vec<u8> = vec![flags::FLUID; n as usize];
        let d: PaddedDomain = Self::new(interior, periodic, mask.as_slice(), set);
        proof {
            assert forall|c: UVec3| in_grid(interior, c) implies #[trigger] d.flag_at(d.inside(c))
                == flags::FLUID by {
                linear_index_leads_back(interior, c);
            }
        }
        d
    }

    /// Linear index within the padded grid, X-fastest.
    pub fn linear(&self, c: UVec3) -> (index: u32)
        requires
            self.shaped(),
            in_grid(self.padded, c),
        ensures
            index == linear_index(self.padded, c),
            index < self.padded.volume(),
    {
        linear_of(self.padded, c)
    }

    /// Padded linear index of an interior cell.
    pub fn interior_linear(&self, c: UVec3) -> (index: u32)
        requires
            self.shaped(),
            in_grid(self.interior, c),
        ensures
            index == linear_index(self.padded, self.inside(c)),
            index < self.padded.volume(),
    {
        self.linear(
            UVec3::new(c.x + self.offset.x, c.y + self.offset.y, c.z + self.offset.z),
        )
    }

    /// Neighbour of padded cell `c` in direction `d`, wrapping on every axis.
    ///
    /// Wrapping unconditionally is safe *and* free: on a padded axis the wrap can
    /// only trigger for a halo cell, and halo cells never execute. Doing it this
    /// way means no invocation can ever compute an out-of-range index.
    pub fn neighbour(&self, c: UVec3, d: IVec3) -> (n: UVec3)
        requires
            self.shaped(),
            in_grid(self.padded, c),
        ensures
            n == wrapped_neighbour(self.padded, c, d),
            in_grid(self.padded, n),
    {
        UVec3::new(
            wrap(c.x as i64 + d.x as i64, self.padded.x),
            wrap(c.y as i64 + d.y as i64, self.padded.y),
            wrap(c.z as i64 + d.z as i64, self.padded.z),
        )
    }

    /// The padded cell with a given linear index.
    pub fn coords(&self, cell: u32) -> (c: UVec3)
        requires
            self.shaped(),
            cell < self.padded.volume(),
        ensures
            c == cell_at(self.padded, cell as int),
            in_grid(self.padded, c),
            linear_index(self.padded, c) == cell,
    {
        coords_of(self.padded, cell)
    }

    pub fn padded_cell_count(&self) -> (n: u64)
        requires
            self.shaped(),
        ensures
            n == self.padded.volume(),
    {
        self.padded.x as u64 * self.padded.y as u64 * self.padded.z as u64
    }

    pub fn interior_cell_count(&self) -> (n: u64)
        requires
            self.shaped(),
        ensures
            n == self.interior.volume(),
    {
        proof {
            lemma_interior_fits(self.interior, self.padded);
        }
        self.interior.x as u64 * self.interior.y as u64 * self.interior.z as u64
    }

    /// Distance in cells from the nearest closed domain face, saturating at
    /// `limit`. Periodic axes are excluded, since there is no face there.
    pub open spec fn face_gap(&self, c: UVec3, limit: int) -> int {
        let gx = if self.periodic[0] {
            limit
        } else {
            axis_gap(self.padded.x as int, c.x as int)
        };
        let gy = if self.periodic[1] {
            limit
        } else {
            axis_gap(self.padded.y as int, c.y as int)
        };
        let gz = if self.periodic[2] {
            limit
        } else {
            axis_gap(self.padded.z as int, c.z as int)
        };
        least(least(least(limit, gx), gy), gz)
    }

    /// Distance in cells from the nearest closed domain face, saturating at
    /// `limit`. Periodic axes are excluded, since there is no face there.
    ///
    /// This is what grades the sponge. Grading by distance-to-face rather than
    /// by a per-cell field keeps the sponge free of extra memory traffic, and it
    /// is the right shape for the case that matters: an absorbing layer wrapped
    /// around the open box.
    pub fn face_distance(&self, c: UVec3, limit: u32) -> (d: u32)
        ensures
            d == self.face_gap(c, limit as int),
    {
        let mut d: u32 = limit;
        let mut a: usize = 0;
        while a < 3
            invariant
                a <= 3,
                d == least(
                    least(
                        least(
                            limit as int,
                            if a < 1 || self.periodic[0] {
                                limit as int
                            } else {
                                axis_gap(self.padded.x as int, c.x as int)
                            },
                        ),
                        if a < 2 || self.periodic[1] {
                            limit as int
                        } else {
                            axis_gap(self.padded.y as int, c.y as int)
                        },
                    ),
                    if a < 3 || self.periodic[2] {
                        limit as int
                    } else {
                        axis_gap(self.padded.z as int, c.z as int)
                    },
                ),
            decreases 3 - a,
        {
            if !self.periodic[a] {
                let n: u32 = self.padded.get(a);
                let v: u32 = c.get(a);
                let far: u32 = n.saturating_sub(1).saturating_sub(v);
                let gap: u32 = if v <= far {
                    v
                } else {
                    far
                };
                if gap < d {
                    d = gap;
                }
            }
            a += 1;
        }
        d
    }

    /// How many cells deep into the absorbing layer a padded cell is, out of `cells`.
    pub open spec fn sponged(&self, c: UVec3, cell_flags: u8, cells: u32) -> Option<u32> {
        let gap = self.face_gap(c, cells as int);
        if flagged(cell_flags, flags::SPONGE) && gap < cells {
            Some((cells - gap) as u32)
        } else {
            None
        }
    }

    /// How many cells deep into the absorbing layer a padded cell is, out of `cells`;
    /// `None` outside it.
    pub fn sponge_depth(&self, c: UVec3, cell_flags: u8, cells: u32) -> (depth: Option<u32>)
        ensures
            depth == self.sponged(c, cell_flags, cells),
    {
        if cell_flags & flags::SPONGE == 0 || cells == 0 {
            return None;
        }
        let d: u32 = self.face_distance(c, cells);
        if d >= cells {
            return None;
        }
        Some(cells - d)
    }

    /// Sponge relaxation weight at a padded cell: zero outside the layer and where the
    /// strength is zero or less, and elsewhere what `grade` gives for the strength and
    /// the depth out of `cells`. The ramp is quadratic, the strength times the square of
    /// that fraction: zero at the inner edge of the layer, the full strength at the
    /// face. A step change in damping reflects almost as much as the wall it replaced.
    ///
    /// **Gated on [`flags::SPONGE`].** The distance is only the profile; the
    /// flag is what says where the absorbing layer is. Applying the sponge by
    /// distance alone damps wherever the domain happens to be narrow.
    pub fn sponge_sigma<F: Fn(u32, u32, u32) -> u32>(
        &self,
        c: UVec3,
        cell_flags: u8,
        cells: u32,
        strength: u32,
        grade: &F,
    ) -> (sigma: u32)
        requires
            forall|s: u32, d: u32, n: u32| #[trigger] grade.requires((s, d, n)),
        ensures
            match self.sponged(c, cell_flags, cells) {
                Some(depth) if !le32(strength, 0) => grade.ensures((strength, depth, cells), sigma),
                _ => sigma == 0,
            },
    {
        if at_most32(strength, 0) {
            return 0;
        }
        match self.sponge_depth(c, cell_flags, cells) {
            Some(depth) => grade(strength, depth, cells),
            None => 0,
        }
    }

    /// Recompute the link mask from the flags. Call after changing the geometry.
    pub fn rebuild_link_mask(&mut self, set: VelocitySet)
        requires
            old(self).shaped(),
        ensures
            final(self).shaped(),
            final(self).masked(set),
            final(self).interior == old(self).interior,
            final(self).padded == old(self).padded,
            final(self).offset == old(self).offset,
            final(self).periodic == old(self).periodic,
            final(self).flags == old(self).flags,
    {
        let n: usize = self.padded_cell_count() as usize;
        let q: usize = set.q();
        let mut mask: Vec<u32> = Vec::new();
        let mut cell: usize = 0;
        while cell < n
            invariant
                self.shaped(),
                *self == *old(self),
                n == self.padded.volume(),
                n <= u32::MAX,
                q == set.count(),
                cell <= n,
                mask@.len() == cell,
                forall|k: int, i: int|
                    #![trigger mask_bit(mask@[k], i)]
                    0 <= k < cell && 0 <= i < 32 ==> (mask_bit(mask@[k], i) <==> self.flips(
                        set,
                        cell_at(self.padded, k),
                        i,
                    )),
            decreases n - cell,
        {
            let c: UVec3 = self.coords(cell as u32);
            let mut m: u32 = 0;
            proof {
                lemma_empty_mask();
            }
            if flags::is_fluid(self.flags[cell]) {
                let mut i: usize = 1;
                while i < q
                    invariant
                        self.shaped(),
                        q == set.count(),
                        1 <= i <= q,
                        in_grid(self.padded, c),
                        fluid(self.flag_at(c)),
                        forall|j: int|
                            #![trigger mask_bit(m, j)]
                            0 <= j < 32 ==> (mask_bit(m, j) <==> j < i && self.flips(set, c, j)),
                    decreases q - i,
                {
                    // The population arriving along direction i comes from n - c_i.
                    let d: IVec3 = direction(i);
                    proof {
                        opposites_reverse(set, i as int);
                    }
                    let up: UVec3 = self.neighbour(c, IVec3::new(-d.x, -d.y, -d.z));
                    let at: u32 = self.linear(up);
                    let ghost before = m;
                    if !flags::is_fluid(self.flags[at as usize]) {
                        m = m | (1u32 << (i as u32));
                    }
                    proof {
                        lemma_set_bit(before, i as u32);
                        assert forall|j: int| 0 <= j < 32 implies (#[trigger] mask_bit(m, j) <==> j
                            < i + 1 && self.flips(set, c, j)) by {
                            assert(mask_bit(before, j) <==> j < i && self.flips(set, c, j));
                            assert((m >> (j as u32)) & 1 == 1 <==> mask_bit(m, j));
                        }
                    }
                    i += 1;
                }
            }
            mask.push(m);
            cell += 1;
        }
        self.link_mask = mask;
    }
}

/// One halo cell is exactly enough: stepping from a cell in the flow along any
/// direction stays inside the padded grid on every open axis, so the wrap never
/// triggers there.
pub proof fn slots_stay_inside_the_padded_grid(
    d: &PaddedDomain,
    set: VelocitySet,
    c: UVec3,
    i: int,
    a: int,
)
    requires
        d.shaped(),
        d.halo_is_solid(),
        in_grid(d.padded, c),
        fluid(d.flag_at(c)),
        0 <= i < set.count(),
        0 <= a < 3,
        !d.periodic[a],
    ensures
        0 <= c.axis(a) - velocity(i).axis(a) < d.padded.axis(a),
        d.upstream(c, i).axis(a) == c.axis(a) - velocity(i).axis(a),
{
    if !d.is_inside(c) {
        assert(d.flag_at(c) == flags::SOLID);
        assert(1u8 & 1u8 != 0) by (bit_vector);
    }
    if i > 0 {
        opposites_reverse(set, i);
    }
    vstd::arithmetic::div_mod::lemma_small_mod(
        (c.axis(a) - velocity(i).axis(a)) as nat,
        d.padded.axis(a) as nat,
    );
}

/// A padded cell's index leads back to the cell, and an index is that of exactly
/// one cell.
pub proof fn coordinates_and_indices_agree(d: &PaddedDomain, c: UVec3, index: int)
    requires
        d.shaped(),
        in_grid(d.padded, c),
        0 <= index < d.padded.volume(),
    ensures
        cell_at(d.padded, linear_index(d.padded, c)) == c,
        linear_index(d.padded, cell_at(d.padded, index)) == index,
        linear_index(d.padded, c) == index <==> c == cell_at(d.padded, index),
{
    linear_index_leads_back(d.padded, c);
    every_index_is_a_cell(d.padded, index);
}

/// The sponge never deepens away from a face: moving a cell one further from
/// every closed face cannot raise its depth in the layer.
pub proof fn sponge_is_monotone(d: &PaddedDomain, a: UVec3, b: UVec3, cells: int)
    requires
        forall|k: int|
            0 <= k < 3 && !d.periodic[k] ==> axis_gap(
                d.padded.axis(k) as int,
                #[trigger] a.axis(k) as int,
            ) <= axis_gap(d.padded.axis(k) as int, b.axis(k) as int),
    ensures
        cells - d.face_gap(b, cells) <= cells - d.face_gap(a, cells),
{
    assert(a.axis(0) == a.x && a.axis(1) == a.y && a.axis(2) == a.z);
}

/// Which boundary treatment a cell gets, decoded from its flags.
///
/// The ordering here is the dispatch priority in the shader: `SOLID` wins over
/// everything (it does not execute at all), then `INLET`, then `OUTLET`, then
/// `EQUILIBRIUM`. `SPONGE` is orthogonal and composes with any of them.
#[derive(Clone, Copy, Debug, PartialEq, Eq, Structural)]
pub enum CellKind {
    Solid,
    Fluid,
    /// Equilibrium at the prescribed velocity and the locally computed density.
    /// Cannot blow up, which is why it is the inlet.
    Inlet,
    /// Convective outflow, with the pressure pinned by anti-bounce-back.
    Outlet,
    /// Open box side: relaxed to `(rho_ref, 0)` so the exit jet can entrain
    /// surrounding air instead of being confined.
    Equilibrium,
}

impl CellKind {
    /// The treatment of a cell with flags `f`.
    pub open spec fn kind(f: u8) -> CellKind {
        if flagged(f, flags::SOLID) {
            CellKind::Solid
        } else if flagged(f, flags::INLET) {
            CellKind::Inlet
        } else if flagged(f, flags::OUTLET) {
            CellKind::Outlet
        } else if flagged(f, flags::EQUILIBRIUM) {
            CellKind::Equilibrium
        } else {
            CellKind::Fluid
        }
    }

    pub fn of(f: u8) -> (k: Self)
        ensures
            k == Self::kind(f),
    {
        if f & flags::SOLID != 0 {
            CellKind::Solid
        } else if f & flags::INLET != 0 {
            CellKind::Inlet
        } else if f & flags::OUTLET != 0 {
            CellKind::Outlet
        } else if f & flags::EQUILIBRIUM != 0 {
            CellKind::Equilibrium
        } else {
            CellKind::Fluid
        }
    }
}

/// The flags a padded cell gets: the interior's own, or the solid of the halo.
pub open spec fn padded_flag(interior: UVec3, pad: UVec3, mask: Seq<u8>, c: UVec3) -> u8 {
    let inner = UVec3 {
        x: (c.x - pad.x) as u32,
        y: (c.y - pad.y) as u32,
        z: (c.z - pad.z) as u32,
    };
    if pad.x <= c.x && pad.y <= c.y && pad.z <= c.z && in_grid(interior, inner) {
        mask[linear_index(interior, inner)]
    } else {
        flags::SOLID
    }
}

/// The cell with a given linear index.
fn coords_of(dims: UVec3, cell: u32) -> (c: UVec3)
    requires
        cell < dims.volume(),
    ensures
        c == cell_at(dims, cell as int),
        in_grid(dims, c),
        linear_index(dims, c) == cell,
{
    proof {
        every_index_is_a_cell(dims, cell as int);
        lemma_positive(dims);
    }
    let row: u32 = cell / dims.x;
    UVec3::new(cell % dims.x, row % dims.y, row / dims.y)
}

/// Linear index of a cell in a grid whose volume fits in `u32`.
fn linear_of(dims: UVec3, c: UVec3) -> (index: u32)
    requires
        in_grid(dims, c),
        dims.volume() <= u32::MAX,
    ensures
        index == linear_index(dims, c),
        index < dims.volume(),
{
    proof {
        linear_index_leads_back(dims, c);
        let row = c.z * dims.y + c.y;
        assert(row <= row * dims.x) by (nonlinear_arith)
            requires
                row >= 0,
                dims.x >= 1,
        ;
        assert(0 <= c.z * dims.y) by (nonlinear_arith);
    }
    (c.z * dims.y + c.y) * dims.x + c.x
}

proof fn lemma_positive(dims: UVec3)
    requires
        0 < dims.volume(),
    ensures
        dims.x > 0,
        dims.y > 0,
        dims.z > 0,
{
    assert(dims.x > 0 && dims.y > 0 && dims.z > 0) by (nonlinear_arith)
        requires
            0 < dims.x * dims.y * dims.z,
    ;
}

proof fn lemma_interior_fits(interior: UVec3, padded: UVec3)
    requires
        interior.x <= padded.x,
        interior.y <= padded.y,
        interior.z <= padded.z,
        padded.x * padded.y <= u32::MAX,
        padded.volume() <= u32::MAX,
    ensures
        interior.x * interior.y <= u32::MAX,
        0 <= interior.volume() <= padded.volume(),
{
    assert(0 <= interior.x * interior.y <= padded.x * padded.y) by (nonlinear_arith)
        requires
            interior.x <= padded.x,
            interior.y <= padded.y,
    ;
    let a = interior.x * interior.y;
    let b = padded.x * padded.y;
    assert(0 <= a * interior.z <= b * padded.z) by (nonlinear_arith)
        requires
            0 <= a <= b,
            interior.z <= padded.z,
    ;
}

proof fn lemma_empty_mask()
    by (bit_vector)
    ensures
        forall|j: u32| j < 32 ==> #[trigger] (0u32 >> j) & 1 == 0,
{
}

proof fn lemma_set_bit(m: u32, i: u32)
    by (bit_vector)
    requires
        i < 32,
    ensures
        forall|j: u32|
            j < 32 ==> ((#[trigger] ((m | (1u32 << i)) >> j)) & 1 == 1 <==> j == i || (m >> j) & 1
                == 1),
{
}

/// The treatment of a cell: solid before anything else, then an inlet, then an outlet,
/// then an open side, and plain fluid if it is none of them, whatever else is marked.
pub proof fn the_first_mark_decides_the_treatment(f: u8)
    ensures
        CellKind::kind(f) == CellKind::Solid <==> f % 2 == 1,
        CellKind::kind(f) == CellKind::Inlet <==> f % 2 == 0 && (f / 4) % 2 == 1,
        CellKind::kind(f) == CellKind::Outlet <==> f % 2 == 0 && (f / 4) % 2 == 0 && (f / 8) % 2
            == 1,
        CellKind::kind(f) == CellKind::Equilibrium <==> f % 2 == 0 && (f / 4) % 2 == 0 && (f / 8)
            % 2 == 0 && (f / 32) % 2 == 1,
        CellKind::kind(f) != CellKind::Solid <==> fluid(f),
{
    flags::the_flags_are_separate_bits(f);
}

/// How far a cell is from the faces: the distance is the limit, or that to an end of some
/// open axis, and never more than either.
pub proof fn the_face_distance_is_the_least(d: &PaddedDomain, c: UVec3, limit: int, a: int)
    requires
        in_grid(d.padded, c),
        limit >= 0,
        0 <= a < 3,
    ensures
        0 <= d.face_gap(c, limit) <= limit,
        !d.periodic[a] ==> d.face_gap(c, limit) <= c.axis(a) && d.face_gap(c, limit)
            <= d.padded.axis(a) - 1 - c.axis(a),
        d.face_gap(c, limit) < limit ==> exists|b: int|
            0 <= b < 3 && !d.periodic[b] && (#[trigger] c.axis(b) == d.face_gap(c, limit)
                || d.padded.axis(b) - 1 - c.axis(b) == d.face_gap(c, limit)),
{
    assert(c.axis(0) == c.x && c.axis(1) == c.y && c.axis(2) == c.z);
}

/// The link mask of a fluid cell marks the links that come from solid cells: bit `i` says
/// that the cell one step against direction `i` is solid. A solid cell has none.
pub proof fn the_mask_marks_the_links_from_solid_cells(
    d: &PaddedDomain,
    set: VelocitySet,
    cell: int,
    i: int,
)
    requires
        d.shaped(),
        d.masked(set),
        0 <= cell < d.padded.volume(),
        1 <= i < set.count(),
    ensures
        mask_bit(d.link_mask@[cell], i) <==> d.flags@[cell] % 2 == 0 && d.flags@[linear_index(
            d.padded,
            wrapped_neighbour(
                d.padded,
                cell_at(d.padded, cell),
                IVec3 {
                    x: (0 - velocity(i).x) as i32,
                    y: (0 - velocity(i).y) as i32,
                    z: (0 - velocity(i).z) as i32,
                },
            ),
        )] % 2 == 1,
        !mask_bit(d.link_mask@[cell], 0),
{
    let c = cell_at(d.padded, cell);
    every_index_is_a_cell(d.padded, cell);
    assert(mask_bit(d.link_mask@[cell], i) <==> d.flips(set, c, i));
    assert(mask_bit(d.link_mask@[cell], 0) <==> d.flips(set, c, 0));
    flags::the_flags_are_separate_bits(d.flags@[cell]);
    flags::the_flags_are_separate_bits(d.flag_at(d.upstream(c, i)));
}

/// The flags of the interior are those of the mask, cell by cell, a halo's width further on.
pub proof fn the_padded_box_holds_the_mask(d: &PaddedDomain, mask: Seq<u8>, k: int)
    requires
        d.shaped(),
        d.interior_is(mask),
        0 <= k < d.interior.volume(),
    ensures
        ({
            let c = cell_at(d.interior, k);
            let p = UVec3 {
                x: (c.x + if d.periodic[0] { 0u32 } else { 1u32 }) as u32,
                y: (c.y + if d.periodic[1] { 0u32 } else { 1u32 }) as u32,
                z: (c.z + if d.periodic[2] { 0u32 } else { 1u32 }) as u32,
            };
            &&& in_grid(d.padded, p)
            &&& d.flags@[linear_index(d.padded, p)] == mask[k]
        }),
{
    every_index_is_a_cell(d.interior, k);
    let c = cell_at(d.interior, k);
    assert(d.flag_at(d.inside(c)) == mask[k]);
}

} // verus!
