//! Velocity sets and the in-place streaming scheme.
//!
//! Direction 0 is rest. Every other direction belongs to a pair `(m, m+1)` with
//! `m` odd, whose two members point opposite ways.
//!
//! # Esoteric Pull
//!
//! A cell has two addresses per pair: one slot indexed by itself and one indexed
//! by the neighbour at `n - c_m`. Which of the pair's two direction buffers is
//! at which of them alternates with the parity of the step:
//!
//! ```text
//!   load  f_m     <- slot(n - c_m, p ? m   : m+1)
//!   load  f_{m+1} <- slot(n,       p ? m+1 : m  )
//!   store f_m     -> slot(n,       p ? m+1 : m  )
//!   store f_{m+1} -> slot(n - c_m, p ? m   : m+1)
//! ```
//!
//! A cell reads and writes the same two slots, so one buffer is enough and no
//! two cells ever touch the same slot within a step.
use vstd::prelude::*;
use crate::grid::{reversed, IVec3};

verus! {

/// Which discrete velocities the lattice has.
#[derive(Clone, Copy, Debug, PartialEq, Eq, Structural)]
pub enum VelocitySet {
    D3Q19,
    D3Q27,
}

impl VelocitySet {
    /// How many directions there are, rest included.
    pub open spec fn count(self) -> int {
        match self {
            VelocitySet::D3Q19 => 19,
            VelocitySet::D3Q27 => 27,
        }
    }

    /// How many directions there are, rest included.
    pub fn q(self) -> (q: usize)
        ensures
            q == self.count(),
    {
        match self {
            VelocitySet::D3Q19 => 19,
            VelocitySet::D3Q27 => 27,
        }
    }
}

/// The first member of the `k`-th pair: three axes, then the face diagonals,
/// then the corners that only the larger set has.
pub open spec fn pair_velocity(k: int) -> IVec3 {
    if k == 0 {
        IVec3 { x: 1, y: 0, z: 0 }
    } else if k == 1 {
        IVec3 { x: 0, y: 1, z: 0 }
    } else if k == 2 {
        IVec3 { x: 0, y: 0, z: 1 }
    } else if k == 3 {
        IVec3 { x: 1, y: 1, z: 0 }
    } else if k == 4 {
        IVec3 { x: 1, y: 0, z: 1 }
    } else if k == 5 {
        IVec3 { x: 0, y: 1, z: 1 }
    } else if k == 6 {
        IVec3 { x: 1, y: -1i32, z: 0 }
    } else if k == 7 {
        IVec3 { x: 1, y: 0, z: -1i32 }
    } else if k == 8 {
        IVec3 { x: 0, y: 1, z: -1i32 }
    } else if k == 9 {
        IVec3 { x: 1, y: 1, z: 1 }
    } else if k == 10 {
        IVec3 { x: 1, y: 1, z: -1i32 }
    } else if k == 11 {
        IVec3 { x: 1, y: -1i32, z: 1 }
    } else {
        IVec3 { x: -1i32, y: 1, z: 1 }
    }
}

/// The velocity of direction `i`, in cells per step.
pub open spec fn velocity(i: int) -> IVec3 {
    if i == 0 {
        IVec3 { x: 0, y: 0, z: 0 }
    } else if i % 2 == 1 {
        pair_velocity(i / 2)
    } else {
        reversed(pair_velocity(i / 2 - 1))
    }
}

/// The velocity of direction `i`, in cells per step.
pub fn direction(i: usize) -> (d: IVec3)
    requires
        i < 27,
    ensures
        d == velocity(i as int),
{
    if i == 0 {
        return IVec3::new(0, 0, 0);
    }
    let k: usize = (i - 1) / 2;
    let d: IVec3 = match k {
        0 => IVec3::new(1, 0, 0),
        1 => IVec3::new(0, 1, 0),
        2 => IVec3::new(0, 0, 1),
        3 => IVec3::new(1, 1, 0),
        4 => IVec3::new(1, 0, 1),
        5 => IVec3::new(0, 1, 1),
        6 => IVec3::new(1, -1, 0),
        7 => IVec3::new(1, 0, -1),
        8 => IVec3::new(0, 1, -1),
        9 => IVec3::new(1, 1, 1),
        10 => IVec3::new(1, 1, -1),
        11 => IVec3::new(1, -1, 1),
        _ => IVec3::new(-1, 1, 1),
    };
    if i % 2 == 1 {
        d
    } else {
        IVec3::new(-d.x, -d.y, -d.z)
    }
}

/// The direction pointing the other way.
pub open spec fn opposite_of(i: int) -> int {
    if i == 0 {
        0
    } else if i % 2 == 1 {
        i + 1
    } else {
        i - 1
    }
}

/// The direction pointing the other way.
pub fn opposite(i: usize) -> (r: usize)
    requires
        i < usize::MAX,
    ensures
        r == opposite_of(i as int),
{
    if i == 0 {
        0
    } else if i % 2 == 1 {
        i + 1
    } else {
        i - 1
    }
}

/// The odd member of the pair a moving direction belongs to.
pub open spec fn pair_first_of(i: int) -> int {
    if i % 2 == 1 {
        i
    } else {
        i - 1
    }
}

/// The odd member of the pair a moving direction belongs to.
pub fn pair_first(i: usize) -> (m: usize)
    requires
        i >= 1,
    ensures
        m == pair_first_of(i as int),
{
    if i % 2 == 1 {
        i
    } else {
        i - 1
    }
}

/// Opposite directions are distinct, of the same set, mutual, and move opposite
/// ways; no component of a velocity exceeds one cell.
pub proof fn opposites_reverse(set: VelocitySet, i: int)
    requires
        1 <= i < set.count(),
    ensures
        1 <= opposite_of(i) < set.count(),
        opposite_of(i) != i,
        opposite_of(opposite_of(i)) == i,
        velocity(opposite_of(i)) == reversed(velocity(i)),
        velocity(i) == reversed(velocity(opposite_of(i))),
        -1 <= velocity(i).x <= 1,
        -1 <= velocity(i).y <= 1,
        -1 <= velocity(i).z <= 1,
{
}

/// Where one population of a cell lives: which direction buffer, and whether it
/// is indexed by this cell or by the neighbour.
#[derive(Clone, Copy, Debug, PartialEq, Eq, Structural)]
pub struct Addr {
    pub dir: usize,
    /// `Some(d)` means "index by the neighbour in direction `d`".
    pub neighbour_dir: Option<usize>,
}

/// Where direction `i` is loaded from on a step of the given parity.
pub open spec fn load_addr(i: int, odd: bool) -> Addr {
    if i == 0 {
        Addr { dir: 0, neighbour_dir: None }
    } else if i % 2 == 1 {
        Addr { dir: (if odd { i } else { i + 1 }) as usize, neighbour_dir: Some((i + 1) as usize) }
    } else {
        Addr { dir: (if odd { i } else { i - 1 }) as usize, neighbour_dir: None }
    }
}

/// Where direction `i` is stored to on a step of the given parity.
pub open spec fn store_addr(i: int, odd: bool) -> Addr {
    if i == 0 {
        Addr { dir: 0, neighbour_dir: None }
    } else if i % 2 == 1 {
        Addr { dir: (if odd { i + 1 } else { i }) as usize, neighbour_dir: None }
    } else {
        Addr { dir: (if odd { i - 1 } else { i }) as usize, neighbour_dir: Some(i as usize) }
    }
}

/// A load and a store of the opposite direction share an address on every step:
/// the scheme works in place.
pub proof fn load_and_store_of_a_pair_share_addresses(set: VelocitySet, i: int, odd: bool)
    requires
        0 <= i < set.count(),
    ensures
        load_addr(i, odd) == store_addr(opposite_of(i), odd),
{
}

/// The addressing of `q` direction buffers of `cells` cells each.
#[derive(Clone, Copy, Debug, PartialEq, Eq, Structural)]
pub struct EsotericPull {
    pub cells: u64,
    pub q: usize,
}

impl EsotericPull {
    /// Every slot index fits in 64 bits.
    pub open spec fn fits(self) -> bool {
        self.cells * self.q <= u64::MAX
    }

    pub fn new(cells: u64, q: usize) -> (ep: EsotericPull)
        ensures
            ep == (EsotericPull { cells, q }),
    {
        EsotericPull { cells, q }
    }

    /// The flat index of direction buffer `dir` at `cell`.
    pub open spec fn slot_of(self, dir: int, cell: int) -> int {
        dir * self.cells + cell
    }

    /// The flat index an address resolves to, with `neighbour` the cell in the
    /// address's neighbour direction.
    pub open spec fn resolve(self, a: Addr, cell: int, neighbour: int) -> int {
        self.slot_of(
            a.dir as int,
            if a.neighbour_dir is Some {
                neighbour
            } else {
                cell
            },
        )
    }

    fn slot(self, dir: usize, cell: u64) -> (s: u64)
        requires
            self.fits(),
            dir < self.q,
            cell < self.cells,
        ensures
            s == self.slot_of(dir as int, cell as int),
            s < self.cells * self.q,
    {
        proof {
            let d = dir as int;
            let q = self.q as int;
            let n = self.cells as int;
            assert(0 <= d * n && d * n + n <= n * q) by (nonlinear_arith)
                requires
                    0 <= d < q,
                    n >= 0,
            ;
        }
        dir as u64 * self.cells + cell
    }

    /// Where a cell loads direction `i` from. `neighbour` is the cell at
    /// `n - c_m`, for the pair `(m, m+1)` that `i` belongs to.
    pub fn load_slot(self, cell: u64, i: usize, odd: bool, neighbour: u64) -> (s: u64)
        requires
            self.fits(),
            self.q % 2 == 1,
            i < self.q,
            cell < self.cells,
            neighbour < self.cells,
        ensures
            s == self.resolve(load_addr(i as int, odd), cell as int, neighbour as int),
            s < self.cells * self.q,
    {
        if i == 0 {
            self.slot(0, cell)
        } else if i % 2 == 1 {
            self.slot(
                if odd {
                    i
                } else {
                    i + 1
                },
                neighbour,
            )
        } else {
            self.slot(
                if odd {
                    i
                } else {
                    i - 1
                },
                cell,
            )
        }
    }

    /// Where a cell stores direction `i` to. `neighbour` is the cell at
    /// `n - c_m`, for the pair `(m, m+1)` that `i` belongs to.
    pub fn store_slot(self, cell: u64, i: usize, odd: bool, neighbour: u64) -> (s: u64)
        requires
            self.fits(),
            self.q % 2 == 1,
            i < self.q,
            cell < self.cells,
            neighbour < self.cells,
        ensures
            s == self.resolve(store_addr(i as int, odd), cell as int, neighbour as int),
            s < self.cells * self.q,
    {
        if i == 0 {
            self.slot(0, cell)
        } else if i % 2 == 1 {
            self.slot(
                if odd {
                    i + 1
                } else {
                    i
                },
                cell,
            )
        } else {
            self.slot(
                if odd {
                    i - 1
                } else {
                    i
                },
                neighbour,
            )
        }
    }
}

/// Two slots are the same only for the same direction buffer and the same cell.
pub proof fn slots_are_distinct(ep: EsotericPull, dir_a: int, cell_a: int, dir_b: int, cell_b: int)
    requires
        0 <= cell_a < ep.cells,
        0 <= cell_b < ep.cells,
        ep.slot_of(dir_a, cell_a) == ep.slot_of(dir_b, cell_b),
    ensures
        dir_a == dir_b,
        cell_a == cell_b,
{
    let n = ep.cells as int;
    assert(dir_a == dir_b) by (nonlinear_arith)
        requires
            dir_a * n + cell_a == dir_b * n + cell_b,
            0 <= cell_a < n,
            0 <= cell_b < n,
    ;
}

/// The velocities of a set: at rest for direction zero, then every neighbour once. The
/// smaller set has the neighbours that share a face or an edge, the larger one those at
/// the corners as well.
pub proof fn the_velocities_are_the_neighbours(set: VelocitySet, v: IVec3)
    requires
        -1 <= v.x <= 1,
        -1 <= v.y <= 1,
        -1 <= v.z <= 1,
    ensures
        velocity(0) == (IVec3 { x: 0, y: 0, z: 0 }),
        (exists|i: int| 0 <= i < set.count() && #[trigger] velocity(i) == v) <==> set
            == VelocitySet::D3Q27 || v.x == 0 || v.y == 0 || v.z == 0,
        forall|i: int, j: int|
            0 <= i < set.count() && 0 <= j < set.count() && #[trigger] velocity(i)
                == #[trigger] velocity(j) ==> i == j,
{
    let w = direction_of(v);
    if set == VelocitySet::D3Q27 || v.x == 0 || v.y == 0 || v.z == 0 {
        assert(velocity(w) == v);
    }
}

/// The direction that moves at a velocity.
spec fn direction_of(v: IVec3) -> int {
    let k = 9 * v.x + 3 * v.y + v.z;
    let m = if k < 0 {
        -k
    } else {
        k
    };
    let p = if m == 0 {
        0int
    } else if m == 9 {
        1
    } else if m == 3 {
        3
    } else if m == 1 {
        5
    } else if m == 12 {
        7
    } else if m == 10 {
        9
    } else if m == 4 {
        11
    } else if m == 6 {
        13
    } else if m == 8 {
        15
    } else if m == 2 {
        17
    } else if m == 13 {
        19
    } else if m == 11 {
        21
    } else if m == 7 {
        23
    } else {
        26
    };
    if m == 0 {
        0
    } else if m == 5 {
        if k < 0 {
            25
        } else {
            26
        }
    } else if k < 0 {
        p + 1
    } else {
        p
    }
}

/// A direction and its opposite make a pair, of which the odd one comes first.
pub proof fn a_pair_is_a_direction_and_its_opposite(i: int)
    requires
        i >= 1,
    ensures
        pair_first_of(i) % 2 == 1,
        pair_first_of(opposite_of(i)) == pair_first_of(i),
        pair_first_of(i) == i || opposite_of(pair_first_of(i)) == i,
{
}

} // verus!
