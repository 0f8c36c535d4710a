//! Cell coordinates, X-fastest linear indices and wrapped neighbours.
use vstd::prelude::*;
use vstd::arithmetic::div_mod::{
    lemma_fundamental_div_mod, lemma_fundamental_div_mod_converse, lemma_mod_multiples_vanish, lemma_small_mod,
};

verus! {

/// A cell coordinate, or the dimensions of a grid.
#[derive(Clone, Copy, Debug, PartialEq, Eq, Structural)]
pub struct UVec3 {
    pub x: u32,
    pub y: u32,
    pub z: u32,
}

/// An offset between cells.
#[derive(Clone, Copy, Debug, PartialEq, Eq, Structural)]
pub struct IVec3 {
    pub x: i32,
    pub y: i32,
    pub z: i32,
}

impl UVec3 {
    pub fn new(x: u32, y: u32, z: u32) -> (v: UVec3)
        ensures
            v == (UVec3 { x, y, z }),
    {
        UVec3 { x, y, z }
    }

    pub fn splat(v: u32) -> (r: UVec3)
        ensures
            r == (UVec3 { x: v, y: v, z: v }),
    {
        UVec3 { x: v, y: v, z: v }
    }

    /// Component by axis: 0, 1 and 2 are x, y and z.
    pub open spec fn axis(self, a: int) -> u32 {
        if a == 0 {
            self.x
        } else if a == 1 {
            self.y
        } else {
            self.z
        }
    }

    /// Component by axis: 0, 1 and 2 are x, y and z.
    pub fn get(self, a: usize) -> (v: u32)
        requires
            a < 3,
        ensures
            v == self.axis(a as int),
    {
        if a == 0 {
            self.x
        } else if a == 1 {
            self.y
        } else {
            self.z
        }
    }

    /// The number of cells of a grid with these dimensions.
    pub open spec fn volume(self) -> int {
        self.x * self.y * self.z
    }
}

impl IVec3 {
    pub fn new(x: i32, y: i32, z: i32) -> (v: IVec3)
        ensures
            v == (IVec3 { x, y, z }),
    {
        IVec3 { x, y, z }
    }

    /// Component by axis: 0, 1 and 2 are x, y and z.
    pub open spec fn axis(self, a: int) -> i32 {
        if a == 0 {
            self.x
        } else if a == 1 {
            self.y
        } else {
            self.z
        }
    }

    /// Component by axis: 0, 1 and 2 are x, y and z.
    pub fn get(self, a: usize) -> (v: i32)
        requires
            a < 3,
        ensures
            v == self.axis(a as int),
    {
        if a == 0 {
            self.x
        } else if a == 1 {
            self.y
        } else {
            self.z
        }
    }
}

/// Whether `c` is a cell of a grid of dimensions `dims`.
pub open spec fn in_grid(dims: UVec3, c: UVec3) -> bool {
    c.x < dims.x && c.y < dims.y && c.z < dims.z
}

/// X-fastest linear index of a cell.
pub open spec fn linear_index(dims: UVec3, c: UVec3) -> int {
    (c.z * dims.y + c.y) * dims.x + c.x
}

/// The cell with a given linear index.
pub open spec fn cell_at(dims: UVec3, index: int) -> UVec3 {
    UVec3 {
        x: (index % (dims.x as int)) as u32,
        y: ((index / (dims.x as int)) % (dims.y as int)) as u32,
        z: ((index / (dims.x as int)) / (dims.y as int)) as u32,
    }
}

/// A cell's linear index is within the volume, and leads back to the cell.
pub proof fn linear_index_leads_back(dims: UVec3, c: UVec3)
    requires
        in_grid(dims, c),
    ensures
        0 <= linear_index(dims, c) < dims.volume(),
        cell_at(dims, linear_index(dims, c)) == c,
{
    let row = c.z * dims.y + c.y;
    let nx = dims.x as int;
    let ny = dims.y as int;
    let nz = dims.z as int;
    let x = c.x as int;
    let y = c.y as int;
    let z = c.z as int;
    assert(0 <= row < nz * ny) by (nonlinear_arith)
        requires
            row == z * ny + y,
            0 <= z < nz,
            0 <= y < ny,
    ;
    assert(0 <= row * nx + x < nz * ny * nx) by (nonlinear_arith)
        requires
            0 <= row < nz * ny,
            0 <= x < nx,
    ;
    assert(nz * ny * nx == nx * ny * nz) by (nonlinear_arith);
    lemma_fundamental_div_mod_converse(row * nx + x, nx, row, x);
    lemma_fundamental_div_mod_converse(row, ny, z, y);
}

/// A linear index within the volume is that of exactly one cell.
pub proof fn every_index_is_a_cell(dims: UVec3, index: int)
    requires
        0 <= index < dims.volume(),
    ensures
        in_grid(dims, cell_at(dims, index)),
        linear_index(dims, cell_at(dims, index)) == index,
{
    let nx = dims.x as int;
    let ny = dims.y as int;
    let nz = dims.z as int;
    assert(nx > 0 && ny > 0 && nz > 0) by (nonlinear_arith)
        requires
            0 < nx * ny * nz,
            nx >= 0,
            ny >= 0,
            nz >= 0,
    ;
    let row = index / nx;
    lemma_fundamental_div_mod(index, nx);
    lemma_fundamental_div_mod(row, ny);
    let z = row / ny;
    assert(index % nx >= 0 && index % nx < nx && row % ny >= 0 && row % ny < ny);
    assert(0 <= row < ny * nz) by (nonlinear_arith)
        requires
            index == nx * row + index % nx,
            0 <= index % nx < nx,
            0 <= index < nx * ny * nz,
            nx > 0,
    ;
    assert(0 <= z < nz) by (nonlinear_arith)
        requires
            row == ny * z + row % ny,
            0 <= row % ny < ny,
            0 <= row < ny * nz,
            ny > 0,
    ;
    assert(ny * z == z * ny && nx * row == row * nx) by (nonlinear_arith);
}

/// A coordinate wrapped onto an axis of `n` cells.
pub open spec fn wrapped(v: int, n: int) -> int {
    v % n
}

/// The cell at offset `d` from `c`, wrapping on every axis.
pub open spec fn wrapped_neighbour(dims: UVec3, c: UVec3, d: IVec3) -> UVec3 {
    UVec3 {
        x: wrapped(c.x + d.x, dims.x as int) as u32,
        y: wrapped(c.y + d.y, dims.y as int) as u32,
        z: wrapped(c.z + d.z, dims.z as int) as u32,
    }
}

/// The offset in the opposite direction.
pub open spec fn reversed(d: IVec3) -> IVec3 {
    IVec3 { x: (-d.x) as i32, y: (-d.y) as i32, z: (-d.z) as i32 }
}

/// Wrapping a coordinate, stepping and wrapping again is stepping and wrapping.
proof fn lemma_wrap_step(v: int, d: int, n: int)
    requires
        0 <= v < n,
    ensures
        0 <= wrapped(v + d, n) < n,
        wrapped(wrapped(v + d, n) - d, n) == v,
{
    lemma_fundamental_div_mod(v + d, n);
    let k = (v + d) / n;
    let w = (v + d) % n;
    assert(w - d == v + n * (-k)) by (nonlinear_arith)
        requires
            v + d == n * k + w,
    ;
    lemma_mod_multiples_vanish(-k, v, n);
    lemma_small_mod(v as nat, n as nat);
}

/// A neighbour is a cell of the grid, and the cell is that neighbour's neighbour
/// in the opposite direction.
pub proof fn neighbours_are_mutual(dims: UVec3, c: UVec3, d: IVec3)
    requires
        in_grid(dims, c),
        d.x > i32::MIN,
        d.y > i32::MIN,
        d.z > i32::MIN,
    ensures
        in_grid(dims, wrapped_neighbour(dims, c, d)),
        wrapped_neighbour(dims, wrapped_neighbour(dims, c, d), reversed(d)) == c,
{
    lemma_wrap_step(c.x as int, d.x as int, dims.x as int);
    lemma_wrap_step(c.y as int, d.y as int, dims.y as int);
    lemma_wrap_step(c.z as int, d.z as int, dims.z as int);
}

/// `v` wrapped onto an axis of `n` cells.
pub fn wrap(v: i64, n: u32) -> (r: u32)
    requires
        n > 0,
        v > i64::MIN,
    ensures
        r == wrapped(v as int, n as int),
        r < n,
{
    if 0 <= v && v < n as i64 {
        proof {
            lemma_small_mod(v as nat, n as nat);
        }
        v as u32
    } else if v >= 0 {
        (v as u64 % n as u64) as u32
    } else {
        let m: u64 = (-v) as u64;
        let r: u64 = m % n as u64;
        proof {
            let k = (m as int) / (n as int);
            lemma_fundamental_div_mod(m as int, n as int);
            if r == 0 {
                assert(v as int == (-k) * (n as int) + 0) by (nonlinear_arith)
                    requires
                        v == -(m as int),
                        m as int == n * k + r,
                        r == 0,
                ;
                lemma_fundamental_div_mod_converse(v as int, n as int, -k, 0);
            } else {
                assert(v as int == (-k - 1) * (n as int) + (n - r)) by (nonlinear_arith)
                    requires
                        v == -(m as int),
                        m as int == n * k + r,
                ;
                lemma_fundamental_div_mod_converse(v as int, n as int, -k - 1, n - r);
            }
        }
        if r == 0 {
            0
        } else {
            n - r as u32
        }
    }
}

/// Cells are numbered along x first, then y, then z: one step along an axis is one cell,
/// one row and one layer further.
pub proof fn x_runs_fastest(dims: UVec3, c: UVec3)
    ensures
        linear_index(dims, UVec3 { x: 0, y: 0, z: 0 }) == 0,
        c.x < u32::MAX ==> linear_index(dims, UVec3 { x: (c.x + 1) as u32, ..c }) == linear_index(
            dims,
            c,
        ) + 1,
        c.y < u32::MAX ==> linear_index(dims, UVec3 { y: (c.y + 1) as u32, ..c }) == linear_index(
            dims,
            c,
        ) + dims.x,
        c.z < u32::MAX ==> linear_index(dims, UVec3 { z: (c.z + 1) as u32, ..c }) == linear_index(
            dims,
            c,
        ) + dims.x * dims.y,
{
    let (x, y, z) = (c.x as int, c.y as int, c.z as int);
    let (nx, ny) = (dims.x as int, dims.y as int);
    assert(((z + 1) * ny + y) * nx == (z * ny + y) * nx + nx * ny) by (nonlinear_arith);
    assert((z * ny + (y + 1)) * nx == (z * ny + y) * nx + nx) by (nonlinear_arith);
    assert((0 * ny + 0) * nx == 0) by (nonlinear_arith);
}

/// A neighbour lies one offset away, and where that leaves the grid, at the other end of
/// the axis.
pub proof fn a_neighbour_is_one_offset_away(dims: UVec3, c: UVec3, d: IVec3, a: int)
    requires
        in_grid(dims, c),
        0 <= a < 3,
        -1 <= d.axis(a) <= 1,
    ensures
        0 <= c.axis(a) + d.axis(a) < dims.axis(a) ==> wrapped_neighbour(dims, c, d).axis(a)
            == c.axis(a) + d.axis(a),
        c.axis(a) + d.axis(a) < 0 ==> wrapped_neighbour(dims, c, d).axis(a) == dims.axis(a) - 1,
        c.axis(a) + d.axis(a) == dims.axis(a) ==> wrapped_neighbour(dims, c, d).axis(a) == 0,
{
    let n = dims.axis(a) as int;
    let v = c.axis(a) + d.axis(a);
    if 0 <= v < n {
        lemma_small_mod(v as nat, n as nat);
    } else if v < 0 {
        lemma_mod_multiples_vanish(-1, n - 1, n);
        lemma_small_mod((n - 1) as nat, n as nat);
        assert(n * (-1) + (n - 1) == -1) by (nonlinear_arith);
    } else {
        assert(n % n == 0) by (nonlinear_arith)
            requires
                n > 0,
        ;
    }
}

} // verus!
