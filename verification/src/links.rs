//! Per-link wall distances, indexed for the shader.
//!
//! Halfway bounce-back assumes the wall is half a cell away on every link. A
//! single-node interpolated bounce-back instead uses the real distance `q` and
//! recovers second-order accuracy on a curved wall. The table is keyed by
//! `(cell, direction)`, which the shader already knows at the point where it
//! would need `q`.
use vstd::prelude::*;
use crate::boundary::PaddedDomain;
use crate::config::HALF;
use crate::grid::{cell_at, every_index_is_a_cell, in_grid, linear_index, linear_index_leads_back, UVec3};

verus! {

/// The wall distance on one link of one cell.
#[derive(Clone, Copy, Debug, PartialEq, Eq, Structural)]
pub struct BoundaryLink {
    pub cell: u32,
    pub direction: u8,
    /// Distance to the wall along the link, as a fraction of the link in 255ths.
    pub q_quantised: u8,
}

impl BoundaryLink {
    /// Links are ordered by cell, then by direction.
    pub open spec fn key(self) -> int {
        self.cell * 256 + self.direction
    }

    fn order_key(self) -> (k: u64)
        ensures
            k == self.key(),
    {
        self.cell as u64 * 256 + self.direction as u64
    }
}

/// Whether links are in order of cell, then direction.
pub open spec fn in_order(links: Seq<BoundaryLink>) -> bool {
    forall|i: int, j: int| 0 <= i <= j < links.len() ==> links[i].key() <= links[j].key()
}

/// The links of one cell and direction, in the order they stand in.
pub open spec fn with_key(links: Seq<BoundaryLink>, key: int) -> Seq<BoundaryLink> {
    links.filter(|l: BoundaryLink| l.key() == key)
}

/// A link re-indexed from interior coordinates into the padded grid.
pub open spec fn remapped(l: BoundaryLink, interior: UVec3, domain: &PaddedDomain) -> BoundaryLink {
    BoundaryLink {
        cell: linear_index(domain.padded, domain.inside(cell_at(interior, l.cell as int))) as u32,
        direction: l.direction,
        q_quantised: l.q_quantised,
    }
}

/// Wall distances of links, in order of cell, then direction.
#[derive(Clone, Debug)]
pub struct LinkTable {
    /// One entry per (cell, direction) that has one. Sorted by cell then
    /// direction so a binary search or a per-cell offset table can find a link
    /// cheaply.
    pub links: Vec<BoundaryLink>,
}

impl Default for LinkTable {
    fn default() -> (t: Self)
        ensures
            t.links@.len() == 0,
    {
        LinkTable { links: Vec::new() }
    }
}

/// Inserting after everything of the same key keeps the order and, key by key,
/// the order of arrival.
proof fn lemma_insert(s: Seq<BoundaryLink>, pos: int, x: BoundaryLink)
    requires
        in_order(s),
        0 <= pos <= s.len(),
        forall|i: int| 0 <= i < pos ==> #[trigger] s[i].key() <= x.key(),
        forall|i: int| pos <= i < s.len() ==> #[trigger] s[i].key() > x.key(),
    ensures
        in_order(s.insert(pos, x)),
        forall|k: int| #[trigger] with_key(s.insert(pos, x), k) == with_key(s.push(x), k),
{
    let a = s.subrange(0, pos);
    let b = s.subrange(pos, s.len() as int);
    let one = seq![x];
    assert(s =~= a + b);
    assert(s.insert(pos, x) =~= a + one + b);
    assert(s.push(x) =~= a + b + one);
    assert forall|k: int| #[trigger] with_key(s.insert(pos, x), k) == with_key(s.push(x), k) by {
        let p = |l: BoundaryLink| l.key() == k;
        Seq::filter_distributes_over_add(a + one, b, p);
        Seq::filter_distributes_over_add(a, one, p);
        Seq::filter_distributes_over_add(a + b, one, p);
        Seq::filter_distributes_over_add(a, b, p);
        if k == x.key() {
            assert(b.filter(p).len() == 0) by {
                if b.filter(p).len() > 0 {
                    lemma_filter_member(b, p, 0);
                }
            }
            assert(b.filter(p) =~= Seq::<BoundaryLink>::empty());
        } else {
            lemma_push_filter(Seq::<BoundaryLink>::empty(), x, p);
            assert(Seq::<BoundaryLink>::empty().push(x) =~= one);
            reveal(Seq::filter);
            assert(one.filter(p) =~= Seq::<BoundaryLink>::empty());
        }
        assert(a.filter(p) + one.filter(p) + b.filter(p) =~= a.filter(p) + b.filter(p) + one.filter(
            p,
        ));
    }
}

/// What a filter keeps was there.
proof fn lemma_filter_member(s: Seq<BoundaryLink>, p: spec_fn(BoundaryLink) -> bool, i: int)
    requires
        0 <= i < s.filter(p).len(),
    ensures
        s.contains(s.filter(p)[i]),
        p(s.filter(p)[i]),
    decreases s.len(),
{
    reveal(Seq::filter);
    if s.len() > 0 {
        let sub = s.drop_last().filter(p);
        if i < sub.len() {
            lemma_filter_member(s.drop_last(), p, i);
            let w = choose|w: int| 0 <= w < s.drop_last().len() && s.drop_last()[w] == sub[i];
            assert(s[w] == sub[i]);
        } else {
            assert(s[s.len() - 1] == s.last());
        }
    }
}

impl LinkTable {
    /// Re-index links from interior coordinates into the padded grid.
    pub fn remap(links: &[BoundaryLink], interior: UVec3, domain: &PaddedDomain) -> (t: Self)
        requires
            domain.shaped(),
            forall|i: int|
                #![trigger links@[i]]
                0 <= i < links@.len() ==> links@[i].cell < interior.volume() && in_grid(
                    domain.interior,
                    cell_at(interior, links@[i].cell as int),
                ),
        ensures
            in_order(t.links@),
            t.links@.len() == links@.len(),
            forall|k: int| #[trigger]
                with_key(t.links@, k) == with_key(
                    links@.map_values(|l: BoundaryLink| remapped(l, interior, domain)),
                    k,
                ),
    {
        let ghost all = links@.map_values(|l: BoundaryLink| remapped(l, interior, domain));
        let mut out: Vec<BoundaryLink> = Vec::new();
        let mut i: usize = 0;
        while i < links.len()
            invariant
                domain.shaped(),
                forall|i: int|
                    #![trigger links@[i]]
                    0 <= i < links@.len() ==> links@[i].cell < interior.volume() && in_grid(
                        domain.interior,
                        cell_at(interior, links@[i].cell as int),
                    ),
                all == links@.map_values(|l: BoundaryLink| remapped(l, interior, domain)),
                i <= links@.len(),
                out@.len() == i,
                in_order(out@),
                forall|k: int| #[trigger] with_key(out@, k) == with_key(all.take(i as int), k),
            decreases links@.len() - i,
        {
            let l: BoundaryLink = links[i];
            proof {
                every_index_is_a_cell(interior, l.cell as int);
            }
            let row: u32 = l.cell / interior.x;
            let at: UVec3 = UVec3::new(l.cell % interior.x, row % interior.y, row / interior.y);
            let x: BoundaryLink = BoundaryLink {
                cell: domain.interior_linear(at),
                direction: l.direction,
                q_quantised: l.q_quantised,
            };
            let kx: u64 = x.order_key();
            let mut pos: usize = out.len();
            let mut more: bool = pos > 0 && out[pos - 1].order_key() > kx;
            while more
                invariant
                    pos <= out@.len(),
                    in_order(out@),
                    kx == x.key(),
                    more <==> pos > 0 && out@[pos - 1].key() > kx,
                    forall|j: int| pos <= j < out@.len() ==> #[trigger] out@[j].key() > kx,
                decreases pos,
            {
                pos -= 1;
                more = pos > 0 && out[pos - 1].order_key() > kx;
            }
            proof {
                assert(x == all[i as int]);
                assert(all.take(i + 1) =~= all.take(i as int).push(x));
                lemma_insert(out@, pos as int, x);
                assert forall|k: int| #[trigger]
                    with_key(out@.insert(pos as int, x), k) == with_key(all.take(i + 1), k) by {
                    let p = |l: BoundaryLink| l.key() == k;
                    assert(with_key(out@.insert(pos as int, x), k) == with_key(out@.push(x), k));
                    assert(with_key(out@, k) == with_key(all.take(i as int), k));
                    lemma_push_filter(out@, x, p);
                    lemma_push_filter(all.take(i as int), x, p);
                }
            }
            out.insert(pos, x);
            i += 1;
        }
        proof {
            assert(all.take(i as int) =~= all);
        }
        LinkTable { links: out }
    }

    pub fn is_empty(&self) -> (r: bool)
        ensures
            r == (self.links@.len() == 0),
    {
        self.links.len() == 0
    }

    /// Whether entry `i` is about this link.
    pub open spec fn describes(&self, i: int, cell: u32, direction: u8) -> bool {
        0 <= i < self.links@.len() && self.links@[i].cell == cell && self.links@[i].direction
            == direction
    }

    /// `q` for one link, or one half (the halfway assumption) when absent. `decode` turns
    /// a quantised distance into a fraction of the link, as `f32` bits.
    pub fn q<D: Fn(u8) -> u32>(&self, cell: u32, direction: u8, decode: &D) -> (q: u32)
        requires
            in_order(self.links@),
            forall|b: u8| #[trigger] decode.requires((b,)),
        ensures
            (exists|i: int| #[trigger] self.describes(i, cell, direction)) ==> exists|i: int| #[trigger]
                self.describes(i, cell, direction) && decode.ensures(
                    (self.links@[i].q_quantised,),
                    q,
                ),
            (forall|i: int| !#[trigger] self.describes(i, cell, direction)) ==> q == HALF,
    {
        let key: u64 = cell as u64 * 256 + direction as u64;
        let mut lo: usize = 0;
        let mut hi: usize = self.links.len();
        while lo < hi
            invariant
                in_order(self.links@),
                key == cell * 256 + direction,
                lo <= hi <= self.links@.len(),
                forall|b: u8| #[trigger] decode.requires((b,)),
                forall|i: int| 0 <= i < lo ==> #[trigger] self.links@[i].key() < key,
                forall|i: int| hi <= i < self.links@.len() ==> #[trigger] self.links@[i].key() > key,
            decreases hi - lo,
        {
            let mid: usize = lo + (hi - lo) / 2;
            let k: u64 = self.links[mid].order_key();
            if k == key {
                assert(self.describes(mid as int, cell, direction));
                return decode(self.links[mid].q_quantised);
            } else if k < key {
                lo = mid + 1;
            } else {
                hi = mid;
            }
        }
        assert forall|i: int| !#[trigger] self.describes(i, cell, direction) by {
            if self.describes(i, cell, direction) {
                assert(self.links@[i].key() == key);
            }
        }
        HALF
    }
}

proof fn lemma_push_filter(s: Seq<BoundaryLink>, x: BoundaryLink, p: spec_fn(BoundaryLink) -> bool)
    ensures
        s.push(x).filter(p) == if p(x) {
            s.filter(p).push(x)
        } else {
            s.filter(p)
        },
{
    reveal(Seq::filter);
    assert(s.push(x).drop_last() =~= s);
}

/// The order of links goes by cell, and by direction within a cell.
pub proof fn links_go_by_cell_then_direction(a: BoundaryLink, b: BoundaryLink)
    ensures
        a.key() < b.key() <==> a.cell < b.cell || (a.cell == b.cell && a.direction < b.direction),
        a.key() == b.key() <==> a.cell == b.cell && a.direction == b.direction,
{
}

/// A link moves into the padded grid with its cell: one cell further along each axis that
/// has a halo, none along a periodic one. Its direction and its distance stay.
pub proof fn a_link_moves_with_its_cell(l: BoundaryLink, interior: UVec3, domain: &PaddedDomain)
    requires
        domain.shaped(),
        l.cell < interior.volume(),
        in_grid(domain.interior, cell_at(interior, l.cell as int)),
    ensures
        ({
            let from = cell_at(interior, l.cell as int);
            let to = cell_at(domain.padded, remapped(l, interior, domain).cell as int);
            &&& to.x == from.x + (if domain.periodic[0] { 0int } else { 1 })
            &&& to.y == from.y + (if domain.periodic[1] { 0int } else { 1 })
            &&& to.z == from.z + (if domain.periodic[2] { 0int } else { 1 })
        }),
        remapped(l, interior, domain).direction == l.direction,
        remapped(l, interior, domain).q_quantised == l.q_quantised,
{
    let to = domain.inside(cell_at(interior, l.cell as int));
    linear_index_leads_back(domain.padded, to);
}

} // verus!
