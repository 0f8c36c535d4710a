//! What a step of the streaming solver keeps.
//!
//! Streaming only moves populations, each exactly once. So whatever the collision keeps
//! in every cell by itself, a step keeps in the whole field, walls or not; and a field
//! that is the same everywhere stays the same everywhere.
use vstd::prelude::*;
use vstd::arithmetic::div_mod::lemma_fundamental_div_mod_converse;
use crate::boundary::CellKind;
use crate::config::Vec3;
use crate::grid::{
    cell_at, every_index_is_a_cell, linear_index, linear_index_leads_back, neighbours_are_mutual,
    reversed, wrapped_neighbour,
};
use crate::kernel::{CellState, Kernel, Moments, Passage, Pull};
use crate::lattice::{opposite_of, opposites_reverse, velocity};
use crate::precision::DdfPrecision;
use crate::reference::{
    lemma_source, loads_stream_and_bounce_back, source, stores_as,
    streaming_moves_each_population_once, value_index, Macro, ReferenceLbm,
};

verus! {

/// The sum of the first `n` values of `f`.
pub open spec fn added(f: spec_fn(int) -> int, n: nat) -> int
    decreases n,
{
    if n == 0 {
        0
    } else {
        added(f, (n - 1) as nat) + f(n - 1)
    }
}

/// Two functions with the same values have the same sum.
proof fn lemma_added_same(f: spec_fn(int) -> int, g: spec_fn(int) -> int, n: nat)
    requires
        forall|k: int| 0 <= k < n ==> #[trigger] f(k) == g(k),
    ensures
        added(f, n) == added(g, n),
    decreases n,
{
    if n > 0 {
        lemma_added_same(f, g, (n - 1) as nat);
    }
}

/// Changing one value changes the sum by as much.
proof fn lemma_added_changed(f: spec_fn(int) -> int, g: spec_fn(int) -> int, p: int, n: nat)
    requires
        0 <= p < n,
        forall|k: int| 0 <= k < n && k != p ==> #[trigger] f(k) == g(k),
    ensures
        added(f, n) - f(p) == added(g, n) - g(p),
    decreases n,
{
    if p == n - 1 {
        lemma_added_same(f, g, (n - 1) as nat);
    } else {
        lemma_added_changed(f, g, p, (n - 1) as nat);
    }
}

/// A sum does not depend on the order of what is added.
proof fn lemma_added_permuted(
    f: spec_fn(int) -> int,
    g: spec_fn(int) -> int,
    order: spec_fn(int) -> int,
    n: nat,
)
    requires
        forall|k: int| 0 <= k < n ==> 0 <= #[trigger] order(k) < n,
        forall|j: int, k: int|
            0 <= j < n && 0 <= k < n && #[trigger] order(j) == #[trigger] order(k) ==> j == k,
        forall|k: int| 0 <= k < n ==> #[trigger] f(k) == g(order(k)),
    ensures
        added(f, n) == added(g, n),
    decreases n,
{
    if n > 0 {
        let m = (n - 1) as nat;
        let p = order(n - 1);
        let shorter = |k: int|
            if order(k) == n - 1 {
                p
            } else {
                order(k)
            };
        let swapped = |k: int|
            if k == p {
                g(n - 1)
            } else {
                g(k)
            };
        assert forall|k: int| 0 <= k < m implies 0 <= #[trigger] shorter(k) < m by {
            assert(order(k) != p);
        }
        assert forall|j: int, k: int|
            0 <= j < m && 0 <= k < m && #[trigger] shorter(j) == #[trigger] shorter(
                k,
            ) implies j == k by {
            assert(order(j) != p && order(k) != p);
        }
        assert forall|k: int| 0 <= k < m implies #[trigger] f(k) == swapped(shorter(k)) by {
            assert(order(k) != p);
        }
        lemma_added_permuted(f, swapped, shorter, m);
        if p == n - 1 {
            lemma_added_same(swapped, g, m);
        } else {
            lemma_added_changed(swapped, g, p, m);
        }
    }
}

/// A sum over rows of `q` is the sum of the rows.
proof fn lemma_added_rows(
    f: spec_fn(int) -> int,
    row: spec_fn(int) -> int,
    entry: spec_fn(int, int) -> int,
    q: nat,
    n: nat,
)
    requires
        q > 0,
        forall|c: int, i: int|
            0 <= c < n && 0 <= i < q ==> f(c * q + i) == #[trigger] entry(c, i),
        forall|c: int| 0 <= c < n ==> #[trigger] row(c) == added(|i: int| entry(c, i), q),
    ensures
        added(f, n * q) == added(row, n),
    decreases n,
{
    if n == 0 {
        assert(0 * q == 0) by (nonlinear_arith);
    } else {
        let m = (n - 1) as nat;
        lemma_added_rows(f, row, entry, q, m);
        assert(n * q == m * q + q) by (nonlinear_arith)
            requires
                n == m + 1,
        ;
        lemma_added_tail(f, |i: int| entry(n - 1, i), m * q, q);
    }
}

/// A longer sum is a shorter one and the rest.
proof fn lemma_added_tail(f: spec_fn(int) -> int, g: spec_fn(int) -> int, start: nat, n: nat)
    requires
        forall|i: int| 0 <= i < n ==> f(start + i) == #[trigger] g(i),
    ensures
        added(f, start + n) == added(f, start) + added(g, n),
    decreases n,
{
    if n > 0 {
        lemma_added_tail(f, g, start, (n - 1) as nat);
        assert(f(start + (n - 1)) == g(n - 1));
    }
}

/// What a list of populations measures.
pub open spec fn measure_of(measure: spec_fn(u32) -> int, s: Seq<u32>) -> int {
    added(|i: int| measure(s[i]), s.len())
}

/// What the populations that a cell loads measure.
pub open spec fn cell_total(lbm: &ReferenceLbm, measure: spec_fn(u32) -> int, cell: int) -> int {
    added(|i: int| measure(lbm.loaded(cell, i)), lbm.cfg.set.count() as nat)
}

/// What the populations that all fluid cells load measure.
pub open spec fn field_total(lbm: &ReferenceLbm, measure: spec_fn(u32) -> int) -> int {
    added(
        |cell: int|
            if lbm.flows(cell) {
                cell_total(lbm, measure, cell)
            } else {
                0
            },
        lbm.domain.padded.volume() as nat,
    )
}

/// Whether storing keeps the measure of every population.
pub open spec fn keeps(precision: DdfPrecision, measure: spec_fn(u32) -> int) -> bool {
    forall|v: u32, r: u32| #[trigger] stores_as(precision, v, r) ==> measure(v) == measure(r)
}

/// Streaming keeps the total: what all fluid cells load measures as much as what was
/// stored for them, where storing keeps the measure of each population.
#[verifier::spinoff_prover]
#[verifier::rlimit(60)]
pub proof fn streaming_keeps_the_total(
    lbm: &ReferenceLbm,
    values: Seq<u32>,
    measure: spec_fn(u32) -> int,
)
    requires
        lbm.wf(),
        lbm.holds(values, !lbm.odd()),
        keeps(lbm.cfg.precision, measure),
    ensures
        field_total(lbm, measure) == added(
            |cell: int|
                if lbm.flows(cell) {
                    added(
                        |i: int| measure(values[value_index(lbm.cfg.set.count(), cell, i)]),
                        lbm.cfg.set.count() as nat,
                    )
                } else {
                    0
                },
            lbm.domain.padded.volume() as nat,
        ),
{
    let q = lbm.cfg.set.count() as nat;
    let n = lbm.domain.padded.volume() as nat;
    let d = &lbm.domain;
    let loaded = |c: int, i: int|
        if lbm.flows(c) {
            measure(lbm.loaded(c, i))
        } else {
            0
        };
    let stored = |c: int, i: int|
        if lbm.flows(c) {
            measure(values[value_index(q as int, c, i)])
        } else {
            0
        };
    let f = |k: int| loaded(k / (q as int), k % (q as int));
    let g = |k: int| stored(k / (q as int), k % (q as int));
    let order = |k: int|
        if lbm.flows(k / (q as int)) {
            let from = source(d, k / (q as int), k % (q as int));
            from.0 * q + from.1
        } else {
            k
        };
    assert forall|k: int| 0 <= k < n * q implies {
        &&& 0 <= #[trigger] order(k) < n * q
        &&& f(k) == g(order(k))
        &&& 0 <= k / (q as int) < n
        &&& 0 <= k % (q as int) < q
    } by {
        lemma_split(k, q, n);
        let c = k / (q as int);
        let i = k % (q as int);
        if lbm.flows(c) {
            let (from, dir) = source(d, c, i);
            lemma_source(d, lbm.cfg.set, c, i);
            lemma_joined(from, dir, q, n);
            loads_stream_and_bounce_back(*lbm, values, c, i);
        }
    }
    assert forall|j: int, k: int|
        0 <= j < n * q && 0 <= k < n * q && #[trigger] order(j) == #[trigger] order(
            k,
        ) implies j == k by {
        lemma_split(j, q, n);
        lemma_split(k, q, n);
        let (a, x) = (j / (q as int), j % (q as int));
        let (b, y) = (k / (q as int), k % (q as int));
        if lbm.flows(a) {
            lemma_source(d, lbm.cfg.set, a, x);
            lemma_joined(source(d, a, x).0, source(d, a, x).1, q, n);
        }
        if lbm.flows(b) {
            lemma_source(d, lbm.cfg.set, b, y);
            lemma_joined(source(d, b, y).0, source(d, b, y).1, q, n);
        }
        if lbm.flows(a) && lbm.flows(b) {
            assert(source(d, a, x) == source(d, b, y));
            streaming_moves_each_population_once(d, lbm.cfg.set, a, x, b, y);
        }
    }
    lemma_added_permuted(f, g, order, n * q);
    let by_cell = |c: int|
        if lbm.flows(c) {
            cell_total(lbm, measure, c)
        } else {
            0
        };
    let by_value = |c: int|
        if lbm.flows(c) {
            added(
                |i: int| measure(values[value_index(lbm.cfg.set.count(), c, i)]),
                lbm.cfg.set.count() as nat,
            )
        } else {
            0
        };
    assert forall|c: int, i: int| 0 <= c < n && 0 <= i < q implies {
        &&& f(c * q + i) == #[trigger] loaded(c, i)
        &&& g(c * q + i) == stored(c, i)
    } by {
        lemma_joined(c, i, q, n);
    }
    assert forall|c: int, i: int| 0 <= c < n && 0 <= i < q implies g(c * q + i)
        == #[trigger] stored(c, i) by {
        lemma_joined(c, i, q, n);
    }
    assert forall|c: int| 0 <= c < n implies #[trigger] by_cell(c) == added(
        |i: int| loaded(c, i),
        q,
    ) by {
        if lbm.flows(c) {
            lemma_added_same(|i: int| measure(lbm.loaded(c, i)), |i: int| loaded(c, i), q);
        } else {
            lemma_added_zero(|i: int| loaded(c, i), q);
        }
    }
    assert forall|c: int| 0 <= c < n implies #[trigger] by_value(c) == added(
        |i: int| stored(c, i),
        q,
    ) by {
        if lbm.flows(c) {
            lemma_added_same(
                |i: int| measure(values[value_index(lbm.cfg.set.count(), c, i)]),
                |i: int| stored(c, i),
                q,
            );
        } else {
            lemma_added_zero(|i: int| stored(c, i), q);
        }
    }
    lemma_added_rows(f, by_cell, loaded, q, n);
    lemma_added_rows(g, by_value, stored, q, n);
}

/// A sum of zeros is zero.
proof fn lemma_added_zero(f: spec_fn(int) -> int, n: nat)
    requires
        forall|k: int| 0 <= k < n ==> #[trigger] f(k) == 0,
    ensures
        added(f, n) == 0,
    decreases n,
{
    if n > 0 {
        lemma_added_zero(f, (n - 1) as nat);
    }
}

/// The place of an entry in rows of `q`.
proof fn lemma_joined(c: int, i: int, q: nat, n: nat)
    requires
        0 <= c < n,
        0 <= i < q,
    ensures
        0 <= c * q + i < n * q,
        (c * q + i) / (q as int) == c,
        (c * q + i) % (q as int) == i,
{
    lemma_fundamental_div_mod_converse(c * q + i, q as int, c, i);
    assert(0 <= c * q && c * q + q <= n * q) by (nonlinear_arith)
        requires
            0 <= c < n,
            q > 0,
    ;
}

/// The row and the entry of a place.
proof fn lemma_split(k: int, q: nat, n: nat)
    requires
        0 <= k < n * q,
    ensures
        0 <= k / (q as int) < n,
        0 <= k % (q as int) < q,
        k == (k / (q as int)) * q + k % (q as int),
{
    assert(q > 0) by (nonlinear_arith)
        requires
            0 <= k < n * q,
            n >= 0,
    ;
    vstd::arithmetic::div_mod::lemma_fundamental_div_mod(k, q as int);
    assert(0 <= k / (q as int) < n) by (nonlinear_arith)
        requires
            0 <= k < n * q,
            q > 0,
    ;
    assert(k / (q as int) * q == q * (k / (q as int))) by (nonlinear_arith);
}

/// Whether the kernel keeps the measure of what each fluid cell loads.
pub open spec fn conserves<
    M: Fn(&Vec<u32>) -> Moments,
    R: Fn(&Vec<u32>, &Vec<bool>, Moments) -> Vec<u32>,
    P: Fn(u32) -> u32,
    V: Fn(Moments, u32) -> Vec3,
    D: Fn(&Vec<u32>, Vec3, Vec3) -> u32,
    E: Fn(CellState) -> Vec<u32>,
    B: Fn(&Vec<u32>, &Vec<u32>, u32) -> Vec<u32>,
    L: Fn(Pull) -> u32,
    N: Fn(&Vec<u32>, &Vec<u32>) -> u32,
    T: Fn(u32, u32, u32, u32) -> u32,
    U: Fn(u32) -> u32,
    O: Fn(u32, u32) -> u32,
    S: Fn(u32, u32, u32) -> u32,
    Q: Fn(u32, u32, u32, u32, u32, u32) -> (u32, u32),
    H: Fn(&Vec<u32>, &Vec<u32>, u32) -> Vec<u32>,
    G: Fn(usize, Vec3, Vec3) -> u32,
    X: Fn(u32, u32, u32) -> u32,
    W: Fn(u32, u32, u32, u32, u32, u32) -> (u32, u32),
>(
    lbm: &ReferenceLbm,
    kernel: &Kernel<M, R, P, V, D, E, B, L, N, T, U, O, S, Q, H, G, X, W>,
    measure: spec_fn(u32) -> int,
) -> bool {
    forall|cell: int, t: Passage|
        0 <= cell < lbm.domain.padded.volume() && lbm.flows(cell) && #[trigger] kernel.passes(
            lbm,
            cell,
            lbm.plan_of(cell)->Some_0,
            t,
        ) && lbm.loads(cell, t.loaded) ==> t.out@.len() == t.loaded@.len() && measure_of(
            measure,
            t.out@,
        ) == measure_of(measure, t.loaded@)
}

/// A step keeps the total: where the kernel keeps the measure of each cell's populations,
/// and storing that of each population, the whole field measures after a step what it
/// measured before, with walls in it or not.
#[verifier::spinoff_prover]
#[verifier::rlimit(60)]
pub proof fn a_step_keeps_the_total<
    M: Fn(&Vec<u32>) -> Moments,
    R: Fn(&Vec<u32>, &Vec<bool>, Moments) -> Vec<u32>,
    P: Fn(u32) -> u32,
    V: Fn(Moments, u32) -> Vec3,
    D: Fn(&Vec<u32>, Vec3, Vec3) -> u32,
    E: Fn(CellState) -> Vec<u32>,
    B: Fn(&Vec<u32>, &Vec<u32>, u32) -> Vec<u32>,
    L: Fn(Pull) -> u32,
    N: Fn(&Vec<u32>, &Vec<u32>) -> u32,
    T: Fn(u32, u32, u32, u32) -> u32,
    U: Fn(u32) -> u32,
    O: Fn(u32, u32) -> u32,
    S: Fn(u32, u32, u32) -> u32,
    Q: Fn(u32, u32, u32, u32, u32, u32) -> (u32, u32),
    H: Fn(&Vec<u32>, &Vec<u32>, u32) -> Vec<u32>,
    G: Fn(usize, Vec3, Vec3) -> u32,
    X: Fn(u32, u32, u32) -> u32,
    W: Fn(u32, u32, u32, u32, u32, u32) -> (u32, u32),
>(
    before: &ReferenceLbm,
    kernel: &Kernel<M, R, P, V, D, E, B, L, N, T, U, O, S, Q, H, G, X, W>,
    after: &ReferenceLbm,
    measure: spec_fn(u32) -> int,
)
    requires
        before.wf(),
        after.wf(),
        before.steps_to(kernel, after),
        keeps(before.cfg.precision, measure),
        conserves(before, kernel, measure),
    ensures
        field_total(after, measure) == field_total(before, measure),
{
    let q = before.cfg.set.count() as nat;
    let n = before.domain.padded.volume() as nat;
    let values = choose|values: Seq<u32>| #[trigger]
        after.holds(values, before.odd()) && forall|cell: int|
            0 <= cell < before.domain.padded.volume() && #[trigger] before.flows(cell)
                ==> before.collided(kernel, cell, values);
    assert(before.odd() == !after.odd());
    streaming_keeps_the_total(after, values, measure);
    let stored = |cell: int|
        if after.flows(cell) {
            added(
                |i: int| measure(values[value_index(after.cfg.set.count(), cell, i)]),
                after.cfg.set.count() as nat,
            )
        } else {
            0
        };
    let loaded = |cell: int|
        if before.flows(cell) {
            cell_total(before, measure, cell)
        } else {
            0
        };
    assert forall|cell: int| 0 <= cell < n implies #[trigger] stored(cell) == loaded(cell) by {
        if before.flows(cell) {
            assert(before.collided(kernel, cell, values));
            let t = choose|t: Passage|
                {
                    &&& #[trigger] kernel.passes(before, cell, before.plan_of(cell)->Some_0, t)
                    &&& before.loads(cell, t.loaded)
                    &&& forall|i: int|
                        0 <= i < before.cfg.set.count() ==> t.out@[i]
                            == values[#[trigger] value_index(before.cfg.set.count(), cell, i)]
                };
            lemma_added_same(
                |i: int| measure(values[value_index(after.cfg.set.count(), cell, i)]),
                |i: int| measure(t.out@[i]),
                q,
            );
            lemma_added_same(
                |i: int| measure(t.loaded@[i]),
                |i: int| measure(before.loaded(cell, i)),
                q,
            );
        }
    }
    lemma_added_same(stored, loaded, n);
}

/// Whether each state of a run is what a step makes of the one before.
pub open spec fn is_run<
    M: Fn(&Vec<u32>) -> Moments,
    R: Fn(&Vec<u32>, &Vec<bool>, Moments) -> Vec<u32>,
    P: Fn(u32) -> u32,
    V: Fn(Moments, u32) -> Vec3,
    D: Fn(&Vec<u32>, Vec3, Vec3) -> u32,
    E: Fn(CellState) -> Vec<u32>,
    B: Fn(&Vec<u32>, &Vec<u32>, u32) -> Vec<u32>,
    L: Fn(Pull) -> u32,
    N: Fn(&Vec<u32>, &Vec<u32>) -> u32,
    T: Fn(u32, u32, u32, u32) -> u32,
    U: Fn(u32) -> u32,
    O: Fn(u32, u32) -> u32,
    S: Fn(u32, u32, u32) -> u32,
    Q: Fn(u32, u32, u32, u32, u32, u32) -> (u32, u32),
    H: Fn(&Vec<u32>, &Vec<u32>, u32) -> Vec<u32>,
    G: Fn(usize, Vec3, Vec3) -> u32,
    X: Fn(u32, u32, u32) -> u32,
    W: Fn(u32, u32, u32, u32, u32, u32) -> (u32, u32),
>(
    run: Seq<ReferenceLbm>,
    kernel: &Kernel<M, R, P, V, D, E, B, L, N, T, U, O, S, Q, H, G, X, W>,
) -> bool {
    &&& forall|k: int| 0 <= k < run.len() ==> (#[trigger] run[k]).wf()
    &&& forall|k: int|
        #![trigger run[k]]
        0 < k < run.len() ==> run[k - 1].steps_to(kernel, &run[k])
}

/// A run keeps the total: where the kernel keeps the measure of each cell's populations,
/// and storing that of each population, the field measures the same after any number of
/// steps.
pub proof fn a_run_keeps_the_total<
    M: Fn(&Vec<u32>) -> Moments,
    R: Fn(&Vec<u32>, &Vec<bool>, Moments) -> Vec<u32>,
    P: Fn(u32) -> u32,
    V: Fn(Moments, u32) -> Vec3,
    D: Fn(&Vec<u32>, Vec3, Vec3) -> u32,
    E: Fn(CellState) -> Vec<u32>,
    B: Fn(&Vec<u32>, &Vec<u32>, u32) -> Vec<u32>,
    L: Fn(Pull) -> u32,
    N: Fn(&Vec<u32>, &Vec<u32>) -> u32,
    T: Fn(u32, u32, u32, u32) -> u32,
    U: Fn(u32) -> u32,
    O: Fn(u32, u32) -> u32,
    S: Fn(u32, u32, u32) -> u32,
    Q: Fn(u32, u32, u32, u32, u32, u32) -> (u32, u32),
    H: Fn(&Vec<u32>, &Vec<u32>, u32) -> Vec<u32>,
    G: Fn(usize, Vec3, Vec3) -> u32,
    X: Fn(u32, u32, u32) -> u32,
    W: Fn(u32, u32, u32, u32, u32, u32) -> (u32, u32),
>(
    run: Seq<ReferenceLbm>,
    kernel: &Kernel<M, R, P, V, D, E, B, L, N, T, U, O, S, Q, H, G, X, W>,
    measure: spec_fn(u32) -> int,
    k: int,
)
    requires
        is_run(run, kernel),
        0 <= k < run.len(),
        keeps(run[0].cfg.precision, measure),
        forall|j: int| #![trigger run[j]] 0 <= j < run.len() ==> conserves(&run[j], kernel, measure),
    ensures
        field_total(&run[k], measure) == field_total(&run[0], measure),
        run[k].cfg == run[0].cfg,
        run[k].taken() == run[0].taken() + k,
    decreases k,
{
    if k > 0 {
        a_run_keeps_the_total(run, kernel, measure, k - 1);
        assert(run[k - 1].steps_to(kernel, &run[k]));
        assert(conserves(&run[k - 1], kernel, measure));
        a_step_keeps_the_total(&run[k - 1], kernel, &run[k], measure);
    }
}

/// Whether every cell is part of the flow and loads the same populations.
pub open spec fn uniform(lbm: &ReferenceLbm, e: Seq<u32>) -> bool {
    &&& e.len() == lbm.cfg.set.count()
    &&& forall|cell: int|
        0 <= cell < lbm.domain.padded.volume() ==> #[trigger] lbm.flows(cell)
    &&& forall|cell: int, i: int|
        0 <= cell < lbm.domain.padded.volume() && 0 <= i < e.len() ==> #[trigger] lbm.loaded(
            cell,
            i,
        ) == e[i]
}

/// Whether storing leaves populations as they are.
pub open spec fn storable(lbm: &ReferenceLbm, e: Seq<u32>) -> bool {
    forall|i: int, r: u32|
        0 <= i < e.len() && #[trigger] stores_as(lbm.cfg.precision, e[i], r) ==> r == e[i]
}

/// What every cell stored alike, every cell loads alike, where there is no wall.
proof fn lemma_uniform(lbm: &ReferenceLbm, values: Seq<u32>, e: Seq<u32>)
    requires
        lbm.wf(),
        lbm.holds(values, !lbm.odd()),
        e.len() == lbm.cfg.set.count(),
        storable(lbm, e),
        forall|cell: int|
            0 <= cell < lbm.domain.padded.volume() ==> #[trigger] lbm.flows(cell),
        forall|cell: int, i: int|
            0 <= cell < lbm.domain.padded.volume() && 0 <= i < e.len()
                ==> values[#[trigger] value_index(lbm.cfg.set.count(), cell, i)] == e[i],
    ensures
        uniform(lbm, e),
{
    assert forall|cell: int, i: int|
        0 <= cell < lbm.domain.padded.volume() && 0 <= i < e.len() implies #[trigger] lbm.loaded(
        cell,
        i,
    ) == e[i] by {
        assert(lbm.flows(cell));
        loads_stream_and_bounce_back(*lbm, values, cell, i);
        lemma_source(&lbm.domain, lbm.cfg.set, cell, i);
        lemma_upstream(lbm, cell, i);
        let from = source(&lbm.domain, cell, i).0;
        assert(values[value_index(lbm.cfg.set.count(), from, i)] == e[i]);
        assert(stores_as(lbm.cfg.precision, e[i], lbm.loaded(cell, i)));
    }
}

/// Without walls every population comes from upstream, moving the same way.
proof fn lemma_upstream(lbm: &ReferenceLbm, cell: int, i: int)
    requires
        lbm.wf(),
        0 <= cell < lbm.domain.padded.volume(),
        0 <= i < lbm.cfg.set.count(),
        forall|c: int| 0 <= c < lbm.domain.padded.volume() ==> #[trigger] lbm.flows(c),
    ensures
        source(&lbm.domain, cell, i).1 == i,
{
    assert(lbm.flows(cell));
    if i > 0 {
        let d = &lbm.domain;
        let c = cell_at(d.padded, cell);
        every_index_is_a_cell(d.padded, cell);
        opposites_reverse(lbm.cfg.set, i);
        neighbours_are_mutual(d.padded, c, reversed(velocity(i)));
        linear_index_leads_back(d.padded, d.upstream(c, i));
        assert(lbm.flows(linear_index(d.padded, d.upstream(c, i))));
    }
}

/// A fresh field without walls is uniform: every cell loads the equilibrium at the
/// starting state.
pub proof fn a_fresh_field_is_uniform<E: Fn(CellState) -> Vec<u32>>(
    lbm: &ReferenceLbm,
    equilibrium: E,
    e: Seq<u32>,
)
    requires
        lbm.wf(),
        lbm.fresh(equilibrium),
        forall|cell: int|
            0 <= cell < lbm.domain.padded.volume() ==> #[trigger] lbm.flows(cell),
        e.len() == lbm.cfg.set.count(),
        storable(lbm, e),
        forall|r: Vec<u32>| #[trigger]
            equilibrium.ensures((lbm.starting(),), r) ==> r@ == e,
    ensures
        uniform(lbm, e),
{
    let values = choose|values: Seq<u32>| #[trigger]
        lbm.holds(values, true) && forall|cell: int|
            0 <= cell < lbm.domain.padded.volume() && #[trigger] lbm.flows(cell) ==> lbm.filled(
                equilibrium,
                lbm.starting(),
                cell,
                values,
            );
    assert forall|cell: int, i: int|
        0 <= cell < lbm.domain.padded.volume() && 0 <= i < e.len() implies values[
    #[trigger] value_index(lbm.cfg.set.count(), cell, i)] == e[i] by {
        assert(lbm.flows(cell));
        assert(lbm.filled(equilibrium, lbm.starting(), cell, values));
    }
    lemma_uniform(lbm, values, e);
}

/// Whether the kernel maps these populations to themselves in every cell.
pub open spec fn preserves<
    M: Fn(&Vec<u32>) -> Moments,
    R: Fn(&Vec<u32>, &Vec<bool>, Moments) -> Vec<u32>,
    P: Fn(u32) -> u32,
    V: Fn(Moments, u32) -> Vec3,
    D: Fn(&Vec<u32>, Vec3, Vec3) -> u32,
    E: Fn(CellState) -> Vec<u32>,
    B: Fn(&Vec<u32>, &Vec<u32>, u32) -> Vec<u32>,
    L: Fn(Pull) -> u32,
    N: Fn(&Vec<u32>, &Vec<u32>) -> u32,
    T: Fn(u32, u32, u32, u32) -> u32,
    U: Fn(u32) -> u32,
    O: Fn(u32, u32) -> u32,
    S: Fn(u32, u32, u32) -> u32,
    Q: Fn(u32, u32, u32, u32, u32, u32) -> (u32, u32),
    H: Fn(&Vec<u32>, &Vec<u32>, u32) -> Vec<u32>,
    G: Fn(usize, Vec3, Vec3) -> u32,
    X: Fn(u32, u32, u32) -> u32,
    W: Fn(u32, u32, u32, u32, u32, u32) -> (u32, u32),
>(
    lbm: &ReferenceLbm,
    kernel: &Kernel<M, R, P, V, D, E, B, L, N, T, U, O, S, Q, H, G, X, W>,
    e: Seq<u32>,
) -> bool {
    forall|cell: int, t: Passage|
        0 <= cell < lbm.domain.padded.volume() && #[trigger] kernel.passes(
            lbm,
            cell,
            lbm.plan_of(cell)->Some_0,
            t,
        ) && t.loaded@ == e ==> t.out@ == e
}

/// Uniform flow stays uniform: where every cell loads the same populations and the
/// kernel maps those to themselves, every cell loads them after the step too.
#[verifier::spinoff_prover]
#[verifier::rlimit(60)]
pub proof fn uniform_flow_stays_uniform<
    M: Fn(&Vec<u32>) -> Moments,
    R: Fn(&Vec<u32>, &Vec<bool>, Moments) -> Vec<u32>,
    P: Fn(u32) -> u32,
    V: Fn(Moments, u32) -> Vec3,
    D: Fn(&Vec<u32>, Vec3, Vec3) -> u32,
    E: Fn(CellState) -> Vec<u32>,
    B: Fn(&Vec<u32>, &Vec<u32>, u32) -> Vec<u32>,
    L: Fn(Pull) -> u32,
    N: Fn(&Vec<u32>, &Vec<u32>) -> u32,
    T: Fn(u32, u32, u32, u32) -> u32,
    U: Fn(u32) -> u32,
    O: Fn(u32, u32) -> u32,
    S: Fn(u32, u32, u32) -> u32,
    Q: Fn(u32, u32, u32, u32, u32, u32) -> (u32, u32),
    H: Fn(&Vec<u32>, &Vec<u32>, u32) -> Vec<u32>,
    G: Fn(usize, Vec3, Vec3) -> u32,
    X: Fn(u32, u32, u32) -> u32,
    W: Fn(u32, u32, u32, u32, u32, u32) -> (u32, u32),
>(
    before: &ReferenceLbm,
    kernel: &Kernel<M, R, P, V, D, E, B, L, N, T, U, O, S, Q, H, G, X, W>,
    after: &ReferenceLbm,
    e: Seq<u32>,
)
    requires
        before.wf(),
        after.wf(),
        before.steps_to(kernel, after),
        uniform(before, e),
        storable(before, e),
        preserves(before, kernel, e),
    ensures
        uniform(after, e),
{
    let values = choose|values: Seq<u32>| #[trigger]
        after.holds(values, before.odd()) && forall|cell: int|
            0 <= cell < before.domain.padded.volume() && #[trigger] before.flows(cell)
                ==> before.collided(kernel, cell, values);
    assert(before.odd() == !after.odd());
    assert forall|cell: int| 0 <= cell < after.domain.padded.volume() implies #[trigger] after.flows(
        cell,
    ) by {
        assert(before.flows(cell));
    }
    assert forall|cell: int, i: int|
        0 <= cell < after.domain.padded.volume() && 0 <= i < e.len() implies values[
    #[trigger] value_index(after.cfg.set.count(), cell, i)] == e[i] by {
        assert(before.flows(cell));
        assert(before.collided(kernel, cell, values));
        let t = choose|t: Passage|
            {
                &&& #[trigger] kernel.passes(before, cell, before.plan_of(cell)->Some_0, t)
                &&& before.loads(cell, t.loaded)
                &&& forall|i: int|
                    0 <= i < before.cfg.set.count() ==> t.out@[i] == values[#[trigger] value_index(
                        before.cfg.set.count(),
                        cell,
                        i,
                    )]
            };
        assert(t.loaded@ =~= e);
    }
    lemma_uniform(after, values, e);
}

/// Uniform flow stays uniform over any number of steps.
pub proof fn a_uniform_run_stays_uniform<
    M: Fn(&Vec<u32>) -> Moments,
    R: Fn(&Vec<u32>, &Vec<bool>, Moments) -> Vec<u32>,
    P: Fn(u32) -> u32,
    V: Fn(Moments, u32) -> Vec3,
    D: Fn(&Vec<u32>, Vec3, Vec3) -> u32,
    E: Fn(CellState) -> Vec<u32>,
    B: Fn(&Vec<u32>, &Vec<u32>, u32) -> Vec<u32>,
    L: Fn(Pull) -> u32,
    N: Fn(&Vec<u32>, &Vec<u32>) -> u32,
    T: Fn(u32, u32, u32, u32) -> u32,
    U: Fn(u32) -> u32,
    O: Fn(u32, u32) -> u32,
    S: Fn(u32, u32, u32) -> u32,
    Q: Fn(u32, u32, u32, u32, u32, u32) -> (u32, u32),
    H: Fn(&Vec<u32>, &Vec<u32>, u32) -> Vec<u32>,
    G: Fn(usize, Vec3, Vec3) -> u32,
    X: Fn(u32, u32, u32) -> u32,
    W: Fn(u32, u32, u32, u32, u32, u32) -> (u32, u32),
>(
    run: Seq<ReferenceLbm>,
    kernel: &Kernel<M, R, P, V, D, E, B, L, N, T, U, O, S, Q, H, G, X, W>,
    e: Seq<u32>,
    k: int,
)
    requires
        is_run(run, kernel),
        0 <= k < run.len(),
        uniform(&run[0], e),
        storable(&run[0], e),
        forall|j: int| #![trigger run[j]] 0 <= j < run.len() ==> preserves(&run[j], kernel, e),
    ensures
        uniform(&run[k], e),
        run[k].cfg == run[0].cfg,
    decreases k,
{
    if k > 0 {
        a_uniform_run_stays_uniform(run, kernel, e, k - 1);
        assert(run[k - 1].steps_to(kernel, &run[k]));
        assert(preserves(&run[k - 1], kernel, e));
        uniform_flow_stays_uniform(&run[k - 1], kernel, &run[k], e);
    }
}

/// A uniform field reads the same everywhere: what density and velocity one plain fluid
/// cell has, any other has.
pub proof fn a_uniform_field_reads_the_same_everywhere<
    M: Fn(&Vec<u32>) -> Moments,
    R: Fn(&Vec<u32>, &Vec<bool>, Moments) -> Vec<u32>,
    P: Fn(u32) -> u32,
    V: Fn(Moments, u32) -> Vec3,
    D: Fn(&Vec<u32>, Vec3, Vec3) -> u32,
    E: Fn(CellState) -> Vec<u32>,
    B: Fn(&Vec<u32>, &Vec<u32>, u32) -> Vec<u32>,
    L: Fn(Pull) -> u32,
    N: Fn(&Vec<u32>, &Vec<u32>) -> u32,
    T: Fn(u32, u32, u32, u32) -> u32,
    U: Fn(u32) -> u32,
    O: Fn(u32, u32) -> u32,
    S: Fn(u32, u32, u32) -> u32,
    Q: Fn(u32, u32, u32, u32, u32, u32) -> (u32, u32),
    H: Fn(&Vec<u32>, &Vec<u32>, u32) -> Vec<u32>,
    G: Fn(usize, Vec3, Vec3) -> u32,
    X: Fn(u32, u32, u32) -> u32,
    W: Fn(u32, u32, u32, u32, u32, u32) -> (u32, u32),
>(
    lbm: &ReferenceLbm,
    kernel: &Kernel<M, R, P, V, D, E, B, L, N, T, U, O, S, Q, H, G, X, W>,
    e: Seq<u32>,
    a: int,
    b: int,
    m: Macro,
)
    requires
        uniform(lbm, e),
        0 <= a < lbm.domain.padded.volume(),
        0 <= b < lbm.domain.padded.volume(),
        CellKind::kind(lbm.domain.flags@[a]) == CellKind::Fluid,
        CellKind::kind(lbm.domain.flags@[b]) == CellKind::Fluid,
        lbm.measured(kernel, a, m),
    ensures
        lbm.measured(kernel, b, m),
{
    assert(lbm.flows(a) && lbm.flows(b));
    let (g, sums) = choose|g: Vec<u32>, sums: Moments| {
        &&& lbm.loads(a, g)
        &&& #[trigger] kernel.moments.ensures((&g,), sums)
        &&& kernel.density.ensures((sums.drho,), m.rho)
        &&& kernel.velocity.ensures((sums, m.rho), m.u)
    };
    assert(lbm.loads(b, g)) by {
        assert forall|i: int| 0 <= i < g@.len() implies g@[i] == lbm.loaded(b, i) by {
            assert(lbm.loaded(a, i) == e[i]);
            assert(lbm.loaded(b, i) == e[i]);
        }
    }
}

/// Where a population that a cell loads comes from: the cell one step against its
/// direction, moving the same way, or where that cell is solid, the cell itself, moving
/// the other way.
pub open spec fn origin(lbm: &ReferenceLbm, cell: int, i: int) -> (int, int) {
    let up = linear_index(
        lbm.domain.padded,
        wrapped_neighbour(
            lbm.domain.padded,
            cell_at(lbm.domain.padded, cell),
            reversed(velocity(i)),
        ),
    );
    if i == 0 {
        (cell, 0)
    } else if lbm.flows(up) {
        (up, i)
    } else {
        (cell, opposite_of(i))
    }
}

/// One step of the flow: what a fluid cell loads along a direction after the step is what
/// the kernel made, in the cell upstream, of the populations that cell had loaded, and
/// where that cell is solid, what it made in the cell itself of the population going the
/// other way.
#[verifier::spinoff_prover]
#[verifier::rlimit(60)]
pub proof fn a_step_collides_and_streams<
    M: Fn(&Vec<u32>) -> Moments,
    R: Fn(&Vec<u32>, &Vec<bool>, Moments) -> Vec<u32>,
    P: Fn(u32) -> u32,
    V: Fn(Moments, u32) -> Vec3,
    D: Fn(&Vec<u32>, Vec3, Vec3) -> u32,
    E: Fn(CellState) -> Vec<u32>,
    B: Fn(&Vec<u32>, &Vec<u32>, u32) -> Vec<u32>,
    L: Fn(Pull) -> u32,
    N: Fn(&Vec<u32>, &Vec<u32>) -> u32,
    T: Fn(u32, u32, u32, u32) -> u32,
    U: Fn(u32) -> u32,
    O: Fn(u32, u32) -> u32,
    S: Fn(u32, u32, u32) -> u32,
    Q: Fn(u32, u32, u32, u32, u32, u32) -> (u32, u32),
    H: Fn(&Vec<u32>, &Vec<u32>, u32) -> Vec<u32>,
    G: Fn(usize, Vec3, Vec3) -> u32,
    X: Fn(u32, u32, u32) -> u32,
    W: Fn(u32, u32, u32, u32, u32, u32) -> (u32, u32),
>(
    before: &ReferenceLbm,
    kernel: &Kernel<M, R, P, V, D, E, B, L, N, T, U, O, S, Q, H, G, X, W>,
    after: &ReferenceLbm,
    cell: int,
    i: int,
)
    requires
        before.wf(),
        after.wf(),
        before.steps_to(kernel, after),
        0 <= cell < before.domain.padded.volume(),
        0 <= i < before.cfg.set.count(),
        before.flows(cell),
    ensures
        exists|t: Passage| #[trigger]
            kernel.passes(
                before,
                origin(before, cell, i).0,
                before.plan_of(origin(before, cell, i).0)->Some_0,
                t,
            ) && t.loaded@.len() == before.cfg.set.count() && (forall|j: int|
                0 <= j < t.loaded@.len() ==> #[trigger] t.loaded@[j] == before.loaded(
                    origin(before, cell, i).0,
                    j,
                )) && stores_as(
                before.cfg.precision,
                t.out@[origin(before, cell, i).1],
                after.loaded(cell, i),
            ),
        after.taken() == before.taken() + 1,
{
    let values = choose|values: Seq<u32>| #[trigger]
        after.holds(values, before.odd()) && forall|cell: int|
            0 <= cell < before.domain.padded.volume() && #[trigger] before.flows(cell)
                ==> before.collided(kernel, cell, values);
    assert(before.odd() == !after.odd());
    loads_stream_and_bounce_back(*after, values, cell, i);
    lemma_source(&after.domain, after.cfg.set, cell, i);
    let (from, dir) = source(&after.domain, cell, i);
    assert(before.flows(from));
    assert(before.collided(kernel, from, values));
    let t = choose|t: Passage|
        {
            &&& #[trigger] kernel.passes(before, from, before.plan_of(from)->Some_0, t)
            &&& before.loads(from, t.loaded)
            &&& forall|i: int|
                0 <= i < before.cfg.set.count() ==> t.out@[i] == values[#[trigger] value_index(
                    before.cfg.set.count(),
                    from,
                    i,
                )]
        };
    assert(t.out@[dir] == values[value_index(before.cfg.set.count(), from, dir)]);
    assert(origin(before, cell, i) == (from, dir));
    assert(stores_as(before.cfg.precision, t.out@[dir], after.loaded(cell, i)));
    assert(kernel.passes(before, from, before.plan_of(from)->Some_0, t));
}

} // verus!
