use aeroduct::boundary::{CellKind, PaddedDomain};
use aeroduct::collision::{
    apply_force, collide, smagorinsky_tau, trt_rates, Collision, CollisionModel,
};
use aeroduct::config::{InletSpec, SolverConfig, Vec3};
use aeroduct::flags;
use aeroduct::grid::UVec3;
use aeroduct::kernel::{CellState, Kernel, Moments, Pull};
use aeroduct::lattice::{direction, opposite, EsotericPull, VelocitySet};
use aeroduct::precision::DdfPrecision;
use aeroduct::reference::{CellPlan, ReferenceLbm};

fn f(x: u32) -> f32 {
    f32::from_bits(x)
}

fn v(x: f32, y: f32, z: f32) -> Vec3 {
    Vec3::new(x.to_bits(), y.to_bits(), z.to_bits())
}

/// The directions as numbers.
const C: [[f32; 3]; Q] = [
    [0.0, 0.0, 0.0],
    [1.0, 0.0, 0.0],
    [-1.0, 0.0, 0.0],
    [0.0, 1.0, 0.0],
    [0.0, -1.0, 0.0],
    [0.0, 0.0, 1.0],
    [0.0, 0.0, -1.0],
    [1.0, 1.0, 0.0],
    [-1.0, -1.0, 0.0],
    [1.0, 0.0, 1.0],
    [-1.0, 0.0, -1.0],
    [0.0, 1.0, 1.0],
    [0.0, -1.0, -1.0],
    [1.0, -1.0, 0.0],
    [-1.0, 1.0, 0.0],
    [1.0, 0.0, -1.0],
    [-1.0, 0.0, 1.0],
    [0.0, 1.0, -1.0],
    [0.0, -1.0, 1.0],
];

fn c(i: usize) -> [f32; 3] {
    C[i]
}

#[test]
fn the_directions_are_those_of_the_lattice() {
    for i in 0..Q {
        let d = direction(i);
        assert_eq!(c(i), [d.x as f32, d.y as f32, d.z as f32]);
    }
}

fn weight(i: usize) -> f32 {
    match i {
        0 => 1.0 / 3.0,
        1..=6 => 1.0 / 18.0,
        _ => 1.0 / 36.0,
    }
}

const Q: usize = 19;

fn dot(a: [f32; 3], b: [f32; 3]) -> f32 {
    a[0] * b[0] + a[1] * b[1] + a[2] * b[2]
}

fn array(v: Vec3) -> [f32; 3] {
    [f(v.x), f(v.y), f(v.z)]
}

fn equilibrium(i: usize, drho: f32, rho: f32, u: [f32; 3]) -> f32 {
    let cu = dot(c(i), u);
    weight(i) * (drho + rho * (3.0 * cu + 4.5 * cu * cu - 1.5 * dot(u, u)))
}

fn moments(g: &[f32]) -> (f32, [f32; 3]) {
    let mut drho = 0.0f32;
    let mut m = [0.0f32; 3];
    for (i, g) in g.iter().enumerate() {
        drho += g;
        let c = c(i);
        for a in 0..3 {
            m[a] += g * c[a];
        }
    }
    (drho, m)
}

fn floats(g: &[u32]) -> Vec<f32> {
    g.iter().map(|x| f(*x)).collect()
}

fn bits(g: impl Iterator<Item = f32>) -> Vec<u32> {
    g.map(f32::to_bits).collect()
}

fn inlet_drho(g: &[f32], n: [f32; 3], u: [f32; 3]) -> f32 {
    let (mut a, mut b) = (0.0f32, 0.0f32);
    for i in 0..Q {
        let cn = dot(c(i), n);
        if cn == 0.0 {
            a += g[i];
        } else if cn < 0.0 {
            b += g[i];
        }
    }
    let un = dot(u, n);
    (a + 2.0 * b + un) / (1.0 - un).max(0.1)
}

/// The equilibrium populations of a state.
fn populations(s: CellState) -> Vec<u32> {
    let (drho, rho, u) = (f(s.drho), f(s.rho), array(s.u));
    let mut out = vec![0u32; Q];
    for i in 0..Q {
        out[i] = equilibrium(i, drho, rho, u).to_bits();
    }
    out
}

/// The arithmetic of a step on a D3Q19 lattice at a reference density of one.
fn kernel(
    cfg: SolverConfig,
) -> Kernel<
    impl Fn(&Vec<u32>) -> Moments,
    impl Fn(&Vec<u32>, &Vec<bool>, Moments) -> Vec<u32>,
    impl Fn(u32) -> u32,
    impl Fn(Moments, u32) -> Vec3,
    impl Fn(&Vec<u32>, Vec3, Vec3) -> u32,
    impl Fn(CellState) -> Vec<u32>,
    impl Fn(&Vec<u32>, &Vec<u32>, u32) -> Vec<u32>,
    impl Fn(Pull) -> u32,
    impl Fn(&Vec<u32>, &Vec<u32>) -> u32,
    impl Fn(u32, u32, u32, u32) -> u32,
    impl Fn(u32) -> u32,
    impl Fn(u32, u32) -> u32,
    impl Fn(u32, u32, u32) -> u32,
    impl Fn(u32, u32, u32, u32, u32, u32) -> (u32, u32),
    impl Fn(&Vec<u32>, &Vec<u32>, u32) -> Vec<u32>,
    impl Fn(usize, Vec3, Vec3) -> u32,
    impl Fn(u32, u32, u32) -> u32,
    impl Fn(u32, u32, u32, u32, u32, u32) -> (u32, u32),
> {
    assert!(f(cfg.rho_ref) == 1.0);
    let outward = array(cfg.outlet_normal);
    let force = array(cfg.body_force);
    Kernel {
        moments: |g: &Vec<u32>| {
            let mut at = [0.0f32; Q];
            for i in 0..Q {
                at[i] = f(g[i]);
            }
            let (drho, m) = moments(&at);
            Moments { drho: drho.to_bits(), momentum: v(m[0], m[1], m[2]) }
        },
        reflect: |g: &Vec<u32>, links: &Vec<bool>, m: Moments| {
            let up = array(m.momentum).map(|x| x / (1.0 + f(m.drho)));
            bits(g.iter().enumerate().map(|(i, g)| {
                if links[i] {
                    let cu = dot(c(i), up);
                    -f(*g) + 2.0 * weight(i) * (4.5 * cu * cu - 1.5 * dot(up, up))
                } else {
                    f(*g)
                }
            }))
        },
        density: |drho: u32| (1.0 + f(drho)).to_bits(),
        velocity: move |m: Moments, rho: u32| {
            let m = array(m.momentum);
            let m = [0, 1, 2].map(|a| (m[a] + 0.5 * force[a]) / f(rho));
            v(m[0], m[1], m[2])
        },
        closure: |g: &Vec<u32>, n: Vec3, u: Vec3| {
            inlet_drho(&floats(g), array(n), array(u)).to_bits()
        },
        equilibrium: populations,
        blend: |g: &Vec<u32>, target: &Vec<u32>, weight: u32| {
            let w = f(weight);
            bits(g.iter().zip(target).map(|(g, t)| f(*g) + w * (f(*t) - f(*g))))
        },
        weight: |pull: Pull| match pull {
            Pull::Outflow(velocity) => (f(velocity) / (1.0 + f(velocity))).to_bits(),
            Pull::Sponge { strength, depth, cells } => {
                let t = depth as f32 / cells as f32;
                (f(strength) * t * t).to_bits()
            }
        },
        collision: Collision {
            strain: move |g: &Vec<u32>, geq: &Vec<u32>| {
                if cfg.smagorinsky_c == 0 {
                    // Nothing asks for it.
                    return 0;
                }
                let neq: Vec<f32> = g.iter().zip(geq).map(|(a, b)| f(*a) - f(*b)).collect();
                pi_norm(&neq).to_bits()
            },
            raised,
            even: even_rate,
            odd: odd_rate,
            single,
            pair,
            rebuild,
            term: force_term,
            rest: push_rest,
            push: push_pair,
        },
        against: (0..Q).map(|i| dot(c(i), outward) < 0.0).collect(),
        reference_drho: 0,
        band: ((-0.2f32).to_bits(), 0.2f32.to_bits()),
    }
}

fn even_rate(tau: u32) -> u32 {
    (1.0 / f(tau)).to_bits()
}

fn odd_rate(tau: u32, lambda: u32) -> u32 {
    (1.0 / (f(lambda) / (f(tau) - 0.5) + 0.5)).to_bits()
}

fn rates(tau: f32, lambda: f32) -> (f32, f32) {
    let (s_e, s_o) = trt_rates(tau.to_bits(), lambda.to_bits(), &even_rate, &odd_rate);
    (f(s_e), f(s_o))
}

fn raised(tau0: u32, cs: u32, rho: u32, pi: u32) -> u32 {
    let inner = f(tau0) * f(tau0) + 25.455_845 * f(cs) * f(cs) * f(pi) / f(rho).max(1e-6);
    (0.5 * (f(tau0) + inner.sqrt())).to_bits()
}

fn second_moment(neq: &[f32]) -> [[f32; 3]; 3] {
    let mut pi = [[0.0f32; 3]; 3];
    for (i, n) in neq.iter().enumerate() {
        for a in 0..3 {
            for b in 0..3 {
                pi[a][b] += n * c(i)[a] * c(i)[b];
            }
        }
    }
    pi
}

fn single(g: u32, e: u32, s: u32) -> u32 {
    (f(g) - f(s) * (f(g) - f(e))).to_bits()
}

fn pair(gi: u32, gj: u32, ei: u32, ej: u32, s_e: u32, s_o: u32) -> (u32, u32) {
    let (ni, nj) = (f(gi) - f(ei), f(gj) - f(ej));
    let (sym, asym) = (0.5 * (ni + nj), 0.5 * (ni - nj));
    (
        (f(gi) - (f(s_e) * sym + f(s_o) * asym)).to_bits(),
        (f(gj) - (f(s_e) * sym - f(s_o) * asym)).to_bits(),
    )
}

fn rebuild(g: &Vec<u32>, geq: &Vec<u32>, s_e: u32) -> Vec<u32> {
    let neq: Vec<f32> = g.iter().zip(geq).map(|(a, b)| f(*a) - f(*b)).collect();
    let pi = second_moment(&neq);
    let trace = pi[0][0] + pi[1][1] + pi[2][2];
    bits((0..Q).map(|i| {
        let mut qpi = 0.0f32;
        for a in 0..3 {
            for b in 0..3 {
                qpi += c(i)[a] * c(i)[b] * pi[a][b];
            }
        }
        f(geq[i]) + (1.0 - f(s_e)) * (weight(i) * 4.5 * (qpi - trace / 3.0))
    }))
}

fn relax(model: CollisionModel, g: &mut Vec<u32>, geq: &Vec<u32>, s_e: f32, s_o: f32) {
    let rates = (s_e.to_bits(), s_o.to_bits());
    collide(model, VelocitySet::D3Q19, g, geq, rates, &single, &pair, &rebuild);
}

fn force_term(i: usize, u: Vec3, force: Vec3) -> u32 {
    let (u, force) = (array(u), array(force));
    let cf = dot(c(i), force);
    (weight(i) * (3.0 * (cf - dot(u, force)) + 9.0 * dot(c(i), u) * cf)).to_bits()
}

fn push_rest(g: u32, term: u32, s_e: u32) -> u32 {
    (f(g) + (1.0 - 0.5 * f(s_e)) * f(term)).to_bits()
}

fn push_pair(gi: u32, gj: u32, fi: u32, fj: u32, s_e: u32, s_o: u32) -> (u32, u32) {
    let (even, odd) = (1.0 - 0.5 * f(s_e), 1.0 - 0.5 * f(s_o));
    let (sym, asym) = (0.5 * (f(fi) + f(fj)), 0.5 * (f(fi) - f(fj)));
    (
        (f(gi) + (even * sym + odd * asym)).to_bits(),
        (f(gj) + (even * sym - odd * asym)).to_bits(),
    )
}

fn started(domain: PaddedDomain, cfg: SolverConfig) -> ReferenceLbm {
    ReferenceLbm::new(domain, cfg, &populations)
}

fn periodic_box(n: u32, cfg: SolverConfig) -> ReferenceLbm {
    started(PaddedDomain::uniform_fluid(UVec3::splat(n), [true; 3], cfg.set), cfg)
}

fn run(lbm: &mut ReferenceLbm, steps: usize) {
    let kernel = kernel(lbm.cfg);
    for _ in 0..steps {
        lbm.step(&kernel);
    }
}

fn macroscopic(lbm: &ReferenceLbm, cell: u64) -> (f32, [f32; 3]) {
    let m = lbm.macroscopic_padded(cell, &kernel(lbm.cfg));
    (f(m.rho), array(m.u))
}

fn inside(lbm: &ReferenceLbm, x: u32, y: u32, z: u32) -> (f32, [f32; 3]) {
    let m = lbm.macroscopic(UVec3::new(x, y, z), &kernel(lbm.cfg));
    (f(m.rho), array(m.u))
}

fn total_mass(lbm: &ReferenceLbm) -> f64 {
    let accumulate = |sum: u64, rho: u32| (f64::from_bits(sum) + f(rho) as f64).to_bits();
    f64::from_bits(lbm.total_mass(&kernel(lbm.cfg), &accumulate))
}

#[test]
fn mass_is_conserved_in_a_closed_periodic_box() {
    let cfg = SolverConfig {
        tau0: 0.6f32.to_bits(),
        smagorinsky_c: 0,
        initial_velocity: v(0.05, -0.03, 0.02),
        ..SolverConfig::default()
    };
    let mut lbm = periodic_box(8, cfg);
    let m0 = total_mass(&lbm);
    run(&mut lbm, 500);
    let m1 = total_mass(&lbm);
    let cells = lbm.domain.interior_cell_count() as f64;
    assert!((m1 - m0).abs() / cells < 1e-6, "mass drifted from {m0} to {m1} over 500 steps");
    assert_eq!(lbm.steps_taken(), 500);
}

#[test]
fn a_solver_starts_at_equilibrium_with_the_initial_velocity() {
    let cfg = SolverConfig {
        initial_velocity: v(0.05, -0.03, 0.02),
        precision: DdfPrecision::Fp32,
        ..SolverConfig::default()
    };
    let expected: Vec<u32> =
        (0..Q).map(|i| equilibrium(i, 0.0, 1.0, [0.05, -0.03, 0.02]).to_bits()).collect();
    let mut lbm = periodic_box(3, cfg);
    for cell in 0..lbm.domain.padded_cell_count() {
        assert_eq!(lbm.load(cell), expected);
    }
    run(&mut lbm, 3);
    lbm.reset(&populations);
    assert_eq!(lbm.steps_taken(), 0);
    for cell in 0..lbm.domain.padded_cell_count() {
        assert_eq!(lbm.load(cell), expected);
    }
}

#[test]
fn a_field_can_be_set_cell_by_cell() {
    let cfg = SolverConfig { precision: DdfPrecision::Fp32, ..SolverConfig::default() };
    let mut lbm = periodic_box(4, cfg);
    let at = |c: UVec3| 1.0 + c.x as f32 * 0.01;
    lbm.set_equilibrium(&|c: UVec3| (at(c).to_bits(), v(0.0, 0.0, 0.0)), &populations);
    let mean: f32 = (0..4).map(|x| at(UVec3::new(x, 0, 0))).sum::<f32>() / 4.0;
    let total = total_mass(&lbm) / 64.0;
    assert!((total - mean as f64).abs() < 1e-6, "mean density {total}, not {mean}");
    // Populations arrive from upstream, so the resting one alone is the cell's own.
    let cell = lbm.domain.interior_linear(UVec3::new(2, 1, 1)) as u64;
    assert_eq!(f(lbm.load(cell)[0]), equilibrium(0, at(UVec3::new(2, 1, 1)) - 1.0, 1.02, [0.0; 3]));
}

#[test]
fn air_at_rest_stays_at_rest() {
    let cfg = SolverConfig {
        tau0: 0.6f32.to_bits(),
        smagorinsky_c: 0,
        precision: DdfPrecision::Fp32,
        ..SolverConfig::default()
    };
    let mut lbm = periodic_box(3, cfg);
    run(&mut lbm, 5);
    for cell in 0..lbm.domain.padded_cell_count() {
        assert!(lbm.load(cell).iter().all(|g| f(*g) == 0.0));
    }
}

#[test]
fn streaming_keeps_the_total_whatever_the_walls() {
    let cfg = SolverConfig { precision: DdfPrecision::Fp32, ..SolverConfig::default() };
    let mut mask = vec![flags::FLUID; 27];
    mask[4] = flags::SOLID;
    mask[13] = flags::SOLID;
    let d = PaddedDomain::new(UVec3::splat(3), [true, false, false], &mask, cfg.set);
    let mut lbm = started(d, cfg);
    let cells = lbm.domain.padded_cell_count() as usize;
    for turn in 0..2u32 {
        let values: Vec<u32> = (0..cells * Q).map(|k| 7 * k as u32 + turn).collect();
        lbm.finish_step(&values);
        let fluid: Vec<usize> = (0..cells)
            .filter(|c| CellKind::of(lbm.domain.flags[*c]) != CellKind::Solid)
            .collect();
        let mut stored: Vec<u32> =
            fluid.iter().flat_map(|c| values[c * Q..(c + 1) * Q].to_vec()).collect();
        let mut loaded: Vec<u32> = fluid.iter().flat_map(|c| lbm.load(*c as u64)).collect();
        stored.sort();
        loaded.sort();
        assert_eq!(stored, loaded, "each stored population is loaded once");
    }
}

#[test]
fn a_sponge_of_no_strength_leaves_its_cells_alone() {
    let spongy = |strength: f32| {
        let cfg = SolverConfig {
            sponge_cells: 3,
            sponge_strength: strength.to_bits(),
            ..SolverConfig::default()
        };
        let d = PaddedDomain::new(UVec3::splat(3), [false; 3], &[flags::SPONGE; 27], cfg.set);
        let lbm = started(d, cfg);
        let cell = lbm.domain.interior_linear(UVec3::splat(1)) as u64;
        lbm.plan(cell).unwrap().sponge_depth.is_some()
    };
    assert!(spongy(0.4));
    assert!(!spongy(0.0));
    assert!(!spongy(-0.4));
    assert!(!spongy(f32::NAN));
}

#[test]
fn uniform_flow_stays_exactly_uniform() {
    for model in [CollisionModel::Trt, CollisionModel::Bgk, CollisionModel::RegularizedBgk] {
        let cfg = SolverConfig {
            collision: model,
            tau0: 0.8f32.to_bits(),
            smagorinsky_c: 0,
            initial_velocity: v(0.06, 0.02, -0.04),
            ..SolverConfig::default()
        };
        let mut lbm = periodic_box(6, cfg);
        run(&mut lbm, 200);
        for cell in 0..lbm.domain.padded_cell_count() {
            let (rho, u) = macroscopic(&lbm, cell);
            assert!((rho - 1.0).abs() < 1e-5, "{}: density {rho} at {cell}", model.name());
            let d = [u[0] - 0.06, u[1] - 0.02, u[2] + 0.04];
            let off = (d[0] * d[0] + d[1] * d[1] + d[2] * d[2]).sqrt();
            assert!(off < 1e-5, "{}: velocity {u:?} at {cell}", model.name());
        }
    }
}

#[test]
fn a_population_aimed_at_a_wall_comes_back_reversed() {
    let cfg = SolverConfig { set: VelocitySet::D3Q19, ..SolverConfig::default() };
    let d = PaddedDomain::uniform_fluid(UVec3::splat(1), [false; 3], cfg.set);
    let lbm = started(d, cfg);
    let cell = lbm.domain.interior_linear(UVec3::splat(0)) as u64;
    assert_eq!(lbm.domain.link_mask[cell as usize] >> 1, (1u32 << 18) - 1);

    let at = lbm.domain.coords(cell as u32);
    let ep = EsotericPull::new(lbm.domain.padded_cell_count(), 19);
    for odd in [false, true] {
        for i in 1..19usize {
            let ibar = opposite(i);
            let shared = if i % 2 == 1 { ibar } else { i };
            let nb = lbm.domain.linear(lbm.domain.neighbour(at, direction(shared))) as u64;
            let stored = ep.store_slot(cell, ibar, odd, nb);
            let loaded = ep.load_slot(cell, i, !odd ^ true, nb);
            assert_eq!(
                stored, loaded,
                "direction {i} (opposite {ibar}), odd={odd}: stored {stored}, loads {loaded}"
            );
        }
    }
}

#[test]
fn a_lone_cell_gets_its_own_populations_back_reversed() {
    let cfg = SolverConfig::default();
    let d = PaddedDomain::uniform_fluid(UVec3::splat(1), [false; 3], cfg.set);
    let mut lbm = started(d, cfg);
    let cell = lbm.domain.interior_linear(UVec3::splat(0)) as u64;
    let values: Vec<u32> =
        (0..27 * Q).map(|k| ((k % Q) as f32).to_bits()).collect();
    lbm.finish_step(&values);
    let back = lbm.load(cell);
    assert_eq!(f(back[0]), 0.0);
    for i in 1..19 {
        assert_eq!(f(back[i]), opposite(i) as f32);
    }
}

#[test]
fn a_closed_box_of_still_fluid_stays_still() {
    let cfg =
        SolverConfig { tau0: 0.55f32.to_bits(), smagorinsky_c: 0, ..SolverConfig::default() };
    let d = PaddedDomain::uniform_fluid(UVec3::new(5, 5, 5), [false; 3], cfg.set);
    let mut lbm = started(d, cfg);
    run(&mut lbm, 300);
    for z in 0..5u32 {
        for y in 0..5u32 {
            for x in 0..5u32 {
                let cell = lbm.domain.interior_linear(UVec3::new(x, y, z)) as u64;
                let (rho, u) = macroscopic(&lbm, cell);
                assert!((rho - 1.0).abs() < 1e-5, "density {rho} at ({x},{y},{z})");
                let speed = (u[0] * u[0] + u[1] * u[1] + u[2] * u[2]).sqrt();
                assert!(speed < 1e-6, "still fluid developed a velocity of {speed}");
            }
        }
    }
}

#[test]
fn mass_is_conserved_around_an_obstacle() {
    let cfg = SolverConfig {
        tau0: 0.6f32.to_bits(),
        smagorinsky_c: 0,
        initial_velocity: v(0.05, 0.0, 0.0),
        periodic: [true, true, true],
        ..SolverConfig::default()
    };
    let mut d = PaddedDomain::uniform_fluid(UVec3::splat(8), [true; 3], cfg.set);
    for z in 3..5u32 {
        for y in 3..5u32 {
            for x in 3..5u32 {
                let idx = d.linear(UVec3::new(x, y, z)) as usize;
                d.flags[idx] = flags::SOLID;
            }
        }
    }
    d.rebuild_link_mask(cfg.set);
    let mut lbm = started(d, cfg);
    let m0 = total_mass(&lbm);
    run(&mut lbm, 400);
    let m1 = total_mass(&lbm);
    let cells = lbm.domain.interior_cell_count() as f64;
    assert!((m1 - m0).abs() / cells < 1e-6, "mass drifted from {m0} to {m1}");
}

#[test]
fn fp16c_storage_still_conserves_mass() {
    let cfg = SolverConfig {
        precision: DdfPrecision::Fp16c,
        tau0: 0.6f32.to_bits(),
        smagorinsky_c: 0,
        initial_velocity: v(0.05, -0.02, 0.01),
        ..SolverConfig::default()
    };
    let mut lbm = periodic_box(6, cfg);
    let m0 = total_mass(&lbm);
    run(&mut lbm, 300);
    let m1 = total_mass(&lbm);
    let cells = lbm.domain.interior_cell_count() as f64;
    assert!((m1 - m0).abs() / cells < 5e-5, "mass drifted from {m0} to {m1}");
}

#[test]
fn a_tilted_inlet_loses_what_points_through_a_wall() {
    let cfg = SolverConfig::default();
    let d = PaddedDomain::uniform_fluid(UVec3::new(3, 3, 3), [false, false, false], cfg.set);
    let lbm = started(d, cfg);
    let spec = InletSpec {
        velocity: v(0.01, 0.02, 0.05),
        normal: v(0.0, 0.0, 1.0),
        local_density: false,
    };
    let at = |x, y, z| lbm.domain.interior_linear(UVec3::new(x, y, z)) as u64;
    let imposed = |x, y, spec| lbm.inlet_velocity_at(at(x, y, 0), spec);
    assert_eq!(imposed(1, 1, spec), v(0.01, 0.02, 0.05));
    assert_eq!(imposed(0, 1, spec), v(0.0, 0.02, 0.05));
    assert_eq!(imposed(2, 1, spec), v(0.0, 0.02, 0.05));
    assert_eq!(imposed(0, 0, spec), v(0.0, 0.0, 0.05));
    let wild = InletSpec { velocity: v(f32::INFINITY, 0.0, 0.05), ..spec };
    assert_eq!(imposed(1, 1, wild), wild.velocity);
    assert!(array(imposed(0, 1, wild)).iter().all(|x| x.is_nan()));
}

#[test]
fn boundaries_report_the_state_they_impose() {
    let cfg = SolverConfig {
        inlet_velocity: v(0.05, 0.01, 0.0),
        smagorinsky_c: 0,
        ..SolverConfig::default()
    };
    let mut mask = vec![flags::FLUID; 27];
    mask[0] = flags::SOLID;
    mask[13] = flags::inlet_in_slot(0);
    mask[14] = flags::EQUILIBRIUM;
    let d = PaddedDomain::new(UVec3::splat(3), [false; 3], &mask, cfg.set);
    let lbm = started(d, cfg);
    assert_eq!(inside(&lbm, 0, 0, 0), (1.0, [0.0; 3]));
    // The populations at rest close at `u_n / (1 - u_n)`; they arrived at a density of one.
    let cell = lbm.domain.interior_linear(UVec3::splat(1)) as u64;
    assert_eq!(macroscopic(&lbm, cell), (1.0 + 0.05 / 0.95, [0.05, 0.01, 0.0]));
    assert_eq!(inside(&lbm, 1, 1, 1), (1.0, [0.05, 0.01, 0.0]));
    assert_eq!(inside(&lbm, 2, 1, 1), (1.0, [0.0; 3]));
}

#[test]
fn an_inlet_imposes_its_equilibrium_within_the_band() {
    let mut cfg = SolverConfig {
        inlet_velocity: v(0.05, 0.0, 0.0),
        inlet_normal: v(1.0, 0.0, 0.0),
        smagorinsky_c: 0,
        ..SolverConfig::default()
    };
    cfg.extra_inlets[0] =
        InletSpec { velocity: v(0.02, 0.0, 0.0), normal: v(1.0, 0.0, 0.0), local_density: true };
    let mut mask = vec![flags::FLUID; 27];
    mask[12] = flags::inlet_in_slot(0);
    mask[13] = flags::inlet_in_slot(1);
    let d = PaddedDomain::new(UVec3::splat(3), [false; 3], &mask, cfg.set);
    let lbm = started(d, cfg);
    let kernel = kernel(cfg);
    let at = |x| lbm.domain.interior_linear(UVec3::new(x, 1, 1)) as u64;
    let state = |drho: f32, u: [f32; 3]| -> Vec<u32> {
        (0..Q).map(|i| equilibrium(i, drho, 1.0 + drho, u).to_bits()).collect()
    };
    // At rest the closure reads `u_n / (1 - u_n)`; the local density reads nothing.
    let rest = vec![0u32; Q];
    let plan = lbm.plan(at(0)).unwrap();
    let out = kernel.relax(&lbm, at(0), plan, rest.clone());
    assert_eq!(out, state(0.05 / 0.95, [0.05, 0.0, 0.0]));
    let free = lbm.plan(at(1)).unwrap();
    assert_eq!(kernel.relax(&lbm, at(1), free, rest), state(0.0, [0.02, 0.0, 0.0]));
    // A pile-up is held to the band.
    let heap = vec![1.0f32.to_bits(); Q];
    assert_eq!(kernel.relax(&lbm, at(1), free, heap), state(0.2, [0.02, 0.0, 0.0]));
}

#[test]
fn an_outlet_pins_its_density_and_drains() {
    let cfg = SolverConfig {
        outlet_anti_bounce_back: true,
        outlet_normal: v(1.0, 0.0, 0.0),
        outflow_velocity: 1.0f32.to_bits(),
        tau0: 1.0f32.to_bits(),
        smagorinsky_c: 0,
        collision: CollisionModel::Bgk,
        ..SolverConfig::default()
    };
    let mut mask = vec![flags::FLUID; 27];
    mask[14] = flags::OUTLET;
    let d = PaddedDomain::new(UVec3::splat(3), [false; 3], &mask, cfg.set);
    let lbm = started(d, cfg);
    let kernel = kernel(cfg);
    let cell = lbm.domain.interior_linear(UVec3::new(2, 1, 1)) as u64;
    let plan = lbm.plan(cell).unwrap();
    assert!(plan.anti_bounce_back && plan.convective);
    // A lone population on the link back from the plane is negated: its density goes with
    // it but for terms of the square of the velocity, and the outflow then takes half of
    // that away.
    let mut g = vec![0u32; Q];
    g[2] = 0.01f32.to_bits();
    let out = floats(&kernel.relax(&lbm, cell, plan, g.clone()));
    let drho: f32 = out.iter().sum();
    assert!((drho + 0.005).abs() < 1e-4, "density deviation {drho}");
    let plain = CellPlan { anti_bounce_back: false, convective: false, ..plan };
    let drho: f32 = floats(&kernel.relax(&lbm, cell, plain, g)).iter().sum();
    assert!((drho - 0.01).abs() < 1e-6, "density deviation {drho}");
}

fn state_at(rho: f32, u: [f32; 3]) -> Vec<f32> {
    (0..Q).map(|i| equilibrium(i, rho - 1.0, rho, u)).collect()
}

fn collided(model: CollisionModel, g: &[f32], geq: &[f32], s_e: f32, s_o: f32) -> Vec<f32> {
    let mut g = bits(g.iter().copied());
    relax(model, &mut g, &bits(geq.iter().copied()), s_e, s_o);
    floats(&g)
}

const MODELS: [CollisionModel; 3] =
    [CollisionModel::Trt, CollisionModel::Bgk, CollisionModel::RegularizedBgk];

#[test]
fn magic_parameter_recovers_the_definition() {
    for tau in [0.5006f32, 0.51, 0.6, 1.0, 2.0] {
        for lambda in [3.0 / 16.0f32, 0.25, 1.0 / 12.0] {
            let (s_e, s_o) = rates(tau, lambda);
            let got = (1.0 / s_e - 0.5) * (1.0 / s_o - 0.5);
            assert!((got - lambda).abs() < 1e-5, "tau {tau} lambda {lambda}: recovered {got}");
            assert!(s_o > 0.0 && s_o < 2.0, "s_o = {s_o} is outside the stable range");
        }
    }
    assert_eq!(rates(0.8, 0.0), (1.25, 1.25));
    assert_eq!(rates(0.8, -1.0), (1.25, 1.25));
}

#[test]
fn trt_degenerates_to_bgk_when_the_rates_coincide() {
    let tau = 0.8f32;
    let lambda = (tau - 0.5) * (tau - 0.5);
    let (s_e, s_o) = rates(tau, lambda);
    assert!((s_e - s_o).abs() < 1e-6);
    let geq = state_at(1.002, [0.05, -0.03, 0.02]);
    let g: Vec<f32> =
        geq.iter().enumerate().map(|(i, v)| v + 0.001 * (i as f32 - 9.0)).collect();
    let a = collided(CollisionModel::Trt, &g, &geq, s_e, s_o);
    let b = collided(CollisionModel::Bgk, &g, &geq, s_e, s_e);
    for i in 0..19 {
        assert!((a[i] - b[i]).abs() < 1e-6, "direction {i}: TRT {} vs BGK {}", a[i], b[i]);
    }
}

#[test]
fn every_operator_conserves_mass_and_momentum() {
    let geq = state_at(1.004, [0.06, 0.01, -0.04]);
    let raw: Vec<f32> = (0..19).map(|i| 0.002 * ((i * 7 % 11) as f32 - 5.0)).collect();
    let (dm, mom) = moments(&raw);
    let neq0: Vec<f32> =
        (0..19).map(|i| raw[i] - weight(i) * (dm + 3.0 * dot(c(i), mom))).collect();
    let (r, m) = moments(&neq0);
    assert!(r.abs() < 1e-6 && m.iter().all(|v| v.abs() < 1e-6), "projection failed");
    let start: Vec<f32> = geq.iter().zip(&neq0).map(|(a, b)| a + b).collect();
    for model in MODELS {
        let (s_e, s_o) = rates(0.55, 3.0 / 16.0);
        let (rho_before, m_before) = moments(&start);
        let (rho_after, m_after) = moments(&collided(model, &start, &geq, s_e, s_o));
        assert!(
            (rho_after - rho_before).abs() < 2e-6,
            "{}: density {rho_before} -> {rho_after}",
            model.name()
        );
        for a in 0..3 {
            assert!(
                (m_after[a] - m_before[a]).abs() < 2e-6,
                "{}: momentum {a} {} -> {}",
                model.name(),
                m_before[a],
                m_after[a]
            );
        }
    }
}

#[test]
fn equilibrium_is_a_fixed_point_of_every_operator() {
    let geq = state_at(1.001, [0.04, -0.02, 0.03]);
    for model in MODELS {
        let (s_e, s_o) = rates(0.7, 3.0 / 16.0);
        let g = collided(model, &geq, &geq, s_e, s_o);
        for i in 0..19 {
            assert!(
                (g[i] - geq[i]).abs() < 1e-7,
                "{} moved direction {i} away from equilibrium",
                model.name()
            );
        }
    }
}

fn pi_norm(neq: &[f32]) -> f32 {
    second_moment(neq).iter().flatten().map(|v| v * v).sum::<f32>().sqrt()
}

#[test]
fn regularization_preserves_the_second_moment_it_keeps() {
    let geq = state_at(1.0, [0.03, 0.0, 0.0]);
    let g: Vec<f32> =
        geq.iter().enumerate().map(|(i, v)| v + 0.0005 * (i as f32 % 5.0 - 2.0)).collect();
    let off = |g: &[f32]| -> Vec<f32> { g.iter().zip(&geq).map(|(a, b)| a - b).collect() };
    let before = pi_norm(&off(&g));
    let after = pi_norm(&off(&collided(CollisionModel::RegularizedBgk, &g, &geq, 0.0, 0.0)));
    assert!(
        (after - before).abs() < 1e-6 * before.max(1e-6),
        "|Pi| changed under projection: {before} -> {after}"
    );
}

fn eddy_tau(tau0: f32, tau_max: f32, cs: f32, rho: f32, pi: f32) -> f32 {
    f(smagorinsky_tau(
        tau0.to_bits(),
        tau_max.to_bits(),
        cs.to_bits(),
        rho.to_bits(),
        pi.to_bits(),
        &raised,
    ))
}

#[test]
fn smagorinsky_switches_off_cleanly_and_only_ever_raises_tau() {
    let tau0 = 0.5006f32;
    assert_eq!(eddy_tau(tau0, 1.0, 0.0, 1.0, 100.0), tau0);
    for pi in [0.0f32, 1e-6, 1e-3, 1e-1, 10.0] {
        let t = eddy_tau(tau0, 1.0, 0.11, 1.0, pi);
        assert!(t >= tau0 - 1e-7, "tau_eff {t} fell below tau0 {tau0}");
        assert!(t <= 1.0, "tau_eff {t} exceeded the clamp");
    }
    let a = eddy_tau(tau0, 1.0, 0.11, 1.0, 1e-4);
    let b = eddy_tau(tau0, 1.0, 0.11, 1.0, 1e-2);
    assert!(b > a, "eddy viscosity did not increase with strain: {a} then {b}");
}

#[test]
fn guo_forcing_injects_exactly_the_requested_momentum() {
    let u = v(0.05, 0.02, -0.01);
    let force = [1e-5f32, -2e-5, 3e-6];
    let (s_e, s_o) = rates(0.6, 3.0 / 16.0);
    let rates = (s_e.to_bits(), s_o.to_bits());
    let set = VelocitySet::D3Q19;
    let mut g = vec![0u32; Q];
    let by = v(force[0], force[1], force[2]);
    apply_force(set, &mut g, u, by, rates, &force_term, &push_rest, &push_pair);
    let (drho, m_after) = moments(&floats(&g));
    assert!(((1.0 + drho) - 1.0).abs() < 1e-10, "forcing changed the density by {drho}");
    for a in 0..3 {
        let want = (1.0 - 0.5 * s_o) * force[a];
        assert!(
            (m_after[a] - want).abs() < 1e-11,
            "axis {a}: momentum gain {}, expected {want}",
            m_after[a]
        );
    }
    // Without a force nothing moves, whatever the terms would have been.
    let mut still: Vec<u32> = (0..19).collect();
    let none = v(0.0, -0.0, 0.0);
    apply_force(set, &mut still, u, none, rates, &force_term, &push_rest, &push_pair);
    assert_eq!(still, (0..19).collect::<Vec<u32>>());
}

#[test]
fn a_body_force_pushes_every_step_by_itself() {
    // A periodic box at rest gains the force's impulse once a step; half of the last one
    // is still in the velocity.
    let cfg = SolverConfig {
        tau0: 0.8f32.to_bits(),
        body_force: v(1e-5, 0.0, -2e-5),
        ..SolverConfig::default()
    };
    let mut lbm = periodic_box(4, cfg);
    run(&mut lbm, 10);
    let (rho, u) = inside(&lbm, 1, 2, 3);
    assert!((rho - 1.0).abs() < 1e-6, "density {rho}");
    assert!((u[0] - 1.05e-4).abs() < 1e-7 && u[1].abs() < 1e-9, "velocity {u:?}");
    assert!((u[2] + 2.1e-4).abs() < 1e-7, "velocity {u:?}");
}

#[test]
fn the_eddy_viscosity_slows_the_collision() {
    let still = SolverConfig {
        tau0: 0.51f32.to_bits(),
        smagorinsky_c: 0,
        collision: CollisionModel::Bgk,
        ..SolverConfig::default()
    };
    let eddy = SolverConfig { smagorinsky_c: 0.17f32.to_bits(), ..still };
    let g: Vec<u32> = (0..Q).map(|i| (0.01 * (i % 3) as f32).to_bits()).collect();
    let geq = vec![0u32; Q];
    let after = |cfg: &SolverConfig| {
        kernel(*cfg).collision.relax(cfg, 0, 1.0f32.to_bits(), v(0.0, 0.0, 0.0), g.clone(), &geq)
    };
    let plain = 1.0 - 1.0 / 0.51f32;
    assert!((f(after(&still)[1]) - 0.01 * plain).abs() < 1e-7);
    let tau = eddy_tau(0.51, 1.0, 0.17, 1.0, pi_norm(&floats(&g)));
    assert!(tau > 0.52, "tau {tau}");
    assert!((f(after(&eddy)[1]) - 0.01 * (1.0 - 1.0 / tau)).abs() < 1e-7);
}

#[test]
fn a_plan_follows_the_flags() {
    let cfg = SolverConfig {
        outlet_anti_bounce_back: true,
        outflow_velocity: 0.1f32.to_bits(),
        outlet_normal: v(1.0, 0.0, 0.0),
        ..SolverConfig::default()
    };
    let mut mask = vec![flags::FLUID; 27];
    mask[0] = flags::SOLID;
    mask[1] = flags::inlet_in_slot(0);
    mask[2] = flags::OUTLET;
    mask[3] = flags::EQUILIBRIUM;
    let d = PaddedDomain::new(UVec3::splat(3), [false; 3], &mask, cfg.set);
    let lbm = started(d, cfg);
    let plan = |x: u32, y: u32| lbm.plan(lbm.domain.interior_linear(UVec3::new(x, y, 0)) as u64);
    assert!(plan(0, 0).is_none());
    let inlet = plan(1, 0).unwrap();
    assert!(inlet.inlet.is_some() && inlet.discard_nonequilibrium && !inlet.convective);
    let outlet = plan(2, 0).unwrap();
    assert!(outlet.anti_bounce_back && outlet.convective && outlet.inlet.is_none());
    let still = plan(0, 1).unwrap();
    assert!(still.discard_nonequilibrium && still.kind == CellKind::Equilibrium);
    let cell = lbm.domain.interior_linear(UVec3::new(2, 1, 1)) as u64;
    let against: Vec<bool> = (0..19).map(|i| direction(i).x < 0).collect();
    let links = lbm.anti_bounce_back(cell, &against);
    assert!(links[2], "the link straight back from the outlet plane");
    assert!(!links[1] && !links[0]);
}

#[test]
fn a_tilted_inlet_turns_the_air_and_keeps_the_flow_rate() {
    let dims = UVec3::new(24, 12, 12);
    let (nx, ny, nz) = (dims.x, dims.y, dims.z);
    let duct_end = 14u32;
    let bore = 3..9u32;
    let run_with = |inlet_velocity: Vec3| -> ReferenceLbm {
        let at = |x: u32, y: u32, z: u32| ((z * ny + y) * nx + x) as usize;
        let mut mask = vec![flags::FLUID; (nx * ny * nz) as usize];
        for z in 0..nz {
            for y in 0..ny {
                let inside = bore.contains(&y) && bore.contains(&z);
                for x in 0..duct_end {
                    if !inside {
                        mask[at(x, y, z)] = flags::SOLID;
                    }
                }
                if inside {
                    mask[at(0, y, z)] = flags::INLET;
                }
                mask[at(nx - 1, y, z)] = flags::OUTLET | flags::SPONGE;
            }
        }
        for x in duct_end..nx - 1 {
            for k in 0..ny {
                mask[at(x, 0, k)] = flags::EQUILIBRIUM;
                mask[at(x, ny - 1, k)] = flags::EQUILIBRIUM;
                mask[at(x, k, 0)] = flags::EQUILIBRIUM;
                mask[at(x, k, nz - 1)] = flags::EQUILIBRIUM;
            }
        }
        let cfg = SolverConfig {
            tau0: 0.55f32.to_bits(),
            smagorinsky_c: 0,
            inlet_velocity,
            inlet_normal: v(1.0, 0.0, 0.0),
            outflow_velocity: 0.05f32.to_bits(),
            outlet_normal: v(1.0, 0.0, 0.0),
            sponge_cells: 4,
            sponge_strength: 0.4f32.to_bits(),
            ..SolverConfig::default()
        };
        let mut lbm = started(PaddedDomain::new(dims, [false; 3], &mask, cfg.set), cfg);
        run(&mut lbm, 3000);
        lbm
    };
    let sum_over_bore = |lbm: &ReferenceLbm, x: u32, f: &dyn Fn(f32, [f32; 3]) -> f32| -> f32 {
        let mut s = 0.0;
        for z in bore.clone() {
            for y in bore.clone() {
                let (rho, u) = inside(lbm, x, y, z);
                s += f(rho, u);
            }
        }
        s
    };

    let straight = run_with(v(0.05, 0.0, 0.0));
    let tilted = run_with(v(0.05, 0.025, 0.0));

    for x in 0..duct_end {
        let bad = sum_over_bore(&tilted, x, &|rho, u| {
            (!(rho.is_finite() && u.iter().all(|c| c.is_finite()))) as u32 as f32
        });
        assert_eq!(bad, 0.0, "non-finite cells at x = {x}");
    }
    let flux = |lbm: &ReferenceLbm| sum_over_bore(lbm, duct_end / 2, &|rho, u| rho * u[0]);
    let (q0, q1) = (flux(&straight), flux(&tilted));
    assert!(q0 > 0.0, "no flow through the straight duct");
    assert!((q1 - q0).abs() / q0 < 0.01, "the tilt changed the flow rate: {q0} -> {q1}");

    let turned = sum_over_bore(&tilted, 1, &|_, u| u[1]);
    assert!(turned > 0.0, "the air was not turned toward +y (sum of u_y {turned})");

    let mut shift = 0.0f32;
    let mut worst = 0.0f32;
    for z in bore.clone() {
        for y in bore.clone() {
            let s = inside(&straight, 0, y, z).0 - 1.0;
            let t = inside(&tilted, 0, y, z).0 - 1.0;
            shift = shift.max((t - s).abs());
            worst = worst.max(t.abs());
        }
    }
    assert!(worst < 0.1, "inlet density {worst} is heading for the clamp");
    assert!(shift < 0.035, "the tilt moved the inlet density by {shift}");
}

#[test]
fn a_plane_inlet_in_open_fluid_is_a_source_with_the_closure_and_a_disc_without() {
    let dims = UVec3::new(60, 4, 4);
    let (nx, ny, nz) = (dims.x, dims.y, dims.z);
    let at = |x: u32, y: u32, z: u32| ((z * ny + y) * nx + x) as usize;
    let mut mask = vec![flags::FLUID; (nx * ny * nz) as usize];
    for z in 0..nz {
        for y in 0..ny {
            mask[at(0, y, z)] = flags::EQUILIBRIUM;
            mask[at(nx - 1, y, z)] = flags::EQUILIBRIUM;
            mask[at(15, y, z)] = flags::inlet_in_slot(1);
        }
    }
    let column = |local_density: bool| -> (f32, f32) {
        let mut cfg = SolverConfig {
            tau0: 0.502f32.to_bits(),
            smagorinsky_c: 0,
            periodic: [false, true, true],
            ..SolverConfig::default()
        };
        cfg.extra_inlets[0] = InletSpec {
            velocity: v(0.05, 0.0, 0.0),
            normal: v(1.0, 0.0, 0.0),
            local_density,
        };
        let mut lbm = started(PaddedDomain::new(dims, cfg.periodic, &mask, cfg.set), cfg);
        run(&mut lbm, 3000);
        let u = |x: u32| inside(&lbm, x, 2, 2).1[0] / 0.05;
        (u(30), u(6))
    };
    let (down, up) = column(false);
    assert!(
        (down - 1.0).abs() < 0.01,
        "the closure column is not at the inlet velocity: {down}"
    );
    assert!(up.abs() < 0.01, "the closure draws from behind: {up}");
    let (down, up) = column(true);
    assert!((0.3..0.6).contains(&down), "the disc's jet changed strength: {down}");
    assert!(up > 0.3, "the disc stopped drawing from behind: {up}");
}

#[test]
fn a_free_standing_vent_blows_a_jet_at_its_own_speed() {
    let dims = UVec3::new(24, 12, 12);
    let (nx, ny, nz) = (dims.x, dims.y, dims.z);
    let at = |x: u32, y: u32, z: u32| ((z * ny + y) * nx + x) as usize;
    let mut mask = vec![flags::FLUID; (nx * ny * nz) as usize];
    for z in 0..nz {
        for y in 0..ny {
            for x in 0..nx {
                if x == 0 || y == 0 || z == 0 || x == nx - 1 || y == ny - 1 || z == nz - 1 {
                    mask[at(x, y, z)] = flags::EQUILIBRIUM;
                }
            }
        }
    }
    for z in 4..8u32 {
        for y in 4..8u32 {
            mask[at(6, y, z)] = flags::inlet_in_slot(1);
        }
    }
    let mut cfg = SolverConfig {
        tau0: 0.55f32.to_bits(),
        smagorinsky_c: 0,
        ..SolverConfig::default()
    };
    cfg.extra_inlets[0] = InletSpec {
        velocity: v(0.05, 0.0, 0.0),
        normal: v(1.0, 0.0, 0.0),
        local_density: true,
    };
    let mut lbm = started(PaddedDomain::new(dims, [false; 3], &mask, cfg.set), cfg);
    run(&mut lbm, 1500);
    let mut worst_drho = 0.0f32;
    for z in 0..nz {
        for y in 0..ny {
            for x in 0..nx {
                let (rho, u) = inside(&lbm, x, y, z);
                assert!(
                    rho.is_finite() && u.iter().all(|c| c.is_finite()),
                    "non-finite at ({x},{y},{z})"
                );
                if x == 6 && (4..8).contains(&y) && (4..8).contains(&z) {
                    worst_drho = worst_drho.max((rho - 1.0).abs());
                    assert!(
                        (u[0] - 0.05).abs() <= 1e-6 && u[1].abs() <= 1e-6 && u[2].abs() <= 1e-6,
                        "the vent reports its own velocity"
                    );
                }
            }
        }
    }
    let leaving = inside(&lbm, 7, 5, 5).1;
    let downstream = inside(&lbm, 9, 5, 5).1;
    let upstream = inside(&lbm, 3, 5, 5).1;
    assert!(leaving[0] > 0.035, "the air leaving the disc is not at its speed: {leaving:?}");
    assert!(downstream[0] > 0.02, "the jet died within three cells: {downstream:?}");
    assert!(upstream[0] > 0.0, "a fan disc draws air in from behind: {upstream:?}");
    assert!(worst_drho < 0.02, "density piled up on the disc: {worst_drho}");
}
