use aeroduct::boundary::{CellKind, PaddedDomain};
use aeroduct::collision::CollisionModel;
use aeroduct::config::{Grid, SolverConfig, Vec3};
use aeroduct::flags;
use aeroduct::grid::{IVec3, UVec3};
use aeroduct::lattice::{direction, pair_first, VelocitySet};
use aeroduct::links::{BoundaryLink, LinkTable};
use aeroduct::precision::DdfPrecision;
use aeroduct::solver::{
    check_grid, ddf_bytes, div_ceil, max_steps_per_submit_for, open_mask, pack_flags, GridError,
    NeedsRebuild, Solver,
};

#[test]
fn open_axes_are_padded_and_periodic_axes_are_not() {
    let d = PaddedDomain::uniform_fluid(
        UVec3::new(4, 5, 6),
        [true, false, false],
        VelocitySet::D3Q19,
    );
    assert_eq!(d.padded, UVec3::new(4, 7, 8));
    assert_eq!(d.offset, UVec3::new(0, 1, 1));
    assert_eq!(d.padded_cell_count(), 4 * 7 * 8);
}

#[test]
fn the_halo_is_solid_and_the_interior_is_not() {
    let d = PaddedDomain::uniform_fluid(UVec3::new(3, 3, 3), [false; 3], VelocitySet::D3Q19);
    assert_eq!(d.padded, UVec3::splat(5));
    for z in 0..5u32 {
        for y in 0..5u32 {
            for x in 0..5u32 {
                let on_shell = x == 0 || y == 0 || z == 0 || x == 4 || y == 4 || z == 4;
                let f = d.flags[d.linear(UVec3::new(x, y, z)) as usize];
                assert_eq!(
                    !flags::is_fluid(f),
                    on_shell,
                    "cell ({x},{y},{z}) shell={on_shell} flags={f:#04x}"
                );
            }
        }
    }
}

#[test]
fn every_slot_a_fluid_cell_touches_is_inside_the_padded_grid() {
    for periodic in [[false; 3], [true, false, false], [true, true, true]] {
        for set in [VelocitySet::D3Q19, VelocitySet::D3Q27] {
            let d = PaddedDomain::uniform_fluid(UVec3::new(5, 4, 3), periodic, set);
            for cell in 0..d.padded_cell_count() as u32 {
                if !flags::is_fluid(d.flags[cell as usize]) {
                    continue;
                }
                let c = d.coords(cell);
                for i in 1..set.q() {
                    let step = direction(pair_first(i));
                    for a in 0..3 {
                        let target = c.get(a) as i32 - step.get(a);
                        if !periodic[a] {
                            assert!(
                                target >= 0 && target < d.padded.get(a) as i32,
                                "{set:?} {periodic:?}: fluid cell {c:?} direction {i}"
                            );
                        }
                    }
                }
            }
        }
    }
}

#[test]
fn link_mask_marks_exactly_the_links_that_end_on_solid() {
    let mut d = PaddedDomain::uniform_fluid(UVec3::new(6, 6, 6), [true; 3], VelocitySet::D3Q19);
    let solid = d.linear(UVec3::new(3, 3, 3));
    d.flags[solid as usize] = flags::SOLID;
    d.rebuild_link_mask(VelocitySet::D3Q19);

    for cell in 0..d.padded_cell_count() as u32 {
        if cell == solid {
            assert_eq!(d.link_mask[cell as usize], 0, "solid cells carry no mask");
            continue;
        }
        let c = d.coords(cell);
        for i in 1..19usize {
            let step = direction(i);
            let up = d.neighbour(c, IVec3::new(-step.x, -step.y, -step.z));
            let want = d.linear(up) == solid;
            let got = d.link_mask[cell as usize] & (1 << i) != 0;
            assert_eq!(got, want, "cell {c:?} direction {i}");
        }
    }
    let blocked: u32 = d.link_mask.iter().map(|m| m.count_ones()).sum();
    assert_eq!(blocked, 18, "one blocked link per neighbour of the solid cell");
}

#[test]
fn sponge_grades_quadratically_to_zero_at_the_inner_edge() {
    let d = PaddedDomain::uniform_fluid(UVec3::new(40, 40, 40), [false; 3], VelocitySet::D3Q19);
    let grade = |strength: u32, depth: u32, cells: u32| {
        let t = depth as f32 / cells as f32;
        (f32::from_bits(strength) * t * t).to_bits()
    };
    let graded = |c: UVec3, f: u8, cells: u32, strength: f32| {
        f32::from_bits(d.sponge_sigma(c, f, cells, strength.to_bits(), &grade))
    };
    let sigma = |c: UVec3, f: u8| graded(c, f, 10, 0.5);
    let sp = flags::SPONGE;
    assert_eq!(sigma(UVec3::splat(20), sp), 0.0, "the interior must be untouched");
    let face = UVec3::new(0, 20, 20);
    assert!((sigma(face, sp) - 0.5).abs() < 1e-6);
    assert_eq!(sigma(face, flags::FLUID), 0.0);
    let mut prev = f32::INFINITY;
    for x in 0..12u32 {
        let s = sigma(UVec3::new(x, 20, 20), sp);
        assert!(s <= prev + 1e-9, "sponge is not monotone at x={x}");
        prev = s;
    }
    assert_eq!(sigma(UVec3::new(10, 20, 20), sp), 0.0);
    assert_eq!(d.sponge_depth(face, sp, 10), Some(10));
    assert_eq!(d.sponge_depth(UVec3::new(4, 20, 20), sp, 10), Some(6));
    assert_eq!(d.sponge_depth(face, sp, 0), None);
    assert_eq!(graded(face, sp, 0, 0.5), 0.0);
    assert_eq!(graded(face, sp, 10, 0.0), 0.0);
    assert_eq!(graded(face, sp, 10, -0.5), 0.0);
}

#[test]
fn cell_kind_dispatch_priority_is_solid_inlet_outlet_equilibrium() {
    assert_eq!(CellKind::of(flags::FLUID), CellKind::Fluid);
    assert_eq!(CellKind::of(flags::SOLID | flags::INLET), CellKind::Solid);
    assert_eq!(CellKind::of(flags::INLET | flags::OUTLET), CellKind::Inlet);
    assert_eq!(CellKind::of(flags::OUTLET | flags::EQUILIBRIUM), CellKind::Outlet);
    assert_eq!(CellKind::of(flags::EQUILIBRIUM | flags::SPONGE), CellKind::Equilibrium);
    assert_eq!(CellKind::of(flags::SPONGE), CellKind::Fluid);
}

#[test]
fn link_table_remaps_into_the_padded_grid_and_defaults_to_halfway() {
    let interior = UVec3::new(4, 4, 4);
    let d = PaddedDomain::uniform_fluid(interior, [false; 3], VelocitySet::D3Q19);
    let src = vec![BoundaryLink {
        cell: (2 * 4 + 1) * 4 + 3,
        direction: 5,
        q_quantised: (0.25f32 * 255.0).round() as u8,
    }];
    let t = LinkTable::remap(&src, interior, &d);
    let padded_cell = d.interior_linear(UVec3::new(3, 1, 2));
    assert_eq!(t.links[0].cell, padded_cell);
    let decode = |q: u8| (q as f32 / 255.0).to_bits();
    let q = |cell: u32, direction: u8| f32::from_bits(t.q(cell, direction, &decode));
    assert!((q(padded_cell, 5) - 0.25).abs() < 1.0 / 255.0);
    assert_eq!(q(padded_cell, 6), 0.5, "absent links fall back to halfway");
    assert!(!t.is_empty() && LinkTable::default().is_empty());
}

#[test]
fn a_link_table_is_in_order_of_cell_then_direction() {
    let interior = UVec3::new(3, 2, 2);
    let d = PaddedDomain::uniform_fluid(interior, [false; 3], VelocitySet::D3Q19);
    let link = |cell, direction, q_quantised| BoundaryLink { cell, direction, q_quantised };
    let src = vec![link(7, 3, 10), link(0, 5, 20), link(7, 1, 30), link(0, 2, 40), link(7, 3, 50)];
    let t = LinkTable::remap(&src, interior, &d);
    assert_eq!(t.links.len(), 5);
    for w in t.links.windows(2) {
        assert!((w[0].cell, w[0].direction) <= (w[1].cell, w[1].direction));
    }
    let seven = d.interior_linear(UVec3::new(1, 0, 1));
    let whole = |q: u8| q as u32;
    assert_eq!(t.q(seven, 1, &whole), 30);
    assert_eq!(t.q(d.interior_linear(UVec3::new(0, 0, 0)), 2, &whole), 40);
    assert_eq!(t.q(seven, 2, &whole), 0.5f32.to_bits());
    assert_eq!(t.links.iter().filter(|l| l.cell == seven).count(), 3);
}

#[test]
fn coarse_grids_get_the_stabilising_smagorinsky_constant() {
    // 0.75 mm at 8 m/s with a lattice velocity of 0.1.
    let dt = 0.1 * 0.75e-3 / 8.0;
    let tau0 = (0.5 + 3.0 * 1.516e-5 * dt / (0.75e-3f64 * 0.75e-3)) as f32;
    let coarse = SolverConfig::from_units(tau0.to_bits(), dt.to_bits());
    assert!(f32::from_bits(coarse.tau0) < 0.515, "expected a coarse tau0, got {tau0}");
    assert_eq!(coarse.smagorinsky_c, 0.17f32.to_bits());
}

#[test]
fn fine_grids_get_the_accurate_smagorinsky_constant() {
    assert_eq!(SolverConfig::smagorinsky_for_tau(0.52f32.to_bits()), 0.11f32.to_bits());
    assert_eq!(SolverConfig::smagorinsky_for_tau(0.60f32.to_bits()), 0.11f32.to_bits());
}

#[test]
fn the_smagorinsky_threshold_brackets_the_measured_cases() {
    assert_eq!(SolverConfig::smagorinsky_for_tau(0.510f32.to_bits()), 0.17f32.to_bits());
    assert_eq!(SolverConfig::smagorinsky_for_tau(0.520f32.to_bits()), 0.11f32.to_bits());
}

#[test]
fn the_bare_default_is_the_stable_constant_not_the_accurate_one() {
    assert_eq!(SolverConfig::default().smagorinsky_c, 0.17f32.to_bits());
}

#[test]
fn from_units_carries_the_timestep_through_for_pressure_conversion() {
    let dt = 0.1 * 0.4e-3 / 3.0f64;
    let tau0 = 0.5 + 3.0 * 1.516e-5 * dt / (0.4e-3 * 0.4e-3);
    let cfg = SolverConfig::from_units((tau0 as f32).to_bits(), dt.to_bits());
    assert_eq!(f64::from_bits(cfg.dt_s), dt);
    assert!((f32::from_bits(cfg.tau0) as f64 - tau0).abs() < 1e-6);
}

#[test]
fn only_compiled_in_choices_need_a_rebuild() {
    let cfg = SolverConfig::default();
    let hot = SolverConfig { inlet_velocity: Vec3::new(1, 2, 3), tau0: 7, sponge_cells: 3, ..cfg };
    assert!(!cfg.needs_rebuild(&hot));
    assert!(cfg.needs_rebuild(&SolverConfig { collision: CollisionModel::Bgk, ..cfg }));
    assert!(cfg.needs_rebuild(&SolverConfig { set: VelocitySet::D3Q27, ..cfg }));
    assert!(cfg.needs_rebuild(&SolverConfig { periodic: [true, true, true], ..cfg }));
    let mut s = solver(UVec3::splat(4), cfg);
    assert_eq!(s.update(hot), Ok(()));
    assert_eq!(s.config().tau0, 7);
    let other = SolverConfig { collision: CollisionModel::Bgk, ..cfg };
    assert_eq!(s.update(other), Err(NeedsRebuild));
    assert_eq!(s.config().collision, cfg.collision);
}

fn solver(dims: UVec3, cfg: SolverConfig) -> Solver {
    let grid = Grid { dims, dx_mm: 0.75f32.to_bits(), origin_mm: Vec3::new(0, 0, 0) };
    Solver::new(grid, &open_mask(dims), &[], cfg)
}

#[test]
fn a_large_grid_never_batches_a_whole_convergence_run_into_one_submit() {
    let survived = 42_300_000u64;
    let died = 101_300_000u64;
    let interactive = 6_500_000u64;

    assert!(
        max_steps_per_submit_for(died) < 500,
        "the grid that killed the driver must now be split"
    );
    assert!(
        max_steps_per_submit_for(died) * 4 < 500,
        "the split should be well clear of the batch size that failed"
    );
    assert!(
        max_steps_per_submit_for(died) >= 20,
        "over-splitting trades a crash for a slowdown"
    );
    assert!(max_steps_per_submit_for(died) >= 1, "it must still make progress");
    assert!(max_steps_per_submit_for(died) < max_steps_per_submit_for(survived));
    assert!(max_steps_per_submit_for(survived) < max_steps_per_submit_for(interactive));

    let submits = 350_000 / max_steps_per_submit_for(died).max(1);
    assert!(submits < 100_000, "{submits} submits is too many");

    assert_eq!(max_steps_per_submit_for(0).max(1), max_steps_per_submit_for(0));
    assert!(max_steps_per_submit_for(u64::MAX) >= 1);
}

#[test]
fn a_run_is_split_into_submits_that_alternate_and_end_with_the_fields() {
    let mut s = solver(UVec3::splat(4), SolverConfig::default());
    let per = s.max_steps_per_submit();
    let n = 2 * per + 3;
    let batches = s.advance(n, true);
    assert_eq!(batches.iter().map(|b| b.steps).sum::<u32>(), n);
    assert_eq!(batches.len(), 3);
    assert_eq!(batches[1].first_parity, per % 2);
    assert!(!batches[0].macroscopic && batches[2].macroscopic);
    assert_eq!(s.steps_taken(), n as u64);
    let idle = s.advance(0, true);
    assert_eq!((idle.len(), idle[0].steps, idle[0].macroscopic), (1, 0, true));
    assert!(s.advance(0, false).is_empty());
    s.reset();
    assert_eq!(s.steps_taken(), 0);
}

#[test]
fn flags_pack_four_cells_per_word() {
    let bytes = [0x01u8, 0x02, 0x04, 0x08, 0x10];
    let words = pack_flags(&bytes);
    assert_eq!(words.len(), 2);
    assert_eq!(words[0], 0x08040201);
    assert_eq!(words[1], 0x00000010);
    for (i, b) in bytes.iter().enumerate() {
        let got = (words[i >> 2] >> ((i & 3) * 8)) & 0xff;
        assert_eq!(got as u8, *b, "cell {i}");
    }
}

#[test]
fn the_halo_costs_what_the_contract_budget_can_absorb() {
    let grid = Grid {
        dims: UVec3::new(347, 240, 240),
        dx_mm: 0.75f32.to_bits(),
        origin_mm: Vec3::new(0, 0, 0),
    };
    let padded = ddf_bytes(grid, [false; 3], VelocitySet::D3Q19, DdfPrecision::Fp16c);
    let bare = ddf_bytes(grid, [true; 3], VelocitySet::D3Q19, DdfPrecision::Fp16c);
    let overhead = padded as f64 / bare as f64 - 1.0;
    assert!(overhead < 0.03, "halo overhead is {:.2}%", overhead * 100.0);
    assert!(padded < 1_250_000_000, "{padded} bytes at the interactive tier");
    assert_eq!(ddf_bytes(grid, [true; 3], VelocitySet::D3Q19, DdfPrecision::Fp32), 2 * bare);
    let huge = Grid { dims: UVec3::splat(10_000), ..grid };
    assert_eq!(
        ddf_bytes(huge, [true; 3], VelocitySet::D3Q19, DdfPrecision::Fp32),
        4 * 19 * 1_000_000_000_000
    );
}

#[test]
fn the_uniforms_carry_the_configuration() {
    let cfg = SolverConfig { inlet_velocity: Vec3::new(1, 2, 3), ..SolverConfig::default() };
    let mut s = solver(UVec3::new(4, 5, 6), cfg);
    s.advance(3, false);
    let u = s.uniforms(1);
    assert_eq!(u.dims, UVec3::new(6, 7, 8));
    assert_eq!(u.interior, UVec3::new(4, 5, 6));
    assert_eq!(u.cell_count, 6 * 7 * 8);
    assert_eq!((u.step_parity, u.total_steps), (1, 3));
    assert_eq!(u.inlet_velocity, Vec3::new(1, 2, 3));
    assert_eq!(u.tau0, cfg.tau0);
    assert_eq!(div_ceil(7, 4), 2);
    assert_eq!(s.padded_dispatch(), UVec3::new(div_ceil(6, cfg.workgroup_size), 7, 8));
    assert_eq!(s.interior_dispatch(), UVec3::new(div_ceil(4, cfg.workgroup_size), 5, 6));
    s.set_inlet_velocity(Vec3::new(9, 9, 9));
    assert_eq!(s.uniforms(0).inlet_velocity, Vec3::new(9, 9, 9));
}

#[test]
fn profiling_is_only_on_where_it_is_available() {
    let mut s = solver(UVec3::splat(4), SolverConfig::default());
    assert!(!s.is_profiling());
    s.set_profiling(true, false);
    assert!(!s.is_profiling());
    s.set_profiling(true, true);
    assert!(s.is_profiling());
}

#[test]
fn an_inlet_cell_names_its_slot() {
    for slot in 0..4u8 {
        let f = flags::inlet_in_slot(slot);
        assert_eq!(flags::inlet_slot(f), slot as usize);
        assert_eq!(CellKind::of(f), CellKind::Inlet);
    }
}

#[test]
fn a_grid_that_cannot_be_solved_on_is_refused() {
    let grid = |x, y, z| Grid {
        dims: UVec3::new(x, y, z),
        dx_mm: 0,
        origin_mm: Vec3::new(0, 0, 0),
    };
    let open = [false; 3];
    assert_eq!(check_grid(&grid(2, 2, 2), open, &[0; 8], &[]), Ok(()));
    assert_eq!(check_grid(&grid(2, 2, 2), open, &[0; 7], &[]), Err(GridError::MaskLength));
    assert_eq!(check_grid(&grid(65536, 65536, 1), open, &[], &[]), Err(GridError::TooLarge));
    assert_eq!(check_grid(&grid(u32::MAX, 1, 1), open, &[], &[]), Err(GridError::TooLarge));
    assert_eq!(check_grid(&grid(4096, 4096, 4096), open, &[], &[]), Err(GridError::TooLarge));
    let link = |cell| BoundaryLink { cell, direction: 1, q_quantised: 9 };
    assert_eq!(check_grid(&grid(2, 2, 2), open, &[0; 8], &[link(7)]), Ok(()));
    assert_eq!(
        check_grid(&grid(2, 2, 2), open, &[0; 8], &[link(8)]),
        Err(GridError::LinkOutside)
    );
}
