use aeroduct::collision::CollisionModel;
use aeroduct::config::SolverConfig;
use aeroduct::lattice::VelocitySet;
use aeroduct::precision::{wgsl_codec, DdfPrecision};
use aeroduct::shaders::{
    build_defines, enable_directives, generated_files, generated_prelude, probe, transport,
    DdfLayout,
};

#[test]
fn probe_recovers_the_documented_scheme() {
    for q in [19usize, 27] {
        let mut m = 1;
        while m < q {
            for odd in [false, true] {
                let want_a = if odd { m } else { m + 1 };
                let want_b = if odd { m + 1 } else { m };

                let l_m = probe(q, m, odd, false);
                assert_eq!(l_m.dir, want_a);
                assert_eq!(l_m.neighbour_dir, Some(m + 1), "f_m loads from n - c_m");

                let l_m1 = probe(q, m + 1, odd, false);
                assert_eq!(l_m1.dir, want_b);
                assert_eq!(l_m1.neighbour_dir, None, "f_m+1 loads from this cell");

                let s_m = probe(q, m, odd, true);
                assert_eq!(s_m.dir, want_b);
                assert_eq!(s_m.neighbour_dir, None);

                let s_m1 = probe(q, m + 1, odd, true);
                assert_eq!(s_m1.dir, want_a);
                assert_eq!(s_m1.neighbour_dir, Some(m + 1));
            }
            m += 2;
        }
    }
}

#[test]
fn load_and_store_of_a_pair_touch_the_same_two_addresses() {
    for q in [19usize, 27] {
        let mut m = 1;
        while m < q {
            for odd in [false, true] {
                assert_eq!(probe(q, m, odd, false), probe(q, m + 1, odd, true));
                assert_eq!(probe(q, m + 1, odd, false), probe(q, m, odd, true));
            }
            m += 2;
        }
    }
}

#[test]
fn generated_wgsl_declares_every_buffer_and_touches_every_direction() {
    for set in [VelocitySet::D3Q19, VelocitySet::D3Q27] {
        for p in [DdfLayout::Fp32, DdfLayout::Fp16cPerCell, DdfLayout::Fp16cPacked] {
            let s = generated_prelude(set, p);
            let q = set.q();
            for i in 0..q {
                assert!(
                    s.contains(&format!("@binding({i}) var<storage")),
                    "{set:?}/{p:?}: missing binding {i}"
                );
                assert!(s.contains(&format!("fn ddf_get_{i}(")));
                assert!(s.contains(&format!("fn ddf_put_{i}(")));
                assert!(
                    s.contains(&format!("(*g)[{i}]")),
                    "{set:?}/{p:?}: direction {i} never appears in transport"
                );
            }
            assert_eq!(
                s.matches("fn ").count(),
                2 * q + 2,
                "{set:?}/{p:?}: unexpected function count"
            );
            if p == DdfLayout::Fp16cPacked {
                assert!(s.contains("atomicAnd") && s.contains("atomicOr"));
            } else {
                assert!(!s.contains("atomic"), "{set:?}/{p:?} must not synchronise");
            }
            match p {
                DdfLayout::Fp32 => assert!(s.contains("array<u32>")),
                DdfLayout::Fp16cPerCell => {
                    assert!(s.contains("array<u16>"));
                    assert!(!s.contains("cell >> 1u"), "per-cell layout must not pack");
                    assert_eq!(enable_directives(p), "enable wgpu_int16;\n");
                }
                DdfLayout::Fp16cPacked => {
                    assert!(s.contains("array<atomic<u32>>"));
                    assert!(s.contains("cell >> 1u"));
                    assert_eq!(enable_directives(p), "");
                }
            }
        }
    }
}

#[test]
fn transport_reads_and_writes_each_buffer_the_same_number_of_times() {
    for set in [VelocitySet::D3Q19, VelocitySet::D3Q27] {
        let s = transport(set);
        for i in 0..set.q() {
            let gets = s.matches(&format!("ddf_get_{i}(")).count();
            let puts = s.matches(&format!("ddf_put_{i}(")).count();
            assert_eq!(gets, puts, "{set:?}: buffer {i} read {gets} times, written {puts}");
        }
    }
}

#[test]
fn directives_come_before_everything_else() {
    for precision in [DdfPrecision::Fp32, DdfPrecision::Fp16c] {
        for per_cell in [false, true] {
            let layout = DdfLayout::of(precision, per_cell);
            let (head, body) =
                generated_files(VelocitySet::D3Q19, layout, "const Q: u32 = 19u;", &wgsl_codec());
            let first = enable_directives(layout);
            assert!(head.starts_with(first));
            assert!(head.contains("const Q: u32 = 19u;"));
            assert!(!body.lines().any(|l| l.starts_with("enable ")));
            assert_eq!(!first.is_empty(), layout == DdfLayout::Fp16cPerCell);
        }
    }
    assert_eq!(DdfLayout::of(DdfPrecision::Fp32, true), DdfLayout::Fp32);
    assert_eq!(DdfLayout::of(DdfPrecision::Fp16c, true), DdfLayout::Fp16cPerCell);
    assert_eq!(DdfLayout::of(DdfPrecision::Fp16c, false), DdfLayout::Fp16cPacked);
}

#[test]
fn a_configuration_compiles_under_its_own_names() {
    let cfg = SolverConfig {
        collision: CollisionModel::RegularizedBgk,
        macroscopic_buffer: true,
        workgroup_size: 64,
        ..SolverConfig::default()
    };
    let d = build_defines(&cfg, DdfLayout::Fp32, "D3Q19", "DDF_FP32");
    let names: Vec<&str> = d.iter().map(|x| x.name.as_str()).collect();
    assert_eq!(names[0], "D3Q19");
    assert_eq!(names[1], "DDF_FP32");
    assert_eq!(names[2], DdfLayout::Fp32.shader_define());
    assert_eq!(names[3], "COLLIDE_RBGK");
    assert_eq!((names[4], d[4].value), ("WG_X", Some(64)));
    assert_eq!(names[5], "MACRO_BUFFER");
    assert_eq!(CollisionModel::Trt.name(), "TRT");
}
