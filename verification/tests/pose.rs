use aeroduct::config::Vec3;
use aeroduct::overlays::{Placement, Quat, SliceSettings, VentSettings};
use aeroduct::params::SimParams;
use aeroduct::pose::{
    canonical, describe_direction, first_greatest, lattice_axis, louver_from_lookup,
    louver_to_tilt, nearest_quarter_turn, quarter_turns, split, AxisMap, DuctGeometry, InstallPose,
    LouverAim,
};

fn f(x: u32) -> f32 {
    f32::from_bits(x)
}

fn v(x: f32, y: f32, z: f32) -> Vec3 {
    Vec3::new(x.to_bits(), y.to_bits(), z.to_bits())
}

fn q(x: f32, y: f32, z: f32, w: f32) -> Quat {
    Quat { x: x.to_bits(), y: y.to_bits(), z: z.to_bits(), w: w.to_bits() }
}

fn parse(s: &str) -> Option<u32> {
    s.trim().parse::<f32>().ok().map(f32::to_bits)
}

fn vec(v: Vec3) -> glam::Vec3 {
    glam::Vec3::new(f(v.x), f(v.y), f(v.z))
}

fn vec_bits(v: glam::Vec3) -> Vec3 {
    Vec3::new(v.x.to_bits(), v.y.to_bits(), v.z.to_bits())
}

fn quat(q: Quat) -> glam::Quat {
    glam::Quat::from_xyzw(f(q.x), f(q.y), f(q.z), f(q.w))
}

fn quat_bits(q: glam::Quat) -> Quat {
    Quat { x: q.x.to_bits(), y: q.y.to_bits(), z: q.z.to_bits(), w: q.w.to_bits() }
}

fn set_euler_deg(p: &mut InstallPose, e: glam::Vec3) {
    p.set_euler_deg(vec_bits(e), &|e: Vec3| {
        let e = vec(e) * std::f32::consts::PI / 180.0;
        quat_bits(glam::Quat::from_euler(glam::EulerRot::YXZ, e.x, e.y, e.z).normalize())
    });
}

fn nudge(p: &mut InstallPose, axis: usize, degrees: f32) {
    p.nudge(axis, degrees.to_bits(), &|axis: usize, degrees: u32, q: Quat| {
        let by = glam::Quat::from_axis_angle(glam::Vec3::AXES[axis], f(degrees).to_radians());
        quat_bits((by * quat(q)).normalize())
    });
}

fn translation(p: &InstallPose, pivot: glam::Vec3) -> glam::Vec3 {
    pivot + vec(p.offset_mm) - quat(p.rotation) * pivot
}

fn matrix(p: &InstallPose, pivot: glam::Vec3) -> glam::Mat4 {
    let m = p.matrix(vec_bits(pivot), &|p: InstallPose, pivot: Vec3| {
        let m = glam::Mat4::from_rotation_translation(
            quat(p.rotation),
            translation(&p, vec(pivot)),
        );
        m.to_cols_array().map(f32::to_bits)
    });
    glam::Mat4::from_cols_array(&m.map(f))
}

fn inverse(p: &InstallPose, pivot: glam::Vec3) -> glam::Mat4 {
    let m = p.inverse(vec_bits(pivot), &|p: InstallPose, pivot: Vec3| {
        let inv = quat(p.rotation).conjugate();
        let m = glam::Mat4::from_rotation_translation(inv, -(inv * translation(&p, vec(pivot))));
        m.to_cols_array().map(f32::to_bits)
    });
    glam::Mat4::from_cols_array(&m.map(f))
}

fn to_world(p: &InstallPose, pivot: glam::Vec3, x: glam::Vec3) -> glam::Vec3 {
    quat(p.rotation) * (x - pivot) + pivot + vec(p.offset_mm)
}

fn to_lattice(p: &InstallPose, pivot: glam::Vec3, x: glam::Vec3) -> glam::Vec3 {
    quat(p.rotation).conjugate() * (x - pivot - vec(p.offset_mm)) + pivot
}

/// Where a transform takes a point.
fn point(t: &Placement, x: glam::Vec3) -> glam::Vec3 {
    quat(t.rotation) * (x * f(t.scale)) + vec(t.translation_mm)
}

fn pose() -> InstallPose {
    let mut p = InstallPose::default();
    set_euler_deg(&mut p, glam::Vec3::new(30.0, -20.0, 45.0));
    p.offset_mm = v(5.0, -3.0, 12.0);
    p
}

const PIVOT: glam::Vec3 = glam::Vec3::new(-1.7, 36.1, 34.5);

#[test]
fn the_default_pose_is_exactly_the_identity() {
    let p = InstallPose::default();
    assert!(p.is_identity());
    assert_eq!(matrix(&p, PIVOT), glam::Mat4::IDENTITY);
    assert_eq!(inverse(&p, PIVOT), glam::Mat4::IDENTITY);
    let x = glam::Vec3::new(1.0, 2.0, 3.0);
    assert_eq!(to_world(&p, PIVOT, x), x);
    let negative = InstallPose { rotation: q(-0.0, 0.0, 0.0, 1.0), offset_mm: v(0.0, -0.0, 0.0) };
    assert!(negative.is_identity());
    let off = InstallPose { offset_mm: v(1e-30, 0.0, 0.0), ..p };
    assert!(!off.is_identity(), "tested exactly, not approximately");
}

#[test]
fn matrix_point_map_and_inverse_agree() {
    let p = pose();
    let m = matrix(&p, PIVOT);
    assert!((inverse(&p, PIVOT) * m).abs_diff_eq(glam::Mat4::IDENTITY, 1e-5));
    let posed = Placement {
        translation_mm: vec_bits(translation(&p, PIVOT)),
        rotation: p.rotation,
        scale: 1.0f32.to_bits(),
    };
    for q in [
        glam::Vec3::ZERO,
        PIVOT,
        glam::Vec3::new(70.8, 72.2, 68.9),
        glam::Vec3::new(-74.2, 0.0, 0.0),
    ] {
        let w = to_world(&p, PIVOT, q);
        assert!(m.transform_point3(q).abs_diff_eq(w, 1e-3), "{q} -> {w}");
        assert!(to_lattice(&p, PIVOT, w).abs_diff_eq(q, 1e-3));
        assert!(point(&posed, q).abs_diff_eq(w, 1e-3));
    }
}

#[test]
fn the_part_turns_about_its_own_centre() {
    let mut p = InstallPose::default();
    nudge(&mut p, 1, 90.0);
    assert!(to_world(&p, PIVOT, PIVOT).abs_diff_eq(PIVOT, 1e-5));
    p.offset_mm = v(10.0, 0.0, 0.0);
    assert!(to_world(&p, PIVOT, PIVOT).abs_diff_eq(PIVOT + glam::Vec3::X * 10.0, 1e-5));
}

#[test]
fn quarter_turns_are_exact() {
    for axis in 0..3 {
        let mut p = InstallPose::default();
        for _ in 0..4 {
            nudge(&mut p, axis, 90.0);
        }
        assert!(p.is_identity(), "axis {axis}: {:?}", p.rotation);
        nudge(&mut p, axis, 90.0);
        nudge(&mut p, axis, -90.0);
        assert!(p.is_identity(), "axis {axis} there and back: {:?}", p.rotation);
    }
    let mut p = InstallPose::default();
    nudge(&mut p, 1, 90.0);
    let turned = quat(p.rotation) * glam::Vec3::Z;
    assert!(turned.abs_diff_eq(glam::Vec3::X, 1e-6), "a quarter turn maps axes onto axes");
    let mut a = InstallPose::default();
    let mut b = InstallPose::default();
    nudge(&mut a, 2, 30.0);
    nudge(&mut b, 7, 30.0);
    assert_eq!(a, b, "beyond the axes is the last one");
}

#[test]
fn euler_angles_round_trip() {
    let (yaw, pitch, roll) = quat(pose().rotation).to_euler(glam::EulerRot::YXZ);
    let e = glam::Vec3::new(yaw.to_degrees(), pitch.to_degrees(), roll.to_degrees());
    assert!(e.abs_diff_eq(glam::Vec3::new(30.0, -20.0, 45.0), 1e-3), "{e}");
}

fn from_gizmo_matrix(m: glam::Mat4, pivot: glam::Vec3) -> InstallPose {
    let (_, rotation, translation) = m.to_scale_rotation_translation();
    InstallPose::from_gizmo_matrix(
        quat_bits(rotation.normalize()),
        vec_bits(translation),
        vec_bits(pivot),
        &|a: Vec3, b: Vec3| vec_bits(vec(a) - vec(b)),
    )
}

#[test]
fn the_gizmo_matrix_round_trips_and_sits_on_the_part() {
    let p = pose();
    let g = glam::Mat4::from_rotation_translation(quat(p.rotation), PIVOT + vec(p.offset_mm));
    assert!(g.w_axis.truncate().abs_diff_eq(to_world(&p, PIVOT, PIVOT), 1e-4));
    let back = from_gizmo_matrix(g, PIVOT);
    assert!(quat(back.rotation).abs_diff_eq(quat(p.rotation), 1e-5));
    assert!(vec(back.offset_mm).abs_diff_eq(vec(p.offset_mm), 1e-4));
    let scaled = g * glam::Mat4::from_scale(glam::Vec3::splat(2.0));
    let back = from_gizmo_matrix(scaled, PIVOT);
    assert!(quat(back.rotation).abs_diff_eq(quat(p.rotation), 1e-5));
}

#[test]
fn a_canonical_rotation_has_no_dust_and_no_negative_w() {
    let c = canonical(q(1e-7, -0.500_000_3, 0.707_106, -0.999_999_9));
    assert_eq!(c, q(0.0, 0.5, -std::f32::consts::FRAC_1_SQRT_2, 1.0));
    assert_eq!(canonical(c), c);
    let far = q(0.3, -0.4, 0.2, 0.1);
    assert_eq!(canonical(far), far);
    for bits in [0x3eff_ffdeu32, 0x3eff_ffdf, 0x3f00_0010, 0x3f00_0011, 0x3f7f_ffef, 0x3f80_0009] {
        let x = f(bits);
        let near = (x - 0.5).abs() < 1e-6 || (x - 1.0).abs() < 1e-6;
        assert_eq!(canonical(q(x, 0.0, 0.0, 0.0)).x != bits, near, "{bits:#x}");
    }
}

#[test]
fn a_car_placement_and_its_lattice_transform_agree() {
    let p = pose();
    let placed = Placement {
        translation_mm: v(30.0, -12.0, 80.0),
        rotation: quat_bits(glam::Quat::from_euler(glam::EulerRot::YXZ, 0.3, -0.2, 0.9)),
        scale: 1.5f32.to_bits(),
    };
    let down = |p: InstallPose, x: Placement| Placement {
        translation_mm: vec_bits(to_lattice(&p, PIVOT, vec(x.translation_mm))),
        rotation: quat_bits((quat(p.rotation).conjugate() * quat(x.rotation)).normalize()),
        scale: x.scale,
    };
    let up = |p: InstallPose, x: Placement| Placement {
        translation_mm: vec_bits(to_world(&p, PIVOT, vec(x.translation_mm))),
        rotation: quat_bits((quat(p.rotation) * quat(x.rotation)).normalize()),
        scale: x.scale,
    };
    let t = p.placement_to_lattice(placed, &down);
    for x in [glam::Vec3::ZERO, glam::Vec3::new(10.0, 2.0, -7.0), glam::Vec3::splat(40.0)] {
        let world = point(&placed, x);
        assert!(to_world(&p, PIVOT, point(&t, x)).abs_diff_eq(world, 1e-3), "{x}");
    }
    let back = p.lattice_to_placement(t, &up);
    assert!(vec(back.translation_mm).abs_diff_eq(vec(placed.translation_mm), 1e-3));
    assert!(quat(back.rotation).abs_diff_eq(quat(placed.rotation), 1e-5));
    assert_eq!(back.scale, placed.scale);
    // Unposed, the two frames are one frame, exactly.
    let id = InstallPose::default();
    assert_eq!(id.placement_to_lattice(placed, &down), placed);
    assert_eq!(id.lattice_to_placement(placed, &up), placed);
}

#[test]
fn the_env_var_parses_or_is_refused_whole() {
    assert_eq!(InstallPose::from_lookup(None, &parse), None);
    let zero = InstallPose::from_lookup(Some("0,0,0"), &parse).unwrap();
    assert_eq!((zero.euler_deg, zero.offset_mm), (v(0.0, 0.0, 0.0), v(0.0, 0.0, 0.0)));
    let p = InstallPose::from_lookup(Some(" 0, 90 ,0"), &parse).unwrap();
    assert_eq!(p.euler_deg, v(0.0, 90.0, 0.0));
    let mut tipped = InstallPose::default();
    set_euler_deg(&mut tipped, vec(p.euler_deg));
    let down = quat(tipped.rotation) * glam::Vec3::Z;
    assert!(down.abs_diff_eq(glam::Vec3::NEG_Y, 1e-6), "pitch +90 tips +Z down");
    let p = InstallPose::from_lookup(Some("0,0,0,4,5,6"), &parse).unwrap();
    assert_eq!(p.offset_mm, v(4.0, 5.0, 6.0));
    for bad in ["a,b,c", "1,2", "1,2,3,4", "nan,0,0", "inf,0,0", ""] {
        assert_eq!(InstallPose::from_lookup(Some(bad), &parse), None, "{bad:?}");
    }
}

#[test]
fn splitting_gives_the_pieces_between_the_separators() {
    for text in ["", ",", "a", "a,b", ",a,,b,", "20° up, toward +X"] {
        let pieces: Vec<&str> = text.split(',').collect();
        assert_eq!(split(text, ','), pieces, "{text:?}");
        assert_eq!(split(text, ',').join(","), text);
    }
}

#[test]
fn a_level_louver_is_no_tilt_at_all() {
    let wild = |_: LouverAim, _: Vec3, _: usize, _: Quat| (7, 8);
    let rotation = pose().rotation;
    for up_down in [0.0f32, -0.0] {
        let aim = LouverAim { up_down: up_down.to_bits(), sideways: 0 };
        assert_eq!(louver_to_tilt(aim, v(0.0, 0.0, 1.0), 2, rotation, &wild), (0, 0));
    }
    let aim = LouverAim { up_down: 20.0f32.to_bits(), sideways: 0 };
    let folded = |a: LouverAim, _: Vec3, _: usize, _: Quat| (a.up_down, (-0.0f32).to_bits());
    assert_eq!(
        louver_to_tilt(aim, v(0.0, 0.0, 1.0), 2, rotation, &folded),
        (20.0f32.to_bits(), 0),
        "a negative zero would reset the statistics for nothing"
    );
}

fn project(aim: LouverAim, n: Vec3, axis: usize, rotation: Quat) -> (u32, u32) {
    let n = vec(n).normalize();
    let (e1, e2) = (glam::Vec3::AXES[(axis + 1) % 3], glam::Vec3::AXES[(axis + 2) % 3]);
    let up = quat(rotation).conjugate() * glam::Vec3::Y;
    let flat = up - n * up.dot(n);
    let up = if flat.length() > 1.0e-3 { flat.normalize() } else { e1 };
    let t = up * f(aim.up_down).to_radians().tan()
        + n.cross(up) * f(aim.sideways).to_radians().tan();
    let angle = |e: glam::Vec3| t.dot(e).atan().to_degrees().to_bits();
    (angle(e1), angle(e2))
}

/// The way the air goes in, in the lattice, for a louver aim in the car.
fn blow(louver: [f32; 2], n: glam::Vec3, axis: usize, rotation: Quat) -> glam::Vec3 {
    let aim = LouverAim { up_down: louver[0].to_bits(), sideways: louver[1].to_bits() };
    let t = louver_to_tilt(aim, vec_bits(n), axis, rotation, &project);
    let p = SimParams { inlet_tilt_deg: [t.0, t.1], ..SimParams::new(0, 0) };
    let tan = |x: u32| f(x).to_radians().tan().to_bits();
    vec(p.inlet_direction(
        vec_bits(n),
        axis,
        &|a: u32, b: u32| (tan(a), tan(b)),
        &|a: u32, b: u32| (a, b),
    ))
}

#[test]
fn louver_up_is_car_up_in_every_pose() {
    let mut poses = vec![InstallPose::default()];
    for (axis, deg) in [(1, 90.0), (2, 90.0), (2, -90.0), (1, 180.0)] {
        let mut p = InstallPose::default();
        nudge(&mut p, axis, deg);
        poses.push(p);
    }
    let mut p = InstallPose::default();
    set_euler_deg(&mut p, glam::Vec3::new(37.0, 0.0, 25.0));
    poses.push(p);

    let n = glam::Vec3::Z;
    for pose in poses {
        let r = quat(pose.rotation);
        let up = r * blow([20.0, 0.0], n, 2, pose.rotation);
        let elevation = up.normalize().y.asin().to_degrees();
        assert!((elevation - 20.0).abs() < 1e-3, "{pose:?}: {elevation}");

        let side = (r * blow([0.0, 15.0], n, 2, pose.rotation)).normalize();
        assert!(side.y.abs() < 1e-5, "sideways stays level: {pose:?}");
        let off = side.dot(r * n).acos().to_degrees();
        assert!((off - 15.0).abs() < 1e-3, "{pose:?}: {off}");
        let right = (r * n).cross(glam::Vec3::Y);
        assert!(side.dot(right) > 0.0, "positive is to the right, looking downstream");
    }
}

#[test]
fn an_inlet_facing_straight_up_still_tilts() {
    let y = glam::Vec3::Y;
    let d = blow([20.0, 0.0], y, 1, quat_bits(glam::Quat::IDENTITY));
    assert!(d.is_finite());
    let off = d.normalize().dot(y).acos().to_degrees();
    assert!((off - 20.0).abs() < 1e-3, "{off}");
}

#[test]
fn the_louver_env_var_parses_or_is_refused() {
    let aim = |a: f32, b: f32| Some(LouverAim { up_down: a.to_bits(), sideways: b.to_bits() });
    assert_eq!(louver_from_lookup(None, &parse), None);
    assert_eq!(louver_from_lookup(Some("20, -5"), &parse), aim(20.0, -5.0));
    assert_eq!(louver_from_lookup(Some("90,0"), &parse), aim(60.0, 0.0), "clamped");
    assert_eq!(louver_from_lookup(Some("-90,61"), &parse), aim(-60.0, 60.0), "clamped");
    for bad in ["20", "a,b", "1,2,3", "nan,0"] {
        assert_eq!(louver_from_lookup(Some(bad), &parse), None, "{bad:?}");
    }
}

#[test]
fn a_mouth_lies_along_its_largest_component() {
    assert_eq!(lattice_axis(v(0.0, 0.0, -1.0)), 2);
    assert_eq!(lattice_axis(v(-1.0, 0.0, 0.0)), 0);
    assert_eq!(lattice_axis(v(0.1, -0.9, 0.2)), 1);
    assert_eq!(lattice_axis(v(1.0, 1.0, 0.0)), 1, "the last of equals");
    assert_eq!(lattice_axis(v(0.0, 0.0, 0.0)), 2, "the last of equals");
}

fn columns(t: &AxisMap) -> [[f32; 3]; 3] {
    [
        [t.x.x as f32, t.x.y as f32, t.x.z as f32],
        [t.y.x as f32, t.y.y as f32, t.y.z as f32],
        [t.z.x as f32, t.z.y as f32, t.z.z as f32],
    ]
}

fn determinant(c: [[f32; 3]; 3]) -> f32 {
    c[0][0] * (c[1][1] * c[2][2] - c[1][2] * c[2][1])
        - c[0][1] * (c[1][0] * c[2][2] - c[1][2] * c[2][0])
        + c[0][2] * (c[1][0] * c[2][1] - c[1][1] * c[2][0])
}

#[test]
fn the_quarter_turns_are_the_rotations_that_map_axes_onto_axes() {
    let turns = quarter_turns();
    assert_eq!(turns.len(), 24);
    for (i, a) in turns.iter().enumerate() {
        assert_eq!(determinant(columns(a)), 1.0);
        for b in &turns[..i] {
            assert_ne!(a, b);
        }
    }
    assert_eq!(columns(&turns[0]), [[1.0, 0.0, 0.0], [0.0, 1.0, 0.0], [0.0, 0.0, 1.0]]);
}

fn turn(t: &AxisMap) -> glam::Quat {
    let c = columns(t).map(glam::Vec3::from);
    quat(canonical(quat_bits(glam::Quat::from_mat3(&glam::Mat3::from_cols(c[0], c[1], c[2])))))
}

#[test]
fn the_nearest_quarter_turn_snaps_and_keeps_the_identity() {
    let nearest = |q: glam::Quat| {
        let closeness = |t: AxisMap| q.dot(turn(&t)).abs().to_bits();
        turn(&nearest_quarter_turn(&closeness).unwrap())
    };
    assert_eq!(nearest(glam::Quat::IDENTITY), glam::Quat::IDENTITY);
    let q = nearest(glam::Quat::from_rotation_y(80f32.to_radians()));
    assert!(q.abs_diff_eq(glam::Quat::from_rotation_y(90f32.to_radians()), 1e-6), "{q:?}");
    assert_eq!(
        nearest(glam::Quat::from_rotation_x(30f32.to_radians())),
        glam::Quat::IDENTITY
    );
    let q = nearest(glam::Quat::from_euler(glam::EulerRot::YXZ, 1.4, -1.6, 0.2));
    for a in glam::Vec3::AXES {
        let r = q * a;
        assert!((r.abs().max_element() - 1.0).abs() < 1e-6, "{r}");
    }
    assert_eq!(nearest_quarter_turn(&|_: AxisMap| f32::NAN.to_bits()), None);
}

#[test]
fn the_first_of_the_greatest_is_taken() {
    let bits = |v: &[f32]| v.iter().map(|x| x.to_bits()).collect::<Vec<u32>>();
    assert_eq!(first_greatest(&bits(&[0.2, 0.9, 0.9, 0.1])), Some(1));
    assert_eq!(first_greatest(&bits(&[f32::NAN, -0.5])), Some(1));
    assert_eq!(first_greatest(&bits(&[-1.0, -2.0])), None);
    assert_eq!(first_greatest(&bits(&[])), None);
}

#[test]
fn duct_geometry_keeps_the_part_centred() {
    let c = PIVOT;
    let hold = |c: Vec3, turn: Quat, s: u32| vec_bits(vec(c) - quat(turn) * (vec(c) * f(s)));
    let g = DuctGeometry {
        scale: 1.5f32.to_bits(),
        turn: quat_bits(glam::Quat::from_rotation_z(std::f32::consts::FRAC_PI_2)),
    };
    let t = g.to_geom(vec_bits(c), &hold);
    assert!(point(&t, c).abs_diff_eq(c, 1e-4));
    let corner = point(&t, c + glam::Vec3::new(10.0, 0.0, 0.0));
    assert!(corner.abs_diff_eq(c + glam::Vec3::new(0.0, 15.0, 0.0), 1e-4), "{corner}");
    assert_eq!(DuctGeometry::default().to_geom(vec_bits(c), &hold), Placement::default());
    let tiny = DuctGeometry { scale: 0, turn: g.turn };
    assert_eq!(tiny.to_geom(vec_bits(c), &hold).scale, 1.0e-3f32.to_bits());
    assert!(DuctGeometry::default().is_identity());
    assert!(!g.is_identity());
}

// ---- slices, vents and gizmo-edited placements ----

fn gizmo_matrix(p: &Placement) -> glam::Mat4 {
    glam::Mat4::from_scale_rotation_translation(
        glam::Vec3::splat(f(p.scale)),
        quat(p.rotation),
        vec(p.translation_mm),
    )
}

fn from_matrix(m: glam::Mat4) -> Placement {
    let (scale, rotation, translation) = m.to_scale_rotation_translation();
    Placement::from_matrix(
        vec_bits(translation),
        quat_bits(rotation),
        vec_bits(scale),
        &|x: u32, y: u32, z: u32| ((f(x) + f(y) + f(z)) / 3.0).to_bits(),
    )
}

fn round_trip(s: &mut SliceSettings) {
    let y = glam::Vec3::Y;
    let arc =
        |n: Vec3| quat_bits(glam::Quat::from_rotation_arc(y, vec(n).normalize_or(y)));
    let up = |q: Quat| vec_bits((quat(q) * y).normalize_or(y));
    let back = from_matrix(gizmo_matrix(&s.placement(&arc)));
    s.set_placement(back, &up);
}

#[test]
fn a_slice_placement_round_trips_through_the_gizmo_matrix() {
    let mut s = SliceSettings::axis_aligned("s", v(1.0, 2.0, 3.0), 2);
    round_trip(&mut s);
    assert!((vec(s.origin_mm) - glam::Vec3::new(1.0, 2.0, 3.0)).length() < 1e-4);
    let normal = vec(s.normal);
    assert!((normal - glam::Vec3::Z).length() < 1e-4, "normal drifted to {normal:?}");
}

#[test]
fn repeated_round_trips_do_not_drift() {
    let mut s = SliceSettings::axis_aligned("s", v(0.0, 0.0, 0.0), 1);
    let want = glam::Vec3::new(0.3, 0.5, -0.8).normalize();
    s.normal = vec_bits(want);
    for _ in 0..64 {
        round_trip(&mut s);
    }
    let normal = vec(s.normal);
    assert!((normal - want).length() < 1e-3, "drifted from {want:?} to {normal:?}");
}

#[test]
fn a_mirrored_gizmo_matrix_is_refused_rather_than_panicking_the_voxeliser() {
    let scaled = |s: glam::Vec3| {
        from_matrix(glam::Mat4::from_scale_rotation_translation(
            s,
            glam::Quat::IDENTITY,
            glam::Vec3::ZERO,
        ))
    };
    let p = scaled(glam::Vec3::splat(-2.0));
    assert!(f(p.scale) > 0.0, "scale came out {}", f(p.scale));
    assert!(f(scaled(glam::Vec3::ZERO).scale) > 0.0);
    let mean = |x: u32, y: u32, z: u32| ((f(x) + f(y) + f(z)) / 3.0).to_bits();
    let d = Placement::default();
    let mirrored = Placement::from_matrix(d.translation_mm, d.rotation, v(-2.0, 1.0, 3.0), &mean);
    assert_eq!(f(mirrored.scale), 2.0);
    let broken = Placement::from_matrix(d.translation_mm, d.rotation, v(f32::NAN, 1.0, 1.0), &mean);
    assert_eq!(f(broken.scale), 1e-4);
}

fn direction(s: &VentSettings) -> glam::Vec3 {
    vec(s.direction(&|rotation: Quat, up: u32, right: u32| {
        let r = quat(rotation);
        let (a, b) = (f(up).to_radians().tan(), f(right).to_radians().tan());
        let d = r * glam::Vec3::Z + r * glam::Vec3::Y * a + r * glam::Vec3::X * b;
        vec_bits(d.normalize())
    }))
}

fn corners(s: &VentSettings) -> [glam::Vec3; 4] {
    let axes = |rotation: Quat| {
        let r = quat(rotation);
        (vec_bits(r * glam::Vec3::X), vec_bits(r * glam::Vec3::Y))
    };
    let half = |v: Vec3, length: u32| vec_bits(vec(v) * f(length) * 0.5);
    s.corners(&axes, &half).map(vec)
}

#[test]
fn a_vent_blows_along_its_face_turned_by_its_aim() {
    let mut s = VentSettings::new("v", Placement::default(), 140.0f32.to_bits(), 15.0f32.to_bits());
    let aim = |a: f32, b: f32| [a.to_bits(), b.to_bits()];
    assert_eq!(direction(&s), glam::Vec3::Z);
    s.aim_deg = aim(45.0, 0.0);
    let d = direction(&s);
    assert!((d.y - d.z).abs() < 1e-5 && d.x.abs() < 1e-6, "45 up: {d}");
    s.aim_deg = aim(0.0, 30.0);
    assert!(direction(&s).x > 0.0, "sideways is toward local +X");
    s.placement.rotation = quat_bits(glam::Quat::from_rotation_y(std::f32::consts::FRAC_PI_2));
    s.aim_deg = aim(0.0, 0.0);
    assert!(
        direction(&s).abs_diff_eq(glam::Vec3::X, 1e-5),
        "yawed a quarter turn, it blows along +X"
    );
    let c = corners(&s);
    assert!((c[1] - c[0]).length() - 140.0 < 1e-3 && (c[3] - c[0]).length() - 15.0 < 1e-3);
    assert!((c[1] - c[0]).length() > 139.0 && (c[3] - c[0]).length() > 14.0);
    // Around the face from the lower left, about the middle.
    let mut flat = VentSettings::new("v", Placement::default(), 8.0f32.to_bits(), 2.0f32.to_bits());
    flat.placement.translation_mm = v(1.0, 2.0, 3.0);
    assert_eq!(
        corners(&flat),
        [[-3.0, 1.0], [5.0, 1.0], [5.0, 3.0], [-3.0, 3.0]].map(|[x, y]| glam::Vec3::new(x, y, 3.0))
    );
    let mut moved = s.clone();
    moved.speed_scale = 2.0f32.to_bits();
    assert!(s.same_cells(&moved), "speed is air, not cells");
    moved.width_mm = 141.0f32.to_bits();
    assert!(!s.same_cells(&moved));
    // The louvers reach no further than their limit.
    let (mut far, mut limit) = (s.clone(), s);
    far.aim_deg = aim(85.0, -85.0);
    limit.aim_deg = aim(60.0, -60.0);
    assert_eq!(direction(&far), direction(&limit));
}

#[test]
fn directions_read_like_a_person_would_say_them() {
    let describe = |x: f32, y: f32, z: f32| {
        let n = (x * x + y * y + z * z).sqrt();
        let (x, y, z) = if n > 0.0 { (x / n, y / n, z / n) } else { (0.0, 0.0, 0.0) };
        let across = (x * x + z * z).sqrt();
        let elevation = y.clamp(-1.0, 1.0).asin().to_degrees();
        let digits = format!("{:.0}", elevation.abs());
        describe_direction(v(x, y, z), across.to_bits(), elevation.to_bits(), &digits)
    };
    assert_eq!(describe(0.0, 1.0, 0.0), "straight up");
    assert_eq!(describe(0.0, -3.0, 0.0), "straight down");
    assert_eq!(describe(1.0, 0.0, 0.0), "level, toward +X");
    assert_eq!(describe(0.0, -1.0, -1.0), "45° down, toward -Z");
    assert_eq!(describe(-1.0, 1.0, 0.5), "42° up, toward -X");
    assert_eq!(describe(0.0, 0.0, 0.0), "-");
}
