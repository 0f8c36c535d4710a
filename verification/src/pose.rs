//! Where the duct sits in the car: its **install pose**.
//!
//! The solver never sees this. The lattice is laid out in the STL's own frame, and
//! with no gravity in the model, turning the part turns the air with it: the flow
//! *relative to the part* is the same in every pose. So rotating the part is a
//! change of frame, not of physics, and it is done as one rigid map from the
//! lattice frame onto the world frame that everything is drawn, framed and placed
//! in.
//!
//! Every spatial quantity belongs to exactly one of the two frames:
//!
//! | frame | what lives there |
//! |---|---|
//! | lattice (STL) | voxels, fields, mouths, metric planes, probes, slices |
//! | world (car, `+Y` up) | the camera, view presets, ground plane, obstructions |
//!
//! Components are bit patterns of `f32`.
use vstd::prelude::*;
use vstd::string::{StrSliceExecFns, StringExecFns};
use vstd::arithmetic::div_mod::lemma_fundamental_div_mod_converse;
use vstd::arithmetic::power2::{lemma2_to64, lemma_pow2_adds, lemma_pow2_pos, pow2};
use crate::binary32::{lemma_multiple_of_one, lemma_ordered, size_of, value_of, STEPS};
use crate::config::{Vec3, HALF, ONE};
use crate::float_order::{
    abs32, at_most32, clamp32, clamped32, eq32, equal32, finite32, greater32, is_finite32, le32,
    less32, lt32, magnitude32, max32, nan32, neg32, negated32,
};
use crate::grid::IVec3;
use crate::overlays::{Placement, Quat};

verus! {

/// Lattice to world, as a rotation about a pivot plus an offset:
///
/// `world = rotation * (lattice - pivot) + pivot + offset_mm`
///
/// The pivot is not stored. It is the duct's bounding-box centre, which only
/// changes when a different STL is loaded.
#[derive(Clone, Copy, Debug, PartialEq, Eq, Structural)]
pub struct InstallPose {
    pub rotation: Quat,
    pub offset_mm: Vec3,
}

/// No turn.
pub open spec fn identity_quat() -> Quat {
    Quat { x: 0, y: 0, z: 0, w: ONE }
}

/// Whether a rotation equals the identity, component by component.
pub open spec fn no_turn(q: Quat) -> bool {
    eq32(q.x, 0) && eq32(q.y, 0) && eq32(q.z, 0) && eq32(q.w, ONE)
}

/// Whether a vector equals zero, component by component.
pub open spec fn zero_vector(v: Vec3) -> bool {
    eq32(v.x, 0) && eq32(v.y, 0) && eq32(v.z, 0)
}

fn is_no_turn(q: Quat) -> (r: bool)
    ensures
        r == no_turn(q),
{
    equal32(q.x, 0) && equal32(q.y, 0) && equal32(q.z, 0) && equal32(q.w, ONE)
}

fn is_zero_vector(v: Vec3) -> (r: bool)
    ensures
        r == zero_vector(v),
{
    equal32(v.x, 0) && equal32(v.y, 0) && equal32(v.z, 0)
}

/// The world axis a number stands for: the last one, beyond them.
pub open spec fn world_axis(axis: usize) -> usize {
    if axis < 2 {
        axis
    } else {
        2
    }
}

/// The identity matrix, by columns.
pub open spec fn identity_matrix() -> Seq<u32> {
    seq![ONE, 0, 0, 0, 0, ONE, 0, 0, 0, 0, ONE, 0, 0, 0, 0, ONE]
}

fn unit_matrix() -> (m: [u32; 16])
    ensures
        m@ == identity_matrix(),
{
    let m: [u32; 16] = [ONE, 0, 0, 0, 0, ONE, 0, 0, 0, 0, ONE, 0, 0, 0, 0, ONE];
    assert(m@ =~= identity_matrix());
    m
}

impl Default for InstallPose {
    fn default() -> (p: Self)
        ensures
            p == InstallPose::identity(),
    {
        InstallPose {
            rotation: Quat { x: 0, y: 0, z: 0, w: ONE },
            offset_mm: Vec3::new(0, 0, 0),
        }
    }
}

impl InstallPose {
    /// The file orientation.
    pub open spec fn identity() -> InstallPose {
        InstallPose { rotation: identity_quat(), offset_mm: Vec3 { x: 0, y: 0, z: 0 } }
    }

    /// Exactly the file orientation.
    pub open spec fn is_unposed(self) -> bool {
        no_turn(self.rotation) && zero_vector(self.offset_mm)
    }

    /// Exactly the file orientation. Tested exactly, not approximately: the
    /// default pose has to render bit-identically to a build without poses.
    pub fn is_identity(&self) -> (r: bool)
        ensures
            r == self.is_unposed(),
    {
        is_no_turn(self.rotation) && is_zero_vector(self.offset_mm)
    }

    /// The lattice-to-world matrix, by columns, about a pivot. `rigid` makes that of a
    /// pose; exactly the identity for the default pose, not merely close to it.
    pub fn matrix<F: Fn(InstallPose, Vec3) -> [u32; 16]>(&self, pivot: Vec3, rigid: &F) -> (m:
        [u32; 16])
        requires
            rigid.requires((*self, pivot)),
        ensures
            self.is_unposed() ==> m@ == identity_matrix(),
            !self.is_unposed() ==> rigid.ensures((*self, pivot), m),
    {
        if self.is_identity() {
            unit_matrix()
        } else {
            rigid(*self, pivot)
        }
    }

    /// The world-to-lattice matrix, by columns, about a pivot. `rigid` makes that of a
    /// pose from the conjugate rotation: the map is rigid, so that is exact.
    pub fn inverse<F: Fn(InstallPose, Vec3) -> [u32; 16]>(&self, pivot: Vec3, rigid: &F) -> (m:
        [u32; 16])
        requires
            rigid.requires((*self, pivot)),
        ensures
            self.is_unposed() ==> m@ == identity_matrix(),
            !self.is_unposed() ==> rigid.ensures((*self, pivot), m),
    {
        if self.is_identity() {
            unit_matrix()
        } else {
            rigid(*self, pivot)
        }
    }

    /// Turn to yaw, pitch and roll, degrees. `turn` is the rotation of three such
    /// angles, of unit length.
    pub fn set_euler_deg<F: Fn(Vec3) -> Quat>(&mut self, e: Vec3, turn: &F)
        requires
            turn.requires((e,)),
        ensures
            final(self).offset_mm == old(self).offset_mm,
            exists|q: Quat| #[trigger]
                turn.ensures((e,), q) && final(self).rotation == canonical_form(q),
    {
        self.rotation = canonical(turn(e));
    }

    /// Turn by `degrees` about world axis `axis` (0 = X, 1 = Y, 2 = Z, and so is any
    /// above), about the part's centre. `turn` is a rotation turned further, of unit
    /// length.
    pub fn nudge<F: Fn(usize, u32, Quat) -> Quat>(&mut self, axis: usize, degrees: u32, turn: &F)
        requires
            forall|a: usize, d: u32, q: Quat| a < 3 ==> #[trigger] turn.requires((a, d, q)),
        ensures
            final(self).offset_mm == old(self).offset_mm,
            exists|q: Quat| #[trigger]
                turn.ensures((world_axis(axis), degrees, old(self).rotation), q) && final(self).rotation == canonical_form(q),
    {
        let about: usize = if axis < 2 {
            axis
        } else {
            2
        };
        self.rotation = canonical(turn(about, degrees, self.rotation));
    }

    /// Read a pose back out of the rotation and the translation of a gizmo-edited
    /// matrix, which stands at the pivot's world position. Scale is discarded: the pose
    /// is rigid by construction.
    pub fn from_gizmo_matrix<F: Fn(Vec3, Vec3) -> Vec3>(
        rotation: Quat,
        translation: Vec3,
        pivot: Vec3,
        minus: &F,
    ) -> (p: InstallPose)
        requires
            minus.requires((translation, pivot)),
        ensures
            p.rotation == canonical_form(rotation),
            minus.ensures((translation, pivot), p.offset_mm),
    {
        InstallPose { rotation: canonical(rotation), offset_mm: minus(translation, pivot) }
    }

    /// Where an obstruction placed in the car sits in the lattice. `map` carries a
    /// placement through the pose; unposed, the two frames are one frame, exactly.
    pub fn placement_to_lattice<F: Fn(InstallPose, Placement) -> Placement>(
        &self,
        p: Placement,
        map: &F,
    ) -> (t: Placement)
        requires
            map.requires((*self, p)),
        ensures
            self.is_unposed() ==> t == p,
            !self.is_unposed() ==> map.ensures((*self, p), t),
    {
        if self.is_identity() {
            p
        } else {
            map(*self, p)
        }
    }

    /// A lattice-frame transform as a placement in the car.
    ///
    /// A newly loaded obstruction starts at the lattice identity, its own STL
    /// coordinates, which for a part exported from the same CAD assembly as the
    /// duct is exactly where it belongs.
    pub fn lattice_to_placement<F: Fn(InstallPose, Placement) -> Placement>(
        &self,
        t: Placement,
        map: &F,
    ) -> (p: Placement)
        requires
            map.requires((*self, t)),
        ensures
            self.is_unposed() ==> p == t,
            !self.is_unposed() ==> map.ensures((*self, t), p),
    {
        if self.is_identity() {
            t
        } else {
            map(*self, t)
        }
    }
}

/// The pieces of a text between separators.
pub open spec fn pieces(s: Seq<char>, sep: char) -> Seq<Seq<char>>
    decreases s.len(),
{
    if s.len() == 0 {
        seq![Seq::empty()]
    } else {
        let before = pieces(s.drop_last(), sep);
        if s.last() == sep {
            before.push(Seq::empty())
        } else {
            before.drop_last().push(before.last().push(s.last()))
        }
    }
}

/// The pieces with separators between them again.
pub open spec fn joined(parts: Seq<Seq<char>>, sep: char) -> Seq<char>
    decreases parts.len(),
{
    if parts.len() == 0 {
        Seq::empty()
    } else if parts.len() == 1 {
        parts[0]
    } else {
        joined(parts.drop_last(), sep).push(sep) + parts.last()
    }
}

/// Splitting loses nothing: the pieces, joined again, are the text.
pub proof fn splitting_loses_nothing(s: Seq<char>, sep: char)
    ensures
        pieces(s, sep).len() >= 1,
        joined(pieces(s, sep), sep) == s,
    decreases s.len(),
{
    if s.len() > 0 {
        let front = s.drop_last();
        splitting_loses_nothing(front, sep);
        let before = pieces(front, sep);
        if s.last() == sep {
            let all = before.push(Seq::empty());
            assert(all.drop_last() =~= before);
            assert(joined(all, sep) =~= front.push(sep));
            assert(front.push(sep) =~= s);
        } else {
            let all = before.drop_last().push(before.last().push(s.last()));
            assert(all.drop_last() =~= before.drop_last());
            if before.len() == 1 {
                assert(joined(all, sep) == before[0].push(s.last()));
            } else {
                assert(joined(all, sep) =~= joined(before, sep).push(s.last()));
            }
            assert(front.push(s.last()) =~= s);
        }
    }
}

/// The texts that slices hold.
pub open spec fn texts(fields: Seq<&str>) -> Seq<Seq<char>> {
    Seq::new(fields.len(), |k: int| fields[k]@)
}

/// Split a text at every `sep`.
pub fn split<'a>(raw: &'a str, sep: char) -> (fields: Vec<&'a str>)
    ensures
        texts(fields@) == pieces(raw@, sep),
{
    let n: usize = raw.unicode_len();
    let mut fields: Vec<&'a str> = Vec::new();
    let mut start: usize = 0;
    let mut i: usize = 0;
    proof {
        assert(raw@.take(0) =~= Seq::<char>::empty());
        assert(raw@.subrange(0, 0) =~= Seq::<char>::empty());
        assert(pieces(raw@.take(0), sep) =~= texts(fields@).push(raw@.subrange(0, 0)));
    }
    while i < n
        invariant
            n == raw@.len(),
            start <= i <= n,
            pieces(raw@.take(i as int), sep) == texts(fields@).push(
                raw@.subrange(start as int, i as int),
            ),
        decreases n - i,
    {
        let ghost sofar = raw@.take(i as int);
        let ghost next = raw@.take(i + 1);
        proof {
            assert(next.drop_last() =~= sofar);
            assert(next.last() == raw@[i as int]);
        }
        if raw.get_char(i) == sep {
            let ghost done = texts(fields@);
            let field: &'a str = raw.substring_char(start, i);
            fields.push(field);
            proof {
                assert(texts(fields@) =~= done.push(raw@.subrange(start as int, i as int)));
                assert(raw@.subrange(i + 1, i + 1) =~= Seq::<char>::empty());
            }
            start = i + 1;
        } else {
            proof {
                let done = texts(fields@);
                let piece = raw@.subrange(start as int, i as int);
                assert(done.push(piece).drop_last() =~= done);
                assert(raw@.subrange(start as int, i + 1) =~= piece.push(raw@[i as int]));
            }
        }
        i += 1;
    }
    let ghost done = texts(fields@);
    let field: &'a str = raw.substring_char(start, n);
    fields.push(field);
    proof {
        assert(raw@.take(n as int) =~= raw@);
        assert(texts(fields@) =~= done.push(raw@.subrange(start as int, n as int)));
    }
    fields
}

/// Whether `values` are what `parse` makes of the pieces of `raw` between commas.
pub open spec fn values_of<P: Fn(&str) -> Option<u32>>(
    parse: P,
    raw: Seq<char>,
    values: Seq<Option<u32>>,
) -> bool {
    exists|fields: Seq<&str>|
        {
            &&& #[trigger] texts(fields) == pieces(raw, ',')
            &&& values.len() == fields.len()
            &&& forall|k: int| 0 <= k < values.len() ==> parse.ensures((fields[k],), #[trigger] values[k])
        }
}

/// Read the comma-separated numbers of a text, each by `parse`.
fn read_values<P: Fn(&str) -> Option<u32>>(raw: &str, parse: &P) -> (values: Vec<Option<u32>>)
    requires
        forall|s: &str| #[trigger] parse.requires((s,)),
    ensures
        values_of(*parse, raw@, values@),
{
    let fields: Vec<&str> = split(raw, ',');
    let mut values: Vec<Option<u32>> = Vec::new();
    let mut k: usize = 0;
    while k < fields.len()
        invariant
            k <= fields.len(),
            values.len() == k,
            forall|s: &str| #[trigger] parse.requires((s,)),
            forall|j: int| 0 <= j < k ==> parse.ensures((fields[j],), #[trigger] values[j]),
        decreases fields.len() - k,
    {
        let v: Option<u32> = parse(fields[k]);
        values.push(v);
        k += 1;
    }
    assert(texts(fields@) == pieces(raw@, ','));
    values
}

/// Whether every value is there and finite.
pub open spec fn all_finite(values: Seq<Option<u32>>) -> bool {
    forall|k: int| 0 <= k < values.len() ==> (#[trigger] values[k] matches Some(v) && finite32(v))
}

fn every_finite(values: &Vec<Option<u32>>) -> (r: bool)
    ensures
        r == all_finite(values@),
{
    let mut k: usize = 0;
    while k < values.len()
        invariant
            k <= values.len(),
            forall|j: int| 0 <= j < k ==> (#[trigger] values[j] matches Some(v) && finite32(v)),
        decreases values.len() - k,
    {
        match values[k] {
            Some(v) => {
                if !is_finite32(v) {
                    return false;
                }
            },
            None => {
                return false;
            },
        }
        k += 1;
    }
    true
}

/// Angles and an offset, as they are given in one text.
#[derive(Clone, Copy, Debug, PartialEq, Eq, Structural)]
pub struct PoseValues {
    /// Yaw about world up, then pitch, then roll, in degrees.
    pub euler_deg: Vec3,
    pub offset_mm: Vec3,
}

/// The number at `k`, or zero.
pub open spec fn number(values: Seq<Option<u32>>, k: int) -> u32 {
    match values[k] {
        Some(v) => v,
        None => 0,
    }
}

/// The pose that these numbers give: three angles, or three angles and an offset,
/// all finite.
pub open spec fn pose_of(values: Seq<Option<u32>>) -> Option<PoseValues> {
    let euler_deg = Vec3 {
        x: number(values, 0),
        y: number(values, 1),
        z: number(values, 2),
    };
    if all_finite(values) && values.len() == 3 {
        Some(PoseValues { euler_deg, offset_mm: Vec3 { x: 0, y: 0, z: 0 } })
    } else if all_finite(values) && values.len() == 6 {
        Some(
            PoseValues {
                euler_deg,
                offset_mm: Vec3 {
                    x: number(values, 3),
                    y: number(values, 4),
                    z: number(values, 5),
                },
            },
        )
    } else {
        None
    }
}

fn number_at(values: &Vec<Option<u32>>, k: usize) -> (v: u32)
    requires
        k < values.len(),
    ensures
        v == number(values@, k as int),
{
    match values[k] {
        Some(v) => v,
        None => 0,
    }
}

/// The pose that these numbers give, or nothing.
pub fn pose_from_values(values: &Vec<Option<u32>>) -> (p: Option<PoseValues>)
    ensures
        p == pose_of(values@),
{
    if !every_finite(values) || (values.len() != 3 && values.len() != 6) {
        return None;
    }
    let euler_deg: Vec3 = Vec3::new(
        number_at(values, 0),
        number_at(values, 1),
        number_at(values, 2),
    );
    if values.len() == 3 {
        return Some(PoseValues { euler_deg, offset_mm: Vec3::new(0, 0, 0) });
    }
    let offset_mm: Vec3 = Vec3::new(
        number_at(values, 3),
        number_at(values, 4),
        number_at(values, 5),
    );
    Some(PoseValues { euler_deg, offset_mm })
}

impl InstallPose {
    /// `"yaw,pitch,roll[,x,y,z]"`: degrees, then an optional offset in mm. `None` when
    /// unset; a malformed value is ignored rather than half-applied. `parse` reads one
    /// number, and gives nothing where there is none.
    pub fn from_lookup<P: Fn(&str) -> Option<u32>>(raw: Option<&str>, parse: &P) -> (p: Option<
        PoseValues,
    >)
        requires
            forall|s: &str| #[trigger] parse.requires((s,)),
        ensures
            raw is None ==> p is None,
            raw matches Some(s) ==> exists|values: Seq<Option<u32>>| #[trigger]
                values_of(*parse, s@, values) && p == pose_of(values),
    {
        match raw {
            None => None,
            Some(s) => {
                let values: Vec<Option<u32>> = read_values(s, parse);
                assert(values_of(*parse, s@, values@));
                pose_from_values(&values)
            },
        }
    }
}

/// Bit pattern of the largest louver angle, sixty degrees.
pub const MAX_INLET_TILT_DEG: u32 = 0x4270_0000;

/// Bit pattern of the most negative louver angle.
pub const MIN_INLET_TILT_DEG: u32 = 0xc270_0000;

/// A vent louver aim in car terms, in degrees.
#[derive(Clone, Copy, Debug, PartialEq, Eq, Structural)]
pub struct LouverAim {
    pub up_down: u32,
    pub sideways: u32,
}

/// The aim that these numbers give: two, finite, each clamped.
pub open spec fn louver_of(values: Seq<Option<u32>>) -> Option<LouverAim> {
    if all_finite(values) && values.len() == 2 {
        Some(
            LouverAim {
                up_down: clamped32(number(values, 0), MIN_INLET_TILT_DEG, MAX_INLET_TILT_DEG),
                sideways: clamped32(number(values, 1), MIN_INLET_TILT_DEG, MAX_INLET_TILT_DEG),
            },
        )
    } else {
        None
    }
}

/// The aim that these numbers give, or nothing.
pub fn louver_from_values(values: &Vec<Option<u32>>) -> (a: Option<LouverAim>)
    ensures
        a == louver_of(values@),
{
    if !every_finite(values) || values.len() != 2 {
        return None;
    }
    Some(
        LouverAim {
            up_down: clamp32(number_at(values, 0), MIN_INLET_TILT_DEG, MAX_INLET_TILT_DEG),
            sideways: clamp32(number_at(values, 1), MIN_INLET_TILT_DEG, MAX_INLET_TILT_DEG),
        },
    )
}

/// `"up_down,sideways"`: a louver aim in degrees, car terms, each clamped.
pub fn louver_from_lookup<P: Fn(&str) -> Option<u32>>(raw: Option<&str>, parse: &P) -> (a: Option<
    LouverAim,
>)
    requires
        forall|s: &str| #[trigger] parse.requires((s,)),
    ensures
        raw is None ==> a is None,
        raw matches Some(s) ==> exists|values: Seq<Option<u32>>| #[trigger]
            values_of(*parse, s@, values) && a == louver_of(values),
{
    match raw {
        None => None,
        Some(s) => {
            let values: Vec<Option<u32>> = read_values(s, parse);
            assert(values_of(*parse, s@, values@));
            louver_from_values(&values)
        },
    }
}

/// A bit pattern with negative zero folded onto zero.
pub open spec fn unsigned_zero(bits: u32) -> u32 {
    if eq32(bits, 0) {
        0
    } else {
        bits
    }
}

fn fold_zero(bits: u32) -> (r: u32)
    ensures
        r == unsigned_zero(bits),
{
    if equal32(bits, 0) {
        0
    } else {
        bits
    }
}

/// Whether `tilt` is the tilt of this aim: none for a level louver, else what
/// `project` computes, with negative zeros folded.
pub open spec fn is_tilt<T: Fn(LouverAim, Vec3, usize, Quat) -> (u32, u32)>(
    aim: LouverAim,
    n: Vec3,
    axis: usize,
    rotation: Quat,
    project: T,
    tilt: (u32, u32),
) -> bool {
    if eq32(aim.up_down, 0) && eq32(aim.sideways, 0) {
        tilt == (0u32, 0u32)
    } else {
        exists|t: (u32, u32)| #[trigger]
            project.ensures((aim, n, axis, rotation), t) && tilt == (
                unsigned_zero(t.0),
                unsigned_zero(t.1),
            )
    }
}

/// The inlet's off-normal tilt in the part's frame, from a vent louver aim given in
/// car terms. `n` is the inlet mouth's inward normal in the lattice frame, `axis`
/// its lattice axis, `rotation` the install pose's; `project` computes the tilt of
/// an aim that is not level.
///
/// The louver is part of the car, so one aim is a different tilt relative to the
/// part in every pose; that is why the aim, not the tilt, is what the UI keeps. A
/// level louver is no tilt at all, and no angle comes out as negative zero, which
/// would hash differently from zero and reset the statistics for nothing.
pub fn louver_to_tilt<T: Fn(LouverAim, Vec3, usize, Quat) -> (u32, u32)>(
    aim: LouverAim,
    n: Vec3,
    axis: usize,
    rotation: Quat,
    project: &T,
) -> (tilt: (u32, u32))
    requires
        project.requires((aim, n, axis, rotation)),
    ensures
        is_tilt(aim, n, axis, rotation, *project, tilt),
{
    if equal32(aim.up_down, 0) && equal32(aim.sideways, 0) {
        return (0, 0);
    }
    let t: (u32, u32) = project(aim, n, axis, rotation);
    assert(project.ensures((aim, n, axis, rotation), t));
    (fold_zero(t.0), fold_zero(t.1))
}

/// Whether `a` is the last axis of the greatest magnitude.
pub open spec fn main_axis(n: Vec3, a: int) -> bool {
    &&& 0 <= a < 3
    &&& forall|b: int| 0 <= b < 3 ==> magnitude32(#[trigger] n.axis(b)) <= magnitude32(n.axis(a))
    &&& forall|b: int| a < b < 3 ==> magnitude32(#[trigger] n.axis(b)) < magnitude32(n.axis(a))
}

/// The lattice axis an axis-aligned mouth normal lies along: the last one of the
/// greatest magnitude.
pub fn lattice_axis(n: Vec3) -> (a: usize)
    ensures
        main_axis(n, a as int),
{
    let x: u32 = abs32(n.x);
    let y: u32 = abs32(n.y);
    let z: u32 = abs32(n.z);
    if z >= x && z >= y {
        2
    } else if y >= x {
        1
    } else {
        0
    }
}

/// Bit pattern of the distance below which a component counts as exact.
pub const EPS: u32 = 0x3586_37bd;

/// Bit pattern of one over the square root of two.
pub const FRAC_1_SQRT_2: u32 = 0x3f35_04f3;

/// A component with the float dust of a chain of quarter turns cleaned up. Within
/// [`EPS`] of an exact value are the patterns from the first to the second of each
/// pair.
pub open spec fn cleaned(c: u32) -> u32 {
    let m = magnitude32(c);
    let exact = if m < EPS {
        0u32
    } else if 0x3eff_ffdf <= m <= 0x3f00_0010 {
        HALF
    } else if 0x3f35_04e3 <= m <= 0x3f35_0503 {
        FRAC_1_SQRT_2
    } else if 0x3f7f_fff0 <= m <= 0x3f80_0008 {
        ONE
    } else {
        m
    };
    if exact == 0 {
        0
    } else if c >= 0x8000_0000 {
        negated32(exact)
    } else {
        exact
    }
}

fn clean(c: u32) -> (r: u32)
    ensures
        r == cleaned(c),
{
    let m: u32 = abs32(c);
    if m < EPS {
        return 0;
    }
    let exact: u32 = if 0x3eff_ffdf <= m && m <= 0x3f00_0010 {
        HALF
    } else if 0x3f35_04e3 <= m && m <= 0x3f35_0503 {
        FRAC_1_SQRT_2
    } else if 0x3f7f_fff0 <= m && m <= 0x3f80_0008 {
        ONE
    } else {
        m
    };
    if c >= 0x8000_0000 {
        neg32(exact)
    } else {
        exact
    }
}

/// The canonical form of a rotation of unit length.
pub open spec fn canonical_form(q: Quat) -> Quat {
    let p = if lt32(q.w, 0) {
        Quat { x: negated32(q.x), y: negated32(q.y), z: negated32(q.z), w: negated32(q.w) }
    } else {
        q
    };
    Quat { x: cleaned(p.x), y: cleaned(p.y), z: cleaned(p.z), w: cleaned(p.w) }
}

/// The canonical form of a rotation of unit length: `w >= 0`, and float dust from a
/// chain of quarter turns cleaned up, so quarter-turn steps land on exact values.
pub fn canonical(q: Quat) -> (r: Quat)
    ensures
        r == canonical_form(q),
{
    let p: Quat = if less32(q.w, 0) {
        Quat { x: neg32(q.x), y: neg32(q.y), z: neg32(q.z), w: neg32(q.w) }
    } else {
        q
    };
    Quat { x: clean(p.x), y: clean(p.y), z: clean(p.z), w: clean(p.w) }
}

/// A canonical rotation is already in canonical form, and its `w` is not negative.
pub proof fn canonical_rotations_stay(q: Quat)
    ensures
        canonical_form(canonical_form(q)) == canonical_form(q),
        !lt32(canonical_form(q).w, 0),
{
}

/// The duct's own transform in the lattice: a real change of the part, unlike the
/// install pose, which only turns the picture.
///
/// Two things can be done to the geometry without breaking the lattice's
/// assumptions: a uniform scale, and a turn by quarter turns, which maps the
/// mouths' faces onto other box faces. Changing either re-voxelises and restarts
/// the flow.
#[derive(Clone, Copy, Debug, PartialEq, Eq, Structural)]
pub struct DuctGeometry {
    pub scale: u32,
    /// One of the 24 quarter-turn rotations, or the identity.
    pub turn: Quat,
}

impl Default for DuctGeometry {
    fn default() -> (g: Self)
        ensures
            g == (DuctGeometry { scale: ONE, turn: identity_quat() }),
    {
        DuctGeometry { scale: ONE, turn: Quat { x: 0, y: 0, z: 0, w: ONE } }
    }
}

impl DuctGeometry {
    /// The part as it is in its file.
    pub open spec fn is_unchanged(self) -> bool {
        eq32(self.scale, ONE) && no_turn(self.turn)
    }

    /// The part as it is in its file.
    pub fn is_identity(&self) -> (r: bool)
        ensures
            r == self.is_unchanged(),
    {
        equal32(self.scale, ONE) && is_no_turn(self.turn)
    }

    /// The geometry crate's transform, keeping `centre` exactly where it is.
    /// `hold` gives the translation that does so, for a turn and a scale; the
    /// scale is at least a thousandth.
    pub fn to_geom<F: Fn(Vec3, Quat, u32) -> Vec3>(&self, centre: Vec3, hold: &F) -> (t: Placement)
        requires
            forall|s: u32| #[trigger] hold.requires((centre, self.turn, s)),
        ensures
            t.scale == greater32(self.scale, 0x3a83_126f),
            t.rotation == self.turn,
            hold.ensures((centre, self.turn, t.scale), t.translation_mm),
    {
        let scale: u32 = max32(self.scale, 0x3a83_126f);
        let translation_mm: Vec3 = hold(centre, self.turn, scale);
        Placement { translation_mm, rotation: self.turn, scale }
    }
}

/// A signed permutation of the axes: the axis that each axis is mapped onto, and
/// whether it is reversed.
#[derive(Clone, Copy, Debug, PartialEq, Eq, Structural)]
pub struct AxisMap {
    pub x: IVec3,
    pub y: IVec3,
    pub z: IVec3,
}

/// The unit vector along an axis, reversed or not.
pub open spec fn unit_along(axis: int, reversed: bool) -> IVec3 {
    let s: i32 = if reversed {
        -1i32
    } else {
        1i32
    };
    IVec3 {
        x: if axis == 0 {
            s
        } else {
            0i32
        },
        y: if axis == 1 {
            s
        } else {
            0i32
        },
        z: if axis == 2 {
            s
        } else {
            0i32
        },
    }
}

fn along(axis: usize, reversed: bool) -> (v: IVec3)
    ensures
        v == unit_along(axis as int, reversed),
{
    let s: i32 = if reversed {
        -1
    } else {
        1
    };
    IVec3 {
        x: if axis == 0 {
            s
        } else {
            0
        },
        y: if axis == 1 {
            s
        } else {
            0
        },
        z: if axis == 2 {
            s
        } else {
            0
        },
    }
}

impl AxisMap {
    /// The determinant: 1 for a rotation, -1 for a reflection.
    pub open spec fn determinant(self) -> int {
        self.x.x * (self.y.y * self.z.z - self.y.z * self.z.y) - self.x.y * (self.y.x * self.z.z
            - self.y.z * self.z.x) + self.x.z * (self.y.x * self.z.y - self.y.y * self.z.x)
    }

    /// The map that sends the axes to these axes, reversing the first where the
    /// first flag is set, and so on.
    pub open spec fn signed(a: int, b: int, c: int, ra: bool, rb: bool, rc: bool) -> AxisMap {
        AxisMap { x: unit_along(a, ra), y: unit_along(b, rb), z: unit_along(c, rc) }
    }
}

/// The axis that `k` is sent to by the `p`-th permutation, in lexicographic order.
pub open spec fn permuted(p: int, k: int) -> int {
    if k == 0 {
        p / 2
    } else if k == 1 {
        if p == 0 || p == 5 {
            1
        } else if p == 1 || p == 3 {
            2
        } else {
            0
        }
    } else {
        if p == 0 || p == 2 {
            2
        } else if p == 1 || p == 4 {
            1
        } else {
            0
        }
    }
}

fn permutation(p: usize) -> (abc: (usize, usize, usize))
    requires
        p < 6,
    ensures
        abc.0 == permuted(p as int, 0),
        abc.1 == permuted(p as int, 1),
        abc.2 == permuted(p as int, 2),
{
    match p {
        0 => (0, 1, 2),
        1 => (0, 2, 1),
        2 => (1, 0, 2),
        3 => (1, 2, 0),
        4 => (2, 0, 1),
        _ => (2, 1, 0),
    }
}

/// The `n`-th signed permutation: eight sign patterns to each permutation.
pub open spec fn candidate(n: int) -> AxisMap {
    let p = n / 8;
    AxisMap::signed(
        permuted(p, 0),
        permuted(p, 1),
        permuted(p, 2),
        n % 2 == 1,
        (n / 2) % 2 == 1,
        (n / 4) % 2 == 1,
    )
}

/// The rotations among the first `n` signed permutations, in order.
pub open spec fn rotations_upto(n: int) -> Seq<AxisMap>
    decreases n,
{
    if n <= 0 {
        Seq::empty()
    } else if candidate(n - 1).determinant() < 0 {
        rotations_upto(n - 1)
    } else {
        rotations_upto(n - 1).push(candidate(n - 1))
    }
}

/// The quarter turns: the signed permutations of the axes that are rotations, in a
/// fixed order that starts with the identity.
pub fn quarter_turns() -> (turns: Vec<AxisMap>)
    ensures
        turns@ == rotations_upto(48),
{
    let mut turns: Vec<AxisMap> = Vec::new();
    let mut n: usize = 0;
    while n < 48
        invariant
            n <= 48,
            turns@ == rotations_upto(n as int),
        decreases 48 - n,
    {
        let (a, b, c): (usize, usize, usize) = permutation(n / 8);
        let ra: bool = n % 2 == 1;
        let rb: bool = (n / 2) % 2 == 1;
        let rc: bool = (n / 4) % 2 == 1;
        let odd: bool = n / 8 == 1 || n / 8 == 2 || n / 8 == 5;
        let reflection: bool = (ra != rb) != (rc != odd);
        let map: AxisMap = AxisMap { x: along(a, ra), y: along(b, rb), z: along(c, rc) };
        proof {
            lemma_determinant(n as int);
            assert(map == candidate(n as int));
        }
        if !reflection {
            turns.push(map);
        }
        n += 1;
    }
    turns
}

/// Whether the `n`-th signed permutation is a reflection: each reversal and an odd
/// permutation change the sign once.
spec fn reflects(n: int) -> bool {
    let odd = n / 8 == 1 || n / 8 == 2 || n / 8 == 5;
    ((n % 2 == 1) != ((n / 2) % 2 == 1)) != (((n / 4) % 2 == 1) != odd)
}

spec fn sign(reversed: bool) -> int {
    if reversed {
        -1
    } else {
        1
    }
}

proof fn lemma_three_signs(a: bool, b: bool, c: bool)
    ensures
        sign(a) * (sign(b) * sign(c)) == sign((a != b) != c),
        sign(a) * (-(sign(b) * sign(c))) == -sign((a != b) != c),
        -(sign(a) * (sign(b) * sign(c))) == -sign((a != b) != c),
        -(sign(a) * (-(sign(b) * sign(c)))) == sign((a != b) != c),
{
    if b == c {
        assert(sign(b) * sign(c) == 1);
    } else {
        assert(sign(b) * sign(c) == -1);
    }
    if a {
        assert(sign(a) == -1);
    } else {
        assert(sign(a) == 1);
    }
}

proof fn lemma_determinant(n: int)
    requires
        0 <= n < 48,
    ensures
        candidate(n).determinant() == if reflects(n) {
            -1int
        } else {
            1int
        },
{
    let m = candidate(n);
    let p = n / 8;
    assert(0 <= p < 6);
    lemma_three_signs(n % 2 == 1, (n / 2) % 2 == 1, (n / 4) % 2 == 1);
    // One product of the six survives, and it is a product of three signs.
    if p == 0 {
        assert(m.determinant() == m.x.x * (m.y.y * m.z.z));
    } else if p == 1 {
        assert(m.determinant() == m.x.x * (-(m.y.z * m.z.y)));
    } else if p == 2 {
        assert(m.determinant() == -(m.x.y * (m.y.x * m.z.z)));
    } else if p == 3 {
        assert(m.determinant() == -(m.x.y * (-(m.y.z * m.z.x))));
    } else if p == 4 {
        assert(m.determinant() == m.x.z * (m.y.x * m.z.y));
    } else {
        assert(m.determinant() == m.x.z * (-(m.y.y * m.z.x)));
    }
}

proof fn lemma_rotations_upto(n: int, k: int)
    requires
        0 <= k < n <= 48,
        candidate(k).determinant() >= 0,
    ensures
        rotations_upto(n).contains(candidate(k)),
    decreases n,
{
    let last = rotations_upto(n);
    if k == n - 1 {
        assert(last[last.len() - 1] == candidate(k));
    } else {
        lemma_rotations_upto(n - 1, k);
        let before = rotations_upto(n - 1);
        let i = choose|i: int| 0 <= i < before.len() && before[i] == candidate(k);
        assert(last[i] == candidate(k));
    }
}

proof fn lemma_only_rotations(n: int, i: int)
    requires
        0 <= n <= 48,
        0 <= i < rotations_upto(n).len(),
    ensures
        rotations_upto(n)[i].determinant() == 1,
    decreases n,
{
    if n > 0 {
        let before = rotations_upto(n - 1);
        lemma_determinant(n - 1);
        if i < before.len() {
            lemma_only_rotations(n - 1, i);
        }
    }
}

#[verifier::opaque]
spec fn rotation_count(n: int) -> int {
    rotations_upto(n).len() as int
}

proof fn lemma_one_more(n: int)
    requires
        0 <= n < 48,
    ensures
        rotation_count(n + 1) == rotation_count(n) + if reflects(n) {
            0int
        } else {
            1int
        },
{
    reveal(rotation_count);
    lemma_determinant(n);
}

proof fn lemma_four_per_permutation(p: int)
    requires
        0 <= p < 6,
    ensures
        rotation_count(8 * p + 8) == rotation_count(8 * p) + 4,
{
    let n = 8 * p;
    lemma_one_more(n);
    lemma_one_more(n + 1);
    lemma_one_more(n + 2);
    lemma_one_more(n + 3);
    lemma_one_more(n + 4);
    lemma_one_more(n + 5);
    lemma_one_more(n + 6);
    lemma_one_more(n + 7);
}

proof fn lemma_twenty_four()
    ensures
        rotations_upto(48).len() == 24,
{
    lemma_four_per_permutation(0);
    lemma_four_per_permutation(1);
    lemma_four_per_permutation(2);
    lemma_four_per_permutation(3);
    lemma_four_per_permutation(4);
    lemma_four_per_permutation(5);
    assert(rotation_count(48) == rotation_count(0) + 24);
    assert(rotation_count(48) == rotations_upto(48).len() && rotation_count(0) == 0) by {
        reveal(rotation_count);
    }
}

/// The quarter turns are the 24 rotations that map the axes onto themselves: each
/// has determinant one, and every signed permutation with a positive determinant is
/// among them.
pub proof fn quarter_turns_are_the_rotations(
    a: int,
    b: int,
    c: int,
    ra: bool,
    rb: bool,
    rc: bool,
)
    requires
        0 <= a < 3,
        0 <= b < 3,
        0 <= c < 3,
        a != b,
        b != c,
        a != c,
    ensures
        rotations_upto(48).len() == 24,
        forall|i: int|
            0 <= i < 24 ==> (#[trigger] rotations_upto(48)[i]).determinant() == 1,
        AxisMap::signed(a, b, c, ra, rb, rc).determinant() > 0 ==> rotations_upto(48).contains(
            AxisMap::signed(a, b, c, ra, rb, rc),
        ),
{
    lemma_twenty_four();
    assert forall|i: int| 0 <= i < 24 implies (#[trigger] rotations_upto(48)[i]).determinant()
        == 1 by {
        lemma_only_rotations(48, i);
    }
    let p = 2 * a + if b < c {
        0int
    } else {
        1int
    };
    let s = (if ra {
        1int
    } else {
        0int
    }) + (if rb {
        2int
    } else {
        0int
    }) + if rc {
        4int
    } else {
        0int
    };
    let k = 8 * p + s;
    assert(k / 8 == p && k % 8 == s);
    assert(k % 2 == s % 2 && (k / 2) % 2 == (s / 2) % 2 && (k / 4) % 2 == (s / 4) % 2);
    assert(permuted(p, 0) == a && permuted(p, 1) == b && permuted(p, 2) == c);
    assert(candidate(k) == AxisMap::signed(a, b, c, ra, rb, rc));
    if candidate(k).determinant() > 0 {
        lemma_rotations_upto(48, k);
    }
}

/// Bit pattern of minus one.
pub const MINUS_ONE: u32 = 0xbf80_0000;

/// The first of the greatest numbers above minus one, or nothing where there is
/// none. What is not a number is never the greatest.
pub fn first_greatest(v: &Vec<u32>) -> (best: Option<usize>)
    ensures
        match best {
            Some(k) => {
                &&& k < v.len()
                &&& lt32(MINUS_ONE, v[k as int])
                &&& forall|j: int|
                    0 <= j < v.len() ==> !lt32(v[k as int], #[trigger] v[j])
                &&& forall|j: int| 0 <= j < k ==> !le32(v[k as int], #[trigger] v[j])
            },
            None => forall|j: int| 0 <= j < v.len() ==> !lt32(MINUS_ONE, #[trigger] v[j]),
        },
{
    let mut best: Option<usize> = None;
    let mut top: u32 = MINUS_ONE;
    let mut i: usize = 0;
    while i < v.len()
        invariant
            i <= v.len(),
            !nan32(top),
            match best {
                Some(k) => {
                    &&& k < i
                    &&& top == v[k as int]
                    &&& lt32(MINUS_ONE, top)
                    &&& forall|j: int| 0 <= j < i ==> !lt32(top, #[trigger] v[j])
                    &&& forall|j: int| 0 <= j < k ==> !le32(top, #[trigger] v[j])
                },
                None => top == MINUS_ONE && forall|j: int|
                    0 <= j < i ==> !lt32(MINUS_ONE, #[trigger] v[j]),
            },
        decreases v.len() - i,
    {
        if less32(top, v[i]) {
            top = v[i];
            best = Some(i);
        }
        i += 1;
    }
    best
}

/// The quarter turn nearest a rotation: the first of the 24 that is closest, by the
/// magnitude of the dot product that `closeness` computes. What "bake the pose into
/// the part" turns by. Nothing, that is no turn, where no closeness is a number.
pub fn nearest_quarter_turn<D: Fn(AxisMap) -> u32>(closeness: &D) -> (turn: Option<AxisMap>)
    requires
        forall|t: AxisMap| #[trigger] closeness.requires((t,)),
    ensures
        exists|v: Seq<u32>|
            {
                &&& v.len() == rotations_upto(48).len()
                &&& forall|i: int|
                    0 <= i < v.len() ==> closeness.ensures((rotations_upto(48)[i],), #[trigger] v[i])
                &&& nearest(v, turn)
            },
{
    let turns: Vec<AxisMap> = quarter_turns();
    let mut v: Vec<u32> = Vec::new();
    let mut i: usize = 0;
    while i < turns.len()
        invariant
            i <= turns.len(),
            v.len() == i,
            forall|t: AxisMap| #[trigger] closeness.requires((t,)),
            forall|j: int| 0 <= j < i ==> closeness.ensures((turns[j],), #[trigger] v[j]),
        decreases turns.len() - i,
    {
        let d: u32 = closeness(turns[i]);
        v.push(d);
        i += 1;
    }
    let turn: Option<AxisMap> = match first_greatest(&v) {
        Some(k) => Some(turns[k]),
        None => None,
    };
    assert(nearest(v@, turn));
    turn
}

/// Whether this is the first quarter turn of the greatest closeness.
pub open spec fn nearest(v: Seq<u32>, turn: Option<AxisMap>) -> bool {
    match turn {
        Some(t) => exists|k: int|
            {
                &&& 0 <= k < v.len()
                &&& t == rotations_upto(48)[k]
                &&& lt32(MINUS_ONE, #[trigger] v[k])
                &&& forall|j: int| 0 <= j < v.len() ==> !lt32(v[k], #[trigger] v[j])
                &&& forall|j: int| 0 <= j < k ==> !le32(v[k], #[trigger] v[j])
            },
        None => forall|j: int| 0 <= j < v.len() ==> !lt32(MINUS_ONE, #[trigger] v[j]),
    }
}

/// How far above or below level a direction points.
pub open spec fn vertical_words(elevation: u32, degrees: Seq<char>) -> Seq<char> {
    if lt32(magnitude32(elevation), HALF) {
        "level"@
    } else if lt32(0, elevation) {
        degrees + "° up"@
    } else {
        degrees + "° down"@
    }
}

/// Which way across the floor a direction points.
pub open spec fn floor_words(d: Vec3) -> Seq<char> {
    let along_x = le32(magnitude32(d.z), magnitude32(d.x));
    (if le32(
        0,
        if along_x {
            d.x
        } else {
            d.z
        },
    ) {
        "+"@
    } else {
        "-"@
    }) + if along_x {
        "X"@
    } else {
        "Z"@
    }
}

/// A world direction in the words someone standing in the car uses: how far above
/// or below level it points, and which way across the floor.
///
/// `d` has unit length or is zero; `across` is its length along the floor,
/// `elevation` its angle above level in degrees, and `degrees` the digits of that
/// angle's magnitude, rounded.
pub fn describe_direction(d: Vec3, across: u32, elevation: u32, degrees: &str) -> (s: String)
    ensures
        s@ == if zero_vector(d) {
            "-"@
        } else if lt32(across, 0x3a83_126f) {
            if lt32(0, d.y) {
                "straight up"@
            } else {
                "straight down"@
            }
        } else {
            vertical_words(elevation, degrees@) + ", toward "@ + floor_words(d)
        },
{
    if is_zero_vector(d) {
        return String::from_str("-");
    }
    if less32(across, 0x3a83_126f) {
        return if less32(0, d.y) {
            String::from_str("straight up")
        } else {
            String::from_str("straight down")
        };
    }
    let mut s: String = if less32(abs32(elevation), HALF) {
        String::from_str("level")
    } else {
        let mut s: String = String::from_str(degrees);
        if less32(0, elevation) {
            s.append("° up");
        } else {
            s.append("° down");
        }
        s
    };
    s.append(", toward ");
    let ghost head = s@;
    let along_x: bool = at_most32(abs32(d.z), abs32(d.x));
    let sign: u32 = if along_x {
        d.x
    } else {
        d.z
    };
    s.append(
        if at_most32(0, sign) {
            "+"
        } else {
            "-"
        },
    );
    s.append(
        if along_x {
            "X"
        } else {
            "Z"
        },
    );
    assert(s@ =~= head + floor_words(d));
    s
}

/// A pose is its numbers in order: yaw, pitch and roll, then an offset where six are given.
/// Any other count, and anything that is not a finite number, is no pose.
pub proof fn a_pose_is_its_numbers_in_order(values: Seq<Option<u32>>)
    ensures
        pose_of(values) is Some ==> values.len() == 3 || values.len() == 6,
        (values.len() == 3 || values.len() == 6) && (forall|k: int|
            0 <= k < values.len() ==> (#[trigger] values[k] matches Some(v) && v % 0x8000_0000
                < 0x7f80_0000)) ==> pose_of(values) is Some,
        forall|k: int|
            0 <= k < values.len() && (#[trigger] values[k] is None || values[k]->Some_0
                % 0x8000_0000 >= 0x7f80_0000) ==> pose_of(values) is None,
        pose_of(values) matches Some(p) ==> {
            &&& values[0] == Some(p.euler_deg.x)
            &&& values[1] == Some(p.euler_deg.y)
            &&& values[2] == Some(p.euler_deg.z)
            &&& values.len() == 3 ==> p.offset_mm == (Vec3 { x: 0, y: 0, z: 0 })
            &&& values.len() == 6 ==> values[3] == Some(p.offset_mm.x) && values[4] == Some(
                p.offset_mm.y,
            ) && values[5] == Some(p.offset_mm.z)
        },
{
    if pose_of(values) is Some {
        assert(values[0] is Some && values[1] is Some && values[2] is Some);
        if values.len() == 6 {
            assert(values[3] is Some && values[4] is Some && values[5] is Some);
        }
    }
}

/// An aim is its two numbers, up first, each held to sixty degrees either way.
pub proof fn an_aim_is_held_to_what_a_louver_can_do(a: u32, b: u32)
    requires
        finite32(a),
        finite32(b),
    ensures
        louver_of(seq![Some(a), Some(b)]) matches Some(l) && {
            &&& le32(0xc270_0000, l.up_down) && le32(l.up_down, 0x4270_0000)
            &&& le32(0xc270_0000, l.sideways) && le32(l.sideways, 0x4270_0000)
            &&& magnitude32(a) <= 0x4270_0000 ==> l.up_down == a
            &&& magnitude32(b) <= 0x4270_0000 ==> l.sideways == b
            &&& magnitude32(a) > 0x4270_0000 ==> magnitude32(l.up_down) == 0x4270_0000 && (
            l.up_down >= 0x8000_0000 <==> a >= 0x8000_0000)
            &&& magnitude32(b) > 0x4270_0000 ==> magnitude32(l.sideways) == 0x4270_0000 && (
            l.sideways >= 0x8000_0000 <==> b >= 0x8000_0000)
        },
        value_of(0x4270_0000) == 60 * value_of(ONE),
        louver_of(seq![Some(a)]) is None,
        louver_of(seq![Some(a), Some(b), Some(a)]) is None,
        louver_of(seq![Some(a), None]) is None,
        louver_of(seq![None, Some(b)]) is None,
{
    let v = seq![Some(a), Some(b)];
    assert(v[0] == Some(a) && v[1] == Some(b));
    let w = seq![Some(a), None::<u32>];
    assert(w[1] is None);
    let x = seq![None::<u32>, Some(b)];
    assert(x[0] is None);
    lemma2_to64();
    assert(0x4270_0000u32 / STEPS == 132 && 0x4270_0000u32 % STEPS == 0x70_0000);
    assert(pow2(5) == 32);
    lemma_multiple_of_one(0x4270_0000, 60);
}

/// A level louver is no tilt, and no tilt comes out as a negative zero; it is otherwise what
/// the projection gives.
pub proof fn a_tilt_has_no_negative_zero<T: Fn(LouverAim, Vec3, usize, Quat) -> (u32, u32)>(
    aim: LouverAim,
    n: Vec3,
    axis: usize,
    rotation: Quat,
    project: T,
    tilt: (u32, u32),
)
    requires
        is_tilt(aim, n, axis, rotation, project, tilt),
    ensures
        tilt.0 != 0x8000_0000 && tilt.1 != 0x8000_0000,
        aim.up_down % 0x8000_0000 == 0 && aim.sideways % 0x8000_0000 == 0 ==> tilt == (0u32, 0u32),
        aim.up_down % 0x8000_0000 != 0 || aim.sideways % 0x8000_0000 != 0 ==> exists|t: (u32, u32)|
            #[trigger]
            project.ensures((aim, n, axis, rotation), t) && (tilt.0 == t.0 || value_of(tilt.0)
                == value_of(t.0)) && (tilt.1 == t.1 || value_of(tilt.1) == value_of(t.1)),
{
    if aim.up_down % 0x8000_0000 != 0 || aim.sideways % 0x8000_0000 != 0 {
        let t = choose|t: (u32, u32)| #[trigger]
            project.ensures((aim, n, axis, rotation), t) && tilt == (
                unsigned_zero(t.0),
                unsigned_zero(t.1),
            );
        assert(project.ensures((aim, n, axis, rotation), t));
    }
}

/// What two patterns in one range of exponents are apart.
proof fn lemma_span(m: int, lo: int, hi: int, exact: int)
    requires
        0 <= lo <= m <= hi,
        lo <= exact <= hi,
        1_000_000 * (size_of(exact) - size_of(lo)) <= size_of(ONE as int),
        1_000_000 * (size_of(hi) - size_of(exact)) <= size_of(ONE as int),
    ensures
        -size_of(ONE as int) <= 1_000_000 * (size_of(exact) - size_of(m)) <= size_of(ONE as int),
{
    lemma_ordered(lo, m);
    lemma_ordered(m, hi);
}

proof fn lemma_size_at(c: int, e: int, f: int)
    requires
        e >= 107,
        0 <= f < STEPS,
        c == e * STEPS + f,
    ensures
        size_of(c) == ((STEPS + f) * pow2((e - 107) as nat)) * pow2(106),
{
    lemma_fundamental_div_mod_converse(c, STEPS as int, e, f);
    lemma_pow2_adds((e - 107) as nat, 106);
    let p = pow2((e - 107) as nat) as int;
    let u = pow2(106) as int;
    assert((STEPS + f) * (p * u) == ((STEPS + f) * p) * u) by (nonlinear_arith);
}

proof fn lemma_near_sizes()
    ensures
        pow2(106) > 0,
        size_of(0) == 0,
        size_of(EPS as int) == 8_796_093 * pow2(106),
        size_of(0x3eff_ffdf) == 4_398_037_860_352 * pow2(106),
        size_of(HALF as int) == 4_398_046_511_104 * pow2(106),
        size_of(0x3f00_0010) == 4_398_054_899_712 * pow2(106),
        size_of(0x3f35_04e3) == 6_219_768_528_896 * pow2(106),
        size_of(FRAC_1_SQRT_2 as int) == 6_219_776_917_504 * pow2(106),
        size_of(0x3f35_0503) == 6_219_785_306_112 * pow2(106),
        size_of(0x3f7f_fff0) == 8_796_084_633_600 * pow2(106),
        size_of(ONE as int) == 8_796_093_022_208 * pow2(106),
        size_of(0x3f80_0008) == 8_796_101_410_816 * pow2(106),
{
    lemma2_to64();
    lemma_pow2_pos(106);
    assert(pow2(0) == 1 && pow2(18) == 0x4_0000 && pow2(19) == 0x8_0000 && pow2(20) == 0x10_0000);
    lemma_size_at(EPS as int, 107, 0x637bd);
    lemma_size_at(0x3eff_ffdf, 125, 0x7fffdf);
    assert((STEPS + 0x7fffdf) * pow2(18) == 4_398_037_860_352);
    lemma_size_at(HALF as int, 126, 0x0);
    lemma_size_at(0x3f00_0010, 126, 0x10);
    lemma_size_at(0x3f35_04e3, 126, 0x3504e3);
    lemma_size_at(FRAC_1_SQRT_2 as int, 126, 0x3504f3);
    lemma_size_at(0x3f35_0503, 126, 0x350503);
    lemma_size_at(0x3f7f_fff0, 126, 0x7ffff0);
    lemma_size_at(ONE as int, 127, 0x0);
    lemma_size_at(0x3f80_0008, 127, 0x8);
}

/// Cleaning a component moves it by a millionth at most and never past zero: exact ones
/// stay, and only those so near to an exact value move at all.
#[verifier::spinoff_prover]
#[verifier::rlimit(80)]
pub proof fn cleaning_moves_by_a_millionth_at_most(c: u32)
    requires
        finite32(c),
    ensures
        -value_of(ONE) <= 1_000_000 * (value_of(cleaned(c)) - value_of(c)) <= value_of(ONE),
        cleaned(c) != 0 ==> (cleaned(c) >= 0x8000_0000 <==> c >= 0x8000_0000),
        cleaned(c) == c || ({
            let m = magnitude32(cleaned(c));
            m == 0 || m == HALF || m == FRAC_1_SQRT_2 || m == ONE
        }),
        cleaned(HALF) == HALF && cleaned(ONE) == ONE && cleaned(FRAC_1_SQRT_2) == FRAC_1_SQRT_2
            && cleaned(0) == 0,
{
    lemma_near_sizes();
    let m = magnitude32(c) as int;
    assert(m == c as int % 0x8000_0000);
    if m < EPS {
        lemma_span(m, 0, EPS as int, 0);
    } else if 0x3eff_ffdf <= m <= 0x3f00_0010 {
        lemma_span(m, 0x3eff_ffdf, 0x3f00_0010, HALF as int);
    } else if 0x3f35_04e3 <= m <= 0x3f35_0503 {
        lemma_span(m, 0x3f35_04e3, 0x3f35_0503, FRAC_1_SQRT_2 as int);
    } else if 0x3f7f_fff0 <= m <= 0x3f80_0008 {
        lemma_span(m, 0x3f7f_fff0, 0x3f80_0008, ONE as int);
    } else {
        lemma_ordered(0, ONE as int);
    }
}

/// A rotation and its negative are one rotation, and have one canonical form: the one with
/// all signs kept or all reversed.
pub proof fn a_rotation_has_one_canonical_form(q: Quat)
    requires
        !nan32(q.w),
        q.w % 0x8000_0000 != 0,
    ensures
        canonical_form(q) == canonical_form(
            Quat { x: negated32(q.x), y: negated32(q.y), z: negated32(q.z), w: negated32(q.w) },
        ),
        q.w < 0x8000_0000 ==> canonical_form(q).x == cleaned(q.x) && canonical_form(q).y == cleaned(
            q.y,
        ) && canonical_form(q).z == cleaned(q.z) && canonical_form(q).w == cleaned(q.w),
{
}

/// Only the orientation of the file counts as none: no turn and no offset at all.
pub proof fn only_the_file_orientation_is_unposed(p: InstallPose)
    ensures
        InstallPose::identity().is_unposed(),
        p.is_unposed() <==> p.rotation.w == ONE && p.rotation.x % 0x8000_0000 == 0 && p.rotation.y
            % 0x8000_0000 == 0 && p.rotation.z % 0x8000_0000 == 0 && p.offset_mm.x % 0x8000_0000
            == 0 && p.offset_mm.y % 0x8000_0000 == 0 && p.offset_mm.z % 0x8000_0000 == 0,
{
}

/// Across the floor a direction goes toward the axis it is longest along, on the side it
/// points to; and it is level within half a degree.
pub proof fn a_direction_is_told_as_it_points(d: Vec3, elevation: u32, degrees: Seq<char>)
    requires
        finite32(d.x),
        finite32(d.z),
        finite32(elevation),
    ensures
        floor_words(d).len() == 2,
        floor_words(d)[1] == 'X' <==> magnitude32(d.x) >= magnitude32(d.z),
        floor_words(d)[1] == 'Z' <==> magnitude32(d.x) < magnitude32(d.z),
        magnitude32(d.x) >= magnitude32(d.z) ==> (floor_words(d)[0] == '-' <==> value_of(d.x) < 0),
        magnitude32(d.x) < magnitude32(d.z) ==> (floor_words(d)[0] == '-' <==> value_of(d.z) < 0),
        floor_words(d)[0] == '+' || floor_words(d)[0] == '-',
        magnitude32(elevation) < HALF ==> vertical_words(elevation, degrees) == "level"@,
        magnitude32(elevation) >= HALF && elevation < 0x8000_0000 ==> vertical_words(
            elevation,
            degrees,
        ) == degrees + "° up"@,
        magnitude32(elevation) >= HALF && elevation >= 0x8000_0000 ==> vertical_words(
            elevation,
            degrees,
        ) == degrees + "° down"@,
{
    reveal_strlit("+");
    reveal_strlit("-");
    reveal_strlit("X");
    reveal_strlit("Z");
    lemma_ordered(0, d.x as int % 0x8000_0000);
    lemma_ordered(0, d.z as int % 0x8000_0000);
    assert(size_of(0) == 0);
}

/// A part is unchanged only at its own size and unturned.
pub proof fn only_the_part_as_it_is_counts_as_unchanged(g: DuctGeometry, axis: usize)
    ensures
        g.is_unchanged() <==> g.scale == ONE && g.turn.w == ONE && g.turn.x % 0x8000_0000 == 0
            && g.turn.y % 0x8000_0000 == 0 && g.turn.z % 0x8000_0000 == 0,
        axis < 3 ==> world_axis(axis) == axis,
        world_axis(axis) < 3,
{
}

} // verus!
