//! Settings for the flow-visualisation overlays, and the probe list.
//!
//! The UI edits plain structs here and an adapter copies them into whatever the
//! overlay passes want. Everything spatial is in millimetres; floating-point
//! settings are bit patterns.
use vstd::prelude::*;
use vstd::string::StringExecFns;
use crate::binary32::{is_sum, sum, sums_keep_to_their_side, value_of};
use crate::config::{Vec3, ONE};
use crate::float_order::{
    abs32, clamp32, clamped32, eq32, equal32, finite32, greater32, le32, lt32, magnitude32, max32, neg32,
    nan32, negated32,
};
use crate::view::{newest, ProbeView, Trace};

verus! {

/// What a transform gizmo is currently doing.
#[derive(Clone, Copy, Debug, PartialEq, Eq, Structural)]
pub enum GizmoMode {
    Translate,
    Rotate,
    Scale,
    /// Gizmo suppressed even though something is selected. Useful when the
    /// handles are covering the thing you are trying to look at.
    Off,
}

impl Default for GizmoMode {
    fn default() -> (m: Self)
        ensures
            m == GizmoMode::Translate,
    {
        GizmoMode::Translate
    }
}

impl GizmoMode {
    pub fn label(self) -> (s: &'static str)
        ensures
            s@ == (match self {
                GizmoMode::Translate => "move"@,
                GizmoMode::Rotate => "rotate"@,
                GizmoMode::Scale => "scale"@,
                GizmoMode::Off => "off"@,
            }),
    {
        match self {
            GizmoMode::Translate => "move",
            GizmoMode::Rotate => "rotate",
            GizmoMode::Scale => "scale",
            GizmoMode::Off => "off",
        }
    }

    /// Every mode, in the order the panel offers them.
    pub fn all() -> (a: [GizmoMode; 4])
        ensures
            a@ == seq![GizmoMode::Translate, GizmoMode::Rotate, GizmoMode::Scale, GizmoMode::Off],
    {
        [GizmoMode::Translate, GizmoMode::Rotate, GizmoMode::Scale, GizmoMode::Off]
    }
}

/// Local versus world axes for the gizmo.
#[derive(Clone, Copy, Debug, PartialEq, Eq, Structural)]
pub enum GizmoSpace {
    World,
    Local,
}

impl Default for GizmoSpace {
    fn default() -> (s: Self)
        ensures
            s == GizmoSpace::World,
    {
        GizmoSpace::World
    }
}

impl GizmoSpace {
    pub fn label(self) -> (s: &'static str)
        ensures
            s@ == (match self {
                GizmoSpace::World => "world"@,
                GizmoSpace::Local => "local"@,
            }),
    {
        match self {
            GizmoSpace::World => "world",
            GizmoSpace::Local => "local",
        }
    }
}

/// The snap the gizmo should use in `mode`: millimetres when moving, degrees
/// when turning, none when scaling.
///
/// The gizmo takes one snap value and reads it in the units of whatever the
/// operation is, so handing it the translation snap in rotate mode turns a
/// 0.5 mm grid into half-degree steps, which feels like no snap at all.
pub fn snap_for(mode: GizmoMode, snap_mm: Option<u32>, snap_deg: Option<u32>) -> (s: Option<u32>)
    ensures
        s == (match mode {
            GizmoMode::Translate => snap_mm,
            GizmoMode::Rotate => snap_deg,
            GizmoMode::Scale => None,
            GizmoMode::Off => None,
        }),
{
    match mode {
        GizmoMode::Translate => snap_mm,
        GizmoMode::Rotate => snap_deg,
        GizmoMode::Scale | GizmoMode::Off => None,
    }
}

/// A rotation as four `f32` bit patterns.
#[derive(Clone, Copy, Debug, PartialEq, Eq, Structural)]
pub struct Quat {
    pub x: u32,
    pub y: u32,
    pub z: u32,
    pub w: u32,
}

/// Bit pattern of the smallest scale a gizmo can reach, one in ten thousand.
pub const LEAST_SCALE: u32 = 0x38d1_b717;

/// A rigid transform in millimetres.
#[derive(Clone, Copy, Debug, PartialEq, Eq, Structural)]
pub struct Placement {
    pub translation_mm: Vec3,
    pub rotation: Quat,
    pub scale: u32,
}

impl Default for Placement {
    fn default() -> (p: Self)
        ensures
            p == (Placement {
                translation_mm: Vec3 { x: 0, y: 0, z: 0 },
                rotation: Quat { x: 0, y: 0, z: 0, w: ONE },
                scale: ONE,
            }),
    {
        Placement {
            translation_mm: Vec3::new(0, 0, 0),
            rotation: Quat { x: 0, y: 0, z: 0, w: ONE },
            scale: ONE,
        }
    }
}

impl Placement {
    /// Read a placement back out of the parts of a gizmo-edited matrix.
    ///
    /// Uniform scale is recovered as the mean of the three column lengths and kept
    /// positive. A negative or zero scale mirrors the mesh, which flips every triangle
    /// winding and turns the signed distance field inside out; refusing it here means a
    /// gizmo that will not shrink past zero.
    pub fn from_matrix<F: Fn(u32, u32, u32) -> u32>(
        translation_mm: Vec3,
        rotation: Quat,
        scale: Vec3,
        mean: &F,
    ) -> (p: Placement)
        requires
            forall|x: u32, y: u32, z: u32| #[trigger] mean.requires((x, y, z)),
        ensures
            p.translation_mm == translation_mm,
            p.rotation == rotation,
            exists|m: u32| #[trigger]
                mean.ensures(
                    (magnitude32(scale.x), magnitude32(scale.y), magnitude32(scale.z)),
                    m,
                ) && p.scale == greater32(m, LEAST_SCALE),
            lt32(0, p.scale),
    {
        let m: u32 = mean(abs32(scale.x), abs32(scale.y), abs32(scale.z));
        Placement { translation_mm, rotation, scale: max32(m, LEAST_SCALE) }
    }

    /// Whether two placements are equal, component by component, as `f32`.
    pub open spec fn same(&self, o: &Placement) -> bool {
        &&& eq32(self.translation_mm.x, o.translation_mm.x)
        &&& eq32(self.translation_mm.y, o.translation_mm.y)
        &&& eq32(self.translation_mm.z, o.translation_mm.z)
        &&& eq32(self.rotation.x, o.rotation.x)
        &&& eq32(self.rotation.y, o.rotation.y)
        &&& eq32(self.rotation.z, o.rotation.z)
        &&& eq32(self.rotation.w, o.rotation.w)
        &&& eq32(self.scale, o.scale)
    }

    fn is_same(&self, o: &Placement) -> (r: bool)
        ensures
            r == self.same(o),
    {
        equal32(self.translation_mm.x, o.translation_mm.x) && equal32(
            self.translation_mm.y,
            o.translation_mm.y,
        ) && equal32(self.translation_mm.z, o.translation_mm.z) && equal32(
            self.rotation.x,
            o.rotation.x,
        ) && equal32(self.rotation.y, o.rotation.y) && equal32(self.rotation.z, o.rotation.z)
            && equal32(self.rotation.w, o.rotation.w) && equal32(self.scale, o.scale)
    }
}

#[derive(Clone, Copy, Debug, PartialEq, Eq, Structural)]
pub enum ParticleSeed {
    /// Uniformly over the inlet patch.
    Inlet,
    /// Uniformly through the fluid volume.
    Volume,
    /// From the selected slice plane, which makes the slice a rake.
    Slice,
    /// From the probe positions.
    Probes,
}

impl Default for ParticleSeed {
    fn default() -> (s: Self)
        ensures
            s == ParticleSeed::Inlet,
    {
        ParticleSeed::Inlet
    }
}

impl ParticleSeed {
    pub fn label(self) -> (s: &'static str)
        ensures
            s@ == (match self {
                ParticleSeed::Inlet => "inlet"@,
                ParticleSeed::Volume => "volume"@,
                ParticleSeed::Slice => "slice plane"@,
                ParticleSeed::Probes => "probes"@,
            }),
    {
        match self {
            ParticleSeed::Inlet => "inlet",
            ParticleSeed::Volume => "volume",
            ParticleSeed::Slice => "slice plane",
            ParticleSeed::Probes => "probes",
        }
    }

    /// Every seed, in the order the panel offers them.
    pub fn all() -> (a: [ParticleSeed; 4])
        ensures
            a@ == seq![
                ParticleSeed::Inlet,
                ParticleSeed::Volume,
                ParticleSeed::Slice,
                ParticleSeed::Probes,
            ],
    {
        [ParticleSeed::Inlet, ParticleSeed::Volume, ParticleSeed::Slice, ParticleSeed::Probes]
    }
}

/// How the particle overlay behaves.
#[derive(Clone, Copy, Debug, PartialEq, Eq, Structural)]
pub struct ParticleSettings {
    pub enabled: bool,
    pub count: u32,
    /// Seconds a particle lives before being re-seeded. Bounded because a
    /// particle caught in a recirculation would otherwise never leave.
    pub lifetime_s: u32,
    /// Multiplier on the advection rate. Not physical: the sim is thousands of
    /// times slower than real time, so particles moving at the true rate would
    /// be motionless on screen.
    pub speed_scale: u32,
    /// Screen-space radius, pixels.
    pub size_px: u32,
    /// Trail length in frames; 0 draws points.
    pub trail: u32,
    /// Where they come from.
    pub seed: ParticleSeed,
    /// Colour particles by the displayed scalar rather than a flat colour.
    pub color_by_field: bool,
    /// Fraction of particles re-seeded per second, so the display refreshes
    /// even in a steady flow.
    pub reseed_rate: u32,
}

/// The particle overlay of a fresh session.
pub open spec fn default_particles() -> ParticleSettings {
    ParticleSettings {
        enabled: true,
        count: 20_000,
        lifetime_s: 0x4080_0000,
        speed_scale: ONE,
        size_px: 0x4020_0000,
        trail: 8,
        seed: ParticleSeed::Inlet,
        color_by_field: true,
        reseed_rate: 0x3e80_0000,
    }
}

impl Default for ParticleSettings {
    fn default() -> (s: Self)
        ensures
            s == default_particles(),
    {
        ParticleSettings {
            enabled: true,
            count: 20_000,
            lifetime_s: 0x4080_0000,
            speed_scale: ONE,
            size_px: 0x4020_0000,
            trail: 8,
            seed: ParticleSeed::Inlet,
            color_by_field: true,
            reseed_rate: 0x3e80_0000,
        }
    }
}

/// One cutting plane.
#[derive(Clone, Debug)]
pub struct SliceSettings {
    pub name: String,
    pub visible: bool,
    /// A point on the plane, mm.
    pub origin_mm: Vec3,
    /// Plane normal, unit. Edited by the gizmo's rotation handles.
    pub normal: Vec3,
    /// Draw the scalar field on the plane.
    pub show_scalar: bool,
    /// Draw in-plane velocity arrows.
    pub show_vectors: bool,
    /// Arrow spacing, mm.
    pub vector_spacing_mm: u32,
    /// Arrow length per m/s, mm. A display gain, not a physical quantity.
    pub vector_scale: u32,
    /// Draw line-integral-convolution texture instead of arrows.
    pub lic: bool,
    /// Clip the geometry on the far side of the plane, so the plane cuts the
    /// duct open rather than floating inside it.
    pub clip_geometry: bool,
    pub opacity: u32,
}

impl SliceSettings {
    /// Whether this is a slice with everything but its plane at the default.
    pub open spec fn plain(&self, name: Seq<char>, origin_mm: Vec3, normal: Vec3) -> bool {
        &&& self.name@ == name
        &&& self.visible
        &&& self.origin_mm == origin_mm
        &&& self.normal == normal
        &&& self.show_scalar
        &&& !self.show_vectors
        &&& self.vector_spacing_mm == 0x4000_0000
        &&& self.vector_scale == ONE
        &&& !self.lic
        &&& !self.clip_geometry
        &&& self.opacity == ONE
    }

    fn made(name: &str, origin_mm: Vec3, normal: Vec3) -> (s: Self)
        ensures
            s.plain(name@, origin_mm, normal),
    {
        SliceSettings {
            name: String::from_str(name),
            visible: true,
            origin_mm,
            normal,
            show_scalar: true,
            show_vectors: false,
            vector_spacing_mm: 0x4000_0000,
            vector_scale: ONE,
            lic: false,
            clip_geometry: false,
            opacity: ONE,
        }
    }

    /// A plane through `center` facing along `axis` (0/1/2).
    pub fn axis_aligned(name: &str, center: Vec3, axis: u8) -> (s: Self)
        ensures
            s.plain(
                name@,
                center,
                if axis % 3 == 0 {
                    Vec3 { x: ONE, y: 0, z: 0 }
                } else if axis % 3 == 1 {
                    Vec3 { x: 0, y: ONE, z: 0 }
                } else {
                    Vec3 { x: 0, y: 0, z: ONE }
                },
            ),
    {
        let normal: Vec3 = match axis % 3 {
            0 => Vec3::new(ONE, 0, 0),
            1 => Vec3::new(0, ONE, 0),
            _ => Vec3::new(0, 0, ONE),
        };
        SliceSettings::made(name, center, normal)
    }

    /// Placement for the gizmo: the translation is the plane origin and the rotation,
    /// by `arc`, takes `+Y` onto the normal. `+Y` because it is normal to the quad that
    /// shows the plane, which puts the useful ring where the user expects to grab it.
    pub fn placement<F: Fn(Vec3) -> Quat>(&self, arc: &F) -> (p: Placement)
        requires
            arc.requires((self.normal,)),
        ensures
            p.translation_mm == self.origin_mm,
            arc.ensures((self.normal,), p.rotation),
            p.scale == ONE,
    {
        Placement { translation_mm: self.origin_mm, rotation: arc(self.normal), scale: ONE }
    }

    /// Put the plane where a placement says: `up` is where a rotation takes `+Y`.
    pub fn set_placement<F: Fn(Quat) -> Vec3>(&mut self, p: Placement, up: &F)
        requires
            up.requires((p.rotation,)),
        ensures
            *final(self) == (SliceSettings {
                origin_mm: p.translation_mm,
                normal: final(self).normal,
                ..*old(self)
            }),
            up.ensures((p.rotation,), final(self).normal),
    {
        self.origin_mm = p.translation_mm;
        self.normal = up(p.rotation);
    }
}

impl Default for SliceSettings {
    fn default() -> (s: Self)
        ensures
            s.plain("slice"@, (Vec3 { x: 0, y: 0, z: 0 }), (Vec3 { x: 0, y: ONE, z: 0 })),
    {
        SliceSettings::made("slice", Vec3::new(0, 0, 0), Vec3::new(0, ONE, 0))
    }
}

/// A vent: a rectangle standing in the car that blows air. With any vent
/// present the duct's mouths are plain openings and the vents are the only
/// supply, so what enters the duct is whatever their jets bring.
#[derive(Clone, Debug)]
pub struct VentSettings {
    pub name: String,
    /// Where it is and which way it faces, car frame. Local `+Z` is the way
    /// it blows, `+X` runs along its width, `+Y` along its height. Scale is
    /// ignored; the size is below.
    pub placement: Placement,
    pub width_mm: u32,
    pub height_mm: u32,
    /// Air speed as a multiple of the inlet speed on the toolbar.
    pub speed_scale: u32,
    /// Louver aim relative to the vent's face, degrees: toward its `+Y` (up)
    /// and toward its `+X` (right, looking downstream).
    pub aim_deg: [u32; 2],
}

/// Bit pattern of the largest louver aim, 60 degrees.
pub const MAX_AIM_DEG: u32 = 0x4270_0000;

/// The vector the other way.
pub open spec fn opposite(v: Vec3) -> Vec3 {
    Vec3 { x: negated32(v.x), y: negated32(v.y), z: negated32(v.z) }
}

fn turned_about(v: Vec3) -> (r: Vec3)
    ensures
        r == opposite(v),
{
    Vec3 { x: neg32(v.x), y: neg32(v.y), z: neg32(v.z) }
}

/// Whether `r` is `a`, then `b`, then `c` along one axis.
pub open spec fn is_sum_of_three(a: u32, b: u32, c: u32, r: u32) -> bool {
    exists|s: u32| #[trigger] is_sum(a, b, s) && is_sum(s, c, r)
}

/// Whether `r` is reached from `m` by going `b` and then `c`.
pub open spec fn is_corner(m: Vec3, b: Vec3, c: Vec3, r: Vec3) -> bool {
    &&& is_sum_of_three(m.x, b.x, c.x, r.x)
    &&& is_sum_of_three(m.y, b.y, c.y, r.y)
    &&& is_sum_of_three(m.z, b.z, c.z, r.z)
}

#[verifier::spinoff_prover]
fn sum_of_three(a: u32, b: u32, c: u32) -> (r: u32)
    ensures
        is_sum_of_three(a, b, c, r),
{
    let s: u32 = sum(a, b);
    sum(s, c)
}

#[verifier::spinoff_prover]
fn corner(m: Vec3, b: Vec3, c: Vec3) -> (r: Vec3)
    ensures
        is_corner(m, b, c, r),
{
    let x: u32 = sum_of_three(m.x, b.x, c.x);
    let y: u32 = sum_of_three(m.y, b.y, c.y);
    let z: u32 = sum_of_three(m.z, b.z, c.z);
    Vec3 { x, y, z }
}

impl VentSettings {
    /// A vent blowing straight ahead, at least a millimetre each way.
    pub fn new(name: &str, placement: Placement, width_mm: u32, height_mm: u32) -> (v: Self)
        ensures
            v.name@ == name@,
            v.placement == (Placement { scale: ONE, ..placement }),
            v.width_mm == greater32(width_mm, ONE),
            v.height_mm == greater32(height_mm, ONE),
            v.speed_scale == ONE,
            v.aim_deg@ == seq![0u32, 0u32],
    {
        VentSettings {
            name: String::from_str(name),
            placement: Placement { scale: ONE, ..placement },
            width_mm: max32(width_mm, ONE),
            height_mm: max32(height_mm, ONE),
            speed_scale: ONE,
            aim_deg: [0, 0],
        }
    }

    /// The four corners, car frame, for drawing: half a width and half a height either way
    /// of the middle, around the face. `axes` gives the ways of the width and of the
    /// height, and `half` one of them times half a length.
    pub fn corners<A: Fn(Quat) -> (Vec3, Vec3), H: Fn(Vec3, u32) -> Vec3>(
        &self,
        axes: &A,
        half: &H,
    ) -> (c: [Vec3; 4])
        requires
            axes.requires((self.placement.rotation,)),
            forall|v: Vec3, length: u32| #[trigger] half.requires((v, length)),
        ensures
            exists|across: Vec3, up: Vec3, hw: Vec3, hh: Vec3| #[trigger]
                axes.ensures((self.placement.rotation,), (across, up)) && #[trigger] half.ensures(
                    (across, self.width_mm),
                    hw,
                ) && #[trigger] half.ensures((up, self.height_mm), hh) && is_corner(
                    self.placement.translation_mm,
                    opposite(hw),
                    opposite(hh),
                    c@[0],
                ) && is_corner(self.placement.translation_mm, hw, opposite(hh), c@[1]) && is_corner(
                    self.placement.translation_mm,
                    hw,
                    hh,
                    c@[2],
                ) && is_corner(self.placement.translation_mm, opposite(hw), hh, c@[3]),
    {
        let (across, up): (Vec3, Vec3) = axes(self.placement.rotation);
        let hw: Vec3 = half(across, self.width_mm);
        let hh: Vec3 = half(up, self.height_mm);
        let m: Vec3 = self.placement.translation_mm;
        let left: Vec3 = turned_about(hw);
        let down: Vec3 = turned_about(hh);
        let c: [Vec3; 4] = [
            corner(m, left, down),
            corner(m, hw, down),
            corner(m, hw, hh),
            corner(m, left, hh),
        ];
        assert(axes.ensures((self.placement.rotation,), (across, up)));
        c
    }

    /// The way the air leaves, unit, car frame: the normal turned by the aim, which is
    /// held to what the louvers can do. `turned` is a face's normal turned by two
    /// angles, toward its up and toward its right.
    pub fn direction<F: Fn(Quat, u32, u32) -> Vec3>(&self, turned: &F) -> (d: Vec3)
        requires
            forall|q: Quat, a: u32, b: u32| #[trigger] turned.requires((q, a, b)),
        ensures
            turned.ensures(
                (
                    self.placement.rotation,
                    clamped32(self.aim_deg@[0], negated32(MAX_AIM_DEG), MAX_AIM_DEG),
                    clamped32(self.aim_deg@[1], negated32(MAX_AIM_DEG), MAX_AIM_DEG),
                ),
                d,
            ),
    {
        let least: u32 = neg32(MAX_AIM_DEG);
        turned(
            self.placement.rotation,
            clamp32(self.aim_deg[0], least, MAX_AIM_DEG),
            clamp32(self.aim_deg[1], least, MAX_AIM_DEG),
        )
    }

    /// Whether the cells this flags are the same: place and size, not air.
    pub open spec fn cells_match(&self, o: &Self) -> bool {
        self.placement.same(&o.placement) && self.width_mm == o.width_mm && self.height_mm
            == o.height_mm
    }

    /// Whether the cells this flags are the same: place and size, not air.
    pub fn same_cells(&self, o: &Self) -> (r: bool)
        ensures
            r == self.cells_match(o),
    {
        self.placement.is_same(&o.placement) && self.width_mm == o.width_mm && self.height_mm
            == o.height_mm
    }
}

/// The soft-isosurface overlay.
#[derive(Clone, Copy, Debug, PartialEq, Eq, Structural)]
pub struct IsoSettings {
    pub enabled: bool,
    /// Isolevel in **data units** of the displayed field: re-ranging the colour
    /// bar must not move the surface.
    pub level: u32,
    pub opacity: u32,
    /// Colour the surface by a second scalar rather than flat.
    pub color_by_field: bool,
    /// Show only the side facing the camera, so the surface does not hide its
    /// own interior.
    pub single_sided: bool,
}

/// The isosurface of a fresh session: off, since an empty one looks like a bug.
pub open spec fn default_iso() -> IsoSettings {
    IsoSettings {
        enabled: false,
        level: 0x3f00_0000,
        opacity: 0x3f59_999a,
        color_by_field: false,
        single_sided: false,
    }
}

impl Default for IsoSettings {
    fn default() -> (s: Self)
        ensures
            s == default_iso(),
    {
        IsoSettings {
            enabled: false,
            level: 0x3f00_0000,
            opacity: 0x3f59_999a,
            color_by_field: false,
            single_sided: false,
        }
    }
}

/// Streamline seeding and integration.
#[derive(Clone, Copy, Debug, PartialEq, Eq, Structural)]
pub struct StreamlineSettings {
    pub enabled: bool,
    pub count: u32,
    /// Integration steps per line.
    pub max_steps: u32,
    /// Step length in cells.
    pub step_cells: u32,
    /// Integrate backwards as well, so a line through a probe shows where the
    /// air came from as well as where it goes.
    pub bidirectional: bool,
    pub width_px: u32,
}

/// The streamlines of a fresh session: off.
pub open spec fn default_streamlines() -> StreamlineSettings {
    StreamlineSettings {
        enabled: false,
        count: 256,
        max_steps: 2000,
        step_cells: 0x3f00_0000,
        bidirectional: true,
        width_px: 0x3fc0_0000,
    }
}

impl Default for StreamlineSettings {
    fn default() -> (s: Self)
        ensures
            s == default_streamlines(),
    {
        StreamlineSettings {
            enabled: false,
            count: 256,
            max_steps: 2000,
            step_cells: 0x3f00_0000,
            bidirectional: true,
            width_px: 0x3fc0_0000,
        }
    }
}

/// The probe list, with stable ids.
///
/// Ids never repeat within a session, because a probe's time series is keyed by
/// id and reusing one would splice two probes' histories into a single plot,
/// which looks like a physical transient rather than a bookkeeping error.
#[derive(Clone, Debug)]
pub struct Probes {
    pub items: Vec<ProbeView>,
    pub next_id: u32,
    /// How many points each probe's traces keep.
    pub history: usize,
}

/// A probe deselected.
pub open spec fn deselected(p: ProbeView) -> ProbeView {
    ProbeView { selected: false, ..p }
}

impl Default for Probes {
    /// An empty list whose first id is still one, and whose traces keep as little as a
    /// trace can.
    fn default() -> (p: Self)
        ensures
            p.wf(),
            p.items@.len() == 0,
            p.next_id == 0,
            p.history == 0,
            p.upcoming() == 1,
    {
        Probes { items: Vec::new(), next_id: 0, history: 0 }
    }
}

impl Probes {
    /// Every id is below the next one to give out, no two probes share one, and
    /// each trace has as many x as y.
    pub open spec fn wf(&self) -> bool {
        &&& forall|i: int|
            0 <= i < self.items@.len() ==> {
                let p = #[trigger] self.items@[i];
                &&& 1 <= p.id < self.next_id
                &&& p.pressure.x@.len() == p.pressure.y@.len()
                &&& p.speed.x@.len() == p.speed.y@.len()
            }
        &&& forall|i: int, j: int|
            0 <= i < j < self.items@.len() ==> self.items@[i].id != self.items@[j].id
    }

    /// The id that the next probe gets.
    pub open spec fn upcoming(&self) -> u32 {
        if self.next_id < 1 {
            1
        } else {
            self.next_id
        }
    }

    /// Whether a probe has this id.
    pub open spec fn holds(&self, id: u32) -> bool {
        exists|i: int| 0 <= i < self.items@.len() && #[trigger] self.items@[i].id == id
    }

    pub fn new() -> (p: Self)
        ensures
            p.wf(),
            p.items@.len() == 0,
            p.next_id == 1,
            p.history == 2048,
    {
        Probes { items: Vec::new(), next_id: 1, history: 2048 }
    }

    /// Drop a probe, and select it alone.
    pub fn add(&mut self, position_mm: Vec3) -> (id: u32)
        requires
            old(self).wf(),
            old(self).next_id < u32::MAX,
        ensures
            final(self).wf(),
            id == old(self).upcoming(),
            !old(self).holds(id),
            final(self).next_id == id + 1,
            final(self).history == old(self).history,
            final(self).items@.len() == old(self).items@.len() + 1,
            final(self).items@.drop_last() == old(self).items@.map_values(
                |p: ProbeView| deselected(p),
            ),
            final(self).items@.last().selected,
            exists|p: ProbeView| #[trigger]
                p.fresh(id, position_mm) && final(self).items@.last() == (ProbeView {
                    selected: true,
                    ..p
                }),
    {
        let id: u32 = if self.next_id < 1 {
            1
        } else {
            self.next_id
        };
        self.next_id = id + 1;
        let mut p: ProbeView = ProbeView::new(id, position_mm);
        let ghost made = p;
        p.selected = true;
        let ghost f = |p: ProbeView| deselected(p);
        let mut i: usize = 0;
        while i < self.items.len()
            invariant
                old(self).wf(),
                i <= self.items@.len(),
                self.items@.len() == old(self).items@.len(),
                self.next_id == id + 1,
                self.history == old(self).history,
                f == (|p: ProbeView| deselected(p)),
                forall|j: int| 0 <= j < i ==> #[trigger] self.items@[j] == f(old(self).items@[j]),
                forall|j: int|
                    i <= j < self.items@.len() ==> #[trigger] self.items@[j] == old(self).items@[j],
            decreases self.items@.len() - i,
        {
            self.items[i].selected = false;
            i += 1;
        }
        self.items.push(p);
        proof {
            assert(self.items@.drop_last() =~= old(self).items@.map_values(f));
            assert(made.fresh(id, position_mm));
        }
        id
    }

    /// Remove a probe. Returns whether there was one.
    pub fn remove(&mut self, id: u32) -> (removed: bool)
        requires
            old(self).wf(),
        ensures
            final(self).wf(),
            final(self).next_id == old(self).next_id,
            final(self).history == old(self).history,
            removed == old(self).holds(id),
            !final(self).holds(id),
            removed ==> exists|p: int|
                0 <= p < old(self).items@.len() && #[trigger] old(self).items@[p].id == id && final(self).items@ == old(self).items@.remove(p),
            !removed ==> final(self).items@ == old(self).items@,
    {
        match self.position(id) {
            Some(p) => {
                let _gone: ProbeView = self.items.remove(p);
                proof {
                    assert(old(self).items@[p as int].id == id);
                    assert forall|j: int| 0 <= j < self.items@.len() implies #[trigger] self.items@[j].id
                        != id by {
                        assert(self.items@[j] == old(self).items@[if j < p {
                            j
                        } else {
                            j + 1
                        }]);
                    }
                }
                true
            },
            None => false,
        }
    }

    pub fn clear(&mut self)
        requires
            old(self).wf(),
        ensures
            final(self).wf(),
            final(self).items@.len() == 0,
            final(self).next_id == old(self).next_id,
            final(self).history == old(self).history,
    {
        self.items.clear();
    }

    /// Whether place `i` is the first one with this id.
    pub open spec fn first_with(&self, id: u32, i: int) -> bool {
        &&& 0 <= i < self.items@.len()
        &&& self.items@[i].id == id
        &&& forall|j: int| 0 <= j < i ==> #[trigger] self.items@[j].id != id
    }

    fn position(&self, id: u32) -> (p: Option<usize>)
        ensures
            match p {
                Some(i) => self.first_with(id, i as int),
                None => !self.holds(id),
            },
    {
        let mut i: usize = 0;
        while i < self.items.len()
            invariant
                i <= self.items@.len(),
                forall|j: int| 0 <= j < i ==> #[trigger] self.items@[j].id != id,
            decreases self.items@.len() - i,
        {
            if self.items[i].id == id {
                return Some(i);
            }
            i += 1;
        }
        None
    }

    pub fn get(&self, id: u32) -> (p: Option<&ProbeView>)
        ensures
            match p {
                Some(p) => exists|i: int| #[trigger]
                    self.first_with(id, i) && self.items@[i] == *p,
                None => !self.holds(id),
            },
    {
        match self.position(id) {
            Some(i) => Some(&self.items[i]),
            None => None,
        }
    }

    pub fn get_mut(&mut self, id: u32) -> (p: Option<&mut ProbeView>)
        ensures
            match p {
                Some(p) => exists|i: int| #[trigger]
                    old(self).first_with(id, i) && old(self).items@[i] == *p && final(self).items@
                        == old(self).items@.update(i, *final(p)),
                None => !old(self).holds(id) && final(self).items@ == old(self).items@,
            },
            final(self).next_id == old(self).next_id,
            final(self).history == old(self).history,
    {
        match self.position(id) {
            Some(i) => Some(&mut self.items[i]),
            None => None,
        }
    }

    pub fn items(&self) -> (i: &Vec<ProbeView>)
        ensures
            i@ == self.items@,
    {
        &self.items
    }

    pub fn items_mut(&mut self) -> (i: &mut [ProbeView])
        ensures
            i@ == old(self).items@,
            final(self).items@ == final(i)@,
            final(self).next_id == old(self).next_id,
            final(self).history == old(self).history,
    {
        self.items.as_mut_slice()
    }

    /// Select exactly one probe, or nothing.
    pub fn select(&mut self, id: Option<u32>)
        requires
            old(self).wf(),
        ensures
            final(self).wf(),
            final(self).next_id == old(self).next_id,
            final(self).history == old(self).history,
            final(self).items@ == old(self).items@.map_values(
                |p: ProbeView| ProbeView { selected: id == Some(p.id), ..p },
            ),
    {
        let ghost f = |p: ProbeView| ProbeView { selected: id == Some(p.id), ..p };
        let mut i: usize = 0;
        while i < self.items.len()
            invariant
                i <= self.items@.len(),
                self.items@.len() == old(self).items@.len(),
                self.next_id == old(self).next_id,
                self.history == old(self).history,
                f == (|p: ProbeView| ProbeView { selected: id == Some(p.id), ..p }),
                forall|j: int| 0 <= j < i ==> #[trigger] self.items@[j] == f(old(self).items@[j]),
                forall|j: int|
                    i <= j < self.items@.len() ==> #[trigger] self.items@[j] == old(self).items@[j],
            decreases self.items@.len() - i,
        {
            let s: bool = match id {
                Some(d) => self.items[i].id == d,
                None => false,
            };
            self.items[i].selected = s;
            i += 1;
        }
        proof {
            assert(self.items@ =~= old(self).items@.map_values(f));
        }
    }

    fn selected_position(&self) -> (p: Option<usize>)
        ensures
            match p {
                Some(i) => i < self.items@.len() && self.items@[i as int].selected && forall|j: int|
                    0 <= j < i ==> !(#[trigger] self.items@[j].selected),
                None => forall|i: int|
                    0 <= i < self.items@.len() ==> !(#[trigger] self.items@[i].selected),
            },
    {
        let mut i: usize = 0;
        while i < self.items.len()
            invariant
                i <= self.items@.len(),
                forall|j: int| 0 <= j < i ==> !(#[trigger] self.items@[j].selected),
            decreases self.items@.len() - i,
        {
            if self.items[i].selected {
                return Some(i);
            }
            i += 1;
        }
        None
    }

    /// The first selected probe.
    pub fn selected(&self) -> (p: Option<&ProbeView>)
        ensures
            match p {
                Some(p) => p.selected && exists|i: int|
                    0 <= i < self.items@.len() && #[trigger] self.items@[i] == *p && forall|j: int|
                        0 <= j < i ==> !(#[trigger] self.items@[j].selected),
                None => forall|i: int|
                    0 <= i < self.items@.len() ==> !(#[trigger] self.items@[i].selected),
            },
    {
        match self.selected_position() {
            Some(i) => Some(&self.items[i]),
            None => None,
        }
    }

    /// The first selected probe.
    pub fn selected_mut(&mut self) -> (p: Option<&mut ProbeView>)
        ensures
            match p {
                Some(p) => p.selected && exists|i: int|
                    0 <= i < old(self).items@.len() && #[trigger] old(self).items@[i] == *p && final(self).items@ == old(self).items@.update(i, *final(p)) && forall|j: int|
                        0 <= j < i ==> !(#[trigger] old(self).items@[j].selected),
                None => final(self).items@ == old(self).items@ && forall|i: int|
                    0 <= i < old(self).items@.len() ==> !(#[trigger] old(self).items@[i].selected),
            },
            final(self).next_id == old(self).next_id,
            final(self).history == old(self).history,
    {
        match self.selected_position() {
            Some(i) => Some(&mut self.items[i]),
            None => None,
        }
    }

    pub fn len(&self) -> (n: usize)
        ensures
            n == self.items@.len(),
    {
        self.items.len()
    }

    pub fn is_empty(&self) -> (r: bool)
        ensures
            r == (self.items@.len() == 0),
    {
        self.items.len() == 0
    }

    /// Append a sample to one probe's traces: the time, the pressure, the
    /// velocity and its magnitude.
    pub fn record(
        &mut self,
        id: u32,
        t: u64,
        pressure_pa: u64,
        velocity: Vec3,
        speed: u64,
        in_fluid: bool,
    )
        requires
            old(self).wf(),
        ensures
            final(self).wf(),
            final(self).next_id == old(self).next_id,
            final(self).history == old(self).history,
            !old(self).holds(id) ==> final(self).items@ == old(self).items@,
            forall|i: int|
                0 <= i < old(self).items@.len() && #[trigger] old(self).items@[i].id == id ==> {
                    let before = old(self).items@[i];
                    let after = final(self).items@[i];
                    let cap = if old(self).history < 2 {
                        2
                    } else {
                        old(self).history as int
                    };
                    &&& final(self).items@ == old(self).items@.update(i, after)
                    &&& after.pressure.x@ == newest(before.pressure.x@.push(t), cap)
                    &&& after.pressure.y@ == newest(before.pressure.y@.push(pressure_pa), cap)
                    &&& after.speed.x@ == newest(before.speed.x@.push(t), cap)
                    &&& after.speed.y@ == newest(before.speed.y@.push(speed), cap)
                    &&& after == (ProbeView {
                        in_fluid,
                        velocity_ms: velocity,
                        pressure: Trace {
                            x: after.pressure.x,
                            y: after.pressure.y,
                            ..before.pressure
                        },
                        speed: Trace { x: after.speed.x, y: after.speed.y, ..before.speed },
                        ..before
                    })
                },
    {
        let history: usize = self.history;
        match self.position(id) {
            Some(i) => {
                self.items[i].in_fluid = in_fluid;
                self.items[i].velocity_ms = velocity;
                self.items[i].pressure.push(t, pressure_pa, history);
                self.items[i].speed.push(t, speed, history);
                proof {
                    assert(self.items@ =~= old(self).items@.update(
                        i as int,
                        self.items@[i as int],
                    ));
                }
            },
            None => {},
        }
    }

    /// Drop every recorded sample, keeping the probes themselves.
    ///
    /// Called on a statistics reset: a probe trace that spans a boundary
    /// condition change shows a step the flow never took.
    pub fn clear_history(&mut self)
        requires
            old(self).wf(),
        ensures
            final(self).wf(),
            final(self).next_id == old(self).next_id,
            final(self).history == old(self).history,
            final(self).items@.len() == old(self).items@.len(),
            forall|i: int|
                0 <= i < old(self).items@.len() ==> (#[trigger] final(self).items@[i]).forgot(
                    old(self).items@[i],
                ),
    {
        let mut i: usize = 0;
        while i < self.items.len()
            invariant
                old(self).wf(),
                i <= self.items@.len(),
                self.items@.len() == old(self).items@.len(),
                self.next_id == old(self).next_id,
                self.history == old(self).history,
                forall|j: int|
                    0 <= j < i ==> (#[trigger] self.items@[j]).forgot(old(self).items@[j]),
                forall|j: int|
                    i <= j < self.items@.len() ==> #[trigger] self.items@[j] == old(self).items@[j],
            decreases self.items@.len() - i,
        {
            self.items[i].pressure.clear();
            self.items[i].speed.clear();
            i += 1;
        }
    }
}

impl ProbeView {
    /// Whether this is `before` with its history dropped and nothing else
    /// changed.
    pub open spec fn forgot(&self, before: ProbeView) -> bool {
        &&& self.pressure.x@.len() == 0
        &&& self.pressure.y@.len() == 0
        &&& self.speed.x@.len() == 0
        &&& self.speed.y@.len() == 0
        &&& *self == (ProbeView {
            pressure: Trace { x: self.pressure.x, y: self.pressure.y, ..before.pressure },
            speed: Trace { x: self.speed.x, y: self.speed.y, ..before.speed },
            ..before
        })
    }
}

/// A trace holds at most its capacity, and always the newest point.
pub proof fn history_is_bounded(s: Seq<u64>, x: u64, cap: int)
    requires
        cap >= 2,
    ensures
        newest(s.push(x), cap).len() <= cap,
        newest(s.push(x), cap).last() == x,
{
}

/// A vent's air is not its cells: changing only the speed or the aim leaves the
/// cells the same, where the placement is a number in every component.
pub proof fn air_does_not_move_cells(v: VentSettings, w: VentSettings)
    requires
        w == (VentSettings { speed_scale: w.speed_scale, aim_deg: w.aim_deg, ..v }),
        v.placement.same(&v.placement),
    ensures
        v.cells_match(&w),
{
}

/// Probe ids are never reused: what a probe has been called, no later probe is, even
/// once it is gone. Adding moves the counter past the id it gave out, and no operation
/// moves it back.
pub proof fn probe_ids_are_never_reused(earlier: Probes, later: Probes, id: u32)
    requires
        earlier.wf(),
        earlier.holds(id),
        later.next_id >= earlier.next_id,
    ensures
        later.upcoming() != id,
{
}

/// Two vents flag the same cells only where they stand in one place, turned one way, and
/// are of one size.
pub proof fn the_same_cells_mean_one_place(v: VentSettings, w: VentSettings)
    requires
        v.cells_match(&w),
    ensures
        v.width_mm == w.width_mm,
        v.height_mm == w.height_mm,
        value_of(v.placement.translation_mm.x) == value_of(w.placement.translation_mm.x),
        value_of(v.placement.translation_mm.y) == value_of(w.placement.translation_mm.y),
        value_of(v.placement.translation_mm.z) == value_of(w.placement.translation_mm.z),
        value_of(v.placement.rotation.x) == value_of(w.placement.rotation.x),
        value_of(v.placement.rotation.y) == value_of(w.placement.rotation.y),
        value_of(v.placement.rotation.z) == value_of(w.placement.rotation.z),
        value_of(v.placement.rotation.w) == value_of(w.placement.rotation.w),
        value_of(v.placement.scale) == value_of(w.placement.scale),
{
}

/// An infinite sum stays what it is.
#[verifier::spinoff_prover]
proof fn lemma_infinite_sum(s: u32, c: u32, r: u32)
    requires
        !nan32(s),
        !finite32(s),
        finite32(c),
        is_sum(s, c, r),
    ensures
        r == s,
{
}

proof fn lemma_three_up(a: u32, b: u32, s: u32, c: u32, r: u32)
    requires
        finite32(a),
        finite32(c),
        !nan32(b),
        is_sum(a, b, s),
        is_sum(s, c, r),
    ensures
        le32(0, b) && le32(0, c) ==> le32(a, r),
        le32(b, 0) && le32(c, 0) ==> le32(r, a),
{
    sums_keep_to_their_side(a, b, s);
    if finite32(s) {
        sums_keep_to_their_side(s, c, r);
    } else if !nan32(s) {
        lemma_infinite_sum(s, c, r);
    }
}

/// A corner lies on the side of the middle that it is gone toward, along each axis.
pub proof fn a_corner_lies_where_it_is_gone_toward(a: u32, b: u32, c: u32, r: u32)
    requires
        finite32(a),
        finite32(b),
        finite32(c),
        is_sum_of_three(a, b, c, r),
    ensures
        le32(0, b) && le32(0, c) ==> le32(a, r),
        le32(b, 0) && le32(c, 0) ==> le32(r, a),
{
    let s = choose|s: u32| #[trigger] is_sum(a, b, s) && is_sum(s, c, r);
    lemma_three_up(a, b, s, c, r);
}

/// A corner is reached axis by axis: what is gone along one moves it along that one alone.
pub proof fn corners_are_reached_axis_by_axis(m: Vec3, b: Vec3, c: Vec3, r: Vec3)
    requires
        is_corner(m, b, c, r),
    ensures
        forall|a: int|
            0 <= a < 3 ==> is_sum_of_three(m.axis(a), b.axis(a), c.axis(a), #[trigger] r.axis(a)),
        forall|a: int|
            0 <= a < 3 ==> #[trigger] opposite(b).axis(a) == negated32(b.axis(a)),
{
}

/// A probe that forgets its history stays where it is, under its own id, and its traces keep
/// their names; only the points are gone.
pub proof fn forgetting_keeps_the_probe(before: ProbeView, after: ProbeView)
    requires
        after.forgot(before),
    ensures
        after.id == before.id,
        after.position_mm == before.position_mm,
        after.selected == before.selected,
        after.pressure.name == before.pressure.name,
        after.speed.name == before.speed.name,
        after.pressure.x@.len() == 0 && after.pressure.y@.len() == 0,
        after.speed.x@.len() == 0 && after.speed.y@.len() == 0,
        deselected(after) == (ProbeView { selected: false, ..after }),
{
}

} // verus!
