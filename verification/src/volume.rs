//! The volume raymarching pass: its settings, its targets and its dispatch.
//!
//! Runs at a configurable fraction of the output resolution (half by default).
//! Opacities coming out of the transfer function are defined *per reference
//! step*, and the reference step is one derived voxel; the raymarch takes
//! whatever step it likes and corrects for it, so the image is independent of
//! the step scale.
use vstd::prelude::*;
use crate::config::{Vec3, ONE};
use crate::float_order::{clamp32, clamped32, greater32, lt32, max32};
use crate::solver::{ceil_div, div_ceil, whole_groups_just_cover, Vec4};

verus! {

/// User-facing raymarch controls. Floating-point controls are `f32` bit patterns.
#[derive(Clone, Copy, Debug, PartialEq, Eq, Structural)]
pub struct VolumeSettings {
    /// Raymarch step as a fraction of a derived voxel. 1.0 is the sane default:
    /// the field is already band-limited to the voxel grid, so stepping finer
    /// costs time and adds nothing the transfer function can see.
    pub step_scale: u32,
    /// Extra opacity multiplier on top of the baked LUT.
    pub density: u32,
    /// Hard cap on marching iterations, as a backstop against a degenerate ray.
    pub max_steps: u32,
    /// Gradient-based shading strength, 0 = pure emission-absorption.
    pub shading: u32,
    pub specular: u32,
    pub ambient: Vec3,
    /// Direction *toward* the key light.
    pub light_dir: Vec3,
    /// Turn empty-space skipping off. Only useful for verifying that it is
    /// invisible, which it must be.
    pub skip_empty_space: bool,
    /// Accumulated alpha at which the volume's "front" is recorded.
    pub front_alpha: u32,
    /// Render resolution as a fraction of the output. 2 = half res.
    pub resolution_divisor: u32,
}

/// The settings to start from.
pub open spec fn default_settings() -> VolumeSettings {
    VolumeSettings {
        step_scale: ONE,
        density: ONE,
        max_steps: 2048,
        shading: 0x3f40_0000,
        specular: 0x3eb3_3333,
        ambient: Vec3 { x: 0x3e23_d70a, y: 0x3e38_51ec, z: 0x3e61_47ae },
        light_dir: Vec3 { x: 0x3ee6_ee88, y: 0x3f40_7172, z: 0x3ef6_53c4 },
        skip_empty_space: true,
        front_alpha: 0x3dcc_cccd,
        resolution_divisor: 2,
    }
}

impl Default for VolumeSettings {
    fn default() -> (s: Self)
        ensures
            s == default_settings(),
    {
        VolumeSettings {
            step_scale: ONE,
            density: ONE,
            max_steps: 2048,
            shading: 0x3f40_0000,
            specular: 0x3eb3_3333,
            ambient: Vec3::new(0x3e23_d70a, 0x3e38_51ec, 0x3e61_47ae),
            light_dir: Vec3::new(0x3ee6_ee88, 0x3f40_7172, 0x3ef6_53c4),
            skip_empty_space: true,
            front_alpha: 0x3dcc_cccd,
            resolution_divisor: 2,
        }
    }
}

/// What the settings become on their way to the shader.
#[derive(Clone, Copy, Debug, PartialEq, Eq, Structural)]
pub struct MarchUniform {
    pub step_scale: u32,
    pub density: u32,
    pub max_steps: u32,
    pub skip_enabled: u32,
    pub front_alpha: u32,
}

/// A signed distance field of the solid geometry, where it is. Optional, and purely an
/// accelerator.
#[derive(Clone, Copy, Debug, PartialEq, Eq, Structural)]
pub struct SdfPlace {
    /// World-space corner of the field, mm.
    pub min_mm: Vec3,
    /// World-space size of the field, mm.
    pub size_mm: Vec3,
    /// Offset applied to the sampled distance, mm.
    pub surface_offset_mm: u32,
}

/// The distance field as the shader gets it: corner, one over its size with the surface
/// offset behind it, and whether there is one at all.
#[derive(Clone, Copy, Debug, PartialEq, Eq, Structural)]
pub struct SdfUniform {
    pub min_mm: Vec4,
    pub inv_size: Vec4,
    pub present: u32,
}

/// Bit pattern of the smallest side a distance field counts with, a millionth of a
/// millimetre.
pub const LEAST_SIDE: u32 = 0x3586_37bd;

/// Whether `u` is what the shader gets of a distance field, or of none.
pub open spec fn is_sdf_uniform<R: Fn(u32) -> u32>(
    sdf: Option<SdfPlace>,
    reciprocal: R,
    u: SdfUniform,
) -> bool {
    match sdf {
        Some(s) => {
            &&& u.min_mm == Vec4 { x: s.min_mm.x, y: s.min_mm.y, z: s.min_mm.z, w: 0 }
            &&& reciprocal.ensures((greater32(s.size_mm.x, LEAST_SIDE),), u.inv_size.x)
            &&& reciprocal.ensures((greater32(s.size_mm.y, LEAST_SIDE),), u.inv_size.y)
            &&& reciprocal.ensures((greater32(s.size_mm.z, LEAST_SIDE),), u.inv_size.z)
            &&& u.inv_size.w == s.surface_offset_mm
            &&& u.present == 1
        },
        None => {
            &&& u.min_mm == Vec4 { x: 0, y: 0, z: 0, w: 0 }
            &&& u.inv_size == Vec4 { x: 0, y: 0, z: 0, w: 0 }
            &&& u.present == 0
        },
    }
}

/// What the shader gets of a distance field, or of none.
pub fn sdf_uniform<R: Fn(u32) -> u32>(sdf: Option<SdfPlace>, reciprocal: &R) -> (u: SdfUniform)
    requires
        forall|x: u32| #[trigger] reciprocal.requires((x,)),
    ensures
        is_sdf_uniform(sdf, *reciprocal, u),
{
    match sdf {
        Some(s) => SdfUniform {
            min_mm: Vec4 { x: s.min_mm.x, y: s.min_mm.y, z: s.min_mm.z, w: 0 },
            inv_size: Vec4 {
                x: reciprocal(max32(s.size_mm.x, LEAST_SIDE)),
                y: reciprocal(max32(s.size_mm.y, LEAST_SIDE)),
                z: reciprocal(max32(s.size_mm.z, LEAST_SIDE)),
                w: s.surface_offset_mm,
            },
            present: 1,
        },
        None => SdfUniform {
            min_mm: Vec4 { x: 0, y: 0, z: 0, w: 0 },
            inv_size: Vec4 { x: 0, y: 0, z: 0, w: 0 },
            present: 0,
        },
    }
}

/// Threads per workgroup of the raymarch, along each axis of the target.
pub const WORKGROUP: u32 = 8;

/// One side of a target that is `1/divisor` of the output: at least one pixel,
/// and a divisor of zero counts as one.
pub open spec fn target_side(side: int, divisor: int) -> int {
    let d = if divisor < 1 {
        1
    } else {
        divisor
    };
    let w = ceil_div(side, d);
    if w < 1 {
        1
    } else {
        w
    }
}

fn target_side_of(side: u32, divisor: u32) -> (w: u32)
    ensures
        w == target_side(side as int, divisor as int),
        w >= 1,
{
    let d: u32 = if divisor < 1 {
        1
    } else {
        divisor
    };
    let w: u32 = div_ceil(side, d);
    if w < 1 {
        1
    } else {
        w
    }
}

/// The raymarch's settings and the size of its targets.
#[derive(Clone, Copy, Debug, PartialEq, Eq, Structural)]
pub struct VolumeRenderer {
    pub settings: VolumeSettings,
    pub width: u32,
    pub height: u32,
}

impl VolumeRenderer {
    /// Whether the targets are sized for an output of the given size.
    pub open spec fn sized_for(&self, width: u32, height: u32) -> bool {
        &&& self.width == target_side(width as int, self.settings.resolution_divisor as int)
        &&& self.height == target_side(height as int, self.settings.resolution_divisor as int)
    }

    pub fn new(width: u32, height: u32, settings: VolumeSettings) -> (r: Self)
        ensures
            r.settings == settings,
            r.sized_for(width, height),
    {
        VolumeRenderer {
            settings,
            width: target_side_of(width, settings.resolution_divisor),
            height: target_side_of(height, settings.resolution_divisor),
        }
    }

    /// Size the targets for a new output.
    pub fn resize(&mut self, width: u32, height: u32)
        ensures
            final(self).settings == old(self).settings,
            final(self).sized_for(width, height),
    {
        self.width = target_side_of(width, self.settings.resolution_divisor);
        self.height = target_side_of(height, self.settings.resolution_divisor);
    }

    pub fn settings(&self) -> (s: &VolumeSettings)
        ensures
            *s == self.settings,
    {
        &self.settings
    }

    /// Apply new settings. Returns true when the targets had to be reallocated,
    /// which the caller must treat as a history reset.
    pub fn set_settings(&mut self, settings: VolumeSettings, width: u32, height: u32) -> (resized:
        bool)
        ensures
            resized == (settings.resolution_divisor != old(self).settings.resolution_divisor),
            final(self).settings == settings,
            resized ==> final(self).sized_for(width, height),
            !resized ==> final(self).width == old(self).width && final(self).height == old(
                self,
            ).height,
            old(self).sized_for(width, height) ==> final(self).sized_for(width, height),
    {
        let resized: bool = settings.resolution_divisor != self.settings.resolution_divisor;
        self.settings = settings;
        if resized {
            self.resize(width, height);
        }
        resized
    }

    pub fn size(&self) -> (s: (u32, u32))
        ensures
            s == (self.width, self.height),
    {
        (self.width, self.height)
    }

    /// The settings as the shader gets them: the step scale held to `[0.05, 8]`,
    /// the iteration cap to `[1, 65536]` and the front threshold to
    /// `[0.001, 0.999]`.
    pub fn march_uniform(&self) -> (u: MarchUniform)
        ensures
            u.step_scale == clamped32(self.settings.step_scale, 0x3d4c_cccd, 0x4100_0000),
            u.density == self.settings.density,
            u.max_steps == (if self.settings.max_steps < 1 {
                1u32
            } else if self.settings.max_steps > 65536 {
                65536u32
            } else {
                self.settings.max_steps
            }),
            u.skip_enabled == (if self.settings.skip_empty_space {
                1u32
            } else {
                0u32
            }),
            u.front_alpha == clamped32(self.settings.front_alpha, 0x3a83_126f, 0x3f7f_be77),
    {
        MarchUniform {
            step_scale: clamp32(self.settings.step_scale, 0x3d4c_cccd, 0x4100_0000),
            density: self.settings.density,
            max_steps: if self.settings.max_steps < 1 {
                1
            } else if self.settings.max_steps > 65536 {
                65536
            } else {
                self.settings.max_steps
            },
            skip_enabled: if self.settings.skip_empty_space {
                1
            } else {
                0
            },
            front_alpha: clamp32(self.settings.front_alpha, 0x3a83_126f, 0x3f7f_be77),
        }
    }

    /// Workgroups that cover the targets.
    pub fn dispatch(&self) -> (d: (u32, u32))
        ensures
            d.0 == ceil_div(self.width as int, WORKGROUP as int),
            d.1 == ceil_div(self.height as int, WORKGROUP as int),
    {
        (div_ceil(self.width, WORKGROUP), div_ceil(self.height, WORKGROUP))
    }
}

/// A target is as small as it may be: so many pixels of it cover a side of the output, one
/// fewer does not, and there is always a pixel.
pub proof fn the_target_just_covers_the_output(side: int, divisor: int)
    requires
        side >= 0,
        divisor >= 0,
    ensures
        ({
            let d = if divisor == 0 {
                1
            } else {
                divisor
            };
            let w = target_side(side, divisor);
            &&& w >= 1
            &&& w * d >= side
            &&& w > 1 ==> (w - 1) * d < side
        }),
{
    let d = if divisor == 0 {
        1
    } else {
        divisor
    };
    let w = ceil_div(side, d);
    whole_groups_just_cover(side, d);
    if w < 1 {
        assert(w * d <= 0) by (nonlinear_arith)
            requires
                w < 1,
                d >= 1,
        ;
    }
}

/// A shader is told of a distance field exactly where there is one, with its own corner and
/// offset, and a side too small to divide by counts as the smallest one.
pub proof fn the_shader_gets_the_field_there_is<R: Fn(u32) -> u32>(
    sdf: Option<SdfPlace>,
    reciprocal: R,
    u: SdfUniform,
)
    requires
        is_sdf_uniform(sdf, reciprocal, u),
    ensures
        u.present == 0 || u.present == 1,
        u.present == 1 <==> sdf is Some,
        sdf matches Some(s) ==> {
            &&& u.min_mm.x == s.min_mm.x && u.min_mm.y == s.min_mm.y && u.min_mm.z == s.min_mm.z
            &&& u.inv_size.w == s.surface_offset_mm
            &&& lt32(LEAST_SIDE, s.size_mm.x) ==> reciprocal.ensures((s.size_mm.x,), u.inv_size.x)
            &&& lt32(LEAST_SIDE, s.size_mm.y) ==> reciprocal.ensures((s.size_mm.y,), u.inv_size.y)
            &&& lt32(LEAST_SIDE, s.size_mm.z) ==> reciprocal.ensures((s.size_mm.z,), u.inv_size.z)
            &&& !lt32(LEAST_SIDE, s.size_mm.x) ==> reciprocal.ensures((LEAST_SIDE,), u.inv_size.x)
            &&& !lt32(LEAST_SIDE, s.size_mm.y) ==> reciprocal.ensures((LEAST_SIDE,), u.inv_size.y)
            &&& !lt32(LEAST_SIDE, s.size_mm.z) ==> reciprocal.ensures((LEAST_SIDE,), u.inv_size.z)
        },
{
}

} // verus!
