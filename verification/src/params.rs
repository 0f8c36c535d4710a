//! The parameters the user can change, and the change detection that decides
//! whether a change resets the statistics or rebuilds the solver.
//!
//! # Why a hash and not an equality
//!
//! The question the app asks every frame is not "did anything change" but
//! "**what kind** of change was that". Three answers matter and they cost very
//! different amounts:
//!
//! | change | cost | consequence |
//! |---|---|---|
//! | inlet velocity, tau, LES constant | a uniform write | hot-applied, statistics reset |
//! | inlet/outlet swap, geometry, dx | revoxelise / reallocate | solver rebuilt, statistics reset |
//! | colormap, layer visibility, camera | nothing | statistics untouched |
//!
//! Splitting the parameters into two hashes, one for "the boundary conditions
//! the statistics are conditioned on" and one for "the things baked into the
//! shader", makes that a two-comparison question.
//!
//! The reason this matters so much: **silently averaging across a boundary
//! condition change produces a confidently wrong number.** Half the window at
//! 3 m/s and half at 5 m/s yields a pressure drop that corresponds to no
//! operating point at all, with a small error bar, because the two halves are
//! each internally consistent.
//!
//! Floating-point parameters are bit patterns.
use std::collections::hash_map::DefaultHasher;
use std::hash::Hasher;
use vstd::prelude::*;
use vstd::bytes::{spec_u64_to_le_bytes, u64_to_le_bytes};
use vstd::std_specs::hash::DefaultHasherAdditionalSpecFns;
use crate::binary32::{adding_zero_changes_nothing, is_sum, sum, value_of};
use crate::config::{Vec3, STABLE_SMAGORINSKY};
use crate::float_order::{
    eq32, equal32, finite32, is_finite32, is_nan32, is_nan64, nan32, nan64,
};
use crate::view::{margins_equal, same_margins, ResetCause};

verus! {

/// Everything the user can turn that the solver sees. Millimetres and SI.
#[derive(Clone, Copy, Debug)]
pub struct SimParams {
    /// Inlet bulk velocity, m/s. The slider the user spends the session on.
    pub inlet_velocity_ms: u32,
    /// Which detected mouth is the inlet.
    pub inlet_mouth: usize,
    /// Which mouth the outflow face is taken from. `None` picks the largest
    /// mouth that is not supplying air.
    pub outlet_mouth: Option<usize>,
    /// Off-normal tilt of the inlet air, degrees, toward the inlet mouth's two
    /// in-plane lattice axes. In the part's frame, so the solver never needs the
    /// install pose.
    pub inlet_tilt_deg: [u32; 2],
    /// Cell size, mm. Changing this reallocates everything.
    pub dx_mm: u32,
    /// Lattice velocity. 0.05 for pressure accuracy, 0.1 for speed.
    pub u_lb: u64,
    /// Fluid density, kg/m^3.
    pub rho: u64,
    /// Kinematic viscosity, m^2/s.
    pub nu: u64,
    /// Smagorinsky constant; 0 disables the LES model. The default is the
    /// **stability** value, not the accuracy one.
    pub smagorinsky_c: u32,
    /// TRT magic parameter.
    pub trt_lambda: u32,
    /// Sponge layer thickness, cells.
    pub sponge_cells: u32,
    /// Bumped by the app whenever the geometry changes (a mesh loaded, moved,
    /// hidden).
    pub geometry_generation: u64,
    /// The simulated box's six margins beyond the duct, mm, as
    /// `[-x, +x, -y, +y, -z, +z]` in the part's frame. `None` leaves them to
    /// the domain rules. Changing this reallocates everything.
    pub domain_mm: Option<[u32; 6]>,
    /// Bumped by the app when a vent's air changes (speed or aim) without its
    /// plane moving: a uniform write, but the statistics are conditioned on it.
    pub vent_generation: u64,
    /// Bumped when the velocity set, storage precision or collision operator
    /// changes. Those are shader defines, so they force a rebuild.
    pub shader_generation: u64,
}

/// An `f64` as a hash sees it: its bit pattern, with every NaN folded to one.
///
/// The folding matters because a NaN slider value would otherwise never compare
/// equal to itself and would reset the statistics on every single frame.
pub open spec fn folded64(bits: u64) -> u64 {
    if nan64(bits) {
        u64::MAX
    } else {
        bits
    }
}

/// An `f32` as a hash sees it.
pub open spec fn folded32(bits: u32) -> u64 {
    if nan32(bits) {
        u64::MAX
    } else {
        bits as u64
    }
}

fn fold64(bits: u64) -> (r: u64)
    ensures
        r == folded64(bits),
{
    if is_nan64(bits) {
        u64::MAX
    } else {
        bits
    }
}

fn fold32(bits: u32) -> (r: u64)
    ensures
        r == folded32(bits),
{
    if is_nan32(bits) {
        u64::MAX
    } else {
        bits as u64
    }
}

/// A word of the hash per field.
pub open spec fn as_writes(words: Seq<u64>) -> Seq<Seq<u8>> {
    words.map_values(|w: u64| spec_u64_to_le_bytes(w))
}

/// The hash of a list of words.
pub open spec fn hash_of(words: Seq<u64>) -> u64 {
    DefaultHasher::spec_finish(as_writes(words))
}

fn hash_words(words: &Vec<u64>) -> (h: u64)
    ensures
        h == hash_of(words@),
{
    let mut h: DefaultHasher = DefaultHasher::new();
    let mut i: usize = 0;
    proof {
        assert(h@ =~= as_writes(words@.take(0)));
    }
    while i < words.len()
        invariant
            i <= words@.len(),
            h@ == as_writes(words@.take(i as int)),
        decreases words@.len() - i,
    {
        let bytes: Vec<u8> = u64_to_le_bytes(words[i]);
        h.write(bytes.as_slice());
        i += 1;
        proof {
            assert(h@ =~= as_writes(words@.take(i as int)));
        }
    }
    proof {
        assert(words@.take(i as int) =~= words@);
    }
    h.finish()
}

/// Which mouth the outflow is taken from, as two words.
pub open spec fn outlet_words(outlet: Option<usize>) -> Seq<u64> {
    match outlet {
        Some(m) => seq![1u64, m as u64],
        None => seq![0u64, 0u64],
    }
}

/// The box margins, as a tag and six words.
pub open spec fn margin_words(m: Option<[u32; 6]>) -> Seq<u64> {
    match m {
        Some(m) => seq![
            1u64,
            folded32(m@[0]),
            folded32(m@[1]),
            folded32(m@[2]),
            folded32(m@[3]),
            folded32(m@[4]),
            folded32(m@[5]),
        ],
        None => seq![0u64, 0u64, 0u64, 0u64, 0u64, 0u64, 0u64],
    }
}

fn push_margins(words: &mut Vec<u64>, m: Option<[u32; 6]>)
    ensures
        final(words)@ == old(words)@ + margin_words(m),
{
    match m {
        Some(m) => {
            words.push(1);
            words.push(fold32(m[0]));
            words.push(fold32(m[1]));
            words.push(fold32(m[2]));
            words.push(fold32(m[3]));
            words.push(fold32(m[4]));
            words.push(fold32(m[5]));
        },
        None => {
            words.push(0);
            words.push(0);
            words.push(0);
            words.push(0);
            words.push(0);
            words.push(0);
            words.push(0);
        },
    }
    proof {
        assert(words@ =~= old(words)@ + margin_words(m));
    }
}

fn push_outlet(words: &mut Vec<u64>, outlet: Option<usize>)
    ensures
        final(words)@ == old(words)@ + outlet_words(outlet),
{
    match outlet {
        Some(m) => {
            words.push(1);
            words.push(m as u64);
        },
        None => {
            words.push(0);
            words.push(0);
        },
    }
    proof {
        assert(words@ =~= old(words)@ + outlet_words(outlet));
    }
}

impl SimParams {
    /// The parameters the app opens with, for a fluid of the given density and
    /// kinematic viscosity: 3 m/s, 0.75 mm cells, a lattice velocity of 0.05.
    pub fn new(rho: u64, nu: u64) -> (p: Self)
        ensures
            p == (SimParams {
                inlet_velocity_ms: 0x4040_0000,
                inlet_mouth: 0,
                outlet_mouth: None,
                inlet_tilt_deg: [0, 0],
                dx_mm: 0x3f40_0000,
                u_lb: 0x3fa9_9999_9999_999a,
                rho,
                nu,
                smagorinsky_c: STABLE_SMAGORINSKY,
                trt_lambda: 0x3e40_0000,
                sponge_cells: 20,
                geometry_generation: 0,
                domain_mm: None,
                vent_generation: 0,
                shader_generation: 0,
            }),
    {
        SimParams {
            inlet_velocity_ms: 0x4040_0000,
            inlet_mouth: 0,
            outlet_mouth: None,
            inlet_tilt_deg: [0, 0],
            dx_mm: 0x3f40_0000,
            u_lb: 0x3fa9_9999_9999_999a,
            rho,
            nu,
            smagorinsky_c: STABLE_SMAGORINSKY,
            trt_lambda: 0x3e40_0000,
            sponge_cells: 20,
            geometry_generation: 0,
            domain_mm: None,
            vent_generation: 0,
            shader_generation: 0,
        }
    }

    /// What can only change by a rebuild.
    pub open spec fn rebuild_words(&self) -> Seq<u64> {
        seq![
            folded32(self.dx_mm),
            folded64(self.u_lb),
            folded64(self.rho),
            folded64(self.nu),
            self.inlet_mouth as u64,
            self.sponge_cells as u64,
            self.geometry_generation,
            self.shader_generation,
        ] + outlet_words(self.outlet_mouth) + margin_words(self.domain_mm)
    }

    /// What can change while the solver runs.
    pub open spec fn hot_words(&self) -> Seq<u64> {
        seq![
            folded32(self.inlet_velocity_ms),
            folded32(self.inlet_tilt_deg@[0]),
            folded32(self.inlet_tilt_deg@[1]),
            folded32(self.smagorinsky_c),
            folded32(self.trt_lambda),
            self.vent_generation,
        ]
    }

    /// Everything the accumulated statistics are conditioned on.
    pub open spec fn statistics_words(&self) -> Seq<u64> {
        self.rebuild_words() + self.hot_words()
    }

    fn rebuild_list(&self) -> (words: Vec<u64>)
        ensures
            words@ == self.rebuild_words(),
    {
        let mut words: Vec<u64> = Vec::new();
        words.push(fold32(self.dx_mm));
        words.push(fold64(self.u_lb));
        words.push(fold64(self.rho));
        words.push(fold64(self.nu));
        words.push(self.inlet_mouth as u64);
        words.push(self.sponge_cells as u64);
        words.push(self.geometry_generation);
        words.push(self.shader_generation);
        proof {
            assert(words@ =~= seq![
                folded32(self.dx_mm),
                folded64(self.u_lb),
                folded64(self.rho),
                folded64(self.nu),
                self.inlet_mouth as u64,
                self.sponge_cells as u64,
                self.geometry_generation,
                self.shader_generation,
            ]);
        }
        push_outlet(&mut words, self.outlet_mouth);
        push_margins(&mut words, self.domain_mm);
        words
    }

    /// Hash of everything the accumulated statistics are conditioned on.
    ///
    /// If this changes, every averaged number in the app now describes a
    /// different physical problem and must be thrown away.
    pub fn statistics_hash(&self) -> (h: u64)
        ensures
            h == hash_of(self.statistics_words()),
    {
        let mut words: Vec<u64> = self.rebuild_list();
        words.push(fold32(self.inlet_velocity_ms));
        words.push(fold32(self.inlet_tilt_deg[0]));
        words.push(fold32(self.inlet_tilt_deg[1]));
        words.push(fold32(self.smagorinsky_c));
        words.push(fold32(self.trt_lambda));
        words.push(self.vent_generation);
        proof {
            assert(words@ =~= self.statistics_words());
        }
        hash_words(&words)
    }

    /// Hash of everything that cannot be hot-applied.
    ///
    /// Strictly a subset of [`Self::statistics_hash`]'s inputs: anything that
    /// forces a rebuild also invalidates the statistics, but not the reverse.
    pub fn rebuild_hash(&self) -> (h: u64)
        ensures
            h == hash_of(self.rebuild_words()),
    {
        let words: Vec<u64> = self.rebuild_list();
        hash_words(&words)
    }

    /// Whether `d` is the direction the inlet blows at a mouth with the inward normal `n`
    /// on a lattice axis: the normal itself without a tilt, or with one whose tangents
    /// are no numbers, and else the normal with the capped tangents put on the two axes
    /// in the plane.
    pub open spec fn blows<
        T: Fn(u32, u32) -> (u32, u32),
        C: Fn(u32, u32) -> (u32, u32),
    >(&self, n: Vec3, axis: usize, tangents: T, cap: C, d: Vec3) -> bool {
        let a = self.inlet_tilt_deg@[0];
        let b = self.inlet_tilt_deg@[1];
        if eq32(a, 0) && eq32(b, 0) {
            d == n
        } else {
            exists|t: (u32, u32)| #[trigger]
                tangents.ensures((a, b), t) && if !finite32(t.0) || !finite32(t.1) {
                    d == n
                } else {
                    exists|c: (u32, u32)| #[trigger]
                        cap.ensures(t, c) && turned(n, axis as int, c, d)
                }
        }
    }

    /// The direction the inlet blows, lattice frame, for a mouth with inward unit normal
    /// `n` on lattice axis `axis`.
    ///
    /// The **normal component is held**, so the velocity *through* the mouth is the same
    /// as for an untilted inlet: a louver turns the air, it does not change what the fan
    /// pushes. The price is a higher speed, which is why the angle is capped.
    ///
    /// `tangents` are those of the two angles, in degrees; `cap` shortens a pair of them
    /// that is longer than the largest tilt's.
    #[verifier::spinoff_prover]
    #[verifier::rlimit(60)]
    pub fn inlet_direction<
        T: Fn(u32, u32) -> (u32, u32),
        C: Fn(u32, u32) -> (u32, u32),
    >(&self, n: Vec3, axis: usize, tangents: &T, cap: &C) -> (d: Vec3)
        requires
            forall|a: u32, b: u32| #[trigger] tangents.requires((a, b)),
            forall|a: u32, b: u32| #[trigger] cap.requires((a, b)),
        ensures
            self.blows(n, axis, *tangents, *cap, d),
    {
        let a: u32 = self.inlet_tilt_deg[0];
        let b: u32 = self.inlet_tilt_deg[1];
        if equal32(a, 0) && equal32(b, 0) {
            return n;
        }
        let t: (u32, u32) = tangents(a, b);
        if !is_finite32(t.0) || !is_finite32(t.1) {
            return n;
        }
        let c: (u32, u32) = cap(t.0, t.1);
        assert(cap.ensures(t, c));
        let d: Vec3 = turn(n, axis, c);
        d
    }

    /// The most specific reason `self` differs from `prev`.
    pub open spec fn cause_of(&self, prev: &SimParams) -> Option<ResetCause> {
        if self.shader_generation != prev.shader_generation {
            Some(ResetCause::SolverRestarted)
        } else if self.dx_mm != prev.dx_mm || self.u_lb != prev.u_lb {
            Some(ResetCause::ResolutionChanged)
        } else if self.geometry_generation != prev.geometry_generation {
            Some(ResetCause::GeometryChanged)
        } else if !same_margins(self.domain_mm, prev.domain_mm) {
            Some(ResetCause::DomainChanged)
        } else if self.inlet_mouth != prev.inlet_mouth || self.outlet_mouth != prev.outlet_mouth {
            Some(ResetCause::InletOutletSwapped)
        } else if self.rho != prev.rho || self.nu != prev.nu {
            Some(ResetCause::FluidChanged)
        } else if self.inlet_velocity_ms != prev.inlet_velocity_ms {
            Some(ResetCause::InletVelocity)
        } else if self.inlet_tilt_deg@[0] != prev.inlet_tilt_deg@[0] || self.inlet_tilt_deg@[1]
            != prev.inlet_tilt_deg@[1] {
            Some(ResetCause::InletAngle)
        } else if self.vent_generation != prev.vent_generation {
            Some(ResetCause::VentChanged)
        } else if self.smagorinsky_c != prev.smagorinsky_c || self.trt_lambda != prev.trt_lambda
            || self.sponge_cells != prev.sponge_cells {
            Some(ResetCause::SolverRestarted)
        } else {
            None
        }
    }

    /// The most specific reason `self` differs from `prev`, for the toast.
    ///
    /// Ordered by how surprising the consequence is, not by how big the change
    /// is: a resolution change is checked before a velocity change because when
    /// both moved at once, "grid resolution changed" is the sentence that
    /// explains the ten-second stall the user just sat through.
    pub fn reset_cause(&self, prev: &SimParams) -> (c: Option<ResetCause>)
        ensures
            c == self.cause_of(prev),
    {
        if self.shader_generation != prev.shader_generation {
            return Some(ResetCause::SolverRestarted);
        }
        if self.dx_mm != prev.dx_mm || self.u_lb != prev.u_lb {
            return Some(ResetCause::ResolutionChanged);
        }
        if self.geometry_generation != prev.geometry_generation {
            return Some(ResetCause::GeometryChanged);
        }
        if !margins_equal(self.domain_mm, prev.domain_mm) {
            return Some(ResetCause::DomainChanged);
        }
        let same_outlet: bool = match (self.outlet_mouth, prev.outlet_mouth) {
            (Some(a), Some(b)) => a == b,
            (None, None) => true,
            _ => false,
        };
        if self.inlet_mouth != prev.inlet_mouth || !same_outlet {
            return Some(ResetCause::InletOutletSwapped);
        }
        if self.rho != prev.rho || self.nu != prev.nu {
            return Some(ResetCause::FluidChanged);
        }
        if self.inlet_velocity_ms != prev.inlet_velocity_ms {
            return Some(ResetCause::InletVelocity);
        }
        if self.inlet_tilt_deg[0] != prev.inlet_tilt_deg[0] || self.inlet_tilt_deg[1]
            != prev.inlet_tilt_deg[1] {
            return Some(ResetCause::InletAngle);
        }
        if self.vent_generation != prev.vent_generation {
            return Some(ResetCause::VentChanged);
        }
        if self.smagorinsky_c != prev.smagorinsky_c || self.trt_lambda != prev.trt_lambda
            || self.sponge_cells != prev.sponge_cells {
            return Some(ResetCause::SolverRestarted);
        }
        None
    }
}

/// Whether `d` is `n` with a pair of tangents put on the two axes that follow `axis`.
pub open spec fn turned(n: Vec3, axis: int, c: (u32, u32), d: Vec3) -> bool {
    let e1 = (axis + 1) % 3;
    let e2 = (axis + 2) % 3;
    &&& d.axis(axis % 3) == n.axis(axis % 3)
    &&& is_sum(n.axis(e1), c.0, d.axis(e1))
    &&& is_sum(n.axis(e2), c.1, d.axis(e2))
}

#[verifier::spinoff_prover]
#[verifier::rlimit(60)]
fn turn(n: Vec3, axis: usize, c: (u32, u32)) -> (d: Vec3)
    ensures
        turned(n, axis as int, c, d),
{
    let k: usize = axis % 3;
    if k == 0 {
        let y: u32 = sum(n.y, c.0);
        let z: u32 = sum(n.z, c.1);
        Vec3::new(n.x, y, z)
    } else if k == 1 {
        let z: u32 = sum(n.z, c.0);
        let x: u32 = sum(n.x, c.1);
        Vec3::new(x, n.y, z)
    } else {
        let x: u32 = sum(n.x, c.0);
        let y: u32 = sum(n.y, c.1);
        Vec3::new(x, y, n.z)
    }
}

/// What the frame loop must do about a parameter change.
#[derive(Clone, Copy, Debug, PartialEq, Eq, Structural)]
pub struct ParamChange {
    /// Uniform data changed; write it to the running solver.
    pub hot_apply: bool,
    /// The solver, the voxelisation or the grid must be rebuilt.
    pub rebuild: bool,
    /// Averaged statistics are now invalid.
    pub reset_statistics: bool,
    /// What to tell the user. `None` only when nothing changed.
    pub cause: Option<ResetCause>,
}

/// No change at all.
pub open spec fn no_change() -> ParamChange {
    ParamChange { hot_apply: false, rebuild: false, reset_statistics: false, cause: None }
}

impl ParamChange {
    /// No change at all.
    pub fn none() -> (c: Self)
        ensures
            c == no_change(),
    {
        ParamChange { hot_apply: false, rebuild: false, reset_statistics: false, cause: None }
    }

    pub fn is_none(&self) -> (r: bool)
        ensures
            r == (!self.hot_apply && !self.rebuild && !self.reset_statistics),
    {
        !self.hot_apply && !self.rebuild && !self.reset_statistics
    }
}

/// Watches [`SimParams`] and classifies each change.
///
/// Holds the previous *values* as well as the two hashes: the hashes answer "did
/// it change" and the values answer "which field" for the message.
#[derive(Clone, Copy, Debug)]
pub struct ParamWatcher {
    pub prev: SimParams,
    pub stats_hash: u64,
    pub rebuild_hash: u64,
}

impl ParamWatcher {
    /// The watcher that last observed `params`.
    pub open spec fn watching(params: SimParams) -> ParamWatcher {
        ParamWatcher {
            prev: params,
            stats_hash: hash_of(params.statistics_words()),
            rebuild_hash: hash_of(params.rebuild_words()),
        }
    }

    /// The verdict on `next`.
    pub open spec fn verdict(&self, next: &SimParams) -> ParamChange {
        let stats = hash_of(next.statistics_words());
        let rebuild = hash_of(next.rebuild_words());
        if stats == self.stats_hash && rebuild == self.rebuild_hash {
            no_change()
        } else {
            ParamChange {
                hot_apply: rebuild == self.rebuild_hash,
                rebuild: rebuild != self.rebuild_hash,
                reset_statistics: stats != self.stats_hash,
                cause: Some(self.named(next)),
            }
        }
    }

    /// What to call a change that is reported: the field that moved, or the reset
    /// asked for by hand where none did.
    pub open spec fn named(&self, next: &SimParams) -> ResetCause {
        match next.cause_of(&self.prev) {
            Some(cause) => cause,
            None => ResetCause::Manual,
        }
    }

    pub fn new(params: SimParams) -> (w: Self)
        ensures
            w == Self::watching(params),
    {
        ParamWatcher {
            prev: params,
            stats_hash: params.statistics_hash(),
            rebuild_hash: params.rebuild_hash(),
        }
    }

    pub fn current(&self) -> (p: &SimParams)
        ensures
            *p == self.prev,
    {
        &self.prev
    }

    /// Compare `next` against the last observed state and adopt it.
    pub fn observe(&mut self, next: SimParams) -> (c: ParamChange)
        ensures
            c == old(self).verdict(&next),
            *final(self) == Self::watching(next),
    {
        let stats: u64 = next.statistics_hash();
        let rebuild: u64 = next.rebuild_hash();
        let change: ParamChange = self.classify_hashed(&next, stats, rebuild);
        self.prev = next;
        self.stats_hash = stats;
        self.rebuild_hash = rebuild;
        change
    }

    /// What [`Self::observe`] would report for `next`, without adopting it.
    ///
    /// For a change that can fail. A rebuild allocates a new lattice and the GPU
    /// can refuse it, so the frame loop asks first, attempts the rebuild, and
    /// only then observes, or puts the old parameters back so there is nothing to
    /// observe. Committing first would announce a statistics reset for a change
    /// that never took effect.
    pub fn classify(&self, next: &SimParams) -> (c: ParamChange)
        ensures
            c == self.verdict(next),
    {
        self.classify_hashed(next, next.statistics_hash(), next.rebuild_hash())
    }

    fn classify_hashed(&self, next: &SimParams, stats: u64, rebuild: u64) -> (c: ParamChange)
        requires
            stats == hash_of(next.statistics_words()),
            rebuild == hash_of(next.rebuild_words()),
        ensures
            c == self.verdict(next),
    {
        if stats == self.stats_hash && rebuild == self.rebuild_hash {
            return ParamChange::none();
        }
        let needs_rebuild: bool = rebuild != self.rebuild_hash;
        let cause: ResetCause = match next.reset_cause(&self.prev) {
            Some(cause) => cause,
            // Only [`Self::invalidate`] reports a change that no field explains.
            None => ResetCause::Manual,
        };
        ParamChange {
            // A rebuild subsumes a hot apply; doing both would write uniforms
            // into a solver that is about to be dropped.
            hot_apply: !needs_rebuild,
            rebuild: needs_rebuild,
            reset_statistics: stats != self.stats_hash,
            cause: Some(cause),
        }
    }

    /// The watcher with its statistics hash moved off what it was.
    pub open spec fn invalidated(self) -> ParamWatcher {
        ParamWatcher {
            stats_hash: ((self.stats_hash + 1) % 0x1_0000_0000_0000_0000) as u64,
            ..self
        }
    }

    /// Force the next [`Self::observe`] to report a change. Used after a manual
    /// statistics reset so the toast and the window agree.
    pub fn invalidate(&mut self)
        ensures
            *final(self) == old(self).invalidated(),
            final(self).stats_hash != old(self).stats_hash,
    {
        self.stats_hash = if self.stats_hash == u64::MAX {
            0
        } else {
            self.stats_hash + 1
        };
    }
}

/// A louver turns the air and does not change what the fan pushes: whatever the tilt,
/// the component along the mouth's normal is the untilted one, bit for bit, and so is
/// the whole direction without a tilt.
#[verifier::spinoff_prover]
#[verifier::rlimit(80)]
pub proof fn a_tilt_keeps_the_normal_component<
    T: Fn(u32, u32) -> (u32, u32),
    C: Fn(u32, u32) -> (u32, u32),
>(p: SimParams, n: Vec3, axis: usize, tangents: T, cap: C, d: Vec3)
    requires
        p.blows(n, axis, tangents, cap, d),
    ensures
        d.axis(axis as int % 3) == n.axis(axis as int % 3),
        eq32(p.inlet_tilt_deg@[0], 0) && eq32(p.inlet_tilt_deg@[1], 0) ==> d == n,
{
}

/// Repeated identical frames stay quiet, whatever the parameters hold: a NaN
/// included.
pub proof fn an_unchanged_frame_reports_nothing(p: SimParams)
    ensures
        ParamWatcher::watching(p).verdict(&p) == no_change(),
{
}

/// What hot-applies never rebuilds: two settings that differ only in the inlet
/// velocity, the inlet angle, the vents' air or the collision constants have one
/// rebuild hash, so dragging the velocity slider cannot stall on a rebuild.
pub proof fn hot_parameters_never_rebuild(a: SimParams, b: SimParams)
    requires
        b == (SimParams {
            inlet_velocity_ms: b.inlet_velocity_ms,
            inlet_tilt_deg: b.inlet_tilt_deg,
            smagorinsky_c: b.smagorinsky_c,
            trt_lambda: b.trt_lambda,
            vent_generation: b.vent_generation,
            ..a
        }),
    ensures
        a.rebuild_words() == b.rebuild_words(),
        !ParamWatcher::watching(a).verdict(&b).rebuild,
{
}

/// Everything that forces a rebuild also invalidates the statistics: where the
/// rebuild part of two settings differs, so does what the statistics are
/// conditioned on.
pub proof fn a_rebuild_invalidates_the_statistics(a: SimParams, b: SimParams)
    requires
        a.rebuild_words() != b.rebuild_words(),
    ensures
        a.statistics_words() != b.statistics_words(),
{
    assert(a.rebuild_words().len() == 17 && b.rebuild_words().len() == 17);
    if a.statistics_words() == b.statistics_words() {
        assert(a.statistics_words().take(17) =~= a.rebuild_words());
        assert(b.statistics_words().take(17) =~= b.rebuild_words());
    }
}

/// Where the two hashes tell these settings apart whenever their words differ, a
/// change that needs a rebuild is never reported without a statistics reset, and
/// a change that is reported at all is applied in exactly one of the two ways.
pub proof fn a_reported_rebuild_resets(a: SimParams, b: SimParams)
    requires
        a.statistics_words() != b.statistics_words() ==> hash_of(a.statistics_words()) != hash_of(
            b.statistics_words(),
        ),
    ensures
        ({
            let c = ParamWatcher::watching(a).verdict(&b);
            &&& c.rebuild ==> c.reset_statistics
            &&& c != no_change() ==> c.hot_apply != c.rebuild
        }),
{
    if a.rebuild_words() != b.rebuild_words() {
        a_rebuild_invalidates_the_statistics(a, b);
    }
}

/// A settings change names the field that moved: where any of the hashed words
/// differ, the message is there.
pub proof fn a_change_names_its_cause(a: SimParams, b: SimParams)
    requires
        a.statistics_words() != b.statistics_words(),
    ensures
        b.cause_of(&a) is Some,
{
    if b.cause_of(&a) is None {
        assert(margin_words(a.domain_mm) =~= margin_words(b.domain_mm));
        assert(a.rebuild_words() =~= b.rebuild_words());
        assert(a.hot_words() =~= b.hot_words());
    }
}

/// The cause is missing only when nothing changed, whatever state the watcher is
/// in.
pub proof fn the_cause_is_missing_only_without_a_change(w: ParamWatcher, next: SimParams)
    ensures
        w.verdict(&next).cause is None <==> w.verdict(&next) == no_change(),
{
}

/// A reset forced by hand is reported as one, without a rebuild, exactly once.
pub proof fn invalidating_forces_one_reset(p: SimParams)
    ensures
        ParamWatcher::watching(p).invalidated().verdict(&p) == (ParamChange {
            hot_apply: true,
            rebuild: false,
            reset_statistics: true,
            cause: Some(ResetCause::Manual),
        }),
        ParamWatcher::watching(p).verdict(&p) == no_change(),
{
    let h = hash_of(p.statistics_words());
    assert(((h + 1) % 0x1_0000_0000_0000_0000) as u64 != h);
}

/// Every setting is watched: two settings with the same words for a rebuild agree in all
/// that needs one, and two with the same words for the statistics agree in everything,
/// where one NaN is as good as another.
pub proof fn every_setting_is_watched(a: SimParams, b: SimParams)
    ensures
        a.rebuild_words() == b.rebuild_words() ==> {
            &&& a.dx_mm == b.dx_mm || (nan32(a.dx_mm) && nan32(b.dx_mm))
            &&& a.u_lb == b.u_lb || (nan64(a.u_lb) && nan64(b.u_lb))
            &&& a.rho == b.rho || (nan64(a.rho) && nan64(b.rho))
            &&& a.nu == b.nu || (nan64(a.nu) && nan64(b.nu))
            &&& a.inlet_mouth == b.inlet_mouth
            &&& a.outlet_mouth == b.outlet_mouth
            &&& a.sponge_cells == b.sponge_cells
            &&& a.geometry_generation == b.geometry_generation
            &&& a.shader_generation == b.shader_generation
            &&& a.domain_mm is Some <==> b.domain_mm is Some
            &&& a.domain_mm matches Some(m) ==> (b.domain_mm matches Some(n) ==> forall|k: int|
                0 <= k < 6 ==> #[trigger] m@[k] == n@[k] || (nan32(m@[k]) && nan32(n@[k])))
        },
        a.statistics_words() == b.statistics_words() ==> {
            &&& a.rebuild_words() == b.rebuild_words()
            &&& a.inlet_velocity_ms == b.inlet_velocity_ms || (nan32(a.inlet_velocity_ms) && nan32(
                b.inlet_velocity_ms,
            ))
            &&& forall|k: int|
                0 <= k < 2 ==> #[trigger] a.inlet_tilt_deg@[k] == b.inlet_tilt_deg@[k] || (nan32(
                    a.inlet_tilt_deg@[k],
                ) && nan32(b.inlet_tilt_deg@[k]))
            &&& a.smagorinsky_c == b.smagorinsky_c || (nan32(a.smagorinsky_c) && nan32(
                b.smagorinsky_c,
            ))
            &&& a.trt_lambda == b.trt_lambda || (nan32(a.trt_lambda) && nan32(b.trt_lambda))
            &&& a.vent_generation == b.vent_generation
        },
{
    let r = a.rebuild_words();
    let t = b.rebuild_words();
    assert(r.len() == 17 && t.len() == 17);
    if a.statistics_words() == b.statistics_words() {
        let x = a.statistics_words();
        let y = b.statistics_words();
        assert(x.take(17) =~= r && y.take(17) =~= t);
        assert(x.skip(17) =~= a.hot_words() && y.skip(17) =~= b.hot_words());
        let p = a.hot_words();
        let q = b.hot_words();
        assert(p[0] == q[0] && p[1] == q[1] && p[2] == q[2] && p[3] == q[3] && p[4] == q[4] && p[5]
            == q[5]);
    }
    if r == t {
        assert(r[0] == t[0] && r[1] == t[1] && r[2] == t[2] && r[3] == t[3] && r[4] == t[4] && r[5]
            == t[5] && r[6] == t[6] && r[7] == t[7]);
        assert(r[8] == t[8] && r[9] == t[9]);
        assert(r[8] == outlet_words(a.outlet_mouth)[0] && t[8] == outlet_words(b.outlet_mouth)[0]);
        assert(r[9] == outlet_words(a.outlet_mouth)[1] && t[9] == outlet_words(b.outlet_mouth)[1]);
        assert forall|k: int| 0 <= k < 7 implies margin_words(a.domain_mm)[k] == #[trigger]
            margin_words(b.domain_mm)[k] by {
            assert(r[10 + k] == margin_words(a.domain_mm)[k]);
            assert(t[10 + k] == margin_words(b.domain_mm)[k]);
        }
        assert(margin_words(a.domain_mm)[0] == margin_words(b.domain_mm)[0]);
        if a.domain_mm is Some && b.domain_mm is Some {
            let m = a.domain_mm->Some_0;
            let n = b.domain_mm->Some_0;
            assert forall|k: int| 0 <= k < 6 implies #[trigger] m@[k] == n@[k] || (nan32(m@[k])
                && nan32(n@[k])) by {
                assert(margin_words(a.domain_mm)[k + 1] == margin_words(b.domain_mm)[k + 1]);
                assert(margin_words(a.domain_mm)[k + 1] == folded32(m@[k]));
                assert(margin_words(b.domain_mm)[k + 1] == folded32(n@[k]));
            }
        }
    }
}

/// A change of one setting alone is called by that setting's name.
pub proof fn a_single_change_is_called_by_its_name(p: SimParams, q: SimParams)
    ensures
        p.cause_of(&p) is None,
        p.inlet_velocity_ms != q.inlet_velocity_ms ==> (SimParams {
            inlet_velocity_ms: q.inlet_velocity_ms,
            ..p
        }).cause_of(&p) == Some(ResetCause::InletVelocity),
        p.inlet_tilt_deg@ != q.inlet_tilt_deg@ ==> (SimParams {
            inlet_tilt_deg: q.inlet_tilt_deg,
            ..p
        }).cause_of(&p) == Some(ResetCause::InletAngle),
        p.dx_mm != q.dx_mm ==> (SimParams { dx_mm: q.dx_mm, ..p }).cause_of(&p) == Some(
            ResetCause::ResolutionChanged,
        ),
        p.u_lb != q.u_lb ==> (SimParams { u_lb: q.u_lb, ..p }).cause_of(&p) == Some(
            ResetCause::ResolutionChanged,
        ),
        p.geometry_generation != q.geometry_generation ==> (SimParams {
            geometry_generation: q.geometry_generation,
            ..p
        }).cause_of(&p) == Some(ResetCause::GeometryChanged),
        !same_margins(q.domain_mm, p.domain_mm) ==> (SimParams {
            domain_mm: q.domain_mm,
            ..p
        }).cause_of(&p) == Some(ResetCause::DomainChanged),
        p.inlet_mouth != q.inlet_mouth ==> (SimParams {
            inlet_mouth: q.inlet_mouth,
            ..p
        }).cause_of(&p) == Some(ResetCause::InletOutletSwapped),
        p.outlet_mouth != q.outlet_mouth ==> (SimParams {
            outlet_mouth: q.outlet_mouth,
            ..p
        }).cause_of(&p) == Some(ResetCause::InletOutletSwapped),
        p.rho != q.rho ==> (SimParams { rho: q.rho, ..p }).cause_of(&p) == Some(
            ResetCause::FluidChanged,
        ),
        p.nu != q.nu ==> (SimParams { nu: q.nu, ..p }).cause_of(&p) == Some(
            ResetCause::FluidChanged,
        ),
        p.vent_generation != q.vent_generation ==> (SimParams {
            vent_generation: q.vent_generation,
            ..p
        }).cause_of(&p) == Some(ResetCause::VentChanged),
        p.shader_generation != q.shader_generation ==> (SimParams {
            shader_generation: q.shader_generation,
            ..p
        }).cause_of(&p) == Some(ResetCause::SolverRestarted),
        p.smagorinsky_c != q.smagorinsky_c ==> (SimParams {
            smagorinsky_c: q.smagorinsky_c,
            ..p
        }).cause_of(&p) == Some(ResetCause::SolverRestarted),
        p.trt_lambda != q.trt_lambda ==> (SimParams { trt_lambda: q.trt_lambda, ..p }).cause_of(
            &p,
        ) == Some(ResetCause::SolverRestarted),
        p.sponge_cells != q.sponge_cells ==> (SimParams {
            sponge_cells: q.sponge_cells,
            ..p
        }).cause_of(&p) == Some(ResetCause::SolverRestarted),
        q.dx_mm != p.dx_mm && q.shader_generation == p.shader_generation ==> q.cause_of(&p) == Some(
            ResetCause::ResolutionChanged,
        ),
{
    let a = p.inlet_tilt_deg@;
    let b = q.inlet_tilt_deg@;
    if a[0] == b[0] && a[1] == b[1] {
        assert(a =~= b);
    }
}

/// A mouth straight on an axis blows along it, turned toward the next axis by the first
/// tangent and toward the one after that by the second.
#[verifier::spinoff_prover]
#[verifier::rlimit(80)]
pub proof fn a_tilt_turns_toward_the_next_axes(n: Vec3, axis: int, c: (u32, u32), d: Vec3)
    requires
        0 <= axis < 3,
        turned(n, axis, c, d),
        finite32(c.0),
        finite32(c.1),
        axis != 0 ==> n.x % 0x8000_0000 == 0,
        axis != 1 ==> n.y % 0x8000_0000 == 0,
        axis != 2 ==> n.z % 0x8000_0000 == 0,
    ensures
        axis == 0 ==> d.x == n.x && value_of(d.y) == value_of(c.0) && value_of(d.z) == value_of(
            c.1,
        ),
        axis == 1 ==> d.y == n.y && value_of(d.z) == value_of(c.0) && value_of(d.x) == value_of(
            c.1,
        ),
        axis == 2 ==> d.z == n.z && value_of(d.x) == value_of(c.0) && value_of(d.y) == value_of(
            c.1,
        ),
{
    if axis == 0 {
        adding_zero_changes_nothing(n.y, c.0, d.y);
        adding_zero_changes_nothing(n.z, c.1, d.z);
    } else if axis == 1 {
        adding_zero_changes_nothing(n.z, c.0, d.z);
        adding_zero_changes_nothing(n.x, c.1, d.x);
    } else {
        adding_zero_changes_nothing(n.x, c.0, d.x);
        adding_zero_changes_nothing(n.y, c.1, d.y);
    }
}

/// An angle that has no finite tangent is no tilt, whichever of the two it is.
pub proof fn an_angle_without_a_tangent_is_no_tilt<
    T: Fn(u32, u32) -> (u32, u32),
    C: Fn(u32, u32) -> (u32, u32),
>(p: SimParams, n: Vec3, axis: usize, tangents: T, cap: C, d: Vec3)
    requires
        p.blows(n, axis, tangents, cap, d),
        forall|a: u32, b: u32, t: (u32, u32)| #[trigger]
            tangents.ensures((a, b), t) ==> !finite32(t.0) || !finite32(t.1),
    ensures
        d == n,
{
}

} // verus!
