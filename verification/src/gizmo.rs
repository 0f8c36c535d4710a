//! The transform gizmo: what it moves, and what moving it does.
use vstd::prelude::*;
use crate::config::{Vec3, ONE};
use crate::float_order::{clamp32, clamped32};
use crate::layers::{Layer, LayerKind};
use crate::overlays::{GizmoMode, Placement, SliceSettings, VentSettings};
use crate::panels::{MAX_SCALE, MIN_SCALE};
use crate::pose::{DuctGeometry, InstallPose};
use crate::state::UiState;

verus! {

/// What the handles move.
#[derive(Clone, Copy, Debug, PartialEq, Eq, Structural)]
pub enum GizmoSubject {
    /// Move and turn set the install pose (the picture); the scale handles scale the
    /// part itself, which is re-voxelised once the drag settles.
    Duct,
    /// A vent, in the car, which is the gizmo's frame.
    Vent(usize),
    /// A slice. Slices are stored on the part, so they are shown through the install
    /// pose and brought back through its inverse.
    Slice(usize),
    /// An obstruction, in the car.
    Obstruction(usize),
}

/// What a manipulated matrix reads as.
#[derive(Clone, Copy, Debug, PartialEq, Eq, Structural)]
pub struct GizmoReading {
    /// As an install pose.
    pub pose: InstallPose,
    /// As a placement in the car.
    pub placement: Placement,
    /// As a plane on the part.
    pub origin_mm: Vec3,
    pub normal: Vec3,
}

/// What the handles of this kind of layer move, in this mode: nothing where the
/// layer cannot be moved, or its list has no such entry. A vent's size is its own
/// fields; there is nothing for the scale handles to do.
pub open spec fn subject_of(s: UiState, kind: LayerKind) -> Option<GizmoSubject> {
    match kind {
        LayerKind::Duct => Some(GizmoSubject::Duct),
        LayerKind::Vent(i) => if s.gizmo_mode != GizmoMode::Scale && i < s.vents@.len() {
            Some(GizmoSubject::Vent(i))
        } else {
            None
        },
        LayerKind::Slice(i) => if i < s.slices@.len() {
            Some(GizmoSubject::Slice(i))
        } else {
            None
        },
        LayerKind::Obstruction(i) => if i < s.obstructions@.len() {
            Some(GizmoSubject::Obstruction(i))
        } else {
            None
        },
        _ => None,
    }
}

/// Whether there is nothing to hold on to: no armed layer, or a vent in scale mode.
pub open spec fn disarmed(s: UiState, armed: Option<LayerKind>) -> bool {
    match armed {
        None => true,
        Some(kind) => kind is Vent && s.gizmo_mode == GizmoMode::Scale,
    }
}

/// Whether `armed` is the kind of the layer armed for the gizmo.
pub open spec fn arms(s: UiState, armed: Option<LayerKind>) -> bool {
    match armed {
        Some(kind) => s.gizmo_mode != GizmoMode::Off && exists|i: int| #[trigger]
            s.layers.first_selected(i) && s.layers.layers@[i].kind == kind && kind.transformable(),
        None => s.gizmo_mode == GizmoMode::Off || forall|i: int| #[trigger]
            s.layers.first_selected(i) ==> !s.layers.layers@[i].kind.transformable(),
    }
}

impl UiState {
    fn armed_kind(&self) -> (armed: Option<LayerKind>)
        requires
            self.layers.wf(),
        ensures
            arms(*self, armed),
    {
        match self.gizmo_target() {
            None => None,
            Some(id) => {
                let layer: Option<&Layer> = self.layers.get(id);
                let ghost i = choose|i: int| #[trigger]
                    self.layers.first_selected(i) && self.layers.layers@[i].id == id
                        && self.layers.layers@[i].kind.transformable();
                assert(self.layers.layers@[i].id == id);
                match layer {
                    Some(l) => {
                        proof {
                            let j = choose|j: int|
                                0 <= j < self.layers.layers@.len() && #[trigger] self.layers.layers@[j]
                                    == *l;
                            assert(j == i);
                            assert(self.layers.first_selected(i));
                        }
                        Some(l.kind)
                    },
                    None => None,
                }
            },
        }
    }

    fn subject(&self, kind: LayerKind) -> (r: Option<GizmoSubject>)
        ensures
            r == subject_of(*self, kind),
    {
        match kind {
            LayerKind::Duct => Some(GizmoSubject::Duct),
            LayerKind::Vent(i) => {
                if self.gizmo_mode != GizmoMode::Scale && i < self.vents.len() {
                    Some(GizmoSubject::Vent(i))
                } else {
                    None
                }
            },
            LayerKind::Slice(i) => {
                if i < self.slices.len() {
                    Some(GizmoSubject::Slice(i))
                } else {
                    None
                }
            },
            LayerKind::Obstruction(i) => {
                if i < self.obstructions.len() {
                    Some(GizmoSubject::Obstruction(i))
                } else {
                    None
                }
            },
            _ => None,
        }
    }

    /// What the gizmo moves this frame. With nothing to hold on to it is no longer
    /// active.
    pub fn begin_gizmo(&mut self) -> (subject: Option<GizmoSubject>)
        requires
            old(self).layers.wf(),
        ensures
            exists|armed: Option<LayerKind>|
                {
                    &&& #[trigger] arms(*old(self), armed)
                    &&& subject == match armed {
                        Some(kind) => subject_of(*old(self), kind),
                        None => None,
                    }
                    &&& *final(self) == (UiState {
                        gizmo_active: old(self).gizmo_active && !disarmed(*old(self), armed),
                        ..*old(self)
                    })
                },
    {
        let armed: Option<LayerKind> = self.armed_kind();
        assert(arms(*old(self), armed));
        match armed {
            None => {
                self.gizmo_active = false;
                None
            },
            Some(kind) => {
                let subject: Option<GizmoSubject> = self.subject(kind);
                match kind {
                    LayerKind::Vent(_) => {
                        if self.gizmo_mode == GizmoMode::Scale {
                            self.gizmo_active = false;
                        }
                    },
                    _ => {},
                }
                subject
            },
        }
    }

    /// Take over what the handles did. While they are used or hovered the gizmo owns
    /// the pointer.
    pub fn end_gizmo(
        &mut self,
        subject: GizmoSubject,
        used: bool,
        over: bool,
        reading: GizmoReading,
    )
        requires
            match subject {
                GizmoSubject::Duct => true,
                GizmoSubject::Vent(i) => i < old(self).vents@.len(),
                GizmoSubject::Slice(i) => i < old(self).slices@.len(),
                GizmoSubject::Obstruction(i) => i < old(self).obstructions@.len(),
            },
        ensures
            *final(self) == (UiState {
                gizmo_active: used || over,
                install: final(self).install,
                duct: final(self).duct,
                vents: final(self).vents,
                slices: final(self).slices,
                obstructions: final(self).obstructions,
                ..*old(self)
            }),
            used && subject is Duct ==> {
                &&& final(self).install == reading.pose
                &&& final(self).duct == (DuctGeometry {
                    scale: if old(self).gizmo_mode == GizmoMode::Scale {
                        clamped32(reading.placement.scale, MIN_SCALE, MAX_SCALE)
                    } else {
                        old(self).duct.scale
                    },
                    ..old(self).duct
                })
            },
            !(used && subject is Duct) ==> final(self).install == old(self).install
                && final(self).duct == old(self).duct,
            final(self).vents@ == match subject {
                GizmoSubject::Vent(i) => if used {
                    old(self).vents@.update(
                        i as int,
                        VentSettings {
                            placement: Placement { scale: ONE, ..reading.placement },
                            ..old(self).vents@[i as int]
                        },
                    )
                } else {
                    old(self).vents@
                },
                _ => old(self).vents@,
            },
            final(self).slices@ == match subject {
                GizmoSubject::Slice(i) => if used {
                    old(self).slices@.update(
                        i as int,
                        SliceSettings {
                            origin_mm: reading.origin_mm,
                            normal: reading.normal,
                            ..old(self).slices@[i as int]
                        },
                    )
                } else {
                    old(self).slices@
                },
                _ => old(self).slices@,
            },
            final(self).obstructions@ == match subject {
                GizmoSubject::Obstruction(i) => if used {
                    old(self).obstructions@.update(i as int, reading.placement)
                } else {
                    old(self).obstructions@
                },
                _ => old(self).obstructions@,
            },
    {
        self.gizmo_active = used || over;
        if !used {
            return;
        }
        match subject {
            GizmoSubject::Duct => {
                self.install = reading.pose;
                if self.gizmo_mode == GizmoMode::Scale {
                    self.duct.scale = clamp32(reading.placement.scale, MIN_SCALE, MAX_SCALE);
                }
            },
            GizmoSubject::Vent(i) => {
                place_vent(&mut self.vents, i, reading.placement);
            },
            GizmoSubject::Slice(i) => {
                place_slice(&mut self.slices, i, reading.origin_mm, reading.normal);
            },
            // Edited in place; the app rebuilds the lattice once the drag ends.
            GizmoSubject::Obstruction(i) => {
                self.obstructions[i] = reading.placement;
            },
        }
    }
}

fn place_vent(vents: &mut Vec<VentSettings>, i: usize, p: Placement)
    requires
        i < old(vents)@.len(),
    ensures
        final(vents)@ == old(vents)@.update(
            i as int,
            VentSettings {
                placement: Placement { scale: ONE, ..p },
                ..old(vents)@[i as int]
            },
        ),
{
    vents[i].placement = Placement {
        translation_mm: p.translation_mm,
        rotation: p.rotation,
        scale: ONE,
    };
}

fn place_slice(slices: &mut Vec<SliceSettings>, i: usize, origin_mm: Vec3, normal: Vec3)
    requires
        i < old(slices)@.len(),
    ensures
        final(slices)@ == old(slices)@.update(
            i as int,
            SliceSettings { origin_mm, normal, ..old(slices)@[i as int] },
        ),
{
    slices[i].origin_mm = origin_mm;
    slices[i].normal = normal;
}

/// The scale handles have no hold on a vent: its size is its own fields.
pub proof fn a_vent_never_changes_size(s: UiState, i: usize)
    requires
        s.gizmo_mode == GizmoMode::Scale,
    ensures
        subject_of(s, LayerKind::Vent(i)) is None,
        disarmed(s, Some(LayerKind::Vent(i))),
{
}

/// The gizmo holds the object of the selected layer, where there is one: the duct, or the
/// entry of its own list that the layer names.
pub proof fn the_gizmo_holds_what_the_layer_names(s: UiState, kind: LayerKind)
    ensures
        subject_of(s, kind) is Some ==> kind.transformable(),
        subject_of(s, kind) == Some(GizmoSubject::Duct) <==> kind == LayerKind::Duct,
        forall|i: usize| #[trigger]
            subject_of(s, LayerKind::Slice(i)) == if i < s.slices@.len() {
                Some(GizmoSubject::Slice(i))
            } else {
                None
            },
        forall|i: usize| #[trigger]
            subject_of(s, LayerKind::Obstruction(i)) == if i < s.obstructions@.len() {
                Some(GizmoSubject::Obstruction(i))
            } else {
                None
            },
        forall|i: usize|
            s.gizmo_mode != GizmoMode::Scale ==> #[trigger] subject_of(s, LayerKind::Vent(i))
                == if i < s.vents@.len() {
                Some(GizmoSubject::Vent(i))
            } else {
                None
            },
        subject_of(s, kind) is Some ==> !disarmed(s, Some(kind)),
        disarmed(s, None),
{
}

/// What is armed is one thing at most: the first selected layer, where it can be moved and
/// a gizmo is on.
pub proof fn one_thing_at_most_is_armed(
    s: UiState,
    a: Option<LayerKind>,
    b: Option<LayerKind>,
    i: int,
)
    requires
        arms(s, a),
        arms(s, b),
    ensures
        a == b,
        s.gizmo_mode == GizmoMode::Off ==> a is None,
        s.gizmo_mode != GizmoMode::Off && s.layers.first_selected(i)
            && s.layers.layers@[i].kind.transformable() ==> a == Some(s.layers.layers@[i].kind),
        (forall|j: int|
            0 <= j < s.layers.layers@.len() ==> !(#[trigger] s.layers.layers@[j]).selected) ==> a
            is None,
{
    if a is Some {
        let j = choose|j: int| #[trigger]
            s.layers.first_selected(j) && s.layers.layers@[j].kind == a->Some_0
                && a->Some_0.transformable();
        lemma_first_selected(s, i, j);
        if b is Some {
            let k = choose|k: int| #[trigger]
                s.layers.first_selected(k) && s.layers.layers@[k].kind == b->Some_0
                    && b->Some_0.transformable();
            lemma_first_selected(s, j, k);
        }
    } else if b is Some {
        let k = choose|k: int| #[trigger]
            s.layers.first_selected(k) && s.layers.layers@[k].kind == b->Some_0
                && b->Some_0.transformable();
        assert(s.layers.first_selected(k));
    }
}

proof fn lemma_first_selected(s: UiState, i: int, j: int)
    ensures
        s.layers.first_selected(i) && s.layers.first_selected(j) ==> i == j,
{
    if s.layers.first_selected(i) && s.layers.first_selected(j) {
        if i < j {
            assert(!s.layers.layers@[i].selected);
        } else if j < i {
            assert(!s.layers.layers@[j].selected);
        }
    }
}

} // verus!
