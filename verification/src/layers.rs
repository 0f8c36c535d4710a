//! The layer stack: what is drawn, in what order, and what each layer is
//! attached to.
//!
//! A CFD viewport is a pile of semi-transparent things, and the only way to work
//! out why the picture looks wrong is to turn them off one at a time. So the
//! layer list is not decoration: it is the debugging tool.
//!
//! Two decisions worth stating:
//!
//! * **Layers are identified by a stable [`LayerId`], not by index.** Slices and
//!   obstructions are added and removed at run time, and an index-keyed
//!   selection silently retargets when the list shifts.
//! * **Visibility is a pair: `visible` and `enabled`.** A layer whose backing
//!   data does not exist yet is *disabled*, drawn greyed with its reason, rather
//!   than hidden. A checkbox that silently does nothing is worse than one you
//!   cannot click.
use vstd::prelude::*;
use vstd::string::StringExecFns;
use crate::config::ONE;
use crate::float_order::{less32, lt32};

verus! {

/// Stable handle for a layer.
#[derive(Clone, Copy, Debug, PartialEq, Eq, Hash, PartialOrd, Ord, Structural)]
pub struct LayerId(pub u32);

/// What a layer draws. The payload is the index into whatever list owns the
/// underlying object, which is why removal must go through
/// [`LayerStack::remove`] rather than a plain removal from the list.
#[derive(Clone, Copy, Debug, PartialEq, Eq, Structural)]
pub enum LayerKind {
    /// The duct shell.
    Duct,
    /// An additional part dropped into the flow; the index is into the app's
    /// obstruction list.
    Obstruction(usize),
    /// A vent blowing air in the room; the index is into the vent list.
    Vent(usize),
    /// Advected tracer particles.
    Particles,
    /// The direct volume rendering of the current scalar.
    Volume,
    /// A soft isosurface of the current scalar.
    Isosurface,
    /// A cutting plane; the index is into the slice list.
    Slice(usize),
    /// Streamlines seeded from a rake.
    Streamlines,
    /// The wireframe of the lattice, for checking resolution against features.
    GridOutline,
    /// Probe markers and their labels.
    Probes,
}

impl LayerKind {
    /// Whether a layer of this kind can be moved with a gizmo.
    pub open spec fn transformable(self) -> bool {
        self is Duct || self is Obstruction || self is Vent || self is Slice
    }

    /// Whether this layer can be moved with a gizmo, and therefore whether
    /// selecting it should arm the transform widget. The duct's gizmo sets its
    /// install pose in the car, not its place in the lattice.
    pub fn is_transformable(self) -> (r: bool)
        ensures
            r == self.transformable(),
    {
        matches!(
            self,
            LayerKind::Duct | LayerKind::Obstruction(_) | LayerKind::Vent(_) | LayerKind::Slice(_)
        )
    }

    /// The kind after the object of kind `gone` has left its list: an index
    /// above it in the same list moves down by one, everything else stays.
    pub open spec fn without(self, gone: LayerKind) -> LayerKind {
        match (self, gone) {
            (LayerKind::Obstruction(j), LayerKind::Obstruction(i)) => if j > i {
                LayerKind::Obstruction((j - 1) as usize)
            } else {
                self
            },
            (LayerKind::Vent(j), LayerKind::Vent(i)) => if j > i {
                LayerKind::Vent((j - 1) as usize)
            } else {
                self
            },
            (LayerKind::Slice(j), LayerKind::Slice(i)) => if j > i {
                LayerKind::Slice((j - 1) as usize)
            } else {
                self
            },
            _ => self,
        }
    }

    /// The kind after an obstruction has been put into its list at index `i`.
    pub open spec fn with_obstruction(self, i: usize) -> LayerKind {
        match self {
            LayerKind::Obstruction(j) => if j >= i {
                LayerKind::Obstruction((j + 1) as usize)
            } else {
                self
            },
            _ => self,
        }
    }

    fn less(self, gone: LayerKind) -> (k: LayerKind)
        ensures
            k == self.without(gone),
    {
        match (self, gone) {
            (LayerKind::Obstruction(j), LayerKind::Obstruction(i)) => if j > i {
                LayerKind::Obstruction(j - 1)
            } else {
                self
            },
            (LayerKind::Vent(j), LayerKind::Vent(i)) => if j > i {
                LayerKind::Vent(j - 1)
            } else {
                self
            },
            (LayerKind::Slice(j), LayerKind::Slice(i)) => if j > i {
                LayerKind::Slice(j - 1)
            } else {
                self
            },
            _ => self,
        }
    }
}

/// One row of the layer panel.
#[derive(Clone, Debug)]
pub struct Layer {
    pub id: LayerId,
    pub kind: LayerKind,
    pub name: String,
    pub visible: bool,
    /// False when the layer has nothing to draw. Shows the checkbox greyed with
    /// [`Layer::disabled_reason`] as a tooltip.
    pub enabled: bool,
    pub disabled_reason: String,
    /// 0-1, as `f32` bits. Applied by the overlay pass; the volume uses its
    /// transfer function's density instead, so this is ignored there.
    pub opacity: u32,
    /// True while the gizmo is attached to this layer.
    pub selected: bool,
}

impl Layer {
    /// Whether this is a layer as it is first made.
    pub open spec fn fresh(&self, id: LayerId, kind: LayerKind, name: Seq<char>) -> bool {
        &&& self.id == id
        &&& self.kind == kind
        &&& self.name@ == name
        &&& self.visible
        &&& self.enabled
        &&& self.disabled_reason@.len() == 0
        &&& self.opacity == ONE
        &&& !self.selected
    }

    pub fn new(id: LayerId, kind: LayerKind, name: &str) -> (l: Self)
        ensures
            l.fresh(id, kind, name@),
    {
        Layer {
            id,
            kind,
            name: String::from_str(name),
            visible: true,
            enabled: true,
            disabled_reason: String::new(),
            opacity: ONE,
            selected: false,
        }
    }

    /// Whether the renderer should actually draw it.
    pub open spec fn drawn(&self) -> bool {
        self.visible && self.enabled && lt32(0, self.opacity)
    }

    /// Whether the renderer should actually draw it.
    pub fn is_drawn(&self) -> (r: bool)
        ensures
            r == self.drawn(),
    {
        self.visible && self.enabled && less32(0, self.opacity)
    }

    pub fn disable(&mut self, reason: &str)
        ensures
            final(self).disabled_reason@ == reason@,
            *final(self) == (Layer {
                enabled: false,
                disabled_reason: final(self).disabled_reason,
                ..*old(self)
            }),
    {
        self.enabled = false;
        self.disabled_reason = String::from_str(reason);
    }

    pub fn enable(&mut self)
        ensures
            final(self).disabled_reason@.len() == 0,
            *final(self) == (Layer {
                enabled: true,
                disabled_reason: final(self).disabled_reason,
                ..*old(self)
            }),
    {
        self.enabled = true;
        self.disabled_reason = String::new();
    }
}

/// The ordered stack, drawn front of the list first in the panel.
#[derive(Clone, Debug)]
pub struct LayerStack {
    pub layers: Vec<Layer>,
    pub next_id: u32,
}

impl Default for LayerStack {
    fn default() -> (s: Self)
        ensures
            s.layers@.len() == 0,
            s.next_id == 0,
            s.wf(),
    {
        LayerStack { layers: Vec::new(), next_id: 0 }
    }
}

impl LayerStack {
    /// Ids are never reused: each layer's is below the next one to give out, and
    /// no two layers share one.
    pub open spec fn wf(&self) -> bool {
        &&& forall|i: int|
            0 <= i < self.layers@.len() ==> (#[trigger] self.layers@[i]).id.0 < self.next_id
        &&& forall|i: int, j: int|
            0 <= i < j < self.layers@.len() ==> self.layers@[i].id != self.layers@[j].id
    }

    /// Whether a layer has this id.
    pub open spec fn holds(&self, id: LayerId) -> bool {
        exists|i: int| 0 <= i < self.layers@.len() && #[trigger] self.layers@[i].id == id
    }

    /// Whether this is the stack the app opens with.
    pub open spec fn is_opening(&self) -> bool {
        &&& self.next_id == 7
        &&& self.layers@.len() == 7
        &&& forall|i: int|
            0 <= i < 7 ==> {
                let l = #[trigger] self.layers@[i];
                &&& l.id == LayerId(i as u32)
                &&& l.kind == default_layer(i).0
                &&& l.name@ == default_layer(i).1
                &&& l.visible == default_layer(i).2
                &&& l.enabled
                &&& l.disabled_reason@.len() == 0
                &&& l.opacity == ONE
                &&& !l.selected
            }
    }

    /// The stack the app opens with. The isosurface is present but off, because
    /// on a fresh run there is nothing to make an isosurface of and an empty one
    /// looks like a broken renderer.
    pub fn defaults() -> (s: Self)
        ensures
            s.wf(),
            s.is_opening(),
    {
        let mut s: LayerStack = LayerStack::default();
        let _duct: LayerId = s.push(LayerKind::Duct, "Duct");
        let _particles: LayerId = s.push(LayerKind::Particles, "Particles");
        let _volume: LayerId = s.push(LayerKind::Volume, "Volume");
        let iso: LayerId = s.push(LayerKind::Isosurface, "Q-isosurface");
        s.set_visible(iso, false);
        let streamlines: LayerId = s.push(LayerKind::Streamlines, "Streamlines");
        s.set_visible(streamlines, false);
        let _probes: LayerId = s.push(LayerKind::Probes, "Probes");
        let grid: LayerId = s.push(LayerKind::GridOutline, "Grid outline");
        s.set_visible(grid, false);
        s
    }

    /// Add a layer at the end of the list, under an id that no layer has had.
    pub fn push(&mut self, kind: LayerKind, name: &str) -> (id: LayerId)
        requires
            old(self).wf(),
            old(self).next_id < u32::MAX,
        ensures
            final(self).wf(),
            id == LayerId(old(self).next_id),
            !old(self).holds(id),
            final(self).next_id == old(self).next_id + 1,
            final(self).layers@ == old(self).layers@.push(final(self).layers@.last()),
            final(self).layers@.last().fresh(id, kind, name@),
    {
        let id: LayerId = LayerId(self.next_id);
        self.next_id = self.next_id + 1;
        self.layers.push(Layer::new(id, kind, name));
        id
    }

    pub fn layers(&self) -> (l: &Vec<Layer>)
        ensures
            l@ == self.layers@,
    {
        &self.layers
    }

    pub fn layers_mut(&mut self) -> (l: &mut [Layer])
        ensures
            l@ == old(self).layers@,
            final(self).layers@ == final(l)@,
            final(self).next_id == old(self).next_id,
    {
        self.layers.as_mut_slice()
    }

    /// Whether place `i` is the first one with this id.
    pub open spec fn first_with(&self, id: LayerId, i: int) -> bool {
        &&& 0 <= i < self.layers@.len()
        &&& self.layers@[i].id == id
        &&& forall|j: int| 0 <= j < i ==> #[trigger] self.layers@[j].id != id
    }

    fn position(&self, id: LayerId) -> (p: Option<usize>)
        ensures
            match p {
                Some(i) => self.first_with(id, i as int),
                None => !self.holds(id),
            },
    {
        let mut i: usize = 0;
        while i < self.layers.len()
            invariant
                i <= self.layers@.len(),
                forall|j: int| 0 <= j < i ==> #[trigger] self.layers@[j].id != id,
            decreases self.layers@.len() - i,
        {
            if self.layers[i].id == id {
                return Some(i);
            }
            i += 1;
        }
        None
    }

    pub fn get(&self, id: LayerId) -> (l: Option<&Layer>)
        ensures
            match l {
                Some(l) => exists|i: int| #[trigger]
                    self.first_with(id, i) && self.layers@[i] == *l,
                None => !self.holds(id),
            },
    {
        match self.position(id) {
            Some(i) => Some(&self.layers[i]),
            None => None,
        }
    }

    pub fn get_mut(&mut self, id: LayerId) -> (l: Option<&mut Layer>)
        ensures
            match l {
                Some(l) => exists|i: int| #[trigger]
                    old(self).first_with(id, i) && old(self).layers@[i] == *l && final(self).layers@
                        == old(self).layers@.update(i, *final(l)),
                None => !old(self).holds(id) && final(self).layers@ == old(self).layers@,
            },
            final(self).next_id == old(self).next_id,
    {
        match self.position(id) {
            Some(i) => Some(&mut self.layers[i]),
            None => None,
        }
    }

    /// First layer of a given kind. Handy for the singleton layers (Volume,
    /// Particles); ambiguous for the indexed ones, which is why the index is
    /// part of [`LayerKind`].
    pub fn find(&self, kind: LayerKind) -> (id: Option<LayerId>)
        ensures
            match id {
                Some(id) => exists|i: int|
                    0 <= i < self.layers@.len() && #[trigger] self.layers@[i].kind == kind
                        && self.layers@[i].id == id && forall|j: int|
                        0 <= j < i ==> #[trigger] self.layers@[j].kind != kind,
                None => forall|i: int|
                    0 <= i < self.layers@.len() ==> #[trigger] self.layers@[i].kind != kind,
            },
    {
        let mut i: usize = 0;
        while i < self.layers.len()
            invariant
                i <= self.layers@.len(),
                forall|j: int| 0 <= j < i ==> #[trigger] self.layers@[j].kind != kind,
            decreases self.layers@.len() - i,
        {
            if self.layers[i].kind == kind {
                return Some(self.layers[i].id);
            }
            i += 1;
        }
        None
    }

    pub fn is_drawn(&self, kind: LayerKind) -> (r: bool)
        ensures
            r <==> exists|i: int|
                0 <= i < self.layers@.len() && #[trigger] self.layers@[i].kind == kind
                    && self.layers@[i].drawn(),
    {
        let mut i: usize = 0;
        while i < self.layers.len()
            invariant
                i <= self.layers@.len(),
                forall|j: int|
                    0 <= j < i ==> !(#[trigger] self.layers@[j].kind == kind
                        && self.layers@[j].drawn()),
            decreases self.layers@.len() - i,
        {
            if self.layers[i].kind == kind && self.layers[i].is_drawn() {
                return true;
            }
            i += 1;
        }
        false
    }

    pub fn set_visible(&mut self, id: LayerId, visible: bool)
        requires
            old(self).wf(),
        ensures
            final(self).wf(),
            final(self).next_id == old(self).next_id,
            final(self).layers@ == old(self).layers@.map_values(
                |l: Layer|
                    if l.id == id {
                        Layer { visible, ..l }
                    } else {
                        l
                    },
            ),
    {
        match self.position(id) {
            Some(i) => {
                self.layers[i].visible = visible;
            },
            None => {},
        }
        proof {
            assert(self.layers@ =~= old(self).layers@.map_values(
                |l: Layer|
                    if l.id == id {
                        Layer { visible, ..l }
                    } else {
                        l
                    },
            ));
        }
    }

    pub fn toggle(&mut self, id: LayerId)
        requires
            old(self).wf(),
        ensures
            final(self).wf(),
            final(self).next_id == old(self).next_id,
            final(self).layers@ == old(self).layers@.map_values(
                |l: Layer|
                    if l.id == id {
                        Layer { visible: !l.visible, ..l }
                    } else {
                        l
                    },
            ),
    {
        match self.position(id) {
            Some(i) => {
                let v: bool = self.layers[i].visible;
                self.layers[i].visible = !v;
            },
            None => {},
        }
        proof {
            assert(self.layers@ =~= old(self).layers@.map_values(
                |l: Layer|
                    if l.id == id {
                        Layer { visible: !l.visible, ..l }
                    } else {
                        l
                    },
            ));
        }
    }

    /// Show only `id`, hiding everything else. The "solo" gesture: the fastest
    /// way to answer "is that artefact coming from the volume or the mesh?".
    pub fn solo(&mut self, id: LayerId)
        ensures
            final(self).next_id == old(self).next_id,
            final(self).layers@ == old(self).layers@.map_values(
                |l: Layer| Layer { visible: l.id == id, ..l },
            ),
    {
        let ghost f = |l: Layer| Layer { visible: l.id == id, ..l };
        let mut i: usize = 0;
        while i < self.layers.len()
            invariant
                i <= self.layers@.len(),
                self.layers@.len() == old(self).layers@.len(),
                self.next_id == old(self).next_id,
                f == (|l: Layer| Layer { visible: l.id == id, ..l }),
                forall|j: int| 0 <= j < i ==> #[trigger] self.layers@[j] == f(old(self).layers@[j]),
                forall|j: int|
                    i <= j < self.layers@.len() ==> #[trigger] self.layers@[j] == old(
                        self,
                    ).layers@[j],
            decreases self.layers@.len() - i,
        {
            let v: bool = self.layers[i].id == id;
            self.layers[i].visible = v;
            i += 1;
        }
        proof {
            assert(self.layers@ =~= old(self).layers@.map_values(f));
        }
    }

    pub fn show_all(&mut self)
        ensures
            final(self).next_id == old(self).next_id,
            final(self).layers@ == old(self).layers@.map_values(
                |l: Layer| Layer { visible: true, ..l },
            ),
    {
        let ghost f = |l: Layer| Layer { visible: true, ..l };
        let mut i: usize = 0;
        while i < self.layers.len()
            invariant
                i <= self.layers@.len(),
                self.layers@.len() == old(self).layers@.len(),
                self.next_id == old(self).next_id,
                f == (|l: Layer| Layer { visible: true, ..l }),
                forall|j: int| 0 <= j < i ==> #[trigger] self.layers@[j] == f(old(self).layers@[j]),
                forall|j: int|
                    i <= j < self.layers@.len() ==> #[trigger] self.layers@[j] == old(
                        self,
                    ).layers@[j],
            decreases self.layers@.len() - i,
        {
            self.layers[i].visible = true;
            i += 1;
        }
        proof {
            assert(self.layers@ =~= old(self).layers@.map_values(f));
        }
    }

    /// Select exactly one layer, or nothing when `id` is `None`. Selection is
    /// single because the gizmo is single; multi-select would need a group
    /// transform and there is nothing asking for one.
    pub fn select(&mut self, id: Option<LayerId>)
        ensures
            final(self).next_id == old(self).next_id,
            final(self).layers@ == old(self).layers@.map_values(
                |l: Layer| Layer { selected: id == Some(l.id), ..l },
            ),
    {
        let ghost f = |l: Layer| Layer { selected: id == Some(l.id), ..l };
        let mut i: usize = 0;
        while i < self.layers.len()
            invariant
                i <= self.layers@.len(),
                self.layers@.len() == old(self).layers@.len(),
                self.next_id == old(self).next_id,
                f == (|l: Layer| Layer { selected: id == Some(l.id), ..l }),
                forall|j: int| 0 <= j < i ==> #[trigger] self.layers@[j] == f(old(self).layers@[j]),
                forall|j: int|
                    i <= j < self.layers@.len() ==> #[trigger] self.layers@[j] == old(
                        self,
                    ).layers@[j],
            decreases self.layers@.len() - i,
        {
            let s: bool = match id {
                Some(d) => self.layers[i].id == d,
                None => false,
            };
            self.layers[i].selected = s;
            i += 1;
        }
        proof {
            assert(self.layers@ =~= old(self).layers@.map_values(f));
        }
    }

    /// Whether the layer at `i` is the first selected one.
    pub open spec fn first_selected(&self, i: int) -> bool {
        &&& 0 <= i < self.layers@.len()
        &&& self.layers@[i].selected
        &&& forall|j: int| 0 <= j < i ==> !(#[trigger] self.layers@[j].selected)
    }

    /// The first selected layer.
    pub fn selected(&self) -> (l: Option<&Layer>)
        ensures
            match l {
                Some(l) => exists|i: int| #[trigger]
                    self.first_selected(i) && self.layers@[i] == *l,
                None => forall|i: int|
                    0 <= i < self.layers@.len() ==> !(#[trigger] self.layers@[i].selected),
            },
    {
        let mut i: usize = 0;
        while i < self.layers.len()
            invariant
                i <= self.layers@.len(),
                forall|j: int| 0 <= j < i ==> !(#[trigger] self.layers@[j].selected),
            decreases self.layers@.len() - i,
        {
            if self.layers[i].selected {
                assert(self.first_selected(i as int));
                return Some(&self.layers[i]);
            }
            i += 1;
        }
        None
    }

    /// Put an obstruction layer back at index `i`, shifting the ones at or above
    /// it up: the inverse of [`Self::remove`], for when the app could not take
    /// the obstruction out after all.
    pub fn insert_obstruction(&mut self, i: usize, name: &str) -> (id: LayerId)
        requires
            old(self).wf(),
            old(self).next_id < u32::MAX,
            forall|k: int|
                0 <= k < old(self).layers@.len() ==> (#[trigger] old(self).layers@[k]).kind
                    != LayerKind::Obstruction(usize::MAX),
        ensures
            final(self).wf(),
            id == LayerId(old(self).next_id),
            !old(self).holds(id),
            final(self).next_id == old(self).next_id + 1,
            final(self).layers@ == old(self).layers@.map_values(
                |l: Layer| Layer { kind: l.kind.with_obstruction(i), ..l },
            ).push(final(self).layers@.last()),
            final(self).layers@.last().fresh(id, LayerKind::Obstruction(i), name@),
    {
        let ghost f = |l: Layer| Layer { kind: l.kind.with_obstruction(i), ..l };
        let mut k: usize = 0;
        while k < self.layers.len()
            invariant
                old(self).wf(),
                forall|k: int|
                    0 <= k < old(self).layers@.len() ==> (#[trigger] old(self).layers@[k]).kind
                        != LayerKind::Obstruction(usize::MAX),
                k <= self.layers@.len(),
                self.layers@.len() == old(self).layers@.len(),
                self.next_id == old(self).next_id,
                f == (|l: Layer| Layer { kind: l.kind.with_obstruction(i), ..l }),
                forall|j: int| 0 <= j < k ==> #[trigger] self.layers@[j] == f(old(self).layers@[j]),
                forall|j: int|
                    k <= j < self.layers@.len() ==> #[trigger] self.layers@[j] == old(
                        self,
                    ).layers@[j],
            decreases self.layers@.len() - k,
        {
            match self.layers[k].kind {
                LayerKind::Obstruction(j) => {
                    if j >= i {
                        self.layers[k].kind = LayerKind::Obstruction(j + 1);
                    }
                },
                _ => {},
            }
            k += 1;
        }
        proof {
            assert(self.layers@ =~= old(self).layers@.map_values(f));
        }
        self.push(LayerKind::Obstruction(i), name)
    }

    /// Remove a layer, keeping the payload indices of its siblings correct.
    ///
    /// This is the reason removal is a method rather than a plain removal from
    /// the list at the call site: every index above the removed one in the same
    /// list has to shift down, and forgetting that leaves gizmos attached to the
    /// wrong object, a bug that is very hard to see and very easy to create.
    pub fn remove(&mut self, id: LayerId) -> (removed: Option<Layer>)
        requires
            old(self).wf(),
        ensures
            final(self).wf(),
            final(self).next_id == old(self).next_id,
            match removed {
                Some(l) => l.id == id && exists|p: int|
                    0 <= p < old(self).layers@.len() && #[trigger] old(self).layers@[p] == l
                        && final(self).layers@ == old(self).layers@.remove(p).map_values(
                        |k: Layer| Layer { kind: k.kind.without(l.kind), ..k },
                    ),
                None => !old(self).holds(id) && final(self).layers@ == old(self).layers@,
            },
            !final(self).holds(id),
    {
        let p: usize = match self.position(id) {
            Some(p) => p,
            None => {
                return None;
            },
        };
        let removed: Layer = self.layers.remove(p);
        let gone: LayerKind = removed.kind;
        let ghost rest = self.layers@;
        let ghost f = |k: Layer| Layer { kind: k.kind.without(gone), ..k };
        let mut i: usize = 0;
        while i < self.layers.len()
            invariant
                i <= self.layers@.len(),
                self.layers@.len() == rest.len(),
                self.next_id == old(self).next_id,
                f == (|k: Layer| Layer { kind: k.kind.without(gone), ..k }),
                forall|j: int| 0 <= j < i ==> #[trigger] self.layers@[j] == f(rest[j]),
                forall|j: int|
                    i <= j < self.layers@.len() ==> #[trigger] self.layers@[j] == rest[j],
            decreases self.layers@.len() - i,
        {
            let k: LayerKind = self.layers[i].kind;
            self.layers[i].kind = k.less(gone);
            i += 1;
        }
        proof {
            assert(self.layers@ =~= rest.map_values(f));
            assert forall|j: int| 0 <= j < self.layers@.len() implies #[trigger] self.layers@[j].id
                != id by {
                assert(rest[j] == old(self).layers@[if j < p {
                    j
                } else {
                    j + 1
                }]);
            }
        }
        Some(removed)
    }

    /// Drop every vent layer and put back one per name, in order: for when the
    /// app has to roll the vent list back to what the lattice was built with.
    pub fn reset_vents(&mut self, names: &Vec<String>)
        requires
            old(self).wf(),
            old(self).next_id + names@.len() <= u32::MAX,
        ensures
            final(self).wf(),
            final(self).next_id == old(self).next_id + names@.len(),
            ({
                let kept = old(self).layers@.filter(|l: Layer| !(l.kind is Vent));
                &&& final(self).layers@.len() == kept.len() + names@.len()
                &&& final(self).layers@.take(kept.len() as int) == kept
                &&& forall|i: int|
                    0 <= i < names@.len() ==> (#[trigger] final(self).layers@[kept.len() + i]).fresh(
                        LayerId((old(self).next_id + i) as u32),
                        LayerKind::Vent(i as usize),
                        names@[i]@,
                    )
            }),
    {
        let ghost keep = |l: Layer| !(l.kind is Vent);
        let ghost before = self.layers@;
        let ghost kept = before.filter(keep);
        let mut i: usize = 0;
        let ghost mut seen: int = 0;
        proof {
            assert(before.take(0).filter(keep) =~= Seq::<Layer>::empty()) by {
                reveal(Seq::filter);
            }
            assert(self.layers@ =~= Seq::<Layer>::empty() + before.skip(0));
        }
        while i < self.layers.len()
            invariant
                self.wf(),
                self.next_id == old(self).next_id,
                0 <= seen <= before.len(),
                before.take(seen).filter(keep).len() == i,
                self.layers@ == before.take(seen).filter(keep) + before.skip(seen),
                keep == (|l: Layer| !(l.kind is Vent)),
            decreases before.len() - seen,
        {
            assert(seen < before.len());
            assert(self.layers@[i as int] == before[seen]);
            let vent: bool = match self.layers[i].kind {
                LayerKind::Vent(_) => true,
                _ => false,
            };
            proof {
                lemma_take_filter(before, seen, keep);
            }
            if vent {
                let ghost prev = *self;
                let _gone: Layer = self.layers.remove(i);
                proof {
                    lemma_removed_ids(prev.layers@, i as int, prev.next_id);
                    assert(self.layers@ =~= before.take(seen + 1).filter(keep) + before.skip(
                        seen + 1,
                    ));
                    seen = seen + 1;
                }
            } else {
                i += 1;
                proof {
                    assert(self.layers@ =~= before.take(seen + 1).filter(keep) + before.skip(
                        seen + 1,
                    ));
                    seen = seen + 1;
                }
            }
        }
        proof {
            assert(seen == before.len()) by {
                if seen < before.len() {
                    assert(self.layers@.len() == i + (before.len() - seen));
                }
            }
            assert(before.take(seen) =~= before);
            assert(self.layers@ =~= kept);
        }
        let ghost kept_len = kept.len();
        let mut n: usize = 0;
        while n < names.len()
            invariant
                self.wf(),
                old(self).next_id + names@.len() <= u32::MAX,
                n <= names@.len(),
                self.next_id == old(self).next_id + n,
                kept_len == kept.len(),
                self.layers@.len() == kept_len + n,
                self.layers@.take(kept_len as int) == kept,
                forall|i: int|
                    0 <= i < n ==> (#[trigger] self.layers@[kept_len + i]).fresh(
                        LayerId((old(self).next_id + i) as u32),
                        LayerKind::Vent(i as usize),
                        names@[i]@,
                    ),
            decreases names@.len() - n,
        {
            let ghost prev = self.layers@;
            let _id: LayerId = self.push(LayerKind::Vent(n), names[n].as_str());
            proof {
                assert(self.layers@.take(kept_len as int) =~= prev.take(kept_len as int));
            }
            n += 1;
        }
    }

    /// Move a layer one position toward the front of the list.
    pub fn move_up(&mut self, id: LayerId)
        requires
            old(self).wf(),
        ensures
            final(self).wf(),
            final(self).next_id == old(self).next_id,
            !old(self).holds(id) ==> final(self).layers@ == old(self).layers@,
            forall|p: int|
                0 <= p < old(self).layers@.len() && #[trigger] old(self).layers@[p].id == id
                    ==> final(self).layers@ == if p > 0 {
                    swapped(old(self).layers@, p - 1)
                } else {
                    old(self).layers@
                },
    {
        if let Some(p) = self.position(id) {
            if p > 0 {
                self.swap_with_next(p - 1);
            }
        }
    }

    /// Move a layer one position toward the back of the list.
    pub fn move_down(&mut self, id: LayerId)
        requires
            old(self).wf(),
        ensures
            final(self).wf(),
            final(self).next_id == old(self).next_id,
            !old(self).holds(id) ==> final(self).layers@ == old(self).layers@,
            forall|p: int|
                0 <= p < old(self).layers@.len() && #[trigger] old(self).layers@[p].id == id
                    ==> final(self).layers@ == if p + 1 < old(self).layers@.len() {
                    swapped(old(self).layers@, p)
                } else {
                    old(self).layers@
                },
    {
        if let Some(p) = self.position(id) {
            if p < self.layers.len() - 1 {
                self.swap_with_next(p);
            }
        }
    }

    fn swap_with_next(&mut self, p: usize)
        requires
            old(self).wf(),
            p + 1 < old(self).layers@.len(),
        ensures
            final(self).wf(),
            final(self).next_id == old(self).next_id,
            final(self).layers@ == swapped(old(self).layers@, p as int),
    {
        let last: usize = self.layers.len() - 1;
        assert(p < last);
        let l: Layer = self.layers.remove(p);
        self.layers.insert(p + 1, l);
        proof {
            assert(self.layers@ =~= swapped(old(self).layers@, p as int));
        }
    }

    pub fn len(&self) -> (n: usize)
        ensures
            n == self.layers@.len(),
    {
        self.layers.len()
    }

    pub fn is_empty(&self) -> (r: bool)
        ensures
            r == (self.layers@.len() == 0),
    {
        self.layers.len() == 0
    }
}

/// A list with the elements at `p` and `p + 1` exchanged.
pub open spec fn swapped(s: Seq<Layer>, p: int) -> Seq<Layer> {
    s.update(p, s[p + 1]).update(p + 1, s[p])
}

proof fn lemma_take_filter(s: Seq<Layer>, n: int, keep: spec_fn(Layer) -> bool)
    requires
        0 <= n < s.len(),
    ensures
        s.take(n + 1).filter(keep) == if keep(s[n]) {
            s.take(n).filter(keep).push(s[n])
        } else {
            s.take(n).filter(keep)
        },
{
    reveal(Seq::filter);
    assert(s.take(n + 1).drop_last() =~= s.take(n));
    assert(s.take(n + 1).last() == s[n]);
}

/// Taking a layer out leaves distinct ids distinct.
proof fn lemma_removed_ids(s: Seq<Layer>, p: int, next_id: u32)
    requires
        0 <= p < s.len(),
        forall|i: int| 0 <= i < s.len() ==> (#[trigger] s[i]).id.0 < next_id,
        forall|i: int, j: int| 0 <= i < j < s.len() ==> s[i].id != s[j].id,
    ensures
        forall|i: int| 0 <= i < s.remove(p).len() ==> (#[trigger] s.remove(p)[i]).id.0 < next_id,
        forall|i: int, j: int|
            0 <= i < j < s.remove(p).len() ==> s.remove(p)[i].id != s.remove(p)[j].id,
{
}

/// Putting an obstruction back undoes what taking it out did to every other
/// layer: each of the remaining kinds is again what it was.
pub proof fn putting_an_obstruction_back_restores_the_indices(kind: LayerKind, i: usize)
    requires
        kind != LayerKind::Obstruction(i),
    ensures
        kind.without(LayerKind::Obstruction(i)).with_obstruction(i) == kind,
{
}

/// Removing an object renumbers only its own list: no other kind of layer
/// changes, and neither does an index below the removed one.
pub proof fn removal_renumbers_one_list_only(kind: LayerKind, gone: LayerKind)
    ensures
        gone is Obstruction && !(kind is Obstruction) ==> kind.without(gone) == kind,
        gone is Vent && !(kind is Vent) ==> kind.without(gone) == kind,
        gone is Slice && !(kind is Slice) ==> kind.without(gone) == kind,
        !(gone is Obstruction) && !(gone is Vent) && !(gone is Slice) ==> kind.without(gone)
            == kind,
        kind.without(gone).transformable() == kind.transformable(),
{
}

/// Two layers that named different objects of a list still do after a third
/// object has left it.
pub proof fn renumbering_keeps_objects_apart(a: LayerKind, b: LayerKind, gone: LayerKind)
    requires
        a != b,
        a != gone,
        b != gone,
    ensures
        a.without(gone) != b.without(gone),
{
}

/// Selecting leaves at most one layer selected, the one asked for.
pub proof fn selection_is_single(before: Seq<Layer>, after: Seq<Layer>, id: Option<LayerId>)
    requires
        forall|i: int, j: int| 0 <= i < j < before.len() ==> before[i].id != before[j].id,
        after == before.map_values(|l: Layer| Layer { selected: id == Some(l.id), ..l }),
    ensures
        forall|i: int, j: int|
            0 <= i < j < after.len() ==> !(after[i].selected && after[j].selected),
        forall|i: int|
            0 <= i < after.len() && (#[trigger] after[i]).selected ==> id == Some(after[i].id),
{
}

/// The layers the app opens with: kind, name and visibility.
pub open spec fn default_layer(i: int) -> (LayerKind, Seq<char>, bool) {
    if i == 0 {
        (LayerKind::Duct, "Duct"@, true)
    } else if i == 1 {
        (LayerKind::Particles, "Particles"@, true)
    } else if i == 2 {
        (LayerKind::Volume, "Volume"@, true)
    } else if i == 3 {
        (LayerKind::Isosurface, "Q-isosurface"@, false)
    } else if i == 4 {
        (LayerKind::Streamlines, "Streamlines"@, false)
    } else if i == 5 {
        (LayerKind::Probes, "Probes"@, true)
    } else {
        (LayerKind::GridOutline, "Grid outline"@, false)
    }
}

/// Moving a layer exchanges it with its neighbour and moves no other; moving it back
/// restores the order.
pub proof fn a_move_exchanges_two_neighbours(s: Seq<Layer>, p: int, i: int)
    requires
        0 <= p,
        p + 1 < s.len(),
        0 <= i < s.len(),
    ensures
        swapped(s, p).len() == s.len(),
        swapped(s, p)[p] == s[p + 1],
        swapped(s, p)[p + 1] == s[p],
        i != p && i != p + 1 ==> swapped(s, p)[i] == s[i],
        swapped(swapped(s, p), p) == s,
{
    assert(swapped(swapped(s, p), p) =~= s);
}

/// A layer is drawn only while it is shown, works and can be seen; and a fresh one is.
pub proof fn only_what_can_be_seen_is_drawn(l: Layer, id: LayerId, kind: LayerKind, name: Seq<char>)
    ensures
        !l.visible || !l.enabled ==> !l.drawn(),
        l.opacity % 0x8000_0000 == 0 || l.opacity >= 0x8000_0000 ==> !l.drawn(),
        l.visible && l.enabled && 0 < l.opacity <= ONE ==> l.drawn(),
        l.fresh(id, kind, name) ==> l.drawn() && l.id == id && l.kind == kind && !l.selected,
{
}

/// The objects that can be moved are the duct, the obstructions, the vents and the slices;
/// what is drawn of the field itself cannot.
pub proof fn only_objects_can_be_moved(i: usize)
    ensures
        LayerKind::Duct.transformable(),
        LayerKind::Obstruction(i).transformable(),
        LayerKind::Vent(i).transformable(),
        LayerKind::Slice(i).transformable(),
        !LayerKind::Particles.transformable(),
        !LayerKind::Volume.transformable(),
        !LayerKind::Isosurface.transformable(),
        !LayerKind::Streamlines.transformable(),
        !LayerKind::Probes.transformable(),
        !LayerKind::GridOutline.transformable(),
{
}

/// An index keeps naming its object when another leaves the list: what stood at `j` stands
/// where the list now holds it.
pub proof fn an_index_follows_its_object<T>(list: Seq<T>, j: usize, i: usize)
    requires
        i < list.len() <= usize::MAX,
        j < list.len(),
        i != j,
    ensures
        LayerKind::Obstruction(j).without(LayerKind::Obstruction(i)) matches LayerKind::Obstruction(
            k,
        ) && k < list.len() - 1 && list.remove(i as int)[k as int] == list[j as int],
        LayerKind::Vent(j).without(LayerKind::Vent(i)) matches LayerKind::Vent(k) && k < list.len()
            - 1 && list.remove(i as int)[k as int] == list[j as int],
        LayerKind::Slice(j).without(LayerKind::Slice(i)) matches LayerKind::Slice(k) && k
            < list.len() - 1 && list.remove(i as int)[k as int] == list[j as int],
{
}

/// An index keeps naming its object when another is put into the list before it.
pub proof fn an_index_makes_room_for_an_object<T>(list: Seq<T>, j: usize, i: usize, new: T)
    requires
        i <= list.len() < usize::MAX,
        j < list.len(),
    ensures
        LayerKind::Obstruction(j).with_obstruction(i) matches LayerKind::Obstruction(k) && k
            <= list.len() && list.insert(i as int, new)[k as int] == list[j as int],
        LayerKind::Vent(j).with_obstruction(i) == LayerKind::Vent(j),
        LayerKind::Slice(j).with_obstruction(i) == LayerKind::Slice(j),
{
}

} // verus!
