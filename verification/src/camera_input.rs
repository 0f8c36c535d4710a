//! Mapping mouse and keyboard input onto camera moves.
//!
//! Given the buttons currently held and the modifiers, which of orbit, pan or
//! dolly is this drag? It is the part users notice instantly when it is wrong,
//! and it has to interact with two other systems that also want the mouse:
//!
//! * **The panels.** When the pointer belongs to a panel the camera must ignore
//!   it entirely, or the view spins while you drag a slider.
//! * **The gizmo.** While a gizmo is hovered or in use, the drag belongs to the
//!   gizmo.
//!
//! Both are inputs to [`CameraInput::gesture`] rather than checks scattered
//! through the event handler, so the precedence is stated once.
use vstd::prelude::*;
use crate::config::ONE;
use crate::float_order::{eq32, equal32, greater32, max32, neg32, negated32};

verus! {

/// What a drag is doing.
#[derive(Clone, Copy, Debug, PartialEq, Eq, Structural)]
pub enum Gesture {
    /// No button that moves the camera.
    Idle,
    Orbit,
    Pan,
    /// Dolly driven by vertical drag rather than the wheel, for tablets and
    /// for people who learned it in CAD.
    DollyDrag,
}

/// Buttons and modifiers, as the event loop sees them.
#[derive(Clone, Copy, Debug, PartialEq, Eq, Structural)]
pub struct MouseState {
    pub left: bool,
    pub middle: bool,
    pub right: bool,
    pub shift: bool,
    pub ctrl: bool,
    pub alt: bool,
}

impl Default for MouseState {
    fn default() -> (m: Self)
        ensures
            m == (MouseState {
                left: false,
                middle: false,
                right: false,
                shift: false,
                ctrl: false,
                alt: false,
            }),
    {
        MouseState {
            left: false,
            middle: false,
            right: false,
            shift: false,
            ctrl: false,
            alt: false,
        }
    }
}

/// Who owns the pointer this frame.
#[derive(Clone, Copy, Debug, PartialEq, Eq, Structural)]
pub struct PointerOwnership {
    /// The pointer is over a panel or dragging a widget.
    pub ui_capture: bool,
    /// A transform gizmo is hovered or being dragged.
    pub gizmo_active: bool,
}

impl Default for PointerOwnership {
    fn default() -> (o: Self)
        ensures
            o == (PointerOwnership { ui_capture: false, gizmo_active: false }),
    {
        PointerOwnership { ui_capture: false, gizmo_active: false }
    }
}

impl PointerOwnership {
    /// Whether nobody else wants the mouse.
    pub open spec fn free(self) -> bool {
        !self.ui_capture && !self.gizmo_active
    }

    pub fn viewport_has_mouse(self) -> (r: bool)
        ensures
            r == self.free(),
    {
        !self.ui_capture && !self.gizmo_active
    }
}

/// A camera move. Amounts are `f32` bits.
#[derive(Clone, Copy, Debug, PartialEq, Eq, Structural)]
pub enum CameraMove {
    Stay,
    /// Swing about the target by this many pixels across and down.
    Orbit { dx: u32, dy: u32 },
    /// Shift the target by this many pixels across and down.
    Pan { dx: u32, dy: u32, viewport_height: u32 },
    /// Move toward the target by this many wheel notches.
    Dolly { notches: u32 },
}

/// Camera control tuning and the mapping itself. Gains are `f32` bits.
#[derive(Clone, Copy, Debug, PartialEq, Eq, Structural)]
pub struct CameraInput {
    /// Wheel notches per dolly step. Positive means "wheel forward zooms in",
    /// which is the near-universal convention.
    pub wheel_gain: u32,
    /// Pixels of vertical drag per wheel notch, for [`Gesture::DollyDrag`].
    pub dolly_drag_pixels: u32,
    /// Invert vertical orbit, for people who expect the CAD convention.
    pub invert_orbit_y: bool,
}

/// The sensitivities of a fresh session.
pub open spec fn default_camera_input() -> CameraInput {
    CameraInput {
        wheel_gain: ONE,
        dolly_drag_pixels: 0x4270_0000,
        invert_orbit_y: false,
    }
}

impl Default for CameraInput {
    fn default() -> (c: Self)
        ensures
            c == default_camera_input(),
    {
        CameraInput { wheel_gain: ONE, dolly_drag_pixels: 0x4270_0000, invert_orbit_y: false }
    }
}

/// What a drag means.
pub open spec fn gesture_of(mouse: MouseState, owner: PointerOwnership) -> Gesture {
    if !owner.free() {
        Gesture::Idle
    } else if mouse.middle || (mouse.left && mouse.shift) {
        Gesture::Pan
    } else if mouse.right || (mouse.left && mouse.alt) {
        Gesture::DollyDrag
    } else if mouse.left {
        Gesture::Orbit
    } else {
        Gesture::Idle
    }
}

impl CameraInput {
    /// Decide what a drag means.
    ///
    /// The precedence is: nobody else wants the mouse, then middle (or
    /// shift+left) pans, right or alt+left dollies, plain left orbits. Middle
    /// before left matters because a mouse can report both while a chorded
    /// drag is in progress, and pan is the one the user meant.
    pub fn gesture(&self, mouse: MouseState, owner: PointerOwnership) -> (g: Gesture)
        ensures
            g == gesture_of(mouse, owner),
    {
        if !owner.viewport_has_mouse() {
            return Gesture::Idle;
        }
        if mouse.middle || (mouse.left && mouse.shift) {
            Gesture::Pan
        } else if mouse.right || (mouse.left && mouse.alt) {
            Gesture::DollyDrag
        } else if mouse.left {
            Gesture::Orbit
        } else {
            Gesture::Idle
        }
    }

    /// The vertical part of an orbit drag: reversed for the CAD convention.
    pub open spec fn orbit_dy(&self, dy: u32) -> u32 {
        if self.invert_orbit_y {
            negated32(dy)
        } else {
            dy
        }
    }

    /// The camera move of a gesture and a mouse delta in pixels. `divide` divides two
    /// `f32`: dragging up moves closer, one notch for each `dolly_drag_pixels`, which are
    /// one at least.
    pub fn apply_drag<D: Fn(u32, u32) -> u32>(
        &self,
        gesture: Gesture,
        dx: u32,
        dy: u32,
        viewport_height: u32,
        divide: &D,
    ) -> (m: CameraMove)
        requires
            gesture == Gesture::DollyDrag ==> divide.requires(
                (negated32(dy), greater32(self.dolly_drag_pixels, ONE)),
            ),
        ensures
            gesture == Gesture::Idle ==> m == CameraMove::Stay,
            gesture == Gesture::Orbit ==> m == (CameraMove::Orbit { dx, dy: self.orbit_dy(dy) }),
            gesture == Gesture::Pan ==> m == (CameraMove::Pan { dx, dy, viewport_height }),
            gesture == Gesture::DollyDrag ==> m is Dolly && divide.ensures(
                (negated32(dy), greater32(self.dolly_drag_pixels, ONE)),
                m->notches,
            ),
    {
        match gesture {
            Gesture::Idle => CameraMove::Stay,
            Gesture::Orbit => CameraMove::Orbit {
                dx,
                dy: if self.invert_orbit_y {
                    neg32(dy)
                } else {
                    dy
                },
            },
            Gesture::Pan => CameraMove::Pan { dx, dy, viewport_height },
            Gesture::DollyDrag => {
                let notches: u32 = divide(neg32(dy), max32(self.dolly_drag_pixels, ONE));
                CameraMove::Dolly { notches }
            },
        }
    }

    /// The camera move of a wheel event. `times` multiplies two `f32`.
    /// Ignored when the pointer is not the viewport's, which is what stops the
    /// wheel from zooming the scene while it scrolls a list.
    pub fn apply_wheel<T: Fn(u32, u32) -> u32>(
        &self,
        notches: u32,
        owner: PointerOwnership,
        times: &T,
    ) -> (m: CameraMove)
        requires
            times.requires((notches, self.wheel_gain)),
        ensures
            !owner.free() || eq32(notches, 0) ==> m == CameraMove::Stay,
            owner.free() && !eq32(notches, 0) ==> m is Dolly && times.ensures(
                (notches, self.wheel_gain),
                m->notches,
            ),
    {
        if !owner.viewport_has_mouse() || equal32(notches, 0) {
            return CameraMove::Stay;
        }
        let moved: u32 = times(notches, self.wheel_gain);
        CameraMove::Dolly { notches: moved }
    }
}

/// Inverting the vertical orbit reverses the vertical part of a drag and nothing else,
/// and inverting it twice leaves it as it was.
pub proof fn inverting_the_orbit_reverses_the_vertical_part(c: CameraInput, dy: u32)
    ensures
        (CameraInput { invert_orbit_y: !c.invert_orbit_y, ..c }).orbit_dy(dy) == negated32(
            c.orbit_dy(dy),
        ),
        negated32(negated32(dy)) == dy,
{
}

/// Keyboard shortcut for a view preset: its place in a list of `presets` views.
///
/// Numeric keys, in the order of the list. Deliberately not the CAD numpad
/// convention: a shortcut on a key half the machines do not have is not a
/// shortcut.
pub fn preset_for_digit(digit: u32, presets: usize) -> (p: Option<usize>)
    ensures
        p == if 1 <= digit <= presets {
            Some((digit - 1) as usize)
        } else {
            None
        },
{
    if digit < 1 {
        return None;
    }
    let i: usize = (digit - 1) as usize;
    if i < presets {
        Some(i)
    } else {
        None
    }
}

/// While a panel or a gizmo owns the pointer no button moves the camera.
pub proof fn the_ui_and_the_gizmo_take_precedence(mouse: MouseState, owner: PointerOwnership)
    requires
        owner.ui_capture || owner.gizmo_active,
    ensures
        gesture_of(mouse, owner) == Gesture::Idle,
{
}

/// With the pointer free, the middle button pans, the right one dollies and the left one
/// orbits, unless Shift makes it pan or Alt makes it dolly. Nothing else moves the camera,
/// and Ctrl changes nothing.
pub proof fn each_button_has_its_gesture(mouse: MouseState, owner: PointerOwnership)
    requires
        !owner.ui_capture,
        !owner.gizmo_active,
    ensures
        gesture_of(mouse, owner) == Gesture::Idle <==> !mouse.left && !mouse.middle && !mouse.right,
        gesture_of(mouse, owner) == Gesture::Orbit <==> mouse.left && !mouse.middle && !mouse.right
            && !mouse.shift && !mouse.alt,
        mouse.middle ==> gesture_of(mouse, owner) == Gesture::Pan,
        mouse.left && mouse.shift ==> gesture_of(mouse, owner) == Gesture::Pan,
        mouse.right && !mouse.middle && !mouse.left ==> gesture_of(mouse, owner)
            == Gesture::DollyDrag,
        mouse.left && mouse.alt && !mouse.shift && !mouse.middle ==> gesture_of(mouse, owner)
            == Gesture::DollyDrag,
        mouse.left && mouse.right && !mouse.shift && !mouse.middle ==> gesture_of(mouse, owner)
            == Gesture::DollyDrag,
        gesture_of(MouseState { ctrl: !mouse.ctrl, ..mouse }, owner) == gesture_of(mouse, owner),
{
}

} // verus!
