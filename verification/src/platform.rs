//! Window events into UI input: what each event queues, and who captures it.
//!
//! Three details are not mechanical:
//!
//! * **Events, not state.** Input is queued as it arrives, not copied once per frame,
//!   so a click that arrives and is released inside one frame still registers.
//! * **Physical pixels throughout.** The display size, the framebuffer scale and the
//!   mouse position must agree about which coordinate space they are in, or the UI is
//!   offset from the cursor by the DPI factor.
//! * **Modifiers separately.** The UI needs both the physical key events *and* the
//!   modifier states. Feeding only one of the two breaks either text editing
//!   shortcuts or the gizmo's snap-on-ctrl.
use vstd::prelude::*;
use vstd::string::StrSliceExecFns;
use crate::config::ONE;
use crate::float_order::{finite32, greater32, is_finite32, less32, lt32, max32};
use crate::keys::{
    button_of, icon_of, key_of, map_cursor, map_key, map_mouse_button, CursorIcon, Key, KeyCode,
    MouseButton, MouseCursor, WindowButton,
};
use crate::state::Vec2;

verus! {

/// Which modifiers are held.
#[derive(Clone, Copy, Debug, PartialEq, Eq, Structural)]
pub struct Modifiers {
    pub ctrl: bool,
    pub shift: bool,
    pub alt: bool,
    pub logo: bool,
}

/// What the window reports.
#[derive(Clone, Debug)]
pub enum WindowInput {
    /// The window or its DPI factor changed.
    Resized,
    Focused(bool),
    /// The cursor moved, in physical pixels.
    CursorMoved(Vec2),
    CursorLeft,
    MouseInput { button: WindowButton, pressed: bool },
    /// The wheel turned by whole lines, or a trackpad moved by pixels.
    MouseWheel { lines: bool, delta: Vec2 },
    ModifiersChanged(Modifiers),
    Keyboard { synthetic: bool, pressed: bool, key: Option<KeyCode>, text: Option<String> },
    Other,
}

/// What the UI is fed.
#[derive(Clone, Copy, Debug, PartialEq, Eq, Structural)]
pub enum UiInput {
    /// Re-read the window's size and DPI.
    Resize,
    Focus(bool),
    /// The cursor, in logical pixels.
    MousePos(Vec2),
    /// There is no cursor. Without it, a hovered widget stays hovered after the
    /// pointer leaves the window.
    NoMouse,
    Button(MouseButton, bool),
    /// The wheel, in notches.
    Wheel(Vec2),
    Key(Key, bool),
}

/// Who decides whether the app should also act on an event.
///
/// *Capture*, not "was it a UI event": a mouse move over a panel is still forwarded
/// and still reported as captured, so the camera does not follow the cursor across a
/// slider.
#[derive(Clone, Copy, Debug, PartialEq, Eq, Structural)]
pub enum Capture {
    /// The app acts on it.
    Free,
    /// Captured while the UI wants the mouse.
    Mouse,
    /// Captured while the UI wants the keyboard.
    Keyboard,
}

/// What a window event comes to.
#[derive(Clone, Debug)]
pub struct Handled {
    /// What the UI is fed.
    pub inputs: Vec<UiInput>,
    /// The characters it is fed after that.
    pub typed: Vec<char>,
    pub capture: Capture,
}

/// Keeps the display metrics and the input state in step with the window.
#[derive(Clone, Copy, Debug, PartialEq, Eq, Structural)]
pub struct WinitPlatform {
    /// Logical window size, the UI's coordinate space.
    pub logical_size: Vec2,
    /// Device pixel ratio.
    pub scale_factor: u32,
    /// Last cursor pushed to the window, so the platform call is made only when it
    /// changes. Setting the cursor every frame makes it flicker. `None` is no cursor at
    /// all.
    pub last_cursor: Option<MouseCursor>,
    /// Physical-pixel cursor position, kept because click-to-probe needs it in the
    /// same space as the viewport rectangle.
    pub cursor_physical: Vec2,
    pub modifiers: Modifiers,
    /// True while the window has focus. Events are still processed when it does not
    /// (a drag can end outside), but the sim can throttle on it.
    pub focused: bool,
}

impl Default for WinitPlatform {
    fn default() -> (p: Self)
        ensures
            p == (WinitPlatform {
                logical_size: Vec2 { x: 0x44a0_0000, y: 0x4448_0000 },
                scale_factor: ONE,
                last_cursor: None,
                cursor_physical: Vec2 { x: 0, y: 0 },
                modifiers: Modifiers { ctrl: false, shift: false, alt: false, logo: false },
                focused: true,
            }),
    {
        WinitPlatform {
            logical_size: Vec2 { x: 0x44a0_0000, y: 0x4448_0000 },
            scale_factor: ONE,
            last_cursor: None,
            cursor_physical: Vec2 { x: 0, y: 0 },
            modifiers: Modifiers { ctrl: false, shift: false, alt: false, logo: false },
            focused: true,
        }
    }
}

/// Whether a character is a control character: general category Cc.
pub open spec fn control(c: char) -> bool {
    (c as u32) < 0x20 || 0x7f <= (c as u32) < 0xa0
}

/// The printable characters of a text.
pub open spec fn printable(text: Seq<char>) -> Seq<char> {
    text.filter(|c: char| !control(c))
}

/// What a key event queues: the key, if the UI has a name for it.
pub open spec fn key_inputs(pressed: bool, key: Option<KeyCode>) -> Seq<UiInput> {
    match key {
        Some(code) => match key_of(code) {
            Some(k) => seq![UiInput::Key(k, pressed)],
            None => Seq::empty(),
        },
        None => Seq::empty(),
    }
}

/// What an event types: the printable characters of a pressed key's text.
pub open spec fn typed_by(event: WindowInput) -> Seq<char> {
    match event {
        WindowInput::Keyboard { synthetic, pressed, key, text } => match text {
            Some(t) => if pressed && !synthetic {
                printable(t@)
            } else {
                Seq::empty()
            },
            None => Seq::empty(),
        },
        _ => Seq::empty(),
    }
}

/// What the modifier states queue.
pub open spec fn modifier_inputs(m: Modifiers) -> Seq<UiInput> {
    seq![
        UiInput::Key(Key::ModCtrl, m.ctrl),
        UiInput::Key(Key::ModShift, m.shift),
        UiInput::Key(Key::ModAlt, m.alt),
        UiInput::Key(Key::ModSuper, m.logo),
    ]
}

/// Who captures an event.
pub open spec fn capture_of(event: WindowInput) -> Capture {
    match event {
        WindowInput::CursorMoved(_) => Capture::Mouse,
        WindowInput::MouseInput { .. } => Capture::Mouse,
        WindowInput::MouseWheel { .. } => Capture::Mouse,
        WindowInput::Keyboard { .. } => Capture::Keyboard,
        _ => Capture::Free,
    }
}

/// Bit pattern of the pixels in one trackpad notch, thirty.
pub const PIXELS_PER_NOTCH: u32 = 0x41f0_0000;

impl WinitPlatform {
    pub fn scale_factor(&self) -> (s: u32)
        ensures
            s == self.scale_factor,
    {
        self.scale_factor
    }

    /// Physical framebuffer size, which is what the surface and the renderer are
    /// configured with: a minimised window reports zero, and the surface must never
    /// be configured at zero. `pixels` computes a logical extent times a factor,
    /// rounded.
    pub fn framebuffer_size<P: Fn(u32, u32) -> u32>(&self, pixels: &P) -> (size: (u32, u32))
        requires
            forall|l: u32, s: u32| #[trigger] pixels.requires((l, s)),
        ensures
            exists|w: u32, h: u32| #[trigger]
                pixels.ensures((self.logical_size.x, self.scale_factor), w) && #[trigger]
                pixels.ensures((self.logical_size.y, self.scale_factor), h) && size == (
                    if w < 1 {
                        1u32
                    } else {
                        w
                    },
                    if h < 1 {
                        1u32
                    } else {
                        h
                    },
                ),
    {
        let w: u32 = pixels(self.logical_size.x, self.scale_factor);
        let h: u32 = pixels(self.logical_size.y, self.scale_factor);
        assert(pixels.ensures((self.logical_size.x, self.scale_factor), w));
        assert(pixels.ensures((self.logical_size.y, self.scale_factor), h));
        (
            if w < 1 {
                1
            } else {
                w
            },
            if h < 1 {
                1
            } else {
                h
            },
        )
    }

    /// Take over the window's size and DPI factor, or a factor of one where the
    /// window's makes no sense. `divide` computes an extent over a factor.
    pub fn resized<D: Fn(u32, u32) -> u32>(
        &mut self,
        scale: u32,
        physical: (u32, u32),
        divide: &D,
    )
        requires
            forall|p: u32, s: u32| #[trigger] divide.requires((p, s)),
        ensures
            final(self).scale_factor == if finite32(scale) && lt32(0, scale) {
                scale
            } else {
                ONE
            },
            divide.ensures(
                (physical.0, final(self).scale_factor),
                final(self).logical_size.x,
            ),
            divide.ensures(
                (physical.1, final(self).scale_factor),
                final(self).logical_size.y,
            ),
            *final(self) == (WinitPlatform {
                scale_factor: final(self).scale_factor,
                logical_size: final(self).logical_size,
                ..*old(self)
            }),
    {
        self.scale_factor = if is_finite32(scale) && less32(0, scale) {
            scale
        } else {
            ONE
        };
        let x: u32 = divide(physical.0, self.scale_factor);
        let y: u32 = divide(physical.1, self.scale_factor);
        self.logical_size = Vec2 { x, y };
    }

    /// The frame time the UI is told. Zero or negative makes its own timers
    /// misbehave; a suspended app can genuinely produce one.
    pub fn frame_delta(delta_seconds: u32) -> (d: u32)
        ensures
            d == greater32(delta_seconds, 0x3586_37bd),
    {
        max32(delta_seconds, 0x3586_37bd)
    }

    /// The state after an event.
    pub open spec fn after(self, event: WindowInput) -> WinitPlatform {
        match event {
            WindowInput::Focused(focused) => WinitPlatform { focused, ..self },
            WindowInput::CursorMoved(p) => WinitPlatform { cursor_physical: p, ..self },
            WindowInput::ModifiersChanged(m) => WinitPlatform { modifiers: m, ..self },
            _ => self,
        }
    }

    /// Whether these inputs are what the event queues, with divisions by `divide`.
    pub open spec fn queues<D: Fn(u32, u32) -> u32>(
        self,
        event: WindowInput,
        divide: D,
        inputs: Seq<UiInput>,
    ) -> bool {
        match event {
            WindowInput::Resized => inputs == seq![UiInput::Resize],
            WindowInput::Focused(focused) => inputs == seq![UiInput::Focus(focused)],
            WindowInput::CursorMoved(p) => {
                &&& inputs.len() == 1
                &&& inputs[0] matches UiInput::MousePos(l) && divide.ensures(
                    (p.x, self.scale_factor),
                    l.x,
                ) && divide.ensures((p.y, self.scale_factor), l.y)
            },
            WindowInput::CursorLeft => inputs == seq![UiInput::NoMouse],
            WindowInput::MouseInput { button, pressed } => match button_of(button) {
                Some(b) => inputs == seq![UiInput::Button(b, pressed)],
                None => inputs.len() == 0,
            },
            WindowInput::MouseWheel { lines, delta } => if lines {
                inputs == seq![UiInput::Wheel(delta)]
            } else {
                &&& inputs.len() == 1
                &&& inputs[0] matches UiInput::Wheel(n) && divide.ensures(
                    (delta.x, PIXELS_PER_NOTCH),
                    n.x,
                ) && divide.ensures((delta.y, PIXELS_PER_NOTCH), n.y)
            },
            WindowInput::ModifiersChanged(m) => inputs == modifier_inputs(m),
            WindowInput::Keyboard { synthetic, pressed, key, text } => inputs == if synthetic {
                Seq::empty()
            } else {
                key_inputs(pressed, key)
            },
            WindowInput::Other => inputs.len() == 0,
        }
    }

    /// Take note of one window event. Returns what it queues for the UI, then what it
    /// types, and who decides whether the app should not also act on it. `divide`
    /// computes one number over another.
    ///
    /// Synthetic key events replay the key state when the window regains focus:
    /// feeding them produces a phantom press of every held key, so they queue
    /// nothing.
    pub fn handle_window_event<D: Fn(u32, u32) -> u32>(
        &mut self,
        event: &WindowInput,
        divide: &D,
    ) -> (r: Handled)
        requires
            forall|a: u32, b: u32| #[trigger] divide.requires((a, b)),
        ensures
            *final(self) == old(self).after(*event),
            old(self).queues(*event, *divide, r.inputs@),
            r.typed@ == typed_by(*event),
            r.capture == capture_of(*event),
    {
        let mut typed: Vec<char> = Vec::new();
        let mut out: Vec<UiInput> = Vec::new();
        let capture: Capture = match event {
            WindowInput::Resized => {
                out.push(UiInput::Resize);
                Capture::Free
            },
            WindowInput::Focused(focused) => {
                self.focused = *focused;
                out.push(UiInput::Focus(*focused));
                Capture::Free
            },
            WindowInput::CursorMoved(p) => {
                self.cursor_physical = *p;
                let x: u32 = divide(p.x, self.scale_factor);
                let y: u32 = divide(p.y, self.scale_factor);
                out.push(UiInput::MousePos(Vec2 { x, y }));
                Capture::Mouse
            },
            WindowInput::CursorLeft => {
                out.push(UiInput::NoMouse);
                Capture::Free
            },
            WindowInput::MouseInput { button, pressed } => {
                match map_mouse_button(*button) {
                    Some(b) => {
                        out.push(UiInput::Button(b, *pressed));
                    },
                    None => {},
                }
                Capture::Mouse
            },
            WindowInput::MouseWheel { lines, delta } => {
                if *lines {
                    out.push(UiInput::Wheel(*delta));
                } else {
                    // Feeding raw pixels scrolls lists at roughly thirty times the
                    // intended speed.
                    let x: u32 = divide(delta.x, PIXELS_PER_NOTCH);
                    let y: u32 = divide(delta.y, PIXELS_PER_NOTCH);
                    out.push(UiInput::Wheel(Vec2 { x, y }));
                }
                Capture::Mouse
            },
            WindowInput::ModifiersChanged(m) => {
                self.modifiers = *m;
                out.push(UiInput::Key(Key::ModCtrl, m.ctrl));
                out.push(UiInput::Key(Key::ModShift, m.shift));
                out.push(UiInput::Key(Key::ModAlt, m.alt));
                out.push(UiInput::Key(Key::ModSuper, m.logo));
                Capture::Free
            },
            WindowInput::Keyboard { synthetic, pressed, key, text } => {
                if !*synthetic {
                    push_key(&mut out, *pressed, *key);
                    if *pressed {
                        match text {
                            Some(t) => {
                                typed = without_controls(t.as_str());
                            },
                            None => {},
                        }
                    }
                }
                Capture::Keyboard
            },
            WindowInput::Other => Capture::Free,
        };
        proof {
            match event {
                WindowInput::Resized => {
                    assert(out@ =~= seq![UiInput::Resize]);
                },
                WindowInput::Focused(f) => {
                    assert(out@ =~= seq![UiInput::Focus(*f)]);
                },
                WindowInput::CursorMoved(_) => {
                    let l = out@[0]->MousePos_0;
                    assert(out@ =~= seq![UiInput::MousePos(l)]);
                },
                WindowInput::CursorLeft => {
                    assert(out@ =~= seq![UiInput::NoMouse]);
                },
                WindowInput::MouseInput { button, pressed } => {
                    if let Some(b) = button_of(*button) {
                        assert(out@ =~= seq![UiInput::Button(b, *pressed)]);
                    }
                },
                WindowInput::MouseWheel { lines, delta } => {
                    let n = out@[0]->Wheel_0;
                    assert(out@ =~= seq![UiInput::Wheel(n)]);
                },
                WindowInput::ModifiersChanged(m) => {
                    assert(out@ =~= modifier_inputs(*m));
                },
                WindowInput::Keyboard { synthetic, pressed, key, text } => {
                    let keys = key_inputs(*pressed, *key);
                    assert(Seq::<UiInput>::empty() + keys =~= keys);
                },
                WindowInput::Other => {},
            }
            assert(typed@ =~= typed_by(*event));
        }
        Handled { inputs: out, typed, capture }
    }

    /// The cursor to push to the window, if the UI's wish changed: hidden where it
    /// wants none. Call once per frame after building the UI.
    pub fn apply_cursor(&mut self, requested: Option<MouseCursor>) -> (push: Option<
        Option<CursorIcon>,
    >)
        ensures
            *final(self) == (WinitPlatform { last_cursor: requested, ..*old(self) }),
            push == if old(self).last_cursor == requested {
                None
            } else {
                Some(
                    match requested {
                        None => None,
                        Some(c) => Some(icon_of(c)),
                    },
                )
            },
    {
        let same: bool = match (self.last_cursor, requested) {
            (None, None) => true,
            (Some(a), Some(b)) => a == b,
            _ => false,
        };
        if same {
            return None;
        }
        self.last_cursor = requested;
        match requested {
            None => Some(None),
            Some(c) => Some(Some(map_cursor(c))),
        }
    }
}

fn is_control(c: char) -> (r: bool)
    ensures
        r == control(c),
{
    let n: u32 = c as u32;
    n < 0x20 || (0x7f <= n && n < 0xa0)
}

fn push_key(out: &mut Vec<UiInput>, pressed: bool, key: Option<KeyCode>)
    ensures
        final(out)@ == old(out)@ + key_inputs(pressed, key),
{
    match key {
        Some(code) => {
            match map_key(code) {
                Some(k) => {
                    out.push(UiInput::Key(k, pressed));
                },
                None => {},
            }
        },
        None => {},
    }
    assert(out@ =~= old(out)@ + key_inputs(pressed, key));
}

/// A text without its control characters, which would be inserted literally into a
/// text field as boxes.
fn without_controls(text: &str) -> (out: Vec<char>)
    ensures
        out@ == printable(text@),
{
    let ghost keep = |c: char| !control(c);
    let n: usize = text.unicode_len();
    let mut out: Vec<char> = Vec::new();
    let mut i: usize = 0;
    proof {
        assert(text@.take(0) =~= Seq::<char>::empty());
        assert(printable(text@.take(0)) =~= Seq::<char>::empty()) by {
            reveal(Seq::filter);
        }
    }
    while i < n
        invariant
            n == text@.len(),
            i <= n,
            keep == (|c: char| !control(c)),
            out@ == printable(text@.take(i as int)),
        decreases n - i,
    {
        let c: char = text.get_char(i);
        proof {
            let next = text@.take(i + 1);
            assert(next.drop_last() =~= text@.take(i as int));
            assert(next.last() == c);
            assert(next.filter(keep) == if keep(c) {
                next.drop_last().filter(keep).push(c)
            } else {
                next.drop_last().filter(keep)
            }) by {
                reveal(Seq::filter);
            }
        }
        if !is_control(c) {
            out.push(c);
        }
        i += 1;
    }
    assert(text@.take(n as int) =~= text@);
    out
}

/// Control characters never reach a text field: what is typed is printable, and
/// comes from the text.
pub proof fn only_printable_characters_are_typed(text: Seq<char>, i: int)
    requires
        0 <= i < printable(text).len(),
    ensures
        !control(printable(text)[i]),
        text.contains(printable(text)[i]),
{
    text.lemma_filter_pred(|c: char| !control(c), i);
    text.lemma_filter_contains_rev(|c: char| !control(c), printable(text)[i]);
}

/// What reaches the UI as the mouse is captured as the mouse, what types or presses a key as
/// the keyboard, and the rest is free for the app. A synthetic key event does neither.
pub proof fn capture_follows_what_is_queued<D: Fn(u32, u32) -> u32>(
    p: WinitPlatform,
    event: WindowInput,
    divide: D,
    inputs: Seq<UiInput>,
    i: int,
)
    requires
        p.queues(event, divide, inputs),
        0 <= i < inputs.len(),
    ensures
        inputs[i] is MousePos || inputs[i] is Button || inputs[i] is Wheel ==> capture_of(event)
            == Capture::Mouse,
        capture_of(event) == Capture::Mouse ==> inputs[i] is MousePos || inputs[i] is Button
            || inputs[i] is Wheel,
        capture_of(event) == Capture::Keyboard ==> inputs[i] is Key,
        inputs[i] is Key ==> capture_of(event) == Capture::Keyboard || event is ModifiersChanged,
        inputs[i] is Resize <==> event is Resized,
        inputs[i] is Focus <==> event is Focused,
        inputs[i] is NoMouse <==> event is CursorLeft,
        event matches WindowInput::MouseInput { button, pressed } ==> (inputs[i]
            matches UiInput::Button(b, down) && down == pressed),
        event matches WindowInput::Keyboard { synthetic, pressed, key, text } ==> !synthetic && (
        inputs[i] matches UiInput::Key(k, down) && down == pressed),
        event matches WindowInput::ModifiersChanged(m) ==> (inputs[i] matches UiInput::Key(
            k,
            down,
        ) && down == match k {
            Key::ModCtrl => m.ctrl,
            Key::ModShift => m.shift,
            Key::ModAlt => m.alt,
            _ => k == Key::ModSuper && m.logo,
        }),
{
}

/// A key types what its text says while it goes down, and nothing as it goes up; nothing
/// but a key types.
pub proof fn only_a_pressed_key_types(event: WindowInput)
    ensures
        typed_by(event).len() > 0 ==> (event matches WindowInput::Keyboard {
            synthetic,
            pressed,
            key,
            text,
        } && pressed && !synthetic && text is Some),
        event matches WindowInput::Keyboard { synthetic, pressed, key, text } ==> (pressed
            && !synthetic && text is Some && (forall|i: int|
            0 <= i < text->Some_0@.len() ==> !control(#[trigger] text->Some_0@[i])) ==> typed_by(
            event,
        ) == text->Some_0@),
{
    if let WindowInput::Keyboard { synthetic, pressed, key, text } = event {
        if let Some(t) = text {
            if forall|i: int| 0 <= i < t@.len() ==> !control(#[trigger] t@[i]) {
                lemma_all_printable(t@);
            }
        }
    }
}

proof fn lemma_all_printable(t: Seq<char>)
    requires
        forall|i: int| 0 <= i < t.len() ==> !control(#[trigger] t[i]),
    ensures
        printable(t) == t,
    decreases t.len(),
{
    reveal(Seq::filter);
    if t.len() > 0 {
        lemma_all_printable(t.drop_last());
        assert(t.drop_last().push(t.last()) =~= t);
    }
}

/// The characters below the space and those from DEL to the end of the second control block
/// are not typed; every other one is.
pub proof fn what_is_not_typed(c: char)
    ensures
        control(c) <==> (c as u32) <= 31 || 127 <= (c as u32) <= 159,
{
}

/// An event changes what it tells of and nothing else: the focus, the pointer's place or the
/// modifiers.
pub proof fn an_event_changes_what_it_tells_of(p: WinitPlatform, event: WindowInput)
    ensures
        p.after(event).logical_size == p.logical_size,
        p.after(event).scale_factor == p.scale_factor,
        p.after(event).last_cursor == p.last_cursor,
        p.after(event).focused == (if let WindowInput::Focused(f) = event {
            f
        } else {
            p.focused
        }),
        p.after(event).cursor_physical == (if let WindowInput::CursorMoved(at) = event {
            at
        } else {
            p.cursor_physical
        }),
        p.after(event).modifiers == (if let WindowInput::ModifiersChanged(m) = event {
            m
        } else {
            p.modifiers
        }),
        p.after(event).after(event) == p.after(event),
{
}

} // verus!
