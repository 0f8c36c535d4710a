//! Physical keys and mouse buttons, and what the UI calls them.
//!
//! Physical rather than logical, so `W`/`A`/`S`/`D` land in the same place on every
//! keyboard layout. Text still comes from the key event itself, which *is*
//! layout-aware, so typing is unaffected.
use vstd::prelude::*;

verus! {

/// A physical key, as the window system names it.
#[derive(Clone, Copy, Debug, PartialEq, Eq, Structural)]
pub enum KeyCode {
    Tab,
    ArrowLeft,
    ArrowRight,
    ArrowUp,
    ArrowDown,
    PageUp,
    PageDown,
    Home,
    End,
    Insert,
    Delete,
    Backspace,
    Space,
    Enter,
    NumpadEnter,
    Escape,
    ControlLeft,
    ShiftLeft,
    AltLeft,
    SuperLeft,
    ControlRight,
    ShiftRight,
    AltRight,
    SuperRight,
    ContextMenu,
    Digit0,
    Digit1,
    Digit2,
    Digit3,
    Digit4,
    Digit5,
    Digit6,
    Digit7,
    Digit8,
    Digit9,
    KeyA,
    KeyB,
    KeyC,
    KeyD,
    KeyE,
    KeyF,
    KeyG,
    KeyH,
    KeyI,
    KeyJ,
    KeyK,
    KeyL,
    KeyM,
    KeyN,
    KeyO,
    KeyP,
    KeyQ,
    KeyR,
    KeyS,
    KeyT,
    KeyU,
    KeyV,
    KeyW,
    KeyX,
    KeyY,
    KeyZ,
    F1,
    F2,
    F3,
    F4,
    F5,
    F6,
    F7,
    F8,
    F9,
    F10,
    F11,
    F12,
    Quote,
    Comma,
    Minus,
    Period,
    Slash,
    Semicolon,
    Equal,
    BracketLeft,
    Backslash,
    BracketRight,
    Backquote,
    CapsLock,
    ScrollLock,
    NumLock,
    PrintScreen,
    Pause,
    Numpad0,
    Numpad1,
    Numpad2,
    Numpad3,
    Numpad4,
    Numpad5,
    Numpad6,
    Numpad7,
    Numpad8,
    Numpad9,
    NumpadDecimal,
    NumpadDivide,
    NumpadMultiply,
    NumpadSubtract,
    NumpadAdd,
    /// The function-shift key, which the UI has no name for.
    Fn,
    /// The media play key, which the UI has no name for.
    MediaPlayPause,
    /// Any other key that the UI has no name for.
    Unnamed,
}

/// A key, as the UI names it.
#[derive(Clone, Copy, Debug, PartialEq, Eq, Structural)]
pub enum Key {
    Tab,
    LeftArrow,
    RightArrow,
    UpArrow,
    DownArrow,
    PageUp,
    PageDown,
    Home,
    End,
    Insert,
    Delete,
    Backspace,
    Space,
    Enter,
    Escape,
    LeftCtrl,
    LeftShift,
    LeftAlt,
    LeftSuper,
    RightCtrl,
    RightShift,
    RightAlt,
    RightSuper,
    Menu,
    Key0,
    Key1,
    Key2,
    Key3,
    Key4,
    Key5,
    Key6,
    Key7,
    Key8,
    Key9,
    A,
    B,
    C,
    D,
    E,
    F,
    G,
    H,
    I,
    J,
    K,
    L,
    M,
    N,
    O,
    P,
    Q,
    R,
    S,
    T,
    U,
    V,
    W,
    X,
    Y,
    Z,
    F1,
    F2,
    F3,
    F4,
    F5,
    F6,
    F7,
    F8,
    F9,
    F10,
    F11,
    F12,
    Apostrophe,
    Comma,
    Minus,
    Period,
    Slash,
    Semicolon,
    Equal,
    LeftBracket,
    Backslash,
    RightBracket,
    GraveAccent,
    CapsLock,
    ScrollLock,
    NumLock,
    PrintScreen,
    Pause,
    Keypad0,
    Keypad1,
    Keypad2,
    Keypad3,
    Keypad4,
    Keypad5,
    Keypad6,
    Keypad7,
    Keypad8,
    Keypad9,
    KeypadDecimal,
    KeypadDivide,
    KeypadMultiply,
    KeypadSubtract,
    KeypadAdd,
    ModCtrl,
    ModShift,
    ModAlt,
    ModSuper,
}

/// The UI's name of a physical key, if it has one.
pub open spec fn key_of(code: KeyCode) -> Option<Key> {
    match code {
        KeyCode::Tab => Some(Key::Tab),
        KeyCode::ArrowLeft => Some(Key::LeftArrow),
        KeyCode::ArrowRight => Some(Key::RightArrow),
        KeyCode::ArrowUp => Some(Key::UpArrow),
        KeyCode::ArrowDown => Some(Key::DownArrow),
        KeyCode::PageUp => Some(Key::PageUp),
        KeyCode::PageDown => Some(Key::PageDown),
        KeyCode::Home => Some(Key::Home),
        KeyCode::End => Some(Key::End),
        KeyCode::Insert => Some(Key::Insert),
        KeyCode::Delete => Some(Key::Delete),
        KeyCode::Backspace => Some(Key::Backspace),
        KeyCode::Space => Some(Key::Space),
        KeyCode::Enter => Some(Key::Enter),
        KeyCode::NumpadEnter => Some(Key::Enter),
        KeyCode::Escape => Some(Key::Escape),
        KeyCode::ControlLeft => Some(Key::LeftCtrl),
        KeyCode::ShiftLeft => Some(Key::LeftShift),
        KeyCode::AltLeft => Some(Key::LeftAlt),
        KeyCode::SuperLeft => Some(Key::LeftSuper),
        KeyCode::ControlRight => Some(Key::RightCtrl),
        KeyCode::ShiftRight => Some(Key::RightShift),
        KeyCode::AltRight => Some(Key::RightAlt),
        KeyCode::SuperRight => Some(Key::RightSuper),
        KeyCode::ContextMenu => Some(Key::Menu),
        KeyCode::Digit0 => Some(Key::Key0),
        KeyCode::Digit1 => Some(Key::Key1),
        KeyCode::Digit2 => Some(Key::Key2),
        KeyCode::Digit3 => Some(Key::Key3),
        KeyCode::Digit4 => Some(Key::Key4),
        KeyCode::Digit5 => Some(Key::Key5),
        KeyCode::Digit6 => Some(Key::Key6),
        KeyCode::Digit7 => Some(Key::Key7),
        KeyCode::Digit8 => Some(Key::Key8),
        KeyCode::Digit9 => Some(Key::Key9),
        KeyCode::KeyA => Some(Key::A),
        KeyCode::KeyB => Some(Key::B),
        KeyCode::KeyC => Some(Key::C),
        KeyCode::KeyD => Some(Key::D),
        KeyCode::KeyE => Some(Key::E),
        KeyCode::KeyF => Some(Key::F),
        KeyCode::KeyG => Some(Key::G),
        KeyCode::KeyH => Some(Key::H),
        KeyCode::KeyI => Some(Key::I),
        KeyCode::KeyJ => Some(Key::J),
        KeyCode::KeyK => Some(Key::K),
        KeyCode::KeyL => Some(Key::L),
        KeyCode::KeyM => Some(Key::M),
        KeyCode::KeyN => Some(Key::N),
        KeyCode::KeyO => Some(Key::O),
        KeyCode::KeyP => Some(Key::P),
        KeyCode::KeyQ => Some(Key::Q),
        KeyCode::KeyR => Some(Key::R),
        KeyCode::KeyS => Some(Key::S),
        KeyCode::KeyT => Some(Key::T),
        KeyCode::KeyU => Some(Key::U),
        KeyCode::KeyV => Some(Key::V),
        KeyCode::KeyW => Some(Key::W),
        KeyCode::KeyX => Some(Key::X),
        KeyCode::KeyY => Some(Key::Y),
        KeyCode::KeyZ => Some(Key::Z),
        KeyCode::F1 => Some(Key::F1),
        KeyCode::F2 => Some(Key::F2),
        KeyCode::F3 => Some(Key::F3),
        KeyCode::F4 => Some(Key::F4),
        KeyCode::F5 => Some(Key::F5),
        KeyCode::F6 => Some(Key::F6),
        KeyCode::F7 => Some(Key::F7),
        KeyCode::F8 => Some(Key::F8),
        KeyCode::F9 => Some(Key::F9),
        KeyCode::F10 => Some(Key::F10),
        KeyCode::F11 => Some(Key::F11),
        KeyCode::F12 => Some(Key::F12),
        KeyCode::Quote => Some(Key::Apostrophe),
        KeyCode::Comma => Some(Key::Comma),
        KeyCode::Minus => Some(Key::Minus),
        KeyCode::Period => Some(Key::Period),
        KeyCode::Slash => Some(Key::Slash),
        KeyCode::Semicolon => Some(Key::Semicolon),
        KeyCode::Equal => Some(Key::Equal),
        KeyCode::BracketLeft => Some(Key::LeftBracket),
        KeyCode::Backslash => Some(Key::Backslash),
        KeyCode::BracketRight => Some(Key::RightBracket),
        KeyCode::Backquote => Some(Key::GraveAccent),
        KeyCode::CapsLock => Some(Key::CapsLock),
        KeyCode::ScrollLock => Some(Key::ScrollLock),
        KeyCode::NumLock => Some(Key::NumLock),
        KeyCode::PrintScreen => Some(Key::PrintScreen),
        KeyCode::Pause => Some(Key::Pause),
        KeyCode::Numpad0 => Some(Key::Keypad0),
        KeyCode::Numpad1 => Some(Key::Keypad1),
        KeyCode::Numpad2 => Some(Key::Keypad2),
        KeyCode::Numpad3 => Some(Key::Keypad3),
        KeyCode::Numpad4 => Some(Key::Keypad4),
        KeyCode::Numpad5 => Some(Key::Keypad5),
        KeyCode::Numpad6 => Some(Key::Keypad6),
        KeyCode::Numpad7 => Some(Key::Keypad7),
        KeyCode::Numpad8 => Some(Key::Keypad8),
        KeyCode::Numpad9 => Some(Key::Keypad9),
        KeyCode::NumpadDecimal => Some(Key::KeypadDecimal),
        KeyCode::NumpadDivide => Some(Key::KeypadDivide),
        KeyCode::NumpadMultiply => Some(Key::KeypadMultiply),
        KeyCode::NumpadSubtract => Some(Key::KeypadSubtract),
        KeyCode::NumpadAdd => Some(Key::KeypadAdd),
        KeyCode::Fn => None,
        KeyCode::MediaPlayPause => None,
        KeyCode::Unnamed => None,
    }
}

/// The UI's name of a physical key. A key without one is reported rather than
/// defaulted: a made-up key would be a real key event for a key that does not
/// exist.
pub fn map_key(code: KeyCode) -> (k: Option<Key>)
    ensures
        k == key_of(code),
{
    let k: Key = match code {
        KeyCode::Tab => Key::Tab,
        KeyCode::ArrowLeft => Key::LeftArrow,
        KeyCode::ArrowRight => Key::RightArrow,
        KeyCode::ArrowUp => Key::UpArrow,
        KeyCode::ArrowDown => Key::DownArrow,
        KeyCode::PageUp => Key::PageUp,
        KeyCode::PageDown => Key::PageDown,
        KeyCode::Home => Key::Home,
        KeyCode::End => Key::End,
        KeyCode::Insert => Key::Insert,
        KeyCode::Delete => Key::Delete,
        KeyCode::Backspace => Key::Backspace,
        KeyCode::Space => Key::Space,
        KeyCode::Enter => Key::Enter,
        KeyCode::NumpadEnter => Key::Enter,
        KeyCode::Escape => Key::Escape,
        KeyCode::ControlLeft => Key::LeftCtrl,
        KeyCode::ShiftLeft => Key::LeftShift,
        KeyCode::AltLeft => Key::LeftAlt,
        KeyCode::SuperLeft => Key::LeftSuper,
        KeyCode::ControlRight => Key::RightCtrl,
        KeyCode::ShiftRight => Key::RightShift,
        KeyCode::AltRight => Key::RightAlt,
        KeyCode::SuperRight => Key::RightSuper,
        KeyCode::ContextMenu => Key::Menu,
        KeyCode::Digit0 => Key::Key0,
        KeyCode::Digit1 => Key::Key1,
        KeyCode::Digit2 => Key::Key2,
        KeyCode::Digit3 => Key::Key3,
        KeyCode::Digit4 => Key::Key4,
        KeyCode::Digit5 => Key::Key5,
        KeyCode::Digit6 => Key::Key6,
        KeyCode::Digit7 => Key::Key7,
        KeyCode::Digit8 => Key::Key8,
        KeyCode::Digit9 => Key::Key9,
        KeyCode::KeyA => Key::A,
        KeyCode::KeyB => Key::B,
        KeyCode::KeyC => Key::C,
        KeyCode::KeyD => Key::D,
        KeyCode::KeyE => Key::E,
        KeyCode::KeyF => Key::F,
        KeyCode::KeyG => Key::G,
        KeyCode::KeyH => Key::H,
        KeyCode::KeyI => Key::I,
        KeyCode::KeyJ => Key::J,
        KeyCode::KeyK => Key::K,
        KeyCode::KeyL => Key::L,
        KeyCode::KeyM => Key::M,
        KeyCode::KeyN => Key::N,
        KeyCode::KeyO => Key::O,
        KeyCode::KeyP => Key::P,
        KeyCode::KeyQ => Key::Q,
        KeyCode::KeyR => Key::R,
        KeyCode::KeyS => Key::S,
        KeyCode::KeyT => Key::T,
        KeyCode::KeyU => Key::U,
        KeyCode::KeyV => Key::V,
        KeyCode::KeyW => Key::W,
        KeyCode::KeyX => Key::X,
        KeyCode::KeyY => Key::Y,
        KeyCode::KeyZ => Key::Z,
        KeyCode::F1 => Key::F1,
        KeyCode::F2 => Key::F2,
        KeyCode::F3 => Key::F3,
        KeyCode::F4 => Key::F4,
        KeyCode::F5 => Key::F5,
        KeyCode::F6 => Key::F6,
        KeyCode::F7 => Key::F7,
        KeyCode::F8 => Key::F8,
        KeyCode::F9 => Key::F9,
        KeyCode::F10 => Key::F10,
        KeyCode::F11 => Key::F11,
        KeyCode::F12 => Key::F12,
        KeyCode::Quote => Key::Apostrophe,
        KeyCode::Comma => Key::Comma,
        KeyCode::Minus => Key::Minus,
        KeyCode::Period => Key::Period,
        KeyCode::Slash => Key::Slash,
        KeyCode::Semicolon => Key::Semicolon,
        KeyCode::Equal => Key::Equal,
        KeyCode::BracketLeft => Key::LeftBracket,
        KeyCode::Backslash => Key::Backslash,
        KeyCode::BracketRight => Key::RightBracket,
        KeyCode::Backquote => Key::GraveAccent,
        KeyCode::CapsLock => Key::CapsLock,
        KeyCode::ScrollLock => Key::ScrollLock,
        KeyCode::NumLock => Key::NumLock,
        KeyCode::PrintScreen => Key::PrintScreen,
        KeyCode::Pause => Key::Pause,
        KeyCode::Numpad0 => Key::Keypad0,
        KeyCode::Numpad1 => Key::Keypad1,
        KeyCode::Numpad2 => Key::Keypad2,
        KeyCode::Numpad3 => Key::Keypad3,
        KeyCode::Numpad4 => Key::Keypad4,
        KeyCode::Numpad5 => Key::Keypad5,
        KeyCode::Numpad6 => Key::Keypad6,
        KeyCode::Numpad7 => Key::Keypad7,
        KeyCode::Numpad8 => Key::Keypad8,
        KeyCode::Numpad9 => Key::Keypad9,
        KeyCode::NumpadDecimal => Key::KeypadDecimal,
        KeyCode::NumpadDivide => Key::KeypadDivide,
        KeyCode::NumpadMultiply => Key::KeypadMultiply,
        KeyCode::NumpadSubtract => Key::KeypadSubtract,
        KeyCode::NumpadAdd => Key::KeypadAdd,
        KeyCode::Fn | KeyCode::MediaPlayPause | KeyCode::Unnamed => {
            return None;
        },
    };
    Some(k)
}

/// Every named key has a mapping, no two keys but the two Enters share one, and none
/// is taken for a modifier state.
pub proof fn keys_stay_apart(a: KeyCode, b: KeyCode)
    ensures
        a != KeyCode::Fn && a != KeyCode::MediaPlayPause && a != KeyCode::Unnamed ==> key_of(
            a,
        ) is Some,
        key_of(a) is Some && key_of(a) == key_of(b) ==> a == b || {
            &&& a == KeyCode::Enter || a == KeyCode::NumpadEnter
            &&& b == KeyCode::Enter || b == KeyCode::NumpadEnter
        },
        key_of(KeyCode::Enter) == key_of(KeyCode::NumpadEnter),
        key_of(a) != Some(Key::ModCtrl),
        key_of(a) != Some(Key::ModShift),
        key_of(a) != Some(Key::ModAlt),
        key_of(a) != Some(Key::ModSuper),
{
    lemma_rank(a);
    lemma_rank(b);
}

/// The physical key that a UI key stands for; the main Enter for Enter.
spec fn code_of(key: Key) -> KeyCode {
    match key {
        Key::Tab => KeyCode::Tab,
        Key::LeftArrow => KeyCode::ArrowLeft,
        Key::RightArrow => KeyCode::ArrowRight,
        Key::UpArrow => KeyCode::ArrowUp,
        Key::DownArrow => KeyCode::ArrowDown,
        Key::PageUp => KeyCode::PageUp,
        Key::PageDown => KeyCode::PageDown,
        Key::Home => KeyCode::Home,
        Key::End => KeyCode::End,
        Key::Insert => KeyCode::Insert,
        Key::Delete => KeyCode::Delete,
        Key::Backspace => KeyCode::Backspace,
        Key::Space => KeyCode::Space,
        Key::Enter => KeyCode::Enter,
        Key::Escape => KeyCode::Escape,
        Key::LeftCtrl => KeyCode::ControlLeft,
        Key::LeftShift => KeyCode::ShiftLeft,
        Key::LeftAlt => KeyCode::AltLeft,
        Key::LeftSuper => KeyCode::SuperLeft,
        Key::RightCtrl => KeyCode::ControlRight,
        Key::RightShift => KeyCode::ShiftRight,
        Key::RightAlt => KeyCode::AltRight,
        Key::RightSuper => KeyCode::SuperRight,
        Key::Menu => KeyCode::ContextMenu,
        Key::Key0 => KeyCode::Digit0,
        Key::Key1 => KeyCode::Digit1,
        Key::Key2 => KeyCode::Digit2,
        Key::Key3 => KeyCode::Digit3,
        Key::Key4 => KeyCode::Digit4,
        Key::Key5 => KeyCode::Digit5,
        Key::Key6 => KeyCode::Digit6,
        Key::Key7 => KeyCode::Digit7,
        Key::Key8 => KeyCode::Digit8,
        Key::Key9 => KeyCode::Digit9,
        Key::A => KeyCode::KeyA,
        Key::B => KeyCode::KeyB,
        Key::C => KeyCode::KeyC,
        Key::D => KeyCode::KeyD,
        Key::E => KeyCode::KeyE,
        Key::F => KeyCode::KeyF,
        Key::G => KeyCode::KeyG,
        Key::H => KeyCode::KeyH,
        Key::I => KeyCode::KeyI,
        Key::J => KeyCode::KeyJ,
        Key::K => KeyCode::KeyK,
        Key::L => KeyCode::KeyL,
        Key::M => KeyCode::KeyM,
        Key::N => KeyCode::KeyN,
        Key::O => KeyCode::KeyO,
        Key::P => KeyCode::KeyP,
        Key::Q => KeyCode::KeyQ,
        Key::R => KeyCode::KeyR,
        Key::S => KeyCode::KeyS,
        Key::T => KeyCode::KeyT,
        Key::U => KeyCode::KeyU,
        Key::V => KeyCode::KeyV,
        Key::W => KeyCode::KeyW,
        Key::X => KeyCode::KeyX,
        Key::Y => KeyCode::KeyY,
        Key::Z => KeyCode::KeyZ,
        Key::F1 => KeyCode::F1,
        Key::F2 => KeyCode::F2,
        Key::F3 => KeyCode::F3,
        Key::F4 => KeyCode::F4,
        Key::F5 => KeyCode::F5,
        Key::F6 => KeyCode::F6,
        Key::F7 => KeyCode::F7,
        Key::F8 => KeyCode::F8,
        Key::F9 => KeyCode::F9,
        Key::F10 => KeyCode::F10,
        Key::F11 => KeyCode::F11,
        Key::F12 => KeyCode::F12,
        Key::Apostrophe => KeyCode::Quote,
        Key::Comma => KeyCode::Comma,
        Key::Minus => KeyCode::Minus,
        Key::Period => KeyCode::Period,
        Key::Slash => KeyCode::Slash,
        Key::Semicolon => KeyCode::Semicolon,
        Key::Equal => KeyCode::Equal,
        Key::LeftBracket => KeyCode::BracketLeft,
        Key::Backslash => KeyCode::Backslash,
        Key::RightBracket => KeyCode::BracketRight,
        Key::GraveAccent => KeyCode::Backquote,
        Key::CapsLock => KeyCode::CapsLock,
        Key::ScrollLock => KeyCode::ScrollLock,
        Key::NumLock => KeyCode::NumLock,
        Key::PrintScreen => KeyCode::PrintScreen,
        Key::Pause => KeyCode::Pause,
        Key::Keypad0 => KeyCode::Numpad0,
        Key::Keypad1 => KeyCode::Numpad1,
        Key::Keypad2 => KeyCode::Numpad2,
        Key::Keypad3 => KeyCode::Numpad3,
        Key::Keypad4 => KeyCode::Numpad4,
        Key::Keypad5 => KeyCode::Numpad5,
        Key::Keypad6 => KeyCode::Numpad6,
        Key::Keypad7 => KeyCode::Numpad7,
        Key::Keypad8 => KeyCode::Numpad8,
        Key::Keypad9 => KeyCode::Numpad9,
        Key::KeypadDecimal => KeyCode::NumpadDecimal,
        Key::KeypadDivide => KeyCode::NumpadDivide,
        Key::KeypadMultiply => KeyCode::NumpadMultiply,
        Key::KeypadSubtract => KeyCode::NumpadSubtract,
        Key::KeypadAdd => KeyCode::NumpadAdd,
        _ => KeyCode::Unnamed,
    }
}

proof fn lemma_rank(a: KeyCode)
    ensures
        key_of(a) matches Some(k) ==> code_of(k) == if a == KeyCode::NumpadEnter {
            KeyCode::Enter
        } else {
            a
        },
{
}

/// A mouse button, as the window system names it.
#[derive(Clone, Copy, Debug, PartialEq, Eq, Structural)]
pub enum WindowButton {
    Left,
    Right,
    Middle,
    Back,
    Forward,
    Other(u16),
}

/// A mouse button the UI knows.
#[derive(Clone, Copy, Debug, PartialEq, Eq, Structural)]
pub enum MouseButton {
    Left,
    Right,
    Middle,
}

/// The UI's button, if it has this one.
pub open spec fn button_of(b: WindowButton) -> Option<MouseButton> {
    match b {
        WindowButton::Left => Some(MouseButton::Left),
        WindowButton::Right => Some(MouseButton::Right),
        WindowButton::Middle => Some(MouseButton::Middle),
        _ => None,
    }
}

/// Only the three real mouse buttons are forwarded.
pub fn map_mouse_button(b: WindowButton) -> (r: Option<MouseButton>)
    ensures
        r == button_of(b),
{
    match b {
        WindowButton::Left => Some(MouseButton::Left),
        WindowButton::Right => Some(MouseButton::Right),
        WindowButton::Middle => Some(MouseButton::Middle),
        _ => None,
    }
}

/// A cursor the UI asks for.
#[derive(Clone, Copy, Debug, PartialEq, Eq, Structural)]
pub enum MouseCursor {
    Arrow,
    TextInput,
    ResizeAll,
    ResizeNS,
    ResizeEW,
    ResizeNESW,
    ResizeNWSE,
    Hand,
    NotAllowed,
    /// Nothing asked for.
    Unset,
}

/// A cursor the window system shows.
#[derive(Clone, Copy, Debug, PartialEq, Eq, Structural)]
pub enum CursorIcon {
    Default,
    Text,
    Move,
    NsResize,
    EwResize,
    NeswResize,
    NwseResize,
    Grab,
    NotAllowed,
}

/// The window system's cursor for the UI's.
pub open spec fn icon_of(c: MouseCursor) -> CursorIcon {
    match c {
        MouseCursor::Arrow => CursorIcon::Default,
        MouseCursor::TextInput => CursorIcon::Text,
        MouseCursor::ResizeAll => CursorIcon::Move,
        MouseCursor::ResizeNS => CursorIcon::NsResize,
        MouseCursor::ResizeEW => CursorIcon::EwResize,
        MouseCursor::ResizeNESW => CursorIcon::NeswResize,
        MouseCursor::ResizeNWSE => CursorIcon::NwseResize,
        MouseCursor::Hand => CursorIcon::Grab,
        MouseCursor::NotAllowed => CursorIcon::NotAllowed,
        MouseCursor::Unset => CursorIcon::Default,
    }
}

/// The window system's cursor for the UI's.
pub fn map_cursor(c: MouseCursor) -> (i: CursorIcon)
    ensures
        i == icon_of(c),
{
    match c {
        MouseCursor::Arrow => CursorIcon::Default,
        MouseCursor::TextInput => CursorIcon::Text,
        MouseCursor::ResizeAll => CursorIcon::Move,
        MouseCursor::ResizeNS => CursorIcon::NsResize,
        MouseCursor::ResizeEW => CursorIcon::EwResize,
        MouseCursor::ResizeNESW => CursorIcon::NeswResize,
        MouseCursor::ResizeNWSE => CursorIcon::NwseResize,
        MouseCursor::Hand => CursorIcon::Grab,
        MouseCursor::NotAllowed => CursorIcon::NotAllowed,
        MouseCursor::Unset => CursorIcon::Default,
    }
}

/// Each of the three buttons is forwarded as itself, and no other button is.
pub proof fn a_button_is_forwarded_as_itself(b: WindowButton)
    ensures
        button_of(b) == Some(MouseButton::Left) <==> b == WindowButton::Left,
        button_of(b) == Some(MouseButton::Right) <==> b == WindowButton::Right,
        button_of(b) == Some(MouseButton::Middle) <==> b == WindowButton::Middle,
        button_of(b) is Some ==> b == WindowButton::Left || b == WindowButton::Right || b
            == WindowButton::Middle,
{
}

/// Each cursor has an icon of its own, that of the direction it resizes along where it
/// resizes; where none is asked for it is the arrow's.
pub proof fn a_cursor_has_its_own_icon(c: MouseCursor)
    ensures
        icon_of(c) == CursorIcon::Default <==> c == MouseCursor::Arrow || c == MouseCursor::Unset,
        icon_of(c) == CursorIcon::Text <==> c == MouseCursor::TextInput,
        icon_of(c) == CursorIcon::Move <==> c == MouseCursor::ResizeAll,
        icon_of(c) == CursorIcon::NsResize <==> c == MouseCursor::ResizeNS,
        icon_of(c) == CursorIcon::EwResize <==> c == MouseCursor::ResizeEW,
        icon_of(c) == CursorIcon::NeswResize <==> c == MouseCursor::ResizeNESW,
        icon_of(c) == CursorIcon::NwseResize <==> c == MouseCursor::ResizeNWSE,
        icon_of(c) == CursorIcon::Grab <==> c == MouseCursor::Hand,
        icon_of(c) == CursorIcon::NotAllowed <==> c == MouseCursor::NotAllowed,
{
}

} // verus!
