//! Input event types.
//!
//! Platform-agnostic representations of keyboard, mouse, and scroll events.
//! Fractional quantities (absolute pointer position, smooth-scroll amounts)
//! are carried as IEEE-754 bit patterns in `u64` fields: the routing engine
//! never computes with them, it only moves them between capture, wire, and
//! emulation, and the bit pattern keeps that transport exact.

use vstd::prelude::*;

use crate::device::DeviceId;

verus! {

/// A captured input event with metadata.
#[derive(Debug, Clone, Copy, PartialEq, Eq, Structural)]
pub struct CapturedEvent {
    /// Which device produced this event.
    pub device_id: DeviceId,
    /// Microsecond timestamp (monotonic, relative to session start).
    pub timestamp_us: u64,
    /// The event itself.
    pub event: InputEvent,
}

/// A platform-agnostic input event.
#[derive(Debug, Clone, Copy, PartialEq, Eq, Structural)]
pub enum InputEvent {
    /// Key press or release.
    Key { code: KeyCode, state: ButtonState },
    /// Relative mouse motion.
    MouseMove { dx: i32, dy: i32 },
    /// Absolute mouse position, normalised to `0.0..1.0` per axis and carried
    /// as the bit patterns of the two 64-bit floats.
    MouseMoveAbsolute { x_bits: u64, y_bits: u64 },
    /// Mouse button press or release.
    MouseButton { button: MouseButton, state: ButtonState },
    /// Scroll wheel. `amount_bits` is the bit pattern of the 64-bit float
    /// amount (positive = forward/right, negative = backward/left).
    Scroll { axis: ScrollAxis, direction: ScrollDirection, amount_bits: u64 },
}

/// Button/key state.
#[derive(Debug, Clone, Copy, PartialEq, Eq, Hash, Structural)]
pub enum ButtonState {
    Pressed,
    Released,
}

/// Keyboard key code.
///
/// Uses a subset of USB HID usage codes for cross-platform compatibility.
/// Platform backends translate native scancodes to/from these codes.
#[derive(Debug, Clone, Copy, PartialEq, Eq, Hash, Structural)]
pub enum KeyCode {
    KeyA,
    KeyB,
    KeyC,
    KeyD,
    KeyE,
    KeyF,
    KeyG,
    KeyH,
    KeyI,
    KeyJ,
    KeyK,
    KeyL,
    KeyM,
    KeyN,
    KeyO,
    KeyP,
    KeyQ,
    KeyR,
    KeyS,
    KeyT,
    KeyU,
    KeyV,
    KeyW,
    KeyX,
    KeyY,
    KeyZ,
    Digit0,
    Digit1,
    Digit2,
    Digit3,
    Digit4,
    Digit5,
    Digit6,
    Digit7,
    Digit8,
    Digit9,
    F1,
    F2,
    F3,
    F4,
    F5,
    F6,
    F7,
    F8,
    F9,
    F10,
    F11,
    F12,
    LeftShift,
    RightShift,
    LeftCtrl,
    RightCtrl,
    LeftAlt,
    RightAlt,
    LeftMeta,
    RightMeta,
    Enter,
    Escape,
    Backspace,
    Tab,
    Space,
    CapsLock,
    PrintScreen,
    ScrollLock,
    Pause,
    Insert,
    Delete,
    Home,
    End,
    PageUp,
    PageDown,
    ArrowUp,
    ArrowDown,
    ArrowLeft,
    ArrowRight,
    Minus,
    Equal,
    BracketLeft,
    BracketRight,
    Backslash,
    Semicolon,
    Quote,
    Backquote,
    Comma,
    Period,
    Slash,
    NumLock,
    NumpadDivide,
    NumpadMultiply,
    NumpadSubtract,
    NumpadAdd,
    NumpadEnter,
    Numpad0,
    Numpad1,
    Numpad2,
    Numpad3,
    Numpad4,
    Numpad5,
    Numpad6,
    Numpad7,
    Numpad8,
    Numpad9,
    NumpadDecimal,
    Mute,
    VolumeUp,
    VolumeDown,
    /// Fallback for unmapped keys. The value is the raw platform scancode.
    Unknown(u32),
}

/// Mouse button identifier.
#[derive(Debug, Clone, Copy, PartialEq, Eq, Hash, Structural)]
pub enum MouseButton {
    Left,
    Right,
    Middle,
    Back,
    Forward,
    /// Extra buttons beyond the standard five.
    Other(u16),
}

/// Scroll axis.
#[derive(Debug, Clone, Copy, PartialEq, Eq, Hash, Structural)]
pub enum ScrollAxis {
    Vertical,
    Horizontal,
}

/// Scroll direction.
#[derive(Debug, Clone, Copy, PartialEq, Eq, Hash, Structural)]
pub enum ScrollDirection {
    /// Forward (scroll up) or right.
    Positive,
    /// Backward (scroll down) or left.
    Negative,
}

/// Convert a raw key-event value (0 = released, 1 = pressed, 2 = autorepeat,
/// as Linux input events report them) to a `ButtonState`.
pub fn evdev_value_to_button_state(value: i32) -> (r: Option<ButtonState>)
    ensures
        r == (if value == 0 {
            Some(ButtonState::Released)
        } else if value == 1 || value == 2 {
            Some(ButtonState::Pressed)
        } else {
            None::<ButtonState>
        }),
{
    match value {
        0 => Some(ButtonState::Released),
        1 | 2 => Some(ButtonState::Pressed),
        _ => None,
    }
}

/// Convert a `ButtonState` to a raw key-event value.
pub fn button_state_to_evdev_value(state: ButtonState) -> (r: i32)
    ensures
        r == (if state is Pressed {
            1int
        } else {
            0int
        }),
{
    match state {
        ButtonState::Pressed => 1,
        ButtonState::Released => 0,
    }
}

/// The stable name of a key code, as the configuration file spells it.
/// `Unknown` codes have no stable name and yield the empty sequence.
pub open spec fn spec_keycode_name(k: KeyCode) -> Seq<char> {
    match k {
        KeyCode::KeyA => "KeyA"@,
        KeyCode::KeyB => "KeyB"@,
        KeyCode::KeyC => "KeyC"@,
        KeyCode::KeyD => "KeyD"@,
        KeyCode::KeyE => "KeyE"@,
        KeyCode::KeyF => "KeyF"@,
        KeyCode::KeyG => "KeyG"@,
        KeyCode::KeyH => "KeyH"@,
        KeyCode::KeyI => "KeyI"@,
        KeyCode::KeyJ => "KeyJ"@,
        KeyCode::KeyK => "KeyK"@,
        KeyCode::KeyL => "KeyL"@,
        KeyCode::KeyM => "KeyM"@,
        KeyCode::KeyN => "KeyN"@,
        KeyCode::KeyO => "KeyO"@,
        KeyCode::KeyP => "KeyP"@,
        KeyCode::KeyQ => "KeyQ"@,
        KeyCode::KeyR => "KeyR"@,
        KeyCode::KeyS => "KeyS"@,
        KeyCode::KeyT => "KeyT"@,
        KeyCode::KeyU => "KeyU"@,
        KeyCode::KeyV => "KeyV"@,
        KeyCode::KeyW => "KeyW"@,
        KeyCode::KeyX => "KeyX"@,
        KeyCode::KeyY => "KeyY"@,
        KeyCode::KeyZ => "KeyZ"@,
        KeyCode::Digit0 => "Digit0"@,
        KeyCode::Digit1 => "Digit1"@,
        KeyCode::Digit2 => "Digit2"@,
        KeyCode::Digit3 => "Digit3"@,
        KeyCode::Digit4 => "Digit4"@,
        KeyCode::Digit5 => "Digit5"@,
        KeyCode::Digit6 => "Digit6"@,
        KeyCode::Digit7 => "Digit7"@,
        KeyCode::Digit8 => "Digit8"@,
        KeyCode::Digit9 => "Digit9"@,
        KeyCode::F1 => "F1"@,
        KeyCode::F2 => "F2"@,
        KeyCode::F3 => "F3"@,
        KeyCode::F4 => "F4"@,
        KeyCode::F5 => "F5"@,
        KeyCode::F6 => "F6"@,
        KeyCode::F7 => "F7"@,
        KeyCode::F8 => "F8"@,
        KeyCode::F9 => "F9"@,
        KeyCode::F10 => "F10"@,
        KeyCode::F11 => "F11"@,
        KeyCode::F12 => "F12"@,
        KeyCode::LeftShift => "LeftShift"@,
        KeyCode::RightShift => "RightShift"@,
        KeyCode::LeftCtrl => "LeftCtrl"@,
        KeyCode::RightCtrl => "RightCtrl"@,
        KeyCode::LeftAlt => "LeftAlt"@,
        KeyCode::RightAlt => "RightAlt"@,
        KeyCode::LeftMeta => "LeftMeta"@,
        KeyCode::RightMeta => "RightMeta"@,
        KeyCode::Enter => "Enter"@,
        KeyCode::Escape => "Escape"@,
        KeyCode::Backspace => "Backspace"@,
        KeyCode::Tab => "Tab"@,
        KeyCode::Space => "Space"@,
        KeyCode::CapsLock => "CapsLock"@,
        KeyCode::PrintScreen => "PrintScreen"@,
        KeyCode::ScrollLock => "ScrollLock"@,
        KeyCode::Pause => "Pause"@,
        KeyCode::Insert => "Insert"@,
        KeyCode::Delete => "Delete"@,
        KeyCode::Home => "Home"@,
        KeyCode::End => "End"@,
        KeyCode::PageUp => "PageUp"@,
        KeyCode::PageDown => "PageDown"@,
        KeyCode::ArrowUp => "ArrowUp"@,
        KeyCode::ArrowDown => "ArrowDown"@,
        KeyCode::ArrowLeft => "ArrowLeft"@,
        KeyCode::ArrowRight => "ArrowRight"@,
        KeyCode::Minus => "Minus"@,
        KeyCode::Equal => "Equal"@,
        KeyCode::BracketLeft => "BracketLeft"@,
        KeyCode::BracketRight => "BracketRight"@,
        KeyCode::Backslash => "Backslash"@,
        KeyCode::Semicolon => "Semicolon"@,
        KeyCode::Quote => "Quote"@,
        KeyCode::Backquote => "Backquote"@,
        KeyCode::Comma => "Comma"@,
        KeyCode::Period => "Period"@,
        KeyCode::Slash => "Slash"@,
        KeyCode::NumLock => "NumLock"@,
        KeyCode::NumpadDivide => "NumpadDivide"@,
        KeyCode::NumpadMultiply => "NumpadMultiply"@,
        KeyCode::NumpadSubtract => "NumpadSubtract"@,
        KeyCode::NumpadAdd => "NumpadAdd"@,
        KeyCode::NumpadEnter => "NumpadEnter"@,
        KeyCode::Numpad0 => "Numpad0"@,
        KeyCode::Numpad1 => "Numpad1"@,
        KeyCode::Numpad2 => "Numpad2"@,
        KeyCode::Numpad3 => "Numpad3"@,
        KeyCode::Numpad4 => "Numpad4"@,
        KeyCode::Numpad5 => "Numpad5"@,
        KeyCode::Numpad6 => "Numpad6"@,
        KeyCode::Numpad7 => "Numpad7"@,
        KeyCode::Numpad8 => "Numpad8"@,
        KeyCode::Numpad9 => "Numpad9"@,
        KeyCode::NumpadDecimal => "NumpadDecimal"@,
        KeyCode::Mute => "Mute"@,
        KeyCode::VolumeUp => "VolumeUp"@,
        KeyCode::VolumeDown => "VolumeDown"@,
        KeyCode::Unknown(_) => Seq::<char>::empty(),
    }
}

/// The stable name of a key code, or `None` for `Unknown` codes.
pub fn keycode_name(k: KeyCode) -> (r: Option<&'static str>)
    ensures
        r is Some <==> !(k is Unknown),
        r matches Some(s) ==> s@ == spec_keycode_name(k),
{
    match k {
        KeyCode::KeyA => Some("KeyA"),
        KeyCode::KeyB => Some("KeyB"),
        KeyCode::KeyC => Some("KeyC"),
        KeyCode::KeyD => Some("KeyD"),
        KeyCode::KeyE => Some("KeyE"),
        KeyCode::KeyF => Some("KeyF"),
        KeyCode::KeyG => Some("KeyG"),
        KeyCode::KeyH => Some("KeyH"),
        KeyCode::KeyI => Some("KeyI"),
        KeyCode::KeyJ => Some("KeyJ"),
        KeyCode::KeyK => Some("KeyK"),
        KeyCode::KeyL => Some("KeyL"),
        KeyCode::KeyM => Some("KeyM"),
        KeyCode::KeyN => Some("KeyN"),
        KeyCode::KeyO => Some("KeyO"),
        KeyCode::KeyP => Some("KeyP"),
        KeyCode::KeyQ => Some("KeyQ"),
        KeyCode::KeyR => Some("KeyR"),
        KeyCode::KeyS => Some("KeyS"),
        KeyCode::KeyT => Some("KeyT"),
        KeyCode::KeyU => Some("KeyU"),
        KeyCode::KeyV => Some("KeyV"),
        KeyCode::KeyW => Some("KeyW"),
        KeyCode::KeyX => Some("KeyX"),
        KeyCode::KeyY => Some("KeyY"),
        KeyCode::KeyZ => Some("KeyZ"),
        KeyCode::Digit0 => Some("Digit0"),
        KeyCode::Digit1 => Some("Digit1"),
        KeyCode::Digit2 => Some("Digit2"),
        KeyCode::Digit3 => Some("Digit3"),
        KeyCode::Digit4 => Some("Digit4"),
        KeyCode::Digit5 => Some("Digit5"),
        KeyCode::Digit6 => Some("Digit6"),
        KeyCode::Digit7 => Some("Digit7"),
        KeyCode::Digit8 => Some("Digit8"),
        KeyCode::Digit9 => Some("Digit9"),
        KeyCode::F1 => Some("F1"),
        KeyCode::F2 => Some("F2"),
        KeyCode::F3 => Some("F3"),
        KeyCode::F4 => Some("F4"),
        KeyCode::F5 => Some("F5"),
        KeyCode::F6 => Some("F6"),
        KeyCode::F7 => Some("F7"),
        KeyCode::F8 => Some("F8"),
        KeyCode::F9 => Some("F9"),
        KeyCode::F10 => Some("F10"),
        KeyCode::F11 => Some("F11"),
        KeyCode::F12 => Some("F12"),
        KeyCode::LeftShift => Some("LeftShift"),
        KeyCode::RightShift => Some("RightShift"),
        KeyCode::LeftCtrl => Some("LeftCtrl"),
        KeyCode::RightCtrl => Some("RightCtrl"),
        KeyCode::LeftAlt => Some("LeftAlt"),
        KeyCode::RightAlt => Some("RightAlt"),
        KeyCode::LeftMeta => Some("LeftMeta"),
        KeyCode::RightMeta => Some("RightMeta"),
        KeyCode::Enter => Some("Enter"),
        KeyCode::Escape => Some("Escape"),
        KeyCode::Backspace => Some("Backspace"),
        KeyCode::Tab => Some("Tab"),
        KeyCode::Space => Some("Space"),
        KeyCode::CapsLock => Some("CapsLock"),
        KeyCode::PrintScreen => Some("PrintScreen"),
        KeyCode::ScrollLock => Some("ScrollLock"),
        KeyCode::Pause => Some("Pause"),
        KeyCode::Insert => Some("Insert"),
        KeyCode::Delete => Some("Delete"),
        KeyCode::Home => Some("Home"),
        KeyCode::End => Some("End"),
        KeyCode::PageUp => Some("PageUp"),
        KeyCode::PageDown => Some("PageDown"),
        KeyCode::ArrowUp => Some("ArrowUp"),
        KeyCode::ArrowDown => Some("ArrowDown"),
        KeyCode::ArrowLeft => Some("ArrowLeft"),
        KeyCode::ArrowRight => Some("ArrowRight"),
        KeyCode::Minus => Some("Minus"),
        KeyCode::Equal => Some("Equal"),
        KeyCode::BracketLeft => Some("BracketLeft"),
        KeyCode::BracketRight => Some("BracketRight"),
        KeyCode::Backslash => Some("Backslash"),
        KeyCode::Semicolon => Some("Semicolon"),
        KeyCode::Quote => Some("Quote"),
        KeyCode::Backquote => Some("Backquote"),
        KeyCode::Comma => Some("Comma"),
        KeyCode::Period => Some("Period"),
        KeyCode::Slash => Some("Slash"),
        KeyCode::NumLock => Some("NumLock"),
        KeyCode::NumpadDivide => Some("NumpadDivide"),
        KeyCode::NumpadMultiply => Some("NumpadMultiply"),
        KeyCode::NumpadSubtract => Some("NumpadSubtract"),
        KeyCode::NumpadAdd => Some("NumpadAdd"),
        KeyCode::NumpadEnter => Some("NumpadEnter"),
        KeyCode::Numpad0 => Some("Numpad0"),
        KeyCode::Numpad1 => Some("Numpad1"),
        KeyCode::Numpad2 => Some("Numpad2"),
        KeyCode::Numpad3 => Some("Numpad3"),
        KeyCode::Numpad4 => Some("Numpad4"),
        KeyCode::Numpad5 => Some("Numpad5"),
        KeyCode::Numpad6 => Some("Numpad6"),
        KeyCode::Numpad7 => Some("Numpad7"),
        KeyCode::Numpad8 => Some("Numpad8"),
        KeyCode::Numpad9 => Some("Numpad9"),
        KeyCode::NumpadDecimal => Some("NumpadDecimal"),
        KeyCode::Mute => Some("Mute"),
        KeyCode::VolumeUp => Some("VolumeUp"),
        KeyCode::VolumeDown => Some("VolumeDown"),
        KeyCode::Unknown(_) => None,
    }
}

/// Whether `name` is the stable name of `k`. `Unknown` codes match no name.
pub fn keycode_matches_name(k: KeyCode, name: &String) -> (r: bool)
    ensures
        r == (!(k is Unknown) && name@ == spec_keycode_name(k)),
{
    match keycode_name(k) {
        Some(s) => {
            let owned = s.to_owned();
            owned == *name
        },
        None => false,
    }
}

/// The key code for a letter key, by its character, either case.
/// `q` is deliberately left unmapped so an interactive front end can keep it
/// as its own quit key.
pub open spec fn spec_char_to_keycode(c: char) -> Option<KeyCode> {
    if c == 'a' || c == 'A' {
        Some(KeyCode::KeyA)
    } else if c == 'b' || c == 'B' {
        Some(KeyCode::KeyB)
    } else if c == 'c' || c == 'C' {
        Some(KeyCode::KeyC)
    } else if c == 'd' || c == 'D' {
        Some(KeyCode::KeyD)
    } else if c == 'e' || c == 'E' {
        Some(KeyCode::KeyE)
    } else if c == 'f' || c == 'F' {
        Some(KeyCode::KeyF)
    } else if c == 'g' || c == 'G' {
        Some(KeyCode::KeyG)
    } else if c == 'h' || c == 'H' {
        Some(KeyCode::KeyH)
    } else if c == 'i' || c == 'I' {
        Some(KeyCode::KeyI)
    } else if c == 'j' || c == 'J' {
        Some(KeyCode::KeyJ)
    } else if c == 'k' || c == 'K' {
        Some(KeyCode::KeyK)
    } else if c == 'l' || c == 'L' {
        Some(KeyCode::KeyL)
    } else if c == 'm' || c == 'M' {
        Some(KeyCode::KeyM)
    } else if c == 'n' || c == 'N' {
        Some(KeyCode::KeyN)
    } else if c == 'o' || c == 'O' {
        Some(KeyCode::KeyO)
    } else if c == 'p' || c == 'P' {
        Some(KeyCode::KeyP)
    } else if c == 'r' || c == 'R' {
        Some(KeyCode::KeyR)
    } else if c == 's' || c == 'S' {
        Some(KeyCode::KeyS)
    } else if c == 't' || c == 'T' {
        Some(KeyCode::KeyT)
    } else if c == 'u' || c == 'U' {
        Some(KeyCode::KeyU)
    } else if c == 'v' || c == 'V' {
        Some(KeyCode::KeyV)
    } else if c == 'w' || c == 'W' {
        Some(KeyCode::KeyW)
    } else if c == 'x' || c == 'X' {
        Some(KeyCode::KeyX)
    } else if c == 'y' || c == 'Y' {
        Some(KeyCode::KeyY)
    } else if c == 'z' || c == 'Z' {
        Some(KeyCode::KeyZ)
    } else {
        None
    }
}

/// Map a letter to its key code, case-insensitively.
pub fn char_to_keycode(c: char) -> (r: Option<KeyCode>)
    ensures
        r == spec_char_to_keycode(c),
{
    match c {
        'a' | 'A' => Some(KeyCode::KeyA),
        'b' | 'B' => Some(KeyCode::KeyB),
        'c' | 'C' => Some(KeyCode::KeyC),
        'd' | 'D' => Some(KeyCode::KeyD),
        'e' | 'E' => Some(KeyCode::KeyE),
        'f' | 'F' => Some(KeyCode::KeyF),
        'g' | 'G' => Some(KeyCode::KeyG),
        'h' | 'H' => Some(KeyCode::KeyH),
        'i' | 'I' => Some(KeyCode::KeyI),
        'j' | 'J' => Some(KeyCode::KeyJ),
        'k' | 'K' => Some(KeyCode::KeyK),
        'l' | 'L' => Some(KeyCode::KeyL),
        'm' | 'M' => Some(KeyCode::KeyM),
        'n' | 'N' => Some(KeyCode::KeyN),
        'o' | 'O' => Some(KeyCode::KeyO),
        'p' | 'P' => Some(KeyCode::KeyP),
        'r' | 'R' => Some(KeyCode::KeyR),
        's' | 'S' => Some(KeyCode::KeyS),
        't' | 'T' => Some(KeyCode::KeyT),
        'u' | 'U' => Some(KeyCode::KeyU),
        'v' | 'V' => Some(KeyCode::KeyV),
        'w' | 'W' => Some(KeyCode::KeyW),
        'x' | 'X' => Some(KeyCode::KeyX),
        'y' | 'Y' => Some(KeyCode::KeyY),
        'z' | 'Z' => Some(KeyCode::KeyZ),
        _ => None,
    }
}

} // verus!
