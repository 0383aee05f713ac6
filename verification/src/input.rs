//! Input value types and the normalization of raw device records.

use vstd::prelude::*;

verus! {

/// A mouse button; the fixed three-element domain is iterated in the order
/// left, middle, right wherever determinism matters.
#[derive(Clone, Copy, Debug, PartialEq, Eq, Structural, Hash)]
pub enum MouseButton {
    Left,
    Middle,
    Right,
}

/// The direction a mouse wheel was turned.
#[derive(Clone, Copy, Debug, PartialEq, Eq, Structural)]
pub enum ScrollDirection {
    Up,
    Down,
}

/// A synthesized click: a button release, carrying the mouse position at the
/// time of the release.
#[derive(Clone, Copy, Debug, PartialEq, Eq, Structural)]
pub struct MouseClick {
    button: MouseButton,
    pos_x: i16,
    pos_y: i16,
}

impl MouseClick {
    pub closed spec fn spec_button(&self) -> MouseButton {
        self.button
    }

    pub closed spec fn spec_pos(&self) -> (i16, i16) {
        (self.pos_x, self.pos_y)
    }

    /// The click value made of `button` and `pos`.
    pub closed spec fn spec_new(button: MouseButton, pos: (i16, i16)) -> MouseClick {
        MouseClick { button, pos_x: pos.0, pos_y: pos.1 }
    }

    pub fn new(button: MouseButton, pos: (i16, i16)) -> (c: MouseClick)
        ensures
            c == MouseClick::spec_new(button, pos),
            c.spec_button() == button,
            c.spec_pos() == pos,
    {
        MouseClick { button, pos_x: pos.0, pos_y: pos.1 }
    }

    pub fn button(&self) -> (b: MouseButton)
        ensures
            b == self.spec_button(),
    {
        self.button
    }

    pub fn pos(&self) -> (p: (i16, i16))
        ensures
            p == self.spec_pos(),
    {
        (self.pos_x, self.pos_y)
    }
}

/// A key together with the character it produced, as reported by the device.
#[derive(Clone, Copy, Debug, PartialEq, Eq, Structural)]
pub struct Key {
    code: KeyCode,
    character: char,
}

impl Key {
    pub closed spec fn spec_code(&self) -> KeyCode {
        self.code
    }

    pub closed spec fn spec_character(&self) -> char {
        self.character
    }

    /// The key value made of `code` and `character`.
    pub closed spec fn spec_new(code: KeyCode, character: char) -> Key {
        Key { code, character }
    }

    pub fn new(code: KeyCode, character: char) -> (k: Key)
        ensures
            k == Key::spec_new(code, character),
            k.spec_code() == code,
            k.spec_character() == character,
    {
        Key { code, character }
    }

    pub fn code(&self) -> (c: KeyCode)
        ensures
            c == self.spec_code(),
    {
        self.code
    }

    pub fn character(&self) -> (c: char)
        ensures
            c == self.spec_character(),
    {
        self.character
    }
}

/// The keys the engine knows; raw device codes with no entry here are
/// silently dropped.
#[derive(Clone, Copy, Debug, PartialEq, Eq, Structural, Hash)]
pub enum KeyCode {
    Empty,
    Esc,
    K1,
    K2,
    K3,
    K4,
    K5,
    K6,
    K7,
    K8,
    K9,
    K0,
    Hyphen,
    Equals,
    Backspace,
    Tab,
    Q,
    W,
    E,
    R,
    T,
    Y,
    U,
    I,
    O,
    P,
    LeftBracket,
    RightBracket,
    Enter,
    LeftCtrl,
    A,
    S,
    D,
    F,
    G,
    H,
    J,
    K,
    L,
    Semicolon,
    SingleQuote,
    Grave,
    LeftShift,
    Backslash,
    Z,
    X,
    C,
    V,
    B,
    N,
    M,
    Comma,
    Dot,
    Slash,
    RightShift,
    PrintScreen,
    LeftAlt,
    Space,
    CapsLock,
}

/// The raw scan code the device reports for a key.
pub open spec fn scan_code(k: KeyCode) -> u16 {
    match k {
        KeyCode::Empty => 0,
        KeyCode::Esc => 1,
        KeyCode::K1 => 2,
        KeyCode::K2 => 3,
        KeyCode::K3 => 4,
        KeyCode::K4 => 5,
        KeyCode::K5 => 6,
        KeyCode::K6 => 7,
        KeyCode::K7 => 8,
        KeyCode::K8 => 9,
        KeyCode::K9 => 10,
        KeyCode::K0 => 11,
        KeyCode::Hyphen => 12,
        KeyCode::Equals => 13,
        KeyCode::Backspace => 14,
        KeyCode::Tab => 15,
        KeyCode::Q => 16,
        KeyCode::W => 17,
        KeyCode::E => 18,
        KeyCode::R => 19,
        KeyCode::T => 20,
        KeyCode::Y => 21,
        KeyCode::U => 22,
        KeyCode::I => 23,
        KeyCode::O => 24,
        KeyCode::P => 25,
        KeyCode::LeftBracket => 26,
        KeyCode::RightBracket => 27,
        KeyCode::Enter => 28,
        KeyCode::LeftCtrl => 29,
        KeyCode::A => 30,
        KeyCode::S => 31,
        KeyCode::D => 32,
        KeyCode::F => 33,
        KeyCode::G => 34,
        KeyCode::H => 35,
        KeyCode::J => 36,
        KeyCode::K => 37,
        KeyCode::L => 38,
        KeyCode::Semicolon => 39,
        KeyCode::SingleQuote => 40,
        KeyCode::Grave => 41,
        KeyCode::LeftShift => 42,
        KeyCode::Backslash => 43,
        KeyCode::Z => 44,
        KeyCode::X => 45,
        KeyCode::C => 46,
        KeyCode::V => 47,
        KeyCode::B => 48,
        KeyCode::N => 49,
        KeyCode::M => 50,
        KeyCode::Comma => 51,
        KeyCode::Dot => 52,
        KeyCode::Slash => 53,
        KeyCode::RightShift => 54,
        KeyCode::PrintScreen => 55,
        KeyCode::LeftAlt => 56,
        KeyCode::Space => 57,
        KeyCode::CapsLock => 58,
    }
}

/// The key a raw scan code stands for, or `None` for codes the engine does
/// not cover; such records are dropped by the caller, which is not an error.
pub fn key_code_from_scan(scan: u16) -> (r: Option<KeyCode>)
    ensures
        match r {
            Some(k) => scan_code(k) == scan,
            None => scan > 58,
        },
{
    match scan {
        0 => Some(KeyCode::Empty),
        1 => Some(KeyCode::Esc),
        2 => Some(KeyCode::K1),
        3 => Some(KeyCode::K2),
        4 => Some(KeyCode::K3),
        5 => Some(KeyCode::K4),
        6 => Some(KeyCode::K5),
        7 => Some(KeyCode::K6),
        8 => Some(KeyCode::K7),
        9 => Some(KeyCode::K8),
        10 => Some(KeyCode::K9),
        11 => Some(KeyCode::K0),
        12 => Some(KeyCode::Hyphen),
        13 => Some(KeyCode::Equals),
        14 => Some(KeyCode::Backspace),
        15 => Some(KeyCode::Tab),
        16 => Some(KeyCode::Q),
        17 => Some(KeyCode::W),
        18 => Some(KeyCode::E),
        19 => Some(KeyCode::R),
        20 => Some(KeyCode::T),
        21 => Some(KeyCode::Y),
        22 => Some(KeyCode::U),
        23 => Some(KeyCode::I),
        24 => Some(KeyCode::O),
        25 => Some(KeyCode::P),
        26 => Some(KeyCode::LeftBracket),
        27 => Some(KeyCode::RightBracket),
        28 => Some(KeyCode::Enter),
        29 => Some(KeyCode::LeftCtrl),
        30 => Some(KeyCode::A),
        31 => Some(KeyCode::S),
        32 => Some(KeyCode::D),
        33 => Some(KeyCode::F),
        34 => Some(KeyCode::G),
        35 => Some(KeyCode::H),
        36 => Some(KeyCode::J),
        37 => Some(KeyCode::K),
        38 => Some(KeyCode::L),
        39 => Some(KeyCode::Semicolon),
        40 => Some(KeyCode::SingleQuote),
        41 => Some(KeyCode::Grave),
        42 => Some(KeyCode::LeftShift),
        43 => Some(KeyCode::Backslash),
        44 => Some(KeyCode::Z),
        45 => Some(KeyCode::X),
        46 => Some(KeyCode::C),
        47 => Some(KeyCode::V),
        48 => Some(KeyCode::B),
        49 => Some(KeyCode::N),
        50 => Some(KeyCode::M),
        51 => Some(KeyCode::Comma),
        52 => Some(KeyCode::Dot),
        53 => Some(KeyCode::Slash),
        54 => Some(KeyCode::RightShift),
        55 => Some(KeyCode::PrintScreen),
        56 => Some(KeyCode::LeftAlt),
        57 => Some(KeyCode::Space),
        58 => Some(KeyCode::CapsLock),
        _ => None,
    }
}

/// Which mouse buttons are down, one flag per button of the fixed domain.
#[derive(Clone, Copy, Debug, PartialEq, Eq, Structural)]
pub struct ButtonSet {
    pub left: bool,
    pub middle: bool,
    pub right: bool,
}

impl ButtonSet {
    /// Whether `b` is in the set.
    pub open spec fn has(&self, b: MouseButton) -> bool {
        match b {
            MouseButton::Left => self.left,
            MouseButton::Middle => self.middle,
            MouseButton::Right => self.right,
        }
    }

    /// The set with no button down.
    pub fn empty() -> (s: ButtonSet)
        ensures
            s == (ButtonSet { left: false, middle: false, right: false }),
    {
        ButtonSet { left: false, middle: false, right: false }
    }

    pub fn contains(&self, b: MouseButton) -> (r: bool)
        ensures
            r == self.has(b),
    {
        match b {
            MouseButton::Left => self.left,
            MouseButton::Middle => self.middle,
            MouseButton::Right => self.right,
        }
    }
}

/// Bit the device sets in a mouse record's button state while the left
/// button is down.
pub const LEFT_BUTTON_BIT: u32 = 0x1;

/// Bit for the right button.
pub const RIGHT_BUTTON_BIT: u32 = 0x2;

/// Bit for the middle button.
pub const MIDDLE_BUTTON_BIT: u32 = 0x4;

/// Reads the set of held buttons out of a raw mouse record's button-state
/// word.
pub fn decode_button_mask(state: u32) -> (s: ButtonSet)
    ensures
        s.left == (state & LEFT_BUTTON_BIT != 0),
        s.middle == (state & MIDDLE_BUTTON_BIT != 0),
        s.right == (state & RIGHT_BUTTON_BIT != 0),
{
    ButtonSet {
        left: state & LEFT_BUTTON_BIT != 0,
        middle: state & MIDDLE_BUTTON_BIT != 0,
        right: state & RIGHT_BUTTON_BIT != 0,
    }
}

/// Reads the wheel direction out of a raw mouse record's button-state word:
/// the low bit of the word's highest byte is set for a downward turn.
pub fn decode_wheel_direction(state: u32) -> (d: ScrollDirection)
    ensures
        d == (if (state >> 24) & 1 == 1 {
            ScrollDirection::Down
        } else {
            ScrollDirection::Up
        }),
{
    if (state >> 24) & 1 == 1 {
        ScrollDirection::Down
    } else {
        ScrollDirection::Up
    }
}

/// A normalized device record: what one raw keyboard or mouse event says,
/// reduced to plain values.  Records are processed strictly in the order the
/// device delivered them.
#[derive(Clone, Copy, Debug, PartialEq, Eq, Structural)]
pub enum DeviceRecord {
    /// A key transition: which key, the character it produced, and whether it
    /// is now down.
    Key { code: KeyCode, character: char, pressed: bool },
    /// A mouse state report: the pointer position, the buttons currently
    /// down, and the wheel turn if the report is a wheel event.  A wheel
    /// report touches neither button nor position state.
    Mouse { x: i16, y: i16, buttons: ButtonSet, wheel: Option<ScrollDirection> },
}

} // verus!
