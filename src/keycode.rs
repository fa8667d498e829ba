//! Keycodes of the HID keyboard usage page, plus the synthetic
//! "transparent" and "momentary layer hold" codes that share its 8-bit space.

use vstd::prelude::*;

verus! {

/// A keycode. Its byte value ([`Keycode::code`]) is the HID Keyboard/Keypad
/// usage: `0x00` transparent, `0x01` error rollover, `0x04..=0x52` ordinary
/// keys (and `0x64`), `0xE0..=0xE7` modifiers, `0xF0..=0xFF` layer holds whose
/// low nibble is the target layer.
#[derive(Clone, Copy, PartialEq, Eq, Structural, Debug)]
pub enum Keycode {
    /// No key: falls through to the next lower layer.
    Trans,
    /// Error rollover.
    ErrorRollover,
    A,
    B,
    C,
    D,
    E,
    F,
    G,
    H,
    I,
    J,
    K,
    L,
    M,
    N,
    O,
    P,
    Q,
    R,
    S,
    T,
    U,
    V,
    W,
    X,
    Y,
    Z,
    N1,
    N2,
    N3,
    N4,
    N5,
    N6,
    N7,
    N8,
    N9,
    N0,
    Enter,
    Escape,
    Backspace,
    Tab,
    Space,
    Minus,
    Equal,
    LBracket,
    RBracket,
    Backslash,
    Semicolon,
    Quote,
    Grave,
    Comma,
    Dot,
    Slash,
    CapsLock,
    /// Non-US backslash (the ISO key left of Z).
    NonUsBackslash,
    F1,
    F2,
    F3,
    F4,
    F5,
    F6,
    F7,
    F8,
    F9,
    F10,
    F11,
    F12,
    PrintScreen,
    ScrollLock,
    Pause,
    Insert,
    Home,
    PageUp,
    Delete,
    End,
    PageDown,
    Right,
    Left,
    Down,
    Up,
    LCtrl,
    LShift,
    LAlt,
    LGui,
    RCtrl,
    RShift,
    RAlt,
    RGui,
    /// Momentary hold of layer 1 (synthetic; not a HID usage).
    Layer1,
}

/// Lowest modifier usage (left control).
pub const MODIFIER_FIRST: u8 = 0xE0;
/// Highest modifier usage (right GUI).
pub const MODIFIER_LAST: u8 = 0xE7;
/// Byte value of the layer-hold code for layer 0; layer `n` is `LAYER_BASE + n`.
pub const LAYER_BASE: u8 = 0xF0;

impl Keycode {
    /// The byte value of each keycode.
    pub open spec fn spec_code(self) -> u8 {
        match self {
            Keycode::Trans => 0x00,
            Keycode::ErrorRollover => 0x01,
            Keycode::A => 0x04,
            Keycode::B => 0x05,
            Keycode::C => 0x06,
            Keycode::D => 0x07,
            Keycode::E => 0x08,
            Keycode::F => 0x09,
            Keycode::G => 0x0A,
            Keycode::H => 0x0B,
            Keycode::I => 0x0C,
            Keycode::J => 0x0D,
            Keycode::K => 0x0E,
            Keycode::L => 0x0F,
            Keycode::M => 0x10,
            Keycode::N => 0x11,
            Keycode::O => 0x12,
            Keycode::P => 0x13,
            Keycode::Q => 0x14,
            Keycode::R => 0x15,
            Keycode::S => 0x16,
            Keycode::T => 0x17,
            Keycode::U => 0x18,
            Keycode::V => 0x19,
            Keycode::W => 0x1A,
            Keycode::X => 0x1B,
            Keycode::Y => 0x1C,
            Keycode::Z => 0x1D,
            Keycode::N1 => 0x1E,
            Keycode::N2 => 0x1F,
            Keycode::N3 => 0x20,
            Keycode::N4 => 0x21,
            Keycode::N5 => 0x22,
            Keycode::N6 => 0x23,
            Keycode::N7 => 0x24,
            Keycode::N8 => 0x25,
            Keycode::N9 => 0x26,
            Keycode::N0 => 0x27,
            Keycode::Enter => 0x28,
            Keycode::Escape => 0x29,
            Keycode::Backspace => 0x2A,
            Keycode::Tab => 0x2B,
            Keycode::Space => 0x2C,
            Keycode::Minus => 0x2D,
            Keycode::Equal => 0x2E,
            Keycode::LBracket => 0x2F,
            Keycode::RBracket => 0x30,
            Keycode::Backslash => 0x31,
            Keycode::Semicolon => 0x33,
            Keycode::Quote => 0x34,
            Keycode::Grave => 0x35,
            Keycode::Comma => 0x36,
            Keycode::Dot => 0x37,
            Keycode::Slash => 0x38,
            Keycode::CapsLock => 0x39,
            Keycode::NonUsBackslash => 0x64,
            Keycode::F1 => 0x3A,
            Keycode::F2 => 0x3B,
            Keycode::F3 => 0x3C,
            Keycode::F4 => 0x3D,
            Keycode::F5 => 0x3E,
            Keycode::F6 => 0x3F,
            Keycode::F7 => 0x40,
            Keycode::F8 => 0x41,
            Keycode::F9 => 0x42,
            Keycode::F10 => 0x43,
            Keycode::F11 => 0x44,
            Keycode::F12 => 0x45,
            Keycode::PrintScreen => 0x46,
            Keycode::ScrollLock => 0x47,
            Keycode::Pause => 0x48,
            Keycode::Insert => 0x49,
            Keycode::Home => 0x4A,
            Keycode::PageUp => 0x4B,
            Keycode::Delete => 0x4C,
            Keycode::End => 0x4D,
            Keycode::PageDown => 0x4E,
            Keycode::Right => 0x4F,
            Keycode::Left => 0x50,
            Keycode::Down => 0x51,
            Keycode::Up => 0x52,
            Keycode::LCtrl => 0xE0,
            Keycode::LShift => 0xE1,
            Keycode::LAlt => 0xE2,
            Keycode::LGui => 0xE3,
            Keycode::RCtrl => 0xE4,
            Keycode::RShift => 0xE5,
            Keycode::RAlt => 0xE6,
            Keycode::RGui => 0xE7,
            Keycode::Layer1 => 0xF1,
        }
    }

    /// The byte value sent on the wire for this keycode.
    #[verifier::when_used_as_spec(spec_code)]
    pub fn code(self) -> (r: u8)
        ensures
            r == self.spec_code(),
    {
        match self {
            Keycode::Trans => 0x00,
            Keycode::ErrorRollover => 0x01,
            Keycode::A => 0x04,
            Keycode::B => 0x05,
            Keycode::C => 0x06,
            Keycode::D => 0x07,
            Keycode::E => 0x08,
            Keycode::F => 0x09,
            Keycode::G => 0x0A,
            Keycode::H => 0x0B,
            Keycode::I => 0x0C,
            Keycode::J => 0x0D,
            Keycode::K => 0x0E,
            Keycode::L => 0x0F,
            Keycode::M => 0x10,
            Keycode::N => 0x11,
            Keycode::O => 0x12,
            Keycode::P => 0x13,
            Keycode::Q => 0x14,
            Keycode::R => 0x15,
            Keycode::S => 0x16,
            Keycode::T => 0x17,
            Keycode::U => 0x18,
            Keycode::V => 0x19,
            Keycode::W => 0x1A,
            Keycode::X => 0x1B,
            Keycode::Y => 0x1C,
            Keycode::Z => 0x1D,
            Keycode::N1 => 0x1E,
            Keycode::N2 => 0x1F,
            Keycode::N3 => 0x20,
            Keycode::N4 => 0x21,
            Keycode::N5 => 0x22,
            Keycode::N6 => 0x23,
            Keycode::N7 => 0x24,
            Keycode::N8 => 0x25,
            Keycode::N9 => 0x26,
            Keycode::N0 => 0x27,
            Keycode::Enter => 0x28,
            Keycode::Escape => 0x29,
            Keycode::Backspace => 0x2A,
            Keycode::Tab => 0x2B,
            Keycode::Space => 0x2C,
            Keycode::Minus => 0x2D,
            Keycode::Equal => 0x2E,
            Keycode::LBracket => 0x2F,
            Keycode::RBracket => 0x30,
            Keycode::Backslash => 0x31,
            Keycode::Semicolon => 0x33,
            Keycode::Quote => 0x34,
            Keycode::Grave => 0x35,
            Keycode::Comma => 0x36,
            Keycode::Dot => 0x37,
            Keycode::Slash => 0x38,
            Keycode::CapsLock => 0x39,
            Keycode::NonUsBackslash => 0x64,
            Keycode::F1 => 0x3A,
            Keycode::F2 => 0x3B,
            Keycode::F3 => 0x3C,
            Keycode::F4 => 0x3D,
            Keycode::F5 => 0x3E,
            Keycode::F6 => 0x3F,
            Keycode::F7 => 0x40,
            Keycode::F8 => 0x41,
            Keycode::F9 => 0x42,
            Keycode::F10 => 0x43,
            Keycode::F11 => 0x44,
            Keycode::F12 => 0x45,
            Keycode::PrintScreen => 0x46,
            Keycode::ScrollLock => 0x47,
            Keycode::Pause => 0x48,
            Keycode::Insert => 0x49,
            Keycode::Home => 0x4A,
            Keycode::PageUp => 0x4B,
            Keycode::Delete => 0x4C,
            Keycode::End => 0x4D,
            Keycode::PageDown => 0x4E,
            Keycode::Right => 0x4F,
            Keycode::Left => 0x50,
            Keycode::Down => 0x51,
            Keycode::Up => 0x52,
            Keycode::LCtrl => 0xE0,
            Keycode::LShift => 0xE1,
            Keycode::LAlt => 0xE2,
            Keycode::LGui => 0xE3,
            Keycode::RCtrl => 0xE4,
            Keycode::RShift => 0xE5,
            Keycode::RAlt => 0xE6,
            Keycode::RGui => 0xE7,
            Keycode::Layer1 => 0xF1,
        }
    }

    /// Whether the code is one of the eight modifier usages.
    pub open spec fn spec_is_modifier(self) -> bool {
        MODIFIER_FIRST <= self.spec_code() <= MODIFIER_LAST
    }

    /// Whether the code is a momentary layer hold.
    pub open spec fn spec_is_layer(self) -> bool {
        LAYER_BASE <= self.spec_code()
    }

    /// Whether the code is the transparent (fall-through) code.
    pub open spec fn spec_is_transparent(self) -> bool {
        self.spec_code() == 0
    }

    /// The bit of the report's modifier byte that a modifier sets.
    pub open spec fn spec_modifier_bit(self) -> u8 {
        if self.spec_is_modifier() {
            1u8 << ((self.spec_code() - MODIFIER_FIRST) as u8)
        } else {
            0
        }
    }

    /// The layer that a layer-hold code activates.
    pub open spec fn spec_layer_number(self) -> int {
        self.spec_code() - LAYER_BASE
    }

    /// Check if this keycode is a modifier (LCtrl..RGui).
    #[verifier::when_used_as_spec(spec_is_modifier)]
    pub fn is_modifier(self) -> (r: bool)
        ensures
            r == (MODIFIER_FIRST <= self.spec_code() <= MODIFIER_LAST),
    {
        let v = self.code();
        MODIFIER_FIRST <= v && v <= MODIFIER_LAST
    }

    /// The modifier bit mask (bit 0 = LCtrl, bit 7 = RGui); 0 for any other code.
    #[verifier::when_used_as_spec(spec_modifier_bit)]
    pub fn modifier_bit(self) -> (r: u8)
        ensures
            self.spec_is_modifier() ==> r == 1u8 << ((self.spec_code() - MODIFIER_FIRST) as u8),
            !self.spec_is_modifier() ==> r == 0,
    {
        if self.is_modifier() {
            1u8 << (self.code() - MODIFIER_FIRST)
        } else {
            0
        }
    }

    /// Check if this is a layer switch key.
    #[verifier::when_used_as_spec(spec_is_layer)]
    pub fn is_layer(self) -> (r: bool)
        ensures
            r == (LAYER_BASE <= self.spec_code() <= 0xFF),
    {
        LAYER_BASE <= self.code()
    }

    /// The target layer of a layer key.
    pub fn layer_number(self) -> (r: usize)
        requires
            self.spec_is_layer(),
        ensures
            r == self.spec_code() - LAYER_BASE,
    {
        (self.code() - LAYER_BASE) as usize
    }

    /// Check if this is a transparent key.
    #[verifier::when_used_as_spec(spec_is_transparent)]
    pub fn is_transparent(self) -> (r: bool)
        ensures
            r == (self.spec_code() == 0),
    {
        self.code() == 0
    }

    /// Only the error-rollover keycode has the byte value 1.
    pub proof fn lemma_rollover_code(kc: Keycode)
        ensures
            (kc.spec_code() == 0x01) == (kc == Keycode::ErrorRollover),
    {
    }

    /// The label shown for each keycode in layout drawings.
    pub open spec fn label(self) -> Seq<char> {
        match self {
            Keycode::Trans => ""@,
            Keycode::ErrorRollover => "ERR"@,
            Keycode::A => "A"@,
            Keycode::B => "B"@,
            Keycode::C => "C"@,
            Keycode::D => "D"@,
            Keycode::E => "E"@,
            Keycode::F => "F"@,
            Keycode::G => "G"@,
            Keycode::H => "H"@,
            Keycode::I => "I"@,
            Keycode::J => "J"@,
            Keycode::K => "K"@,
            Keycode::L => "L"@,
            Keycode::M => "M"@,
            Keycode::N => "N"@,
            Keycode::O => "O"@,
            Keycode::P => "P"@,
            Keycode::Q => "Q"@,
            Keycode::R => "R"@,
            Keycode::S => "S"@,
            Keycode::T => "T"@,
            Keycode::U => "U"@,
            Keycode::V => "V"@,
            Keycode::W => "W"@,
            Keycode::X => "X"@,
            Keycode::Y => "Y"@,
            Keycode::Z => "Z"@,
            Keycode::N1 => "1"@,
            Keycode::N2 => "2"@,
            Keycode::N3 => "3"@,
            Keycode::N4 => "4"@,
            Keycode::N5 => "5"@,
            Keycode::N6 => "6"@,
            Keycode::N7 => "7"@,
            Keycode::N8 => "8"@,
            Keycode::N9 => "9"@,
            Keycode::N0 => "0"@,
            Keycode::Enter => "Ent"@,
            Keycode::Escape => "Esc"@,
            Keycode::Backspace => "Bksp"@,
            Keycode::Tab => "Tab"@,
            Keycode::Space => "Spc"@,
            Keycode::Minus => "+?"@,
            Keycode::Equal => "\u{b4}`"@,
            Keycode::LBracket => "\u{e5}"@,
            Keycode::RBracket => "\u{a8}^"@,
            Keycode::Backslash => "'*"@,
            Keycode::Semicolon => "\u{f6}"@,
            Keycode::Quote => "\u{e4}"@,
            Keycode::Grave => "\u{a7}\u{bd}"@,
            Keycode::Comma => ","@,
            Keycode::Dot => "."@,
            Keycode::Slash => "-_"@,
            Keycode::CapsLock => "Caps"@,
            Keycode::NonUsBackslash => "<>"@,
            Keycode::F1 => "F1"@,
            Keycode::F2 => "F2"@,
            Keycode::F3 => "F3"@,
            Keycode::F4 => "F4"@,
            Keycode::F5 => "F5"@,
            Keycode::F6 => "F6"@,
            Keycode::F7 => "F7"@,
            Keycode::F8 => "F8"@,
            Keycode::F9 => "F9"@,
            Keycode::F10 => "F10"@,
            Keycode::F11 => "F11"@,
            Keycode::F12 => "F12"@,
            Keycode::PrintScreen => "PScr"@,
            Keycode::ScrollLock => "ScrL"@,
            Keycode::Pause => "Paus"@,
            Keycode::Insert => "Ins"@,
            Keycode::Home => "Home"@,
            Keycode::PageUp => "PgUp"@,
            Keycode::Delete => "Del"@,
            Keycode::End => "End"@,
            Keycode::PageDown => "PgDn"@,
            Keycode::Right => "\u{2192}"@,
            Keycode::Left => "\u{2190}"@,
            Keycode::Down => "\u{2193}"@,
            Keycode::Up => "\u{2191}"@,
            Keycode::LCtrl => "Ctrl"@,
            Keycode::LShift => "Shft"@,
            Keycode::LAlt => "Alt"@,
            Keycode::LGui => "Gui"@,
            Keycode::RCtrl => "RCtl"@,
            Keycode::RShift => "RSft"@,
            Keycode::RAlt => "RAlt"@,
            Keycode::RGui => "RGui"@,
            Keycode::Layer1 => "Ly1"@,
        }
    }

    /// Display name for use in layout visualizations.
    pub fn display_name(self) -> (r: &'static str)
        ensures
            r@ == self.label(),
    {
        match self {
            Keycode::Trans => "",
            Keycode::ErrorRollover => "ERR",
            Keycode::A => "A",
            Keycode::B => "B",
            Keycode::C => "C",
            Keycode::D => "D",
            Keycode::E => "E",
            Keycode::F => "F",
            Keycode::G => "G",
            Keycode::H => "H",
            Keycode::I => "I",
            Keycode::J => "J",
            Keycode::K => "K",
            Keycode::L => "L",
            Keycode::M => "M",
            Keycode::N => "N",
            Keycode::O => "O",
            Keycode::P => "P",
            Keycode::Q => "Q",
            Keycode::R => "R",
            Keycode::S => "S",
            Keycode::T => "T",
            Keycode::U => "U",
            Keycode::V => "V",
            Keycode::W => "W",
            Keycode::X => "X",
            Keycode::Y => "Y",
            Keycode::Z => "Z",
            Keycode::N1 => "1",
            Keycode::N2 => "2",
            Keycode::N3 => "3",
            Keycode::N4 => "4",
            Keycode::N5 => "5",
            Keycode::N6 => "6",
            Keycode::N7 => "7",
            Keycode::N8 => "8",
            Keycode::N9 => "9",
            Keycode::N0 => "0",
            Keycode::Enter => "Ent",
            Keycode::Escape => "Esc",
            Keycode::Backspace => "Bksp",
            Keycode::Tab => "Tab",
            Keycode::Space => "Spc",
            Keycode::Minus => "+?",
            Keycode::Equal => "\u{b4}`",
            Keycode::LBracket => "\u{e5}",
            Keycode::RBracket => "\u{a8}^",
            Keycode::Backslash => "'*",
            Keycode::Semicolon => "\u{f6}",
            Keycode::Quote => "\u{e4}",
            Keycode::Grave => "\u{a7}\u{bd}",
            Keycode::Comma => ",",
            Keycode::Dot => ".",
            Keycode::Slash => "-_",
            Keycode::CapsLock => "Caps",
            Keycode::NonUsBackslash => "<>",
            Keycode::F1 => "F1",
            Keycode::F2 => "F2",
            Keycode::F3 => "F3",
            Keycode::F4 => "F4",
            Keycode::F5 => "F5",
            Keycode::F6 => "F6",
            Keycode::F7 => "F7",
            Keycode::F8 => "F8",
            Keycode::F9 => "F9",
            Keycode::F10 => "F10",
            Keycode::F11 => "F11",
            Keycode::F12 => "F12",
            Keycode::PrintScreen => "PScr",
            Keycode::ScrollLock => "ScrL",
            Keycode::Pause => "Paus",
            Keycode::Insert => "Ins",
            Keycode::Home => "Home",
            Keycode::PageUp => "PgUp",
            Keycode::Delete => "Del",
            Keycode::End => "End",
            Keycode::PageDown => "PgDn",
            Keycode::Right => "\u{2192}",
            Keycode::Left => "\u{2190}",
            Keycode::Down => "\u{2193}",
            Keycode::Up => "\u{2191}",
            Keycode::LCtrl => "Ctrl",
            Keycode::LShift => "Shft",
            Keycode::LAlt => "Alt",
            Keycode::LGui => "Gui",
            Keycode::RCtrl => "RCtl",
            Keycode::RShift => "RSft",
            Keycode::RAlt => "RAlt",
            Keycode::RGui => "RGui",
            Keycode::Layer1 => "Ly1",
        }
    }
}

} // verus!
