//! The virtual key codes: the closed alphabet of keyboard notifications,
//! every constructor constant. Each maps to the immediate integer of its
//! position in the declaration, matching the host runtime's representation
//! of a sum type of constant constructors; the mapping is by name from the
//! native enumeration, fixed here by position, so neither side reordering
//! silently changes the meaning. The host never constructs key codes, so
//! only the native-to-host direction exists.

use vstd::prelude::*;

use crate::convert::ToValue;
use crate::heap::Heap;
use crate::value::Value;

verus! {

/// A virtual key code.
#[derive(Debug, Clone, Copy, PartialEq, Eq, Structural)]
pub enum VirtualKeyCode {

    Key1,
    Key2,
    Key3,
    Key4,
    Key5,
    Key6,
    Key7,
    Key8,
    Key9,
    Key0,
    A,
    B,
    C,
    D,
    E,
    F,
    G,
    H,
    I,
    J,
    K,
    L,
    M,
    N,
    O,
    P,
    Q,
    R,
    S,
    T,
    U,
    V,
    W,
    X,
    Y,
    Z,
    Escape,
    F1,
    F2,
    F3,
    F4,
    F5,
    F6,
    F7,
    F8,
    F9,
    F10,
    F11,
    F12,
    F13,
    F14,
    F15,
    F16,
    F17,
    F18,
    F19,
    F20,
    F21,
    F22,
    F23,
    F24,
    Snapshot,
    Scroll,
    Pause,
    Insert,
    Home,
    Delete,
    End,
    PageDown,
    PageUp,
    Left,
    Up,
    Right,
    Down,
    Back,
    Return,
    Space,
    Compose,
    Caret,
    Numlock,
    Numpad0,
    Numpad1,
    Numpad2,
    Numpad3,
    Numpad4,
    Numpad5,
    Numpad6,
    Numpad7,
    Numpad8,
    Numpad9,
    NumpadAdd,
    NumpadDivide,
    NumpadDecimal,
    NumpadComma,
    NumpadEnter,
    NumpadEquals,
    NumpadMultiply,
    NumpadSubtract,
    AbntC1,
    AbntC2,
    Apostrophe,
    Apps,
    Asterisk,
    At,
    Ax,
    Backslash,
    Calculator,
    Capital,
    Colon,
    Comma,
    Convert,
    Equals,
    Grave,
    Kana,
    Kanji,
    LAlt,
    LBracket,
    LControl,
    LShift,
    LWin,
    Mail,
    MediaSelect,
    MediaStop,
    Minus,
    Mute,
    MyComputer,
    NavigateForward,
    NavigateBackward,
    NextTrack,
    NoConvert,
    OEM102,
    Period,
    PlayPause,
    Plus,
    Power,
    PrevTrack,
    RAlt,
    RBracket,
    RControl,
    RShift,
    RWin,
    Semicolon,
    Slash,
    Sleep,
    Stop,
    Sysrq,
    Tab,
    Underline,
    Unlabeled,
    VolumeDown,
    VolumeUp,
    Wake,
    WebBack,
    WebFavorites,
    WebForward,
    WebHome,
    WebRefresh,
    WebSearch,
    WebStop,
    Yen,
    Copy,
    Paste,
    Cut,
}

impl VirtualKeyCode {
    /// The constructor's position in the declaration: its encoding as an
    /// immediate.
    pub open spec fn code_index(self) -> int {
        match self {

            VirtualKeyCode::Key1 => 0,
            VirtualKeyCode::Key2 => 1,
            VirtualKeyCode::Key3 => 2,
            VirtualKeyCode::Key4 => 3,
            VirtualKeyCode::Key5 => 4,
            VirtualKeyCode::Key6 => 5,
            VirtualKeyCode::Key7 => 6,
            VirtualKeyCode::Key8 => 7,
            VirtualKeyCode::Key9 => 8,
            VirtualKeyCode::Key0 => 9,
            VirtualKeyCode::A => 10,
            VirtualKeyCode::B => 11,
            VirtualKeyCode::C => 12,
            VirtualKeyCode::D => 13,
            VirtualKeyCode::E => 14,
            VirtualKeyCode::F => 15,
            VirtualKeyCode::G => 16,
            VirtualKeyCode::H => 17,
            VirtualKeyCode::I => 18,
            VirtualKeyCode::J => 19,
            VirtualKeyCode::K => 20,
            VirtualKeyCode::L => 21,
            VirtualKeyCode::M => 22,
            VirtualKeyCode::N => 23,
            VirtualKeyCode::O => 24,
            VirtualKeyCode::P => 25,
            VirtualKeyCode::Q => 26,
            VirtualKeyCode::R => 27,
            VirtualKeyCode::S => 28,
            VirtualKeyCode::T => 29,
            VirtualKeyCode::U => 30,
            VirtualKeyCode::V => 31,
            VirtualKeyCode::W => 32,
            VirtualKeyCode::X => 33,
            VirtualKeyCode::Y => 34,
            VirtualKeyCode::Z => 35,
            VirtualKeyCode::Escape => 36,
            VirtualKeyCode::F1 => 37,
            VirtualKeyCode::F2 => 38,
            VirtualKeyCode::F3 => 39,
            VirtualKeyCode::F4 => 40,
            VirtualKeyCode::F5 => 41,
            VirtualKeyCode::F6 => 42,
            VirtualKeyCode::F7 => 43,
            VirtualKeyCode::F8 => 44,
            VirtualKeyCode::F9 => 45,
            VirtualKeyCode::F10 => 46,
            VirtualKeyCode::F11 => 47,
            VirtualKeyCode::F12 => 48,
            VirtualKeyCode::F13 => 49,
            VirtualKeyCode::F14 => 50,
            VirtualKeyCode::F15 => 51,
            VirtualKeyCode::F16 => 52,
            VirtualKeyCode::F17 => 53,
            VirtualKeyCode::F18 => 54,
            VirtualKeyCode::F19 => 55,
            VirtualKeyCode::F20 => 56,
            VirtualKeyCode::F21 => 57,
            VirtualKeyCode::F22 => 58,
            VirtualKeyCode::F23 => 59,
            VirtualKeyCode::F24 => 60,
            VirtualKeyCode::Snapshot => 61,
            VirtualKeyCode::Scroll => 62,
            VirtualKeyCode::Pause => 63,
            VirtualKeyCode::Insert => 64,
            VirtualKeyCode::Home => 65,
            VirtualKeyCode::Delete => 66,
            VirtualKeyCode::End => 67,
            VirtualKeyCode::PageDown => 68,
            VirtualKeyCode::PageUp => 69,
            VirtualKeyCode::Left => 70,
            VirtualKeyCode::Up => 71,
            VirtualKeyCode::Right => 72,
            VirtualKeyCode::Down => 73,
            VirtualKeyCode::Back => 74,
            VirtualKeyCode::Return => 75,
            VirtualKeyCode::Space => 76,
            VirtualKeyCode::Compose => 77,
            VirtualKeyCode::Caret => 78,
            VirtualKeyCode::Numlock => 79,
            VirtualKeyCode::Numpad0 => 80,
            VirtualKeyCode::Numpad1 => 81,
            VirtualKeyCode::Numpad2 => 82,
            VirtualKeyCode::Numpad3 => 83,
            VirtualKeyCode::Numpad4 => 84,
            VirtualKeyCode::Numpad5 => 85,
            VirtualKeyCode::Numpad6 => 86,
            VirtualKeyCode::Numpad7 => 87,
            VirtualKeyCode::Numpad8 => 88,
            VirtualKeyCode::Numpad9 => 89,
            VirtualKeyCode::NumpadAdd => 90,
            VirtualKeyCode::NumpadDivide => 91,
            VirtualKeyCode::NumpadDecimal => 92,
            VirtualKeyCode::NumpadComma => 93,
            VirtualKeyCode::NumpadEnter => 94,
            VirtualKeyCode::NumpadEquals => 95,
            VirtualKeyCode::NumpadMultiply => 96,
            VirtualKeyCode::NumpadSubtract => 97,
            VirtualKeyCode::AbntC1 => 98,
            VirtualKeyCode::AbntC2 => 99,
            VirtualKeyCode::Apostrophe => 100,
            VirtualKeyCode::Apps => 101,
            VirtualKeyCode::Asterisk => 102,
            VirtualKeyCode::At => 103,
            VirtualKeyCode::Ax => 104,
            VirtualKeyCode::Backslash => 105,
            VirtualKeyCode::Calculator => 106,
            VirtualKeyCode::Capital => 107,
            VirtualKeyCode::Colon => 108,
            VirtualKeyCode::Comma => 109,
            VirtualKeyCode::Convert => 110,
            VirtualKeyCode::Equals => 111,
            VirtualKeyCode::Grave => 112,
            VirtualKeyCode::Kana => 113,
            VirtualKeyCode::Kanji => 114,
            VirtualKeyCode::LAlt => 115,
            VirtualKeyCode::LBracket => 116,
            VirtualKeyCode::LControl => 117,
            VirtualKeyCode::LShift => 118,
            VirtualKeyCode::LWin => 119,
            VirtualKeyCode::Mail => 120,
            VirtualKeyCode::MediaSelect => 121,
            VirtualKeyCode::MediaStop => 122,
            VirtualKeyCode::Minus => 123,
            VirtualKeyCode::Mute => 124,
            VirtualKeyCode::MyComputer => 125,
            VirtualKeyCode::NavigateForward => 126,
            VirtualKeyCode::NavigateBackward => 127,
            VirtualKeyCode::NextTrack => 128,
            VirtualKeyCode::NoConvert => 129,
            VirtualKeyCode::OEM102 => 130,
            VirtualKeyCode::Period => 131,
            VirtualKeyCode::PlayPause => 132,
            VirtualKeyCode::Plus => 133,
            VirtualKeyCode::Power => 134,
            VirtualKeyCode::PrevTrack => 135,
            VirtualKeyCode::RAlt => 136,
            VirtualKeyCode::RBracket => 137,
            VirtualKeyCode::RControl => 138,
            VirtualKeyCode::RShift => 139,
            VirtualKeyCode::RWin => 140,
            VirtualKeyCode::Semicolon => 141,
            VirtualKeyCode::Slash => 142,
            VirtualKeyCode::Sleep => 143,
            VirtualKeyCode::Stop => 144,
            VirtualKeyCode::Sysrq => 145,
            VirtualKeyCode::Tab => 146,
            VirtualKeyCode::Underline => 147,
            VirtualKeyCode::Unlabeled => 148,
            VirtualKeyCode::VolumeDown => 149,
            VirtualKeyCode::VolumeUp => 150,
            VirtualKeyCode::Wake => 151,
            VirtualKeyCode::WebBack => 152,
            VirtualKeyCode::WebFavorites => 153,
            VirtualKeyCode::WebForward => 154,
            VirtualKeyCode::WebHome => 155,
            VirtualKeyCode::WebRefresh => 156,
            VirtualKeyCode::WebSearch => 157,
            VirtualKeyCode::WebStop => 158,
            VirtualKeyCode::Yen => 159,
            VirtualKeyCode::Copy => 160,
            VirtualKeyCode::Paste => 161,
            VirtualKeyCode::Cut => 162,
        }
    }

    /// Executable form of the constructor position.
    pub fn code_index_ex(&self) -> (n: i64)
        ensures
            n == self.code_index(),
            0 <= n <= 162,
    {
        match self {

            VirtualKeyCode::Key1 => 0,
            VirtualKeyCode::Key2 => 1,
            VirtualKeyCode::Key3 => 2,
            VirtualKeyCode::Key4 => 3,
            VirtualKeyCode::Key5 => 4,
            VirtualKeyCode::Key6 => 5,
            VirtualKeyCode::Key7 => 6,
            VirtualKeyCode::Key8 => 7,
            VirtualKeyCode::Key9 => 8,
            VirtualKeyCode::Key0 => 9,
            VirtualKeyCode::A => 10,
            VirtualKeyCode::B => 11,
            VirtualKeyCode::C => 12,
            VirtualKeyCode::D => 13,
            VirtualKeyCode::E => 14,
            VirtualKeyCode::F => 15,
            VirtualKeyCode::G => 16,
            VirtualKeyCode::H => 17,
            VirtualKeyCode::I => 18,
            VirtualKeyCode::J => 19,
            VirtualKeyCode::K => 20,
            VirtualKeyCode::L => 21,
            VirtualKeyCode::M => 22,
            VirtualKeyCode::N => 23,
            VirtualKeyCode::O => 24,
            VirtualKeyCode::P => 25,
            VirtualKeyCode::Q => 26,
            VirtualKeyCode::R => 27,
            VirtualKeyCode::S => 28,
            VirtualKeyCode::T => 29,
            VirtualKeyCode::U => 30,
            VirtualKeyCode::V => 31,
            VirtualKeyCode::W => 32,
            VirtualKeyCode::X => 33,
            VirtualKeyCode::Y => 34,
            VirtualKeyCode::Z => 35,
            VirtualKeyCode::Escape => 36,
            VirtualKeyCode::F1 => 37,
            VirtualKeyCode::F2 => 38,
            VirtualKeyCode::F3 => 39,
            VirtualKeyCode::F4 => 40,
            VirtualKeyCode::F5 => 41,
            VirtualKeyCode::F6 => 42,
            VirtualKeyCode::F7 => 43,
            VirtualKeyCode::F8 => 44,
            VirtualKeyCode::F9 => 45,
            VirtualKeyCode::F10 => 46,
            VirtualKeyCode::F11 => 47,
            VirtualKeyCode::F12 => 48,
            VirtualKeyCode::F13 => 49,
            VirtualKeyCode::F14 => 50,
            VirtualKeyCode::F15 => 51,
            VirtualKeyCode::F16 => 52,
            VirtualKeyCode::F17 => 53,
            VirtualKeyCode::F18 => 54,
            VirtualKeyCode::F19 => 55,
            VirtualKeyCode::F20 => 56,
            VirtualKeyCode::F21 => 57,
            VirtualKeyCode::F22 => 58,
            VirtualKeyCode::F23 => 59,
            VirtualKeyCode::F24 => 60,
            VirtualKeyCode::Snapshot => 61,
            VirtualKeyCode::Scroll => 62,
            VirtualKeyCode::Pause => 63,
            VirtualKeyCode::Insert => 64,
            VirtualKeyCode::Home => 65,
            VirtualKeyCode::Delete => 66,
            VirtualKeyCode::End => 67,
            VirtualKeyCode::PageDown => 68,
            VirtualKeyCode::PageUp => 69,
            VirtualKeyCode::Left => 70,
            VirtualKeyCode::Up => 71,
            VirtualKeyCode::Right => 72,
            VirtualKeyCode::Down => 73,
            VirtualKeyCode::Back => 74,
            VirtualKeyCode::Return => 75,
            VirtualKeyCode::Space => 76,
            VirtualKeyCode::Compose => 77,
            VirtualKeyCode::Caret => 78,
            VirtualKeyCode::Numlock => 79,
            VirtualKeyCode::Numpad0 => 80,
            VirtualKeyCode::Numpad1 => 81,
            VirtualKeyCode::Numpad2 => 82,
            VirtualKeyCode::Numpad3 => 83,
            VirtualKeyCode::Numpad4 => 84,
            VirtualKeyCode::Numpad5 => 85,
            VirtualKeyCode::Numpad6 => 86,
            VirtualKeyCode::Numpad7 => 87,
            VirtualKeyCode::Numpad8 => 88,
            VirtualKeyCode::Numpad9 => 89,
            VirtualKeyCode::NumpadAdd => 90,
            VirtualKeyCode::NumpadDivide => 91,
            VirtualKeyCode::NumpadDecimal => 92,
            VirtualKeyCode::NumpadComma => 93,
            VirtualKeyCode::NumpadEnter => 94,
            VirtualKeyCode::NumpadEquals => 95,
            VirtualKeyCode::NumpadMultiply => 96,
            VirtualKeyCode::NumpadSubtract => 97,
            VirtualKeyCode::AbntC1 => 98,
            VirtualKeyCode::AbntC2 => 99,
            VirtualKeyCode::Apostrophe => 100,
            VirtualKeyCode::Apps => 101,
            VirtualKeyCode::Asterisk => 102,
            VirtualKeyCode::At => 103,
            VirtualKeyCode::Ax => 104,
            VirtualKeyCode::Backslash => 105,
            VirtualKeyCode::Calculator => 106,
            VirtualKeyCode::Capital => 107,
            VirtualKeyCode::Colon => 108,
            VirtualKeyCode::Comma => 109,
            VirtualKeyCode::Convert => 110,
            VirtualKeyCode::Equals => 111,
            VirtualKeyCode::Grave => 112,
            VirtualKeyCode::Kana => 113,
            VirtualKeyCode::Kanji => 114,
            VirtualKeyCode::LAlt => 115,
            VirtualKeyCode::LBracket => 116,
            VirtualKeyCode::LControl => 117,
            VirtualKeyCode::LShift => 118,
            VirtualKeyCode::LWin => 119,
            VirtualKeyCode::Mail => 120,
            VirtualKeyCode::MediaSelect => 121,
            VirtualKeyCode::MediaStop => 122,
            VirtualKeyCode::Minus => 123,
            VirtualKeyCode::Mute => 124,
            VirtualKeyCode::MyComputer => 125,
            VirtualKeyCode::NavigateForward => 126,
            VirtualKeyCode::NavigateBackward => 127,
            VirtualKeyCode::NextTrack => 128,
            VirtualKeyCode::NoConvert => 129,
            VirtualKeyCode::OEM102 => 130,
            VirtualKeyCode::Period => 131,
            VirtualKeyCode::PlayPause => 132,
            VirtualKeyCode::Plus => 133,
            VirtualKeyCode::Power => 134,
            VirtualKeyCode::PrevTrack => 135,
            VirtualKeyCode::RAlt => 136,
            VirtualKeyCode::RBracket => 137,
            VirtualKeyCode::RControl => 138,
            VirtualKeyCode::RShift => 139,
            VirtualKeyCode::RWin => 140,
            VirtualKeyCode::Semicolon => 141,
            VirtualKeyCode::Slash => 142,
            VirtualKeyCode::Sleep => 143,
            VirtualKeyCode::Stop => 144,
            VirtualKeyCode::Sysrq => 145,
            VirtualKeyCode::Tab => 146,
            VirtualKeyCode::Underline => 147,
            VirtualKeyCode::Unlabeled => 148,
            VirtualKeyCode::VolumeDown => 149,
            VirtualKeyCode::VolumeUp => 150,
            VirtualKeyCode::Wake => 151,
            VirtualKeyCode::WebBack => 152,
            VirtualKeyCode::WebFavorites => 153,
            VirtualKeyCode::WebForward => 154,
            VirtualKeyCode::WebHome => 155,
            VirtualKeyCode::WebRefresh => 156,
            VirtualKeyCode::WebSearch => 157,
            VirtualKeyCode::WebStop => 158,
            VirtualKeyCode::Yen => 159,
            VirtualKeyCode::Copy => 160,
            VirtualKeyCode::Paste => 161,
            VirtualKeyCode::Cut => 162,
        }
    }
}

impl ToValue for VirtualKeyCode {
    open spec fn inv(&self, h: Heap) -> bool {
        true
    }

    open spec fn blocks_needed(&self) -> nat {
        0
    }

    open spec fn encodes(&self, h: Heap, v: Value) -> bool {
        v.spec_is_long() && v.spec_int_val() == self.code_index()
    }

    proof fn inv_mono(&self, h1: Heap, h2: Heap) {
    }

    proof fn encodes_mono(&self, h1: Heap, h2: Heap, v: Value) {
    }

    fn to_value(&self, h: &mut Heap) -> (v: Value) {
        Value::of_int(self.code_index_ex())
    }
}

} // verus!
