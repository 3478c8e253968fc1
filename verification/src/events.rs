//! Engine events and keys: window and keyboard events, mouse buttons, and
//! the keys a key name stands for.

use vstd::prelude::*;
use vstd::std_specs::convert::FromSpecImpl;
use crate::text::{owned, equals_str, to_lowercase, lowercase_of};

verus! {

/// A value the engine's event bus carries.
pub trait Event: Send + Sync + 'static {}

/// The window was resized.
#[derive(Debug, Clone, Copy, PartialEq, Eq, Structural)]
pub struct WindowResizeEvent {
    pub width: u32,
    pub height: u32,
}

impl Event for WindowResizeEvent {}

/// The window is to close.
#[derive(Debug, Clone, Copy, PartialEq, Eq, Structural)]
pub struct WindowCloseEvent;

impl Event for WindowCloseEvent {}

/// A key went down or up.
#[derive(Debug, Clone)]
pub struct KeyboardEvent {
    pub key: String,
    pub pressed: bool,
    pub repeat: bool,
}

impl Event for KeyboardEvent {}

/// A mouse button of the engine's own input.
#[derive(Debug, Clone, Copy, PartialEq, Eq, Hash, Structural)]
pub enum MouseButton {
    Left,
    Right,
    Middle,
    Other(u8),
}

/// A keyboard key.
#[derive(Debug, Clone, Hash, PartialEq, Eq)]
pub enum Key {
    A, B, C, D, E, F, G, H, I, J, K, L, M,
    N, O, P, Q, R, S, T, U, V, W, X, Y, Z,
    Key0, Key1, Key2, Key3, Key4, Key5, Key6, Key7, Key8, Key9,
    F1, F2, F3, F4, F5, F6, F7, F8, F9, F10, F11, F12,
    Escape, Enter, Space, Tab, Backspace, Delete,
    ArrowUp, ArrowDown, ArrowLeft, ArrowRight,
    Shift, Control, Alt, Meta,
    /// A key without a name of its own, as it was written.
    Unknown(String),
}

/// The key a lower-case key name stands for, if it is one of the named keys.
pub open spec fn named_key(name: Seq<char>) -> Option<Key> {
    if name == "a"@ {
        Some(Key::A)
    } else if name == "b"@ {
        Some(Key::B)
    } else if name == "c"@ {
        Some(Key::C)
    } else if name == "d"@ {
        Some(Key::D)
    } else if name == "e"@ {
        Some(Key::E)
    } else if name == "f"@ {
        Some(Key::F)
    } else if name == "g"@ {
        Some(Key::G)
    } else if name == "h"@ {
        Some(Key::H)
    } else if name == "i"@ {
        Some(Key::I)
    } else if name == "j"@ {
        Some(Key::J)
    } else if name == "k"@ {
        Some(Key::K)
    } else if name == "l"@ {
        Some(Key::L)
    } else if name == "m"@ {
        Some(Key::M)
    } else if name == "n"@ {
        Some(Key::N)
    } else if name == "o"@ {
        Some(Key::O)
    } else if name == "p"@ {
        Some(Key::P)
    } else if name == "q"@ {
        Some(Key::Q)
    } else if name == "r"@ {
        Some(Key::R)
    } else if name == "s"@ {
        Some(Key::S)
    } else if name == "t"@ {
        Some(Key::T)
    } else if name == "u"@ {
        Some(Key::U)
    } else if name == "v"@ {
        Some(Key::V)
    } else if name == "w"@ {
        Some(Key::W)
    } else if name == "x"@ {
        Some(Key::X)
    } else if name == "y"@ {
        Some(Key::Y)
    } else if name == "z"@ {
        Some(Key::Z)
    } else if name == "0"@ {
        Some(Key::Key0)
    } else if name == "1"@ {
        Some(Key::Key1)
    } else if name == "2"@ {
        Some(Key::Key2)
    } else if name == "3"@ {
        Some(Key::Key3)
    } else if name == "4"@ {
        Some(Key::Key4)
    } else if name == "5"@ {
        Some(Key::Key5)
    } else if name == "6"@ {
        Some(Key::Key6)
    } else if name == "7"@ {
        Some(Key::Key7)
    } else if name == "8"@ {
        Some(Key::Key8)
    } else if name == "9"@ {
        Some(Key::Key9)
    } else if name == "f1"@ {
        Some(Key::F1)
    } else if name == "f2"@ {
        Some(Key::F2)
    } else if name == "f3"@ {
        Some(Key::F3)
    } else if name == "f4"@ {
        Some(Key::F4)
    } else if name == "f5"@ {
        Some(Key::F5)
    } else if name == "f6"@ {
        Some(Key::F6)
    } else if name == "f7"@ {
        Some(Key::F7)
    } else if name == "f8"@ {
        Some(Key::F8)
    } else if name == "f9"@ {
        Some(Key::F9)
    } else if name == "f10"@ {
        Some(Key::F10)
    } else if name == "f11"@ {
        Some(Key::F11)
    } else if name == "f12"@ {
        Some(Key::F12)
    } else if name == "escape"@ {
        Some(Key::Escape)
    } else if name == "enter"@ {
        Some(Key::Enter)
    } else if name == "space"@ {
        Some(Key::Space)
    } else if name == "tab"@ {
        Some(Key::Tab)
    } else if name == "backspace"@ {
        Some(Key::Backspace)
    } else if name == "delete"@ {
        Some(Key::Delete)
    } else if name == "arrowup"@ {
        Some(Key::ArrowUp)
    } else if name == "arrowdown"@ {
        Some(Key::ArrowDown)
    } else if name == "arrowleft"@ {
        Some(Key::ArrowLeft)
    } else if name == "arrowright"@ {
        Some(Key::ArrowRight)
    } else if name == "shift"@ {
        Some(Key::Shift)
    } else if name == "control"@ {
        Some(Key::Control)
    } else if name == "alt"@ {
        Some(Key::Alt)
    } else if name == "meta"@ {
        Some(Key::Meta)
    } else {
        None
    }
}

impl Key {
    /// The key a name stands for, compared without regard to case
    /// (`str::to_lowercase`); any other name gives `Unknown` with the name
    /// as written.
    pub fn from_name(s: &str) -> (r: Key)
        ensures
            match named_key(lowercase_of(s@)) {
                Some(k) => r == k,
                None => r matches Key::Unknown(t) && t@ == s@,
            },
    {
        let lower = to_lowercase(s);
        if equals_str(&lower, "a") {
            Key::A
        } else if equals_str(&lower, "b") {
            Key::B
        } else if equals_str(&lower, "c") {
            Key::C
        } else if equals_str(&lower, "d") {
            Key::D
        } else if equals_str(&lower, "e") {
            Key::E
        } else if equals_str(&lower, "f") {
            Key::F
        } else if equals_str(&lower, "g") {
            Key::G
        } else if equals_str(&lower, "h") {
            Key::H
        } else if equals_str(&lower, "i") {
            Key::I
        } else if equals_str(&lower, "j") {
            Key::J
        } else if equals_str(&lower, "k") {
            Key::K
        } else if equals_str(&lower, "l") {
            Key::L
        } else if equals_str(&lower, "m") {
            Key::M
        } else if equals_str(&lower, "n") {
            Key::N
        } else if equals_str(&lower, "o") {
            Key::O
        } else if equals_str(&lower, "p") {
            Key::P
        } else if equals_str(&lower, "q") {
            Key::Q
        } else if equals_str(&lower, "r") {
            Key::R
        } else if equals_str(&lower, "s") {
            Key::S
        } else if equals_str(&lower, "t") {
            Key::T
        } else if equals_str(&lower, "u") {
            Key::U
        } else if equals_str(&lower, "v") {
            Key::V
        } else if equals_str(&lower, "w") {
            Key::W
        } else if equals_str(&lower, "x") {
            Key::X
        } else if equals_str(&lower, "y") {
            Key::Y
        } else if equals_str(&lower, "z") {
            Key::Z
        } else if equals_str(&lower, "0") {
            Key::Key0
        } else if equals_str(&lower, "1") {
            Key::Key1
        } else if equals_str(&lower, "2") {
            Key::Key2
        } else if equals_str(&lower, "3") {
            Key::Key3
        } else if equals_str(&lower, "4") {
            Key::Key4
        } else if equals_str(&lower, "5") {
            Key::Key5
        } else if equals_str(&lower, "6") {
            Key::Key6
        } else if equals_str(&lower, "7") {
            Key::Key7
        } else if equals_str(&lower, "8") {
            Key::Key8
        } else if equals_str(&lower, "9") {
            Key::Key9
        } else if equals_str(&lower, "f1") {
            Key::F1
        } else if equals_str(&lower, "f2") {
            Key::F2
        } else if equals_str(&lower, "f3") {
            Key::F3
        } else if equals_str(&lower, "f4") {
            Key::F4
        } else if equals_str(&lower, "f5") {
            Key::F5
        } else if equals_str(&lower, "f6") {
            Key::F6
        } else if equals_str(&lower, "f7") {
            Key::F7
        } else if equals_str(&lower, "f8") {
            Key::F8
        } else if equals_str(&lower, "f9") {
            Key::F9
        } else if equals_str(&lower, "f10") {
            Key::F10
        } else if equals_str(&lower, "f11") {
            Key::F11
        } else if equals_str(&lower, "f12") {
            Key::F12
        } else if equals_str(&lower, "escape") {
            Key::Escape
        } else if equals_str(&lower, "enter") {
            Key::Enter
        } else if equals_str(&lower, "space") {
            Key::Space
        } else if equals_str(&lower, "tab") {
            Key::Tab
        } else if equals_str(&lower, "backspace") {
            Key::Backspace
        } else if equals_str(&lower, "delete") {
            Key::Delete
        } else if equals_str(&lower, "arrowup") {
            Key::ArrowUp
        } else if equals_str(&lower, "arrowdown") {
            Key::ArrowDown
        } else if equals_str(&lower, "arrowleft") {
            Key::ArrowLeft
        } else if equals_str(&lower, "arrowright") {
            Key::ArrowRight
        } else if equals_str(&lower, "shift") {
            Key::Shift
        } else if equals_str(&lower, "control") {
            Key::Control
        } else if equals_str(&lower, "alt") {
            Key::Alt
        } else if equals_str(&lower, "meta") {
            Key::Meta
        } else {
            Key::Unknown(owned(s))
        }
    }
}

impl From<&str> for Key {
    /// The key a name stands for; see `Key::from_name`.
    fn from(s: &str) -> (r: Key)
        ensures
            match named_key(lowercase_of(s@)) {
                Some(k) => r == k,
                None => r matches Key::Unknown(t) && t@ == s@,
            },
    {
        Key::from_name(s)
    }
}

impl FromSpecImpl<&str> for Key {
    /// An unknown key holds a `String`, whose identity a specification
    /// cannot fix from the name alone; `from` states its result over views.
    open spec fn obeys_from_spec() -> bool {
        false
    }

    open spec fn from_spec(s: &str) -> Key {
        match named_key(lowercase_of(s@)) {
            Some(k) => k,
            None => Key::Unknown(choose|t: String| #[trigger] t.view() == s@),
        }
    }
}

} // verus!
