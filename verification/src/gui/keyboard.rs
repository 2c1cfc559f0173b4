//! The keyboard events of the Wayland seat, held as plain values.

use vstd::prelude::*;

verus! {

/// The raw keysym value of the Escape key.
pub const KEYSYM_ESCAPE: u32 = 0xff1b;

/// The state of the keyboard modifiers: whether each one is active.
#[derive(Copy, Clone, Debug)]
pub struct Modifiers {
    /// The "control" key.
    pub ctrl: bool,
    /// The "alt" key.
    pub alt: bool,
    /// The "shift" key.
    pub shift: bool,
    /// The "Caps lock" key.
    pub caps_lock: bool,
    /// The "logo" key, also known as the "windows" or "super" key.
    pub logo: bool,
    /// The "Num lock" key.
    pub num_lock: bool,
}

impl Default for Modifiers {
    /// No modifier active.
    fn default() -> (res: Self)
        ensures
            !res.ctrl && !res.alt && !res.shift && !res.caps_lock && !res.logo && !res.num_lock,
    {
        Modifiers {
            ctrl: false,
            alt: false,
            shift: false,
            caps_lock: false,
            logo: false,
            num_lock: false,
        }
    }
}

/// A key press or release as the seat reports it.
#[derive(Debug)]
pub struct KeyEvent {
    /// Time at which the key event occurred.
    pub time: u32,
    /// The raw value of the key.
    pub raw_code: u32,
    /// The interpreted symbol of the key, as its raw keysym value.
    pub keysym: u32,
    /// The text the key enters, if any.
    pub utf8: Option<String>,
}

} // verus!
