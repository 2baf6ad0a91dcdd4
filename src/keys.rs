//! Classification of raw key events into acoustic categories.
//!
//! Key codes are USB HID keyboard usage identifiers (usage page 0x07), which
//! are independent of the platform that reported the key.
use vstd::prelude::*;

verus! {

/// Whether a key went down or came back up.
#[derive(Clone, Copy, Debug, PartialEq, Eq, Structural)]
pub enum Transition {
    Press,
    Release,
}

/// One key transition reported by the key hook.
#[derive(Clone, Copy, Debug, PartialEq, Eq, Structural)]
pub struct RawKeyEvent {
    pub key_code: u32,
    pub transition: Transition,
    pub timestamp: u64,
}

/// The acoustic category of a key.
#[derive(Clone, Copy, Debug, PartialEq, Eq, Structural)]
pub enum KeyCategory {
    AlphaNumeric,
    Whitespace,
    Enter,
    Backspace,
    Modifier,
    Other,
}

/// Number of key categories.
pub const CATEGORY_COUNT: usize = 6;

/// The category of a HID key code; every code has one, unknown codes are `Other`.
pub open spec fn category_of(code: u32) -> KeyCategory {
    if (0x04 <= code && code <= 0x27) || (0x59 <= code && code <= 0x62) {
        KeyCategory::AlphaNumeric
    } else if code == 0x2B || code == 0x2C {
        KeyCategory::Whitespace
    } else if code == 0x28 || code == 0x58 {
        KeyCategory::Enter
    } else if code == 0x2A {
        KeyCategory::Backspace
    } else if code == 0x39 || (0xE0 <= code && code <= 0xE7) {
        KeyCategory::Modifier
    } else {
        KeyCategory::Other
    }
}

/// Position of a category in a preset's table of clip sets.
pub open spec fn category_slot(c: KeyCategory) -> int {
    match c {
        KeyCategory::AlphaNumeric => 0,
        KeyCategory::Whitespace => 1,
        KeyCategory::Enter => 2,
        KeyCategory::Backspace => 3,
        KeyCategory::Modifier => 4,
        KeyCategory::Other => 5,
    }
}

impl KeyCategory {
    /// Position of this category in a preset's table of clip sets.
    pub fn slot(self) -> (r: usize)
        ensures
            r as int == category_slot(self),
            r < CATEGORY_COUNT,
    {
        match self {
            KeyCategory::AlphaNumeric => 0,
            KeyCategory::Whitespace => 1,
            KeyCategory::Enter => 2,
            KeyCategory::Backspace => 3,
            KeyCategory::Modifier => 4,
            KeyCategory::Other => 5,
        }
    }
}

/// Number of clip sets in a preset: one per category for presses, then one
/// per category for releases.
pub const SLOT_COUNT: usize = 12;

/// Position of the clip set that a transition of a key of category `c` draws from.
pub open spec fn clip_slot(c: KeyCategory, t: Transition) -> int {
    match t {
        Transition::Press => category_slot(c),
        Transition::Release => category_slot(c) + CATEGORY_COUNT,
    }
}

/// Position of the clip set that a transition of a key of category `c` draws from.
pub fn slot_of(c: KeyCategory, t: Transition) -> (r: usize)
    ensures
        r as int == clip_slot(c, t),
        r < SLOT_COUNT,
{
    match t {
        Transition::Press => c.slot(),
        Transition::Release => c.slot() + CATEGORY_COUNT,
    }
}

/// Classifies a key code. Total: any code, known or not, yields a category,
/// and the answer depends on the code alone.
pub fn classify(key_code: u32) -> (r: KeyCategory)
    ensures
        r == category_of(key_code),
{
    if (0x04 <= key_code && key_code <= 0x27) || (0x59 <= key_code && key_code <= 0x62) {
        KeyCategory::AlphaNumeric
    } else if key_code == 0x2B || key_code == 0x2C {
        KeyCategory::Whitespace
    } else if key_code == 0x28 || key_code == 0x58 {
        KeyCategory::Enter
    } else if key_code == 0x2A {
        KeyCategory::Backspace
    } else if key_code == 0x39 || (0xE0 <= key_code && key_code <= 0xE7) {
        KeyCategory::Modifier
    } else {
        KeyCategory::Other
    }
}

} // verus!
