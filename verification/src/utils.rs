//! What the interface hands to the engine, and what the engine hands back.

use vstd::prelude::*;

verus! {

/// What the keys currently act on.
#[derive(Clone, Copy, Debug, Default, PartialEq, Eq, Structural)]
pub enum TUIMode {
    /// The list of monitors.
    #[default]
    View,
    /// The place of the selected monitor.
    Move,
    /// The mode of the selected monitor.
    Resolution,
    /// The scale of the selected monitor.
    Scale,
}

/// A key as far as the engine tells keys apart.
#[derive(Clone, Copy, Debug, PartialEq, Eq, Structural)]
pub enum Key {
    Char(char),
    Up,
    Down,
    Left,
    Right,
    Esc,
    Other,
}

/// A key that was pressed, and whether shift was held with it.
#[derive(Clone, Copy, Debug, PartialEq, Eq, Structural)]
pub struct KeyPress {
    pub key: Key,
    pub shift: bool,
}

/// What is to be written out after a key has been handled.
#[derive(Clone, Copy, Debug, PartialEq, Eq, Structural)]
pub enum Action {
    /// Nothing.
    Nothing,
    /// The place and scale of every monitor.
    SaveState,
    /// The compositor's configuration, and then the place and scale of
    /// every monitor.
    WriteConfig,
}

impl KeyPress {
    /// The key alone.
    pub fn plain(key: Key) -> (r: KeyPress)
        ensures
            r == (KeyPress { key, shift: false }),
    {
        KeyPress { key, shift: false }
    }

    /// The key with shift held.
    pub fn shifted(key: Key) -> (r: KeyPress)
        ensures
            r == (KeyPress { key, shift: true }),
    {
        KeyPress { key, shift: true }
    }
}

/// The entry after `i` in a list of `len` entries, the first after the last.
pub open spec fn spec_next_index(i: usize, len: usize) -> usize {
    if len == 0 || i >= len - 1 {
        0
    } else {
        (i + 1) as usize
    }
}

/// The entry before `i` in a list of `len` entries, the last before the first.
pub open spec fn spec_previous_index(i: usize, len: usize) -> usize {
    if len == 0 {
        0
    } else if i == 0 || i >= len {
        (len - 1) as usize
    } else {
        (i - 1) as usize
    }
}

/// The entry after `i` in a list of `len` entries, the first after the last.
#[verifier::when_used_as_spec(spec_next_index)]
pub fn next_index(i: usize, len: usize) -> (r: usize)
    ensures
        r == spec_next_index(i, len),
        len > 0 ==> r < len,
{
    if len == 0 || i >= len - 1 {
        0
    } else {
        i + 1
    }
}

/// The entry before `i` in a list of `len` entries, the last before the first.
#[verifier::when_used_as_spec(spec_previous_index)]
pub fn previous_index(i: usize, len: usize) -> (r: usize)
    ensures
        r == spec_previous_index(i, len),
        len > 0 ==> r < len,
{
    if len == 0 {
        0
    } else if i == 0 || i >= len {
        len - 1
    } else {
        i - 1
    }
}

} // verus!
