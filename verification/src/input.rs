//! What the engine decides when keys are pressed. Codes, modifiers and states
//! are told apart by plain values: a modifier set and a state set are the bits
//! that the terminal library gives them.

use vstd::prelude::*;

verus! {

/// The bit of the shift key in a set of modifiers.
pub const SHIFT: u8 = 0b0000_0001;

/// The bit of the control key in a set of modifiers.
pub const CONTROL: u8 = 0b0000_0010;

/// The bit of caps lock in a set of key states.
pub const CAPS_LOCK: u8 = 0b0000_1000;

/// A key code, as far as the engine tells codes apart.
#[derive(Clone, Copy, Debug, PartialEq, Eq, Structural)]
pub enum KeyKind {
    Char(char),
    Function(u8),
    Tab,
    Other,
}

/// What a key event makes the engine do.
#[derive(Clone, Copy, Debug, PartialEq, Eq, Structural)]
pub enum KeyAction {
    /// Leave the program.
    Exit,
    /// Switch typing mode on or off.
    SetTypeMode(bool),
    /// Nothing: the key is typed text.
    Ignore,
    /// Hand the event to the scripts' key events.
    Dispatch,
}

/// What one pass over the pending key events remembers of the event before.
#[derive(Clone, Copy, Debug, PartialEq, Eq, Structural)]
pub struct KeyScan {
    pub last_modifiers: u8,
    pub last_state: u8,
}

/// Whether a pending key event is handled now, and whether it leaves the queue.
#[derive(Clone, Copy, Debug, PartialEq, Eq, Structural)]
pub struct KeyVerdict {
    pub go_through: bool,
    pub queue_removal: bool,
}

/// Whether a set of flags holds all the flags of another.
pub open spec fn holds(flags: u8, other: u8) -> bool {
    flags & other == other
}

/// Whether two sets of flags in a row let the second event through: they are
/// the same, or the first does not hold all of the second, or the first is empty.
pub open spec fn follows(last: u8, this: u8) -> bool {
    this == last || !holds(last, this) || last == 0
}

/// Whether a pending event is handled now: it is no release, and both its
/// modifiers and its state may follow those of the event before.
pub open spec fn goes_through(scan: KeyScan, modifiers: u8, state: u8, released: bool) -> bool {
    !released && follows(scan.last_modifiers, modifiers) && follows(scan.last_state, state)
}

fn contains(flags: u8, other: u8) -> (all: bool)
    ensures
        all == holds(flags, other),
{
    flags & other == other
}

impl KeyScan {
    /// The memory of a pass that has seen no event yet.
    pub fn new() -> (scan: Self)
        ensures
            scan == (KeyScan { last_modifiers: 0, last_state: 0 }),
    {
        KeyScan { last_modifiers: 0, last_state: 0 }
    }

    /// Decides on the next pending event of a pass and remembers its modifiers
    /// and state. An event that is handled stays queued unless caps lock is on;
    /// an event that is not handled leaves the queue.
    pub fn scan_key_event(&mut self, modifiers: u8, state: u8, released: bool) -> (verdict:
        KeyVerdict)
        ensures
            verdict.go_through == goes_through(*old(self), modifiers, state, released),
            verdict.queue_removal == (!verdict.go_through || holds(state, CAPS_LOCK)),
            *final(self) == (KeyScan { last_modifiers: modifiers, last_state: state }),
    {
        let modifiers_follow = modifiers == self.last_modifiers || !contains(
            self.last_modifiers,
            modifiers,
        ) || self.last_modifiers == 0;
        let state_follows = state == self.last_state || !contains(self.last_state, state)
            || self.last_state == 0;
        let go_through = !released && modifiers_follow && state_follows;
        let queue_removal = if go_through {
            contains(state, CAPS_LOCK)
        } else {
            true
        };
        self.last_modifiers = modifiers;
        self.last_state = state;
        KeyVerdict { go_through, queue_removal }
    }
}

/// Whether a key switches typing mode: F1 and the tabulator do.
pub open spec fn toggles_type_mode(code: KeyKind) -> bool {
    code == KeyKind::Function(1) || code == KeyKind::Tab
}

/// What a key event makes the engine do. Control with `c` leaves the program, in
/// either mode. F1 and the tabulator switch typing mode. Any other key is typed
/// text in typing mode and goes to the scripts outside it.
pub open spec fn action_of(code: KeyKind, modifiers: u8, type_mode: bool) -> KeyAction {
    if code == KeyKind::Char('c') && modifiers == CONTROL {
        KeyAction::Exit
    } else if toggles_type_mode(code) {
        KeyAction::SetTypeMode(!type_mode)
    } else if type_mode {
        KeyAction::Ignore
    } else {
        KeyAction::Dispatch
    }
}

/// What a key event makes the engine do.
pub fn do_key_event(code: KeyKind, modifiers: u8, type_mode: bool) -> (action: KeyAction)
    ensures
        action == action_of(code, modifiers, type_mode),
{
    let toggles = match code {
        KeyKind::Function(n) => n == 1,
        KeyKind::Tab => true,
        _ => false,
    };
    let leaves = match code {
        KeyKind::Char(c) => c == 'c' && modifiers == CONTROL,
        _ => false,
    };
    if leaves {
        KeyAction::Exit
    } else if toggles {
        KeyAction::SetTypeMode(!type_mode)
    } else if type_mode {
        KeyAction::Ignore
    } else {
        KeyAction::Dispatch
    }
}

/// Whether `char::is_uppercase` holds of a character.
pub uninterp spec fn char_is_uppercase(c: char) -> bool;

/// Whether `char::is_lowercase` holds of a character.
pub uninterp spec fn char_is_lowercase(c: char) -> bool;

/// Calls `char::is_uppercase`, which tells whether a character has the Unicode
/// property Uppercase.
#[verifier::external_body]
fn is_uppercase(c: char) -> (upper: bool)
    ensures
        upper == char_is_uppercase(c),
{
    c.is_uppercase()
}

/// Calls `char::is_lowercase`, which tells whether a character has the Unicode
/// property Lowercase.
#[verifier::external_body]
fn is_lowercase(c: char) -> (lower: bool)
    ensures
        lower == char_is_lowercase(c),
{
    c.is_lowercase()
}

/// Whether a letter came out in the other case than the shift key alone would
/// give it: upper case without shift, or lower case with it.
pub open spec fn case_is_swapped(upper: bool, lower: bool, modifiers: u8) -> bool {
    (upper && !holds(modifiers, SHIFT)) || (lower && holds(modifiers, SHIFT))
}

/// The state that a key event is really in, `letter` telling of a character key
/// whether its character is upper case and whether it is lower case. A reported
/// state stands. Where none is reported, a letter in the swapped case gives caps
/// lock away.
pub open spec fn state_given_case(letter: Option<(bool, bool)>, modifiers: u8, state: u8) -> u8 {
    if state != 0 {
        state
    } else {
        match letter {
            Some((upper, lower)) => if case_is_swapped(upper, lower, modifiers) {
                CAPS_LOCK
            } else {
                0
            },
            None => 0,
        }
    }
}

/// The case of the character of a character key.
pub open spec fn letter_case(code: KeyKind) -> Option<(bool, bool)> {
    match code {
        KeyKind::Char(c) => Some((char_is_uppercase(c), char_is_lowercase(c))),
        _ => None,
    }
}

/// The state that a key event is really in, the case of its character given.
pub fn real_state_from_case(letter: Option<(bool, bool)>, modifiers: u8, state: u8) -> (actual: u8)
    ensures
        actual == state_given_case(letter, modifiers, state),
{
    if state != 0 {
        return state;
    }
    match letter {
        Some((upper, lower)) => {
            if (upper && !contains(modifiers, SHIFT)) || (lower && contains(modifiers, SHIFT)) {
                CAPS_LOCK
            } else {
                0
            }
        },
        None => 0,
    }
}

/// The state that a key event is really in.
pub fn determine_real_state(code: KeyKind, modifiers: u8, state: u8) -> (actual: u8)
    ensures
        actual == state_given_case(letter_case(code), modifiers, state),
{
    let letter = match code {
        KeyKind::Char(c) => Some((is_uppercase(c), is_lowercase(c))),
        _ => None,
    };
    real_state_from_case(letter, modifiers, state)
}

} // verus!
