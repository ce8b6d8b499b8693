use vstd::prelude::*;

verus! {

/// A key press, reduced to what the panel reads from an input event:
/// the named keys the panel reacts to, a printable character, or anything else.
#[derive(Clone, Copy, PartialEq, Eq, Structural, Debug)]
pub enum Key {
    Esc,
    Up,
    Down,
    Char(char),
    Other,
}

/// What the panel does with a key press.
#[derive(Clone, Copy, PartialEq, Eq, Structural, Debug)]
pub enum KeyAction {
    Quit,
    ScrollUp,
    ScrollDown,
    Ignore,
}

/// The keyboard contract: `Esc`/`q` quit, `Up`/`k` scroll up,
/// `Down`/`j` scroll down, everything else is ignored.
pub open spec fn classify_spec(k: Key) -> KeyAction {
    match k {
        Key::Esc => KeyAction::Quit,
        Key::Char(c) => if c == 'q' {
            KeyAction::Quit
        } else if c == 'k' {
            KeyAction::ScrollUp
        } else if c == 'j' {
            KeyAction::ScrollDown
        } else {
            KeyAction::Ignore
        },
        Key::Up => KeyAction::ScrollUp,
        Key::Down => KeyAction::ScrollDown,
        Key::Other => KeyAction::Ignore,
    }
}

/// Map a key press to the action the panel takes on it.
pub fn classify(k: Key) -> (a: KeyAction)
    ensures
        a == classify_spec(k),
{
    match k {
        Key::Esc => KeyAction::Quit,
        Key::Char(c) => {
            if c == 'q' {
                KeyAction::Quit
            } else if c == 'k' {
                KeyAction::ScrollUp
            } else if c == 'j' {
                KeyAction::ScrollDown
            } else {
                KeyAction::Ignore
            }
        },
        Key::Up => KeyAction::ScrollUp,
        Key::Down => KeyAction::ScrollDown,
        Key::Other => KeyAction::Ignore,
    }
}

} // verus!
