//! What the fuzzy finder's answer leads to: the chosen secret, and what the
//! key that closed the finder asks for.
use vstd::prelude::*;

verus! {

/// How the fuzzy finder ended.
pub enum FinderOutcome {
    /// The user aborted.
    Aborted,
    /// The finder was accepted with nothing selected.
    NothingSelected,
    /// The secret at this path in the mount was chosen.
    Selected(String),
}

/// Reads the finder's answer: whether it was aborted, and the first
/// selected item if any. The items are the listed secrets, each by its path
/// in the mount, so the chosen item is the path of the secret to use.
pub fn finder_outcome(aborted: bool, selection: Option<String>) -> (res: FinderOutcome)
    ensures
        aborted ==> res is Aborted,
        !aborted && selection is None ==> res is NothingSelected,
        !aborted && selection is Some ==> (res matches FinderOutcome::Selected(p) && p@
            == selection.unwrap()@),
{
    if aborted {
        FinderOutcome::Aborted
    } else {
        match selection {
            Some(s) => FinderOutcome::Selected(s),
            None => FinderOutcome::NothingSelected,
        }
    }
}

/// The code of a key press.
#[derive(Clone, Copy, Debug, PartialEq, Eq, Structural)]
pub enum KeyCode {
    Enter,
    Char(char),
    /// Any other key.
    Other,
}

/// A key press: its code and its modifier bits.
#[derive(Clone, Copy, Debug, PartialEq, Eq, Structural)]
pub struct KeyPress {
    pub code: KeyCode,
    pub modifiers: u8,
}

/// The modifier bits of the Control key held alone.
pub const CONTROL: u8 = 2;

/// What a key that closed the finder asks for.
#[derive(Clone, Copy, Debug, PartialEq, Eq, Structural)]
pub enum KeyAction {
    /// Show the chosen secret.
    Show,
    /// Edit the chosen secret, then show it.
    EditThenShow,
    /// Nothing.
    Ignore,
}

/// Enter, with any modifiers, shows; `e` with Control alone edits.
pub open spec fn key_action_of(key: KeyPress) -> KeyAction {
    match key.code {
        KeyCode::Enter => KeyAction::Show,
        KeyCode::Char(c) => if c == 'e' && key.modifiers == CONTROL {
            KeyAction::EditThenShow
        } else {
            KeyAction::Ignore
        },
        KeyCode::Other => KeyAction::Ignore,
    }
}

/// Decides what the key that closed the finder asks for.
pub fn key_action(key: KeyPress) -> (res: KeyAction)
    ensures
        res == key_action_of(key),
{
    match key.code {
        KeyCode::Enter => KeyAction::Show,
        KeyCode::Char(c) => {
            if c == 'e' && key.modifiers == CONTROL {
                KeyAction::EditThenShow
            } else {
                KeyAction::Ignore
            }
        },
        KeyCode::Other => KeyAction::Ignore,
    }
}

} // verus!
