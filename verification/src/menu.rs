//! The menu as a state machine: which state follows a typed selection, and
//! which follows the end of an operation.

use crate::text::{chars_of, trim, trimmed};
use vstd::prelude::*;

verus! {

/// Where the menu loop stands.
#[derive(Debug, Clone, Copy, PartialEq, Eq, Structural)]
pub enum MenuState {
    /// Waiting for a selection.
    Idle,
    /// Taking a new patient's details and storing them.
    Registering,
    /// Taking a search term and showing what it finds.
    Searching,
    /// Leaving; no state follows.
    Exiting,
}

/// The state that a typed selection asks for: `1` registers, `2` searches,
/// `3` exits, each with or without whitespace round it. Any other line is
/// invalid and asks for the menu again.
pub open spec fn selected(line: Seq<char>) -> MenuState {
    let option = trimmed(line);
    if option == seq!['1'] {
        MenuState::Registering
    } else if option == seq!['2'] {
        MenuState::Searching
    } else if option == seq!['3'] {
        MenuState::Exiting
    } else {
        MenuState::Idle
    }
}

/// The state after a line was typed: only the idle menu reads a selection.
pub open spec fn after_selection(state: MenuState, line: Seq<char>) -> MenuState {
    if state == MenuState::Idle {
        selected(line)
    } else {
        state
    }
}

/// The state after the current operation ended, well or badly: back to the
/// idle menu, except that leaving is final.
pub open spec fn after_operation(state: MenuState) -> MenuState {
    if state == MenuState::Exiting {
        MenuState::Exiting
    } else {
        MenuState::Idle
    }
}

impl MenuState {
    /// The state in which the loop starts.
    pub fn start() -> (state: MenuState)
        ensures
            state == MenuState::Idle,
    {
        MenuState::Idle
    }

    /// Whether the loop ends here.
    pub fn is_terminal(self) -> (b: bool)
        ensures
            b == (self == MenuState::Exiting),
    {
        match self {
            MenuState::Exiting => true,
            _ => false,
        }
    }

    /// Takes a typed line. In the idle menu it selects the next state; an
    /// invalid line leaves the menu idle. Leaving is reached in no other way
    /// than by selecting it.
    pub fn select(self, line: &str) -> (next: MenuState)
        ensures
            next == after_selection(self, line@),
            next == MenuState::Exiting <==> self == MenuState::Exiting || (self == MenuState::Idle
                && trimmed(line@) == seq!['3']),
    {
        match self {
            MenuState::Idle => {
                let option = chars_of(trim(line));
                if option.len() != 1 {
                    assert(option@ != seq!['1'] && option@ != seq!['2'] && option@ != seq!['3'])
                        by {
                        assert(seq!['1'].len() == 1 && seq!['2'].len() == 1 && seq!['3'].len()
                            == 1);
                    }
                    return MenuState::Idle;
                }
                let c = option[0];
                assert(option@ =~= seq![c]);
                assert(seq!['1'][0] == '1' && seq!['2'][0] == '2' && seq!['3'][0] == '3');
                if c == '1' {
                    MenuState::Registering
                } else if c == '2' {
                    MenuState::Searching
                } else if c == '3' {
                    MenuState::Exiting
                } else {
                    MenuState::Idle
                }
            },
            other => other,
        }
    }

    /// Ends the current operation, whether it succeeded or was given up.
    pub fn finish(self) -> (next: MenuState)
        ensures
            next == after_operation(self),
            next == MenuState::Exiting <==> self == MenuState::Exiting,
    {
        match self {
            MenuState::Exiting => MenuState::Exiting,
            _ => MenuState::Idle,
        }
    }
}

} // verus!
