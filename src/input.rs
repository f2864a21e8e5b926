use vstd::prelude::*;

verus! {

/// The key of a key press, as far as the picker tells keys apart.
#[derive(Debug, Clone, Copy, PartialEq, Eq, Structural)]
pub enum KeyCode {
    Char(char),
    Enter,
    Esc,
    Backspace,
    Other,
}

/// A key press, with whether Control was held.
#[derive(Debug, Clone, Copy, PartialEq, Eq, Structural)]
pub struct KeyPress {
    pub code: KeyCode,
    pub ctrl: bool,
}

/// What the picker reacts to.
#[derive(Debug, Clone, Copy, PartialEq, Eq, Structural)]
pub enum InputEvent {
    Key(KeyPress),
    Backspace,
    Enter,
    Esc,
    /// No event arrived within the poll interval.
    Tick,
}

/// Turns terminal events into picker events.
pub struct InputReader;

impl InputReader {
    pub fn new() -> (r: Self) {
        InputReader
    }

    /// The event that one poll comes to. `ready` tells whether an event
    /// arrived within the poll interval; `press` is the key that was pressed,
    /// `None` for any other event (a release, a resize, the mouse).
    pub fn interpret(&self, ready: bool, press: Option<KeyPress>) -> (r: Option<InputEvent>)
        ensures
            !ready ==> r == Some(InputEvent::Tick),
            ready && press is None ==> r is None,
            ready && press is Some ==> r == Some(
                match press->Some_0.code {
                    KeyCode::Enter => InputEvent::Enter,
                    KeyCode::Esc => InputEvent::Esc,
                    KeyCode::Backspace => InputEvent::Backspace,
                    _ => InputEvent::Key(press->Some_0),
                },
            ),
    {
        if !ready {
            return Some(InputEvent::Tick);
        }
        match press {
            Some(k) => match k.code {
                KeyCode::Enter => Some(InputEvent::Enter),
                KeyCode::Esc => Some(InputEvent::Esc),
                KeyCode::Backspace => Some(InputEvent::Backspace),
                _ => Some(InputEvent::Key(k)),
            },
            None => None,
        }
    }
}

/// What the picker does in answer to an event.
#[derive(Debug, Clone, Copy, PartialEq, Eq, Structural)]
pub enum Action {
    /// Highlight the result at this position.
    Select(usize),
    /// Append a character to the query.
    Push(char),
    /// Remove the query's last character.
    Pop,
    /// Open the result at this position and leave.
    Open(usize),
    /// Leave without opening anything.
    Quit,
    /// Nothing changes.
    Stay,
}

/// The picker's answer to `event`, with `selected` the highlighted position
/// and `n_results` the number of ranked results: Control-J moves down (not
/// past the last result), Control-K moves up (not above the first), other
/// characters extend the query, Backspace shortens it, Enter opens the
/// highlighted result, and Esc leaves.
pub fn next_action(event: InputEvent, selected: usize, n_results: usize) -> (r: Action)
    ensures
        r == match event {
            InputEvent::Key(KeyPress { code: KeyCode::Char(c), ctrl }) => if ctrl && c == 'j' {
                if n_results > 0 {
                    Action::Select(
                        if selected + 1 < n_results {
                            (selected + 1) as usize
                        } else {
                            (n_results - 1) as usize
                        },
                    )
                } else {
                    Action::Stay
                }
            } else if ctrl && c == 'k' {
                Action::Select(
                    if selected > 0 {
                        (selected - 1) as usize
                    } else {
                        0
                    },
                )
            } else {
                Action::Push(c)
            },
            InputEvent::Backspace => Action::Pop,
            InputEvent::Enter => if selected < n_results {
                Action::Open(selected)
            } else {
                Action::Quit
            },
            InputEvent::Esc => Action::Quit,
            _ => Action::Stay,
        },
{
    match event {
        InputEvent::Key(k) => match k.code {
            KeyCode::Char(c) => {
                if k.ctrl && c == 'j' {
                    if n_results > 0 {
                        if selected < n_results - 1 {
                            Action::Select(selected + 1)
                        } else {
                            Action::Select(n_results - 1)
                        }
                    } else {
                        Action::Stay
                    }
                } else if k.ctrl && c == 'k' {
                    if selected > 0 {
                        Action::Select(selected - 1)
                    } else {
                        Action::Select(0)
                    }
                } else {
                    Action::Push(c)
                }
            },
            _ => Action::Stay,
        },
        InputEvent::Backspace => Action::Pop,
        InputEvent::Enter => {
            if selected < n_results {
                Action::Open(selected)
            } else {
                Action::Quit
            }
        },
        InputEvent::Esc => Action::Quit,
        InputEvent::Tick => Action::Stay,
    }
}

} // verus!
