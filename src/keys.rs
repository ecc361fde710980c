//! Keys as the windows see them, and what a window asks of its surroundings
//! after handling one.
use vstd::prelude::*;

verus! {

/// A key press, decoded from the terminal.
#[derive(Clone, Copy, Debug, PartialEq, Eq, Structural)]
pub enum Key {
    Tab,
    Enter,
    Backspace,
    Up,
    Down,
    Left,
    Right,
    Char(char),
    /// Any other key.
    Other,
}

/// What a window asks of the application after a key.
#[derive(Clone, Copy, Debug, PartialEq, Eq, Structural)]
pub enum WindowActionResult {
    Continue,
    Exit,
    FirstWindow,
    SecondWindow,
    ThirdWindow,
}

/// What becomes of the text buffer that the key concerns.
#[derive(Clone, Copy, Debug, PartialEq, Eq, Structural)]
pub enum TextEffect {
    /// Left as it is.
    Keep,
    /// The key is handed to the buffer for editing.
    Forward,
    /// The buffer is emptied.
    Clear,
}

/// The outcome of one key in a window.
#[derive(Clone, Copy, Debug, PartialEq, Eq, Structural)]
pub struct KeyOutcome {
    pub action: WindowActionResult,
    pub text: TextEffect,
}

/// The outcome that asks for nothing.
pub open spec fn carry_on() -> KeyOutcome {
    KeyOutcome { action: WindowActionResult::Continue, text: TextEffect::Keep }
}

/// The outcome that only asks for `action`.
pub open spec fn act(action: WindowActionResult) -> KeyOutcome {
    KeyOutcome { action, text: TextEffect::Keep }
}

/// The outcome that only does `text` to the buffer.
pub open spec fn edit(text: TextEffect) -> KeyOutcome {
    KeyOutcome { action: WindowActionResult::Continue, text }
}

/// Selection moved one down in a list of `count` items, staying on the last.
pub open spec fn step_down(i: int, count: int) -> int {
    let last = if count > 0 { count - 1 } else { 0 };
    if i < last { i + 1 } else { last }
}

/// One less, stopping at zero.
pub open spec fn step_up(i: int) -> int {
    if i > 0 { i - 1 } else { 0 }
}

/// `step_down` on machine integers.
pub fn next_index(i: usize, count: usize) -> (r: usize)
    ensures
        r as int == step_down(i as int, count as int),
{
    let last = count.saturating_sub(1);
    if i < last {
        i + 1
    } else {
        last
    }
}

/// The window switch that a digit key asks for, if any.
pub open spec fn window_switch(key: Key) -> Option<WindowActionResult> {
    if key == Key::Char('1') {
        Some(WindowActionResult::FirstWindow)
    } else if key == Key::Char('2') {
        Some(WindowActionResult::SecondWindow)
    } else if key == Key::Char('3') {
        Some(WindowActionResult::ThirdWindow)
    } else {
        None
    }
}

/// `window_switch`, computed.
pub fn switch_for(key: Key) -> (r: Option<WindowActionResult>)
    ensures
        r == window_switch(key),
{
    match key {
        Key::Char('1') => Some(WindowActionResult::FirstWindow),
        Key::Char('2') => Some(WindowActionResult::SecondWindow),
        Key::Char('3') => Some(WindowActionResult::ThirdWindow),
        _ => None,
    }
}

/// The help window's keys: digits switch windows, `q` asks to exit.
pub fn help_handle_key(key: Key) -> (r: WindowActionResult)
    ensures
        r == match window_switch(key) {
            Some(a) => a,
            None => if key == Key::Char('q') {
                WindowActionResult::Exit
            } else {
                WindowActionResult::Continue
            },
        },
{
    match switch_for(key) {
        Some(a) => a,
        None => if key == Key::Char('q') {
            WindowActionResult::Exit
        } else {
            WindowActionResult::Continue
        },
    }
}

} // verus!
