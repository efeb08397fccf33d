//! Keys and what they mean to the interactive view.
use vstd::prelude::*;

verus! {

/// An input of the interactive view.
#[derive(Debug, PartialEq, Eq, Structural, Clone, Copy)]
pub enum Input {
    Char(char),
    Enter,
    Left,
    Right,
    Up,
    Down,
    Esc,
    BackSpace,
    Delete,
    Quit,
}

/// The key of a key press.
#[derive(Debug, PartialEq, Eq, Structural, Clone, Copy)]
pub enum Key {
    Up,
    Down,
    Left,
    Right,
    Esc,
    Enter,
    Backspace,
    Delete,
    Char(char),
    /// Any other key.
    Other,
}

/// A key press: the key and whether Control was held.
#[derive(Debug, PartialEq, Eq, Structural, Clone, Copy)]
pub struct KeyPress {
    pub code: Key,
    pub control: bool,
}

/// The input that a key press gives: Control with `c` or `C` quits; the arrows,
/// Escape, Enter, Backspace, Delete and characters give themselves; other keys
/// give nothing.
pub open spec fn input_of(k: KeyPress) -> Option<Input> {
    if k.control && (k.code == Key::Char('c') || k.code == Key::Char('C')) {
        Some(Input::Quit)
    } else {
        match k.code {
            Key::Up => Some(Input::Up),
            Key::Down => Some(Input::Down),
            Key::Left => Some(Input::Left),
            Key::Right => Some(Input::Right),
            Key::Esc => Some(Input::Esc),
            Key::Enter => Some(Input::Enter),
            Key::Backspace => Some(Input::BackSpace),
            Key::Delete => Some(Input::Delete),
            Key::Char(c) => Some(Input::Char(c)),
            Key::Other => None,
        }
    }
}

/// The input that a key press gives.
pub fn input_from_key(k: KeyPress) -> (r: Option<Input>)
    ensures
        r == input_of(k),
{
    if k.control && (k.code == Key::Char('c') || k.code == Key::Char('C')) {
        return Some(Input::Quit);
    }
    match k.code {
        Key::Up => Some(Input::Up),
        Key::Down => Some(Input::Down),
        Key::Left => Some(Input::Left),
        Key::Right => Some(Input::Right),
        Key::Esc => Some(Input::Esc),
        Key::Enter => Some(Input::Enter),
        Key::Backspace => Some(Input::BackSpace),
        Key::Delete => Some(Input::Delete),
        Key::Char(c) => Some(Input::Char(c)),
        Key::Other => None,
    }
}

/// Reads key presses, waiting at most `poll_duration` for each.
pub struct InputHandler {
    pub poll_duration: std::time::Duration,
}

impl InputHandler {
    /// A handler that waits at most `poll_duration` for a key press.
    pub fn new(poll_duration: std::time::Duration) -> (r: Self)
        ensures
            r.poll_duration == poll_duration,
    {
        Self { poll_duration }
    }
}

} // verus!
