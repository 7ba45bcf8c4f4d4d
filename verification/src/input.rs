//! Modal text-prompt input: a single-line buffer that accumulates printable
//! bytes while a prompt is active, and the dispatch of one raw key to it.

use vstd::prelude::*;

use crate::text::pop_char;
use crate::text::push_char;

verus! {

/// What a confirmed prompt is for.
#[derive(Clone, Copy, PartialEq, Eq, Structural, Debug)]
pub enum InputAction {
    Generic,
    SaveAs,
}

/// Outcome of feeding one key to the prompt.
pub enum InputResult {
    Confirmed(String),
    Cancelled,
    InProgress,
}

/// True when `r` confirms with exactly the text `s`.
pub open spec fn confirmed_with(r: &InputResult, s: Seq<char>) -> bool {
    match *r {
        InputResult::Confirmed(t) => t@ == s,
        _ => false,
    }
}

/// Printable bytes append to the prompt: the ASCII graphic range and space.
pub open spec fn printable_key(key: u8) -> bool {
    0x20 <= key <= 0x7e
}

/// Keys that confirm the prompt: carriage return and line feed.
pub open spec fn confirm_key(key: u8) -> bool {
    key == 0x0d || key == 0x0a
}

/// Keys that erase one character: backspace and delete.
pub open spec fn erase_key(key: u8) -> bool {
    key == 0x08 || key == 0x7f
}

/// The modal prompt state: whether it is active, the accumulated text, its
/// label, and what a confirmation will mean.
pub struct InputHandler {
    pub taking_input: bool,
    pub input_buffer: String,
    pub input_prompt: String,
    pub action_type: InputAction,
}

impl InputHandler {
    pub fn new() -> (h: InputHandler)
        ensures
            !h.taking_input,
            h.input_buffer@.len() == 0,
            h.input_prompt@ == "Input: "@,
            h.action_type == InputAction::Generic,
    {
        InputHandler {
            taking_input: false,
            input_buffer: String::new(),
            input_prompt: "Input: ".to_owned(),
            action_type: InputAction::Generic,
        }
    }

    /// Opens the prompt with an empty buffer and the generic purpose.
    pub fn start_input(&mut self)
        ensures
            final(self).taking_input,
            final(self).input_buffer@.len() == 0,
            final(self).input_prompt == old(self).input_prompt,
            final(self).action_type == InputAction::Generic,
    {
        self.taking_input = true;
        self.input_buffer = String::new();
        self.action_type = InputAction::Generic;
    }

    /// Opens the prompt with an empty buffer, the given label and purpose.
    pub fn start_input_with_prompt(&mut self, prompt: &str, action: InputAction)
        ensures
            final(self).taking_input,
            final(self).input_buffer@.len() == 0,
            final(self).input_prompt@ == prompt@,
            final(self).action_type == action,
    {
        self.taking_input = true;
        self.input_buffer = String::new();
        self.input_prompt = prompt.to_owned();
        self.action_type = action;
    }

    /// Closes the prompt, yielding the accumulated text.
    pub fn confirm_input(&mut self) -> (r: InputResult)
        ensures
            !final(self).taking_input,
            final(self).input_buffer@.len() == 0,
            final(self).input_prompt == old(self).input_prompt,
            final(self).action_type == old(self).action_type,
            confirmed_with(&r, old(self).input_buffer@),
    {
        let text: String = self.input_buffer.clone();
        self.input_buffer = String::new();
        self.taking_input = false;
        InputResult::Confirmed(text)
    }

    /// Closes the prompt, discarding the accumulated text.
    pub fn cancel_input(&mut self) -> (r: InputResult)
        ensures
            !final(self).taking_input,
            final(self).input_buffer@.len() == 0,
            final(self).input_prompt == old(self).input_prompt,
            final(self).action_type == old(self).action_type,
            r is Cancelled,
    {
        self.taking_input = false;
        self.input_buffer = String::new();
        InputResult::Cancelled
    }

    /// Appends one character, when the prompt is active.
    pub fn add_char(&mut self, c: char)
        ensures
            final(self).taking_input == old(self).taking_input,
            final(self).input_prompt == old(self).input_prompt,
            final(self).action_type == old(self).action_type,
            old(self).taking_input ==> final(self).input_buffer@ == old(self).input_buffer@.push(c),
            !old(self).taking_input ==> final(self).input_buffer == old(self).input_buffer,
    {
        if self.taking_input {
            push_char(&mut self.input_buffer, c);
        }
    }

    /// Removes the last character, when the prompt is active and has one.
    pub fn delete_char(&mut self)
        ensures
            final(self).taking_input == old(self).taking_input,
            final(self).input_prompt == old(self).input_prompt,
            final(self).action_type == old(self).action_type,
            old(self).taking_input && old(self).input_buffer@.len() > 0 ==> final(self).input_buffer@ == old(self).input_buffer@.drop_last(),
            old(self).taking_input && old(self).input_buffer@.len() == 0 ==> final(self).input_buffer@ == old(self).input_buffer@,
            !old(self).taking_input ==> final(self).input_buffer == old(self).input_buffer,
    {
        if self.taking_input {
            pop_char(&mut self.input_buffer);
        }
    }

    /// Dispatches one raw key while the prompt is active: enter confirms,
    /// escape cancels, backspace erases, printable bytes append, everything
    /// else is ignored. An inactive prompt ignores the key entirely.
    pub fn handle_key(&mut self, key: u8) -> (r: InputResult)
        ensures
            final(self).input_prompt == old(self).input_prompt,
            final(self).action_type == old(self).action_type,
            !old(self).taking_input ==> *final(self) == *old(self) && r is InProgress,
            old(self).taking_input ==> {
                &&& confirm_key(key) ==> !final(self).taking_input && final(self).input_buffer@.len() == 0 && confirmed_with(&r, old(self).input_buffer@)
                &&& key == 0x1b ==> !final(self).taking_input && final(self).input_buffer@.len()
                    == 0 && r is Cancelled
                &&& erase_key(key) ==> final(self).taking_input && r is InProgress && final(self).input_buffer@ == (if old(self).input_buffer@.len() > 0 {
                    old(self).input_buffer@.drop_last()
                } else {
                    old(self).input_buffer@
                })
                &&& printable_key(key) ==> final(self).taking_input && r is InProgress && final(self).input_buffer@ == old(self).input_buffer@.push(key as char)
                &&& !(confirm_key(key) || key == 0x1b || erase_key(key) || printable_key(key))
                    ==> *final(self) == *old(self) && r is InProgress
            },
    {
        if !self.taking_input {
            return InputResult::InProgress;
        }
        if key == 0x0d || key == 0x0a {
            self.confirm_input()
        } else if key == 0x1b {
            self.cancel_input()
        } else if key == 0x08 || key == 0x7f {
            self.delete_char();
            InputResult::InProgress
        } else if (0x21 <= key && key <= 0x7e) || key == 0x20 {
            self.add_char(key as char);
            InputResult::InProgress
        } else {
            InputResult::InProgress
        }
    }
}

} // verus!
