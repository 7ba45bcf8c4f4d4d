//! The input mode state machine: which of the three mutually exclusive
//! modes consumes the next raw input unit, and what that unit means in
//! normal mode and in the browser. Reading bytes happens outside; the
//! decisions are made here, on plain values.

use vstd::prelude::*;

verus! {

/// One unit of raw input: a lone byte, an escape introducer followed by
/// two bytes, or an escape whose continuation could not be read.
#[derive(Clone, Copy, PartialEq, Eq, Debug)]
pub enum RawInput {
    Byte(u8),
    EscapePair(u8, u8),
    EscapeOnly,
}

/// The three input modes, highest priority first: an open browser consumes
/// input before an active prompt, and the prompt before normal editing.
#[derive(Clone, Copy, PartialEq, Eq, Debug)]
pub enum InputMode {
    BrowserOpen,
    PromptActive,
    Normal,
}

/// What normal mode does with one input unit.
#[derive(Clone, Copy, PartialEq, Eq, Debug)]
pub enum NormalCommand {
    MoveCursor(isize, isize),
    OpenSaveAsPrompt,
    OpenBrowser,
    Save,
    Quit,
    NewLine,
    Tab,
    Insert(char),
    Backspace,
    Ignore,
}

/// What the browser does with one input unit.
#[derive(Clone, Copy, PartialEq, Eq, Debug)]
pub enum BrowserCommand {
    SelectionUp,
    SelectionDown,
    Activate,
    Close,
    Ignore,
}

/// Mode priority: browser over prompt over normal.
pub open spec fn mode_of(browser_open: bool, taking_input: bool) -> InputMode {
    if browser_open {
        InputMode::BrowserOpen
    } else if taking_input {
        InputMode::PromptActive
    } else {
        InputMode::Normal
    }
}

/// Which mode consumes the next input unit.
pub fn current_mode(browser_open: bool, taking_input: bool) -> (m: InputMode)
    ensures
        m == mode_of(browser_open, taking_input),
{
    if browser_open {
        InputMode::BrowserOpen
    } else if taking_input {
        InputMode::PromptActive
    } else {
        InputMode::Normal
    }
}

/// Normal mode's reading of one input unit: `[`-prefixed arrow codes move
/// the cursor; an `s`-prefixed escape pair opens the save-as prompt (the
/// one alt-combination bound, as an explicit case rather than a catch-all);
/// designated control bytes save, quit, open the browser, break or tab;
/// printable bytes insert; backspace and delete erase; all else is ignored.
pub open spec fn decode_normal_spec(input: RawInput) -> NormalCommand {
    match input {
        RawInput::Byte(key) => {
            if key == 0x0f {
                NormalCommand::OpenBrowser
            } else if key == 0x13 {
                NormalCommand::Save
            } else if key == 0x11 {
                NormalCommand::Quit
            } else if key == 0x0a || key == 0x0d {
                NormalCommand::NewLine
            } else if key == 0x09 {
                NormalCommand::Tab
            } else if (0x21 <= key && key <= 0x7e) || key == 0x20 {
                NormalCommand::Insert(key as char)
            } else if key == 0x7f || key == 0x08 {
                NormalCommand::Backspace
            } else {
                NormalCommand::Ignore
            }
        },
        RawInput::EscapePair(a, b) => {
            if a == 0x5b && b == 0x41 {
                NormalCommand::MoveCursor(-1isize, 0isize)
            } else if a == 0x5b && b == 0x42 {
                NormalCommand::MoveCursor(1isize, 0isize)
            } else if a == 0x5b && b == 0x43 {
                NormalCommand::MoveCursor(0isize, 1isize)
            } else if a == 0x5b && b == 0x44 {
                NormalCommand::MoveCursor(0isize, -1isize)
            } else if a == 0x73 {
                NormalCommand::OpenSaveAsPrompt
            } else {
                NormalCommand::Ignore
            }
        },
        RawInput::EscapeOnly => NormalCommand::Ignore,
    }
}

/// Decodes one input unit for normal mode.
pub fn decode_normal(input: RawInput) -> (c: NormalCommand)
    ensures
        c == decode_normal_spec(input),
{
    match input {
        RawInput::Byte(key) => {
            if key == 0x0f {
                NormalCommand::OpenBrowser
            } else if key == 0x13 {
                NormalCommand::Save
            } else if key == 0x11 {
                NormalCommand::Quit
            } else if key == 0x0a || key == 0x0d {
                NormalCommand::NewLine
            } else if key == 0x09 {
                NormalCommand::Tab
            } else if (0x21 <= key && key <= 0x7e) || key == 0x20 {
                NormalCommand::Insert(key as char)
            } else if key == 0x7f || key == 0x08 {
                NormalCommand::Backspace
            } else {
                NormalCommand::Ignore
            }
        },
        RawInput::EscapePair(a, b) => {
            if a == 0x5b && b == 0x41 {
                NormalCommand::MoveCursor(-1isize, 0isize)
            } else if a == 0x5b && b == 0x42 {
                NormalCommand::MoveCursor(1isize, 0isize)
            } else if a == 0x5b && b == 0x43 {
                NormalCommand::MoveCursor(0isize, 1isize)
            } else if a == 0x5b && b == 0x44 {
                NormalCommand::MoveCursor(0isize, -1isize)
            } else if a == 0x73 {
                NormalCommand::OpenSaveAsPrompt
            } else {
                NormalCommand::Ignore
            }
        },
        RawInput::EscapeOnly => NormalCommand::Ignore,
    }
}

/// The browser's reading of one input unit: arrows move the selection,
/// enter activates the selected entry, escape (or any unrecognized escape
/// pair) closes the browser, everything else is ignored.
pub open spec fn decode_browser_spec(input: RawInput) -> BrowserCommand {
    match input {
        RawInput::Byte(key) => {
            if key == 0x0d || key == 0x0a {
                BrowserCommand::Activate
            } else {
                BrowserCommand::Ignore
            }
        },
        RawInput::EscapePair(a, b) => {
            if a == 0x5b && b == 0x41 {
                BrowserCommand::SelectionUp
            } else if a == 0x5b && b == 0x42 {
                BrowserCommand::SelectionDown
            } else {
                BrowserCommand::Close
            }
        },
        RawInput::EscapeOnly => BrowserCommand::Close,
    }
}

/// Decodes one input unit for the browser.
pub fn decode_browser(input: RawInput) -> (c: BrowserCommand)
    ensures
        c == decode_browser_spec(input),
{
    match input {
        RawInput::Byte(key) => {
            if key == 0x0d || key == 0x0a {
                BrowserCommand::Activate
            } else {
                BrowserCommand::Ignore
            }
        },
        RawInput::EscapePair(a, b) => {
            if a == 0x5b && b == 0x41 {
                BrowserCommand::SelectionUp
            } else if a == 0x5b && b == 0x42 {
                BrowserCommand::SelectionDown
            } else {
                BrowserCommand::Close
            }
        },
        RawInput::EscapeOnly => BrowserCommand::Close,
    }
}

} // verus!
