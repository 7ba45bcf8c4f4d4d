use nox_editor::{current_mode, decode_browser, decode_normal, BrowserCommand, InputMode,
    NormalCommand, RawInput};

#[test]
fn mode_priority_is_browser_then_prompt_then_normal() {
    assert_eq!(current_mode(true, true), InputMode::BrowserOpen);
    assert_eq!(current_mode(true, false), InputMode::BrowserOpen);
    assert_eq!(current_mode(false, true), InputMode::PromptActive);
    assert_eq!(current_mode(false, false), InputMode::Normal);
}

#[test]
fn normal_mode_decodes_arrow_sequences() {
    assert_eq!(
        decode_normal(RawInput::EscapePair(b'[', b'A')),
        NormalCommand::MoveCursor(-1, 0)
    );
    assert_eq!(decode_normal(RawInput::EscapePair(b'[', b'B')), NormalCommand::MoveCursor(1, 0));
    assert_eq!(decode_normal(RawInput::EscapePair(b'[', b'C')), NormalCommand::MoveCursor(0, 1));
    assert_eq!(
        decode_normal(RawInput::EscapePair(b'[', b'D')),
        NormalCommand::MoveCursor(0, -1)
    );
}

#[test]
fn normal_mode_binds_alt_s_to_save_as() {
    assert_eq!(decode_normal(RawInput::EscapePair(b's', 0)), NormalCommand::OpenSaveAsPrompt);
    // an unrecognized escape pair stays inert rather than acting as a
    // catch-all
    assert_eq!(decode_normal(RawInput::EscapePair(b'x', b'y')), NormalCommand::Ignore);
    assert_eq!(decode_normal(RawInput::EscapeOnly), NormalCommand::Ignore);
}

#[test]
fn normal_mode_decodes_control_bytes() {
    assert_eq!(decode_normal(RawInput::Byte(0x0f)), NormalCommand::OpenBrowser);
    assert_eq!(decode_normal(RawInput::Byte(0x13)), NormalCommand::Save);
    assert_eq!(decode_normal(RawInput::Byte(0x11)), NormalCommand::Quit);
    assert_eq!(decode_normal(RawInput::Byte(0x0a)), NormalCommand::NewLine);
    assert_eq!(decode_normal(RawInput::Byte(0x0d)), NormalCommand::NewLine);
    assert_eq!(decode_normal(RawInput::Byte(0x09)), NormalCommand::Tab);
    assert_eq!(decode_normal(RawInput::Byte(0x7f)), NormalCommand::Backspace);
    assert_eq!(decode_normal(RawInput::Byte(0x08)), NormalCommand::Backspace);
    assert_eq!(decode_normal(RawInput::Byte(b'a')), NormalCommand::Insert('a'));
    assert_eq!(decode_normal(RawInput::Byte(b' ')), NormalCommand::Insert(' '));
    assert_eq!(decode_normal(RawInput::Byte(0x01)), NormalCommand::Ignore);
}

#[test]
fn browser_mode_decodes_navigation_and_close() {
    assert_eq!(decode_browser(RawInput::EscapePair(b'[', b'A')), BrowserCommand::SelectionUp);
    assert_eq!(decode_browser(RawInput::EscapePair(b'[', b'B')), BrowserCommand::SelectionDown);
    assert_eq!(decode_browser(RawInput::EscapePair(b'q', b'q')), BrowserCommand::Close);
    assert_eq!(decode_browser(RawInput::EscapeOnly), BrowserCommand::Close);
    assert_eq!(decode_browser(RawInput::Byte(0x0d)), BrowserCommand::Activate);
    assert_eq!(decode_browser(RawInput::Byte(0x0a)), BrowserCommand::Activate);
    assert_eq!(decode_browser(RawInput::Byte(b'z')), BrowserCommand::Ignore);
}
