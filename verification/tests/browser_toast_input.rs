use nox_editor::{Buffer, BrowserEntry, FileBrowser, FileInfo, FileManager, InputAction,
    InputHandler, InputResult, Toast, ToastType};

fn entry(name: &str, is_directory: bool) -> BrowserEntry {
    BrowserEntry {
        name: name.to_string(),
        full_path: format!("/base/{}", name),
        is_directory,
    }
}

#[test]
fn browser_sorts_directories_first_then_lexical() {
    let mut browser = FileBrowser::new();
    let listing = vec![entry("b.txt", false), entry("A", true), entry("a.txt", false)];
    let r = browser.open_browser(Ok(listing));
    assert!(r.is_ok());
    let names: Vec<String> =
        browser.paths.as_ref().unwrap().iter().map(|e| e.name.clone()).collect();
    assert_eq!(names, vec!["A", "a.txt", "b.txt"]);
    assert!(browser.browser_open);
    assert_eq!(browser.pointer, 0);
}

#[test]
fn browser_failed_listing_leaves_model_untouched() {
    let mut browser = FileBrowser::new();
    browser.open_browser(Ok(vec![entry("x", false)])).unwrap();
    let before_len = browser.paths.as_ref().unwrap().len();
    let r = browser.open_browser(Err("permission denied".to_string()));
    assert_eq!(r, Err("permission denied".to_string()));
    assert_eq!(browser.paths.as_ref().unwrap().len(), before_len);
    assert!(browser.browser_open);
}

#[test]
fn browser_selection_saturates_and_never_wraps() {
    let mut browser = FileBrowser::new();
    browser
        .open_browser(Ok(vec![entry("a", false), entry("b", false), entry("c", false)]))
        .unwrap();
    browser.move_pointer(-1);
    assert_eq!(browser.pointer, 0);
    browser.move_pointer(1);
    browser.move_pointer(1);
    browser.move_pointer(1);
    assert_eq!(browser.pointer, 2);
    browser.move_pointer(0);
    assert_eq!(browser.pointer, 2);
}

#[test]
fn browser_selection_is_noop_on_empty_listing() {
    let mut browser = FileBrowser::new();
    browser.open_browser(Ok(Vec::new())).unwrap();
    browser.move_pointer(1);
    assert_eq!(browser.pointer, 0);
}

#[test]
fn browser_close_discards_the_listing() {
    let mut browser = FileBrowser::new();
    browser.open_browser(Ok(vec![entry("a", false)])).unwrap();
    browser.move_pointer(1);
    browser.close_browser();
    assert!(!browser.browser_open);
    assert_eq!(browser.pointer, 0);
    assert!(browser.paths.is_none());
}

#[test]
fn browser_selected_path_follows_the_pointer() {
    let mut browser = FileBrowser::new();
    browser.open_browser(Ok(vec![entry("dir", true), entry("file", false)])).unwrap();
    assert_eq!(browser.get_selected_path(), Some("/base/dir".to_string()));
    browser.move_pointer(1);
    assert_eq!(browser.get_selected_path(), Some("/base/file".to_string()));
    let selected = browser.get_selected_entry().unwrap();
    assert_eq!(selected.name, "file");
    assert!(!selected.is_directory);
    browser.close_browser();
    assert_eq!(browser.get_selected_path(), None);
}

#[test]
fn toast_is_present_before_and_absent_after_its_ttl() {
    let toast = Toast::new("saved", 100, ToastType::Success, 0);
    assert!(!toast.is_expired(50));
    assert!(!toast.is_expired(100));
    assert!(toast.is_expired(150));
}

#[test]
fn toast_sweep_removes_only_expired_entries() {
    let buffer = Buffer::new(vec![String::new()]);
    let info = FileInfo { name: "n".to_string(), path: "/p".to_string() };
    let mut fm = FileManager::new(buffer, info);
    fm.add_toast("short", 100, ToastType::Info, 0);
    fm.add_toast("long", 1000, ToastType::Warning, 0);
    fm.update_toasts(50);
    assert_eq!(fm.toasts.len(), 2);
    fm.update_toasts(150);
    assert_eq!(fm.toasts.len(), 1);
    assert_eq!(fm.toasts[0].message, "long");
    assert!(matches!(fm.toasts[0].toast_type, ToastType::Warning));
    fm.update_toasts(2000);
    assert_eq!(fm.toasts.len(), 0);
}

#[test]
fn prompt_accumulates_and_confirms_text() {
    let mut handler = InputHandler::new();
    handler.start_input_with_prompt("Save As", InputAction::SaveAs);
    assert!(handler.taking_input);
    assert_eq!(handler.input_prompt, "Save As");
    handler.add_char('h');
    handler.add_char('i');
    match handler.confirm_input() {
        InputResult::Confirmed(text) => assert_eq!(text, "hi"),
        _ => panic!("expected a confirmation"),
    }
    assert!(!handler.taking_input);
    assert_eq!(handler.input_buffer, "");
}

#[test]
fn prompt_cancel_discards_text() {
    let mut handler = InputHandler::new();
    handler.start_input();
    handler.add_char('x');
    match handler.cancel_input() {
        InputResult::Cancelled => {}
        _ => panic!("expected a cancellation"),
    }
    assert_eq!(handler.input_buffer, "");
}

#[test]
fn prompt_ignores_input_while_inactive() {
    let mut handler = InputHandler::new();
    handler.add_char('x');
    handler.delete_char();
    assert_eq!(handler.input_buffer, "");
    assert!(matches!(handler.handle_key(b'a'), InputResult::InProgress));
    assert_eq!(handler.input_buffer, "");
}

#[test]
fn handle_key_dispatches_by_byte() {
    let mut handler = InputHandler::new();
    handler.start_input();
    assert!(matches!(handler.handle_key(b'a'), InputResult::InProgress));
    assert!(matches!(handler.handle_key(b' '), InputResult::InProgress));
    assert!(matches!(handler.handle_key(b'b'), InputResult::InProgress));
    assert_eq!(handler.input_buffer, "a b");
    // backspace then delete
    assert!(matches!(handler.handle_key(0x7f), InputResult::InProgress));
    assert_eq!(handler.input_buffer, "a ");
    // a control byte is ignored
    assert!(matches!(handler.handle_key(0x01), InputResult::InProgress));
    assert_eq!(handler.input_buffer, "a ");
    match handler.handle_key(0x0d) {
        InputResult::Confirmed(text) => assert_eq!(text, "a "),
        _ => panic!("expected a confirmation"),
    }
}

#[test]
fn handle_key_escape_cancels() {
    let mut handler = InputHandler::new();
    handler.start_input();
    handler.handle_key(b'q');
    assert!(matches!(handler.handle_key(0x1b), InputResult::Cancelled));
    assert!(!handler.taking_input);
    assert_eq!(handler.input_buffer, "");
}
