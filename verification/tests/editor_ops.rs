use nox_editor::{Buffer, FileInfo, FileManager};

fn manager_with(lines: Vec<&str>) -> FileManager {
    let data: Vec<String> = lines.into_iter().map(|s| s.to_string()).collect();
    let buffer = Buffer::new(data);
    let file_info = FileInfo { name: "demo.txt".to_string(), path: "/tmp/demo.txt".to_string() };
    FileManager::new(buffer, file_info)
}

#[test]
fn insert_char_advances_cursor() {
    let mut fm = manager_with(vec!["hello"]);
    fm.pointer.x = 2;
    fm.insert_char('X');
    assert_eq!(fm.buffer.data, vec!["heXllo"]);
    assert_eq!(fm.pointer.x, 3);
    assert_eq!(fm.pointer.y, 0);
}

#[test]
fn insert_char_clamps_column_to_line_length() {
    let mut fm = manager_with(vec!["ab"]);
    fm.pointer.x = 9;
    fm.insert_char('Z');
    assert_eq!(fm.buffer.data, vec!["abZ"]);
    assert_eq!(fm.pointer.x, 3);
}

#[test]
fn delete_char_removes_left_of_cursor() {
    let mut fm = manager_with(vec!["hello"]);
    fm.pointer.x = 3;
    fm.delete_char();
    assert_eq!(fm.buffer.data, vec!["helo"]);
    assert_eq!(fm.pointer.x, 2);
}

#[test]
fn delete_char_joins_lines_at_column_zero() {
    let mut fm = manager_with(vec!["abc", "def"]);
    fm.pointer.y = 1;
    fm.pointer.x = 0;
    fm.delete_char();
    assert_eq!(fm.buffer.data, vec!["abcdef"]);
    assert_eq!(fm.pointer.y, 0);
    assert_eq!(fm.pointer.x, 3);
}

#[test]
fn delete_char_is_noop_at_origin() {
    let mut fm = manager_with(vec!["abc"]);
    fm.delete_char();
    assert_eq!(fm.buffer.data, vec!["abc"]);
    assert_eq!(fm.pointer.x, 0);
    assert_eq!(fm.pointer.y, 0);
}

#[test]
fn insert_then_delete_same_count_restores_buffer() {
    let mut fm = manager_with(vec!["hello", "world"]);
    fm.pointer.y = 1;
    fm.pointer.x = 2;
    fm.insert_char('a');
    fm.insert_char('b');
    fm.insert_char('c');
    fm.delete_char();
    fm.delete_char();
    fm.delete_char();
    assert_eq!(fm.buffer.data, vec!["hello", "world"]);
    assert_eq!(fm.pointer.y, 1);
    assert_eq!(fm.pointer.x, 2);
}

#[test]
fn insert_then_delete_at_column_zero_restores_buffer() {
    let mut fm = manager_with(vec!["abc", "def"]);
    fm.pointer.y = 1;
    fm.pointer.x = 0;
    fm.insert_char('q');
    fm.delete_char();
    assert_eq!(fm.buffer.data, vec!["abc", "def"]);
    assert_eq!(fm.pointer.y, 1);
    assert_eq!(fm.pointer.x, 0);
}

#[test]
fn new_line_splits_mid_line() {
    let mut fm = manager_with(vec!["hello"]);
    fm.pointer.x = 2;
    fm.new_line();
    assert_eq!(fm.buffer.data, vec!["he", "llo"]);
    assert_eq!(fm.pointer.y, 1);
    assert_eq!(fm.pointer.x, 0);
}

#[test]
fn new_line_at_end_inserts_empty_line() {
    let mut fm = manager_with(vec!["hello"]);
    fm.pointer.x = 5;
    fm.new_line();
    assert_eq!(fm.buffer.data, vec!["hello", ""]);
    assert_eq!(fm.pointer.y, 1);
    assert_eq!(fm.pointer.x, 0);
}

#[test]
fn new_line_then_backspace_restores_line_mid_split() {
    let mut fm = manager_with(vec!["hello"]);
    fm.pointer.x = 3;
    fm.new_line();
    fm.delete_char();
    assert_eq!(fm.buffer.data, vec!["hello"]);
    assert_eq!(fm.pointer.y, 0);
    assert_eq!(fm.pointer.x, 3);
}

#[test]
fn new_line_then_backspace_restores_line_at_column_zero() {
    let mut fm = manager_with(vec!["hello"]);
    fm.pointer.x = 0;
    fm.new_line();
    fm.delete_char();
    assert_eq!(fm.buffer.data, vec!["hello"]);
    assert_eq!(fm.pointer.y, 0);
    assert_eq!(fm.pointer.x, 0);
}

#[test]
fn new_line_then_backspace_restores_line_at_end() {
    let mut fm = manager_with(vec!["hello"]);
    fm.pointer.x = 5;
    fm.new_line();
    fm.delete_char();
    assert_eq!(fm.buffer.data, vec!["hello"]);
    assert_eq!(fm.pointer.y, 0);
    assert_eq!(fm.pointer.x, 5);
}

#[test]
fn vertical_move_clamps_column_to_destination_line() {
    let mut fm = manager_with(vec!["hello", "hi"]);
    fm.pointer.x = 5;
    fm.move_pointer(1, 0);
    assert_eq!(fm.pointer.y, 1);
    assert_eq!(fm.pointer.x, 2);
}

#[test]
fn horizontal_move_saturates_at_line_ends() {
    let mut fm = manager_with(vec!["abc"]);
    fm.move_pointer(0, -1);
    assert_eq!(fm.pointer.x, 0);
    fm.move_pointer(0, 99);
    assert_eq!(fm.pointer.x, 3);
}

#[test]
fn vertical_move_saturates_at_buffer_ends() {
    let mut fm = manager_with(vec!["a", "b", "c"]);
    fm.move_pointer(-5, 0);
    assert_eq!(fm.pointer.y, 0);
    fm.move_pointer(99, 0);
    assert_eq!(fm.pointer.y, 2);
}

#[test]
fn tab_inserts_four_spaces() {
    let mut fm = manager_with(vec!["ab"]);
    fm.pointer.x = 1;
    fm.tab();
    assert_eq!(fm.buffer.data, vec!["a    b"]);
    assert_eq!(fm.pointer.x, 5);
}

#[test]
fn remove_current_line_clamps_row() {
    let mut fm = manager_with(vec!["a", "b"]);
    fm.pointer.y = 1;
    fm.pointer.x = 1;
    fm.remove_current_line();
    assert_eq!(fm.buffer.data, vec!["a"]);
    assert_eq!(fm.pointer.y, 0);
    assert_eq!(fm.pointer.x, 0);
}

#[test]
fn save_content_terminates_every_line_with_newline() {
    let fm = manager_with(vec!["alpha", "beta"]);
    assert_eq!(fm.save_content(), "alpha\nbeta\n");
}

#[test]
fn save_content_of_single_empty_line() {
    let fm = manager_with(vec![""]);
    assert_eq!(fm.save_content(), "\n");
}

#[test]
fn set_saved_path_updates_name_from_last_segment() {
    let mut fm = manager_with(vec!["x"]);
    fm.set_saved_path("/home/user/notes.md");
    assert_eq!(fm.file_info.path, "/home/user/notes.md");
    assert_eq!(fm.file_info.name, "notes.md");
}

#[test]
fn set_saved_path_without_slash_uses_whole_path() {
    let mut fm = manager_with(vec!["x"]);
    fm.set_saved_path("plain.txt");
    assert_eq!(fm.file_info.name, "plain.txt");
}

#[test]
fn load_buffer_replaces_buffer_and_resets_cursor() {
    let mut fm = manager_with(vec!["old line"]);
    fm.pointer.x = 3;
    let new_data = vec!["one".to_string(), "two".to_string()];
    fm.load_buffer(new_data, "new.txt".to_string(), "/tmp/new.txt".to_string());
    assert_eq!(fm.buffer.data, vec!["one", "two"]);
    assert_eq!(fm.pointer.x, 0);
    assert_eq!(fm.pointer.y, 0);
    assert_eq!(fm.file_info.name, "new.txt");
    assert!(!fm.file_browser.browser_open);
}

#[test]
fn load_buffer_of_empty_file_keeps_one_empty_line() {
    let mut fm = manager_with(vec!["old"]);
    fm.load_buffer(Vec::new(), "e.txt".to_string(), "/tmp/e.txt".to_string());
    assert_eq!(fm.buffer.data, vec![""]);
}
