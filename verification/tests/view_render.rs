use nox_editor::{browser_window, center_text, chrome_rows, overlay_cursor, render_line,
    scroll_percentage, viewport_window};

#[test]
fn viewport_pins_to_start_near_the_top() {
    assert_eq!(viewport_window(100, 10, 3), (0, 10));
}

#[test]
fn viewport_centers_the_cursor_mid_buffer() {
    assert_eq!(viewport_window(100, 10, 50), (45, 55));
}

#[test]
fn viewport_pins_to_end_near_the_bottom() {
    assert_eq!(viewport_window(100, 10, 97), (90, 100));
}

#[test]
fn viewport_shows_whole_short_buffer() {
    assert_eq!(viewport_window(4, 10, 2), (0, 4));
}

#[test]
fn chrome_rows_counts_prompt_toast_and_footer() {
    // plain: title block and status, plus the footer on a tall terminal
    assert_eq!(chrome_rows(false, 0, 24), (5, true));
    // an active prompt takes two rows
    assert_eq!(chrome_rows(true, 1, 24), (7, true));
    // a pending toast takes one row
    assert_eq!(chrome_rows(false, 2, 24), (6, true));
    // too short for the footer
    assert_eq!(chrome_rows(false, 0, 5), (4, false));
}

#[test]
fn scroll_percentage_spans_zero_to_hundred() {
    assert_eq!(scroll_percentage(0, 100), 0);
    assert_eq!(scroll_percentage(50, 101), 50);
    assert_eq!(scroll_percentage(99, 100), 100);
    assert_eq!(scroll_percentage(0, 1), 0);
}

#[test]
fn browser_window_scrolls_with_the_selection() {
    assert_eq!(browser_window(50, 10, 0), (0, 10));
    assert_eq!(browser_window(50, 10, 30), (25, 35));
    assert_eq!(browser_window(5, 10, 4), (0, 5));
}

#[test]
fn center_text_pads_half_the_free_width() {
    assert_eq!(center_text("ab", 6), "  ab");
    assert_eq!(center_text("abc", 6), " abc");
    assert_eq!(center_text("abcdef", 4), "abcdef");
}

#[test]
fn overlay_wraps_the_target_column_and_keeps_the_escape_intact() {
    // one embedded color sequence, five visible characters, overlay at 2:
    // exactly one inversion pair appears and the original sequence survives
    let highlighted = "\x1b[31mabcde";
    let out = overlay_cursor(highlighted, 2);
    assert_eq!(out, "\x1b[31mab\x1b[7mc\x1b[0mde");
    let escapes = out.matches('\x1b').count();
    assert_eq!(escapes, 3);
    assert!(out.contains("\x1b[31m"));
}

#[test]
fn overlay_counts_only_visible_characters_between_escapes() {
    let highlighted = "\x1b[32ma\x1b[33mb\x1b[0mc";
    let out = overlay_cursor(highlighted, 1);
    assert_eq!(out, "\x1b[32ma\x1b[33m\x1b[7mb\x1b[0m\x1b[0mc");
}

#[test]
fn overlay_on_empty_line_is_one_inverted_space() {
    assert_eq!(overlay_cursor("", 0), "\x1b[7m \x1b[0m");
}

#[test]
fn overlay_past_the_end_appends_an_inverted_space() {
    assert_eq!(overlay_cursor("ab", 2), "ab\x1b[7m \x1b[0m");
    assert_eq!(overlay_cursor("ab", 9), "ab\x1b[7m \x1b[0m");
}

#[test]
fn render_line_highlights_through_the_collaborator() {
    let out = render_line("let x = 1;", "rs", None);
    // the highlighter wraps the text in color escapes; handing the line
    // back unchanged would fail here
    assert_ne!(out, "let x = 1;");
    assert!(out.contains('\x1b'));
    assert!(out.contains("let"));
}

#[test]
fn render_line_merges_the_cursor_overlay() {
    let out = render_line("abc", "txt", Some(0));
    assert!(out.contains("\x1b[7m"));
    let plain = render_line("abc", "txt", None);
    assert!(!plain.contains("\x1b[7m"));
}
