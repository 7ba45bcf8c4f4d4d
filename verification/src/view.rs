//! Viewport windowing: which buffer rows are drawn, given the terminal
//! height, the rows reserved for chrome, and the cursor row.

use vstd::prelude::*;

verus! {

/// First visible row. The window keeps the cursor vertically centered,
/// except near the start or end of the buffer, where it pins to the boundary.
pub open spec fn viewport_start(total: int, visible: int, cursor: int) -> int {
    let half: int = visible / 2;
    if cursor <= half {
        0
    } else if cursor + half > total {
        if total - visible > 0 {
            total - visible
        } else {
            0
        }
    } else {
        cursor - half
    }
}

/// One past the last visible row.
pub open spec fn viewport_end(total: int, visible: int, cursor: int) -> int {
    let start: int = viewport_start(total, visible, cursor);
    if start + visible < total {
        start + visible
    } else {
        total
    }
}

/// Computes the half-open window `[start, end)` of buffer rows to draw.
/// The cursor row always falls inside the window, and the window never
/// shows more than `visible` rows nor reaches past the buffer.
pub fn viewport_window(total_lines: usize, visible: usize, cursor: usize) -> (win: (usize, usize))
    requires
        1 <= visible,
        cursor < total_lines,
    ensures
        win.0 == viewport_start(total_lines as int, visible as int, cursor as int),
        win.1 == viewport_end(total_lines as int, visible as int, cursor as int),
        win.0 <= cursor < win.1 <= total_lines,
        win.1 - win.0 <= visible,
{
    let half: usize = visible / 2;
    let start: usize = if cursor <= half {
        0
    } else if cursor > total_lines - half {
        if total_lines > visible {
            total_lines - visible
        } else {
            0
        }
    } else {
        cursor - half
    };
    let end: usize = if total_lines - start > visible {
        start + visible
    } else {
        total_lines
    };
    (start, end)
}

/// Rows of terminal chrome around the content area, and whether the footer
/// fits: title block and status line take four rows; an active prompt takes
/// two more, otherwise a pending notification takes one; the footer takes
/// one more when the terminal is tall enough.
pub fn chrome_rows(taking_input: bool, toast_count: usize, terminal_rows: u16) -> (r: (u16, bool))
    ensures
        ({
            let base: int = 4 + if taking_input {
                2int
            } else if toast_count > 0 {
                1int
            } else {
                0int
            };
            let footer: bool = terminal_rows > base + 1;
            r.1 == footer && r.0 == base + if footer {
                1int
            } else {
                0int
            }
        }),
{
    let mut used: u16 = 4;
    if taking_input {
        used = used + 2;
    } else if toast_count > 0 {
        used = used + 1;
    }
    let show_footer: bool = terminal_rows > used + 1;
    if show_footer {
        used = used + 1;
    }
    (used, show_footer)
}

/// The half-open window `[start, end)` of browser entries to draw, given
/// the entry count, the rows available for the list, and the selection.
pub fn browser_window(total: usize, max_rows: usize, pos: usize) -> (win: (usize, usize))
    requires
        pos < total || (total == 0 && pos == 0),
    ensures
        win.0 == if pos >= max_rows {
            pos - max_rows / 2
        } else {
            0int
        },
        win.1 == ({
            let e: int = win.0 + max_rows;
            if e < total {
                e
            } else {
                total as int
            }
        }),
{
    let start: usize = if pos >= max_rows {
        pos - max_rows / 2
    } else {
        0
    };
    let end: usize = if total - start > max_rows {
        start + max_rows
    } else {
        total
    };
    (start, end)
}

/// Position of `pos` within `len` items as a percentage, the way the title
/// and browser scroll indicators report it.
pub fn scroll_percentage(pos: usize, len: usize) -> (r: usize)
    requires
        pos < len,
    ensures
        r == pos * 100 / (if len <= 1 { 1int } else { len - 1 }),
        r <= 100,
{
    let den: u128 = if len <= 1 { 1 } else { (len - 1) as u128 };
    let r: u128 = (pos as u128) * 100 / den;
    proof {
        if len > 1 {
            assert(pos * 100 <= (len - 1) * 100) by (nonlinear_arith)
                requires pos <= len - 1;
            vstd::arithmetic::div_mod::lemma_div_is_ordered(
                pos * 100,
                (len - 1) * 100,
                len - 1,
            );
            vstd::arithmetic::div_mod::lemma_div_by_multiple(100, len - 1);
        }
    }
    r as usize
}

} // verus!
