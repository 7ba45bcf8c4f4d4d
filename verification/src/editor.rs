//! The editing engine: a cursor over an ordered sequence of text lines,
//! with character and line mutations, notifications, and the compute side
//! of persistence. The buffer is modeled as a sequence of character
//! sequences; every operation is specified as a transition on
//! `(lines, row, col)`.

use vstd::prelude::*;

use crate::browser::FileBrowser;
use crate::input::InputHandler;
use crate::text::join_lines;
use crate::text::last_segment;
use crate::text::last_path_segment;
use crate::text::push_char;
use crate::text::serialize_lines;
use crate::text::spaces;
use crate::toast::Toast;
use crate::toast::ToastType;
use crate::toast::fresh_toasts;

verus! {

/// The cursor: `x` is the column, `y` the row.
pub struct Pointer {
    pub x: usize,
    pub y: usize,
}

impl Pointer {
    pub fn new(x: usize, y: usize) -> (p: Pointer)
        ensures
            p.x == x,
            p.y == y,
    {
        Pointer { x, y }
    }
}

/// The line buffer: the lines in visual order.
pub struct Buffer {
    pub data: Vec<String>,
    pub current_line: usize,
}

impl Buffer {
    pub fn new(data: Vec<String>) -> (b: Buffer)
        ensures
            b.data == data,
            b.current_line == 0,
    {
        Buffer { data, current_line: 0 }
    }
}

/// Display name and storage path of the buffer's file.
pub struct FileInfo {
    pub name: String,
    pub path: String,
}

/// Inserting `c` at column `col` of row `row`, after clamping the column to
/// the line's length; the cursor advances one column past the new character.
pub open spec fn insert_char_spec(lines: Seq<Seq<char>>, row: int, col: int, c: char) -> (
    Seq<Seq<char>>,
    int,
    int,
) {
    let n: int = lines[row].len() as int;
    let sx: int = if col <= n {
        col
    } else {
        n
    };
    (lines.update(row, lines[row].insert(sx, c)), row, sx + 1)
}

/// Backspace: with the cursor mid-line, removes the character left of it;
/// at column zero of a later row, joins the row onto the previous line and
/// puts the cursor at the join point; at the buffer's origin, does nothing.
pub open spec fn delete_char_spec(lines: Seq<Seq<char>>, row: int, col: int) -> (
    Seq<Seq<char>>,
    int,
    int,
) {
    if col > 0 {
        (lines.update(row, lines[row].remove(col - 1)), row, col - 1)
    } else if row > 0 {
        (lines.update(row - 1, lines[row - 1] + lines[row]).remove(row), row - 1, lines[row
            - 1].len() as int)
    } else {
        (lines, row, col)
    }
}

/// Splits the row at the cursor column into head and tail lines, or inserts
/// an empty line after it when the cursor sits at the end of the line; the
/// cursor moves to column zero of the new row.
pub open spec fn new_line_spec(lines: Seq<Seq<char>>, row: int, col: int) -> (
    Seq<Seq<char>>,
    int,
    int,
) {
    let n: int = lines[row].len() as int;
    if col < n {
        (lines.update(row, lines[row].take(col)).insert(row + 1, lines[row].skip(col)), row + 1, 0)
    } else {
        (lines.insert(row + 1, Seq::empty()), row + 1, 0)
    }
}

/// Inserts four literal spaces at the (clamped) cursor column and advances
/// the cursor past them.
pub open spec fn tab_spec(lines: Seq<Seq<char>>, row: int, col: int) -> (Seq<Seq<char>>, int, int) {
    let n: int = lines[row].len() as int;
    let sx: int = if col <= n {
        col
    } else {
        n
    };
    (lines.update(row, lines[row].take(sx) + spaces(4) + lines[row].skip(sx)), row, sx + 4)
}

/// Clamps `v` into `[0, hi]`.
pub open spec fn clamp(v: int, hi: int) -> int {
    if v < 0 {
        0
    } else if v > hi {
        hi
    } else {
        v
    }
}

/// Relative cursor movement: the target row is clamped to the buffer, then
/// the target column is clamped to the destination line's length.
pub open spec fn move_pointer_spec(lines: Seq<Seq<char>>, row: int, col: int, dy: int, dx: int) -> (
    int,
    int,
) {
    let ty: int = clamp(row + dy, lines.len() - 1);
    let tx: int = clamp(col + dx, lines[ty].len() as int);
    (ty, tx)
}

/// Removes the row under the cursor; the cursor row clamps into the
/// shortened buffer and the column resets to zero.
pub open spec fn remove_line_spec(lines: Seq<Seq<char>>, row: int) -> (Seq<Seq<char>>, int, int) {
    let rest: Seq<Seq<char>> = lines.remove(row);
    let ty: int = if row < rest.len() {
        row
    } else if rest.len() > 0 {
        rest.len() - 1
    } else {
        0
    };
    (rest, ty, 0)
}

/// The editor session: cursor, line buffer, file metadata, notifications,
/// the modal prompt, and the directory browser.
pub struct FileManager {
    pub pointer: Pointer,
    pub buffer: Buffer,
    pub file_info: FileInfo,
    pub toasts: Vec<Toast>,
    pub input_handler: InputHandler,
    pub file_browser: FileBrowser,
}

impl FileManager {
    /// The buffer's lines as character sequences.
    pub open spec fn lines(&self) -> Seq<Seq<char>> {
        self.buffer.data.deep_view()
    }

    /// The cursor row.
    pub open spec fn row(&self) -> int {
        self.pointer.y as int
    }

    /// The cursor column.
    pub open spec fn col(&self) -> int {
        self.pointer.x as int
    }

    /// The buffer holds at least one line and the cursor row lies inside it.
    pub open spec fn row_in_bounds(&self) -> bool {
        self.lines().len() >= 1 && self.row() < self.lines().len()
    }

    /// The session invariant: a valid row and a column no further than the
    /// end of the cursor's line.
    pub open spec fn wf(&self) -> bool {
        self.row_in_bounds() && self.col() <= self.lines()[self.row()].len()
    }

    /// Everything outside cursor and line buffer is unchanged.
    pub open spec fn same_outside_edit(&self, other: &FileManager) -> bool {
        &&& self.file_info == other.file_info
        &&& self.toasts == other.toasts
        &&& self.input_handler == other.input_handler
        &&& self.file_browser == other.file_browser
        &&& self.buffer.current_line == other.buffer.current_line
    }

    pub fn new(buffer: Buffer, file_info: FileInfo) -> (fm: FileManager)
        ensures
            fm.pointer.x == 0 && fm.pointer.y == 0,
            fm.buffer == buffer,
            fm.file_info == file_info,
            fm.toasts@.len() == 0,
            !fm.input_handler.taking_input,
            !fm.file_browser.browser_open && fm.file_browser.paths is None
                && fm.file_browser.pointer == 0,
    {
        FileManager {
            pointer: Pointer::new(0, 0),
            buffer,
            file_info,
            toasts: Vec::new(),
            input_handler: InputHandler::new(),
            file_browser: FileBrowser::new(),
        }
    }

    /// Inserts a character at the cursor, clamping the column to the line
    /// first, and advances the cursor one column.
    pub fn insert_char(&mut self, c: char)
        requires
            old(self).row_in_bounds(),
            old(self).lines()[old(self).row()].len() < usize::MAX,
        ensures
            final(self).wf(),
            (final(self).lines(), final(self).row(), final(self).col()) == insert_char_spec(
                old(self).lines(),
                old(self).row(),
                old(self).col(),
                c,
            ),
            final(self).same_outside_edit(old(self)),
    {
        let y: usize = self.pointer.y;
        let x: usize = self.pointer.x;
        let n: usize = self.buffer.data[y].as_str().unicode_len();
        let sx: usize = if x <= n {
            x
        } else {
            n
        };
        let mut s: String = self.buffer.data[y].as_str().substring_char(0, sx).to_owned();
        push_char(&mut s, c);
        let tail: String = self.buffer.data[y].as_str().substring_char(sx, n).to_owned();
        s.append(tail.as_str());
        self.buffer.data.set(y, s);
        self.pointer.x = sx + 1;
        proof {
            let line0: Seq<char> = old(self).lines()[y as int];
            assert(s@ =~= line0.insert(sx as int, c));
            lemma_lines_update(&old(self).buffer.data, &self.buffer.data, y as int, s@);
        }
    }

    /// Inserts a four-space tab at the cursor, clamping the column to the
    /// line first, and advances the cursor past it.
    pub fn tab(&mut self)
        requires
            old(self).row_in_bounds(),
            old(self).lines()[old(self).row()].len() + 4 <= usize::MAX,
        ensures
            final(self).wf(),
            (final(self).lines(), final(self).row(), final(self).col()) == tab_spec(
                old(self).lines(),
                old(self).row(),
                old(self).col(),
            ),
            final(self).same_outside_edit(old(self)),
    {
        let y: usize = self.pointer.y;
        let x: usize = self.pointer.x;
        let n: usize = self.buffer.data[y].as_str().unicode_len();
        let sx: usize = if x <= n {
            x
        } else {
            n
        };
        let mut s: String = self.buffer.data[y].as_str().substring_char(0, sx).to_owned();
        s.append("    ");
        let tail: String = self.buffer.data[y].as_str().substring_char(sx, n).to_owned();
        s.append(tail.as_str());
        self.buffer.data.set(y, s);
        self.pointer.x = sx + 4;
        proof {
            reveal_strlit("    ");
            let line0: Seq<char> = old(self).lines()[y as int];
            assert("    "@ =~= spaces(4));
            assert(s@ =~= line0.take(sx as int) + spaces(4) + line0.skip(sx as int));
            lemma_lines_update(&old(self).buffer.data, &self.buffer.data, y as int, s@);
        }
    }

    /// Moves the cursor by `(dy, dx)`: the row saturates into the buffer,
    /// then the column saturates into the destination line. The clamping
    /// restores the session invariant from any cursor position.
    pub fn move_pointer(&mut self, dy: isize, dx: isize)
        requires
            old(self).lines().len() >= 1,
        ensures
            final(self).wf(),
            final(self).lines() == old(self).lines(),
            (final(self).row(), final(self).col()) == move_pointer_spec(
                old(self).lines(),
                old(self).row(),
                old(self).col(),
                dy as int,
                dx as int,
            ),
            final(self).same_outside_edit(old(self)),
    {
        let max_y: usize = self.buffer.data.len() - 1;
        let ny: usize = saturating_step(self.pointer.y, dy);
        let by: usize = if ny > max_y {
            max_y
        } else {
            ny
        };
        let line_len: usize = self.buffer.data[by].as_str().unicode_len();
        let nx: usize = saturating_step(self.pointer.x, dx);
        let bx: usize = if nx > line_len {
            line_len
        } else {
            nx
        };
        self.pointer.y = by;
        self.pointer.x = bx;
    }

    /// Backspace at the cursor: removes the character left of it, or joins
    /// the current line onto the previous one when the cursor sits at
    /// column zero, or does nothing at the buffer's origin.
    pub fn delete_char(&mut self)
        requires
            old(self).wf(),
        ensures
            final(self).wf(),
            (final(self).lines(), final(self).row(), final(self).col()) == delete_char_spec(
                old(self).lines(),
                old(self).row(),
                old(self).col(),
            ),
            final(self).same_outside_edit(old(self)),
    {
        let y: usize = self.pointer.y;
        let x: usize = self.pointer.x;
        if x > 0 {
            let n: usize = self.buffer.data[y].as_str().unicode_len();
            let mut s: String = self.buffer.data[y].as_str().substring_char(0, x - 1).to_owned();
            let tail: String = self.buffer.data[y].as_str().substring_char(x, n).to_owned();
            s.append(tail.as_str());
            self.buffer.data.set(y, s);
            self.pointer.x = x - 1;
            proof {
                let line0: Seq<char> = old(self).lines()[y as int];
                assert(s@ =~= line0.remove(x - 1));
                lemma_lines_update(&old(self).buffer.data, &self.buffer.data, y as int, s@);
            }
        } else if y > 0 {
            let current: String = self.buffer.data.remove(y);
            let mut prev: String = self.buffer.data.remove(y - 1);
            let join_col: usize = prev.as_str().unicode_len();
            prev.append(current.as_str());
            self.buffer.data.insert(y - 1, prev);
            self.pointer.y = y - 1;
            self.pointer.x = join_col;
            proof {
                let lines0: Seq<Seq<char>> = old(self).lines();
                let d0: Seq<String> = old(self).buffer.data@;
                let joined: Seq<char> = lines0[y - 1] + lines0[y as int];
                let prev1: String = self.buffer.data@[y - 1];
                assert(prev1@ =~= joined);
                assert(self.buffer.data@ =~= d0.remove(y as int).update(y - 1, prev1));
                lemma_deep_view_is_views(&old(self).buffer.data);
                lemma_deep_view_is_views(&self.buffer.data);
                lemma_views_remove(d0, y as int);
                lemma_views_update(d0.remove(y as int), y - 1, prev1);
                assert(self.lines() =~= lines0.remove(y as int).update(y - 1, joined));
                assert(lines0.update(y - 1, joined).remove(y as int) =~= lines0.remove(
                    y as int,
                ).update(y - 1, joined));
            }
        }
    }

    /// Splits the cursor's line at the column (or opens an empty line after
    /// it when the cursor is at the end of the line) and moves the cursor
    /// to column zero of the new line.
    pub fn new_line(&mut self)
        requires
            old(self).row_in_bounds(),
        ensures
            final(self).wf(),
            (final(self).lines(), final(self).row(), final(self).col()) == new_line_spec(
                old(self).lines(),
                old(self).row(),
                old(self).col(),
            ),
            final(self).same_outside_edit(old(self)),
    {
        let y: usize = self.pointer.y;
        let x: usize = self.pointer.x;
        let total: usize = self.buffer.data.len();
        proof {
            assert(y < total);
        }
        let n: usize = self.buffer.data[y].as_str().unicode_len();
        if x < n {
            let head: String = self.buffer.data[y].as_str().substring_char(0, x).to_owned();
            let tail: String = self.buffer.data[y].as_str().substring_char(x, n).to_owned();
            self.buffer.data.set(y, head);
            self.buffer.data.insert(y + 1, tail);
            proof {
                let lines0: Seq<Seq<char>> = old(self).lines();
                let d0: Seq<String> = old(self).buffer.data@;
                let headv: String = self.buffer.data@[y as int];
                let tailv: String = self.buffer.data@[y + 1];
                assert(headv@ =~= lines0[y as int].take(x as int));
                assert(tailv@ =~= lines0[y as int].skip(x as int));
                assert(self.buffer.data@ =~= d0.update(y as int, headv).insert(y + 1, tailv));
                lemma_deep_view_is_views(&old(self).buffer.data);
                lemma_deep_view_is_views(&self.buffer.data);
                lemma_views_update(d0, y as int, headv);
                lemma_views_insert(d0.update(y as int, headv), y + 1, tailv);
                assert(self.lines() =~= lines0.update(y as int, lines0[y as int].take(x as int))
                    .insert(y + 1, lines0[y as int].skip(x as int)));
            }
        } else {
            self.buffer.data.insert(y + 1, String::new());
            proof {
                let d0: Seq<String> = old(self).buffer.data@;
                let emptyv: String = self.buffer.data@[y + 1];
                assert(emptyv@ =~= Seq::<char>::empty());
                lemma_deep_view_is_views(&old(self).buffer.data);
                lemma_deep_view_is_views(&self.buffer.data);
                lemma_views_insert(d0, y + 1, emptyv);
                assert(self.lines() =~= old(self).lines().insert(y + 1, Seq::<char>::empty()));
            }
        }
        self.pointer.y = y + 1;
        self.pointer.x = 0;
    }

    /// Deletes the line under the cursor; the row clamps into the shortened
    /// buffer (which may become empty) and the column resets to zero.
    pub fn remove_current_line(&mut self)
        requires
            old(self).row_in_bounds(),
        ensures
            (final(self).lines(), final(self).row(), final(self).col()) == remove_line_spec(
                old(self).lines(),
                old(self).row(),
            ),
            final(self).lines().len() > 0 ==> final(self).wf(),
            final(self).lines().len() == 0 ==> final(self).row() == 0 && final(self).col() == 0,
            final(self).same_outside_edit(old(self)),
    {
        let y: usize = self.pointer.y;
        self.buffer.data.remove(y);
        let len: usize = self.buffer.data.len();
        if y >= len {
            self.pointer.y = if len > 0 {
                len - 1
            } else {
                0
            };
        }
        self.pointer.x = 0;
        proof {
            lemma_deep_view_is_views(&old(self).buffer.data);
            lemma_deep_view_is_views(&self.buffer.data);
            lemma_views_remove(old(self).buffer.data@, y as int);
            assert(self.lines() =~= old(self).lines().remove(y as int));
        }
    }

    /// Appends a notification created at time `now`.
    pub fn add_toast(&mut self, message: &str, duration_ms: u64, toast_type: ToastType, now: u64)
        ensures
            final(self).toasts@.len() == old(self).toasts@.len() + 1,
            final(self).toasts@.subrange(0, old(self).toasts@.len() as int) == old(self).toasts@,
            final(self).toasts@.last().message@ == message@,
            final(self).toasts@.last().duration == duration_ms,
            final(self).toasts@.last().toast_type == toast_type,
            final(self).toasts@.last().created_at == now,
            final(self).pointer == old(self).pointer,
            final(self).buffer == old(self).buffer,
            final(self).file_info == old(self).file_info,
            final(self).input_handler == old(self).input_handler,
            final(self).file_browser == old(self).file_browser,
    {
        let toast: Toast = Toast::new(message, duration_ms, toast_type, now);
        self.toasts.push(toast);
        proof {
            assert(self.toasts@.subrange(0, old(self).toasts@.len() as int) =~= old(self).toasts@);
        }
    }

    /// Sweeps the notification queue: at time `now`, exactly the entries
    /// whose age has not passed their time-to-live remain, in order.
    pub fn update_toasts(&mut self, now: u64)
        ensures
            final(self).toasts@ == fresh_toasts(old(self).toasts@, now),
            final(self).pointer == old(self).pointer,
            final(self).buffer == old(self).buffer,
            final(self).file_info == old(self).file_info,
            final(self).input_handler == old(self).input_handler,
            final(self).file_browser == old(self).file_browser,
    {
        let ghost orig: Seq<Toast> = self.toasts@;
        let mut i: usize = 0;
        let ghost mut j: int = 0;
        let ghost mut kept: Seq<Toast> = Seq::empty();
        proof {
            assert(orig.skip(0int) =~= orig);
            assert(kept + orig.skip(0int) =~= orig);
            assert(kept + fresh_toasts(orig.skip(0int), now) =~= fresh_toasts(orig, now));
        }
        while i < self.toasts.len()
            invariant
                0 <= j <= orig.len(),
                i == kept.len(),
                self.toasts@ == kept + orig.skip(j),
                fresh_toasts(orig, now) == kept + fresh_toasts(orig.skip(j), now),
                self.pointer == old(self).pointer,
                self.buffer == old(self).buffer,
                self.file_info == old(self).file_info,
                self.input_handler == old(self).input_handler,
                self.file_browser == old(self).file_browser,
            decreases orig.len() - j,
        {
            proof {
                assert(orig.skip(j).len() > 0);
                assert(self.toasts@[i as int] == orig.skip(j)[0]);
                assert(orig.skip(j).drop_first() =~= orig.skip(j + 1));
            }
            if self.toasts[i].is_expired(now) {
                self.toasts.remove(i);
                proof {
                    assert(self.toasts@ =~= kept + orig.skip(j + 1));
                }
            } else {
                i = i + 1;
                proof {
                    let c: Toast = orig.skip(j)[0];
                    assert(fresh_toasts(orig.skip(j), now) =~= seq![c] + fresh_toasts(
                        orig.skip(j + 1),
                        now,
                    ));
                    assert((kept + seq![c]) + fresh_toasts(orig.skip(j + 1), now) =~= kept + (
                    seq![c] + fresh_toasts(orig.skip(j + 1), now)));
                    assert((kept + seq![c]) + orig.skip(j + 1) =~= kept + orig.skip(j));
                    kept = kept + seq![c];
                }
            }
            proof {
                j = j + 1;
            }
        }
        proof {
            assert(orig.skip(j).len() == self.toasts@.len() - kept.len());
            assert(orig.skip(j) =~= Seq::<Toast>::empty());
            assert(self.toasts@ =~= kept);
            assert(kept + fresh_toasts(orig.skip(j), now) =~= kept);
        }
    }

    /// The buffer serialized for storage: every line in order, each
    /// terminated by a newline. Writing these bytes is the caller's side of
    /// a save.
    pub fn save_content(&self) -> (r: String)
        ensures
            r@ == join_lines(self.lines()),
    {
        let r: String = serialize_lines(&self.buffer.data);
        proof {
            lemma_deep_view_is_views(&self.buffer.data);
        }
        r
    }

    /// Records a completed save to a new path: the session's path becomes
    /// `path` and the display name its final path segment.
    pub fn set_saved_path(&mut self, path: &str)
        ensures
            final(self).file_info.path@ == path@,
            final(self).file_info.name@ == last_segment(path@),
            final(self).pointer == old(self).pointer,
            final(self).buffer == old(self).buffer,
            final(self).toasts == old(self).toasts,
            final(self).input_handler == old(self).input_handler,
            final(self).file_browser == old(self).file_browser,
    {
        self.file_info.path = path.to_owned();
        self.file_info.name = last_path_segment(path);
    }

    /// Replaces the buffer wholesale with freshly loaded lines (an empty
    /// load becomes one empty line), resets the cursor to the origin,
    /// records the new file metadata, and closes the browser.
    pub fn load_buffer(&mut self, data: Vec<String>, name: String, path: String)
        ensures
            final(self).lines() == ({
                if data@.len() == 0 {
                    seq![Seq::<char>::empty()]
                } else {
                    data.deep_view()
                }
            }),
            final(self).wf(),
            final(self).row() == 0 && final(self).col() == 0,
            final(self).file_info.name == name,
            final(self).file_info.path == path,
            !final(self).file_browser.browser_open && final(self).file_browser.paths is None
                && final(self).file_browser.pointer == 0,
            final(self).toasts == old(self).toasts,
            final(self).input_handler == old(self).input_handler,
    {
        if data.len() == 0 {
            let mut one: Vec<String> = Vec::new();
            one.push(String::new());
            self.buffer.data = one;
            proof {
                assert(self.lines() =~= seq![Seq::<char>::empty()]);
            }
        } else {
            self.buffer.data = data;
        }
        self.pointer.x = 0;
        self.pointer.y = 0;
        self.file_info.name = name;
        self.file_info.path = path;
        self.file_browser.close_browser();
    }
}

/// `v` shifted by `d`, saturating at zero and at `usize::MAX`.
fn saturating_step(v: usize, d: isize) -> (r: usize)
    ensures
        r == ({
            let t: int = v + d;
            if t < 0 {
                0int
            } else if t > usize::MAX {
                usize::MAX as int
            } else {
                t
            }
        }),
{
    if d < 0 {
        let mag: usize = ((-(d + 1)) as usize) + 1;
        if v > mag {
            v - mag
        } else {
            0
        }
    } else {
        let dd: usize = d as usize;
        if v <= usize::MAX - dd {
            v + dd
        } else {
            usize::MAX
        }
    }
}

/// Replacing one string of a vector updates exactly that line of the view.
proof fn lemma_lines_update(pre: &Vec<String>, post: &Vec<String>, i: int, l: Seq<char>)
    requires
        0 <= i < pre@.len(),
        post@ == pre@.update(i, post@[i]),
        post@[i]@ == l,
    ensures
        post.deep_view() =~= pre.deep_view().update(i, l),
{
    assert forall|k: int| 0 <= k < post@.len() implies post.deep_view()[k]
        == pre.deep_view().update(i, l)[k] by {
        if k != i {
            assert(post@[k] == pre@[k]);
        }
    }
}

/// The state after inserting the characters of `cs` one at a time at the
/// cursor.
pub open spec fn insert_chars_spec(lines: Seq<Seq<char>>, row: int, col: int, cs: Seq<char>) -> (
    Seq<Seq<char>>,
    int,
    int,
)
    decreases cs.len(),
{
    if cs.len() == 0 {
        (lines, row, col)
    } else {
        let t = insert_char_spec(lines, row, col, cs[0]);
        insert_chars_spec(t.0, t.1, t.2, cs.drop_first())
    }
}

/// The state after `k` backspaces at the cursor.
pub open spec fn delete_chars_spec(lines: Seq<Seq<char>>, row: int, col: int, k: nat) -> (
    Seq<Seq<char>>,
    int,
    int,
)
    decreases k,
{
    if k == 0 {
        (lines, row, col)
    } else {
        let t = delete_char_spec(lines, row, col);
        delete_chars_spec(t.0, t.1, t.2, (k - 1) as nat)
    }
}

/// One backspace exactly undoes one character insertion.
pub proof fn lemma_insert_delete_pair(lines: Seq<Seq<char>>, row: int, col: int, c: char)
    requires
        0 <= row < lines.len(),
        0 <= col <= lines[row].len(),
    ensures
        ({
            let t = insert_char_spec(lines, row, col, c);
            delete_char_spec(t.0, t.1, t.2) == (lines, row, col)
        }),
{
    let t = insert_char_spec(lines, row, col, c);
    assert(t.0[row] == lines[row].insert(col, c));
    assert(lines[row].insert(col, c).remove(col) =~= lines[row]);
    assert(t.0.update(row, lines[row]) =~= lines);
}

/// Repeated insertion keeps the cursor row, advances the column by one per
/// character, and grows only the cursor's line, by one per character.
pub proof fn lemma_insert_chars_shape(lines: Seq<Seq<char>>, row: int, col: int, cs: Seq<char>)
    requires
        0 <= row < lines.len(),
        0 <= col <= lines[row].len(),
    ensures
        ({
            let t = insert_chars_spec(lines, row, col, cs);
            &&& t.0.len() == lines.len()
            &&& t.1 == row
            &&& t.2 == col + cs.len()
            &&& t.0[row].len() == lines[row].len() + cs.len()
        }),
    decreases cs.len(),
{
    if cs.len() == 0 {
    } else {
        let s = insert_char_spec(lines, row, col, cs[0]);
        assert(s.0[row] == lines[row].insert(col, cs[0]));
        lemma_insert_chars_shape(s.0, s.1, s.2, cs.drop_first());
    }
}

/// Appending one character to the inserted text is one more insertion at
/// the end.
pub proof fn lemma_insert_chars_push(
    lines: Seq<Seq<char>>,
    row: int,
    col: int,
    cs: Seq<char>,
    c: char,
)
    ensures
        ({
            let t = insert_chars_spec(lines, row, col, cs);
            insert_chars_spec(lines, row, col, cs.push(c)) == insert_char_spec(t.0, t.1, t.2, c)
        }),
    decreases cs.len(),
{
    let p = cs.push(c);
    if cs.len() == 0 {
        assert(p[0] == c);
        assert(p.drop_first() =~= Seq::<char>::empty());
        let s = insert_char_spec(lines, row, col, c);
        assert(insert_chars_spec(lines, row, col, p) == insert_chars_spec(
            s.0,
            s.1,
            s.2,
            p.drop_first(),
        ));
        assert(insert_chars_spec(s.0, s.1, s.2, Seq::<char>::empty()) == s);
    } else {
        assert(p[0] == cs[0]);
        assert(p.drop_first() =~= cs.drop_first().push(c));
        let s = insert_char_spec(lines, row, col, cs[0]);
        lemma_insert_chars_push(s.0, s.1, s.2, cs.drop_first(), c);
        assert(insert_chars_spec(lines, row, col, p) == insert_chars_spec(
            s.0,
            s.1,
            s.2,
            p.drop_first(),
        ));
        assert(insert_chars_spec(lines, row, col, cs) == insert_chars_spec(
            s.0,
            s.1,
            s.2,
            cs.drop_first(),
        ));
    }
}

/// Inserting any text at the cursor and then pressing backspace as many
/// times as characters were inserted restores the buffer and the cursor
/// exactly; none of the backspaces crosses a line join.
pub proof fn lemma_insert_then_delete_inverse(
    lines: Seq<Seq<char>>,
    row: int,
    col: int,
    cs: Seq<char>,
)
    requires
        0 <= row < lines.len(),
        0 <= col <= lines[row].len(),
    ensures
        ({
            let t = insert_chars_spec(lines, row, col, cs);
            delete_chars_spec(t.0, t.1, t.2, cs.len()) == (lines, row, col)
        }),
    decreases cs.len(),
{
    if cs.len() == 0 {
    } else {
        let cs0 = cs.drop_last();
        let cl = cs.last();
        assert(cs0.push(cl) =~= cs);
        lemma_insert_chars_push(lines, row, col, cs0, cl);
        let t0 = insert_chars_spec(lines, row, col, cs0);
        lemma_insert_chars_shape(lines, row, col, cs0);
        lemma_insert_delete_pair(t0.0, t0.1, t0.2, cl);
        let t = insert_chars_spec(lines, row, col, cs);
        assert(delete_char_spec(t.0, t.1, t.2) == (t0.0, t0.1, t0.2));
        lemma_insert_then_delete_inverse(lines, row, col, cs0);
        assert(delete_chars_spec(t.0, t.1, t.2, cs.len()) == delete_chars_spec(
            t0.0,
            t0.1,
            t0.2,
            cs0.len(),
        ));
    }
}

/// Splitting a line and immediately pressing backspace restores the
/// original line and cursor column, for any split point, including a split
/// at column zero and at the end of the line.
pub proof fn lemma_new_line_then_delete(lines: Seq<Seq<char>>, row: int, col: int)
    requires
        0 <= row < lines.len(),
        0 <= col <= lines[row].len(),
    ensures
        ({
            let t = new_line_spec(lines, row, col);
            delete_char_spec(t.0, t.1, t.2) == (lines, row, col)
        }),
{
    let n: int = lines[row].len() as int;
    if col < n {
        let a = lines.update(row, lines[row].take(col));
        let l1 = a.insert(row + 1, lines[row].skip(col));
        a.insert_ensures(row + 1, lines[row].skip(col));
        assert(l1[row] == lines[row].take(col));
        assert(l1[row + 1] == lines[row].skip(col));
        assert(l1[row] + l1[row + 1] =~= lines[row]);
        assert(l1.update(row, l1[row] + l1[row + 1]).remove(row + 1) =~= lines);
    } else {
        let l1 = lines.insert(row + 1, Seq::<char>::empty());
        lines.insert_ensures(row + 1, Seq::<char>::empty());
        assert(l1[row] == lines[row]);
        assert(l1[row] + l1[row + 1] =~= lines[row]);
        assert(l1.update(row, l1[row] + l1[row + 1]).remove(row + 1) =~= lines);
    }
}

/// The lines of a sequence of strings.
pub open spec fn views_of(ss: Seq<String>) -> Seq<Seq<char>> {
    Seq::new(ss.len(), |i: int| ss[i]@)
}

/// A vector's lines are the lines of its elements.
proof fn lemma_deep_view_is_views(v: &Vec<String>)
    ensures
        v.deep_view() =~= views_of(v@),
{
}

/// Updating one string updates exactly that line.
proof fn lemma_views_update(pre: Seq<String>, i: int, s: String)
    requires
        0 <= i < pre.len(),
    ensures
        views_of(pre.update(i, s)) =~= views_of(pre).update(i, s@),
{
}

/// Inserting a string inserts exactly its line.
proof fn lemma_views_insert(pre: Seq<String>, i: int, s: String)
    requires
        0 <= i <= pre.len(),
    ensures
        views_of(pre.insert(i, s)) =~= views_of(pre).insert(i, s@),
{
    pre.insert_ensures(i, s);
    views_of(pre).insert_ensures(i, s@);
    assert forall|k: int| 0 <= k < pre.len() + 1 implies views_of(pre.insert(i, s))[k] == views_of(
        pre,
    ).insert(i, s@)[k] by {
        if k < i {
            assert(pre.insert(i, s)[k] == pre[k]);
        } else if k == i {
            assert(pre.insert(i, s)[k] == s);
        } else {
            assert(pre.insert(i, s)[k] == pre[k - 1]);
            assert(views_of(pre).insert(i, s@)[k] == views_of(pre)[k - 1]);
        }
    }
}

/// Removing a string removes exactly its line.
proof fn lemma_views_remove(pre: Seq<String>, i: int)
    requires
        0 <= i < pre.len(),
    ensures
        views_of(pre.remove(i)) =~= views_of(pre).remove(i),
{
    pre.remove_ensures(i);
    views_of(pre).remove_ensures(i);
    assert forall|k: int| 0 <= k < pre.len() - 1 implies views_of(pre.remove(i))[k] == views_of(
        pre,
    ).remove(i)[k] by {
        if k < i {
            assert(pre.remove(i)[k] == pre[k]);
        } else {
            assert(pre.remove(i)[k] == pre[k + 1]);
            assert(views_of(pre).remove(i)[k] == views_of(pre)[k + 1]);
        }
    }
}

} // verus!
