//! Cursor overlay rendering: merging a reverse-video cursor marker into a
//! line that already carries embedded color escape sequences, without
//! splitting or miscounting those sequences.
//!
//! The scanner has two states: outside an escape sequence, where characters
//! are counted as visible columns, and inside one, entered at the escape
//! introducer and left at the `m` terminator, where characters are copied
//! through uncounted.

use vstd::prelude::*;

use crate::text::push_char;

verus! {

/// The escape introducer character.
pub open spec fn esc_char() -> char {
    '\x1b'
}

/// The reverse-video marker.
pub open spec fn invert_mark() -> Seq<char> {
    seq!['\x1b', '[', '7', 'm']
}

/// The attribute-reset marker.
pub open spec fn reset_mark() -> Seq<char> {
    seq!['\x1b', '[', '0', 'm']
}

/// The visible (non-escape) characters of `s`, scanning from state `in_esc`.
pub open spec fn visible_rec(s: Seq<char>, in_esc: bool) -> Seq<char>
    decreases s.len(),
{
    if s.len() == 0 {
        Seq::empty()
    } else if in_esc {
        visible_rec(s.drop_first(), s[0] != 'm')
    } else if s[0] == esc_char() {
        visible_rec(s.drop_first(), true)
    } else {
        seq![s[0]] + visible_rec(s.drop_first(), false)
    }
}

/// The characters of `s` that a terminal would show as text.
pub open spec fn visible_chars(s: Seq<char>) -> Seq<char> {
    visible_rec(s, false)
}

/// The overlay scan: copies `s` while counting visible characters from
/// `cnt`; wraps the visible character at count `col` in invert/reset marks;
/// appends an inverted space when the scan ends before reaching `col`.
pub open spec fn overlay_rec(s: Seq<char>, col: int, in_esc: bool, cnt: int) -> Seq<char>
    decreases s.len(),
{
    if s.len() == 0 {
        if cnt <= col {
            invert_mark() + seq![' '] + reset_mark()
        } else {
            Seq::empty()
        }
    } else if in_esc {
        seq![s[0]] + overlay_rec(s.drop_first(), col, s[0] != 'm', cnt)
    } else if s[0] == esc_char() {
        seq![s[0]] + overlay_rec(s.drop_first(), col, true, cnt)
    } else if cnt == col {
        invert_mark() + seq![s[0]] + reset_mark() + overlay_rec(s.drop_first(), col, false, cnt + 1)
    } else {
        seq![s[0]] + overlay_rec(s.drop_first(), col, false, cnt + 1)
    }
}

/// `s` with a cursor marker at visible column `col`: an empty line becomes a
/// single inverted space, and a column at or past the visible length appends
/// one.
pub open spec fn overlay_spec(s: Seq<char>, col: int) -> Seq<char> {
    overlay_rec(s, col, false, 0)
}

/// Inserts a reverse-video cursor marker into `line` at visible column
/// `col`, copying embedded escape sequences through verbatim.
pub fn overlay_cursor(line: &str, col: usize) -> (r: String)
    ensures
        r@ == overlay_spec(line@, col as int),
{
    let n: usize = line.unicode_len();
    let mut res: String = String::new();
    let mut in_esc: bool = false;
    let mut cnt: usize = 0;
    let mut i: usize = 0;
    proof {
        assert(line@.skip(0int) =~= line@);
    }
    while i < n
        invariant
            n == line@.len(),
            i <= n,
            cnt <= i,
            overlay_spec(line@, col as int) =~= res@ + overlay_rec(
                line@.skip(i as int),
                col as int,
                in_esc,
                cnt as int,
            ),
        decreases n - i,
    {
        let c: char = line.get_char(i);
        proof {
            reveal_strlit("\x1b[7m");
            reveal_strlit("\x1b[0m");
            assert("\x1b[7m"@ =~= invert_mark());
            assert("\x1b[0m"@ =~= reset_mark());
            assert(line@.skip(i as int)[0] == c);
            assert(line@.skip(i as int).drop_first() =~= line@.skip(i + 1));
        }
        if in_esc {
            push_char(&mut res, c);
            in_esc = c != 'm';
        } else if c == '\x1b' {
            push_char(&mut res, c);
            in_esc = true;
        } else if cnt == col {
            res.append("\x1b[7m");
            push_char(&mut res, c);
            res.append("\x1b[0m");
            cnt = cnt + 1;
        } else {
            push_char(&mut res, c);
            cnt = cnt + 1;
        }
        i = i + 1;
    }
    proof {
        assert(line@.skip(n as int) =~= Seq::<char>::empty());
    }
    if cnt <= col {
        res.append("\x1b[7m \x1b[0m");
        proof {
            reveal_strlit("\x1b[7m \x1b[0m");
            assert("\x1b[7m \x1b[0m"@ =~= invert_mark() + seq![' '] + reset_mark());
        }
    }
    res
}

/// Once the visible count has passed the target column, the scan copies the
/// rest of the input unchanged.
proof fn lemma_overlay_past(s: Seq<char>, col: int, in_esc: bool, cnt: int)
    requires
        cnt > col,
    ensures
        overlay_rec(s, col, in_esc, cnt) =~= s,
    decreases s.len(),
{
    if s.len() == 0 {
    } else if in_esc {
        lemma_overlay_past(s.drop_first(), col, s[0] != 'm', cnt);
        assert(seq![s[0]] + s.drop_first() =~= s);
    } else if s[0] == esc_char() {
        lemma_overlay_past(s.drop_first(), col, true, cnt);
        assert(seq![s[0]] + s.drop_first() =~= s);
    } else {
        lemma_overlay_past(s.drop_first(), col, false, cnt + 1);
        assert(seq![s[0]] + s.drop_first() =~= s);
    }
}

/// Overlaying at a column at or past the visible length leaves the whole
/// input intact, escape sequences and all, and appends a single inverted
/// space after it.
pub proof fn lemma_overlay_appends_marker(s: Seq<char>, col: int)
    requires
        col >= visible_chars(s).len(),
    ensures
        overlay_spec(s, col) =~= s + invert_mark() + seq![' '] + reset_mark(),
{
    lemma_overlay_append_rec(s, col, false, 0);
}

proof fn lemma_overlay_append_rec(s: Seq<char>, col: int, in_esc: bool, cnt: int)
    requires
        cnt + visible_rec(s, in_esc).len() <= col,
    ensures
        overlay_rec(s, col, in_esc, cnt) =~= s + invert_mark() + seq![' '] + reset_mark(),
    decreases s.len(),
{
    if s.len() == 0 {
    } else if in_esc {
        lemma_overlay_append_rec(s.drop_first(), col, s[0] != 'm', cnt);
        assert(seq![s[0]] + (s.drop_first() + invert_mark() + seq![' '] + reset_mark()) =~= s
            + invert_mark() + seq![' '] + reset_mark());
    } else if s[0] == esc_char() {
        lemma_overlay_append_rec(s.drop_first(), col, true, cnt);
        assert(seq![s[0]] + (s.drop_first() + invert_mark() + seq![' '] + reset_mark()) =~= s
            + invert_mark() + seq![' '] + reset_mark());
    } else {
        lemma_overlay_append_rec(s.drop_first(), col, false, cnt + 1);
        assert(seq![s[0]] + (s.drop_first() + invert_mark() + seq![' '] + reset_mark()) =~= s
            + invert_mark() + seq![' '] + reset_mark());
    }
}

/// Witness that the overlay of `s` at `col` splits `s` at position `i`: the
/// character there is wrapped in an invert/reset pair, everything before and
/// after it is copied verbatim, and exactly `col - cnt` visible characters
/// precede it.
pub open spec fn overlay_split_at(s: Seq<char>, col: int, in_esc: bool, cnt: int, i: int) -> bool {
    &&& 0 <= i < s.len()
    &&& overlay_rec(s, col, in_esc, cnt) == s.take(i) + invert_mark() + seq![s[i]] + reset_mark()
        + s.skip(i + 1)
    &&& visible_rec(s.take(i), in_esc).len() + cnt == col
}

/// Overlaying at a column that falls among the visible characters wraps
/// exactly one character in an invert/reset pair, the one preceded by `col`
/// visible characters, and copies every other character, escape sequences
/// included, through verbatim.
pub proof fn lemma_overlay_wraps_char(s: Seq<char>, col: int)
    requires
        0 <= col < visible_chars(s).len(),
    ensures
        exists|i: int| overlay_split_at(s, col, false, 0, i),
{
    lemma_overlay_insert_rec(s, col, false, 0);
}

proof fn lemma_overlay_insert_rec(s: Seq<char>, col: int, in_esc: bool, cnt: int)
    requires
        cnt <= col < cnt + visible_rec(s, in_esc).len(),
    ensures
        exists|i: int| overlay_split_at(s, col, in_esc, cnt, i),
    decreases s.len(),
{
    let d = s.drop_first();
    if s.len() == 0 {
        // the bounds on col are contradictory here
    } else if in_esc {
        let st: bool = s[0] != 'm';
        lemma_overlay_insert_rec(d, col, st, cnt);
        let i0: int = choose|i: int| #[trigger] overlay_split_at(d, col, st, cnt, i);
        assert(s.take(i0 + 1) =~= seq![s[0]] + d.take(i0));
        assert(s.skip(i0 + 2) =~= d.skip(i0 + 1));
        assert(s.take(i0 + 1).drop_first() =~= d.take(i0));
        assert(seq![s[0]] + (d.take(i0) + invert_mark() + seq![d[i0]] + reset_mark() + d.skip(
            i0 + 1,
        )) =~= s.take(i0 + 1) + invert_mark() + seq![s[i0 + 1]] + reset_mark() + s.skip(i0 + 2));
        assert(overlay_split_at(s, col, in_esc, cnt, i0 + 1));
    } else if s[0] == esc_char() {
        lemma_overlay_insert_rec(d, col, true, cnt);
        let i0: int = choose|i: int| #[trigger] overlay_split_at(d, col, true, cnt, i);
        assert(s.take(i0 + 1) =~= seq![s[0]] + d.take(i0));
        assert(s.skip(i0 + 2) =~= d.skip(i0 + 1));
        assert(s.take(i0 + 1).drop_first() =~= d.take(i0));
        assert(seq![s[0]] + (d.take(i0) + invert_mark() + seq![d[i0]] + reset_mark() + d.skip(
            i0 + 1,
        )) =~= s.take(i0 + 1) + invert_mark() + seq![s[i0 + 1]] + reset_mark() + s.skip(i0 + 2));
        assert(overlay_split_at(s, col, true, cnt, i0 + 1));
        assert(overlay_split_at(s, col, in_esc, cnt, i0 + 1));
    } else if cnt == col {
        lemma_overlay_past(d, col, false, cnt + 1);
        assert(s.take(0int) =~= Seq::<char>::empty());
        assert(s.skip(1int) =~= d);
        assert(invert_mark() + seq![s[0]] + reset_mark() + overlay_rec(d, col, false, cnt + 1)
            =~= s.take(0int) + invert_mark() + seq![s[0]] + reset_mark() + s.skip(1int));
        assert(overlay_split_at(s, col, in_esc, cnt, 0int));
    } else {
        lemma_overlay_insert_rec(d, col, false, cnt + 1);
        let i0: int = choose|i: int| #[trigger] overlay_split_at(d, col, false, cnt + 1, i);
        assert(s.take(i0 + 1) =~= seq![s[0]] + d.take(i0));
        assert(s.skip(i0 + 2) =~= d.skip(i0 + 1));
        assert(s.take(i0 + 1).drop_first() =~= d.take(i0));
        assert(seq![s[0]] + (d.take(i0) + invert_mark() + seq![d[i0]] + reset_mark() + d.skip(
            i0 + 1,
        )) =~= s.take(i0 + 1) + invert_mark() + seq![s[i0 + 1]] + reset_mark() + s.skip(i0 + 2));
        assert(visible_rec(s.take(i0 + 1), false) =~= seq![s[0]] + visible_rec(d.take(i0), false));
        assert(overlay_split_at(s, col, in_esc, cnt, i0 + 1));
    }
}

} // verus!
