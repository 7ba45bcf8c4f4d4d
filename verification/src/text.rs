//! Text helpers shared by the editing engine and the renderer: single-char
//! string mutation, lexicographic ordering, path segments, padding, and the
//! newline-terminated serialization of a line buffer.

use vstd::prelude::*;

verus! {

/// Relies on `String::push`: appends exactly the given character.
#[verifier::external_body]
pub fn push_char(s: &mut String, c: char)
    ensures
        final(s)@ == old(s)@.push(c),
{
    s.push(c)
}

/// Relies on `String::pop`: removes and returns the last character, or
/// returns `None` and leaves the string alone when it is empty.
#[verifier::external_body]
pub fn pop_char(s: &mut String) -> (r: Option<char>)
    ensures
        old(s)@.len() == 0 ==> final(s)@ == old(s)@ && r is None,
        old(s)@.len() > 0 ==> final(s)@ == old(s)@.drop_last() && r == Some(old(s)@.last()),
{
    s.pop()
}

/// `n` space characters.
pub open spec fn spaces(n: nat) -> Seq<char> {
    Seq::new(n, |i: int| ' ')
}

/// Lexicographic order on character sequences, by code point; the order the
/// file browser uses within each group of entries.
pub open spec fn lex_le(a: Seq<char>, b: Seq<char>) -> bool
    decreases a.len(),
{
    if a.len() == 0 {
        true
    } else if b.len() == 0 {
        false
    } else if a[0] != b[0] {
        a[0] < b[0]
    } else {
        lex_le(a.drop_first(), b.drop_first())
    }
}

/// `lex_le` is total: any two sequences compare one way or the other.
pub proof fn lemma_lex_le_total(a: Seq<char>, b: Seq<char>)
    ensures
        lex_le(a, b) || lex_le(b, a),
    decreases a.len(),
{
    if a.len() == 0 || b.len() == 0 {
    } else if a[0] == b[0] {
        lemma_lex_le_total(a.drop_first(), b.drop_first());
    }
}

/// `lex_le` is transitive.
pub proof fn lemma_lex_le_trans(a: Seq<char>, b: Seq<char>, c: Seq<char>)
    requires
        lex_le(a, b),
        lex_le(b, c),
    ensures
        lex_le(a, c),
    decreases a.len(),
{
    if a.len() == 0 {
    } else {
        if a[0] == b[0] && b[0] == c[0] {
            lemma_lex_le_trans(a.drop_first(), b.drop_first(), c.drop_first());
        }
    }
}

/// Decides `lex_le` on string slices.
pub fn str_le(a: &str, b: &str) -> (r: bool)
    ensures
        r == lex_le(a@, b@),
{
    let na: usize = a.unicode_len();
    let nb: usize = b.unicode_len();
    let mut i: usize = 0;
    proof {
        assert(a@.skip(0int) =~= a@);
        assert(b@.skip(0int) =~= b@);
    }
    loop
        invariant
            na == a@.len(),
            nb == b@.len(),
            i <= na,
            i <= nb,
            lex_le(a@, b@) == lex_le(a@.skip(i as int), b@.skip(i as int)),
        decreases na - i,
    {
        if i >= na {
            return true;
        }
        if i >= nb {
            return false;
        }
        let ca: char = a.get_char(i);
        let cb: char = b.get_char(i);
        if ca != cb {
            proof {
                assert(a@.skip(i as int)[0] == ca);
                assert(b@.skip(i as int)[0] == cb);
            }
            return ca < cb;
        }
        proof {
            assert(a@.skip(i as int).drop_first() =~= a@.skip(i + 1));
            assert(b@.skip(i as int).drop_first() =~= b@.skip(i + 1));
        }
        i = i + 1;
    }
}

/// The part of a path after its last `/`; the whole path when it has no
/// `/`; empty when it ends in `/`. This is the display name a path yields.
pub open spec fn last_segment(s: Seq<char>) -> Seq<char>
    decreases s.len(),
{
    if s.len() == 0 {
        s
    } else if s.last() == '/' {
        Seq::empty()
    } else {
        last_segment(s.drop_last()).push(s.last())
    }
}

/// Extracts the final path segment of `path`.
pub fn last_path_segment(path: &str) -> (r: String)
    ensures
        r@ == last_segment(path@),
{
    let n: usize = path.unicode_len();
    let mut seg_start: usize = 0;
    let mut j: usize = 0;
    while j < n
        invariant
            n == path@.len(),
            seg_start <= j <= n,
            last_segment(path@.take(j as int)) =~= path@.subrange(seg_start as int, j as int),
        decreases n - j,
    {
        let c: char = path.get_char(j);
        proof {
            let t: Seq<char> = path@.take(j + 1);
            assert(t.last() == path@[j as int]);
            assert(t.drop_last() =~= path@.take(j as int));
        }
        if c == '/' {
            seg_start = j + 1;
        } else {
            proof {
                assert(path@.subrange(seg_start as int, j + 1) =~= path@.subrange(
                    seg_start as int,
                    j as int,
                ).push(path@[j as int]));
            }
        }
        j = j + 1;
    }
    proof {
        assert(path@.take(n as int) =~= path@);
    }
    let seg: &str = path.substring_char(seg_start, n);
    seg.to_owned()
}

/// `text` centered in `width` columns: preceded by half the free space,
/// or unchanged when it already fills the width.
pub open spec fn centered(t: Seq<char>, width: int) -> Seq<char> {
    if t.len() >= width {
        t
    } else {
        spaces(((width - t.len()) / 2) as nat) + t
    }
}

/// Pads `text` on the left so it sits centered in a row of `width` columns.
pub fn center_text(text: &str, width: usize) -> (r: String)
    ensures
        r@ == centered(text@, width as int),
{
    let n: usize = text.unicode_len();
    if n >= width {
        return text.to_owned();
    }
    let pad: usize = (width - n) / 2;
    let mut s: String = String::new();
    let mut i: usize = 0;
    while i < pad
        invariant
            i <= pad,
            s@ =~= spaces(i as nat),
        decreases pad - i,
    {
        s.append(" ");
        proof {
            reveal_strlit(" ");
            assert(s@ =~= spaces((i + 1) as nat));
        }
        i = i + 1;
    }
    s.append(text);
    proof {
        assert(s@ =~= centered(text@, width as int));
    }
    s
}

/// A line buffer serialized for storage: every line in order, each
/// terminated by a newline.
pub open spec fn join_lines(lines: Seq<Seq<char>>) -> Seq<char>
    decreases lines.len(),
{
    if lines.len() == 0 {
        Seq::empty()
    } else {
        lines[0] + seq!['\n'] + join_lines(lines.drop_first())
    }
}

/// Appending one more line extends the serialization by that line and a
/// newline.
pub proof fn lemma_join_lines_push(lines: Seq<Seq<char>>, l: Seq<char>)
    ensures
        join_lines(lines.push(l)) =~= join_lines(lines) + l + seq!['\n'],
    decreases lines.len(),
{
    let p = lines.push(l);
    if lines.len() == 0 {
        assert(p.drop_first() =~= Seq::<Seq<char>>::empty());
        assert(p[0] == l);
        assert(join_lines(p.drop_first()) == Seq::<char>::empty());
        assert(join_lines(p) =~= l + seq!['\n']);
    } else {
        assert(p.drop_first() =~= lines.drop_first().push(l));
        lemma_join_lines_push(lines.drop_first(), l);
        assert(p[0] == lines[0]);
        assert(join_lines(p) =~= lines[0] + seq!['\n'] + join_lines(lines.drop_first()) + l
            + seq!['\n']);
        assert(join_lines(lines) =~= lines[0] + seq!['\n'] + join_lines(lines.drop_first()));
    }
}

/// Serializes the buffer's lines, each followed by a newline.
pub fn serialize_lines(lines: &Vec<String>) -> (r: String)
    ensures
        r@ == join_lines(lines.deep_view()),
{
    let mut s: String = String::new();
    let mut i: usize = 0;
    while i < lines.len()
        invariant
            i <= lines@.len(),
            lines.deep_view().len() == lines@.len(),
            s@ =~= join_lines(lines.deep_view().take(i as int)),
        decreases lines@.len() - i,
    {
        s.append(lines[i].as_str());
        s.append("\n");
        proof {
            reveal_strlit("\n");
            let dv: Seq<Seq<char>> = lines.deep_view();
            assert(dv[i as int] == lines@[i as int]@);
            assert(dv.take(i + 1) =~= dv.take(i as int).push(dv[i as int]));
            lemma_join_lines_push(dv.take(i as int), dv[i as int]);
            assert(s@ =~= join_lines(dv.take(i + 1)));
        }
        i = i + 1;
    }
    proof {
        assert(lines.deep_view().take(i as int) =~= lines.deep_view());
    }
    s
}

} // verus!
