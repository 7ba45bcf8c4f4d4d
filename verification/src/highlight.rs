//! The syntax-highlighting collaborator: given a line of text and a file
//! extension, it returns the same text wrapped in color escape sequences.
//! What those sequences look like is the highlighter's business; the
//! contracts name its result and the verified code composes it with the
//! cursor overlay.

use vstd::prelude::*;

use crate::overlay::overlay_cursor;
use crate::overlay::overlay_spec;

verus! {

/// What the highlighter returns for a line and a file extension. The
/// result depends on the line and the extension alone.
pub uninterp spec fn highlight_of(line: Seq<char>, ext: Seq<char>) -> Seq<char>;

/// Relies on syntect: `SyntaxSet::load_defaults_newlines`,
/// `ThemeSet::load_defaults`, `find_syntax_by_extension` (with the plain
/// text syntax as fallback), `HighlightLines::highlight_line` and
/// `as_24_bit_terminal_escaped`. The bundled syntaxes and theme are fixed
/// data, so the result is a function of the line and extension; on a
/// highlighting error the line comes back unchanged, which the name also
/// covers.
#[verifier::external_body]
fn highlight_with_syntect(line: &str, ext: &str) -> (r: String)
    ensures
        r@ == highlight_of(line@, ext@),
{
    let syntax_set = syntect::parsing::SyntaxSet::load_defaults_newlines();
    let theme_set = syntect::highlighting::ThemeSet::load_defaults();
    let syntax = match syntax_set.find_syntax_by_extension(ext) {
        Some(s) => s,
        None => syntax_set.find_syntax_plain_text(),
    };
    let theme = &theme_set.themes["base16-ocean.dark"];
    let mut highlighter = syntect::easy::HighlightLines::new(syntax, theme);
    match highlighter.highlight_line(line, &syntax_set) {
        Ok(ranges) => syntect::util::as_24_bit_terminal_escaped(&ranges, false),
        Err(_) => line.to_string(),
    }
}

/// A buffer line prepared for display: highlighted for the file's
/// extension and, when this is the cursor's line, with the cursor overlay
/// merged in at the given visible column.
pub fn render_line(line: &str, ext: &str, cursor: Option<usize>) -> (r: String)
    ensures
        ({
            let h = highlight_of(line@, ext@);
            match cursor {
                Some(col) => r@ == overlay_spec(h, col as int),
                None => r@ == h,
            }
        }),
{
    let highlighted: String = highlight_with_syntect(line, ext);
    match cursor {
        Some(col) => overlay_cursor(highlighted.as_str(), col),
        None => highlighted,
    }
}

} // verus!
