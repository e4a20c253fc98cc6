use vstd::prelude::*;

use crate::text::{concat, contains_seq, lines_spec, split_lines, str_contains, string_of, chars_of};

verus! {

/// The terminal styles that lines are painted in.
#[derive(Clone, Copy, Debug, PartialEq, Eq, Structural)]
pub enum TerminalColor {
    Normal,
    Gray,
    Dim,
    LightRedBg,
    LightBlueBg,
    /// Green text: the even lines of a shown document.
    Green,
    /// Cyan text: the odd lines of a shown document.
    Cyan,
}

/// The ANSI escape text that starts a line painted in `color` (the two background styles
/// also put a space before the text).
pub open spec fn ansi_prefix(color: TerminalColor) -> Seq<char> {
    match color {
        TerminalColor::Normal => "\x1b[1;37m"@,
        TerminalColor::Gray => "\x1b[0;37m"@,
        TerminalColor::Dim => "\x1b[2m"@,
        TerminalColor::LightRedBg => "\x1b[48;2;90;28;38;97m "@,
        TerminalColor::LightBlueBg => "\x1b[48;2;22;52;92;97m "@,
        TerminalColor::Green => "\x1b[32m"@,
        TerminalColor::Cyan => "\x1b[36m"@,
    }
}

/// The ANSI escape text that ends a painted line.
pub open spec fn ansi_reset() -> Seq<char> {
    "\x1b[0m"@
}

/// The text of `line` painted in `color`, ready to be printed on a line of its own.
pub fn paint_line_text(line: &str, color: TerminalColor) -> (r: String)
    ensures
        r@ == ansi_prefix(color) + line@ + ansi_reset(),
{
    let prefix = match color {
        TerminalColor::Normal => "\x1b[1;37m",
        TerminalColor::Gray => "\x1b[0;37m",
        TerminalColor::Dim => "\x1b[2m",
        TerminalColor::LightRedBg => "\x1b[48;2;90;28;38;97m ",
        TerminalColor::LightBlueBg => "\x1b[48;2;22;52;92;97m ",
        TerminalColor::Green => "\x1b[32m",
        TerminalColor::Cyan => "\x1b[36m",
    };
    let head = concat(prefix, line);
    concat(head.as_str(), "\x1b[0m")
}

/// The style of line `index` of a shown document: green and cyan, line by line,
/// starting with green.
pub open spec fn line_style(index: int) -> TerminalColor {
    if index % 2 == 0 {
        TerminalColor::Green
    } else {
        TerminalColor::Cyan
    }
}

/// Text that holds an ASCII-armored PGP message (and is decrypted before it is shown).
pub open spec fn is_pgp_message(text: Seq<char>) -> bool {
    contains_seq(text, "-----BEGIN PGP MESSAGE-----"@)
}

/// Tells whether `text` holds an ASCII-armored PGP message.
pub fn holds_pgp_message(text: &str) -> (b: bool)
    ensures
        b == is_pgp_message(text@),
{
    str_contains(text, "-----BEGIN PGP MESSAGE-----")
}

/// The lines of a document to show, each painted in its alternating style.
pub fn painted_lines(text: &str) -> (r: Vec<String>)
    ensures
        r@.len() == lines_spec(text@).len(),
        forall|i: int|
            0 <= i < r@.len() ==> #[trigger] r@[i]@ == ansi_prefix(line_style(i)) + lines_spec(
                text@,
            )[i] + ansi_reset(),
{
    let lines = split_lines(&chars_of(text));
    let ghost ls = lines@.map_values(|l: Vec<char>| l@);
    let mut r: Vec<String> = Vec::new();
    let mut i: usize = 0;
    while i < lines.len()
        invariant
            i <= lines.len(),
            ls == lines@.map_values(|l: Vec<char>| l@),
            ls == lines_spec(text@),
            r@.len() == i,
            forall|j: int|
                0 <= j < i ==> #[trigger] r@[j]@ == ansi_prefix(line_style(j)) + ls[j] + ansi_reset(),
        decreases lines.len() - i,
    {
        let style = if i % 2 == 0 {
            TerminalColor::Green
        } else {
            TerminalColor::Cyan
        };
        let line = string_of(&lines[i]);
        r.push(paint_line_text(line.as_str(), style));
        i = i + 1;
    }
    r
}

} // verus!
