//! Colours, and text painted in them.

use vstd::prelude::*;

verus! {

/// The terminal colours that are in use.
#[derive(Clone, Copy, Debug, PartialEq, Eq, Structural)]
pub enum Color {
    Red,
    Green,
    Yellow,
    Blue,
    Magenta,
    Cyan,
    White,
    BrightBlack,
    BrightYellow,
    BrightBlue,
    BrightCyan,
}

/// The colours that processes get, in turn. Magenta is not among them: it is
/// kept for gaffa itself.
pub const PROCESS_COLORS: [Color; 7] = [
    Color::Cyan,
    Color::Yellow,
    Color::Blue,
    Color::Green,
    Color::BrightCyan,
    Color::BrightYellow,
    Color::BrightBlue,
];

/// The parameter of the escape sequence that selects `color` for the text.
pub open spec fn foreground(color: Color) -> Seq<char> {
    match color {
        Color::Red => seq!['3', '1'],
        Color::Green => seq!['3', '2'],
        Color::Yellow => seq!['3', '3'],
        Color::Blue => seq!['3', '4'],
        Color::Magenta => seq!['3', '5'],
        Color::Cyan => seq!['3', '6'],
        Color::White => seq!['3', '7'],
        Color::BrightBlack => seq!['9', '0'],
        Color::BrightYellow => seq!['9', '3'],
        Color::BrightBlue => seq!['9', '4'],
        Color::BrightCyan => seq!['9', '6'],
    }
}

/// The parameter for bold text.
pub open spec fn bold_code() -> Seq<char> {
    seq!['1']
}

/// The parameter for dimmed text.
pub open spec fn dimmed_code() -> Seq<char> {
    seq!['2']
}

/// The parameters for bold text in `color`.
pub open spec fn bold_in(color: Color) -> Seq<char> {
    seq!['1', ';'] + foreground(color)
}

/// The parameters for dimmed text in `color`.
pub open spec fn dimmed_in(color: Color) -> Seq<char> {
    seq!['2', ';'] + foreground(color)
}

/// The escape sequence that ends every colour and style.
pub open spec fn reset() -> Seq<char> {
    seq!['\u{1b}', '[', '0', 'm']
}

/// The escape sequence that starts the style with the given parameters.
pub open spec fn opening(codes: Seq<char>) -> Seq<char> {
    seq!['\u{1b}', '['] + codes + seq!['m']
}

/// `text` with `open` again after each reset in it.
pub open spec fn reopened(text: Seq<char>, open: Seq<char>) -> Seq<char>
    decreases text.len(),
{
    if text.len() < 4 {
        text
    } else if text.take(4) == reset() {
        reset() + open + reopened(text.skip(4), open)
    } else {
        seq![text[0]] + reopened(text.skip(1), open)
    }
}

/// `text` in the style with the given parameters.
pub open spec fn painted(text: Seq<char>, codes: Seq<char>) -> Seq<char> {
    opening(codes) + reopened(text, opening(codes)) + reset()
}

/// `text` as the terminal shows it: in the style with the given parameters where
/// colours are `on`, else plain.
pub open spec fn shown(text: Seq<char>, codes: Seq<char>, on: bool) -> Seq<char> {
    if on {
        painted(text, codes)
    } else {
        text
    }
}

/// `r` is `text` with colours on or off. Which of the two is up to the terminal
/// and the environment.
pub open spec fn paint_of(r: Seq<char>, text: Seq<char>, codes: Seq<char>) -> bool {
    r == shown(text, codes, false) || r == shown(text, codes, true)
}

/// The colour `text` gets from `colored::Colorize::color`, as the
/// `ColoredString` displays it: the plain text where colours are off, else the
/// text in that colour.
#[verifier::external_body]
pub(crate) fn tinted(text: &str, color: Color) -> (r: String)
    ensures
        paint_of(r@, text@, foreground(color)),
{
    let outside = match color {
        Color::Red => colored::Color::Red, Color::Green => colored::Color::Green,
        Color::Yellow => colored::Color::Yellow, Color::Blue => colored::Color::Blue,
        Color::Magenta => colored::Color::Magenta, Color::Cyan => colored::Color::Cyan,
        Color::White => colored::Color::White, Color::BrightBlack => colored::Color::BrightBlack,
        Color::BrightYellow => colored::Color::BrightYellow,
        Color::BrightBlue => colored::Color::BrightBlue,
        Color::BrightCyan => colored::Color::BrightCyan,
    };
    colored::Colorize::color(text, outside).to_string()
}

/// As [`tinted`], for `colored::Colorize::dimmed` on top of the colour.
#[verifier::external_body]
pub(crate) fn tinted_dimmed(text: &str, color: Color) -> (r: String)
    ensures
        paint_of(r@, text@, dimmed_in(color)),
{
    let outside = match color {
        Color::Red => colored::Color::Red, Color::Green => colored::Color::Green,
        Color::Yellow => colored::Color::Yellow, Color::Blue => colored::Color::Blue,
        Color::Magenta => colored::Color::Magenta, Color::Cyan => colored::Color::Cyan,
        Color::White => colored::Color::White, Color::BrightBlack => colored::Color::BrightBlack,
        Color::BrightYellow => colored::Color::BrightYellow,
        Color::BrightBlue => colored::Color::BrightBlue,
        Color::BrightCyan => colored::Color::BrightCyan,
    };
    colored::Colorize::dimmed(colored::Colorize::color(text, outside)).to_string()
}

/// As [`tinted`], for `colored::Colorize::bold` on top of the colour.
#[verifier::external_body]
pub(crate) fn tinted_bold(text: &str, color: Color) -> (r: String)
    ensures
        paint_of(r@, text@, bold_in(color)),
{
    let outside = match color {
        Color::Red => colored::Color::Red, Color::Green => colored::Color::Green,
        Color::Yellow => colored::Color::Yellow, Color::Blue => colored::Color::Blue,
        Color::Magenta => colored::Color::Magenta, Color::Cyan => colored::Color::Cyan,
        Color::White => colored::Color::White, Color::BrightBlack => colored::Color::BrightBlack,
        Color::BrightYellow => colored::Color::BrightYellow,
        Color::BrightBlue => colored::Color::BrightBlue,
        Color::BrightCyan => colored::Color::BrightCyan,
    };
    colored::Colorize::bold(colored::Colorize::color(text, outside)).to_string()
}

/// As [`tinted`], for `colored::Colorize::bold` alone.
#[verifier::external_body]
pub(crate) fn bold(text: &str) -> (r: String)
    ensures
        paint_of(r@, text@, bold_code()),
{
    colored::Colorize::bold(text).to_string()
}

/// As [`tinted`], for `colored::Colorize::dimmed` alone.
#[verifier::external_body]
pub(crate) fn dimmed(text: &str) -> (r: String)
    ensures
        paint_of(r@, text@, dimmed_code()),
{
    colored::Colorize::dimmed(text).to_string()
}

/// The colour of the process with the given number, from 0 on. After the last
/// colour comes the first one again.
pub open spec fn color_of_index(index: nat) -> Color {
    PROCESS_COLORS@[index as int % 7]
}

/// The colours of the processes come round every seven, and in one round no two
/// are alike. None of them is magenta, red or white, which mean something else.
pub proof fn law_process_colors_come_round(i: nat, j: nat)
    ensures
        color_of_index(i + 7) == color_of_index(i),
        i < j < i + 7 ==> color_of_index(i) != color_of_index(j),
        color_of_index(i) != Color::Magenta,
        color_of_index(i) != Color::Red,
        color_of_index(i) != Color::White,
        color_of_index(i) != Color::BrightBlack,
{
}

/// The first seven processes are cyan, yellow, blue and green, and cyan, yellow and
/// blue again in bright. Every later one has the colour of the one seven before.
pub proof fn law_process_colors_in_order(round: nat)
    ensures
        color_of_index(7 * round) == Color::Cyan,
        color_of_index(7 * round + 1) == Color::Yellow,
        color_of_index(7 * round + 2) == Color::Blue,
        color_of_index(7 * round + 3) == Color::Green,
        color_of_index(7 * round + 4) == Color::BrightCyan,
        color_of_index(7 * round + 5) == Color::BrightYellow,
        color_of_index(7 * round + 6) == Color::BrightBlue,
{
}

} // verus!
