//! Lines of output: escape sequences, wrapping to the terminal, and the column
//! of process names in front of each line.

use vstd::prelude::*;
use vstd::utf8::{encode_scalar, encode_utf8};
use crate::color::{
    color_of_index, dimmed_in, foreground, opening, paint_of, painted, reopened, reset, shown,
    tinted, tinted_dimmed, Color, PROCESS_COLORS,
};
use crate::text::{
    byte_len, byte_len_of, char_count, chars_of, is_white, lemma_span, lemma_span_is, missing,
    push_repeated, repeated, span, string_of, texts, trim_end, trim_tail,
};
use crate::text_laws::law_trim_end_cuts_white_space;

verus! {

pub const ESC: char = '\u{1b}';

pub const BEL: char = '\u{7}';

/// The predicate that holds of the parameter bytes of a control sequence.
pub open spec fn parameter() -> spec_fn(char) -> bool {
    |c: char| 0x30 <= c as u32 <= 0x3f
}

/// The predicate that holds of the intermediate bytes of a control sequence.
pub open spec fn intermediate() -> spec_fn(char) -> bool {
    |c: char| 0x20 <= c as u32 <= 0x2f
}

/// Whether `c` ends a control sequence.
pub open spec fn is_final(c: char) -> bool {
    0x40 <= c as u32 <= 0x7e
}

/// The length of a control sequence without the two characters that begin it:
/// parameters, intermediates, and the final byte where it is there.
pub open spec fn csi_len(t: Seq<char>) -> nat {
    let params = span(t, parameter());
    let rest = t.skip(params as int);
    let inter = span(rest, intermediate());
    let end = params + inter;
    if end < t.len() && is_final(t[end as int]) {
        end + 1
    } else {
        end
    }
}

/// The length of an operating system command without the two characters that
/// begin it. It ends with a bell, with ESC and a backslash, or with the text.
pub open spec fn osc_len(t: Seq<char>) -> nat
    decreases t.len(),
{
    if t.len() == 0 {
        0
    } else if t[0] == BEL {
        1
    } else if t[0] == ESC && t.len() > 1 && t[1] == '\\' {
        2
    } else {
        1 + osc_len(t.skip(1))
    }
}

/// Whether an escape sequence begins `s`. An ESC that ends the text is none.
pub open spec fn at_escape(s: Seq<char>) -> bool {
    s.len() > 1 && s[0] == ESC
}

/// The length of the escape sequence that begins `s`.
pub open spec fn escape_len(s: Seq<char>) -> nat {
    if s[1] == '[' {
        2 + csi_len(s.skip(2))
    } else if s[1] == ']' {
        2 + osc_len(s.skip(2))
    } else {
        2
    }
}

proof fn lemma_csi_len(t: Seq<char>)
    ensures
        csi_len(t) <= t.len(),
{
    lemma_span(t, parameter());
    lemma_span(t.skip(span(t, parameter()) as int), intermediate());
}

proof fn lemma_osc_len(t: Seq<char>)
    ensures
        osc_len(t) <= t.len(),
    decreases t.len(),
{
    if t.len() > 0 {
        lemma_osc_len(t.skip(1));
    }
}

/// An escape sequence has at least two characters and ends within the text.
pub proof fn lemma_escape_len(s: Seq<char>)
    requires
        at_escape(s),
    ensures
        2 <= escape_len(s) <= s.len(),
{
    lemma_csi_len(s.skip(2));
    lemma_osc_len(s.skip(2));
}

/// `s` without its escape sequences. One that is neither a control sequence nor a
/// command is ESC and the character after it.
pub open spec fn stripped(s: Seq<char>) -> Seq<char>
    decreases s.len(),
{
    if s.len() == 0 {
        s
    } else if at_escape(s) {
        proof {
            lemma_escape_len(s);
        }
        stripped(s.skip(escape_len(s) as int))
    } else {
        seq![s[0]] + stripped(s.skip(1))
    }
}

/// The number of columns that a character takes on the terminal, or `None` for
/// a control character: what `unicode_width::UnicodeWidthChar::width` returns.
pub uninterp spec fn char_columns(c: char) -> Option<usize>;

/// `unicode_width::UnicodeWidthChar::width` of a character. It depends on the
/// character alone; printable ASCII takes one column, and the control
/// characters, which lie below U+0020 and from U+007F to U+009F, have no width.
#[verifier::external_body]
fn width_of(c: char) -> (r: Option<usize>)
    ensures
        r == char_columns(c),
        0x20 <= c as u32 && (c as u32) < 0x7f ==> r == Some(1usize),
        (c as u32) < 0x20 || (0x7f <= c as u32 && (c as u32) < 0xa0) ==> r is None,
{
    unicode_width::UnicodeWidthChar::width(c)
}

/// The number of columns that a character takes, 0 for a control character.
pub open spec fn columns_of(c: char) -> nat {
    match char_columns(c) {
        Some(w) => w as nat,
        None => 0,
    }
}

/// The number of columns that each character of a text takes by itself.
pub open spec fn widths_of(s: Seq<char>) -> Seq<nat> {
    Seq::new(s.len(), |i: int| columns_of(s[i]))
}

/// The number of columns that a text takes, where `widths` says what each
/// character takes by itself. Escape sequences take none.
pub open spec fn columns(s: Seq<char>, widths: Seq<nat>) -> nat
    decreases s.len(),
{
    if s.len() == 0 {
        0
    } else if at_escape(s) {
        proof {
            lemma_escape_len(s);
        }
        columns(s.skip(escape_len(s) as int), widths.skip(escape_len(s) as int))
    } else {
        widths[0] + columns(s.skip(1), widths.skip(1))
    }
}

/// The length of the part of `s` that still goes on a row of `width` columns.
/// `used` columns of it are taken, and `begun` says whether anything stands on
/// it. A character that does not fit goes on a row only where it is the first.
pub open spec fn row_len(s: Seq<char>, widths: Seq<nat>, width: nat, used: nat, begun: bool) -> nat
    decreases s.len(),
{
    if s.len() == 0 {
        0
    } else if at_escape(s) {
        proof {
            lemma_escape_len(s);
        }
        let n = escape_len(s) as int;
        escape_len(s) + row_len(s.skip(n), widths.skip(n), width, used, true)
    } else if begun && used + widths[0] > width {
        0
    } else {
        1 + row_len(s.skip(1), widths.skip(1), width, used + widths[0], true)
    }
}

/// A row ends within the text, and the first row of a text is not empty.
pub proof fn lemma_row_len(s: Seq<char>, widths: Seq<nat>, width: nat, used: nat, begun: bool)
    ensures
        row_len(s, widths, width, used, begun) <= s.len(),
        !begun && s.len() > 0 ==> row_len(s, widths, width, used, begun) > 0,
    decreases s.len(),
{
    if s.len() == 0 {
    } else if at_escape(s) {
        lemma_escape_len(s);
        let n = escape_len(s) as int;
        lemma_row_len(s.skip(n), widths.skip(n), width, used, true);
    } else {
        lemma_row_len(s.skip(1), widths.skip(1), width, used + widths[0], true);
    }
}

/// `s` cut into rows of `width` columns. Each row but the last ends with a
/// reset, so that no colour runs on into the next row.
pub open spec fn rows(s: Seq<char>, widths: Seq<nat>, width: nat) -> Seq<Seq<char>>
    decreases s.len(),
{
    if s.len() == 0 {
        seq![]
    } else {
        let k = row_len(s, widths, width, 0, false);
        proof {
            lemma_row_len(s, widths, width, 0, false);
        }
        if k == s.len() {
            seq![s]
        } else {
            seq![s.take(k as int) + reset()] + rows(
                s.skip(k as int),
                widths.skip(k as int),
                width,
            )
        }
    }
}

/// `s` cut into rows, or left in one piece where there are no columns.
pub open spec fn wrapped_by(s: Seq<char>, widths: Seq<nat>, width: nat) -> Seq<Seq<char>> {
    if width == 0 {
        seq![s]
    } else {
        rows(s, widths, width)
    }
}

/// `s` cut into rows, by the columns that its characters take on the terminal.
pub open spec fn wrapped(s: Seq<char>, width: nat) -> Seq<Seq<char>> {
    wrapped_by(s, widths_of(s), width)
}

/// Widths as numbers without a limit.
pub open spec fn as_nats(widths: Seq<usize>) -> Seq<nat> {
    Seq::new(widths.len(), |i: int| widths[i] as nat)
}

/// The end of the escape sequence that begins at `start`.
fn escape_end(v: &Vec<char>, start: usize) -> (r: usize)
    requires
        start < v.len(),
        at_escape(v@.skip(start as int)),
    ensures
        start < r <= v.len(),
        r - start == escape_len(v@.skip(start as int)),
{
    let ghost s = v@.skip(start as int);
    let ghost t = s.skip(2);
    assert(t =~= v@.skip(start + 2));
    let from: usize = start + 2;
    assert(s[1] == v@[start + 1]);
    if v[start + 1] == '[' {
        let mut i: usize = from;
        while i < v.len() && 0x30 <= v[i] as u32 && v[i] as u32 <= 0x3f
            invariant
                from <= i <= v.len(),
                forall|j: int| from <= j < i ==> parameter()(#[trigger] v@[j]),
            decreases v.len() - i,
        {
            i += 1;
        }
        let params: usize = i;
        proof {
            lemma_span_is(t, parameter(), (params - from) as nat);
        }
        let ghost rest = t.skip(params - from);
        assert(rest =~= v@.skip(params as int));
        while i < v.len() && 0x20 <= v[i] as u32 && v[i] as u32 <= 0x2f
            invariant
                params <= i <= v.len(),
                forall|j: int| params <= j < i ==> intermediate()(#[trigger] v@[j]),
            decreases v.len() - i,
        {
            i += 1;
        }
        proof {
            lemma_span_is(rest, intermediate(), (i - params) as nat);
        }
        if i < v.len() && 0x40 <= v[i] as u32 && v[i] as u32 <= 0x7e {
            i + 1
        } else {
            i
        }
    } else if v[start + 1] == ']' {
        let mut i: usize = from;
        assert(v@.skip(i as int) =~= t);
        while i < v.len()
            invariant
                from == start + 2,
                escape_len(v@.skip(start as int)) == 2 + osc_len(t),
                from <= i <= v.len(),
                (i - from) + osc_len(v@.skip(i as int)) == osc_len(t),
            decreases v.len() - i,
        {
            let ghost here = v@.skip(i as int);
            assert(here[0] == v@[i as int]);
            assert(here.skip(1) =~= v@.skip(i + 1));
            if v[i] == BEL {
                assert(osc_len(here) == 1);
                return i + 1;
            }
            if v[i] == ESC && i + 1 < v.len() && v[i + 1] == '\\' {
                assert(here[1] == v@[i + 1]);
                assert(osc_len(here) == 2);
                return i + 2;
            }
            i += 1;
        }
        assert(osc_len(v@.skip(i as int)) == 0);
        i
    } else {
        from
    }
}

/// Whether an escape sequence begins at `i`.
fn escape_at(v: &Vec<char>, i: usize) -> (r: bool)
    requires
        i < v.len(),
    ensures
        r == at_escape(v@.skip(i as int)),
{
    v[i] == ESC && v.len() - i > 1
}

/// `input` without its ANSI escape sequences, as log files keep it. Everything
/// else stays as it is.
pub fn strip_ansi_escapes(input: &str) -> (r: String)
    ensures
        r@ == stripped(input@),
{
    let v = chars_of(input);
    let mut out = String::new();
    let mut i: usize = 0;
    assert(v@.skip(0) =~= v@);
    assert(out@ + stripped(v@.skip(0)) =~= stripped(input@));
    while i < v.len()
        invariant
            i <= v.len(),
            v@ == input@,
            out@ + stripped(v@.skip(i as int)) == stripped(input@),
        decreases v.len() - i,
    {
        let ghost here = v@.skip(i as int);
        if escape_at(&v, i) {
            let end = escape_end(&v, i);
            assert(here.skip(end - i) =~= v@.skip(end as int));
            i = end;
        } else {
            assert(here.skip(1) =~= v@.skip(i + 1));
            let ghost before = out@;
            out.push(v[i]);
            assert(out@ + stripped(v@.skip(i + 1)) =~= before + stripped(here));
            i += 1;
        }
    }
    assert(out@ + stripped(v@.skip(i as int)) =~= out@);
    out
}

/// The end of the row of `width` columns that begins at `start`.
fn row_end(v: &Vec<char>, widths: &Vec<usize>, start: usize, width: usize) -> (r: usize)
    requires
        start < v.len(),
        widths.len() == v.len(),
    ensures
        start < r <= v.len(),
        r - start == row_len(
            v@.skip(start as int),
            as_nats(widths@).skip(start as int),
            width as nat,
            0,
            false,
        ),
{
    let ghost ws = as_nats(widths@);
    let ghost len = row_len(v@.skip(start as int), ws.skip(start as int), width as nat, 0, false);
    let mut i: usize = start;
    let mut used: usize = 0;
    let mut begun: bool = false;
    proof {
        lemma_row_len(v@.skip(start as int), ws.skip(start as int), width as nat, 0, false);
    }
    while i < v.len()
        invariant
            start <= i <= v.len(),
            widths.len() == v.len(),
            ws == as_nats(widths@),
            begun || used == 0,
            len > 0,
            len == row_len(
                v@.skip(start as int),
                ws.skip(start as int),
                width as nat,
                0,
                false,
            ),
            (i - start) + row_len(
                v@.skip(i as int),
                ws.skip(i as int),
                width as nat,
                used as nat,
                begun,
            ) == len,
        decreases v.len() - i,
    {
        let ghost here = v@.skip(i as int);
        let ghost tail = ws.skip(i as int);
        if escape_at(v, i) {
            let end = escape_end(v, i);
            assert(here.skip(end - i) =~= v@.skip(end as int));
            assert(tail.skip(end - i) =~= ws.skip(end as int));
            i = end;
        } else {
            assert(here[0] == v@[i as int]);
            assert(tail[0] == widths@[i as int]);
            assert(here.skip(1) =~= v@.skip(i + 1));
            assert(tail.skip(1) =~= ws.skip(i + 1));
            let w: usize = widths[i];
            if begun && (used > width || w > width - used) {
                return i;
            }
            used = used + w;
            i += 1;
        }
        begun = true;
    }
    i
}

/// `input` in rows of `content_w` columns, where `widths` says how many columns
/// each of its characters takes by itself. Escape sequences are kept as they
/// are.
pub fn wrap_by_widths(input: &str, widths: &Vec<usize>, content_w: usize) -> (r: Vec<String>)
    requires
        widths.len() == input@.len(),
    ensures
        texts(r@) == wrapped_by(input@, as_nats(widths@), content_w as nat),
{
    let mut chunks: Vec<String> = Vec::new();
    if content_w == 0 {
        chunks.push(input.to_owned());
        assert(texts(chunks@) =~= seq![input@]);
        return chunks;
    }
    let v = chars_of(input);
    let ghost ws = as_nats(widths@);
    let ghost width = content_w as nat;
    let mut i: usize = 0;
    assert(v@.skip(0) =~= v@);
    assert(ws.skip(0) =~= ws);
    assert(texts(chunks@) + rows(v@.skip(0), ws.skip(0), width) =~= rows(input@, ws, width));
    while i < v.len()
        invariant
            i <= v.len(),
            v@ == input@,
            widths.len() == v.len(),
            ws == as_nats(widths@),
            width == content_w,
            texts(chunks@) + rows(v@.skip(i as int), ws.skip(i as int), width) == rows(
                input@,
                ws,
                width,
            ),
        decreases v.len() - i,
    {
        let ghost here = v@.skip(i as int);
        let ghost tail = ws.skip(i as int);
        let ghost before = texts(chunks@);
        let end = row_end(&v, widths, i, content_w);
        let mut row = string_of(&v, i, end);
        assert(row@ =~= here.take(end - i));
        assert(here.skip(end - i) =~= v@.skip(end as int));
        assert(tail.skip(end - i) =~= ws.skip(end as int));
        if end < v.len() {
            row.push(ESC);
            row.push('[');
            row.push('0');
            row.push('m');
            assert(row@ =~= here.take(end - i) + reset());
        } else {
            assert(row@ =~= here);
        }
        chunks.push(row);
        assert(texts(chunks@) =~= before.push(row@));
        assert(texts(chunks@) + rows(v@.skip(end as int), ws.skip(end as int), width) =~= before
            + rows(here, tail, width));
        i = end;
    }
    assert(texts(chunks@) + rows(v@.skip(i as int), ws.skip(i as int), width) =~= texts(chunks@));
    chunks
}

/// Whether the widths of the ASCII and control characters of a text are known:
/// printable ASCII takes one column, and control characters have no width.
pub open spec fn knows_widths(s: Seq<char>) -> bool {
    &&& forall|i: int|
        0 <= i < s.len() && 0x20 <= (#[trigger] s[i]) as u32 && (s[i] as u32) < 0x7f
            ==> char_columns(s[i]) == Some(1usize)
    &&& forall|i: int|
        0 <= i < s.len() && ((#[trigger] s[i] as u32) < 0x20 || (0x7f <= s[i] as u32 && (
        s[i] as u32) < 0xa0)) ==> char_columns(s[i]) is None
}

/// The number of columns that each character of a text takes.
fn char_widths(input: &str) -> (r: Vec<usize>)
    ensures
        as_nats(r@) == widths_of(input@),
        knows_widths(input@),
{
    let v = chars_of(input);
    let mut r: Vec<usize> = Vec::new();
    let mut i: usize = 0;
    while i < v.len()
        invariant
            i <= v.len(),
            r.len() == i,
            forall|j: int| 0 <= j < i ==> #[trigger] r@[j] == columns_of(v@[j]),
            forall|j: int|
                0 <= j < i && 0x20 <= (#[trigger] v@[j]) as u32 && (v@[j] as u32) < 0x7f
                    ==> char_columns(v@[j]) == Some(1usize),
            forall|j: int|
                0 <= j < i && ((#[trigger] v@[j] as u32) < 0x20 || (0x7f <= v@[j] as u32 && (
                v@[j] as u32) < 0xa0)) ==> char_columns(v@[j]) is None,
        decreases v.len() - i,
    {
        let w: usize = match width_of(v[i]) {
            Some(w) => w,
            None => 0,
        };
        r.push(w);
        i += 1;
    }
    assert(as_nats(r@) =~= widths_of(input@));
    r
}

/// `input` in rows of `content_w` columns, for a terminal of that width. Escape
/// sequences are kept as they are.
pub fn wrap_ansi_preserving(input: &str, content_w: usize) -> (r: Vec<String>)
    ensures
        texts(r@) == wrapped(input@, content_w as nat),
        knows_widths(input@),
{
    let widths = char_widths(input);
    assert(as_nats(widths@).len() == widths.len());
    wrap_by_widths(input, &widths, content_w)
}

/// The length of the UTF-8 sequence that the byte `first` begins. A byte that
/// begins none counts for one.
pub open spec fn sequence_len(first: u8) -> nat {
    if first < 0xc0 {
        1
    } else if first < 0xe0 {
        2
    } else if first < 0xf0 {
        3
    } else {
        4
    }
}

/// Where the character that begins at `i` ends.
pub open spec fn boundary_after(bytes: Seq<u8>, i: nat) -> nat {
    if i + sequence_len(bytes[i as int]) <= bytes.len() {
        i + sequence_len(bytes[i as int])
    } else {
        bytes.len()
    }
}

/// Where the character that begins at `i` ends.
pub fn next_char_boundary(bytes: &[u8], i: usize) -> (r: usize)
    requires
        i < bytes@.len(),
    ensures
        r == boundary_after(bytes@, i as nat),
{
    let first: u8 = bytes[i];
    let width: usize = if first < 0xc0 {
        1
    } else if first < 0xe0 {
        2
    } else if first < 0xf0 {
        3
    } else {
        4
    };
    if width <= bytes.len() - i {
        i + width
    } else {
        bytes.len()
    }
}

/// The first byte of a character tells how many bytes it has, so that from the
/// start of one character the next boundary is the start of the next.
pub proof fn law_first_byte_tells_length(c: char)
    ensures
        encode_scalar(c as u32).len() > 0,
        sequence_len(encode_scalar(c as u32)[0]) == encode_scalar(c as u32).len(),
{
    let u = c as u32;
    assert(u <= 0x10ffff);
    assert(u <= 0x7f ==> ((u & 0x7f) as u8) < 0x80) by (bit_vector);
    assert(u <= 0x7ff ==> 0xc0 <= (0xc0 | ((u >> 6) & 0x1f) as u8) && (0xc0 | ((u >> 6) & 0x1f) as u8)
        < 0xe0) by (bit_vector);
    assert(u <= 0xffff ==> 0xe0 <= (0xe0 | ((u >> 12) & 0xf) as u8) && (0xe0 | ((u >> 12) & 0xf) as u8)
        < 0xf0) by (bit_vector);
    assert(u <= 0x10ffff ==> 0xf0 <= (0xf0 | ((u >> 18) & 0x7) as u8)) by (bit_vector);
}

/// A line with a cell before it: the cell, blanks up to `width`, the separator
/// and the text. `len` is the length of what the cell shows.
pub open spec fn line_of(
    cell: Seq<char>,
    len: nat,
    width: nat,
    sep: Seq<char>,
    text: Seq<char>,
) -> Seq<char> {
    cell + repeated(' ', missing(width, len)) + seq![' '] + sep + seq![' '] + text
}

/// A line with a cell before it.
pub fn cell_line(cell: &str, len: usize, width: usize, sep: &str, text: &str) -> (r: String)
    ensures
        r@ == line_of(cell@, len as nat, width as nat, sep@, text@),
{
    let gap: usize = if len < width {
        width - len
    } else {
        0
    };
    let mut r = cell.to_owned();
    push_repeated(&mut r, ' ', gap);
    r.push(' ');
    r.append(sep);
    r.push(' ');
    r.append(text);
    assert(r@ =~= line_of(cell@, len as nat, width as nat, sep@, text@));
    r
}

/// The character that separates names from text.
pub open spec fn bar() -> Seq<char> {
    "│"@
}

/// `message` behind the name "gaffa", all of it in `color`, with the separator
/// dimmed. The name, the separator and the text each have their colour where
/// colours were on for them.
pub open spec fn message_of(
    message: Seq<char>,
    max_name_len: nat,
    color: Color,
    name_on: bool,
    sep_on: bool,
    text_on: bool,
) -> Seq<char> {
    line_of(
        shown("gaffa"@, foreground(color), name_on),
        5,
        max_name_len,
        shown(bar(), dimmed_in(color), sep_on),
        shown(message, foreground(color), text_on),
    )
}

/// `r` is `message` behind the name "gaffa", in `color` where colours are on.
pub open spec fn announced(
    r: Seq<char>,
    message: Seq<char>,
    max_name_len: nat,
    color: Color,
) -> bool {
    exists|name_on: bool, sep_on: bool, text_on: bool|
        r == #[trigger] message_of(message, max_name_len, color, name_on, sep_on, text_on)
}

/// A line of painted cells is a message for some state of the colours.
proof fn lemma_announced(
    cell: Seq<char>,
    sep: Seq<char>,
    text: Seq<char>,
    message: Seq<char>,
    max_name_len: nat,
    color: Color,
)
    requires
        paint_of(cell, "gaffa"@, foreground(color)),
        paint_of(sep, bar(), dimmed_in(color)),
        paint_of(text, message, foreground(color)),
    ensures
        announced(line_of(cell, 5, max_name_len, sep, text), message, max_name_len, color),
{
    let a = cell == shown("gaffa"@, foreground(color), true);
    let b = sep == shown(bar(), dimmed_in(color), true);
    let c = text == shown(message, foreground(color), true);
    assert(line_of(cell, 5, max_name_len, sep, text) == message_of(
        message,
        max_name_len,
        color,
        a,
        b,
        c,
    ));
}

/// A message of gaffa itself, in magenta.
pub fn format_gaffa_message(message: &str, max_name_len: usize) -> (r: String)
    ensures
        announced(r@, message@, max_name_len as nat, Color::Magenta),
{
    let cell = tinted("gaffa", Color::Magenta);
    let text = tinted(message, Color::Magenta);
    let sep = tinted_dimmed("│", Color::Magenta);
    proof {
        lemma_announced(cell@, sep@, text@, message@, max_name_len as nat, Color::Magenta);
    }
    cell_line(cell.as_str(), 5, max_name_len, sep.as_str(), text.as_str())
}

/// An error message of gaffa itself, in red.
pub fn format_error_message(message: &str, max_name_len: usize) -> (r: String)
    ensures
        announced(r@, message@, max_name_len as nat, Color::Red),
{
    let cell = tinted("gaffa", Color::Red);
    let text = tinted(message, Color::Red);
    let sep = tinted_dimmed("│", Color::Red);
    proof {
        lemma_announced(cell@, sep@, text@, message@, max_name_len as nat, Color::Red);
    }
    cell_line(cell.as_str(), 5, max_name_len, sep.as_str(), text.as_str())
}

/// The colour of the process with the given number. After the last colour of
/// the palette comes the first one again.
pub fn get_process_color(index: usize) -> (r: Color)
    ensures
        r == color_of_index(index as nat),
{
    PROCESS_COLORS[index % 7]
}

/// The columns that are left for a line behind a name cell of `max_name_len`
/// columns and the separator. `None` where the width of the terminal is not
/// known, or too small to wrap lines.
pub open spec fn content_width(term_w: Option<usize>, max_name_len: nat) -> Option<nat> {
    match term_w {
        Some(w) if w > max_name_len + 13 => Some((w - (max_name_len + 3)) as nat),
        _ => None,
    }
}

/// The rows that show `line` behind the cell of a name of `len` bytes. Rows
/// after the first have a blank cell.
pub open spec fn rows_behind(
    cell: Seq<char>,
    len: nat,
    max_name_len: nat,
    sep: Seq<char>,
    line: Seq<char>,
    term_w: Option<usize>,
) -> Seq<Seq<char>> {
    match content_width(term_w, max_name_len) {
        None => seq![line_of(cell, len, max_name_len, sep, line)],
        Some(w) => {
            let parts = wrapped(line, w);
            Seq::new(
                parts.len(),
                |i: int|
                    if i == 0 {
                        line_of(cell, len, max_name_len, sep, parts[i])
                    } else {
                        line_of(seq![], 0, max_name_len, sep, parts[i])
                    },
            )
        },
    }
}

/// The rows that show `line` behind `cell`, which shows a name of `len` bytes.
pub fn layout_rows(
    cell: &str,
    len: usize,
    max_name_len: usize,
    sep: &str,
    line: &str,
    term_w: Option<usize>,
) -> (r: Vec<String>)
    requires
        max_name_len <= usize::MAX - 13,
    ensures
        texts(r@) == rows_behind(cell@, len as nat, max_name_len as nat, sep@, line@, term_w),
        content_width(term_w, max_name_len as nat) is Some ==> knows_widths(line@),
{
    let mut out: Vec<String> = Vec::new();
    let content_w: usize = match term_w {
        Some(w) if w > max_name_len + 13 => w - (max_name_len + 3),
        _ => {
            out.push(cell_line(cell, len, max_name_len, sep, line));
            assert(texts(out@) =~= rows_behind(
                cell@,
                len as nat,
                max_name_len as nat,
                sep@,
                line@,
                term_w,
            ));
            return out;
        },
    };
    let parts = wrap_ansi_preserving(line, content_w);
    let ghost all = rows_behind(cell@, len as nat, max_name_len as nat, sep@, line@, term_w);
    let mut i: usize = 0;
    while i < parts.len()
        invariant
            i <= parts.len(),
            texts(out@) == all.take(i as int),
            texts(parts@) == wrapped(line@, content_w as nat),
            content_width(term_w, max_name_len as nat) == Some(content_w as nat),
            all == rows_behind(cell@, len as nat, max_name_len as nat, sep@, line@, term_w),
        decreases parts.len() - i,
    {
        let ghost before = texts(out@);
        assert(texts(parts@)[i as int] == parts@[i as int]@);
        let row = if i == 0 {
            cell_line(cell, len, max_name_len, sep, parts[i].as_str())
        } else {
            assert(""@ =~= seq![]) by {
                reveal_strlit("");
            }
            cell_line("", 0, max_name_len, sep, parts[i].as_str())
        };
        assert(row@ == all[i as int]);
        out.push(row);
        assert(texts(out@) =~= before.push(row@));
        assert(all.take(i + 1) =~= all.take(i as int).push(all[i as int]));
        i += 1;
    }
    assert(all.take(i as int) =~= all) by {
        assert(texts(parts@).len() == parts@.len());
    }
    out
}

/// `r` is the rows that show `line` behind `name`. The name is in
/// `process_color` and the separator is dimmed in `sep_color`, where the
/// terminal takes colours.
pub open spec fn prefixed(
    r: Seq<Seq<char>>,
    name: Seq<char>,
    max_name_len: nat,
    process_color: Color,
    sep_color: Color,
    line: Seq<char>,
    term_w: Option<usize>,
) -> bool {
    exists|cell: Seq<char>, sep: Seq<char>|
        #![trigger rows_behind(cell, byte_len(name), max_name_len, sep, line, term_w)]
        {
            &&& paint_of(cell, name, foreground(process_color))
            &&& paint_of(sep, bar(), dimmed_in(sep_color))
            &&& r == rows_behind(cell, byte_len(name), max_name_len, sep, line, term_w)
        }
}

/// The rows that show a line of a process on a terminal `term_w` columns wide.
pub fn prefixed_rows(
    name: &str,
    max_name_len: usize,
    process_color: Color,
    sep_color: Color,
    line: &str,
    term_w: Option<usize>,
) -> (r: Vec<String>)
    requires
        max_name_len <= usize::MAX - 13,
    ensures
        prefixed(
            texts(r@),
            name@,
            max_name_len as nat,
            process_color,
            sep_color,
            line@,
            term_w,
        ),
        content_width(term_w, max_name_len as nat) is Some ==> knows_widths(line@),
{
    let cell = tinted(name, process_color);
    let sep = tinted_dimmed("│", sep_color);
    layout_rows(cell.as_str(), byte_len_of(name), max_name_len, sep.as_str(), line, term_w)
}

/// The line that a log file keeps of a text: time, stream, name and text.
pub open spec fn log_text(
    timestamp: Seq<char>,
    is_error: bool,
    name: Seq<char>,
    text: Seq<char>,
) -> Seq<char> {
    "["@ + timestamp + if is_error {
        "] [STDERR] ["@
    } else {
        "] ["@
    } + name + "] "@ + text + "\n"@
}

/// The line that a log file keeps of a text.
pub fn plain_log_line(timestamp: &str, is_error: bool, name: &str, text: &str) -> (r: String)
    ensures
        r@ == log_text(timestamp@, is_error, name@, text@),
{
    let mark = if is_error {
        "] [STDERR] ["
    } else {
        "] ["
    };
    "[".to_owned().concat(timestamp).concat(mark).concat(name).concat("] ").concat(text).concat(
        "\n",
    )
}

/// The line that a log file keeps of a line of output, which goes there without
/// escape sequences.
pub fn log_line(timestamp: &str, is_error: bool, name: &str, line: &str) -> (r: String)
    ensures
        r@ == log_text(timestamp@, is_error, name@, stripped(line@)),
{
    let clean = strip_ansi_escapes(line);
    plain_log_line(timestamp, is_error, name, clean.as_str())
}

/// Where the output of a process goes.
#[derive(Clone, Copy, Debug, PartialEq, Eq, Structural)]
pub enum Sink {
    /// To the screen's log.
    Screen,
    /// To the terminal, line by line, and to the log file if there is one.
    Terminal { width: Option<usize>, log_file: bool },
}

/// What is to be done with a line that a process wrote.
#[derive(Debug)]
pub enum LineAction {
    /// Nothing: the line is blank.
    Skip,
    /// Add the line to the screen's log.
    AddLog(String),
    /// Print the rows, and append the line to the log file if it is there.
    Print { rows: Vec<String>, log_line: Option<String> },
}

/// The colour of the separator: that of the process for what it writes to its
/// output, red for what it writes to its error stream.
pub open spec fn sep_color_of(process_color: Color, is_error: bool) -> Color {
    if is_error {
        Color::Red
    } else {
        process_color
    }
}

/// Whether `r` is what is to be done with a line that a process wrote. White space at
/// its end is dropped first, and a line with nothing left is passed over. The log file
/// gets the line without escape sequences.
pub open spec fn handles_line(
    r: LineAction,
    name: Seq<char>,
    line: Seq<char>,
    is_error: bool,
    sink: Sink,
    max_name_len: nat,
    process_color: Color,
    timestamp: Seq<char>,
) -> bool {
    &&& trim_end(line).len() == 0 <==> r is Skip
    &&& r is AddLog <==> trim_end(line).len() > 0 && sink is Screen
    &&& r matches LineAction::AddLog(text) ==> text@ == trim_end(line)
    &&& r matches LineAction::Print { rows, log_line } ==> {
        &&& prefixed(
            texts(rows@),
            name,
            max_name_len,
            process_color,
            sep_color_of(process_color, is_error),
            trim_end(line),
            sink->width,
        )
        &&& content_width(sink->width, max_name_len) is Some ==> knows_widths(trim_end(line))
        &&& log_line is Some <==> sink->log_file
        &&& log_line matches Some(text) ==> text@ == log_text(
            timestamp,
            is_error,
            name,
            stripped(trim_end(line)),
        )
    }
}

/// What is to be done with a line that a process wrote. White space at its end
/// is dropped first, and a line with nothing left is passed over.
pub fn handle_line(
    name: &str,
    line: &str,
    is_error: bool,
    sink: Sink,
    max_name_len: usize,
    process_color: Color,
    timestamp: &str,
) -> (r: LineAction)
    requires
        max_name_len <= usize::MAX - 13,
    ensures
        handles_line(
            r,
            name@,
            line@,
            is_error,
            sink,
            max_name_len as nat,
            process_color,
            timestamp@,
        ),
{
    let text = trim_tail(line);
    if char_count(text.as_str()) == 0 {
        return LineAction::Skip;
    }
    match sink {
        Sink::Screen => LineAction::AddLog(text),
        Sink::Terminal { width, log_file } => {
            let sep_color = if is_error {
                Color::Red
            } else {
                process_color
            };
            let rows = prefixed_rows(
                name,
                max_name_len,
                process_color,
                sep_color,
                text.as_str(),
                width,
            );
            let log_line = if log_file {
                Some(log_line(timestamp, is_error, name, text.as_str()))
            } else {
                None
            };
            LineAction::Print { rows, log_line }
        },
    }
}

/// Text without ESC is stripped of nothing.
pub proof fn law_strip_keeps_plain_text(s: Seq<char>)
    requires
        !s.contains(ESC),
    ensures
        stripped(s) == s,
    decreases s.len(),
{
    if s.len() > 0 {
        assert(s.contains(s[0]));
        assert forall|c: char| s.skip(1).contains(c) implies s.contains(c) by {
            let i = choose|i: int| 0 <= i < s.skip(1).len() && s.skip(1)[i] == c;
            assert(s[i + 1] == c);
        }
        law_strip_keeps_plain_text(s.skip(1));
        assert(seq![s[0]] + s.skip(1) =~= s);
    }
}

/// Text before an escape sequence is kept as it is.
pub proof fn law_strip_keeps_text_before_escapes(a: Seq<char>, b: Seq<char>)
    requires
        !a.contains(ESC),
    ensures
        stripped(a + b) == a + stripped(b),
    decreases a.len(),
{
    if a.len() == 0 {
        assert(a + b =~= b);
        assert(a + stripped(b) =~= stripped(b));
    } else {
        let s = a + b;
        assert(a.contains(a[0]));
        assert(s[0] == a[0]);
        assert(s.skip(1) =~= a.skip(1) + b);
        assert forall|c: char| a.skip(1).contains(c) implies a.contains(c) by {
            let i = choose|i: int| 0 <= i < a.skip(1).len() && a.skip(1)[i] == c;
            assert(a[i + 1] == c);
        }
        law_strip_keeps_text_before_escapes(a.skip(1), b);
        assert(seq![a[0]] + (a.skip(1) + stripped(b)) =~= a + stripped(b));
    }
}

/// An escape sequence that is neither a control sequence nor a command takes the
/// character after ESC with it, whatever that is, and nothing else.
pub proof fn law_strip_drops_short_escapes(a: Seq<char>, c: char, b: Seq<char>)
    requires
        !a.contains(ESC),
        c != '[' && c != ']',
    ensures
        stripped(a + (seq![ESC, c] + b)) == a + stripped(b),
{
    let s = seq![ESC, c] + b;
    law_strip_keeps_text_before_escapes(a, s);
    assert(s[0] == ESC && s[1] == c);
    assert(s.skip(2) =~= b);
}

/// In stripped text ESC stands at most at the very end, where it begins no
/// escape sequence.
pub proof fn law_strip_leaves_no_escape(s: Seq<char>, i: int)
    requires
        0 <= i < stripped(s).len() - 1,
    ensures
        stripped(s)[i] != ESC,
    decreases s.len(),
{
    if s.len() > 0 {
        if at_escape(s) {
            lemma_escape_len(s);
            law_strip_leaves_no_escape(s.skip(escape_len(s) as int), i);
        } else if i > 0 {
            law_strip_leaves_no_escape(s.skip(1), i - 1);
        } else if s.len() == 1 {
            assert(s.skip(1).len() == 0);
            assert(stripped(s.skip(1)).len() == 0);
        }
    }
}

/// Stripping what was stripped changes nothing.
pub proof fn law_strip_is_idempotent(s: Seq<char>)
    ensures
        stripped(stripped(s)) == stripped(s),
{
    let t = stripped(s);
    assert forall|i: int| 0 <= i < t.len() - 1 implies #[trigger] t[i] != ESC by {
        law_strip_leaves_no_escape(s, i);
    }
    lemma_strip_tail_escape(t);
}

proof fn lemma_strip_tail_escape(t: Seq<char>)
    requires
        forall|i: int| 0 <= i < t.len() - 1 ==> #[trigger] t[i] != ESC,
    ensures
        stripped(t) == t,
    decreases t.len(),
{
    if t.len() > 0 {
        assert(t.len() > 1 ==> t[0] != ESC);
        assert forall|i: int| 0 <= i < t.skip(1).len() - 1 implies #[trigger] t.skip(1)[i] != ESC by {
            assert(t[i + 1] != ESC);
        }
        lemma_strip_tail_escape(t.skip(1));
        assert(seq![t[0]] + t.skip(1) =~= t);
    }
}

/// Painted text is stripped to the text itself.
proof fn lemma_strip_shown(text: Seq<char>, codes: Seq<char>, on: bool, rest: Seq<char>)
    requires
        !text.contains(ESC),
        forall|i: int| 0 <= i < codes.len() ==> parameter()(#[trigger] codes[i]),
    ensures
        stripped(shown(text, codes, on) + rest) == text + stripped(rest),
{
    if on {
        lemma_reopened_plain(text, opening(codes));
        let s = painted(text, codes) + rest;
        let t = s.skip(2);
        let after = text + (reset() + rest);
        assert(t =~= codes + seq!['m'] + after);
        assert forall|i: int| 0 <= i < codes.len() implies parameter()(#[trigger] t[i]) by {
            assert(t[i] == codes[i]);
        }
        assert(t[codes.len() as int] == 'm');
        lemma_span_is(t, parameter(), codes.len());
        let u = t.skip(codes.len() as int);
        assert(u[0] == 'm');
        lemma_span_is(u, intermediate(), 0);
        assert(s[0] == ESC && s[1] == '[');
        assert(escape_len(s) == codes.len() + 3);
        assert(s.skip(codes.len() as int + 3) =~= after);
        law_strip_keeps_text_before_escapes(text, reset() + rest);
        lemma_strip_reset(rest);
    } else {
        law_strip_keeps_text_before_escapes(text, rest);
    }
}

proof fn lemma_strip_reset(rest: Seq<char>)
    ensures
        stripped(reset() + rest) == stripped(rest),
{
    let s = reset() + rest;
    let t = s.skip(2);
    assert(t[0] == '0' && t[1] == 'm');
    lemma_span_is(t, parameter(), 1);
    assert(t.skip(1)[0] == 'm');
    lemma_span_is(t.skip(1), intermediate(), 0);
    assert(escape_len(s) == 4);
    assert(s.skip(4) =~= rest);
}

/// Text without ESC has no reset in it.
proof fn lemma_reopened_plain(text: Seq<char>, open: Seq<char>)
    requires
        !text.contains(ESC),
    ensures
        reopened(text, open) == text,
    decreases text.len(),
{
    if text.len() >= 4 {
        assert(text.contains(text[0]));
        assert(text.take(4)[0] == text[0]);
        assert(reset()[0] == ESC);
        assert forall|c: char| text.skip(1).contains(c) implies text.contains(c) by {
            let i = choose|i: int| 0 <= i < text.skip(1).len() && text.skip(1)[i] == c;
            assert(text[i + 1] == c);
        }
        lemma_reopened_plain(text.skip(1), open);
        assert(seq![text[0]] + text.skip(1) =~= text);
    }
}

proof fn lemma_codes(color: Color)
    ensures
        forall|i: int|
            0 <= i < foreground(color).len() ==> parameter()(#[trigger] foreground(color)[i]),
        forall|i: int|
            0 <= i < dimmed_in(color).len() ==> parameter()(#[trigger] dimmed_in(color)[i]),
{
    let f = foreground(color);
    let d = dimmed_in(color);
    assert(f.len() == 2);
    assert forall|i: int| 0 <= i < d.len() implies parameter()(#[trigger] d[i]) by {
        if i >= 2 {
            assert(d[i] == f[i - 2]);
        }
    }
}

/// A line is stripped piece by piece.
proof fn lemma_strip_pieces(
    x: Seq<char>,
    name: Seq<char>,
    gap: Seq<char>,
    y: Seq<char>,
    middle: Seq<char>,
    z: Seq<char>,
    text: Seq<char>,
)
    requires
        stripped(x + (gap + (y + (seq![' '] + z)))) == name + stripped(gap + (y + (seq![' '] + z))),
        stripped(y + (seq![' '] + z)) == middle + stripped(seq![' '] + z),
        stripped(z) == text,
        !gap.contains(ESC),
    ensures
        stripped(x + gap + y + seq![' '] + z) == name + gap + middle + seq![' '] + text,
{
    let blank = seq![' '];
    let c = blank + z;
    let b = y + c;
    let a = gap + b;
    law_strip_keeps_text_before_escapes(blank, z);
    law_strip_keeps_text_before_escapes(gap, b);
    assert(x + gap + y + blank + z =~= x + a);
    assert(stripped(b) == middle + stripped(c));
    assert(stripped(x + a) == name + (gap + (middle + (blank + text))));
    assert(name + (gap + (middle + (blank + text))) =~= name + gap + middle + blank + text);
}

proof fn lemma_message_text(
    message: Seq<char>,
    n: nat,
    color: Color,
    name_on: bool,
    sep_on: bool,
    text_on: bool,
)
    requires
        !message.contains(ESC),
    ensures
        stripped(message_of(message, n, color, name_on, sep_on, text_on)) == line_of(
            "gaffa"@,
            5,
            n,
            bar(),
            message,
        ),
{
    let f = foreground(color);
    let x = shown("gaffa"@, f, name_on);
    let y = shown(bar(), dimmed_in(color), sep_on);
    let z = shown(message, f, text_on);
    let blank = seq![' '];
    let blanks = repeated(' ', missing(n, 5));
    let gap = blanks + blank;
    assert(!"gaffa"@.contains(ESC)) by {
        reveal_strlit("gaffa");
    }
    assert(!bar().contains(ESC)) by {
        reveal_strlit("│");
    }
    lemma_codes(color);
    lemma_strip_shown("gaffa"@, f, name_on, gap + (y + (blank + z)));
    lemma_strip_shown(bar(), dimmed_in(color), sep_on, blank + z);
    let nothing = Seq::<char>::empty();
    lemma_strip_shown(message, f, text_on, nothing);
    assert(z + nothing =~= z);
    assert(message + stripped(nothing) =~= message);
    lemma_line_text(x, "gaffa"@, blanks, y, bar(), z, message);
}

proof fn lemma_line_text(
    x: Seq<char>,
    name: Seq<char>,
    blanks: Seq<char>,
    y: Seq<char>,
    middle: Seq<char>,
    z: Seq<char>,
    text: Seq<char>,
)
    requires
        stripped(x + (blanks + seq![' '] + (y + (seq![' '] + z)))) == name + stripped(
            blanks + seq![' '] + (y + (seq![' '] + z)),
        ),
        stripped(y + (seq![' '] + z)) == middle + stripped(seq![' '] + z),
        stripped(z) == text,
        !(blanks + seq![' ']).contains(ESC),
    ensures
        stripped(x + blanks + seq![' '] + y + seq![' '] + z) == name + blanks + seq![' '] + middle
            + seq![' '] + text,
{
    let gap = blanks + seq![' '];
    lemma_strip_pieces(x, name, gap, y, middle, z, text);
    assert(x + blanks + seq![' '] =~= x + gap);
    assert(name + blanks + seq![' '] =~= name + gap);
}

/// Whatever the colours, the text of a message is the name, blanks up to the
/// width of the name column, the separator, and the message.
pub proof fn law_message_text(r: Seq<char>, message: Seq<char>, n: nat, color: Color)
    requires
        announced(r, message, n, color),
        !message.contains(ESC),
    ensures
        stripped(r) == line_of("gaffa"@, 5, n, bar(), message),
{
    let (name_on, sep_on, text_on) = choose|name_on: bool, sep_on: bool, text_on: bool|
        r == #[trigger] message_of(message, n, color, name_on, sep_on, text_on);
    lemma_message_text(message, n, color, name_on, sep_on, text_on);
}

/// As long as the colours stay on or off, a message is the same for every name
/// column that is no wider than the name "gaffa".
pub proof fn law_narrow_messages_are_equal(message: Seq<char>, n: nat, color: Color, on: bool)
    requires
        n <= 5,
    ensures
        message_of(message, n, color, on, on, on) == message_of(message, 5, color, on, on, on),
{
    assert(repeated(' ', missing(n, 5)) =~= repeated(' ', missing(5, 5)));
}

/// With colours on, an error is painted in red where a message is painted in
/// magenta: the name, and the text up to the end. Without the colours both are
/// the same.
pub proof fn law_painted_messages(message: Seq<char>, n: nat)
    requires
        !message.contains(ESC),
    ensures
        ({
            let error = message_of(message, n, Color::Red, true, true, true);
            let plain = message_of(message, n, Color::Magenta, true, true, true);
            let red = seq![ESC, '[', '3', '1', 'm'];
            let magenta = seq![ESC, '[', '3', '5', 'm'];
            &&& (red + "gaffa"@ + reset()).is_prefix_of(error)
            &&& (red + message + reset()).is_suffix_of(error)
            &&& (magenta + "gaffa"@ + reset()).is_prefix_of(plain)
            &&& (magenta + message + reset()).is_suffix_of(plain)
            &&& stripped(error) == stripped(plain)
        }),
{
    lemma_painted_message(message, n, Color::Red);
    lemma_painted_message(message, n, Color::Magenta);
    assert(opening(foreground(Color::Red)) =~= seq![ESC, '[', '3', '1', 'm']);
    assert(opening(foreground(Color::Magenta)) =~= seq![ESC, '[', '3', '5', 'm']);
    law_message_text(
        message_of(message, n, Color::Red, true, true, true),
        message,
        n,
        Color::Red,
    );
    law_message_text(
        message_of(message, n, Color::Magenta, true, true, true),
        message,
        n,
        Color::Magenta,
    );
}

proof fn lemma_painted_message(message: Seq<char>, n: nat, color: Color)
    requires
        !message.contains(ESC),
    ensures
        ({
            let r = message_of(message, n, color, true, true, true);
            let open = opening(foreground(color));
            &&& (open + "gaffa"@ + reset()).is_prefix_of(r)
            &&& (open + message + reset()).is_suffix_of(r)
        }),
{
    reveal_strlit("gaffa");
    let r = message_of(message, n, color, true, true, true);
    let open = opening(foreground(color));
    lemma_reopened_plain("gaffa"@, open);
    lemma_reopened_plain(message, open);
    let head = open + "gaffa"@ + reset();
    let tail = open + message + reset();
    assert(r.take(head.len() as int) =~= head);
    assert(r.subrange(r.len() - tail.len(), r.len() as int) =~= tail);
}

/// The rows put together again: each but the last without the reset that ends
/// it.
pub open spec fn unwrapped(rows: Seq<Seq<char>>) -> Seq<char>
    decreases rows.len(),
{
    if rows.len() == 0 {
        seq![]
    } else if rows.len() == 1 {
        rows[0]
    } else {
        rows[0].take(rows[0].len() - 4) + unwrapped(rows.skip(1))
    }
}

/// Wrapping loses nothing, whatever the widths: without the resets that it
/// added, the rows make up the line.
pub proof fn law_wrap_keeps_text(s: Seq<char>, widths: Seq<nat>, width: nat)
    ensures
        unwrapped(wrapped_by(s, widths, width)) == s,
        width > 0 ==> forall|i: int|
            0 <= i < wrapped_by(s, widths, width).len() - 1 ==> reset().is_suffix_of(
                #[trigger] wrapped_by(s, widths, width)[i],
            ),
    decreases s.len(),
{
    if width > 0 && s.len() > 0 {
        let k = row_len(s, widths, width, 0, false);
        lemma_row_len(s, widths, width, 0, false);
        if k < s.len() {
            let tail = s.skip(k as int);
            let ws = widths.skip(k as int);
            let all = rows(s, widths, width);
            law_wrap_keeps_text(tail, ws, width);
            assert(all.skip(1) =~= rows(tail, ws, width));
            assert(all[0].take(all[0].len() - 4) =~= s.take(k as int));
            assert(s.take(k as int) + tail =~= s);
            lemma_row_len(tail, ws, width, 0, false);
            assert(rows(tail, ws, width).len() > 0);
            assert forall|i: int| 0 <= i < all.len() - 1 implies reset().is_suffix_of(
                #[trigger] all[i],
            ) by {
                if i > 0 {
                    assert(all[i] == rows(tail, ws, width)[i - 1]);
                } else {
                    assert(all[0].subrange(k as int, k as int + 4) =~= reset());
                }
            }
        }
    }
}

/// The length of what `s` begins with: an escape sequence or one character.
spec fn token_len(s: Seq<char>) -> nat {
    if at_escape(s) {
        escape_len(s)
    } else {
        1
    }
}

/// Two texts that agree up to the end of a span, where both end or fail the
/// predicate, have the same span.
proof fn lemma_span_agrees(s: Seq<char>, u: Seq<char>, p: spec_fn(char) -> bool)
    requires
        span(s, p) <= u.len(),
        u.take(span(s, p) as int) == s.take(span(s, p) as int),
        span(s, p) < u.len() ==> !p(u[span(s, p) as int]),
    ensures
        span(u, p) == span(s, p),
{
    let k = span(s, p);
    lemma_span(s, p);
    assert forall|i: int| 0 <= i < k implies p(#[trigger] u[i]) by {
        assert(u[i] == u.take(k as int)[i]);
        assert(s[i] == s.take(k as int)[i]);
    }
    lemma_span_is(u, p, k);
}

/// An operating system command that ends before the text does is the same in
/// every text that agrees with it up to there.
proof fn lemma_osc_agrees(s: Seq<char>, u: Seq<char>)
    requires
        osc_len(s) < s.len(),
        osc_len(s) <= u.len(),
        u.take(osc_len(s) as int) == s.take(osc_len(s) as int),
    ensures
        osc_len(u) == osc_len(s),
    decreases s.len(),
{
    let n = osc_len(s) as int;
    assert(s.len() > 0);
    assert forall|i: int| 0 <= i < n implies #[trigger] u[i] == s[i] by {
        assert(u.take(n)[i] == s.take(n)[i]);
    }
    if s[0] == BEL {
        assert(u[0] == s[0]);
    } else if s[0] == ESC && s.len() > 1 && s[1] == '\\' {
        assert(u[0] == s[0]);
        assert(u[1] == s[1]);
    } else {
        assert(n >= 1);
        assert(u[0] == s[0]);
        assert(osc_len(s.skip(1)) == n - 1);
        assert(n >= 2) by {
            lemma_osc_len(s.skip(1));
            assert(s.skip(1).len() > 0);
        }
        assert(u[1] == s[1]);
        assert(u.skip(1).take(n - 1) =~= s.skip(1).take(n - 1)) by {
            assert forall|i: int| 0 <= i < n - 1 implies u.skip(1)[i] == s.skip(1)[i] by {
                assert(u[i + 1] == s[i + 1]);
            }
        }
        lemma_osc_agrees(s.skip(1), u.skip(1));
    }
}

/// What a text begins with is the same in a text that agrees with it up to
/// `k`, and has ESC there or ends.
proof fn lemma_token_agrees(s: Seq<char>, u: Seq<char>, k: nat)
    requires
        0 < token_len(s) <= k < s.len(),
        k <= u.len(),
        u.take(k as int) == s.take(k as int),
        k < u.len() ==> u[k as int] == ESC,
    ensures
        at_escape(u) == at_escape(s),
        token_len(u) == token_len(s),
{
    assert forall|i: int| 0 <= i < k implies #[trigger] u[i] == s[i] by {
        assert(u.take(k as int)[i] == u[i]);
        assert(s.take(k as int)[i] == s[i]);
    }
    assert(u[0] == s[0]);
    if at_escape(s) {
        lemma_escape_len(s);
        assert(u[1] == s[1]);
        let t = s.skip(2);
        let v = u.skip(2);
        let n = escape_len(s);
        assert forall|i: int| 0 <= i < k - 2 implies #[trigger] v[i] == t[i] by {
            assert(u[i + 2] == s[i + 2]);
        }
        assert(k < u.len() ==> v[k - 2] == ESC);
        if s[1] == '[' {
            let a = span(t, parameter());
            let rest = t.skip(a as int);
            let b = span(rest, intermediate());
            lemma_span(t, parameter());
            lemma_span(rest, intermediate());
            assert(v.take(a as int) =~= t.take(a as int));
            assert(a < v.len() ==> !parameter()(v[a as int])) by {
                if a < k - 2 {
                    assert(v[a as int] == t[a as int]);
                }
            }
            lemma_span_agrees(t, v, parameter());
            let over = v.skip(a as int);
            assert(over.take(b as int) =~= rest.take(b as int)) by {
                assert forall|i: int| 0 <= i < b implies over[i] == rest[i] by {
                    assert(v[a + i] == t[a + i]);
                }
            }
            assert(b < over.len() ==> !intermediate()(over[b as int])) by {
                if a + b < k - 2 {
                    assert(v[(a + b) as int] == t[(a + b) as int]);
                    assert(over[b as int] == v[(a + b) as int]);
                    assert(rest[b as int] == t[(a + b) as int]);
                } else if b < over.len() {
                    assert(over[b as int] == v[(a + b) as int]);
                }
            }
            lemma_span_agrees(rest, over, intermediate());
            if a + b < k - 2 {
                assert(v[(a + b) as int] == t[(a + b) as int]);
            }
        } else if s[1] == ']' {
            let m = osc_len(t);
            assert(v.take(m as int) =~= t.take(m as int));
            lemma_osc_agrees(t, v);
        }
    } else {
        assert(s[0] != ESC);
    }
}

/// The row of a text, with the reset behind it, takes no more than the columns
/// there are, unless its first character alone takes more.
proof fn lemma_row_columns(
    s: Seq<char>,
    ws: Seq<nat>,
    width: nat,
    used: nat,
    begun: bool,
    rest: Seq<nat>,
)
    requires
        ws.len() == s.len(),
        row_len(s, ws, width, used, begun) < s.len(),
        begun ==> used <= width,
        !begun ==> used == 0,
        !begun && !at_escape(s) ==> ws[0] <= width,
    ensures
        ({
            let k = row_len(s, ws, width, used, begun) as int;
            used + columns(s.take(k) + reset(), ws.take(k) + rest) <= width
        }),
    decreases s.len(),
{
    let k = row_len(s, ws, width, used, begun);
    let u = s.take(k as int) + reset();
    let wu = ws.take(k as int) + rest;
    lemma_row_len(s, ws, width, used, begun);
    if k == 0 {
        assert(u =~= reset());
        lemma_reset_columns(wu);
    } else {
        let n = token_len(s);
        let w = if at_escape(s) {
            0
        } else {
            ws[0]
        };
        if at_escape(s) {
            lemma_escape_len(s);
        }
        let next = s.skip(n as int);
        let nws = ws.skip(n as int);
        lemma_row_len(next, nws, width, used + w, true);
        assert(n <= k);
        assert(u.take(k as int) =~= s.take(k as int));
        lemma_token_agrees(s, u, k);
        assert(u[0] == s[0]);
        assert(wu[0] == ws[0]);
        assert(u.skip(n as int) =~= next.take(k - n) + reset());
        assert(wu.skip(n as int) =~= nws.take(k - n) + rest);
        lemma_row_columns(next, nws, width, used + w, true, rest);
        assert(columns(u, wu) == w + columns(u.skip(n as int), wu.skip(n as int)));
    }
}

proof fn lemma_reset_columns(ws: Seq<nat>)
    ensures
        columns(reset(), ws) == 0,
{
    let r = reset();
    let t = r.skip(2);
    lemma_span_is(t, parameter(), 1);
    lemma_span_is(t.skip(1), intermediate(), 0);
    assert(t[1] == 'm');
    assert(csi_len(t) == 2);
    assert(r.skip(4).len() == 0);
    assert(columns(r.skip(4), ws.skip(4)) == 0);
}

/// A row that is a whole text fits too.
proof fn lemma_last_row_columns(s: Seq<char>, ws: Seq<nat>, width: nat, used: nat, begun: bool)
    requires
        row_len(s, ws, width, used, begun) == s.len(),
        used <= width,
        !begun ==> used == 0,
        !begun && s.len() > 0 && !at_escape(s) ==> ws[0] <= width,
    ensures
        used + columns(s, ws) <= width,
    decreases s.len(),
{
    if s.len() > 0 {
        if at_escape(s) {
            lemma_escape_len(s);
            let n = escape_len(s) as int;
            lemma_row_len(s.skip(n), ws.skip(n), width, used, true);
            lemma_last_row_columns(s.skip(n), ws.skip(n), width, used, true);
        } else {
            lemma_row_len(s.skip(1), ws.skip(1), width, used + ws[0], true);
            lemma_last_row_columns(s.skip(1), ws.skip(1), width, used + ws[0], true);
        }
    }
}

/// Every row fits into the columns there are. The one exception is a row whose
/// first character alone is too wide.
pub proof fn law_rows_fit(s: Seq<char>, width: nat, i: int)
    requires
        width > 0,
        0 <= i < wrapped(s, width).len(),
    ensures
        ({
            let row = wrapped(s, width)[i];
            columns(row, widths_of(row)) <= width || (row.len() > 0 && columns_of(row[0]) > width)
        }),
    decreases s.len(),
{
    let ws = widths_of(s);
    let k = row_len(s, ws, width, 0, false);
    lemma_row_len(s, ws, width, 0, false);
    let fits = at_escape(s) || columns_of(s[0]) <= width;
    if k == s.len() {
        if fits {
            lemma_last_row_columns(s, ws, width, 0, false);
        }
    } else if i == 0 {
        let row = s.take(k as int) + reset();
        assert(wrapped(s, width)[0] == row);
        assert(row[0] == s[0]);
        assert(widths_of(row) =~= ws.take(k as int) + widths_of(reset()));
        if fits {
            lemma_row_columns(s, ws, width, 0, false, widths_of(reset()));
        }
    } else {
        let tail = s.skip(k as int);
        assert(ws.skip(k as int) =~= widths_of(tail));
        assert(wrapped(s, width)[i] == rows(tail, widths_of(tail), width)[i - 1]);
        law_rows_fit(tail, width, i - 1);
    }
}

/// A control sequence goes with all of its parameters, its intermediates and its
/// final character, whichever that is, and takes nothing else with it.
pub proof fn law_strip_drops_control_sequences(
    a: Seq<char>,
    p: Seq<char>,
    q: Seq<char>,
    f: char,
    b: Seq<char>,
)
    requires
        !a.contains(ESC),
        forall|i: int| 0 <= i < p.len() ==> 0x30 <= (#[trigger] p[i]) as u32 <= 0x3f,
        forall|i: int| 0 <= i < q.len() ==> 0x20 <= (#[trigger] q[i]) as u32 <= 0x2f,
        0x40 <= f as u32 <= 0x7e,
    ensures
        stripped(a + (seq![ESC, '['] + p + q + seq![f] + b)) == a + stripped(b),
{
    let s = seq![ESC, '['] + p + q + seq![f] + b;
    law_strip_keeps_text_before_escapes(a, s);
    assert(s =~= seq![ESC, '['] + (p + q + (seq![f] + b)));
    lemma_csi_parts(p, q, seq![f] + b);
    assert(s.skip(2) =~= p + q + (seq![f] + b));
    let n = p.len() + q.len();
    assert((p + q + (seq![f] + b))[n as int] == f);
    assert(csi_len(s.skip(2)) == n + 1);
    assert(at_escape(s) && escape_len(s) == 3 + n);
    assert(s.skip((3 + p.len() + q.len()) as int) =~= b);
}

/// A control sequence without a final character goes with its parameters and its
/// intermediates, and keeps what stands where the final character should.
pub proof fn law_strip_drops_broken_control_sequences(
    a: Seq<char>,
    p: Seq<char>,
    q: Seq<char>,
    b: Seq<char>,
)
    requires
        !a.contains(ESC),
        forall|i: int| 0 <= i < p.len() ==> 0x30 <= (#[trigger] p[i]) as u32 <= 0x3f,
        forall|i: int| 0 <= i < q.len() ==> 0x20 <= (#[trigger] q[i]) as u32 <= 0x2f,
        b.len() > 0 ==> {
            ||| (b[0] as u32) < 0x20
            ||| (b[0] as u32) > 0x7e
            ||| q.len() > 0 && 0x30 <= b[0] as u32 <= 0x3f
        },
    ensures
        stripped(a + (seq![ESC, '['] + p + q + b)) == a + stripped(b),
{
    let s = seq![ESC, '['] + p + q + b;
    law_strip_keeps_text_before_escapes(a, s);
    assert(s =~= seq![ESC, '['] + (p + q + b));
    lemma_csi_parts(p, q, b);
    assert(s.skip(2) =~= p + q + b);
    let n = p.len() + q.len();
    if b.len() > 0 {
        assert((p + q + b)[n as int] == b[0]);
    }
    assert(csi_len(s.skip(2)) == n);
    assert(at_escape(s) && escape_len(s) == 2 + n);
    assert(s.skip((2 + p.len() + q.len()) as int) =~= b);
}

/// The parameters and intermediates of a control sequence are found as far as they
/// go.
proof fn lemma_csi_parts(p: Seq<char>, q: Seq<char>, b: Seq<char>)
    requires
        forall|i: int| 0 <= i < p.len() ==> 0x30 <= (#[trigger] p[i]) as u32 <= 0x3f,
        forall|i: int| 0 <= i < q.len() ==> 0x20 <= (#[trigger] q[i]) as u32 <= 0x2f,
        b.len() > 0 ==> !(0x20 <= b[0] as u32 <= 0x2f),
        b.len() > 0 && q.len() == 0 ==> !(0x30 <= b[0] as u32 <= 0x3f),
    ensures
        span(p + q + b, parameter()) == p.len(),
        (p + q + b).skip(p.len() as int) == q + b,
        span(q + b, intermediate()) == q.len(),
{
    let t = p + q + b;
    let n = p.len() as int;
    assert forall|i: int| 0 <= i < n implies parameter()(#[trigger] t[i]) by {
        assert(t[i] == p[i]);
    }
    if n < t.len() {
        if q.len() > 0 {
            assert(t[n] == q[0]);
        } else {
            assert(t[n] == b[0]);
        }
    }
    lemma_span_is(t, parameter(), p.len());
    let u = q + b;
    assert(t.skip(n) =~= u);
    assert forall|i: int| 0 <= i < q.len() implies intermediate()(#[trigger] u[i]) by {
        assert(u[i] == q[i]);
    }
    if q.len() < u.len() {
        assert(u[q.len() as int] == b[0]);
    }
    lemma_span_is(u, intermediate(), q.len());
}

/// A command goes up to the bell, or the ESC and backslash, that ends it, and with
/// all of the text where nothing does.
pub proof fn law_strip_drops_commands(a: Seq<char>, p: Seq<char>, b: Seq<char>)
    requires
        !a.contains(ESC),
        !p.contains(BEL),
        forall|i: int|
            0 <= i < p.len() - 1 ==> !(#[trigger] p[i] == ESC && p[i + 1] == '\\'),
    ensures
        stripped(a + (seq![ESC, ']'] + p + seq![BEL] + b)) == a + stripped(b),
        stripped(a + (seq![ESC, ']'] + p + seq![ESC, '\\'] + b)) == a + stripped(b),
        stripped(a + (seq![ESC, ']'] + p)) == a,
{
    let s = seq![ESC, ']'] + p + seq![BEL] + b;
    law_strip_keeps_text_before_escapes(a, s);
    assert(s.skip(2) =~= p + (seq![BEL] + b));
    lemma_osc_body(p, seq![BEL] + b);
    assert(s.skip((3 + p.len()) as int) =~= b);
    let t = seq![ESC, ']'] + p + seq![ESC, '\\'] + b;
    law_strip_keeps_text_before_escapes(a, t);
    assert(t.skip(2) =~= p + (seq![ESC, '\\'] + b));
    lemma_osc_body(p, seq![ESC, '\\'] + b);
    assert(t.skip((4 + p.len()) as int) =~= b);
    let u = seq![ESC, ']'] + p;
    law_strip_keeps_text_before_escapes(a, u);
    assert(u.skip(2) =~= p + seq![]);
    lemma_osc_body(p, seq![]);
    assert(u.skip((2 + p.len()) as int).len() == 0);
    assert(a + stripped(u.skip((2 + p.len()) as int)) =~= a);
}

/// The body of a command is passed over.
proof fn lemma_osc_body(p: Seq<char>, t: Seq<char>)
    requires
        !p.contains(BEL),
        forall|i: int|
            0 <= i < p.len() - 1 ==> !(#[trigger] p[i] == ESC && p[i + 1] == '\\'),
        t.len() > 0 ==> t[0] != '\\',
    ensures
        osc_len(p + t) == p.len() + osc_len(t),
    decreases p.len(),
{
    let s = p + t;
    if p.len() == 0 {
        assert(s =~= t);
    } else {
        assert(s[0] == p[0]);
        assert(p.contains(p[0]));
        if p.len() > 1 {
            assert(s[1] == p[1]);
        } else if t.len() > 0 {
            assert(s[1] == t[0]);
        }
        let rest = p.skip(1);
        assert(s.skip(1) =~= rest + t);
        assert(!rest.contains(BEL)) by {
            if rest.contains(BEL) {
                let i = choose|i: int| 0 <= i < rest.len() && rest[i] == BEL;
                assert(p[i + 1] == BEL);
            }
        }
        assert forall|i: int| 0 <= i < rest.len() - 1 implies !(#[trigger] rest[i] == ESC && rest[i
            + 1] == '\\') by {
            assert(p[i + 1] == rest[i]);
        }
        lemma_osc_body(rest, t);
    }
}

/// A row that ends before the text does has no room for the character that comes
/// next, which begins no escape sequence.
proof fn lemma_row_is_full(
    s: Seq<char>,
    ws: Seq<nat>,
    width: nat,
    used: nat,
    begun: bool,
    rest: Seq<nat>,
)
    requires
        ws.len() == s.len(),
        row_len(s, ws, width, used, begun) < s.len(),
    ensures
        ({
            let k = row_len(s, ws, width, used, begun) as int;
            &&& !at_escape(s.skip(k))
            &&& used + columns(s.take(k) + reset(), ws.take(k) + rest) + ws[k] > width
        }),
    decreases s.len(),
{
    let k = row_len(s, ws, width, used, begun);
    let u = s.take(k as int) + reset();
    let wu = ws.take(k as int) + rest;
    lemma_row_len(s, ws, width, used, begun);
    if k == 0 {
        if at_escape(s) {
            lemma_escape_len(s);
        }
        assert(u =~= reset());
        lemma_reset_columns(wu);
        assert(s.skip(0) =~= s);
    } else {
        let n = token_len(s);
        let w = if at_escape(s) {
            0
        } else {
            ws[0]
        };
        if at_escape(s) {
            lemma_escape_len(s);
        }
        let next = s.skip(n as int);
        let nws = ws.skip(n as int);
        lemma_row_len(next, nws, width, used + w, true);
        assert(n <= k);
        assert(u.take(k as int) =~= s.take(k as int));
        lemma_token_agrees(s, u, k);
        assert(u[0] == s[0]);
        assert(wu[0] == ws[0]);
        assert(u.skip(n as int) =~= next.take(k - n) + reset());
        assert(wu.skip(n as int) =~= nws.take(k - n) + rest);
        lemma_row_is_full(next, nws, width, used + w, true, rest);
        assert(columns(u, wu) == w + columns(u.skip(n as int), wu.skip(n as int)));
        assert(next.skip(k - n) =~= s.skip(k as int));
        assert(nws[k - n] == ws[k as int]);
    }
}

/// A row is broken only where it is full: what begins the next row is a character,
/// and that would not have fitted any more.
pub proof fn law_rows_are_full(s: Seq<char>, width: nat, i: int)
    requires
        width > 0,
        0 <= i < wrapped(s, width).len() - 1,
    ensures
        ({
            let row = wrapped(s, width)[i];
            let next = wrapped(s, width)[i + 1];
            &&& next.len() > 0
            &&& next[0] != ESC || next.len() == 1
            &&& columns(row, widths_of(row)) + columns_of(next[0]) > width
        }),
    decreases s.len(),
{
    let ws = widths_of(s);
    let k = row_len(s, ws, width, 0, false);
    lemma_row_len(s, ws, width, 0, false);
    assert(k < s.len());
    let tail = s.skip(k as int);
    assert(ws.skip(k as int) =~= widths_of(tail));
    let after = rows(tail, widths_of(tail), width);
    assert(wrapped(s, width)[i + 1] == after[i]);
    if i == 0 {
        let row = s.take(k as int) + reset();
        assert(wrapped(s, width)[0] == row);
        assert(widths_of(row) =~= ws.take(k as int) + widths_of(reset()));
        lemma_row_is_full(s, ws, width, 0, false, widths_of(reset()));
        lemma_row_len(tail, widths_of(tail), width, 0, false);
        assert(after[0][0] == tail[0]);
        assert(tail[0] == s[k as int]);
    } else {
        assert(wrapped(s, width)[i] == after[i - 1]);
        law_rows_are_full(tail, width, i - 1);
    }
}

/// A text that fits is one row, as it is, and so is every text where there are no
/// columns.
pub proof fn law_what_fits_is_one_row(s: Seq<char>, width: nat)
    requires
        s.len() > 0,
        width == 0 || columns(s, widths_of(s)) <= width,
    ensures
        wrapped(s, width) == seq![s],
{
    if width > 0 {
        lemma_fitting_row(s, widths_of(s), width, 0, false);
    }
}

proof fn lemma_fitting_row(s: Seq<char>, ws: Seq<nat>, width: nat, used: nat, begun: bool)
    requires
        used + columns(s, ws) <= width,
    ensures
        row_len(s, ws, width, used, begun) == s.len(),
    decreases s.len(),
{
    if s.len() > 0 {
        if at_escape(s) {
            lemma_escape_len(s);
            let n = escape_len(s) as int;
            lemma_fitting_row(s.skip(n), ws.skip(n), width, used, true);
        } else {
            lemma_fitting_row(s.skip(1), ws.skip(1), width, used + ws[0], true);
        }
    }
}

/// A plain character takes its own columns, and an escape sequence takes none.
pub proof fn law_columns_add_up(c: char, s: Seq<char>)
    requires
        c != ESC,
    ensures
        columns(seq![c] + s, widths_of(seq![c] + s)) == columns_of(c) + columns(s, widths_of(s)),
        columns(seq![ESC, '[', c] + s, widths_of(seq![ESC, '[', c] + s)) == columns(
            s,
            widths_of(s),
        ) || !(0x40 <= c as u32 <= 0x7e),
{
    let t = seq![c] + s;
    assert(t.skip(1) =~= s);
    assert(widths_of(t).skip(1) =~= widths_of(s));
    if 0x40 <= c as u32 <= 0x7e {
        let u = seq![ESC, '[', c] + s;
        assert(u.skip(2) =~= seq![] + seq![] + t);
        lemma_csi_parts(seq![], seq![], t);
        assert(escape_len(u) == 3);
        assert(u.skip(3) =~= s);
        assert(widths_of(u).skip(3) =~= widths_of(s));
    }
}

/// A byte that does not begin a longer sequence stands for itself.
pub proof fn law_other_bytes_count_one(first: u8)
    ensures
        sequence_len(first) == 1 <==> first < 0xc0,
        1 <= sequence_len(first) <= 4,
{
}

/// In a line the cell comes first, and blanks fill its column, so that the
/// separators of all names stand below each other as long as the names fit. The
/// text comes last, as it is.
pub proof fn law_lines_line_up(
    cell: Seq<char>,
    len: nat,
    width: nat,
    sep: Seq<char>,
    text: Seq<char>,
)
    ensures
        ({
            let line = line_of(cell, len, width, sep, text);
            let gap = if len < width {
                width - len
            } else {
                0
            };
            let bar = cell.len() + gap + 1;
            let start = bar + sep.len() + 1;
            &&& line.len() == start + text.len()
            &&& line.take(cell.len() as int) == cell
            &&& forall|i: int| cell.len() <= i < bar ==> #[trigger] line[i] == ' '
            &&& line.subrange(bar, bar + sep.len()) == sep
            &&& line[start - 1] == ' '
            &&& line.skip(start) == text
            &&& cell.len() == len && len <= width ==> bar == width + 1
        }),
{
    let line = line_of(cell, len, width, sep, text);
    let gap = missing(width, len);
    let bar = (cell.len() + gap + 1) as int;
    let start = (bar + sep.len() + 1) as int;
    assert(line.take(cell.len() as int) =~= cell);
    assert(line.subrange(bar, bar + sep.len()) =~= sep);
    assert(line.skip(start) =~= text);
}

/// Lines are wrapped on a terminal that leaves more than ten columns behind the
/// name column and the separator, to just the columns that it leaves.
pub proof fn law_content_fills_terminal(w: usize, max_name_len: nat)
    ensures
        content_width(None, max_name_len) is None,
        content_width(Some(w), max_name_len) is Some <==> w > max_name_len + 3 + 10,
        content_width(Some(w), max_name_len) matches Some(c) ==> max_name_len + 3 + c == w,
{
}

/// A line that is not wrapped stands behind its name in one row. A wrapped one has
/// a row for each part, the first behind the name and the others behind blanks, with
/// the separator in the same column.
pub proof fn law_rows_stand_behind_name(
    cell: Seq<char>,
    len: nat,
    max_name_len: nat,
    sep: Seq<char>,
    line: Seq<char>,
    term_w: Option<usize>,
    i: int,
)
    requires
        content_width(term_w, max_name_len) is Some,
        0 <= i < rows_behind(cell, len, max_name_len, sep, line, term_w).len(),
    ensures
        ({
            let w = content_width(term_w, max_name_len)->0;
            let all = rows_behind(cell, len, max_name_len, sep, line, term_w);
            let text = seq![' '] + sep + seq![' '] + wrapped(line, w)[i];
            &&& all.len() == wrapped(line, w).len()
            &&& i == 0 ==> all[i] == cell + repeated(' ', missing(max_name_len, len)) + text
            &&& i > 0 ==> all[i] == repeated(' ', max_name_len) + text
        }),
{
    let w = content_width(term_w, max_name_len)->0;
    let all = rows_behind(cell, len, max_name_len, sep, line, term_w);
    let text = seq![' '] + sep + seq![' '] + wrapped(line, w)[i];
    if i == 0 {
        assert(all[i] =~= cell + repeated(' ', missing(max_name_len, len)) + text);
    } else {
        assert(all[i] =~= repeated(' ', max_name_len) + text);
    }
}

/// Without a width to wrap to, a line is one row.
pub proof fn law_unwrapped_line_is_one_row(
    cell: Seq<char>,
    len: nat,
    max_name_len: nat,
    sep: Seq<char>,
    line: Seq<char>,
    term_w: Option<usize>,
)
    requires
        content_width(term_w, max_name_len) is None,
    ensures
        rows_behind(cell, len, max_name_len, sep, line, term_w) == seq![
            line_of(cell, len, max_name_len, sep, line),
        ],
{
}

/// A line of a log file holds the time, the name and the text as they are, in this
/// order, is marked if and only if it came from the error stream, and ends with a
/// line feed.
pub proof fn law_log_line_keeps_its_parts(
    timestamp: Seq<char>,
    is_error: bool,
    name: Seq<char>,
    text: Seq<char>,
)
    ensures
        ({
            let line = log_text(timestamp, is_error, name, text);
            let mark = if is_error {
                " [STDERR]"@
            } else {
                Seq::<char>::empty()
            };
            line == seq!['['] + timestamp + seq![']'] + mark + seq![' ', '['] + name + seq![']', ' ']
                + text + seq!['\n']
        }),
{
    reveal_strlit("[");
    reveal_strlit("] [STDERR] [");
    reveal_strlit("] [");
    reveal_strlit("] ");
    reveal_strlit("\n");
    reveal_strlit(" [STDERR]");
    let mark = if is_error {
        " [STDERR]"@
    } else {
        Seq::<char>::empty()
    };
    let middle = if is_error {
        "] [STDERR] ["@
    } else {
        "] ["@
    };
    assert(middle =~= seq![']'] + mark + seq![' ', '[']);
    assert("["@ =~= seq!['[']);
    assert("] "@ =~= seq![']', ' ']);
    assert("\n"@ =~= seq!['\n']);
    assert(log_text(timestamp, is_error, name, text) =~= seq!['['] + timestamp + seq![']'] + mark
        + seq![' ', '['] + name + seq![']', ' '] + text + seq!['\n']);
}

/// The separator is red before errors and in the colour of the process before
/// anything else.
pub proof fn law_separator_marks_errors(process_color: Color)
    ensures
        sep_color_of(process_color, true) == Color::Red,
        sep_color_of(process_color, false) == process_color,
{
}

/// Whatever the terminal makes of the style, painted text reads as the text itself.
pub proof fn law_paint_shows_text(r: Seq<char>, text: Seq<char>, color: Color)
    requires
        paint_of(r, text, foreground(color)) || paint_of(r, text, dimmed_in(color)),
        !text.contains(ESC),
    ensures
        stripped(r) == text,
{
    let nothing = Seq::<char>::empty();
    lemma_codes(color);
    assert(r + nothing =~= r);
    assert(text + stripped(nothing) =~= text);
    lemma_strip_shown(text, foreground(color), true, nothing);
    lemma_strip_shown(text, foreground(color), false, nothing);
    lemma_strip_shown(text, dimmed_in(color), true, nothing);
    lemma_strip_shown(text, dimmed_in(color), false, nothing);
}

/// Whatever the colours, a line of a process that is not wrapped reads as the name,
/// blanks up to the width of the name column, the separator, and the line.
pub proof fn law_prefixed_line_reads_as_written(
    r: Seq<Seq<char>>,
    name: Seq<char>,
    max_name_len: nat,
    process_color: Color,
    sep_color: Color,
    line: Seq<char>,
    term_w: Option<usize>,
)
    requires
        prefixed(r, name, max_name_len, process_color, sep_color, line, term_w),
        content_width(term_w, max_name_len) is None,
        !name.contains(ESC),
        !line.contains(ESC),
    ensures
        r.len() == 1,
        stripped(r[0]) == name + repeated(' ', missing(max_name_len, byte_len(name))) + " │ "@
            + line,
{
    let (cell, sep) = choose|cell: Seq<char>, sep: Seq<char>|
        #![trigger rows_behind(cell, byte_len(name), max_name_len, sep, line, term_w)]
        {
            &&& paint_of(cell, name, foreground(process_color))
            &&& paint_of(sep, bar(), dimmed_in(sep_color))
            &&& r == rows_behind(cell, byte_len(name), max_name_len, sep, line, term_w)
        };
    let blanks = repeated(' ', missing(max_name_len, byte_len(name)));
    assert(r[0] == cell + blanks + seq![' '] + sep + seq![' '] + line);
    lemma_prefixed_text(cell, name, process_color, blanks, sep, sep_color, line);
    lemma_separator_text(name + blanks, line);
}

proof fn lemma_separator_text(before: Seq<char>, line: Seq<char>)
    ensures
        before + seq![' '] + bar() + seq![' '] + line == before + " │ "@ + line,
{
    reveal_strlit("│");
    reveal_strlit(" │ ");
    assert(seq![' '] + bar() + seq![' '] =~= " │ "@);
    assert(before + seq![' '] + bar() + seq![' '] =~= before + (seq![' '] + bar() + seq![' ']));
}

proof fn lemma_prefixed_text(
    cell: Seq<char>,
    name: Seq<char>,
    color: Color,
    blanks: Seq<char>,
    sep: Seq<char>,
    sep_color: Color,
    line: Seq<char>,
)
    requires
        paint_of(cell, name, foreground(color)),
        paint_of(sep, bar(), dimmed_in(sep_color)),
        !name.contains(ESC),
        !line.contains(ESC),
        forall|i: int| 0 <= i < blanks.len() ==> #[trigger] blanks[i] == ' ',
    ensures
        stripped(cell + blanks + seq![' '] + sep + seq![' '] + line) == name + blanks + seq![' ']
            + bar() + seq![' '] + line,
{
    let f = foreground(color);
    let d = dimmed_in(sep_color);
    let cell_on = cell == shown(name, f, true);
    let sep_on = sep == shown(bar(), d, true);
    let gap = blanks + seq![' '];
    assert(!bar().contains(ESC)) by {
        reveal_strlit("│");
    }
    assert(!gap.contains(ESC));
    lemma_codes(color);
    lemma_codes(sep_color);
    lemma_strip_shown(name, f, cell_on, gap + (sep + (seq![' '] + line)));
    lemma_strip_shown(bar(), d, sep_on, seq![' '] + line);
    law_strip_keeps_plain_text(line);
    lemma_line_text(cell, name, blanks, sep, bar(), line, line);
}

/// A control character takes no columns, and every other character those that it has.
pub proof fn law_control_characters_take_no_columns(c: char)
    ensures
        char_columns(c) is None ==> columns_of(c) == 0,
        char_columns(c) matches Some(w) ==> columns_of(c) == w,
        knows_widths(seq![c]) && (c as u32) < 0x20 ==> columns_of(c) == 0,
        knows_widths(seq![c]) && 0x20 <= c as u32 && (c as u32) < 0x7f ==> columns_of(c) == 1,
{
    assert(seq![c][0] == c);
}

/// From the start of a character the next boundary is where it ends, in every text.
pub proof fn law_boundaries_part_characters(a: Seq<char>, c: char, b: Seq<char>)
    ensures
        boundary_after(encode_utf8(a + seq![c] + b), byte_len(a)) == byte_len(a + seq![c]),
{
    let all = a + seq![c] + b;
    lemma_encoded_in_parts(a + seq![c], b);
    lemma_encoded_in_parts(a, seq![c]);
    assert(seq![c].drop_first() =~= seq![]);
    let one = encode_scalar(c as u32);
    assert(encode_utf8(Seq::<char>::empty()) =~= seq![]);
    assert(encode_utf8(seq![c]) =~= one);
    law_first_byte_tells_length(c);
    let n = byte_len(a) as int;
    assert(encode_utf8(all)[n] == encode_utf8(a + seq![c])[n]);
    assert(encode_utf8(a + seq![c])[n] == one[0]);
}

proof fn lemma_encoded_in_parts(a: Seq<char>, b: Seq<char>)
    ensures
        encode_utf8(a + b) == encode_utf8(a) + encode_utf8(b),
    decreases a.len(),
{
    let s = a + b;
    if a.len() == 0 {
        assert(s =~= b);
        assert(encode_utf8(a) =~= seq![]);
        assert(encode_utf8(a) + encode_utf8(b) =~= encode_utf8(b));
    } else {
        lemma_encoded_in_parts(a.drop_first(), b);
        assert(s.drop_first() =~= a.drop_first() + b);
        assert(s[0] == a[0]);
        assert(encode_utf8(s) =~= encode_utf8(a) + encode_utf8(b));
    }
}

/// Nothing that a process writes is lost but white space at the end of a line: where
/// there is more, it goes to the screen, or to the terminal and to the log file if there
/// is one. The log file gets it under the name of the process and without escape
/// sequences.
pub proof fn law_lines_reach_their_sink(
    r: LineAction,
    name: Seq<char>,
    text: Seq<char>,
    blanks: Seq<char>,
    is_error: bool,
    sink: Sink,
    max_name_len: nat,
    process_color: Color,
    timestamp: Seq<char>,
)
    requires
        handles_line(
            r,
            name,
            text + blanks,
            is_error,
            sink,
            max_name_len,
            process_color,
            timestamp,
        ),
        forall|i: int| 0 <= i < blanks.len() ==> is_white(#[trigger] blanks[i]),
        text.len() > 0 && !is_white(text.last()),
    ensures
        sink is Screen ==> (r matches LineAction::AddLog(shown) && shown@ == text),
        sink is Terminal ==> (r matches LineAction::Print { rows, log_line } && {
            &&& prefixed(
                texts(rows@),
                name,
                max_name_len,
                process_color,
                if is_error {
                    Color::Red
                } else {
                    process_color
                },
                text,
                sink->width,
            )
            &&& !sink->log_file ==> log_line is None
            &&& sink->log_file ==> (log_line matches Some(line) && line@ == log_text(
                timestamp,
                is_error,
                name,
                stripped(text),
            ))
        }),
{
    let s = text + blanks;
    law_trim_end_cuts_white_space(s);
    let n = trim_end(s).len() as int;
    let k = text.len() as int;
    assert(s[k - 1] == text.last());
    assert(n >= k);
    if n > k {
        assert(trim_end(s).last() == s[n - 1]);
        assert(s[n - 1] == blanks[n - 1 - k]);
    }
    assert(trim_end(s) =~= text);
}

} // verus!
