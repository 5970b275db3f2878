//! What can be relied on at the screen: what keys do, which part of the log is shown,
//! and in which colours.

use vstd::prelude::*;
use crate::color::{color_of_index, Color};
use crate::constants::NANOS_PER_SEC;
use crate::name_map::NameMap;
use crate::screen::{
    cursor_column, frame_step, is_span, live_row_of, log_title, painted_palette, panes, quits,
    screen_result, shows_entry, shows_logs, shows_status_line, start_index, start_text,
    status_color, status_height, synced_logs, synced_offset, synced_palette, syncs, visible_lines,
    FrameStep, LogView, Pane, QuitPhase, QuitStep, ScreenEnd, StyledSpan,
};
use crate::status::{restart_text, runtime_text};
use crate::text::{
    byte_len, decimal, holds_text, index_at, missing, pad_left, parts, repeated, texts, trimmed,
};
use crate::text_laws::{
    law_bytes_add_up, law_held_text_is_in_between, law_index_counts_characters,
    law_parts_are_between_separators,
};
use crate::types::{ProcessError, ProcessInfo, ProcessStatus};
use crate::ui::{
    char_effect, down_effect, enter_effect, inserted, is_system_entry, keeps, key_effect,
    max_scroll, newest, scrolled_down, scrolled_up, ui_color, up_effect, wanted_colors,
    without_char, Key, KeyOutcome, LogEntry, Palette, UICommand, UIState, UiColor, FRAME_PAUSE,
    PAGE_LINES, QUIT_FRAME_PAUSE, QUIT_TIMEOUT, SCROLL_MARGIN, STATUS_REFRESH, UI_COLORS,
    WHEEL_LINES,
};

verus! {

/// The newest entries are the last ones, in their order, and all there are where that
/// is no more than wanted.
pub proof fn law_newest_are_the_last(s: Seq<LogEntry>, n: nat)
    ensures
        s.len() <= n ==> newest(s, n) == s,
        s.len() > n ==> newest(s, n).len() == n,
        forall|i: int|
            0 <= i < newest(s, n).len() ==> #[trigger] newest(s, n)[i] == s[s.len() - newest(
                s,
                n,
            ).len() + i],
{
}

/// An entry is added at the end of the log. A log of a thousand entries loses the
/// oldest one for it, and a shorter one loses nothing.
pub proof fn law_log_keeps_the_newest(
    before: Seq<LogEntry>,
    after: Seq<LogEntry>,
    entry: LogEntry,
)
    requires
        keeps(before, after, entry),
    ensures
        after.len() > 0 && after.last() == entry,
        before.len() < 1000 ==> after.len() == before.len() + 1 && after.drop_last() == before,
        before.len() >= 1000 ==> after.len() == before.len() && after.drop_last() == before.skip(1),
{
    if before.len() < 1000 {
        assert(after.drop_last() =~= before);
    } else {
        assert(after.drop_last() =~= before.skip(1));
    }
}

/// A message of gaffa itself is kept under its name, as it is, and is no error.
pub proof fn law_system_entry_is_from_gaffa(entry: LogEntry, content: String, now: u128)
    ensures
        is_system_entry(entry, content, now) <==> entry.process@ == "gaffa"@ && entry.content
            == content && entry.timestamp == now && !entry.is_error,
{
}

/// The screen tells apart the colours that processes get, and has white for every
/// other.
pub proof fn law_screen_tells_colors_apart(i: nat, j: nat)
    ensures
        i < j < i + 7 ==> ui_color(color_of_index(i)) != ui_color(color_of_index(j)),
        ui_color(color_of_index(i)) != UiColor::White,
        ui_color(color_of_index(i)) != UiColor::Magenta,
        ui_color(color_of_index(i)) == UI_COLORS@[i as int % 7],
        ui_color(Color::Red) == UiColor::White && ui_color(Color::Magenta) == UiColor::White,
        ui_color(Color::White) == UiColor::White && ui_color(Color::BrightBlack) == UiColor::White,
{
}

/// A process has the colour that it has elsewhere. One that has none elsewhere keeps the
/// one that it has here, and a new one gets the next colour of the palette. No other
/// process changes its colour.
pub proof fn law_palette_gives_colors_in_turn(
    palette: Palette,
    process: Seq<char>,
    color: Color,
    other: Seq<char>,
)
    requires
        process != "gaffa"@,
        other != process,
    ensures
        palette.with(process, Some(color)).colors[process] == ui_color(color),
        palette.colors.contains_key(process) ==> palette.with(process, None) == palette,
        !palette.colors.contains_key(process) ==> palette.with(process, None).colors[process]
            == ui_color(color_of_index(palette.names.len())),
        !palette.colors.contains_key(process) ==> palette.with(process, None).names
            == palette.names.push(process),
        palette.with(process, Some(color)).colors.contains_key(other)
            == palette.colors.contains_key(other),
        palette.with(process, None).colors.contains_key(other) == palette.colors.contains_key(
            other,
        ),
        palette.colors.contains_key(other) ==> palette.with(process, Some(color)).colors[other]
            == palette.colors[other] && palette.with(process, None).colors[other]
            == palette.colors[other],
        palette.with("gaffa"@, Some(color)) == palette,
{
    law_screen_tells_colors_apart(palette.names.len(), 0);
}

/// The entries of a log get their colours one after the other, each by its process.
pub proof fn law_log_is_colored_by_process(
    palette: Palette,
    logs: Seq<LogEntry>,
    entry: LogEntry,
    manager: Map<Seq<char>, Color>,
)
    ensures
        palette.with_all(wanted_colors(Seq::<LogEntry>::empty(), manager)) == palette,
        ({
            let before = palette.with_all(wanted_colors(logs, manager));
            let after = palette.with_all(wanted_colors(logs.push(entry), manager));
            &&& manager.contains_key(entry.process@) ==> after == before.with(
                entry.process@,
                Some(manager[entry.process@]),
            )
            &&& !manager.contains_key(entry.process@) ==> after == before.with(
                entry.process@,
                None,
            )
        }),
{
    let all = wanted_colors(logs.push(entry), manager);
    assert(all.drop_last() =~= wanted_colors(logs, manager));
}

/// Scrolling up goes back by so many lines, as far as five lines stay in view, and
/// scrolling down comes forward by so many, to the end.
pub proof fn law_scrolling_counts_lines(offset: nat, lines: nat, len: nat)
    ensures
        len >= 5 ==> max_scroll(len) + 5 == len,
        len < 5 ==> max_scroll(len) == 0,
        offset + lines + 5 <= len ==> scrolled_up(offset, lines, len) == offset + lines,
        offset + lines + 5 > len && len >= 5 ==> scrolled_up(offset, lines, len) == len - 5,
        lines <= offset ==> scrolled_down(offset, lines) + lines == offset,
        lines >= offset ==> scrolled_down(offset, lines) == 0,
{
}

/// Text goes in where the cursor is, and a character is taken out there. What stands
/// before and behind stays.
pub proof fn law_editing_keeps_the_rest(
    a: Seq<char>,
    b: Seq<char>,
    text: Seq<char>,
    c: char,
)
    ensures
        inserted(a + b, byte_len(a), text) == a + text + b,
        without_char(a + (seq![c] + b), byte_len(a)) == a + b,
{
    law_index_counts_characters(a, b);
    let s = a + b;
    assert(s.take(a.len() as int) =~= a);
    assert(s.skip(a.len() as int) =~= b);
    law_index_counts_characters(a, seq![c] + b);
    let t = a + (seq![c] + b);
    assert(t.take(a.len() as int) =~= a);
    assert(t.skip(a.len() as int + 1) =~= b);
}

/// A character that is typed goes in at the cursor, which moves on behind it. It goes
/// nowhere else, except for `t` on an empty line, which shows or hides the status.
pub proof fn law_typing_goes_in_at_cursor(
    before: UIState,
    after: UIState,
    a: Seq<char>,
    b: Seq<char>,
    c: char,
    clipboard: Option<String>,
    r: KeyOutcome,
)
    requires
        char_effect(before, after, c, false, clipboard, r),
        before.input@ == a + b,
        before.cursor_position == byte_len(a),
    ensures
        r.redraw && r.command is None,
        before.input@.len() > 0 || c != 't' ==> {
            &&& after.input@ == a + seq![c] + b
            &&& after.cursor_position == byte_len(a) + 1
            &&& after.show_status == before.show_status
        },
        before.input@.len() == 0 && c == 't' ==> {
            &&& after.input == before.input
            &&& after.cursor_position == before.cursor_position
            &&& after.show_status == !before.show_status
        },
        after.should_quit == before.should_quit,
        after.command_history == before.command_history,
        after.logs == before.logs,
{
    law_editing_keeps_the_rest(a, b, seq![c], c);
}

/// Pasting puts the whole text of the clipboard in at the cursor, and moves it behind
/// the text.
pub proof fn law_pasting_goes_in_at_cursor(
    before: UIState,
    after: UIState,
    a: Seq<char>,
    b: Seq<char>,
    text: String,
    r: KeyOutcome,
)
    requires
        char_effect(before, after, 'v', true, Some(text), r),
        before.input@ == a + b,
        before.cursor_position == byte_len(a),
    ensures
        after.input@ == a + text@ + b,
        after.cursor_position == byte_len(a) + byte_len(text@),
        r.redraw && r.command is None,
{
    law_editing_keeps_the_rest(a, b, text@, 'v');
}

/// Ctrl+C leaves the screen and changes nothing else.
pub proof fn law_interrupt_key_leaves(
    before: UIState,
    after: UIState,
    clipboard: Option<String>,
    r: KeyOutcome,
)
    requires
        key_effect(before, after, Key::Char('c'), true, clipboard, r),
    ensures
        after == (UIState { should_quit: true, ..before }),
        r.command == Some(UICommand::Quit),
{
}

/// The line that is entered is handed on as it is, white space around it aside, and is
/// kept as the last line of the history. The input is empty then. `q` and `quit`, and
/// they alone, leave the screen, and a blank line does nothing.
pub proof fn law_enter_hands_the_line_on(before: UIState, after: UIState, r: KeyOutcome)
    requires
        enter_effect(before, after, r),
    ensures
        ({
            let line = trimmed(before.input@);
            let leaves = line == "q"@ || line == "quit"@;
            &&& line.len() == 0 ==> after == before && r.command is None && !r.redraw
            &&& line.len() > 0 ==> {
                &&& texts(after.command_history@) == texts(before.command_history@).push(line)
                &&& after.input@.len() == 0 && after.cursor_position == 0
                &&& after.history_index is None
                &&& after.should_quit == (before.should_quit || leaves)
                &&& leaves ==> r.command == Some(UICommand::Quit)
                &&& !leaves ==> (r.command matches Some(UICommand::ExecuteCommand(c)) && c@ == line)
                &&& r.redraw
                &&& after.logs == before.logs
                &&& after.log_scroll_offset == before.log_scroll_offset
            }
        }),
{
}

/// The history goes back one line with each Up and forward one line with each Down: Down
/// brings back what Up left. Down behind the last line empties the input.
pub proof fn law_down_undoes_up(
    before: UIState,
    back: UIState,
    after: UIState,
    up: KeyOutcome,
    down: KeyOutcome,
)
    requires
        before.history_index matches Some(i) && 0 < i < before.command_history@.len(),
        up_effect(before, back, up),
        down_effect(back, after, down),
    ensures
        ({
            let i = before.history_index->0;
            &&& back.history_index == Some((i - 1) as usize)
            &&& back.input@ == before.command_history@[i - 1]@
            &&& after.history_index == before.history_index
            &&& after.input@ == before.command_history@[i as int]@
            &&& after.command_history == before.command_history
        }),
{
    assert(texts(before.command_history@).len() == before.command_history@.len());
}

/// Down at the last line of the history leaves it with an empty line, and Up at the first
/// line stays there.
pub proof fn law_history_has_ends(before: UIState, after: UIState, r: KeyOutcome)
    requires
        before.command_history@.len() > 0,
    ensures
        before.history_index == Some((before.command_history@.len() - 1) as usize) && down_effect(
            before,
            after,
            r,
        ) && before.command_history@.len() <= usize::MAX ==> after.history_index is None
            && after.input@.len() == 0 && after.cursor_position == 0,
        before.history_index == Some(0usize) && up_effect(before, after, r) ==> after == before,
        before.history_index is None && down_effect(before, after, r) ==> after == before,
        before.history_index is None && up_effect(before, after, r)
            && before.command_history@.len() <= usize::MAX ==> after.input@
            == before.command_history@.last()@,
{
    assert(texts(before.command_history@).len() == before.command_history@.len());
}

/// The keys that move the cursor move it one byte, to the start or to the end, and
/// change nothing else.
pub proof fn law_cursor_keys_move_the_cursor(
    before: UIState,
    after: UIState,
    key: Key,
    r: KeyOutcome,
)
    requires
        key_effect(before, after, key, false, None, r),
        key == Key::Left || key == Key::Right || key == Key::Home || key == Key::End,
        before.cursor_position <= byte_len(before.input@) <= usize::MAX,
    ensures
        after.input@ == before.input@,
        after.logs == before.logs && after.command_history == before.command_history,
        after.log_scroll_offset == before.log_scroll_offset,
        r.command is None,
        key == Key::Left ==> after.cursor_position == if before.cursor_position > 0 {
            before.cursor_position - 1
        } else {
            0
        },
        key == Key::Right ==> after.cursor_position == if before.cursor_position < byte_len(
            before.input@,
        ) {
            before.cursor_position + 1
        } else {
            before.cursor_position as int
        },
        key == Key::Home ==> after.cursor_position == 0,
        key == Key::End ==> after.cursor_position == byte_len(before.input@),
{
}

/// Delete takes out the character at the cursor, and Backspace the one before it.
/// Nothing else of the line changes.
pub proof fn law_deleting_keys_take_out_one(
    before: UIState,
    after: UIState,
    a: Seq<char>,
    c: char,
    b: Seq<char>,
    key: Key,
    r: KeyOutcome,
)
    requires
        key_effect(before, after, key, false, None, r),
        c as u32 <= 0x7f,
        before.input@ == a + (seq![c] + b),
        key == Key::Delete && before.cursor_position == byte_len(a) || key == Key::Backspace
            && before.cursor_position == byte_len(a) + 1,
    ensures
        after.input@ == a + b,
        after.cursor_position == byte_len(a),
        r.redraw && r.command is None,
        after.command_history == before.command_history,
{
    law_editing_keeps_the_rest(a, b, seq![c], c);
    let s = before.input@;
    assert(byte_len(s) > byte_len(a)) by {
        law_bytes_add_up(a, seq![c] + b, c);
        law_bytes_add_up(seq![c], b, c);
    }
}

/// The keys that scroll go by ten lines, to the start or to the end of the log, and
/// leave the input alone.
pub proof fn law_scrolling_keys_scroll(
    before: UIState,
    after: UIState,
    key: Key,
    control: bool,
    r: KeyOutcome,
)
    requires
        key_effect(before, after, key, control, None, r),
        key == Key::PageUp || key == Key::PageDown || control && (key == Key::Home || key
            == Key::End),
    ensures
        after == (UIState { log_scroll_offset: after.log_scroll_offset, ..before }),
        r.redraw && r.command is None,
        key == Key::PageUp ==> after.log_scroll_offset == scrolled_up(
            before.log_scroll_offset as nat,
            10,
            before.logs@.len(),
        ),
        key == Key::PageDown ==> after.log_scroll_offset == scrolled_down(
            before.log_scroll_offset as nat,
            10,
        ),
        key == Key::Home ==> after.log_scroll_offset == max_scroll(before.logs@.len()),
        key == Key::End ==> after.log_scroll_offset == 0,
{
}

/// No key changes what the log holds, the status or the colours.
pub proof fn law_keys_leave_the_log(
    before: UIState,
    after: UIState,
    key: Key,
    control: bool,
    clipboard: Option<String>,
    r: KeyOutcome,
)
    requires
        key_effect(before, after, key, control, clipboard, r),
    ensures
        after.logs == before.logs,
        after.process_status == before.process_status,
        after.process_colors == before.process_colors,
        after.last_log_count == before.last_log_count,
        r.command is Some ==> key == Key::Enter || key == Key::Char('c') && control,
{
}

/// New entries come behind those on the screen, all of them and in order. Where that
/// makes more than ten thousand, the oldest go.
pub proof fn law_sync_adds_what_is_new(logs: Seq<LogEntry>, shared: Seq<LogEntry>, seen: nat)
    ensures
        shared.len() <= seen ==> synced_logs(logs, shared, seen) == logs,
        seen < shared.len() && logs.len() == 0 ==> synced_logs(logs, shared, seen) == shared,
        seen < shared.len() && logs.len() > 0 && logs.len() + shared.len() - seen <= 10000
            ==> synced_logs(logs, shared, seen) == logs + shared.skip(seen as int),
        seen < shared.len() && logs.len() > 0 && logs.len() + shared.len() - seen > 10000
            ==> synced_logs(logs, shared, seen).len() == 10000 && synced_logs(
            logs,
            shared,
            seen,
        ).is_suffix_of(logs + shared.skip(seen as int)),
{
    let all = logs + shared.skip(seen as int);
    if seen < shared.len() && logs.len() > 0 && all.len() > 10000 {
        let r = synced_logs(logs, shared, seen);
        assert(all.subrange(all.len() - r.len(), all.len() as int) =~= r);
    }
}

/// A view that is scrolled back by five lines or more stays where it is when entries
/// come. One that is not follows them.
pub proof fn law_view_stays_or_follows(offset: nat, seen: nat, count: nat)
    ensures
        count <= seen ==> synced_offset(offset, seen, count) == offset,
        seen < count && offset >= 5 ==> synced_offset(offset, seen, count) == offset + count - seen,
        seen < count && offset < 5 ==> synced_offset(offset, seen, count) == 0,
{
}

/// A synced screen has seen all entries, and its input is as it was.
pub proof fn law_sync_leaves_the_input(
    before: UIState,
    after: UIState,
    shared: Seq<LogEntry>,
    colors: Option<NameMap<Color>>,
)
    requires
        syncs(before, after, shared, colors),
        shared.len() <= usize::MAX,
    ensures
        after.last_log_count == shared.len(),
        after.input == before.input && after.cursor_position == before.cursor_position,
        after.command_history == before.command_history && after.history_index
            == before.history_index,
        after.should_quit == before.should_quit && after.show_status == before.show_status,
        after.process_status == before.process_status,
        shared.len() == before.last_log_count ==> after == before,
        shared.len() != before.last_log_count ==> {
            &&& after.logs@ == synced_logs(before.logs@, shared, before.last_log_count as nat)
            &&& after.log_scroll_offset == synced_offset(
                before.log_scroll_offset as nat,
                before.last_log_count as nat,
                shared.len(),
            )
            &&& after.palette() == synced_palette(before.palette(), after.logs@, colors)
        },
{
}

/// The log shows the lines up to as many before the end as it is scrolled back, and as
/// many as fit between its borders.
pub proof fn law_view_ends_before_the_end(total: nat, height: u16, offset: nat)
    ensures
        height >= 2 ==> visible_lines(height) + 2 == height,
        height < 2 ==> visible_lines(height) == 0,
        offset + visible_lines(height) <= total ==> start_index(
            total,
            visible_lines(height),
            offset,
        ) + visible_lines(height) + offset == total,
        offset + visible_lines(height) > total ==> start_index(
            total,
            visible_lines(height),
            offset,
        ) == 0,
{
}

/// The title of a scrolled log tells the first and the last line that it shows and how
/// many there are, so that the lines from the first to the last are as many as it shows.
/// The title of another log tells how many there are.
pub proof fn law_title_tells_what_is_shown(
    view: LogView,
    logs: Seq<LogEntry>,
    palette: Palette,
    height: u16,
    offset: nat,
)
    requires
        shows_logs(view, logs, palette, height, offset),
    ensures
        offset == 0 ==> view.title@ == "Output ("@ + decimal(logs.len()) + " lines)"@,
        offset > 0 ==> exists|first: nat, last: nat|
            #![trigger decimal(first), decimal(last)]
            {
                &&& view.title@ == "Output (showing "@ + decimal(first) + "-"@ + decimal(last)
                    + " of "@ + decimal(logs.len()) + " lines) [Scrolled]"@
                &&& last + 1 - first == view.lines@.len()
                &&& last <= logs.len()
                &&& view.lines@.len() > 0 ==> shows_entry(
                    view.lines@[0]@,
                    logs[first - 1],
                    palette,
                ) && shows_entry(view.lines@.last()@, logs[last - 1], palette)
            },
{
    let visible = visible_lines(height);
    let start = start_index(logs.len(), visible, offset);
    let first = start + 1;
    let last = if start + visible <= logs.len() {
        start + visible
    } else {
        logs.len()
    };
    if offset > 0 {
        assert(view.title@ == "Output (showing "@ + decimal(first) + "-"@ + decimal(last) + " of "@
            + decimal(logs.len()) + " lines) [Scrolled]"@);
        if view.lines@.len() > 0 {
            assert(shows_entry(view.lines@[0]@, logs[start as int], palette));
            let i = view.lines@.len() - 1;
            assert(shows_entry(view.lines@[i]@, logs[start + i], palette));
        }
    }
}

/// The text of a line as it reads, whatever its colours.
pub open spec fn read_line(line: Seq<StyledSpan>) -> Seq<char>
    decreases line.len(),
{
    if line.len() == 0 {
        seq![]
    } else {
        read_line(line.drop_last()) + line.last().text@
    }
}

/// A line of the log reads as the name, at the right end of its column, and the text as
/// it is. The name has the colour of its process, and a line of gaffa is all magenta.
pub proof fn law_log_line_reads_as_its_entry(
    line: Seq<StyledSpan>,
    entry: LogEntry,
    palette: Palette,
)
    requires
        shows_entry(line, entry, palette),
    ensures
        read_line(line) == repeated(' ', missing(12, entry.process@.len())) + entry.process@
            + " | "@ + entry.content@,
        entry.process@ == "gaffa"@ ==> line.len() == 1 && line[0].color == Some(UiColor::Magenta),
        entry.process@ != "gaffa"@ ==> line[0].color == Some(palette.colors[entry.process@]),
        entry.process@ != "gaffa"@ ==> line.last().color is None,
{
    reveal_with_fuel(read_line, 4);
    assert(read_line(line) =~= repeated(' ', missing(12, entry.process@.len())) + entry.process@
        + " | "@ + entry.content@) by {
        if entry.process@ == "gaffa"@ {
            assert(line.drop_last() =~= seq![]);
        } else {
            assert(line.drop_last().drop_last().drop_last() =~= seq![]);
            assert(line.drop_last().drop_last().last() == line[0]);
            assert(line.drop_last().last() == line[1]);
        }
    }
}

/// A status has its colour wherever its name stands in the text, and a text without one
/// is white.
pub proof fn law_status_has_its_color(a: Seq<char>, b: Seq<char>, other: Seq<char>)
    ensures
        status_color(a + "Running"@ + b) == UiColor::Green,
        !holds_text(a + "Stopped"@ + b, "Running"@) ==> status_color(a + "Stopped"@ + b)
            == UiColor::Yellow,
        !holds_text(a + "Restarting"@ + b, "Running"@) && !holds_text(
            a + "Restarting"@ + b,
            "Stopped"@,
        ) ==> status_color(a + "Restarting"@ + b) == UiColor::Blue,
        !holds_text(other, "Running"@) && !holds_text(other, "Stopped"@) && !holds_text(
            other,
            "Restarting"@,
        ) ==> status_color(other) == UiColor::White,
{
    law_held_text_is_in_between(a, "Running"@, b);
    law_held_text_is_in_between(a, "Stopped"@, b);
    law_held_text_is_in_between(a, "Restarting"@, b);
}

/// A status line of four columns is shown column by column, without the white space
/// around them: the name in the colour of its process, or cyan, the status in its own,
/// the restarts in white and the running time in magenta. Any other line is shown as
/// it is.
pub proof fn law_status_line_is_shown_by_columns(
    line: Seq<StyledSpan>,
    a: Seq<char>,
    b: Seq<char>,
    c: Seq<char>,
    d: Seq<char>,
    colors: Map<Seq<char>, UiColor>,
)
    requires
        !a.contains('|') && !b.contains('|') && !c.contains('|') && !d.contains('|'),
        shows_status_line(
            line,
            a + seq!['|'] + (b + seq!['|'] + (c + seq!['|'] + d)),
            colors,
        ),
    ensures
        line.len() == 7,
        line[0].text@ == pad_left(trimmed(a), 12),
        line[2].text@ == pad_left(trimmed(b), 12),
        line[4].text@ == pad_left(trimmed(c), 22),
        line[6].text@ == pad_left(trimmed(d), 12),
        line[1].text@ == " | "@ && line[3].text@ == " | "@ && line[5].text@ == " | "@,
        colors.contains_key(trimmed(a)) ==> line[0].color == Some(colors[trimmed(a)]),
        !colors.contains_key(trimmed(a)) ==> line[0].color == Some(UiColor::Cyan),
        line[2].color == Some(status_color(trimmed(b))),
        line[4].color == Some(UiColor::White),
        line[6].color == Some(UiColor::Magenta),
{
    let x = c + seq!['|'] + d;
    let y = b + seq!['|'] + x;
    law_parts_are_between_separators(a, '|', y);
    law_parts_are_between_separators(b, '|', x);
    law_parts_are_between_separators(c, '|', d);
    law_parts_are_between_separators(d, '|', d);
    assert(parts(a + seq!['|'] + y, '|') =~= seq![a, b, c, d]);
}

/// A row of the live status shows the name, the status, the restarts and the running
/// time, in this order.
pub proof fn law_live_row_shows_its_process(name: Seq<char>, info: ProcessInfo, now: u128)
    ensures
        ({
            let title = if info.status == ProcessStatus::Running {
                "Running"@
            } else if info.status == ProcessStatus::Stopped {
                "Stopped"@
            } else {
                "Restarting"@
            };
            let restarts = restart_text(info.restart_count as nat);
            let time = runtime_text(info, now);
            live_row_of(name, info, now) == repeated(' ', missing(12, name.len())) + name + " | "@
                + repeated(' ', missing(12, title.len())) + title + " | "@ + repeated(
                ' ',
                missing(22, restarts.len()),
            ) + restarts + " | "@ + repeated(' ', missing(12, time.len())) + time
        }),
{
    let title = info.status.title();
    let restarts = restart_text(info.restart_count as nat);
    let time = runtime_text(info, now);
    assert(live_row_of(name, info, now) =~= repeated(' ', missing(12, name.len())) + name + " | "@
        + repeated(' ', missing(12, title.len())) + title + " | "@ + repeated(
        ' ',
        missing(22, restarts.len()),
    ) + restarts + " | "@ + repeated(' ', missing(12, time.len())) + time);
}

/// The status has four lines more than it has rows, up to seventeen.
pub proof fn law_status_has_room(lines: nat)
    ensures
        lines <= 13 ==> status_height(lines) == lines + 4,
        lines >= 13 ==> status_height(lines) == 17,
{
}

/// Quitting gives the processes ten seconds, looks every tenth of a second whether all
/// have stopped, and says how it ended. It leaves after the last message was there to
/// be read.
pub proof fn law_quitting_takes_its_course(
    phase: QuitPhase,
    all_stopped: bool,
    now: u128,
    next: QuitPhase,
    step: QuitStep,
)
    requires
        quits(phase, all_stopped, now, next, step),
        now + 10_000_000_000 <= u128::MAX,
    ensures
        phase == QuitPhase::Stopping ==> (next matches QuitPhase::Waiting { deadline } && deadline
            == now + 10_000_000_000 && step.message is None && !step.leave),
        phase matches QuitPhase::Waiting { deadline } ==> {
            &&& all_stopped ==> next == QuitPhase::Telling && (step.message matches Some(m) && m@
                == "All processes stopped. Exiting..."@) && step.pause == 1_000_000_000
            &&& !all_stopped && now > deadline ==> next == QuitPhase::Gone && (step.message
                matches Some(m) && m@
                == "Timeout waiting for processes to stop. Forcing exit..."@) && step.pause
                == 500_000_000
            &&& !all_stopped && now <= deadline ==> next == phase && step.message is None
                && step.pause == 100_000_000
        },
        phase == QuitPhase::Telling ==> next == QuitPhase::Closing && (step.message matches Some(m)
            && m@ == "Shutdown complete."@) && step.pause == 1_500_000_000 && !step.leave,
        phase == QuitPhase::Closing ==> next == QuitPhase::Gone && step.leave,
{
}

/// Every line of a log has a colour once the log is painted, and what had one before
/// still has one.
pub proof fn law_every_line_has_a_color(
    palette: Palette,
    logs: Seq<LogEntry>,
    manager: Map<Seq<char>, Color>,
    i: int,
)
    requires
        0 <= i < logs.len(),
        logs[i].process@ != "gaffa"@,
    ensures
        palette.with_all(wanted_colors(logs, manager)).colors.contains_key(logs[i].process@),
        manager.contains_key(logs[i].process@) ==> palette.with_all(
            wanted_colors(logs, manager),
        ).colors[logs[i].process@] == ui_color(manager[logs[i].process@]),
    decreases logs.len(),
{
    let init = logs.drop_last();
    let last = logs.last();
    law_log_is_colored_by_process(palette, init, last, manager);
    assert(init.push(last) =~= logs);
    if i < init.len() {
        assert(init[i] == logs[i]);
        law_every_line_has_a_color(palette, init, manager, i);
    }
}

/// The log on the screen is painted by the colours of its processes as the manager has
/// them, and without a manager the palette stays.
pub proof fn law_palette_follows_the_manager(
    palette: Palette,
    logs: Seq<LogEntry>,
    colors: NameMap<Color>,
)
    ensures
        synced_palette(palette, logs, None) == palette,
        synced_palette(palette, logs, Some(colors)) == palette.with_all(
            wanted_colors(logs, colors@),
        ),
        painted_palette(palette, logs) == palette.with_all(wanted_colors(logs, Map::empty())),
{
}

/// The screen is drawn at most a hundred times a second, and shows a status that is no
/// older than a tenth of one. The wheel goes by fewer lines than a page has.
pub proof fn law_screen_keeps_up()
    ensures
        100 * FRAME_PAUSE == NANOS_PER_SEC,
        10 * STATUS_REFRESH == NANOS_PER_SEC,
        QUIT_FRAME_PAUSE == 5 * FRAME_PAUSE,
        QUIT_TIMEOUT == 10 * NANOS_PER_SEC,
        PAGE_LINES == 10 && WHEEL_LINES == 8 && SCROLL_MARGIN == 5,
{
}

/// The log is on top, above the input and the help, and the status stands between them if
/// and only if it is in view, with four lines more than its rows.
pub proof fn law_screen_has_its_parts(lines: nat)
    ensures
        panes(false, lines) == seq![
            Pane::Logs { min: 10 },
            Pane::Input { height: 3 },
            Pane::Help { height: 1 },
        ],
        panes(true, lines).len() == 4,
        panes(true, lines)[0] == panes(false, lines)[0],
        panes(true, lines).skip(2) == panes(false, lines).skip(1),
        lines <= 13 ==> panes(true, lines)[1] == (Pane::Status { height: (lines + 4) as u16 }),
        lines > 13 ==> panes(true, lines)[1] == (Pane::Status { height: 17 }),
{
    assert(panes(true, lines).skip(2) =~= panes(false, lines).skip(1));
}

/// The cursor is shown where it is, as far as the screen can tell.
pub proof fn law_cursor_is_shown_where_it_is(cursor: nat)
    ensures
        cursor <= 65535 ==> cursor_column(cursor) == cursor,
        cursor > 65535 ==> cursor_column(cursor) == 0,
{
}

/// The screen leaves if and only if there is a shutdown, and pauses if and only if it was
/// asked to quit.
pub proof fn law_screen_leaves_on_shutdown(fresh: bool, shutdown: bool, quitting: bool)
    ensures
        frame_step(fresh, shutdown, quitting) == FrameStep::Leave <==> shutdown,
        !shutdown ==> (frame_step(fresh, shutdown, quitting) matches FrameStep::Go {
            fresh: f,
            pause,
        } && f == fresh && (quitting ==> pause == 50_000_000) && (!quitting ==> pause == 0)),
{
}

/// What went wrong at the screen is passed on, and nothing else is an error.
pub proof fn law_screen_errors_are_passed_on(result: Result<(), ProcessError>, reason: String)
    ensures
        screen_result(ScreenEnd::Screen(result)) == result,
        screen_result(ScreenEnd::Broken(reason)) == Err::<(), _>(ProcessError::InputRead(reason)),
        screen_result(ScreenEnd::Commands) is Ok,
        screen_result(ScreenEnd::Interrupted) is Ok,
{
}

/// The message about a start names the process, and tells the error of one that failed.
pub proof fn law_start_message_tells_the_error(name: Seq<char>, error: ProcessError)
    ensures
        start_text(name, None) == "Starting process '"@ + name + "'"@,
        start_text(name, Some(&error)) == "Failed to start '"@ + name + "': "@ + error.message(),
{
}

} // verus!
