//! What the interactive screen shows, and its rounds: new log entries, what is
//! in view, the status, and the way to quit.

use std::collections::VecDeque;
use vstd::prelude::*;
use crate::color::Color;
use crate::constants::{MAX_SPAN, MAX_UI_LOGS};
use crate::name_map::NameMap;
use crate::status::{format_restarts, format_runtime, restart_text, runtime_text, total_runtime};
use crate::text::{
    contains_text, decimal, holds_text, pad_left, padded_left, parts, push_decimal, same_text,
    split_on, trim, trimmed,
};
use crate::types::{ProcessError, ProcessInfo};
use crate::ui::{
    drop_oldest, newest, wanted_colors, LogEntry, Palette, UIState, UiColor, FRAME_PAUSE,
    MAX_STATUS_HEIGHT, QUIT_FRAME_PAUSE, QUIT_TIMEOUT, SCROLL_MARGIN, STATUS_REFRESH,
};

verus! {

/// The screen's log once it has caught up with the shared one, of which it has
/// seen the first `seen` entries. An empty log takes over everything.
pub open spec fn synced_logs(
    logs: Seq<LogEntry>,
    shared: Seq<LogEntry>,
    seen: nat,
) -> Seq<LogEntry> {
    if shared.len() <= seen {
        logs
    } else if logs.len() == 0 {
        shared
    } else {
        newest(logs + shared.skip(seen as int), MAX_UI_LOGS as nat)
    }
}

/// The offset of the view once the log has caught up. A view at the end, or
/// near it, follows the log; another one stays where it is.
pub open spec fn synced_offset(offset: nat, seen: nat, count: nat) -> nat {
    if count <= seen {
        offset
    } else if offset < SCROLL_MARGIN {
        0
    } else {
        offset + (count - seen) as nat
    }
}

/// The colours of processes after a look at the manager's, if they can be had.
pub open spec fn synced_palette(
    palette: Palette,
    logs: Seq<LogEntry>,
    manager_colors: Option<NameMap<Color>>,
) -> Palette {
    match manager_colors {
        Some(colors) => palette.with_all(wanted_colors(logs, colors@)),
        None => palette,
    }
}

/// The screen after a look at the shared log.
pub open spec fn syncs(
    before: UIState,
    after: UIState,
    shared: Seq<LogEntry>,
    manager_colors: Option<NameMap<Color>>,
) -> bool {
    let seen = before.last_log_count as nat;
    if shared.len() == seen {
        after == before
    } else {
        &&& after == (UIState {
            logs: after.logs,
            log_scroll_offset: after.log_scroll_offset,
            last_log_count: shared.len() as usize,
            process_colors: after.process_colors,
            ..before
        })
        &&& after.logs@ == synced_logs(before.logs@, shared, seen)
        &&& after.log_scroll_offset == synced_offset(
            before.log_scroll_offset as nat,
            seen,
            shared.len(),
        )
        &&& after.palette() == synced_palette(before.palette(), after.logs@, manager_colors)
    }
}

/// A piece of a line, in a colour if it has one.
#[derive(Debug)]
pub struct StyledSpan {
    pub text: String,
    pub color: Option<UiColor>,
}

/// The log as it is shown: its title and the lines in view.
#[derive(Debug)]
pub struct LogView {
    pub title: String,
    pub lines: Vec<Vec<StyledSpan>>,
}

/// The number of lines in view in an area with borders.
pub open spec fn visible_lines(area_height: u16) -> nat {
    if area_height >= 2 {
        (area_height - 2) as nat
    } else {
        0
    }
}

/// The first entry in view: as many before the end as are visible, and `offset`
/// more.
pub open spec fn start_index(total: nat, visible: nat, offset: nat) -> nat {
    if total > visible && total - visible >= offset {
        (total - visible - offset) as nat
    } else {
        0
    }
}

/// The title of the log: how many lines there are, and which are in view where
/// it was scrolled.
pub open spec fn log_title(total: nat, visible: nat, offset: nat) -> Seq<char> {
    let start = start_index(total, visible, offset);
    let end = if start + visible <= total {
        start + visible
    } else {
        total
    };
    if offset > 0 {
        "Output (showing "@ + decimal(start + 1) + "-"@ + decimal(end) + " of "@ + decimal(total)
            + " lines) [Scrolled]"@
    } else {
        "Output ("@ + decimal(total) + " lines)"@
    }
}

/// Whether `span` is `text` in the given colour.
pub open spec fn is_span(span: StyledSpan, text: Seq<char>, color: Option<UiColor>) -> bool {
    span.text@ == text && span.color == color
}

/// Whether `line` shows an entry. A message of gaffa is in magenta, and of other
/// lines the name is in its colour.
pub open spec fn shows_entry(line: Seq<StyledSpan>, entry: LogEntry, palette: Palette) -> bool {
    if entry.process@ == "gaffa"@ {
        &&& line.len() == 1
        &&& is_span(
            line[0],
            pad_left(entry.process@, 12) + " | "@ + entry.content@,
            Some(UiColor::Magenta),
        )
    } else {
        &&& line.len() == 3
        &&& is_span(
            line[0],
            pad_left(entry.process@, 12),
            Some(palette.colors[entry.process@]),
        )
        &&& is_span(line[1], " | "@, None)
        &&& is_span(line[2], entry.content@, None)
    }
}

/// The colours once every process of the log has one.
pub open spec fn painted_palette(palette: Palette, logs: Seq<LogEntry>) -> Palette {
    palette.with_all(wanted_colors(logs, Map::empty()))
}

/// Whether `view` is what an area of the given height shows of the log.
pub open spec fn shows_logs(
    view: LogView,
    logs: Seq<LogEntry>,
    palette: Palette,
    area_height: u16,
    offset: nat,
) -> bool {
    let total = logs.len();
    let visible = visible_lines(area_height);
    let start = start_index(total, visible, offset);
    &&& view.title@ == log_title(total, visible, offset)
    &&& view.lines@.len() == if start + visible <= total {
        visible
    } else {
        (total - start) as nat
    }
    &&& forall|i: int|
        0 <= i < view.lines@.len() ==> shows_entry(
            (#[trigger] view.lines@[i])@,
            logs[start + i],
            palette,
        )
}

/// The colour of a status on the screen.
pub open spec fn status_color(status: Seq<char>) -> UiColor {
    if holds_text(status, "Running"@) {
        UiColor::Green
    } else if holds_text(status, "Stopped"@) {
        UiColor::Yellow
    } else if holds_text(status, "Restarting"@) {
        UiColor::Blue
    } else {
        UiColor::White
    }
}

/// Whether `line` shows a line of the status. One with at least four columns is
/// shown in colours, another one as it is.
pub open spec fn shows_status_line(
    line: Seq<StyledSpan>,
    text: Seq<char>,
    colors: Map<Seq<char>, UiColor>,
) -> bool {
    let columns = parts(text, '|');
    if columns.len() >= 4 {
        let name = trimmed(columns[0]);
        let status = trimmed(columns[1]);
        &&& line.len() == 7
        &&& is_span(
            line[0],
            pad_left(name, 12),
            Some(
                if colors.contains_key(name) {
                    colors[name]
                } else {
                    UiColor::Cyan
                },
            ),
        )
        &&& is_span(line[1], " | "@, None)
        &&& is_span(line[2], pad_left(status, 12), Some(status_color(status)))
        &&& is_span(line[3], " | "@, None)
        &&& is_span(line[4], pad_left(trimmed(columns[2]), 22), Some(UiColor::White))
        &&& is_span(line[5], " | "@, None)
        &&& is_span(line[6], pad_left(trimmed(columns[3]), 12), Some(UiColor::Magenta))
    } else {
        line.len() == 1 && is_span(line[0], text, None)
    }
}

fn span_of(text: String, color: Option<UiColor>) -> (r: StyledSpan)
    ensures
        is_span(r, text@, color),
{
    StyledSpan { text, color }
}

fn color_of_status(status: &str) -> (r: UiColor)
    ensures
        r == status_color(status@),
{
    if contains_text(status, "Running") {
        UiColor::Green
    } else if contains_text(status, "Stopped") {
        UiColor::Yellow
    } else if contains_text(status, "Restarting") {
        UiColor::Blue
    } else {
        UiColor::White
    }
}

/// The size of a part of the screen, from top to bottom.
#[derive(Clone, Copy, Debug, PartialEq, Eq, Structural)]
pub enum Pane {
    /// The log, which takes what is left.
    Logs { min: u16 },
    /// The status.
    Status { height: u16 },
    /// The input line.
    Input { height: u16 },
    /// The help.
    Help { height: u16 },
}

/// The height of the status: a line for each process, and four for the frame.
pub open spec fn status_height(lines: nat) -> nat {
    if lines + 4 <= MAX_STATUS_HEIGHT {
        lines + 4
    } else {
        MAX_STATUS_HEIGHT as nat
    }
}

/// How a round of the screen goes on.
#[derive(Clone, Copy, Debug, PartialEq, Eq, Structural)]
pub enum FrameStep {
    /// The screen is left.
    Leave,
    /// After the pause it is looked whether the screen is to be drawn. `fresh`
    /// says whether a new status came.
    Go { fresh: bool, pause: u128 },
}

/// How a round goes on: the screen leaves on a shutdown, and one that was asked to quit
/// pauses before it is drawn.
pub open spec fn frame_step(fresh: bool, shutdown: bool, quitting: bool) -> FrameStep {
    if shutdown {
        FrameStep::Leave
    } else {
        FrameStep::Go {
            fresh,
            pause: if quitting {
                QUIT_FRAME_PAUSE
            } else {
                0
            },
        }
    }
}

/// The parts of the screen, from top to bottom, where the status has `lines` rows if it
/// is in view.
pub open spec fn panes(show_status: bool, lines: nat) -> Seq<Pane> {
    if show_status {
        seq![
            Pane::Logs { min: 10 },
            Pane::Status { height: status_height(lines) as u16 },
            Pane::Input { height: 3 },
            Pane::Help { height: 1 },
        ]
    } else {
        seq![Pane::Logs { min: 10 }, Pane::Input { height: 3 }, Pane::Help { height: 1 }]
    }
}

/// The column of the cursor within the input. A cursor too far to the right is shown at
/// the start.
pub open spec fn cursor_column(cursor: nat) -> nat {
    if cursor <= u16::MAX {
        cursor
    } else {
        0
    }
}

impl UIState {
    /// Catches up with the shared log. `manager_colors` is the manager's colours
    /// where they can be had. Returns whether there is anything new to draw.
    pub fn sync_logs(
        &mut self,
        shared: &VecDeque<LogEntry>,
        manager_colors: Option<&NameMap<Color>>,
    ) -> (redraw: bool)
        requires
            old(self).log_scroll_offset >= SCROLL_MARGIN && shared@.len() > old(
                self,
            ).last_log_count ==> old(self).log_scroll_offset + (shared@.len() - old(
                self,
            ).last_log_count) <= usize::MAX,
        ensures
            syncs(
                *old(self),
                *final(self),
                shared@,
                match manager_colors {
                    Some(colors) => Some(*colors),
                    None => None,
                },
            ),
            redraw == (shared@.len() != old(self).last_log_count),
    {
        let count: usize = shared.len();
        let seen: usize = self.last_log_count;
        if count == seen {
            return false;
        }
        if count > seen {
            let empty = self.logs.len() == 0;
            let first: usize = if empty {
                0
            } else {
                seen
            };
            let ghost before = self.logs@;
            let mut i: usize = first;
            while i < count
                invariant
                    first <= i <= count == shared@.len(),
                    *self == (UIState { logs: self.logs, ..*old(self) }),
                    self.logs@ == before + shared@.subrange(first as int, i as int),
                decreases count - i,
            {
                self.logs.push_back(shared[i].clone());
                assert(self.logs@ =~= before + shared@.subrange(first as int, i + 1));
                i += 1;
            }
            assert(shared@.subrange(first as int, count as int) =~= shared@.skip(first as int));
            if empty {
                assert(self.logs@ =~= shared@);
            } else {
                drop_oldest(&mut self.logs, MAX_UI_LOGS);
            }
        }
        assert(self.logs@ == synced_logs(old(self).logs@, shared@, seen as nat));
        if let Some(colors) = manager_colors {
            self.sync_colors(colors);
        }
        if count > seen {
            if self.log_scroll_offset < SCROLL_MARGIN {
                self.log_scroll_offset = 0;
            } else {
                self.log_scroll_offset = self.log_scroll_offset + (count - seen);
            }
        }
        self.last_log_count = count;
        true
    }

    /// Gives every process of the log its colour.
    fn sync_colors(&mut self, manager_colors: &NameMap<Color>)
        ensures
            final(self).palette() == old(self).palette().with_all(
                wanted_colors(old(self).logs@, manager_colors@),
            ),
            *final(self) == (UIState { process_colors: final(self).process_colors, ..*old(self) }),
    {
        let ghost wanted = wanted_colors(self.logs@, manager_colors@);
        let n: usize = self.logs.len();
        let mut i: usize = 0;
        assert(wanted.take(0) =~= seq![]);
        while i < n
            invariant
                i <= n == old(self).logs@.len(),
                *self == (UIState { process_colors: self.process_colors, ..*old(self) }),
                wanted == wanted_colors(old(self).logs@, manager_colors@),
                self.palette() == old(self).palette().with_all(wanted.take(i as int)),
            decreases n - i,
        {
            assert(wanted.take(i + 1).drop_last() =~= wanted.take(i as int));
            let process = self.logs[i].process.clone();
            let color = match manager_colors.get(process.as_str()) {
                Some(color) => Some(*color),
                None => None,
            };
            assert(wanted[i as int] == (process@, color));
            let _ = self.get_process_color(process.as_str(), color);
            i += 1;
        }
        assert(wanted.take(i as int) =~= wanted);
    }

    /// What an area of the given height shows of the log. Every process gets a
    /// colour first.
    pub fn render_logs(&mut self, area_height: u16) -> (view: LogView)
        ensures
            *final(self) == (UIState { process_colors: final(self).process_colors, ..*old(self) }),
            final(self).palette() == painted_palette(old(self).palette(), old(self).logs@),
            shows_logs(
                view,
                old(self).logs@,
                final(self).palette(),
                area_height,
                old(self).log_scroll_offset as nat,
            ),
    {
        let none: NameMap<Color> = NameMap::new();
        self.sync_colors(&none);
        proof {
            let wanted = wanted_colors(self.logs@, Map::empty());
            lemma_all_painted(old(self).palette(), wanted);
            assert forall|j: int|
                0 <= j < self.logs@.len() && (#[trigger] self.logs@[j]).process@
                    != "gaffa"@ implies self.palette().colors.contains_key(
                self.logs@[j].process@,
            ) by {
                assert(wanted[j].0 == self.logs@[j].process@);
            }
        }
        let visible: usize = if area_height >= 2 {
            (area_height - 2) as usize
        } else {
            0
        };
        let total: usize = self.logs.len();
        let offset: usize = self.log_scroll_offset;
        let start: usize = if total > visible && total - visible >= offset {
            total - visible - offset
        } else {
            0
        };
        let end: usize = if visible <= total - start {
            start + visible
        } else {
            total
        };
        let mut lines: Vec<Vec<StyledSpan>> = Vec::new();
        let mut i: usize = start;
        while i < end
            invariant
                start <= i <= end <= total,
                total == self.logs@.len(),
                lines@.len() == i - start,
                *self == (UIState { process_colors: self.process_colors, ..*old(self) }),
                forall|j: int|
                    0 <= j < self.logs@.len() && (#[trigger] self.logs@[j]).process@ != "gaffa"@
                        ==> self.palette().colors.contains_key(self.logs@[j].process@),
                forall|j: int|
                    0 <= j < i - start ==> shows_entry(
                        (#[trigger] lines@[j])@,
                        self.logs@[start + j],
                        self.palette(),
                    ),
            decreases end - i,
        {
            let line = self.render_entry(&self.logs[i]);
            lines.push(line);
            i += 1;
        }
        let mut title = "Output (".to_owned();
        if offset > 0 {
            title = "Output (showing ".to_owned();
            push_decimal(&mut title, start as u64 + 1);
            title.append("-");
            push_decimal(&mut title, end as u64);
            title.append(" of ");
            push_decimal(&mut title, total as u64);
            title.append(" lines) [Scrolled]");
        } else {
            push_decimal(&mut title, total as u64);
            title.append(" lines)");
        }
        LogView { title, lines }
    }

    fn render_entry(&self, entry: &LogEntry) -> (line: Vec<StyledSpan>)
        requires
            entry.process@ != "gaffa"@ ==> self.palette().colors.contains_key(entry.process@),
        ensures
            shows_entry(line@, *entry, self.palette()),
    {
        let mut line: Vec<StyledSpan> = Vec::new();
        let name = padded_left(entry.process.as_str(), 12);
        if same_text(entry.process.as_str(), "gaffa") {
            let text = name.concat(" | ").concat(entry.content.as_str());
            line.push(span_of(text, Some(UiColor::Magenta)));
        } else {
            let color = match self.process_colors.get(entry.process.as_str()) {
                Some(color) => *color,
                None => UiColor::Green,
            };
            line.push(span_of(name, Some(color)));
            line.push(span_of(" | ".to_owned(), None));
            line.push(span_of(entry.content.clone(), None));
        }
        line
    }

    /// The lines of the status.
    pub fn render_process_status(&self) -> (r: Vec<Vec<StyledSpan>>)
        ensures
            r.len() == self.process_status.len(),
            forall|i: int|
                0 <= i < r.len() ==> shows_status_line(
                    (#[trigger] r@[i])@,
                    self.process_status@[i]@,
                    self.process_colors@,
                ),
    {
        let mut r: Vec<Vec<StyledSpan>> = Vec::new();
        let mut i: usize = 0;
        while i < self.process_status.len()
            invariant
                i <= self.process_status.len(),
                r.len() == i,
                forall|j: int|
                    0 <= j < i ==> shows_status_line(
                        (#[trigger] r@[j])@,
                        self.process_status@[j]@,
                        self.process_colors@,
                    ),
            decreases self.process_status.len() - i,
        {
            let line = self.render_status_line(self.process_status[i].as_str());
            r.push(line);
            i += 1;
        }
        r
    }

    fn render_status_line(&self, text: &str) -> (line: Vec<StyledSpan>)
        ensures
            shows_status_line(line@, text@, self.process_colors@),
    {
        let columns = split_on(text, '|');
        let ghost all = parts(text@, '|');
        assert(all.len() == columns.len());
        let mut line: Vec<StyledSpan> = Vec::new();
        if columns.len() < 4 {
            line.push(span_of(text.to_owned(), None));
            return line;
        }
        assert(columns@[0]@ == all[0] && columns@[1]@ == all[1] && columns@[2]@ == all[2]
            && columns@[3]@ == all[3]);
        let name = trim(columns[0].as_str());
        let status = trim(columns[1].as_str());
        let restarts = trim(columns[2].as_str());
        let uptime = trim(columns[3].as_str());
        let name_color = match self.process_colors.get(name.as_str()) {
            Some(color) => *color,
            None => UiColor::Cyan,
        };
        line.push(span_of(padded_left(name.as_str(), 12), Some(name_color)));
        line.push(span_of(" | ".to_owned(), None));
        line.push(
            span_of(padded_left(status.as_str(), 12), Some(color_of_status(status.as_str()))),
        );
        line.push(span_of(" | ".to_owned(), None));
        line.push(span_of(padded_left(restarts.as_str(), 22), Some(UiColor::White)));
        line.push(span_of(" | ".to_owned(), None));
        line.push(span_of(padded_left(uptime.as_str(), 12), Some(UiColor::Magenta)));
        line
    }

    /// The parts of the screen, from top to bottom.
    pub fn ui(&self) -> (r: Vec<Pane>)
        ensures
            r@ == panes(self.show_status, self.process_status@.len()),
    {
        let mut r: Vec<Pane> = Vec::new();
        r.push(Pane::Logs { min: 10 });
        if self.show_status {
            let n: usize = self.process_status.len();
            let height: u16 = if n <= 13 {
                n as u16 + 4
            } else {
                MAX_STATUS_HEIGHT
            };
            r.push(Pane::Status { height });
        }
        r.push(Pane::Input { height: 3 });
        r.push(Pane::Help { height: 1 });
        r
    }

    /// Where the cursor is shown, in an input area with its corner at `x` and
    /// `y`. A cursor too far to the right is shown at the start.
    pub fn render_input_with_help(&self, x: u16, y: u16) -> (r: (u16, u16))
        requires
            x + 1 + cursor_column(self.cursor_position as nat) <= u16::MAX,
            y < u16::MAX,
        ensures
            r.0 == x + 1 + cursor_column(self.cursor_position as nat),
            r.1 == y + 1,
    {
        let column: u16 = if self.cursor_position <= 65535 {
            self.cursor_position as u16
        } else {
            0
        };
        (x + column + 1, y + 1)
    }

    /// How a round goes on once keys and log were looked at. `status` is the
    /// newest status, if one came, and `shutdown` says whether the screen is to
    /// leave. A screen that was asked to quit pauses before it is drawn.
    pub fn run_app(&mut self, status: Option<Vec<String>>, shutdown: bool) -> (r: FrameStep)
        ensures
            *final(self) == (UIState {
                process_status: match status {
                    Some(lines) => lines,
                    None => old(self).process_status,
                },
                ..*old(self)
            }),
            r == frame_step(status is Some, shutdown, old(self).should_quit),
    {
        let fresh = match status {
            Some(lines) => {
                self.process_status = lines;
                true
            },
            None => false,
        };
        if shutdown {
            return FrameStep::Leave;
        }
        let pause: u128 = if self.should_quit {
            QUIT_FRAME_PAUSE
        } else {
            0
        };
        FrameStep::Go { fresh, pause }
    }

    /// Whether the screen is to be drawn, and how long to wait then. `changed`
    /// says whether there is anything new, and `since_redraw` how long ago it was
    /// drawn. A status in view is drawn again when it has become old.
    pub fn end_round(&self, changed: bool, since_redraw: u128) -> (r: (bool, u128))
        ensures
            r.0 == (changed || (self.show_status && since_redraw > STATUS_REFRESH)),
            r.1 == FRAME_PAUSE,
    {
        (changed || (self.show_status && since_redraw > STATUS_REFRESH), FRAME_PAUSE)
    }
}

/// How the interactive screen came to its end.
#[derive(Debug)]
pub enum ScreenEnd {
    /// Its loop is over, with or without an error.
    Screen(Result<(), ProcessError>),
    /// Its loop broke down, for this reason.
    Broken(String),
    /// Its commands were all carried out.
    Commands,
    /// There was an interrupt, and all processes were stopped.
    Interrupted,
}

/// What comes of the interactive screen: an error where it could not be opened or
/// run.
pub open spec fn screen_result(end: ScreenEnd) -> Result<(), ProcessError> {
    match end {
        ScreenEnd::Screen(result) => result,
        ScreenEnd::Broken(reason) => Err(ProcessError::InputRead(reason)),
        ScreenEnd::Commands => Ok(()),
        ScreenEnd::Interrupted => Ok(()),
    }
}

/// What comes of the interactive screen.
pub fn run_terminal_ui(end: ScreenEnd) -> (r: Result<(), ProcessError>)
    ensures
        r == screen_result(end),
{
    match end {
        ScreenEnd::Screen(result) => result,
        ScreenEnd::Broken(reason) => Err(ProcessError::InputRead(reason)),
        ScreenEnd::Commands => Ok(()),
        ScreenEnd::Interrupted => Ok(()),
    }
}

/// Once every process of a list was given a colour, every one but gaffa has one.
proof fn lemma_all_painted(palette: Palette, processes: Seq<(Seq<char>, Option<Color>)>)
    ensures
        forall|j: int|
            0 <= j < processes.len() && (#[trigger] processes[j]).0 != "gaffa"@
                ==> palette.with_all(processes).colors.contains_key(processes[j].0),
    decreases processes.len(),
{
    if processes.len() > 0 {
        let head = processes.drop_last();
        lemma_all_painted(palette, head);
        assert forall|j: int|
            0 <= j < processes.len() && (#[trigger] processes[j]).0
                != "gaffa"@ implies palette.with_all(processes).colors.contains_key(
            processes[j].0,
        ) by {
            if j < head.len() {
                assert(head[j] == processes[j]);
            }
        }
    }
}

/// The help at the bottom of the screen.
pub open spec fn help_text() -> Seq<char> {
    " q: quit | t: toggle status | start <name> | s <name>/all: stop | r <name>: restart | PgUp/PgDn/Mouse: scroll "@
}

/// The help at the bottom of the screen, and its colour.
pub fn render_help_bar() -> (r: (String, UiColor))
    ensures
        r.0@ == help_text(),
        r.1 == UiColor::DarkGray,
{
    (
        " q: quit | t: toggle status | start <name> | s <name>/all: stop | r <name>: restart | PgUp/PgDn/Mouse: scroll ".to_owned(),
        UiColor::DarkGray,
    )
}

/// A line of the status that is kept up to date.
pub open spec fn live_row_of(name: Seq<char>, info: ProcessInfo, now: u128) -> Seq<char> {
    pad_left(name, 12) + " | "@ + pad_left(info.status.title(), 12) + " | "@ + pad_left(
        restart_text(info.restart_count as nat),
        22,
    ) + " | "@ + pad_left(runtime_text(info, now), 12)
}

/// The status of all processes, as the screen keeps it up to date.
pub fn live_status(processes: &NameMap<ProcessInfo>, now: u128) -> (r: Vec<String>)
    requires
        now <= MAX_SPAN,
        forall|name: Seq<char>| #[trigger]
            processes@.contains_key(name) ==> total_runtime(processes@[name], now) <= MAX_SPAN,
    ensures
        r.len() == processes.names().len(),
        forall|i: int|
            0 <= i < r.len() ==> (#[trigger] r@[i])@ == live_row_of(
                processes.names()[i],
                processes@[processes.names()[i]],
                now,
            ),
{
    let mut r: Vec<String> = Vec::new();
    let n = processes.len();
    let mut i: usize = 0;
    while i < n
        invariant
            i <= n == processes.names().len(),
            r.len() == i,
            now <= MAX_SPAN,
            forall|name: Seq<char>| #[trigger]
                processes@.contains_key(name) ==> total_runtime(processes@[name], now)
                    <= MAX_SPAN,
            forall|j: int|
                0 <= j < i ==> (#[trigger] r@[j])@ == live_row_of(
                    processes.names()[j],
                    processes@[processes.names()[j]],
                    now,
                ),
        decreases n - i,
    {
        let info = processes.value_at(i);
        let row = padded_left(processes.name_at(i).as_str(), 12).concat(" | ").concat(
            padded_left(info.status.name().as_str(), 12).as_str(),
        ).concat(" | ").concat(
            padded_left(format_restarts(info.restart_count).as_str(), 22).as_str(),
        ).concat(" | ").concat(padded_left(format_runtime(info, now).as_str(), 12).as_str());
        r.push(row);
        i += 1;
    }
    r
}

/// What the screen's log says when the processes are about to start.
pub fn loading_message(count: usize, procfile_path: &str) -> (r: String)
    ensures
        r@ == "Loading "@ + decimal(count as nat) + " processes from "@ + procfile_path@,
{
    let mut r = "Loading ".to_owned();
    push_decimal(&mut r, count as u64);
    r.append(" processes from ");
    r.append(procfile_path);
    r
}

/// What the screen's log says of a process that was started, or could not be.
pub open spec fn start_text(name: Seq<char>, error: Option<&ProcessError>) -> Seq<char> {
    match error {
        None => "Starting process '"@ + name + "'"@,
        Some(e) => "Failed to start '"@ + name + "': "@ + e.message(),
    }
}

/// What the screen's log says of a process that was started, or could not be.
pub fn start_message(name: &str, error: Option<&ProcessError>) -> (r: String)
    ensures
        r@ == start_text(name@, error),
{
    match error {
        None => "Starting process '".to_owned().concat(name).concat("'"),
        Some(e) => "Failed to start '".to_owned().concat(name).concat("': ").concat(
            e.to_string().as_str(),
        ),
    }
}

/// What the screen's log says of a command that failed.
pub fn command_error_message(error: &ProcessError) -> (r: String)
    ensures
        r@ == "Error: "@ + error.message(),
{
    "Error: ".to_owned().concat(error.to_string().as_str())
}

/// What the way to quit waits for.
#[derive(Clone, Copy, Debug, PartialEq, Eq, Structural)]
pub enum QuitPhase {
    /// For all processes to be told to stop.
    Stopping,
    /// For all processes to be stopped, up to the deadline.
    Waiting { deadline: u128 },
    /// For the user to read the first message.
    Telling,
    /// For the user to read the last message.
    Closing,
    /// For nothing more.
    Gone,
}

/// What is done on the way to quit: a message, and a pause after it.
#[derive(Debug)]
pub struct QuitStep {
    pub message: Option<String>,
    pub pause: u128,
    /// Whether the screen leaves then.
    pub leave: bool,
}

/// Whether `step` is such a message, pause and end.
pub open spec fn is_quit_step(
    step: QuitStep,
    message: Option<Seq<char>>,
    pause: u128,
    leave: bool,
) -> bool {
    &&& match message {
        Some(text) => step.message matches Some(m) && m@ == text,
        None => step.message is None,
    }
    &&& step.pause == pause
    &&& step.leave == leave
}

/// What comes next on the way to quit, and what is waited for then. Once all
/// processes are stopped, or the time is over, the screen says so and leaves.
pub open spec fn quits(
    phase: QuitPhase,
    all_stopped: bool,
    now: u128,
    next: QuitPhase,
    step: QuitStep,
) -> bool {
    match phase {
        QuitPhase::Stopping => {
            &&& next == QuitPhase::Waiting { deadline: (now + QUIT_TIMEOUT) as u128 }
            &&& is_quit_step(step, None, 0, false)
        },
        QuitPhase::Waiting { deadline } => if all_stopped {
            &&& next == QuitPhase::Telling
            &&& is_quit_step(
                step,
                Some("All processes stopped. Exiting..."@),
                1_000_000_000,
                false,
            )
        } else if now > deadline {
            &&& next == QuitPhase::Gone
            &&& is_quit_step(
                step,
                Some("Timeout waiting for processes to stop. Forcing exit..."@),
                500_000_000,
                true,
            )
        } else {
            &&& next == phase
            &&& is_quit_step(step, None, 100_000_000, false)
        },
        QuitPhase::Telling => {
            &&& next == QuitPhase::Closing
            &&& is_quit_step(step, Some("Shutdown complete."@), 1_500_000_000, false)
        },
        QuitPhase::Closing | QuitPhase::Gone => {
            &&& next == QuitPhase::Gone
            &&& is_quit_step(step, None, 0, true)
        },
    }
}

/// What the screen's log says when it was asked to quit.
pub fn quit_message() -> (r: String)
    ensures
        r@ == "Stopping all processes..."@,
{
    "Stopping all processes...".to_owned()
}

/// What comes next on the way to quit. `all_stopped` says whether every process
/// that ever ran is stopped.
pub fn quit_step(phase: QuitPhase, all_stopped: bool, now: u128) -> (r: (QuitPhase, QuitStep))
    requires
        now <= MAX_SPAN,
    ensures
        quits(phase, all_stopped, now, r.0, r.1),
{
    match phase {
        QuitPhase::Stopping => (
            QuitPhase::Waiting { deadline: now + QUIT_TIMEOUT },
            QuitStep { message: None, pause: 0, leave: false },
        ),
        QuitPhase::Waiting { deadline } => if all_stopped {
            (
                QuitPhase::Telling,
                QuitStep {
                    message: Some("All processes stopped. Exiting...".to_owned()),
                    pause: 1_000_000_000,
                    leave: false,
                },
            )
        } else if now > deadline {
            (
                QuitPhase::Gone,
                QuitStep {
                    message: Some(
                        "Timeout waiting for processes to stop. Forcing exit...".to_owned(),
                    ),
                    pause: 500_000_000,
                    leave: true,
                },
            )
        } else {
            (phase, QuitStep { message: None, pause: 100_000_000, leave: false })
        },
        QuitPhase::Telling => (
            QuitPhase::Closing,
            QuitStep {
                message: Some("Shutdown complete.".to_owned()),
                pause: 1_500_000_000,
                leave: false,
            },
        ),
        QuitPhase::Closing | QuitPhase::Gone => (
            QuitPhase::Gone,
            QuitStep { message: None, pause: 0, leave: true },
        ),
    }
}

/// The screen leaves once the processes are stopped or the time is over, and
/// waits on only while neither holds.
pub proof fn law_quit_waits_no_longer_than_needed(
    phase: QuitPhase,
    all_stopped: bool,
    now: u128,
    next: QuitPhase,
    step: QuitStep,
)
    requires
        now <= MAX_SPAN,
        quits(phase, all_stopped, now, next, step),
    ensures
        phase matches QuitPhase::Waiting { deadline } ==> (next == phase <==> !all_stopped && now
            <= deadline),
        step.leave <==> next == QuitPhase::Gone,
        phase == QuitPhase::Stopping ==> next == (QuitPhase::Waiting {
            deadline: (now + QUIT_TIMEOUT) as u128,
        }),
{
}

/// A view that was scrolled away from the end shows the same entries when new
/// ones arrive.
pub proof fn law_scrolled_view_stays(
    logs: Seq<LogEntry>,
    shared: Seq<LogEntry>,
    seen: nat,
    visible: nat,
    offset: nat,
)
    requires
        SCROLL_MARGIN <= offset <= logs.len() - visible,
        visible < logs.len(),
        seen < shared.len(),
        logs.len() + (shared.len() - seen) <= MAX_UI_LOGS,
    ensures
        ({
            let after = synced_logs(logs, shared, seen);
            let start = start_index(logs.len(), visible, offset);
            &&& start_index(
                after.len(),
                visible,
                synced_offset(offset, seen, shared.len()),
            ) == start
            &&& forall|i: int| start <= i < start + visible ==> #[trigger] after[i] == logs[i]
        }),
{
}

/// A view at the end of the log stays there: it shows the newest entries.
pub proof fn law_following_view_follows(total: nat, visible: nat, seen: nat, count: nat)
    requires
        visible <= total,
    ensures
        synced_offset(0, seen, count) == 0,
        start_index(total, visible, 0) + visible == total,
{
}

/// The screen's log never grows over its limit by what it adds, and the newest
/// entry is always in it.
pub proof fn law_log_is_bounded(logs: Seq<LogEntry>, shared: Seq<LogEntry>, seen: nat)
    requires
        logs.len() > 0,
        seen < shared.len(),
    ensures
        synced_logs(logs, shared, seen).len() <= MAX_UI_LOGS,
        synced_logs(logs, shared, seen).last() == shared.last(),
{
}

} // verus!
