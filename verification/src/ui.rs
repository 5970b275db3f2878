//! The interactive screen: its log, its input line, and what it shows.

use std::collections::VecDeque;
use vstd::prelude::*;
use crate::color::Color;
use crate::constants::MAX_LOG_LINES;
use crate::name_map::NameMap;
use crate::text::{
    byte_len, byte_len_of, char_count, char_index, chars_of, index_at, lemma_index_at,
    lemma_index_of_prefix, same_text, string_of, texts, trim, trimmed,
};

verus! {

/// How many lines a page of the log has.
pub const PAGE_LINES: usize = 10;

/// How many lines a turn of the mouse wheel goes.
pub const WHEEL_LINES: usize = 8;

/// How many lines stay in view at the top of the log. A view that is nearer to
/// the end than that goes on following it.
pub const SCROLL_MARGIN: usize = 5;

/// The most lines that the status takes.
pub const MAX_STATUS_HEIGHT: u16 = 17;

/// How old a status may get on the screen.
pub const STATUS_REFRESH: u128 = 100_000_000;

/// How long the screen sleeps at the end of a round.
pub const FRAME_PAUSE: u128 = 10_000_000;

/// How long it sleeps before it is drawn, once it was asked to quit.
pub const QUIT_FRAME_PAUSE: u128 = 50_000_000;

/// How long the processes have to stop once the screen was asked to quit.
pub const QUIT_TIMEOUT: u128 = 10_000_000_000;

/// The colours of the screen.
#[derive(Clone, Copy, Debug, PartialEq, Eq, Structural)]
pub enum UiColor {
    Cyan,
    Yellow,
    Blue,
    Green,
    LightCyan,
    LightYellow,
    LightBlue,
    Magenta,
    White,
    DarkGray,
}

/// The colours that processes get on the screen, in turn.
pub const UI_COLORS: [UiColor; 7] = [
    UiColor::Cyan,
    UiColor::Yellow,
    UiColor::Blue,
    UiColor::Green,
    UiColor::LightCyan,
    UiColor::LightYellow,
    UiColor::LightBlue,
];

/// A line of the log. The time is a reading of the clock.
#[derive(Debug)]
pub struct LogEntry {
    pub timestamp: u128,
    pub process: String,
    pub content: String,
    pub is_error: bool,
}

impl Clone for LogEntry {
    fn clone(&self) -> (r: Self)
        ensures
            r == *self,
    {
        LogEntry {
            timestamp: self.timestamp,
            process: self.process.clone(),
            content: self.content.clone(),
            is_error: self.is_error,
        }
    }
}

/// What the screen asks for.
#[derive(Debug)]
pub enum UICommand {
    ExecuteCommand(String),
    Quit,
}

/// The log that the screen and the processes share, and whether anyone reads
/// what is sent to the screen.
#[derive(Debug)]
pub struct AppState {
    pub logs: VecDeque<LogEntry>,
    pub connected: bool,
    pub status_connected: bool,
}

impl AppState {
    /// An empty log that nobody reads.
    pub fn new() -> (r: Self)
        ensures
            r.logs@ == Seq::<LogEntry>::empty(),
            !r.connected,
            !r.status_connected,
    {
        AppState { logs: VecDeque::new(), connected: false, status_connected: false }
    }

    /// Notes that the screen reads the log and the status from now on.
    pub fn connect(&mut self)
        ensures
            final(self).logs == old(self).logs,
            final(self).connected,
            final(self).status_connected,
    {
        self.connected = true;
        self.status_connected = true;
    }

    /// Adds a line: hands it out to be sent where someone reads it, and keeps it
    /// in the log where nobody does. A log that is full gives up its oldest line.
    pub fn add_log(&mut self, process: String, content: String, is_error: bool, now: u128) -> (r:
        Option<LogEntry>)
        ensures
            final(self).connected == old(self).connected,
            final(self).status_connected == old(self).status_connected,
            ({
                let entry = LogEntry { timestamp: now, process, content, is_error };
                if old(self).connected {
                    r == Some(entry) && final(self).logs == old(self).logs
                } else {
                    r is None && keeps(old(self).logs@, final(self).logs@, entry)
                }
            }),
    {
        let entry = LogEntry { timestamp: now, process, content, is_error };
        if self.connected {
            Some(entry)
        } else {
            keep_log(&mut self.logs, entry);
            None
        }
    }

    /// Adds a message of gaffa.
    pub fn add_system_log(&mut self, content: String, now: u128) -> (r: Option<LogEntry>)
        ensures
            final(self).connected == old(self).connected,
            final(self).status_connected == old(self).status_connected,
            if old(self).connected {
                &&& final(self).logs == old(self).logs
                &&& r matches Some(entry) && is_system_entry(entry, content, now)
            } else {
                &&& r is None
                &&& exists|entry: LogEntry|
                    is_system_entry(entry, content, now) && #[trigger] keeps(
                        old(self).logs@,
                        final(self).logs@,
                        entry,
                    )
            },
    {
        let name = "gaffa".to_owned();
        let ghost entry = LogEntry { timestamp: now, process: name, content, is_error: false };
        let r = self.add_log(name, content, false, now);
        assert(is_system_entry(entry, content, now));
        r
    }

    /// Stores a line that was sent. What was kept before anyone read the log stays
    /// in front of it, as far as there is room.
    pub fn receive(&mut self, entry: LogEntry)
        ensures
            final(self).connected == old(self).connected,
            final(self).status_connected == old(self).status_connected,
            keeps(old(self).logs@, final(self).logs@, entry),
    {
        keep_log(&mut self.logs, entry);
    }

    /// The status lines to send, if anyone reads them.
    pub fn set_process_status(&self, status_lines: Vec<String>) -> (r: Option<Vec<String>>)
        ensures
            r == if self.status_connected {
                Some(status_lines)
            } else {
                None
            },
    {
        if self.status_connected {
            Some(status_lines)
        } else {
            None
        }
    }
}

impl Default for AppState {
    fn default() -> (r: Self)
        ensures
            r.logs@ == Seq::<LogEntry>::empty(),
            !r.connected,
            !r.status_connected,
    {
        AppState::new()
    }
}

/// Whether an entry is a message of gaffa.
pub open spec fn is_system_entry(entry: LogEntry, content: String, now: u128) -> bool {
    &&& entry.timestamp == now
    &&& entry.process@ == "gaffa"@
    &&& entry.content == content
    &&& !entry.is_error
}

/// The newest `n` entries.
pub open spec fn newest<A>(s: Seq<A>, n: nat) -> Seq<A> {
    if s.len() > n {
        s.skip(s.len() - n)
    } else {
        s
    }
}

/// `after` is `before` with the entry at its end, and without its oldest entry
/// where it was full. A log within its limit stays within it: it is the newest
/// entries.
pub open spec fn keeps(before: Seq<LogEntry>, after: Seq<LogEntry>, entry: LogEntry) -> bool {
    &&& after == if before.len() >= MAX_LOG_LINES {
        before.push(entry).skip(1)
    } else {
        before.push(entry)
    }
    &&& before.len() <= MAX_LOG_LINES ==> after.len() <= MAX_LOG_LINES && after == newest(
        before.push(entry),
        MAX_LOG_LINES as nat,
    )
}

/// Adds an entry to a log. One that is full gives up its oldest entry, so that it
/// keeps the newest ones.
pub fn keep_log(logs: &mut VecDeque<LogEntry>, entry: LogEntry)
    ensures
        keeps(old(logs)@, final(logs)@, entry),
{
    let ghost all = logs@.push(entry);
    logs.push_back(entry);
    if logs.len() > MAX_LOG_LINES {
        let _ = logs.pop_front();
        assert(logs@ =~= all.skip(1));
    }
}

/// Drops the oldest entries until at most `n` are left.
pub(crate) fn drop_oldest(logs: &mut VecDeque<LogEntry>, n: usize)
    ensures
        final(logs)@ == newest(old(logs)@, n as nat),
{
    let ghost all = logs@;
    assert(all.skip(0) =~= all);
    while logs.len() > n
        invariant
            logs@.len() <= all.len(),
            all == old(logs)@,
            logs@ == all.skip(all.len() - logs@.len()),
            logs@.len() < all.len() ==> logs@.len() >= n,
        decreases logs@.len(),
    {
        let ghost before = logs@;
        let _ = logs.pop_front();
        assert(logs@ =~= before.skip(1));
        assert(logs@ =~= all.skip(all.len() - logs@.len()));
    }
}

/// The screen's state: its log, the input line with its cursor, and what is in
/// view. The cursor counts bytes.
#[derive(Debug)]
pub struct UIState {
    pub logs: VecDeque<LogEntry>,
    pub input: String,
    pub cursor_position: usize,
    pub command_history: Vec<String>,
    pub history_index: Option<usize>,
    pub process_status: Vec<String>,
    pub should_quit: bool,
    pub show_status: bool,
    pub log_scroll_offset: usize,
    pub last_log_count: usize,
    pub process_colors: NameMap<UiColor>,
}

/// The colour on the screen that goes with a colour of the terminal.
pub open spec fn ui_color(color: Color) -> UiColor {
    match color {
        Color::Cyan => UiColor::Cyan,
        Color::Yellow => UiColor::Yellow,
        Color::Blue => UiColor::Blue,
        Color::Green => UiColor::Green,
        Color::BrightCyan => UiColor::LightCyan,
        Color::BrightYellow => UiColor::LightYellow,
        Color::BrightBlue => UiColor::LightBlue,
        _ => UiColor::White,
    }
}

fn screen_color(color: Color) -> (r: UiColor)
    ensures
        r == ui_color(color),
{
    match color {
        Color::Cyan => UiColor::Cyan,
        Color::Yellow => UiColor::Yellow,
        Color::Blue => UiColor::Blue,
        Color::Green => UiColor::Green,
        Color::BrightCyan => UiColor::LightCyan,
        Color::BrightYellow => UiColor::LightYellow,
        Color::BrightBlue => UiColor::LightBlue,
        _ => UiColor::White,
    }
}

/// The colours of processes, with the names in the order in which they got
/// them.
pub ghost struct Palette {
    pub names: Seq<Seq<char>>,
    pub colors: Map<Seq<char>, UiColor>,
}

impl Palette {
    /// The colours once `process` has one. Where the manager has a colour for
    /// it, it gets that; else it keeps the one it has, or gets the next of the
    /// palette. gaffa itself needs none.
    pub open spec fn with(self, process: Seq<char>, manager_color: Option<Color>) -> Palette {
        if process == "gaffa"@ {
            self
        } else {
            let known = self.colors.contains_key(process);
            match manager_color {
                Some(color) => Palette {
                    names: if known {
                        self.names
                    } else {
                        self.names.push(process)
                    },
                    colors: self.colors.insert(process, ui_color(color)),
                },
                None => if known {
                    self
                } else {
                    Palette {
                        names: self.names.push(process),
                        colors: self.colors.insert(
                            process,
                            UI_COLORS@[self.names.len() as int % 7],
                        ),
                    }
                },
            }
        }
    }

    /// The colours once every process in the list has one.
    pub open spec fn with_all(self, processes: Seq<(Seq<char>, Option<Color>)>) -> Palette
        decreases processes.len(),
    {
        if processes.len() == 0 {
            self
        } else {
            self.with_all(processes.drop_last()).with(processes.last().0, processes.last().1)
        }
    }

    /// The colour of a process. gaffa is always magenta.
    pub open spec fn color(self, process: Seq<char>) -> UiColor {
        if process == "gaffa"@ {
            UiColor::Magenta
        } else {
            self.colors[process]
        }
    }
}

/// The processes of log entries, with the colours that the manager has for
/// them.
pub open spec fn wanted_colors(logs: Seq<LogEntry>, manager: Map<Seq<char>, Color>) -> Seq<
    (Seq<char>, Option<Color>),
> {
    Seq::new(
        logs.len(),
        |i: int|
            (
                logs[i].process@,
                if manager.contains_key(logs[i].process@) {
                    Some(manager[logs[i].process@])
                } else {
                    None
                },
            ),
    )
}

/// A key of the keyboard.
#[derive(Clone, Copy, Debug, PartialEq, Eq, Structural)]
pub enum Key {
    Char(char),
    Backspace,
    Delete,
    Enter,
    Left,
    Right,
    Home,
    End,
    Up,
    Down,
    PageUp,
    PageDown,
    Other,
}

/// What a key press leads to.
#[derive(Debug)]
pub struct KeyOutcome {
    pub redraw: bool,
    pub command: Option<UICommand>,
}

/// The largest offset of the log's view from its end.
pub open spec fn max_scroll(len: nat) -> nat {
    if len >= SCROLL_MARGIN {
        (len - SCROLL_MARGIN) as nat
    } else {
        0
    }
}

/// The offset after scrolling up by `lines`.
pub open spec fn scrolled_up(offset: nat, lines: nat, len: nat) -> nat {
    if offset + lines > max_scroll(len) {
        max_scroll(len)
    } else {
        offset + lines
    }
}

/// The offset after scrolling down by `lines`.
pub open spec fn scrolled_down(offset: nat, lines: nat) -> nat {
    if offset >= lines {
        (offset - lines) as nat
    } else {
        0
    }
}

/// `s` with `text` put in before byte `at`.
pub open spec fn inserted(s: Seq<char>, at: nat, text: Seq<char>) -> Seq<char> {
    let i = index_at(s, at)->0 as int;
    s.take(i) + text + s.skip(i)
}

/// `s` without the character at byte `at`.
pub open spec fn without_char(s: Seq<char>, at: nat) -> Seq<char> {
    let i = index_at(s, at)->0 as int;
    s.take(i) + s.skip(i + 1)
}

/// Only the input line changes, with its cursor.
pub open spec fn edits(before: UIState, after: UIState, input: Seq<char>, cursor: nat) -> bool {
    &&& after == (UIState {
        input: after.input,
        cursor_position: after.cursor_position,
        ..before
    })
    &&& after.input@ == input
    &&& after.cursor_position == cursor
}

/// Only the view of the log changes.
pub open spec fn scrolls(before: UIState, after: UIState, offset: nat) -> bool {
    after == (UIState { log_scroll_offset: after.log_scroll_offset, ..before })
        && after.log_scroll_offset == offset
}

/// The input line is taken from the history, at the given place, or left empty.
pub open spec fn recalls(
    before: UIState,
    after: UIState,
    index: Option<usize>,
    input: Seq<char>,
    cursor: nat,
) -> bool {
    &&& after == (UIState {
        input: after.input,
        cursor_position: after.cursor_position,
        history_index: index,
        ..before
    })
    &&& after.input@ == input
    &&& after.cursor_position == cursor
}

/// The input line is sent: it goes into the history and is empty then.
pub open spec fn sends(before: UIState, after: UIState, text: Seq<char>, quits: bool) -> bool {
    &&& after == (UIState {
        input: after.input,
        cursor_position: 0,
        command_history: after.command_history,
        history_index: None,
        should_quit: before.should_quit || quits,
        ..before
    })
    &&& after.input@.len() == 0
    &&& texts(after.command_history@) == texts(before.command_history@).push(text)
}

/// Whether a line asks to quit.
pub open spec fn is_quit(text: Seq<char>) -> bool {
    text == "q"@ || text == "quit"@
}

/// What a character leads to. Ctrl+C quits, Ctrl+V puts in the text of the
/// clipboard, `t` on an empty line shows or hides the status, and everything
/// else is put in.
pub open spec fn char_effect(
    before: UIState,
    after: UIState,
    c: char,
    control: bool,
    clipboard: Option<String>,
    r: KeyOutcome,
) -> bool {
    let at = before.cursor_position as nat;
    if c == 'c' && control {
        &&& after == (UIState { should_quit: true, ..before })
        &&& !r.redraw
        &&& r.command == Some(UICommand::Quit)
    } else if c == 'v' && control {
        &&& r.command is None
        &&& match clipboard {
            Some(text) => r.redraw && edits(
                before,
                after,
                inserted(before.input@, at, text@),
                at + byte_len(text@),
            ),
            None => !r.redraw && after == before,
        }
    } else if c == 't' && before.input@.len() == 0 {
        &&& after == (UIState { show_status: !before.show_status, ..before })
        &&& r.redraw
        &&& r.command is None
    } else {
        &&& edits(before, after, inserted(before.input@, at, seq![c]), at + 1)
        &&& r.redraw
        &&& r.command is None
    }
}

/// What the Enter key leads to: the line without white space around it is sent,
/// unless nothing is left of it.
pub open spec fn enter_effect(before: UIState, after: UIState, r: KeyOutcome) -> bool {
    let text = trimmed(before.input@);
    if text.len() == 0 {
        after == before && !r.redraw && r.command is None
    } else {
        &&& sends(before, after, text, is_quit(text))
        &&& r.redraw
        &&& if is_quit(text) {
            r.command == Some(UICommand::Quit)
        } else {
            r.command matches Some(UICommand::ExecuteCommand(c)) && c@ == text
        }
    }
}

/// What the Up key leads to: the entry of the history before the one that is
/// shown, or the last one.
pub open spec fn up_effect(before: UIState, after: UIState, r: KeyOutcome) -> bool {
    let history = texts(before.command_history@);
    let cursor = before.cursor_position as nat;
    &&& r.command is None
    &&& if history.len() == 0 {
        after == before && !r.redraw
    } else {
        match before.history_index {
            None => r.redraw && recalls(
                before,
                after,
                Some((history.len() - 1) as usize),
                history[history.len() - 1],
                cursor,
            ),
            Some(i) => if i > 0 {
                r.redraw && recalls(before, after, Some((i - 1) as usize), history[i - 1], cursor)
            } else {
                after == before && !r.redraw
            },
        }
    }
}

/// What the Down key leads to: the entry of the history after the one that is
/// shown, or an empty line.
pub open spec fn down_effect(before: UIState, after: UIState, r: KeyOutcome) -> bool {
    let history = texts(before.command_history@);
    let cursor = before.cursor_position as nat;
    &&& r.command is None
    &&& match before.history_index {
        None => after == before && !r.redraw,
        Some(i) => if i < history.len() - 1 {
            r.redraw && recalls(before, after, Some((i + 1) as usize), history[i + 1], cursor)
        } else {
            r.redraw && recalls(before, after, None, seq![], 0)
        },
    }
}

/// What a key press leads to.
pub open spec fn key_effect(
    before: UIState,
    after: UIState,
    key: Key,
    control: bool,
    clipboard: Option<String>,
    r: KeyOutcome,
) -> bool {
    let input = before.input@;
    let at = before.cursor_position as nat;
    let offset = before.log_scroll_offset as nat;
    let count = before.logs@.len();
    match key {
        Key::Char(c) => char_effect(before, after, c, control, clipboard, r),
        Key::Enter => enter_effect(before, after, r),
        Key::Up => up_effect(before, after, r),
        Key::Down => down_effect(before, after, r),
        _ => r.command is None && match key {
            Key::Backspace => if at > 0 {
                r.redraw && edits(
                    before,
                    after,
                    without_char(input, (at - 1) as nat),
                    (at - 1) as nat,
                )
            } else {
                !r.redraw && after == before
            },
            Key::Delete => if at < byte_len(input) {
                r.redraw && edits(before, after, without_char(input, at), at)
            } else {
                !r.redraw && after == before
            },
            Key::Left => if at > 0 {
                r.redraw && edits(before, after, input, (at - 1) as nat)
            } else {
                !r.redraw && after == before
            },
            Key::Right => if at < byte_len(input) {
                r.redraw && edits(before, after, input, at + 1)
            } else {
                !r.redraw && after == before
            },
            Key::Home => r.redraw && if control {
                scrolls(before, after, max_scroll(count))
            } else {
                edits(before, after, input, 0)
            },
            Key::End => r.redraw && if control {
                scrolls(before, after, 0)
            } else {
                edits(before, after, input, byte_len(input))
            },
            Key::PageUp => r.redraw && scrolls(
                before,
                after,
                scrolled_up(offset, PAGE_LINES as nat, count),
            ),
            Key::PageDown => r.redraw && scrolls(
                before,
                after,
                scrolled_down(offset, PAGE_LINES as nat),
            ),
            _ => !r.redraw && after == before,
        },
    }
}

impl UIState {
    /// Whether a key can be handled: where it edits the input line, the cursor
    /// stands between two characters of it, and where it goes through the
    /// history, there is an entry to show.
    pub open spec fn ready(&self, key: Key, control: bool, clipboard: Option<String>) -> bool {
        let at = self.cursor_position as nat;
        match key {
            Key::Char(c) => if c == 'c' && control {
                true
            } else if c == 'v' && control {
                clipboard matches Some(text) ==> index_at(self.input@, at) is Some && at + byte_len(
                    text@,
                ) <= usize::MAX
            } else if c == 't' && self.input@.len() == 0 {
                true
            } else {
                index_at(self.input@, at) is Some && at < usize::MAX
            },
            Key::Backspace => at > 0 ==> {
                &&& index_at(self.input@, (at - 1) as nat) is Some
                &&& index_at(self.input@, (at - 1) as nat)->0 < self.input@.len()
            },
            Key::Delete => at < byte_len(self.input@) ==> index_at(self.input@, at) is Some,
            Key::Up => self.history_index matches Some(i) ==> i > 0 ==> self.command_history.len()
                > 0 ==> i - 1 < self.command_history.len(),
            Key::Down => self.history_index is Some ==> self.command_history.len() > 0,
            _ => true,
        }
    }

    /// Whether the place in the history is one of its entries.
    pub open spec fn history_ok(&self) -> bool {
        self.history_index matches Some(i) ==> i < self.command_history.len()
    }

    /// The colours of processes.
    pub open spec fn palette(&self) -> Palette {
        Palette { names: self.process_colors.names(), colors: self.process_colors@ }
    }

    /// An empty screen.
    pub fn new() -> (r: Self)
        ensures
            r.logs@.len() == 0,
            r.input@.len() == 0,
            r.cursor_position == 0,
            r.command_history@.len() == 0,
            r.history_index is None,
            r.process_status@.len() == 0,
            !r.should_quit,
            !r.show_status,
            r.log_scroll_offset == 0,
            r.last_log_count == 0,
            r.palette() == (Palette { names: seq![], colors: Map::empty() }),
            r.history_ok(),
    {
        let r = UIState {
            logs: VecDeque::new(),
            input: String::new(),
            cursor_position: 0,
            command_history: Vec::new(),
            history_index: None,
            process_status: Vec::new(),
            should_quit: false,
            show_status: false,
            log_scroll_offset: 0,
            last_log_count: 0,
            process_colors: NameMap::new(),
        };
        assert(r.palette().names =~= seq![]);
        r
    }

    /// The colour of a process, which it gets here where it has none.
    pub fn get_process_color(&mut self, process_name: &str, manager_color: Option<Color>) -> (r:
        UiColor)
        ensures
            final(self).palette() == old(self).palette().with(process_name@, manager_color),
            r == final(self).palette().color(process_name@),
            *final(self) == (UIState {
                process_colors: final(self).process_colors,
                ..*old(self)
            }),
    {
        if same_text(process_name, "gaffa") {
            return UiColor::Magenta;
        }
        if let Some(color) = manager_color {
            let shown = screen_color(color);
            self.process_colors.insert(process_name.to_owned(), shown);
            return shown;
        }
        if let Some(color) = self.process_colors.get(process_name) {
            return *color;
        }
        let next: usize = self.process_colors.len() % 7;
        let color = UI_COLORS[next];
        self.process_colors.insert(process_name.to_owned(), color);
        color
    }

    fn set_input(&mut self, chars: &Vec<char>, cut: usize, text: &str, resume: usize)
        requires
            cut <= resume <= chars.len(),
        ensures
            *final(self) == (UIState { input: final(self).input, ..*old(self) }),
            final(self).input@ == chars@.take(cut as int) + text@ + chars@.skip(resume as int),
    {
        let mut input = string_of(chars, 0, cut);
        input.append(text);
        let tail = string_of(chars, resume, chars.len());
        input.append(tail.as_str());
        assert(input@ =~= chars@.take(cut as int) + text@ + chars@.skip(resume as int));
        self.input = input;
    }

    fn insert_text(&mut self, text: &str)
        requires
            index_at(old(self).input@, old(self).cursor_position as nat) is Some,
        ensures
            edits(
                *old(self),
                *final(self),
                inserted(old(self).input@, old(self).cursor_position as nat, text@),
                old(self).cursor_position as nat,
            ),
    {
        let chars = chars_of(self.input.as_str());
        if let Some(i) = char_index(&chars, self.cursor_position) {
            self.set_input(&chars, i, text, i);
        }
    }

    fn remove_char(&mut self, at: usize)
        requires
            index_at(old(self).input@, at as nat) is Some,
            index_at(old(self).input@, at as nat)->0 < old(self).input@.len(),
        ensures
            edits(
                *old(self),
                *final(self),
                without_char(old(self).input@, at as nat),
                old(self).cursor_position as nat,
            ),
    {
        let chars = chars_of(self.input.as_str());
        if let Some(i) = char_index(&chars, at) {
            self.set_input(&chars, i, "", i + 1);
            proof {
                reveal_strlit("");
                assert(self.input@ =~= without_char(old(self).input@, at as nat));
            }
        }
    }

    fn press_char(&mut self, c: char, control: bool, clipboard: Option<String>) -> (r: KeyOutcome)
        requires
            old(self).ready(Key::Char(c), control, clipboard),
        ensures
            char_effect(*old(self), *final(self), c, control, clipboard, r),
    {
        if c == 'c' && control {
            self.should_quit = true;
            return KeyOutcome { redraw: false, command: Some(UICommand::Quit) };
        }
        if c == 'v' && control {
            return match clipboard {
                Some(text) => {
                    self.insert_text(text.as_str());
                    self.cursor_position = self.cursor_position + byte_len_of(text.as_str());
                    KeyOutcome { redraw: true, command: None }
                },
                None => KeyOutcome { redraw: false, command: None },
            };
        }
        if c == 't' && char_count(self.input.as_str()) == 0 {
            self.show_status = !self.show_status;
            return KeyOutcome { redraw: true, command: None };
        }
        let mut text = String::new();
        text.push(c);
        assert(text@ =~= seq![c]);
        self.insert_text(text.as_str());
        self.cursor_position = self.cursor_position + 1;
        KeyOutcome { redraw: true, command: None }
    }

    fn press_enter(&mut self) -> (r: KeyOutcome)
        ensures
            enter_effect(*old(self), *final(self), r),
    {
        let text = trim(self.input.as_str());
        if char_count(text.as_str()) == 0 {
            return KeyOutcome { redraw: false, command: None };
        }
        let ghost history = texts(self.command_history@);
        self.command_history.push(text.clone());
        assert(texts(self.command_history@) =~= history.push(text@));
        self.history_index = None;
        let command = if same_text(text.as_str(), "q") || same_text(text.as_str(), "quit") {
            self.should_quit = true;
            UICommand::Quit
        } else {
            UICommand::ExecuteCommand(text)
        };
        self.input = String::new();
        self.cursor_position = 0;
        KeyOutcome { redraw: true, command: Some(command) }
    }

    fn press_up(&mut self) -> (r: KeyOutcome)
        requires
            old(self).ready(Key::Up, false, None),
        ensures
            up_effect(*old(self), *final(self), r),
    {
        let n: usize = self.command_history.len();
        assert(texts(self.command_history@).len() == n);
        if n > 0 {
            match self.history_index {
                None => {
                    self.history_index = Some(n - 1);
                    self.input = self.command_history[n - 1].clone();
                    return KeyOutcome { redraw: true, command: None };
                },
                Some(i) if i > 0 => {
                    self.history_index = Some(i - 1);
                    self.input = self.command_history[i - 1].clone();
                    return KeyOutcome { redraw: true, command: None };
                },
                _ => {},
            }
        }
        KeyOutcome { redraw: false, command: None }
    }

    fn press_down(&mut self) -> (r: KeyOutcome)
        requires
            old(self).ready(Key::Down, false, None),
        ensures
            down_effect(*old(self), *final(self), r),
    {
        let n: usize = self.command_history.len();
        assert(texts(self.command_history@).len() == n);
        match self.history_index {
            Some(i) if i < n - 1 => {
                self.history_index = Some(i + 1);
                self.input = self.command_history[i + 1].clone();
                KeyOutcome { redraw: true, command: None }
            },
            Some(_) => {
                self.history_index = None;
                self.input = String::new();
                self.cursor_position = 0;
                assert(self.input@ =~= seq![]);
                KeyOutcome { redraw: true, command: None }
            },
            None => KeyOutcome { redraw: false, command: None },
        }
    }

    fn scroll_up(&mut self, lines: usize)
        ensures
            scrolls(
                *old(self),
                *final(self),
                scrolled_up(
                    old(self).log_scroll_offset as nat,
                    lines as nat,
                    old(self).logs@.len(),
                ),
            ),
    {
        let count: usize = self.logs.len();
        let max: usize = if count >= SCROLL_MARGIN {
            count - SCROLL_MARGIN
        } else {
            0
        };
        if self.log_scroll_offset > max || lines > max - self.log_scroll_offset {
            self.log_scroll_offset = max;
        } else {
            self.log_scroll_offset = self.log_scroll_offset + lines;
        }
    }

    fn scroll_down(&mut self, lines: usize)
        ensures
            scrolls(
                *old(self),
                *final(self),
                scrolled_down(old(self).log_scroll_offset as nat, lines as nat),
            ),
    {
        if self.log_scroll_offset >= lines {
            self.log_scroll_offset = self.log_scroll_offset - lines;
        } else {
            self.log_scroll_offset = 0;
        }
    }

    /// Whether a key press needs the text of the clipboard.
    pub fn wants_clipboard(key: Key, control: bool) -> (r: bool)
        ensures
            r == (key == Key::Char('v') && control),
    {
        key == Key::Char('v') && control
    }

    /// Whether a key can be handled.
    pub fn is_ready(&self, key: Key, control: bool, clipboard: &Option<String>) -> (r: bool)
        ensures
            r == self.ready(key, control, *clipboard),
    {
        let chars = chars_of(self.input.as_str());
        let at: usize = self.cursor_position;
        match key {
            Key::Char(c) => {
                if c == 'c' && control {
                    true
                } else if c == 'v' && control {
                    match clipboard {
                        Some(text) => char_index(&chars, at).is_some() && byte_len_of(text.as_str())
                            <= usize::MAX - at,
                        None => true,
                    }
                } else if c == 't' && chars.len() == 0 {
                    true
                } else {
                    char_index(&chars, at).is_some() && at < usize::MAX
                }
            },
            Key::Backspace => at == 0 || match char_index(&chars, at - 1) {
                Some(i) => i < chars.len(),
                None => false,
            },
            Key::Delete => at >= byte_len_of(self.input.as_str()) || char_index(
                &chars,
                at,
            ).is_some(),
            Key::Up => match self.history_index {
                Some(i) => i == 0 || self.command_history.len() == 0 || i - 1
                    < self.command_history.len(),
                None => true,
            },
            Key::Down => self.history_index.is_none() || self.command_history.len() > 0,
            _ => true,
        }
    }

    /// Handles a key press. `clipboard` is the text of the clipboard where the
    /// key needs it and there is one.
    pub fn handle_key(&mut self, key: Key, control: bool, clipboard: Option<String>) -> (r:
        KeyOutcome)
        requires
            old(self).ready(key, control, clipboard),
        ensures
            key_effect(*old(self), *final(self), key, control, clipboard, r),
    {
        let changed = match key {
            Key::Char(c) => {
                return self.press_char(c, control, clipboard);
            },
            Key::Enter => {
                return self.press_enter();
            },
            Key::Up => {
                return self.press_up();
            },
            Key::Down => {
                return self.press_down();
            },
            Key::Backspace => if self.cursor_position > 0 {
                let at: usize = self.cursor_position - 1;
                self.remove_char(at);
                self.cursor_position = at;
                true
            } else {
                false
            },
            Key::Delete => if self.cursor_position < byte_len_of(self.input.as_str()) {
                let at: usize = self.cursor_position;
                proof {
                    let i = index_at(self.input@, at as nat)->0;
                    lemma_index_at(self.input@, at as nat);
                    if i >= self.input@.len() {
                        assert(self.input@.take(i as int) =~= self.input@);
                    }
                }
                self.remove_char(at);
                true
            } else {
                false
            },
            Key::Left => if self.cursor_position > 0 {
                self.cursor_position = self.cursor_position - 1;
                true
            } else {
                false
            },
            Key::Right => if self.cursor_position < byte_len_of(self.input.as_str()) {
                self.cursor_position = self.cursor_position + 1;
                true
            } else {
                false
            },
            Key::Home => {
                if control {
                    let count: usize = self.logs.len();
                    self.log_scroll_offset = if count >= SCROLL_MARGIN {
                        count - SCROLL_MARGIN
                    } else {
                        0
                    };
                } else {
                    self.cursor_position = 0;
                }
                true
            },
            Key::End => {
                if control {
                    self.log_scroll_offset = 0;
                } else {
                    self.cursor_position = byte_len_of(self.input.as_str());
                }
                true
            },
            Key::PageUp => {
                self.scroll_up(PAGE_LINES);
                true
            },
            Key::PageDown => {
                self.scroll_down(PAGE_LINES);
                true
            },
            Key::Other => false,
        };
        KeyOutcome { redraw: changed, command: None }
    }

    /// Handles a turn of the mouse wheel.
    pub fn handle_wheel(&mut self, up: bool)
        ensures
            scrolls(
                *old(self),
                *final(self),
                if up {
                    scrolled_up(
                        old(self).log_scroll_offset as nat,
                        WHEEL_LINES as nat,
                        old(self).logs@.len(),
                    )
                } else {
                    scrolled_down(old(self).log_scroll_offset as nat, WHEEL_LINES as nat)
                },
            ),
    {
        if up {
            self.scroll_up(WHEEL_LINES);
        } else {
            self.scroll_down(WHEEL_LINES);
        }
    }
}

/// A state of the history that is in order stays in order, whatever key is
/// pressed.
pub proof fn law_history_stays_in_order(
    before: UIState,
    after: UIState,
    key: Key,
    control: bool,
    clipboard: Option<String>,
    r: KeyOutcome,
)
    requires
        before.history_ok(),
        key_effect(before, after, key, control, clipboard, r),
    ensures
        after.history_ok(),
        after.ready(Key::Up, false, None),
        after.ready(Key::Down, false, None),
{
    assert(texts(before.command_history@).len() == before.command_history@.len());
    assert(texts(after.command_history@).len() == after.command_history@.len());
}

/// A line that was sent is what the Up key brings back first.
pub proof fn law_up_recalls_last_line(
    before: UIState,
    sent: UIState,
    after: UIState,
    enter: KeyOutcome,
    up: KeyOutcome,
)
    requires
        trimmed(before.input@).len() > 0,
        before.command_history@.len() < usize::MAX,
        enter_effect(before, sent, enter),
        up_effect(sent, after, up),
    ensures
        after.input@ == trimmed(before.input@),
        after.history_index == Some(before.command_history@.len() as usize),
{
    assert(texts(sent.command_history@).len() == sent.command_history@.len());
    assert(texts(before.command_history@).len() == before.command_history@.len());
}

/// The Backspace key takes back an ASCII character that was just typed.
pub proof fn law_backspace_takes_back_typing(
    before: UIState,
    typed: UIState,
    after: UIState,
    c: char,
    first: KeyOutcome,
    second: KeyOutcome,
)
    requires
        c as u32 <= 0x7f,
        !(c == 't' && before.input@.len() == 0),
        before.ready(Key::Char(c), false, None),
        key_effect(before, typed, Key::Char(c), false, None, first),
        key_effect(typed, after, Key::Backspace, false, None, second),
    ensures
        typed.ready(Key::Backspace, false, None),
        after == (UIState { input: after.input, ..before }),
        after.input@ == before.input@,
{
    let s = before.input@;
    let at = before.cursor_position as nat;
    let i = index_at(s, at)->0;
    lemma_index_at(s, at);
    let t = typed.input@;
    assert(t.take(i as int) =~= s.take(i as int));
    lemma_index_of_prefix(t, i);
    assert(index_at(t, at) == Some(i));
    assert(t.take(i as int) + t.skip(i as int + 1) =~= s);
}

/// Scrolling never leaves the log: after scrolling up, the offset is at most the
/// largest there is, and scrolling down never raises it.
pub proof fn law_scrolling_stays_in_log(offset: nat, lines: nat, len: nat)
    ensures
        scrolled_up(offset, lines, len) <= max_scroll(len),
        offset <= max_scroll(len) ==> scrolled_up(offset, lines, len) >= offset,
        scrolled_down(offset, lines) <= offset,
        offset + lines <= max_scroll(len) ==> scrolled_down(
            scrolled_up(offset, lines, len),
            lines,
        ) == offset,
{
}

/// No process is shown in the colour of gaffa.
pub proof fn law_magenta_is_for_gaffa(
    palette: Palette,
    process: Seq<char>,
    manager_color: Option<Color>,
)
    requires
        process != "gaffa"@,
        forall|p: Seq<char>| #[trigger]
            palette.colors.contains_key(p) ==> palette.colors[p] != UiColor::Magenta,
    ensures
        palette.with(process, manager_color).color(process) != UiColor::Magenta,
        palette.with(process, manager_color).color("gaffa"@) == UiColor::Magenta,
        forall|p: Seq<char>| #[trigger]
            palette.with(process, manager_color).colors.contains_key(p) ==> palette.with(
                process,
                manager_color,
            ).colors[p] != UiColor::Magenta,
{
    let i = palette.names.len() as int % 7;
    assert(0 <= i < 7);
    assert(UI_COLORS@[i] != UiColor::Magenta);
}

/// A process keeps its colour: asking again, without a colour of the manager,
/// changes nothing.
pub proof fn law_process_keeps_color(palette: Palette, process: Seq<char>, color: Option<Color>)
    ensures
        palette.with(process, color).with(process, None) == palette.with(process, color),
{
}

} // verus!
