//! Processes as the manager knows them, and what can go wrong with them.

use vstd::prelude::*;
use crate::color::{foreground, paint_of, tinted, Color};
use crate::constants::{MAX_SPAN, NANOS_PER_SEC};
use crate::text::holds_text;
use crate::text_laws::law_held_text_is_in_between;

verus! {

/// What can go wrong. Where the cause lies outside, `source` is its text.
#[derive(Debug)]
pub enum ProcessError {
    ProcfileRead { path: String, source: String },
    InvalidFormat { line: String },
    NoProcesses,
    ProcessNotFound { name: String },
    ProcessAlreadyRunning { name: String },
    ProcessNotRunning { name: String },
    CommandParse { command: String, source: String },
    EmptyCommand { name: String },
    ProcessSpawn { name: String, source: String },
    InputRead(String),
}

impl ProcessError {
    /// The message that tells the user what went wrong.
    pub open spec fn message(&self) -> Seq<char> {
        match self {
            ProcessError::ProcfileRead { path, source } => "Failed to read Procfile '"@ + path@
                + "': "@ + source@,
            ProcessError::InvalidFormat { line } => "Invalid Procfile line format: '"@ + line@
                + "'"@,
            ProcessError::NoProcesses => "No valid processes found in Procfile"@,
            ProcessError::ProcessNotFound { name } => "Process '"@ + name@ + "' not found"@,
            ProcessError::ProcessAlreadyRunning { name } => "Process '"@ + name@
                + "' is already running"@,
            ProcessError::ProcessNotRunning { name } => "Process '"@ + name@
                + "' is not running"@,
            ProcessError::CommandParse { command, source } => "Failed to parse command '"@
                + command@ + "': "@ + source@,
            ProcessError::EmptyCommand { name } => "Empty command for process '"@ + name@ + "'"@,
            ProcessError::ProcessSpawn { name, source } => "Failed to spawn process '"@ + name@
                + "': "@ + source@,
            ProcessError::InputRead(source) => "Error reading input: "@ + source@,
        }
    }

    /// The message that tells the user what went wrong.
    pub fn to_string(&self) -> (r: String)
        ensures
            r@ == self.message(),
    {
        match self {
            ProcessError::ProcfileRead { path, source } => "Failed to read Procfile '".to_owned().concat(
                path.as_str(),
            ).concat("': ").concat(source.as_str()),
            ProcessError::InvalidFormat { line } => "Invalid Procfile line format: '".to_owned().concat(
                line.as_str(),
            ).concat("'"),
            ProcessError::NoProcesses => "No valid processes found in Procfile".to_owned(),
            ProcessError::ProcessNotFound { name } => "Process '".to_owned().concat(
                name.as_str(),
            ).concat("' not found"),
            ProcessError::ProcessAlreadyRunning { name } => "Process '".to_owned().concat(
                name.as_str(),
            ).concat("' is already running"),
            ProcessError::ProcessNotRunning { name } => "Process '".to_owned().concat(
                name.as_str(),
            ).concat("' is not running"),
            ProcessError::CommandParse { command, source } => "Failed to parse command '".to_owned().concat(
                command.as_str(),
            ).concat("': ").concat(source.as_str()),
            ProcessError::EmptyCommand { name } => "Empty command for process '".to_owned().concat(
                name.as_str(),
            ).concat("'"),
            ProcessError::ProcessSpawn { name, source } => "Failed to spawn process '".to_owned().concat(
                name.as_str(),
            ).concat("': ").concat(source.as_str()),
            ProcessError::InputRead(source) => "Error reading input: ".to_owned().concat(
                source.as_str(),
            ),
        }
    }
}

/// Whether a process runs.
#[derive(Clone, Copy, Debug, PartialEq, Eq, Structural)]
pub enum ProcessStatus {
    Running,
    Stopped,
    Restarting,
}

impl ProcessStatus {
    /// The word that shows the status to the user.
    pub open spec fn word(&self) -> Seq<char> {
        match self {
            ProcessStatus::Running => "RUNNING"@,
            ProcessStatus::Stopped => "STOPPED"@,
            ProcessStatus::Restarting => "RESTARTING"@,
        }
    }

    /// The colour that the status is shown in.
    pub open spec fn color(&self) -> Color {
        match self {
            ProcessStatus::Running => Color::Green,
            ProcessStatus::Stopped => Color::Yellow,
            ProcessStatus::Restarting => Color::Blue,
        }
    }

    /// The status as it is shown to the user, in its colour where the terminal
    /// takes colours.
    pub fn to_string(&self) -> (r: String)
        ensures
            paint_of(r@, self.word(), foreground(self.color())),
    {
        match self {
            ProcessStatus::Running => tinted("RUNNING", Color::Green),
            ProcessStatus::Stopped => tinted("STOPPED", Color::Yellow),
            ProcessStatus::Restarting => tinted("RESTARTING", Color::Blue),
        }
    }

    /// The name of the status.
    pub open spec fn title(&self) -> Seq<char> {
        match self {
            ProcessStatus::Running => "Running"@,
            ProcessStatus::Stopped => "Stopped"@,
            ProcessStatus::Restarting => "Restarting"@,
        }
    }

    /// The name of the status.
    pub fn name(&self) -> (r: String)
        ensures
            r@ == self.title(),
    {
        match self {
            ProcessStatus::Running => "Running".to_owned(),
            ProcessStatus::Stopped => "Stopped".to_owned(),
            ProcessStatus::Restarting => "Restarting".to_owned(),
        }
    }
}

/// A process that the manager looks after. Times are readings of one
/// monotonic clock, in nanoseconds.
#[derive(Debug)]
pub struct ProcessInfo {
    pub command: String,
    pub status: ProcessStatus,
    pub restart_count: u32,
    pub last_restart: Option<u128>,
    pub stopped_at: Option<u128>,
    pub cumulative_runtime: u128,
    pub exit_code: Option<i32>,
}

impl Clone for ProcessInfo {
    fn clone(&self) -> (r: Self)
        ensures
            r == *self,
    {
        ProcessInfo {
            command: self.command.clone(),
            status: self.status,
            restart_count: self.restart_count,
            last_restart: self.last_restart,
            stopped_at: self.stopped_at,
            cumulative_runtime: self.cumulative_runtime,
            exit_code: self.exit_code,
        }
    }
}

/// The time from `start` to `now`. It is 0 where `now` lies before `start`.
pub open spec fn time_since(start: u128, now: u128) -> u128 {
    if start <= now {
        (now - start) as u128
    } else {
        0
    }
}

/// The time from `start` to `now`.
pub fn elapsed(start: u128, now: u128) -> (r: u128)
    ensures
        r == time_since(start, now),
{
    if start <= now {
        now - start
    } else {
        0
    }
}

/// The whole seconds of a span of time.
pub open spec fn secs(span: u128) -> nat {
    span as nat / 1_000_000_000
}

/// The whole seconds of a span of time.
pub fn whole_secs(span: u128) -> (r: u64)
    requires
        span <= MAX_SPAN,
    ensures
        r == secs(span),
{
    (span / NANOS_PER_SEC) as u64
}

/// The time from one reading of the clock to a later one is what has to be put to
/// the first to get the second. Nothing has passed before the first.
pub proof fn law_time_passes(start: u128, now: u128)
    ensures
        start <= now ==> start + time_since(start, now) == now,
        now <= start ==> time_since(start, now) == 0,
{
}

/// The whole seconds of a span are the most that it holds.
pub proof fn law_seconds_are_whole(span: u128)
    ensures
        secs(span) * 1_000_000_000 <= span < (secs(span) + 1) * 1_000_000_000,
{
}

/// The word, the name and the colour of a status tell it from the others.
pub proof fn law_status_is_told_apart(a: ProcessStatus, b: ProcessStatus)
    ensures
        a.word() == b.word() ==> a == b,
        a.title() == b.title() ==> a == b,
        a.color() == b.color() ==> a == b,
{
    reveal_strlit("RUNNING");
    reveal_strlit("STOPPED");
    reveal_strlit("RESTARTING");
    reveal_strlit("Running");
    reveal_strlit("Stopped");
    reveal_strlit("Restarting");
    assert("RUNNING"@[0] == 'R' && "STOPPED"@[0] == 'S' && "RESTARTING"@.len() == 10);
    assert("Running"@[0] == 'R' && "Stopped"@[0] == 'S' && "Restarting"@.len() == 10);
}

/// A message about a process holds its name between quotes, as it is.
pub proof fn law_message_holds_name(e: ProcessError)
    ensures
        e matches ProcessError::ProcessNotFound { name } ==> holds_text(
            e.message(),
            "'"@ + name@ + "' not found"@,
        ),
        e matches ProcessError::ProcessAlreadyRunning { name } ==> holds_text(
            e.message(),
            "'"@ + name@ + "' is already running"@,
        ),
        e matches ProcessError::ProcessNotRunning { name } ==> holds_text(
            e.message(),
            "'"@ + name@ + "' is not running"@,
        ),
        e matches ProcessError::EmptyCommand { name } ==> holds_text(
            e.message(),
            "'"@ + name@ + "'"@,
        ),
        e matches ProcessError::InvalidFormat { line } ==> holds_text(
            e.message(),
            "'"@ + line@ + "'"@,
        ),
        e matches ProcessError::ProcessSpawn { name, source } ==> holds_text(
            e.message(),
            "'"@ + name@ + "': "@ + source@,
        ),
        e matches ProcessError::CommandParse { command, source } ==> holds_text(
            e.message(),
            "'"@ + command@ + "': "@ + source@,
        ),
        e matches ProcessError::ProcfileRead { path, source } ==> holds_text(
            e.message(),
            "'"@ + path@ + "': "@ + source@,
        ),
        e matches ProcessError::InputRead(source) ==> holds_text(e.message(), ": "@ + source@),
{
    match e {
        ProcessError::ProcessNotFound { name } => {
            reveal_strlit("Process '");
            lemma_quoted(e.message(), "Process '"@, name@, "' not found"@);
        },
        ProcessError::ProcessAlreadyRunning { name } => {
            reveal_strlit("Process '");
            lemma_quoted(e.message(), "Process '"@, name@, "' is already running"@);
        },
        ProcessError::ProcessNotRunning { name } => {
            reveal_strlit("Process '");
            lemma_quoted(e.message(), "Process '"@, name@, "' is not running"@);
        },
        ProcessError::EmptyCommand { name } => {
            reveal_strlit("Empty command for process '");
            lemma_quoted(e.message(), "Empty command for process '"@, name@, "'"@);
        },
        ProcessError::InvalidFormat { line } => {
            reveal_strlit("Invalid Procfile line format: '");
            lemma_quoted(e.message(), "Invalid Procfile line format: '"@, line@, "'"@);
        },
        ProcessError::ProcessSpawn { name, source } => {
            reveal_strlit("Failed to spawn process '");
            let end = "': "@ + source@;
            assert(e.message() =~= "Failed to spawn process '"@ + name@ + end);
            assert("'"@ + name@ + end =~= "'"@ + name@ + "': "@ + source@);
            lemma_quoted(e.message(), "Failed to spawn process '"@, name@, end);
        },
        ProcessError::CommandParse { command, source } => {
            reveal_strlit("Failed to parse command '");
            let end = "': "@ + source@;
            assert(e.message() =~= "Failed to parse command '"@ + command@ + end);
            assert("'"@ + command@ + end =~= "'"@ + command@ + "': "@ + source@);
            lemma_quoted(e.message(), "Failed to parse command '"@, command@, end);
        },
        ProcessError::ProcfileRead { path, source } => {
            reveal_strlit("Failed to read Procfile '");
            let end = "': "@ + source@;
            assert(e.message() =~= "Failed to read Procfile '"@ + path@ + end);
            assert("'"@ + path@ + end =~= "'"@ + path@ + "': "@ + source@);
            lemma_quoted(e.message(), "Failed to read Procfile '"@, path@, end);
        },
        ProcessError::InputRead(source) => {
            reveal_strlit("Error reading input: ");
            reveal_strlit(": ");
            let a = "Error reading input"@;
            reveal_strlit("Error reading input");
            assert(e.message() =~= a + (": "@ + source@) + seq![]);
            law_held_text_is_in_between(a, ": "@ + source@, seq![]);
        },
        ProcessError::NoProcesses => {},
    }
}

/// A text that begins with something, ends with a quote there, and goes on holds
/// the quote with what goes on there.
proof fn lemma_quoted(text: Seq<char>, begin: Seq<char>, name: Seq<char>, end: Seq<char>)
    requires
        begin.len() > 0,
        begin.last() == '\'',
        text == begin + name + end,
    ensures
        holds_text(text, "'"@ + name + end),
{
    reveal_strlit("'");
    let a = begin.drop_last();
    let tail = "'"@ + name + end;
    assert(text =~= a + tail + seq![]);
    law_held_text_is_in_between(a, tail, seq![]);
}

} // verus!
