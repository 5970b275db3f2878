//! The processes of a Procfile and what is done with them: starting, stopping
//! and restarting, one step at a time.
//!
//! An operation alternates between deciding what is next, which happens here,
//! and outside work such as spawning a child or waiting for it. Each decision is
//! a [`Step`]: a message to show, if any, and the [`Action`] to perform. What
//! came of the action goes back in as an [`Event`].

use vstd::prelude::*;
use crate::actor::{answer, answer_of, ActorCommand, Reply};
use crate::color::Color;
use crate::constants::{
    EXIT_CODE_CTRL_C_WINDOWS, EXIT_CODE_FORCED_TERMINATION, EXIT_CODE_KEYBOARD_INTERRUPT, GAFFA_LEN,
    GRACEFUL_SHUTDOWN_TIMEOUT, MAX_SPAN, RESTART_SETTLE, STOP_ALL_CUSHION, STOP_ALL_SETTLE,
};
use crate::name_map::{kept, NameMap};
use crate::output;
use crate::output::announced;
use crate::platform::{configure_command, group_of, GroupSetup, Host};
use crate::procfile::{
    all_define, definitions, describes, entries, first_bad, is_new_process, parse_procfile, scanned,
};
use crate::shell::{default_program, is_shell_of, prepared, Shell};
use crate::status::{is_screen_row, is_table_row, screen_rows, table_lines, total_runtime};
use crate::text::{
    char_count, lines, push_signed, same_text, signed_decimal, split_words, texts, trim, trimmed,
    words,
};
use crate::types::{elapsed, secs, time_since, whole_secs, ProcessError, ProcessInfo, ProcessStatus};

verus! {

/// How an operation is carried out: whether the screen shows its messages, or
/// the terminal, and whether there are any.
#[derive(Clone, Copy, Debug, PartialEq, Eq, Structural)]
pub struct LifecycleOptions {
    pub app_state: bool,
    pub log_messages: bool,
}

impl LifecycleOptions {
    /// Messages to the terminal.
    pub fn new() -> (r: Self)
        ensures
            r == (LifecycleOptions { app_state: false, log_messages: true }),
    {
        LifecycleOptions { app_state: false, log_messages: true }
    }

    /// No messages.
    pub fn quiet() -> (r: Self)
        ensures
            r == (LifecycleOptions { app_state: false, log_messages: false }),
    {
        LifecycleOptions { app_state: false, log_messages: false }
    }

    /// Messages to the screen.
    pub fn with_ui() -> (r: Self)
        ensures
            r == (LifecycleOptions { app_state: true, log_messages: true }),
    {
        LifecycleOptions { app_state: true, log_messages: true }
    }
}

impl Default for LifecycleOptions {
    fn default() -> (r: Self)
        ensures
            r == (LifecycleOptions { app_state: false, log_messages: true }),
    {
        LifecycleOptions::new()
    }
}

/// What is set up once and rarely changes.
#[derive(Debug)]
pub struct ProcessConfig {
    pub colors: NameMap<Color>,
    pub max_name_length: usize,
    pub env_vars: NameMap<String>,
    pub log_file: bool,
    pub shutdown_timeout: u128,
    pub shell: Shell,
    pub host: Host,
}

/// The actor of a running child.
#[derive(Clone, Copy, Debug, PartialEq, Eq, Structural)]
pub struct ActorHandle {
    pub pid: Option<u32>,
}

/// What changes while processes run: the processes, the actors of those that
/// have a child, and how many tasks read the output of each.
#[derive(Debug)]
pub struct RuntimeState {
    pub processes: NameMap<ProcessInfo>,
    pub actors: NameMap<ActorHandle>,
    pub output_handles: NameMap<usize>,
}

/// The processes of a Procfile.
#[derive(Debug)]
pub struct ProcessManager {
    pub config: ProcessConfig,
    pub runtime: RuntimeState,
}

/// A message, and where it goes.
#[derive(Debug)]
pub enum Notice {
    /// To the terminal, as a message of gaffa.
    Print(String),
    /// To the terminal, as an error.
    Error(String),
    /// To the screen's log, as a message of gaffa.
    Log(String),
    /// To the screen's log, as a line of the process.
    ProcessLog { name: String, text: String },
}

/// How a child is to be spawned.
#[derive(Debug)]
pub struct SpawnPlan {
    pub program: String,
    pub args: Vec<String>,
    /// Whether the arguments go to the program without any quoting.
    pub raw_args: bool,
    pub env: Vec<(String, String)>,
    /// Whether the child reads what is typed. It cannot where the screen does.
    pub inherit_stdin: bool,
    /// How the child comes to lead a process group, if it does.
    pub group: Option<GroupSetup>,
}

/// What is to be done next.
#[derive(Debug)]
pub enum Action {
    /// Spawn the child.
    Spawn(SpawnPlan),
    /// Hand the child to its actor.
    Watch { pid: Option<u32>, timeout: u128 },
    /// Tell the actor of the process.
    Ask(ActorCommand),
    /// Wait.
    Sleep(u128),
    /// Nothing: the operation is over.
    Finish(Result<(), ProcessError>),
}

/// What came of an action.
#[derive(Debug)]
pub enum Event {
    /// The child was spawned, or the reason why it was not.
    Spawned(Result<Option<u32>, String>),
    /// The actor has its child. The clock shows `now`.
    Watched { now: u128 },
    /// What came back from the actor.
    Replied(Reply),
    /// The time is over.
    Slept,
}

/// What an operation waits for.
#[derive(Clone, Copy, Debug, PartialEq, Eq, Structural)]
pub enum Phase {
    Spawning,
    Watching,
    Asking(ActorCommand),
    Settling,
    Done,
}

/// An operation on a process that is under way.
#[derive(Debug)]
pub struct Operation {
    pub name: String,
    pub opts: LifecycleOptions,
    pub restart: bool,
    pub phase: Phase,
}

/// A message, if any, and what is to be done after it.
#[derive(Debug)]
pub struct Step {
    pub notice: Option<Notice>,
    pub action: Action,
}

impl Action {
    /// What an operation waits for once this action was handed out.
    pub open spec fn phase(&self) -> Phase {
        match self {
            Action::Spawn(_) => Phase::Spawning,
            Action::Watch { .. } => Phase::Watching,
            Action::Ask(command) => Phase::Asking(*command),
            Action::Sleep(_) => Phase::Settling,
            Action::Finish(_) => Phase::Done,
        }
    }

    fn next_phase(&self) -> (r: Phase)
        ensures
            r == self.phase(),
    {
        match self {
            Action::Spawn(_) => Phase::Spawning,
            Action::Watch { .. } => Phase::Watching,
            Action::Ask(command) => Phase::Asking(*command),
            Action::Sleep(_) => Phase::Settling,
            Action::Finish(_) => Phase::Done,
        }
    }
}

/// Whether `notice` is `text`, shown where the options say.
pub open spec fn tells(notice: Option<Notice>, app_state: bool, text: Seq<char>) -> bool {
    match notice {
        Some(Notice::Print(t)) => !app_state && t@ == text,
        Some(Notice::Log(t)) => app_state && t@ == text,
        _ => false,
    }
}

/// Whether `notice` is `text` where there are messages, and none elsewhere.
pub open spec fn tells_if_logging(
    notice: Option<Notice>,
    opts: LifecycleOptions,
    text: Seq<char>,
) -> bool {
    if opts.log_messages {
        tells(notice, opts.app_state, text)
    } else {
        notice is None
    }
}

pub(crate) fn tell(app_state: bool, text: String) -> (r: Option<Notice>)
    ensures
        tells(r, app_state, text@),
{
    if app_state {
        Some(Notice::Log(text))
    } else {
        Some(Notice::Print(text))
    }
}

pub(crate) fn tell_if_logging(opts: &LifecycleOptions, text: String) -> (r: Option<Notice>)
    ensures
        tells_if_logging(r, *opts, text@),
{
    if opts.log_messages {
        tell(opts.app_state, text)
    } else {
        None
    }
}

pub(crate) fn around(before: &str, name: &str, after: &str) -> (r: String)
    ensures
        r@ == before@ + name@ + after@,
{
    before.to_owned().concat(name).concat(after)
}

/// Whether `pairs` is the variables of an environment with their values.
pub open spec fn is_env(pairs: Seq<(String, String)>, env: NameMap<String>) -> bool {
    &&& pairs.len() == env.names().len()
    &&& forall|i: int|
        0 <= i < pairs.len() ==> (#[trigger] pairs[i]).0@ == env.names()[i] && pairs[i].1@
            == env@[env.names()[i]]@
}

/// Whether `plan` runs `command` in the shell. On Windows the shell gets the
/// command in the form that it needs, and nothing is quoted.
pub open spec fn is_plan(
    plan: SpawnPlan,
    config: ProcessConfig,
    command: Seq<char>,
    app_state: bool,
) -> bool {
    &&& plan.program@ == config.shell.program@
    &&& texts(plan.args@) == texts(config.shell.args@).push(
        if config.host.windows {
            prepared(config.shell.kind, command)
        } else {
            command
        },
    )
    &&& plan.raw_args == config.host.windows
    &&& is_env(plan.env@, config.env_vars)
    &&& plan.inherit_stdin == !app_state
    &&& plan.group == Some(group_of(config.host))
}

/// Whether `action` ends an operation since the process is running already.
pub open spec fn fails_running(action: Action, name: Seq<char>) -> bool {
    action matches Action::Finish(Err(ProcessError::ProcessAlreadyRunning { name: n })) && n@
        == name
}

/// Whether `action` ends an operation since there is no such process.
pub open spec fn fails_unknown(action: Action, name: Seq<char>) -> bool {
    action matches Action::Finish(Err(ProcessError::ProcessNotFound { name: n })) && n@ == name
}

/// Whether `action` ends an operation since the process is not running.
pub open spec fn fails_stopped(action: Action, name: Seq<char>) -> bool {
    action matches Action::Finish(Err(ProcessError::ProcessNotRunning { name: n })) && n@ == name
}

/// Whether `action` ends an operation since the process has no command.
pub open spec fn fails_empty(action: Action, name: Seq<char>) -> bool {
    action matches Action::Finish(Err(ProcessError::EmptyCommand { name: n })) && n@ == name
}

/// Whether `action` ends an operation since no child could be spawned.
pub open spec fn fails_spawn(action: Action, name: Seq<char>, source: String) -> bool {
    action matches Action::Finish(Err(ProcessError::ProcessSpawn { name: n, source: s })) && n@
        == name && s == source
}

/// Whether `action` ends an operation well.
pub open spec fn succeeds(action: Action) -> bool {
    action matches Action::Finish(Ok(_))
}

/// The process once its start has begun.
pub open spec fn starting(info: ProcessInfo) -> ProcessInfo {
    ProcessInfo { status: ProcessStatus::Restarting, ..info }
}

/// The process once its child runs. A process that ran before counts one more
/// restart.
pub open spec fn started(info: ProcessInfo, now: u128) -> ProcessInfo {
    ProcessInfo {
        status: ProcessStatus::Running,
        restart_count: if ran_before(info) {
            (info.restart_count + 1) as u32
        } else {
            info.restart_count
        },
        last_restart: Some(now),
        stopped_at: None,
        ..info
    }
}

/// Whether a process was running at some time.
pub open spec fn ran_before(info: ProcessInfo) -> bool {
    info.last_restart is Some || secs(info.cumulative_runtime) > 0
}

/// How long a process ran in its sessions, with the one that ends at `now`.
pub open spec fn runtime_at_exit(info: ProcessInfo, now: u128) -> nat {
    match info.last_restart {
        Some(start) => info.cumulative_runtime as nat + time_since(start, now) as nat,
        None => info.cumulative_runtime as nat,
    }
}

/// The process once its child has exited.
pub open spec fn exited(info: ProcessInfo, exit_code: Option<i32>, now: u128) -> ProcessInfo {
    ProcessInfo {
        cumulative_runtime: runtime_at_exit(info, now) as u128,
        status: ProcessStatus::Stopped,
        stopped_at: Some(now),
        exit_code,
        ..info
    }
}

/// The start of a process begins. It is refused where the process has an actor
/// or is not known. Otherwise the process counts as restarting, and its command
/// is to be spawned, unless it is blank.
pub open spec fn begins_start(
    before: ProcessManager,
    after: ProcessManager,
    name: Seq<char>,
    opts: LifecycleOptions,
    step: Step,
) -> bool {
    if before.runtime.actors@.contains_key(name) {
        after == before && step.notice is None && fails_running(step.action, name)
    } else if !before.runtime.processes@.contains_key(name) {
        after == before && step.notice is None && fails_unknown(step.action, name)
    } else {
        let info = before.runtime.processes@[name];
        &&& after.config == before.config
        &&& after.runtime.actors == before.runtime.actors
        &&& after.runtime.output_handles == before.runtime.output_handles
        &&& after.runtime.processes@ == before.runtime.processes@.insert(name, starting(info))
        &&& after.runtime.processes.names() == before.runtime.processes.names()
        &&& if opts.log_messages && opts.app_state {
            step.notice matches Some(Notice::ProcessLog { name: n, text }) && n@ == name && text@
                == "Starting '"@ + name + "'..."@
        } else {
            step.notice is None
        }
        &&& if trimmed(info.command@).len() == 0 {
            fails_empty(step.action, name)
        } else {
            step.action matches Action::Spawn(plan) && is_plan(
                plan,
                before.config,
                trimmed(info.command@),
                opts.app_state,
            )
        }
    }
}

/// A child was spawned: two more tasks read its output, and it gets an actor.
pub open spec fn attaches(
    before: ProcessManager,
    after: ProcessManager,
    name: Seq<char>,
    pid: Option<u32>,
    step: Step,
) -> bool {
    &&& after.config == before.config
    &&& after.runtime.processes == before.runtime.processes
    &&& after.runtime.actors@ == before.runtime.actors@.insert(name, ActorHandle { pid })
    &&& after.runtime.output_handles@ == before.runtime.output_handles@.insert(
        name,
        (handles_of(before, name) + 2) as usize,
    )
    &&& step.notice is None
    &&& step.action == (Action::Watch { pid, timeout: before.config.shutdown_timeout })
}

/// How many tasks read the output of a process.
pub open spec fn handles_of(m: ProcessManager, name: Seq<char>) -> nat {
    if m.runtime.output_handles@.contains_key(name) {
        m.runtime.output_handles@[name] as nat
    } else {
        0
    }
}

/// The actor has the child: the process counts as running.
pub open spec fn completes_start(
    before: ProcessManager,
    after: ProcessManager,
    name: Seq<char>,
    opts: LifecycleOptions,
    now: u128,
    step: Step,
) -> bool {
    &&& after.config == before.config
    &&& after.runtime.actors == before.runtime.actors
    &&& after.runtime.output_handles == before.runtime.output_handles
    &&& after.runtime.processes.names() == before.runtime.processes.names()
    &&& after.runtime.processes@ == after_start(before.runtime.processes@, name, now)
    &&& if opts.log_messages && !opts.app_state {
        tells(step.notice, false, "Starting process '"@ + name + "'"@)
    } else {
        step.notice is None
    }
    &&& succeeds(step.action)
}

/// The end of a process begins: its actor is told to stop it. Without an actor
/// the process is not running.
pub open spec fn begins_stop(
    m: ProcessManager,
    name: Seq<char>,
    opts: LifecycleOptions,
    step: Step,
) -> bool {
    &&& tells_if_logging(step.notice, opts, "Stopping process '"@ + name + "'..."@)
    &&& if m.runtime.actors@.contains_key(name) {
        step.action == Action::Ask(ActorCommand::Stop)
    } else {
        fails_stopped(step.action, name)
    }
}

/// The end of a process is over. A child that survives is no failure, so that
/// it can be restarted.
pub open spec fn completes_stop(
    name: Seq<char>,
    opts: LifecycleOptions,
    reply: Reply,
    step: Step,
) -> bool {
    match answer(reply) {
        None => step.notice is None && fails_stopped(step.action, name),
        Some(None) => succeeds(step.action) && tells_if_logging(
            step.notice,
            opts,
            "Process '"@ + name + "' is ignoring termination signals"@,
        ),
        Some(Some(_)) => succeeds(step.action) && tells_if_logging(
            step.notice,
            opts,
            "Stopped process '"@ + name + "'"@,
        ),
    }
}

/// A restart begins. It is always announced. The process is stopped where it
/// has an actor; else there is nothing to wait for but the pause.
pub open spec fn begins_restart(
    m: ProcessManager,
    name: Seq<char>,
    opts: LifecycleOptions,
    step: Step,
) -> bool {
    &&& tells(step.notice, opts.app_state, "Restarting process '"@ + name + "'..."@)
    &&& step.action == after_stop(m, name, ActorCommand::Stop)
}

/// What a restart does on its way: the command goes to the actor where there
/// still is one, else the pause comes.
pub open spec fn after_stop(m: ProcessManager, name: Seq<char>, command: ActorCommand) -> Action {
    if m.runtime.actors@.contains_key(name) {
        Action::Ask(command)
    } else {
        Action::Sleep(RESTART_SETTLE)
    }
}

impl Operation {
    /// Whether the operation waits for such an event.
    pub open spec fn awaits(&self, event: Event) -> bool {
        match event {
            Event::Spawned(_) => self.phase == Phase::Spawning,
            Event::Watched { .. } => self.phase == Phase::Watching,
            Event::Replied(_) => self.phase is Asking,
            Event::Slept => self.phase == Phase::Settling,
        }
    }
}

/// What an event does to the manager and to the operation that waits for it.
pub open spec fn resumes(
    before: ProcessManager,
    after: ProcessManager,
    op: Operation,
    event: Event,
    step: Step,
) -> bool {
    match event {
        Event::Spawned(Ok(pid)) => attaches(before, after, op.name@, pid, step),
        Event::Spawned(Err(source)) => after == before && step.notice is None && fails_spawn(
            step.action,
            op.name@,
            source,
        ),
        Event::Watched { now } => completes_start(before, after, op.name@, op.opts, now, step),
        Event::Replied(reply) => after == before && if !op.restart {
            completes_stop(op.name@, op.opts, reply, step)
        } else if op.phase == Phase::Asking(ActorCommand::Stop) {
            step.notice is None && step.action == after_stop(before, op.name@, ActorCommand::Kill)
        } else {
            step.notice is None && step.action == Action::Sleep(RESTART_SETTLE)
        },
        Event::Slept => begins_start(before, after, op.name@, op.opts, step),
    }
}

impl ProcessManager {
    /// Whether the manager has room for what the event brings: one more restart
    /// to count, two more tasks.
    pub open spec fn has_room(&self, op: Operation, event: Event) -> bool {
        match event {
            Event::Spawned(_) => handles_of(*self, op.name@) + 2 <= usize::MAX,
            Event::Watched { .. } => can_start(self.runtime.processes@, op.name@),
            _ => true,
        }
    }

    /// A manager without processes.
    pub fn new(host: Host) -> (r: Self)
        ensures
            r.config.colors@ == Map::<Seq<char>, Color>::empty(),
            r.config.colors.names() == Seq::<Seq<char>>::empty(),
            r.config.max_name_length == 0,
            r.config.env_vars@ == Map::<Seq<char>, String>::empty(),
            !r.config.log_file,
            r.config.shutdown_timeout == GRACEFUL_SHUTDOWN_TIMEOUT,
            is_shell_of(r.config.shell, default_program(host)),
            r.config.host == host,
            r.runtime.processes@ == Map::<Seq<char>, ProcessInfo>::empty(),
            r.runtime.processes.names() == Seq::<Seq<char>>::empty(),
            r.runtime.actors@ == Map::<Seq<char>, ActorHandle>::empty(),
            r.runtime.actors.names() == Seq::<Seq<char>>::empty(),
            r.runtime.output_handles@ == Map::<Seq<char>, usize>::empty(),
            r.runtime.output_handles.names() == Seq::<Seq<char>>::empty(),
            is_tidy(r.runtime),
    {
        ProcessManager {
            config: ProcessConfig {
                colors: NameMap::new(),
                max_name_length: 0,
                env_vars: NameMap::new(),
                log_file: false,
                shutdown_timeout: GRACEFUL_SHUTDOWN_TIMEOUT,
                shell: Shell::platform_default(host),
                host,
            },
            runtime: RuntimeState {
                processes: NameMap::new(),
                actors: NameMap::new(),
                output_handles: NameMap::new(),
            },
        }
    }

    /// Notes that output also goes to a log file.
    pub fn set_log_file(&mut self)
        ensures
            final(self).runtime == old(self).runtime,
            final(self).config == (ProcessConfig { log_file: true, ..old(self).config }),
    {
        self.config.log_file = true;
    }

    /// Sets how long each child has to exit before it is killed.
    pub fn set_shutdown_timeout(&mut self, timeout: u128)
        ensures
            final(self).runtime == old(self).runtime,
            final(self).config == (ProcessConfig { shutdown_timeout: timeout, ..old(self).config }),
    {
        self.config.shutdown_timeout = timeout;
    }

    /// Sets the environment variables that all processes get.
    pub fn set_environment_variables(&mut self, env_vars: NameMap<String>)
        ensures
            final(self).runtime == old(self).runtime,
            final(self).config == (ProcessConfig { env_vars, ..old(self).config }),
    {
        self.config.env_vars = env_vars;
    }

    /// Sets the shell that runs the commands.
    pub fn set_shell(&mut self, shell: Shell)
        ensures
            final(self).runtime == old(self).runtime,
            final(self).config == (ProcessConfig { shell, ..old(self).config }),
    {
        self.config.shell = shell;
    }

    /// Replaces the processes by those of a Procfile. `content` is the text of
    /// the file, or the reason why it could not be read. Where the file is
    /// refused, everything stays as it was.
    pub fn load_procfile(&mut self, procfile_path: &str, content: Result<String, String>) -> (r:
        Result<(), ProcessError>)
        ensures
            r is Err ==> *final(self) == *old(self),
            content matches Err(source) ==> r == Err::<(), _>(
                ProcessError::ProcfileRead { path: r->Err_0->path, source },
            ) && r->Err_0->path@ == procfile_path@,
            content matches Ok(text) ==> scanned(entries(lines(text@))),
            content matches Ok(text) ==> {
                let found = entries(lines(text@));
                match r {
                    Ok(_) => {
                        &&& found.len() > 0 && all_define(found)
                        &&& loads(*old(self), *final(self), found)
                    },
                    Err(ProcessError::NoProcesses) => found.len() == 0,
                    Err(ProcessError::InvalidFormat { line }) => exists|i: int| #[trigger]
                        first_bad(found, i) && line@ == found[i],
                    Err(_) => false,
                }
            },
    {
        let ghost given = content;
        match parse_procfile(procfile_path, content) {
            Ok(data) => {
                let ghost all = data;
                self.config.colors = data.colors;
                self.config.max_name_length = data.max_name_length;
                self.runtime.processes = data.processes;
                proof {
                    if given is Ok {
                        let text = given->Ok_0;
                        let found = entries(lines(text@));
                        assert(describes(all, definitions(found)));
                        assert(loads(*old(self), *self, found));
                    }
                }
                Ok(())
            },
            Err(e) => Err(e),
        }
    }

    /// Begins to start a process.
    pub fn start_process(&mut self, name: &str) -> (r: (Operation, Step))
        ensures
            begins_start(*old(self), *final(self), name@, r.0.opts, r.1),
            r.0.name@ == name@,
            r.0.opts == (LifecycleOptions { app_state: false, log_messages: true }),
            !r.0.restart,
            r.0.phase == r.1.action.phase(),
    {
        self.start_process_with_opts(name, &LifecycleOptions::new())
    }

    /// Begins to start a process, with the given options.
    pub fn start_process_with_opts(&mut self, name: &str, opts: &LifecycleOptions) -> (r: (
        Operation,
        Step,
    ))
        ensures
            begins_start(*old(self), *final(self), name@, *opts, r.1),
            r.0.name@ == name@,
            r.0.opts == *opts,
            !r.0.restart,
            r.0.phase == r.1.action.phase(),
    {
        let step = self.begin_start(name, opts);
        let phase = step.action.next_phase();
        (Operation { name: name.to_owned(), opts: *opts, restart: false, phase }, step)
    }

    fn begin_start(&mut self, name: &str, opts: &LifecycleOptions) -> (step: Step)
        ensures
            begins_start(*old(self), *final(self), name@, *opts, step),
    {
        if self.runtime.actors.contains_key(name) {
            let error = ProcessError::ProcessAlreadyRunning { name: name.to_owned() };
            return Step { notice: None, action: Action::Finish(Err(error)) };
        }
        let mut info = match self.runtime.processes.get(name) {
            Some(info) => info.clone(),
            None => {
                let error = ProcessError::ProcessNotFound { name: name.to_owned() };
                return Step { notice: None, action: Action::Finish(Err(error)) };
            },
        };
        let command = trim(info.command.as_str());
        info.status = ProcessStatus::Restarting;
        self.runtime.processes.insert(name.to_owned(), info);
        let notice = if opts.log_messages && opts.app_state {
            Some(
                Notice::ProcessLog {
                    name: name.to_owned(),
                    text: around("Starting '", name, "'..."),
                },
            )
        } else {
            None
        };
        let action = match self.spawn_in_shell(name, command, opts.app_state) {
            Ok(plan) => Action::Spawn(plan),
            Err(error) => Action::Finish(Err(error)),
        };
        Step { notice, action }
    }

    /// How to spawn the child for a command without white space around it.
    fn spawn_in_shell(&self, name: &str, command: String, app_state: bool) -> (r: Result<
        SpawnPlan,
        ProcessError,
    >)
        ensures
            match r {
                Ok(plan) => command@.len() > 0 && is_plan(plan, self.config, command@, app_state),
                Err(ProcessError::EmptyCommand { name: n }) => command@.len() == 0 && n@ == name@,
                Err(_) => false,
            },
    {
        if char_count(command.as_str()) == 0 {
            return Err(ProcessError::EmptyCommand { name: name.to_owned() });
        }
        let shell = self.config.shell.clone();
        let mut args = shell.args;
        let ghost before = texts(args@);
        let last = if self.config.host.windows {
            self.config.shell.prepare_command(command.as_str())
        } else {
            command
        };
        args.push(last);
        assert(texts(args@) =~= before.push(last@));
        let env = self.environment();
        Ok(
            SpawnPlan {
                program: shell.program,
                args,
                raw_args: self.config.host.windows,
                env,
                inherit_stdin: !app_state,
                group: Some(configure_command(self.config.host)),
            },
        )
    }

    /// The environment variables that all processes get.
    pub(crate) fn environment(&self) -> (r: Vec<(String, String)>)
        ensures
            is_env(r@, self.config.env_vars),
    {
        let env = &self.config.env_vars;
        let n = env.len();
        let mut r: Vec<(String, String)> = Vec::new();
        let mut i: usize = 0;
        while i < n
            invariant
                i <= n == env.names().len(),
                r.len() == i,
                forall|j: int|
                    0 <= j < i ==> (#[trigger] r@[j]).0@ == env.names()[j] && r@[j].1@
                        == env@[env.names()[j]]@,
            decreases n - i,
        {
            r.push((env.name_at(i).clone(), env.value_at(i).clone()));
            i += 1;
        }
        r
    }

    /// Begins to stop a process.
    pub fn stop_process(&self, name: &str) -> (r: (Operation, Step))
        ensures
            begins_stop(*self, name@, r.0.opts, r.1),
            r.0.name@ == name@,
            r.0.opts == (LifecycleOptions { app_state: false, log_messages: true }),
            !r.0.restart,
            r.0.phase == r.1.action.phase(),
    {
        self.stop_process_with_opts(name, &LifecycleOptions::new())
    }

    /// Begins to stop a process, with the given options.
    pub fn stop_process_with_opts(&self, name: &str, opts: &LifecycleOptions) -> (r: (
        Operation,
        Step,
    ))
        ensures
            begins_stop(*self, name@, *opts, r.1),
            r.0.name@ == name@,
            r.0.opts == *opts,
            !r.0.restart,
            r.0.phase == r.1.action.phase(),
    {
        let notice = tell_if_logging(opts, around("Stopping process '", name, "'..."));
        let action = if self.runtime.actors.contains_key(name) {
            Action::Ask(ActorCommand::Stop)
        } else {
            Action::Finish(Err(ProcessError::ProcessNotRunning { name: name.to_owned() }))
        };
        let phase = action.next_phase();
        (
            Operation { name: name.to_owned(), opts: *opts, restart: false, phase },
            Step { notice, action },
        )
    }

    /// What came of telling something to the actor of a process. `reply` is what
    /// the actor had to say, if the process has one.
    pub fn send_actor_command(&self, name: &str, reply: Reply) -> (r: Option<Option<i32>>)
        ensures
            r == if self.runtime.actors@.contains_key(name@) {
                answer(reply)
            } else {
                None
            },
    {
        if self.runtime.actors.contains_key(name) {
            answer_of(reply)
        } else {
            None
        }
    }

    /// Begins to restart a process.
    pub fn restart_process(&self, name: &str) -> (r: (Operation, Step))
        ensures
            begins_restart(
                *self,
                name@,
                (LifecycleOptions { app_state: false, log_messages: true }),
                r.1,
            ),
            r.0.name@ == name@,
            r.0.opts == (LifecycleOptions { app_state: false, log_messages: false }),
            r.0.restart,
            r.0.phase == r.1.action.phase(),
    {
        self.restart_process_with_opts(name, &LifecycleOptions::new())
    }

    /// Begins to restart a process, with the given options. The restart is
    /// announced, and its parts are not.
    pub fn restart_process_with_opts(&self, name: &str, opts: &LifecycleOptions) -> (r: (
        Operation,
        Step,
    ))
        ensures
            begins_restart(*self, name@, *opts, r.1),
            r.0.name@ == name@,
            r.0.opts == (LifecycleOptions { app_state: opts.app_state, log_messages: false }),
            r.0.restart,
            r.0.phase == r.1.action.phase(),
    {
        let notice = tell(opts.app_state, around("Restarting process '", name, "'..."));
        let quiet = LifecycleOptions { app_state: opts.app_state, log_messages: false };
        let action = self.escalate(name, ActorCommand::Stop);
        let phase = action.next_phase();
        (
            Operation { name: name.to_owned(), opts: quiet, restart: true, phase },
            Step { notice, action },
        )
    }

    fn escalate(&self, name: &str, command: ActorCommand) -> (r: Action)
        ensures
            r == after_stop(*self, name@, command),
    {
        if self.runtime.actors.contains_key(name) {
            Action::Ask(command)
        } else {
            Action::Sleep(RESTART_SETTLE)
        }
    }

    /// Goes on with an operation after the event that it waits for.
    pub fn resume(&mut self, op: &mut Operation, event: Event) -> (step: Step)
        requires
            old(op).awaits(event),
            old(self).has_room(*old(op), event),
        ensures
            resumes(*old(self), *final(self), *old(op), event, step),
            *final(op) == (Operation { phase: step.action.phase(), ..*old(op) }),
    {
        let step = match event {
            Event::Spawned(Ok(pid)) => self.attach(op.name.as_str(), pid),
            Event::Spawned(Err(source)) => {
                let error = ProcessError::ProcessSpawn { name: op.name.clone(), source };
                Step { notice: None, action: Action::Finish(Err(error)) }
            },
            Event::Watched { now } => self.complete_start(op.name.as_str(), &op.opts, now),
            Event::Replied(reply) => if !op.restart {
                complete_stop(op.name.as_str(), &op.opts, reply)
            } else {
                let action = match op.phase {
                    Phase::Asking(ActorCommand::Stop) => self.escalate(
                        op.name.as_str(),
                        ActorCommand::Kill,
                    ),
                    _ => Action::Sleep(RESTART_SETTLE),
                };
                Step { notice: None, action }
            },
            Event::Slept => self.begin_start(op.name.as_str(), &op.opts),
        };
        op.phase = step.action.next_phase();
        step
    }

    fn attach(&mut self, name: &str, pid: Option<u32>) -> (step: Step)
        requires
            handles_of(*old(self), name@) + 2 <= usize::MAX,
        ensures
            attaches(*old(self), *final(self), name@, pid, step),
    {
        let handles: usize = match self.runtime.output_handles.get(name) {
            Some(n) => *n,
            None => 0,
        };
        self.runtime.output_handles.insert(name.to_owned(), handles + 2);
        self.runtime.actors.insert(name.to_owned(), ActorHandle { pid });
        Step {
            notice: None,
            action: Action::Watch { pid, timeout: self.config.shutdown_timeout },
        }
    }

    fn complete_start(&mut self, name: &str, opts: &LifecycleOptions, now: u128) -> (step: Step)
        requires
            can_start(old(self).runtime.processes@, name@),
        ensures
            completes_start(*old(self), *final(self), name@, *opts, now, step),
    {
        self.runtime.record_start(name, now);
        let notice = if opts.log_messages && !opts.app_state {
            tell(false, around("Starting process '", name, "'"))
        } else {
            None
        };
        Step { notice, action: Action::Finish(Ok(())) }
    }
}

/// Whether the manager holds what the given lines of a Procfile say, and is
/// otherwise as before.
pub open spec fn loads(
    before: ProcessManager,
    after: ProcessManager,
    found: Seq<Seq<char>>,
) -> bool {
    let data = crate::procfile::ProcfileData {
        processes: after.runtime.processes,
        colors: after.config.colors,
        max_name_length: after.config.max_name_length,
    };
    &&& describes(data, definitions(found))
    &&& after.runtime.processes.names().no_duplicates()
    &&& after.runtime.actors == before.runtime.actors
    &&& after.runtime.output_handles == before.runtime.output_handles
    &&& after.config.env_vars == before.config.env_vars
    &&& after.config.log_file == before.config.log_file
    &&& after.config.shutdown_timeout == before.config.shutdown_timeout
    &&& after.config.shell == before.config.shell
    &&& after.config.host == before.config.host
}

fn complete_stop(name: &str, opts: &LifecycleOptions, reply: Reply) -> (step: Step)
    ensures
        completes_stop(name@, *opts, reply, step),
{
    match answer_of(reply) {
        None => Step {
            notice: None,
            action: Action::Finish(Err(ProcessError::ProcessNotRunning { name: name.to_owned() })),
        },
        Some(None) => Step {
            notice: tell_if_logging(
                opts,
                around("Process '", name, "' is ignoring termination signals"),
            ),
            action: Action::Finish(Ok(())),
        },
        Some(Some(_)) => Step {
            notice: tell_if_logging(opts, around("Stopped process '", name, "'")),
            action: Action::Finish(Ok(())),
        },
    }
}

/// The processes after the child of one was started.
pub open spec fn after_start(
    processes: Map<Seq<char>, ProcessInfo>,
    name: Seq<char>,
    now: u128,
) -> Map<Seq<char>, ProcessInfo> {
    if processes.contains_key(name) {
        processes.insert(name, started(processes[name], now))
    } else {
        processes
    }
}

/// The processes after the child of one has exited.
pub open spec fn after_exit(
    processes: Map<Seq<char>, ProcessInfo>,
    name: Seq<char>,
    exit_code: Option<i32>,
    now: u128,
) -> Map<Seq<char>, ProcessInfo> {
    if processes.contains_key(name) {
        processes.insert(name, exited(processes[name], exit_code, now))
    } else {
        processes
    }
}

/// Whether one more start of a process can be counted.
pub open spec fn can_start(processes: Map<Seq<char>, ProcessInfo>, name: Seq<char>) -> bool {
    processes.contains_key(name) ==> processes[name].cumulative_runtime <= MAX_SPAN
        && processes[name].restart_count < u32::MAX
}

/// Whether the session of a process that ends at `now` can be counted.
pub open spec fn can_exit(processes: Map<Seq<char>, ProcessInfo>, name: Seq<char>, now: u128) -> bool {
    processes.contains_key(name) ==> runtime_at_exit(processes[name], now) <= MAX_SPAN
}

impl RuntimeState {
    /// Notes that the child of a process was started.
    pub(crate) fn record_start(&mut self, name: &str, now: u128)
        requires
            can_start(old(self).processes@, name@),
        ensures
            final(self).actors == old(self).actors,
            final(self).output_handles == old(self).output_handles,
            final(self).processes.names() == old(self).processes.names(),
            final(self).processes@ == after_start(old(self).processes@, name@, now),
    {
        let found = match self.processes.get(name) {
            Some(info) => Some(info.clone()),
            None => None,
        };
        if let Some(mut info) = found {
            let ghost before = info;
            if info.last_restart.is_some() || whole_secs(info.cumulative_runtime) > 0 {
                info.restart_count = info.restart_count + 1;
            }
            info.status = ProcessStatus::Running;
            info.last_restart = Some(now);
            info.stopped_at = None;
            assert(info == started(before, now));
            self.processes.insert(name.to_owned(), info);
        }
    }

    /// Notes that the child of a process has exited.
    pub(crate) fn record_exit(&mut self, name: &str, exit_code: Option<i32>, now: u128)
        requires
            can_exit(old(self).processes@, name@, now),
        ensures
            final(self).actors == old(self).actors,
            final(self).output_handles == old(self).output_handles,
            final(self).processes.names() == old(self).processes.names(),
            final(self).processes@ == after_exit(old(self).processes@, name@, exit_code, now),
    {
        let found = match self.processes.get(name) {
            Some(info) => Some(info.clone()),
            None => None,
        };
        if let Some(mut info) = found {
            let ghost before = info;
            if let Some(start) = info.last_restart {
                info.cumulative_runtime = info.cumulative_runtime + elapsed(start, now);
            }
            info.status = ProcessStatus::Stopped;
            info.stopped_at = Some(now);
            info.exit_code = exit_code;
            assert(info == exited(before, exit_code, now));
            self.processes.insert(name.to_owned(), info);
        }
    }
}

/// The exit of a child: its actor and the tasks that read its output are
/// forgotten, and the process is stopped.
pub open spec fn finalizes(
    before: RuntimeState,
    after: RuntimeState,
    name: Seq<char>,
    exit_code: Option<i32>,
    now: u128,
) -> bool {
    &&& after.actors@ == before.actors@.remove(name)
    &&& after.output_handles@ == before.output_handles@.remove(name)
    &&& after.processes.names() == before.processes.names()
    &&& after.processes@ == after_exit(before.processes@, name, exit_code, now)
}

/// Notes that the child of a process has exited.
pub fn finalize_process_exit(
    name: &str,
    exit_code: Option<i32>,
    runtime: &mut RuntimeState,
    now: u128,
)
    requires
        can_exit(old(runtime).processes@, name@, now),
    ensures
        finalizes(*old(runtime), *final(runtime), name@, exit_code, now),
{
    let _ = runtime.actors.remove(name);
    let _ = runtime.output_handles.remove(name);
    runtime.record_exit(name, exit_code, now);
}

/// What the screen says of a child that exited by itself.
pub open spec fn exit_message(name: Seq<char>, exit_code: Option<i32>) -> Seq<char> {
    let head = "Process '"@ + name;
    match exit_code {
        None => head + "' terminated by signal"@,
        Some(code) => if code == 0 {
            head + "' exited cleanly"@
        } else if code == EXIT_CODE_FORCED_TERMINATION {
            head + "' terminated gracefully"@
        } else if code == EXIT_CODE_KEYBOARD_INTERRUPT || code == EXIT_CODE_CTRL_C_WINDOWS {
            head + "' interrupted gracefully"@
        } else {
            head + "' exited with code "@ + signed_decimal(code as int)
        },
    }
}

/// The message for a child that exited by itself. Only the screen shows it.
pub fn announce_natural_exit(name: &str, exit_code: Option<i32>, app_state: bool) -> (r: Option<
    Notice,
>)
    ensures
        if app_state {
            tells(r, true, exit_message(name@, exit_code))
        } else {
            r is None
        },
{
    if !app_state {
        return None;
    }
    let text = match exit_code {
        None => around("Process '", name, "' terminated by signal"),
        Some(code) => if code == 0 {
            around("Process '", name, "' exited cleanly")
        } else if code == EXIT_CODE_FORCED_TERMINATION {
            around("Process '", name, "' terminated gracefully")
        } else if code == EXIT_CODE_KEYBOARD_INTERRUPT || code == EXIT_CODE_CTRL_C_WINDOWS {
            around("Process '", name, "' interrupted gracefully")
        } else {
            let mut text = around("Process '", name, "' exited with code ");
            push_signed(&mut text, code);
            text
        },
    };
    tell(true, text)
}

/// How all processes are to be stopped: which, how, and how long to wait for
/// each.
#[derive(Debug)]
pub struct StopAllPlan {
    pub notice: Option<Notice>,
    pub names: Vec<String>,
    pub opts: LifecycleOptions,
    pub timeout: u128,
    /// How long to wait in the end.
    pub settle: u128,
}

/// The names among the given ones whose processes are not stopped.
pub open spec fn not_stopped(
    names: Seq<Seq<char>>,
    processes: Map<Seq<char>, ProcessInfo>,
) -> Seq<Seq<char>>
    decreases names.len(),
{
    if names.len() == 0 {
        seq![]
    } else if processes[names.last()].status != ProcessStatus::Stopped {
        not_stopped(names.drop_last(), processes).push(names.last())
    } else {
        not_stopped(names.drop_last(), processes)
    }
}

/// The names of those that were not stopped, out of names and outcomes.
pub open spec fn failed_of(outcomes: Seq<(String, bool)>) -> Seq<Seq<char>>
    decreases outcomes.len(),
{
    if outcomes.len() == 0 {
        seq![]
    } else if outcomes.last().1 {
        failed_of(outcomes.drop_last())
    } else {
        failed_of(outcomes.drop_last()).push(outcomes.last().0@)
    }
}

/// The names of those that were not stopped, which are to be killed.
pub fn failed_shutdowns(outcomes: &Vec<(String, bool)>) -> (r: Vec<String>)
    ensures
        texts(r@) == failed_of(outcomes@),
{
    let mut r: Vec<String> = Vec::new();
    let mut i: usize = 0;
    assert(outcomes@.take(0) =~= seq![]);
    assert(texts(r@) =~= seq![]);
    while i < outcomes.len()
        invariant
            i <= outcomes.len(),
            texts(r@) == failed_of(outcomes@.take(i as int)),
        decreases outcomes.len() - i,
    {
        let ghost before = texts(r@);
        assert(outcomes@.take(i + 1).drop_last() =~= outcomes@.take(i as int));
        if !outcomes[i].1 {
            r.push(outcomes[i].0.clone());
            assert(texts(r@) =~= before.push(outcomes@[i as int].0@));
        }
        i += 1;
    }
    assert(outcomes@.take(i as int) =~= outcomes@);
    r
}

/// Whether a process was stopped: in time, and without an error. `result` is
/// `None` where the time ran out.
pub fn stopped_in_time(result: &Option<Result<(), ProcessError>>) -> (r: bool)
    ensures
        r == (*result matches Some(Ok(_))),
{
    match result {
        Some(Ok(_)) => true,
        _ => false,
    }
}

/// The interrupts to send, each with its message: one for each actor that has a
/// process id.
pub open spec fn interrupts_of(
    names: Seq<Seq<char>>,
    actors: Map<Seq<char>, ActorHandle>,
    windows: bool,
) -> Seq<(u32, Seq<char>)>
    decreases names.len(),
{
    if names.len() == 0 {
        seq![]
    } else {
        let before = interrupts_of(names.drop_last(), actors, windows);
        match actors[names.last()].pid {
            Some(pid) => before.push((pid, interrupt_message(names.last(), windows))),
            None => before,
        }
    }
}

/// What is said of an interrupt.
pub open spec fn interrupt_message(name: Seq<char>, windows: bool) -> Seq<char> {
    if windows {
        "Sending interrupt signal to '"@ + name + "'..."@
    } else {
        "Sending SIGINT to '"@ + name + "'..."@
    }
}

/// The numbers and texts of a list.
pub open spec fn numbered_texts(v: Seq<(u32, String)>) -> Seq<(u32, Seq<char>)> {
    Seq::new(v.len(), |i: int| (v[i].0, v[i].1@))
}

/// How many tasks read output, over all the given names.
pub open spec fn total_handles(names: Seq<Seq<char>>, handles: Map<Seq<char>, usize>) -> nat
    decreases names.len(),
{
    if names.len() == 0 {
        0
    } else {
        total_handles(names.drop_last(), handles) + handles[names.last()] as nat
    }
}

proof fn lemma_total_handles(names: Seq<Seq<char>>, handles: Map<Seq<char>, usize>, i: int)
    requires
        0 <= i <= names.len(),
    ensures
        total_handles(names.take(i), handles) <= total_handles(names, handles),
    decreases names.len(),
{
    if i < names.len() {
        lemma_total_handles(names.drop_last(), handles, i);
        assert(names.drop_last().take(i) =~= names.take(i));
    } else {
        assert(names.take(i) =~= names);
    }
}

/// What a line of input asks for.
#[derive(Debug)]
pub enum Command {
    Nothing,
    Status,
    Start(String),
    Stop(String),
    StopAll,
    Restart(String),
    /// The line is refused, with a message and an error.
    Refuse { notice: Option<Notice>, error: ProcessError },
}

/// Whether `c` refuses a line with the given usage message and error.
pub open spec fn refuses_usage(
    c: Command,
    app_state: bool,
    usage: Seq<char>,
    reason: Seq<char>,
) -> bool {
    c matches Command::Refuse { notice, error: ProcessError::InputRead(e) } && tells(
        notice,
        app_state,
        usage,
    ) && e@ == reason
}

/// Whether `c` refuses a line that is no command. The screen has its own way to
/// say so.
pub open spec fn refuses_unknown(c: Command, app_state: bool, input: Seq<char>) -> bool {
    c matches Command::Refuse { notice, error: ProcessError::InputRead(e) } && e@
        == "Unknown command: "@ + input && if app_state {
        notice is None
    } else {
        tells(notice, false, "Unknown command: "@ + input)
    }
}

/// Whether `c` is what the line `input`, made of the words `w`, asks for.
pub open spec fn is_command(c: Command, w: Seq<Seq<char>>, input: Seq<char>, app_state: bool) -> bool {
    if w.len() == 0 {
        c == Command::Nothing
    } else if w.len() == 1 && (w[0] == "q"@ || w[0] == "quit"@) {
        c == Command::Nothing
    } else if w.len() == 1 && w[0] == "status"@ {
        c == Command::Status
    } else if w.len() == 2 && w[0] == "start"@ {
        c matches Command::Start(name) && name@ == w[1]
    } else if w.len() == 1 && w[0] == "start"@ {
        refuses_usage(
            c,
            app_state,
            "Usage: start <name> - Start a specific stopped process"@,
            "Missing process name for start command"@,
        )
    } else if w.len() == 2 && (w[0] == "s"@ || w[0] == "stop"@) {
        if w[1] == "all"@ {
            c == Command::StopAll
        } else {
            c matches Command::Stop(name) && name@ == w[1]
        }
    } else if w.len() == 1 && (w[0] == "s"@ || w[0] == "stop"@) {
        refuses_usage(
            c,
            app_state,
            "Usage: stop <name> or stop all - Stop a specific process or all processes"@,
            "Missing process name for stop command"@,
        )
    } else if w.len() == 2 && (w[0] == "r"@ || w[0] == "restart"@) {
        c matches Command::Restart(name) && name@ == w[1]
    } else if w.len() == 1 && (w[0] == "r"@ || w[0] == "restart"@) {
        refuses_usage(
            c,
            app_state,
            "Usage: restart <name> - Restart a specific process"@,
            "Missing process name for restart command"@,
        )
    } else {
        refuses_unknown(c, app_state, input)
    }
}

fn refuse(app_state: bool, usage: &str, reason: &str) -> (r: Command)
    ensures
        refuses_usage(r, app_state, usage@, reason@),
{
    Command::Refuse {
        notice: tell(app_state, usage.to_owned()),
        error: ProcessError::InputRead(reason.to_owned()),
    }
}

/// The process once it is known to have lost its child.
pub open spec fn orphan_fixed(info: ProcessInfo, has_actor: bool, now: u128) -> ProcessInfo {
    if info.status == ProcessStatus::Running && !has_actor {
        ProcessInfo { status: ProcessStatus::Stopped, stopped_at: Some(now), ..info }
    } else {
        info
    }
}

impl ProcessManager {
    /// Whether an operation can go on with the event.
    pub fn can_resume(&self, op: &Operation, event: &Event) -> (r: bool)
        ensures
            r == (op.awaits(*event) && self.has_room(*op, *event)),
    {
        match event {
            Event::Spawned(_) => op.phase == Phase::Spawning && match self.runtime.output_handles.get(
                op.name.as_str(),
            ) {
                Some(n) => *n <= usize::MAX - 2,
                None => true,
            },
            Event::Watched { .. } => op.phase == Phase::Watching
                && match self.runtime.processes.get(op.name.as_str()) {
                Some(info) => info.cumulative_runtime <= MAX_SPAN && info.restart_count < u32::MAX,
                None => true,
            },
            Event::Replied(_) => match op.phase {
                Phase::Asking(_) => true,
                _ => false,
            },
            Event::Slept => op.phase == Phase::Settling,
        }
    }

    /// How to stop all processes.
    pub fn stop_all(&self) -> (r: Option<StopAllPlan>)
        requires
            not_stopped(self.runtime.processes.names(), self.runtime.processes@).len() > 0
                ==> self.config.shutdown_timeout + STOP_ALL_CUSHION <= MAX_SPAN,
        ensures
            self.stops_all((LifecycleOptions { app_state: false, log_messages: true }), r),
    {
        self.stop_all_with_opts(&LifecycleOptions::new())
    }

    /// How to stop all processes that are not stopped, those in the middle of a
    /// restart with them. There is nothing to do or to say where all are. The
    /// time for each is a little longer than the one its actor goes by.
    pub open spec fn stops_all(&self, opts: LifecycleOptions, plan: Option<StopAllPlan>) -> bool {
        let names = not_stopped(self.runtime.processes.names(), self.runtime.processes@);
        match plan {
            None => names.len() == 0,
            Some(plan) => {
                &&& names.len() > 0
                &&& texts(plan.names@) == names
                &&& tells(
                    plan.notice,
                    opts.app_state,
                    "Interrupt received, stopping processes gracefully..."@,
                )
                &&& plan.opts == (LifecycleOptions {
                    app_state: opts.app_state,
                    log_messages: false,
                })
                &&& plan.timeout == self.config.shutdown_timeout + STOP_ALL_CUSHION
                &&& plan.settle == STOP_ALL_SETTLE
            },
        }
    }

    /// How to stop all processes, with the given options.
    pub fn stop_all_with_opts(&self, opts: &LifecycleOptions) -> (r: Option<StopAllPlan>)
        requires
            not_stopped(self.runtime.processes.names(), self.runtime.processes@).len() > 0
                ==> self.config.shutdown_timeout + STOP_ALL_CUSHION <= MAX_SPAN,
        ensures
            self.stops_all(*opts, r),
    {
        let names = self.unstopped_names();
        assert(texts(names@).len() == names.len());
        if names.len() == 0 {
            return None;
        }
        let text = "Interrupt received, stopping processes gracefully...".to_owned();
        Some(
            StopAllPlan {
                notice: tell(opts.app_state, text),
                names,
                opts: LifecycleOptions { app_state: opts.app_state, log_messages: false },
                timeout: self.config.shutdown_timeout + STOP_ALL_CUSHION,
                settle: STOP_ALL_SETTLE,
            },
        )
    }

    fn unstopped_names(&self) -> (r: Vec<String>)
        ensures
            texts(r@) == not_stopped(self.runtime.processes.names(), self.runtime.processes@),
    {
        let processes = &self.runtime.processes;
        let ghost all = processes.names();
        let n = processes.len();
        let mut r: Vec<String> = Vec::new();
        let mut i: usize = 0;
        assert(all.take(0) =~= seq![]);
        assert(texts(r@) =~= seq![]);
        while i < n
            invariant
                i <= n == all.len(),
                all == processes.names(),
                texts(r@) == not_stopped(all.take(i as int), processes@),
            decreases n - i,
        {
            let ghost before = texts(r@);
            assert(all.take(i + 1).drop_last() =~= all.take(i as int));
            if processes.value_at(i).status != ProcessStatus::Stopped {
                r.push(processes.name_at(i).clone());
                assert(texts(r@) =~= before.push(all[i as int]));
            }
            i += 1;
        }
        assert(all.take(i as int) =~= all);
        r
    }

    /// The interrupts that reach all running processes: process ids, and what
    /// is said of each.
    pub fn send_ctrl_c_to_all(&self) -> (r: Vec<(u32, String)>)
        ensures
            numbered_texts(r@) == interrupts_of(
                self.runtime.actors.names(),
                self.runtime.actors@,
                self.config.host.windows,
            ),
    {
        let actors = &self.runtime.actors;
        let windows = self.config.host.windows;
        let ghost all = actors.names();
        let n = actors.len();
        let mut r: Vec<(u32, String)> = Vec::new();
        let mut i: usize = 0;
        assert(all.take(0) =~= seq![]);
        assert(numbered_texts(r@) =~= seq![]);
        while i < n
            invariant
                i <= n == all.len(),
                all == actors.names(),
                numbered_texts(r@) == interrupts_of(all.take(i as int), actors@, windows),
            decreases n - i,
        {
            let ghost before = numbered_texts(r@);
            assert(all.take(i + 1).drop_last() =~= all.take(i as int));
            if let Some(pid) = actors.value_at(i).pid {
                let name = actors.name_at(i).as_str();
                let text = if windows {
                    around("Sending interrupt signal to '", name, "'...")
                } else {
                    around("Sending SIGINT to '", name, "'...")
                };
                r.push((pid, text));
                assert(numbered_texts(r@) =~= before.push((pid, text@)));
            }
            i += 1;
        }
        assert(all.take(i as int) =~= all);
        r
    }

    /// The printed status of all processes.
    pub fn show_status(&self, now: u128) -> (r: Vec<String>)
        requires
            now <= MAX_SPAN,
            forall|name: Seq<char>| #[trigger]
                self.runtime.processes@.contains_key(name) ==> total_runtime(
                    self.runtime.processes@[name],
                    now,
                ) <= MAX_SPAN,
        ensures
            self.shows_table(r@, now),
    {
        self.show_status_with_opts(&LifecycleOptions::new(), now)
    }

    /// Whether `r` is the printed status.
    pub open spec fn shows_table(&self, r: Seq<String>, now: u128) -> bool {
        let names = self.runtime.processes.names();
        &&& r.len() == names.len() + 3
        &&& exists|heading: Seq<char>| #[trigger]
            crate::color::paint_of(heading, "Process Status:"@, crate::color::bold_code())
                && r[0]@ == "\n"@ + heading
        &&& r[1]@ == crate::text::repeated('-', 60)
        &&& forall|i: int|
            0 <= i < names.len() ==> is_table_row(
                (#[trigger] r[i + 2])@,
                names[i],
                self.runtime.processes@[names[i]],
                now,
            )
        &&& r[r.len() - 1]@ == crate::text::repeated('-', 60) + "\n"@
    }

    /// Whether `r` is the status on the screen.
    pub open spec fn shows_rows(&self, r: Seq<String>, now: u128) -> bool {
        let names = self.runtime.processes.names();
        &&& r.len() == names.len()
        &&& forall|i: int|
            0 <= i < names.len() ==> is_screen_row(
                (#[trigger] r[i])@,
                names[i],
                self.runtime.processes@[names[i]],
                now,
            )
    }

    /// The status of all processes: lines to print, or rows for the screen.
    pub fn show_status_with_opts(&self, opts: &LifecycleOptions, now: u128) -> (r: Vec<String>)
        requires
            now <= MAX_SPAN,
            !opts.app_state ==> forall|name: Seq<char>| #[trigger]
                self.runtime.processes@.contains_key(name) ==> total_runtime(
                    self.runtime.processes@[name],
                    now,
                ) <= MAX_SPAN,
        ensures
            if opts.app_state {
                self.shows_rows(r@, now)
            } else {
                self.shows_table(r@, now)
            },
    {
        if opts.app_state {
            screen_rows(&self.runtime.processes, now)
        } else {
            table_lines(&self.runtime.processes, now)
        }
    }

    /// What a line of input asks for, with messages to the terminal.
    pub fn handle_command(&self, input: &str) -> (r: Command)
        ensures
            is_command(r, words(input@), input@, false),
    {
        self.handle_command_with_opts(input, &LifecycleOptions::new())
    }

    /// What a line of input asks for.
    pub fn handle_command_with_opts(&self, input: &str, opts: &LifecycleOptions) -> (r: Command)
        ensures
            is_command(r, words(input@), input@, opts.app_state),
    {
        let parts = split_words(input);
        let ui = opts.app_state;
        let ghost w = words(input@);
        assert(w.len() == parts.len());
        if parts.len() == 0 {
            return Command::Nothing;
        }
        let head = parts[0].as_str();
        assert(w[0] == head@);
        if parts.len() == 1 {
            if same_text(head, "q") || same_text(head, "quit") {
                return Command::Nothing;
            }
            if same_text(head, "status") {
                return Command::Status;
            }
            if same_text(head, "start") {
                return refuse(
                    ui,
                    "Usage: start <name> - Start a specific stopped process",
                    "Missing process name for start command",
                );
            }
            if same_text(head, "s") || same_text(head, "stop") {
                return refuse(
                    ui,
                    "Usage: stop <name> or stop all - Stop a specific process or all processes",
                    "Missing process name for stop command",
                );
            }
            if same_text(head, "r") || same_text(head, "restart") {
                return refuse(
                    ui,
                    "Usage: restart <name> - Restart a specific process",
                    "Missing process name for restart command",
                );
            }
        } else if parts.len() == 2 {
            let name = parts[1].as_str();
            assert(w[1] == name@);
            if same_text(head, "start") {
                return Command::Start(name.to_owned());
            }
            if same_text(head, "s") || same_text(head, "stop") {
                if same_text(name, "all") {
                    return Command::StopAll;
                }
                return Command::Stop(name.to_owned());
            }
            if same_text(head, "r") || same_text(head, "restart") {
                return Command::Restart(name.to_owned());
            }
        }
        let text = "Unknown command: ".to_owned().concat(input);
        let notice = if ui {
            None
        } else {
            tell(false, text.clone())
        };
        Command::Refuse { notice, error: ProcessError::InputRead(text) }
    }

    /// The names of all processes.
    pub fn process_names(&self) -> (r: Vec<String>)
        ensures
            texts(r@) == self.runtime.processes.names(),
    {
        self.runtime.processes.all_names()
    }

    /// The width of the name column: that of the longest name, or of "gaffa".
    pub open spec fn name_width(&self) -> nat {
        if self.config.max_name_length >= GAFFA_LEN {
            self.config.max_name_length as nat
        } else {
            GAFFA_LEN as nat
        }
    }

    /// The width of the name column.
    pub fn get_max_name_length(&self) -> (r: usize)
        ensures
            r == self.name_width(),
    {
        if self.config.max_name_length >= GAFFA_LEN {
            self.config.max_name_length
        } else {
            GAFFA_LEN
        }
    }

    /// The number of actors. Each running child has one.
    pub fn monitor_handle_count(&self) -> (r: usize)
        ensures
            r == self.runtime.actors.names().len(),
    {
        self.runtime.actors.len()
    }

    /// The number of tasks that read output.
    pub fn output_handle_count(&self) -> (r: usize)
        requires
            total_handles(
                self.runtime.output_handles.names(),
                self.runtime.output_handles@,
            ) <= usize::MAX,
        ensures
            r == total_handles(
                self.runtime.output_handles.names(),
                self.runtime.output_handles@,
            ),
    {
        let handles = &self.runtime.output_handles;
        let ghost all = handles.names();
        let n = handles.len();
        let mut sum: usize = 0;
        let mut i: usize = 0;
        assert(all.take(0) =~= seq![]);
        while i < n
            invariant
                i <= n == all.len(),
                all == handles.names(),
                sum == total_handles(all.take(i as int), handles@),
                total_handles(all, handles@) <= usize::MAX,
            decreases n - i,
        {
            assert(all.take(i + 1).drop_last() =~= all.take(i as int));
            proof {
                lemma_total_handles(all, handles@, i + 1);
            }
            sum = sum + *handles.value_at(i);
            i += 1;
        }
        assert(all.take(i as int) =~= all);
        sum
    }

    /// The number of running children.
    pub fn children_count(&self) -> (r: usize)
        ensures
            r == self.runtime.actors.names().len(),
    {
        self.runtime.actors.len()
    }

    /// The colour of the process with the given number.
    pub fn get_process_color(index: usize) -> (r: Color)
        ensures
            r == crate::color::color_of_index(index as nat),
    {
        output::get_process_color(index)
    }

    /// What is known of a process.
    pub fn get_process_info(&self, name: &str) -> (r: Option<ProcessInfo>)
        ensures
            match r {
                Some(info) => self.runtime.processes@.contains_key(name@) && info
                    == self.runtime.processes@[name@],
                None => !self.runtime.processes@.contains_key(name@),
            },
    {
        match self.runtime.processes.get(name) {
            Some(info) => Some(info.clone()),
            None => None,
        }
    }

    /// The colour of a process. A process without one is white.
    pub open spec fn color_of(&self, name: Seq<char>) -> Color {
        if self.config.colors@.contains_key(name) {
            self.config.colors@[name]
        } else {
            Color::White
        }
    }

    /// The colour of a process, in which its output is shown.
    pub fn color_for(&self, name: &str) -> (r: Color)
        ensures
            r == self.color_of(name@),
    {
        match self.config.colors.get(name) {
            Some(color) => *color,
            None => Color::White,
        }
    }

    /// All processes, with their colours.
    pub fn process_snapshot(&self) -> (r: Vec<(String, ProcessInfo, Color)>)
        ensures
            r.len() == self.runtime.processes.names().len(),
            forall|i: int|
                0 <= i < r.len() ==> {
                    let name = self.runtime.processes.names()[i];
                    &&& (#[trigger] r@[i]).0@ == name
                    &&& r@[i].1 == self.runtime.processes@[name]
                    &&& r@[i].2 == self.color_of(name)
                },
    {
        let processes = &self.runtime.processes;
        let n = processes.len();
        let mut r: Vec<(String, ProcessInfo, Color)> = Vec::new();
        let mut i: usize = 0;
        while i < n
            invariant
                i <= n == processes.names().len(),
                r.len() == i,
                *processes == self.runtime.processes,
                forall|j: int|
                    0 <= j < i ==> {
                        let name = processes.names()[j];
                        &&& (#[trigger] r@[j]).0@ == name
                        &&& r@[j].1 == processes@[name]
                        &&& r@[j].2 == self.color_of(name)
                    },
            decreases n - i,
        {
            let name = processes.name_at(i).clone();
            let color = self.color_for(name.as_str());
            r.push((name, processes.value_at(i).clone(), color));
            i += 1;
        }
        r
    }

    /// Keeps the named processes and forgets the others.
    pub fn retain_processes(&mut self, names: &Vec<String>)
        ensures
            final(self).config == old(self).config,
            final(self).runtime.actors == old(self).runtime.actors,
            final(self).runtime.output_handles == old(self).runtime.output_handles,
            final(self).runtime.processes@ == old(self).runtime.processes@.restrict(
                texts(names@).to_set(),
            ),
            final(self).runtime.processes.names() == kept(
                old(self).runtime.processes.names(),
                texts(names@),
            ),
    {
        self.runtime.processes.retain(names);
    }

    /// Whether every process is stopped.
    pub fn all_stopped(&self) -> (r: bool)
        ensures
            r == forall|name: Seq<char>| #[trigger]
                self.runtime.processes@.contains_key(name)
                    ==> self.runtime.processes@[name].status == ProcessStatus::Stopped,
    {
        let processes = &self.runtime.processes;
        let n = processes.len();
        let mut i: usize = 0;
        while i < n
            invariant
                i <= n == processes.names().len(),
                *processes == self.runtime.processes,
                forall|j: int|
                    0 <= j < i ==> processes@[#[trigger] processes.names()[j]].status
                        == ProcessStatus::Stopped,
            decreases n - i,
        {
            if processes.value_at(i).status != ProcessStatus::Stopped {
                return false;
            }
            i += 1;
        }
        proof {
            assert forall|name: Seq<char>| #[trigger]
                processes@.contains_key(name) implies processes@[name].status
                == ProcessStatus::Stopped by {
                NameMap::lemma_listed(*processes, name);
                let j = processes.names().index_of(name);
                assert(processes.names()[j] == name);
            }
        }
        true
    }

    /// The colours of all processes.
    pub fn get_colors(&self) -> (r: NameMap<Color>)
        ensures
            r@ == self.config.colors@,
            r.names() == self.config.colors.names(),
    {
        self.config.colors.copied()
    }

    /// The colours of all processes, where the configuration is `free` to be
    /// read at once.
    pub fn try_get_colors(&self, free: bool) -> (r: Option<NameMap<Color>>)
        ensures
            r is Some <==> free,
            r matches Some(colors) ==> colors@ == self.config.colors@ && colors.names()
                == self.config.colors.names(),
    {
        if free {
            Some(self.get_colors())
        } else {
            None
        }
    }

    /// Marks processes as stopped that count as running and have no child.
    pub fn fix_orphaned_process_status(&mut self, now: u128)
        ensures
            final(self).config == old(self).config,
            final(self).runtime.actors == old(self).runtime.actors,
            final(self).runtime.output_handles == old(self).runtime.output_handles,
            final(self).runtime.processes.names() == old(self).runtime.processes.names(),
            final(self).runtime.processes@.dom() == old(self).runtime.processes@.dom(),
            forall|name: Seq<char>| #[trigger]
                old(self).runtime.processes@.contains_key(name)
                    ==> final(self).runtime.processes@[name] == orphan_fixed(
                    old(self).runtime.processes@[name],
                    old(self).runtime.actors@.contains_key(name),
                    now,
                ),
    {
        let n = self.runtime.processes.len();
        let ghost all = self.runtime.processes.names();
        let ghost before = self.runtime.processes@;
        let ghost actors = self.runtime.actors@;
        let mut i: usize = 0;
        while i < n
            invariant
                i <= n == all.len(),
                all.no_duplicates(),
                self.runtime.processes.names() == all,
                self.runtime.processes@.dom() == before.dom(),
                self.config == old(self).config,
                self.runtime.actors == old(self).runtime.actors,
                self.runtime.output_handles == old(self).runtime.output_handles,
                actors == self.runtime.actors@,
                forall|j: int|
                    0 <= j < i ==> self.runtime.processes@[#[trigger] all[j]] == orphan_fixed(
                        before[all[j]],
                        actors.contains_key(all[j]),
                        now,
                    ),
                forall|j: int|
                    i <= j < n ==> self.runtime.processes@[#[trigger] all[j]] == before[all[j]],
            decreases n - i,
        {
            let name = self.runtime.processes.name_at(i).clone();
            let mut info = self.runtime.processes.value_at(i).clone();
            assert(info == before[all[i as int]]);
            if info.status == ProcessStatus::Running && !self.runtime.actors.contains_key(
                name.as_str(),
            ) {
                info.status = ProcessStatus::Stopped;
                info.stopped_at = Some(now);
                self.runtime.processes.insert(name, info);
                assert(self.runtime.processes@.dom() =~= before.dom());
            }
            i += 1;
        }
        proof {
            assert forall|name: Seq<char>| #[trigger]
                before.contains_key(name) implies self.runtime.processes@[name] == orphan_fixed(
                before[name],
                actors.contains_key(name),
                now,
            ) by {
                assert(self.runtime.processes@.contains_key(name));
                NameMap::lemma_listed(self.runtime.processes, name);
                let j = all.index_of(name);
                assert(all[j] == name);
            }
        }
    }

    /// Whether every process that ever ran is stopped.
    pub fn all_started_processes_stopped(&self) -> (r: bool)
        ensures
            r == forall|name: Seq<char>| #[trigger]
                self.runtime.processes@.contains_key(name)
                    && self.runtime.processes@[name].last_restart is Some
                    ==> self.runtime.processes@[name].status == ProcessStatus::Stopped,
    {
        let processes = &self.runtime.processes;
        let n = processes.len();
        let mut i: usize = 0;
        while i < n
            invariant
                i <= n == processes.names().len(),
                *processes == self.runtime.processes,
                forall|j: int|
                    0 <= j < i && processes@[#[trigger] processes.names()[j]].last_restart is Some
                        ==> processes@[processes.names()[j]].status == ProcessStatus::Stopped,
            decreases n - i,
        {
            let info = processes.value_at(i);
            if info.last_restart.is_some() && info.status != ProcessStatus::Stopped {
                return false;
            }
            i += 1;
        }
        proof {
            assert forall|name: Seq<char>| #[trigger]
                processes@.contains_key(name)
                    && processes@[name].last_restart is Some implies processes@[name].status
                == ProcessStatus::Stopped by {
                NameMap::lemma_listed(*processes, name);
                let j = processes.names().index_of(name);
                assert(processes.names()[j] == name);
            }
        }
        true
    }

    /// A message of gaffa as the terminal shows it, in line with the output of
    /// the processes.
    pub fn print_system_message(&self, message: &str) -> (r: String)
        ensures
            announced(r@, message@, self.name_width(), Color::Magenta),
    {
        output::format_gaffa_message(message, self.get_max_name_length())
    }
}

/// A process has one child at most: once it has an actor, another start is
/// refused and changes nothing.
pub proof fn law_one_child_per_process(
    before: ProcessManager,
    running: ProcessManager,
    after: ProcessManager,
    name: Seq<char>,
    pid: Option<u32>,
    watch: Step,
    opts: LifecycleOptions,
    step: Step,
)
    requires
        attaches(before, running, name, pid, watch),
        begins_start(running, after, name, opts, step),
    ensures
        after == running,
        fails_running(step.action, name),
{
}

/// Once a child has exited, its process can be started again, and cannot be
/// stopped.
pub proof fn law_exit_frees_process(
    before: ProcessManager,
    freed: ProcessManager,
    after: ProcessManager,
    name: Seq<char>,
    exit_code: Option<i32>,
    now: u128,
    opts: LifecycleOptions,
    start: Step,
    stop: Step,
)
    requires
        finalizes(before.runtime, freed.runtime, name, exit_code, now),
        before.runtime.processes@.contains_key(name),
        begins_start(freed, after, name, opts, start),
        begins_stop(freed, name, opts, stop),
    ensures
        !fails_running(start.action, name),
        !fails_unknown(start.action, name),
        after.runtime.processes@[name].status == ProcessStatus::Restarting,
        fails_stopped(stop.action, name),
{
}

/// The time of a session goes into the total when it ends: what a process has
/// run in all is the same right before its exit and right after.
pub proof fn law_exit_keeps_runtime(info: ProcessInfo, exit_code: Option<i32>, now: u128)
    requires
        info.status == ProcessStatus::Running,
        runtime_at_exit(info, now) <= MAX_SPAN,
    ensures
        total_runtime(exited(info, exit_code, now), now) == total_runtime(info, now),
        exited(info, exit_code, now).cumulative_runtime >= info.cumulative_runtime,
{
}

/// The first start of a process counts no restart, and each later one counts
/// one.
pub proof fn law_restarts_are_counted(
    info: ProcessInfo,
    exit_code: Option<i32>,
    first: u128,
    end: u128,
    second: u128,
)
    requires
        info.restart_count < u32::MAX - 1,
    ensures
        is_new_process(info, info.command@) ==> started(info, first).restart_count == 0,
        ({
            let run = started(info, first);
            started(starting(exited(run, exit_code, end)), second).restart_count
                == run.restart_count + 1
        }),
{
}

/// After orphans were fixed, every process that counts as running has a child.
pub proof fn law_running_processes_have_children(
    before: ProcessManager,
    after: ProcessManager,
    now: u128,
    name: Seq<char>,
)
    requires
        after.runtime.actors == before.runtime.actors,
        after.runtime.processes@.dom() == before.runtime.processes@.dom(),
        forall|n: Seq<char>| #[trigger]
            before.runtime.processes@.contains_key(n) ==> after.runtime.processes@[n]
                == orphan_fixed(
                before.runtime.processes@[n],
                before.runtime.actors@.contains_key(n),
                now,
            ),
        after.runtime.processes@.contains_key(name),
        after.runtime.processes@[name].status == ProcessStatus::Running,
    ensures
        after.runtime.actors@.contains_key(name),
{
    assert(before.runtime.processes@.contains_key(name));
}

/// A restart goes from the stop over the kill and the pause to the start, and
/// never back: whatever it waits for next comes later in that order.
pub proof fn law_restart_goes_forward(
    before: ProcessManager,
    after: ProcessManager,
    op: Operation,
    event: Event,
    step: Step,
)
    requires
        op.restart,
        op.awaits(event),
        resumes(before, after, op, event, step),
    ensures
        phase_rank(step.action.phase()) > phase_rank(op.phase),
        step.action is Ask ==> op.phase == Phase::Asking(ActorCommand::Stop) && step.action
            == Action::Ask(ActorCommand::Kill),
{
}

/// A restart never runs two children side by side: where the child has survived
/// everything, the start at its end is refused and changes nothing.
pub proof fn law_restart_spares_survivor(
    before: ProcessManager,
    after: ProcessManager,
    op: Operation,
    step: Step,
)
    requires
        op.restart,
        before.runtime.actors@.contains_key(op.name@),
        resumes(before, after, op, Event::Slept, step),
    ensures
        after == before,
        fails_running(step.action, op.name@),
{
}

/// Whether every actor has the two tasks that read its child's output, and no
/// other tasks are left.
pub open spec fn is_tidy(runtime: RuntimeState) -> bool {
    &&& forall|name: Seq<char>| #[trigger]
        runtime.actors@.contains_key(name) <==> runtime.output_handles@.contains_key(name)
    &&& forall|name: Seq<char>| #[trigger]
        runtime.output_handles@.contains_key(name) ==> runtime.output_handles@[name] == 2
}

/// Tasks do not pile up: starts, stops and restarts keep two for each actor, as
/// long as no child is spawned for a process that has one.
pub proof fn law_operations_stay_tidy(
    before: ProcessManager,
    after: ProcessManager,
    op: Operation,
    event: Event,
    step: Step,
)
    requires
        is_tidy(before.runtime),
        resumes(before, after, op, event, step),
        event matches Event::Spawned(Ok(_)) ==> !before.runtime.actors@.contains_key(op.name@),
    ensures
        is_tidy(after.runtime),
{
}

/// The exit of a child takes its tasks with it.
pub proof fn law_exits_stay_tidy(
    before: RuntimeState,
    after: RuntimeState,
    name: Seq<char>,
    exit_code: Option<i32>,
    now: u128,
)
    requires
        is_tidy(before),
        finalizes(before, after, name, exit_code, now),
    ensures
        is_tidy(after),
        !after.actors@.contains_key(name),
        !after.output_handles@.contains_key(name),
{
}

/// The place of a phase in the order in which a restart goes through them.
pub open spec fn phase_rank(phase: Phase) -> nat {
    match phase {
        Phase::Asking(ActorCommand::Stop) => 0,
        Phase::Asking(ActorCommand::Kill) => 1,
        Phase::Settling => 2,
        Phase::Spawning => 3,
        Phase::Watching => 4,
        Phase::Done => 5,
    }
}

proof fn lemma_not_stopped(names: Seq<Seq<char>>, processes: Map<Seq<char>, ProcessInfo>, x: Seq<char>)
    ensures
        not_stopped(names, processes).contains(x) <==> names.contains(x) && processes[x].status
            != ProcessStatus::Stopped,
    decreases names.len(),
{
    if names.len() > 0 {
        let head = names.drop_last();
        lemma_not_stopped(head, processes, x);
        let all = not_stopped(names, processes);
        let some = not_stopped(head, processes);
        if names.contains(x) {
            let i = choose|i: int| 0 <= i < names.len() && names[i] == x;
            if i < head.len() {
                assert(head[i] == x);
            }
        }
        if head.contains(x) {
            let i = choose|i: int| 0 <= i < head.len() && head[i] == x;
            assert(names[i] == x);
        }
        if some.contains(x) {
            let i = choose|i: int| 0 <= i < some.len() && some[i] == x;
            assert(all[i] == x);
        }
        if all.contains(x) {
            let i = choose|i: int| 0 <= i < all.len() && all[i] == x;
            if i < some.len() {
                assert(some[i] == x);
            }
        }
        if names.last() == x && processes[x].status != ProcessStatus::Stopped {
            assert(all.last() == x);
        }
    }
}

/// A plan to stop all processes names each one that is not stopped, and no
/// other.
pub proof fn law_stop_all_reaches_all(
    m: ProcessManager,
    opts: LifecycleOptions,
    plan: Option<StopAllPlan>,
    name: Seq<char>,
)
    requires
        m.stops_all(opts, plan),
    ensures
        m.runtime.processes@.contains_key(name) && m.runtime.processes@[name].status
            != ProcessStatus::Stopped <==> plan is Some && texts(plan->0.names@).contains(name),
{
    NameMap::lemma_listed(m.runtime.processes, name);
    lemma_not_stopped(m.runtime.processes.names(), m.runtime.processes@, name);
    let names = not_stopped(m.runtime.processes.names(), m.runtime.processes@);
    if plan is None {
        assert(!names.contains(name));
    }
}

} // verus!
