//! The plain console: commands are run without a shell, children have no
//! actors, and a process counts as running by its recorded status.

use vstd::prelude::*;
use crate::color::{foreground, paint_of, tinted, Color};
use crate::constants::{EXIT_CODE_FORCED_TERMINATION, MAX_SPAN, RESTART_SETTLE, STOP_ALL_SETTLE};
use crate::name_map::NameMap;
use crate::output::{cell_line, line_of, log_text, plain_log_line, LineAction, Sink};
use crate::platform::{configure_command, group_of};
use crate::process_manager::{
    after_exit, after_start, announce_natural_exit, around, can_exit, can_start, exit_message,
    fails_running, fails_spawn, fails_unknown, is_command, is_env, starting, succeeds, tell, tells,
    Action, ActorHandle, Command, LifecycleOptions, Notice, ProcessConfig, ProcessManager,
    SpawnPlan, Step, StopAllPlan,
};
use crate::status::total_runtime;
use crate::text::{
    byte_len, byte_len_of, char_count, decimal, is_white, push_decimal, same_text, split_words,
    texts, trim, trim_end, trim_tail, trimmed, words,
};
use crate::types::{ProcessError, ProcessInfo, ProcessStatus};

verus! {

/// How long each process has to stop when all are stopped.
pub const STOP_EACH_TIMEOUT: u128 = 5_000_000_000;

/// How long the watch on a child waits before its first look.
pub const MONITOR_START: u128 = 100_000_000;

/// The longest time between two looks at a child.
pub const MONITOR_MAX_INTERVAL: u128 = 2_000_000_000;

/// How long processes have to react to an interrupt.
pub const INTERRUPT_GRACE: u128 = 5_000_000_000;

/// How long a shutdown may take before everything is killed.
pub const FORCE_DEADLINE: u128 = 20_000_000_000;

/// How long the main loop sleeps.
pub const LOOP_PAUSE: u128 = 100_000_000;

/// The words of a command line, with quotes and backslashes as a Unix shell
/// takes them, or `None` where a quote is not closed: what `shell_words::split`
/// returns.
pub uninterp spec fn shell_split(command: Seq<char>) -> Option<Seq<Seq<char>>>;

/// Whether nothing in a command line has a meaning of its own: no quote, no
/// backslash, no hash, and no white space but blanks, tabs and line feeds.
pub open spec fn is_plain(command: Seq<char>) -> bool {
    forall|i: int|
        0 <= i < command.len() ==> {
            let c = #[trigger] command[i];
            &&& c != '\'' && c != '"' && c != '\\' && c != '#'
            &&& is_white(c) ==> c == ' ' || c == '\t' || c == '\n'
        }
}

/// `shell_words::split` of a command line, with the text of its error. The
/// result depends on the command line alone. The one error there is says that a
/// quote is not closed, and a plain command line is split at its white space.
#[verifier::external_body]
fn split_command(command: &str) -> (r: Result<Vec<String>, String>)
    ensures
        r is Ok ==> shell_split(command@) == Some(texts(r->Ok_0@)),
        r is Err ==> shell_split(command@) is None && r->Err_0@ == "missing closing quote"@,
        is_plain(command@) ==> r is Ok && texts(r->Ok_0@) == words(command@),
{
    shell_words::split(command).map_err(|e| e.to_string())
}

/// Whether `plan` runs the given words: the first is the program, the others are
/// its arguments. Only on Windows does the child lead a process group.
pub open spec fn is_direct_plan(
    plan: SpawnPlan,
    parts: Seq<Seq<char>>,
    config: ProcessConfig,
    app_state: bool,
) -> bool {
    &&& plan.program@ == parts[0]
    &&& texts(plan.args@) == parts.skip(1)
    &&& !plan.raw_args
    &&& is_env(plan.env@, config.env_vars)
    &&& plan.inherit_stdin == !app_state
    &&& plan.group == if config.host.windows {
        Some(group_of(config.host))
    } else {
        None
    }
}

/// What becomes of a command line that was split, or could not be.
pub open spec fn plans_direct(
    r: Result<SpawnPlan, ProcessError>,
    name: Seq<char>,
    command: Seq<char>,
    split: Result<Seq<Seq<char>>, Seq<char>>,
    config: ProcessConfig,
    app_state: bool,
) -> bool {
    match split {
        Err(reason) => r matches Err(ProcessError::CommandParse { command: c, source }) && c@
            == command && source@ == reason,
        Ok(parts) => if parts.len() == 0 {
            r matches Err(ProcessError::EmptyCommand { name: n }) && n@ == name
        } else {
            r matches Ok(plan) && is_direct_plan(plan, parts, config, app_state)
        },
    }
}

/// Whether it is known how a command line is split, where it is plain: at its
/// white space.
pub open spec fn knows_plain(command: Seq<char>) -> bool {
    is_plain(command) ==> shell_split(command) == Some(words(command))
}

/// What the split of a command line comes to, with the reason where it fails.
pub open spec fn split_result(command: Seq<char>) -> Result<Seq<Seq<char>>, Seq<char>> {
    match shell_split(command) {
        Some(parts) => Ok(parts),
        None => Err("missing closing quote"@),
    }
}

/// The start of a process begins. It is refused where the process counts as
/// running or is not known. Otherwise it counts as restarting, and its command
/// is to be spawned.
pub open spec fn begins_direct_start(
    before: ProcessManager,
    after: ProcessManager,
    name: Seq<char>,
    app_state: bool,
    step: Step,
) -> bool {
    if !before.runtime.processes@.contains_key(name) {
        after == before && step.notice is None && fails_unknown(step.action, name)
    } else if before.runtime.processes@[name].status == ProcessStatus::Running {
        after == before && step.notice is None && fails_running(step.action, name)
    } else {
        let info = before.runtime.processes@[name];
        &&& after.config == before.config
        &&& after.runtime.actors == before.runtime.actors
        &&& after.runtime.output_handles == before.runtime.output_handles
        &&& after.runtime.processes@ == before.runtime.processes@.insert(name, starting(info))
        &&& after.runtime.processes.names() == before.runtime.processes.names()
        &&& if app_state {
            step.notice matches Some(Notice::ProcessLog { name: n, text }) && n@ == name && text@
                == "Starting '"@ + name + "'..."@
        } else {
            step.notice is None
        }
        &&& exists|r: Result<SpawnPlan, ProcessError>|
            {
                &&& #[trigger] plans_direct(
                    r,
                    name,
                    info.command@,
                    split_result(info.command@),
                    before.config,
                    app_state,
                )
                &&& step.action == match r {
                    Ok(plan) => Action::Spawn(plan),
                    Err(e) => Action::Finish(Err(e)),
                }
            }
    }
}

/// A child was spawned, or could not be. Where it was, the manager owns it from
/// then on and the process counts as running.
pub open spec fn completes_direct_start(
    before: ProcessManager,
    after: ProcessManager,
    name: Seq<char>,
    app_state: bool,
    spawned: Result<Option<u32>, String>,
    now: u128,
    step: Step,
) -> bool {
    match spawned {
        Err(source) => after == before && step.notice is None && fails_spawn(
            step.action,
            name,
            source,
        ),
        Ok(pid) => {
            &&& after.config == before.config
            &&& after.runtime.actors@ == before.runtime.actors@.insert(name, ActorHandle { pid })
            &&& after.runtime.output_handles == before.runtime.output_handles
            &&& after.runtime.processes.names() == before.runtime.processes.names()
            &&& after.runtime.processes@ == after_start(before.runtime.processes@, name, now)
            &&& if app_state {
                step.notice is None
            } else {
                tells(step.notice, false, "Starting process '"@ + name + "'"@)
            }
            &&& succeeds(step.action)
        },
    }
}

/// The processes after the child of one has exited.
pub open spec fn records_exit(
    before: ProcessManager,
    after: ProcessManager,
    name: Seq<char>,
    exit_code: Option<i32>,
    now: u128,
) -> bool {
    &&& after.config == before.config
    &&& after.runtime.output_handles == before.runtime.output_handles
    &&& after.runtime.processes.names() == before.runtime.processes.names()
    &&& after.runtime.processes@ == after_exit(before.runtime.processes@, name, exit_code, now)
}

/// The names among the given ones whose processes are running.
pub open spec fn running_of(
    names: Seq<Seq<char>>,
    processes: Map<Seq<char>, ProcessInfo>,
) -> Seq<Seq<char>>
    decreases names.len(),
{
    if names.len() == 0 {
        seq![]
    } else if processes[names.last()].status == ProcessStatus::Running {
        running_of(names.drop_last(), processes).push(names.last())
    } else {
        running_of(names.drop_last(), processes)
    }
}

/// The process once it was killed for not stopping in time.
pub open spec fn given_up(info: ProcessInfo) -> ProcessInfo {
    ProcessInfo {
        status: ProcessStatus::Stopped,
        exit_code: Some(EXIT_CODE_FORCED_TERMINATION),
        ..info
    }
}

/// Whether `c` refuses a line with an error on the terminal, or a message on
/// the screen.
pub open spec fn refuses_with_error(
    c: Command,
    app_state: bool,
    usage: Seq<char>,
    reason: Seq<char>,
) -> bool {
    c matches Command::Refuse { notice, error: ProcessError::InputRead(e) } && e@ == reason
        && match notice {
        Some(Notice::Error(t)) => !app_state && t@ == usage,
        Some(Notice::Log(t)) => app_state && t@ == usage,
        _ => false,
    }
}

/// Whether `c` is what the line `input`, made of the words `w`, asks for on the
/// plain console.
pub open spec fn is_console_command(
    c: Command,
    w: Seq<Seq<char>>,
    input: Seq<char>,
    app_state: bool,
) -> bool {
    if w.len() == 1 && w[0] == "stopall"@ {
        c == Command::StopAll
    } else if w.len() == 1 && w[0] == "start"@ {
        refuses_with_error(
            c,
            app_state,
            "Usage: start <name> - Start a specific stopped process"@,
            "Missing process name for start command"@,
        )
    } else if w.len() == 1 && (w[0] == "s"@ || w[0] == "stop"@) {
        refuses_with_error(
            c,
            app_state,
            "Usage: stop <name> or stop all - Stop a specific process or all processes"@,
            "Missing process name for stop command"@,
        )
    } else if w.len() == 1 && (w[0] == "r"@ || w[0] == "restart"@) {
        refuses_with_error(
            c,
            app_state,
            "Usage: restart <name> - Restart a specific process"@,
            "Missing process name for restart command"@,
        )
    } else if is_command(Command::Nothing, w, input, app_state) || is_command(
        Command::Status,
        w,
        input,
        app_state,
    ) || w.len() == 2 && (w[0] == "start"@ || w[0] == "s"@ || w[0] == "stop"@ || w[0] == "r"@
        || w[0] == "restart"@) {
        is_command(c, w, input, app_state)
    } else {
        c matches Command::Refuse { notice, error: ProcessError::InputRead(e) } && e@
            == "Unknown command: "@ + input && if app_state {
            notice is None
        } else {
            notice matches Some(Notice::Error(t)) && t@ == "Unknown command: "@ + input
        }
    }
}

/// A step of a restart on the plain console.
#[derive(Clone, Copy, Debug, PartialEq, Eq, Structural)]
pub enum RestartStep {
    /// Stop the process, whatever comes of it.
    Stop,
    /// Wait.
    Sleep(u128),
    /// Start the process.
    Start,
}

impl ProcessManager {
    /// How to spawn the child for a command that was split into words, or for
    /// which that failed.
    pub fn plan_direct(
        &self,
        name: &str,
        command: &str,
        split: Result<Vec<String>, String>,
        app_state: bool,
    ) -> (r: Result<SpawnPlan, ProcessError>)
        ensures
            plans_direct(
                r,
                name@,
                command@,
                match split {
                    Ok(parts) => Ok(texts(parts@)),
                    Err(e) => Err(e@),
                },
                self.config,
                app_state,
            ),
    {
        let mut parts = match split {
            Ok(parts) => parts,
            Err(source) => {
                return Err(ProcessError::CommandParse { command: command.to_owned(), source });
            },
        };
        let ghost all = texts(parts@);
        if parts.len() == 0 {
            return Err(ProcessError::EmptyCommand { name: name.to_owned() });
        }
        let program = parts.remove(0);
        assert(texts(parts@) =~= all.skip(1));
        Ok(
            SpawnPlan {
                program,
                args: parts,
                raw_args: false,
                env: self.environment(),
                inherit_stdin: !app_state,
                group: if self.config.host.windows {
                    Some(configure_command(self.config.host))
                } else {
                    None
                },
            },
        )
    }

    /// How to spawn the child for a command, without a shell.
    pub fn spawn_process_with_state(&self, name: &str, command: &str, app_state: bool) -> (r:
        Result<SpawnPlan, ProcessError>)
        ensures
            plans_direct(
                r,
                name@,
                command@,
                split_result(command@),
                self.config,
                app_state,
            ),
            knows_plain(command@),
    {
        self.plan_direct(name, command, split_command(command), app_state)
    }

    /// Begins to start a process.
    pub fn start_process_with_state(&mut self, name: &str, app_state: bool) -> (step: Step)
        ensures
            begins_direct_start(*old(self), *final(self), name@, app_state, step),
            old(self).runtime.processes@.contains_key(name@) && old(
                self,
            ).runtime.processes@[name@].status != ProcessStatus::Running ==> knows_plain(
                old(self).runtime.processes@[name@].command@,
            ),
    {
        let mut info = match self.runtime.processes.get(name) {
            Some(info) => info.clone(),
            None => {
                let error = ProcessError::ProcessNotFound { name: name.to_owned() };
                return Step { notice: None, action: Action::Finish(Err(error)) };
            },
        };
        if info.status == ProcessStatus::Running {
            let error = ProcessError::ProcessAlreadyRunning { name: name.to_owned() };
            return Step { notice: None, action: Action::Finish(Err(error)) };
        }
        let command = info.command.clone();
        info.status = ProcessStatus::Restarting;
        self.runtime.processes.insert(name.to_owned(), info);
        let notice = if app_state {
            Some(
                Notice::ProcessLog {
                    name: name.to_owned(),
                    text: around("Starting '", name, "'..."),
                },
            )
        } else {
            None
        };
        let action = match self.spawn_process_with_state(name, command.as_str(), app_state) {
            Ok(plan) => Action::Spawn(plan),
            Err(error) => Action::Finish(Err(error)),
        };
        Step { notice, action }
    }

    /// Completes the start of a process whose child was spawned, or could not
    /// be.
    pub fn child_spawned(
        &mut self,
        name: &str,
        app_state: bool,
        spawned: Result<Option<u32>, String>,
        now: u128,
    ) -> (step: Step)
        requires
            can_start(old(self).runtime.processes@, name@),
        ensures
            completes_direct_start(*old(self), *final(self), name@, app_state, spawned, now, step),
    {
        let pid = match spawned {
            Ok(pid) => pid,
            Err(source) => {
                let error = ProcessError::ProcessSpawn { name: name.to_owned(), source };
                return Step { notice: None, action: Action::Finish(Err(error)) };
            },
        };
        self.runtime.actors.insert(name.to_owned(), ActorHandle { pid });
        self.runtime.record_start(name, now);
        let notice = if app_state {
            None
        } else {
            tell(false, around("Starting process '", name, "'"))
        };
        Step { notice, action: Action::Finish(Ok(())) }
    }

    /// Begins to stop a process: takes its child out of the manager's hands, for
    /// it to be terminated.
    pub fn stop_process_with_state(&mut self, name: &str, app_state: bool) -> (r: (
        Option<Notice>,
        Result<ActorHandle, ProcessError>,
    ))
        ensures
            tells(r.0, app_state, "Stopping process '"@ + name@ + "'..."@),
            final(self).config == old(self).config,
            final(self).runtime.processes == old(self).runtime.processes,
            final(self).runtime.output_handles == old(self).runtime.output_handles,
            final(self).runtime.actors@ == old(self).runtime.actors@.remove(name@),
            match r.1 {
                Ok(child) => old(self).runtime.actors@.contains_key(name@) && child == old(
                    self,
                ).runtime.actors@[name@],
                Err(ProcessError::ProcessNotRunning { name: n }) => !old(
                    self,
                ).runtime.actors@.contains_key(name@) && n@ == name@,
                Err(_) => false,
            },
    {
        let notice = tell(app_state, around("Stopping process '", name, "'..."));
        match self.runtime.actors.remove(name) {
            Some(child) => (notice, Ok(child)),
            None => (notice, Err(ProcessError::ProcessNotRunning { name: name.to_owned() })),
        }
    }

    /// Completes the end of a process whose child was terminated.
    pub fn child_stopped(
        &mut self,
        name: &str,
        app_state: bool,
        exit_code: Option<i32>,
        now: u128,
    ) -> (r: Option<Notice>)
        requires
            can_exit(old(self).runtime.processes@, name@, now),
        ensures
            records_exit(*old(self), *final(self), name@, exit_code, now),
            final(self).runtime.actors == old(self).runtime.actors,
            tells(r, app_state, "Stopped process '"@ + name@ + "'"@),
    {
        self.runtime.record_exit(name, exit_code, now);
        tell(app_state, around("Stopped process '", name, "'"))
    }

    /// Notes that a child was found to have exited by itself.
    pub fn child_exited(
        &mut self,
        name: &str,
        app_state: bool,
        exit_code: Option<i32>,
        now: u128,
    ) -> (r: Option<Notice>)
        requires
            can_exit(old(self).runtime.processes@, name@, now),
        ensures
            records_exit(*old(self), *final(self), name@, exit_code, now),
            final(self).runtime.actors@ == old(self).runtime.actors@.remove(name@),
            if app_state {
                tells(r, true, exit_message(name@, exit_code))
            } else {
                r is None
            },
    {
        let _ = self.runtime.actors.remove(name);
        self.runtime.record_exit(name, exit_code, now);
        announce_natural_exit(name, exit_code, app_state)
    }

    /// The message with which a restart begins, and its steps. Stop and start have
    /// messages of their own. A stop that fails does not keep the process from
    /// being started, and what comes of the start comes of the restart.
    pub fn restart_process_with_state(&self, name: &str, app_state: bool) -> (r: (
        Option<Notice>,
        Vec<RestartStep>,
    ))
        ensures
            tells(r.0, app_state, "Restarting process '"@ + name@ + "'..."@),
            r.1@ == seq![RestartStep::Stop, RestartStep::Sleep(RESTART_SETTLE), RestartStep::Start],
    {
        let notice = tell(app_state, around("Restarting process '", name, "'..."));
        let mut steps: Vec<RestartStep> = Vec::new();
        steps.push(RestartStep::Stop);
        steps.push(RestartStep::Sleep(RESTART_SETTLE));
        steps.push(RestartStep::Start);
        assert(steps@ =~= seq![
            RestartStep::Stop,
            RestartStep::Sleep(RESTART_SETTLE),
            RestartStep::Start,
        ]);
        (notice, steps)
    }

    fn running_names(&self) -> (r: Vec<String>)
        ensures
            texts(r@) == running_of(self.runtime.processes.names(), self.runtime.processes@),
    {
        let processes = &self.runtime.processes;
        let ghost all = processes.names();
        let n = processes.len();
        let mut r: Vec<String> = Vec::new();
        let mut i: usize = 0;
        assert(all.take(0) =~= seq![]);
        assert(texts(r@) =~= seq![]);
        while i < n
            invariant
                i <= n == all.len(),
                all == processes.names(),
                texts(r@) == running_of(all.take(i as int), processes@),
            decreases n - i,
        {
            let ghost before = texts(r@);
            assert(all.take(i + 1).drop_last() =~= all.take(i as int));
            if processes.value_at(i).status == ProcessStatus::Running {
                r.push(processes.name_at(i).clone());
                assert(texts(r@) =~= before.push(all[i as int]));
            }
            i += 1;
        }
        assert(all.take(i as int) =~= all);
        r
    }

    /// Whether `r` is how to stop all running processes. There is nothing to do or
    /// to say where none runs.
    pub open spec fn stops_running(&self, app_state: bool, r: Option<StopAllPlan>) -> bool {
        let names = running_of(self.runtime.processes.names(), self.runtime.processes@);
        match r {
            None => names.len() == 0,
            Some(plan) => {
                &&& names.len() > 0
                &&& texts(plan.names@) == names
                &&& tells(
                    plan.notice,
                    app_state,
                    "Stopping "@ + decimal(names.len()) + " processes..."@,
                )
                &&& plan.opts == (LifecycleOptions { app_state, log_messages: true })
                &&& plan.timeout == STOP_EACH_TIMEOUT
                &&& plan.settle == STOP_ALL_SETTLE
            },
        }
    }

    /// How to stop all running processes. There is nothing to do or to say where
    /// none runs.
    pub fn stop_all_with_state(&self, app_state: bool) -> (r: Option<StopAllPlan>)
        ensures
            self.stops_running(app_state, r),
    {
        let names = self.running_names();
        assert(texts(names@).len() == names.len());
        if names.len() == 0 {
            return None;
        }
        let mut text = "Stopping ".to_owned();
        push_decimal(&mut text, names.len() as u64);
        text.append(" processes...");
        Some(
            StopAllPlan {
                notice: tell(app_state, text),
                names,
                opts: LifecycleOptions { app_state, log_messages: true },
                timeout: STOP_EACH_TIMEOUT,
                settle: STOP_ALL_SETTLE,
            },
        )
    }

    /// Takes the children of processes that did not stop in time out of the
    /// manager's hands, for them to be killed. Those processes count as stopped.
    pub fn give_up(&mut self, failed: &Vec<String>) -> (r: Vec<ActorHandle>)
        ensures
            r@ == children_of(texts(failed@), old(self).runtime.actors@),
            final(self).config == old(self).config,
            final(self).runtime.output_handles == old(self).runtime.output_handles,
            final(self).runtime.processes.names() == old(self).runtime.processes.names(),
            final(self).runtime.processes@.dom() == old(self).runtime.processes@.dom(),
            forall|name: Seq<char>| #[trigger]
                final(self).runtime.actors@.contains_key(name) <==> old(
                    self,
                ).runtime.actors@.contains_key(name) && !texts(failed@).contains(name),
            forall|name: Seq<char>| #[trigger]
                final(self).runtime.actors@.contains_key(name)
                    ==> final(self).runtime.actors@[name] == old(self).runtime.actors@[name],
            forall|name: Seq<char>| #[trigger]
                old(self).runtime.processes@.contains_key(name)
                    ==> final(self).runtime.processes@[name] == if old(
                    self,
                ).runtime.actors@.contains_key(name) && texts(failed@).contains(name) {
                    given_up(old(self).runtime.processes@[name])
                } else {
                    old(self).runtime.processes@[name]
                },
    {
        let ghost actors = self.runtime.actors@;
        let ghost processes = self.runtime.processes@;
        let ghost all = texts(failed@);
        let mut r: Vec<ActorHandle> = Vec::new();
        let mut i: usize = 0;
        assert(all.take(0) =~= seq![]);
        while i < failed.len()
            invariant
                i <= failed.len(),
                all == texts(failed@),
                r@ == children_of(all.take(i as int), actors),
                self.config == old(self).config,
                self.runtime.output_handles == old(self).runtime.output_handles,
                self.runtime.processes.names() == old(self).runtime.processes.names(),
                self.runtime.processes@.dom() == processes.dom(),
                forall|name: Seq<char>| #[trigger]
                    self.runtime.actors@.contains_key(name) <==> actors.contains_key(name)
                        && !all.take(i as int).contains(name),
                forall|name: Seq<char>| #[trigger]
                    self.runtime.actors@.contains_key(name) ==> self.runtime.actors@[name]
                        == actors[name],
                forall|name: Seq<char>| #[trigger]
                    processes.contains_key(name) ==> self.runtime.processes@[name]
                        == if actors.contains_key(name) && all.take(i as int).contains(name) {
                        given_up(processes[name])
                    } else {
                        processes[name]
                    },
            decreases failed.len() - i,
        {
            let ghost head = all.take(i as int);
            let ghost key = all[i as int];
            proof {
                assert(all.take(i + 1) =~= head.push(key));
                assert(all.take(i + 1).drop_last() =~= head);
                assert forall|x: Seq<char>| #[trigger]
                    all.take(i + 1).contains(x) <==> head.contains(x) || x == key by {
                    if head.contains(x) {
                        let j = choose|j: int| 0 <= j < head.len() && head[j] == x;
                        assert(all.take(i + 1)[j] == x);
                    }
                    if x == key {
                        assert(all.take(i + 1)[i as int] == x);
                    }
                    if all.take(i + 1).contains(x) && x != key {
                        let next = all.take(i + 1);
                        let j = choose|j: int| 0 <= j < next.len() && next[j] == x;
                        assert(head[j] == x);
                    }
                }
            }
            let name = failed[i].as_str();
            assert(name@ == key);
            if let Some(child) = self.runtime.actors.remove(name) {
                r.push(child);
                let found = match self.runtime.processes.get(name) {
                    Some(info) => Some(info.clone()),
                    None => None,
                };
                if let Some(mut info) = found {
                    assert(processes.contains_key(key));
                    info.status = ProcessStatus::Stopped;
                    info.exit_code = Some(EXIT_CODE_FORCED_TERMINATION);
                    assert(info == given_up(processes[key]));
                    self.runtime.processes.insert(name.to_owned(), info);
                    assert(self.runtime.processes@.dom() =~= processes.dom());
                }
            }
            i += 1;
        }
        assert(all.take(i as int) =~= all);
        r
    }

    /// What is said once all processes were stopped.
    pub fn all_stopped_notice(app_state: bool) -> (r: Option<Notice>)
        ensures
            tells(r, app_state, "All processes stopped"@),
    {
        tell(app_state, "All processes stopped".to_owned())
    }

    /// What a line of input asks for on the plain console.
    pub fn handle_command_with_state(&self, input: &str, app_state: bool) -> (r: Command)
        ensures
            is_console_command(r, words(input@), input@, app_state),
    {
        let parts = split_words(input);
        let ghost w = words(input@);
        assert(w.len() == parts.len());
        if parts.len() == 1 {
            let head = parts[0].as_str();
            assert(w[0] == head@);
            if same_text(head, "stopall") {
                return Command::StopAll;
            }
            if same_text(head, "start") {
                return refuse_with_error(
                    app_state,
                    "Usage: start <name> - Start a specific stopped process",
                    "Missing process name for start command",
                );
            }
            if same_text(head, "s") || same_text(head, "stop") {
                return refuse_with_error(
                    app_state,
                    "Usage: stop <name> or stop all - Stop a specific process or all processes",
                    "Missing process name for stop command",
                );
            }
            if same_text(head, "r") || same_text(head, "restart") {
                return refuse_with_error(
                    app_state,
                    "Usage: restart <name> - Restart a specific process",
                    "Missing process name for restart command",
                );
            }
        }
        let opts = LifecycleOptions { app_state, log_messages: true };
        match self.handle_command_with_opts(input, &opts) {
            Command::Refuse { notice, error } => {
                let text = "Unknown command: ".to_owned().concat(input);
                let notice = if app_state {
                    None
                } else {
                    Some(Notice::Error(text.clone()))
                };
                Command::Refuse { notice, error }
            },
            command => command,
        }
    }

    /// The status of all processes: lines to print, or rows for the screen.
    pub fn show_status_with_state(&self, app_state: bool, now: u128) -> (r: Vec<String>)
        requires
            now <= MAX_SPAN,
            !app_state ==> forall|name: Seq<char>| #[trigger]
                self.runtime.processes@.contains_key(name) ==> total_runtime(
                    self.runtime.processes@[name],
                    now,
                ) <= MAX_SPAN,
        ensures
            if app_state {
                self.shows_rows(r@, now)
            } else {
                self.shows_table(r@, now)
            },
    {
        self.show_status_with_opts(&LifecycleOptions { app_state, log_messages: true }, now)
    }

    /// Whether any process counts as running.
    pub fn any_running(&self) -> (r: bool)
        ensures
            r == exists|name: Seq<char>| #[trigger]
                self.runtime.processes@.contains_key(name)
                    && self.runtime.processes@[name].status == ProcessStatus::Running,
    {
        let processes = &self.runtime.processes;
        let n = processes.len();
        let mut i: usize = 0;
        while i < n
            invariant
                i <= n == processes.names().len(),
                *processes == self.runtime.processes,
                forall|j: int|
                    0 <= j < i ==> processes@[#[trigger] processes.names()[j]].status
                        != ProcessStatus::Running,
            decreases n - i,
        {
            if processes.value_at(i).status == ProcessStatus::Running {
                return true;
            }
            i += 1;
        }
        proof {
            assert forall|name: Seq<char>| #[trigger]
                processes@.contains_key(name) implies processes@[name].status
                != ProcessStatus::Running by {
                NameMap::lemma_listed(*processes, name);
                let j = processes.names().index_of(name);
                assert(processes.names()[j] == name);
            }
        }
        false
    }

    /// A message of gaffa as the plain console shows it.
    pub fn print_console_message(&self, message: &str) -> (r: String)
        ensures
            exists|cell: Seq<char>, text: Seq<char>|
                #![trigger line_of(cell, 5, self.name_width(), "|"@, text)]
                {
                    &&& paint_of(cell, "gaffa"@, foreground(Color::Magenta))
                    &&& paint_of(text, message@, foreground(Color::Magenta))
                    &&& r@ == line_of(cell, 5, self.name_width(), "|"@, text)
                },
    {
        let cell = tinted("gaffa", Color::Magenta);
        let text = tinted(message, Color::Magenta);
        cell_line(cell.as_str(), 5, self.get_max_name_length(), "|", text.as_str())
    }
}

/// The children of the named processes. A name that comes again has none left.
pub open spec fn children_of(
    names: Seq<Seq<char>>,
    actors: Map<Seq<char>, ActorHandle>,
) -> Seq<ActorHandle>
    decreases names.len(),
{
    if names.len() == 0 {
        seq![]
    } else {
        let before = children_of(names.drop_last(), actors);
        if actors.contains_key(names.last()) && !names.drop_last().contains(names.last()) {
            before.push(actors[names.last()])
        } else {
            before
        }
    }
}

fn refuse_with_error(app_state: bool, usage: &str, reason: &str) -> (r: Command)
    ensures
        refuses_with_error(r, app_state, usage@, reason@),
{
    let notice = if app_state {
        Some(Notice::Log(usage.to_owned()))
    } else {
        Some(Notice::Error(usage.to_owned()))
    };
    Command::Refuse { notice, error: ProcessError::InputRead(reason.to_owned()) }
}

/// The time until the next look at a child: twice the last one, up to a limit.
pub open spec fn backed_off(interval: u128) -> u128 {
    if interval >= MONITOR_MAX_INTERVAL {
        interval
    } else if 2 * interval <= MONITOR_MAX_INTERVAL {
        (2 * interval) as u128
    } else {
        MONITOR_MAX_INTERVAL
    }
}

/// The time until the next look at a child.
pub fn next_interval(interval: u128) -> (r: u128)
    ensures
        r == backed_off(interval),
{
    if interval >= MONITOR_MAX_INTERVAL {
        interval
    } else if 2 * interval <= MONITOR_MAX_INTERVAL {
        2 * interval
    } else {
        MONITOR_MAX_INTERVAL
    }
}

/// The times between looks never shrink. From the first one on they never go
/// over the limit.
pub proof fn law_backoff_is_bounded(interval: u128)
    ensures
        backed_off(interval) >= interval,
        interval <= MONITOR_MAX_INTERVAL ==> backed_off(interval) <= MONITOR_MAX_INTERVAL,
        0 < interval < MONITOR_MAX_INTERVAL ==> backed_off(interval) > interval,
        backed_off(MONITOR_MAX_INTERVAL) == MONITOR_MAX_INTERVAL,
{
}

/// A text behind the word ERROR, where `mark` shows that word.
pub open spec fn error_text(mark: Seq<char>, text: Seq<char>) -> Seq<char> {
    "["@ + mark + "] "@ + text
}

/// A text behind the word ERROR, where `mark` shows that word.
pub fn layout_error(mark: &str, text: &str) -> (r: String)
    ensures
        r@ == error_text(mark@, text@),
{
    "[".to_owned().concat(mark).concat("] ").concat(text)
}

/// An error as the terminal shows it: behind the word ERROR, which is in red
/// where the terminal takes colours.
pub fn error_line(text: &str) -> (r: String)
    ensures
        exists|mark: Seq<char>|
            #![trigger error_text(mark, text@)]
            paint_of(mark, "ERROR"@, foreground(Color::Red)) && r@ == error_text(mark, text@),
{
    let mark = tinted("ERROR", Color::Red);
    layout_error(mark.as_str(), text)
}

/// What is to be done with a line that a process wrote on the plain console:
/// as in [`crate::output::handle_line`], but lines are neither wrapped nor
/// stripped.
pub fn console_line(
    name: &str,
    line: &str,
    is_error: bool,
    sink: Sink,
    max_name_len: usize,
    process_color: Color,
    timestamp: &str,
) -> (r: LineAction)
    ensures
        trim_end(line@).len() == 0 <==> r is Skip,
        r is AddLog <==> trim_end(line@).len() > 0 && sink is Screen,
        r matches LineAction::AddLog(text) ==> text@ == trim_end(line@),
        r matches LineAction::Print { rows, log_line } ==> {
            &&& rows.len() == 1
            &&& exists|cell: Seq<char>|
                #![trigger line_of(
                    cell,
                    byte_len(name@),
                    max_name_len as nat,
                    "|"@,
                    trim_end(line@),
                )]
                paint_of(cell, name@, foreground(process_color)) && rows@[0]@ == line_of(
                    cell,
                    byte_len(name@),
                    max_name_len as nat,
                    "|"@,
                    trim_end(line@),
                )
            &&& log_line is Some <==> sink->log_file
            &&& log_line matches Some(text) ==> text@ == log_text(
                timestamp@,
                is_error,
                name@,
                trim_end(line@),
            )
        },
{
    let text = trim_tail(line);
    if char_count(text.as_str()) == 0 {
        return LineAction::Skip;
    }
    match sink {
        Sink::Screen => LineAction::AddLog(text),
        Sink::Terminal { width: _, log_file } => {
            let cell = tinted(name, process_color);
            let mut rows: Vec<String> = Vec::new();
            rows.push(
                cell_line(cell.as_str(), byte_len_of(name), max_name_len, "|", text.as_str()),
            );
            let log_line = if log_file {
                Some(plain_log_line(timestamp, is_error, name, text.as_str()))
            } else {
                None
            };
            LineAction::Print { rows, log_line }
        },
    }
}

/// What came of reading a line at the prompt.
#[derive(Debug)]
pub enum PromptInput {
    Eof,
    Line(String),
    Failed(String),
}

/// What the prompt does with it.
#[derive(Debug)]
pub enum PromptStep {
    /// Prompt again.
    Again,
    /// Handle the command, then prompt again.
    Handle(String),
    /// Leave.
    Leave(Result<(), ProcessError>),
}

/// Whether `r` is what the prompt does with a line. Blank lines are passed over, and
/// the end of the input ends it.
pub open spec fn prompts(input: PromptInput, r: PromptStep) -> bool {
    match input {
        PromptInput::Eof => r matches PromptStep::Leave(Ok(_)),
        PromptInput::Line(line) => if trimmed(line@).len() == 0 {
            r == PromptStep::Again
        } else {
            r matches PromptStep::Handle(text) && text@ == trimmed(line@)
        },
        PromptInput::Failed(e) => r == PromptStep::Leave(Err(ProcessError::InputRead(e))),
    }
}

/// What the prompt does with a line.
pub fn prompt_step(input: PromptInput) -> (r: PromptStep)
    ensures
        prompts(input, r),
{
    match input {
        PromptInput::Eof => PromptStep::Leave(Ok(())),
        PromptInput::Line(line) => {
            let text = trim(line.as_str());
            if char_count(text.as_str()) == 0 {
                PromptStep::Again
            } else {
                PromptStep::Handle(text)
            }
        },
        PromptInput::Failed(e) => PromptStep::Leave(Err(ProcessError::InputRead(e))),
    }
}

/// Whether a line that was typed while processes run asks to quit.
pub fn asks_to_quit(line: &str) -> (r: bool)
    ensures
        r == (trimmed(line@) == "q"@ || trimmed(line@) == "quit"@),
{
    let text = trim(line);
    same_text(text.as_str(), "q") || same_text(text.as_str(), "quit")
}

/// The main loop of a run on the plain console: whether the shutdown has begun,
/// and when everything is killed.
#[derive(Clone, Copy, Debug, PartialEq, Eq, Structural)]
pub struct ShutdownWatch {
    pub initiated: bool,
    pub deadline: Option<u128>,
}

/// What the main loop does.
#[derive(Clone, Copy, Debug, PartialEq, Eq, Structural)]
pub enum LoopAction {
    /// Kill every child that is left, and leave.
    ForceKill,
    /// Leave.
    Leave,
    /// Wait that long, and look again.
    Sleep(u128),
}

impl ShutdownWatch {
    /// A loop in which no shutdown has begun.
    pub fn new() -> (r: Self)
        ensures
            r == (ShutdownWatch { initiated: false, deadline: None }),
    {
        ShutdownWatch { initiated: false, deadline: None }
    }

    /// Whether a shutdown begins where one was asked for and none has begun, with
    /// `grace` for the processes to react and a time by which all is over.
    pub open spec fn begins(
        before: ShutdownWatch,
        after: ShutdownWatch,
        requested: bool,
        now: u128,
        grace: Option<u128>,
    ) -> bool {
        if requested && !before.initiated {
            &&& grace == Some(INTERRUPT_GRACE)
            &&& after == (ShutdownWatch {
                initiated: true,
                deadline: Some((now + FORCE_DEADLINE) as u128),
            })
        } else {
            grace is None && after == before
        }
    }

    /// What the loop does at the end of a round.
    pub open spec fn next_action(&self, now: u128, all_stopped: bool) -> LoopAction {
        if self.deadline is Some && now > self.deadline->0 {
            LoopAction::ForceKill
        } else if all_stopped && self.initiated {
            LoopAction::Leave
        } else {
            LoopAction::Sleep(LOOP_PAUSE)
        }
    }

    /// Begins the shutdown where one was asked for and none has begun. Processes
    /// are then to be interrupted and given time to react.
    pub fn begin(&mut self, requested: bool, now: u128) -> (grace: Option<u128>)
        requires
            now <= MAX_SPAN,
        ensures
            Self::begins(*old(self), *final(self), requested, now, grace),
    {
        if requested && !self.initiated {
            self.initiated = true;
            self.deadline = Some(now + FORCE_DEADLINE);
            Some(INTERRUPT_GRACE)
        } else {
            None
        }
    }

    /// What is said once the time to react is over, and whether all processes
    /// are to be stopped then.
    pub fn after_grace(still_running: bool) -> (r: (String, bool))
        ensures
            r.1 == still_running,
            r.0@ == if still_running {
                "Some processes still running, initiating shutdown..."@
            } else {
                "All processes stopped gracefully"@
            },
    {
        if still_running {
            ("Some processes still running, initiating shutdown...".to_owned(), true)
        } else {
            ("All processes stopped gracefully".to_owned(), false)
        }
    }

    /// What the loop does at the end of a round.
    pub fn end_round(&self, now: u128, all_stopped: bool) -> (r: LoopAction)
        ensures
            r == self.next_action(now, all_stopped),
    {
        if let Some(deadline) = self.deadline {
            if now > deadline {
                return LoopAction::ForceKill;
            }
        }
        if all_stopped && self.initiated {
            LoopAction::Leave
        } else {
            LoopAction::Sleep(LOOP_PAUSE)
        }
    }
}

} // verus!
