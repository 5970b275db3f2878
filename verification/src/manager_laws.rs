//! What can be relied on when processes are started, stopped and restarted,
//! whichever processes there are.

use vstd::prelude::*;
use crate::actor::{ActorCommand, Reply};
use crate::color::{color_of_index, Color};
use crate::constants::MAX_SPAN;
use crate::name_map::NameMap;
use crate::platform::GroupSetup;
use crate::process_manager::{
    attaches, begins_restart, begins_start, begins_stop, completes_start, completes_stop,
    exit_message, exited, failed_of, finalizes, handles_of, interrupt_message, interrupts_of,
    is_command, loads, not_stopped, orphan_fixed, resumes, runtime_at_exit, started, starting,
    tells, tells_if_logging, total_handles, Action, ActorHandle, Command, Event, LifecycleOptions,
    Notice, Operation, Phase, ProcessManager, RuntimeState, Step, StopAllPlan,
};
use crate::procfile::{
    all_define, definition, definitions, law_processes_come_from_lines, process_names, ProcfileData,
};
use crate::shell::{law_command_arrives_verbatim, read_back, ShellKind};
use crate::status::{is_screen_row, is_table_row};
use crate::text::{holds_text, repeated, signed_decimal, texts, trimmed};
use crate::text_laws::{law_held_text_is_in_between, law_signed_decimal_tells_numbers_apart};
use crate::types::{ProcessError, ProcessInfo, ProcessStatus};

verus! {

/// Whatever is done to a process, every other one keeps its state, its actor and the
/// tasks that read its output. The settings stay, and so does the order of the
/// processes.
pub proof fn law_other_processes_stay(
    before: ProcessManager,
    after: ProcessManager,
    op: Operation,
    event: Event,
    step: Step,
    other: Seq<char>,
)
    requires
        resumes(before, after, op, event, step),
        other != op.name@,
    ensures
        after.config == before.config,
        after.runtime.processes.names() == before.runtime.processes.names(),
        ({
            let a = after.runtime;
            let b = before.runtime;
            &&& a.processes@.contains_key(other) == b.processes@.contains_key(other)
            &&& b.processes@.contains_key(other) ==> a.processes@[other] == b.processes@[other]
            &&& a.actors@.contains_key(other) == b.actors@.contains_key(other)
            &&& b.actors@.contains_key(other) ==> a.actors@[other] == b.actors@[other]
            &&& a.output_handles@.contains_key(other) == b.output_handles@.contains_key(other)
            &&& b.output_handles@.contains_key(other) ==> a.output_handles@[other]
                == b.output_handles@[other]
        }),
{
}

/// An exit is noted of the process that exited, with the code that it exited with
/// and the time, and leaves every other process as it is.
pub proof fn law_exit_is_noted_of_its_process(
    before: RuntimeState,
    after: RuntimeState,
    name: Seq<char>,
    exit_code: Option<i32>,
    now: u128,
    other: Seq<char>,
)
    requires
        finalizes(before, after, name, exit_code, now),
        other != name,
    ensures
        after.processes.names() == before.processes.names(),
        after.processes@.contains_key(name) == before.processes@.contains_key(name),
        before.processes@.contains_key(name) ==> {
            let info = after.processes@[name];
            &&& info.status == ProcessStatus::Stopped
            &&& info.exit_code == exit_code
            &&& info.stopped_at == Some(now)
            &&& info.command == before.processes@[name].command
            &&& info.restart_count == before.processes@[name].restart_count
            &&& info.last_restart == before.processes@[name].last_restart
        },
        !after.actors@.contains_key(name),
        !after.output_handles@.contains_key(name),
        after.processes@.contains_key(other) == before.processes@.contains_key(other),
        before.processes@.contains_key(other) ==> after.processes@[other]
            == before.processes@[other],
        after.actors@.contains_key(other) == before.actors@.contains_key(other),
        before.actors@.contains_key(other) ==> after.actors@[other] == before.actors@[other],
        after.output_handles@.contains_key(other) == before.output_handles@.contains_key(other),
        before.output_handles@.contains_key(other) ==> after.output_handles@[other]
            == before.output_handles@[other],
{
}

/// A process that exits has run from its start to then on top of what it ran before.
pub proof fn law_session_is_added(info: ProcessInfo, exit_code: Option<i32>, now: u128)
    requires
        runtime_at_exit(info, now) <= MAX_SPAN,
    ensures
        info.last_restart matches Some(start) ==> (start <= now ==> exited(
            info,
            exit_code,
            now,
        ).cumulative_runtime == info.cumulative_runtime + (now - start)),
        info.last_restart is None ==> exited(info, exit_code, now).cumulative_runtime
            == info.cumulative_runtime,
{
}

/// A process whose child runs has started now and has not stopped. Its command, its
/// running time and its last exit code are what they were, and it counts a restart
/// if it ran before.
pub proof fn law_start_is_noted(info: ProcessInfo, now: u128)
    requires
        info.restart_count < u32::MAX,
    ensures
        ({
            let run = started(info, now);
            &&& run.status == ProcessStatus::Running
            &&& run.last_restart == Some(now)
            &&& run.stopped_at is None
            &&& run.command == info.command
            &&& run.cumulative_runtime == info.cumulative_runtime
            &&& run.exit_code == info.exit_code
            &&& info.last_restart is Some || info.cumulative_runtime >= 1_000_000_000
                ==> run.restart_count == info.restart_count + 1
            &&& info.last_restart is None && info.cumulative_runtime < 1_000_000_000
                ==> run.restart_count == info.restart_count
        }),
        starting(info) == (ProcessInfo { status: ProcessStatus::Restarting, ..info }),
{
}

/// Starting a process that has a command runs just this command in the shell, with
/// all variables of the environment and in a group of its own. What the shell reads
/// is the command itself, white space around it aside.
pub proof fn law_start_runs_the_command(
    before: ProcessManager,
    after: ProcessManager,
    name: Seq<char>,
    opts: LifecycleOptions,
    step: Step,
    variable: Seq<char>,
)
    requires
        begins_start(before, after, name, opts, step),
        !before.runtime.actors@.contains_key(name),
        before.runtime.processes@.contains_key(name),
        trimmed(before.runtime.processes@[name].command@).len() > 0,
    ensures
        step.action is Spawn,
        ({
            let command = trimmed(before.runtime.processes@[name].command@);
            let shell = before.config.shell;
            let plan = step.action->Spawn_0;
            let args = texts(plan.args@);
            &&& plan.program@ == shell.program@
            &&& args.len() == shell.args@.len() + 1
            &&& args.drop_last() == texts(shell.args@)
            &&& !before.config.host.windows || shell.kind != ShellKind::PowerShell ==> args.last()
                == command
            &&& before.config.host.windows && shell.kind == ShellKind::PowerShell ==> read_back(
                args.last(),
                0,
            ) == command
            &&& plan.raw_args == before.config.host.windows
            &&& plan.inherit_stdin == !opts.app_state
            &&& plan.group == Some(
                if before.config.host.windows {
                    GroupSetup::CreationFlags(0x200)
                } else {
                    GroupSetup::ProcessGroup(0)
                },
            )
            &&& plan.env@.len() == before.config.env_vars.names().len()
            &&& before.config.env_vars@.contains_key(variable) ==> exists|i: int|
                0 <= i < plan.env@.len() && (#[trigger] plan.env@[i]).0@ == variable
                    && plan.env@[i].1@ == before.config.env_vars@[variable]@
        }),
        after.runtime.processes@[name] == starting(before.runtime.processes@[name]),
        after.runtime.actors == before.runtime.actors,
        after.config == before.config,
{
    let plan = step.action->Spawn_0;
    let args = texts(plan.args@);
    assert(args.drop_last() =~= texts(before.config.shell.args@));
    law_command_arrives_verbatim(trimmed(before.runtime.processes@[name].command@));
    let env = before.config.env_vars;
    NameMap::lemma_listed(env, variable);
    if env@.contains_key(variable) {
        let i = choose|i: int| 0 <= i < env.names().len() && env.names()[i] == variable;
        assert(plan.env@[i].0@ == variable);
    }
}

/// A start is refused if and only if the process is running already, is not known,
/// or has no command, and the refusal names the process. Only the last of these is
/// noted.
pub proof fn law_start_is_refused_for_a_reason(
    before: ProcessManager,
    after: ProcessManager,
    name: Seq<char>,
    opts: LifecycleOptions,
    step: Step,
)
    requires
        begins_start(before, after, name, opts, step),
    ensures
        before.runtime.actors@.contains_key(name) ==> after == before && (step.action
            matches Action::Finish(Err(ProcessError::ProcessAlreadyRunning { name: n })) && n@
            == name),
        !before.runtime.actors@.contains_key(name) && !before.runtime.processes@.contains_key(name)
            ==> after == before && (step.action matches Action::Finish(
            Err(ProcessError::ProcessNotFound { name: n }),
        ) && n@ == name),
        !before.runtime.actors@.contains_key(name) && before.runtime.processes@.contains_key(name)
            && trimmed(before.runtime.processes@[name].command@).len() == 0 ==> (step.action
            matches Action::Finish(Err(ProcessError::EmptyCommand { name: n })) && n@ == name),
        step.action is Finish ==> !(step.action->Finish_0 is Ok),
        step.action is Spawn || step.action is Finish,
{
}

/// A child that was spawned has an actor with its process id, is given the time to
/// exit that is set, and has two more tasks that read its output. Nothing else
/// changes.
pub proof fn law_spawned_child_is_watched(
    before: ProcessManager,
    after: ProcessManager,
    name: Seq<char>,
    pid: Option<u32>,
    step: Step,
)
    requires
        attaches(before, after, name, pid, step),
        handles_of(before, name) + 2 <= usize::MAX,
    ensures
        after.runtime.actors@.contains_key(name),
        after.runtime.actors@[name].pid == pid,
        handles_of(after, name) == handles_of(before, name) + 2,
        !before.runtime.output_handles@.contains_key(name) ==> handles_of(after, name) == 2,
        after.config == before.config,
        after.runtime.processes == before.runtime.processes,
        step.action matches Action::Watch { pid: p, timeout } && p == pid && timeout
            == before.config.shutdown_timeout,
{
}

/// Once its child is watched, a start is over and well, and the process runs from
/// then on.
pub proof fn law_watched_process_runs(
    before: ProcessManager,
    after: ProcessManager,
    name: Seq<char>,
    opts: LifecycleOptions,
    now: u128,
    step: Step,
)
    requires
        completes_start(before, after, name, opts, now, step),
        before.runtime.processes@.contains_key(name),
    ensures
        after.config == before.config,
        after.runtime.processes.names() == before.runtime.processes.names(),
        after.runtime.actors == before.runtime.actors,
        after.runtime.processes@[name].status == ProcessStatus::Running,
        after.runtime.processes@[name].last_restart == Some(now),
        after.runtime.processes@[name].command == before.runtime.processes@[name].command,
        step.action matches Action::Finish(Ok(_)),
        opts.log_messages && !opts.app_state ==> (step.notice matches Some(Notice::Print(text))
            && text@ == "Starting process '"@ + name + "'"@),
        !opts.log_messages ==> step.notice is None,
{
}

/// A child that could not be spawned changes nothing, and the reason is told with the
/// name.
pub proof fn law_failed_spawn_is_told(
    before: ProcessManager,
    after: ProcessManager,
    op: Operation,
    reason: String,
    step: Step,
)
    requires
        resumes(before, after, op, Event::Spawned(Err(reason)), step),
    ensures
        after == before,
        step.action matches Action::Finish(Err(ProcessError::ProcessSpawn { name, source }))
            && name@ == op.name@ && source == reason,
{
}

/// A process is asked to stop if and only if it has an actor, and one that has none is
/// named as not running.
pub proof fn law_stop_asks_the_actor(
    m: ProcessManager,
    name: Seq<char>,
    opts: LifecycleOptions,
    step: Step,
)
    requires
        begins_stop(m, name, opts, step),
    ensures
        m.runtime.actors@.contains_key(name) ==> step.action == Action::Ask(ActorCommand::Stop),
        !m.runtime.actors@.contains_key(name) ==> (step.action matches Action::Finish(
            Err(ProcessError::ProcessNotRunning { name: n }),
        ) && n@ == name),
        !opts.log_messages ==> step.notice is None,
        opts.log_messages && opts.app_state ==> (step.notice matches Some(Notice::Log(text))
            && text@ == "Stopping process '"@ + name + "'..."@),
        opts.log_messages && !opts.app_state ==> (step.notice matches Some(Notice::Print(text))
            && text@ == "Stopping process '"@ + name + "'..."@),
{
}

/// A stop is well over whether the child exited or survived, and says which. It
/// fails only where the actor was gone already.
pub proof fn law_stop_tells_what_came_of_it(
    name: Seq<char>,
    opts: LifecycleOptions,
    reply: Reply,
    step: Step,
)
    requires
        completes_stop(name, opts, reply, step),
    ensures
        reply == Reply::Closed <==> !(step.action matches Action::Finish(Ok(_))),
        reply == Reply::Closed ==> (step.action matches Action::Finish(
            Err(ProcessError::ProcessNotRunning { name: n }),
        ) && n@ == name),
        reply == Reply::Code(None) ==> tells_if_logging(
            step.notice,
            opts,
            "Process '"@ + name + "' is ignoring termination signals"@,
        ),
        reply == Reply::Dropped || (reply matches Reply::Code(Some(_))) ==> tells_if_logging(
            step.notice,
            opts,
            "Stopped process '"@ + name + "'"@,
        ),
{
}

/// A message that is told goes to the screen's log or to the terminal.
pub proof fn law_message_is_told_once(notice: Option<Notice>, app_state: bool, text: Seq<char>)
    ensures
        tells(notice, app_state, text) <==> if app_state {
            notice matches Some(Notice::Log(t)) && t@ == text
        } else {
            notice matches Some(Notice::Print(t)) && t@ == text
        },
{
}

/// A message goes to the screen or to the terminal as the options say, or nowhere,
/// and it is the text itself.
pub proof fn law_message_goes_where_it_is_seen(
    notice: Option<Notice>,
    opts: LifecycleOptions,
    text: Seq<char>,
)
    requires
        tells_if_logging(notice, opts, text),
    ensures
        !opts.log_messages ==> notice is None,
        opts.log_messages && opts.app_state ==> (notice matches Some(Notice::Log(t)) && t@
            == text),
        opts.log_messages && !opts.app_state ==> (notice matches Some(Notice::Print(t)) && t@
            == text),
{
}

/// A restart asks the child to stop, kills one whose actor is still there after that,
/// waits a fifth of a second, and starts the process. Where there is no actor, the
/// wait comes at once.
pub proof fn law_restart_stops_waits_and_starts(
    before: ProcessManager,
    after: ProcessManager,
    op: Operation,
    event: Event,
    step: Step,
)
    requires
        op.restart,
        op.awaits(event),
        resumes(before, after, op, event, step),
    ensures
        event is Replied && op.phase == Phase::Asking(ActorCommand::Stop) ==> after == before
            && step.action == if before.runtime.actors@.contains_key(op.name@) {
            Action::Ask(ActorCommand::Kill)
        } else {
            Action::Sleep(200_000_000)
        },
        event is Replied && op.phase == Phase::Asking(ActorCommand::Kill) ==> after == before
            && step.action == Action::Sleep(200_000_000),
        event == Event::Slept ==> begins_start(before, after, op.name@, op.opts, step),
{
}

/// A restart says so, and begins by asking the actor, where there is one, to stop.
pub proof fn law_restart_begins_with_stop(
    m: ProcessManager,
    name: Seq<char>,
    opts: LifecycleOptions,
    step: Step,
)
    requires
        begins_restart(m, name, opts, step),
    ensures
        tells(step.notice, opts.app_state, "Restarting process '"@ + name + "'..."@),
        m.runtime.actors@.contains_key(name) ==> step.action == Action::Ask(ActorCommand::Stop),
        !m.runtime.actors@.contains_key(name) ==> step.action == Action::Sleep(200_000_000),
{
}

/// What an operation waits for is what the action that it handed out will bring.
pub proof fn law_operation_waits_for_its_action(action: Action, op: Operation, event: Event)
    requires
        op.phase == action.phase(),
    ensures
        action is Spawn ==> (op.awaits(event) <==> event is Spawned),
        action is Watch ==> (op.awaits(event) <==> event is Watched),
        action is Ask ==> (op.awaits(event) <==> event is Replied),
        action is Sleep ==> (op.awaits(event) <==> event == Event::Slept),
        action is Finish ==> !op.awaits(event),
{
}

/// The message about an exit names the process and tells how it exited. Exit codes
/// without words of their own are told by their digits, so that no two of them are
/// told alike.
pub proof fn law_exit_message_tells_code(name: Seq<char>, code: i32, other: i32)
    requires
        code != 0 && code != -1 && code != 512 && code != -1073741510,
        other != 0 && other != -1 && other != 512 && other != -1073741510,
    ensures
        exit_message(name, Some(code)) == "Process '"@ + name + "' exited with code "@
            + signed_decimal(code as int),
        exit_message(name, Some(code)) == exit_message(name, Some(other)) ==> code == other,
        exit_message(name, Some(0i32)) == "Process '"@ + name + "' exited cleanly"@,
        exit_message(name, Some(-1i32)) == "Process '"@ + name + "' terminated gracefully"@,
        exit_message(name, Some(512i32)) == "Process '"@ + name + "' interrupted gracefully"@,
        exit_message(name, Some(-1073741510i32)) == "Process '"@ + name
            + "' interrupted gracefully"@,
        exit_message(name, None) == "Process '"@ + name + "' terminated by signal"@,
{
    let head = "Process '"@ + name + "' exited with code "@;
    let n = head.len() as int;
    assert(exit_message(name, Some(code)).skip(n) =~= signed_decimal(code as int));
    assert(exit_message(name, Some(other)).skip(n) =~= signed_decimal(other as int));
    if exit_message(name, Some(code)) == exit_message(name, Some(other)) {
        law_signed_decimal_tells_numbers_apart(code as int, other as int);
    }
}

/// The processes that are not stopped are listed in their order, each that has
/// another status and no other.
pub proof fn law_what_is_not_stopped_is_listed(
    names: Seq<Seq<char>>,
    processes: Map<Seq<char>, ProcessInfo>,
    name: Seq<char>,
)
    ensures
        not_stopped(Seq::<Seq<char>>::empty(), processes).len() == 0,
        processes[name].status == ProcessStatus::Stopped ==> not_stopped(
            names.push(name),
            processes,
        ) == not_stopped(names, processes),
        processes[name].status != ProcessStatus::Stopped ==> not_stopped(
            names.push(name),
            processes,
        ) == not_stopped(names, processes).push(name),
{
    assert(names.push(name).drop_last() =~= names);
}

/// The processes that failed to stop are those whose outcome says so, in order.
pub proof fn law_failures_are_listed(outcomes: Seq<(String, bool)>, name: String, stopped: bool)
    ensures
        failed_of(Seq::<(String, bool)>::empty()).len() == 0,
        stopped ==> failed_of(outcomes.push((name, stopped))) == failed_of(outcomes),
        !stopped ==> failed_of(outcomes.push((name, stopped))) == failed_of(outcomes).push(name@),
{
    assert(outcomes.push((name, stopped)).drop_last() =~= outcomes);
}

/// Every child with a process id is interrupted, by that id and under its name, and no
/// other.
pub proof fn law_every_child_is_interrupted(
    names: Seq<Seq<char>>,
    actors: Map<Seq<char>, ActorHandle>,
    windows: bool,
    name: Seq<char>,
)
    ensures
        interrupts_of(Seq::<Seq<char>>::empty(), actors, windows).len() == 0,
        actors[name].pid is None ==> interrupts_of(names.push(name), actors, windows)
            == interrupts_of(names, actors, windows),
        actors[name].pid matches Some(pid) ==> interrupts_of(names.push(name), actors, windows)
            == interrupts_of(names, actors, windows).push((pid, interrupt_message(name, windows))),
        holds_text(interrupt_message(name, windows), "'"@ + name + "'..."@),
{
    assert(names.push(name).drop_last() =~= names);
    reveal_strlit("'");
    reveal_strlit("Sending interrupt signal to '");
    reveal_strlit("Sending SIGINT to '");
    let whole = interrupt_message(name, windows);
    let begin = if windows {
        "Sending interrupt signal to '"@
    } else {
        "Sending SIGINT to '"@
    };
    let tail = "'"@ + name + "'..."@;
    assert(begin.last() == '\'');
    assert(whole =~= begin.drop_last() + tail + seq![]);
    law_held_text_is_in_between(begin.drop_last(), tail, seq![]);
}

/// The tasks that read output are counted over all processes.
pub proof fn law_handles_add_up(names: Seq<Seq<char>>, handles: Map<Seq<char>, usize>, name: Seq<char>)
    ensures
        total_handles(Seq::<Seq<char>>::empty(), handles) == 0,
        total_handles(names.push(name), handles) == total_handles(names, handles) + handles[name],
{
    assert(names.push(name).drop_last() =~= names);
}

/// A command line of two words is the command and the name of the process, as it is.
pub proof fn law_commands_name_their_process(
    c: Command,
    verb: Seq<char>,
    name: Seq<char>,
    input: Seq<char>,
    app_state: bool,
)
    requires
        is_command(c, seq![verb, name], input, app_state),
    ensures
        verb == "start"@ ==> (c matches Command::Start(n) && n@ == name),
        (verb == "stop"@ || verb == "s"@) && name != "all"@ ==> (c matches Command::Stop(n) && n@
            == name),
        (verb == "stop"@ || verb == "s"@) && name == "all"@ ==> c == Command::StopAll,
        verb == "restart"@ || verb == "r"@ ==> (c matches Command::Restart(n) && n@ == name),
        verb != "start"@ && verb != "stop"@ && verb != "s"@ && verb != "restart"@ && verb != "r"@
            ==> (c matches Command::Refuse { notice: _, error: ProcessError::InputRead(e) } && e@
            == "Unknown command: "@ + input),
{
    lemma_verbs();
}

/// A command line of one word asks for the status or for nothing, or is refused. So is
/// one of more than two words.
pub proof fn law_other_commands(c: Command, w: Seq<Seq<char>>, input: Seq<char>, app_state: bool)
    requires
        is_command(c, w, input, app_state),
        w.len() != 2,
    ensures
        w.len() == 0 ==> c == Command::Nothing,
        w.len() == 1 && (w[0] == "q"@ || w[0] == "quit"@) ==> c == Command::Nothing,
        w.len() == 1 && w[0] == "status"@ ==> c == Command::Status,
        w.len() == 1 && w[0] != "q"@ && w[0] != "quit"@ && w[0] != "status"@ ==> c is Refuse,
        w.len() == 1 && w[0] == "start"@ ==> (c matches Command::Refuse {
            notice,
            error: ProcessError::InputRead(e),
        } && e@ == "Missing process name for start command"@ && tells(
            notice,
            app_state,
            "Usage: start <name> - Start a specific stopped process"@,
        )),
        w.len() == 1 && (w[0] == "stop"@ || w[0] == "s"@) ==> (c matches Command::Refuse {
            notice,
            error: ProcessError::InputRead(e),
        } && e@ == "Missing process name for stop command"@ && tells(
            notice,
            app_state,
            "Usage: stop <name> or stop all - Stop a specific process or all processes"@,
        )),
        w.len() == 1 && (w[0] == "restart"@ || w[0] == "r"@) ==> (c matches Command::Refuse {
            notice,
            error: ProcessError::InputRead(e),
        } && e@ == "Missing process name for restart command"@ && tells(
            notice,
            app_state,
            "Usage: restart <name> - Restart a specific process"@,
        )),
        w.len() > 2 ==> (c matches Command::Refuse { notice, error: ProcessError::InputRead(e) } && e@
            == "Unknown command: "@ + input && if app_state {
            notice is None
        } else {
            notice matches Some(Notice::Print(t)) && t@ == "Unknown command: "@ + input
        }),
{
    lemma_verbs();
}

proof fn lemma_verbs()
    ensures
        "start"@ != "s"@ && "start"@ != "stop"@ && "start"@ != "r"@ && "start"@ != "restart"@,
        "start"@ != "q"@ && "start"@ != "quit"@ && "start"@ != "status"@,
        "stop"@ != "q"@ && "stop"@ != "quit"@ && "stop"@ != "status"@,
        "s"@ != "q"@ && "s"@ != "quit"@ && "s"@ != "status"@,
        "stop"@ != "r"@ && "stop"@ != "restart"@ && "s"@ != "r"@ && "s"@ != "restart"@,
        "r"@ != "q"@ && "r"@ != "quit"@ && "r"@ != "status"@,
        "restart"@ != "q"@ && "restart"@ != "quit"@ && "restart"@ != "status"@,
        "q"@ != "status"@ && "quit"@ != "status"@,
{
    reveal_strlit("start");
    reveal_strlit("s");
    reveal_strlit("stop");
    reveal_strlit("r");
    reveal_strlit("restart");
    reveal_strlit("q");
    reveal_strlit("quit");
    reveal_strlit("status");
    assert("start"@[0] == 's' && "stop"@[0] == 's' && "status"@[0] == 's' && "s"@[0] == 's');
    assert("r"@[0] == 'r' && "restart"@[0] == 'r' && "q"@[0] == 'q' && "quit"@[0] == 'q');
    assert("start"@.len() == 5 && "stop"@.len() == 4 && "status"@.len() == 6 && "s"@.len() == 1);
}

/// A process that is said to run without an actor has stopped now. Nothing else of it
/// changes, and nothing of any other process.
pub proof fn law_orphans_have_stopped(info: ProcessInfo, has_actor: bool, now: u128)
    ensures
        info.status == ProcessStatus::Running && !has_actor ==> {
            let r = orphan_fixed(info, has_actor, now);
            &&& r.status == ProcessStatus::Stopped
            &&& r.stopped_at == Some(now)
            &&& r.command == info.command
            &&& r.restart_count == info.restart_count
            &&& r.last_restart == info.last_restart
            &&& r.cumulative_runtime == info.cumulative_runtime
            &&& r.exit_code == info.exit_code
        },
        info.status != ProcessStatus::Running || has_actor ==> orphan_fixed(info, has_actor, now)
            == info,
{
}

/// Stopping all processes gives each a second more than it has to exit, and a tenth of
/// a second for its output at the end. The single stops say nothing.
pub proof fn law_stop_all_gives_time(
    m: ProcessManager,
    opts: LifecycleOptions,
    plan: StopAllPlan,
)
    requires
        m.stops_all(opts, Some(plan)),
    ensures
        plan.timeout == m.config.shutdown_timeout + 1_000_000_000,
        plan.settle == 100_000_000,
        plan.opts.app_state == opts.app_state && !plan.opts.log_messages,
        plan.names@.len() > 0,
        tells(
            plan.notice,
            opts.app_state,
            "Interrupt received, stopping processes gracefully..."@,
        ),
{
    assert(texts(plan.names@).len() == plan.names@.len());
}

/// The column of names is as wide as the longest name, and never too narrow for gaffa.
pub proof fn law_name_column_fits_gaffa(m: ProcessManager)
    ensures
        m.name_width() >= 5,
        m.name_width() >= m.config.max_name_length,
        m.name_width() == 5 || m.name_width() == m.config.max_name_length,
{
}

/// A process has the colour that it was given, and white where it was given none.
pub proof fn law_process_has_its_color(m: ProcessManager, name: Seq<char>)
    ensures
        m.config.colors@.contains_key(name) ==> m.color_of(name) == m.config.colors@[name],
        !m.config.colors@.contains_key(name) ==> m.color_of(name) == Color::White,
{
}

/// A Procfile that is loaded brings a process for each line that says something, with
/// its command, and leaves everything else as it was.
pub proof fn law_loading_brings_the_processes(
    before: ProcessManager,
    after: ProcessManager,
    found: Seq<Seq<char>>,
    i: int,
)
    requires
        loads(before, after, found),
        all_define(found),
        0 <= i < found.len(),
    ensures
        after.runtime.processes.names().len() == found.len(),
        ({
            let name = after.runtime.processes.names()[i];
            &&& after.runtime.processes@.contains_key(name)
            &&& after.runtime.processes@[name].command@ == definition(found[i]).unwrap().1
            &&& after.runtime.processes@[name].status == ProcessStatus::Stopped
            &&& after.color_of(name) == color_of_index(i as nat)
        }),
        after.runtime.processes.names().no_duplicates(),
        after.runtime.actors == before.runtime.actors,
        after.config.env_vars == before.config.env_vars,
        after.config.shell == before.config.shell,
        after.config.host == before.config.host,
        after.config.log_file == before.config.log_file,
        after.config.shutdown_timeout == before.config.shutdown_timeout,
{
    let data = ProcfileData {
        processes: after.runtime.processes,
        colors: after.config.colors,
        max_name_length: after.config.max_name_length,
    };
    law_processes_come_from_lines(data, found, i);
    let names = process_names(definitions(found));
    assert(data.colors@.contains_key(names[i]));
}

/// The status has a row for each process, in their order, on the screen and printed.
pub proof fn law_status_shows_every_process(
    m: ProcessManager,
    rows: Seq<String>,
    lines: Seq<String>,
    now: u128,
    i: int,
)
    requires
        m.shows_rows(rows, now),
        m.shows_table(lines, now),
        0 <= i < m.runtime.processes.names().len(),
    ensures
        ({
            let names = m.runtime.processes.names();
            let info = m.runtime.processes@[names[i]];
            &&& rows.len() == names.len()
            &&& is_screen_row(rows[i]@, names[i], info, now)
            &&& lines.len() == names.len() + 3
            &&& is_table_row(lines[i + 2]@, names[i], info, now)
            &&& lines[1]@ == repeated('-', 60)
            &&& lines.last()@ == repeated('-', 60) + seq!['\n']
        }),
{
    reveal_strlit("\n");
    assert("\n"@ =~= seq!['\n']);
    let names = m.runtime.processes.names();
    let info = m.runtime.processes@[names[i]];
    assert(is_table_row(lines[i + 2]@, names[i], info, now));
}

} // verus!
