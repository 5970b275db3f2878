//! What can be relied on when processes are run from the prompt of the console.

use vstd::prelude::*;
use crate::console::{
    backed_off, begins_direct_start, children_of, completes_direct_start, error_text, given_up,
    is_console_command, is_plain, knows_plain, plans_direct, prompts, records_exit, running_of,
    shell_split, split_result, LoopAction, PromptInput, PromptStep, ShutdownWatch, FORCE_DEADLINE,
    INTERRUPT_GRACE, LOOP_PAUSE, MONITOR_MAX_INTERVAL, MONITOR_START, STOP_EACH_TIMEOUT,
};
use crate::constants::NANOS_PER_SEC;
use crate::platform::GroupSetup;
use crate::process_manager::{
    tells, Action, ActorHandle, Command, Notice, ProcessConfig, ProcessManager, SpawnPlan, Step,
    StopAllPlan,
};
use crate::text::{decimal, texts, trimmed, words};
use crate::types::{ProcessError, ProcessInfo, ProcessStatus};

verus! {

/// A command that is run without a shell is its words: the first is the program and
/// the others are its arguments, all of them and in order.
pub proof fn law_direct_command_is_its_words(
    r: Result<SpawnPlan, ProcessError>,
    name: Seq<char>,
    command: Seq<char>,
    parts: Seq<Seq<char>>,
    config: ProcessConfig,
    app_state: bool,
)
    requires
        plans_direct(r, name, command, Ok(parts), config, app_state),
    ensures
        parts.len() == 0 ==> (r matches Err(ProcessError::EmptyCommand { name: n }) && n@ == name),
        parts.len() > 0 ==> (r matches Ok(plan) && {
            &&& seq![plan.program@] + texts(plan.args@) == parts
            &&& !plan.raw_args
            &&& plan.inherit_stdin == !app_state
            &&& config.host.windows ==> plan.group == Some(GroupSetup::CreationFlags(0x200))
            &&& !config.host.windows ==> plan.group is None
            &&& plan.env@.len() == config.env_vars.names().len()
            &&& forall|i: int|
                0 <= i < plan.env@.len() ==> {
                    let variable = config.env_vars.names()[i];
                    (#[trigger] plan.env@[i]).0@ == variable && plan.env@[i].1@
                        == config.env_vars@[variable]@
                }
        }),
{
    if parts.len() > 0 {
        let plan = r->Ok_0;
        assert(seq![plan.program@] + texts(plan.args@) =~= parts);
    }
}

/// A command that cannot be split is told, with the reason.
pub proof fn law_broken_command_is_told(
    r: Result<SpawnPlan, ProcessError>,
    name: Seq<char>,
    command: Seq<char>,
    reason: Seq<char>,
    config: ProcessConfig,
    app_state: bool,
)
    requires
        plans_direct(r, name, command, Err(reason), config, app_state),
    ensures
        r matches Err(ProcessError::CommandParse { command: c, source }) && c@ == command && source@
            == reason,
{
}

/// A command line without quotes, backslashes and hashes is split at its white space.
pub proof fn law_plain_command_is_split_into_words(command: Seq<char>)
    requires
        is_plain(command),
        knows_plain(command),
    ensures
        split_result(command) == Ok::<Seq<Seq<char>>, Seq<char>>(words(command)),
{
}

/// A command line fails to be split only for a quote that is not closed.
pub proof fn law_open_quote_is_told(command: Seq<char>)
    ensures
        split_result(command) is Ok <==> shell_split(command) is Some,
        split_result(command) matches Ok(parts) ==> shell_split(command) == Some(parts),
        split_result(command) matches Err(reason) ==> reason == "missing closing quote"@,
{
}

/// A start without a shell is refused if and only if the process is not known or
/// runs. Otherwise this process alone changes, in its status alone.
pub proof fn law_direct_start_is_refused_for_a_reason(
    before: ProcessManager,
    after: ProcessManager,
    name: Seq<char>,
    app_state: bool,
    step: Step,
    other: Seq<char>,
)
    requires
        begins_direct_start(before, after, name, app_state, step),
        other != name,
    ensures
        !before.runtime.processes@.contains_key(name) ==> after == before && (step.action
            matches Action::Finish(Err(ProcessError::ProcessNotFound { name: n })) && n@ == name),
        before.runtime.processes@.contains_key(name) && before.runtime.processes@[name].status
            == ProcessStatus::Running ==> after == before && (step.action matches Action::Finish(
            Err(ProcessError::ProcessAlreadyRunning { name: n }),
        ) && n@ == name),
        before.runtime.processes@.contains_key(name) && before.runtime.processes@[name].status
            != ProcessStatus::Running ==> {
            let a = after.runtime.processes@[name];
            let b = before.runtime.processes@[name];
            &&& a == (ProcessInfo { status: ProcessStatus::Restarting, ..b })
            &&& step.action is Spawn || (step.action matches Action::Finish(Err(e)) && (e
                is CommandParse || e is EmptyCommand))
        },
        after.config == before.config,
        after.runtime.processes.names() == before.runtime.processes.names(),
        after.runtime.output_handles == before.runtime.output_handles,
        after.runtime.actors == before.runtime.actors,
        after.runtime.processes@.contains_key(other) == before.runtime.processes@.contains_key(
            other,
        ),
        before.runtime.processes@.contains_key(other) ==> after.runtime.processes@[other]
            == before.runtime.processes@[other],
{
}

/// A child that was spawned runs from now on and is known by its process id. One that
/// was not changes nothing, and the reason is told.
pub proof fn law_direct_start_is_noted(
    before: ProcessManager,
    after: ProcessManager,
    name: Seq<char>,
    app_state: bool,
    spawned: Result<Option<u32>, String>,
    now: u128,
    step: Step,
    other: Seq<char>,
)
    requires
        completes_direct_start(before, after, name, app_state, spawned, now, step),
        before.runtime.processes@.contains_key(name),
        other != name,
    ensures
        spawned matches Ok(pid) ==> {
            &&& after.runtime.processes@[name].status == ProcessStatus::Running
            &&& after.runtime.processes@[name].last_restart == Some(now)
            &&& after.runtime.processes@[name].stopped_at is None
            &&& after.runtime.processes@[name].command == before.runtime.processes@[name].command
            &&& after.runtime.actors@.contains_key(name)
            &&& after.runtime.actors@[name].pid == pid
            &&& step.action matches Action::Finish(Ok(_))
            &&& !app_state ==> (step.notice matches Some(Notice::Print(t)) && t@
                == "Starting process '"@ + name + "'"@)
        },
        spawned matches Err(reason) ==> after == before && (step.action matches Action::Finish(
            Err(ProcessError::ProcessSpawn { name: n, source }),
        ) && n@ == name && source == reason),
        after.config == before.config,
        after.runtime.processes.names() == before.runtime.processes.names(),
        before.runtime.processes@.contains_key(other) ==> after.runtime.processes@[other]
            == before.runtime.processes@[other],
        before.runtime.actors@.contains_key(other) ==> after.runtime.actors@[other]
            == before.runtime.actors@[other],
{
}

/// An exit is recorded of its process, with its code and the time.
pub proof fn law_exit_is_recorded(
    before: ProcessManager,
    after: ProcessManager,
    name: Seq<char>,
    exit_code: Option<i32>,
    now: u128,
    other: Seq<char>,
)
    requires
        records_exit(before, after, name, exit_code, now),
        before.runtime.processes@.contains_key(name),
        other != name,
    ensures
        after.config == before.config,
        after.runtime.processes.names() == before.runtime.processes.names(),
        after.runtime.output_handles == before.runtime.output_handles,
        after.runtime.processes@[name].exit_code == exit_code,
        after.runtime.processes@[name].stopped_at == Some(now),
        after.runtime.processes@[name].status == ProcessStatus::Stopped,
        after.runtime.processes@[name].command == before.runtime.processes@[name].command,
        after.runtime.processes@.contains_key(other) == before.runtime.processes@.contains_key(
            other,
        ),
        before.runtime.processes@.contains_key(other) ==> after.runtime.processes@[other]
            == before.runtime.processes@[other],
{
}

/// The processes that run are listed in their order, each that does and no other.
pub proof fn law_running_processes_are_listed(
    names: Seq<Seq<char>>,
    processes: Map<Seq<char>, ProcessInfo>,
    name: Seq<char>,
)
    ensures
        running_of(Seq::<Seq<char>>::empty(), processes).len() == 0,
        processes[name].status == ProcessStatus::Running ==> running_of(names.push(name), processes)
            == running_of(names, processes).push(name),
        processes[name].status != ProcessStatus::Running ==> running_of(names.push(name), processes)
            == running_of(names, processes),
{
    assert(names.push(name).drop_last() =~= names);
}

/// A process that is given up has stopped by force. Nothing else of it changes.
pub proof fn law_given_up_process_was_forced(info: ProcessInfo)
    ensures
        given_up(info) == (ProcessInfo {
            status: ProcessStatus::Stopped,
            exit_code: Some(-1i32),
            ..info
        }),
{
}

/// Every process that has a child is listed once, by its child.
pub proof fn law_children_are_listed(
    names: Seq<Seq<char>>,
    actors: Map<Seq<char>, ActorHandle>,
    name: Seq<char>,
)
    ensures
        children_of(Seq::<Seq<char>>::empty(), actors).len() == 0,
        names.contains(name) || !actors.contains_key(name) ==> children_of(names.push(name), actors)
            == children_of(names, actors),
        !names.contains(name) && actors.contains_key(name) ==> children_of(names.push(name), actors)
            == children_of(names, actors).push(actors[name]),
{
    assert(names.push(name).drop_last() =~= names);
}

/// The time between two looks doubles up to two seconds, and stays there.
pub proof fn law_backoff_doubles(interval: u128)
    ensures
        interval <= 1_000_000_000 ==> backed_off(interval) == 2 * interval,
        1_000_000_000 <= interval <= 2_000_000_000 ==> backed_off(interval) == 2_000_000_000,
        interval >= 2_000_000_000 ==> backed_off(interval) == interval,
{
}

/// An error is shown behind its mark in brackets, as it is.
pub proof fn law_error_is_shown_behind_its_mark(mark: Seq<char>, text: Seq<char>)
    ensures
        error_text(mark, text) == seq!['['] + mark + seq![']', ' '] + text,
{
    reveal_strlit("[");
    reveal_strlit("] ");
    assert(error_text(mark, text) =~= seq!['['] + mark + seq![']', ' '] + text);
}

/// At the prompt, a command line of two words is the command and the name of the
/// process, as it is.
pub proof fn law_console_commands_name_their_process(
    c: Command,
    verb: Seq<char>,
    name: Seq<char>,
    input: Seq<char>,
    app_state: bool,
)
    requires
        is_console_command(c, seq![verb, name], input, app_state),
    ensures
        verb == "start"@ ==> (c matches Command::Start(n) && n@ == name),
        (verb == "stop"@ || verb == "s"@) && name != "all"@ ==> (c matches Command::Stop(n) && n@
            == name),
        (verb == "stop"@ || verb == "s"@) && name == "all"@ ==> c == Command::StopAll,
        verb == "restart"@ || verb == "r"@ ==> (c matches Command::Restart(n) && n@ == name),
{
    lemma_pair_verbs();
}

proof fn lemma_pair_verbs()
    ensures
        "start"@ != "s"@ && "start"@ != "stop"@ && "start"@ != "r"@ && "start"@ != "restart"@,
        "stop"@ != "r"@ && "stop"@ != "restart"@ && "s"@ != "r"@ && "s"@ != "restart"@,
{
    reveal_strlit("start");
    reveal_strlit("s");
    reveal_strlit("stop");
    reveal_strlit("r");
    reveal_strlit("restart");
    assert("start"@.len() == 5 && "stop"@.len() == 4 && "s"@.len() == 1);
    assert("start"@[0] == 's' && "stop"@[0] == 's' && "s"@[0] == 's');
    assert("r"@[0] == 'r' && "restart"@[0] == 'r');
}

/// Whether a line is refused for the reason, with the usage to the screen's log or as an
/// error to the terminal.
pub open spec fn is_refused(
    c: Command,
    app_state: bool,
    usage: Seq<char>,
    reason: Seq<char>,
) -> bool {
    &&& c is Refuse
    &&& c->error is InputRead
    &&& c->error->InputRead_0@ == reason
    &&& app_state ==> (c->notice matches Some(Notice::Log(t)) && t@ == usage)
    &&& !app_state ==> (c->notice matches Some(Notice::Error(t)) && t@ == usage)
}

/// At the prompt, every other line stops all, asks for the status or for nothing, or
/// is refused.
pub proof fn law_other_console_commands(
    c: Command,
    w: Seq<Seq<char>>,
    input: Seq<char>,
    app_state: bool,
)
    requires
        is_console_command(c, w, input, app_state),
        w.len() != 2,
    ensures
        w.len() == 0 ==> c == Command::Nothing,
        w.len() == 1 && w[0] == "stopall"@ ==> c == Command::StopAll,
        w.len() == 1 && (w[0] == "q"@ || w[0] == "quit"@) ==> c == Command::Nothing,
        w.len() == 1 && w[0] == "status"@ ==> c == Command::Status,
        w.len() == 1 && w[0] == "start"@ ==> is_refused(
            c,
            app_state,
            "Usage: start <name> - Start a specific stopped process"@,
            "Missing process name for start command"@,
        ),
        w.len() == 1 && (w[0] == "s"@ || w[0] == "stop"@) ==> is_refused(
            c,
            app_state,
            "Usage: stop <name> or stop all - Stop a specific process or all processes"@,
            "Missing process name for stop command"@,
        ),
        w.len() == 1 && (w[0] == "r"@ || w[0] == "restart"@) ==> is_refused(
            c,
            app_state,
            "Usage: restart <name> - Restart a specific process"@,
            "Missing process name for restart command"@,
        ),
        w.len() > 2 ==> (c matches Command::Refuse { notice, error: ProcessError::InputRead(e) } && e@
            == "Unknown command: "@ + input && if app_state {
            notice is None
        } else {
            notice matches Some(Notice::Error(t)) && t@ == "Unknown command: "@ + input
        }),
{
    reveal_strlit("start");
    reveal_strlit("s");
    reveal_strlit("stop");
    reveal_strlit("r");
    reveal_strlit("restart");
    reveal_strlit("stopall");
    reveal_strlit("q");
    reveal_strlit("quit");
    reveal_strlit("status");
    assert("start"@[0] == 's' && "stop"@[0] == 's' && "s"@[0] == 's' && "stopall"@[0] == 's');
    assert("r"@[0] == 'r' && "restart"@[0] == 'r' && "q"@[0] == 'q' && "quit"@[0] == 'q');
    assert("status"@[0] == 's' && "status"@.len() == 6 && "stopall"@.len() == 7);
    assert("start"@.len() == 5 && "stop"@.len() == 4 && "s"@.len() == 1);
}

/// A child is looked at more and more seldom, from ten times a second to every two
/// seconds. After an interrupt processes have five seconds, and everything is over
/// within twenty, four times as long.
pub proof fn law_console_takes_its_time()
    ensures
        10 * MONITOR_START == NANOS_PER_SEC,
        MONITOR_MAX_INTERVAL == 2 * NANOS_PER_SEC,
        INTERRUPT_GRACE == 5 * NANOS_PER_SEC,
        FORCE_DEADLINE == 4 * INTERRUPT_GRACE,
        STOP_EACH_TIMEOUT == INTERRUPT_GRACE,
        10 * LOOP_PAUSE == NANOS_PER_SEC,
{
}

/// The prompt hands a line on without the white space around it, passes blank lines
/// over, and leaves at the end of the input, well, or with the reason why there was no
/// more.
pub proof fn law_prompt_hands_lines_on(r: PromptStep, line: String, reason: String)
    ensures
        prompts(PromptInput::Line(line), r) && trimmed(line@).len() > 0 ==> (r
            matches PromptStep::Handle(text) && text@ == trimmed(line@)),
        prompts(PromptInput::Line(line), r) && trimmed(line@).len() == 0 ==> r == PromptStep::Again,
        prompts(PromptInput::Eof, r) ==> (r matches PromptStep::Leave(Ok(_))),
        prompts(PromptInput::Failed(reason), r) ==> r == PromptStep::Leave(
            Err(ProcessError::InputRead(reason)),
        ),
{
}

/// A shutdown begins once, when it is first asked for: processes have five seconds to
/// react, and twenty seconds later all is over.
pub proof fn law_shutdown_begins_once(
    before: ShutdownWatch,
    begun: ShutdownWatch,
    after: ShutdownWatch,
    first: Option<u128>,
    second: Option<u128>,
    again: bool,
    now: u128,
    later: u128,
)
    requires
        !before.initiated,
        now + 20_000_000_000 <= u128::MAX,
        ShutdownWatch::begins(before, begun, true, now, first),
        ShutdownWatch::begins(begun, after, again, later, second),
    ensures
        first == Some(5_000_000_000u128),
        begun.initiated && begun.deadline == Some((now + 20_000_000_000) as u128),
        second is None,
        after == begun,
{
}

/// No shutdown begins unless one is asked for.
pub proof fn law_no_shutdown_unasked(
    before: ShutdownWatch,
    after: ShutdownWatch,
    now: u128,
    grace: Option<u128>,
)
    requires
        ShutdownWatch::begins(before, after, false, now, grace),
    ensures
        grace is None && after == before,
{
}

/// The loop kills what is left if and only if its time is over, leaves before that when
/// a shutdown has begun and all processes have stopped, and goes on otherwise.
pub proof fn law_loop_ends_in_time(watch: ShutdownWatch, now: u128, all_stopped: bool)
    ensures
        watch.next_action(now, all_stopped) == LoopAction::ForceKill <==> (watch.deadline
            matches Some(deadline) && now > deadline),
        watch.next_action(now, all_stopped) == LoopAction::Leave <==> watch.initiated && all_stopped
            && !(watch.deadline matches Some(deadline) && now > deadline),
        watch.next_action(now, all_stopped) is Sleep ==> watch.next_action(now, all_stopped)
            == LoopAction::Sleep(100_000_000),
{
}

/// Every running process is stopped, each within five seconds, and their number is told.
/// Where none runs there is nothing to do.
pub proof fn law_stop_all_stops_what_runs(
    m: ProcessManager,
    app_state: bool,
    r: Option<StopAllPlan>,
)
    requires
        m.stops_running(app_state, r),
    ensures
        ({
            let names = running_of(m.runtime.processes.names(), m.runtime.processes@);
            &&& r is Some <==> names.len() > 0
            &&& r matches Some(plan) ==> {
                &&& texts(plan.names@) == names
                &&& tells(
                    plan.notice,
                    app_state,
                    "Stopping "@ + decimal(names.len()) + " processes..."@,
                )
                &&& plan.opts.app_state == app_state && plan.opts.log_messages
                &&& plan.timeout == 5_000_000_000
                &&& plan.settle == 100_000_000
            }
        }),
{
}

} // verus!
