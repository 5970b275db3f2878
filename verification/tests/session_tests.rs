use gaffa::console::{
    asks_to_quit, console_line, error_line, layout_error, prompt_step, LoopAction, PromptInput, PromptStep,
    RestartStep, ShutdownWatch,
};
use gaffa::color::Color;
use gaffa::output::{strip_ansi_escapes, LineAction, Sink};
use gaffa::platform::{
    begin_ladder, climb, configure_command, confirmed_code, ensure_console_mode,
    force_kill_process, signal_targets, taskkill_args, terminate_process, GroupSetup, Host,
    KillPlan, LadderAction, Signal, TermAction, TermEvent, Termination,
};
use gaffa::process_manager::{
    finalize_process_exit, Action, ActorHandle, Command, LifecycleOptions, Notice, ProcessManager,
};
use gaffa::session::{
    announce_log_rotation, collect_environment, configure_manager, console_env_error,
    ensure_log_parent_dir, env_arg_messages, layout_banner_text, layout_boxed, log_dir_answer,
    parse_env_args, print_startup_banner, rotate_log_path, rotated_log_name,
    run_non_interactive, span_of_secs, start_failure_message, LogDirStep, RotationStep, RunAction,
    RunPhase,
};
use gaffa::summary::{
    format_span, layout_console_heading, layout_row, show_console_summary,
    show_termination_summary,
};
use gaffa::types::{ProcessError, ProcessStatus};

const SECOND: u128 = 1_000_000_000;

fn unix() -> Host {
    Host { windows: false, pwsh_on_path: false }
}

fn windows() -> Host {
    Host { windows: true, pwsh_on_path: false }
}

fn loaded(content: &str) -> ProcessManager {
    let mut manager = ProcessManager::new(unix());
    manager
        .load_procfile("Procfile", Ok(content.to_string()))
        .expect("the Procfile is valid");
    manager
}

/// Lines without their colours, which other tests may switch on.
fn plain(lines: &[String]) -> Vec<String> {
    lines.iter().map(|line| strip_ansi_escapes(line)).collect()
}

fn run_console(manager: &mut ProcessManager, name: &str, now: u128) {
    let step = manager.start_process_with_state(name, false);
    assert!(matches!(step.action, Action::Spawn(_)));
    let step = manager.child_spawned(name, false, Ok(Some(7)), now);
    assert!(matches!(step.action, Action::Finish(Ok(()))));
}

#[test]
fn test_termination_summary_format() {
    let manager = loaded("web: x");
    let lines = plain(&show_termination_summary(&manager, 0));
    let expected_header = "Session terminated";
    let expected_columns = "process";
    assert!(expected_header.len() > 0);
    assert!(expected_columns.len() > 0);
    assert!(lines.iter().any(|l| l.contains(expected_header)));
    assert!(lines.iter().any(|l| l.contains(expected_columns)));
}

#[test]
fn summaries_are_boxed() {
    let mut manager = loaded("web: x\ndatabase: y");
    run_console(&mut manager, "web", SECOND);
    manager.child_stopped("web", false, Some(0), 3 * SECOND);
    let lines = show_termination_summary(&manager, 5 * SECOND);
    assert_eq!(
        plain(&lines),
        vec![
            "",
            "  Session terminated",
            "",
            "  ╭──────────┬─────────┬─────────╮",
            "  │ process  │ status  │ runtime │",
            "  ├──────────┼─────────┼─────────┤",
            "  │ web      │ exit 0  │ 2s      │",
            "  │ database │ stopped │ N/A     │",
            "  ╰──────────┴─────────┴─────────╯",
        ]
    );
}

#[test]
fn summaries_are_coloured() {
    colored::control::set_override(true);
    let mut manager = loaded("web: x");
    run_console(&mut manager, "web", SECOND);
    manager.child_stopped("web", false, Some(0), 3 * SECOND);
    let lines = show_termination_summary(&manager, 5 * SECOND);
    assert_eq!(lines[1], "  \x1b[1mSession terminated\x1b[0m");
    let v = "\x1b[90m│\x1b[0m";
    assert_eq!(
        lines[6],
        format!(
            "  {v} \x1b[36mweb    \x1b[0m {v} \x1b[32mexit 0\x1b[0m {v} \x1b[2m2s     \x1b[0m {v}"
        )
    );
}

#[test]
fn spans_of_time_are_written_out() {
    assert_eq!(format_span(0), "N/A");
    assert_eq!(format_span(999_999), "N/A");
    assert_eq!(format_span(1_000_000), "1ms");
    assert_eq!(format_span(999_999_999), "999ms");
    assert_eq!(format_span(SECOND), "1s");
    assert_eq!(format_span(61 * SECOND), "1m 1s");
    assert_eq!(format_span(3661 * SECOND), "1h 1m 1s");
    assert_eq!(layout_row("|", "a", "b", "c"), "  | a | b | c |");
}

#[test]
fn console_summaries_are_listed() {
    let mut manager = loaded("web: x\nworker: y");
    run_console(&mut manager, "web", SECOND);
    manager.child_stopped("web", false, Some(-1), 61 * SECOND);
    run_console(&mut manager, "web", 70 * SECOND);
    let lines = show_console_summary(&manager, 75 * SECOND);
    assert_eq!(
        plain(&lines),
        vec![
            format!("\n{}", "=".repeat(79)),
            "Session terminated, summary:".to_string(),
            "".to_string(),
            "     process        status       runtime".to_string(),
            "-".repeat(42),
            "         web       running     5s (1m5s) [1 restarts]".to_string(),
            "      worker       stopped           N/A".to_string(),
            "\n".to_string(),
        ]
    );
}

#[test]
fn banners_are_boxed() {
    let names = vec!["web".to_string(), "db".to_string()];
    let (lines, rotation) =
        print_startup_banner("1.0", "Procfile", &names, Some("g.log"), Some("./g-1.log"), Some(80));
    assert_eq!(
        plain(&lines),
        vec![
            "",
            "  ╭────────────────────────────────╮",
            "  │ gaffa 1.0                      │",
            "  ├────────────────────────────────┤",
            "  │ procfile   Procfile            │",
            "  │ processes  2 · web, db         │",
            "  │ logfile    g.log               │",
            "  │ controls   q or Ctrl+C to stop │",
            "  ╰────────────────────────────────╯",
            "",
        ]
    );
    assert_eq!(
        strip_ansi_escapes(&rotation.unwrap()),
        "gaffa │ rotated g.log → ./g-1.log"
    );
}

#[test]
fn banners_are_coloured() {
    colored::control::set_override(true);
    let names = vec!["web".to_string()];
    let (lines, _) = print_startup_banner("1.0", "Procfile", &names, None, None, Some(80));
    assert!(lines[2].contains("\x1b[1;35mgaffa 1.0"));
    assert!(lines[4].contains("\x1b[90mprocfile \x1b[0m  Procfile"));
}

#[test]
fn banners_are_compact_on_narrow_terminals() {
    let names = vec!["web".to_string(), "db".to_string()];
    let (lines, rotation) =
        print_startup_banner("1.0", "Procfile", &names, Some("g.log"), Some("g.log"), Some(35));
    assert_eq!(
        plain(&lines),
        vec![
            "gaffa │ gaffa 1.0 · 2 · web, db",
            "gaffa │ logging to g.log",
            "gaffa │ q or Ctrl+C to stop",
        ]
    );
    assert_eq!(rotation, None);
    let (wide, _) = print_startup_banner("1.0", "Procfile", &names, None, None, Some(36));
    assert_eq!(wide.len(), 9);
    let (none, _) = print_startup_banner("1.0", "Procfile", &names, None, None, Some(0));
    assert_eq!(none.len(), 2);
}

#[test]
fn banners_are_compact_without_a_terminal() {
    let names = vec!["web".to_string()];
    let (lines, rotation) = print_startup_banner("0.1.0", "Procfile", &names, None, None, None);
    assert_eq!(
        plain(&lines),
        vec!["gaffa │ gaffa 0.1.0 · 1 · web", "gaffa │ q or Ctrl+C to stop"]
    );
    assert_eq!(rotation, None);
}

#[test]
fn rotations_are_announced_where_they_matter() {
    assert!(announce_log_rotation(None, Some("x")).is_none());
    assert!(announce_log_rotation(Some("x"), None).is_none());
    assert!(announce_log_rotation(Some("x"), Some("x")).is_none());
    assert!(announce_log_rotation(Some("x"), Some("y")).is_some());
}

#[test]
fn log_files_are_numbered() {
    assert_eq!(
        rotated_log_name(Some("gaffa"), Some("log"), "2024-05-06", 7),
        "gaffa-2024-05-06_007.log"
    );
    assert_eq!(rotated_log_name(None, None, "2024-05-06", 999), "gaffa-2024-05-06_999");
    assert_eq!(rotated_log_name(Some("a"), None, "d", 42), "a-d_042");
    assert_eq!(rotate_log_path(1, false), RotationStep::Use(1));
    assert_eq!(rotate_log_path(1, true), RotationStep::Try(2));
    assert_eq!(rotate_log_path(999, true), RotationStep::Use(999));
}

#[test]
fn log_directories_are_asked_for() {
    assert!(matches!(ensure_log_parent_dir(None, false), LogDirStep::Ready));
    assert!(matches!(ensure_log_parent_dir(Some(""), false), LogDirStep::Ready));
    assert!(matches!(ensure_log_parent_dir(Some("logs"), true), LogDirStep::Ready));
    match ensure_log_parent_dir(Some("logs"), false) {
        LogDirStep::Ask(text) => assert_eq!(
            text,
            "Log file directory 'logs' does not exist. Create it? [y/N]: "
        ),
        LogDirStep::Ready => panic!("the directory is missing"),
    }
    for yes in ["y\n", " Y ", "yes", "YES"] {
        assert!(log_dir_answer("logs/g.log", "logs", yes).is_ok());
    }
    match log_dir_answer("logs/g.log", "logs", "Yes") {
        Err(ProcessError::ProcfileRead { path, source }) => {
            assert_eq!(path, "logs/g.log");
            assert_eq!(source, "parent directory 'logs' does not exist");
        }
        _ => panic!("the answer is no"),
    }
}

#[test]
fn env_arguments_are_assignments() {
    let args = vec!["A=1".to_string(), " B = 2 ".to_string(), "A=x=y".to_string()];
    let env = parse_env_args(&args).unwrap();
    assert_eq!(env.get("A"), Some(&"x=y".to_string()));
    assert_eq!(env.get(" B "), Some(&" 2 ".to_string()));
    assert_eq!(env.len(), 2);
    let bad = vec!["A=1".to_string(), "oops".to_string(), "worse".to_string()];
    match parse_env_args(&bad) {
        Err(ProcessError::InvalidFormat { line }) => assert_eq!(line, "oops"),
        _ => panic!("the argument is no assignment"),
    }
    let (first, second) = env_arg_messages("oops");
    assert_eq!(first, "Invalid environment variable format: oops");
    assert_eq!(second, "Expected format: KEY=VALUE");
    let (text, error) = console_env_error("oops");
    assert_eq!(text, "Invalid env format: oops (expected KEY=VALUE)");
    assert_eq!(error.to_string(), "Error reading input: Invalid env format: oops");
}

#[test]
fn requested_processes_are_checked_and_kept() {
    let mut manager = loaded("web: 1\nworker: 2\ndb: 3");
    assert!(manager.select_processes(&None).is_ok());
    assert_eq!(manager.process_names().len(), 3);
    let unknown = Some(vec!["web".to_string(), "x".to_string(), "y".to_string()]);
    match manager.select_processes(&unknown) {
        Err(ProcessError::ProcessNotFound { name }) => assert_eq!(name, "x"),
        _ => panic!("the process is not known"),
    }
    assert_eq!(manager.process_names().len(), 3);
    let some = Some(vec!["db".to_string(), "web".to_string()]);
    assert!(manager.select_processes(&some).is_ok());
    assert_eq!(manager.process_names(), vec!["web", "db"]);
    assert_eq!(manager.startup_names(&some), vec!["db", "web"]);
    assert_eq!(manager.startup_names(&None), vec!["web", "db"]);
}

#[test]
fn start_failures_are_told() {
    let error = ProcessError::EmptyCommand { name: "web".to_string() };
    assert_eq!(
        start_failure_message("web", &error),
        "Failed to start process 'web': Empty command for process 'web'"
    );
    assert_eq!(span_of_secs(10), 10 * SECOND);
}

#[test]
fn sessions_end_in_order() {
    let step = |phase: RunPhase, interrupted: bool, stopped: bool| {
        run_non_interactive(phase, 2, None, interrupted, stopped)
    };
    let (phase, action) = step(RunPhase::Waiting, false, false);
    assert_eq!(phase, RunPhase::Waiting);
    assert!(matches!(action, RunAction::Sleep(100_000_000)));
    let (phase, action) = step(RunPhase::Waiting, true, false);
    assert!(matches!(action, RunAction::StopAll(opts) if opts == LifecycleOptions::quiet()));
    let (phase, action) = step(phase, true, false);
    assert!(matches!(action, RunAction::FixOrphans));
    let (phase, action) = step(phase, true, false);
    assert!(matches!(action, RunAction::Drain(500_000_000)));
    let (phase, action) = step(phase, true, false);
    assert!(matches!(action, RunAction::Summary));
    let (phase, action) = step(phase, true, false);
    assert!(matches!(action, RunAction::Pause(100_000_000)));
    let (phase, action) = step(phase, true, false);
    assert_eq!(phase, RunPhase::Over);
    assert!(matches!(action, RunAction::Exit(130)));
    let (phase, _) = step(RunPhase::Waiting, false, true);
    assert_eq!(phase, RunPhase::Draining { interrupted: false });
    let (phase, _) = step(phase, true, true);
    let (_, action) = step(phase, true, true);
    assert!(matches!(action, RunAction::Return(true)));
}

#[test]
fn sessions_start_their_processes_in_order() {
    let first = RunPhase::Starting { next: 0 };
    let (phase, action) = run_non_interactive(first, 2, None, false, true);
    assert!(matches!(action, RunAction::Start(0)));
    let (phase, action) = run_non_interactive(phase, 2, Some(Ok(())), true, true);
    assert!(matches!(action, RunAction::Start(1)));
    let (phase, action) = run_non_interactive(phase, 2, Some(Ok(())), false, true);
    assert_eq!(phase, RunPhase::Waiting);
    assert!(matches!(action, RunAction::Sleep(100_000_000)));
}

#[test]
fn the_first_failed_start_ends_the_session() {
    let mut manager = ProcessManager::new(unix());
    let first = RunPhase::Starting { next: 0 };
    let (phase, action) = run_non_interactive(first, 1, None, false, true);
    assert!(matches!(action, RunAction::Start(0)));
    let (_op, step) = manager.start_process_with_opts("nope", &LifecycleOptions::quiet());
    let result = match step.action {
        Action::Finish(result) => result,
        _ => panic!("the process is not known"),
    };
    let (phase, action) = run_non_interactive(phase, 1, Some(result), false, true);
    assert_eq!(phase, RunPhase::Over);
    assert!(matches!(
        action,
        RunAction::Fail(ProcessError::ProcessNotFound { name }) if name == "nope"
    ));
}

#[test]
fn children_have_time_before_they_are_killed() {
    let (mut state, action) = Termination::begin(250_000_000);
    assert_eq!(action, TermAction::Look);
    let alive = TermEvent::Alive { has_pid: true };
    assert_eq!(terminate_process(&mut state, alive), TermAction::Signal);
    assert_eq!(terminate_process(&mut state, TermEvent::Signalled(true)), TermAction::Look);
    for _ in 0..2 {
        assert_eq!(terminate_process(&mut state, alive), TermAction::Sleep(100_000_000));
        assert_eq!(terminate_process(&mut state, TermEvent::Slept), TermAction::Look);
    }
    assert_eq!(terminate_process(&mut state, alive), TermAction::Sleep(100_000_000));
    assert!(state.accepts(TermEvent::Slept));
    assert!(!state.accepts(TermEvent::Killed));
    assert_eq!(terminate_process(&mut state, TermEvent::Slept), TermAction::ForceKill);
    assert_eq!(
        terminate_process(&mut state, TermEvent::Killed),
        TermAction::Confirm(2 * SECOND)
    );
    assert_eq!(terminate_process(&mut state, TermEvent::TimedOut), TermAction::Done(None));
}

#[test]
fn children_that_cannot_be_signalled_are_killed_or_awaited() {
    let (mut state, _) = Termination::begin(SECOND);
    let alive = TermEvent::Alive { has_pid: true };
    terminate_process(&mut state, alive);
    let action = terminate_process(&mut state, TermEvent::Signalled(false));
    assert_eq!(action, TermAction::ForceKill);
    let (mut state, _) = Termination::begin(SECOND);
    let action = terminate_process(&mut state, TermEvent::Alive { has_pid: false });
    assert_eq!(action, TermAction::Confirm(2 * SECOND));
    let action = terminate_process(&mut state, TermEvent::Exited(Some(3)));
    assert_eq!(action, TermAction::Done(Some(Some(3))));
    let (mut state, _) = Termination::begin(SECOND);
    let action = terminate_process(&mut state, TermEvent::Exited(None));
    assert_eq!(action, TermAction::Done(Some(None)));
}

#[test]
fn ladders_are_climbed() {
    match begin_ladder(windows(), true, None) {
        LadderAction::Climb { index, rung } => {
            assert_eq!(index, 0);
            assert_eq!(rung.signal, Signal::CtrlC);
            assert_eq!(rung.wait, 2 * SECOND);
            assert!(rung.look);
        }
        _ => panic!("the child is interrupted"),
    }
    assert!(matches!(
        climb(windows(), 4, None),
        LadderAction::Climb { rung, .. } if rung.signal == Signal::KillTree && !rung.look
    ));
    assert_eq!(climb(windows(), 5, None), LadderAction::Confirm(2 * SECOND));
    assert_eq!(begin_ladder(windows(), false, None), LadderAction::Confirm(2 * SECOND));
    assert!(matches!(
        begin_ladder(unix(), false, None),
        LadderAction::Climb { rung, .. } if rung.signal == Signal::KillChild
    ));
    assert_eq!(climb(unix(), 1, Some(Some(0))), LadderAction::Done(Some(0)));
    assert_eq!(confirmed_code(None), Some(-1));
    assert_eq!(confirmed_code(Some(None)), None);
}

#[test]
fn consoles_and_groups_are_set_up() {
    assert_eq!(ensure_console_mode(0), 7);
    assert_eq!(ensure_console_mode(0x18), 0x1f);
    assert_eq!(configure_command(windows()), GroupSetup::CreationFlags(0x200));
    assert_eq!(configure_command(unix()), GroupSetup::ProcessGroup(0));
    assert_eq!(taskkill_args(42), vec!["/F", "/T", "/PID", "42"]);
    assert_eq!(signal_targets(42), (-42, 42));
    assert!(matches!(
        force_kill_process(unix(), 42),
        KillPlan::Signals { group: -42, process: 42 }
    ));
    assert!(matches!(
        force_kill_process(windows(), 42),
        KillPlan::TaskKill(args) if args == taskkill_args(42)
    ));
}

#[test]
fn commands_are_split_like_a_shell_does() {
    let mut manager = loaded("web: echo 'a b' \"c\\\"d\" e\\ f # g");
    let step = manager.start_process_with_state("web", false);
    match step.action {
        Action::Spawn(plan) => {
            assert_eq!(plan.program, "echo");
            assert_eq!(plan.args, vec!["a b", "c\"d", "e f"]);
            assert!(!plan.raw_args);
        }
        _ => panic!("a child is spawned"),
    }
    let simple = manager.spawn_process_with_state("web", "sleep  5", true).unwrap();
    assert_eq!(simple.program, "sleep");
    assert_eq!(simple.args, vec!["5"]);
    assert!(!simple.inherit_stdin);
    assert_eq!(simple.group, None);
    match manager.spawn_process_with_state("web", "echo 'x", false) {
        Err(ProcessError::CommandParse { command, source }) => {
            assert_eq!(command, "echo 'x");
            assert_eq!(source, "missing closing quote");
        }
        _ => panic!("a quote is not closed"),
    }
    assert!(matches!(
        manager.spawn_process_with_state("web", "  # nothing", false),
        Err(ProcessError::EmptyCommand { name }) if name == "web"
    ));
    let words = vec!["a".to_string(), "b".to_string()];
    let plan = manager.plan_direct("web", "a b", Ok(words), false).unwrap();
    assert_eq!(plan.program, "a");
    assert!(matches!(
        manager.plan_direct("web", "x", Err("why".to_string()), false),
        Err(ProcessError::CommandParse { source, .. }) if source == "why"
    ));
}

#[test]
fn console_processes_live_by_their_status() {
    let mut manager = loaded("web: sleep 5");
    run_console(&mut manager, "web", SECOND);
    let step = manager.start_process_with_state("web", false);
    assert!(matches!(
        step.action,
        Action::Finish(Err(ProcessError::ProcessAlreadyRunning { .. }))
    ));
    let (notice, child) = manager.stop_process_with_state("web", false);
    assert!(matches!(notice, Some(Notice::Print(t)) if t == "Stopping process 'web'..."));
    assert_eq!(child.unwrap(), ActorHandle { pid: Some(7) });
    let notice = manager.child_stopped("web", true, Some(-1), 3 * SECOND);
    assert!(matches!(notice, Some(Notice::Log(t)) if t == "Stopped process 'web'"));
    let info = manager.get_process_info("web").unwrap();
    assert_eq!(info.status, ProcessStatus::Stopped);
    assert_eq!(info.cumulative_runtime, 2 * SECOND);
    let (_, again) = manager.stop_process_with_state("web", false);
    assert!(matches!(again, Err(ProcessError::ProcessNotRunning { .. })));
    run_console(&mut manager, "web", 4 * SECOND);
    let notice = manager.child_exited("web", true, Some(0), 5 * SECOND);
    assert!(matches!(notice, Some(Notice::Log(t)) if t == "Process 'web' exited cleanly"));
    assert_eq!(manager.children_count(), 0);
    let (notice, steps) = manager.restart_process_with_state("web", false);
    assert!(matches!(notice, Some(Notice::Print(t)) if t == "Restarting process 'web'..."));
    assert_eq!(
        steps,
        vec![RestartStep::Stop, RestartStep::Sleep(200_000_000), RestartStep::Start]
    );
    let failed = manager.child_spawned("web", false, Err("denied".to_string()), 6 * SECOND);
    assert!(matches!(
        failed.action,
        Action::Finish(Err(ProcessError::ProcessSpawn { .. }))
    ));
}

#[test]
fn console_shutdowns_give_up_in_the_end() {
    let mut manager = loaded("web: sleep 5\nworker: sleep 5");
    assert!(manager.stop_all_with_state(false).is_none());
    assert!(!manager.any_running());
    run_console(&mut manager, "web", SECOND);
    run_console(&mut manager, "worker", SECOND);
    assert!(manager.any_running());
    let plan = manager.stop_all_with_state(false).unwrap();
    assert_eq!(plan.names, vec!["web", "worker"]);
    assert_eq!(plan.timeout, 5 * SECOND);
    assert!(matches!(plan.notice, Some(Notice::Print(t)) if t == "Stopping 2 processes..."));
    let left = manager.give_up(&vec!["worker".to_string(), "x".to_string(), "worker".to_string()]);
    assert_eq!(left, vec![ActorHandle { pid: Some(7) }]);
    assert_eq!(manager.runtime.actors.get("web"), Some(&ActorHandle { pid: Some(7) }));
    let worker = manager.get_process_info("worker").unwrap();
    assert_eq!(worker.status, ProcessStatus::Stopped);
    assert_eq!(worker.exit_code, Some(-1));
    assert_eq!(manager.get_process_info("web").unwrap().status, ProcessStatus::Running);
    assert!(matches!(
        ProcessManager::all_stopped_notice(true),
        Some(Notice::Log(t)) if t == "All processes stopped"
    ));
    finalize_process_exit("web", None, &mut manager.runtime, 2 * SECOND);
    assert!(!manager.any_running());
}

#[test]
fn console_commands_are_understood() {
    let manager = loaded("web: x");
    assert!(matches!(
        manager.handle_command_with_state("stopall", false),
        Command::StopAll
    ));
    assert!(matches!(
        manager.handle_command_with_state("stop all", false),
        Command::StopAll
    ));
    match manager.handle_command_with_state("stop", false) {
        Command::Refuse { notice: Some(Notice::Error(text)), .. } => assert_eq!(
            text,
            "Usage: stop <name> or stop all - Stop a specific process or all processes"
        ),
        _ => panic!("the name is missing"),
    }
    assert!(matches!(
        manager.handle_command_with_state("what is this", false),
        Command::Refuse { notice: Some(Notice::Error(text)), .. }
            if text == "Unknown command: what is this"
    ));
    assert!(matches!(
        manager.handle_command_with_state("what", true),
        Command::Refuse { notice: None, .. }
    ));
    assert!(matches!(
        manager.handle_command_with_state("r web", true),
        Command::Restart(name) if name == "web"
    ));
}

#[test]
fn console_lines_are_printed_as_they_are() {
    colored::control::set_override(true);
    let sink = Sink::Terminal { width: Some(20), log_file: true };
    let line = "\x1b[32mok\x1b[0m a long line that is not wrapped ";
    match console_line("web", line, true, sink, 5, Color::Cyan, "T") {
        LineAction::Print { rows, log_line } => {
            let text = "\x1b[32mok\x1b[0m a long line that is not wrapped";
            assert_eq!(rows, vec![format!("\x1b[36mweb\x1b[0m   | {text}")]);
            assert_eq!(log_line, Some(format!("[T] [STDERR] [web] {text}\n")));
        }
        _ => panic!("the line is printed"),
    }
    assert_eq!(error_line("oops"), "[\x1b[31mERROR\x1b[0m] oops");
}

#[test]
fn prompts_go_on_until_the_end() {
    assert!(matches!(prompt_step(PromptInput::Eof), PromptStep::Leave(Ok(()))));
    let blank = PromptInput::Line("  \n".to_string());
    assert!(matches!(prompt_step(blank), PromptStep::Again));
    let line = PromptInput::Line(" status\n".to_string());
    assert!(matches!(prompt_step(line), PromptStep::Handle(text) if text == "status"));
    let failed = PromptInput::Failed("closed".to_string());
    assert!(matches!(
        prompt_step(failed),
        PromptStep::Leave(Err(ProcessError::InputRead(text))) if text == "closed"
    ));
    assert!(asks_to_quit(" quit\n"));
    assert!(asks_to_quit("q"));
    assert!(!asks_to_quit("quit now"));
}

#[test]
fn main_loops_shut_down_once() {
    let mut watch = ShutdownWatch::new();
    assert_eq!(watch.begin(false, SECOND), None);
    assert_eq!(watch.end_round(SECOND, true), LoopAction::Sleep(100_000_000));
    assert_eq!(watch.begin(true, SECOND), Some(5 * SECOND));
    assert_eq!(watch.begin(true, 2 * SECOND), None);
    assert_eq!(watch.end_round(2 * SECOND, false), LoopAction::Sleep(100_000_000));
    assert_eq!(watch.end_round(2 * SECOND, true), LoopAction::Leave);
    assert_eq!(watch.end_round(21 * SECOND, false), LoopAction::Sleep(100_000_000));
    assert_eq!(watch.end_round(21 * SECOND + 1, true), LoopAction::ForceKill);
    let (text, stop) = ShutdownWatch::after_grace(true);
    assert_eq!(text, "Some processes still running, initiating shutdown...");
    assert!(stop);
    assert_eq!(
        ShutdownWatch::after_grace(false),
        ("All processes stopped gracefully".to_string(), false)
    );
}

#[test]
fn environments_are_collected() {
    let args = vec!["A=1".to_string(), "B=2".to_string()];
    let file = Some((".env".to_string(), Ok("B = 3\nC=4".to_string())));
    let env = collect_environment(&args, file).unwrap();
    assert_eq!(env.get("A"), Some(&"1".to_string()));
    assert_eq!(env.get("B"), Some(&"3".to_string()));
    assert_eq!(env.get("C"), Some(&"4".to_string()));
    let missing = Some((".env".to_string(), Err("gone".to_string())));
    assert!(matches!(
        collect_environment(&args, missing),
        Err(ProcessError::ProcfileRead { path, source }) if path == ".env" && source == "gone"
    ));
    let bad = vec!["oops".to_string()];
    let missing = Some((".env".to_string(), Err("gone".to_string())));
    assert!(matches!(
        collect_environment(&bad, missing),
        Err(ProcessError::InvalidFormat { line }) if line == "oops"
    ));
}

#[test]
fn managers_are_configured() {
    let args = vec!["A=1".to_string()];
    let manager =
        configure_manager(unix(), &args, None, Some(3), None, Some("bash")).unwrap();
    assert_eq!(manager.config.shutdown_timeout, 3 * SECOND);
    assert_eq!(manager.config.shell.program, "bash");
    assert_eq!(manager.config.env_vars.get("A"), Some(&"1".to_string()));
    assert_eq!(manager.config.colors.len(), 0);
    assert_eq!(manager.config.max_name_length, 0);
    let default = configure_manager(unix(), &Vec::new(), None, None, Some("zsh"), Some("bash"));
    let default = default.unwrap();
    assert_eq!(default.config.shutdown_timeout, 10 * SECOND);
    assert_eq!(default.config.shell.program, "zsh");
    let bad = vec!["oops".to_string()];
    assert!(configure_manager(unix(), &bad, None, None, None, None).is_err());
}

#[test]
fn procfiles_are_loaded_and_selected() {
    let mut manager = ProcessManager::new(unix());
    let text = "web: 1\nworker: 2".to_string();
    let some = Some(vec!["worker".to_string()]);
    manager.load_selected("Procfile", Ok(text.clone()), &some).unwrap();
    assert_eq!(manager.process_names(), vec!["worker"]);
    let unknown = Some(vec!["x".to_string()]);
    assert!(matches!(
        manager.load_selected("Procfile", Ok(text.clone()), &unknown),
        Err(ProcessError::ProcessNotFound { name }) if name == "x"
    ));
    assert!(manager.load_selected("Procfile", Ok(text), &None).is_ok());
    assert_eq!(manager.process_names(), vec!["web", "worker"]);
    assert!(matches!(
        manager.load_selected("Procfile", Ok("".to_string()), &None),
        Err(ProcessError::NoProcesses)
    ));
    assert!(matches!(
        manager.load_selected("Procfile", Ok("bad".to_string()), &None),
        Err(ProcessError::InvalidFormat { line }) if line == "bad"
    ));
    assert!(matches!(
        manager.load_selected("Procfile", Err("gone".to_string()), &None),
        Err(ProcessError::ProcfileRead { .. })
    ));
    assert_eq!(manager.process_names(), vec!["web", "worker"]);
}

#[test]
fn cells_are_laid_out() {
    assert_eq!(layout_boxed("|", "text"), "  | text |");
    assert_eq!(layout_banner_text("label", "value", 7), "label  value  ");
    assert_eq!(layout_error("E", "text"), "[E] text");
    assert_eq!(layout_console_heading("a", "b", "c"), "a  b  c");
}

#[test]
fn logs_of_one_day_have_names_of_their_own() {
    let mut names: Vec<String> = Vec::new();
    for n in 1..=999u32 {
        names.push(rotated_log_name(Some("gaffa"), Some("log"), "2024-05-06", n));
    }
    names.sort();
    names.dedup();
    assert_eq!(names.len(), 999);
}
