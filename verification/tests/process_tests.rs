use gaffa::color::Color;
use gaffa::constants::{
    EXIT_CODE_CTRL_C_WINDOWS, EXIT_CODE_FORCED_TERMINATION, EXIT_CODE_KEYBOARD_INTERRUPT,
    GRACEFUL_SHUTDOWN_TIMEOUT, NANOS_PER_SEC, PROCESS_WAIT_TIMEOUT, TERMINAL_SEPARATOR_WIDTH,
};
use gaffa::name_map::NameMap;
use gaffa::output::strip_ansi_escapes;
use gaffa::platform::{GroupSetup, Host};
use gaffa::actor::{actor_accepts, run_process_actor, ActorAction, ActorCommand, ActorEvent, ActorPhase, Reply};
use gaffa::process_manager::{
    announce_natural_exit, failed_shutdowns, finalize_process_exit, stopped_in_time, Action, Command, Event, LifecycleOptions, Notice, Operation, Phase, ProcessManager, Step,
};
use gaffa::procfile::{
    build_procfile, parse_definition, parse_env_file, parse_procfile, split_definition,
};
use gaffa::shell::Shell;
use gaffa::status::layout_screen_row;
use gaffa::types::{ProcessError, ProcessInfo, ProcessStatus};

fn unix() -> Host {
    Host { windows: false, pwsh_on_path: false }
}

fn loaded(content: &str) -> ProcessManager {
    let mut manager = ProcessManager::new(unix());
    manager
        .load_procfile("Procfile", Ok(content.to_string()))
        .expect("the Procfile is valid");
    manager
}

/// Carries out an operation. Children are spawned, and exit with -1 when told.
fn carry_out(
    manager: &mut ProcessManager,
    op: &mut Operation,
    first: Step,
    now: u128,
) -> Result<(), ProcessError> {
    let mut step = first;
    loop {
        let event = match step.action {
            Action::Finish(result) => return result,
            Action::Spawn(_) => Event::Spawned(Ok(Some(4711))),
            Action::Watch { .. } => Event::Watched { now },
            Action::Ask(_) => {
                let name = op.name.clone();
                finalize_process_exit(&name, Some(-1), &mut manager.runtime, now);
                Event::Replied(Reply::Code(Some(-1)))
            }
            Action::Sleep(_) => Event::Slept,
        };
        assert!(manager.can_resume(op, &event));
        step = manager.resume(op, event);
    }
}

fn start(manager: &mut ProcessManager, name: &str, now: u128) -> Result<(), ProcessError> {
    let (mut op, step) = manager.start_process(name);
    carry_out(manager, &mut op, step, now)
}

fn stop(manager: &mut ProcessManager, name: &str, now: u128) -> Result<(), ProcessError> {
    let (mut op, step) = manager.stop_process(name);
    carry_out(manager, &mut op, step, now)
}

fn restart(manager: &mut ProcessManager, name: &str, now: u128) -> Result<(), ProcessError> {
    let (mut op, step) = manager.restart_process(name);
    carry_out(manager, &mut op, step, now)
}

/// Lines without their colours, which other tests may switch on.
fn plain(lines: &[String]) -> Vec<String> {
    lines.iter().map(|line| strip_ansi_escapes(line)).collect()
}

fn secs(n: u128) -> u128 {
    n * NANOS_PER_SEC
}

#[test]
fn test_process_status_display() {
    let running = ProcessStatus::Running.to_string();
    let stopped = ProcessStatus::Stopped.to_string();
    let restarting = ProcessStatus::Restarting.to_string();
    assert!(running.contains("RUNNING"));
    assert!(stopped.contains("STOPPED"));
    assert!(restarting.contains("RESTARTING"));
}

#[test]
fn statuses_have_their_colours() {
    colored::control::set_override(true);
    assert_eq!(ProcessStatus::Running.to_string(), "\x1b[32mRUNNING\x1b[0m");
    assert_eq!(ProcessStatus::Stopped.to_string(), "\x1b[33mSTOPPED\x1b[0m");
    assert_eq!(ProcessStatus::Restarting.to_string(), "\x1b[34mRESTARTING\x1b[0m");
    assert_eq!(ProcessStatus::Restarting.name(), "Restarting");
}

#[test]
fn test_process_error_messages() {
    let err = ProcessError::ProcessNotFound {
        name: "test".to_string(),
    };
    assert_eq!(err.to_string(), "Process 'test' not found");

    let err = ProcessError::ProcessAlreadyRunning {
        name: "web".to_string(),
    };
    assert_eq!(err.to_string(), "Process 'web' is already running");

    let err = ProcessError::EmptyCommand {
        name: "worker".to_string(),
    };
    assert_eq!(err.to_string(), "Empty command for process 'worker'");
}

#[test]
fn every_error_has_its_message() {
    let path = "Procfile".to_string();
    let source = "no such file".to_string();
    assert_eq!(
        ProcessError::ProcfileRead { path, source }.to_string(),
        "Failed to read Procfile 'Procfile': no such file"
    );
    assert_eq!(
        ProcessError::InvalidFormat { line: "x".to_string() }.to_string(),
        "Invalid Procfile line format: 'x'"
    );
    assert_eq!(
        ProcessError::NoProcesses.to_string(),
        "No valid processes found in Procfile"
    );
    assert_eq!(
        ProcessError::ProcessNotRunning { name: "web".to_string() }.to_string(),
        "Process 'web' is not running"
    );
    let command = "echo 'x".to_string();
    let source = "missing closing quote".to_string();
    assert_eq!(
        ProcessError::CommandParse { command, source }.to_string(),
        "Failed to parse command 'echo 'x': missing closing quote"
    );
    let name = "web".to_string();
    let source = "denied".to_string();
    assert_eq!(
        ProcessError::ProcessSpawn { name, source }.to_string(),
        "Failed to spawn process 'web': denied"
    );
    assert_eq!(
        ProcessError::InputRead("closed".to_string()).to_string(),
        "Error reading input: closed"
    );
}

#[test]
fn test_parse_env_file() {
    let env_content = "KEY1=value1\nKEY2=value2\n# Comment\n\nKEY3=value3";
    let mut env_vars: NameMap<String> = NameMap::new();
    parse_env_file("test_env_file", Ok(env_content.to_string()), &mut env_vars).unwrap();
    assert_eq!(env_vars.get("KEY1"), Some(&"value1".to_string()));
    assert_eq!(env_vars.get("KEY2"), Some(&"value2".to_string()));
    assert_eq!(env_vars.get("KEY3"), Some(&"value3".to_string()));
    assert_eq!(env_vars.len(), 3);
}

#[test]
fn test_parse_env_file_edge_cases() {
    let env_content = "KEY1 = value with spaces\nKEY2=\"quoted value\"\nKEY3=";
    let mut env_vars: NameMap<String> = NameMap::new();
    parse_env_file("test_env_edge", Ok(env_content.to_string()), &mut env_vars).unwrap();
    assert_eq!(env_vars.get("KEY1"), Some(&"value with spaces".to_string()));
    assert_eq!(env_vars.get("KEY2"), Some(&"\"quoted value\"".to_string()));
    assert_eq!(env_vars.get("KEY3"), Some(&"".to_string()));
}

#[test]
fn env_files_that_cannot_be_read_change_nothing() {
    let mut env_vars: NameMap<String> = NameMap::new();
    env_vars.insert("A".to_string(), "1".to_string());
    let result = parse_env_file(".env", Err("gone".to_string()), &mut env_vars);
    match result {
        Err(ProcessError::ProcfileRead { path, source }) => {
            assert_eq!(path, ".env");
            assert_eq!(source, "gone");
        }
        _ => panic!("the file cannot be read"),
    }
    assert_eq!(env_vars.len(), 1);
}

#[test]
fn later_assignments_win_and_others_are_passed_over() {
    let mut env_vars: NameMap<String> = NameMap::new();
    env_vars.insert("A".to_string(), "0".to_string());
    let text = "A=1\nno assignment\nA = 2=3\n".to_string();
    parse_env_file(".env", Ok(text), &mut env_vars).unwrap();
    assert_eq!(env_vars.get("A"), Some(&"2=3".to_string()));
    assert_eq!(env_vars.len(), 1);
}

#[test]
fn test_process_info_runtime_calculation() {
    let mut manager = loaded("test: test command");
    manager.runtime.processes.insert(
        "test".to_string(),
        ProcessInfo {
            command: "test command".to_string(),
            status: ProcessStatus::Running,
            restart_count: 0,
            last_restart: Some(0),
            stopped_at: None,
            cumulative_runtime: secs(10),
            exit_code: None,
        },
    );
    finalize_process_exit("test", Some(0), &mut manager.runtime, 100_000_000);
    let info = manager.get_process_info("test").unwrap();
    assert!(info.cumulative_runtime > secs(10));
    assert_eq!(info.cumulative_runtime, 10_100_000_000);
    assert_eq!(info.status, ProcessStatus::Stopped);
    assert_eq!(info.stopped_at, Some(100_000_000));
}

#[test]
fn test_constants_values() {
    assert!(GRACEFUL_SHUTDOWN_TIMEOUT >= secs(1));
    assert!(GRACEFUL_SHUTDOWN_TIMEOUT <= secs(30));
    assert!(PROCESS_WAIT_TIMEOUT < GRACEFUL_SHUTDOWN_TIMEOUT);
    assert_eq!(EXIT_CODE_KEYBOARD_INTERRUPT, 512);
    assert_eq!(EXIT_CODE_CTRL_C_WINDOWS, -1073741510);
    assert_eq!(EXIT_CODE_FORCED_TERMINATION, -1);
    let separator_width: usize = TERMINAL_SEPARATOR_WIDTH;
    assert!(separator_width > 0);
    assert!(separator_width <= 120);
}

#[test]
fn main_test_load_procfile_success() {
    let manager = loaded("web: echo hello\nworker: echo world");
    let mut process_names = manager.process_names();
    process_names.sort();
    assert_eq!(process_names.len(), 2);
    assert!(process_names.contains(&"web".to_string()));
    assert!(process_names.contains(&"worker".to_string()));
}

#[test]
fn main_test_load_procfile_with_comments() {
    let manager = loaded(
        "# This is a comment\nweb: echo hello\n# Another comment\nworker: echo world",
    );
    assert_eq!(manager.process_names().len(), 2);
}

#[test]
fn main_test_load_procfile_duplicate_names() {
    let manager = loaded("web: echo hello\nweb: echo world\nweb: echo test");
    assert!(manager.process_names().iter().any(|n| n.starts_with("web")));
}

#[test]
fn main_test_load_procfile_invalid_format() {
    let mut manager = ProcessManager::new(unix());
    let text = "invalid line without colon".to_string();
    let result = manager.load_procfile("Procfile", Ok(text));
    assert!(matches!(result, Err(ProcessError::InvalidFormat { .. })));
}

#[test]
fn main_test_load_procfile_empty() {
    let mut manager = ProcessManager::new(unix());
    let result = manager.load_procfile("Procfile", Ok("\n# Just comments\n\n".to_string()));
    assert!(matches!(result, Err(ProcessError::NoProcesses)));
}

#[test]
fn main_test_load_procfile_nonexistent() {
    let mut manager = ProcessManager::new(unix());
    let reason = "No such file or directory".to_string();
    let result = manager.load_procfile("nonexistent_file.txt", Err(reason));
    assert!(matches!(result, Err(ProcessError::ProcfileRead { .. })));
}

#[test]
fn process_manager_test_load_procfile_success() {
    let manager = loaded("web: echo hello\nworker: echo world");
    let process_names = manager.process_names();
    assert_eq!(process_names, vec!["web".to_string(), "worker".to_string()]);
    let info = manager.get_process_info("web").unwrap();
    assert_eq!(info.command, "echo hello");
    assert_eq!(info.status, ProcessStatus::Stopped);
}

#[test]
fn process_manager_test_load_procfile_with_comments() {
    let manager = loaded(
        "# This is a comment\nweb: echo hello\n# Another comment\nworker: echo world",
    );
    assert_eq!(manager.process_names().len(), 2);
    assert_eq!(manager.get_max_name_length(), 6);
}

#[test]
fn process_manager_test_load_procfile_duplicate_names() {
    let manager = loaded("web: echo hello\nweb: echo world\nweb: echo test");
    let names = manager.process_names();
    assert_eq!(names, vec!["web", "web.2", "web.3"]);
    assert_eq!(manager.get_process_info("web.3").unwrap().command, "echo test");
    assert!(names.iter().any(|n| n.starts_with("web")));
}

#[test]
fn process_manager_test_load_procfile_invalid_format() {
    let mut manager = ProcessManager::new(unix());
    let text = "invalid line without colon".to_string();
    match manager.load_procfile("Procfile", Ok(text)) {
        Err(ProcessError::InvalidFormat { line }) => {
            assert_eq!(line, "invalid line without colon")
        }
        _ => panic!("the line is not valid"),
    }
}

#[test]
fn process_manager_test_load_procfile_empty() {
    let mut manager = ProcessManager::new(unix());
    let result = manager.load_procfile("Procfile", Ok("\n# Just comments\n\n".to_string()));
    assert!(matches!(result, Err(ProcessError::NoProcesses)));
}

#[test]
fn process_manager_test_load_procfile_nonexistent() {
    let mut manager = ProcessManager::new(unix());
    match manager.load_procfile("nonexistent_file.txt", Err("gone".to_string())) {
        Err(ProcessError::ProcfileRead { path, source }) => {
            assert_eq!(path, "nonexistent_file.txt");
            assert_eq!(source, "gone");
        }
        _ => panic!("the file cannot be read"),
    }
}

#[test]
fn refused_procfiles_change_nothing() {
    let mut manager = loaded("web: echo hello");
    let result = manager.load_procfile("other", Ok("a: b\nbad".to_string()));
    assert!(result.is_err());
    assert_eq!(manager.process_names(), vec!["web".to_string()]);
    manager.load_procfile("other", Ok("a: b".to_string())).unwrap();
    assert_eq!(manager.process_names(), vec!["a".to_string()]);
}

#[test]
fn definitions_need_name_colon_and_white_space() {
    let parts = |n: &str, c: &str| Some((n.to_string(), c.to_string()));
    assert_eq!(parse_definition("web: echo hi"), parts("web", "echo hi"));
    assert_eq!(parse_definition("web:\t  echo: hi "), parts("web", "echo: hi "));
    assert_eq!(parse_definition("größe_1: x"), parts("größe_1", "x"));
    assert_eq!(parse_definition("a: "), parts("a", ""));
    assert_eq!(parse_definition("web:echo"), None);
    assert_eq!(parse_definition("web-1: echo"), None);
    assert_eq!(parse_definition("web.2: echo"), None);
    assert_eq!(parse_definition(": echo"), None);
    assert_eq!(parse_definition("web"), None);
    assert_eq!(parse_definition("a: x\ny"), None);
}

#[test]
fn word_characters_are_those_of_the_regex() {
    let class = regex::Regex::new(r"^\w$").unwrap();
    for c in ['a', 'Z', '5', '_', '.', '-', ' ', 'é', '\u{301}', '日', '٣', '‿', '\u{200d}', '€'] {
        let line = format!("{c}: x");
        let expected = class.is_match(&c.to_string());
        assert_eq!(parse_definition(&line).is_some(), expected);
    }
}

#[test]
fn procfiles_give_colours_in_turn() {
    let text = "a: 1\nb: 2\nc: 3\nd: 4\ne: 5\nf: 6\ng: 7\nh: 8".to_string();
    let data = parse_procfile("Procfile", Ok(text)).unwrap();
    assert_eq!(data.colors.get("a"), Some(&Color::Cyan));
    assert_eq!(data.colors.get("g"), Some(&Color::BrightBlue));
    assert_eq!(data.colors.get("h"), Some(&Color::Cyan));
    assert_eq!(data.max_name_length, 1);
}

#[test]
fn main_test_start_stop_process() {
    let mut manager = loaded("test: sleep 5");
    assert!(start(&mut manager, "test", secs(1)).is_ok());
    assert!(stop(&mut manager, "test", secs(2)).is_ok());
}

#[test]
fn process_manager_test_start_stop_process() {
    let mut manager = loaded("test: sleep 5");
    let (mut op, step) = manager.start_process("test");
    match &step.action {
        Action::Spawn(plan) => {
            assert_eq!(plan.program, "sh");
            assert_eq!(plan.args, vec!["-c", "sleep 5"]);
            assert!(!plan.raw_args);
            assert!(plan.inherit_stdin);
            assert_eq!(plan.group, Some(GroupSetup::ProcessGroup(0)));
        }
        _ => panic!("a child is spawned"),
    }
    assert!(carry_out(&mut manager, &mut op, step, secs(1)).is_ok());
    assert!(stop(&mut manager, "test", secs(2)).is_ok());
}

#[test]
fn main_test_handle_command_status() {
    let manager = ProcessManager::new(unix());
    assert!(matches!(manager.handle_command("status"), Command::Status));
    let rule = "-".repeat(60);
    assert_eq!(
        plain(&manager.show_status(0)),
        vec!["\nProcess Status:".to_string(), rule.clone(), format!("{rule}\n")]
    );
}

#[test]
fn main_test_handle_command_unknown() {
    let manager = ProcessManager::new(unix());
    let result = manager.handle_command_with_state("unknown command", false);
    assert!(matches!(result, Command::Refuse { .. }));
}

#[test]
fn main_test_handle_command_empty() {
    let manager = ProcessManager::new(unix());
    assert!(matches!(manager.handle_command_with_state("", false), Command::Nothing));
}

#[test]
fn process_manager_test_handle_command_status() {
    let manager = ProcessManager::new(unix());
    assert!(matches!(manager.handle_command("  status "), Command::Status));
}

#[test]
fn process_manager_test_handle_command_unknown() {
    let manager = ProcessManager::new(unix());
    match manager.handle_command("unknown command") {
        Command::Refuse { notice: Some(Notice::Print(text)), error } => {
            assert_eq!(text, "Unknown command: unknown command");
            assert_eq!(
                error.to_string(),
                "Error reading input: Unknown command: unknown command"
            );
        }
        _ => panic!("the command is not known"),
    }
}

#[test]
fn process_manager_test_handle_command_empty() {
    let manager = ProcessManager::new(unix());
    assert!(matches!(manager.handle_command(""), Command::Nothing));
}

#[test]
fn commands_are_understood() {
    let manager = ProcessManager::new(unix());
    let ui = LifecycleOptions::with_ui();
    assert!(matches!(manager.handle_command("q"), Command::Nothing));
    assert!(matches!(manager.handle_command("quit"), Command::Nothing));
    assert!(matches!(manager.handle_command("stop all"), Command::StopAll));
    assert!(matches!(manager.handle_command("s web"), Command::Stop(name) if name == "web"));
    assert!(matches!(manager.handle_command("r web"), Command::Restart(name) if name == "web"));
    assert!(matches!(manager.handle_command("start web"), Command::Start(name) if name == "web"));
    match manager.handle_command_with_opts("restart", &ui) {
        Command::Refuse { notice: Some(Notice::Log(text)), error } => {
            assert_eq!(text, "Usage: restart <name> - Restart a specific process");
            assert_eq!(
                error.to_string(),
                "Error reading input: Missing process name for restart command"
            );
        }
        _ => panic!("the name is missing"),
    }
    assert!(matches!(
        manager.handle_command_with_opts("web start", &ui),
        Command::Refuse { notice: None, .. }
    ));
    assert!(matches!(manager.handle_command("stopall"), Command::Refuse { .. }));
}

#[test]
fn test_natural_exit_updates_process_status() {
    let mut manager = loaded("quick: echo hello from gaffa test");
    start(&mut manager, "quick", secs(1)).unwrap();
    finalize_process_exit("quick", Some(0), &mut manager.runtime, secs(2));
    let info = manager.get_process_info("quick").expect("process should exist");
    assert_eq!(info.status, ProcessStatus::Stopped);
    assert!(info.exit_code.is_some());
    assert_eq!(info.exit_code, Some(0));
}

#[test]
fn test_natural_exit_removes_from_children() {
    let mut manager = loaded("quick: echo hello from gaffa test");
    start(&mut manager, "quick", secs(1)).unwrap();
    assert!(manager.children_count() > 0);
    finalize_process_exit("quick", Some(0), &mut manager.runtime, secs(2));
    assert_eq!(manager.children_count(), 0);
}

#[test]
fn test_natural_exit_handle_cleanup() {
    let mut manager = loaded("quick: echo hello from gaffa test");
    start(&mut manager, "quick", secs(1)).unwrap();
    assert_eq!(manager.monitor_handle_count(), 1);
    assert_eq!(manager.output_handle_count(), 2);
    finalize_process_exit("quick", Some(0), &mut manager.runtime, secs(2));
    assert_eq!(manager.monitor_handle_count(), 0);
    assert_eq!(manager.output_handle_count(), 0);
}

#[test]
fn test_restart_cleans_up_handles() {
    let mut manager = loaded("svc: sleep 3");
    start(&mut manager, "svc", secs(1)).unwrap();
    assert_eq!(manager.monitor_handle_count(), 1);
    assert_eq!(manager.output_handle_count(), 2);
    restart(&mut manager, "svc", secs(2)).unwrap();
    assert_eq!(manager.monitor_handle_count(), 1);
    assert_eq!(manager.output_handle_count(), 2);
}

#[test]
fn test_multiple_restarts_no_handle_accumulation() {
    let mut manager = loaded("svc: sleep 3");
    start(&mut manager, "svc", secs(1)).unwrap();
    let restart_count: u32 = 3;
    for i in 0..restart_count {
        restart(&mut manager, "svc", secs(2 + i as u128)).unwrap();
        assert_eq!(manager.children_count(), 1);
    }
    let info = manager.get_process_info("svc").unwrap();
    assert_eq!(info.restart_count, restart_count);
}

#[test]
fn test_restart_preserves_cumulative_runtime() {
    let mut manager = loaded("svc: sleep 3");
    start(&mut manager, "svc", secs(1)).unwrap();
    restart(&mut manager, "svc", secs(3)).unwrap();
    let info = manager.get_process_info("svc").unwrap();
    assert!(info.cumulative_runtime >= secs(1));
    assert_eq!(info.cumulative_runtime, secs(2));
}

#[test]
fn test_stop_process_updates_status_and_exit_code() {
    let mut manager = loaded("svc: sleep 3");
    start(&mut manager, "svc", secs(1)).unwrap();
    stop(&mut manager, "svc", secs(2)).unwrap();
    let info = manager.get_process_info("svc").unwrap();
    assert_eq!(info.status, ProcessStatus::Stopped);
    assert!(info.exit_code.is_some());
    assert!(info.stopped_at.is_some());
}

#[test]
fn test_stop_process_cleans_up_handles() {
    let mut manager = loaded("svc: sleep 3");
    start(&mut manager, "svc", secs(1)).unwrap();
    assert_eq!(manager.children_count(), 1);
    assert_eq!(manager.monitor_handle_count(), 1);
    assert_eq!(manager.output_handle_count(), 2);
    stop(&mut manager, "svc", secs(2)).unwrap();
    assert_eq!(manager.children_count(), 0);
    assert_eq!(manager.monitor_handle_count(), 0);
    assert_eq!(manager.output_handle_count(), 0);
}

#[test]
fn test_stop_all_stops_multiple_processes() {
    let mut manager = loaded("svc1: sleep 3\nsvc2: sleep 3\nsvc3: sleep 3");
    for name in manager.process_names() {
        start(&mut manager, &name, secs(1)).unwrap();
    }
    assert_eq!(manager.children_count(), 3);
    let plan = manager.stop_all().expect("processes are running");
    assert_eq!(plan.names, vec!["svc1", "svc2", "svc3"]);
    assert_eq!(plan.timeout, secs(11));
    assert_eq!(plan.opts, LifecycleOptions::quiet());
    assert!(matches!(
        plan.notice,
        Some(Notice::Print(text)) if text == "Interrupt received, stopping processes gracefully..."
    ));
    for name in &plan.names {
        let (mut op, step) = manager.stop_process_with_opts(name, &plan.opts);
        assert!(step.notice.is_none());
        carry_out(&mut manager, &mut op, step, secs(2)).unwrap();
    }
    assert_eq!(manager.children_count(), 0);
    for (_name, info, _color) in &manager.process_snapshot() {
        assert_eq!(info.status, ProcessStatus::Stopped);
    }
    assert!(manager.all_stopped());
}

#[test]
fn test_stop_already_stopped_process_returns_error() {
    let mut manager = loaded("svc: echo hello from gaffa test");
    start(&mut manager, "svc", secs(1)).unwrap();
    finalize_process_exit("svc", Some(0), &mut manager.runtime, secs(2));
    assert!(stop(&mut manager, "svc", secs(3)).is_err());
}

#[test]
fn test_stop_nonexistent_process_returns_error() {
    let mut manager = loaded("svc: echo hello from gaffa test");
    let result = stop(&mut manager, "nonexistent", secs(1));
    assert!(matches!(result, Err(ProcessError::ProcessNotRunning { name }) if name == "nonexistent"));
}

#[test]
fn test_start_already_running_returns_error() {
    let mut manager = loaded("svc: sleep 3");
    start(&mut manager, "svc", secs(1)).unwrap();
    let result = start(&mut manager, "svc", secs(2));
    assert!(matches!(result, Err(ProcessError::ProcessAlreadyRunning { name }) if name == "svc"));
}

#[test]
fn test_stop_all_with_no_running_processes_is_noop() {
    let manager = loaded("svc: echo hello from gaffa test");
    assert!(manager.stop_all().is_none());
    assert_eq!(manager.children_count(), 0);
}

#[test]
fn test_process_status_transitions() {
    let mut manager = loaded("svc: sleep 3");
    let info = manager.get_process_info("svc").unwrap();
    assert_eq!(info.status, ProcessStatus::Stopped);
    assert_eq!(info.restart_count, 0);
    assert!(info.last_restart.is_none());
    start(&mut manager, "svc", secs(1)).unwrap();
    let info = manager.get_process_info("svc").unwrap();
    assert_eq!(info.status, ProcessStatus::Running);
    assert!(info.last_restart.is_some());
    stop(&mut manager, "svc", secs(2)).unwrap();
    let info = manager.get_process_info("svc").unwrap();
    assert_eq!(info.status, ProcessStatus::Stopped);
    assert!(info.stopped_at.is_some());
    start(&mut manager, "svc", secs(3)).unwrap();
    let info = manager.get_process_info("svc").unwrap();
    assert_eq!(info.status, ProcessStatus::Running);
    assert!(info.restart_count >= 1);
}

#[test]
fn test_multiple_processes_independent_lifecycle() {
    let mut manager = loaded("short: echo hello from gaffa test\nlong: sleep 3");
    start(&mut manager, "short", secs(1)).unwrap();
    start(&mut manager, "long", secs(1)).unwrap();
    finalize_process_exit("short", Some(0), &mut manager.runtime, secs(2));
    assert_eq!(
        manager.get_process_info("short").unwrap().status,
        ProcessStatus::Stopped
    );
    assert_eq!(
        manager.get_process_info("long").unwrap().status,
        ProcessStatus::Running
    );
}

#[test]
fn test_rapid_start_stop_cycles() {
    let mut manager = loaded("svc: sleep 3");
    for i in 0..3u128 {
        start(&mut manager, "svc", secs(2 * i)).unwrap();
        stop(&mut manager, "svc", secs(2 * i + 1)).unwrap();
        assert_eq!(manager.children_count(), 0);
    }
    assert_eq!(manager.monitor_handle_count(), 0);
    assert_eq!(manager.output_handle_count(), 0);
}

#[test]
fn test_procfile_with_duplicate_names() {
    let line = "web: echo hello from gaffa test";
    let manager = loaded(&format!("{line}\n{line}\n{line}"));
    let mut names = manager.process_names();
    names.sort();
    assert!(names.iter().any(|n| n == "web"));
    assert!(names.len() >= 2);
    assert_eq!(names, vec!["web", "web.2", "web.3"]);
}

#[test]
fn test_procfile_empty_returns_error() {
    let mut manager = ProcessManager::new(unix());
    let result = manager.load_procfile("Procfile", Ok("# just comments\n\n".to_string()));
    assert!(result.is_err());
}

#[test]
fn test_procfile_invalid_format_returns_error() {
    let mut manager = ProcessManager::new(unix());
    let result = manager.load_procfile("Procfile", Ok("this is not valid".to_string()));
    assert!(result.is_err());
}

#[test]
fn environment_variables_go_to_every_child() {
    let mut manager = loaded("env_test: sh -c 'echo $GAFFA_TEST_VAR'");
    let mut env_vars: NameMap<String> = NameMap::new();
    env_vars.insert("GAFFA_TEST_VAR".to_string(), "hello_from_env".to_string());
    manager.set_environment_variables(env_vars);
    manager.set_log_file();
    let (_op, step) = manager.start_process_with_opts("env_test", &LifecycleOptions::with_ui());
    match step.action {
        Action::Spawn(plan) => {
            assert_eq!(
                plan.env,
                vec![("GAFFA_TEST_VAR".to_string(), "hello_from_env".to_string())]
            );
            assert!(!plan.inherit_stdin);
        }
        _ => panic!("a child is spawned"),
    }
    assert!(manager.config.log_file);
}

#[test]
fn windows_shells_get_the_prepared_command() {
    let mut manager = ProcessManager::new(Host { windows: true, pwsh_on_path: true });
    let text = "web: echo \"hi\"".to_string();
    manager.load_procfile("Procfile", Ok(text)).unwrap();
    let (_op, step) = manager.start_process("web");
    match step.action {
        Action::Spawn(plan) => {
            assert_eq!(plan.program, "pwsh");
            assert_eq!(plan.args, vec!["-NoProfile", "-Command", "echo \\\"hi\\\""]);
            assert!(plan.raw_args);
        }
        _ => panic!("a child is spawned"),
    }
    manager.set_shell(Shell::from_program("cmd"));
    assert_eq!(manager.config.shell.program, "cmd");
}

#[test]
fn starts_that_fail_leave_their_errors() {
    let mut manager = loaded("web: echo");
    let (_op, step) = manager.start_process("other");
    assert!(matches!(
        step.action,
        Action::Finish(Err(ProcessError::ProcessNotFound { name })) if name == "other"
    ));
    let (mut op, step) = manager.start_process("web");
    assert!(matches!(step.action, Action::Spawn(_)));
    assert_eq!(op.phase, Phase::Spawning);
    let failed = manager.resume(&mut op, Event::Spawned(Err("denied".to_string())));
    assert!(matches!(
        failed.action,
        Action::Finish(Err(ProcessError::ProcessSpawn { name, source }))
            if name == "web" && source == "denied"
    ));
    assert_eq!(
        manager.get_process_info("web").unwrap().status,
        ProcessStatus::Restarting
    );
    let mut info = manager.get_process_info("web").unwrap();
    info.command = "   ".to_string();
    manager.runtime.processes.insert("web".to_string(), info);
    let (_op, step) = manager.start_process_with_opts("web", &LifecycleOptions::with_ui());
    assert!(matches!(
        step.notice,
        Some(Notice::ProcessLog { name, text }) if name == "web" && text == "Starting 'web'..."
    ));
    assert!(matches!(
        step.action,
        Action::Finish(Err(ProcessError::EmptyCommand { name })) if name == "web"
    ));
}

#[test]
fn stubborn_processes_are_told_apart() {
    let mut manager = loaded("web: sleep 3");
    start(&mut manager, "web", secs(1)).unwrap();
    let (mut op, step) = manager.stop_process("web");
    assert!(matches!(step.action, Action::Ask(ActorCommand::Stop)));
    let survived = manager.resume(&mut op, Event::Replied(Reply::Code(None)));
    assert!(matches!(
        survived.notice,
        Some(Notice::Print(text)) if text == "Process 'web' is ignoring termination signals"
    ));
    assert!(matches!(survived.action, Action::Finish(Ok(()))));
    let (mut op, _step) = manager.stop_process("web");
    let gone = manager.resume(&mut op, Event::Replied(Reply::Closed));
    assert!(matches!(
        gone.action,
        Action::Finish(Err(ProcessError::ProcessNotRunning { .. }))
    ));
    assert_eq!(manager.send_actor_command("web", Reply::Dropped), Some(Some(-1)));
    assert_eq!(manager.send_actor_command("other", Reply::Dropped), None);
}

#[test]
fn restarts_escalate_and_settle() {
    let mut manager = loaded("web: sleep 3");
    start(&mut manager, "web", secs(1)).unwrap();
    let (mut op, step) = manager.restart_process("web");
    assert!(matches!(
        step.notice,
        Some(Notice::Print(text)) if text == "Restarting process 'web'..."
    ));
    assert!(matches!(step.action, Action::Ask(ActorCommand::Stop)));
    let step = manager.resume(&mut op, Event::Replied(Reply::Code(None)));
    assert!(matches!(step.action, Action::Ask(ActorCommand::Kill)));
    let step = manager.resume(&mut op, Event::Replied(Reply::Code(None)));
    assert!(matches!(step.action, Action::Sleep(200_000_000)));
    let step = manager.resume(&mut op, Event::Slept);
    assert!(matches!(
        step.action,
        Action::Finish(Err(ProcessError::ProcessAlreadyRunning { .. }))
    ));
    assert!(!manager.can_resume(&op, &Event::Slept));
}

#[test]
fn actors_close_with_their_child() {
    let (phase, action) = run_process_actor(ActorPhase::Watching, ActorEvent::Exited(Some(3)));
    assert_eq!(phase, ActorPhase::NotingExit { exit_code: Some(3) });
    assert_eq!(action, ActorAction::Note { exit_code: Some(3) });
    let (phase, action) = run_process_actor(phase, ActorEvent::Noted);
    assert_eq!(phase, ActorPhase::Closed);
    assert_eq!(action, ActorAction::Announce { exit_code: Some(3) });
    let told = ActorEvent::Told(ActorCommand::Stop);
    let (phase, action) = run_process_actor(ActorPhase::Watching, told);
    assert_eq!((phase, action), (ActorPhase::Stopping, ActorAction::Terminate));
    let (phase, action) = run_process_actor(phase, ActorEvent::Survived);
    assert_eq!((phase, action), (ActorPhase::Watching, ActorAction::ReplySurvived));
    let told = ActorEvent::Told(ActorCommand::Kill);
    let (phase, action) = run_process_actor(phase, told);
    assert_eq!(action, ActorAction::Kill { wait: secs(2) });
    assert!(actor_accepts(phase, ActorEvent::Ended(None)));
    assert!(!actor_accepts(phase, ActorEvent::Noted));
    let (phase, action) = run_process_actor(phase, ActorEvent::Ended(None));
    assert_eq!(phase, ActorPhase::NotingEnd { code: -1 });
    assert_eq!(action, ActorAction::Note { exit_code: Some(-1) });
    let (phase, action) = run_process_actor(phase, ActorEvent::Noted);
    assert_eq!((phase, action), (ActorPhase::Closed, ActorAction::Reply { code: -1 }));
    assert!(!actor_accepts(phase, ActorEvent::Noted));
    let (phase, action) = run_process_actor(ActorPhase::Watching, ActorEvent::Abandoned);
    assert_eq!((phase, action), (ActorPhase::Alone, ActorAction::WaitAlone));
    assert!(actor_accepts(phase, ActorEvent::Exited(None)));
}

#[test]
fn exits_are_announced_on_the_screen() {
    let said = |code: Option<i32>| match announce_natural_exit("web", code, true) {
        Some(Notice::Log(text)) => text,
        _ => panic!("the screen shows it"),
    };
    assert_eq!(said(Some(0)), "Process 'web' exited cleanly");
    assert_eq!(said(Some(-1)), "Process 'web' terminated gracefully");
    assert_eq!(said(Some(512)), "Process 'web' interrupted gracefully");
    assert_eq!(said(Some(-1073741510)), "Process 'web' interrupted gracefully");
    assert_eq!(said(Some(3)), "Process 'web' exited with code 3");
    assert_eq!(said(Some(-15)), "Process 'web' exited with code -15");
    assert_eq!(said(None), "Process 'web' terminated by signal");
    assert!(announce_natural_exit("web", Some(0), false).is_none());
}

#[test]
fn interrupts_go_to_all_children() {
    let mut manager = loaded("web: sleep 3\nworker: sleep 3");
    start(&mut manager, "web", secs(1)).unwrap();
    assert_eq!(
        manager.send_ctrl_c_to_all(),
        vec![(4711, "Sending SIGINT to 'web'...".to_string())]
    );
    manager.config.host = Host { windows: true, pwsh_on_path: false };
    assert_eq!(
        manager.send_ctrl_c_to_all(),
        vec![(4711, "Sending interrupt signal to 'web'...".to_string())]
    );
}

#[test]
fn orphans_are_fixed() {
    let mut manager = loaded("web: sleep 3\nworker: sleep 3");
    start(&mut manager, "web", secs(1)).unwrap();
    start(&mut manager, "worker", secs(1)).unwrap();
    manager.runtime.actors.remove("web");
    assert!(!manager.all_started_processes_stopped());
    manager.fix_orphaned_process_status(secs(5));
    let web = manager.get_process_info("web").unwrap();
    assert_eq!(web.status, ProcessStatus::Stopped);
    assert_eq!(web.stopped_at, Some(secs(5)));
    let worker = manager.get_process_info("worker").unwrap();
    assert_eq!(worker.status, ProcessStatus::Running);
}

#[test]
fn processes_that_never_ran_count_as_stopped() {
    let mut manager = loaded("web: sleep 3\nworker: sleep 3");
    assert!(manager.all_started_processes_stopped());
    start(&mut manager, "web", secs(1)).unwrap();
    assert!(!manager.all_started_processes_stopped());
    assert!(!manager.all_stopped());
    stop(&mut manager, "web", secs(2)).unwrap();
    assert!(manager.all_started_processes_stopped());
}

#[test]
fn shutdowns_that_fail_are_listed() {
    let outcomes = vec![
        ("a".to_string(), true),
        ("b".to_string(), false),
        ("c".to_string(), false),
    ];
    assert_eq!(failed_shutdowns(&outcomes), vec!["b", "c"]);
    assert!(stopped_in_time(&Some(Ok(()))));
    assert!(!stopped_in_time(&None));
    assert!(!stopped_in_time(&Some(Err(ProcessError::NoProcesses))));
}

#[test]
fn processes_can_be_selected() {
    let mut manager = loaded("web: 1\nworker: 2\ndb: 3");
    manager.retain_processes(&vec!["db".to_string(), "web".to_string()]);
    assert_eq!(manager.process_names(), vec!["web", "db"]);
    assert_eq!(manager.get_max_name_length(), 6);
    assert_eq!(manager.get_colors().len(), 3);
    assert_eq!(manager.color_for("db"), Color::Blue);
    assert_eq!(manager.color_for("other"), Color::White);
    assert_eq!(ProcessManager::get_process_color(8), Color::Yellow);
}

#[test]
fn system_messages_are_aligned() {
    let manager = loaded("scheduler: 1");
    let lines = [manager.print_system_message("hi"), manager.print_console_message("hi")];
    assert_eq!(plain(&lines), vec!["gaffa     │ hi", "gaffa     | hi"]);
}

#[test]
fn statuses_are_listed() {
    let mut manager = loaded("web: sleep 3");
    start(&mut manager, "web", secs(1)).unwrap();
    restart(&mut manager, "web", secs(61)).unwrap();
    let table = plain(&manager.show_status(secs(66)));
    assert_eq!(
        table[2],
        "         web | RUNNING |              1 restart |    5s (1m5s)"
    );
    assert_eq!(plain(&manager.show_status_with_state(false, secs(66))), table);
    let info = manager.get_process_info("web").unwrap();
    assert_eq!(
        layout_screen_row("web", "RUNNING", &info, secs(66)),
        "         web |      RUNNING |        1 restarts |       5s uptime"
    );
}

#[test]
fn statuses_on_the_screen_are_coloured() {
    colored::control::set_override(true);
    let mut manager = loaded("web: sleep 3");
    start(&mut manager, "web", secs(1)).unwrap();
    let rows = manager.show_status_with_opts(&LifecycleOptions::with_ui(), secs(6));
    assert_eq!(
        rows,
        vec![
            "         web | \x1b[32mRUNNING\x1b[0m |        0 restarts |       5s uptime".to_string()
        ]
    );
}

#[test]
fn definitions_are_split_behind_the_name() {
    assert_eq!(
        split_definition("a-b:  x y", 3),
        Some(("a-b".to_string(), "x y".to_string()))
    );
    assert_eq!(split_definition("a-b: x", 1), None);
    assert_eq!(split_definition("a: x", 0), None);
    assert_eq!(split_definition("abc", 3), None);
}

#[test]
fn names_that_come_again_are_numbered() {
    let pair = |n: &str, c: &str| (n.to_string(), c.to_string());
    let data = build_procfile(&vec![pair("a", "1"), pair("b", "2"), pair("a", "3")]);
    assert_eq!(data.processes.all_names(), vec!["a", "b", "a.2"]);
    assert_eq!(data.processes.get("a.2").unwrap().command, "3");
    assert_eq!(data.colors.get("a.2"), Some(&Color::Blue));
    assert_eq!(data.max_name_length, 3);
}

#[test]
fn children_that_survive_a_restart_are_left_alone() {
    let mut manager = loaded("web: sleep 3");
    start(&mut manager, "web", secs(1)).unwrap();
    let before = manager.get_process_info("web").unwrap();
    let (mut op, _step) = manager.restart_process("web");
    manager.resume(&mut op, Event::Replied(Reply::Code(None)));
    manager.resume(&mut op, Event::Replied(Reply::Code(None)));
    let step = manager.resume(&mut op, Event::Slept);
    assert!(matches!(
        step.action,
        Action::Finish(Err(ProcessError::ProcessAlreadyRunning { .. }))
    ));
    let after = manager.get_process_info("web").unwrap();
    assert_eq!(after.status, before.status);
    assert_eq!(after.restart_count, before.restart_count);
    assert_eq!(manager.children_count(), 1);
}

#[test]
fn definitions_agree_with_the_regex() {
    let pattern = regex::Regex::new(r"^(\w+):\s+(.*)$").unwrap();
    for line in [
        "web: echo",
        "web:  a  b ",
        "web:\u{a0}x",
        "web:\u{2003}\u{85}x",
        "w e: x",
        "web :x",
        "web: ",
        "web:",
        "web:x y",
        ":x",
        "é日_9: go",
        "a.b: c",
        "a\u{200d}b: c",
        "a: b\r c",
        "a: b\n c",
        "a: \n c",
        "a:\n",
        "",
        "x",
    ] {
        let expected = pattern
            .captures(line)
            .map(|caps| (caps[1].to_string(), caps[2].to_string()));
        assert_eq!(parse_definition(line), expected, "{line:?}");
    }
}

#[test]
fn colours_can_be_had_when_free() {
    let manager = loaded("web: x");
    assert!(manager.try_get_colors(false).is_none());
    assert_eq!(manager.try_get_colors(true).unwrap().get("web"), Some(&Color::Cyan));
}
